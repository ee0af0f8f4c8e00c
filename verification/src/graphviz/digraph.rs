//! A directed graph rooted at one node.

use vstd::prelude::*;

use super::node::Node;

verus! {

/// A directed graph, described by its root node.
#[derive(Debug)]
pub struct Digraph {
    pub root: Node,
}

impl Digraph {
    /// Creates a new directed graph from a root node.
    pub fn new(root: Node) -> (r: Digraph)
        ensures
            r.root == root,
    {
        Digraph { root }
    }
}

} // verus!
