//! A basic graph node: a label and its children.

use vstd::prelude::*;

verus! {

/// A basic graph node.
#[derive(Debug)]
pub struct Node {
    pub label: String,
    pub children: Vec<Node>,
}

impl Node {
    /// Creates a leaf with the given label.
    pub fn new(label: &str) -> (r: Node)
        ensures
            r.label@ == label@,
            r.children@.len() == 0,
    {
        Node { label: label.to_owned(), children: Vec::new() }
    }

    /// Adds children to this node with a fluent pattern.
    pub fn add(self, node: Node) -> (r: Node)
        ensures
            r.label == self.label,
            r.children@ == self.children@.push(node),
    {
        let mut children = self.children;
        children.push(node);
        Node { label: self.label, children }
    }
}

} // verus!
