//! Conversions into graph nodes.

use vstd::prelude::*;

use super::node::Node;

verus! {

/// Converts something to one graph node.
pub trait ToNode {
    fn to_node(&self) -> Node;
}

/// Converts something to multiple graph nodes.
pub trait ToNodes {
    fn to_nodes(&self) -> Vec<Node>;
}

impl ToNode for String {
    /// A leaf labelled with the string itself.
    fn to_node(&self) -> (r: Node)
        ensures
            r.label@ == self@,
            r.children@.len() == 0,
    {
        Node::new(self.as_str())
    }
}

} // verus!
