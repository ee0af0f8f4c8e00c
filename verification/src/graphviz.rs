//! Graph descriptions for the debug artifacts: a tree of labelled nodes
//! that the bundled front end renders as Graphviz dot text. (The rendering
//! itself, like the external `dot` tool, is an output concern and lives
//! with the front end.)

mod digraph;
mod node;
mod to_node;

pub use digraph::Digraph;
pub use node::Node;
pub use to_node::{ToNode, ToNodes};
