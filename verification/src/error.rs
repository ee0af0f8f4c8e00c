//! The syntax errors that abort compilation.

use vstd::prelude::*;

verus! {

/// The different types of syntax error that can occur during syntax-tree
/// construction.
#[derive(Clone, Copy, PartialEq, Eq, Structural, Debug)]
pub enum SyntaxError {
    /// Line numbering is not strictly increasing (or a number cannot be
    /// assigned); carries the 1-based source line of the offending token.
    WrongLineNumber(usize),
    /// An integer literal is malformed or out of range.
    ParseIntError,
}

} // verus!
