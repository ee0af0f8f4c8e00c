//! A compiler for TinyBASIC: programs with numbered lines, integer
//! variables, conditional branches and line-addressed jumps are lowered to a
//! freestanding x86-64 Linux ELF executable that performs its own system
//! calls for input, output and termination.
//!
//! The pipeline is: a parse tree ([`parse_tree::ParseNode`]) is turned into a
//! [`syntax_tree::SyntaxTree`] while a [`symbol_table::SymbolTable`] assigns
//! stack slots; the tree is lowered to an instruction stream
//! ([`assembly::Program`]); two optimizers (a constant folder on the tree and a
//! peephole pass on the stream) may be applied; finally [`elf`] lays the
//! program out as a runnable binary image.

pub mod assembly;
pub mod elf;
pub mod error;
pub mod generate;
pub mod graphviz;
pub mod optimize;
pub mod parse_tree;
pub mod symbol_table;
pub mod syntax_tree;
pub mod text;

use vstd::prelude::*;

verus! {

} // verus!
