//! Code generation: lowering the syntax tree to the assembly IR.
//!
//! Register conventions, fixed throughout: `R15` holds the stack pointer
//! captured at entry and acts as the frame base; `RBX` is the value
//! register in which symbol reads and single-result subexpressions finish;
//! `R8` and `R9` are the binary-operator working registers; `R14` is
//! scratch for the stack-pointer juggling of loads and stores; `RAX` and
//! `RDX` serve the system calls and division; `RCX`, `RSI` and `RDI` are
//! used by the system calls and the `printn` helper.

use vstd::prelude::*;

use crate::assembly::Program;
use crate::symbol_table::SymbolTable;

verus! {

/// The monotonic counters that code generation threads through the
/// pipeline: one numbering the conditionals (their `then`/`fi` labels), one
/// numbering the interned string literals.
#[derive(Clone, Copy, PartialEq, Eq, Structural, Debug)]
pub struct Counters {
    pub cond: u64,
    pub literal: u64,
}

impl Counters {
    /// Fresh counters, for one compilation.
    pub fn new() -> (r: Counters)
        ensures
            r == (Counters { cond: 0u64, literal: 0u64 }),
    {
        Counters { cond: 0, literal: 0 }
    }
}

/// The names of the artifact files one compilation writes: the syntax-tree
/// graph, the assembly listing, and the executable.
pub struct Names<'a> {
    pub ast: &'a str,
    pub listing: &'a str,
    pub bin: &'a str,
}

/// This trait represents elements that can be converted to assembly for
/// code generation. Each implementation's `ensures` pins the emitted
/// instructions down; the counters advance by the conditionals and string
/// literals emitted. `gen_requires` states what the element asks of the
/// table and counters: that the identifiers it reads are declared, that
/// the table's region fits the immediate width, and that the counters have
/// room.
pub trait Generate {
    spec fn gen_requires(&self, symbol_table: SymbolTable, counters: Counters) -> bool;

    fn generate(&self, program: Program, symbol_table: &SymbolTable, counters: &mut Counters) -> Program
        requires
            self.gen_requires(*symbol_table, *old(counters)),
    ;
}

} // verus!
