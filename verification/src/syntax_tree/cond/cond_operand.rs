//! The operand of a condition: a numeric literal or an identifier.

use vstd::prelude::*;

use crate::assembly::{Entry, Immediate, Mnemonic, Operand, Program, Register};
use crate::generate::{Counters, Generate};
use crate::symbol_table::{Symbol, SymbolTable, access_code, lemma_lookup_addr_bound, lookup, sym_end_i32};

verus! {

/// The mathematical shape of a condition operand.
pub enum CondOpV {
    Num(i32),
    Ident(Seq<char>),
}

/// The operand of a condition.
#[derive(Debug, PartialEq)]
pub enum CondOperand {
    Num(i32),
    Ident(String),
}

impl View for CondOperand {
    type V = CondOpV;

    open spec fn view(&self) -> CondOpV {
        match self {
            CondOperand::Num(n) => CondOpV::Num(*n),
            CondOperand::Ident(s) => CondOpV::Ident(s@),
        }
    }
}

/// Whether the identifier the operand reads, if any, is in the table.
pub open spec fn operand_declared(o: CondOpV, tbl: Seq<(Seq<char>, Symbol)>) -> bool {
    match o {
        CondOpV::Num(_) => true,
        CondOpV::Ident(x) => lookup(tbl, x) is Some,
    }
}

/// The lowering of a condition operand: its value ends in `RBX`.
pub open spec fn lower_operand(o: CondOpV, tbl: Seq<(Seq<char>, Symbol)>) -> Seq<Entry> {
    match o {
        CondOpV::Num(n) => seq![
            Entry::Instr(Mnemonic::Mov(Register::Rbx, Operand::Imm(Immediate::Imm32(n)))),
        ],
        CondOpV::Ident(x) => access_code(sym_end_i32(tbl, x)),
    }
}

impl Generate for CondOperand {
    /// The identifier the operand reads must be declared, in a table whose
    /// region fits the 32-bit immediates of stack addressing.
    open spec fn gen_requires(&self, symbol_table: SymbolTable, counters: Counters) -> bool {
        &&& symbol_table.wf()
        &&& symbol_table.spec_current() <= i32::MAX
        &&& operand_declared(self@, symbol_table@)
    }

    /// Emits code that leaves the operand's value in `RBX`.
    fn generate(&self, program: Program, symbol_table: &SymbolTable, counters: &mut Counters) -> (r:
        Program)
        ensures
            r.entries@ == program.entries@ + lower_operand(self@, symbol_table@),
            r.data_view() == program.data_view(),
            *final(counters) == *old(counters),
    {
        match self {
            CondOperand::Num(n) => {
                let r = program.add(
                    Mnemonic::Mov(Register::Rbx, Operand::Imm(Immediate::Imm32(*n))),
                );
                proof {
                    assert(r.entries@ =~= program.entries@ + lower_operand(self@, symbol_table@));
                }
                r
            },
            CondOperand::Ident(x) => {
                proof {
                    lemma_lookup_addr_bound(*symbol_table, x@);
                }
                symbol_table.access(x.as_str(), program)
            },
        }
    }
}

} // verus!
