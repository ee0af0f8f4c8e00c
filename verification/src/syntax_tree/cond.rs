//! Conditions: two operands compared by a relational operator.

use vstd::prelude::*;

use crate::assembly::{Entry, Mnemonic, Operand, Program, Register};
use crate::error::SyntaxError;
use crate::generate::{Counters, Generate};
use crate::parse_tree::{ParseNode, ParseRule, wf_cond};
use crate::symbol_table::{Symbol, SymbolTable};
use crate::text::{i32_of_text, parse_i32};

mod cond_operand;
mod relop;

pub use cond_operand::{CondOpV, CondOperand, lower_operand, operand_declared};
pub use relop::{RelOp, lower_relop, relop_holds, relop_model};

verus! {

/// The mathematical shape of a condition.
pub struct CondV {
    pub lhs: CondOpV,
    pub relop: RelOp,
    pub rhs: CondOpV,
}

/// A condition: `lhs relop rhs`, each side a numeric literal or an
/// identifier.
#[derive(Debug, PartialEq)]
pub struct Cond {
    pub lhs: CondOperand,
    pub relop: RelOp,
    pub rhs: CondOperand,
}

impl View for Cond {
    type V = CondV;

    open spec fn view(&self) -> CondV {
        CondV { lhs: self.lhs@, relop: self.relop, rhs: self.rhs@ }
    }
}

/// The condition's truth value at compile time: defined exactly when both
/// operands are numeric literals.
pub open spec fn cond_const(c: CondV) -> Option<bool> {
    match (c.lhs, c.rhs) {
        (CondOpV::Num(a), CondOpV::Num(b)) => Some(relop_holds(c.relop, a, b)),
        _ => None,
    }
}

impl Cond {
    /// Evaluates the condition at compile time, when both operands are
    /// numeric literals.
    pub fn try_execute(&self) -> (r: Result<bool, ()>)
        ensures
            match cond_const(self@) {
                Some(b) => r == Ok::<bool, ()>(b),
                None => r == Err::<bool, ()>(()),
            },
    {
        match (&self.lhs, &self.rhs) {
            (CondOperand::Num(lhs), CondOperand::Num(rhs)) => Ok(self.relop.execute(*lhs, *rhs)),
            _ => Err(()),
        }
    }
}

/// The operand a condition-operand node denotes: a parsed number or an
/// identifier.
pub open spec fn operand_model(n: ParseNode) -> Result<CondOpV, SyntaxError> {
    if n.rule is Number {
        match i32_of_text(n.text@) {
            Some(v) => Ok(CondOpV::Num(v)),
            None => Err(SyntaxError::ParseIntError),
        }
    } else {
        Ok(CondOpV::Ident(n.text@))
    }
}

/// The condition a well-formed condition node denotes.
pub open spec fn cond_model(n: ParseNode) -> Result<CondV, SyntaxError> {
    match operand_model(n.children@[0]) {
        Err(e) => Err(e),
        Ok(lhs) => match operand_model(n.children@[2]) {
            Err(e) => Err(e),
            Ok(rhs) => Ok(CondV { lhs, relop: relop_model(n.children@[1]), rhs }),
        },
    }
}

impl CondOperand {
    /// Builds a condition operand from a number or identifier node.
    ///
    /// Fails with `ParseIntError` exactly when a numeric operand is
    /// malformed or out of `i32`'s range.
    pub fn from_pair(n: &ParseNode) -> (r: Result<CondOperand, SyntaxError>)
        ensures
            match r {
                Ok(o) => operand_model(*n) == Ok::<CondOpV, SyntaxError>(o@),
                Err(e) => operand_model(*n) == Err::<CondOpV, SyntaxError>(e),
            },
    {
        if matches!(n.rule, ParseRule::Number) {
            match parse_i32(n.text.as_str()) {
                Some(v) => Ok(CondOperand::Num(v)),
                None => Err(SyntaxError::ParseIntError),
            }
        } else {
            Ok(CondOperand::Ident(n.text.clone()))
        }
    }
}

impl Cond {
    /// Builds a condition from a well-formed condition node.
    ///
    /// Fails with `ParseIntError` exactly when a numeric operand is
    /// malformed or out of `i32`'s range; the left operand is read first.
    pub fn from_pair(n: &ParseNode) -> (r: Result<Cond, SyntaxError>)
        requires
            wf_cond(*n),
        ensures
            match r {
                Ok(c) => cond_model(*n) == Ok::<CondV, SyntaxError>(c@),
                Err(e) => cond_model(*n) == Err::<CondV, SyntaxError>(e),
            },
    {
        let lhs = match CondOperand::from_pair(&n.children[0]) {
            Ok(o) => o,
            Err(e) => {
                return Err(e);
            },
        };
        let relop = RelOp::from_pair(&n.children[1]);
        let rhs = match CondOperand::from_pair(&n.children[2]) {
            Ok(o) => o,
            Err(e) => {
                return Err(e);
            },
        };
        Ok(Cond { lhs, relop, rhs })
    }
}

/// Whether both operands' identifiers, if any, are in the table.
pub open spec fn cond_declared(c: CondV, tbl: Seq<(Seq<char>, Symbol)>) -> bool {
    operand_declared(c.lhs, tbl) && operand_declared(c.rhs, tbl)
}

/// The lowering of a condition numbered `k`: the left operand into `R8`,
/// the right into `R9` (each through `RBX`), a compare, and the jump to
/// `then` with index `k` for the relational operator.
pub open spec fn lower_cond(c: CondV, tbl: Seq<(Seq<char>, Symbol)>, k: u64) -> Seq<Entry> {
    lower_operand(c.lhs, tbl) + seq![
        Entry::Instr(Mnemonic::Mov(Register::R8, Operand::Reg(Register::Rbx))),
    ] + lower_operand(c.rhs, tbl) + seq![
        Entry::Instr(Mnemonic::Mov(Register::R9, Operand::Reg(Register::Rbx))),
        Entry::Instr(Mnemonic::Cmp(Register::R8, Operand::Reg(Register::R9))),
    ] + lower_relop(c.relop, k)
}

impl Generate for Cond {
    /// Both operands must be declared and the conditional counter must
    /// have room for the new conditional.
    open spec fn gen_requires(&self, symbol_table: SymbolTable, counters: Counters) -> bool {
        &&& symbol_table.wf()
        &&& symbol_table.spec_current() <= i32::MAX
        &&& cond_declared(self@, symbol_table@)
        &&& counters.cond < u64::MAX
    }

    /// Numbers a new conditional and emits its comparison and jump.
    fn generate(&self, program: Program, symbol_table: &SymbolTable, counters: &mut Counters) -> (r:
        Program)
        ensures
            final(counters).cond == old(counters).cond + 1,
            final(counters).literal == old(counters).literal,
            r.entries@ == program.entries@ + lower_cond(
                self@,
                symbol_table@,
                final(counters).cond,
            ),
            r.data_view() == program.data_view(),
    {
        let p1 = self.lhs.generate(program, symbol_table, counters).add(
            Mnemonic::Mov(Register::R8, Operand::Reg(Register::Rbx)),
        );
        let p2 = self.rhs.generate(p1, symbol_table, counters).add(
            Mnemonic::Mov(Register::R9, Operand::Reg(Register::Rbx)),
        ).add(Mnemonic::Cmp(Register::R8, Operand::Reg(Register::R9)));
        let r = self.relop.generate(p2, symbol_table, counters);
        proof {
            assert(r.entries@ =~= program.entries@ + lower_cond(
                self@,
                symbol_table@,
                counters.cond,
            ));
        }
        r
    }
}

} // verus!
