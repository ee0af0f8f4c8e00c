//! Relational operators.

use vstd::prelude::*;

use crate::assembly::{Entry, Label, Mnemonic, Program};
use crate::generate::{Counters, Generate};
use crate::parse_tree::{ParseNode, ParseRule, wf_relop};
use crate::symbol_table::SymbolTable;

verus! {

/// A relational operator.
#[derive(Clone, Copy, PartialEq, Eq, Structural, Debug)]
pub enum RelOp {
    Eq,
    Ne,
    Ge,
    Gt,
    Le,
    Lt,
}

/// Whether `lhs relop rhs` holds.
pub open spec fn relop_holds(op: RelOp, lhs: i32, rhs: i32) -> bool {
    match op {
        RelOp::Eq => lhs == rhs,
        RelOp::Ne => lhs != rhs,
        RelOp::Ge => lhs >= rhs,
        RelOp::Gt => lhs > rhs,
        RelOp::Le => lhs <= rhs,
        RelOp::Lt => lhs < rhs,
    }
}

impl RelOp {
    /// Compares two constants.
    pub fn execute(&self, lhs: i32, rhs: i32) -> (r: bool)
        ensures
            r == relop_holds(*self, lhs, rhs),
    {
        match self {
            RelOp::Eq => lhs == rhs,
            RelOp::Ne => lhs != rhs,
            RelOp::Ge => lhs >= rhs,
            RelOp::Gt => lhs > rhs,
            RelOp::Le => lhs <= rhs,
            RelOp::Lt => lhs < rhs,
        }
    }

    /// The operator's source spelling, as the debug renderer shows it.
    pub fn symbol(&self) -> (r: &'static str)
        ensures
            r@ == match *self {
                RelOp::Eq => "=="@,
                RelOp::Ne => "<>"@,
                RelOp::Ge => ">="@,
                RelOp::Gt => ">"@,
                RelOp::Le => "<="@,
                RelOp::Lt => "<"@,
            },
    {
        match self {
            RelOp::Eq => "==",
            RelOp::Ne => "<>",
            RelOp::Ge => ">=",
            RelOp::Gt => ">",
            RelOp::Le => "<=",
            RelOp::Lt => "<",
        }
    }
}

/// The relational operator a well-formed relop node names.
pub open spec fn relop_model(n: ParseNode) -> RelOp {
    match n.children@[0].rule {
        ParseRule::Eq => RelOp::Eq,
        ParseRule::Ne => RelOp::Ne,
        ParseRule::Ge => RelOp::Ge,
        ParseRule::Gt => RelOp::Gt,
        ParseRule::Le => RelOp::Le,
        _ => RelOp::Lt,
    }
}

impl RelOp {
    /// Reads the operator off a relop node.
    pub fn from_pair(n: &ParseNode) -> (r: RelOp)
        requires
            wf_relop(*n),
        ensures
            r == relop_model(*n),
    {
        match n.children[0].rule {
            ParseRule::Eq => RelOp::Eq,
            ParseRule::Ne => RelOp::Ne,
            ParseRule::Ge => RelOp::Ge,
            ParseRule::Gt => RelOp::Gt,
            ParseRule::Le => RelOp::Le,
            ParseRule::Lt => RelOp::Lt,
            _ => {
                proof {
                    assert(false);
                }
                RelOp::Eq
            },
        }
    }
}

/// The conditional jump a relational operator lowers to: the one whose
/// condition being true jumps to the `then` label with index `k`.
pub open spec fn lower_relop(op: RelOp, k: u64) -> Seq<Entry> {
    match op {
        RelOp::Eq => seq![Entry::Instr(Mnemonic::Je(Label::Then(k)))],
        RelOp::Ne => seq![Entry::Instr(Mnemonic::Jne(Label::Then(k)))],
        RelOp::Ge => seq![Entry::Instr(Mnemonic::Jge(Label::Then(k)))],
        RelOp::Gt => seq![Entry::Instr(Mnemonic::Jg(Label::Then(k)))],
        RelOp::Le => seq![Entry::Instr(Mnemonic::Jle(Label::Then(k)))],
        RelOp::Lt => seq![Entry::Instr(Mnemonic::Jl(Label::Then(k)))],
    }
}

impl Generate for RelOp {
    /// One more conditional is numbered, so the counter must have room.
    open spec fn gen_requires(&self, symbol_table: SymbolTable, counters: Counters) -> bool {
        counters.cond < u64::MAX
    }

    /// Numbers a new conditional and emits the jump to its `then` label.
    fn generate(&self, program: Program, symbol_table: &SymbolTable, counters: &mut Counters) -> (r:
        Program)
        ensures
            final(counters).cond == old(counters).cond + 1,
            final(counters).literal == old(counters).literal,
            r.entries@ == program.entries@ + lower_relop(*self, final(counters).cond),
            r.data_view() == program.data_view(),
    {
        counters.cond = counters.cond + 1;
        let k = counters.cond;
        let r = match self {
            RelOp::Eq => program.add(Mnemonic::Je(Label::Then(k))),
            RelOp::Ne => program.add(Mnemonic::Jne(Label::Then(k))),
            RelOp::Ge => program.add(Mnemonic::Jge(Label::Then(k))),
            RelOp::Gt => program.add(Mnemonic::Jg(Label::Then(k))),
            RelOp::Le => program.add(Mnemonic::Jle(Label::Then(k))),
            RelOp::Lt => program.add(Mnemonic::Jl(Label::Then(k))),
        };
        proof {
            assert(r.entries@ =~= program.entries@ + lower_relop(*self, k));
        }
        r
    }
}

} // verus!
