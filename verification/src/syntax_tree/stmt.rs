//! Statements, their constant folder and dead-branch elimination.

use vstd::prelude::*;

use super::{AExpV, Arexpr, Cond, CondOperand, CondV, Expr, ExprV, cond_const, fold_a, fold_e};
use super::{arexpr_model, cond_model, expr_model, lemma_fold_a_idempotent, lemma_fold_e_idempotent};
use super::cond::{cond_declared, lower_cond};
use super::expr::{aexp_declared, lower_aexp};
use crate::assembly::{Entry, Immediate, Label, Mnemonic, Operand, Program, Register};
use crate::error::SyntaxError;
use crate::generate::{Counters, Generate};
use crate::optimize::Optimize;
use crate::parse_tree::{ParseNode, ParseRule, wf_stmt};
use crate::symbol_table::{Symbol, SymbolTable, Type, access_code, insert_model, lemma_lookup_addr_bound, lookup, sym_end_i32, sym_st_i32, write_code};
use crate::text::{expand_bytes, expand_escapes, lemma_expand_bytes_len, parse_u32, u32_of_text};
use vstd::string::StringSliceAdditionalSpecFns;
use vstd::utf8::encode_utf8;

verus! {

/// The mathematical shape of a statement.
pub enum StmtV {
    End,
    Goto(u32),
    If(CondV, Box<StmtV>, Option<Box<StmtV>>),
    Input(Seq<char>),
    Let(Seq<char>, AExpV),
    Print(ExprV),
    NoOp,
}

/// A statement. `End` also represents `RETURN`; `Goto` also represents
/// `GOSUB`.
#[derive(Debug, PartialEq)]
pub enum Stmt {
    End,
    Goto(u32),
    If { cond: Cond, then: Box<Stmt>, els: Option<Box<Stmt>> },
    Input(String),
    Let(String, Arexpr),
    Print(Expr),
    /// This is mainly useful for optimization purposes
    NoOp,
}

/// The shape of a statement tree.
pub open spec fn stmt_view(s: Stmt) -> StmtV
    decreases s,
{
    match s {
        Stmt::End => StmtV::End,
        Stmt::Goto(n) => StmtV::Goto(n),
        Stmt::If { cond, then, els } => StmtV::If(
            cond@,
            Box::new(stmt_view(*then)),
            match els {
                Some(b) => Some(Box::new(stmt_view(*b))),
                None => None,
            },
        ),
        Stmt::Input(x) => StmtV::Input(x@),
        Stmt::Let(x, e) => StmtV::Let(x@, e@),
        Stmt::Print(e) => StmtV::Print(e@),
        Stmt::NoOp => StmtV::NoOp,
    }
}

impl View for Stmt {
    type V = StmtV;

    open spec fn view(&self) -> StmtV {
        stmt_view(*self)
    }
}

/// The constant folder on statements, bottom-up: expressions are folded,
/// and an `If` whose condition has two numeric operands is replaced by the
/// branch it takes (or `NoOp` when it is false and there is no else arm).
pub open spec fn fold_s(s: StmtV) -> StmtV
    decreases s,
{
    match s {
        StmtV::Print(e) => StmtV::Print(fold_e(e)),
        StmtV::Let(x, e) => StmtV::Let(x, fold_a(e)),
        StmtV::If(c, t, e) => {
            let tf = fold_s(*t);
            match cond_const(c) {
                Some(true) => tf,
                Some(false) => match e {
                    Some(b) => fold_s(*b),
                    None => StmtV::NoOp,
                },
                None => StmtV::If(
                    c,
                    Box::new(tf),
                    match e {
                        Some(b) => Some(Box::new(fold_s(*b))),
                        None => None,
                    },
                ),
            }
        },
        _ => s,
    }
}

impl Optimize for Stmt {
    /// Folds expressions and resolves compile-time-constant conditionals.
    fn optimize(self) -> (r: Stmt)
        ensures
            r@ == fold_s(self@),
        decreases self,
    {
        match self {
            Stmt::Print(e) => Stmt::Print(e.optimize()),
            Stmt::Let(x, e) => Stmt::Let(x, e.optimize()),
            Stmt::If { cond, then, els } => {
                let tf = (*then).optimize();
                let ef = match els {
                    Some(b) => Some((*b).optimize()),
                    None => None,
                };
                match cond.try_execute() {
                    Ok(b) => if b {
                        tf
                    } else {
                        match ef {
                            Some(s) => s,
                            None => Stmt::NoOp,
                        }
                    },
                    Err(_) => Stmt::If {
                        cond,
                        then: Box::new(tf),
                        els: match ef {
                            Some(s) => Some(Box::new(s)),
                            None => None,
                        },
                    },
                }
            },
            _ => self,
        }
    }
}

/// Folding statements is idempotent.
pub proof fn lemma_fold_s_idempotent(s: StmtV)
    ensures
        fold_s(fold_s(s)) == fold_s(s),
    decreases s,
{
    match s {
        StmtV::Print(e) => lemma_fold_e_idempotent(e),
        StmtV::Let(_, e) => lemma_fold_a_idempotent(e),
        StmtV::If(c, t, e) => {
            lemma_fold_s_idempotent(*t);
            match e {
                Some(b) => lemma_fold_s_idempotent(*b),
                None => {},
            }
        },
        _ => {},
    }
}

/// The statement a well-formed statement node denotes, together with the
/// symbol table after the declarations the statement makes: `INPUT x` and
/// `LET x = e` insert `x` as an integer symbol.
pub open spec fn stmt_model(
    n: ParseNode,
    tbl: Seq<(Seq<char>, Symbol)>,
) -> Result<(StmtV, Seq<(Seq<char>, Symbol)>), SyntaxError>
    decreases n,
{
    if n.children@.len() == 0 {
        Err(SyntaxError::ParseIntError)
    } else {
    match n.children@[0].rule {
        ParseRule::End => Ok((StmtV::End, tbl)),
        ParseRule::Return => Ok((StmtV::End, tbl)),
        ParseRule::Goto | ParseRule::Gosub => if n.children@.len() < 2 {
            Err(SyntaxError::ParseIntError)
        } else {
            match u32_of_text(n.children@[1].text@) {
                Some(v) => Ok((StmtV::Goto(v), tbl)),
                None => Err(SyntaxError::ParseIntError),
            }
        },
        ParseRule::If => if n.children@.len() < 3 {
            Err(SyntaxError::ParseIntError)
        } else {
        match cond_model(n.children@[1]) {
            Err(e) => Err(e),
            Ok(c) => match stmt_model(n.children@[2], tbl) {
                Err(e) => Err(e),
                Ok((t, tbl2)) => if n.children@.len() >= 4 {
                    match stmt_model(n.children@[3], tbl2) {
                        Err(e) => Err(e),
                        Ok((el, tbl3)) => Ok(
                            (StmtV::If(c, Box::new(t), Some(Box::new(el))), tbl3),
                        ),
                    }
                } else {
                    Ok((StmtV::If(c, Box::new(t), None), tbl2))
                },
            },
        }
        },
        ParseRule::Input => if n.children@.len() < 2 {
            Err(SyntaxError::ParseIntError)
        } else {
            Ok(
                (
                    StmtV::Input(n.children@[1].text@),
                    insert_model(tbl, n.children@[1].text@, Type::Int),
                ),
            )
        },
        ParseRule::Let => if n.children@.len() < 3 {
            Err(SyntaxError::ParseIntError)
        } else {
            match arexpr_model(n.children@[2]) {
                Err(e) => Err(e),
                Ok(e) => Ok(
                    (
                        StmtV::Let(n.children@[1].text@, e),
                        insert_model(tbl, n.children@[1].text@, Type::Int),
                    ),
                ),
            }
        },
        ParseRule::Print => if n.children@.len() < 2 {
            Err(SyntaxError::ParseIntError)
        } else {
            match expr_model(n.children@[1]) {
                Err(e) => Err(e),
                Ok(e) => Ok((StmtV::Print(e), tbl)),
            }
        },
        _ => Err(SyntaxError::ParseIntError),
    }
    }
}

impl Stmt {
    /// Builds a statement from a well-formed statement node, inserting the
    /// identifiers that `INPUT` and `LET` declare into the symbol table.
    ///
    /// Fails with `ParseIntError` exactly when an integer literal in the
    /// statement is malformed or out of range.
    pub fn from_pair(n: &ParseNode, symbol_table: &mut SymbolTable) -> (r: Result<
        Stmt,
        SyntaxError,
    >)
        requires
            wf_stmt(*n),
            old(symbol_table).wf(),
        ensures
            final(symbol_table).wf(),
            match r {
                Ok(s) => stmt_model(*n, old(symbol_table)@) == Ok::<_, SyntaxError>(
                    (s@, final(symbol_table)@),
                ),
                Err(e) => stmt_model(*n, old(symbol_table)@) == Err::<(StmtV, Seq<(Seq<char>, Symbol)>), _>(e),
            },
        decreases *n,
    {
        let head = &n.children[0];
        match head.rule {
            ParseRule::End | ParseRule::Return => Ok(Stmt::End),
            ParseRule::Goto | ParseRule::Gosub => match parse_u32(n.children[1].text.as_str()) {
                Some(v) => Ok(Stmt::Goto(v)),
                None => Err(SyntaxError::ParseIntError),
            },
            ParseRule::If => {
                let cond = match Cond::from_pair(&n.children[1]) {
                    Ok(c) => c,
                    Err(e) => {
                        return Err(e);
                    },
                };
                let then = match Self::from_pair(&n.children[2], symbol_table) {
                    Ok(s) => s,
                    Err(e) => {
                        return Err(e);
                    },
                };
                if n.children.len() >= 4 {
                    let els = match Self::from_pair(&n.children[3], symbol_table) {
                        Ok(s) => s,
                        Err(e) => {
                            return Err(e);
                        },
                    };
                    Ok(Stmt::If { cond, then: Box::new(then), els: Some(Box::new(els)) })
                } else {
                    Ok(Stmt::If { cond, then: Box::new(then), els: None })
                }
            },
            ParseRule::Input => {
                let ident = &n.children[1].text;
                symbol_table.insert(ident.as_str(), Type::Int);
                Ok(Stmt::Input(ident.clone()))
            },
            ParseRule::Let => {
                let expr = match Arexpr::from_pair(&n.children[2]) {
                    Ok(e) => e,
                    Err(e) => {
                        return Err(e);
                    },
                };
                let ident = &n.children[1].text;
                symbol_table.insert(ident.as_str(), Type::Int);
                Ok(Stmt::Let(ident.clone(), expr))
            },
            ParseRule::Print => match Expr::from_pair(&n.children[1]) {
                Ok(e) => Ok(Stmt::Print(e)),
                Err(e) => Err(e),
            },
            _ => {
                proof {
                    assert(false);
                }
                Err(SyntaxError::ParseIntError)
            },
        }
    }
}

/// Whether every identifier the statement (or a nested statement) reads or
/// writes is in the table.
pub open spec fn stmt_declared(s: StmtV, tbl: Seq<(Seq<char>, Symbol)>) -> bool
    decreases s,
{
    match s {
        StmtV::If(c, t, e) => cond_declared(c, tbl) && stmt_declared(*t, tbl) && match e {
            Some(el) => stmt_declared(*el, tbl),
            None => true,
        },
        StmtV::Input(x) => lookup(tbl, x) is Some,
        StmtV::Let(x, e) => lookup(tbl, x) is Some && aexp_declared(e, tbl),
        StmtV::Print(ExprV::Arith(e)) => aexp_declared(e, tbl),
        _ => true,
    }
}

/// The number of conditionals the statement emits.
pub open spec fn if_count_s(s: StmtV) -> nat
    decreases s,
{
    match s {
        StmtV::If(_, t, e) => 1 + if_count_s(*t) + match e {
            Some(el) => if_count_s(*el),
            None => 0nat,
        },
        _ => 0,
    }
}

/// The number of string literals the statement interns.
pub open spec fn lit_count_s(s: StmtV) -> nat
    decreases s,
{
    match s {
        StmtV::If(_, t, e) => lit_count_s(*t) + match e {
            Some(el) => lit_count_s(*el),
            None => 0nat,
        },
        StmtV::Print(ExprV::Str(_)) => 1,
        _ => 0,
    }
}

/// Whether every string literal in the statement fits the 32-bit length
/// immediate of the `print` call, measured in UTF-8 bytes.
pub open spec fn strings_fit_s(s: StmtV) -> bool
    decreases s,
{
    match s {
        StmtV::If(_, t, e) => strings_fit_s(*t) && match e {
            Some(el) => strings_fit_s(*el),
            None => true,
        },
        StmtV::Print(ExprV::Str(t)) => encode_utf8(t).len() <= i32::MAX,
        _ => true,
    }
}

/// What lowering a statement emits: instructions, data items, and the
/// counters after it. A conditional numbered `k` lowers its condition to a
/// jump to `then` with index `k`, then the else arm (or a plain jump when
/// there is none) falling to `fi`, then the `then` label and arm, then
/// `fi`; the arms are numbered after the condition, else arm first, in
/// emission order.
pub open spec fn lower_stmt(
    s: StmtV,
    tbl: Seq<(Seq<char>, Symbol)>,
    cond: u64,
    lit: u64,
) -> (Seq<Entry>, Seq<(Label, Seq<u8>)>, u64, u64)
    decreases s,
{
    match s {
        StmtV::End => (
            seq![Entry::Instr(Mnemonic::Jmp(Label::Exit))],
            Seq::<(Label, Seq<u8>)>::empty(),
            cond,
            lit,
        ),
        StmtV::Goto(n) => (
            seq![Entry::Instr(Mnemonic::Jmp(Label::Line(n as u64)))],
            Seq::<(Label, Seq<u8>)>::empty(),
            cond,
            lit,
        ),
        StmtV::If(c, t, e) => {
            let k = (cond + 1) as u64;
            let ce = lower_cond(c, tbl, k);
            match e {
                Some(el) => {
                    let eout = lower_stmt(*el, tbl, k, lit);
                    let tout = lower_stmt(*t, tbl, eout.2, eout.3);
                    (
                        ce + seq![Entry::LabelDef(Label::Else(k))] + eout.0 + seq![
                            Entry::Instr(Mnemonic::Jmp(Label::Fi(k))),
                            Entry::LabelDef(Label::Then(k)),
                        ] + tout.0 + seq![Entry::LabelDef(Label::Fi(k))],
                        eout.1 + tout.1,
                        tout.2,
                        tout.3,
                    )
                },
                None => {
                    let tout = lower_stmt(*t, tbl, k, lit);
                    (
                        ce + seq![
                            Entry::Instr(Mnemonic::Jmp(Label::Fi(k))),
                            Entry::LabelDef(Label::Then(k)),
                        ] + tout.0 + seq![Entry::LabelDef(Label::Fi(k))],
                        tout.1,
                        tout.2,
                        tout.3,
                    )
                },
            }
        },
        StmtV::Input(x) => (
            seq![
                Entry::Instr(Mnemonic::Mov(Register::Rsi, Operand::Reg(Register::R15))),
                Entry::Instr(
                    Mnemonic::Sub(Register::Rsi, Operand::Imm(Immediate::Imm32(sym_end_i32(tbl, x)))),
                ),
                Entry::Instr(Mnemonic::Mov(Register::Rdx, Operand::Imm(Immediate::Imm32(8)))),
                Entry::Instr(Mnemonic::Call(Label::Read)),
            ] + access_code(sym_end_i32(tbl, x)) + seq![
                Entry::Instr(Mnemonic::Sub(Register::Rbx, Operand::Imm(Immediate::Imm32(48)))),
            ] + write_code(sym_st_i32(tbl, x), Operand::Reg(Register::Rbx)),
            Seq::<(Label, Seq<u8>)>::empty(),
            cond,
            lit,
        ),
        StmtV::Let(x, e) => (
            lower_aexp(e, tbl) + seq![Entry::Instr(Mnemonic::Pop(Register::Rbx))] + write_code(
                sym_st_i32(tbl, x),
                Operand::Reg(Register::Rbx),
            ),
            Seq::<(Label, Seq<u8>)>::empty(),
            cond,
            lit,
        ),
        StmtV::Print(ExprV::Str(t)) => {
            let k = (lit + 1) as u64;
            let bytes = expand_bytes(encode_utf8(t));
            (
                seq![
                    Entry::Instr(Mnemonic::Mov(Register::Rsi, Operand::Lbl(Label::Literal(k)))),
                    Entry::Instr(
                        Mnemonic::Mov(
                            Register::Rdx,
                            Operand::Imm(Immediate::Imm32(bytes.len() as i32)),
                        ),
                    ),
                    Entry::Instr(Mnemonic::Call(Label::Print)),
                ],
                seq![(Label::Literal(k), bytes)],
                cond,
                k,
            )
        },
        StmtV::Print(ExprV::Arith(e)) => (
            lower_aexp(e, tbl) + seq![
                Entry::Instr(Mnemonic::Pop(Register::Rsi)),
                Entry::Instr(Mnemonic::Call(Label::Printn)),
            ],
            Seq::<(Label, Seq<u8>)>::empty(),
            cond,
            lit,
        ),
        StmtV::NoOp => (Seq::<Entry>::empty(), Seq::<(Label, Seq<u8>)>::empty(), cond, lit),
    }
}

/// Lowering advances the counters by exactly the statement's conditional
/// and literal counts.
pub proof fn lemma_lower_stmt_counts(s: StmtV, tbl: Seq<(Seq<char>, Symbol)>, c: u64, l: u64)
    requires
        c + if_count_s(s) <= u64::MAX,
        l + lit_count_s(s) <= u64::MAX,
    ensures
        lower_stmt(s, tbl, c, l).2 == c + if_count_s(s),
        lower_stmt(s, tbl, c, l).3 == l + lit_count_s(s),
    decreases s,
{
    match s {
        StmtV::If(_, t, e) => {
            let k = (c + 1) as u64;
            match e {
                Some(el) => {
                    lemma_lower_stmt_counts(*el, tbl, k, l);
                    let eout = lower_stmt(*el, tbl, k, l);
                    lemma_lower_stmt_counts(*t, tbl, eout.2, eout.3);
                },
                None => {
                    lemma_lower_stmt_counts(*t, tbl, k, l);
                },
            }
        },
        _ => {},
    }
}

impl Stmt {
    /// Tests whether every identifier the statement touches is declared
    /// and every string literal fits the length immediate.
    pub fn check_ready(&self, symbol_table: &SymbolTable) -> (r: bool)
        ensures
            r == (stmt_declared(self@, symbol_table@) && strings_fit_s(self@)),
        decreases *self,
    {
        match self {
            Stmt::If { cond, then, els } => {
                let c_ok = match (&cond.lhs, &cond.rhs) {
                    (CondOperand::Ident(x), CondOperand::Ident(y)) => symbol_table.get(
                        x.as_str(),
                    ).is_some() && symbol_table.get(y.as_str()).is_some(),
                    (CondOperand::Ident(x), _) => symbol_table.get(x.as_str()).is_some(),
                    (_, CondOperand::Ident(y)) => symbol_table.get(y.as_str()).is_some(),
                    _ => true,
                };
                let e_ok = match els {
                    Some(el) => el.check_ready(symbol_table),
                    None => true,
                };
                let t_ok = then.check_ready(symbol_table);
                proof {
                    assert(c_ok == cond_declared(cond@, symbol_table@));
                    assert(t_ok == (stmt_declared(stmt_view(**then), symbol_table@)
                        && strings_fit_s(stmt_view(**then))));
                    match els {
                        Some(el) => {
                            assert(e_ok == (stmt_declared(stmt_view(**el), symbol_table@)
                                && strings_fit_s(stmt_view(**el))));
                        },
                        None => {},
                    }
                }
                c_ok && t_ok && e_ok
            },
            Stmt::Input(x) => symbol_table.get(x.as_str()).is_some(),
            Stmt::Let(x, e) => symbol_table.get(x.as_str()).is_some() && e.check_declared(
                symbol_table,
            ),
            Stmt::Print(Expr::Arexpr(e)) => e.check_declared(symbol_table),
            Stmt::Print(Expr::String(t)) => t.as_str().as_bytes().len() <= 0x7FFF_FFFFusize,
            _ => true,
        }
    }

    /// The number of conditionals the statement emits, if it fits `u64`.
    pub fn if_count(&self) -> (r: Option<u64>)
        ensures
            match r {
                Some(v) => v == if_count_s(self@),
                None => if_count_s(self@) > u64::MAX,
            },
        decreases *self,
    {
        match self {
            Stmt::If { cond, then, els } => {
                let t = match then.if_count() {
                    Some(t) => t,
                    None => {
                        return None;
                    },
                };
                let e: u64 = match els {
                    Some(el) => match el.if_count() {
                        Some(e) => e,
                        None => {
                            return None;
                        },
                    },
                    None => 0,
                };
                match t.checked_add(e) {
                    Some(te) => te.checked_add(1),
                    None => None,
                }
            },
            _ => Some(0),
        }
    }

    /// The number of string literals the statement interns, if it fits.
    pub fn lit_count(&self) -> (r: Option<u64>)
        ensures
            match r {
                Some(v) => v == lit_count_s(self@),
                None => lit_count_s(self@) > u64::MAX,
            },
        decreases *self,
    {
        match self {
            Stmt::If { cond, then, els } => {
                let t = match then.lit_count() {
                    Some(t) => t,
                    None => {
                        return None;
                    },
                };
                let e: u64 = match els {
                    Some(el) => match el.lit_count() {
                        Some(e) => e,
                        None => {
                            return None;
                        },
                    },
                    None => 0,
                };
                t.checked_add(e)
            },
            Stmt::Print(Expr::String(_)) => Some(1),
            _ => Some(0),
        }
    }
}

impl Generate for Stmt {
    /// Every identifier the statement touches must be declared, the
    /// table's region must fit the 32-bit immediates, every string literal
    /// must fit the length immediate, and the counters must have room for
    /// the conditionals and literals the statement emits.
    open spec fn gen_requires(&self, symbol_table: SymbolTable, counters: Counters) -> bool {
        &&& symbol_table.wf()
        &&& symbol_table.spec_current() <= i32::MAX
        &&& stmt_declared(self@, symbol_table@)
        &&& strings_fit_s(self@)
        &&& counters.cond + if_count_s(self@) <= u64::MAX
        &&& counters.literal + lit_count_s(self@) <= u64::MAX
    }

    /// Emits the statement's lowering and advances the counters by the
    /// conditionals and literals emitted.
    #[verifier::rlimit(60)]
    fn generate(&self, program: Program, symbol_table: &SymbolTable, counters: &mut Counters) -> (r:
        Program)
        ensures
            r.entries@ == program.entries@ + lower_stmt(
                self@,
                symbol_table@,
                old(counters).cond,
                old(counters).literal,
            ).0,
            r.data_view() == program.data_view() + lower_stmt(
                self@,
                symbol_table@,
                old(counters).cond,
                old(counters).literal,
            ).1,
            final(counters).cond == lower_stmt(
                self@,
                symbol_table@,
                old(counters).cond,
                old(counters).literal,
            ).2,
            final(counters).literal == lower_stmt(
                self@,
                symbol_table@,
                old(counters).cond,
                old(counters).literal,
            ).3,
        decreases *self,
    {
        let ghost out = lower_stmt(self@, symbol_table@, counters.cond, counters.literal);
        let r = match self {
            Stmt::End => program.add(Mnemonic::Jmp(Label::Exit)),
            Stmt::Goto(n) => program.add(Mnemonic::Jmp(Label::Line(*n as u64))),
            Stmt::If { cond, then, els } => {
                let ghost l0 = counters.literal;
                let p1 = cond.generate(program, symbol_table, counters);
                let k = counters.cond;
                let p5 = match els {
                    Some(el) => {
                        let p2 = p1.label(Label::Else(k));
                        proof {
                            lemma_lower_stmt_counts(el@, symbol_table@, k, l0);
                        }
                        let p3 = el.generate(p2, symbol_table, counters);
                        p3.add(Mnemonic::Jmp(Label::Fi(k)))
                    },
                    None => p1.add(Mnemonic::Jmp(Label::Fi(k))),
                };
                let p6 = p5.label(Label::Then(k));
                proof {
                    lemma_lower_stmt_counts(then@, symbol_table@, counters.cond, counters.literal);
                }
                let p7 = then.generate(p6, symbol_table, counters);
                p7.label(Label::Fi(k))
            },
            Stmt::Input(x) => {
                proof {
                    lemma_lookup_addr_bound(*symbol_table, x@);
                }
                let end_addr = match symbol_table.get(x.as_str()) {
                    Some(sym) => sym.end_addr() as i32,
                    None => {
                        proof {
                            assert(false);
                        }
                        0
                    },
                };
                let p1 = program
                    .add(Mnemonic::Mov(Register::Rsi, Operand::Reg(Register::R15)))
                    .add(Mnemonic::Sub(Register::Rsi, Operand::Imm(Immediate::Imm32(end_addr))))
                    .add(Mnemonic::Mov(Register::Rdx, Operand::Imm(Immediate::Imm32(8))))
                    .add(Mnemonic::Call(Label::Read));
                let p2 = symbol_table.access(x.as_str(), p1).add(
                    Mnemonic::Sub(Register::Rbx, Operand::Imm(Immediate::Imm32(48))),
                );
                symbol_table.write(x.as_str(), Operand::Reg(Register::Rbx), p2)
            },
            Stmt::Let(x, e) => {
                proof {
                    lemma_lookup_addr_bound(*symbol_table, x@);
                }
                let p1 = e.generate(program, symbol_table, counters).add(
                    Mnemonic::Pop(Register::Rbx),
                );
                symbol_table.write(x.as_str(), Operand::Reg(Register::Rbx), p1)
            },
            Stmt::Print(Expr::String(txt)) => {
                let bytes = expand_escapes(txt.as_str());
                proof {
                    lemma_expand_bytes_len(encode_utf8(txt@));
                }
                let len = bytes.len();
                counters.literal = counters.literal + 1;
                let lab = Label::Literal(counters.literal);
                program
                    .add(Mnemonic::Mov(Register::Rsi, Operand::Lbl(lab)))
                    .add(Mnemonic::Mov(Register::Rdx, Operand::Imm(Immediate::Imm32(len as i32))))
                    .add(Mnemonic::Call(Label::Print))
                    .insert_data(lab, bytes)
            },
            Stmt::Print(Expr::Arexpr(e)) => {
                e.generate(program, symbol_table, counters).add(Mnemonic::Pop(Register::Rsi)).add(
                    Mnemonic::Call(Label::Printn),
                )
            },
            Stmt::NoOp => program,
        };
        proof {
            assert(r.entries@ =~= program.entries@ + out.0);
            assert(r.data_view() =~= program.data_view() + out.1);
        }
        r
    }
}

} // verus!
