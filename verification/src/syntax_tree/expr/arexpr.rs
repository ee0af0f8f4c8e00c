//! Arithmetic expressions: trees of numeric literals, identifiers and
//! binary operators, together with the constant folder and its laws.
//!
//! Folding uses signed 32-bit arithmetic in which overflow wraps per
//! two's-complement. Division truncates toward zero; a division whose
//! divisor is zero, or whose quotient would overflow, is never folded.

use vstd::prelude::*;

use crate::assembly::{Entry, Immediate, Mnemonic, Operand, Program, Register};
use crate::error::SyntaxError;
use crate::generate::{Counters, Generate};
use crate::optimize::Optimize;
use crate::symbol_table::{Symbol, SymbolTable, access_code, lemma_lookup_addr_bound, lookup, sym_end_i32};
use crate::parse_tree::{ParseNode, ParseRule, wf_arexpr, wf_arexpr_items};
use crate::text::{i32_of_text, parse_i32};

verus! {

/// An arithmetic operator.
#[derive(Clone, Copy, PartialEq, Eq, Structural, Debug)]
pub enum ArOp {
    Add,
    Sub,
    Mul,
    Div,
}

/// Signed 32-bit division truncating toward zero, the semantics of the
/// hardware divide the emitted code uses: the quotient of the magnitudes,
/// negated when the operands' signs differ.
pub open spec fn div_i32(a: i32, b: i32) -> i32
    recommends
        b != 0,
        !(a == i32::MIN && b == -1),
{
    let ua = if a < 0 {
        -(a as int)
    } else {
        a as int
    };
    let ub = if b < 0 {
        -(b as int)
    } else {
        b as int
    };
    let uq = ua / ub;
    if (a < 0) != (b < 0) {
        (-uq) as i32
    } else {
        uq as i32
    }
}

/// Whether applying `op` to `a` and `b` is defined: division requires a
/// nonzero divisor and a quotient that fits in `i32`.
pub open spec fn aop_ok(op: ArOp, a: i32, b: i32) -> bool {
    op is Div ==> b != 0 && !(a == i32::MIN && b == -1)
}

/// The value of `op` applied to `a` and `b` in wrapping signed 32-bit
/// arithmetic.
pub open spec fn aop_val(op: ArOp, a: i32, b: i32) -> i32
    recommends
        aop_ok(op, a, b),
{
    match op {
        ArOp::Add => a.wrapping_add(b),
        ArOp::Sub => a.wrapping_sub(b),
        ArOp::Mul => a.wrapping_mul(b),
        ArOp::Div => div_i32(a, b),
    }
}

impl ArOp {
    /// Applies the operator to two constants.
    pub fn execute(&self, lhs: i32, rhs: i32) -> (r: i32)
        requires
            aop_ok(*self, lhs, rhs),
        ensures
            r == aop_val(*self, lhs, rhs),
    {
        match self {
            ArOp::Add => lhs.wrapping_add(rhs),
            ArOp::Sub => lhs.wrapping_sub(rhs),
            ArOp::Mul => lhs.wrapping_mul(rhs),
            ArOp::Div => {
                let neg = (lhs < 0) != (rhs < 0);
                let ua: u32 = if lhs < 0 {
                    (-(lhs as i64)) as u32
                } else {
                    lhs as u32
                };
                let ub: u32 = if rhs < 0 {
                    (-(rhs as i64)) as u32
                } else {
                    rhs as u32
                };
                let uq: u32 = ua / ub;
                proof {
                    vstd::arithmetic::div_mod::lemma_div_is_ordered_by_denominator(
                        ua as int,
                        1,
                        ub as int,
                    );
                }
                if neg {
                    (-(uq as i64)) as i32
                } else {
                    uq as i32
                }
            },
        }
    }
}

/// The mathematical shape of an arithmetic expression.
pub enum AExpV {
    Num(i32),
    Ident(Seq<char>),
    Bin(ArOp, Box<AExpV>, Box<AExpV>),
}

/// An arithmetic expression.
#[derive(Debug, PartialEq)]
pub enum Arexpr {
    Num(i32),
    Ident(String),
    BinExpr { lhs: Box<Arexpr>, op: ArOp, rhs: Box<Arexpr> },
}

/// The shape of an expression tree.
pub open spec fn aexp_view(e: Arexpr) -> AExpV
    decreases e,
{
    match e {
        Arexpr::Num(n) => AExpV::Num(n),
        Arexpr::Ident(s) => AExpV::Ident(s@),
        Arexpr::BinExpr { lhs, op, rhs } => AExpV::Bin(
            op,
            Box::new(aexp_view(*lhs)),
            Box::new(aexp_view(*rhs)),
        ),
    }
}

impl View for Arexpr {
    type V = AExpV;

    open spec fn view(&self) -> AExpV {
        aexp_view(*self)
    }
}

impl Arexpr {
    /// Builds a binary expression node.
    pub fn binexpr(lhs: Arexpr, op: ArOp, rhs: Arexpr) -> (r: Arexpr)
        ensures
            r@ == AExpV::Bin(op, Box::new(lhs@), Box::new(rhs@)),
    {
        Arexpr::BinExpr { lhs: Box::new(lhs), op, rhs: Box::new(rhs) }
    }

}

impl Optimize for Arexpr {
    /// Folds constant subexpressions bottom-up: a binary node whose two
    /// sides reduce to numbers becomes the number they compute to, unless
    /// the operation is an undefined division.
    fn optimize(self) -> (r: Arexpr)
        ensures
            r@ == fold_a(self@),
        decreases self,
    {
        match self {
            Arexpr::BinExpr { lhs, op, rhs } => {
                let l = (*lhs).optimize();
                let r = (*rhs).optimize();
                match (l, r) {
                    (Arexpr::Num(n1), Arexpr::Num(n2)) => {
                        let foldable = match op {
                            ArOp::Div => n2 != 0 && !(n1 == i32::MIN && n2 == -1),
                            _ => true,
                        };
                        if foldable {
                            Arexpr::Num(op.execute(n1, n2))
                        } else {
                            Arexpr::binexpr(Arexpr::Num(n1), op, Arexpr::Num(n2))
                        }
                    },
                    (l2, r2) => Arexpr::binexpr(l2, op, r2),
                }
            },
            _ => self,
        }
    }
}

/// The constant folder: a binary node whose two sides fold to numbers is
/// replaced by the number it computes to, when defined.
pub open spec fn fold_a(e: AExpV) -> AExpV
    decreases e,
{
    match e {
        AExpV::Bin(op, l, r) => {
            let lf = fold_a(*l);
            let rf = fold_a(*r);
            match (lf, rf) {
                (AExpV::Num(a), AExpV::Num(b)) => {
                    if aop_ok(op, a, b) {
                        AExpV::Num(aop_val(op, a, b))
                    } else {
                        AExpV::Bin(op, Box::new(AExpV::Num(a)), Box::new(AExpV::Num(b)))
                    }
                },
                (x, y) => AExpV::Bin(op, Box::new(x), Box::new(y)),
            }
        },
        _ => e,
    }
}

/// The value of an arithmetic expression under an environment mapping
/// identifiers to values: wrapping signed 32-bit arithmetic, `None` on an
/// unbound identifier or an undefined division.
pub open spec fn eval_a(e: AExpV, env: Map<Seq<char>, i32>) -> Option<i32>
    decreases e,
{
    match e {
        AExpV::Num(n) => Some(n),
        AExpV::Ident(x) => if env.contains_key(x) {
            Some(env[x])
        } else {
            None
        },
        AExpV::Bin(op, l, r) => match (eval_a(*l, env), eval_a(*r, env)) {
            (Some(a), Some(b)) => if aop_ok(op, a, b) {
                Some(aop_val(op, a, b))
            } else {
                None
            },
            _ => None,
        },
    }
}

/// Whether an expression contains no identifiers.
pub open spec fn closed_a(e: AExpV) -> bool
    decreases e,
{
    match e {
        AExpV::Num(_) => true,
        AExpV::Ident(_) => false,
        AExpV::Bin(_, l, r) => closed_a(*l) && closed_a(*r),
    }
}

/// Constant folding is idempotent: folding an already-folded expression
/// yields the same expression.
pub proof fn lemma_fold_a_idempotent(e: AExpV)
    ensures
        fold_a(fold_a(e)) == fold_a(e),
    decreases e,
{
    match e {
        AExpV::Bin(op, l, r) => {
            lemma_fold_a_idempotent(*l);
            lemma_fold_a_idempotent(*r);
        },
        _ => {},
    }
}

/// Constant folding preserves the value of the expression under every
/// environment.
pub proof fn lemma_fold_a_preserves_eval(e: AExpV, env: Map<Seq<char>, i32>)
    ensures
        eval_a(fold_a(e), env) == eval_a(e, env),
    decreases e,
{
    match e {
        AExpV::Bin(op, l, r) => {
            lemma_fold_a_preserves_eval(*l, env);
            lemma_fold_a_preserves_eval(*r, env);
        },
        _ => {},
    }
}

/// For an expression over numeric literals alone whose value is defined,
/// the folder produces exactly the number the expression evaluates to.
pub proof fn lemma_fold_a_closed(e: AExpV, env: Map<Seq<char>, i32>)
    requires
        closed_a(e),
        eval_a(e, env) is Some,
    ensures
        fold_a(e) == AExpV::Num(eval_a(e, env).unwrap()),
    decreases e,
{
    match e {
        AExpV::Bin(op, l, r) => {
            lemma_fold_a_closed(*l, env);
            lemma_fold_a_closed(*r, env);
        },
        _ => {},
    }
}

/// Whether the node may stand as an operand of an arithmetic expression.
pub open spec fn wf_primary(n: ParseNode) -> bool {
    n.rule is Number || n.rule is Ident || wf_arexpr(n)
}

/// The operator a rule names.
pub open spec fn arop_of(r: ParseRule) -> ArOp {
    match r {
        ParseRule::Add => ArOp::Add,
        ParseRule::Sub => ArOp::Sub,
        ParseRule::Mul => ArOp::Mul,
        _ => ArOp::Div,
    }
}

/// Attaches the pending additive part, if any, in front of `term`.
pub open spec fn flush_pending(pend: Option<(AExpV, ArOp)>, term: AExpV) -> AExpV {
    match pend {
        None => term,
        Some((t, op)) => AExpV::Bin(op, Box::new(t), Box::new(term)),
    }
}

/// The expression an operand node denotes: a parsed number, an identifier,
/// or a parenthesized expression.
pub open spec fn arexpr_model(n: ParseNode) -> Result<AExpV, SyntaxError>
    decreases n, n.children@.len() + 1,
{
    match n.rule {
        ParseRule::Number => match i32_of_text(n.text@) {
            Some(v) => Ok(AExpV::Num(v)),
            None => Err(SyntaxError::ParseIntError),
        },
        ParseRule::Ident => Ok(AExpV::Ident(n.text@)),
        ParseRule::Arexpr => if n.children@.len() == 0 {
            Err(SyntaxError::ParseIntError)
        } else {
            match arexpr_model(n.children@[0]) {
                Err(e) => Err(e),
                Ok(t) => arexpr_chain(n, 1, None, t),
            }
        },
        _ => Err(SyntaxError::ParseIntError),
    }
}

/// Operator-precedence parsing over the operator/operand items of an
/// expression node from position `i` on, left-associative with `Mul` and
/// `Div` binding tighter than `Add` and `Sub`: `pend` is the additive part
/// waiting for its right side, `term` the multiplicative chain being built.
pub open spec fn arexpr_chain(
    n: ParseNode,
    i: int,
    pend: Option<(AExpV, ArOp)>,
    term: AExpV,
) -> Result<AExpV, SyntaxError>
    decreases n, n.children@.len() - i,
{
    if i < 0 || i + 1 >= n.children@.len() {
        Ok(flush_pending(pend, term))
    } else {
        let op = arop_of(n.children@[i].rule);
        match arexpr_model(n.children@[i + 1]) {
            Err(e) => Err(e),
            Ok(p) => if op is Mul || op is Div {
                arexpr_chain(n, i + 2, pend, AExpV::Bin(op, Box::new(term), Box::new(p)))
            } else {
                arexpr_chain(n, i + 2, Some((flush_pending(pend, term), op)), p)
            },
        }
    }
}

impl Arexpr {
    /// Builds an arithmetic expression from an operand or expression node,
    /// by operator-precedence parsing with two levels, left-associative at
    /// each level.
    ///
    /// Fails with `ParseIntError` exactly when a numeric literal in the
    /// expression is malformed or out of `i32`'s range.
    pub fn from_pair(n: &ParseNode) -> (r: Result<Arexpr, SyntaxError>)
        requires
            wf_primary(*n),
        ensures
            match r {
                Ok(e) => arexpr_model(*n) == Ok::<AExpV, SyntaxError>(e@),
                Err(e) => arexpr_model(*n) == Err::<AExpV, SyntaxError>(e),
            },
        decreases *n,
    {
        match n.rule {
            ParseRule::Number => match parse_i32(n.text.as_str()) {
                Some(v) => Ok(Arexpr::Num(v)),
                None => Err(SyntaxError::ParseIntError),
            },
            ParseRule::Ident => Ok(Arexpr::Ident(n.text.clone())),
            ParseRule::Arexpr => {
                let mut term = match Self::from_pair(&n.children[0]) {
                    Ok(t) => t,
                    Err(e) => {
                        return Err(e);
                    },
                };
                let mut pend: Option<(Arexpr, ArOp)> = None;
                let mut i: usize = 1;
                proof {
                    assert(wf_arexpr_items(*n, 0));
                    assert(wf_arexpr_items(*n, 1));
                }
                while i < n.children.len() - 1
                    invariant
                        wf_arexpr(*n),
                        1 <= i,
                        i % 2 == 1,
                        wf_arexpr_items(*n, i as int),
                        arexpr_chain(*n, i as int, pend_view(pend), term@) == arexpr_model(*n),
                    decreases n.children@.len() - i,
                {
                    let ghost gi = i as int;
                    let ghost gpend = pend_view(pend);
                    let ghost gterm = term@;
                    proof {
                        assert(wf_arexpr_items(*n, gi));
                        assert(wf_arexpr_items(*n, gi + 1));
                        assert(wf_primary(n.children@[gi + 1]));
                    }
                    let op = match n.children[i].rule {
                        ParseRule::Add => ArOp::Add,
                        ParseRule::Sub => ArOp::Sub,
                        ParseRule::Mul => ArOp::Mul,
                        ParseRule::Div => ArOp::Div,
                        _ => {
                            proof {
                                assert(false);
                            }
                            return Err(SyntaxError::ParseIntError);
                        },
                    };
                    let p = match Self::from_pair(&n.children[i + 1]) {
                        Ok(p) => p,
                        Err(e) => {
                            return Err(e);
                        },
                    };
                    match op {
                        ArOp::Mul | ArOp::Div => {
                            term = Arexpr::binexpr(term, op, p);
                        },
                        _ => {
                            let flushed = match pend {
                                None => term,
                                Some((t, pop)) => Arexpr::binexpr(t, pop, term),
                            };
                            pend = Some((flushed, op));
                            term = p;
                        },
                    }
                    i += 2;
                    proof {
                        assert(wf_arexpr_items(*n, gi + 2));
                        assert(arexpr_chain(*n, gi, gpend, gterm) == arexpr_chain(
                            *n,
                            i as int,
                            pend_view(pend),
                            term@,
                        ));
                    }
                }
                let flushed = match pend {
                    None => term,
                    Some((t, pop)) => Arexpr::binexpr(t, pop, term),
                };
                Ok(flushed)
            },
            _ => {
                proof {
                    assert(false);
                }
                Err(SyntaxError::ParseIntError)
            },
        }
    }
}

/// Whether every identifier the expression reads is in the table.
pub open spec fn aexp_declared(e: AExpV, tbl: Seq<(Seq<char>, Symbol)>) -> bool
    decreases e,
{
    match e {
        AExpV::Num(_) => true,
        AExpV::Ident(x) => lookup(tbl, x) is Some,
        AExpV::Bin(_, l, r) => aexp_declared(*l, tbl) && aexp_declared(*r, tbl),
    }
}

/// The instructions an arithmetic operator lowers to: the operands stand in
/// `R8` and `R9`, the result is left in `R8`. Division runs through
/// `RAX`/`RDX` as the hardware divide requires.
pub open spec fn lower_arop(op: ArOp) -> Seq<Entry> {
    match op {
        ArOp::Add => seq![Entry::Instr(Mnemonic::Add(Register::R8, Operand::Reg(Register::R9)))],
        ArOp::Sub => seq![Entry::Instr(Mnemonic::Sub(Register::R8, Operand::Reg(Register::R9)))],
        ArOp::Mul => seq![Entry::Instr(Mnemonic::IMul(Register::R8, Operand::Reg(Register::R9)))],
        ArOp::Div => seq![
            Entry::Instr(Mnemonic::Mov(Register::Rax, Operand::Reg(Register::R8))),
            Entry::Instr(Mnemonic::Xor(Register::Rdx, Operand::Reg(Register::Rdx))),
            Entry::Instr(Mnemonic::IDiv(Register::R9)),
            Entry::Instr(Mnemonic::Mov(Register::R8, Operand::Reg(Register::Rax))),
        ],
    }
}

/// The stack-machine lowering of an arithmetic expression: leaves push
/// their value, binary nodes pop into `R9` then `R8`, run the operator and
/// push `R8`.
pub open spec fn lower_aexp(e: AExpV, tbl: Seq<(Seq<char>, Symbol)>) -> Seq<Entry>
    decreases e,
{
    match e {
        AExpV::Num(n) => seq![Entry::Instr(Mnemonic::Push(Operand::Imm(Immediate::Imm32(n))))],
        AExpV::Ident(x) => access_code(sym_end_i32(tbl, x)) + seq![
            Entry::Instr(Mnemonic::Push(Operand::Reg(Register::Rbx))),
        ],
        AExpV::Bin(op, l, r) => lower_aexp(*l, tbl) + lower_aexp(*r, tbl) + seq![
            Entry::Instr(Mnemonic::Pop(Register::R9)),
            Entry::Instr(Mnemonic::Pop(Register::R8)),
        ] + lower_arop(op) + seq![Entry::Instr(Mnemonic::Push(Operand::Reg(Register::R8)))],
    }
}

impl Generate for ArOp {
    /// An operator asks nothing of the table or counters.
    open spec fn gen_requires(&self, symbol_table: SymbolTable, counters: Counters) -> bool {
        true
    }

    /// Emits the operator over `R8` and `R9`; the table and counters are
    /// untouched.
    fn generate(&self, program: Program, symbol_table: &SymbolTable, counters: &mut Counters) -> (r:
        Program)
        ensures
            r.entries@ == program.entries@ + lower_arop(*self),
            r.data_view() == program.data_view(),
            *final(counters) == *old(counters),
    {
        let r = match self {
            ArOp::Add => program.add(Mnemonic::Add(Register::R8, Operand::Reg(Register::R9))),
            ArOp::Sub => program.add(Mnemonic::Sub(Register::R8, Operand::Reg(Register::R9))),
            ArOp::Mul => program.add(Mnemonic::IMul(Register::R8, Operand::Reg(Register::R9))),
            ArOp::Div => program
                .add(Mnemonic::Mov(Register::Rax, Operand::Reg(Register::R8)))
                .add(Mnemonic::Xor(Register::Rdx, Operand::Reg(Register::Rdx)))
                .add(Mnemonic::IDiv(Register::R9))
                .add(Mnemonic::Mov(Register::R8, Operand::Reg(Register::Rax))),
        };
        proof {
            assert(r.entries@ =~= program.entries@ + lower_arop(*self));
        }
        r
    }
}

impl Generate for Arexpr {
    /// Every identifier the expression reads must be declared, and the
    /// table's region must fit the 32-bit immediates of stack addressing.
    open spec fn gen_requires(&self, symbol_table: SymbolTable, counters: Counters) -> bool {
        &&& symbol_table.wf()
        &&& symbol_table.spec_current() <= i32::MAX
        &&& aexp_declared(self@, symbol_table@)
    }

    /// Emits the stack-machine lowering of the expression.
    fn generate(&self, program: Program, symbol_table: &SymbolTable, counters: &mut Counters) -> (r:
        Program)
        ensures
            r.entries@ == program.entries@ + lower_aexp(self@, symbol_table@),
            r.data_view() == program.data_view(),
            *final(counters) == *old(counters),
        decreases *self,
    {
        match self {
            Arexpr::Num(n) => {
                let r = program.add(Mnemonic::Push(Operand::Imm(Immediate::Imm32(*n))));
                proof {
                    assert(r.entries@ =~= program.entries@ + lower_aexp(self@, symbol_table@));
                }
                r
            },
            Arexpr::Ident(x) => {
                proof {
                    lemma_lookup_addr_bound(*symbol_table, x@);
                }
                let r = symbol_table.access(x.as_str(), program).add(
                    Mnemonic::Push(Operand::Reg(Register::Rbx)),
                );
                proof {
                    assert(r.entries@ =~= program.entries@ + lower_aexp(self@, symbol_table@));
                }
                r
            },
            Arexpr::BinExpr { lhs, op, rhs } => {
                let program2 = lhs.generate(program, symbol_table, counters);
                let program3 = rhs.generate(program2, symbol_table, counters);
                let program4 = program3.add(Mnemonic::Pop(Register::R9)).add(
                    Mnemonic::Pop(Register::R8),
                );
                let program5 = op.generate(program4, symbol_table, counters);
                let r = program5.add(Mnemonic::Push(Operand::Reg(Register::R8)));
                proof {
                    assert(r.entries@ =~= program.entries@ + lower_aexp(self@, symbol_table@));
                }
                r
            },
        }
    }
}

impl Arexpr {
    /// Tests whether every identifier the expression reads is declared.
    pub fn check_declared(&self, symbol_table: &SymbolTable) -> (r: bool)
        ensures
            r == aexp_declared(self@, symbol_table@),
        decreases *self,
    {
        match self {
            Arexpr::Num(_) => true,
            Arexpr::Ident(x) => symbol_table.get(x.as_str()).is_some(),
            Arexpr::BinExpr { lhs, op, rhs } => lhs.check_declared(symbol_table)
                && rhs.check_declared(symbol_table),
        }
    }
}

/// The shape of a pending additive part.
pub open spec fn pend_view(p: Option<(Arexpr, ArOp)>) -> Option<(AExpV, ArOp)> {
    match p {
        None => None,
        Some((t, op)) => Some((t@, op)),
    }
}

} // verus!
