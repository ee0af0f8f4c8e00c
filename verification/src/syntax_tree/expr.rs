//! Expressions: a string literal or an arithmetic expression.

use vstd::prelude::*;

use crate::error::SyntaxError;
use crate::optimize::Optimize;
use crate::parse_tree::{ParseNode, ParseRule, wf_expr};

mod arexpr;

pub use arexpr::{AExpV, ArOp, Arexpr, aexp_declared, aexp_view, aop_ok, aop_val, arexpr_model, closed_a, div_i32, eval_a, fold_a, lemma_fold_a_closed, lemma_fold_a_idempotent, lemma_fold_a_preserves_eval, lower_aexp, lower_arop, wf_primary};

verus! {

/// The mathematical shape of an expression.
pub enum ExprV {
    Str(Seq<char>),
    Arith(AExpV),
}

/// An expression: a string literal (outer quotes stripped) or an
/// arithmetic expression.
#[derive(Debug, PartialEq)]
pub enum Expr {
    String(String),
    /// Arithmetic expression
    Arexpr(Arexpr),
}

impl View for Expr {
    type V = ExprV;

    open spec fn view(&self) -> ExprV {
        match self {
            Expr::String(s) => ExprV::Str(s@),
            Expr::Arexpr(e) => ExprV::Arith(e@),
        }
    }
}

/// The constant folder on expressions: a string is unchanged, an
/// arithmetic expression is folded.
pub open spec fn fold_e(e: ExprV) -> ExprV {
    match e {
        ExprV::Str(s) => ExprV::Str(s),
        ExprV::Arith(a) => ExprV::Arith(fold_a(a)),
    }
}

impl Optimize for Expr {
    /// Folds the arithmetic side; a string literal is unchanged.
    fn optimize(self) -> (r: Expr)
        ensures
            r@ == fold_e(self@),
    {
        match self {
            Expr::String(_) => self,
            Expr::Arexpr(e) => Expr::Arexpr(e.optimize()),
        }
    }
}

/// Folding expressions is idempotent.
pub proof fn lemma_fold_e_idempotent(e: ExprV)
    ensures
        fold_e(fold_e(e)) == fold_e(e),
{
    match e {
        ExprV::Arith(a) => lemma_fold_a_idempotent(a),
        _ => {},
    }
}

/// Removes the enclosing double quotes of a string literal's source text.
pub fn strip(s: &str) -> (r: String)
    requires
        s@.len() >= 2,
        s@[0] == '"',
        s@[s@.len() - 1] == '"',
    ensures
        r@ == s@.subrange(1, s@.len() - 1),
{
    let len = s.unicode_len();
    s.substring_char(1, len - 1).to_owned()
}

/// The expression a well-formed expression node denotes: a string literal
/// with its quotes stripped, or an arithmetic expression.
pub open spec fn expr_model(n: ParseNode) -> Result<ExprV, SyntaxError> {
    let c = n.children@[0];
    match c.rule {
        ParseRule::StringLit => Ok(ExprV::Str(c.text@.subrange(1, c.text@.len() - 1))),
        ParseRule::Arexpr => match arexpr_model(c) {
            Ok(e) => Ok(ExprV::Arith(e)),
            Err(e) => Err(e),
        },
        _ => Err(SyntaxError::ParseIntError),
    }
}

impl Expr {
    /// Builds an expression from a well-formed expression node.
    ///
    /// Fails with `ParseIntError` exactly when a numeric literal inside an
    /// arithmetic expression is malformed or out of `i32`'s range.
    pub fn from_pair(n: &ParseNode) -> (r: Result<Expr, SyntaxError>)
        requires
            wf_expr(*n),
        ensures
            match r {
                Ok(e) => expr_model(*n) == Ok::<ExprV, SyntaxError>(e@),
                Err(e) => expr_model(*n) == Err::<ExprV, SyntaxError>(e),
            },
    {
        let c = &n.children[0];
        match c.rule {
            ParseRule::StringLit => Ok(Expr::String(strip(c.text.as_str()))),
            ParseRule::Arexpr => match Arexpr::from_pair(c) {
                Ok(e) => Ok(Expr::Arexpr(e)),
                Err(e) => Err(e),
            },
            _ => {
                proof {
                    assert(false);
                }
                Err(SyntaxError::ParseIntError)
            },
        }
    }
}

} // verus!
