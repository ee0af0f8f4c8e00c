//! A source line: its number and its statement.

use vstd::prelude::*;

use super::{Stmt, StmtV, fold_s, lemma_fold_s_idempotent, stmt_model};
use super::stmt::{if_count_s, lemma_lower_stmt_counts, lit_count_s, lower_stmt, stmt_declared, strings_fit_s};
use crate::assembly::{Entry, Label, Program};
use crate::error::SyntaxError;
use crate::generate::{Counters, Generate};
use crate::optimize::Optimize;
use crate::parse_tree::{ParseNode, ParseRule, wf_line, wf_stmt};
use crate::symbol_table::{Symbol, SymbolTable};
use crate::text::{parse_usize, usize_of_text};

verus! {

/// The mathematical shape of a line.
pub struct LineV {
    pub number: int,
    pub stmt: StmtV,
}

/// A line: its number and its statement. Comment-only and blank lines have
/// number 0 and a `NoOp` statement.
#[derive(Debug, PartialEq)]
pub struct Line {
    pub number: usize,
    pub stmt: Stmt,
}

impl View for Line {
    type V = LineV;

    open spec fn view(&self) -> LineV {
        LineV { number: self.number as int, stmt: self.stmt@ }
    }
}

/// The constant folder on a line: the number is kept, the statement folded.
pub open spec fn fold_line(l: LineV) -> LineV {
    LineV { number: l.number, stmt: fold_s(l.stmt) }
}

impl Line {
    /// Checks if the line is empty.
    ///
    /// A line can be empty because of the source program or because of
    /// optimizations.
    pub fn is_empty(&self) -> (r: bool)
        ensures
            r == (self@.stmt is NoOp),
    {
        matches!(self.stmt, Stmt::NoOp)
    }
}

impl Optimize for Line {
    /// Folds the line's statement.
    fn optimize(self) -> (r: Line)
        ensures
            r@ == fold_line(self@),
    {
        Line { number: self.number, stmt: self.stmt.optimize() }
    }
}

/// Folding a line is idempotent.
pub proof fn lemma_fold_line_idempotent(l: LineV)
    ensures
        fold_line(fold_line(l)) == fold_line(l),
{
    lemma_fold_s_idempotent(l.stmt);
}

/// The `int` shape of an optional line number.
pub open spec fn opt_int(o: Option<usize>) -> Option<int> {
    match o {
        Some(v) => Some(v as int),
        None => None,
    }
}

/// Walks the tokens of a line node from position `i` on, threading the
/// optional line number read so far, the statement, the symbol table and
/// the last line number seen: a `Number` token must parse and be strictly
/// greater than `last`, a statement token becomes the line's statement.
pub open spec fn line_items_model(
    n: ParseNode,
    i: int,
    num: Option<int>,
    st: StmtV,
    tbl: Seq<(Seq<char>, Symbol)>,
    last: int,
) -> Result<(Option<int>, StmtV, Seq<(Seq<char>, Symbol)>, int), SyntaxError>
    decreases n, n.children@.len() - i,
{
    if i < 0 || i >= n.children@.len() {
        Ok((num, st, tbl, last))
    } else {
        match n.children@[i].rule {
            ParseRule::Number => match usize_of_text(n.children@[i].text@) {
                None => Err(SyntaxError::ParseIntError),
                Some(v) => if v <= last {
                    Err(SyntaxError::WrongLineNumber(n.children@[i].line))
                } else {
                    line_items_model(n, i + 1, Some(v as int), st, tbl, v as int)
                },
            },
            ParseRule::Newline => line_items_model(n, i + 1, num, st, tbl, last),
            _ => match stmt_model(n.children@[i], tbl) {
                Err(e) => Err(e),
                Ok((s2, tbl2)) => line_items_model(n, i + 1, num, s2, tbl2, last),
            },
        }
    }
}

/// The line a well-formed line node denotes, with the symbol table and the
/// last line number after it. A comment or blank line is number 0 with a
/// `NoOp` statement; a line that omits its number inherits the last number
/// plus one; numbering must be strictly increasing.
pub open spec fn line_model(
    n: ParseNode,
    tbl: Seq<(Seq<char>, Symbol)>,
    last: int,
) -> Result<(LineV, Seq<(Seq<char>, Symbol)>, int), SyntaxError> {
    match n.rule {
        ParseRule::Rem | ParseRule::Newline => Ok(
            (LineV { number: 0, stmt: StmtV::NoOp }, tbl, last),
        ),
        ParseRule::Line => match line_items_model(n, 0, None, StmtV::NoOp, tbl, last) {
            Err(e) => Err(e),
            Ok((num, st, tbl2, last2)) => match num {
                Some(v) => Ok((LineV { number: v, stmt: st }, tbl2, last2)),
                None => if st is NoOp {
                    Ok((LineV { number: 0, stmt: st }, tbl2, last2))
                } else if last2 >= usize::MAX {
                    Err(SyntaxError::WrongLineNumber(n.line))
                } else {
                    Ok((LineV { number: last2 + 1, stmt: st }, tbl2, last2 + 1))
                },
            },
        },
        _ => Err(SyntaxError::ParseIntError),
    }
}

impl Line {
    /// Builds a line from a well-formed line node, enforcing strictly
    /// increasing line numbers against `last` and auto-assigning a number
    /// to an unnumbered statement line.
    ///
    /// Fails with `WrongLineNumber` (carrying the offending token's source
    /// line) exactly when the numbering is not strictly increasing or no
    /// greater number can be assigned, and with `ParseIntError` when an
    /// integer literal is malformed or out of range.
    pub fn from_pair(n: &ParseNode, symbol_table: &mut SymbolTable, last: &mut usize) -> (r:
        Result<Line, SyntaxError>)
        requires
            wf_line(*n),
            old(symbol_table).wf(),
        ensures
            final(symbol_table).wf(),
            match r {
                Ok(l) => line_model(*n, old(symbol_table)@, *old(last) as int) == Ok::<
                    _,
                    SyntaxError,
                >((l@, final(symbol_table)@, *final(last) as int)),
                Err(e) => line_model(*n, old(symbol_table)@, *old(last) as int) == Err::<
                    (LineV, Seq<(Seq<char>, Symbol)>, int),
                    _,
                >(e),
            },
    {
        match n.rule {
            ParseRule::Rem | ParseRule::Newline => Ok(Line { number: 0, stmt: Stmt::NoOp }),
            ParseRule::Line => {
                let ghost tbl0 = symbol_table@;
                let ghost last0 = *last as int;
                let mut num: Option<usize> = None;
                let mut stmt: Stmt = Stmt::NoOp;
                let mut i: usize = 0;
                while i < n.children.len()
                    invariant
                        n.rule is Line,
                        wf_line(*n),
                        symbol_table.wf(),
                        tbl0 == old(symbol_table)@,
                        last0 == *old(last) as int,
                        0 <= i <= n.children@.len(),
                        line_items_model(*n, i as int, opt_int(num), stmt@, symbol_table@, *last as int)
                            == line_items_model(*n, 0, None, StmtV::NoOp, tbl0, last0),
                    decreases n.children@.len() - i,
                {
                    let c = &n.children[i];
                    match c.rule {
                        ParseRule::Number => {
                            let v = match parse_usize(c.text.as_str()) {
                                Some(v) => v,
                                None => {
                                    return Err(SyntaxError::ParseIntError);
                                },
                            };
                            if v <= *last {
                                return Err(SyntaxError::WrongLineNumber(c.line));
                            }
                            num = Some(v);
                            *last = v;
                        },
                        ParseRule::Newline => {},
                        _ => {
                            stmt = match Stmt::from_pair(c, symbol_table) {
                                Ok(s) => s,
                                Err(e) => {
                                    return Err(e);
                                },
                            };
                        },
                    }
                    i += 1;
                }
                match num {
                    Some(v) => Ok(Line { number: v, stmt }),
                    None => {
                        if matches!(stmt, Stmt::NoOp) {
                            Ok(Line { number: 0, stmt })
                        } else if *last == usize::MAX {
                            Err(SyntaxError::WrongLineNumber(n.line))
                        } else {
                            *last = *last + 1;
                            Ok(Line { number: *last, stmt })
                        }
                    },
                }
            },
            _ => {
                proof {
                    assert(false);
                }
                Err(SyntaxError::ParseIntError)
            },
        }
    }
}

/// What lowering a line emits: a `line` label for its number, then the
/// statement's lowering; an empty line is elided entirely, label and all.
pub open spec fn lower_line(
    l: LineV,
    tbl: Seq<(Seq<char>, Symbol)>,
    cond: u64,
    lit: u64,
) -> (Seq<Entry>, Seq<(Label, Seq<u8>)>, u64, u64) {
    if l.stmt is NoOp {
        (Seq::<Entry>::empty(), Seq::<(Label, Seq<u8>)>::empty(), cond, lit)
    } else {
        let sout = lower_stmt(l.stmt, tbl, cond, lit);
        (seq![Entry::LabelDef(Label::Line(l.number as u64))] + sout.0, sout.1, sout.2, sout.3)
    }
}

/// Lowering a line advances the counters by its statement's counts.
pub proof fn lemma_lower_line_counts(l: LineV, tbl: Seq<(Seq<char>, Symbol)>, c: u64, lit: u64)
    requires
        c + if_count_s(l.stmt) <= u64::MAX,
        lit + lit_count_s(l.stmt) <= u64::MAX,
    ensures
        lower_line(l, tbl, c, lit).2 == c + if_count_s(l.stmt),
        lower_line(l, tbl, c, lit).3 == lit + lit_count_s(l.stmt),
{
    if !(l.stmt is NoOp) {
        lemma_lower_stmt_counts(l.stmt, tbl, c, lit);
    }
}

impl Generate for Line {
    /// The line's statement must meet its own generation conditions.
    open spec fn gen_requires(&self, symbol_table: SymbolTable, counters: Counters) -> bool {
        &&& symbol_table.wf()
        &&& symbol_table.spec_current() <= i32::MAX
        &&& stmt_declared(self@.stmt, symbol_table@)
        &&& strings_fit_s(self@.stmt)
        &&& counters.cond + if_count_s(self@.stmt) <= u64::MAX
        &&& counters.literal + lit_count_s(self@.stmt) <= u64::MAX
    }

    /// Emits the line's label and statement; an empty line emits nothing.
    fn generate(&self, program: Program, symbol_table: &SymbolTable, counters: &mut Counters) -> (r:
        Program)
        ensures
            r.entries@ == program.entries@ + lower_line(
                self@,
                symbol_table@,
                old(counters).cond,
                old(counters).literal,
            ).0,
            r.data_view() == program.data_view() + lower_line(
                self@,
                symbol_table@,
                old(counters).cond,
                old(counters).literal,
            ).1,
            final(counters).cond == lower_line(
                self@,
                symbol_table@,
                old(counters).cond,
                old(counters).literal,
            ).2,
            final(counters).literal == lower_line(
                self@,
                symbol_table@,
                old(counters).cond,
                old(counters).literal,
            ).3,
    {
        if matches!(self.stmt, Stmt::NoOp) {
            proof {
                assert(program.entries@ + Seq::<Entry>::empty() =~= program.entries@);
                assert(program.data_view() + Seq::<(Label, Seq<u8>)>::empty()
                    =~= program.data_view());
            }
            return program;
        }
        let ghost out = lower_line(self@, symbol_table@, counters.cond, counters.literal);
        let p1 = program.label(Label::Line(self.number as u64));
        let r = self.stmt.generate(p1, symbol_table, counters);
        proof {
            assert(r.entries@ =~= program.entries@ + out.0);
            assert(r.data_view() =~= program.data_view() + out.1);
        }
        r
    }
}

} // verus!
