//! The abstract syntax tree: an ordered sequence of lines, each a numbered
//! statement, together with its constructors, optimizer and lowering.

use vstd::prelude::*;

mod cond;
mod expr;
mod line;
mod stmt;

pub use cond::{Cond, CondOpV, CondOperand, CondV, RelOp, cond_const, cond_model, operand_model, relop_holds, relop_model};
pub use expr::{AExpV, ArOp, Arexpr, Expr, ExprV, aexp_view, aop_ok, aop_val, arexpr_model, closed_a, div_i32, eval_a, expr_model, fold_a, fold_e, lemma_fold_a_closed, lemma_fold_a_idempotent, lemma_fold_a_preserves_eval, lemma_fold_e_idempotent, strip, wf_primary};
pub use line::{Line, LineV, fold_line, lemma_fold_line_idempotent, line_items_model, line_model, opt_int};
pub use stmt::{Stmt, StmtV, fold_s, lemma_fold_s_idempotent, stmt_model, stmt_view};

use crate::assembly::{Entry, Immediate, Label, Mnemonic, Operand, Program, Register};
use crate::error::SyntaxError;
use crate::generate::{Counters, Generate};
use crate::optimize::Optimize;
use crate::parse_tree::{ParseNode, ParseRule, wf_file};
use crate::symbol_table::{Symbol, SymbolTable, lemma_stack_size_le, stack_size};

use self::line::{lemma_lower_line_counts, lower_line};
use self::stmt::{if_count_s, lit_count_s, stmt_declared, strings_fit_s};

verus! {

/// A program: its lines in source order. Empty lines are retained in the
/// tree but skipped by lowering.
#[derive(Debug, PartialEq)]
pub struct SyntaxTree {
    pub lines: Vec<Line>,
}

impl View for SyntaxTree {
    type V = Seq<LineV>;

    open spec fn view(&self) -> Seq<LineV> {
        self.lines@.map(|i: int, l: Line| l@)
    }
}

/// The constant folder on a program: every line is folded, and lines whose
/// statement became `NoOp` are dropped.
pub open spec fn fold_tree(t: Seq<LineV>) -> Seq<LineV>
    decreases t.len(),
{
    if t.len() == 0 {
        Seq::<LineV>::empty()
    } else {
        let l0 = fold_line(t[0]);
        let rest = fold_tree(t.drop_first());
        if l0.stmt is NoOp {
            rest
        } else {
            seq![l0] + rest
        }
    }
}

impl Optimize for SyntaxTree {
    /// Folds every line and drops the lines that became empty.
    fn optimize(self) -> (r: SyntaxTree)
        ensures
            r@ == fold_tree(self@),
    {
        let ghost orig = self@;
        let mut lines = self.lines;
        let mut out: Vec<Line> = Vec::new();
        proof {
            assert(orig.skip(lines@.len() as int) =~= Seq::<LineV>::empty());
        }
        while lines.len() > 0
            invariant
                lines@.len() <= orig.len(),
                forall|i: int|
                    0 <= i < lines@.len() ==> (#[trigger] lines@[i])@ == orig[i],
                out@.map(|i: int, l: Line| l@) == fold_tree(orig.skip(lines@.len() as int)),
            decreases lines.len(),
        {
            let ghost k = lines@.len() as int;
            let ghost out_view = out@.map(|i: int, l: Line| l@);
            let l = match lines.pop() {
                Some(l) => l,
                None => {
                    proof {
                        assert(false);
                    }
                    return SyntaxTree { lines: out };
                },
            };
            let lo = l.optimize();
            proof {
                assert(orig.skip(k - 1)[0] == orig[k - 1]);
                assert(orig.skip(k - 1).drop_first() =~= orig.skip(k));
            }
            if !lo.is_empty() {
                out.insert(0, lo);
                proof {
                    assert(out@.map(|i: int, l2: Line| l2@) =~= seq![lo@] + out_view);
                }
            }
            proof {
                assert(out@.map(|i: int, l2: Line| l2@) =~= fold_tree(orig.skip(k - 1)));
            }
        }
        proof {
            assert(orig.skip(0) =~= orig);
        }
        SyntaxTree { lines: out }
    }
}

/// Walks the children of a file node from position `i` on, collecting the
/// lines they denote and threading the symbol table and the last line
/// number; an `Eoi` child ends the walk.
pub open spec fn lines_model(
    root: ParseNode,
    i: int,
    tbl: Seq<(Seq<char>, Symbol)>,
    last: int,
) -> Result<(Seq<LineV>, Seq<(Seq<char>, Symbol)>), SyntaxError>
    decreases root, root.children@.len() - i,
{
    if i < 0 || i >= root.children@.len() || root.children@[i].rule is Eoi {
        Ok((Seq::<LineV>::empty(), tbl))
    } else {
        match line_model(root.children@[i], tbl, last) {
            Err(e) => Err(e),
            Ok((lv, tbl2, last2)) => match lines_model(root, i + 1, tbl2, last2) {
                Err(e) => Err(e),
                Ok((rest, tbl3)) => Ok((seq![lv] + rest, tbl3)),
            },
        }
    }
}

/// The program a well-formed file node denotes, with the symbol table after
/// all declarations; line numbering starts strictly above 0.
pub open spec fn tree_model(
    root: ParseNode,
    tbl: Seq<(Seq<char>, Symbol)>,
) -> Result<(Seq<LineV>, Seq<(Seq<char>, Symbol)>), SyntaxError> {
    lines_model(root, 0, tbl, 0)
}

/// Prepends `prefix` to the lines of a successful walk.
pub open spec fn cons_lines(
    prefix: Seq<LineV>,
    r: Result<(Seq<LineV>, Seq<(Seq<char>, Symbol)>), SyntaxError>,
) -> Result<(Seq<LineV>, Seq<(Seq<char>, Symbol)>), SyntaxError> {
    match r {
        Err(e) => Err(e),
        Ok((rest, tbl)) => Ok((prefix + rest, tbl)),
    }
}

impl SyntaxTree {
    /// Builds a program from a well-formed file node, mutating the symbol
    /// table with every declaration the lines make.
    ///
    /// Fails with `WrongLineNumber` exactly when line numbering is not
    /// strictly increasing (pointing at the offending token's source line),
    /// and with `ParseIntError` when an integer literal is malformed or out
    /// of range.
    pub fn from_pairs(root: &ParseNode, symbol_table: &mut SymbolTable) -> (r: Result<
        SyntaxTree,
        SyntaxError,
    >)
        requires
            wf_file(*root),
            old(symbol_table).wf(),
        ensures
            final(symbol_table).wf(),
            match r {
                Ok(t) => tree_model(*root, old(symbol_table)@) == Ok::<_, SyntaxError>(
                    (t@, final(symbol_table)@),
                ),
                Err(e) => tree_model(*root, old(symbol_table)@) == Err::<
                    (Seq<LineV>, Seq<(Seq<char>, Symbol)>),
                    _,
                >(e),
            },
    {
        let ghost tbl0 = symbol_table@;
        let mut lines: Vec<Line> = Vec::new();
        let mut last: usize = 0;
        let mut i: usize = 0;
        while i < root.children.len()
            invariant
                wf_file(*root),
                symbol_table.wf(),
                tbl0 == old(symbol_table)@,
                0 <= i <= root.children@.len(),
                tree_model(*root, tbl0) == cons_lines(
                    lines@.map(|k: int, l: Line| l@),
                    lines_model(*root, i as int, symbol_table@, last as int),
                ),
            decreases root.children@.len() - i,
        {
            let ghost built = lines@.map(|k: int, l: Line| l@);
            let c = &root.children[i];
            if matches!(c.rule, ParseRule::Eoi) {
                proof {
                    assert(built + Seq::<LineV>::empty() =~= built);
                }
                return Ok(SyntaxTree { lines });
            }
            let l = match Line::from_pair(c, symbol_table, &mut last) {
                Ok(l) => l,
                Err(e) => {
                    return Err(e);
                },
            };
            lines.push(l);
            i += 1;
            proof {
                assert(lines@.map(|k: int, l2: Line| l2@) =~= built + seq![l@]);
                assert(lines_model(*root, i - 1, symbol_table@, last as int) is Ok ==> (
                built + (seq![l@] + lines_model(*root, i as int, symbol_table@, last as int).unwrap().0)
                    =~= (built + seq![l@]) + lines_model(*root, i as int, symbol_table@, last as int).unwrap().0));
            }
        }
        proof {
            assert(lines@.map(|k: int, l: Line| l@) + Seq::<LineV>::empty() =~= lines@.map(
                |k: int, l: Line| l@,
            ));
        }
        Ok(SyntaxTree { lines })
    }
}

/// Whether every identifier every line touches is in the table.
pub open spec fn tree_declared(t: Seq<LineV>, tbl: Seq<(Seq<char>, Symbol)>) -> bool {
    forall|i: int| 0 <= i < t.len() ==> stmt_declared((#[trigger] t[i]).stmt, tbl)
}

/// Whether every string literal in the program fits the 32-bit length
/// immediate.
pub open spec fn tree_strings_fit(t: Seq<LineV>) -> bool {
    forall|i: int| 0 <= i < t.len() ==> strings_fit_s((#[trigger] t[i]).stmt)
}

/// The number of conditionals the program emits.
pub open spec fn if_count_t(t: Seq<LineV>) -> nat
    decreases t.len(),
{
    if t.len() == 0 {
        0
    } else {
        if_count_s(t[0].stmt) + if_count_t(t.drop_first())
    }
}

/// The number of string literals the program interns.
pub open spec fn lit_count_t(t: Seq<LineV>) -> nat
    decreases t.len(),
{
    if t.len() == 0 {
        0
    } else {
        lit_count_s(t[0].stmt) + lit_count_t(t.drop_first())
    }
}

/// What lowering the lines emits, in source order, threading the counters.
pub open spec fn lower_lines(
    t: Seq<LineV>,
    tbl: Seq<(Seq<char>, Symbol)>,
    cond: u64,
    lit: u64,
) -> (Seq<Entry>, Seq<(Label, Seq<u8>)>, u64, u64)
    decreases t.len(),
{
    if t.len() == 0 {
        (Seq::<Entry>::empty(), Seq::<(Label, Seq<u8>)>::empty(), cond, lit)
    } else {
        let lout = lower_line(t[0], tbl, cond, lit);
        let rest = lower_lines(t.drop_first(), tbl, lout.2, lout.3);
        (lout.0 + rest.0, lout.1 + rest.1, rest.2, rest.3)
    }
}

/// The `printn` helper: repeatedly divides the value in `RSI` by ten,
/// pushing each remainder as an ASCII digit in its own 8-byte slot and
/// counting digits in `RCX`, then prints the digit buffer with length
/// `RCX` times 8 — consumers see each digit padded by seven zero bytes.
pub open spec fn printn_code() -> Seq<Entry> {
    seq![
        Entry::FuncBegin(Label::Printn),
        Entry::Instr(Mnemonic::Mov(Register::Rax, Operand::Reg(Register::Rsi))),
        Entry::Instr(Mnemonic::Xor(Register::Rcx, Operand::Reg(Register::Rcx))),
        Entry::Instr(Mnemonic::Mov(Register::Rbx, Operand::Imm(Immediate::Imm32(10)))),
        Entry::Instr(Mnemonic::Jmp(Label::PrintnInnerCond)),
        Entry::LabelDef(Label::PrintnInner),
        Entry::Instr(Mnemonic::Xor(Register::Rdx, Operand::Reg(Register::Rdx))),
        Entry::Instr(Mnemonic::IDiv(Register::Rbx)),
        Entry::Instr(Mnemonic::Add(Register::Rdx, Operand::Imm(Immediate::Imm32(48)))),
        Entry::Instr(Mnemonic::Push(Operand::Reg(Register::Rdx))),
        Entry::Instr(Mnemonic::Inc(Register::Rcx)),
        Entry::LabelDef(Label::PrintnInnerCond),
        Entry::Instr(Mnemonic::Cmp(Register::Rax, Operand::Imm(Immediate::Imm32(10)))),
        Entry::Instr(Mnemonic::Jge(Label::PrintnInner)),
        Entry::Instr(Mnemonic::Add(Register::Rax, Operand::Imm(Immediate::Imm32(48)))),
        Entry::Instr(Mnemonic::Push(Operand::Reg(Register::Rax))),
        Entry::Instr(Mnemonic::Inc(Register::Rcx)),
        Entry::Instr(Mnemonic::Mov(Register::Rsi, Operand::Reg(Register::Rsp))),
        Entry::Instr(Mnemonic::IMul(Register::Rcx, Operand::Imm(Immediate::Imm32(8)))),
        Entry::Instr(Mnemonic::Mov(Register::Rdx, Operand::Reg(Register::Rcx))),
        Entry::Instr(Mnemonic::Call(Label::Print)),
        Entry::FuncEnd,
    ]
}

/// The `print` helper: `write(1, RSI, RDX)`.
pub open spec fn print_code() -> Seq<Entry> {
    seq![
        Entry::FuncBegin(Label::Print),
        Entry::Instr(Mnemonic::Mov(Register::Rax, Operand::Imm(Immediate::Imm32(1)))),
        Entry::Instr(Mnemonic::Mov(Register::Rdi, Operand::Imm(Immediate::Imm32(1)))),
        Entry::Instr(Mnemonic::Syscall),
        Entry::FuncEnd,
    ]
}

/// The `read` helper: `read(0, RSI, RDX)`.
pub open spec fn read_code() -> Seq<Entry> {
    seq![
        Entry::FuncBegin(Label::Read),
        Entry::Instr(Mnemonic::Mov(Register::Rax, Operand::Imm(Immediate::Imm32(0)))),
        Entry::Instr(Mnemonic::Mov(Register::Rdi, Operand::Imm(Immediate::Imm32(0)))),
        Entry::Instr(Mnemonic::Syscall),
        Entry::FuncEnd,
    ]
}

/// The epilogue: the `exit(0)` system call.
pub open spec fn exit_code() -> Seq<Entry> {
    seq![
        Entry::LabelDef(Label::Exit),
        Entry::Instr(Mnemonic::Mov(Register::Rax, Operand::Imm(Immediate::Imm32(60)))),
        Entry::Instr(Mnemonic::Mov(Register::Rdi, Operand::Imm(Immediate::Imm32(0)))),
        Entry::Instr(Mnemonic::Syscall),
    ]
}

/// What lowering a whole program emits: the prologue that captures the
/// frame base in `R15` and reserves the stack frame, the lines in source
/// order, a jump over the helper blocks, the three helpers, and the exit
/// epilogue.
pub open spec fn lower_tree(
    t: Seq<LineV>,
    tbl: Seq<(Seq<char>, Symbol)>,
    cond: u64,
    lit: u64,
) -> (Seq<Entry>, Seq<(Label, Seq<u8>)>, u64, u64) {
    let lout = lower_lines(t, tbl, cond, lit);
    (
        seq![
            Entry::Instr(Mnemonic::Mov(Register::R15, Operand::Reg(Register::Rsp))),
            Entry::Instr(
                Mnemonic::Sub(Register::Rsp, Operand::Imm(Immediate::Imm32(stack_size(tbl) as i32))),
            ),
        ] + lout.0 + seq![Entry::Instr(Mnemonic::Jmp(Label::Exit))] + printn_code() + print_code()
            + read_code() + exit_code(),
        lout.1,
        lout.2,
        lout.3,
    )
}

impl Generate for SyntaxTree {
    /// Every identifier every line touches must be declared, every string
    /// literal must fit the length immediate, the table's region must fit
    /// the 32-bit immediates, and the counters must have room.
    open spec fn gen_requires(&self, symbol_table: SymbolTable, counters: Counters) -> bool {
        &&& symbol_table.wf()
        &&& symbol_table.spec_current() <= i32::MAX
        &&& tree_declared(self@, symbol_table@)
        &&& tree_strings_fit(self@)
        &&& counters.cond + if_count_t(self@) <= u64::MAX
        &&& counters.literal + lit_count_t(self@) <= u64::MAX
    }

    /// Emits the whole program's lowering.
    #[verifier::rlimit(60)]
    fn generate(&self, program: Program, symbol_table: &SymbolTable, counters: &mut Counters) -> (r:
        Program)
        ensures
            r.entries@ == program.entries@ + lower_tree(
                self@,
                symbol_table@,
                old(counters).cond,
                old(counters).literal,
            ).0,
            r.data_view() == program.data_view() + lower_tree(
                self@,
                symbol_table@,
                old(counters).cond,
                old(counters).literal,
            ).1,
            final(counters).cond == lower_tree(
                self@,
                symbol_table@,
                old(counters).cond,
                old(counters).literal,
            ).2,
            final(counters).literal == lower_tree(
                self@,
                symbol_table@,
                old(counters).cond,
                old(counters).literal,
            ).3,
    {
        let ghost t = self@;
        let ghost tbl = symbol_table@;
        let ghost c0 = counters.cond;
        let ghost l0 = counters.literal;
        let size = symbol_table.size();
        proof {
            lemma_stack_size_le(symbol_table@);
        }
        let mut p = program.add(Mnemonic::Mov(Register::R15, Operand::Reg(Register::Rsp))).add(
            Mnemonic::Sub(Register::Rsp, Operand::Imm(Immediate::Imm32(size as i32))),
        );
        let ghost after_prologue = p.entries@;
        let mut i: usize = 0;
        proof {
            assert(t.skip(0) =~= t);
        }
        while i < self.lines.len()
            invariant
                self.lines@.len() == t.len(),
                forall|j: int| 0 <= j < t.len() ==> (#[trigger] self.lines@[j])@ == t[j],
                symbol_table.wf(),
                tbl == symbol_table@,
                symbol_table.spec_current() <= i32::MAX,
                tree_declared(t, tbl),
                tree_strings_fit(t),
                0 <= i <= t.len(),
                counters.cond + if_count_t(t.skip(i as int)) <= u64::MAX,
                counters.literal + lit_count_t(t.skip(i as int)) <= u64::MAX,
                p.entries@ + lower_lines(t.skip(i as int), tbl, counters.cond, counters.literal).0
                    == after_prologue + lower_lines(t, tbl, c0, l0).0,
                p.data_view() + lower_lines(t.skip(i as int), tbl, counters.cond, counters.literal).1
                    == program.data_view() + lower_lines(t, tbl, c0, l0).1,
                lower_lines(t.skip(i as int), tbl, counters.cond, counters.literal).2
                    == lower_lines(t, tbl, c0, l0).2,
                lower_lines(t.skip(i as int), tbl, counters.cond, counters.literal).3
                    == lower_lines(t, tbl, c0, l0).3,
                after_prologue == program.entries@ + seq![
                    Entry::Instr(Mnemonic::Mov(Register::R15, Operand::Reg(Register::Rsp))),
                    Entry::Instr(
                        Mnemonic::Sub(
                            Register::Rsp,
                            Operand::Imm(Immediate::Imm32(stack_size(tbl) as i32)),
                        ),
                    ),
                ],
            decreases t.len() - i,
        {
            let ghost rem = t.skip(i as int);
            let ghost pc = counters.cond;
            let ghost pl = counters.literal;
            let ghost pent = p.entries@;
            let ghost pdat = p.data_view();
            proof {
                assert(rem[0] == t[i as int]);
                assert(rem.drop_first() =~= t.skip(i + 1));
                lemma_lower_line_counts(t[i as int], tbl, pc, pl);
            }
            p = self.lines[i].generate(p, symbol_table, counters);
            i += 1;
            proof {
                assert(p.entries@ =~= pent + lower_line(t[i - 1], tbl, pc, pl).0);
                assert(p.data_view() =~= pdat + lower_line(t[i - 1], tbl, pc, pl).1);
                assert(p.entries@ + lower_lines(t.skip(i as int), tbl, counters.cond, counters.literal).0
                    =~= pent + lower_lines(rem, tbl, pc, pl).0);
                assert(p.data_view() + lower_lines(t.skip(i as int), tbl, counters.cond, counters.literal).1
                    =~= pdat + lower_lines(rem, tbl, pc, pl).1);
            }
        }
        proof {
            assert(t.skip(t.len() as int) =~= Seq::<LineV>::empty());
            assert(p.entries@ + Seq::<Entry>::empty() =~= p.entries@);
            assert(p.data_view() + Seq::<(Label, Seq<u8>)>::empty() =~= p.data_view());
        }
        let p = p.add(Mnemonic::Jmp(Label::Exit));
        let p = p
            .func(Label::Printn)
            .add(Mnemonic::Mov(Register::Rax, Operand::Reg(Register::Rsi)))
            .add(Mnemonic::Xor(Register::Rcx, Operand::Reg(Register::Rcx)))
            .add(Mnemonic::Mov(Register::Rbx, Operand::Imm(Immediate::Imm32(10))))
            .add(Mnemonic::Jmp(Label::PrintnInnerCond))
            .label(Label::PrintnInner)
            .add(Mnemonic::Xor(Register::Rdx, Operand::Reg(Register::Rdx)))
            .add(Mnemonic::IDiv(Register::Rbx))
            .add(Mnemonic::Add(Register::Rdx, Operand::Imm(Immediate::Imm32(48))))
            .add(Mnemonic::Push(Operand::Reg(Register::Rdx)))
            .add(Mnemonic::Inc(Register::Rcx))
            .label(Label::PrintnInnerCond)
            .add(Mnemonic::Cmp(Register::Rax, Operand::Imm(Immediate::Imm32(10))))
            .add(Mnemonic::Jge(Label::PrintnInner))
            .add(Mnemonic::Add(Register::Rax, Operand::Imm(Immediate::Imm32(48))))
            .add(Mnemonic::Push(Operand::Reg(Register::Rax)))
            .add(Mnemonic::Inc(Register::Rcx))
            .add(Mnemonic::Mov(Register::Rsi, Operand::Reg(Register::Rsp)))
            .add(Mnemonic::IMul(Register::Rcx, Operand::Imm(Immediate::Imm32(8))))
            .add(Mnemonic::Mov(Register::Rdx, Operand::Reg(Register::Rcx)))
            .add(Mnemonic::Call(Label::Print))
            .func_end();
        let p = p
            .func(Label::Print)
            .add(Mnemonic::Mov(Register::Rax, Operand::Imm(Immediate::Imm32(1))))
            .add(Mnemonic::Mov(Register::Rdi, Operand::Imm(Immediate::Imm32(1))))
            .add(Mnemonic::Syscall)
            .func_end();
        let p = p
            .func(Label::Read)
            .add(Mnemonic::Mov(Register::Rax, Operand::Imm(Immediate::Imm32(0))))
            .add(Mnemonic::Mov(Register::Rdi, Operand::Imm(Immediate::Imm32(0))))
            .add(Mnemonic::Syscall)
            .func_end();
        let r = p
            .label(Label::Exit)
            .add(Mnemonic::Mov(Register::Rax, Operand::Imm(Immediate::Imm32(60))))
            .add(Mnemonic::Mov(Register::Rdi, Operand::Imm(Immediate::Imm32(0))))
            .add(Mnemonic::Syscall);
        proof {
            assert(r.entries@ =~= program.entries@ + lower_tree(t, tbl, c0, l0).0);
            assert(r.data_view() =~= program.data_view() + lower_tree(t, tbl, c0, l0).1);
        }
        r
    }
}

impl SyntaxTree {
    /// Tests whether the program can be lowered against the table with
    /// fresh counters: the table's region fits the 32-bit immediates, every
    /// identifier is declared, every string literal fits, and the counters
    /// cannot run out.
    pub fn check_generate_ready(&self, symbol_table: &SymbolTable) -> (r: bool)
        requires
            symbol_table.wf(),
        ensures
            r == self.gen_requires(*symbol_table, Counters { cond: 0u64, literal: 0u64 }),
    {
        if symbol_table.current_offset() > 0x7FFF_FFFFu32 {
            return false;
        }
        let ghost t = self@;
        let mut ifs: u64 = 0;
        let mut lits: u64 = 0;
        let mut i: usize = 0;
        proof {
            assert(t.skip(0) =~= t);
        }
        while i < self.lines.len()
            invariant
                t == self@,
                self.lines@.len() == t.len(),
                symbol_table.wf(),
                symbol_table.spec_current() <= i32::MAX,
                0 <= i <= t.len(),
                forall|j: int|
                    0 <= j < i ==> stmt_declared((#[trigger] t[j]).stmt, symbol_table@)
                        && strings_fit_s(t[j].stmt),
                ifs + if_count_t(t.skip(i as int)) == if_count_t(t),
                lits + lit_count_t(t.skip(i as int)) == lit_count_t(t),
                ifs <= if_count_t(t),
                lits <= lit_count_t(t),
            decreases t.len() - i,
        {
            proof {
                assert(t.skip(i as int)[0] == t[i as int]);
                assert(t.skip(i as int).drop_first() =~= t.skip(i + 1));
                assert(self.lines@[i as int]@ == t[i as int]);
                assert(t[i as int].stmt == self.lines@[i as int].stmt@);
            }
            let line = &self.lines[i];
            if !line.stmt.check_ready(symbol_table) {
                return false;
            }
            let fc = match line.stmt.if_count() {
                Some(v) => v,
                None => {
                    return false;
                },
            };
            let lc = match line.stmt.lit_count() {
                Some(v) => v,
                None => {
                    return false;
                },
            };
            ifs = match ifs.checked_add(fc) {
                Some(v) => v,
                None => {
                    return false;
                },
            };
            lits = match lits.checked_add(lc) {
                Some(v) => v,
                None => {
                    return false;
                },
            };
            i += 1;
        }
        proof {
            assert(t.skip(t.len() as int) =~= Seq::<LineV>::empty());
        }
        true
    }
}

/// Folding a program is idempotent: optimizing an already-optimized tree
/// yields the same tree.
pub proof fn lemma_fold_tree_idempotent(t: Seq<LineV>)
    ensures
        fold_tree(fold_tree(t)) == fold_tree(t),
    decreases t.len(),
{
    if t.len() > 0 {
        let l0 = fold_line(t[0]);
        let rest = fold_tree(t.drop_first());
        lemma_fold_tree_idempotent(t.drop_first());
        lemma_fold_line_idempotent(t[0]);
        if !(l0.stmt is NoOp) {
            assert((seq![l0] + rest)[0] == l0);
            assert((seq![l0] + rest).drop_first() =~= rest);
        }
    }
}

} // verus!
