//! The optimizer interface: a semantics-preserving rewrite of a value of
//! the pipeline, applied tree-level to the syntax tree (constant folding,
//! dead-branch elimination) and stream-level to the assembly program (the
//! peephole pass).

use vstd::prelude::*;

use crate::assembly::{Entry, Immediate, Mnemonic, Operand, Program, Register};

verus! {

/// A self-map that simplifies the value; each implementation states what it
/// computes in its own `ensures`.
pub trait Optimize: Sized {
    fn optimize(self) -> Self;
}

/// Whether the operand is an 8-, 16- or 32-bit immediate with value `v`.
pub open spec fn is_small_imm(o: Operand, v: int) -> bool {
    match o {
        Operand::Imm(Immediate::Imm8(x)) => x == v,
        Operand::Imm(Immediate::Imm16(x)) => x == v,
        Operand::Imm(Immediate::Imm32(x)) => x == v,
        _ => false,
    }
}

/// The single-instruction rewrites of the peephole pass: increments and
/// decrements by one become `inc`/`dec`, additions and subtractions of zero
/// are dropped (`None`), and a move of zero becomes a self-exclusive-or.
pub open spec fn rewrite(m: Mnemonic) -> Option<Mnemonic> {
    match m {
        Mnemonic::Add(r, o) => if is_small_imm(o, 1) {
            Some(Mnemonic::Inc(r))
        } else if is_small_imm(o, 0) {
            None
        } else {
            Some(m)
        },
        Mnemonic::Sub(r, o) => if is_small_imm(o, 1) {
            Some(Mnemonic::Dec(r))
        } else if is_small_imm(o, 0) {
            None
        } else {
            Some(m)
        },
        Mnemonic::Mov(r, o) => if is_small_imm(o, 0) {
            Some(Mnemonic::Xor(r, Operand::Reg(r)))
        } else {
            Some(m)
        },
        _ => Some(m),
    }
}

/// The move that replaces a push immediately followed by a pop; a pushed
/// zero becomes a self-exclusive-or.
pub open spec fn mov_elim(r: Register, o: Operand) -> Mnemonic {
    if is_small_imm(o, 0) {
        Mnemonic::Xor(r, Operand::Reg(r))
    } else {
        Mnemonic::Mov(r, o)
    }
}

/// One step of the peephole pass: how the next entry extends the already
/// rewritten stream. A pop whose predecessor in the output is a push fuses
/// with it into a move; labels and block markers pass through and, standing
/// between a push and a pop, keep them from fusing.
pub open spec fn peep_push(acc: Seq<Entry>, e: Entry) -> Seq<Entry> {
    match e {
        Entry::Instr(m) => {
            let fuse = m matches Mnemonic::Pop(_) && acc.len() > 0 && acc.last() matches
                Entry::Instr(Mnemonic::Push(_));
            if fuse {
                let r = match m {
                    Mnemonic::Pop(r) => r,
                    _ => Register::Rax,
                };
                let o = match acc.last() {
                    Entry::Instr(Mnemonic::Push(o)) => o,
                    _ => Operand::Reg(Register::Rax),
                };
                acc.drop_last().push(Entry::Instr(mov_elim(r, o)))
            } else {
                match rewrite(m) {
                    Some(m2) => acc.push(Entry::Instr(m2)),
                    None => acc,
                }
            }
        },
        _ => acc.push(e),
    }
}

/// The peephole pass over a whole stream, left to right.
pub open spec fn peep(s: Seq<Entry>) -> Seq<Entry>
    decreases s.len(),
{
    if s.len() == 0 {
        Seq::<Entry>::empty()
    } else {
        peep_push(peep(s.drop_last()), s.last())
    }
}

/// Whether no peephole rewrite applies anywhere in the stream: every
/// instruction is stable under the single-instruction rewrites and no push
/// is immediately followed by a pop.
pub open spec fn peep_normal(s: Seq<Entry>) -> bool {
    &&& forall|i: int|
        0 <= i < s.len() ==> match #[trigger] s[i] {
            Entry::Instr(m) => rewrite(m) == Some(m),
            _ => true,
        }
    &&& forall|i: int|
        0 <= i < s.len() - 1 ==> !((#[trigger] s[i]) matches Entry::Instr(Mnemonic::Push(_))
            && s[i + 1] matches Entry::Instr(Mnemonic::Pop(_)))
}

/// The peephole pass leaves no rewrite behind.
pub proof fn lemma_peep_normal(s: Seq<Entry>)
    ensures
        peep_normal(peep(s)),
    decreases s.len(),
{
    if s.len() > 0 {
        lemma_peep_normal(s.drop_last());
        let acc = peep(s.drop_last());
        let out = peep_push(acc, s.last());
        assert forall|i: int| 0 <= i < out.len() implies match #[trigger] out[i] {
            Entry::Instr(m) => rewrite(m) == Some(m),
            _ => true,
        } by {
            if i < acc.len() - 1 {
                assert(out[i] == acc[i]);
            }
        }
        assert forall|i: int|
            0 <= i < out.len() - 1 implies !((#[trigger] out[i]) matches Entry::Instr(
            Mnemonic::Push(_),
        ) && out[i + 1] matches Entry::Instr(Mnemonic::Pop(_))) by {
            if i < acc.len() - 2 {
                assert(out[i] == acc[i]);
                assert(out[i + 1] == acc[i + 1]);
            }
        }
    }
}

/// A stream with no rewrite left is a fixed point of the peephole pass.
pub proof fn lemma_peep_fixed(s: Seq<Entry>)
    requires
        peep_normal(s),
    ensures
        peep(s) == s,
    decreases s.len(),
{
    if s.len() > 0 {
        assert(peep_normal(s.drop_last()));
        lemma_peep_fixed(s.drop_last());
        assert(peep_push(s.drop_last(), s.last()) =~= s);
    }
}

/// Peephole optimization is idempotent: running it twice yields the same
/// instruction stream.
pub proof fn lemma_peep_idempotent(s: Seq<Entry>)
    ensures
        peep(peep(s)) == peep(s),
{
    lemma_peep_normal(s);
    lemma_peep_fixed(peep(s));
}

impl Optimize for Program {
    /// Optimizes the assembly instructions of a [`Program`]: `inc`/`dec`
    /// for additions of one, dropped additions of zero, exclusive-or for
    /// moves of zero, and pushes fused with the pops that follow them.
    fn optimize(self) -> (r: Program)
        ensures
            r.entries@ == peep(self.entries@),
            r.data_view() == self.data_view(),
    {
        let entries = self.entries;
        let mut out: Vec<Entry> = Vec::new();
        let mut i: usize = 0;
        proof {
            assert(entries@.take(0) =~= Seq::<Entry>::empty());
        }
        while i < entries.len()
            invariant
                0 <= i <= entries@.len(),
                out@ == peep(entries@.take(i as int)),
            decreases entries@.len() - i,
        {
            let ghost pre = out@;
            let e = entries[i];
            proof {
                assert(entries@.take(i + 1).drop_last() =~= entries@.take(i as int));
                assert(entries@.take(i + 1).last() == entries@[i as int]);
            }
            let mut fused = false;
            if let Entry::Instr(m) = e {
                if let Mnemonic::Pop(r) = m {
                    if out.len() > 0 {
                        let last = out[out.len() - 1];
                        if let Entry::Instr(mm) = last {
                            if let Mnemonic::Push(o) = mm {
                                out.pop();
                                let zero = match o {
                                    Operand::Imm(Immediate::Imm8(x)) => x == 0,
                                    Operand::Imm(Immediate::Imm16(x)) => x == 0,
                                    Operand::Imm(Immediate::Imm32(x)) => x == 0,
                                    _ => false,
                                };
                                if zero {
                                    out.push(Entry::Instr(Mnemonic::Xor(r, Operand::Reg(r))));
                                } else {
                                    out.push(Entry::Instr(Mnemonic::Mov(r, o)));
                                }
                                fused = true;
                            }
                        }
                    }
                }
            }
            if !fused {
                if let Entry::Instr(m) = e {
                    let one_or_zero: (bool, bool) = match m {
                        Mnemonic::Add(_, o) | Mnemonic::Sub(_, o) | Mnemonic::Mov(_, o) => {
                            match o {
                                Operand::Imm(Immediate::Imm8(x)) => (x == 1, x == 0),
                                Operand::Imm(Immediate::Imm16(x)) => (x == 1, x == 0),
                                Operand::Imm(Immediate::Imm32(x)) => (x == 1, x == 0),
                                _ => (false, false),
                            }
                        },
                        _ => (false, false),
                    };
                    match m {
                        Mnemonic::Add(r, _) => {
                            if one_or_zero.0 {
                                out.push(Entry::Instr(Mnemonic::Inc(r)));
                            } else if !one_or_zero.1 {
                                out.push(e);
                            }
                        },
                        Mnemonic::Sub(r, _) => {
                            if one_or_zero.0 {
                                out.push(Entry::Instr(Mnemonic::Dec(r)));
                            } else if !one_or_zero.1 {
                                out.push(e);
                            }
                        },
                        Mnemonic::Mov(r, _) => {
                            if one_or_zero.1 {
                                out.push(Entry::Instr(Mnemonic::Xor(r, Operand::Reg(r))));
                            } else {
                                out.push(e);
                            }
                        },
                        _ => {
                            out.push(e);
                        },
                    }
                } else {
                    out.push(e);
                }
            }
            i += 1;
            proof {
                assert(out@ =~= peep_push(pre, entries@[i - 1]));
            }
        }
        proof {
            assert(entries@.take(entries@.len() as int) =~= entries@);
        }
        Program { entries: out, data: self.data }
    }
}

} // verus!
