//! The assembly intermediate representation: an ordered sequence of
//! instructions with interleaved label declarations and function-block
//! markers, plus a byte-addressable data section.

use vstd::prelude::*;

verus! {

/// An x86-64 general-purpose register.
#[derive(Clone, Copy, PartialEq, Eq, Structural, Debug)]
pub enum Register {
    Rax,
    Rcx,
    Rdx,
    Rbx,
    Rsp,
    Rbp,
    Rsi,
    Rdi,
    R8,
    R9,
    R10,
    R11,
    R12,
    R13,
    R14,
    R15,
}

impl Register {
    /// The hardware register number used by the instruction encoder.
    pub open spec fn num(self) -> int {
        match self {
            Register::Rax => 0,
            Register::Rcx => 1,
            Register::Rdx => 2,
            Register::Rbx => 3,
            Register::Rsp => 4,
            Register::Rbp => 5,
            Register::Rsi => 6,
            Register::Rdi => 7,
            Register::R8 => 8,
            Register::R9 => 9,
            Register::R10 => 10,
            Register::R11 => 11,
            Register::R12 => 12,
            Register::R13 => 13,
            Register::R14 => 14,
            Register::R15 => 15,
        }
    }

    /// Executable counterpart of [`Register::num`].
    pub fn number(self) -> (n: u8)
        ensures
            n as int == self.num(),
    {
        match self {
            Register::Rax => 0,
            Register::Rcx => 1,
            Register::Rdx => 2,
            Register::Rbx => 3,
            Register::Rsp => 4,
            Register::Rbp => 5,
            Register::Rsi => 6,
            Register::Rdi => 7,
            Register::R8 => 8,
            Register::R9 => 9,
            Register::R10 => 10,
            Register::R11 => 11,
            Register::R12 => 12,
            Register::R13 => 13,
            Register::R14 => 14,
            Register::R15 => 15,
        }
    }
}

/// An immediate operand of 8, 16, 32 or 64 bits.
#[derive(Clone, Copy, PartialEq, Eq, Structural, Debug)]
pub enum Immediate {
    Imm8(i8),
    Imm16(i16),
    Imm32(i32),
    Imm64(i64),
}

impl Immediate {
    /// The mathematical value of the immediate.
    pub open spec fn value(self) -> int {
        match self {
            Immediate::Imm8(v) => v as int,
            Immediate::Imm16(v) => v as int,
            Immediate::Imm32(v) => v as int,
            Immediate::Imm64(v) => v as int,
        }
    }
}

/// A symbolic code or data address.
///
/// Labels are structured values rather than strings: each jump target the
/// compiler emits is one of these shapes, so resolution is a plain value
/// comparison.
#[derive(Clone, Copy, PartialEq, Eq, Structural, Debug)]
pub enum Label {
    /// The epilogue that performs the `exit` system call.
    Exit,
    /// The helper routine that writes a buffer to stdout.
    Print,
    /// The helper routine that prints the integer in `RSI` in decimal.
    Printn,
    /// The digit loop inside `Printn`.
    PrintnInner,
    /// The loop condition inside `Printn`.
    PrintnInnerCond,
    /// The helper routine that reads bytes from stdin.
    Read,
    /// The start of the source line with this number.
    Line(u64),
    /// The `then` arm of the conditional with this index.
    Then(u64),
    /// The start of the else arm of the conditional with this index.
    Else(u64),
    /// The join point after the conditional with this index.
    Fi(u64),
    /// The string literal with this index in the data section.
    Literal(u64),
}

/// An instruction operand: a register, an immediate, or the absolute address
/// of a label (resolved when the binary is laid out).
#[derive(Clone, Copy, PartialEq, Eq, Structural, Debug)]
pub enum Operand {
    Reg(Register),
    Imm(Immediate),
    Lbl(Label),
}

/// One x86-64 instruction, as emitted by lowering.
#[derive(Clone, Copy, PartialEq, Eq, Structural, Debug)]
pub enum Mnemonic {
    Mov(Register, Operand),
    Add(Register, Operand),
    Sub(Register, Operand),
    Xor(Register, Operand),
    Cmp(Register, Operand),
    IMul(Register, Operand),
    IDiv(Register),
    Push(Operand),
    Pop(Register),
    Inc(Register),
    Dec(Register),
    Jmp(Label),
    Je(Label),
    Jne(Label),
    Jge(Label),
    Jg(Label),
    Jle(Label),
    Jl(Label),
    Call(Label),
    Syscall,
    Ret,
}

/// One entry of the instruction stream.
#[derive(Clone, Copy, PartialEq, Eq, Structural, Debug)]
pub enum Entry {
    /// An instruction.
    Instr(Mnemonic),
    /// A label declaration: the next instruction's address.
    LabelDef(Label),
    /// The start of a function block; declares the label.
    FuncBegin(Label),
    /// The end of a function block; assembles as a `ret`.
    FuncEnd,
}

/// One item of the data section: a labelled run of bytes.
#[derive(Debug)]
pub struct DataItem {
    pub label: Label,
    pub bytes: Vec<u8>,
}

/// An assembly program: the instruction stream and the data section.
#[derive(Debug)]
pub struct Program {
    pub entries: Vec<Entry>,
    pub data: Vec<DataItem>,
}

impl Program {
    /// The data section as a sequence of labelled byte runs.
    pub open spec fn data_view(self) -> Seq<(Label, Seq<u8>)> {
        self.data@.map(|i: int, d: DataItem| (d.label, d.bytes@))
    }

    /// Appends one instruction; fluent builder style.
    pub fn add(self, m: Mnemonic) -> (r: Program)
        ensures
            r.entries@ == self.entries@.push(Entry::Instr(m)),
            r.data_view() == self.data_view(),
    {
        let mut entries = self.entries;
        entries.push(Entry::Instr(m));
        Program { entries, data: self.data }
    }

    /// Declares a label at the current position.
    pub fn label(self, l: Label) -> (r: Program)
        ensures
            r.entries@ == self.entries@.push(Entry::LabelDef(l)),
            r.data_view() == self.data_view(),
    {
        let mut entries = self.entries;
        entries.push(Entry::LabelDef(l));
        Program { entries, data: self.data }
    }

    /// Opens a function block named by the label.
    pub fn func(self, l: Label) -> (r: Program)
        ensures
            r.entries@ == self.entries@.push(Entry::FuncBegin(l)),
            r.data_view() == self.data_view(),
    {
        let mut entries = self.entries;
        entries.push(Entry::FuncBegin(l));
        Program { entries, data: self.data }
    }

    /// Closes the current function block.
    pub fn func_end(self) -> (r: Program)
        ensures
            r.entries@ == self.entries@.push(Entry::FuncEnd),
            r.data_view() == self.data_view(),
    {
        let mut entries = self.entries;
        entries.push(Entry::FuncEnd);
        Program { entries, data: self.data }
    }

    /// Adds a labelled run of bytes to the data section.
    pub fn insert_data(self, l: Label, bytes: Vec<u8>) -> (r: Program)
        ensures
            r.entries@ == self.entries@,
            r.data_view() == self.data_view().push((l, bytes@)),
    {
        let mut data = self.data;
        data.push(DataItem { label: l, bytes });
        let r = Program { entries: self.entries, data };
        proof {
            assert(r.data_view() =~= self.data_view().push((l, bytes@)));
        }
        r
    }
}

impl Default for Program {
    /// The empty program: no instructions, no data.
    fn default() -> (r: Program)
        ensures
            r.entries@ == Seq::<Entry>::empty(),
            r.data_view() == Seq::<(Label, Seq<u8>)>::empty(),
    {
        let r = Program { entries: Vec::new(), data: Vec::new() };
        proof {
            assert(r.data_view() =~= Seq::<(Label, Seq<u8>)>::empty());
        }
        r
    }
}

} // verus!
