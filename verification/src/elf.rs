//! The ELF emitter: lays a completed [`Program`] out as a minimal ELF64
//! executable for Linux x86-64 — one read-execute load for the headers and
//! code, one writable load for the data section — resolving symbolic label
//! operands to displacements and serializing the bytes.
//!
//! Assembly is two passes: the first measures every instruction and
//! records each label's address; the second encodes the instructions with
//! the resolved displacements. `JMP`, conditional jumps and `CALL` receive
//! displacements relative to the next instruction's address; a label used
//! as a value (`Operand::Lbl`) becomes the label's absolute address.

use vstd::prelude::*;

use crate::assembly::{Entry, Immediate, Label, Mnemonic, Operand, Program, Register};

verus! {

/// Why a program cannot be laid out: an instruction has no encoding (a
/// 64-bit immediate where only 32 bits fit), a referenced label is nowhere
/// declared, or a section outgrows the emitter's size bound.
#[derive(Clone, Copy, PartialEq, Eq, Structural, Debug)]
pub enum EmitError {
    Unencodable,
    UnknownLabel,
    TooLarge,
}

/// The virtual address at which the executable's image is loaded; code
/// starts right after the ELF and program headers.
pub open spec fn code_vstart() -> int {
    0x400000int + 176
}

/// The virtual address at which the data section is loaded, offset so that
/// its file offset and address agree modulo the page size.
pub open spec fn data_vstart(code_len: int) -> int {
    0x600000int + 176 + code_len
}

/// The emitter's bound on a section's size.
pub open spec fn size_bound() -> int {
    0x100_0000int
}

/// The little-endian bytes of a 16-bit value.
pub open spec fn le16(v: u16) -> Seq<u8> {
    seq![(v & 0xFF) as u8, ((v >> 8) & 0xFF) as u8]
}

/// The little-endian bytes of a 32-bit value.
pub open spec fn le32(v: u32) -> Seq<u8> {
    seq![
        (v & 0xFF) as u8,
        ((v >> 8) & 0xFF) as u8,
        ((v >> 16) & 0xFF) as u8,
        ((v >> 24) & 0xFF) as u8,
    ]
}

/// The little-endian bytes of a 64-bit value.
pub open spec fn le64(v: u64) -> Seq<u8> {
    seq![
        (v & 0xFF) as u8,
        ((v >> 8) & 0xFF) as u8,
        ((v >> 16) & 0xFF) as u8,
        ((v >> 24) & 0xFF) as u8,
        ((v >> 32) & 0xFF) as u8,
        ((v >> 40) & 0xFF) as u8,
        ((v >> 48) & 0xFF) as u8,
        ((v >> 56) & 0xFF) as u8,
    ]
}

/// The REX prefix with the 64-bit operand-size bit, extending the register
/// field by `reg` and the register/memory field by `rm`.
pub open spec fn rex(reg: int, rm: int) -> u8 {
    (0x48 + (if reg >= 8 {
        4int
    } else {
        0int
    }) + (if rm >= 8 {
        1int
    } else {
        0int
    })) as u8
}

/// The mod/reg/rm byte for register-direct addressing.
pub open spec fn modrm(reg: int, rm: int) -> u8 {
    (0xC0 + 8 * (reg % 8) + rm % 8) as u8
}

/// A register-to-register form: opcode with the source in the register
/// field and the destination register-direct.
pub open spec fn enc_rr(op: u8, src: Register, dst: Register) -> Seq<u8> {
    seq![rex(src.num(), dst.num()), op, modrm(src.num(), dst.num())]
}

/// The unsigned 32-bit (two's-complement) representative of an integer.
pub open spec fn u32_rep(v: int) -> u32 {
    (v % 0x1_0000_0000int) as u32
}

/// An opcode-extension form with a 32-bit immediate.
pub open spec fn enc_mi(op: u8, ext: int, dst: Register, v: i32) -> Seq<u8> {
    seq![rex(0, dst.num()), op, modrm(ext, dst.num())] + le32(u32_rep(v as int))
}

/// The `movabs` form: a 64-bit immediate into a register.
pub open spec fn enc_movabs(dst: Register, v: u64) -> Seq<u8> {
    seq![rex(0, dst.num()), (0xB8 + dst.num() % 8) as u8] + le64(v)
}

/// The 32-bit value of a small immediate operand, sign-extended.
pub open spec fn imm32_of(i: Immediate) -> i32 {
    match i {
        Immediate::Imm8(v) => v as i32,
        Immediate::Imm16(v) => v as i32,
        Immediate::Imm32(v) => v,
        Immediate::Imm64(v) => v as i32,
    }
}

/// Whether the immediate fits the 32-bit field.
pub open spec fn imm_small(i: Immediate) -> bool {
    !(i is Imm64)
}

/// The encoded length of an entry: label declarations take no bytes, a
/// block end is a one-byte `ret`, and every instruction's length is fixed
/// by its shape alone, so addresses do not depend on resolution.
pub open spec fn entry_len(e: Entry) -> int {
    match e {
        Entry::LabelDef(_) => 0,
        Entry::FuncBegin(_) => 0,
        Entry::FuncEnd => 1,
        Entry::Instr(m) => match m {
            Mnemonic::Mov(_, Operand::Reg(_)) => 3,
            Mnemonic::Mov(_, Operand::Imm(i)) => if imm_small(i) {
                7
            } else {
                10
            },
            Mnemonic::Mov(_, Operand::Lbl(_)) => 10,
            Mnemonic::Add(_, Operand::Reg(_)) => 3,
            Mnemonic::Add(_, _) => 7,
            Mnemonic::Sub(_, Operand::Reg(_)) => 3,
            Mnemonic::Sub(_, _) => 7,
            Mnemonic::Xor(_, Operand::Reg(_)) => 3,
            Mnemonic::Xor(_, _) => 7,
            Mnemonic::Cmp(_, Operand::Reg(_)) => 3,
            Mnemonic::Cmp(_, _) => 7,
            Mnemonic::IMul(_, Operand::Reg(_)) => 4,
            Mnemonic::IMul(_, _) => 7,
            Mnemonic::IDiv(_) => 3,
            Mnemonic::Push(Operand::Reg(r)) => if r.num() >= 8 {
                2
            } else {
                1
            },
            Mnemonic::Push(_) => 5,
            Mnemonic::Pop(r) => if r.num() >= 8 {
                2
            } else {
                1
            },
            Mnemonic::Inc(_) => 3,
            Mnemonic::Dec(_) => 3,
            Mnemonic::Jmp(_) => 5,
            Mnemonic::Je(_) => 6,
            Mnemonic::Jne(_) => 6,
            Mnemonic::Jge(_) => 6,
            Mnemonic::Jg(_) => 6,
            Mnemonic::Jle(_) => 6,
            Mnemonic::Jl(_) => 6,
            Mnemonic::Call(_) => 5,
            Mnemonic::Syscall => 2,
            Mnemonic::Ret => 1,
        },
    }
}

/// Whether the instruction has an encoding: 64-bit immediates fit only a
/// `mov`, and a pushed or popped operand must be a register or a small
/// immediate.
pub open spec fn entry_encodable(e: Entry) -> bool {
    match e {
        Entry::Instr(m) => match m {
            Mnemonic::Add(_, Operand::Imm(i)) => imm_small(i),
            Mnemonic::Sub(_, Operand::Imm(i)) => imm_small(i),
            Mnemonic::Xor(_, Operand::Imm(i)) => imm_small(i),
            Mnemonic::Cmp(_, Operand::Imm(i)) => imm_small(i),
            Mnemonic::IMul(_, Operand::Imm(i)) => imm_small(i),
            Mnemonic::Add(_, Operand::Lbl(_)) => false,
            Mnemonic::Sub(_, Operand::Lbl(_)) => false,
            Mnemonic::Xor(_, Operand::Lbl(_)) => false,
            Mnemonic::Cmp(_, Operand::Lbl(_)) => false,
            Mnemonic::IMul(_, Operand::Lbl(_)) => false,
            Mnemonic::Push(Operand::Imm(i)) => imm_small(i),
            Mnemonic::Push(Operand::Lbl(_)) => false,
            _ => true,
        },
        _ => true,
    }
}

/// The first address recorded for a label in the table, if any.
pub open spec fn resolve(table: Seq<(Label, u64)>, l: Label) -> Option<u64>
    decreases table.len(),
{
    if table.len() == 0 {
        None
    } else if table[0].0 == l {
        Some(table[0].1)
    } else {
        resolve(table.drop_first(), l)
    }
}

/// The labels an entry uses: the target of a jump or call, or a label used
/// as an address value.
pub open spec fn entry_label(e: Entry) -> Option<Label> {
    match e {
        Entry::Instr(m) => match m {
            Mnemonic::Mov(_, Operand::Lbl(l)) => Some(l),
            Mnemonic::Jmp(l) => Some(l),
            Mnemonic::Je(l) => Some(l),
            Mnemonic::Jne(l) => Some(l),
            Mnemonic::Jge(l) => Some(l),
            Mnemonic::Jg(l) => Some(l),
            Mnemonic::Jle(l) => Some(l),
            Mnemonic::Jl(l) => Some(l),
            Mnemonic::Call(l) => Some(l),
            _ => None,
        },
        _ => None,
    }
}

/// The encoding of one entry at address `vaddr` under the label table: an
/// instruction that names a label receives the label's absolute address,
/// or, for jumps and calls, the address's displacement from the next
/// instruction.
pub open spec fn enc_entry(e: Entry, vaddr: int, table: Seq<(Label, u64)>) -> Seq<u8> {
    let target = match entry_label(e) {
        Some(l) => resolve(table, l).unwrap() as int,
        None => 0,
    };
    let rel = target - (vaddr + entry_len(e));
    match e {
        Entry::LabelDef(_) => Seq::<u8>::empty(),
        Entry::FuncBegin(_) => Seq::<u8>::empty(),
        Entry::FuncEnd => seq![0xC3u8],
        Entry::Instr(m) => match m {
            Mnemonic::Mov(r, Operand::Reg(s)) => enc_rr(0x89, s, r),
            Mnemonic::Mov(r, Operand::Imm(i)) => if imm_small(i) {
                enc_mi(0xC7, 0, r, imm32_of(i))
            } else {
                enc_movabs(r, imm64_of(i))
            },
            Mnemonic::Mov(r, Operand::Lbl(_)) => enc_movabs(r, target as u64),
            Mnemonic::Add(r, Operand::Reg(s)) => enc_rr(0x01, s, r),
            Mnemonic::Add(r, Operand::Imm(i)) => enc_mi(0x81, 0, r, imm32_of(i)),
            Mnemonic::Sub(r, Operand::Reg(s)) => enc_rr(0x29, s, r),
            Mnemonic::Sub(r, Operand::Imm(i)) => enc_mi(0x81, 5, r, imm32_of(i)),
            Mnemonic::Xor(r, Operand::Reg(s)) => enc_rr(0x31, s, r),
            Mnemonic::Xor(r, Operand::Imm(i)) => enc_mi(0x81, 6, r, imm32_of(i)),
            Mnemonic::Cmp(r, Operand::Reg(s)) => enc_rr(0x39, s, r),
            Mnemonic::Cmp(r, Operand::Imm(i)) => enc_mi(0x81, 7, r, imm32_of(i)),
            Mnemonic::IMul(r, Operand::Reg(s)) => seq![
                rex(r.num(), s.num()),
                0x0Fu8,
                0xAFu8,
                modrm(r.num(), s.num()),
            ],
            Mnemonic::IMul(r, Operand::Imm(i)) => seq![
                rex(r.num(), r.num()),
                0x69u8,
                modrm(r.num(), r.num()),
            ] + le32(u32_rep(imm32_of(i) as int)),
            Mnemonic::IDiv(r) => seq![rex(0, r.num()), 0xF7u8, modrm(7, r.num())],
            Mnemonic::Push(Operand::Reg(r)) => if r.num() >= 8 {
                seq![0x41u8, (0x50 + r.num() % 8) as u8]
            } else {
                seq![(0x50 + r.num()) as u8]
            },
            Mnemonic::Push(Operand::Imm(i)) => seq![0x68u8] + le32(u32_rep(imm32_of(i) as int)),
            Mnemonic::Pop(r) => if r.num() >= 8 {
                seq![0x41u8, (0x58 + r.num() % 8) as u8]
            } else {
                seq![(0x58 + r.num()) as u8]
            },
            Mnemonic::Inc(r) => seq![rex(0, r.num()), 0xFFu8, modrm(0, r.num())],
            Mnemonic::Dec(r) => seq![rex(0, r.num()), 0xFFu8, modrm(1, r.num())],
            Mnemonic::Jmp(_) => seq![0xE9u8] + le32(u32_rep(rel)),
            Mnemonic::Je(_) => seq![0x0Fu8, 0x84u8] + le32(u32_rep(rel)),
            Mnemonic::Jne(_) => seq![0x0Fu8, 0x85u8] + le32(u32_rep(rel)),
            Mnemonic::Jge(_) => seq![0x0Fu8, 0x8Du8] + le32(u32_rep(rel)),
            Mnemonic::Jg(_) => seq![0x0Fu8, 0x8Fu8] + le32(u32_rep(rel)),
            Mnemonic::Jle(_) => seq![0x0Fu8, 0x8Eu8] + le32(u32_rep(rel)),
            Mnemonic::Jl(_) => seq![0x0Fu8, 0x8Cu8] + le32(u32_rep(rel)),
            Mnemonic::Call(_) => seq![0xE8u8] + le32(u32_rep(rel)),
            Mnemonic::Syscall => seq![0x0Fu8, 0x05u8],
            Mnemonic::Ret => seq![0xC3u8],
            _ => Seq::<u8>::empty(),
        },
    }
}

/// The 64-bit value of an immediate.
pub open spec fn imm64_of(i: Immediate) -> u64 {
    match i {
        Immediate::Imm8(v) => v as u64,
        Immediate::Imm16(v) => v as u64,
        Immediate::Imm32(v) => v as u64,
        Immediate::Imm64(v) => v as u64,
    }
}

/// The label addresses the code declares: each label or block begin is
/// bound to the address of the next instruction, offsets accumulating by
/// [`entry_len`].
pub open spec fn code_table(entries: Seq<Entry>, vaddr: int) -> Seq<(Label, u64)>
    decreases entries.len(),
{
    if entries.len() == 0 {
        Seq::<(Label, u64)>::empty()
    } else {
        let head = match entries[0] {
            Entry::LabelDef(l) => seq![(l, vaddr as u64)],
            Entry::FuncBegin(l) => seq![(l, vaddr as u64)],
            _ => Seq::<(Label, u64)>::empty(),
        };
        head + code_table(entries.drop_first(), vaddr + entry_len(entries[0]))
    }
}

/// The total encoded length of the code.
pub open spec fn code_len(entries: Seq<Entry>) -> int
    decreases entries.len(),
{
    if entries.len() == 0 {
        0
    } else {
        entry_len(entries[0]) + code_len(entries.drop_first())
    }
}

/// The label addresses of the data section: each item's label is bound to
/// its first byte.
pub open spec fn data_table(data: Seq<(Label, Seq<u8>)>, vaddr: int) -> Seq<(Label, u64)>
    decreases data.len(),
{
    if data.len() == 0 {
        Seq::<(Label, u64)>::empty()
    } else {
        seq![(data[0].0, vaddr as u64)] + data_table(data.drop_first(), vaddr + data[0].1.len())
    }
}

/// The bytes of the data section: the items' bytes in order.
pub open spec fn data_bytes(data: Seq<(Label, Seq<u8>)>) -> Seq<u8>
    decreases data.len(),
{
    if data.len() == 0 {
        Seq::<u8>::empty()
    } else {
        data[0].1 + data_bytes(data.drop_first())
    }
}

/// Whether every entry is encodable.
pub open spec fn all_encodable(entries: Seq<Entry>) -> bool {
    forall|i: int| 0 <= i < entries.len() ==> entry_encodable(#[trigger] entries[i])
}

/// Whether every label an entry names resolves in the table.
pub open spec fn labels_resolve(entries: Seq<Entry>, table: Seq<(Label, u64)>) -> bool {
    forall|i: int|
        0 <= i < entries.len() ==> (match entry_label(#[trigger] entries[i]) {
            Some(l) => resolve(table, l) is Some,
            None => true,
        })
}

/// Whether every entry is encodable and every label it names resolves.
pub open spec fn entries_ok(entries: Seq<Entry>, table: Seq<(Label, u64)>) -> bool {
    all_encodable(entries) && labels_resolve(entries, table)
}

/// The encoded code: each entry's encoding at its accumulated address.
pub open spec fn code_bytes(entries: Seq<Entry>, vaddr: int, table: Seq<(Label, u64)>) -> Seq<u8>
    decreases entries.len(),
{
    if entries.len() == 0 {
        Seq::<u8>::empty()
    } else {
        enc_entry(entries[0], vaddr, table) + code_bytes(
            entries.drop_first(),
            vaddr + entry_len(entries[0]),
            table,
        )
    }
}

/// The 64-byte ELF header of a statically-loaded x86-64 executable with
/// two program headers and no sections, entering at `entry`.
pub open spec fn elf_header(entry: u64) -> Seq<u8> {
    seq![0x7Fu8, 0x45u8, 0x4Cu8, 0x46u8, 2u8, 1u8, 1u8, 0u8, 0u8, 0u8, 0u8, 0u8, 0u8, 0u8, 0u8, 0u8]
        + le16(2) + le16(0x3E) + le32(1) + le64(entry) + le64(64) + le64(0) + le32(0) + le16(64)
        + le16(56) + le16(2) + le16(0) + le16(0) + le16(0)
}

/// A 56-byte `PT_LOAD` program header.
pub open spec fn phdr(flags: u32, off: u64, vaddr: u64, size: u64) -> Seq<u8> {
    le32(1) + le32(flags) + le64(off) + le64(vaddr) + le64(vaddr) + le64(size) + le64(size) + le64(
        0x1000,
    )
}

/// The whole image the emitter produces for a program whose sections are
/// within bounds and whose labels resolve: the ELF header, a read-execute
/// load covering the headers and code, a writable load covering the data,
/// then the code and data bytes.
pub open spec fn elf_output(p: Program) -> Seq<u8> {
    let entries = p.entries@;
    let clen = code_len(entries);
    let table = code_table(entries, code_vstart()) + data_table(
        p.data_view(),
        data_vstart(clen),
    );
    let code = code_bytes(entries, code_vstart(), table);
    let data = data_bytes(p.data_view());
    elf_header(code_vstart() as u64) + phdr(5, 0, 0x400000, (176 + clen) as u64) + phdr(
        7,
        (176 + clen) as u64,
        data_vstart(clen) as u64,
        data.len() as u64,
    ) + code + data
}

/// Whether the emitter accepts the program: every instruction encodable,
/// every label resolvable, and both sections within the size bound.
pub open spec fn emit_ok(p: Program) -> bool {
    let entries = p.entries@;
    let clen = code_len(entries);
    let table = code_table(entries, code_vstart()) + data_table(
        p.data_view(),
        data_vstart(clen),
    );
    entries_ok(entries, table) && clen <= size_bound() && data_bytes(p.data_view()).len()
        <= size_bound()
}

/// The label table of a program: the code labels, then the data labels.
pub open spec fn full_table(p: Program) -> Seq<(Label, u64)> {
    code_table(p.entries@, code_vstart()) + data_table(
        p.data_view(),
        data_vstart(code_len(p.entries@)),
    )
}

/// What the emitter returns: the checks in order, then the image.
pub open spec fn emit_spec(p: Program) -> Result<Seq<u8>, EmitError> {
    if !all_encodable(p.entries@) {
        Err(EmitError::Unencodable)
    } else if code_len(p.entries@) > size_bound() {
        Err(EmitError::TooLarge)
    } else if data_bytes(p.data_view()).len() > size_bound() {
        Err(EmitError::TooLarge)
    } else if !labels_resolve(p.entries@, full_table(p)) {
        Err(EmitError::UnknownLabel)
    } else {
        Ok(elf_output(p))
    }
}

/// Encoded lengths are never negative.
pub proof fn lemma_code_len_nonneg(entries: Seq<Entry>)
    ensures
        code_len(entries) >= 0,
    decreases entries.len(),
{
    if entries.len() > 0 {
        lemma_code_len_nonneg(entries.drop_first());
    }
}

/// Every code label's address lies within the code region.
pub proof fn lemma_code_table_range(entries: Seq<Entry>, vaddr: int)
    requires
        vaddr >= 0,
        vaddr + code_len(entries) <= u64::MAX,
    ensures
        forall|j: int|
            0 <= j < code_table(entries, vaddr).len() ==> vaddr <= (#[trigger] code_table(
                entries,
                vaddr,
            )[j]).1 <= vaddr + code_len(entries),
    decreases entries.len(),
{
    lemma_code_len_nonneg(entries);
    if entries.len() > 0 {
        lemma_code_len_nonneg(entries.drop_first());
        let l0 = entry_len(entries[0]);
        assert(l0 >= 0);
        lemma_code_table_range(entries.drop_first(), vaddr + l0);
        let head = match entries[0] {
            Entry::LabelDef(l) => seq![(l, vaddr as u64)],
            Entry::FuncBegin(l) => seq![(l, vaddr as u64)],
            _ => Seq::<(Label, u64)>::empty(),
        };
        let rest = code_table(entries.drop_first(), vaddr + l0);
        assert forall|j: int|
            0 <= j < code_table(entries, vaddr).len() implies vaddr <= (#[trigger] code_table(
            entries,
            vaddr,
        )[j]).1 <= vaddr + code_len(entries) by {
            if j >= head.len() {
                assert(code_table(entries, vaddr)[j] == rest[j - head.len()]);
            }
        }
    }
}

/// Every data label's address lies within the data region.
pub proof fn lemma_data_table_range(data: Seq<(Label, Seq<u8>)>, vaddr: int)
    requires
        vaddr >= 0,
        vaddr + data_bytes(data).len() <= u64::MAX,
    ensures
        forall|j: int|
            0 <= j < data_table(data, vaddr).len() ==> vaddr <= (#[trigger] data_table(
                data,
                vaddr,
            )[j]).1 <= vaddr + data_bytes(data).len(),
    decreases data.len(),
{
    if data.len() > 0 {
        lemma_data_table_range(data.drop_first(), vaddr + data[0].1.len());
        let rest = data_table(data.drop_first(), vaddr + data[0].1.len());
        assert forall|j: int|
            0 <= j < data_table(data, vaddr).len() implies vaddr <= (#[trigger] data_table(
            data,
            vaddr,
        )[j]).1 <= vaddr + data_bytes(data).len() by {
            if j >= 1 {
                assert(data_table(data, vaddr)[j] == rest[j - 1]);
            }
        }
    }
}

/// A resolved address is an entry of the table.
pub proof fn lemma_resolve_member(table: Seq<(Label, u64)>, l: Label)
    requires
        resolve(table, l) is Some,
    ensures
        exists|j: int|
            0 <= j < table.len() && #[trigger] table[j] == (l, resolve(table, l).unwrap()),
    decreases table.len(),
{
    if table.len() > 0 {
        if table[0].0 == l {
            assert(table[0] == (l, resolve(table, l).unwrap()));
        } else {
            lemma_resolve_member(table.drop_first(), l);
            let j = choose|j: int|
                0 <= j < table.drop_first().len() && #[trigger] table.drop_first()[j] == (
                    l,
                    resolve(table.drop_first(), l).unwrap(),
                );
            assert(table[j + 1] == (l, resolve(table, l).unwrap()));
        }
    }
}

/// Appends the little-endian bytes of a 32-bit value.
fn push_le32(out: &mut Vec<u8>, v: u32)
    ensures
        final(out)@ == old(out)@ + le32(v),
{
    out.push((v & 0xFF) as u8);
    out.push(((v >> 8) & 0xFF) as u8);
    out.push(((v >> 16) & 0xFF) as u8);
    out.push(((v >> 24) & 0xFF) as u8);
    proof {
        assert(out@ =~= old(out)@ + le32(v));
    }
}

/// Appends the little-endian bytes of a 16-bit value.
fn push_le16(out: &mut Vec<u8>, v: u16)
    ensures
        final(out)@ == old(out)@ + le16(v),
{
    out.push((v & 0xFF) as u8);
    out.push(((v >> 8) & 0xFF) as u8);
    proof {
        assert(out@ =~= old(out)@ + le16(v));
    }
}

/// Appends the little-endian bytes of a 64-bit value.
fn push_le64(out: &mut Vec<u8>, v: u64)
    ensures
        final(out)@ == old(out)@ + le64(v),
{
    out.push((v & 0xFF) as u8);
    out.push(((v >> 8) & 0xFF) as u8);
    out.push(((v >> 16) & 0xFF) as u8);
    out.push(((v >> 24) & 0xFF) as u8);
    out.push(((v >> 32) & 0xFF) as u8);
    out.push(((v >> 40) & 0xFF) as u8);
    out.push(((v >> 48) & 0xFF) as u8);
    out.push(((v >> 56) & 0xFF) as u8);
    proof {
        assert(out@ =~= old(out)@ + le64(v));
    }
}

/// The unsigned representative of a signed 32-bit value.
fn u32_rep_of_i32(v: i32) -> (r: u32)
    ensures
        r == u32_rep(v as int),
{
    if v >= 0 {
        v as u32
    } else {
        let w: i64 = (v as i64) + 0x1_0000_0000i64;
        proof {
            assert((v as int) % 0x1_0000_0000int == v as int + 0x1_0000_0000) by {
                vstd::arithmetic::div_mod::lemma_mod_add_multiples_vanish(
                    v as int,
                    0x1_0000_0000int,
                );
                vstd::arithmetic::div_mod::lemma_small_mod(
                    (v as int + 0x1_0000_0000) as nat,
                    0x1_0000_0000nat,
                );
            }
        }
        w as u32
    }
}

/// Looks a label up in the table.
fn resolve_exec(table: &Vec<(Label, u64)>, l: Label) -> (r: Option<u64>)
    ensures
        r == resolve(table@, l),
{
    let n = table.len();
    let mut i: usize = 0;
    proof {
        assert(table@.skip(0) =~= table@);
    }
    while i < n
        invariant
            n == table@.len(),
            0 <= i <= n,
            resolve(table@, l) == resolve(table@.skip(i as int), l),
        decreases n - i,
    {
        proof {
            assert(table@.skip(i as int)[0] == table@[i as int]);
            assert(table@.skip(i as int).drop_first() =~= table@.skip(i + 1));
        }
        if table[i].0 == l {
            return Some(table[i].1);
        }
        i += 1;
    }
    proof {
        assert(table@.skip(n as int) =~= Seq::<(Label, u64)>::empty());
    }
    None
}

/// The encoded length of one entry.
fn entry_len_exec(e: &Entry) -> (r: u64)
    ensures
        r as int == entry_len(*e),
        0 <= r <= 10,
{
    match e {
        Entry::LabelDef(_) => 0,
        Entry::FuncBegin(_) => 0,
        Entry::FuncEnd => 1,
        Entry::Instr(m) => match m {
            Mnemonic::Mov(_, Operand::Reg(_)) => 3,
            Mnemonic::Mov(_, Operand::Imm(i)) => if matches!(i, Immediate::Imm64(_)) {
                10
            } else {
                7
            },
            Mnemonic::Mov(_, Operand::Lbl(_)) => 10,
            Mnemonic::Add(_, Operand::Reg(_)) => 3,
            Mnemonic::Add(_, _) => 7,
            Mnemonic::Sub(_, Operand::Reg(_)) => 3,
            Mnemonic::Sub(_, _) => 7,
            Mnemonic::Xor(_, Operand::Reg(_)) => 3,
            Mnemonic::Xor(_, _) => 7,
            Mnemonic::Cmp(_, Operand::Reg(_)) => 3,
            Mnemonic::Cmp(_, _) => 7,
            Mnemonic::IMul(_, Operand::Reg(_)) => 4,
            Mnemonic::IMul(_, _) => 7,
            Mnemonic::IDiv(_) => 3,
            Mnemonic::Push(Operand::Reg(r)) => if r.number() >= 8 {
                2
            } else {
                1
            },
            Mnemonic::Push(_) => 5,
            Mnemonic::Pop(r) => if r.number() >= 8 {
                2
            } else {
                1
            },
            Mnemonic::Inc(_) => 3,
            Mnemonic::Dec(_) => 3,
            Mnemonic::Jmp(_) => 5,
            Mnemonic::Je(_) => 6,
            Mnemonic::Jne(_) => 6,
            Mnemonic::Jge(_) => 6,
            Mnemonic::Jg(_) => 6,
            Mnemonic::Jle(_) => 6,
            Mnemonic::Jl(_) => 6,
            Mnemonic::Call(_) => 5,
            Mnemonic::Syscall => 2,
            Mnemonic::Ret => 1,
        },
    }
}

/// The unsigned representative of a signed 64-bit value within 32-bit
/// range.
fn u32_rep_of_i64(d: i64) -> (r: u32)
    requires
        -0x8000_0000 <= d < 0x8000_0000,
    ensures
        r == u32_rep(d as int),
{
    if d >= 0 {
        proof {
            vstd::arithmetic::div_mod::lemma_small_mod(d as nat, 0x1_0000_0000nat);
        }
        d as u32
    } else {
        let w: i64 = d + 0x1_0000_0000i64;
        proof {
            assert((d as int) % 0x1_0000_0000int == d as int + 0x1_0000_0000) by {
                vstd::arithmetic::div_mod::lemma_mod_add_multiples_vanish(
                    d as int,
                    0x1_0000_0000int,
                );
                vstd::arithmetic::div_mod::lemma_small_mod(
                    (d as int + 0x1_0000_0000) as nat,
                    0x1_0000_0000nat,
                );
            }
        }
        w as u32
    }
}

/// Appends a REX prefix.
fn push_rex(out: &mut Vec<u8>, reg: u8, rm: u8)
    requires
        reg < 16,
        rm < 16,
    ensures
        final(out)@ == old(out)@ + seq![rex(reg as int, rm as int)],
{
    let b: u8 = 0x48 + (if reg >= 8 {
        4
    } else {
        0
    }) + (if rm >= 8 {
        1
    } else {
        0
    });
    out.push(b);
    proof {
        assert(out@ =~= old(out)@ + seq![rex(reg as int, rm as int)]);
    }
}

/// Appends a register-direct mod/reg/rm byte.
fn push_modrm(out: &mut Vec<u8>, reg: u8, rm: u8)
    requires
        reg < 16,
        rm < 16,
    ensures
        final(out)@ == old(out)@ + seq![modrm(reg as int, rm as int)],
{
    let b: u8 = 0xC0 + 8 * (reg % 8) + rm % 8;
    out.push(b);
    proof {
        assert(out@ =~= old(out)@ + seq![modrm(reg as int, rm as int)]);
    }
}

/// Appends a register-to-register form.
fn push_rr(out: &mut Vec<u8>, op: u8, src: Register, dst: Register)
    ensures
        final(out)@ == old(out)@ + enc_rr(op, src, dst),
{
    push_rex(out, src.number(), dst.number());
    out.push(op);
    push_modrm(out, src.number(), dst.number());
    proof {
        assert(out@ =~= old(out)@ + enc_rr(op, src, dst));
    }
}

/// Appends an opcode-extension form with its 32-bit immediate.
fn push_mi(out: &mut Vec<u8>, op: u8, ext: u8, dst: Register, v: i32)
    requires
        ext < 8,
    ensures
        final(out)@ == old(out)@ + enc_mi(op, ext as int, dst, v),
{
    push_rex(out, 0, dst.number());
    out.push(op);
    push_modrm(out, ext, dst.number());
    let u = u32_rep_of_i32(v);
    push_le32(out, u);
    proof {
        assert(out@ =~= old(out)@ + enc_mi(op, ext as int, dst, v));
    }
}

/// Appends a `movabs`.
fn push_movabs(out: &mut Vec<u8>, dst: Register, v: u64)
    ensures
        final(out)@ == old(out)@ + enc_movabs(dst, v),
{
    push_rex(out, 0, dst.number());
    out.push(0xB8 + dst.number() % 8);
    push_le64(out, v);
    proof {
        assert(out@ =~= old(out)@ + enc_movabs(dst, v));
    }
}

/// Appends a `PT_LOAD` program header.
fn push_phdr(out: &mut Vec<u8>, flags: u32, off: u64, vaddr: u64, size: u64)
    ensures
        final(out)@ == old(out)@ + phdr(flags, off, vaddr, size),
{
    push_le32(out, 1);
    push_le32(out, flags);
    push_le64(out, off);
    push_le64(out, vaddr);
    push_le64(out, vaddr);
    push_le64(out, size);
    push_le64(out, size);
    push_le64(out, 0x1000);
    proof {
        assert(out@ =~= old(out)@ + phdr(flags, off, vaddr, size));
    }
}

/// Whether the entry has an encoding.
fn entry_encodable_exec(e: &Entry) -> (r: bool)
    ensures
        r == entry_encodable(*e),
{
    match e {
        Entry::Instr(m) => match m {
            Mnemonic::Add(_, Operand::Imm(i)) => !matches!(i, Immediate::Imm64(_)),
            Mnemonic::Sub(_, Operand::Imm(i)) => !matches!(i, Immediate::Imm64(_)),
            Mnemonic::Xor(_, Operand::Imm(i)) => !matches!(i, Immediate::Imm64(_)),
            Mnemonic::Cmp(_, Operand::Imm(i)) => !matches!(i, Immediate::Imm64(_)),
            Mnemonic::IMul(_, Operand::Imm(i)) => !matches!(i, Immediate::Imm64(_)),
            Mnemonic::Add(_, Operand::Lbl(_)) => false,
            Mnemonic::Sub(_, Operand::Lbl(_)) => false,
            Mnemonic::Xor(_, Operand::Lbl(_)) => false,
            Mnemonic::Cmp(_, Operand::Lbl(_)) => false,
            Mnemonic::IMul(_, Operand::Lbl(_)) => false,
            Mnemonic::Push(Operand::Imm(i)) => !matches!(i, Immediate::Imm64(_)),
            Mnemonic::Push(Operand::Lbl(_)) => false,
            _ => true,
        },
        _ => true,
    }
}

/// The signed 32-bit value of a small immediate.
fn imm32_exec(i: &Immediate) -> (r: i32)
    requires
        imm_small(*i),
    ensures
        r == imm32_of(*i),
{
    match i {
        Immediate::Imm8(v) => *v as i32,
        Immediate::Imm16(v) => *v as i32,
        Immediate::Imm32(v) => *v,
        Immediate::Imm64(_) => {
            proof {
                assert(false);
            }
            0
        },
    }
}

/// Appends the encoding of an instruction that names no label; such an
/// encoding depends on the instruction alone.
#[verifier::rlimit(100)]
fn encode_nolabel(
    out: &mut Vec<u8>,
    m: &Mnemonic,
    Ghost(vaddr): Ghost<int>,
    Ghost(table): Ghost<Seq<(Label, u64)>>,
)
    requires
        entry_encodable(Entry::Instr(*m)),
        entry_label(Entry::Instr(*m)) is None,
    ensures
        final(out)@ == old(out)@ + enc_entry(Entry::Instr(*m), vaddr, table),
{
    match m {
        Mnemonic::Mov(r, Operand::Reg(sr)) => {
            push_rr(out, 0x89, *sr, *r);
            proof {
                assert(out@ =~= old(out)@ + enc_entry(Entry::Instr(*m), vaddr, table));
            }
            return;
        },
        Mnemonic::Mov(r, Operand::Imm(i)) => {
            if matches!(i, Immediate::Imm64(_)) {
                let v = match i {
                    Immediate::Imm64(v) => *v,
                    _ => 0,
                };
                push_movabs(out, *r, v as u64);
            } else {
                push_mi(out, 0xC7, 0, *r, imm32_exec(i));
            }
            proof {
                assert(out@ =~= old(out)@ + enc_entry(Entry::Instr(*m), vaddr, table));
            }
            return;
        },
        Mnemonic::Add(r, Operand::Reg(sr)) => {
            push_rr(out, 0x01, *sr, *r);
            proof {
                assert(out@ =~= old(out)@ + enc_entry(Entry::Instr(*m), vaddr, table));
            }
            return;
        },
        Mnemonic::Add(r, Operand::Imm(i)) => {
            push_mi(out, 0x81, 0, *r, imm32_exec(i));
            proof {
                assert(out@ =~= old(out)@ + enc_entry(Entry::Instr(*m), vaddr, table));
            }
            return;
        },
        Mnemonic::Sub(r, Operand::Reg(sr)) => {
            push_rr(out, 0x29, *sr, *r);
            proof {
                assert(out@ =~= old(out)@ + enc_entry(Entry::Instr(*m), vaddr, table));
            }
            return;
        },
        Mnemonic::Sub(r, Operand::Imm(i)) => {
            push_mi(out, 0x81, 5, *r, imm32_exec(i));
            proof {
                assert(out@ =~= old(out)@ + enc_entry(Entry::Instr(*m), vaddr, table));
            }
            return;
        },
        Mnemonic::Xor(r, Operand::Reg(sr)) => {
            push_rr(out, 0x31, *sr, *r);
            proof {
                assert(out@ =~= old(out)@ + enc_entry(Entry::Instr(*m), vaddr, table));
            }
            return;
        },
        Mnemonic::Xor(r, Operand::Imm(i)) => {
            push_mi(out, 0x81, 6, *r, imm32_exec(i));
            proof {
                assert(out@ =~= old(out)@ + enc_entry(Entry::Instr(*m), vaddr, table));
            }
            return;
        },
        Mnemonic::Cmp(r, Operand::Reg(sr)) => {
            push_rr(out, 0x39, *sr, *r);
            proof {
                assert(out@ =~= old(out)@ + enc_entry(Entry::Instr(*m), vaddr, table));
            }
            return;
        },
        Mnemonic::Cmp(r, Operand::Imm(i)) => {
            push_mi(out, 0x81, 7, *r, imm32_exec(i));
            proof {
                assert(out@ =~= old(out)@ + enc_entry(Entry::Instr(*m), vaddr, table));
            }
            return;
        },
        Mnemonic::IMul(r, Operand::Reg(sr)) => {
            push_rex(out, r.number(), sr.number());
            out.push(0x0F);
            out.push(0xAF);
            push_modrm(out, r.number(), sr.number());
            proof {
                assert(out@ =~= old(out)@ + enc_entry(Entry::Instr(*m), vaddr, table));
            }
            return;
        },
        Mnemonic::IMul(r, Operand::Imm(i)) => {
            push_rex(out, r.number(), r.number());
            out.push(0x69);
            push_modrm(out, r.number(), r.number());
            push_le32(out, u32_rep_of_i32(imm32_exec(i)));
            proof {
                assert(out@ =~= old(out)@ + enc_entry(Entry::Instr(*m), vaddr, table));
            }
            return;
        },
        Mnemonic::IDiv(r) => {
            push_rex(out, 0, r.number());
            out.push(0xF7);
            push_modrm(out, 7, r.number());
            proof {
                assert(out@ =~= old(out)@ + enc_entry(Entry::Instr(*m), vaddr, table));
            }
            return;
        },
        Mnemonic::Push(Operand::Reg(r)) => {
            if r.number() >= 8 {
                out.push(0x41);
                out.push(0x50 + r.number() % 8);
            } else {
                out.push(0x50 + r.number());
            }
            proof {
                assert(out@ =~= old(out)@ + enc_entry(Entry::Instr(*m), vaddr, table));
            }
            return;
        },
        Mnemonic::Push(Operand::Imm(i)) => {
            out.push(0x68);
            push_le32(out, u32_rep_of_i32(imm32_exec(i)));
            proof {
                assert(out@ =~= old(out)@ + enc_entry(Entry::Instr(*m), vaddr, table));
            }
            return;
        },
        Mnemonic::Pop(r) => {
            if r.number() >= 8 {
                out.push(0x41);
                out.push(0x58 + r.number() % 8);
            } else {
                out.push(0x58 + r.number());
            }
            proof {
                assert(out@ =~= old(out)@ + enc_entry(Entry::Instr(*m), vaddr, table));
            }
            return;
        },
        Mnemonic::Inc(r) => {
            push_rex(out, 0, r.number());
            out.push(0xFF);
            push_modrm(out, 0, r.number());
            proof {
                assert(out@ =~= old(out)@ + enc_entry(Entry::Instr(*m), vaddr, table));
            }
            return;
        },
        Mnemonic::Dec(r) => {
            push_rex(out, 0, r.number());
            out.push(0xFF);
            push_modrm(out, 1, r.number());
            proof {
                assert(out@ =~= old(out)@ + enc_entry(Entry::Instr(*m), vaddr, table));
            }
            return;
        },
        Mnemonic::Syscall => {
            out.push(0x0F);
            out.push(0x05);
            proof {
                assert(out@ =~= old(out)@ + enc_entry(Entry::Instr(*m), vaddr, table));
            }
            return;
        },
        Mnemonic::Ret => {
            out.push(0xC3);
        },
        _ => {
            proof {
                assert(false);
            }
            return;
        },
    }
}

/// Appends the encoding of one entry at address `vaddr` under the table,
/// or reports why it has none.
#[verifier::rlimit(100)]
fn encode_entry_into(out: &mut Vec<u8>, e: &Entry, vaddr: u64, table: &Vec<(Label, u64)>) -> (r:
    Result<(), EmitError>)
    requires
        vaddr <= 0x7000_0000,
        forall|j: int| 0 <= j < table@.len() ==> (#[trigger] table@[j]).1 <= 0x7000_0000,
    ensures
        match r {
            Ok(()) => entry_encodable(*e) && (match entry_label(*e) {
                Some(l) => resolve(table@, l) is Some,
                None => true,
            }) && final(out)@ == old(out)@ + enc_entry(*e, vaddr as int, table@),
            Err(err) => final(out)@ == old(out)@ && (if err is Unencodable {
                !entry_encodable(*e)
            } else if err is UnknownLabel {
                entry_encodable(*e) && entry_label(*e) is Some && resolve(
                    table@,
                    entry_label(*e).unwrap(),
                ) is None
            } else {
                false
            }),
        },
{
    let len = entry_len_exec(e);
    match e {
        Entry::LabelDef(_) => {
            proof {
                assert(out@ =~= old(out)@ + enc_entry(*e, vaddr as int, table@));
            }
            Ok(())
        },
        Entry::FuncBegin(_) => {
            proof {
                assert(out@ =~= old(out)@ + enc_entry(*e, vaddr as int, table@));
            }
            Ok(())
        },
        Entry::FuncEnd => {
            out.push(0xC3);
            proof {
                assert(out@ =~= old(out)@ + enc_entry(*e, vaddr as int, table@));
            }
            Ok(())
        },
        Entry::Instr(m) => {
            if !entry_encodable_exec(e) {
                return Err(EmitError::Unencodable);
            }
            match m {
                Mnemonic::Mov(r, Operand::Lbl(l)) => {
                    match resolve_exec(table, *l) {
                        Some(t) => {
                            push_movabs(out, *r, t);
                            proof {
                                assert(out@ =~= old(out)@ + enc_entry(*e, vaddr as int, table@));
                            }
                            Ok(())
                        },
                        None => Err(EmitError::UnknownLabel),
                    }
                },
                Mnemonic::Jmp(l) | Mnemonic::Call(l) => {
                    match resolve_exec(table, *l) {
                        Some(t) => {
                            proof {
                                lemma_resolve_member(table@, *l);
                            }
                            let d: i64 = (t as i64) - ((vaddr + len) as i64);
                            out.push(
                                if matches!(m, Mnemonic::Jmp(_)) {
                                    0xE9
                                } else {
                                    0xE8
                                },
                            );
                            push_le32(out, u32_rep_of_i64(d));
                            proof {
                                assert(out@ =~= old(out)@ + enc_entry(*e, vaddr as int, table@));
                            }
                            Ok(())
                        },
                        None => Err(EmitError::UnknownLabel),
                    }
                },
                Mnemonic::Je(l) | Mnemonic::Jne(l) | Mnemonic::Jge(l) | Mnemonic::Jg(l)
                    | Mnemonic::Jle(l) | Mnemonic::Jl(l) => {
                    match resolve_exec(table, *l) {
                        Some(t) => {
                            proof {
                                lemma_resolve_member(table@, *l);
                            }
                            let d: i64 = (t as i64) - ((vaddr + len) as i64);
                            out.push(0x0F);
                            out.push(
                                match m {
                                    Mnemonic::Je(_) => 0x84,
                                    Mnemonic::Jne(_) => 0x85,
                                    Mnemonic::Jge(_) => 0x8D,
                                    Mnemonic::Jg(_) => 0x8F,
                                    Mnemonic::Jle(_) => 0x8E,
                                    _ => 0x8C,
                                },
                            );
                            push_le32(out, u32_rep_of_i64(d));
                            proof {
                                assert(out@ =~= old(out)@ + enc_entry(*e, vaddr as int, table@));
                            }
                            Ok(())
                        },
                        None => Err(EmitError::UnknownLabel),
                    }
                },
                _ => {
                    encode_nolabel(out, m, Ghost(vaddr as int), Ghost(table@));
                    Ok(())
                },
            }
        },
    }
}

/// Lays the program out as an ELF64 executable image.
///
/// Succeeds with exactly the bytes of [`elf_output`] when every
/// instruction is encodable, both sections are within the size bound and
/// every label resolves; otherwise reports the first failing check, in
/// that order.
#[verifier::rlimit(100)]
pub fn emit(p: &Program) -> (r: Result<Vec<u8>, EmitError>)
    ensures
        match r {
            Ok(v) => emit_spec(*p) == Ok::<Seq<u8>, EmitError>(v@),
            Err(e) => emit_spec(*p) == Err::<Seq<u8>, EmitError>(e),
        },
{
    let ghost entries = p.entries@;
    let ghost cv = code_vstart();
    let n = p.entries.len();
    // Every instruction must have an encoding.
    let mut i: usize = 0;
    while i < n
        invariant
            n == p.entries@.len(),
            0 <= i <= n,
            forall|j: int| 0 <= j < i ==> entry_encodable(#[trigger] p.entries@[j]),
        decreases n - i,
    {
        if !entry_encodable_exec(&p.entries[i]) {
            return Err(EmitError::Unencodable);
        }
        i += 1;
    }
    // Measure the code and record the code labels.
    let mut table: Vec<(Label, u64)> = Vec::new();
    let mut off: u64 = 0;
    let mut i: usize = 0;
    proof {
        assert(entries.skip(0) =~= entries);
        assert(table@ + code_table(entries, cv) =~= code_table(entries, cv));
    }
    while i < n
        invariant
            n == p.entries@.len(),
            entries == p.entries@,
            cv == code_vstart(),
            forall|k: int| 0 <= k < n ==> entry_encodable(#[trigger] p.entries@[k]),
            0 <= i <= n,
            off <= 0x100_0000,
            off + code_len(entries.skip(i as int)) == code_len(entries),
            table@ + code_table(entries.skip(i as int), cv + off) == code_table(entries, cv),
        decreases n - i,
    {
        let ghost rem = entries.skip(i as int);
        let ghost tpre = table@;
        proof {
            assert(rem[0] == entries[i as int]);
            assert(rem.drop_first() =~= entries.skip(i + 1));
        }
        let e = &p.entries[i];
        match e {
            Entry::LabelDef(l) => {
                table.push((*l, 0x400000u64 + 176 + off));
            },
            Entry::FuncBegin(l) => {
                table.push((*l, 0x400000u64 + 176 + off));
            },
            _ => {},
        }
        let l = entry_len_exec(e);
        proof {
            lemma_code_len_nonneg(entries.skip(i + 1));
            assert(table@ + code_table(entries.skip(i + 1), cv + off + entry_len(entries[i as int]))
                =~= tpre + code_table(rem, cv + off));
        }
        off = off + l;
        if off > 0x100_0000 {
            return Err(EmitError::TooLarge);
        }
        i += 1;
    }
    proof {
        assert(entries.skip(n as int) =~= Seq::<Entry>::empty());
        assert(table@ + Seq::<(Label, u64)>::empty() =~= table@);
    }
    // Record the data labels and measure the data.
    let ghost dvs = p.data_view();
    let ghost dv = data_vstart(code_len(entries));
    let dstart: u64 = 0x600000u64 + 176 + off;
    let mut doff: u64 = 0;
    let mut j: usize = 0;
    proof {
        assert(dvs.skip(0) =~= dvs);
    }
    while j < p.data.len()
        invariant
            entries == p.entries@,
            cv == code_vstart(),
            dvs == p.data_view(),
            dvs.len() == p.data@.len(),
            dv == data_vstart(code_len(entries)),
            forall|k: int|
                0 <= k < p.entries@.len() ==> entry_encodable(#[trigger] p.entries@[k]),
            off == code_len(entries),
            dstart == 0x600000u64 + 176 + off,
            off <= 0x100_0000,
            0 <= j <= p.data@.len(),
            doff <= 0x100_0000,
            doff + data_bytes(dvs.skip(j as int)).len() == data_bytes(dvs).len(),
            table@ + data_table(dvs.skip(j as int), dv + doff) == code_table(entries, cv)
                + data_table(dvs, dv),
        decreases p.data@.len() - j,
    {
        let ghost rem = dvs.skip(j as int);
        let ghost tpre = table@;
        proof {
            assert(rem[0] == dvs[j as int]);
            assert(dvs[j as int] == (p.data@[j as int].label, p.data@[j as int].bytes@));
            assert(rem.drop_first() =~= dvs.skip(j + 1));
        }
        let item = &p.data[j];
        table.push((item.label, dstart + doff));
        let blen: u64 = item.bytes.len() as u64;
        proof {
            assert(table@ + data_table(dvs.skip(j + 1), dv + doff + blen) =~= tpre + data_table(
                rem,
                dv + doff,
            ));
        }
        let nd = match doff.checked_add(blen) {
            Some(nd) => nd,
            None => {
                return Err(EmitError::TooLarge);
            },
        };
        if nd > 0x100_0000 {
            return Err(EmitError::TooLarge);
        }
        doff = nd;
        j += 1;
    }
    proof {
        assert(dvs.skip(p.data@.len() as int) =~= Seq::<(Label, Seq<u8>)>::empty());
        assert(table@ + Seq::<(Label, u64)>::empty() =~= table@);
        assert(table@ == full_table(*p));
    }
    // All addresses are small, so every displacement fits 32 bits.
    proof {
        lemma_code_table_range(entries, cv);
        lemma_data_table_range(dvs, dv);
        assert forall|k: int| 0 <= k < table@.len() implies (#[trigger] table@[k]).1
            <= 0x7000_0000 by {
            let ct = code_table(entries, cv);
            if k < ct.len() {
                assert(table@[k] == ct[k]);
            } else {
                assert(table@[k] == data_table(dvs, dv)[k - ct.len()]);
            }
        }
    }
    // Encode the instructions with resolved displacements.
    let mut code: Vec<u8> = Vec::new();
    let mut off2: u64 = 0;
    let mut i: usize = 0;
    proof {
        assert(entries.skip(0) =~= entries);
        assert(code@ + code_bytes(entries, cv, table@) =~= code_bytes(entries, cv, table@));
    }
    while i < n
        invariant
            n == p.entries@.len(),
            entries == p.entries@,
            cv == code_vstart(),
            table@ == full_table(*p),
            forall|k: int| 0 <= k < table@.len() ==> (#[trigger] table@[k]).1 <= 0x7000_0000,
            forall|k: int| 0 <= k < n ==> entry_encodable(#[trigger] p.entries@[k]),
            0 <= i <= n,
            off2 <= 0x100_0000,
            off2 + code_len(entries.skip(i as int)) == code_len(entries),
            code_len(entries) <= 0x100_0000,
            data_bytes(p.data_view()).len() <= 0x100_0000,
            code@ + code_bytes(entries.skip(i as int), cv + off2, table@) == code_bytes(
                entries,
                cv,
                table@,
            ),
            forall|k: int|
                0 <= k < i ==> (match entry_label(#[trigger] entries[k]) {
                    Some(l) => resolve(table@, l) is Some,
                    None => true,
                }),
        decreases n - i,
    {
        let ghost rem = entries.skip(i as int);
        let ghost cpre = code@;
        proof {
            assert(rem[0] == entries[i as int]);
            assert(rem.drop_first() =~= entries.skip(i + 1));
            lemma_code_len_nonneg(entries.skip(i + 1));
        }
        let vaddr: u64 = 0x400000u64 + 176 + off2;
        match encode_entry_into(&mut code, &p.entries[i], vaddr, &table) {
            Ok(()) => {},
            Err(err) => {
                if matches!(err, EmitError::UnknownLabel) {
                    return Err(EmitError::UnknownLabel);
                }
                proof {
                    assert(false);
                }
                return Err(err);
            },
        }
        let l = entry_len_exec(&p.entries[i]);
        off2 = off2 + l;
        i += 1;
        proof {
            assert(code@ + code_bytes(entries.skip(i as int), cv + off2, table@) =~= cpre
                + code_bytes(rem, cv + off2 - entry_len(entries[i - 1]), table@));
        }
    }
    proof {
        assert(entries.skip(n as int) =~= Seq::<Entry>::empty());
        assert(code@ + Seq::<u8>::empty() =~= code@);
        assert(labels_resolve(entries, table@));
    }
    // Lay the image out: headers, code, data.
    let mut out: Vec<u8> = Vec::new();
    out.push(0x7F);
    out.push(0x45);
    out.push(0x4C);
    out.push(0x46);
    out.push(2);
    out.push(1);
    out.push(1);
    out.push(0);
    out.push(0);
    out.push(0);
    out.push(0);
    out.push(0);
    out.push(0);
    out.push(0);
    out.push(0);
    out.push(0);
    push_le16(&mut out, 2);
    push_le16(&mut out, 0x3E);
    push_le32(&mut out, 1);
    push_le64(&mut out, 0x400000u64 + 176);
    push_le64(&mut out, 64);
    push_le64(&mut out, 0);
    push_le32(&mut out, 0);
    push_le16(&mut out, 64);
    push_le16(&mut out, 56);
    push_le16(&mut out, 2);
    push_le16(&mut out, 0);
    push_le16(&mut out, 0);
    push_le16(&mut out, 0);
    proof {
        assert(out@ =~= elf_header((0x400000 + 176) as u64));
    }
    push_phdr(&mut out, 5, 0, 0x400000, 176 + off);
    push_phdr(&mut out, 7, 176 + off, dstart, doff);
    let ghost with_headers = out@;
    out.append(&mut code);
    let ghost with_code = out@;
    let mut j: usize = 0;
    proof {
        assert(dvs.skip(0) =~= dvs);
    }
    while j < p.data.len()
        invariant
            dvs == p.data_view(),
            dvs.len() == p.data@.len(),
            0 <= j <= p.data@.len(),
            out@ + data_bytes(dvs.skip(j as int)) == with_code + data_bytes(dvs),
        decreases p.data@.len() - j,
    {
        let ghost rem = dvs.skip(j as int);
        let ghost opre = out@;
        proof {
            assert(rem[0] == dvs[j as int]);
            assert(dvs[j as int] == (p.data@[j as int].label, p.data@[j as int].bytes@));
            assert(rem.drop_first() =~= dvs.skip(j + 1));
        }
        let item = &p.data[j];
        let m = item.bytes.len();
        let mut k: usize = 0;
        while k < m
            invariant
                m == item.bytes@.len(),
                0 <= k <= m,
                out@ == opre + item.bytes@.take(k as int),
            decreases m - k,
        {
            out.push(item.bytes[k]);
            proof {
                assert(item.bytes@.take(k + 1) =~= item.bytes@.take(k as int).push(
                    item.bytes@[k as int],
                ));
            }
            k += 1;
        }
        proof {
            assert(item.bytes@.take(m as int) =~= item.bytes@);
            assert(out@ + data_bytes(dvs.skip(j + 1)) =~= opre + data_bytes(rem));
        }
        j += 1;
    }
    proof {
        assert(dvs.skip(p.data@.len() as int) =~= Seq::<(Label, Seq<u8>)>::empty());
        assert(out@ + Seq::<u8>::empty() =~= out@);
        assert(out@ =~= elf_output(*p));
    }
    Ok(out)
}

} // verus!
