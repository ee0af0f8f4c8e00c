//! The symbol table: a process-local mapping from identifier to stack slot,
//! built during syntax-tree construction and consulted during lowering.
//!
//! There is no parent table: every TinyBASIC variable is global. Offsets are
//! assigned monotonically in 8-byte increments in insertion order, and the
//! first declaration of a name wins: inserting an existing name is a no-op.

use vstd::prelude::*;

use crate::assembly::{Entry, Immediate, Mnemonic, Operand, Program, Register};
use crate::text::str_eq;

verus! {

/// The type of a symbol.
#[derive(Clone, Copy, PartialEq, Eq, Structural, Debug)]
pub enum Type {
    /// An 8-byte integer, stack-allocated.
    Int,
    /// A string; strings live in the data section, not on the stack.
    String,
}

impl Type {
    /// The size in memory of this data type.
    pub open spec fn spec_size(self) -> u32 {
        8
    }

    /// Returns the size in memory of this data type.
    pub fn size(&self) -> (s: u32)
        ensures
            s == self.spec_size(),
    {
        8
    }
}

/// A symbol: its type and its slot's distance in bytes from the stack base
/// recorded at program entry.
#[derive(Clone, Copy, PartialEq, Eq, Structural, Debug)]
pub struct Symbol {
    pub ty: Type,
    pub address: u32,
}

impl Symbol {
    /// Creates a symbol of the given type at the given stack address.
    pub fn new(ty: Type, address: u32) -> (s: Symbol)
        ensures
            s == (Symbol { ty, address }),
    {
        Symbol { ty, address }
    }

    /// The symbol's type.
    pub open spec fn spec_ty(self) -> Type {
        self.ty
    }

    /// The symbol's stack address.
    pub open spec fn spec_addr(self) -> u32 {
        self.address
    }

    /// Gets the start address of this symbol; useful for writing to it.
    pub fn st_addr(&self) -> (a: u32)
        ensures
            a == self.spec_addr(),
    {
        self.address
    }

    /// Gets the end address of this symbol; useful for reading it.
    pub fn end_addr(&self) -> (a: u32)
        requires
            self.spec_addr() + self.spec_ty().spec_size() <= u32::MAX,
        ensures
            a == self.spec_addr() + self.spec_ty().spec_size(),
    {
        self.address + self.ty.size()
    }
}

/// The greatest number of symbols a table can hold before slot addresses
/// would leave `u32`; inserts beyond it are ignored.
pub open spec fn table_cap() -> int {
    0x1FFF_FFFF
}

/// A name that `lookup` does not find is no entry's name.
pub proof fn lemma_lookup_none(s: Seq<(Seq<char>, Symbol)>, name: Seq<char>)
    requires
        lookup(s, name) is None,
    ensures
        forall|i: int| 0 <= i < s.len() ==> (#[trigger] s[i]).0 != name,
    decreases s.len(),
{
    if s.len() > 0 {
        lemma_lookup_none(s.drop_first(), name);
        assert(forall|i: int| 1 <= i < s.len() ==> s[i] == s.drop_first()[i - 1]);
    }
}

/// The first symbol in `s` named `name`, if any.
pub open spec fn lookup(s: Seq<(Seq<char>, Symbol)>, name: Seq<char>) -> Option<Symbol>
    decreases s.len(),
{
    if s.len() == 0 {
        None
    } else if s[0].0 == name {
        Some(s[0].1)
    } else {
        lookup(s.drop_first(), name)
    }
}

/// The bytes to reserve on the stack: 8 for every `Int` entry of `s`.
pub open spec fn stack_size(s: Seq<(Seq<char>, Symbol)>) -> int
    decreases s.len(),
{
    if s.len() == 0 {
        0
    } else {
        stack_size(s.drop_last()) + if s.last().1.spec_ty() is Int {
            8int
        } else {
            0int
        }
    }
}

/// The table `s` after an insert of `name` with type `ty`: unchanged when
/// the name is already present or the table is full, else extended by one
/// entry at the next free 8-byte slot.
pub open spec fn insert_model(
    s: Seq<(Seq<char>, Symbol)>,
    name: Seq<char>,
    ty: Type,
) -> Seq<(Seq<char>, Symbol)> {
    if lookup(s, name) is Some || s.len() >= table_cap() {
        s
    } else {
        s.push((name, Symbol { ty, address: (8 * s.len()) as u32 }))
    }
}

/// The instructions that load the stack slot ending at `end_addr` into
/// `RBX`: the stack pointer is parked in `R14`, repointed below the slot via
/// the frame base `R15`, the value popped, and the stack pointer restored.
pub open spec fn access_code(end_addr: i32) -> Seq<Entry> {
    seq![
        Entry::Instr(Mnemonic::Mov(Register::R14, Operand::Reg(Register::Rsp))),
        Entry::Instr(Mnemonic::Mov(Register::Rsp, Operand::Reg(Register::R15))),
        Entry::Instr(Mnemonic::Sub(Register::Rsp, Operand::Imm(Immediate::Imm32(end_addr)))),
        Entry::Instr(Mnemonic::Pop(Register::Rbx)),
        Entry::Instr(Mnemonic::Mov(Register::Rsp, Operand::Reg(Register::R14))),
    ]
}

/// The instructions that push `value` into the stack slot starting at
/// `st_addr`, by the same stack-pointer juggling as [`access_code`].
pub open spec fn write_code(st_addr: i32, value: Operand) -> Seq<Entry> {
    seq![
        Entry::Instr(Mnemonic::Mov(Register::R14, Operand::Reg(Register::Rsp))),
        Entry::Instr(Mnemonic::Mov(Register::Rsp, Operand::Reg(Register::R15))),
        Entry::Instr(Mnemonic::Sub(Register::Rsp, Operand::Imm(Immediate::Imm32(st_addr)))),
        Entry::Instr(Mnemonic::Push(value)),
        Entry::Instr(Mnemonic::Mov(Register::Rsp, Operand::Reg(Register::R14))),
    ]
}

/// The end address of a symbol's slot as the 32-bit immediate the emitted
/// code subtracts from the frame base; meaningful when the symbol exists
/// and the table's region fits in `i32`.
pub open spec fn sym_end_i32(s: Seq<(Seq<char>, Symbol)>, name: Seq<char>) -> i32 {
    ((lookup(s, name).unwrap().spec_addr() + 8) as i32)
}

/// The start address of a symbol's slot as a 32-bit immediate.
pub open spec fn sym_st_i32(s: Seq<(Seq<char>, Symbol)>, name: Seq<char>) -> i32 {
    (lookup(s, name).unwrap().spec_addr() as i32)
}

/// The symbol table.
#[derive(Debug)]
pub struct SymbolTable {
    symbols: Vec<(String, Symbol)>,
    /// The next free stack address; this is in effect the compiler's `rsp`.
    current_address: u32,
}

impl SymbolTable {
    /// The table as a sequence of name/symbol pairs in insertion order.
    pub closed spec fn view(self) -> Seq<(Seq<char>, Symbol)> {
        self.symbols@.map(|i: int, p: (String, Symbol)| (p.0@, p.1))
    }

    /// Well-formedness: names are distinct, and the entry at position `i`
    /// sits at stack address `8 * i`, so `current_address == 8 * len`.
    pub open spec fn wf(self) -> bool {
        &&& forall|i: int|
            0 <= i < self@.len() ==> (#[trigger] self@[i]).1.spec_addr() == 8 * i
        &&& forall|i: int, j: int|
            0 <= i < j < self@.len() ==> (#[trigger] self@[i]).0 != (#[trigger] self@[j]).0
        &&& self.spec_current() == 8 * self@.len()
    }

    /// The next free stack address.
    pub closed spec fn spec_current(self) -> u32 {
        self.current_address
    }

    /// Gets a symbol by name: the entry recorded by the first insert of
    /// `name`, if there was one.
    pub fn get(&self, name: &str) -> (r: Option<&Symbol>)
        ensures
            match r {
                Some(sym) => lookup(self@, name@) == Some(*sym),
                None => lookup(self@, name@) is None,
            },
    {
        let n = self.symbols.len();
        let mut i: usize = 0;
        proof {
            assert(self@.skip(0) =~= self@);
        }
        while i < n
            invariant
                n == self.symbols.len(),
                0 <= i <= n,
                lookup(self@, name@) == lookup(self@.skip(i as int), name@),
            decreases n - i,
        {
            let p = &self.symbols[i];
            proof {
                assert(self@.skip(i as int)[0] == self@[i as int]);
                assert(self@.skip(i as int).drop_first() =~= self@.skip(i + 1));
            }
            if str_eq(p.0.as_str(), name) {
                return Some(&p.1);
            }
            i += 1;
        }
        proof {
            assert(self@.skip(n as int) =~= Seq::<(Seq<char>, Symbol)>::empty());
        }
        None
    }

    /// Creates a new symbol in the table.
    ///
    /// Inserting a name that is already present is a no-op: the first
    /// declaration wins, which is the language's variable-introduction rule.
    pub fn insert(&mut self, name: &str, ty: Type)
        requires
            old(self).wf(),
        ensures
            final(self).wf(),
            final(self)@ == insert_model(old(self)@, name@, ty),
    {
        if self.get(name).is_some() {
            return;
        }
        if self.symbols.len() >= 0x1FFF_FFFFusize {
            return;
        }
        let ghost old_view = self@;
        proof {
            lemma_lookup_none(old_view, name@);
        }
        let sym = Symbol::new(ty, self.current_address);
        self.symbols.push((name.to_owned(), sym));
        self.current_address = self.current_address + 8;
        proof {
            assert(self@ =~= old_view.push((name@, sym)));
        }
    }

    /// The next free stack offset; also the frame bytes assigned so far.
    pub fn current_offset(&self) -> (r: u32)
        ensures
            r == self.spec_current(),
    {
        self.current_address
    }

    /// The stack bytes to reserve so that every symbol fits: 8 for each
    /// `Int` entry. (`String` symbols are not on the stack.)
    pub fn size(&self) -> (r: u32)
        requires
            self.wf(),
        ensures
            r == stack_size(self@),
    {
        let n = self.symbols.len();
        let mut acc: u32 = 0;
        let mut i: usize = 0;
        while i < n
            invariant
                self.wf(),
                n == self.symbols.len(),
                0 <= i <= n,
                acc == stack_size(self@.subrange(0, i as int)),
                acc <= 8 * i,
                8 * n <= u32::MAX,
            decreases n - i,
        {
            proof {
                assert(self@.subrange(0, i + 1).drop_last() =~= self@.subrange(0, i as int));
                assert(self@.subrange(0, i + 1).last() == self@[i as int]);
            }
            let p = &self.symbols[i];
            if p.1.ty.size() == 8 && matches!(p.1.ty, Type::Int) {
                acc = acc + 8;
            }
            i += 1;
        }
        proof {
            assert(self@.subrange(0, n as int) =~= self@);
        }
        acc
    }
}

impl SymbolTable {
    /// Emits code that puts the variable with the given name in the `RBX`
    /// register.
    ///
    /// This is not usually part of a symbol table, but stack access needs
    /// the stack-pointer juggling of [`access_code`] because the assembly IR
    /// has no base-plus-offset memory operand, and the table knows the
    /// offsets.
    pub fn access(&self, name: &str, program: Program) -> (r: Program)
        requires
            lookup(self@, name@) is Some,
            lookup(self@, name@).unwrap().spec_addr() + 8 <= i32::MAX,
        ensures
            r.entries@ == program.entries@ + access_code(
                (lookup(self@, name@).unwrap().spec_addr() + 8) as i32,
            ),
            r.data_view() == program.data_view(),
    {
        let sym = match self.get(name) {
            Some(s) => s,
            None => {
                proof {
                    assert(false);
                }
                return program;
            },
        };
        let addr = sym.end_addr() as i32;
        let r = program
            .add(Mnemonic::Mov(Register::R14, Operand::Reg(Register::Rsp)))
            .add(Mnemonic::Mov(Register::Rsp, Operand::Reg(Register::R15)))
            .add(Mnemonic::Sub(Register::Rsp, Operand::Imm(Immediate::Imm32(addr))))
            .add(Mnemonic::Pop(Register::Rbx))
            .add(Mnemonic::Mov(Register::Rsp, Operand::Reg(Register::R14)));
        proof {
            assert(r.entries@ =~= program.entries@ + access_code(addr));
        }
        r
    }

    /// Emits code that stores the given operand into the stack slot of the
    /// variable with the given name; the counterpart of [`SymbolTable::access`].
    pub fn write(&self, name: &str, value: Operand, program: Program) -> (r: Program)
        requires
            lookup(self@, name@) is Some,
            lookup(self@, name@).unwrap().spec_addr() <= i32::MAX,
        ensures
            r.entries@ == program.entries@ + write_code(
                lookup(self@, name@).unwrap().spec_addr() as i32,
                value,
            ),
            r.data_view() == program.data_view(),
    {
        let sym = match self.get(name) {
            Some(s) => s,
            None => {
                proof {
                    assert(false);
                }
                return program;
            },
        };
        let addr = sym.st_addr() as i32;
        let r = program
            .add(Mnemonic::Mov(Register::R14, Operand::Reg(Register::Rsp)))
            .add(Mnemonic::Mov(Register::Rsp, Operand::Reg(Register::R15)))
            .add(Mnemonic::Sub(Register::Rsp, Operand::Imm(Immediate::Imm32(addr))))
            .add(Mnemonic::Push(value))
            .add(Mnemonic::Mov(Register::Rsp, Operand::Reg(Register::R14)));
        proof {
            assert(r.entries@ =~= program.entries@ + write_code(addr, value));
        }
        r
    }
}

/// Looking a name up in a table extended by one entry finds the old entry
/// first, the new entry only if the name was absent.
pub proof fn lemma_lookup_push(s: Seq<(Seq<char>, Symbol)>, p: (Seq<char>, Symbol), name: Seq<char>)
    ensures
        lookup(s.push(p), name) == (if lookup(s, name) is Some {
            lookup(s, name)
        } else if p.0 == name {
            Some(p.1)
        } else {
            None
        }),
    decreases s.len(),
{
    if s.len() == 0 {
        assert(s.push(p)[0] == p);
        assert(s.push(p).drop_first() =~= Seq::<(Seq<char>, Symbol)>::empty());
    } else {
        assert(s.push(p).drop_first() =~= s.drop_first().push(p));
        lemma_lookup_push(s.drop_first(), p, name);
    }
}

/// The table after any further sequence of inserts, applied in order.
pub open spec fn apply_inserts(
    s: Seq<(Seq<char>, Symbol)>,
    reqs: Seq<(Seq<char>, Type)>,
) -> Seq<(Seq<char>, Symbol)>
    decreases reqs.len(),
{
    if reqs.len() == 0 {
        s
    } else {
        apply_inserts(insert_model(s, reqs[0].0, reqs[0].1), reqs.drop_first())
    }
}

/// No sequence of further inserts changes what `lookup` finds for a name
/// that is already present: once assigned, a symbol's offset is stable.
pub proof fn lemma_apply_inserts_preserves(
    s: Seq<(Seq<char>, Symbol)>,
    reqs: Seq<(Seq<char>, Type)>,
    name: Seq<char>,
)
    requires
        lookup(s, name) is Some,
    ensures
        lookup(apply_inserts(s, reqs), name) == lookup(s, name),
    decreases reqs.len(),
{
    if reqs.len() > 0 {
        let s2 = insert_model(s, reqs[0].0, reqs[0].1);
        if !(lookup(s, reqs[0].0) is Some || s.len() >= table_cap()) {
            lemma_lookup_push(s, (reqs[0].0, Symbol { ty: reqs[0].1, address: (8 * s.len()) as u32 }), name);
        }
        lemma_apply_inserts_preserves(s2, reqs.drop_first(), name);
    }
}

/// Inserting a fresh name and then getting it returns the type and offset
/// recorded by the insert, whatever sequence of inserts comes in between.
pub proof fn lemma_insert_then_get(
    s: Seq<(Seq<char>, Symbol)>,
    name: Seq<char>,
    ty: Type,
    later: Seq<(Seq<char>, Type)>,
)
    requires
        lookup(s, name) is None,
        s.len() < table_cap(),
    ensures
        lookup(apply_inserts(insert_model(s, name, ty), later), name) == Some(
            Symbol { ty, address: (8 * s.len()) as u32 },
        ),
{
    let sym = Symbol { ty, address: (8 * s.len()) as u32 };
    lemma_lookup_push(s, (name, sym), name);
    lemma_apply_inserts_preserves(s.push((name, sym)), later, name);
}

/// A found symbol is an entry of the table.
pub proof fn lemma_lookup_in_table(s: Seq<(Seq<char>, Symbol)>, name: Seq<char>)
    requires
        lookup(s, name) is Some,
    ensures
        exists|i: int|
            0 <= i < s.len() && #[trigger] s[i] == (name, lookup(s, name).unwrap()),
    decreases s.len(),
{
    if s.len() > 0 {
        if s[0].0 == name {
            assert(s[0] == (name, lookup(s, name).unwrap()));
        } else {
            lemma_lookup_in_table(s.drop_first(), name);
            let i = choose|i: int|
                0 <= i < s.drop_first().len() && #[trigger] s.drop_first()[i] == (
                    name,
                    lookup(s.drop_first(), name).unwrap(),
                );
            assert(s[i + 1] == (name, lookup(s, name).unwrap()));
        }
    }
}

/// In a well-formed table every symbol's slot ends within the reserved
/// region: its address plus 8 is at most `current`.
pub proof fn lemma_lookup_addr_bound(t: SymbolTable, name: Seq<char>)
    requires
        t.wf(),
        lookup(t@, name) is Some,
    ensures
        lookup(t@, name).unwrap().spec_addr() + 8 <= t.spec_current(),
{
    lemma_lookup_in_table(t@, name);
}

/// The stack never outgrows the reserved region: the size is at most
/// 8 bytes per entry.
pub proof fn lemma_stack_size_le(s: Seq<(Seq<char>, Symbol)>)
    ensures
        0 <= stack_size(s) <= 8 * s.len(),
    decreases s.len(),
{
    if s.len() > 0 {
        lemma_stack_size_le(s.drop_last());
    }
}

/// The number of `Int` entries of `s`.
pub open spec fn count_int(s: Seq<(Seq<char>, Symbol)>) -> int
    decreases s.len(),
{
    if s.len() == 0 {
        0
    } else {
        count_int(s.drop_last()) + if s.last().1.spec_ty() is Int {
            1int
        } else {
            0int
        }
    }
}

/// The stack size is 8 bytes per `Int` entry; in a well-formed table the
/// entries' names are distinct, so this is 8 times the number of distinct
/// `Int` names.
pub proof fn lemma_stack_size_counts_ints(s: Seq<(Seq<char>, Symbol)>)
    ensures
        stack_size(s) == 8 * count_int(s),
    decreases s.len(),
{
    if s.len() > 0 {
        lemma_stack_size_counts_ints(s.drop_last());
    }
}

impl Default for SymbolTable {
    /// The empty table.
    fn default() -> (r: SymbolTable)
        ensures
            r.wf(),
            r@ == Seq::<(Seq<char>, Symbol)>::empty(),
    {
        let r = SymbolTable { symbols: Vec::new(), current_address: 0 };
        proof {
            assert(r@ =~= Seq::<(Seq<char>, Symbol)>::empty());
        }
        r
    }
}

} // verus!
