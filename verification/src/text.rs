//! Verified text helpers: string equality and decimal number parsing, used
//! by the symbol table and by syntax-tree construction.

use vstd::prelude::*;

use vstd::string::StringSliceAdditionalSpecFns;

verus! {

/// Whether `c` is a decimal digit.
pub open spec fn is_digit(c: char) -> bool {
    48 <= c as int <= 57
}

/// Whether every character of `s` is a decimal digit.
pub open spec fn all_digits(s: Seq<char>) -> bool {
    forall|i: int| 0 <= i < s.len() ==> is_digit(#[trigger] s[i])
}

/// The value of a run of decimal digits, most significant first.
pub open spec fn digits_val(s: Seq<char>) -> int
    decreases s.len(),
{
    if s.len() == 0 {
        0
    } else {
        digits_val(s.drop_last()) * 10 + (s.last() as int - 48)
    }
}

/// A digit run's value is never negative.
pub proof fn lemma_digits_val_nonneg(s: Seq<char>)
    requires
        all_digits(s),
    ensures
        digits_val(s) >= 0,
    decreases s.len(),
{
    if s.len() > 0 {
        assert(all_digits(s.drop_last()));
        lemma_digits_val_nonneg(s.drop_last());
    }
}

/// Appending digits never decreases the value.
pub proof fn lemma_digits_val_prefix(s: Seq<char>, i: int)
    requires
        all_digits(s),
        0 <= i <= s.len(),
    ensures
        digits_val(s.subrange(0, i)) <= digits_val(s),
    decreases s.len() - i,
{
    if i < s.len() {
        let t = s.subrange(0, i + 1);
        assert(t.drop_last() =~= s.subrange(0, i));
        assert(all_digits(s.subrange(0, i)));
        lemma_digits_val_nonneg(s.subrange(0, i));
        assert(digits_val(t) == digits_val(s.subrange(0, i)) * 10 + (s[i] as int - 48));
        lemma_digits_val_prefix(s, i + 1);
        assert(s.subrange(0, s.len() as int) =~= s);
    } else {
        assert(s.subrange(0, i) =~= s);
    }
}

/// Whether `s` is a well-formed signed decimal literal: an optional leading
/// minus sign followed by at least one digit.
pub open spec fn int_text_wf(s: Seq<char>) -> bool {
    if s.len() == 0 {
        false
    } else if s[0] == '-' {
        s.len() > 1 && all_digits(s.skip(1))
    } else {
        all_digits(s)
    }
}

/// The mathematical value of a well-formed signed decimal literal.
pub open spec fn int_text_val(s: Seq<char>) -> int {
    if s.len() > 0 && s[0] == '-' {
        -digits_val(s.skip(1))
    } else {
        digits_val(s)
    }
}

/// The `i32` a decimal literal denotes, or `None` when the text is not a
/// well-formed literal or its value does not fit.
pub open spec fn i32_of_text(t: Seq<char>) -> Option<i32> {
    if int_text_wf(t) && i32::MIN <= int_text_val(t) <= i32::MAX {
        Some(int_text_val(t) as i32)
    } else {
        None
    }
}

/// The `u32` a decimal digit run denotes, or `None`.
pub open spec fn u32_of_text(t: Seq<char>) -> Option<u32> {
    if t.len() > 0 && all_digits(t) && digits_val(t) <= u32::MAX {
        Some(digits_val(t) as u32)
    } else {
        None
    }
}

/// The `usize` a decimal digit run denotes, or `None`.
pub open spec fn usize_of_text(t: Seq<char>) -> Option<usize> {
    if t.len() > 0 && all_digits(t) && digits_val(t) <= usize::MAX {
        Some(digits_val(t) as usize)
    } else {
        None
    }
}

/// The bytes of a string literal with the escapes `\n` and `\t` expanded,
/// scanned left to right. (UTF-8 continuation bytes never collide with the
/// backslash, so a byte-level scan is exact.)
pub open spec fn expand_bytes(b: Seq<u8>) -> Seq<u8>
    decreases b.len(),
{
    if b.len() == 0 {
        Seq::<u8>::empty()
    } else if b.len() >= 2 && b[0] == 92 && b[1] == 110 {
        seq![10u8] + expand_bytes(b.skip(2))
    } else if b.len() >= 2 && b[0] == 92 && b[1] == 116 {
        seq![9u8] + expand_bytes(b.skip(2))
    } else {
        seq![b[0]] + expand_bytes(b.skip(1))
    }
}

/// Expansion never lengthens the text.
pub proof fn lemma_expand_bytes_len(b: Seq<u8>)
    ensures
        expand_bytes(b).len() <= b.len(),
    decreases b.len(),
{
    if b.len() >= 2 && b[0] == 92 && (b[1] == 110 || b[1] == 116) {
        lemma_expand_bytes_len(b.skip(2));
    } else if b.len() > 0 {
        lemma_expand_bytes_len(b.skip(1));
    }
}

/// Expands the escapes `\n` and `\t` in a string literal's bytes.
pub fn expand_escapes(s: &str) -> (r: Vec<u8>)
    ensures
        r@ == expand_bytes(s.spec_bytes()),
{
    let b = s.as_bytes();
    let mut out: Vec<u8> = Vec::new();
    let mut i: usize = 0;
    proof {
        assert(b@.skip(0) =~= b@);
    }
    while i < b.len()
        invariant
            0 <= i <= b@.len(),
            b@ == s.spec_bytes(),
            expand_bytes(b@) == out@ + expand_bytes(b@.skip(i as int)),
        decreases b@.len() - i,
    {
        let ghost pre = out@;
        if b[i] == 92 && i + 1 < b.len() && (b[i + 1] == 110 || b[i + 1] == 116) {
            if b[i + 1] == 110 {
                out.push(10);
            } else {
                out.push(9);
            }
            proof {
                assert(b@.skip(i as int)[0] == b@[i as int]);
                assert(b@.skip(i as int)[1] == b@[i + 1]);
                assert(b@.skip(i as int).skip(2) =~= b@.skip(i + 2));
                assert(out@ + expand_bytes(b@.skip(i + 2)) =~= pre + expand_bytes(
                    b@.skip(i as int),
                ));
            }
            i += 2;
        } else {
            out.push(b[i]);
            proof {
                assert(b@.skip(i as int)[0] == b@[i as int]);
                assert(b@.skip(i as int).skip(1) =~= b@.skip(i + 1));
                if b@.skip(i as int).len() >= 2 && b@[i as int] == 92 {
                    assert(b@.skip(i as int)[1] == b@[i + 1]);
                }
                assert(out@ + expand_bytes(b@.skip(i + 1)) =~= pre + expand_bytes(
                    b@.skip(i as int),
                ));
            }
            i += 1;
        }
    }
    proof {
        assert(b@.skip(b@.len() as int) =~= Seq::<u8>::empty());
        assert(out@ + Seq::<u8>::empty() =~= out@);
    }
    out
}

/// Whether the characters of `a` and `b` are equal.
pub fn str_eq(a: &str, b: &str) -> (r: bool)
    ensures
        r == (a@ == b@),
{
    let alen = a.unicode_len();
    let blen = b.unicode_len();
    if alen != blen {
        return false;
    }
    let mut i: usize = 0;
    while i < alen
        invariant
            alen == a@.len(),
            blen == b@.len(),
            alen == blen,
            0 <= i <= alen,
            forall|j: int| 0 <= j < i ==> a@[j] == b@[j],
        decreases alen - i,
    {
        if a.get_char(i) != b.get_char(i) {
            return false;
        }
        i += 1;
    }
    proof {
        assert(a@ =~= b@);
    }
    true
}

/// Parses a run of decimal digits bounded by `cap`.
///
/// Returns the digits' value exactly when the text is a nonempty digit run
/// whose value is at most `cap`.
pub fn parse_unsigned(s: &str, cap: u64) -> (r: Option<u64>)
    ensures
        match r {
            Some(v) => s@.len() > 0 && all_digits(s@) && digits_val(s@) == v && v <= cap,
            None => !(s@.len() > 0 && all_digits(s@) && digits_val(s@) <= cap),
        },
{
    let len = s.unicode_len();
    if len == 0 {
        return None;
    }
    let mut acc: u64 = 0;
    let mut i: usize = 0;
    while i < len
        invariant
            len == s@.len(),
            0 <= i <= len,
            all_digits(s@.subrange(0, i as int)),
            acc == digits_val(s@.subrange(0, i as int)),
            acc <= cap,
            cap <= u64::MAX,
        decreases len - i,
    {
        let c = s.get_char(i);
        if !(c >= '0' && c <= '9') {
            return None;
        }
        let d: u64 = (c as u32 as u64) - 48;
        proof {
            assert(s@.subrange(0, i + 1).drop_last() =~= s@.subrange(0, i as int));
        }
        let next = match acc.checked_mul(10) {
            Some(t) => t.checked_add(d),
            None => None,
        };
        let fits = match next {
            Some(v) => v <= cap,
            None => false,
        };
        if !fits {
            // The value of this prefix already exceeds the cap, so the
            // whole literal does.
            proof {
                assert(all_digits(s@.subrange(0, i + 1)));
                assert(digits_val(s@.subrange(0, i + 1)) == acc * 10 + d);
                if all_digits(s@) {
                    lemma_digits_val_prefix(s@, i + 1);
                }
            }
            return None;
        }
        acc = acc * 10 + d;
        i += 1;
    }
    proof {
        assert(s@.subrange(0, len as int) =~= s@);
    }
    Some(acc)
}

/// Parses a `u32` decimal literal.
pub fn parse_u32(s: &str) -> (r: Option<u32>)
    ensures
        r == u32_of_text(s@),
{
    match parse_unsigned(s, 0xFFFF_FFFFu64) {
        Some(v) => Some(v as u32),
        None => None,
    }
}

/// Parses a `usize` decimal literal.
pub fn parse_usize(s: &str) -> (r: Option<usize>)
    ensures
        r == usize_of_text(s@),
{
    match parse_unsigned(s, usize::MAX as u64) {
        Some(v) => Some(v as usize),
        None => None,
    }
}

/// Parses a signed 32-bit decimal literal: an optional minus sign followed
/// by digits, with the value in `i32`'s range.
pub fn parse_i32(s: &str) -> (r: Option<i32>)
    ensures
        r == i32_of_text(s@),
        match r {
            Some(v) => int_text_wf(s@) && int_text_val(s@) == v,
            None => !(int_text_wf(s@) && i32::MIN <= int_text_val(s@) <= i32::MAX),
        },
{
    let len = s.unicode_len();
    if len == 0 {
        return None;
    }
    if s.get_char(0) == '-' {
        let rest = s.substring_char(1, len);
        match parse_unsigned(rest, 0x8000_0000u64) {
            Some(v) => {
                proof {
                    lemma_digits_val_nonneg(s@.skip(1));
                    assert(rest@ =~= s@.skip(1));
                }
                Some((-(v as i64)) as i32)
            },
            None => {
                proof {
                    assert(rest@ =~= s@.skip(1));
                }
                None
            },
        }
    } else {
        match parse_unsigned(s, 0x7FFF_FFFFu64) {
            Some(v) => Some(v as i32),
            None => {
                proof {
                    if int_text_wf(s@) {
                        lemma_digits_val_nonneg(s@);
                    }
                }
                None
            },
        }
    }
}

} // verus!
