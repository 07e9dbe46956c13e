//! Hexadecimal address text: which byte strings are accepted as a base-16
//! unsigned 32-bit value, and what value they denote.
//!
//! Accepted text is an optional leading `+` followed by at least one
//! hexadecimal digit, denoting a value that fits in 32 bits.  Whitespace,
//! a sign other than `+`, or any other stray byte is rejected.

use vstd::prelude::*;

verus! {

/// `b` is an ASCII hexadecimal digit.
pub open spec fn is_hex_digit(b: u8) -> bool {
    (0x30 <= b <= 0x39) || (0x41 <= b <= 0x46) || (0x61 <= b <= 0x66)
}

/// The numeric value of an ASCII hexadecimal digit (0 for other bytes).
pub open spec fn hex_digit_val(b: u8) -> int {
    if 0x30 <= b <= 0x39 {
        b - 0x30
    } else if 0x41 <= b <= 0x46 {
        b - 0x41 + 10
    } else if 0x61 <= b <= 0x66 {
        b - 0x61 + 10
    } else {
        0
    }
}

/// The digit part of the text: everything after an optional leading `+`.
pub open spec fn hex_digits_of(t: Seq<u8>) -> Seq<u8> {
    if t.len() > 0 && t[0] == 0x2b {
        t.skip(1)
    } else {
        t
    }
}

/// Every byte of `t` is a hexadecimal digit.
pub open spec fn all_hex_digits(t: Seq<u8>) -> bool {
    forall|k: int| 0 <= k < t.len() ==> is_hex_digit(#[trigger] t[k])
}

/// The value of a digit string, most significant digit first.
pub open spec fn hex_val(t: Seq<u8>) -> int
    decreases t.len(),
{
    if t.len() == 0 {
        0
    } else {
        hex_val(t.drop_last()) * 16 + hex_digit_val(t.last())
    }
}

/// `t` is accepted as a hexadecimal unsigned 32-bit value.
pub open spec fn is_hex_u32(t: Seq<u8>) -> bool {
    let d = hex_digits_of(t);
    d.len() >= 1 && all_hex_digits(d) && hex_val(d) <= u32::MAX
}

/// The value `t` denotes.
pub open spec fn hex_u32_val(t: Seq<u8>) -> int {
    hex_val(hex_digits_of(t))
}

/// Digit-string values are never negative.
pub proof fn lemma_hex_val_nonneg(t: Seq<u8>)
    ensures
        hex_val(t) >= 0,
    decreases t.len(),
{
    if t.len() > 0 {
        lemma_hex_val_nonneg(t.drop_last());
    }
}

/// A prefix of a digit string never denotes more than the whole string.
pub proof fn lemma_hex_val_prefix(t: Seq<u8>, i: int)
    requires
        0 <= i <= t.len(),
    ensures
        hex_val(t.take(i)) <= hex_val(t),
    decreases t.len() - i,
{
    if i == t.len() {
        assert(t.take(i) =~= t);
    } else {
        assert(t.take(i) =~= t.drop_last().take(i));
        lemma_hex_val_prefix(t.drop_last(), i);
        lemma_hex_val_nonneg(t.drop_last());
        lemma_hex_val_nonneg(t);
    }
}

/// Parses `t` as a hexadecimal unsigned 32-bit value: `Some` exactly on
/// the accepted text, carrying the denoted value.
pub fn parse_hex_u32(t: &[u8]) -> (r: Option<u32>)
    ensures
        (match r {
            Some(v) => is_hex_u32(t@) && v == hex_u32_val(t@),
            None => !is_hex_u32(t@),
        }),
{
    let ghost d = hex_digits_of(t@);
    if t.len() == 0 {
        return None;
    }
    let mut i: usize = 0;
    if t[0] == 0x2b {
        i = 1;
    }
    proof {
        assert(d =~= t@.skip(i as int));
    }
    if i == t.len() {
        return None;
    }
    let mut acc: u64 = 0;
    let mut j: usize = i;
    while j < t.len()
        invariant
            i <= j <= t@.len(),
            t@.len() <= usize::MAX,
            d == t@.skip(i as int),
            d == hex_digits_of(t@),
            d.len() == t@.len() - i,
            acc == hex_val(d.take(j - i)),
            acc <= u32::MAX,
            all_hex_digits(d.take(j - i)),
        decreases t@.len() - j,
    {
        let b = t[j];
        proof {
            assert(d[j - i] == t@[j as int]);
        }
        let dv: u64 = if 0x30 <= b && b <= 0x39 {
            (b - 0x30) as u64
        } else if 0x41 <= b && b <= 0x46 {
            (b - 0x41 + 10) as u64
        } else if 0x61 <= b && b <= 0x66 {
            (b - 0x61 + 10) as u64
        } else {
            proof {
                assert(!is_hex_digit(d[j - i]));
            }
            return None;
        };
        let acc2: u64 = acc * 16 + dv;
        proof {
            assert(d.take(j - i + 1).drop_last() =~= d.take(j - i));
            assert(d.take(j - i + 1).last() == d[j - i]);
            assert(acc2 == hex_val(d.take(j - i + 1)));
            assert(all_hex_digits(d.take(j - i + 1)));
        }
        if acc2 > 0xFFFF_FFFF {
            proof {
                lemma_hex_val_prefix(d, j - i + 1);
                assert(hex_val(d) > u32::MAX);
            }
            return None;
        }
        acc = acc2;
        j = j + 1;
    }
    proof {
        assert(d.take(t@.len() - i) =~= d);
    }
    Some(acc as u32)
}

} // verus!
