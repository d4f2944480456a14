//! Verified parsing of the compact-target bits, an unprefixed hex string.

use vstd::prelude::*;

verus! {

/// Whether the byte is an ASCII hex digit.
pub open spec fn spec_is_hex_digit(c: u8) -> bool {
    (0x30 <= c <= 0x39) || (0x41 <= c <= 0x46) || (0x61 <= c <= 0x66)
}

/// The value of an ASCII hex digit (0 for other bytes).
pub open spec fn spec_hex_digit(c: u8) -> int {
    if 0x30 <= c <= 0x39 {
        c - 0x30
    } else if 0x41 <= c <= 0x46 {
        c - 0x41 + 10
    } else if 0x61 <= c <= 0x66 {
        c - 0x61 + 10
    } else {
        0
    }
}

/// Every byte of the string is an ASCII hex digit.
pub open spec fn spec_all_hex(s: Seq<u8>) -> bool {
    forall|i: int| 0 <= i < s.len() ==> spec_is_hex_digit(#[trigger] s[i])
}

/// The numeric value of a big-endian hex digit string.
pub open spec fn spec_hex_value(s: Seq<u8>) -> int
    decreases s.len(),
{
    if s.len() == 0 {
        0
    } else {
        spec_hex_value(s.drop_last()) * 16 + spec_hex_digit(s.last())
    }
}

/// Hex values are non-negative, and a value over a bound stays over it
/// when further digits are appended.
proof fn lemma_hex_value_grows(s: Seq<u8>, i: int)
    requires
        0 <= i <= s.len(),
    ensures
        spec_hex_value(s) >= 0,
        spec_hex_value(s.take(i)) >= 0,
        spec_hex_value(s) >= spec_hex_value(s.take(i)),
    decreases s.len() - i,
{
    if i == s.len() {
        assert(s.take(i) =~= s);
        lemma_hex_value_nonneg(s);
    } else {
        lemma_hex_value_grows(s, i + 1);
        lemma_hex_value_nonneg(s.take(i));
        assert(s.take(i + 1).drop_last() =~= s.take(i));
        assert(spec_hex_value(s.take(i + 1)) == spec_hex_value(s.take(i)) * 16 + spec_hex_digit(
            s.take(i + 1).last(),
        ));
    }
}

proof fn lemma_hex_value_nonneg(s: Seq<u8>)
    ensures
        spec_hex_value(s) >= 0,
    decreases s.len(),
{
    if s.len() > 0 {
        lemma_hex_value_nonneg(s.drop_last());
    }
}

/// Executable form of [`spec_is_hex_digit`] with the digit's value.
fn hex_digit(c: u8) -> (r: Option<u8>)
    ensures
        r is Some <==> spec_is_hex_digit(c),
        r matches Some(v) ==> v == spec_hex_digit(c) && v < 16,
{
    if 0x30 <= c && c <= 0x39 {
        Some(c - 0x30)
    } else if 0x41 <= c && c <= 0x46 {
        Some(c - 0x41 + 10)
    } else if 0x61 <= c && c <= 0x66 {
        Some(c - 0x61 + 10)
    } else {
        None
    }
}

/// Parses a big-endian unprefixed hex string into a `u32`.
///
/// Succeeds exactly when the string is non-empty, holds hex digits only,
/// and its value fits 32 bits; the result is then that value.
pub fn parse_hex_u32(s: &Vec<u8>) -> (r: Option<u32>)
    ensures
        r is Some <==> (s@.len() >= 1 && spec_all_hex(s@) && spec_hex_value(s@) <= u32::MAX),
        r matches Some(v) ==> v == spec_hex_value(s@),
{
    let n = s.len();
    if n == 0 {
        return None;
    }
    let mut acc: u32 = 0;
    let mut i: usize = 0;
    while i < n
        invariant
            n == s@.len(),
            0 <= i <= n,
            spec_all_hex(s@.take(i as int)),
            acc == spec_hex_value(s@.take(i as int)),
        decreases n - i,
    {
        proof {
            assert(s@.take(i + 1).drop_last() =~= s@.take(i as int));
        }
        let d = match hex_digit(s[i]) {
            Some(d) => d,
            None => {
                return None;
            },
        };
        if acc > 0x0FFF_FFFF {
            proof {
                lemma_hex_value_grows(s@, i + 1);
                assert(spec_hex_value(s@.take(i + 1)) > u32::MAX);
            }
            return None;
        }
        acc = acc * 16 + (d as u32);
        i = i + 1;
    }
    proof {
        assert(s@.take(n as int) =~= s@);
    }
    Some(acc)
}

} // verus!
