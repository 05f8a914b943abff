//! Decimal integers as they appear on the wire.
//!
//! A fragment header spells its two numbers the way Rust prints an `i32`:
//! an optional sign, then one or more ASCII digits. Leading zeros and an
//! explicit `+` are accepted; anything else, or a value that does not fit
//! an `i32`, is not a number.

use vstd::prelude::*;

verus! {

/// `b` is one of the ASCII digits `0` to `9`.
pub open spec fn is_digit(b: u8) -> bool {
    48 <= b && b <= 57
}

/// Every byte of `s` is an ASCII digit.
pub open spec fn all_digits(s: Seq<u8>) -> bool {
    forall|i: int| 0 <= i < s.len() ==> is_digit(#[trigger] s[i])
}

/// The number that a run of digits spells, most significant digit first.
pub open spec fn digits_value(s: Seq<u8>) -> int
    decreases s.len(),
{
    if s.len() == 0 {
        0
    } else {
        10 * digits_value(s.drop_last()) + (s.last() as int - 48)
    }
}

/// `s` starts with `+` or `-`.
pub open spec fn has_sign(s: Seq<u8>) -> bool {
    s.len() > 0 && (s[0] == 43 || s[0] == 45)
}

/// `s` without its sign, if it has one.
pub open spec fn magnitude_digits(s: Seq<u8>) -> Seq<u8> {
    if has_sign(s) {
        s.subrange(1, s.len() as int)
    } else {
        s
    }
}

/// The integer that `s` spells: `None` unless `s` is an optional sign
/// followed by at least one digit and the value fits an `i32`.
pub open spec fn integer_value(s: Seq<u8>) -> Option<int> {
    let digits = magnitude_digits(s);
    let magnitude = digits_value(digits);
    let value = if s.len() > 0 && s[0] == 45 {
        -magnitude
    } else {
        magnitude
    };
    if digits.len() > 0 && all_digits(digits) && i32::MIN <= value <= i32::MAX {
        Some(value)
    } else {
        None
    }
}

/// A run of digits never spells a negative number.
pub proof fn lemma_digits_value_nonnegative(s: Seq<u8>)
    requires
        all_digits(s),
    ensures
        digits_value(s) >= 0,
    decreases s.len(),
{
    if s.len() > 0 {
        lemma_digits_value_nonnegative(s.drop_last());
    }
}

/// Reading more digits never makes the number smaller.
pub proof fn lemma_digits_value_grows(s: Seq<u8>, k: int)
    requires
        all_digits(s),
        0 <= k <= s.len(),
    ensures
        digits_value(s.subrange(0, k)) <= digits_value(s),
    decreases s.len() - k,
{
    if k == s.len() {
        assert(s.subrange(0, k) =~= s);
    } else {
        lemma_digits_value_grows(s.drop_last(), k);
        lemma_digits_value_nonnegative(s.drop_last());
        assert(s.drop_last().subrange(0, k) =~= s.subrange(0, k));
    }
}

/// Reads the integer spelled by `bytes[from..to]`.
pub fn parse_integer(bytes: &[u8], from: usize, to: usize) -> (value: Option<i32>)
    requires
        from <= to <= bytes@.len(),
    ensures
        match value {
            Some(v) => integer_value(bytes@.subrange(from as int, to as int)) == Some(v as int),
            None => integer_value(bytes@.subrange(from as int, to as int)) is None,
        },
{
    let ghost s = bytes@.subrange(from as int, to as int);
    if from == to {
        return None;
    }
    let first: u8 = bytes[from];
    assert(first == s[0]);
    let negative: bool = first == 45;
    let start: usize = if first == 43 || first == 45 {
        from + 1
    } else {
        from
    };
    let ghost digits = magnitude_digits(s);
    assert(digits =~= bytes@.subrange(start as int, to as int));
    if start == to {
        return None;
    }
    let limit: i64 = 2147483648;
    let mut magnitude: i64 = 0;
    let mut i: usize = start;
    while i < to
        invariant
            from <= start <= i <= to <= bytes@.len(),
            s == bytes@.subrange(from as int, to as int),
            digits == magnitude_digits(s),
            digits == bytes@.subrange(start as int, to as int),
            all_digits(digits.subrange(0, i - start)),
            magnitude == digits_value(digits.subrange(0, i - start)),
            0 <= magnitude <= limit,
            limit == 2147483648,
        decreases to - i,
    {
        let b: u8 = bytes[i];
        assert(b == digits[i - start]);
        if b < 48 || b > 57 {
            assert(!is_digit(digits[i - start]));
            return None;
        }
        let ghost read = digits.subrange(0, i - start + 1);
        assert(read.drop_last() =~= digits.subrange(0, i - start));
        assert(all_digits(read)) by {
            assert forall|j: int| 0 <= j < read.len() implies is_digit(#[trigger] read[j]) by {
                if j < i - start {
                    assert(read[j] == digits.subrange(0, i - start)[j]);
                }
            }
        }
        let d: i64 = (b - 48) as i64;
        let next: i64 = 10 * magnitude + d;
        assert(next == digits_value(read));
        if next > limit {
            proof {
                if all_digits(digits) {
                    lemma_digits_value_grows(digits, i - start + 1);
                }
            }
            return None;
        }
        magnitude = next;
        i = i + 1;
    }
    assert(digits.subrange(0, i - start) =~= digits);
    if negative {
        Some((0 - magnitude) as i32)
    } else if magnitude == limit {
        None
    } else {
        Some(magnitude as i32)
    }
}

} // verus!
