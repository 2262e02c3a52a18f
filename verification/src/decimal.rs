//! Decimal text to unsigned integers.
//!
//! The accepted form is an optional `+` followed by one or more ASCII digits,
//! with no blanks, separators or other characters, and a value within the
//! range of `u32`.

use vstd::prelude::*;

verus! {

/// Whether `c` is one of `0` to `9`.
pub open spec fn is_digit(c: char) -> bool {
    '0' <= c && c <= '9'
}

/// The number that a digit character stands for.
pub open spec fn digit_value(c: char) -> nat {
    (c as u32 - '0' as u32) as nat
}

/// Whether every character of `s` is a decimal digit.
pub open spec fn all_digits(s: Seq<char>) -> bool {
    forall|i: int| 0 <= i < s.len() ==> is_digit(#[trigger] s[i])
}

/// The number written by the digits `s`, most significant first.
pub open spec fn digits_value(s: Seq<char>) -> nat
    decreases s.len(),
{
    if s.len() == 0 {
        0
    } else {
        digits_value(s.drop_last()) * 10 + digit_value(s.last())
    }
}

/// `s` without its leading `+`, if it has one.
pub open spec fn strip_plus(s: Seq<char>) -> Seq<char> {
    if s.len() > 0 && s[0] == '+' {
        s.drop_first()
    } else {
        s
    }
}

/// What `s` denotes as a `u32`, or `None` where it is not of the accepted
/// form or its value is out of range.
pub open spec fn parse_u32_spec(s: Seq<char>) -> Option<u32> {
    let digits = strip_plus(s);
    if digits.len() > 0 && all_digits(digits) && digits_value(digits) <= u32::MAX {
        Some(digits_value(digits) as u32)
    } else {
        None
    }
}

/// The value of a run of digits is at least the value of each of its prefixes.
pub proof fn lemma_digits_value_prefix(s: Seq<char>, k: int)
    requires
        0 <= k <= s.len(),
    ensures
        digits_value(s.take(k)) <= digits_value(s),
    decreases s.len(),
{
    if k == s.len() {
        assert(s.take(k) =~= s);
    } else {
        lemma_digits_value_prefix(s.drop_last(), k);
        assert(s.drop_last().take(k) =~= s.take(k));
    }
}

/// Reads `text` as a decimal `u32`.
///
/// Succeeds exactly on an optional `+` followed by at least one digit whose
/// value fits; returns that value.
pub fn parse_u32(text: &str) -> (parsed: Option<u32>)
    ensures
        parsed == parse_u32_spec(text@),
{
    let ghost digits = strip_plus(text@);
    let mut value: u64 = 0;
    let ghost mut seen: int = 0;
    let mut any: bool = false;
    let mut first: bool = true;
    for c in it: text.chars()
        invariant
            it.seq() == text@,
            digits == strip_plus(text@),
            first <==> it.index() == 0,
            !first ==> seen == it.index() - (text@.len() - digits.len()),
            first ==> seen == 0,
            0 <= seen <= it.index(),
            any <==> seen > 0,
            all_digits(digits.take(seen)),
            value == digits_value(digits.take(seen)),
            value <= u32::MAX,
    {
        let sign = first && c == '+';
        first = false;
        if !sign {
            if !('0' <= c && c <= '9') {
                assert(!is_digit(digits[seen]));
                return None;
            }
            let d: u64 = (c as u32 - '0' as u32) as u64;
            let next: u64 = value * 10 + d;
            proof {
                let upto = digits.take(seen + 1);
                assert(upto.drop_last() =~= digits.take(seen));
                assert(upto.last() == c);
                assert(digits_value(upto) == next);
            }
            if next > 0xffff_ffff {
                proof {
                    lemma_digits_value_prefix(digits, seen + 1);
                }
                return None;
            }
            value = next;
            any = true;
            proof {
                seen = seen + 1;
            }
        }
    }
    proof {
        assert(digits.take(seen) =~= digits);
    }
    if any {
        Some(value as u32)
    } else {
        None
    }
}

} // verus!
