//! Whole numbers as stations send them: digits, with an optional plus sign.

use vstd::prelude::*;
use crate::text::{
    all_digits, chars_of, digit_of, digits_value, is_digit, is_digit_char, lemma_digits_value_prefix,
    lemma_digits_value_push,
};

verus! {

/// Length of the plus sign that `s` starts with, if it starts with one.
pub open spec fn plus_len(s: Seq<char>) -> int {
    if s.len() > 0 && s[0] == '+' {
        1
    } else {
        0
    }
}

/// Whether `s` spells a whole number: an optional plus sign, then one digit
/// or more.
pub open spec fn is_whole_text(s: Seq<char>) -> bool {
    s.len() > plus_len(s) && all_digits(s.skip(plus_len(s)))
}

/// The number that `s` spells, if it spells a whole number of at most `max`.
pub open spec fn parse_whole(s: Seq<char>, max: int) -> Option<int> {
    if is_whole_text(s) && digits_value(s.skip(plus_len(s))) <= max {
        Some(digits_value(s.skip(plus_len(s))))
    } else {
        None
    }
}

/// Reads the digits of `v` from `from` on as a number of at most `max`.
/// `None` where there is no digit, where something else than a digit
/// stands, and for a number above `max`.
pub(crate) fn read_digits(v: &Vec<char>, from: usize, max: u16) -> (r: Option<u16>)
    requires
        from <= v.len(),
    ensures
        ({
            let digits = v@.skip(from as int);
            &&& r is Some <==> digits.len() > 0 && all_digits(digits) && digits_value(digits)
                <= max
            &&& r matches Some(n) ==> n == digits_value(digits) && n <= max
        }),
{
    let n = v.len();
    if from == n {
        return None;
    }
    let ghost digits = v@.skip(from as int);
    let mut acc: u16 = 0;
    let mut i: usize = from;
    while i < n
        invariant
            from <= i <= n,
            n == v.len(),
            digits == v@.skip(from as int),
            all_digits(digits.take(i - from)),
            acc == digits_value(digits.take(i - from)),
            acc <= max,
        decreases n - i,
    {
        let c = v[i];
        if !is_digit_char(c) {
            proof {
                assert(digits[i - from] == c);
            }
            return None;
        }
        let d = digit_of(c) as u16;
        proof {
            let k = i - from;
            assert(digits.take(k + 1) =~= digits.take(k).push(c));
            lemma_digits_value_push(digits.take(k), c);
            assert forall|j: int| 0 <= j < k + 1 implies is_digit(
                #[trigger] digits.take(k + 1)[j],
            ) by {
                if j < k {
                    assert(digits.take(k + 1)[j] == digits.take(k)[j]);
                }
            }
            if all_digits(digits) {
                lemma_digits_value_prefix(digits, k + 1);
            }
        }
        if d > max || acc > (max - d) / 10 {
            return None;
        }
        acc = acc * 10 + d;
        i += 1;
    }
    proof {
        assert(digits.take(n - from) =~= digits);
    }
    Some(acc)
}

/// Reads a whole number of at most `max`. `None` for a text that is no
/// whole number (a minus sign, a decimal point, no digit) and for a number
/// above `max`.
pub fn parse_unsigned(text: &str, max: u16) -> (r: Option<u16>)
    ensures
        r is Some <==> parse_whole(text@, max as int) is Some,
        r matches Some(n) ==> parse_whole(text@, max as int) == Some(n as int) && n <= max,
{
    let v = chars_of(text);
    let start: usize = if v.len() > 0 && v[0] == '+' {
        1
    } else {
        0
    };
    read_digits(&v, start, max)
}

} // verus!
