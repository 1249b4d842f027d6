//! Fixed-point decimals: the scalar in which readings and gauge values are
//! held. A `Decimal` counts ten-thousandths, one digit finer than the finest
//! gauge precision, so that rounding a parsed value to any gauge precision
//! is exact with respect to the digits that were sent. Numbers are read in
//! plain and in exponent notation.

use vstd::prelude::*;
use crate::text::{
    all_digits, chars_of, digit_of, digit_value, digits_value, is_digit, is_digit_char,
    lemma_digits_value_nonnegative, lemma_digits_value_prefix, lemma_digits_value_push,
};
use crate::whole::read_digits;

verus! {

/// Fraction digits that a `Decimal` keeps.
pub const FRACTION_DIGITS: u8 = 4;

/// Units in one whole.
pub const SCALE: i64 = 10_000;

/// Largest magnitude, in units, that a `Decimal` holds.
pub const LIMIT: i64 = 1_000_000_000_000_000_000;

/// Largest magnitude of an exponent that is read.
pub const MAX_EXPONENT: u8 = 99;

/// A signed count of ten-thousandths, at most `LIMIT` in magnitude.
#[derive(Clone, Copy, Debug, PartialEq, Eq)]
pub struct Decimal {
    units: i64,
}

impl View for Decimal {
    type V = int;

    /// The value in units of one ten-thousandth.
    closed spec fn view(&self) -> int {
        self.units as int
    }
}

/// Ten to the power `n`.
pub open spec fn pow10(n: nat) -> int
    decreases n,
{
    if n == 0 {
        1
    } else {
        10 * pow10((n - 1) as nat)
    }
}

/// Units between two neighbouring values that have `decimals` decimal
/// places: a whole is 10000 units, a thousandth is 10. From four places on
/// every value qualifies.
pub open spec fn step(decimals: u8) -> int {
    if decimals >= FRACTION_DIGITS {
        1
    } else {
        pow10((FRACTION_DIGITS - decimals) as nat)
    }
}

/// The multiple of `step` nearest to `units`; of two equally near ones the
/// one farther from zero.
pub open spec fn round_units(units: int, step: int) -> int {
    if units >= 0 {
        ((units + step / 2) / step) * step
    } else {
        -(((-units + step / 2) / step) * step)
    }
}

/// The distance of `x` from zero.
pub open spec fn magnitude_of(x: int) -> int {
    if x < 0 {
        -x
    } else {
        x
    }
}

/// Rounding gives the nearest value of the precision asked for, and of two
/// equally near ones the one farther from zero: the result is a multiple of
/// the step, it lies within half a step of the value, it lies exactly half a
/// step away only where it is the larger in magnitude, and it is never on
/// the other side of zero.
pub proof fn lemma_round_nearest(units: int, decimals: u8)
    ensures
        ({
            let s = step(decimals);
            let r = round_units(units, s);
            &&& r % s == 0
            &&& 2 * magnitude_of(r - units) <= s
            &&& 2 * magnitude_of(r - units) == s ==> magnitude_of(r) > magnitude_of(units)
            &&& units >= 0 ==> r >= 0
            &&& units <= 0 ==> r <= 0
        }),
{
    lemma_step_values(decimals);
    if decimals == 0 {
        let r = round_units(units, 10000);
        assert(r % 10000 == 0 && 2 * magnitude_of(r - units) <= 10000);
    } else if decimals == 1 {
        let r = round_units(units, 1000);
        assert(r % 1000 == 0 && 2 * magnitude_of(r - units) <= 1000);
    } else if decimals == 2 {
        let r = round_units(units, 100);
        assert(r % 100 == 0 && 2 * magnitude_of(r - units) <= 100);
    } else if decimals == 3 {
        let r = round_units(units, 10);
        assert(r % 10 == 0 && 2 * magnitude_of(r - units) <= 10);
    } else {
        let r = round_units(units, 1);
        assert(r == units);
    }
}

/// The step of a precision is one of five powers of ten.
pub proof fn lemma_step_values(decimals: u8)
    ensures
        step(decimals) == (if decimals == 0 {
            10000int
        } else if decimals == 1 {
            1000
        } else if decimals == 2 {
            100
        } else if decimals == 3 {
            10
        } else {
            1
        }),
{
    reveal_with_fuel(pow10, 5);
}

/// Rounding a value that was rounded to the same precision changes nothing.
pub proof fn lemma_round_idempotent(units: int, decimals: u8)
    ensures
        round_units(round_units(units, step(decimals)), step(decimals)) == round_units(
            units,
            step(decimals),
        ),
{
    lemma_step_values(decimals);
}

/// Rounding treats a value and its negative alike.
pub proof fn lemma_round_symmetric(units: int, decimals: u8)
    ensures
        round_units(-units, step(decimals)) == -round_units(units, step(decimals)),
{
    lemma_step_values(decimals);
}

/// A whole number stays as it is, whatever precision it is rounded to.
pub proof fn lemma_round_whole(whole: int, decimals: u8)
    ensures
        round_units(whole * SCALE, step(decimals)) == whole * SCALE,
{
    lemma_step_values(decimals);
}

/// Length of the sign that `s` starts with: one for `+` or `-`, else zero.
pub open spec fn sign_len(s: Seq<char>) -> int {
    if s.len() > 0 && (s[0] == '+' || s[0] == '-') {
        1
    } else {
        0
    }
}

/// Whether `s` starts with a minus sign.
pub open spec fn is_negative(s: Seq<char>) -> bool {
    s.len() > 0 && s[0] == '-'
}

/// Index of the first decimal point in `s`, or the length of `s` if it has
/// none.
pub open spec fn point_index(s: Seq<char>) -> int
    decreases s.len(),
{
    if s.len() == 0 || s[0] == '.' {
        0
    } else {
        1 + point_index(s.drop_first())
    }
}

/// What follows the sign.
pub open spec fn unsigned_part(s: Seq<char>) -> Seq<char> {
    s.skip(sign_len(s))
}

/// What stands before the decimal point of an unsigned text.
pub open spec fn whole_digits(b: Seq<char>) -> Seq<char> {
    b.take(point_index(b))
}

/// What stands after the decimal point of an unsigned text; empty without a
/// point.
pub open spec fn fraction_digits(b: Seq<char>) -> Seq<char> {
    if point_index(b) < b.len() {
        b.skip(point_index(b) + 1)
    } else {
        Seq::empty()
    }
}

/// The first `count` digits of the fraction `f`, with `0` for each that is
/// missing.
pub open spec fn leading_fraction(f: Seq<char>, count: nat) -> Seq<char> {
    Seq::new(
        count,
        |i: int|
            if i < f.len() {
                f[i]
            } else {
                '0'
            },
    )
}

/// The fraction digits that a `Decimal` keeps: the first four.
pub open spec fn kept_fraction(f: Seq<char>) -> Seq<char> {
    leading_fraction(f, FRACTION_DIGITS as nat)
}

/// Whether `c` marks the start of an exponent.
pub open spec fn is_exponent_mark(c: char) -> bool {
    c == 'e' || c == 'E'
}

/// Index of the first exponent mark in `s`, or the length of `s` if it has
/// none.
pub open spec fn exponent_index(s: Seq<char>) -> int
    decreases s.len(),
{
    if s.len() == 0 || is_exponent_mark(s[0]) {
        0
    } else {
        1 + exponent_index(s.drop_first())
    }
}

/// What stands before the exponent mark of an unsigned text: all of it
/// where there is no mark.
pub open spec fn mantissa(b: Seq<char>) -> Seq<char> {
    b.take(exponent_index(b))
}

/// What stands after the exponent mark of an unsigned text, if there is a
/// mark.
pub open spec fn exponent_text(b: Seq<char>) -> Option<Seq<char>> {
    if exponent_index(b) < b.len() {
        Some(b.skip(exponent_index(b) + 1))
    } else {
        None
    }
}

/// Whether `m` spells a number without exponent: digits with at most one
/// decimal point among them, and at least one digit.
pub open spec fn is_mantissa(m: Seq<char>) -> bool {
    &&& all_digits(whole_digits(m))
    &&& all_digits(fraction_digits(m))
    &&& whole_digits(m).len() + fraction_digits(m).len() > 0
}

/// Whether `x` spells an exponent that is read: an optional sign, then one
/// digit or more, of a number up to `MAX_EXPONENT`.
pub open spec fn is_exponent_text(x: Seq<char>) -> bool {
    &&& unsigned_part(x).len() > 0
    &&& all_digits(unsigned_part(x))
    &&& digits_value(unsigned_part(x)) <= MAX_EXPONENT
}

/// The exponent that `x` spells.
pub open spec fn exponent_value(x: Seq<char>) -> int {
    if is_negative(x) {
        -digits_value(unsigned_part(x))
    } else {
        digits_value(unsigned_part(x))
    }
}

/// The exponent of an unsigned text: zero where it has none.
pub open spec fn exponent_of(b: Seq<char>) -> int {
    match exponent_text(b) {
        Some(x) => exponent_value(x),
        None => 0,
    }
}

/// `count` zeros.
pub open spec fn zeros(count: nat) -> Seq<char> {
    Seq::new(count, |i: int| '0')
}

/// The whole digits of the number with whole digits `w` and fraction digits
/// `f`, multiplied by ten to the power `e`: the decimal point moves `e`
/// places to the right, or `-e` places to the left.
pub open spec fn shifted_whole(w: Seq<char>, f: Seq<char>, e: int) -> Seq<char> {
    if e >= 0 {
        w + leading_fraction(f, e as nat)
    } else if w.len() + e > 0 {
        w.take(w.len() + e)
    } else {
        Seq::empty()
    }
}

/// The fraction digits of the number with whole digits `w` and fraction
/// digits `f`, multiplied by ten to the power `e`.
pub open spec fn shifted_fraction(w: Seq<char>, f: Seq<char>, e: int) -> Seq<char> {
    if e >= 0 {
        if e < f.len() {
            f.skip(e)
        } else {
            Seq::empty()
        }
    } else if w.len() + e > 0 {
        w.skip(w.len() + e) + f
    } else {
        zeros((-e - w.len()) as nat) + w + f
    }
}

/// Whether `s` spells a decimal number: an optional sign, then digits with
/// at most one decimal point among them and at least one digit, then
/// possibly an exponent of up to `MAX_EXPONENT` in magnitude. No spelling
/// of infinity or of not-a-number.
pub open spec fn is_decimal_text(s: Seq<char>) -> bool {
    let b = unsigned_part(s);
    &&& is_mantissa(mantissa(b))
    &&& exponent_text(b) matches Some(x) ==> is_exponent_text(x)
}

/// The whole digits of the number that `s` spells, the exponent applied.
pub open spec fn text_whole(s: Seq<char>) -> Seq<char> {
    let b = unsigned_part(s);
    shifted_whole(
        whole_digits(mantissa(b)),
        fraction_digits(mantissa(b)),
        exponent_of(b),
    )
}

/// The fraction digits of the number that `s` spells, the exponent applied.
pub open spec fn text_fraction(s: Seq<char>) -> Seq<char> {
    let b = unsigned_part(s);
    shifted_fraction(
        whole_digits(mantissa(b)),
        fraction_digits(mantissa(b)),
        exponent_of(b),
    )
}

/// The magnitude of the number that `s` spells, in units, with what lies
/// beyond the fourth fraction digit cut off.
pub open spec fn text_magnitude(s: Seq<char>) -> int {
    digits_value(text_whole(s) + kept_fraction(text_fraction(s)))
}

/// The units of the `Decimal` that `s` spells, if it spells one that is
/// within `LIMIT`.
pub open spec fn parse_units(s: Seq<char>) -> Option<int> {
    if is_decimal_text(s) && text_magnitude(s) <= LIMIT {
        Some(
            if is_negative(s) {
                -text_magnitude(s)
            } else {
                text_magnitude(s)
            },
        )
    } else {
        None
    }
}

/// One more fraction digit multiplies the number by ten and adds the
/// digit.
proof fn lemma_leading_fraction_step(w: Seq<char>, f: Seq<char>, count: nat)
    ensures
        digits_value(w + leading_fraction(f, count + 1)) == digits_value(
            w + leading_fraction(f, count),
        ) * 10 + digit_value(leading_fraction(f, count + 1).last()),
{
    let longer = w + leading_fraction(f, count + 1);
    let shorter = w + leading_fraction(f, count);
    assert(longer.drop_last() =~= shorter);
    assert(longer.last() == leading_fraction(f, count + 1).last());
}

/// Rounding a number goes by its digits. For a precision of up to three
/// decimal places, the digits up to that precision are kept, and the number
/// that they form is raised by one exactly if the digit that follows them is
/// 5 or more. What is cut off beyond the fourth fraction digit never
/// decides. With the whole and the fraction digits of a text that was read,
/// this says that rounding is exact with respect to the digits sent.
pub proof fn lemma_round_goes_by_next_digit(w: Seq<char>, f: Seq<char>, decimals: u8)
    requires
        all_digits(w),
        all_digits(f),
        decimals < FRACTION_DIGITS,
    ensures
        ({
            let kept = digits_value(w + leading_fraction(f, decimals as nat));
            let next = leading_fraction(f, (decimals + 1) as nat).last();
            round_units(digits_value(w + kept_fraction(f)), step(decimals)) == (kept
                + if digit_value(next) >= 5 {
                1int
            } else {
                0int
            }) * step(decimals)
        }),
{
    lemma_step_values(decimals);
    lemma_leading_fraction_step(w, f, 0);
    lemma_leading_fraction_step(w, f, 1);
    lemma_leading_fraction_step(w, f, 2);
    lemma_leading_fraction_step(w, f, 3);
    let d0 = digits_value(w + leading_fraction(f, 0));
    let d1 = digits_value(w + leading_fraction(f, 1));
    let d2 = digits_value(w + leading_fraction(f, 2));
    let d3 = digits_value(w + leading_fraction(f, 3));
    let d4 = digits_value(w + leading_fraction(f, 4));
    let a0 = digit_value(leading_fraction(f, 1).last());
    let a1 = digit_value(leading_fraction(f, 2).last());
    let a2 = digit_value(leading_fraction(f, 3).last());
    let a3 = digit_value(leading_fraction(f, 4).last());
    assert(0 <= a0 <= 9 && 0 <= a1 <= 9 && 0 <= a2 <= 9 && 0 <= a3 <= 9) by {
        assert(forall|i: int| 0 <= i < f.len() ==> is_digit(#[trigger] f[i]));
    }
    assert(d0 >= 0) by {
        assert(w + leading_fraction(f, 0) =~= w);
        lemma_digits_value_nonnegative(w);
    }
    if decimals == 0 {
        assert(d4 == d0 * 10000 + a0 * 1000 + a1 * 100 + a2 * 10 + a3);
        assert(round_units(d4, 10000) == (d0 + if a0 >= 5 {
            1int
        } else {
            0int
        }) * 10000);
    } else if decimals == 1 {
        assert(d4 == d1 * 1000 + a1 * 100 + a2 * 10 + a3);
        assert(round_units(d4, 1000) == (d1 + if a1 >= 5 {
            1int
        } else {
            0int
        }) * 1000);
    } else if decimals == 2 {
        assert(d4 == d2 * 100 + a2 * 10 + a3);
        assert(round_units(d4, 100) == (d2 + if a2 >= 5 {
            1int
        } else {
            0int
        }) * 100);
    } else {
        assert(d4 == d3 * 10 + a3);
        assert(round_units(d4, 10) == (d3 + if a3 >= 5 {
            1int
        } else {
            0int
        }) * 10);
    }
}

/// The digits of a text that spells a decimal number are digits, also with
/// the exponent applied.
pub proof fn lemma_text_digits(s: Seq<char>)
    requires
        is_decimal_text(s),
    ensures
        all_digits(text_whole(s)),
        all_digits(text_fraction(s)),
{
    let b = unsigned_part(s);
    lemma_shifted_digits(
        whole_digits(mantissa(b)),
        fraction_digits(mantissa(b)),
        exponent_of(b),
    );
}

/// Rounding a number that was read from text is exact with respect to the
/// digits that were sent: for a precision of up to three decimal places,
/// the digits of the number up to that precision are kept, and the number
/// that they form is raised by one exactly if the digit that follows them is
/// 5 or more.
pub proof fn lemma_round_goes_by_digits_sent(s: Seq<char>, decimals: u8)
    requires
        is_decimal_text(s),
        decimals < FRACTION_DIGITS,
    ensures
        ({
            let kept = digits_value(
                text_whole(s) + leading_fraction(text_fraction(s), decimals as nat),
            );
            let next = leading_fraction(text_fraction(s), (decimals + 1) as nat).last();
            round_units(text_magnitude(s), step(decimals)) == (kept + if digit_value(next) >= 5 {
                1int
            } else {
                0int
            }) * step(decimals)
        }),
{
    lemma_text_digits(s);
    lemma_round_goes_by_next_digit(text_whole(s), text_fraction(s), decimals);
}

/// Moving the decimal point leaves digits digits.
pub proof fn lemma_shifted_digits(w: Seq<char>, f: Seq<char>, e: int)
    requires
        all_digits(w),
        all_digits(f),
    ensures
        all_digits(shifted_whole(w, f, e)),
        all_digits(shifted_fraction(w, f, e)),
{
    let sw = shifted_whole(w, f, e);
    let sf = shifted_fraction(w, f, e);
    assert forall|i: int| 0 <= i < sw.len() implies is_digit(#[trigger] sw[i]) by {
        if e >= 0 {
            if i < w.len() {
                assert(sw[i] == w[i]);
            } else {
                let k = i - w.len();
                assert(sw[i] == leading_fraction(f, e as nat)[k]);
                if k < f.len() {
                    assert(is_digit(f[k]));
                }
            }
        } else {
            assert(sw[i] == w[i]);
        }
    }
    assert forall|i: int| 0 <= i < sf.len() implies is_digit(#[trigger] sf[i]) by {
        if e >= 0 {
            assert(sf[i] == f[i + e]);
        } else if w.len() + e > 0 {
            let cut = w.len() + e;
            if i < w.len() - cut {
                assert(sf[i] == w[cut + i]);
            } else {
                assert(sf[i] == f[i - (w.len() - cut)]);
            }
        } else {
            let pad = -e - w.len();
            if i < pad {
                assert(sf[i] == '0');
            } else if i < pad + w.len() {
                assert(sf[i] == w[i - pad]);
            } else {
                assert(sf[i] == f[i - pad - w.len()]);
            }
        }
    }
}

/// Where the first exponent mark stands: no mark before it, and a mark at
/// it unless it is the end.
pub proof fn lemma_exponent_index(s: Seq<char>)
    ensures
        0 <= exponent_index(s) <= s.len(),
        forall|j: int| 0 <= j < exponent_index(s) ==> !is_exponent_mark(s[j]),
        exponent_index(s) < s.len() ==> is_exponent_mark(s[exponent_index(s)]),
    decreases s.len(),
{
    if s.len() == 0 || is_exponent_mark(s[0]) {
    } else {
        let t = s.drop_first();
        lemma_exponent_index(t);
        assert forall|j: int| 0 <= j < exponent_index(s) implies !is_exponent_mark(s[j]) by {
            if j > 0 {
                assert(s[j] == t[j - 1]);
            }
        }
        if exponent_index(s) < s.len() {
            assert(s[exponent_index(s)] == t[exponent_index(t)]);
        }
    }
}

/// Where the first decimal point stands: no point before it, and a point at
/// it unless it is the end.
pub proof fn lemma_point_index(s: Seq<char>)
    ensures
        0 <= point_index(s) <= s.len(),
        forall|j: int| 0 <= j < point_index(s) ==> s[j] != '.',
        point_index(s) < s.len() ==> s[point_index(s)] == '.',
    decreases s.len(),
{
    if s.len() == 0 || s[0] == '.' {
    } else {
        let t = s.drop_first();
        lemma_point_index(t);
        assert forall|j: int| 0 <= j < point_index(s) implies s[j] != '.' by {
            if j > 0 {
                assert(s[j] == t[j - 1]);
            }
        }
        if point_index(s) < s.len() {
            assert(s[point_index(s)] == t[point_index(t)]);
        }
    }
}

/// An index with no point before it and a point at it (or the end) is the
/// point index.
pub proof fn lemma_point_index_is(s: Seq<char>, p: int)
    requires
        0 <= p <= s.len(),
        forall|j: int| 0 <= j < p ==> s[j] != '.',
        p < s.len() ==> s[p] == '.',
    ensures
        point_index(s) == p,
{
    lemma_point_index(s);
}

impl Decimal {
    #[verifier::type_invariant]
    spec fn within_limit(self) -> bool {
        -LIMIT <= self.units <= LIMIT
    }

    /// Two decimals of the same units are the same decimal.
    pub proof fn lemma_same_units(a: Decimal, b: Decimal)
        requires
            a@ == b@,
        ensures
            a == b,
    {
    }

    /// The decimal of `units` ten-thousandths, if that is within `LIMIT`.
    pub fn from_units(units: i64) -> (r: Option<Decimal>)
        ensures
            r is Some <==> -LIMIT <= units <= LIMIT,
            r matches Some(d) ==> d@ == units,
    {
        if -LIMIT <= units && units <= LIMIT {
            Some(Decimal { units })
        } else {
            None
        }
    }

    /// The value in ten-thousandths.
    pub fn units(&self) -> (u: i64)
        ensures
            u == self@,
            -LIMIT <= u <= LIMIT,
    {
        proof {
            use_type_invariant(self);
        }
        self.units
    }

    /// Zero.
    pub fn zero() -> (r: Decimal)
        ensures
            r@ == 0,
    {
        Decimal { units: 0 }
    }

    /// The whole number `n`.
    pub fn from_whole(n: u16) -> (r: Decimal)
        ensures
            r@ == n * SCALE,
    {
        Decimal { units: (n as i64) * SCALE }
    }

    /// Reads a decimal number: an optional sign, then digits with at most
    /// one decimal point among them, then possibly an exponent (`e` or `E`,
    /// an optional sign, digits) of up to `MAX_EXPONENT` in magnitude.
    /// Digits beyond the fourth fraction digit are checked and dropped.
    /// `None` for any other text and for a number beyond `LIMIT`.
    pub fn parse(text: &str) -> (r: Option<Decimal>)
        ensures
            r is Some <==> parse_units(text@) is Some,
            r matches Some(d) ==> parse_units(text@) == Some(d@),
    {
        let v = chars_of(text);
        let n = v.len();
        let mut start: usize = 0;
        let mut negative = false;
        if n > 0 && (v[0] == '+' || v[0] == '-') {
            negative = v[0] == '-';
            start = 1;
        }
        let (m, x) = split_mantissa(&v, start);
        let (whole, frac) = match read_mantissa(&m) {
            Some(parts) => parts,
            None => {
                return None;
            },
        };
        let e: i8 = if x < n {
            match read_exponent(&v, x + 1) {
                Some(e) => e,
                None => {
                    return None;
                },
            }
        } else {
            0
        };
        let (shifted_w, shifted_f) = shift(&whole, &frac, e);
        proof {
            lemma_shifted_digits(whole@, frac@, e as int);
        }
        match magnitude(&shifted_w, &shifted_f) {
            Some(acc) => {
                let units = if negative {
                    -acc
                } else {
                    acc
                };
                Some(Decimal { units })
            },
            None => None,
        }
    }
}

/// Parts an unsigned text, which stands in `v` from `start` on, at its
/// exponent mark: what stands before the mark, and the place of the mark or
/// the end.
fn split_mantissa(v: &Vec<char>, start: usize) -> (r: (Vec<char>, usize))
    requires
        start <= v.len(),
    ensures
        start <= r.1 <= v.len(),
        r.0@ == mantissa(v@.skip(start as int)),
        exponent_text(v@.skip(start as int)) == (if r.1 < v.len() {
            Some(v@.skip(r.1 + 1))
        } else {
            None
        }),
{
    let x = mark_end(v, start);
    let ghost b = v@.skip(start as int);
    proof {
        lemma_exponent_index(b);
        assert(forall|j: int| 0 <= j < b.len() ==> b[j] == v@[start + j]);
        if exponent_index(b) < x - start {
            assert(is_exponent_mark(b[exponent_index(b)]));
        }
        if exponent_index(b) > x - start {
            assert(!is_exponent_mark(b[x - start]));
        }
        assert(exponent_index(b) == x - start);
        if x < v.len() {
            assert(b.skip(x - start + 1) =~= v@.skip(x + 1));
        }
    }
    let mut m: Vec<char> = Vec::new();
    append(&mut m, v, start, x);
    proof {
        assert(m@ =~= mantissa(b));
    }
    (m, x)
}

/// The whole digits and the fraction digits of a text without exponent, if
/// it spells a number.
fn read_mantissa(m: &Vec<char>) -> (r: Option<(Vec<char>, Vec<char>)>)
    ensures
        r is Some <==> is_mantissa(m@),
        r matches Some(parts) ==> {
            &&& parts.0@ == whole_digits(m@)
            &&& parts.1@ == fraction_digits(m@)
            &&& all_digits(parts.0@)
            &&& all_digits(parts.1@)
        },
{
    let p = digits_end(m, 0);
    proof {
        lemma_whole_part(m@, p as int);
    }
    if p < m.len() && m[p] != '.' {
        return None;
    }
    let frac_start: usize = if p < m.len() {
        p + 1
    } else {
        m.len()
    };
    let q = digits_end(m, frac_start);
    if q < m.len() || (p == 0 && frac_start == m.len()) {
        proof {
            if q < m.len() {
                assert(fraction_digits(m@)[q - frac_start] == m@[q as int]);
            }
        }
        return None;
    }
    proof {
        let f = fraction_digits(m@);
        assert(f =~= m@.subrange(frac_start as int, m.len() as int));
        assert(forall|j: int| 0 <= j < f.len() ==> f[j] == m@[frac_start + j]);
        assert(all_digits(f));
    }
    let mut whole: Vec<char> = Vec::new();
    append(&mut whole, m, 0, p);
    let mut frac: Vec<char> = Vec::new();
    append(&mut frac, m, frac_start, m.len());
    proof {
        assert(whole@ =~= whole_digits(m@));
        assert(frac@ =~= fraction_digits(m@));
    }
    Some((whole, frac))
}

/// The end of the run of digits that starts at `from`.
fn digits_end(v: &Vec<char>, from: usize) -> (end: usize)
    requires
        from <= v.len(),
    ensures
        from <= end <= v.len(),
        forall|j: int| from <= j < end ==> is_digit(#[trigger] v@[j]),
        end < v.len() ==> !is_digit(v@[end as int]),
{
    let mut end = from;
    while end < v.len() && is_digit_char(v[end])
        invariant
            from <= end <= v.len(),
            forall|j: int| from <= j < end ==> is_digit(#[trigger] v@[j]),
        decreases v.len() - end,
    {
        end += 1;
    }
    end
}

/// The place of the first exponent mark from `from` on, or the end.
fn mark_end(v: &Vec<char>, from: usize) -> (end: usize)
    requires
        from <= v.len(),
    ensures
        from <= end <= v.len(),
        forall|j: int| from <= j < end ==> !is_exponent_mark(#[trigger] v@[j]),
        end < v.len() ==> is_exponent_mark(v@[end as int]),
{
    let mut end = from;
    while end < v.len() && v[end] != 'e' && v[end] != 'E'
        invariant
            from <= end <= v.len(),
            forall|j: int| from <= j < end ==> !is_exponent_mark(#[trigger] v@[j]),
        decreases v.len() - end,
    {
        end += 1;
    }
    end
}

/// Appends the characters of `source` from `from` up to `to`.
fn append(target: &mut Vec<char>, source: &Vec<char>, from: usize, to: usize)
    requires
        from <= to <= source.len(),
    ensures
        final(target)@ == old(target)@ + source@.subrange(from as int, to as int),
{
    let mut i = from;
    while i < to
        invariant
            from <= i <= to <= source.len(),
            target@ == old(target)@ + source@.subrange(from as int, i as int),
        decreases to - i,
    {
        target.push(source[i]);
        proof {
            assert(source@.subrange(from as int, i + 1) =~= source@.subrange(
                from as int,
                i as int,
            ).push(source@[i as int]));
        }
        i += 1;
    }
}

/// Appends `count` times the character `c`.
fn append_repeated(target: &mut Vec<char>, c: char, count: usize)
    ensures
        final(target)@ == old(target)@ + Seq::new(count as nat, |i: int| c),
{
    let mut i: usize = 0;
    while i < count
        invariant
            0 <= i <= count,
            target@ == old(target)@ + Seq::new(i as nat, |k: int| c),
        decreases count - i,
    {
        target.push(c);
        proof {
            assert(Seq::new((i + 1) as nat, |k: int| c) =~= Seq::new(i as nat, |k: int| c).push(c));
        }
        i += 1;
    }
}

/// Reads the exponent that stands in `v` from `from` on.
fn read_exponent(v: &Vec<char>, from: usize) -> (r: Option<i8>)
    requires
        from <= v.len(),
    ensures
        r is Some <==> is_exponent_text(v@.skip(from as int)),
        r matches Some(e) ==> e == exponent_value(v@.skip(from as int)) && -MAX_EXPONENT <= e
            <= MAX_EXPONENT,
{
    let ghost x = v@.skip(from as int);
    let signed = from < v.len() && (v[from] == '+' || v[from] == '-');
    let negative = signed && v[from] == '-';
    let start = if signed {
        from + 1
    } else {
        from
    };
    proof {
        assert(unsigned_part(x) =~= v@.skip(start as int));
    }
    match read_digits(v, start, MAX_EXPONENT as u16) {
        Some(n) => {
            if negative {
                Some(-(n as i8))
            } else {
                Some(n as i8)
            }
        },
        None => None,
    }
}

/// Moves the decimal point of the number with the whole digits `whole` and
/// the fraction digits `frac` by `e` places.
fn shift(whole: &Vec<char>, frac: &Vec<char>, e: i8) -> (r: (Vec<char>, Vec<char>))
    requires
        -MAX_EXPONENT <= e <= MAX_EXPONENT,
    ensures
        r.0@ == shifted_whole(whole@, frac@, e as int),
        r.1@ == shifted_fraction(whole@, frac@, e as int),
{
    let mut w: Vec<char> = Vec::new();
    let mut f: Vec<char> = Vec::new();
    if e >= 0 {
        let k = e as usize;
        append(&mut w, whole, 0, whole.len());
        if k < frac.len() {
            append(&mut w, frac, 0, k);
            append(&mut f, frac, k, frac.len());
        } else {
            append(&mut w, frac, 0, frac.len());
            append_repeated(&mut w, '0', k - frac.len());
        }
        proof {
            assert(w@ =~= shifted_whole(whole@, frac@, e as int));
            assert(f@ =~= shifted_fraction(whole@, frac@, e as int));
        }
    } else {
        let k = (-e) as usize;
        if whole.len() > k {
            let cut = whole.len() - k;
            append(&mut w, whole, 0, cut);
            append(&mut f, whole, cut, whole.len());
            append(&mut f, frac, 0, frac.len());
        } else {
            append_repeated(&mut f, '0', k - whole.len());
            append(&mut f, whole, 0, whole.len());
            append(&mut f, frac, 0, frac.len());
        }
        proof {
            assert(w@ =~= shifted_whole(whole@, frac@, e as int));
            assert(f@ =~= shifted_fraction(whole@, frac@, e as int));
        }
    }
    (w, f)
}

/// What a run of digits at the start of a text without exponent says of its
/// parts: the run is the whole part if a point or the end follows it, and
/// the text spells no number otherwise.
proof fn lemma_whole_part(m: Seq<char>, p: int)
    requires
        0 <= p <= m.len(),
        forall|j: int| 0 <= j < p ==> is_digit(#[trigger] m[j]),
        p < m.len() ==> !is_digit(m[p]),
    ensures
        p < m.len() && m[p] != '.' ==> !is_mantissa(m),
        p == m.len() || m[p] == '.' ==> {
            &&& whole_digits(m) == m.take(p)
            &&& all_digits(whole_digits(m))
            &&& fraction_digits(m) == (if p < m.len() {
                m.skip(p + 1)
            } else {
                Seq::empty()
            })
        },
{
    lemma_point_index(m);
    if p < m.len() && m[p] != '.' {
        if point_index(m) < p {
            assert(is_digit(m[point_index(m)]));
        }
        assert(point_index(m) > p);
        assert(whole_digits(m)[p] == m[p]);
        assert(!is_digit(whole_digits(m)[p]));
    } else {
        assert(forall|j: int| 0 <= j < p ==> m[j] != '.') by {
            assert(forall|j: int| 0 <= j < p ==> is_digit(#[trigger] m[j]));
        }
        lemma_point_index_is(m, p);
        assert(forall|j: int|
            0 <= j < whole_digits(m).len() ==> is_digit(#[trigger] whole_digits(m)[j])) by {
            assert(forall|j: int| 0 <= j < p ==> whole_digits(m)[j] == m[j]);
        }
    }
}

/// Appends the digit `c` to the number `acc`, unless that leads beyond
/// `LIMIT`.
fn push_digit(acc: i64, c: char) -> (r: Option<i64>)
    requires
        0 <= acc <= LIMIT,
        is_digit(c),
    ensures
        r is Some <==> acc * 10 + digit_value(c) <= LIMIT,
        r matches Some(next) ==> next == acc * 10 + digit_value(c),
{
    let d = digit_of(c) as i64;
    if acc > (LIMIT - d) / 10 {
        None
    } else {
        Some(acc * 10 + d)
    }
}

/// The number that the whole digits `whole` and the first four of the
/// fraction digits `frac` spell together, unless it is beyond `LIMIT`.
fn magnitude(whole: &Vec<char>, frac: &Vec<char>) -> (r: Option<i64>)
    requires
        all_digits(whole@),
        all_digits(frac@),
    ensures
        r is Some <==> digits_value(whole@ + kept_fraction(frac@)) <= LIMIT,
        r matches Some(m) ==> m == digits_value(whole@ + kept_fraction(frac@)) && 0 <= m,
{
    let ghost digits = whole@ + kept_fraction(frac@);
    proof {
        assert forall|j: int| 0 <= j < digits.len() implies is_digit(#[trigger] digits[j]) by {
            if j < whole@.len() {
                assert(digits[j] == whole@[j]);
            } else {
                let i = j - whole@.len();
                assert(digits[j] == kept_fraction(frac@)[i]);
                if i < frac@.len() {
                    assert(is_digit(frac@[i]));
                }
            }
        }
    }
    let mut acc: i64 = 0;
    let mut k: usize = 0;
    while k < whole.len()
        invariant
            0 <= k <= whole.len(),
            digits == whole@ + kept_fraction(frac@),
            all_digits(digits),
            acc == digits_value(digits.take(k as int)),
            0 <= acc <= LIMIT,
        decreases whole.len() - k,
    {
        let c = whole[k];
        proof {
            assert(digits[k as int] == whole@[k as int]);
            assert(is_digit(digits[k as int]));
            assert(digits.take(k + 1) =~= digits.take(k as int).push(c));
            lemma_digits_value_push(digits.take(k as int), c);
            lemma_digits_value_prefix(digits, k + 1);
        }
        match push_digit(acc, c) {
            Some(next) => {
                acc = next;
            },
            None => {
                return None;
            },
        }
        k += 1;
    }
    let mut m: usize = 0;
    while m < 4
        invariant
            0 <= m <= 4,
            digits == whole@ + kept_fraction(frac@),
            all_digits(digits),
            acc == digits_value(digits.take(whole@.len() + m)),
            0 <= acc <= LIMIT,
        decreases 4 - m,
    {
        let c = if m < frac.len() {
            frac[m]
        } else {
            '0'
        };
        proof {
            let i = whole@.len() + m;
            assert(kept_fraction(frac@)[m as int] == c);
            assert(digits[i] == kept_fraction(frac@)[m as int]);
            assert(is_digit(digits[i]));
            assert(digits.take(i + 1) =~= digits.take(i).push(c));
            lemma_digits_value_push(digits.take(i), c);
            lemma_digits_value_prefix(digits, i + 1);
        }
        match push_digit(acc, c) {
            Some(next) => {
                acc = next;
            },
            None => {
                return None;
            },
        }
        m += 1;
    }
    proof {
        assert(digits.take(whole@.len() as int + 4) =~= digits);
    }
    Some(acc)
}

/// Rounds `value` to `decimals` decimal places, halves away from zero. From
/// four places on the value comes back as it is.
pub fn round(value: Decimal, decimals: u8) -> (r: Decimal)
    ensures
        r@ == round_units(value@, step(decimals)),
{
    proof {
        use_type_invariant(&value);
        reveal_with_fuel(pow10, 5);
    }
    let step: i64 = if decimals == 0 {
        10_000
    } else if decimals == 1 {
        1_000
    } else if decimals == 2 {
        100
    } else if decimals == 3 {
        10
    } else {
        1
    };
    let units = value.units;
    let magnitude = if units < 0 {
        -units
    } else {
        units
    };
    let rounded = ((magnitude + step / 2) / step) * step;
    Decimal {
        units: if units < 0 {
            -rounded
        } else {
            rounded
        },
    }
}

} // verus!
