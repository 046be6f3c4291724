//! Fixed-point money: a signed 64-bit count of ten-thousandths.

use vstd::arithmetic::div_mod::{lemma_fundamental_div_mod, lemma_fundamental_div_mod_converse};
use crate::numeral::{
    all_digits, all_digits_in, all_zeros, all_zeros_in, capped_value, char_to_digit, digit_value,
    digits_value, fixed_digits, is_digit, lemma_digits_value_bound,
    lemma_digits_value_concat, lemma_digits_value_zero, lemma_fixed_digits, lemma_nat_digits,
    lemma_pow10_adds, lemma_pow10_increases, lemma_pow10_positive, lemma_pow10_values,
    nat_digits, pow10, push_fixed, push_nat,
};
use crate::text::chars_of;
use vstd::prelude::*;

verus! {

/// An amount of money with four decimal places, held as the number of
/// ten-thousandths of the unit.
#[derive(Debug, Clone, Copy, PartialEq, Eq, Structural)]
pub struct Money(pub i64);

/// The integer nearest to `value / unit`; where two are equally near,
/// the even one.
pub open spec fn round_half_even(value: int, unit: int) -> int
    recommends
        unit > 0,
{
    let q = value / unit;
    let r = value % unit;
    if 2 * r < unit {
        q
    } else if 2 * r > unit {
        q + 1
    } else if q % 2 == 0 {
        q
    } else {
        q + 1
    }
}

/// `value`, counted in units of `10^-scale`, expressed in ten-thousandths:
/// exact where `scale` is at most four, rounded half to even above that.
pub open spec fn rescale(value: int, scale: nat) -> int {
    if scale <= 4 {
        value * pow10((4 - scale) as nat)
    } else {
        round_half_even(value, pow10((scale - 4) as nat) as int)
    }
}

/// The amount of `minor` ten-thousandths, where 64 bits can hold it.
pub open spec fn money_of(minor: int) -> Option<Money> {
    if i64::MIN <= minor <= i64::MAX {
        Some(Money(minor as i64))
    } else {
        None
    }
}

/// The index of the first `.` in `s`, or the length of `s` where it holds
/// none.
pub open spec fn first_dot(s: Seq<char>) -> int
    decreases s.len(),
{
    if s.len() == 0 || s[0] == '.' {
        0
    } else {
        1 + first_dot(s.skip(1))
    }
}

/// Whether the text `s` starts with a minus sign.
pub open spec fn has_minus(s: Seq<char>) -> bool {
    s.len() > 0 && s[0] == '-'
}

/// The text `s` without its minus sign.
pub open spec fn unsigned_text(s: Seq<char>) -> Seq<char> {
    if has_minus(s) {
        s.skip(1)
    } else {
        s
    }
}

/// What stands before the first `.` of the unsigned text.
pub open spec fn whole_text(s: Seq<char>) -> Seq<char> {
    unsigned_text(s).take(first_dot(unsigned_text(s)))
}

/// What stands after the first `.` of the unsigned text; empty where it
/// holds none.
pub open spec fn fraction_text(s: Seq<char>) -> Seq<char> {
    let body = unsigned_text(s);
    if first_dot(body) < body.len() {
        body.skip(first_dot(body) + 1)
    } else {
        Seq::empty()
    }
}

/// The amount that the text `s` stands for. The text is an optional `-`,
/// one or more digits and, if anything follows, a `.` and any number of
/// digits. Digits beyond the fourth decimal place round half to even.
/// `None` for any other text, such as one that holds whitespace or a
/// second `.`, and for an amount outside 64 bits.
pub open spec fn parse_decimal(s: Seq<char>) -> Option<Money> {
    let whole = whole_text(s);
    let fraction = fraction_text(s);
    if whole.len() == 0 || !all_digits(whole) || !all_digits(fraction) {
        None
    } else {
        let size = digits_value(whole) * pow10(fraction.len()) + digits_value(fraction);
        money_of(
            rescale(
                if has_minus(s) {
                    -(size as int)
                } else {
                    size as int
                },
                fraction.len(),
            ),
        )
    }
}

/// The decimal text of `minor` ten-thousandths: `-` where it is negative,
/// the units without leading zeros, `.`, and four decimal places.
pub open spec fn format_decimal(minor: int) -> Seq<char> {
    let size = if minor < 0 {
        -minor
    } else {
        minor
    };
    let sign = if minor < 0 {
        seq!['-']
    } else {
        Seq::empty()
    };
    sign + nat_digits((size / 10000) as nat) + seq!['.'] + fixed_digits((size % 10000) as nat, 4)
}

/// How many digits of a fraction are kept: at most four.
pub open spec fn kept_len(fraction: Seq<char>) -> nat {
    if fraction.len() > 4 {
        4
    } else {
        fraction.len()
    }
}

/// The ten-thousandths of `whole` units and the kept digits of `fraction`,
/// before rounding.
pub open spec fn truncated_size(whole: nat, fraction: Seq<char>) -> nat {
    whole * 10000 + digits_value(fraction.take(kept_len(fraction) as int)) * pow10(
        (4 - kept_len(fraction)) as nat,
    )
}

/// Whether the digits of `fraction` beyond the fourth round the amount up:
/// they are more than half a ten-thousandth, or exactly half with an odd
/// digit before them.
pub open spec fn rounds_up(whole: nat, fraction: Seq<char>) -> bool {
    &&& fraction.len() > 4
    &&& {
        let d = digit_value(fraction[4]);
        d > 5 || (d == 5 && (!all_zeros(fraction.skip(5)) || truncated_size(whole, fraction) % 2
            == 1))
    }
}

/// The ten-thousandths of `whole` units and `fraction`, rounded.
pub open spec fn rounded_size(whole: nat, fraction: Seq<char>) -> nat {
    if rounds_up(whole, fraction) {
        truncated_size(whole, fraction) + 1
    } else {
        truncated_size(whole, fraction)
    }
}

/// What rounding half to even gives is a nearest integer, at most half a
/// unit away; and where it is exactly half a unit away, it is even.
pub proof fn lemma_round_half_even_nearest(value: int, unit: int)
    requires
        unit > 0,
    ensures
        ({
            let rounded = round_half_even(value, unit);
            &&& -unit <= 2 * (value - rounded * unit) <= unit
            &&& (2 * (value - rounded * unit) == unit || 2 * (value - rounded * unit) == -unit)
                ==> rounded % 2 == 0
        }),
{
    let q = value / unit;
    let r = value % unit;
    lemma_fundamental_div_mod(value, unit);
    vstd::arithmetic::div_mod::lemma_mod_bound(value, unit);
    assert(value - q * unit == r) by (nonlinear_arith)
        requires
            value == unit * q + r,
    ;
    assert(value - (q + 1) * unit == r - unit) by (nonlinear_arith)
        requires
            value == unit * q + r,
    ;
}

/// Rounding half to even is symmetric about zero.
pub proof fn lemma_round_half_even_negated(a: int, unit: int)
    requires
        unit > 0,
    ensures
        round_half_even(-a, unit) == -round_half_even(a, unit),
{
    let q = a / unit;
    let r = a % unit;
    lemma_fundamental_div_mod(a, unit);
    vstd::arithmetic::div_mod::lemma_mod_bound(a, unit);
    assert(a == unit * q + r);
    if r == 0 {
        assert(-a == (-q) * unit + 0) by (nonlinear_arith)
            requires
                a == unit * q + r,
                r == 0,
        ;
        lemma_fundamental_div_mod_converse(-a, unit, -q, 0);
        assert((-q) % 2 == 0 <==> q % 2 == 0);
    } else {
        assert(-a == (-q - 1) * unit + (unit - r)) by (nonlinear_arith)
            requires
                a == unit * q + r,
        ;
        lemma_fundamental_div_mod_converse(-a, unit, -q - 1, unit - r);
        assert((-q - 1) % 2 == 0 <==> q % 2 != 0);
    }
}

/// Below half a unit in size, everything rounds to zero.
pub proof fn lemma_round_half_even_small(value: int, unit: int)
    requires
        unit > 0,
        -unit < 2 * value < unit,
    ensures
        round_half_even(value, unit) == 0,
{
    if value >= 0 {
        lemma_fundamental_div_mod_converse(value, unit, 0, value);
    } else {
        lemma_fundamental_div_mod_converse(value, unit, -1, value + unit);
    }
}

/// What is not negative does not become negative by rescaling.
pub proof fn lemma_rescale_not_negative(value: int, scale: nat)
    requires
        value >= 0,
    ensures
        rescale(value, scale) >= 0,
{
    if scale <= 4 {
        let p = pow10((4 - scale) as nat);
        assert(value * p >= 0) by (nonlinear_arith)
            requires
                value >= 0,
                p >= 0,
        ;
    } else {
        let unit = pow10((scale - 4) as nat) as int;
        lemma_pow10_positive((scale - 4) as nat);
        vstd::arithmetic::div_mod::lemma_div_pos_is_pos(value, unit);
    }
}

/// Rescaling is symmetric about zero.
pub proof fn lemma_rescale_negated(value: int, scale: nat)
    ensures
        rescale(-value, scale) == -rescale(value, scale),
{
    if scale <= 4 {
        let p = pow10((4 - scale) as nat);
        assert((-value) * p == -(value * p)) by (nonlinear_arith);
    } else {
        lemma_pow10_positive((scale - 4) as nat);
        lemma_round_half_even_negated(value, pow10((scale - 4) as nat) as int);
    }
}

/// Where `s[k]` is the first `.` of `s`, or `k` is its length and it holds
/// none, `first_dot` gives `k`.
pub proof fn lemma_first_dot(s: Seq<char>, k: int)
    requires
        0 <= k <= s.len(),
        forall|i: int| 0 <= i < k ==> #[trigger] s[i] != '.',
        k < s.len() ==> s[k] == '.',
    ensures
        first_dot(s) == k,
    decreases k,
{
    if k > 0 {
        let t = s.skip(1);
        assert forall|i: int| 0 <= i < k - 1 implies #[trigger] t[i] != '.' by {
            assert(s[i + 1] != '.');
        }
        lemma_first_dot(t, k - 1);
        assert(s[0] != '.');
    }
}

/// `first_dot` gives an index of `s` or its length, and where it gives an
/// index, a `.` stands there.
pub proof fn lemma_first_dot_bounds(s: Seq<char>)
    ensures
        0 <= first_dot(s) <= s.len(),
        first_dot(s) < s.len() ==> s[first_dot(s)] == '.',
    decreases s.len(),
{
    if s.len() > 0 && s[0] != '.' {
        lemma_first_dot_bounds(s.skip(1));
    }
}

/// No `.` stands before the index that `first_dot` gives.
pub proof fn lemma_first_dot_after(s: Seq<char>, i: int)
    requires
        0 <= i < s.len(),
        s[i] == '.',
    ensures
        first_dot(s) <= i,
    decreases s.len(),
{
    if s[0] != '.' {
        lemma_first_dot_after(s.skip(1), i - 1);
    }
}

/// A text that holds anything but digits, one `.` and a `-` in front
/// stands for no amount: whitespace, letters and signs elsewhere are all
/// refused.
pub proof fn lemma_parse_rejects_other_characters(s: Seq<char>, i: int)
    requires
        0 <= i < s.len(),
        !is_digit(s[i]),
        s[i] != '.',
        !(i == 0 && s[i] == '-'),
    ensures
        parse_decimal(s) is None,
{
    let body = unsigned_text(s);
    let j = if has_minus(s) {
        i - 1
    } else {
        i
    };
    let dot = first_dot(body);
    lemma_first_dot_bounds(body);
    assert(body[j] == s[i]);
    if j < dot {
        assert(whole_text(s)[j] == s[i]);
    } else {
        assert(fraction_text(s)[j - dot - 1] == s[i]);
    }
}

/// A text that holds a `.` in two places stands for no amount.
pub proof fn lemma_parse_rejects_second_point(s: Seq<char>, i: int, j: int)
    requires
        0 <= i < j < s.len(),
        s[i] == '.',
        s[j] == '.',
    ensures
        parse_decimal(s) is None,
{
    let body = unsigned_text(s);
    let shift: int = if has_minus(s) {
        1
    } else {
        0
    };
    let dot = first_dot(body);
    assert(body[i - shift] == '.');
    assert(body[j - shift] == '.');
    lemma_first_dot_after(body, i - shift);
    lemma_first_dot_bounds(body);
    assert(fraction_text(s) == body.skip(dot + 1));
    assert(fraction_text(s)[j - shift - dot - 1] == '.');
}

/// Rescaling a number written as `whole` units and a digit string after
/// the point: the kept digits, and one more where the rest rounds up.
pub proof fn lemma_rescale_digits(whole: nat, fraction: Seq<char>)
    requires
        all_digits(fraction),
    ensures
        rescale(
            (whole * pow10(fraction.len()) + digits_value(fraction)) as int,
            fraction.len(),
        ) == rounded_size(whole, fraction),
        rounded_size(whole, fraction) >= whole * 10000,
{
    let n = fraction.len();
    let f = digits_value(fraction);
    lemma_pow10_values();
    if n <= 4 {
        assert(fraction.take(n as int) == fraction);
        let p = pow10((4 - n) as nat);
        lemma_pow10_adds(n, (4 - n) as nat);
        assert((whole * pow10(n) + f) * p == whole * (pow10(n) * p) + f * p) by (nonlinear_arith);
        assert(f * p >= 0) by (nonlinear_arith)
            requires
                f >= 0,
                p >= 0,
        ;
    } else {
        let kept = fraction.take(4);
        let rest = fraction.skip(4);
        let tail = fraction.skip(5);
        let k = digits_value(kept);
        let r = digits_value(rest);
        let t = digits_value(tail);
        let d = digit_value(fraction[4]);
        let unit = pow10((n - 4) as nat);
        let p = pow10((n - 5) as nat);
        assert(unit == 10 * p);
        lemma_pow10_positive((n - 5) as nat);
        assert(fraction == kept + rest);
        lemma_digits_value_concat(kept, rest);
        assert(all_digits(rest)) by {
            assert forall|i: int| 0 <= i < rest.len() implies is_digit(#[trigger] rest[i]) by {
                assert(is_digit(fraction[i + 4]));
            }
        }
        assert(all_digits(tail)) by {
            assert forall|i: int| 0 <= i < tail.len() implies is_digit(#[trigger] tail[i]) by {
                assert(is_digit(fraction[i + 5]));
            }
        }
        let first = seq![fraction[4]];
        assert(rest == first + tail);
        lemma_digits_value_concat(first, tail);
        assert(digits_value(first) == d) by {
            assert(first.drop_last() == Seq::<char>::empty());
            assert(digits_value(first.drop_last()) == 0);
            assert(first.last() == fraction[4]);
        }
        assert(is_digit(fraction[4]));
        lemma_digits_value_bound(tail);
        lemma_digits_value_zero(tail);
        assert(r == d * p + t);
        lemma_pow10_adds(4, (n - 4) as nat);
        assert(pow10(0) == 1);
        let head = truncated_size(whole, fraction);
        assert(head == whole * 10000 + k) by {
            assert(k * 1 == k);
        }
        let value = (whole * pow10(n) + f) as int;
        assert(r < unit) by (nonlinear_arith)
            requires
                r == d * p + t,
                t < p,
                d <= 9,
                unit == 10 * p,
        ;
        assert(value == head * unit + r) by (nonlinear_arith)
            requires
                value == whole * pow10(n) + f,
                pow10(n) == 10000 * unit,
                f == k * unit + r,
                head == whole * 10000 + k,
        ;
        lemma_fundamental_div_mod_converse(value, unit as int, head as int, r as int);
        if d <= 4 {
            assert(2 * r < unit) by (nonlinear_arith)
                requires
                    r == d * p + t,
                    t < p,
                    d <= 4,
                    unit == 10 * p,
            ;
        } else if d >= 6 {
            assert(2 * r > unit) by (nonlinear_arith)
                requires
                    r == d * p + t,
                    t >= 0,
                    p >= 1,
                    d >= 6,
                    unit == 10 * p,
            ;
        } else {
            assert(2 * r == unit + 2 * t) by (nonlinear_arith)
                requires
                    r == d * p + t,
                    d == 5,
                    unit == 10 * p,
            ;
        }
    }
}

/// Reading back the text of an amount gives the amount: for every amount
/// `a`, `parse_decimal(format_decimal(a)) == a`.
pub proof fn lemma_parse_format_round_trip(amount: Money)
    ensures
        parse_decimal(format_decimal(amount.0 as int)) == Some(amount),
{
    let minor = amount.0 as int;
    let size = if minor < 0 {
        -minor
    } else {
        minor
    };
    let units = (size / 10000) as nat;
    let part = (size % 10000) as nat;
    let w = nat_digits(units);
    let f = fixed_digits(part, 4);
    let body = w + seq!['.'] + f;
    let text = format_decimal(minor);
    lemma_nat_digits(units);
    lemma_fixed_digits(part, 4);
    lemma_pow10_values();
    assert(is_digit(w[0]));
    if minor < 0 {
        assert(text == seq!['-'] + w + seq!['.'] + f);
        assert(text[0] == '-');
        assert(text.skip(1) == body);
    } else {
        assert(text == Seq::<char>::empty() + w + seq!['.'] + f);
        assert(text == body);
        assert(text[0] == w[0]);
    }
    assert(unsigned_text(text) == body);
    assert forall|i: int| 0 <= i < w.len() implies #[trigger] body[i] != '.' by {
        assert(is_digit(w[i]));
    }
    assert(body[w.len() as int] == '.');
    lemma_first_dot(body, w.len() as int);
    assert(whole_text(text) == w) by {
        assert(body.take(w.len() as int) == w);
    }
    assert(fraction_text(text) == f) by {
        assert(body.skip(w.len() as int + 1) == f);
    }
    lemma_fundamental_div_mod(size, 10000);
    assert(pow10(0) == 1);
    assert(has_minus(text) == (minor < 0));
    assert(digits_value(w) == units);
    assert(digits_value(f) == part);
    assert(f.len() == 4);
    let parsed = units * pow10(4) + part;
    assert(parsed == size);
    let signed = if minor < 0 {
        -(parsed as int)
    } else {
        parsed as int
    };
    assert(signed == minor);
    assert(rescale(signed, 4) == minor) by {
        assert(minor * 1 == minor);
    }
    assert(money_of(minor) == Some(amount));
}

/// The size of `v`, which 128 unsigned bits always hold.
fn magnitude(v: i128) -> (m: u128)
    ensures
        m == if v < 0 {
            -(v as int)
        } else {
            v as int
        },
{
    if v >= 0 {
        v as u128
    } else if v == i128::MIN {
        170141183460469231731687303715884105728u128
    } else {
        (-v) as u128
    }
}

/// Ten to the power `n`, for the powers that 128 bits hold.
fn pow10_u128(n: u32) -> (p: u128)
    requires
        n <= 38,
    ensures
        p == pow10(n as nat),
{
    let mut p: u128 = 1;
    let mut i: u32 = 0;
    while i < n
        invariant
            i <= n <= 38,
            p == pow10(i as nat),
        decreases n - i,
    {
        proof {
            lemma_pow10_increases((i + 1) as nat, 38);
            lemma_pow10_values();
        }
        p = p * 10;
        i = i + 1;
    }
    p
}

impl Money {
    /// Ten-thousandths in one unit.
    pub const SCALE: i64 = 10_000;

    /// Decimal places that an amount keeps.
    pub const TARGET_DECIMALS: u32 = 4;

    /// The amount of nothing.
    pub fn zero() -> (m: Self)
        ensures
            m == Money(0),
    {
        Money(0)
    }

    /// The amount in ten-thousandths.
    pub fn as_minor(&self) -> (minor: i64)
        ensures
            minor == self.0,
    {
        self.0
    }

    /// Converts `value`, counted in units of `10^-scale`, to an amount:
    /// multiplied up where `scale` is at most four, rounded half to even
    /// where it is more. `None` where the result is outside 64 bits.
    pub fn from_scaled_i128(value: i128, scale: u32) -> (result: Option<Self>)
        ensures
            result == money_of(rescale(value as int, scale as nat)),
    {
        if scale <= 4 {
            scale_up(value, 4 - scale)
        } else {
            scale_down(value, scale - 4)
        }
    }

    /// The sum of two amounts, or `None` where 64 bits cannot hold it.
    pub fn checked_add(self, other: Money) -> (sum: Option<Money>)
        ensures
            sum == money_of(self.0 + other.0),
    {
        match self.0.checked_add(other.0) {
            Some(minor) => Some(Money(minor)),
            None => None,
        }
    }

    /// The difference of two amounts, or `None` where 64 bits cannot hold
    /// it.
    pub fn checked_sub(self, other: Money) -> (difference: Option<Money>)
        ensures
            difference == money_of(self.0 - other.0),
    {
        match self.0.checked_sub(other.0) {
            Some(minor) => Some(Money(minor)),
            None => None,
        }
    }

    /// Whether this amount is smaller than `other`.
    pub fn less_than(self, other: Money) -> (smaller: bool)
        ensures
            smaller == (self.0 < other.0),
    {
        self.0 < other.0
    }

    /// The decimal text of the amount, always with four decimal places:
    /// see [`format_decimal`].
    pub fn format(&self) -> (text: String)
        ensures
            text@ == format_decimal(self.0 as int),
            parse_decimal(text@) == Some(*self),
    {
        proof {
            lemma_parse_format_round_trip(*self);
        }
        let mut text = String::new();
        let size: u64 = if self.0 >= 0 {
            self.0 as u64
        } else if self.0 == i64::MIN {
            9223372036854775808u64
        } else {
            (-self.0) as u64
        };
        if self.0 < 0 {
            text.push('-');
        }
        push_nat(&mut text, size / 10000);
        text.push('.');
        push_fixed(&mut text, size % 10000, 4);
        assert(text@ == format_decimal(self.0 as int));
        text
    }

    /// Reads an amount from decimal text: see [`parse_decimal`].
    pub fn from_decimal_str(s: &str) -> (result: Option<Self>)
        ensures
            result == parse_decimal(s@),
    {
        let chars = chars_of(s);
        let parts = locate_parts(&chars);
        if parts.dot == parts.body_start {
            return None;
        }
        if !all_digits_in(&chars, parts.body_start, parts.dot) {
            return None;
        }
        if !all_digits_in(&chars, parts.frac_start, parts.end) {
            return None;
        }
        let ghost units = digits_value(whole_text(s@));
        let ghost fraction = fraction_text(s@);
        let ghost size = units * pow10(fraction.len()) + digits_value(fraction);
        proof {
            lemma_rescale_digits(units, fraction);
            lemma_rescale_negated(size as int, fraction.len());
        }
        match rounded_magnitude(&chars, parts.body_start, parts.dot, parts.frac_start, parts.end) {
            None => None,
            Some(rounded) => signed_amount(parts.negative, rounded),
        }
    }
}

/// `value` times ten to the power `places`, as an amount.
fn scale_up(value: i128, places: u32) -> (result: Option<Money>)
    requires
        places <= 4,
    ensures
        result == money_of(value * pow10(places as nat)),
{
    let factor: i128 = pow10_u128(places) as i128;
    proof {
        lemma_pow10_values();
        lemma_pow10_increases(places as nat, 4);
    }
    match value.checked_mul(factor) {
        None => None,
        Some(widened) => {
            if widened < i64::MIN as i128 || widened > i64::MAX as i128 {
                None
            } else {
                Some(Money(widened as i64))
            }
        },
    }
}

/// `size` divided by `factor`, rounded half to even.
fn rounded_quotient(size: u128, factor: u128) -> (rounded: u128)
    requires
        factor >= 2,
        factor % 2 == 0,
        size <= 0x8000_0000_0000_0000_0000_0000_0000_0000,
    ensures
        rounded == round_half_even(size as int, factor as int),
{
    let q: u128 = size / factor;
    let r: u128 = size % factor;
    let half: u128 = factor / 2;
    assert(q <= size) by (nonlinear_arith)
        requires
            q == size / factor,
            factor >= 2,
            size >= 0,
    ;
    if r > half || (r == half && q % 2 == 1) {
        q + 1
    } else {
        q
    }
}

/// `value` divided by ten to the power `places`, rounded half to even, as
/// an amount.
fn scale_down(value: i128, places: u32) -> (result: Option<Money>)
    requires
        places >= 1,
    ensures
        result == money_of(round_half_even(value as int, pow10(places as nat) as int)),
{
    if places >= 39 {
        proof {
            lemma_pow10_values();
            lemma_pow10_increases(39, places as nat);
            lemma_round_half_even_small(value as int, pow10(places as nat) as int);
        }
        return Some(Money(0));
    }
    let factor: u128 = pow10_u128(places);
    let size: u128 = magnitude(value);
    proof {
        lemma_pow10_positive((places - 1) as nat);
        assert(pow10(places as nat) == 10 * pow10((places - 1) as nat));
        lemma_round_half_even_negated(size as int, factor as int);
    }
    let rounded: u128 = rounded_quotient(size, factor);
    signed_amount(value < 0, rounded)
}

/// Where the parts of a decimal text lie among its characters.
struct Parts {
    negative: bool,
    body_start: usize,
    dot: usize,
    frac_start: usize,
    end: usize,
}

/// Finds the sign, the digits before the point and those after it.
fn locate_parts(chars: &Vec<char>) -> (parts: Parts)
    ensures
        parts.body_start <= parts.dot <= parts.frac_start <= parts.end <= chars.len(),
        parts.negative == has_minus(chars@),
        chars@.subrange(parts.body_start as int, parts.dot as int) == whole_text(chars@),
        chars@.subrange(parts.frac_start as int, parts.end as int) == fraction_text(chars@),
{
    let end: usize = chars.len();
    let negative = end > 0 && chars[0] == '-';
    let body_start: usize = if negative {
        1
    } else {
        0
    };
    let ghost body = chars@.subrange(body_start as int, end as int);
    assert(body == unsigned_text(chars@));
    let mut dot: usize = body_start;
    while dot < end && chars[dot] != '.'
        invariant
            body_start <= dot <= end <= chars.len(),
            forall|i: int| body_start <= i < dot ==> #[trigger] chars@[i] != '.',
        decreases end - dot,
    {
        dot = dot + 1;
    }
    proof {
        lemma_first_dot(body, dot - body_start);
    }
    let frac_start: usize = if dot < end {
        dot + 1
    } else {
        end
    };
    assert(chars@.subrange(body_start as int, dot as int) == body.take(dot - body_start));
    assert(chars@.subrange(frac_start as int, end as int) == if dot - body_start < body.len() {
        body.skip(dot - body_start + 1)
    } else {
        Seq::<char>::empty()
    });
    Parts { negative, body_start, dot, frac_start, end }
}

/// The rounded number of ten-thousandths that the digits before and after
/// the point stand for, or `None` where it is beyond any amount.
fn rounded_magnitude(
    chars: &Vec<char>,
    body_start: usize,
    dot: usize,
    frac_start: usize,
    end: usize,
) -> (result: Option<u128>)
    requires
        body_start <= dot <= frac_start <= end <= chars.len(),
        all_digits(chars@.subrange(body_start as int, dot as int)),
        all_digits(chars@.subrange(frac_start as int, end as int)),
    ensures
        ({
            let size = rounded_size(
                digits_value(chars@.subrange(body_start as int, dot as int)),
                chars@.subrange(frac_start as int, end as int),
            );
            match result {
                Some(rounded) => rounded == size,
                None => size > 9223372036854775808,
            }
        }),
{
    let ghost units = digits_value(chars@.subrange(body_start as int, dot as int));
    let ghost fraction = chars@.subrange(frac_start as int, end as int);
    let limit: u128 = 1_000_000_000_000_000;
    let units_capped: u128 = capped_value(chars, body_start, dot, limit);
    if units_capped >= limit {
        return None;
    }
    let head: u128 = units_capped * 10000 + kept_fraction(chars, frac_start, end);
    let up: bool = if end - frac_start > 4 {
        assert(is_digit(fraction[4]));
        assert(fraction[4] == chars@[frac_start + 4]);
        assert(fraction.skip(5) == chars@.subrange(frac_start + 5, end as int));
        let d: u8 = char_to_digit(chars[frac_start + 4]);
        let exact: bool = all_zeros_in(chars, frac_start + 5, end);
        d > 5 || (d == 5 && (!exact || head % 2 == 1))
    } else {
        false
    };
    if up {
        Some(head + 1)
    } else {
        Some(head)
    }
}

/// The first four digits after the point as ten-thousandths, with zeros
/// for those that are missing.
fn kept_fraction(chars: &Vec<char>, frac_start: usize, end: usize) -> (kept: u128)
    requires
        frac_start <= end <= chars.len(),
        all_digits(chars@.subrange(frac_start as int, end as int)),
    ensures
        kept < 10000,
        ({
            let fraction = chars@.subrange(frac_start as int, end as int);
            kept == digits_value(fraction.take(kept_len(fraction) as int)) * pow10(
                (4 - kept_len(fraction)) as nat,
            )
        }),
{
    let ghost fraction = chars@.subrange(frac_start as int, end as int);
    let kept_end: usize = if end - frac_start > 4 {
        frac_start + 4
    } else {
        end
    };
    let ghost kept = chars@.subrange(frac_start as int, kept_end as int);
    assert(kept == fraction.take(kept_len(fraction) as int));
    proof {
        assert(all_digits(kept)) by {
            assert forall|i: int| 0 <= i < kept.len() implies is_digit(#[trigger] kept[i]) by {
                assert(is_digit(fraction[i]));
            }
        }
        lemma_digits_value_bound(kept);
        lemma_pow10_values();
        lemma_pow10_increases(kept.len(), 4);
        lemma_pow10_increases((4 - kept.len()) as nat, 4);
        lemma_pow10_adds(kept.len(), (4 - kept.len()) as nat);
    }
    let kept_value: u128 = capped_value(chars, frac_start, kept_end, 10000);
    let pad: u128 = pow10_u128((4 - (kept_end - frac_start)) as u32);
    assert(kept_value * pad < 10000) by (nonlinear_arith)
        requires
            kept_value < pow10(kept.len()),
            pad == pow10((4 - kept.len()) as nat),
            pow10(kept.len()) * pow10((4 - kept.len()) as nat) == 10000,
            pad > 0,
    ;
    kept_value * pad
}

/// The amount of `size` ten-thousandths with the given sign.
fn signed_amount(negative: bool, size: u128) -> (result: Option<Money>)
    ensures
        result == money_of(
            if negative {
                -(size as int)
            } else {
                size as int
            },
        ),
{
    if negative {
        if size > 9223372036854775808u128 {
            None
        } else if size == 9223372036854775808u128 {
            Some(Money(i64::MIN))
        } else {
            Some(Money(-(size as i64)))
        }
    } else {
        if size > i64::MAX as u128 {
            None
        } else {
            Some(Money(size as i64))
        }
    }
}

} // verus!
