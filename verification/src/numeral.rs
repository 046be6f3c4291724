//! Decimal numerals: the digits of a number and the number of a string of
//! digits, with the facts that parsing and formatting rest on.

use vstd::prelude::*;

verus! {

/// Ten to the power `n`.
pub open spec fn pow10(n: nat) -> nat
    decreases n,
{
    if n == 0 {
        1
    } else {
        10 * pow10((n - 1) as nat)
    }
}

/// A power of ten is at least one.
pub proof fn lemma_pow10_positive(n: nat)
    ensures
        pow10(n) >= 1,
    decreases n,
{
    if n > 0 {
        lemma_pow10_positive((n - 1) as nat);
    }
}

/// A larger exponent gives a power of ten that is no smaller.
pub proof fn lemma_pow10_increases(a: nat, b: nat)
    requires
        a <= b,
    ensures
        pow10(a) <= pow10(b),
    decreases b,
{
    if a < b {
        lemma_pow10_increases(a, (b - 1) as nat);
    }
}

/// The power of a sum is the product of the powers.
pub proof fn lemma_pow10_adds(a: nat, b: nat)
    ensures
        pow10(a + b) == pow10(a) * pow10(b),
    decreases a,
{
    if a == 0 {
        assert(pow10(0) == 1);
        assert(pow10(0) * pow10(b) == pow10(b));
    } else {
        lemma_pow10_adds((a - 1) as nat, b);
        assert(pow10(a + b) == 10 * pow10((a - 1 + b) as nat));
        assert(10 * (pow10((a - 1) as nat) * pow10(b)) == (10 * pow10((a - 1) as nat)) * pow10(b))
            by (nonlinear_arith);
    }
}

/// The powers of ten that the conversions meet at their limits.
pub proof fn lemma_pow10_values()
    ensures
        pow10(0) == 1,
        pow10(1) == 10,
        pow10(2) == 100,
        pow10(3) == 1000,
        pow10(4) == 10000,
        pow10(38) == 100000000000000000000000000000000000000,
        pow10(39) == 1000000000000000000000000000000000000000,
{
    reveal_with_fuel(pow10, 5);
    assert(pow10(4) == 10000);
    assert(pow10(8) == 100000000) by {
        lemma_pow10_adds(4, 4);
    }
    assert(pow10(16) == 10000000000000000) by {
        lemma_pow10_adds(8, 8);
    }
    assert(pow10(32) == 100000000000000000000000000000000) by {
        lemma_pow10_adds(16, 16);
    }
    assert(pow10(2) == 100);
    assert(pow10(34) == 10000000000000000000000000000000000) by {
        lemma_pow10_adds(32, 2);
    }
    assert(pow10(38) == 100000000000000000000000000000000000000) by {
        lemma_pow10_adds(34, 4);
    }
    assert(pow10(39) == 10 * pow10(38));
}

/// Whether `c` is one of the ten ASCII decimal digits.
pub open spec fn is_digit(c: char) -> bool {
    '0' <= c <= '9'
}

/// The number that the digit `c` stands for.
pub open spec fn digit_value(c: char) -> nat
    recommends
        is_digit(c),
{
    (c as int - '0' as int) as nat
}

/// The digit that stands for `d`, for `d` below ten.
pub open spec fn digit_char(d: nat) -> char
    recommends
        d < 10,
{
    if d == 0 {
        '0'
    } else if d == 1 {
        '1'
    } else if d == 2 {
        '2'
    } else if d == 3 {
        '3'
    } else if d == 4 {
        '4'
    } else if d == 5 {
        '5'
    } else if d == 6 {
        '6'
    } else if d == 7 {
        '7'
    } else if d == 8 {
        '8'
    } else {
        '9'
    }
}

/// Whether `s` holds decimal digits and nothing else.
pub open spec fn all_digits(s: Seq<char>) -> bool {
    forall|i: int| 0 <= i < s.len() ==> is_digit(#[trigger] s[i])
}

/// Whether every character of `s` is the digit zero.
pub open spec fn all_zeros(s: Seq<char>) -> bool {
    forall|i: int| 0 <= i < s.len() ==> #[trigger] s[i] == '0'
}

/// The number that the digit string `s` stands for, read in base ten with
/// the most significant digit first; the empty string stands for zero.
pub open spec fn digits_value(s: Seq<char>) -> nat
    decreases s.len(),
{
    if s.len() == 0 {
        0
    } else {
        10 * digits_value(s.drop_last()) + digit_value(s.last())
    }
}

/// The decimal numeral of `n`, without leading zeros (`0` is "0").
pub open spec fn nat_digits(n: nat) -> Seq<char>
    decreases n,
{
    if n < 10 {
        seq![digit_char(n)]
    } else {
        nat_digits(n / 10).push(digit_char(n % 10))
    }
}

/// The last `width` digits of `n`, most significant first, with leading
/// zeros where `n` is short.
pub open spec fn fixed_digits(n: nat, width: nat) -> Seq<char>
    decreases width,
{
    if width == 0 {
        Seq::empty()
    } else {
        fixed_digits(n / 10, (width - 1) as nat).push(digit_char(n % 10))
    }
}

/// The digit of a number below ten is a digit, stands for that number,
/// and is neither a point nor a minus sign.
pub proof fn lemma_digit_char(d: nat)
    requires
        d < 10,
    ensures
        is_digit(digit_char(d)),
        digit_value(digit_char(d)) == d,
        digit_char(d) != '.',
        digit_char(d) != '-',
{
}

/// A numeral is a string of at least one digit, and stands for its
/// number.
pub proof fn lemma_nat_digits(n: nat)
    ensures
        nat_digits(n).len() > 0,
        all_digits(nat_digits(n)),
        digits_value(nat_digits(n)) == n,
    decreases n,
{
    lemma_digit_char(n % 10);
    if n < 10 {
        let s = nat_digits(n);
        assert(s.drop_last() == Seq::<char>::empty());
        assert(digits_value(s.drop_last()) == 0);
    } else {
        lemma_nat_digits(n / 10);
        let s = nat_digits(n);
        assert(s.drop_last() == nat_digits(n / 10));
    }
}

/// A numeral of fixed width has that width, holds digits only, and stands
/// for its number up to a multiple of ten to the power of the width.
pub proof fn lemma_fixed_digits(n: nat, width: nat)
    ensures
        fixed_digits(n, width).len() == width,
        all_digits(fixed_digits(n, width)),
        digits_value(fixed_digits(n, width)) == n % pow10(width),
    decreases width,
{
    if width == 0 {
        assert(pow10(0) == 1);
    } else {
        lemma_digit_char(n % 10);
        lemma_fixed_digits(n / 10, (width - 1) as nat);
        let s = fixed_digits(n, width);
        assert(s.drop_last() == fixed_digits(n / 10, (width - 1) as nat));
        let p = pow10((width - 1) as nat);
        lemma_pow10_positive((width - 1) as nat);
        assert(pow10(width) == 10 * p);
        // n % (10 p) == 10 * ((n / 10) % p) + n % 10
        let a = (n / 10) as int;
        let q = a / (p as int);
        let r = a % (p as int);
        vstd::arithmetic::div_mod::lemma_fundamental_div_mod(a, p as int);
        vstd::arithmetic::div_mod::lemma_mod_bound(a, p as int);
        assert(n == q * (10 * p) + (10 * r + n % 10)) by (nonlinear_arith)
            requires
                a == p * q + r,
                n == 10 * a + n % 10,
        ;
        vstd::arithmetic::div_mod::lemma_fundamental_div_mod_converse(
            n as int,
            (10 * p) as int,
            q,
            10 * r + (n % 10) as int,
        );
    }
}

/// A string of digits stands for a number below ten to the power of its
/// length.
pub proof fn lemma_digits_value_bound(s: Seq<char>)
    requires
        all_digits(s),
    ensures
        digits_value(s) < pow10(s.len()),
    decreases s.len(),
{
    if s.len() == 0 {
        assert(pow10(0) == 1);
    } else {
        lemma_digits_value_bound(s.drop_last());
        assert(is_digit(s.last()));
        assert(pow10(s.len()) == 10 * pow10((s.len() - 1) as nat));
    }
}

/// The number of two digit strings written one after the other.
pub proof fn lemma_digits_value_concat(a: Seq<char>, b: Seq<char>)
    ensures
        digits_value(a + b) == digits_value(a) * pow10(b.len()) + digits_value(b),
    decreases b.len(),
{
    if b.len() == 0 {
        assert(a + b == a);
        assert(pow10(0) == 1);
    } else {
        lemma_digits_value_concat(a, b.drop_last());
        assert((a + b).drop_last() == a + b.drop_last());
        assert((a + b).last() == b.last());
        let p = pow10((b.len() - 1) as nat);
        assert(pow10(b.len()) == 10 * p);
        assert(10 * (digits_value(a) * p + digits_value(b.drop_last())) + digit_value(b.last())
            == digits_value(a) * (10 * p) + (10 * digits_value(b.drop_last()) + digit_value(
            b.last(),
        ))) by (nonlinear_arith);
    }
}

/// A string of digits stands for zero exactly when all of them are zero.
pub proof fn lemma_digits_value_zero(s: Seq<char>)
    requires
        all_digits(s),
    ensures
        digits_value(s) == 0 <==> all_zeros(s),
    decreases s.len(),
{
    if s.len() > 0 {
        lemma_digits_value_zero(s.drop_last());
        assert(is_digit(s.last()));
        if all_zeros(s) {
            assert(s.last() == '0');
            assert forall|i: int| 0 <= i < s.drop_last().len() implies #[trigger] s.drop_last()[i]
                == '0' by {
                assert(s[i] == '0');
            }
        }
        if digits_value(s) == 0 {
            assert forall|i: int| 0 <= i < s.len() implies #[trigger] s[i] == '0' by {
                if i < s.len() - 1 {
                    assert(s.drop_last()[i] == '0');
                }
            }
        }
    }
}

/// The digit that stands for `d`.
pub(crate) fn digit_to_char(d: u8) -> (c: char)
    requires
        d < 10,
    ensures
        c == digit_char(d as nat),
{
    if d == 0 {
        '0'
    } else if d == 1 {
        '1'
    } else if d == 2 {
        '2'
    } else if d == 3 {
        '3'
    } else if d == 4 {
        '4'
    } else if d == 5 {
        '5'
    } else if d == 6 {
        '6'
    } else if d == 7 {
        '7'
    } else if d == 8 {
        '8'
    } else {
        '9'
    }
}

/// Whether `c` is a decimal digit.
pub(crate) fn is_decimal_digit(c: char) -> (b: bool)
    ensures
        b == is_digit(c),
{
    '0' <= c && c <= '9'
}

/// The number that the digit `c` stands for.
pub(crate) fn char_to_digit(c: char) -> (d: u8)
    requires
        is_digit(c),
    ensures
        d == digit_value(c),
        d < 10,
{
    (c as u32 - '0' as u32) as u8
}

/// Appends the decimal numeral of `n` to `out`.
pub(crate) fn push_nat(out: &mut String, n: u64)
    ensures
        final(out)@ == old(out)@ + nat_digits(n as nat),
    decreases n,
{
    if n >= 10 {
        push_nat(out, n / 10);
    }
    out.push(digit_to_char((n % 10) as u8));
}

/// Appends the last `width` digits of `n` to `out`, with leading zeros.
pub(crate) fn push_fixed(out: &mut String, n: u64, width: u32)
    ensures
        final(out)@ == old(out)@ + fixed_digits(n as nat, width as nat),
    decreases width,
{
    if width > 0 {
        push_fixed(out, n / 10, width - 1);
        out.push(digit_to_char((n % 10) as u8));
    }
}

/// Whether `v` holds only digits from `from` up to `to`.
pub(crate) fn all_digits_in(v: &Vec<char>, from: usize, to: usize) -> (b: bool)
    requires
        from <= to <= v.len(),
    ensures
        b == all_digits(v@.subrange(from as int, to as int)),
{
    let mut k: usize = from;
    while k < to
        invariant
            from <= k <= to <= v.len(),
            forall|i: int| from <= i < k ==> is_digit(#[trigger] v@[i]),
        decreases to - k,
    {
        if !is_decimal_digit(v[k]) {
            assert(!is_digit(v@.subrange(from as int, to as int)[k - from]));
            return false;
        }
        k = k + 1;
    }
    true
}

/// Whether `v` holds only the digit zero from `from` up to `to`.
pub(crate) fn all_zeros_in(v: &Vec<char>, from: usize, to: usize) -> (b: bool)
    requires
        from <= to <= v.len(),
    ensures
        b == all_zeros(v@.subrange(from as int, to as int)),
{
    let mut k: usize = from;
    while k < to
        invariant
            from <= k <= to <= v.len(),
            forall|i: int| from <= i < k ==> #[trigger] v@[i] == '0',
        decreases to - k,
    {
        if v[k] != '0' {
            assert(v@.subrange(from as int, to as int)[k - from] != '0');
            return false;
        }
        k = k + 1;
    }
    true
}

/// The number that the digits of `v` from `from` up to `to` stand for, or
/// `cap` where that number is `cap` or more.
pub(crate) fn capped_value(v: &Vec<char>, from: usize, to: usize, cap: u128) -> (r: u128)
    requires
        from <= to <= v.len(),
        all_digits(v@.subrange(from as int, to as int)),
        cap <= 0x0fff_ffff_ffff_ffff_ffff_ffff_ffff_ffff,
    ensures
        r == if digits_value(v@.subrange(from as int, to as int)) < cap {
            digits_value(v@.subrange(from as int, to as int))
        } else {
            cap as nat
        },
{
    let mut r: u128 = 0;
    let mut k: usize = from;
    assert(v@.subrange(from as int, from as int) == Seq::<char>::empty());
    if cap == 0 {
        return 0;
    }
    while k < to
        invariant
            from <= k <= to <= v.len(),
            all_digits(v@.subrange(from as int, to as int)),
            0 < cap <= 0x0fff_ffff_ffff_ffff_ffff_ffff_ffff_ffff,
            r == if digits_value(v@.subrange(from as int, k as int)) < cap {
                digits_value(v@.subrange(from as int, k as int))
            } else {
                cap as nat
            },
        decreases to - k,
    {
        assert(is_digit(v@.subrange(from as int, to as int)[k - from]));
        let d: u128 = char_to_digit(v[k]) as u128;
        assert(v@.subrange(from as int, k + 1).drop_last() == v@.subrange(from as int, k as int));
        assert(v@.subrange(from as int, k + 1).last() == v@[k as int]);
        let next: u128 = r * 10 + d;
        r = if next < cap {
            next
        } else {
            cap
        };
        k = k + 1;
    }
    r
}

} // verus!
