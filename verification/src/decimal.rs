//! Unsigned decimal numbers as sequences of ASCII digits.

use vstd::prelude::*;
use vstd::arithmetic::div_mod::{lemma_div_denominator, lemma_hoist_over_denominator};

verus! {

/// The ASCII digits `0` to `9`.
pub open spec fn is_digit(c: char) -> bool {
    0x30 <= c as u32 <= 0x39
}

/// The number that the digit `c` stands for.
pub open spec fn digit_value(c: char) -> nat
    recommends
        is_digit(c),
{
    (c as u32 - 0x30) as nat
}

/// Every character of `s` is a digit.
pub open spec fn all_digits(s: Seq<char>) -> bool {
    forall|i: int| 0 <= i < s.len() ==> is_digit(#[trigger] s[i])
}

/// The number that the digits of `s` write in base ten; 0 for no digits.
pub open spec fn decimal_value(s: Seq<char>) -> nat
    recommends
        all_digits(s),
    decreases s.len(),
{
    if s.len() == 0 {
        0
    } else {
        decimal_value(s.drop_last()) * 10 + digit_value(s.last())
    }
}

/// Ten to the power `n`.
pub open spec fn pow10(n: nat) -> nat
    decreases n,
{
    if n == 0 {
        1
    } else {
        10 * pow10((n - 1) as nat)
    }
}

/// Whether `c` is an ASCII digit.
pub fn char_is_digit(c: char) -> (b: bool)
    ensures
        b == is_digit(c),
{
    let n: u32 = c as u32;
    0x30 <= n && n <= 0x39
}

/// The number that the digit `c` stands for.
pub fn digit_of(c: char) -> (d: u8)
    requires
        is_digit(c),
    ensures
        d == digit_value(c),
        d <= 9,
{
    let n: u32 = c as u32;
    (n - 0x30) as u8
}

/// A number written with `n` digits is below ten to the `n`.
pub proof fn lemma_decimal_value_bound(s: Seq<char>)
    requires
        all_digits(s),
    ensures
        decimal_value(s) < pow10(s.len()),
    decreases s.len(),
{
    if s.len() > 0 {
        let r = s.drop_last();
        assert(all_digits(r)) by {
            assert(forall|i: int| 0 <= i < r.len() ==> r[i] == s[i]);
        }
        lemma_decimal_value_bound(r);
        assert(is_digit(s[s.len() - 1]));
    }
}

/// A digit written in front of `s` counts ten to the length of `s` times.
pub proof fn lemma_decimal_value_leading_digit(c: char, s: Seq<char>)
    ensures
        decimal_value(seq![c] + s) == digit_value(c) * pow10(s.len()) + decimal_value(s),
    decreases s.len(),
{
    let whole = seq![c] + s;
    assert(whole.len() == s.len() + 1);
    if s.len() == 0 {
        assert(whole.drop_last() == Seq::<char>::empty());
        assert(whole.last() == c);
        assert(decimal_value(whole.drop_last()) == 0);
        assert(pow10(0) == 1);
    } else {
        lemma_decimal_value_leading_digit(c, s.drop_last());
        assert(whole.drop_last() == seq![c] + s.drop_last());
        assert(whole.last() == s.last());
        let d = digit_value(c) as int;
        let p = pow10((s.len() - 1) as nat) as int;
        let r = decimal_value(s.drop_last()) as int;
        assert(pow10(s.len()) == 10 * p);
        assert(decimal_value(whole) == (d * p + r) * 10 + digit_value(s.last()));
        assert((d * p + r) * 10 == d * (10 * p) + r * 10) by (nonlinear_arith);
    }
}

/// The number written by the digits of `v` from `from` up to `to`, or
/// 2^64 where it is that large or larger.
pub(crate) fn decimal_capped(v: &Vec<char>, from: usize, to: usize) -> (r: u128)
    requires
        from <= to <= v.len(),
        all_digits(v@.subrange(from as int, to as int)),
    ensures
        r == if decimal_value(v@.subrange(from as int, to as int)) <= u64::MAX {
            decimal_value(v@.subrange(from as int, to as int))
        } else {
            0x1_0000_0000_0000_0000
        },
{
    let cap: u128 = 0x1_0000_0000_0000_0000;
    let mut acc: u128 = 0;
    let mut i: usize = from;
    let ghost digits = v@.subrange(from as int, to as int);
    assert(digits.take(0) == Seq::<char>::empty());
    while i < to
        invariant
            from <= i <= to <= v.len(),
            digits == v@.subrange(from as int, to as int),
            all_digits(digits),
            cap == 0x1_0000_0000_0000_0000,
            acc == if decimal_value(digits.take(i - from)) < cap {
                decimal_value(digits.take(i - from))
            } else {
                cap as nat
            },
        decreases to - i,
    {
        let c = v[i];
        assert(c == digits[i - from]);
        let d = digit_of(c);
        assert(digits.take(i - from + 1).drop_last() == digits.take(i - from));
        assert(digits.take(i - from + 1).last() == c);
        let next: u128 = acc * 10 + d as u128;
        acc = if next < cap {
            next
        } else {
            cap
        };
        i += 1;
    }
    assert(digits.take(to - from) == digits);
    acc
}

/// What `u64`'s `FromStr` reads from `s`: an optional `+`, then at least
/// one digit and nothing else, writing a number that fits in 64 bits.
pub open spec fn parsed_u64(s: Seq<char>) -> Option<u64> {
    let digits = if s.len() > 0 && s[0] == '+' {
        s.drop_first()
    } else {
        s
    };
    if digits.len() > 0 && all_digits(digits) && decimal_value(digits) <= u64::MAX {
        Some(decimal_value(digits) as u64)
    } else {
        None
    }
}

/// Whether every character of `v` from `from` up to `to` is a digit.
pub(crate) fn digits_only(v: &Vec<char>, from: usize, to: usize) -> (b: bool)
    requires
        from <= to <= v.len(),
    ensures
        b == all_digits(v@.subrange(from as int, to as int)),
{
    let mut i: usize = from;
    let ghost part = v@.subrange(from as int, to as int);
    while i < to
        invariant
            from <= i <= to <= v.len(),
            part == v@.subrange(from as int, to as int),
            forall|k: int| 0 <= k < i - from ==> is_digit(#[trigger] part[k]),
        decreases to - i,
    {
        if !char_is_digit(v[i]) {
            assert(!is_digit(part[i - from]));
            return false;
        }
        i += 1;
    }
    true
}

/// Reads `v` as an unsigned 64-bit number in base ten.
pub fn parse_u64(v: &Vec<char>) -> (r: Option<u64>)
    ensures
        r == parsed_u64(v@),
{
    let n = v.len();
    let from: usize = if n > 0 && v[0] == '+' {
        1
    } else {
        0
    };
    assert(v@.subrange(from as int, n as int) == if from == 1 {
        v@.drop_first()
    } else {
        v@
    });
    if from == n || !digits_only(v, from, n) {
        return None;
    }
    let value = decimal_capped(v, from, n);
    if value <= u64::MAX as u128 {
        Some(value as u64)
    } else {
        None
    }
}

/// The digits that write `n` in base ten, without leading zeros; `0` is
/// written as one digit.
pub open spec fn decimal_digits(n: nat) -> Seq<char>
    decreases n,
{
    if n < 10 {
        seq![digit_char(n)]
    } else {
        decimal_digits(n / 10).push(digit_char(n % 10))
    }
}

/// The digit that stands for `d`.
pub open spec fn digit_char(d: nat) -> char
    recommends
        d <= 9,
{
    (0x30 + d) as u8 as char
}

/// The digits of a number are digits, and they write that number.
pub proof fn lemma_decimal_digits_round_trip(n: nat)
    ensures
        decimal_digits(n).len() > 0,
        all_digits(decimal_digits(n)),
        decimal_value(decimal_digits(n)) == n,
        parsed_u64(decimal_digits(n)) == if n <= u64::MAX {
            Some(n as u64)
        } else {
            None
        },
    decreases n,
{
    let s = decimal_digits(n);
    if n < 10 {
        assert(s.drop_last() == Seq::<char>::empty());
        assert(decimal_value(s.drop_last()) == 0);
        assert(s.last() == digit_char(n));
    } else {
        lemma_decimal_digits_round_trip(n / 10);
        assert(s.drop_last() == decimal_digits(n / 10));
        assert(s.last() == digit_char(n % 10));
        assert forall|i: int| 0 <= i < s.len() implies is_digit(#[trigger] s[i]) by {
            if i < s.len() - 1 {
                assert(s[i] == decimal_digits(n / 10)[i]);
            }
        }
    }
    assert(is_digit(s[0]));
    assert(s[0] != '+');
}

/// The digit that stands for `d`.
pub fn char_of_digit(d: u8) -> (c: char)
    requires
        d <= 9,
    ensures
        c == digit_char(d as nat),
{
    (0x30 + d) as char
}

/// Writes `n` in base ten.
pub fn format_u64(n: u64) -> (v: Vec<char>)
    ensures
        v@ == decimal_digits(n as nat),
{
    let mut low: Vec<char> = Vec::new();
    let mut rest: u64 = n;
    // `low` collects the digits from the last one on.
    while rest >= 10
        invariant
            decimal_digits(n as nat) == decimal_digits(rest as nat) + low@.reverse(),
        decreases rest,
    {
        let c = char_of_digit((rest % 10) as u8);
        proof {
            let ghost before = low@;
            assert(before.push(c).reverse() == seq![c] + before.reverse());
            assert(decimal_digits(rest as nat) == decimal_digits((rest / 10) as nat).push(c));
            assert(decimal_digits((rest / 10) as nat).push(c) + before.reverse()
                == decimal_digits((rest / 10) as nat) + (seq![c] + before.reverse()));
        }
        low.push(c);
        rest = rest / 10;
    }
    let c = char_of_digit(rest as u8);
    proof {
        let ghost before = low@;
        assert(before.push(c).reverse() == seq![c] + before.reverse());
        assert(decimal_digits(rest as nat) == seq![c]);
    }
    low.push(c);
    let mut v: Vec<char> = Vec::new();
    let mut i: usize = low.len();
    while i > 0
        invariant
            i <= low.len(),
            v@ == low@.reverse().take(low.len() - i),
        decreases i,
    {
        i -= 1;
        v.push(low[i]);
        assert(low@.reverse().take(low.len() - i) == low@.reverse().take(low.len() - i - 1).push(
            low@[i as int],
        ));
    }
    assert(low@.reverse().take(low.len() as int) == low@.reverse());
    v
}

/// The part that the fraction `0.s` adds to a product with `factor`:
/// the whole part of `0.s * factor`.
pub open spec fn fraction_times(s: Seq<char>, factor: nat) -> nat {
    (decimal_value(s) * factor) / pow10(s.len())
}

/// One more digit in front of a fraction: the product is found from the
/// digit and the product of the rest.
pub proof fn lemma_fraction_times_leading_digit(c: char, s: Seq<char>, factor: nat)
    requires
        is_digit(c),
        all_digits(s),
    ensures
        fraction_times(seq![c] + s, factor) == (digit_value(c) * factor + fraction_times(
            s,
            factor,
        )) / 10,
        fraction_times(seq![c] + s, factor) <= factor,
        factor > 0 ==> fraction_times(seq![c] + s, factor) < factor,
{
    let d = digit_value(c) as int;
    let p = pow10(s.len()) as int;
    let val = decimal_value(s) as int;
    let f = factor as int;
    lemma_decimal_value_leading_digit(c, s);
    lemma_decimal_value_bound(s);
    lemma_pow10_positive(s.len());
    assert((seq![c] + s).len() == s.len() + 1);
    assert(pow10((s.len() + 1) as nat) == 10 * p);
    let x = (d * p + val) * f;
    assert(x == p * (d * f) + val * f) by (nonlinear_arith)
        requires
            x == (d * p + val) * f,
    ;
    assert(0 <= val * f) by (nonlinear_arith)
        requires
            0 <= val,
            0 <= f,
    ;
    assert(0 <= x) by (nonlinear_arith)
        requires
            x == (d * p + val) * f,
            0 <= d,
            0 <= p,
            0 <= val,
            0 <= f,
    ;
    lemma_div_denominator(x, p, 10);
    assert(p * 10 == 10 * p);
    lemma_hoist_over_denominator(val * f, d * f, p as nat);
    assert(val * f + (d * f) * p == x) by (nonlinear_arith)
        requires
            x == p * (d * f) + val * f,
    ;
    assert(x / p == d * f + (val * f) / p);
    // The bound: the fraction is below one.
    assert((val * f) / p <= f && (f > 0 ==> (val * f) / p < f)) by (nonlinear_arith)
        requires
            0 <= val < p,
            0 <= f,
    ;
    assert(d * f <= 9 * f) by (nonlinear_arith)
        requires
            0 <= d <= 9,
            0 <= f,
    ;
}

/// Ten to any power is positive.
pub proof fn lemma_pow10_positive(n: nat)
    ensures
        pow10(n) > 0,
    decreases n,
{
    if n > 0 {
        lemma_pow10_positive((n - 1) as nat);
    }
}

/// The whole part of `0.d * factor`, where `d` are the digits of `v` from
/// `from` up to `to`.
pub(crate) fn fraction_scaled(v: &Vec<char>, from: usize, to: usize, factor: u64) -> (r: u64)
    requires
        from <= to <= v.len(),
        all_digits(v@.subrange(from as int, to as int)),
        factor <= 0x100_0000_0000,
    ensures
        r == fraction_times(v@.subrange(from as int, to as int), factor as nat),
        r <= factor,
{
    let mut acc: u64 = 0;
    let mut i: usize = to;
    let ghost digits = v@.subrange(from as int, to as int);
    proof {
        assert(v@.subrange(to as int, to as int) == Seq::<char>::empty());
        assert(decimal_value(Seq::<char>::empty()) * (factor as nat) == 0) by (nonlinear_arith)
            requires
                decimal_value(Seq::<char>::empty()) == 0,
        ;
        assert(pow10(0) == 1);
    }
    while i > from
        invariant
            from <= i <= to <= v.len(),
            digits == v@.subrange(from as int, to as int),
            all_digits(digits),
            factor <= 0x100_0000_0000,
            acc <= factor,
            acc == fraction_times(v@.subrange(i as int, to as int), factor as nat),
        decreases i,
    {
        i -= 1;
        let c = v[i];
        proof {
            assert(c == digits[i - from]);
            let ghost rest = v@.subrange(i as int + 1, to as int);
            assert(all_digits(rest)) by {
                assert(forall|k: int|
                    0 <= k < rest.len() ==> rest[k] == digits[k + i + 1 - from]);
            }
            assert(v@.subrange(i as int, to as int) == seq![c] + rest);
            lemma_fraction_times_leading_digit(c, rest, factor as nat);
        }
        let d = digit_of(c);
        acc = (d as u64 * factor + acc) / 10;
    }
    acc
}

} // verus!
