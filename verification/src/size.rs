//! Human-readable size tokens ("47M", "1.8G", "-") as byte counts.
//!
//! The product of number and unit is the exact decimal product, cut off
//! to whole bytes and held at `u64::MAX` where it would be larger.

use vstd::prelude::*;
use crate::decimal::{
    all_digits, decimal_capped, decimal_value, digits_only, fraction_scaled, fraction_times,
    is_digit,
};
use crate::text::{
    chars_of, last_position_of, lemma_last_position_of, rfind, string_of, strip_spaces,
    to_uppercase, trim, trimmed, uppercase_of, without_spaces,
};

verus! {

/// Bytes in a kibibyte.
pub const KIB: u64 = 1024;

/// Bytes in a mebibyte.
pub const MIB: u64 = 1024 * 1024;

/// Bytes in a gibibyte.
pub const GIB: u64 = 1024 * 1024 * 1024;

/// Bytes in a tebibyte.
pub const TIB: u64 = 1024 * 1024 * 1024 * 1024;

/// A character of the numeric portion: a digit or the decimal point.
pub open spec fn is_number_char(c: char) -> bool {
    is_digit(c) || c == '.'
}

/// An ASCII letter.
pub open spec fn is_ascii_letter(c: char) -> bool {
    0x41 <= c as u32 <= 0x5a || 0x61 <= c as u32 <= 0x7a
}

/// The numeric portion of a token: its digits and decimal points, in order.
pub open spec fn number_part(s: Seq<char>) -> Seq<char> {
    s.filter(|c: char| is_number_char(c))
}

/// The unit of a token: its ASCII letters, in order.
pub open spec fn unit_part(s: Seq<char>) -> Seq<char> {
    s.filter(|c: char| is_ascii_letter(c))
}

/// The factor that a unit stands for; 1 for no unit and for any other.
pub open spec fn unit_multiplier(unit: Seq<char>) -> nat {
    if unit == seq!['K'] || unit == seq!['K', 'B'] {
        KIB as nat
    } else if unit == seq!['M'] || unit == seq!['M', 'B'] {
        MIB as nat
    } else if unit == seq!['G'] || unit == seq!['G', 'B'] {
        GIB as nat
    } else if unit == seq!['T'] || unit == seq!['T', 'B'] {
        TIB as nat
    } else {
        1
    }
}

/// Whether `num` writes a number: digits with at most one decimal point
/// among them, and at least one digit.
pub open spec fn is_number(num: Seq<char>) -> bool {
    match last_position_of(num, '.') {
        None => num.len() > 0 && all_digits(num),
        Some(p) => all_digits(num.take(p)) && all_digits(num.skip(p + 1)) && num.len() > 1,
    }
}

/// The whole part of the product of the number that `num` writes and
/// `factor`; 0 where `num` writes no number.
pub open spec fn number_times(num: Seq<char>, factor: nat) -> nat {
    if !is_number(num) {
        0
    } else {
        match last_position_of(num, '.') {
            None => decimal_value(num) * factor,
            Some(p) => decimal_value(num.take(p)) * factor + fraction_times(
                num.skip(p + 1),
                factor,
            ),
        }
    }
}

/// `n` as a `u64`, or the largest `u64` where `n` does not fit.
pub open spec fn capped_u64(n: nat) -> u64 {
    if n <= u64::MAX {
        n as u64
    } else {
        u64::MAX
    }
}

/// The byte count of a token that is already trimmed, free of spaces and
/// in upper case.
pub open spec fn size_of_normalized(s: Seq<char>) -> u64 {
    capped_u64(number_times(number_part(s), unit_multiplier(unit_part(s))))
}

/// The byte count that a size token stands for.
///
/// The token is trimmed; empty or `-` it counts 0. Else its spaces are
/// dropped and it is put in upper case, and its numeric portion is
/// multiplied by what its unit stands for.
pub open spec fn size_of_token(token: Seq<char>) -> u64 {
    let t = trimmed(token);
    if t.len() == 0 || t == seq!['-'] {
        0
    } else {
        size_of_normalized(uppercase_of(without_spaces(t)))
    }
}

/// Whether `c` is a digit or the decimal point.
pub fn char_is_number_char(c: char) -> (b: bool)
    ensures
        b == is_number_char(c),
{
    let n: u32 = c as u32;
    (0x30 <= n && n <= 0x39) || c == '.'
}

/// Whether `c` is an ASCII letter.
pub fn char_is_ascii_letter(c: char) -> (b: bool)
    ensures
        b == is_ascii_letter(c),
{
    let n: u32 = c as u32;
    (0x41 <= n && n <= 0x5a) || (0x61 <= n && n <= 0x7a)
}

/// One more character behind `s` joins the numeric portion or the unit
/// according to its kind, and neither otherwise.
proof fn lemma_parts_push(s: Seq<char>, c: char)
    ensures
        number_part(s.push(c)) == if is_number_char(c) {
            number_part(s).push(c)
        } else {
            number_part(s)
        },
        unit_part(s.push(c)) == if is_ascii_letter(c) {
            unit_part(s).push(c)
        } else {
            unit_part(s)
        },
{
    reveal(Seq::filter);
    assert(s.push(c).drop_last() == s);
}

/// The factor that the unit `unit` stands for.
pub fn multiplier_of(unit: &Vec<char>) -> (m: u64)
    ensures
        m == unit_multiplier(unit@),
        1 <= m <= TIB,
{
    let n = unit.len();
    if n == 0 || n > 2 || (n == 2 && unit[1] != 'B') {
        proof {
            if n == 2 {
                assert(unit@[1] != 'B');
            }
            lemma_unit_needs_shape(unit@);
        }
        return 1;
    }
    let head = unit[0];
    proof {
        lemma_unit_needs_shape(unit@);
        if n == 1 {
            assert(unit@ =~= seq![head]);
        } else {
            assert(unit@ =~= seq![head, 'B']);
        }
    }
    if head == 'K' {
        KIB
    } else if head == 'M' {
        MIB
    } else if head == 'G' {
        GIB
    } else if head == 'T' {
        TIB
    } else {
        1
    }
}

/// A unit with a factor other than 1 is one of `K M G T`, alone or with
/// `B` behind it.
proof fn lemma_unit_needs_shape(unit: Seq<char>)
    ensures
        unit_multiplier(unit) != 1 ==> (unit.len() == 1 || (unit.len() == 2 && unit[1] == 'B')),
        unit.len() >= 1 ==> (unit_multiplier(unit) == (if unit[0] == 'K' {
            KIB as nat
        } else if unit[0] == 'M' {
            MIB as nat
        } else if unit[0] == 'G' {
            GIB as nat
        } else if unit[0] == 'T' {
            TIB as nat
        } else {
            1
        }) || unit_multiplier(unit) == 1),
{
    assert(seq!['K'].len() == 1 && seq!['K'][0] == 'K');
    assert(seq!['M'].len() == 1 && seq!['M'][0] == 'M');
    assert(seq!['G'].len() == 1 && seq!['G'][0] == 'G');
    assert(seq!['T'].len() == 1 && seq!['T'][0] == 'T');
    assert(seq!['K', 'B'].len() == 2 && seq!['K', 'B'][0] == 'K' && seq!['K', 'B'][1] == 'B');
    assert(seq!['M', 'B'].len() == 2 && seq!['M', 'B'][0] == 'M' && seq!['M', 'B'][1] == 'B');
    assert(seq!['G', 'B'].len() == 2 && seq!['G', 'B'][0] == 'G' && seq!['G', 'B'][1] == 'B');
    assert(seq!['T', 'B'].len() == 2 && seq!['T', 'B'][0] == 'T' && seq!['T', 'B'][1] == 'B');
}

/// The whole part of the product of the number that `num` writes and
/// `factor`, held at `u64::MAX`; 0 where `num` writes no number.
fn number_scaled(num: &Vec<char>, factor: u64) -> (r: u64)
    requires
        1 <= factor <= TIB,
    ensures
        r == capped_u64(number_times(num@, factor as nat)),
{
    let n = num.len();
    let (whole_to, frac_from) = match rfind(num, '.') {
        None => (n, n),
        Some(p) => {
            proof {
                lemma_last_position_of(num@, '.');
            }
            (p, p + 1)
        },
    };
    proof {
        assert(num@.subrange(0, whole_to as int) == num@.take(whole_to as int));
        assert(num@.subrange(frac_from as int, n as int) == num@.skip(frac_from as int));
        if whole_to == n {
            assert(num@.take(n as int) == num@);
            assert(num@.skip(n as int).len() == 0);
        }
    }
    if !digits_only(num, 0, whole_to) || !digits_only(num, frac_from, n) {
        return 0;
    }
    if whole_to + (n - frac_from) == 0 {
        return 0;
    }
    assert(is_number(num@));
    let whole = decimal_capped(num, 0, whole_to);
    let part = fraction_scaled(num, frac_from, n, factor);
    proof {
        let w = decimal_value(num@.take(whole_to as int));
        let f = factor as nat;
        if whole_to == n {
            assert(fraction_times(num@.skip(n as int), f) == 0) by {
                assert(decimal_value(num@.skip(n as int)) == 0);
                assert(0 * f == 0) by (nonlinear_arith);
                assert(crate::decimal::pow10(0) == 1);
            }
        }
        assert(number_times(num@, f) == w * f + part);
        assert(w * f >= w) by (nonlinear_arith)
            requires
                f >= 1,
        ;
        if w <= u64::MAX {
            assert(w * f <= 0xffff_ffff_ffff_ffff * 0x100_0000_0000) by (nonlinear_arith)
                requires
                    w <= 0xffff_ffff_ffff_ffff,
                    f <= 0x100_0000_0000,
            ;
        }
    }
    if whole > u64::MAX as u128 {
        return u64::MAX;
    }
    let total: u128 = whole * (factor as u128) + part as u128;
    if total > u64::MAX as u128 {
        u64::MAX
    } else {
        total as u64
    }
}

/// The byte count of a size token that is already trimmed, free of spaces
/// and in upper case: its numeric portion times what its unit stands for.
pub fn size_from_normalized(s: &Vec<char>) -> (bytes: u64)
    ensures
        bytes == size_of_normalized(s@),
{
    let mut num: Vec<char> = Vec::new();
    let mut unit: Vec<char> = Vec::new();
    let mut i: usize = 0;
    proof {
        reveal(Seq::filter);
        assert(s@.take(0) == Seq::<char>::empty());
    }
    while i < s.len()
        invariant
            i <= s.len(),
            num@ == number_part(s@.take(i as int)),
            unit@ == unit_part(s@.take(i as int)),
        decreases s.len() - i,
    {
        let c = s[i];
        proof {
            assert(s@.take(i as int + 1) == s@.take(i as int).push(c));
            lemma_parts_push(s@.take(i as int), c);
        }
        if char_is_number_char(c) {
            num.push(c);
        } else if char_is_ascii_letter(c) {
            unit.push(c);
        }
        i += 1;
    }
    assert(s@.take(s.len() as int) == s@);
    let factor = multiplier_of(&unit);
    number_scaled(&num, factor)
}

/// The byte count that the size token `size_str` stands for; 0 for an
/// empty token, for `-`, and where the numeric portion writes no number.
pub fn parse_size(size_str: &str) -> (bytes: u64)
    ensures
        bytes == size_of_token(size_str@),
{
    let token = trim(&chars_of(size_str));
    if token.len() == 0 || (token.len() == 1 && token[0] == '-') {
        assert(token.len() == 1 && token@[0] == '-' ==> token@ =~= seq!['-']);
        return 0;
    }
    assert(token@ != seq!['-']) by {
        if token@ == seq!['-'] {
            assert(seq!['-'].len() == 1 && seq!['-'][0] == '-');
        }
    }
    let packed = string_of(&strip_spaces(&token));
    let upper = to_uppercase(packed.as_str());
    size_from_normalized(&chars_of(upper.as_str()))
}

} // verus!
