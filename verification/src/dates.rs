//! The reference date that the names of the unpacked files carry.
//!
//! A name such as `K3241.K03200Y0.D30610.EMPRECSV` holds, behind its first
//! `D`, one place for the year within the 2020s, two for the month and two
//! for the day. The places are counted in bytes of UTF-8.

use vstd::prelude::*;
use crate::text::{
    chars_of, joined, find, first_position_of, lemma_first_position_of, slice_of, string_of,
};

verus! {

/// The number of bytes that `c` takes in UTF-8.
pub open spec fn utf8_len(c: char) -> nat {
    if (c as u32) < 0x80 {
        1
    } else if (c as u32) < 0x800 {
        2
    } else if (c as u32) < 0x1_0000 {
        3
    } else {
        4
    }
}

/// The number of characters at the head of `s` that fill exactly two
/// bytes: one character of two bytes, or two of one byte each.
pub open spec fn two_byte_head(s: Seq<char>) -> Option<int> {
    if s.len() >= 1 && utf8_len(s[0]) == 2 {
        Some(1)
    } else if s.len() >= 2 && utf8_len(s[0]) == 1 && utf8_len(s[1]) == 1 {
        Some(2)
    } else {
        None
    }
}

/// The text in front of the year: a stroke and the decade.
pub open spec fn decade_prefix() -> Seq<char> {
    seq!['/', '2', '0', '2']
}

/// The date that a file name carries, as `day/month/202y`.
///
/// Behind the first `D` of the name stand the year in one byte, the month
/// in two and the day in two. There is no date where the name holds no
/// `D`, or where these places are not there or do not end between
/// characters.
pub open spec fn date_of_filename(name: Seq<char>) -> Option<Seq<char>> {
    match first_position_of(name, 'D') {
        None => None,
        Some(p) => {
            let rest = name.skip(p + 1);
            if rest.len() >= 1 && utf8_len(rest[0]) == 1 {
                match two_byte_head(rest.skip(1)) {
                    None => None,
                    Some(m) => match two_byte_head(rest.skip(1 + m)) {
                        None => None,
                        Some(d) => Some(
                            rest.subrange(1 + m, 1 + m + d) + seq!['/'] + rest.subrange(1, 1 + m)
                                + decade_prefix() + rest.subrange(0, 1),
                        ),
                    },
                }
            } else {
                None
            }
        },
    }
}

/// The reference date when no file name gives one.
pub open spec fn unknown_date() -> Seq<char> {
    seq!['x', 'x', '/', 'x', 'x', '/', '2', '0', '2', '4']
}

/// The reference date of a set of unpacked files: the date that the name
/// of the first companies file carries, `xx/xx/2024` where there is no
/// such file or its name carries no date.
pub open spec fn reference_date(names: Seq<Seq<char>>) -> Seq<char> {
    if names.len() > 0 && date_of_filename(names[0]) is Some {
        date_of_filename(names[0])->0
    } else {
        unknown_date()
    }
}

/// The number of bytes that `c` takes in UTF-8.
pub fn char_utf8_len(c: char) -> (n: u8)
    ensures
        n == utf8_len(c),
{
    let code: u32 = c as u32;
    if code < 0x80 {
        1
    } else if code < 0x800 {
        2
    } else if code < 0x1_0000 {
        3
    } else {
        4
    }
}

/// The number of characters of `v` from `from` on that fill exactly two
/// bytes.
pub fn two_bytes_from(v: &Vec<char>, from: usize) -> (r: Option<usize>)
    requires
        from <= v.len(),
    ensures
        match r {
            Some(n) => two_byte_head(v@.skip(from as int)) == Some(n as int) && from + n <= v.len(),
            None => two_byte_head(v@.skip(from as int)) is None,
        },
{
    let left = v.len() - from;
    if left >= 1 && char_utf8_len(v[from]) == 2 {
        Some(1)
    } else if left >= 2 && char_utf8_len(v[from]) == 1 && char_utf8_len(v[from + 1]) == 1 {
        Some(2)
    } else {
        None
    }
}

/// The date that the file name `filename` carries, as `day/month/202y`.
pub fn parse_date_from_filename(filename: &str) -> (date: Option<String>)
    ensures
        date.deep_view() == date_of_filename(filename@),
{
    let name = chars_of(filename);
    let found = find(&name, 'D');
    proof {
        lemma_first_position_of(name@, 'D');
    }
    let start = match found {
        None => {
            return None;
        },
        Some(p) => p + 1,
    };
    let ghost rest = name@.skip(start as int);
    if start == name.len() || char_utf8_len(name[start]) != 1 {
        return None;
    }
    assert(rest.skip(1) == name@.skip(start + 1));
    let month_len = match two_bytes_from(&name, start + 1) {
        None => {
            return None;
        },
        Some(n) => n,
    };
    assert(rest.skip(1 + month_len) == name@.skip(start + 1 + month_len));
    let day_len = match two_bytes_from(&name, start + 1 + month_len) {
        None => {
            return None;
        },
        Some(n) => n,
    };
    let year = slice_of(&name, start, start + 1);
    let month = slice_of(&name, start + 1, start + 1 + month_len);
    let day = slice_of(&name, start + 1 + month_len, start + 1 + month_len + day_len);
    let stroke: Vec<char> = vec!['/'];
    let decade: Vec<char> = vec!['/', '2', '0', '2'];
    proof {
        assert(stroke@ =~= seq!['/']);
        assert(decade@ =~= decade_prefix());
        assert(year@ == rest.subrange(0, 1));
        assert(month@ == rest.subrange(1, 1 + month_len));
        assert(day@ == rest.subrange(1 + month_len, 1 + month_len + day_len));
    }
    let date = joined(&joined(&joined(&joined(&day, &stroke), &month), &decade), &year);
    Some(string_of(&date))
}

/// The reference date of a set of unpacked files, given the names of its
/// companies files in the order in which they were found.
pub fn detect_data_referencia(names: &Vec<String>) -> (date: String)
    ensures
        date@ == reference_date(names.deep_view()),
{
    if names.len() > 0 {
        assert(names.deep_view()[0] == names@[0]@);
        match parse_date_from_filename(names[0].as_str()) {
            Some(date) => {
                return date;
            },
            None => {},
        }
    }
    let unknown: Vec<char> = vec!['x', 'x', '/', 'x', 'x', '/', '2', '0', '2', '4'];
    assert(unknown@ =~= unknown_date());
    string_of(&unknown)
}

} // verus!
