//! Registration numbers and activity codes as text: the number that a
//! query names, and the list of secondary activity codes of an
//! establishment.

use vstd::prelude::*;
use crate::dates::{char_utf8_len, utf8_len};
use crate::text::{
    chars_of, find, first_position_of, lemma_first_position_of, slice_of, string_of, trim, trimmed,
};

verus! {

/// The number of bytes of a registration number: eight of the company,
/// four of the establishment, two check digits.
pub const CNPJ_LENGTH: usize = 14;

/// The marks that a formatted registration number carries between its
/// digits.
pub open spec fn is_cnpj_mark(c: char) -> bool {
    c == '.' || c == '/' || c == '-'
}

/// `raw` without the marks `.`, `/` and `-`.
pub open spec fn without_marks(raw: Seq<char>) -> Seq<char> {
    raw.filter(|c: char| !is_cnpj_mark(c))
}

/// The registration number `raw` without the marks `.`, `/` and `-`.
pub fn clean_cnpj(raw: &str) -> (clean: String)
    ensures
        clean@ == without_marks(raw@),
{
    let text = chars_of(raw);
    let mut kept: Vec<char> = Vec::new();
    let mut i: usize = 0;
    proof {
        reveal(Seq::filter);
        assert(text@.take(0) == Seq::<char>::empty());
    }
    while i < text.len()
        invariant
            i <= text.len(),
            kept@ == without_marks(text@.take(i as int)),
        decreases text.len() - i,
    {
        let c = text[i];
        proof {
            reveal(Seq::filter);
            assert(text@.take(i as int + 1).drop_last() == text@.take(i as int));
            assert(text@.take(i as int + 1).last() == c);
        }
        if !(c == '.' || c == '/' || c == '-') {
            kept.push(c);
        }
        i += 1;
    }
    assert(text@.take(text.len() as int) == text@);
    string_of(&kept)
}

/// The number of bytes that `s` takes in UTF-8.
pub open spec fn utf8_length(s: Seq<char>) -> nat
    decreases s.len(),
{
    if s.len() == 0 {
        0
    } else {
        utf8_length(s.drop_last()) + utf8_len(s.last())
    }
}

/// Whether `clean` has the length of a registration number, counted in
/// bytes of UTF-8.
pub fn has_cnpj_length(clean: &str) -> (b: bool)
    ensures
        b == (utf8_length(clean@) == CNPJ_LENGTH),
{
    let text = chars_of(clean);
    let mut bytes: usize = 0;
    let mut i: usize = 0;
    assert(text@.take(0) == Seq::<char>::empty());
    while i < text.len()
        invariant
            i <= text.len(),
            text@ == clean@,
            bytes == utf8_length(text@.take(i as int)),
            bytes <= CNPJ_LENGTH,
        decreases text.len() - i,
    {
        assert(text@.take(i as int + 1).drop_last() == text@.take(i as int));
        assert(text@.take(i as int + 1).last() == text@[i as int]);
        bytes = bytes + char_utf8_len(text[i]) as usize;
        i += 1;
        assert(bytes == utf8_length(text@.take(i as int)));
        if bytes > CNPJ_LENGTH {
            proof {
                lemma_utf8_length_grows(text@, i as int);
            }
            return false;
        }
    }
    assert(text@.take(text.len() as int) == text@);
    bytes == CNPJ_LENGTH
}

/// A text takes no fewer bytes than its beginning.
pub proof fn lemma_utf8_length_grows(s: Seq<char>, n: int)
    requires
        0 <= n <= s.len(),
    ensures
        utf8_length(s.take(n)) <= utf8_length(s),
    decreases s.len() - n,
{
    if n < s.len() {
        lemma_utf8_length_grows(s, n + 1);
        assert(s.take(n + 1).drop_last() == s.take(n));
    } else {
        assert(s.take(n) == s);
    }
}

/// What one piece of a list adds to the codes: the piece trimmed, and
/// nothing where that is empty.
pub open spec fn code_of_piece(piece: Seq<char>) -> Seq<Seq<char>> {
    if trimmed(piece).len() > 0 {
        seq![trimmed(piece)]
    } else {
        Seq::empty()
    }
}

/// The activity codes that the list `list` holds: its pieces between
/// commas, each trimmed, without the empty ones, in order.
pub open spec fn codes_of(list: Seq<char>) -> Seq<Seq<char>>
    decreases list.len(),
{
    match first_position_of(list, ',') {
        Some(p) => if 0 <= p < list.len() {
            code_of_piece(list.take(p)) + codes_of(list.skip(p + 1))
        } else {
            code_of_piece(list)
        },
        None => code_of_piece(list),
    }
}

/// The activity codes that the list `list` holds.
pub fn split_cnaes(list: &str) -> (codes: Vec<String>)
    ensures
        codes.deep_view() == codes_of(list@),
{
    let text = chars_of(list);
    let mut codes: Vec<String> = Vec::new();
    let mut start: usize = 0;
    assert(text@.skip(0) == text@);
    assert(codes.deep_view() == Seq::<Seq<char>>::empty());
    assert(Seq::<Seq<char>>::empty() + codes_of(text@) == codes_of(text@));
    loop
        invariant
            start <= text.len(),
            text@ == list@,
            codes_of(text@) == codes.deep_view() + codes_of(text@.skip(start as int)),
        decreases text.len() - start,
    {
        let rest = slice_of(&text, start, text.len());
        assert(rest@ == text@.skip(start as int));
        let comma = find(&rest, ',');
        proof {
            lemma_first_position_of(rest@, ',');
        }
        let end: usize = match comma {
            Some(p) => p,
            None => rest.len(),
        };
        let piece = trim(&slice_of(&rest, 0, end));
        let ghost before = codes.deep_view();
        assert(rest@.subrange(0, end as int) == rest@.take(end as int));
        assert(rest@.take(rest.len() as int) == rest@);
        if piece.len() > 0 {
            let code = string_of(&piece);
            codes.push(code);
            assert(codes.deep_view() == before + seq![piece@]);
        }
        assert(codes.deep_view() == before + code_of_piece(rest@.take(end as int)));
        match comma {
            Some(p) => {
                assert(rest@.skip(p + 1) == text@.skip(start + p + 1));
                assert(before + (code_of_piece(rest@.take(p as int)) + codes_of(rest@.skip(p + 1)))
                    == (before + code_of_piece(rest@.take(p as int))) + codes_of(
                    rest@.skip(p + 1),
                ));
                start = start + p + 1;
            },
            None => {
                assert(codes.deep_view() + Seq::<Seq<char>>::empty() == codes.deep_view());
                return codes;
            },
        }
    }
}

} // verus!
