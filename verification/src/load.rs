//! The rules by which the unpacked files are loaded: which files belong
//! to a table, how many records a file is expected to hold, and when
//! records are written and progress is shown.

use vstd::prelude::*;
use crate::text::{chars_of, slice_of, starts_with};

verus! {

/// The number of archives that make up one full snapshot.
pub const EXPECTED_ARCHIVES: usize = 37;

/// The bytes that one record is taken to fill, to estimate the number of
/// records of a file.
pub const BYTES_PER_RECORD: u64 = 200;

/// The number of records that are written in one transaction.
pub const RECORDS_PER_TRANSACTION: usize = 50_000;

/// The number of records after which progress is shown in any case.
pub const RECORDS_PER_UPDATE: u64 = 10_000;

/// Whether `count` archives make up a full snapshot.
pub fn is_full_snapshot(count: usize) -> (b: bool)
    ensures
        b == (count == EXPECTED_ARCHIVES),
{
    count == EXPECTED_ARCHIVES
}

/// The number of records that a file of `file_size` bytes is expected to
/// hold.
pub fn estimated_records(file_size: u64) -> (records: u64)
    ensures
        records == file_size / BYTES_PER_RECORD,
{
    file_size / BYTES_PER_RECORD
}

/// Whether progress is to be shown after record number `count`: at every
/// ten thousandth record, and whenever a second or more has passed since
/// it was last shown.
pub fn progress_is_due(count: u64, seconds_since_update: u64) -> (due: bool)
    ensures
        due == (count % RECORDS_PER_UPDATE == 0 || seconds_since_update >= 1),
{
    count % RECORDS_PER_UPDATE == 0 || seconds_since_update >= 1
}

/// Whether the records collected so far fill a transaction.
pub fn transaction_is_full(collected: usize) -> (full: bool)
    ensures
        full == (collected >= RECORDS_PER_TRANSACTION),
{
    collected >= RECORDS_PER_TRANSACTION
}

/// `s` without the dots at its beginning.
pub open spec fn without_leading_dots(s: Seq<char>) -> Seq<char>
    decreases s.len(),
{
    if s.len() > 0 && s[0] == '.' {
        without_leading_dots(s.drop_first())
    } else {
        s
    }
}

/// Whether `needle` stands somewhere in `text`.
pub open spec fn contains_text(text: Seq<char>, needle: Seq<char>) -> bool {
    exists|i: int| 0 <= i <= text.len() && #[trigger] needle.is_prefix_of(text.skip(i))
}

/// Whether the file at `path` belongs to the table whose files are named
/// after `pattern`: the pattern, without the dots at its beginning, stands
/// somewhere in the path.
pub open spec fn belongs_to_pattern(path: Seq<char>, pattern: Seq<char>) -> bool {
    contains_text(path, without_leading_dots(pattern))
}

/// Whether the file at `path` belongs to the table whose files are named
/// after `pattern`.
pub fn names_pattern(path: &str, pattern: &str) -> (b: bool)
    ensures
        b == belongs_to_pattern(path@, pattern@),
{
    let text = chars_of(path);
    let named = chars_of(pattern);
    let mut from: usize = 0;
    assert(named@.skip(0) == named@);
    while from < named.len() && named[from] == '.'
        invariant
            from <= named.len(),
            without_leading_dots(named@) == without_leading_dots(named@.skip(from as int)),
        decreases named.len() - from,
    {
        assert(named@.skip(from as int)[0] == '.');
        assert(named@.skip(from as int).drop_first() == named@.skip(from as int + 1));
        from += 1;
    }
    let needle = slice_of(&named, from, named.len());
    proof {
        assert(needle@ == named@.skip(from as int));
        if from < named.len() {
            assert(named@.skip(from as int)[0] != '.');
        }
        assert(needle@ == without_leading_dots(named@));
    }
    let mut i: usize = 0;
    while i < text.len()
        invariant
            i <= text.len(),
            text@ == path@,
            needle@ == without_leading_dots(pattern@),
            forall|k: int| 0 <= k < i ==> !#[trigger] needle@.is_prefix_of(text@.skip(k)),
        decreases text.len() - i,
    {
        let rest = slice_of(&text, i, text.len());
        assert(rest@ == text@.skip(i as int));
        if starts_with(&rest, &needle) {
            return true;
        }
        i += 1;
    }
    // Behind the last character only the empty text stands.
    let rest = slice_of(&text, i, text.len());
    assert(rest@ == text@.skip(i as int));
    starts_with(&rest, &needle)
}

} // verus!
