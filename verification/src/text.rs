//! Character-level helpers shared by the parsers of this crate.
//!
//! Strings are handled as sequences of characters (`Seq<char>` in
//! contracts, `Vec<char>` in executable code), so that every position is a
//! character position.

use vstd::prelude::*;

verus! {

/// `String::push` appends exactly one character to the end of the string.
pub assume_specification[ String::push ](s: &mut String, ch: char)
    ensures
        final(s)@ == old(s)@.push(ch),
;

/// Name for the Unicode uppercase form of a string, as `str::to_uppercase`
/// computes it from the Unicode case tables.
pub uninterp spec fn uppercase_of(s: Seq<char>) -> Seq<char>;

/// Calls `str::to_uppercase`. The mapping is the one of the Unicode case
/// tables, which may change the number of characters; the contract only
/// names it.
#[verifier::external_body]
pub(crate) fn to_uppercase(s: &str) -> (upper: String)
    ensures
        upper@ == uppercase_of(s@),
{
    s.to_uppercase()
}

/// Name for the Unicode lowercase form of a string, as `str::to_lowercase`
/// computes it from the Unicode case tables.
pub uninterp spec fn lowercase_of(s: Seq<char>) -> Seq<char>;

/// Calls `str::to_lowercase`. The mapping is the one of the Unicode case
/// tables, which may change the number of characters; the contract only
/// names it.
#[verifier::external_body]
pub(crate) fn to_lowercase(s: &str) -> (lower: String)
    ensures
        lower@ == lowercase_of(s@),
{
    s.to_lowercase()
}

/// The characters of `s`, in order.
pub fn chars_of(s: &str) -> (v: Vec<char>)
    ensures
        v@ == s@,
{
    let mut v: Vec<char> = Vec::new();
    for c in it: s.chars()
        invariant
            v@ == it.seq().take(it.index() as int),
            it.seq() == s@,
    {
        v.push(c);
    }
    v
}

/// The string made of the characters of `v`, in order.
pub fn string_of(v: &Vec<char>) -> (s: String)
    ensures
        s@ == v@,
{
    let mut s = String::new();
    let mut i: usize = 0;
    while i < v.len()
        invariant
            i <= v.len(),
            s@ == v@.take(i as int),
        decreases v.len() - i,
    {
        s.push(v[i]);
        i += 1;
        assert(v@.take(i as int) == v@.take(i as int - 1).push(v@[i as int - 1]));
    }
    s
}

/// A copy of the characters of `v` from position `from` up to, not
/// including, position `to`.
pub fn slice_of(v: &Vec<char>, from: usize, to: usize) -> (r: Vec<char>)
    requires
        from <= to <= v.len(),
    ensures
        r@ == v@.subrange(from as int, to as int),
{
    let mut r: Vec<char> = Vec::new();
    let mut i: usize = from;
    while i < to
        invariant
            from <= i <= to <= v.len(),
            r@ == v@.subrange(from as int, i as int),
        decreases to - i,
    {
        r.push(v[i]);
        i += 1;
        assert(v@.subrange(from as int, i as int) == v@.subrange(from as int, i as int - 1).push(
            v@[i as int - 1],
        ));
    }
    r
}

/// The characters of `a` followed by those of `b`.
pub fn joined(a: &Vec<char>, b: &Vec<char>) -> (r: Vec<char>)
    ensures
        r@ == a@ + b@,
{
    let mut r: Vec<char> = Vec::new();
    let mut i: usize = 0;
    while i < a.len()
        invariant
            i <= a.len(),
            r@ == a@.take(i as int),
        decreases a.len() - i,
    {
        r.push(a[i]);
        i += 1;
        assert(a@.take(i as int) == a@.take(i as int - 1).push(a@[i as int - 1]));
    }
    assert(a@.take(a.len() as int) == a@);
    let mut j: usize = 0;
    while j < b.len()
        invariant
            j <= b.len(),
            r@ == a@ + b@.take(j as int),
        decreases b.len() - j,
    {
        r.push(b[j]);
        j += 1;
        assert(a@ + b@.take(j as int) == (a@ + b@.take(j as int - 1)).push(b@[j as int - 1]));
    }
    assert(b@.take(b.len() as int) == b@);
    r
}

/// The characters with the Unicode property White_Space.
pub open spec fn is_white_space(c: char) -> bool {
    let n = c as u32;
    ||| 0x09 <= n <= 0x0d
    ||| n == 0x20
    ||| n == 0x85
    ||| n == 0xa0
    ||| n == 0x1680
    ||| 0x2000 <= n <= 0x200a
    ||| n == 0x2028
    ||| n == 0x2029
    ||| n == 0x202f
    ||| n == 0x205f
    ||| n == 0x3000
}

/// Whether `c` has the Unicode property White_Space.
pub fn char_is_white_space(c: char) -> (b: bool)
    ensures
        b == is_white_space(c),
{
    let n: u32 = c as u32;
    (0x09 <= n && n <= 0x0d) || n == 0x20 || n == 0x85 || n == 0xa0 || n == 0x1680 || (0x2000 <= n
        && n <= 0x200a) || n == 0x2028 || n == 0x2029 || n == 0x202f || n == 0x205f || n == 0x3000
}

/// `s` without its leading white space.
pub open spec fn trim_start(s: Seq<char>) -> Seq<char>
    decreases s.len(),
{
    if s.len() > 0 && is_white_space(s[0]) {
        trim_start(s.drop_first())
    } else {
        s
    }
}

/// `s` without its trailing white space.
pub open spec fn trim_end(s: Seq<char>) -> Seq<char>
    decreases s.len(),
{
    if s.len() > 0 && is_white_space(s.last()) {
        trim_end(s.drop_last())
    } else {
        s
    }
}

/// `s` without its leading and trailing white space.
pub open spec fn trimmed(s: Seq<char>) -> Seq<char> {
    trim_end(trim_start(s))
}

/// What `trimmed` keeps is one stretch of the input, it neither starts nor
/// ends with white space, and everything around it is white space.
pub proof fn lemma_trimmed_is_the_inner_stretch(s: Seq<char>)
    ensures
        exists|i: int, j: int|
            0 <= i <= j <= s.len() && #[trigger] s.subrange(i, j) == trimmed(s) && (forall|k: int|
                0 <= k < i || j <= k < s.len() ==> is_white_space(s[k])),
        trimmed(s).len() > 0 ==> !is_white_space(trimmed(s)[0]) && !is_white_space(
            trimmed(s).last(),
        ),
{
    let (i, j) = lemma_trim_bounds(s);
    assert(s.subrange(i, j) == trimmed(s));
}

/// Positions `i` and `j` that delimit `trimmed(s)` inside `s`.
proof fn lemma_trim_bounds(s: Seq<char>) -> (b: (int, int))
    ensures
        0 <= b.0 <= b.1 <= s.len(),
        s.subrange(b.0, b.1) == trimmed(s),
        trim_start(s) == s.skip(b.0),
        forall|k: int| 0 <= k < b.0 || b.1 <= k < s.len() ==> is_white_space(s[k]),
        b.0 < b.1 ==> !is_white_space(s[b.0]) && !is_white_space(s[b.1 - 1]),
{
    let i = lemma_trim_start_bound(s);
    let t = s.skip(i);
    let m = lemma_trim_end_bound(t);
    assert(t.take(m) == s.subrange(i, i + m));
    assert forall|k: int| i + m <= k < s.len() implies is_white_space(s[k]) by {
        assert(s[k] == t[k - i]);
    }
    if m > 0 {
        assert(t[0] == s[i]);
        assert(t[m - 1] == s[i + m - 1]);
        lemma_trim_end_keeps_head(t);
    }
    (i, i + m)
}

/// The position at which `trim_start(s)` begins.
proof fn lemma_trim_start_bound(s: Seq<char>) -> (i: int)
    ensures
        0 <= i <= s.len(),
        trim_start(s) == s.skip(i),
        forall|k: int| 0 <= k < i ==> is_white_space(s[k]),
        i < s.len() ==> !is_white_space(s[i]),
    decreases s.len(),
{
    if s.len() > 0 && is_white_space(s[0]) {
        let r = s.drop_first();
        let i = lemma_trim_start_bound(r);
        assert(r.skip(i) == s.skip(i + 1));
        assert forall|k: int| 0 <= k < i + 1 implies is_white_space(s[k]) by {
            if k > 0 {
                assert(s[k] == r[k - 1]);
            }
        }
        if i + 1 < s.len() {
            assert(s[i + 1] == r[i]);
        }
        i + 1
    } else {
        assert(s.skip(0) == s);
        0
    }
}

/// The length that `trim_end(s)` keeps.
proof fn lemma_trim_end_bound(s: Seq<char>) -> (j: int)
    ensures
        0 <= j <= s.len(),
        trim_end(s) == s.take(j),
        forall|k: int| j <= k < s.len() ==> is_white_space(s[k]),
        j > 0 ==> !is_white_space(s[j - 1]),
    decreases s.len(),
{
    if s.len() > 0 && is_white_space(s.last()) {
        let r = s.drop_last();
        let j = lemma_trim_end_bound(r);
        assert(r.take(j) == s.take(j));
        assert forall|k: int| j <= k < s.len() implies is_white_space(s[k]) by {
            if k < r.len() {
                assert(s[k] == r[k]);
            }
        }
        j
    } else {
        assert(s.take(s.len() as int) == s);
        s.len() as int
    }
}

/// Trimming the end of a sequence that starts with no white space keeps
/// its first character.
proof fn lemma_trim_end_keeps_head(s: Seq<char>)
    requires
        s.len() > 0,
        !is_white_space(s[0]),
    ensures
        trim_end(s).len() > 0,
        trim_end(s)[0] == s[0],
    decreases s.len(),
{
    if is_white_space(s.last()) {
        lemma_trim_end_keeps_head(s.drop_last());
    }
}

/// `v` without its leading and trailing white space.
pub fn trim(v: &Vec<char>) -> (r: Vec<char>)
    ensures
        r@ == trimmed(v@),
{
    let n = v.len();
    let mut i: usize = 0;
    while i < n && char_is_white_space(v[i])
        invariant
            i <= n == v.len(),
            forall|k: int| 0 <= k < i ==> is_white_space(v@[k]),
        decreases n - i,
    {
        i += 1;
    }
    let mut j: usize = n;
    while j > i && char_is_white_space(v[j - 1])
        invariant
            i <= j <= n == v.len(),
            forall|k: int| j <= k < n ==> is_white_space(v@[k]),
        decreases j,
    {
        j -= 1;
    }
    proof {
        let b = lemma_trim_bounds(v@);
        // Both pairs delimit the same stretch: the white space around it is
        // maximal on either side.
        if b.0 < b.1 {
            assert(i as int == b.0);
            assert(j as int == b.1);
        } else {
            assert(forall|k: int| 0 <= k < v@.len() ==> is_white_space(v@[k]));
            assert(i == j);
            assert(v@.subrange(i as int, j as int) == v@.subrange(b.0, b.1));
        }
    }
    slice_of(v, i, j)
}

/// `s` without its space characters (U+0020).
pub open spec fn without_spaces(s: Seq<char>) -> Seq<char> {
    s.filter(|c: char| c != ' ')
}

/// `v` without its space characters (U+0020).
pub fn strip_spaces(v: &Vec<char>) -> (r: Vec<char>)
    ensures
        r@ == without_spaces(v@),
{
    let mut r: Vec<char> = Vec::new();
    let mut i: usize = 0;
    let ghost keep = |c: char| c != ' ';
    proof {
        assert(v@.take(0).filter(keep) == Seq::<char>::empty());
    }
    while i < v.len()
        invariant
            i <= v.len(),
            keep == (|c: char| c != ' '),
            r@ == v@.take(i as int).filter(keep),
        decreases v.len() - i,
    {
        let c = v[i];
        proof {
            let before = v@.take(i as int);
            assert(v@.take(i as int + 1) == before.push(c));
            assert(before.push(c).drop_last() == before);
            reveal(Seq::filter);
        }
        if c != ' ' {
            r.push(c);
        }
        i += 1;
    }
    assert(v@.take(v.len() as int) == v@);
    r
}

/// Whether `v` begins with the characters of `prefix`.
pub fn starts_with(v: &Vec<char>, prefix: &Vec<char>) -> (b: bool)
    ensures
        b == prefix@.is_prefix_of(v@),
{
    if prefix.len() > v.len() {
        return false;
    }
    let mut i: usize = 0;
    while i < prefix.len()
        invariant
            i <= prefix.len() <= v.len(),
            forall|k: int| 0 <= k < i ==> prefix@[k] == v@[k],
        decreases prefix.len() - i,
    {
        if prefix[i] != v[i] {
            assert(v@.subrange(0, prefix@.len() as int)[i as int] != prefix@[i as int]);
            return false;
        }
        i += 1;
    }
    assert(v@.subrange(0, prefix@.len() as int) =~= prefix@);
    true
}

/// Whether `v` ends with the characters of `suffix`.
pub fn ends_with(v: &Vec<char>, suffix: &Vec<char>) -> (b: bool)
    ensures
        b == suffix@.is_suffix_of(v@),
{
    if suffix.len() > v.len() {
        return false;
    }
    let shift = v.len() - suffix.len();
    let mut i: usize = 0;
    while i < suffix.len()
        invariant
            i <= suffix.len() <= v.len(),
            shift == v.len() - suffix.len(),
            forall|k: int| 0 <= k < i ==> suffix@[k] == v@[shift + k],
        decreases suffix.len() - i,
    {
        if suffix[i] != v[shift + i] {
            assert(v@.subrange(shift as int, v@.len() as int)[i as int] != suffix@[i as int]);
            return false;
        }
        i += 1;
    }
    assert(v@.subrange(shift as int, v@.len() as int) =~= suffix@);
    true
}

/// The position of the first occurrence of `c` in `s`, if there is one.
pub open spec fn first_position_of(s: Seq<char>, c: char) -> Option<int>
    decreases s.len(),
{
    if s.len() == 0 {
        None
    } else if s[0] == c {
        Some(0)
    } else {
        match first_position_of(s.drop_first(), c) {
            Some(p) => Some(p + 1),
            None => None,
        }
    }
}

/// `first_position_of` gives a position that holds `c` and before which
/// `c` does not occur; it gives none only if `c` does not occur at all.
pub proof fn lemma_first_position_of(s: Seq<char>, c: char)
    ensures
        match first_position_of(s, c) {
            Some(p) => 0 <= p < s.len() && s[p] == c && forall|k: int| 0 <= k < p ==> s[k] != c,
            None => forall|k: int| 0 <= k < s.len() ==> s[k] != c,
        },
    decreases s.len(),
{
    if s.len() > 0 && s[0] != c {
        let r = s.drop_first();
        lemma_first_position_of(r, c);
        assert(forall|k: int| 0 <= k < r.len() ==> r[k] == s[k + 1]);
        match first_position_of(r, c) {
            Some(p) => {
                assert forall|k: int| 0 <= k < p + 1 implies s[k] != c by {
                    if k > 0 {
                        assert(s[k] == r[k - 1]);
                    }
                }
            },
            None => {
                assert forall|k: int| 0 <= k < s.len() implies s[k] != c by {
                    if k > 0 {
                        assert(s[k] == r[k - 1]);
                    }
                }
            },
        }
    }
}

/// A position that holds `c` and before which `c` does not occur is the
/// first position of `c`.
pub proof fn lemma_first_position_is(s: Seq<char>, c: char, p: int)
    requires
        0 <= p <= s.len(),
        forall|k: int| 0 <= k < p ==> s[k] != c,
        p < s.len() ==> s[p] == c,
    ensures
        first_position_of(s, c) == if p < s.len() {
            Some(p)
        } else {
            None
        },
    decreases s.len(),
{
    if s.len() > 0 && p > 0 {
        let r = s.drop_first();
        assert(forall|k: int| 0 <= k < r.len() ==> r[k] == s[k + 1]);
        lemma_first_position_is(r, c, p - 1);
    }
}

/// The position of the first occurrence of `c` in `v`, if there is one.
pub fn find(v: &Vec<char>, c: char) -> (r: Option<usize>)
    ensures
        match r {
            Some(p) => first_position_of(v@, c) == Some(p as int),
            None => first_position_of(v@, c) is None,
        },
{
    let mut i: usize = 0;
    while i < v.len()
        invariant
            i <= v.len(),
            forall|k: int| 0 <= k < i ==> v@[k] != c,
        decreases v.len() - i,
    {
        if v[i] == c {
            proof {
                lemma_first_position_is(v@, c, i as int);
            }
            return Some(i);
        }
        i += 1;
    }
    proof {
        lemma_first_position_is(v@, c, v.len() as int);
    }
    None
}

/// The position of the last occurrence of `c` in `s`, if there is one.
pub open spec fn last_position_of(s: Seq<char>, c: char) -> Option<int>
    decreases s.len(),
{
    if s.len() == 0 {
        None
    } else if s.last() == c {
        Some(s.len() - 1)
    } else {
        last_position_of(s.drop_last(), c)
    }
}

/// `last_position_of` gives a position that holds `c` and after which `c`
/// does not occur; it gives none only if `c` does not occur at all.
pub proof fn lemma_last_position_of(s: Seq<char>, c: char)
    ensures
        match last_position_of(s, c) {
            Some(p) => 0 <= p < s.len() && s[p] == c && forall|k: int|
                p < k < s.len() ==> s[k] != c,
            None => forall|k: int| 0 <= k < s.len() ==> s[k] != c,
        },
    decreases s.len(),
{
    if s.len() > 0 && s.last() != c {
        let r = s.drop_last();
        lemma_last_position_of(r, c);
        assert(forall|k: int| 0 <= k < r.len() ==> r[k] == s[k]);
    }
}

/// The position of the last occurrence of `c` in `v`, if there is one.
pub fn rfind(v: &Vec<char>, c: char) -> (r: Option<usize>)
    ensures
        match r {
            Some(p) => last_position_of(v@, c) == Some(p as int),
            None => last_position_of(v@, c) is None,
        },
{
    let mut j: usize = v.len();
    assert(v@.take(v.len() as int) == v@);
    while j > 0
        invariant
            j <= v.len(),
            last_position_of(v@, c) == last_position_of(v@.take(j as int), c),
        decreases j,
    {
        if v[j - 1] == c {
            return Some(j - 1);
        }
        assert(v@.take(j as int).drop_last() == v@.take(j as int - 1));
        j -= 1;
    }
    None
}

} // verus!
