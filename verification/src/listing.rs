//! Discovery of the files on offer: the latest snapshot folder of the
//! archive's index, and the files of that folder's listing with the sizes
//! it advertises.

use vstd::prelude::*;
use crate::size::{parse_size, size_of_token};
use crate::text::{chars_of, joined, ends_with, starts_with, string_of};

verus! {

/// A file on offer, with the size that the listing advertises for it. The
/// size is 0 where the listing gives none; it serves to order and to
/// announce the files, never to judge a transfer complete.
#[derive(Clone, Debug, PartialEq, Eq)]
pub struct RemoteFile {
    pub url: String,
    pub advertised_size_bytes: u64,
}

/// A `RemoteFile` with its URL as a sequence of characters.
pub struct RemoteFileView {
    pub url: Seq<char>,
    pub advertised_size_bytes: u64,
}

impl View for RemoteFile {
    type V = RemoteFileView;

    open spec fn view(&self) -> RemoteFileView {
        RemoteFileView { url: self.url@, advertised_size_bytes: self.advertised_size_bytes }
    }
}

impl DeepView for RemoteFile {
    type V = RemoteFileView;

    open spec fn deep_view(&self) -> RemoteFileView {
        self@
    }
}

/// What the logic reads of one table row of a listing: the `href`
/// attribute of each anchor in the row (none where the anchor has no such
/// attribute), and the text of each of its cells.
#[derive(Clone, Debug, PartialEq, Eq)]
pub struct TableRow {
    pub links: Vec<Option<String>>,
    pub cells: Vec<String>,
}

/// A `TableRow` with its strings as sequences of characters.
pub struct TableRowView {
    pub links: Seq<Option<Seq<char>>>,
    pub cells: Seq<Seq<char>>,
}

impl DeepView for TableRow {
    type V = TableRowView;

    open spec fn deep_view(&self) -> TableRowView {
        TableRowView { links: self.links.deep_view(), cells: self.cells.deep_view() }
    }
}

/// Why discovery ended without a list of files.
#[derive(Clone, Copy, Debug, PartialEq, Eq, Structural)]
pub enum DiscoveryError {
    /// A listing could not be fetched within the attempts allowed.
    Unreachable,
    /// The index names no snapshot folder.
    NoSnapshotFolder,
    /// The snapshot folder lists no file to download.
    NoFiles,
}

/// Name for what scraper reads of an HTML document with one selector: the
/// document is parsed, the elements that match `selector` are taken in
/// the order in which scraper yields them, and of each the attribute
/// `attribute` is read, none where the element has no such attribute. No
/// element is read where `selector` is no valid selector.
pub uninterp spec fn selected_attributes(
    html: Seq<char>,
    selector: Seq<char>,
    attribute: Seq<char>,
) -> Seq<Option<Seq<char>>>;

/// Name for what scraper reads of the rows of an HTML document: the
/// document is parsed, the elements that match `row` are taken in the
/// order in which scraper yields them, and of each the attribute
/// `attribute` of every element below it that matches `link`, and the
/// text nodes, put together, below every element below it that matches
/// `cell`. No row is read where one of the three is no valid selector.
pub uninterp spec fn selected_rows(
    html: Seq<char>,
    row: Seq<char>,
    link: Seq<char>,
    attribute: Seq<char>,
    cell: Seq<char>,
) -> Seq<TableRowView>;

/// The `href` attributes of the anchor elements of an HTML document: one
/// entry for each anchor, none where it has no `href`.
pub open spec fn document_anchor_hrefs(html: Seq<char>) -> Seq<Option<Seq<char>>> {
    selected_attributes(html, "a"@, "href"@)
}

/// The table rows of an HTML document: for each `tr` the `href` of each
/// anchor below it, and the text of each `td` below it.
pub open spec fn document_table_rows(html: Seq<char>) -> Seq<TableRowView> {
    selected_rows(html, "tr"@, "a"@, "href"@, "td"@)
}

/// Parses `html` with `scraper::Html::parse_document` and `selector` with
/// `scraper::Selector::parse`, iterates over `Html::select`, and reads the
/// attribute of each element with `Element::attr`. The parser takes any
/// text, and what comes out depends on the three texts alone; the
/// contract only names it.
#[verifier::external_body]
pub(crate) fn select_attributes(html: &str, selector: &str, attribute: &str) -> (found: Vec<
    Option<String>,
>)
    ensures
        found.deep_view() == selected_attributes(html@, selector@, attribute@),
{
    let document = scraper::Html::parse_document(html);
    match scraper::Selector::parse(selector) {
        Ok(matching) => {
            document.select(&matching).map(|e| e.value().attr(attribute).map(String::from)).collect()
        },
        Err(_) => Vec::new(),
    }
}

/// Parses `html` with `scraper::Html::parse_document` and the selectors
/// with `scraper::Selector::parse`, iterates over `Html::select` for the
/// rows, and below each row over `ElementRef::select` for the links, read
/// with `Element::attr`, and for the cells, read with `ElementRef::text`.
/// What comes out depends on the five texts alone; the contract only
/// names it.
#[verifier::external_body]
pub(crate) fn select_rows(html: &str, row: &str, link: &str, attribute: &str, cell: &str) -> (rows:
    Vec<TableRow>)
    ensures
        rows.deep_view() == selected_rows(html@, row@, link@, attribute@, cell@),
{
    let document = scraper::Html::parse_document(html);
    let rows = scraper::Selector::parse(row);
    let (links, cells) = (scraper::Selector::parse(link), scraper::Selector::parse(cell));
    match (rows, links, cells) {
        (Ok(row), Ok(link), Ok(cell)) => document.select(&row).map(|r| TableRow {
            links: r.select(&link).map(|a| a.value().attr(attribute).map(String::from)).collect(),
            cells: r.select(&cell).map(|c| c.text().collect::<String>()).collect(),
        }).collect(),
        _ => Vec::new(),
    }
}

/// The order of strings: by the first character in which they differ, a
/// prefix before what continues it. Characters go by code point, which is
/// also the order of their UTF-8 bytes.
pub open spec fn precedes_or_equals(a: Seq<char>, b: Seq<char>) -> bool
    decreases a.len(),
{
    if a.len() == 0 {
        true
    } else if b.len() == 0 {
        false
    } else if a[0] != b[0] {
        (a[0] as u32) < (b[0] as u32)
    } else {
        precedes_or_equals(a.drop_first(), b.drop_first())
    }
}

/// Two strings that precede or equal each other are the same string.
pub proof fn lemma_order_is_antisymmetric(a: Seq<char>, b: Seq<char>)
    requires
        precedes_or_equals(a, b),
        precedes_or_equals(b, a),
    ensures
        a == b,
    decreases a.len(),
{
    if a.len() == 0 || b.len() == 0 {
        assert(a =~= b);
    } else {
        lemma_order_is_antisymmetric(a.drop_first(), b.drop_first());
        assert(a =~= seq![a[0]] + a.drop_first());
        assert(b =~= seq![b[0]] + b.drop_first());
    }
}

/// Of two strings one precedes or equals the other.
pub proof fn lemma_order_is_total(a: Seq<char>, b: Seq<char>)
    ensures
        precedes_or_equals(a, b) || precedes_or_equals(b, a),
    decreases a.len(),
{
    if a.len() > 0 && b.len() > 0 {
        if a[0] == b[0] {
            lemma_order_is_total(a.drop_first(), b.drop_first());
        } else {
            assert(a[0] as u32 != b[0] as u32) by {
                vstd::utf8::char_u32_cast(a[0], a[0] as u32);
                vstd::utf8::char_u32_cast(b[0], b[0] as u32);
            }
        }
    }
}

/// The order of strings carries over: if `a` precedes or equals `b`, and
/// `b` does `c`, then `a` does `c`.
pub proof fn lemma_order_is_transitive(a: Seq<char>, b: Seq<char>, c: Seq<char>)
    requires
        precedes_or_equals(a, b),
        precedes_or_equals(b, c),
    ensures
        precedes_or_equals(a, c),
    decreases a.len(),
{
    if a.len() > 0 && b.len() > 0 && c.len() > 0 && a[0] == b[0] && b[0] == c[0] {
        lemma_order_is_transitive(a.drop_first(), b.drop_first(), c.drop_first());
    }
}

/// Whether `a` precedes or equals `b` in the order of strings.
pub fn is_at_most(a: &Vec<char>, b: &Vec<char>) -> (r: bool)
    ensures
        r == precedes_or_equals(a@, b@),
{
    let mut i: usize = 0;
    assert(a@.skip(0) == a@ && b@.skip(0) == b@);
    while i < a.len() && i < b.len()
        invariant
            i <= a.len(),
            i <= b.len(),
            precedes_or_equals(a@, b@) == precedes_or_equals(a@.skip(i as int), b@.skip(i as int)),
        decreases a.len() - i,
    {
        let x = a[i];
        let y = b[i];
        assert(a@.skip(i as int)[0] == x && b@.skip(i as int)[0] == y);
        if x != y {
            return (x as u32) < (y as u32);
        }
        assert(a@.skip(i as int).drop_first() == a@.skip(i as int + 1));
        assert(b@.skip(i as int).drop_first() == b@.skip(i as int + 1));
        i += 1;
    }
    i == a.len()
}

/// The name of a snapshot folder: it starts with `20` and ends with `/`.
pub open spec fn is_snapshot_folder(href: Seq<char>) -> bool {
    seq!['2', '0'].is_prefix_of(href) && seq!['/'].is_suffix_of(href)
}

/// Whether one of `hrefs` names a snapshot folder.
pub open spec fn has_snapshot_folder(hrefs: Seq<Option<Seq<char>>>) -> bool {
    exists|i: int| 0 <= i < hrefs.len() && is_snapshot_href(#[trigger] hrefs[i])
}

/// Whether `href` is there and names a snapshot folder.
pub open spec fn is_snapshot_href(href: Option<Seq<char>>) -> bool {
    href matches Some(h) && is_snapshot_folder(h)
}

/// Whether `folder` is the latest snapshot folder among `hrefs`: it is one
/// of them, and every other snapshot folder precedes or equals it. Folder
/// names hold year and month in a fixed width, so the last in the order
/// of strings is the latest.
pub open spec fn is_latest_snapshot(hrefs: Seq<Option<Seq<char>>>, folder: Seq<char>) -> bool {
    &&& is_snapshot_folder(folder)
    &&& exists|i: int| 0 <= i < hrefs.len() && #[trigger] hrefs[i] == Some(folder)
    &&& forall|j: int|
        0 <= j < hrefs.len() && is_snapshot_href(#[trigger] hrefs[j]) ==> precedes_or_equals(
            hrefs[j]->0,
            folder,
        )
}

/// There is at most one latest snapshot folder.
pub proof fn lemma_latest_snapshot_is_unique(
    hrefs: Seq<Option<Seq<char>>>,
    a: Seq<char>,
    b: Seq<char>,
)
    requires
        is_latest_snapshot(hrefs, a),
        is_latest_snapshot(hrefs, b),
    ensures
        a == b,
{
    let i = choose|i: int| 0 <= i < hrefs.len() && #[trigger] hrefs[i] == Some(a);
    let j = choose|j: int| 0 <= j < hrefs.len() && #[trigger] hrefs[j] == Some(b);
    assert(is_snapshot_href(hrefs[i]));
    assert(is_snapshot_href(hrefs[j]));
    lemma_order_is_antisymmetric(a, b);
}

/// Whether `href` names a snapshot folder.
pub fn names_snapshot_folder(href: &Vec<char>) -> (b: bool)
    ensures
        b == is_snapshot_folder(href@),
{
    let head: Vec<char> = vec!['2', '0'];
    let tail: Vec<char> = vec!['/'];
    assert(head@ =~= seq!['2', '0']);
    assert(tail@ =~= seq!['/']);
    starts_with(href, &head) && ends_with(href, &tail)
}

/// The latest snapshot folder among the `href` attributes of an index
/// page, if any of them names a snapshot folder.
pub fn latest_snapshot_of(hrefs: &Vec<Option<String>>) -> (latest: Option<String>)
    ensures
        match latest {
            Some(folder) => is_latest_snapshot(hrefs.deep_view(), folder@),
            None => !has_snapshot_folder(hrefs.deep_view()),
        },
{
    let mut best: Option<Vec<char>> = None;
    let mut i: usize = 0;
    let ghost all = hrefs.deep_view();
    while i < hrefs.len()
        invariant
            i <= hrefs.len(),
            all == hrefs.deep_view(),
            all.len() == hrefs.len(),
            match best {
                Some(b) => is_latest_snapshot(all.take(i as int), b@),
                None => !has_snapshot_folder(all.take(i as int)),
            },
        decreases hrefs.len() - i,
    {
        let ghost seen = all.take(i as int);
        let ghost next = all.take(i as int + 1);
        assert(next == seen.push(all[i as int]));
        assert(forall|k: int| 0 <= k < seen.len() ==> seen[k] == next[k]);
        assert(all[i as int] == hrefs@[i as int].deep_view());
        let mut chosen: Option<Vec<char>> = None;
        match &hrefs[i] {
            Some(href) => {
                let name = chars_of(href.as_str());
                assert(all[i as int] == Some(name@));
                if names_snapshot_folder(&name) {
                    let later = match &best {
                        Some(b) => {
                            proof {
                                lemma_order_is_total(b@, name@);
                            }
                            is_at_most(b, &name)
                        },
                        None => true,
                    };
                    if later {
                        chosen = Some(name);
                    }
                }
            },
            None => {},
        }
        match chosen {
            Some(name) => {
                proof {
                    assert(next[i as int] == Some(name@));
                    assert forall|j: int|
                        0 <= j < next.len() && is_snapshot_href(
                            #[trigger] next[j],
                        ) implies precedes_or_equals(next[j]->0, name@) by {
                        if j < i {
                            assert(is_snapshot_href(seen[j]));
                            if best is Some {
                                lemma_order_is_transitive(seen[j]->0, best->0@, name@);
                            }
                        } else {
                            lemma_order_is_total(name@, name@);
                        }
                    }
                }
                best = Some(name);
            },
            None => {
                proof {
                    if best is Some {
                        let b = best->0@;
                        let k = choose|k: int| 0 <= k < seen.len() && #[trigger] seen[k] == Some(b);
                        assert(next[k] == Some(b));
                        assert forall|j: int|
                            0 <= j < next.len() && is_snapshot_href(
                                #[trigger] next[j],
                            ) implies precedes_or_equals(next[j]->0, b) by {
                            if j < i {
                                assert(is_snapshot_href(seen[j]));
                            }
                        }
                    } else {
                        assert forall|j: int| 0 <= j < next.len() implies !is_snapshot_href(
                            #[trigger] next[j],
                        ) by {
                            if j < i {
                                assert(!is_snapshot_href(seen[j]));
                            }
                        }
                    }
                }
            },
        }
        i += 1;
    }
    assert(all.take(hrefs.len() as int) == all);
    match best {
        Some(b) => Some(string_of(&b)),
        None => None,
    }
}

/// The latest snapshot folder that the index page `index_html` names, or
/// the error that it names none.
pub fn latest_snapshot(index_html: &str) -> (latest: Result<String, DiscoveryError>)
    ensures
        match latest {
            Ok(folder) => is_latest_snapshot(document_anchor_hrefs(index_html@), folder@),
            Err(e) => e == DiscoveryError::NoSnapshotFolder && !has_snapshot_folder(
                document_anchor_hrefs(index_html@),
            ),
        },
{
    let hrefs = select_attributes(index_html, "a", "href");
    match latest_snapshot_of(&hrefs) {
        Some(folder) => Ok(folder),
        None => Err(DiscoveryError::NoSnapshotFolder),
    }
}

/// The URL of the snapshot folder `folder` of the archive at `base_url`:
/// the folder's name behind the archive's URL.
pub fn snapshot_url(base_url: &str, folder: &str) -> (url: String)
    ensures
        url@ == base_url@ + folder@,
{
    string_of(&joined(&chars_of(base_url), &chars_of(folder)))
}

/// The URL that `href` stands for in the listing of the folder at
/// `folder_url`: `href` itself where it starts with `http`, else `href`
/// behind the folder's URL.
pub open spec fn resolved_url(folder_url: Seq<char>, href: Seq<char>) -> Seq<char> {
    if seq!['h', 't', 't', 'p'].is_prefix_of(href) {
        href
    } else {
        folder_url + href
    }
}

/// The file that a row of a folder's listing offers, if it offers one: the
/// row's first anchor must have an `href` that ends in `.zip`. Its size is
/// what the row's fourth cell advertises, 0 where the row has fewer cells.
pub open spec fn file_of_row(folder_url: Seq<char>, row: TableRowView) -> Option<RemoteFileView> {
    if row.links.len() > 0 && row.links[0] is Some && seq!['.', 'z', 'i', 'p'].is_suffix_of(
        row.links[0]->0,
    ) {
        Some(
            RemoteFileView {
                url: resolved_url(folder_url, row.links[0]->0),
                advertised_size_bytes: if row.cells.len() >= 4 {
                    size_of_token(row.cells[3])
                } else {
                    0
                },
            },
        )
    } else {
        None
    }
}

/// The files that the rows of a folder's listing offer, in the order of
/// the rows.
pub open spec fn files_of_rows(folder_url: Seq<char>, rows: Seq<TableRowView>) -> Seq<
    RemoteFileView,
> {
    rows.filter_map(|row: TableRowView| file_of_row(folder_url, row))
}

/// The URL that `href` stands for in the listing of the folder at
/// `folder_url`.
pub fn resolve_url(folder_url: &Vec<char>, href: &Vec<char>) -> (url: Vec<char>)
    ensures
        url@ == resolved_url(folder_url@, href@),
{
    let scheme: Vec<char> = vec!['h', 't', 't', 'p'];
    assert(scheme@ =~= seq!['h', 't', 't', 'p']);
    if starts_with(href, &scheme) {
        let none: Vec<char> = Vec::new();
        assert(href@ + none@ == href@);
        joined(href, &none)
    } else {
        joined(folder_url, href)
    }
}

/// The file that `row` offers in the listing of the folder at
/// `folder_url`, if it offers one.
pub fn remote_file_of_row(folder_url: &Vec<char>, row: &TableRow) -> (file: Option<RemoteFile>)
    ensures
        file.deep_view() == file_of_row(folder_url@, row.deep_view()),
{
    if row.links.len() == 0 {
        return None;
    }
    assert(row.links.deep_view()[0] == row.links@[0].deep_view());
    match &row.links[0] {
        None => None,
        Some(link) => {
            let href = chars_of(link.as_str());
            let ending: Vec<char> = vec!['.', 'z', 'i', 'p'];
            assert(ending@ =~= seq!['.', 'z', 'i', 'p']);
            if !ends_with(&href, &ending) {
                return None;
            }
            let size = if row.cells.len() >= 4 {
                assert(row.cells.deep_view()[3] == row.cells@[3].deep_view());
                parse_size(row.cells[3].as_str())
            } else {
                0
            };
            Some(
                RemoteFile {
                    url: string_of(&resolve_url(folder_url, &href)),
                    advertised_size_bytes: size,
                },
            )
        },
    }
}

/// The files that `rows` offer in the listing of the folder at
/// `folder_url`, in the order of the rows.
pub fn remote_files_of_rows(folder_url: &str, rows: &Vec<TableRow>) -> (files: Vec<RemoteFile>)
    ensures
        files.deep_view() == files_of_rows(folder_url@, rows.deep_view()),
{
    let base = chars_of(folder_url);
    let mut files: Vec<RemoteFile> = Vec::new();
    let mut i: usize = 0;
    let ghost all = rows.deep_view();
    let ghost pick = |row: TableRowView| file_of_row(folder_url@, row);
    assert(all.take(0) == Seq::<TableRowView>::empty());
    assert(files.deep_view() == Seq::<RemoteFileView>::empty());
    while i < rows.len()
        invariant
            i <= rows.len(),
            base@ == folder_url@,
            all == rows.deep_view(),
            all.len() == rows.len(),
            pick == (|row: TableRowView| file_of_row(folder_url@, row)),
            files.deep_view() == all.take(i as int).filter_map(pick),
        decreases rows.len() - i,
    {
        let ghost before = files.deep_view();
        let found = remote_file_of_row(&base, &rows[i]);
        proof {
            assert(all[i as int] == rows@[i as int].deep_view());
            assert(all.take(i as int + 1).drop_last() == all.take(i as int));
            assert(all.take(i as int + 1).last() == all[i as int]);
        }
        match found {
            Some(file) => {
                files.push(file);
                assert(files.deep_view() == before + seq![file.deep_view()]);
            },
            None => {},
        }
        i += 1;
    }
    assert(all.take(rows.len() as int) == all);
    files
}

/// Whether the files of `s` stand in ascending order of advertised size.
pub open spec fn is_sorted_by_size(s: Seq<RemoteFileView>) -> bool {
    forall|i: int, j: int|
        0 <= i <= j < s.len() ==> s[i].advertised_size_bytes <= s[j].advertised_size_bytes
}

/// `s` with `f` put behind the last file that is not larger than `f`.
pub open spec fn inserted_by_size(s: Seq<RemoteFileView>, f: RemoteFileView) -> Seq<
    RemoteFileView,
>
    decreases s.len(),
{
    if s.len() > 0 && s.last().advertised_size_bytes > f.advertised_size_bytes {
        inserted_by_size(s.drop_last(), f).push(s.last())
    } else {
        s.push(f)
    }
}

/// The files of `s` in ascending order of advertised size, files of one
/// size in the order in which they stand in `s`.
pub open spec fn sorted_by_size(s: Seq<RemoteFileView>) -> Seq<RemoteFileView>
    decreases s.len(),
{
    if s.len() == 0 {
        s
    } else {
        inserted_by_size(sorted_by_size(s.drop_last()), s.last())
    }
}

/// The files of `s` that advertise exactly `size` bytes, in order.
pub open spec fn of_size(s: Seq<RemoteFileView>, size: u64) -> Seq<RemoteFileView> {
    s.filter(|f: RemoteFileView| f.advertised_size_bytes == size)
}

/// One more file behind `s` joins the files of its own size.
proof fn lemma_of_size_push(s: Seq<RemoteFileView>, f: RemoteFileView, size: u64)
    ensures
        of_size(s.push(f), size) == if f.advertised_size_bytes == size {
            of_size(s, size).push(f)
        } else {
            of_size(s, size)
        },
{
    reveal(Seq::filter);
    assert(s.push(f).drop_last() == s);
}

/// Where `inserted_by_size` puts a file: `at` is a position of `s` behind
/// which every file is larger than `f`, and the file before it is not.
proof fn lemma_inserted_at(s: Seq<RemoteFileView>, f: RemoteFileView, at: int)
    requires
        0 <= at <= s.len(),
        forall|k: int| at <= k < s.len() ==> s[k].advertised_size_bytes > f.advertised_size_bytes,
        at > 0 ==> s[at - 1].advertised_size_bytes <= f.advertised_size_bytes,
    ensures
        inserted_by_size(s, f) == s.insert(at, f),
    decreases s.len() - at,
{
    if at < s.len() {
        lemma_inserted_at(s.drop_last(), f, at);
        assert(s.drop_last().insert(at, f).push(s.last()) == s.insert(at, f));
    } else {
        assert(s.push(f) == s.insert(at, f));
    }
}

/// Putting one more file into a sorted sequence leaves it sorted, adds
/// that file and no other, and keeps the files of each size in order.
proof fn lemma_inserted_by_size(s: Seq<RemoteFileView>, f: RemoteFileView, size: u64)
    requires
        is_sorted_by_size(s),
    ensures
        is_sorted_by_size(inserted_by_size(s, f)),
        inserted_by_size(s, f).len() == s.len() + 1,
        inserted_by_size(s, f).to_multiset() == s.to_multiset().insert(f),
        of_size(inserted_by_size(s, f), size) == of_size(s.push(f), size),
    decreases s.len(),
{
    broadcast use vstd::seq_lib::group_to_multiset_ensures;

    let r = inserted_by_size(s, f);
    if s.len() > 0 && s.last().advertised_size_bytes > f.advertised_size_bytes {
        let head = s.drop_last();
        let inner = inserted_by_size(head, f);
        lemma_inserted_by_size(head, f, size);
        assert(s == head.push(s.last()));
        assert(r == inner.push(s.last()));
        lemma_of_size_push(inner, s.last(), size);
        lemma_of_size_push(head, f, size);
        lemma_of_size_push(head, s.last(), size);
        lemma_of_size_push(s, f, size);
        // Sorted: what `inner` holds is `f` or a file of `head`.
        assert forall|i: int, j: int| 0 <= i <= j < r.len() implies r[i].advertised_size_bytes
            <= r[j].advertised_size_bytes by {
            if j == r.len() - 1 && i < j {
                assert(inner.to_multiset().count(inner[i]) > 0);
                if inner[i] != f {
                    assert(head.to_multiset().count(inner[i]) > 0);
                    let k = choose|k: int| 0 <= k < head.len() && head[k] == inner[i];
                    assert(s[k] == head[k]);
                }
            } else if i < j {
                assert(inner[i].advertised_size_bytes <= inner[j].advertised_size_bytes);
            }
        }
        assert(s.to_multiset() == head.to_multiset().insert(s.last()));
        assert(head.to_multiset().insert(f).insert(s.last()) == head.to_multiset().insert(
            s.last(),
        ).insert(f));
    } else {
        assert forall|i: int, j: int| 0 <= i <= j < r.len() implies r[i].advertised_size_bytes
            <= r[j].advertised_size_bytes by {
            if j == r.len() - 1 && i < j {
                if s.len() > 0 {
                    assert(s[i].advertised_size_bytes <= s.last().advertised_size_bytes);
                }
            }
        }
    }
}

/// Sorting by size gives an ascending sequence that holds the same files
/// as often as the input.
pub proof fn lemma_sorted_by_size(s: Seq<RemoteFileView>)
    ensures
        is_sorted_by_size(sorted_by_size(s)),
        sorted_by_size(s).len() == s.len(),
        sorted_by_size(s).to_multiset() == s.to_multiset(),
    decreases s.len(),
{
    broadcast use vstd::seq_lib::group_to_multiset_ensures;

    if s.len() > 0 {
        lemma_sorted_by_size(s.drop_last());
        lemma_inserted_by_size(sorted_by_size(s.drop_last()), s.last(), 0);
        assert(s == s.drop_last().push(s.last()));
    }
}

/// Sorting by size keeps the files of each size in the order in which they
/// came.
pub proof fn lemma_sorted_by_size_is_stable(s: Seq<RemoteFileView>, size: u64)
    ensures
        of_size(sorted_by_size(s), size) == of_size(s, size),
    decreases s.len(),
{
    if s.len() > 0 {
        let head = s.drop_last();
        lemma_sorted_by_size_is_stable(head, size);
        lemma_sorted_by_size(head);
        lemma_inserted_by_size(sorted_by_size(head), s.last(), size);
        lemma_of_size_push(sorted_by_size(head), s.last(), size);
        lemma_of_size_push(head, s.last(), size);
        assert(s == head.push(s.last()));
    }
}

/// The files in ascending order of advertised size, smallest first; files
/// of one size stay in the order in which they came.
pub fn sort_by_size(files: Vec<RemoteFile>) -> (sorted: Vec<RemoteFile>)
    ensures
        sorted.deep_view() == sorted_by_size(files.deep_view()),
        is_sorted_by_size(sorted.deep_view()),
        sorted.deep_view().to_multiset() == files.deep_view().to_multiset(),
        sorted.len() == files.len(),
{
    let ghost all = files.deep_view();
    let mut rest = files;
    let mut sorted: Vec<RemoteFile> = Vec::new();
    let ghost mut done: int = 0;
    assert(all.take(0) == Seq::<RemoteFileView>::empty());
    assert(sorted.deep_view() == Seq::<RemoteFileView>::empty());
    assert(rest.deep_view() == all.skip(0));
    while rest.len() > 0
        invariant
            0 <= done <= all.len(),
            rest.deep_view() == all.skip(done),
            rest.len() == all.len() - done,
            sorted.deep_view() == sorted_by_size(all.take(done)),
            sorted.len() == done,
        decreases rest.len(),
    {
        let ghost rest_before = rest.deep_view();
        let file = rest.remove(0);
        assert(file.deep_view() == all[done]) by {
            assert(rest_before[0] == file.deep_view());
        }
        assert(rest.deep_view() == all.skip(done + 1)) by {
            assert(rest.deep_view() =~= rest_before.remove(0));
        }
        let mut at: usize = sorted.len();
        while at > 0 && sorted[at - 1].advertised_size_bytes > file.advertised_size_bytes
            invariant
                at <= sorted.len(),
                forall|k: int|
                    at <= k < sorted.len() ==> sorted.deep_view()[k].advertised_size_bytes
                        > file.advertised_size_bytes,
            decreases at,
        {
            at -= 1;
        }
        proof {
            lemma_sorted_by_size(all.take(done));
            lemma_inserted_at(sorted.deep_view(), file.deep_view(), at as int);
            assert(all.take(done + 1).drop_last() == all.take(done));
            assert(all.take(done + 1).last() == all[done]);
        }
        let ghost sorted_before = sorted.deep_view();
        sorted.insert(at, file);
        assert(sorted.deep_view() =~= sorted_before.insert(at as int, file.deep_view()));
        proof {
            done = done + 1;
        }
    }
    proof {
        assert(all.take(all.len() as int) == all);
        lemma_sorted_by_size(all);
    }
    sorted
}

/// The sum of the sizes that `s` advertises.
pub open spec fn total_advertised(s: Seq<RemoteFileView>) -> nat
    decreases s.len(),
{
    if s.len() == 0 {
        0
    } else {
        total_advertised(s.drop_last()) + s.last().advertised_size_bytes as nat
    }
}

/// The sum of the sizes that `files` advertise, to announce the batch.
pub fn total_advertised_bytes(files: &Vec<RemoteFile>) -> (total: u128)
    ensures
        total == total_advertised(files.deep_view()),
{
    let mut total: u128 = 0;
    let mut i: usize = 0;
    let ghost all = files.deep_view();
    assert(all.take(0) == Seq::<RemoteFileView>::empty());
    while i < files.len()
        invariant
            i <= files.len(),
            all == files.deep_view(),
            total == total_advertised(all.take(i as int)),
            total <= i * u64::MAX,
        decreases files.len() - i,
    {
        assert(all.take(i as int + 1).drop_last() == all.take(i as int));
        assert(all.take(i as int + 1).last() == files@[i as int].deep_view());
        assert((i + 1) * u64::MAX <= u128::MAX) by (nonlinear_arith)
            requires
                i < usize::MAX,
                usize::MAX <= u64::MAX,
        ;
        assert((i + 1) * u64::MAX == i * u64::MAX + u64::MAX) by (nonlinear_arith);
        total = total + files[i].advertised_size_bytes as u128;
        i += 1;
    }
    assert(all.take(files.len() as int) == all);
    total
}

/// The files that the listing `listing_html` of the folder at
/// `folder_url` offers, smallest first, or the error that it offers none.
pub fn files_of_listing(folder_url: &str, listing_html: &str) -> (found: Result<
    Vec<RemoteFile>,
    DiscoveryError,
>)
    ensures
        match found {
            Ok(files) => files.len() > 0 && files.deep_view() == sorted_by_size(
                files_of_rows(folder_url@, document_table_rows(listing_html@)),
            ) && is_sorted_by_size(files.deep_view()) && files.deep_view().to_multiset()
                == files_of_rows(folder_url@, document_table_rows(listing_html@)).to_multiset(),
            Err(e) => e == DiscoveryError::NoFiles && files_of_rows(
                folder_url@,
                document_table_rows(listing_html@),
            ).len() == 0,
        },
{
    let rows = select_rows(listing_html, "tr", "a", "href", "td");
    let files = remote_files_of_rows(folder_url, &rows);
    if files.len() == 0 {
        Err(DiscoveryError::NoFiles)
    } else {
        Ok(sort_by_size(files))
    }
}

} // verus!
