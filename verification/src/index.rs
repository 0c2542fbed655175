//! Search in a docset's index of names.
//!
//! An entry of the index matches a query when the query is a substring of the
//! entry's name or of its path. Each entry that matches gives one result: the
//! entry's path, split at its first `#` into the page and the anchor.

use vstd::prelude::*;
use crate::model::{
    exact_views, index_views, ExactResult, ExactView, IndexEntry, IndexEntryView,
};
use crate::order::{exact_in_order, exact_sorted, sort_exact};
use crate::strings::{
    bytes_of, fold, fold_case, is_substring, lemma_boundary_around_ascii, lemma_bytes_of_valid,
    slice, str_occurs, text_of,
};

verus! {

/// The byte that parts a page's path from the anchor inside the page.
pub const FRAGMENT_DELIMITER: u8 = 0x23;

/// The offset of the first delimiter among the first `upto` bytes, or `upto`
/// where there is none.
pub open spec fn delimiter_offset(bytes: Seq<u8>, upto: int) -> int
    decreases upto,
{
    if upto <= 0 {
        0
    } else {
        let before = delimiter_offset(bytes, upto - 1);
        if before < upto - 1 || bytes[upto - 1] == FRAGMENT_DELIMITER {
            before
        } else {
            upto
        }
    }
}

/// The page and the anchor that a path names: what stands before the path's
/// first `#` and what stands after it. A path without `#` names no anchor.
pub open spec fn item_and_fragment(path: Seq<char>) -> ExactView {
    let bytes = bytes_of(path);
    let at = delimiter_offset(bytes, bytes.len() as int);
    if at < bytes.len() {
        ExactView {
            item: text_of(bytes.subrange(0, at)),
            fragment: Some(text_of(bytes.subrange(at + 1, bytes.len() as int))),
        }
    } else {
        ExactView { item: path, fragment: None }
    }
}

/// `delimiter_offset` is the least offset that holds a delimiter.
pub proof fn lemma_delimiter_offset(bytes: Seq<u8>, upto: int)
    requires
        0 <= upto <= bytes.len(),
    ensures
        0 <= delimiter_offset(bytes, upto) <= upto,
        forall|i: int| 0 <= i < delimiter_offset(bytes, upto) ==> bytes[i] != FRAGMENT_DELIMITER,
        delimiter_offset(bytes, upto) < upto ==> bytes[delimiter_offset(bytes, upto)]
            == FRAGMENT_DELIMITER,
    decreases upto,
{
    if upto > 0 {
        lemma_delimiter_offset(bytes, upto - 1);
    }
}

/// Splits a path into the page and the anchor that it names.
pub fn split_to_item_and_fragment(path: &str) -> (r: (String, Option<String>))
    ensures
        (ExactView {
            item: r.0@,
            fragment: match r.1 {
                Some(f) => Some(f@),
                None => None,
            },
        }) == item_and_fragment(path@),
{
    let bytes = path.as_bytes();
    let n: usize = bytes.len();
    let mut at: usize = 0;
    while at < n && bytes[at] != FRAGMENT_DELIMITER
        invariant
            n == bytes@.len(),
            bytes@ == bytes_of(path@),
            at <= n,
            delimiter_offset(bytes@, at as int) == at,
        decreases n - at,
    {
        at += 1;
    }
    proof {
        lemma_bytes_of_valid(path@);
        assert(delimiter_offset(bytes@, n as int) == at) by {
            lemma_offset_stays(bytes@, at as int, n as int);
        }
    }
    if at < n {
        proof {
            lemma_boundary_around_ascii(bytes@, at as int);
        }
        let item = slice(path, 0, at);
        let fragment = slice(path, at + 1, n);
        (item.to_owned(), Some(fragment.to_owned()))
    } else {
        (path.to_owned(), None)
    }
}

/// Once a delimiter is found, no later byte changes the offset.
proof fn lemma_offset_stays(bytes: Seq<u8>, at: int, upto: int)
    requires
        0 <= at <= upto <= bytes.len(),
        delimiter_offset(bytes, at) == at,
        at < bytes.len() ==> bytes[at] == FRAGMENT_DELIMITER,
    ensures
        delimiter_offset(bytes, upto) == at,
    decreases upto - at,
{
    if at < upto {
        lemma_offset_stays(bytes, at, upto - 1);
    }
}

/// Whether an entry matches a query: the query, folded, is a substring of the
/// entry's folded name or of its folded path.
pub open spec fn entry_matches(
    name: Seq<char>,
    path: Seq<char>,
    query: Seq<char>,
    case_insensitive: bool,
) -> bool {
    let q = fold_case(query, case_insensitive);
    str_occurs(fold_case(name, case_insensitive), q) || str_occurs(
        fold_case(path, case_insensitive),
        q,
    )
}

/// The results of the first `upto` entries, in the entries' order.
pub open spec fn matches_upto(
    entries: Seq<IndexEntryView>,
    query: Seq<char>,
    case_insensitive: bool,
    upto: int,
) -> Seq<ExactView>
    decreases upto,
{
    if upto <= 0 {
        Seq::empty()
    } else {
        let before = matches_upto(entries, query, case_insensitive, upto - 1);
        let e = entries[upto - 1];
        if entry_matches(e.name, e.path, query, case_insensitive) {
            before.push(item_and_fragment(e.path))
        } else {
            before
        }
    }
}

/// The results of all entries that match, in the entries' order.
pub open spec fn index_matches(
    entries: Seq<IndexEntryView>,
    query: Seq<char>,
    case_insensitive: bool,
) -> Seq<ExactView> {
    matches_upto(entries, query, case_insensitive, entries.len() as int)
}

/// How many of the first `upto` entries match.
pub open spec fn count_matching(
    entries: Seq<IndexEntryView>,
    query: Seq<char>,
    case_insensitive: bool,
    upto: int,
) -> nat
    decreases upto,
{
    if upto <= 0 {
        0
    } else {
        let e = entries[upto - 1];
        count_matching(entries, query, case_insensitive, upto - 1) + if entry_matches(
            e.name,
            e.path,
            query,
            case_insensitive,
        ) {
            1nat
        } else {
            0nat
        }
    }
}

/// There are as many results as entries that match.
pub proof fn lemma_matches_len(
    entries: Seq<IndexEntryView>,
    query: Seq<char>,
    case_insensitive: bool,
    upto: int,
)
    ensures
        matches_upto(entries, query, case_insensitive, upto).len() == count_matching(
            entries,
            query,
            case_insensitive,
            upto,
        ),
    decreases upto,
{
    if upto > 0 {
        lemma_matches_len(entries, query, case_insensitive, upto - 1);
    }
}

/// Whether an entry matches a query that is folded already.
pub fn entry_is_match(entry: &IndexEntry, folded_query: &str, case_insensitive: bool) -> (r: bool)
    ensures
        r == (str_occurs(fold_case(entry.name@, case_insensitive), folded_query@) || str_occurs(
            fold_case(entry.path@, case_insensitive),
            folded_query@,
        )),
{
    if case_insensitive {
        let name = fold(entry.name.as_str(), true);
        if is_substring(name.as_str(), folded_query) {
            return true;
        }
        let path = fold(entry.path.as_str(), true);
        is_substring(path.as_str(), folded_query)
    } else {
        is_substring(entry.name.as_str(), folded_query) || is_substring(
            entry.path.as_str(),
            folded_query,
        )
    }
}

/// Searches the index of a docset for a query.
///
/// The result holds one exact result for each entry whose name or path
/// contains the query, and is sorted by item, then by fragment. An empty index
/// gives an empty result.
pub fn search_docset_in_filenames(
    entries: &Vec<IndexEntry>,
    query: &str,
    case_insensitive: bool,
) -> (r: Vec<ExactResult>)
    ensures
        exact_views(r@) == exact_in_order(
            index_matches(index_views(entries@), query@, case_insensitive),
        ),
        exact_sorted(exact_views(r@)),
        exact_views(r@).to_multiset() == index_matches(
            index_views(entries@),
            query@,
            case_insensitive,
        ).to_multiset(),
        r@.len() == count_matching(
            index_views(entries@),
            query@,
            case_insensitive,
            entries@.len() as int,
        ),
{
    let folded = fold(query, case_insensitive);
    let mut items: Vec<ExactResult> = Vec::new();
    let n: usize = entries.len();
    let mut i: usize = 0;
    while i < n
        invariant
            n == entries@.len(),
            i <= n,
            folded@ == fold_case(query@, case_insensitive),
            exact_views(items@) == matches_upto(
                index_views(entries@),
                query@,
                case_insensitive,
                i as int,
            ),
        decreases n - i,
    {
        let entry = &entries[i];
        if entry_is_match(entry, folded.as_str(), case_insensitive) {
            let (item, fragment) = split_to_item_and_fragment(entry.path.as_str());
            let ghost before = items@;
            let found = ExactResult { item, fragment };
            items.push(found);
            assert(exact_views(items@) =~= exact_views(before).push(found@));
        }
        i += 1;
    }
    proof {
        lemma_matches_len(index_views(entries@), query@, case_insensitive, n as int);
    }
    sort_exact(items)
}

} // verus!
