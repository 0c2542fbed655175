//! How results are numbered, listed and picked.
//!
//! The exact results have the numbers from 1 on, the vague results the numbers
//! after them. A listing shows each result under its number. A result is picked
//! for opening by its number.

use vstd::prelude::*;
use crate::model::{exact_views, vague_views, ExactResult, ExactView, VagueResult, VagueView};
use crate::strings::{bytes_of, lemma_empty_bytes, same_str};

verus! {

/// One line of a listing.
#[derive(Clone, Debug, PartialEq, Eq)]
pub enum ListingLine {
    /// An exact result that heads a group: its number, its item, and its
    /// fragment where it has one.
    Item { number: usize, item: String, fragment: Option<String> },
    /// An exact result beneath the head of its group: its number and its
    /// fragment.
    Fragment { number: usize, name: String },
    /// A vague result: its number and its item.
    Mention { number: usize, item: String },
    /// An excerpt of the vague result above.
    Context { text: String },
}

/// What a `ListingLine` holds.
pub ghost enum LineView {
    Item { number: int, item: Seq<char>, fragment: Option<Seq<char>> },
    Fragment { number: int, name: Seq<char> },
    Mention { number: int, item: Seq<char> },
    Context { text: Seq<char> },
}

impl View for ListingLine {
    type V = LineView;

    open spec fn view(&self) -> LineView {
        match self {
            ListingLine::Item { number, item, fragment } => LineView::Item {
                number: *number as int,
                item: item@,
                fragment: match fragment {
                    Some(f) => Some(f@),
                    None => None,
                },
            },
            ListingLine::Fragment { number, name } => LineView::Fragment {
                number: *number as int,
                name: name@,
            },
            ListingLine::Mention { number, item } => LineView::Mention {
                number: *number as int,
                item: item@,
            },
            ListingLine::Context { text } => LineView::Context { text: text@ },
        }
    }
}

/// What a list of lines holds, one for one.
pub open spec fn line_views(v: Seq<ListingLine>) -> Seq<LineView> {
    v.map_values(|l: ListingLine| l@)
}

/// Whether result `i` stands beneath the result before it: it has a fragment,
/// and the result before it has the same item.
pub open spec fn is_grouped(results: Seq<ExactView>, i: int) -> bool {
    0 < i < results.len() && results[i].fragment is Some && results[i].item == results[i - 1].item
}

/// The line of exact result `i` in a listing whose first number is `start`.
pub open spec fn exact_line(results: Seq<ExactView>, start: int, i: int) -> LineView {
    if is_grouped(results, i) {
        LineView::Fragment { number: start + i, name: results[i].fragment->0 }
    } else {
        LineView::Item { number: start + i, item: results[i].item, fragment: results[i].fragment }
    }
}

/// The listing of exact results: one line for each, in their order, numbered
/// from `start` on.
pub open spec fn exact_listing(results: Seq<ExactView>, start: int) -> Seq<LineView> {
    Seq::new(results.len(), |i: int| exact_line(results, start, i))
}

/// The lines of one vague result with the number `number`: its item, then its
/// excerpts.
pub open spec fn vague_block(result: VagueView, number: int) -> Seq<LineView> {
    seq![LineView::Mention { number, item: result.item }] + Seq::new(
        result.contexts.len(),
        |k: int| LineView::Context { text: result.contexts[k] },
    )
}

/// The listing of the first `upto` vague results, numbered from `start` on.
pub open spec fn vague_listing(results: Seq<VagueView>, start: int, upto: int) -> Seq<LineView>
    decreases upto,
{
    if upto <= 0 {
        Seq::empty()
    } else {
        vague_listing(results, start, upto - 1) + vague_block(
            results[upto - 1],
            start + upto - 1,
        )
    }
}

/// The listing of exact results, numbered from `start_index` on.
///
/// Results that follow one another with the same item form a group: the first
/// is shown with its item, each later one that has a fragment with its fragment
/// alone.
pub fn print_search_results(search_results: &Vec<ExactResult>, start_index: usize) -> (r: Vec<
    ListingLine,
>)
    requires
        start_index + search_results@.len() <= usize::MAX,
    ensures
        line_views(r@) == exact_listing(exact_views(search_results@), start_index as int),
{
    let ghost views = exact_views(search_results@);
    let mut lines: Vec<ListingLine> = Vec::new();
    let n: usize = search_results.len();
    let mut i: usize = 0;
    while i < n
        invariant
            n == search_results@.len(),
            views == exact_views(search_results@),
            start_index + n <= usize::MAX,
            i <= n,
            lines@.len() == i,
            forall|k: int| 0 <= k < i ==> lines@[k]@ == exact_line(views, start_index as int, k),
        decreases n - i,
    {
        let result = &search_results[i];
        let number: usize = start_index + i;
        let grouped: bool = i > 0 && result.fragment.is_some() && same_str(
            result.item.as_str(),
            search_results[i - 1].item.as_str(),
        );
        assert(grouped == is_grouped(views, i as int));
        let line = if grouped {
            match &result.fragment {
                Some(f) => ListingLine::Fragment { number, name: f.clone() },
                None => ListingLine::Item { number, item: result.item.clone(), fragment: None },
            }
        } else {
            ListingLine::Item {
                number,
                item: result.item.clone(),
                fragment: match &result.fragment {
                    Some(f) => Some(f.clone()),
                    None => None,
                },
            }
        };
        lines.push(line);
        i += 1;
    }
    assert(line_views(lines@) =~= exact_listing(views, start_index as int));
    lines
}

/// The listing of vague results, numbered from `start_index` on: each result's
/// item, followed by its excerpts.
pub fn print_vague_search_results(search_results: &Vec<VagueResult>, start_index: usize) -> (r:
    Vec<ListingLine>)
    requires
        start_index + search_results@.len() <= usize::MAX,
    ensures
        line_views(r@) == vague_listing(
            vague_views(search_results@),
            start_index as int,
            search_results@.len() as int,
        ),
{
    let ghost views = vague_views(search_results@);
    let mut lines: Vec<ListingLine> = Vec::new();
    let n: usize = search_results.len();
    let mut i: usize = 0;
    assert(line_views(lines@) =~= vague_listing(views, start_index as int, 0));
    while i < n
        invariant
            n == search_results@.len(),
            views == vague_views(search_results@),
            start_index + n <= usize::MAX,
            i <= n,
            line_views(lines@) == vague_listing(views, start_index as int, i as int),
        decreases n - i,
    {
        let result = &search_results[i];
        let ghost before = lines@;
        let ghost block = vague_block(views[i as int], start_index + i);
        lines.push(ListingLine::Mention { number: start_index + i, item: result.item.clone() });
        let m: usize = result.contexts.len();
        let mut k: usize = 0;
        assert(line_views(lines@) =~= line_views(before) + block.subrange(0, 1));
        while k < m
            invariant
                m == result.contexts@.len(),
                k <= m,
                block.len() == m + 1,
                forall|j: int| 0 <= j < m ==> block[j + 1] == (LineView::Context {
                    text: result.contexts@[j]@,
                }),
                line_views(lines@) == line_views(before) + block.subrange(0, k + 1),
            decreases m - k,
        {
            let ghost so_far = lines@;
            lines.push(ListingLine::Context { text: result.contexts[k].clone() });
            assert(line_views(lines@) =~= line_views(so_far).push(block[k + 1]));
            assert(block.subrange(0, k + 2) =~= block.subrange(0, k + 1).push(block[k + 1]));
            k += 1;
        }
        assert(block.subrange(0, m + 1) =~= block);
        i += 1;
    }
    lines
}

/// What a request to open a result comes to.
#[derive(Clone, Debug, PartialEq, Eq)]
pub enum OpenRequest {
    /// Nothing was asked for.
    Nothing,
    /// What was asked for is no number.
    NotANumber,
    /// No result has the number that was asked for.
    OutOfBounds { number: usize },
    /// The page to open, and the anchor inside it.
    Page { item: String, fragment: Option<String> },
}

/// What an `OpenRequest` holds.
pub ghost enum OpenView {
    Nothing,
    NotANumber,
    OutOfBounds { number: int },
    Page { item: Seq<char>, fragment: Option<Seq<char>> },
}

impl View for OpenRequest {
    type V = OpenView;

    open spec fn view(&self) -> OpenView {
        match self {
            OpenRequest::Nothing => OpenView::Nothing,
            OpenRequest::NotANumber => OpenView::NotANumber,
            OpenRequest::OutOfBounds { number } => OpenView::OutOfBounds { number: *number as int },
            OpenRequest::Page { item, fragment } => OpenView::Page {
                item: item@,
                fragment: match fragment {
                    Some(f) => Some(f@),
                    None => None,
                },
            },
        }
    }
}

/// Whether every byte is a decimal digit, and there is one at least.
pub open spec fn is_digits(bytes: Seq<u8>) -> bool {
    bytes.len() > 0 && forall|i: int| 0 <= i < bytes.len() ==> 0x30 <= #[trigger] bytes[i] <= 0x39
}

/// The number that a sequence of decimal digits writes.
pub open spec fn digits_value(bytes: Seq<u8>) -> int
    decreases bytes.len(),
{
    if bytes.len() == 0 {
        0
    } else {
        10 * digits_value(bytes.drop_last()) + (bytes.last() - 0x30)
    }
}

/// The digits of a number as it is written: the text without one leading `+`.
pub open spec fn unsigned_part(bytes: Seq<u8>) -> Seq<u8> {
    if bytes.len() > 0 && bytes[0] == 0x2b {
        bytes.subrange(1, bytes.len() as int)
    } else {
        bytes
    }
}

/// The number that a text writes: decimal digits, after at most one `+`, of a
/// value that a `usize` holds. Any other text writes no number.
pub open spec fn written_number(text: Seq<char>) -> Option<int> {
    let digits = unsigned_part(bytes_of(text));
    if is_digits(digits) && digits_value(digits) <= usize::MAX {
        Some(digits_value(digits))
    } else {
        None
    }
}

/// A number is no smaller than what fewer of its digits write.
proof fn lemma_digits_grow(bytes: Seq<u8>, k: int)
    requires
        is_digits(bytes),
        0 <= k <= bytes.len(),
    ensures
        0 <= digits_value(bytes.subrange(0, k)) <= digits_value(bytes),
    decreases bytes.len() - k,
{
    if k == bytes.len() {
        assert(bytes.subrange(0, k) =~= bytes);
        lemma_digits_nonnegative(bytes);
    } else {
        let longer = bytes.subrange(0, k + 1);
        assert(longer.drop_last() =~= bytes.subrange(0, k));
        assert(longer.last() == bytes[k]);
        lemma_digits_nonnegative(bytes.subrange(0, k));
        lemma_digits_grow(bytes, k + 1);
    }
}

/// Digits write no negative number.
proof fn lemma_digits_nonnegative(bytes: Seq<u8>)
    requires
        forall|i: int| 0 <= i < bytes.len() ==> 0x30 <= #[trigger] bytes[i] <= 0x39,
    ensures
        0 <= digits_value(bytes),
    decreases bytes.len(),
{
    if bytes.len() > 0 {
        lemma_digits_nonnegative(bytes.drop_last());
    }
}

/// A text writes no negative number.
pub proof fn lemma_written_number_is_natural(text: Seq<char>)
    ensures
        written_number(text) matches Some(n) ==> 0 <= n <= usize::MAX,
{
    if is_digits(unsigned_part(bytes_of(text))) {
        lemma_digits_nonnegative(unsigned_part(bytes_of(text)));
    }
}

/// The number that a text writes.
pub fn parse_number(text: &str) -> (r: Option<usize>)
    ensures
        match r {
            Some(n) => written_number(text@) == Some(n as int),
            None => written_number(text@) is None,
        },
{
    let bytes = text.as_bytes();
    let n: usize = bytes.len();
    let first: usize = if n > 0 && bytes[0] == 0x2b {
        1
    } else {
        0
    };
    let ghost digits = unsigned_part(bytes@);
    if first == n {
        return None;
    }
    let mut value: usize = 0;
    let mut i: usize = first;
    assert(digits.subrange(0, 0) =~= Seq::<u8>::empty());
    while i < n
        invariant
            n == bytes@.len(),
            bytes@ == bytes_of(text@),
            digits == unsigned_part(bytes@),
            digits.len() == n - first,
            first <= i <= n,
            first <= 1,
            forall|k: int| 0 <= k < digits.len() ==> digits[k] == bytes@[k + first],
            forall|k: int| 0 <= k < i - first ==> 0x30 <= #[trigger] digits[k] <= 0x39,
            value == digits_value(digits.subrange(0, i - first)),
        decreases n - i,
    {
        let b: u8 = bytes[i];
        if b < 0x30 || b > 0x39 {
            assert(digits[i - first] == b);
            return None;
        }
        let ghost longer = digits.subrange(0, i - first + 1);
        proof {
            assert(longer.drop_last() =~= digits.subrange(0, i - first));
            assert(longer.last() == b);
        }
        let next = match value.checked_mul(10) {
            Some(v) => v.checked_add((b - 0x30) as usize),
            None => None,
        };
        match next {
            Some(v) => {
                value = v;
            },
            None => {
                proof {
                    assert(digits_value(longer) > usize::MAX);
                    if is_digits(digits) {
                        lemma_digits_grow(digits, i - first + 1);
                    }
                }
                return None;
            },
        }
        i += 1;
    }
    assert(digits.subrange(0, n - first) =~= digits);
    Some(value)
}

/// How many results can be picked: the exact ones, and in a precise search the
/// vague ones too.
pub open spec fn pickable(exact: int, vague: int, precise: bool) -> int {
    if precise {
        exact + vague
    } else {
        exact
    }
}

/// What a request to open a result comes to.
///
/// An empty request asks for nothing. A request that writes no number is
/// refused, and so is a number that no result has. A number from 1 to the count
/// of exact results picks an exact result, whose fragment is dropped where
/// fragments are ignored; a number above that picks a vague result, which has no
/// fragment.
pub open spec fn resolved(
    request: Seq<char>,
    exact: Seq<ExactView>,
    vague: Seq<VagueView>,
    precise: bool,
    ignore_fragment: bool,
) -> OpenView {
    if request.len() == 0 {
        OpenView::Nothing
    } else {
        match written_number(request) {
            None => OpenView::NotANumber,
            Some(n) => if n < 1 || n > pickable(exact.len() as int, vague.len() as int, precise) {
                OpenView::OutOfBounds { number: n }
            } else if n <= exact.len() {
                OpenView::Page {
                    item: exact[n - 1].item,
                    fragment: if ignore_fragment {
                        None
                    } else {
                        exact[n - 1].fragment
                    },
                }
            } else {
                OpenView::Page { item: vague[n - exact.len() - 1].item, fragment: None }
            },
        }
    }
}

/// Resolves a request to open a result.
pub fn resolve_open(
    request: &str,
    exact: &Vec<ExactResult>,
    vague: &Vec<VagueResult>,
    precise: bool,
    ignore_fragment: bool,
) -> (r: OpenRequest)
    ensures
        r@ == resolved(
            request@,
            exact_views(exact@),
            vague_views(vague@),
            precise,
            ignore_fragment,
        ),
{
    proof {
        lemma_empty_bytes(request@);
    }
    if request.as_bytes().len() == 0 {
        return OpenRequest::Nothing;
    }
    let number: usize = match parse_number(request) {
        Some(n) => n,
        None => {
            return OpenRequest::NotANumber;
        },
    };
    let e: usize = exact.len();
    let v: usize = if precise {
        vague.len()
    } else {
        0
    };
    if number < 1 || number - 1 >= e && number - 1 - e >= v {
        return OpenRequest::OutOfBounds { number };
    }
    if number <= e {
        let result = &exact[number - 1];
        OpenRequest::Page {
            item: result.item.clone(),
            fragment: if ignore_fragment {
                None
            } else {
                match &result.fragment {
                    Some(f) => Some(f.clone()),
                    None => None,
                }
            },
        }
    } else {
        let result = &vague[number - e - 1];
        OpenRequest::Page { item: result.item.clone(), fragment: None }
    }
}

/// A number from 1 to the count of exact results picks the exact result with
/// that number; a number above that, up to the count of all results, picks a
/// vague result; 0 and any number above that count pick nothing.
pub proof fn lemma_selection_bounds(
    request: Seq<char>,
    exact: Seq<ExactView>,
    vague: Seq<VagueView>,
    ignore_fragment: bool,
)
    requires
        request.len() > 0,
        written_number(request) is Some,
    ensures
        0 <= written_number(request)->0,
        ({
            let n = written_number(request)->0;
            let r = resolved(request, exact, vague, true, ignore_fragment);
            &&& 1 <= n <= exact.len() ==> r is Page && r->item == exact[n - 1].item
            &&& exact.len() < n <= exact.len() + vague.len() ==> r == (OpenView::Page {
                item: vague[n - exact.len() - 1].item,
                fragment: None,
            })
            &&& (n == 0 || n > exact.len() + vague.len()) ==> r == (OpenView::OutOfBounds {
                number: n,
            })
        }),
{
    lemma_written_number_is_natural(request);
}

} // verus!
