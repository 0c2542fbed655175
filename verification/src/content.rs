//! Search in the pages of a docset.
//!
//! A page whose file name contains the query is an exact result. Any other
//! page is read line by line: each line that contains the query gives one
//! excerpt, cut around the first place where the query stands in the line, and
//! a page with at least one excerpt is a vague result.

use vstd::prelude::*;
use crate::model::{
    exact_views, string_views, vague_views, ExactResult, ExactView, VagueResult, VagueView,
};
use crate::order::{
    exact_in_order, exact_sorted, items_ascend, sort_exact, sort_vague, vague_in_order,
    vague_sorted,
};
use vstd::utf8::valid_utf8_concat;
use crate::strings::{
    boundary, bytes_of, fold, fold_case, is_substring, is_white_space, lemma_between_boundaries,
    lemma_boundary_between, lemma_boundary_by_byte, lemma_bytes_no_fewer, lemma_bytes_of_concat,
    lemma_bytes_of_valid, lemma_char_bytes, lemma_empty_bytes, lemma_part_is_no_longer,
    lemma_text_of_concat, lemma_trimmed_ends, lemma_trimmed_keeps, lemma_trimmed_part, slice,
    str_occurs, text_of, trimmed,
};
use crate::text::{ends_with, find, first_occurrence, has_suffix, occurs_at};

verus! {

/// How many bytes of a line an excerpt keeps on each side of the query, before
/// it is widened to whole characters.
pub const CONTEXT_HALF_WIDTH: usize = 33;

/// The last place at or before `at` where a character of `s` starts, and 0
/// where `at` lies before the string.
pub open spec fn floor_boundary(s: Seq<char>, at: int) -> int
    decreases at,
{
    if at <= 0 {
        0
    } else if boundary(s, at) {
        at
    } else {
        floor_boundary(s, at - 1)
    }
}

/// The first place at or after `at` where a character of `s` starts, and the
/// length of `s` in bytes where there is none.
pub open spec fn ceil_boundary(s: Seq<char>, at: int) -> int
    decreases bytes_of(s).len() - at,
{
    if at >= bytes_of(s).len() {
        bytes_of(s).len() as int
    } else if at >= 0 && boundary(s, at) {
        at
    } else {
        ceil_boundary(s, at + 1)
    }
}

/// Where the excerpt of `line` starts, for a query found at byte `index`: at
/// the character that holds the byte `CONTEXT_HALF_WIDTH` before `index`, and
/// never after the last character of the line.
pub open spec fn window_start(line: Seq<char>, index: int) -> int {
    let len = bytes_of(line).len() as int;
    let lower = if index > CONTEXT_HALF_WIDTH {
        index - CONTEXT_HALF_WIDTH
    } else {
        0
    };
    floor_boundary(
        line,
        if lower < len {
            lower
        } else {
            len - 1
        },
    )
}

/// Where the excerpt of `line` ends, for a query of `query_len` bytes found at
/// byte `index`: at the first character that starts `CONTEXT_HALF_WIDTH` bytes
/// or more after the query, or at the end of the line.
pub open spec fn window_end(line: Seq<char>, index: int, query_len: int) -> int {
    ceil_boundary(line, index + query_len + CONTEXT_HALF_WIDTH)
}

/// The excerpt of `line` for a query of `query_len` bytes found at byte
/// `index`: the line between `window_start` and `window_end`, trimmed.
pub open spec fn context_around(line: Seq<char>, index: int, query_len: int) -> Seq<char> {
    trimmed(window_text(line, index, query_len))
}

/// `floor_boundary` gives a character's start at or before `at`, and no
/// character starts between the two.
pub proof fn lemma_floor_boundary(s: Seq<char>, at: int)
    ensures
        0 <= floor_boundary(s, at),
        at >= 0 ==> floor_boundary(s, at) <= at,
        boundary(s, floor_boundary(s, at)),
        forall|k: int| floor_boundary(s, at) < k <= at ==> !boundary(s, k),
    decreases at,
{
    lemma_bytes_of_valid(s);
    if at > 0 && !boundary(s, at) {
        lemma_floor_boundary(s, at - 1);
    }
}

/// `ceil_boundary` gives a character's start at or after `at`, or the end of
/// the string, and no character starts between the two.
pub proof fn lemma_ceil_boundary(s: Seq<char>, at: int)
    ensures
        ceil_boundary(s, at) <= bytes_of(s).len(),
        at <= bytes_of(s).len() ==> at <= ceil_boundary(s, at),
        0 <= at ==> boundary(s, ceil_boundary(s, at)),
        forall|k: int| 0 <= at <= k < ceil_boundary(s, at) ==> !boundary(s, k),
    decreases bytes_of(s).len() - at,
{
    lemma_bytes_of_valid(s);
    if at < bytes_of(s).len() && !(at >= 0 && boundary(s, at)) {
        lemma_ceil_boundary(s, at + 1);
    }
}

/// The window of an excerpt lies inside the line, between two character
/// boundaries, and holds the bytes of the query where the query lies inside
/// the line.
pub proof fn lemma_window(line: Seq<char>, index: int, query_len: int)
    requires
        0 <= index,
        0 <= query_len,
    ensures
        0 <= window_start(line, index) <= window_end(line, index, query_len) <= bytes_of(
            line,
        ).len(),
        boundary(line, window_start(line, index)),
        boundary(line, window_end(line, index, query_len)),
        window_start(line, index) <= index,
        index + query_len <= bytes_of(line).len() ==> index + query_len <= window_end(
            line,
            index,
            query_len,
        ),
{
    let len = bytes_of(line).len() as int;
    let lower = if index > CONTEXT_HALF_WIDTH {
        index - CONTEXT_HALF_WIDTH
    } else {
        0
    };
    let from = if lower < len {
        lower
    } else {
        len - 1
    };
    lemma_floor_boundary(line, from);
    lemma_ceil_boundary(line, index + query_len + CONTEXT_HALF_WIDTH);
    lemma_bytes_of_valid(line);
}

/// An excerpt has no white space at its ends, and no more bytes than its
/// window. Where the line goes on for more than `CONTEXT_HALF_WIDTH` bytes
/// before the query, and a character starts that many bytes before it, the
/// excerpt is shorter than the line.
pub proof fn lemma_context(line: Seq<char>, index: int, query_len: int)
    requires
        0 <= index,
        0 <= query_len,
    ensures
        ({
            let context = context_around(line, index, query_len);
            &&& context.len() > 0 ==> !is_white_space(context.first()) && !is_white_space(
                context.last(),
            )
            &&& bytes_of(context).len() <= window_end(line, index, query_len) - window_start(
                line,
                index,
            )
            &&& index > CONTEXT_HALF_WIDTH && index - CONTEXT_HALF_WIDTH < bytes_of(line).len()
                && boundary(line, index - CONTEXT_HALF_WIDTH) ==> bytes_of(context).len()
                < bytes_of(line).len()
        }),
{
    lemma_window(line, index, query_len);
    lemma_bytes_of_valid(line);
    let from = window_start(line, index);
    let to = window_end(line, index, query_len);
    let bytes = bytes_of(line).subrange(from, to);
    lemma_between_boundaries(bytes_of(line), from, to);
    let window = text_of(bytes);
    vstd::utf8::decode_utf8_encode_utf8(bytes);
    assert(bytes_of(window) == bytes);
    lemma_trimmed_ends(window);
    let (a, b) = lemma_trimmed_part(window);
    lemma_part_is_no_longer(window, a, b);
}

/// The text of the window of an excerpt, before it is trimmed.
pub open spec fn window_text(line: Seq<char>, index: int, query_len: int) -> Seq<char> {
    text_of(bytes_of(line).subrange(window_start(line, index), window_end(line, index, query_len)))
}

/// The window of a line that holds the query between `before` and `after`
/// holds the query too, between the end of `before` and the start of `after`.
/// The result is what the window holds before the query and after it.
proof fn lemma_window_text(before: Seq<char>, query: Seq<char>, after: Seq<char>) -> (r: (
    Seq<char>,
    Seq<char>,
))
    ensures
        window_text(
            before + query + after,
            bytes_of(before).len() as int,
            bytes_of(query).len() as int,
        ) == r.0 + query + r.1,
        before.len() > 0 ==> r.0.len() > 0 && r.0.last() == before.last(),
        after.len() > 0 ==> r.1.len() > 0 && r.1.first() == after.first(),
{
    let line = before + query + after;
    let bytes = bytes_of(line);
    let index = bytes_of(before).len() as int;
    let query_len = bytes_of(query).len() as int;
    let start = window_start(line, index);
    let end = window_end(line, index, query_len);
    lemma_bytes_of_concat(before + query, after);
    lemma_bytes_of_concat(before, query);
    lemma_bytes_of_valid(line);
    lemma_bytes_of_valid(query);
    assert(line =~= before + (query + after));
    lemma_boundary_between(before, query + after);
    lemma_boundary_between(before + query, after);
    lemma_window(line, index, query_len);
    let head = bytes.subrange(start, index);
    let tail = bytes.subrange(index + query_len, end);
    lemma_between_boundaries(bytes, start, index);
    lemma_between_boundaries(bytes, index + query_len, end);
    assert(bytes.subrange(start, end) =~= head + bytes_of(query) + tail);
    valid_utf8_concat(head, bytes_of(query));
    lemma_text_of_concat(head + bytes_of(query), tail);
    lemma_text_of_concat(head, bytes_of(query));
    if before.len() > 0 {
        let c = before.last();
        let rest = before.drop_last();
        let at = bytes_of(rest).len() as int;
        assert(before =~= rest + seq![c]);
        lemma_bytes_of_concat(rest, seq![c]);
        lemma_char_bytes(c);
        assert(line =~= rest + (seq![c] + query + after));
        lemma_boundary_between(rest, seq![c] + query + after);
        lemma_floor_boundary(
            line,
            if index > CONTEXT_HALF_WIDTH {
                index - CONTEXT_HALF_WIDTH
            } else {
                0
            },
        );
        assert(start <= at);
        lemma_between_boundaries(bytes, start, at);
        lemma_bytes_of_valid(seq![c]);
        assert(head =~= bytes.subrange(start, at) + bytes_of(seq![c]));
        lemma_text_of_concat(bytes.subrange(start, at), bytes_of(seq![c]));
    }
    if after.len() > 0 {
        let c = after.first();
        let rest = after.drop_first();
        let at = index + query_len + bytes_of(seq![c]).len();
        assert(after =~= seq![c] + rest);
        lemma_bytes_of_concat(seq![c], rest);
        lemma_char_bytes(c);
        assert(line =~= before + query + seq![c] + rest);
        lemma_bytes_of_concat(before + query, seq![c]);
        lemma_boundary_between(before + query + seq![c], rest);
        lemma_ceil_boundary(line, index + query_len + CONTEXT_HALF_WIDTH);
        assert(at <= end);
        lemma_between_boundaries(bytes, at, end);
        lemma_bytes_of_valid(seq![c]);
        assert(tail =~= bytes_of(seq![c]) + bytes.subrange(at, end));
        lemma_text_of_concat(bytes_of(seq![c]), bytes.subrange(at, end));
    }
    (text_of(head), text_of(tail))
}

/// The window of a line with more than `CONTEXT_HALF_WIDTH` characters before
/// the query, or after it, is not all of the line.
proof fn lemma_window_is_cut(before: Seq<char>, query: Seq<char>, after: Seq<char>)
    requires
        before.len() > CONTEXT_HALF_WIDTH || after.len() > CONTEXT_HALF_WIDTH,
    ensures
        ({
            let line = before + query + after;
            let index = bytes_of(before).len() as int;
            let query_len = bytes_of(query).len() as int;
            window_end(line, index, query_len) - window_start(line, index) < bytes_of(line).len()
        }),
{
    let line = before + query + after;
    let index = bytes_of(before).len() as int;
    let query_len = bytes_of(query).len() as int;
    lemma_bytes_of_concat(before + query, after);
    lemma_bytes_of_concat(before, query);
    lemma_window(line, index, query_len);
    if before.len() > CONTEXT_HALF_WIDTH {
        let c = before.first();
        let rest = before.drop_first();
        assert(before =~= seq![c] + rest);
        lemma_bytes_of_concat(seq![c], rest);
        lemma_char_bytes(c);
        lemma_bytes_no_fewer(rest);
        assert(line =~= seq![c] + (rest + query + after));
        lemma_boundary_between(seq![c], rest + query + after);
        lemma_floor_boundary(line, index - CONTEXT_HALF_WIDTH);
        assert(window_start(line, index) >= bytes_of(seq![c]).len());
    } else {
        let c = after.last();
        let rest = after.drop_last();
        assert(after =~= rest + seq![c]);
        lemma_bytes_of_concat(rest, seq![c]);
        lemma_char_bytes(c);
        lemma_bytes_no_fewer(rest);
        assert(line =~= before + query + rest + seq![c]);
        lemma_bytes_of_concat(before + query + rest, seq![c]);
        lemma_boundary_between(before + query + rest, seq![c]);
        lemma_ceil_boundary(line, index + query_len + CONTEXT_HALF_WIDTH);
        assert(window_end(line, index, query_len) <= bytes_of(before + query + rest).len());
    }
}

/// The excerpt of a line that holds the query between `before` and `after`.
///
/// The excerpt contains the query, unless white space stands on both sides of
/// the place where the query starts, or of the place where it ends. It has no
/// white space at its ends. Where more than `CONTEXT_HALF_WIDTH` characters
/// stand before the query, or after it, the excerpt is shorter than the line.
pub proof fn lemma_context_holds_query(before: Seq<char>, query: Seq<char>, after: Seq<char>)
    requires
        query.len() > 0 ==> !is_white_space(query.first()) || (before.len() > 0 && !is_white_space(
            before.last(),
        )),
        query.len() > 0 ==> !is_white_space(query.last()) || (after.len() > 0 && !is_white_space(
            after.first(),
        )),
    ensures
        ({
            let line = before + query + after;
            let context = context_around(
                line,
                bytes_of(before).len() as int,
                bytes_of(query).len() as int,
            );
            &&& str_occurs(context, query)
            &&& context.len() > 0 ==> !is_white_space(context.first()) && !is_white_space(
                context.last(),
            )
            &&& before.len() > CONTEXT_HALF_WIDTH || after.len() > CONTEXT_HALF_WIDTH
                ==> bytes_of(context).len() < bytes_of(line).len()
        }),
{
    let line = before + query + after;
    let index = bytes_of(before).len() as int;
    let query_len = bytes_of(query).len() as int;
    let context = context_around(line, index, query_len);
    lemma_context(line, index, query_len);
    if before.len() > CONTEXT_HALF_WIDTH || after.len() > CONTEXT_HALF_WIDTH {
        lemma_window_is_cut(before, query, after);
    }
    if query.len() == 0 {
        lemma_empty_bytes(query);
        assert(bytes_of(context).subrange(0, 0) =~= bytes_of(query));
        assert(occurs_at(bytes_of(context), bytes_of(query), 0));
    } else {
        let (head, tail) = lemma_window_text(before, query, after);
        let window = head + query + tail;
        let from = head.len() as int;
        let to = from + query.len();
        let first = if is_white_space(query.first()) {
            from - 1
        } else {
            from
        };
        let last = if is_white_space(query.last()) {
            to
        } else {
            to - 1
        };
        assert(window[from] == query.first());
        assert(window[to - 1] == query.last());
        let (a, b) = lemma_trimmed_keeps(window, first, last);
        let left = window.subrange(a, from);
        let right = window.subrange(to, b);
        assert(context =~= left + query + right);
        lemma_bytes_of_concat(left + query, right);
        lemma_bytes_of_concat(left, query);
        let at = bytes_of(left).len() as int;
        assert(bytes_of(context).subrange(at, at + query_len) =~= bytes_of(query));
        assert(occurs_at(bytes_of(context), bytes_of(query), at));
    }
}

/// The excerpt of a line around a query of `query_len` bytes that was found at
/// byte `index`.
///
/// The excerpt never splits a character, and holds no white space at its ends.
/// A short line gives the whole line, trimmed.
pub fn get_context_around_query(html_line: &str, index: usize, query_len: usize) -> (r: String)
    ensures
        r@ == context_around(html_line@, index as int, query_len as int),
{
    let len: usize = html_line.as_bytes().len();
    let lower: usize = if index > CONTEXT_HALF_WIDTH {
        index - CONTEXT_HALF_WIDTH
    } else {
        0
    };
    let mut start: usize = if lower < len {
        lower
    } else if len > 0 {
        len - 1
    } else {
        0
    };
    let ghost from = start as int;
    proof {
        lemma_bytes_of_valid(html_line@);
    }
    while start > 0 && !html_line.is_char_boundary(start)
        invariant
            start <= from,
            floor_boundary(html_line@, start as int) == floor_boundary(html_line@, from),
        decreases start,
    {
        start -= 1;
    }
    let upper: usize = index.saturating_add(query_len).saturating_add(CONTEXT_HALF_WIDTH);
    let mut end: usize = if upper < len {
        upper
    } else {
        len
    };
    let ghost to = index + query_len + CONTEXT_HALF_WIDTH;
    assert(upper < len ==> upper == to);
    assert(upper >= len ==> to >= len);
    while end < len && !html_line.is_char_boundary(end)
        invariant
            len == bytes_of(html_line@).len(),
            end <= len,
            ceil_boundary(html_line@, end as int) == ceil_boundary(html_line@, to),
        decreases len - end,
    {
        end += 1;
    }
    proof {
        lemma_window(html_line@, index as int, query_len as int);
        assert(start == window_start(html_line@, index as int));
        assert(end == window_end(html_line@, index as int, query_len as int));
    }
    let window = slice(html_line, start, end);
    window.trim().to_owned()
}

/// The excerpt that a line gives for a query, if the line contains the query.
///
/// The query is looked for in the folded line; the excerpt is cut from the line
/// as it stands, at the offset where the query stands in the folded line.
pub open spec fn line_context(
    line: Seq<char>,
    folded_query: Seq<char>,
    case_insensitive: bool,
) -> Option<Seq<char>> {
    match first_occurrence(bytes_of(fold_case(line, case_insensitive)), bytes_of(folded_query)) {
        Some(index) => Some(context_around(line, index, bytes_of(folded_query).len() as int)),
        None => None,
    }
}

/// The excerpts of the first `upto` lines, from top to bottom.
pub open spec fn contexts_upto(
    lines: Seq<Seq<char>>,
    folded_query: Seq<char>,
    case_insensitive: bool,
    upto: int,
) -> Seq<Seq<char>>
    decreases upto,
{
    if upto <= 0 {
        Seq::empty()
    } else {
        let before = contexts_upto(lines, folded_query, case_insensitive, upto - 1);
        match line_context(lines[upto - 1], folded_query, case_insensitive) {
            Some(c) => before.push(c),
            None => before,
        }
    }
}

/// The excerpts of a page: one for each of its lines that contains the query,
/// from top to bottom.
pub open spec fn page_contexts(
    lines: Seq<Seq<char>>,
    folded_query: Seq<char>,
    case_insensitive: bool,
) -> Seq<Seq<char>> {
    contexts_upto(lines, folded_query, case_insensitive, lines.len() as int)
}

/// The excerpt that a line gives for a query that is folded already.
pub fn scan_line(line: &str, folded_query: &str, case_insensitive: bool) -> (r: Option<String>)
    ensures
        match r {
            Some(c) => line_context(line@, folded_query@, case_insensitive) == Some(c@),
            None => line_context(line@, folded_query@, case_insensitive) is None,
        },
{
    let found = if case_insensitive {
        let folded = fold(line, true);
        find(folded.as_str().as_bytes(), folded_query.as_bytes())
    } else {
        find(line.as_bytes(), folded_query.as_bytes())
    };
    match found {
        Some(index) => Some(
            get_context_around_query(line, index, folded_query.as_bytes().len()),
        ),
        None => None,
    }
}

/// The excerpts of a page for a query that is folded already.
pub fn scan_lines(lines: &Vec<String>, folded_query: &str, case_insensitive: bool) -> (r: Vec<
    String,
>)
    ensures
        string_views(r@) == page_contexts(string_views(lines@), folded_query@, case_insensitive),
{
    let mut contexts: Vec<String> = Vec::new();
    let n: usize = lines.len();
    let mut i: usize = 0;
    assert(string_views(contexts@) =~= Seq::<Seq<char>>::empty());
    while i < n
        invariant
            n == lines@.len(),
            i <= n,
            string_views(contexts@) == contexts_upto(
                string_views(lines@),
                folded_query@,
                case_insensitive,
                i as int,
            ),
        decreases n - i,
    {
        match scan_line(lines[i].as_str(), folded_query, case_insensitive) {
            Some(c) => {
                let ghost before = contexts@;
                contexts.push(c);
                assert(string_views(contexts@) =~= string_views(before).push(c@));
            },
            None => {},
        }
        i += 1;
    }
    contexts
}

/// Whether a file is a page: its name ends with the page extension.
pub open spec fn is_page(name: Seq<char>, extension: Seq<char>) -> bool {
    ends_with(bytes_of(name), bytes_of(extension))
}

/// The item of a page: its path without the page extension. A path that does
/// not end with the extension is its own item.
pub open spec fn page_item(path: Seq<char>, extension: Seq<char>) -> Seq<char> {
    if ends_with(bytes_of(path), bytes_of(extension)) {
        text_of(bytes_of(path).subrange(0, bytes_of(path).len() - bytes_of(extension).len()))
    } else {
        path
    }
}

/// Whether a file is a page.
pub fn has_page_extension(name: &str, extension: &str) -> (r: bool)
    ensures
        r == is_page(name@, extension@),
{
    has_suffix(name.as_bytes(), extension.as_bytes())
}

/// The item of a page, from its path below the docset's root.
pub fn convert_path_to_item(path: &str, extension: &str) -> (r: String)
    ensures
        r@ == page_item(path@, extension@),
{
    if !has_suffix(path.as_bytes(), extension.as_bytes()) {
        return path.to_owned();
    }
    let cut: usize = path.as_bytes().len() - extension.as_bytes().len();
    proof {
        lemma_bytes_of_valid(path@);
        lemma_bytes_of_valid(extension@);
        let p = bytes_of(path@);
        let e = bytes_of(extension@);
        if cut < p.len() {
            assert(p.subrange(cut as int, p.len() as int)[0] == p[cut as int]);
            lemma_boundary_by_byte(e, 0);
            lemma_boundary_by_byte(p, cut as int);
        }
    }
    slice(path, 0, cut).to_owned()
}

/// A file of a docset, as a search reads it.
#[derive(Clone, Debug, PartialEq, Eq)]
pub struct DocFile {
    /// The file's name, with its extension.
    pub name: String,
    /// The file's path below the docset's root, with its extension.
    pub path: String,
    /// The file's lines, from top to bottom.
    pub lines: Vec<String>,
}

/// What a `DocFile` holds.
pub ghost struct FileView {
    pub name: Seq<char>,
    pub path: Seq<char>,
    pub lines: Seq<Seq<char>>,
}

impl View for DocFile {
    type V = FileView;

    open spec fn view(&self) -> FileView {
        FileView { name: self.name@, path: self.path@, lines: string_views(self.lines@) }
    }
}

/// What a list of files holds, one for one.
pub open spec fn file_views(v: Seq<DocFile>) -> Seq<FileView> {
    v.map_values(|f: DocFile| f@)
}

/// What a search finds in one file.
pub enum Found {
    /// The file is no page, or nothing in it matches.
    Nothing,
    /// The file's name matches.
    Exact(ExactResult),
    /// Lines of the file match.
    Vague(VagueResult),
}

/// What a `Found` holds.
pub ghost enum FoundView {
    Nothing,
    Exact(ExactView),
    Vague(VagueView),
}

impl View for Found {
    type V = FoundView;

    open spec fn view(&self) -> FoundView {
        match self {
            Found::Nothing => FoundView::Nothing,
            Found::Exact(e) => FoundView::Exact(e@),
            Found::Vague(v) => FoundView::Vague(v@),
        }
    }
}

/// Whether the name of a file matches the query.
pub open spec fn name_matches(
    name: Seq<char>,
    folded_query: Seq<char>,
    case_insensitive: bool,
) -> bool {
    str_occurs(fold_case(name, case_insensitive), folded_query)
}

/// What a search finds in one file.
///
/// A file that is no page gives nothing. A page whose name contains the query
/// is an exact result, and its lines are not looked at. Any other page is a
/// vague result if one of its lines contains the query.
pub open spec fn file_outcome(
    name: Seq<char>,
    path: Seq<char>,
    lines: Seq<Seq<char>>,
    extension: Seq<char>,
    folded_query: Seq<char>,
    case_insensitive: bool,
) -> FoundView {
    if !is_page(name, extension) {
        FoundView::Nothing
    } else if name_matches(name, folded_query, case_insensitive) {
        FoundView::Exact(ExactView { item: page_item(path, extension), fragment: None })
    } else {
        let contexts = page_contexts(lines, folded_query, case_insensitive);
        if contexts.len() > 0 {
            FoundView::Vague(VagueView { item: page_item(path, extension), contexts })
        } else {
            FoundView::Nothing
        }
    }
}

/// Whether the name of a file matches a query that is folded already.
pub fn name_is_match(name: &str, folded_query: &str, case_insensitive: bool) -> (r: bool)
    ensures
        r == name_matches(name@, folded_query@, case_insensitive),
{
    if case_insensitive {
        let folded = fold(name, true);
        is_substring(folded.as_str(), folded_query)
    } else {
        is_substring(name, folded_query)
    }
}

/// What a search for a folded query finds in one file.
pub fn search_file(
    file: &DocFile,
    extension: &str,
    folded_query: &str,
    case_insensitive: bool,
) -> (r: Found)
    ensures
        r@ == file_outcome(
            file.name@,
            file.path@,
            string_views(file.lines@),
            extension@,
            folded_query@,
            case_insensitive,
        ),
{
    if !has_page_extension(file.name.as_str(), extension) {
        return Found::Nothing;
    }
    if name_is_match(file.name.as_str(), folded_query, case_insensitive) {
        let item = convert_path_to_item(file.path.as_str(), extension);
        return Found::Exact(ExactResult { item, fragment: None });
    }
    let contexts = scan_lines(&file.lines, folded_query, case_insensitive);
    if contexts.len() > 0 {
        let item = convert_path_to_item(file.path.as_str(), extension);
        Found::Vague(VagueResult { item, contexts })
    } else {
        Found::Nothing
    }
}

/// What is found in file `i`, for the query as it was asked.
pub open spec fn outcome_at(
    files: Seq<FileView>,
    extension: Seq<char>,
    query: Seq<char>,
    case_insensitive: bool,
    i: int,
) -> FoundView {
    file_outcome(
        files[i].name,
        files[i].path,
        files[i].lines,
        extension,
        fold_case(query, case_insensitive),
        case_insensitive,
    )
}

/// The exact results of the first `upto` files, in the files' order.
pub open spec fn exact_found(
    files: Seq<FileView>,
    extension: Seq<char>,
    query: Seq<char>,
    case_insensitive: bool,
    upto: int,
) -> Seq<ExactView>
    decreases upto,
{
    if upto <= 0 {
        Seq::empty()
    } else {
        let before = exact_found(files, extension, query, case_insensitive, upto - 1);
        match outcome_at(files, extension, query, case_insensitive, upto - 1) {
            FoundView::Exact(e) => before.push(e),
            _ => before,
        }
    }
}

/// The vague results of the first `upto` files, in the files' order.
pub open spec fn vague_found(
    files: Seq<FileView>,
    extension: Seq<char>,
    query: Seq<char>,
    case_insensitive: bool,
    upto: int,
) -> Seq<VagueView>
    decreases upto,
{
    if upto <= 0 {
        Seq::empty()
    } else {
        let before = vague_found(files, extension, query, case_insensitive, upto - 1);
        match outcome_at(files, extension, query, case_insensitive, upto - 1) {
            FoundView::Vague(v) => before.push(v),
            _ => before,
        }
    }
}

/// Searches the pages of a docset for a query.
///
/// `files` holds every file below the docset's root, in any order. The result
/// holds the exact results, sorted by item, and the vague results, sorted by
/// item; an exact result of this search has no fragment.
pub fn search_docset_precisely(
    files: &Vec<DocFile>,
    extension: &str,
    query: &str,
    case_insensitive: bool,
) -> (r: (Vec<ExactResult>, Vec<VagueResult>))
    ensures
        exact_views(r.0@) == exact_in_order(
            exact_found(
                file_views(files@),
                extension@,
                query@,
                case_insensitive,
                files@.len() as int,
            ),
        ),
        vague_views(r.1@) == vague_in_order(
            vague_found(
                file_views(files@),
                extension@,
                query@,
                case_insensitive,
                files@.len() as int,
            ),
        ),
        exact_sorted(exact_views(r.0@)),
        exact_views(r.0@).to_multiset() == exact_found(
            file_views(files@),
            extension@,
            query@,
            case_insensitive,
            files@.len() as int,
        ).to_multiset(),
        vague_sorted(vague_views(r.1@)),
        items_ascend(vague_views(r.1@)),
        vague_views(r.1@).to_multiset() == vague_found(
            file_views(files@),
            extension@,
            query@,
            case_insensitive,
            files@.len() as int,
        ).to_multiset(),
        forall|i: int| 0 <= i < r.0@.len() ==> r.0@[i].fragment is None,
{
    let folded = fold(query, case_insensitive);
    let mut exact: Vec<ExactResult> = Vec::new();
    let mut vague: Vec<VagueResult> = Vec::new();
    let n: usize = files.len();
    let mut i: usize = 0;
    while i < n
        invariant
            n == files@.len(),
            i <= n,
            folded@ == fold_case(query@, case_insensitive),
            exact_views(exact@) == exact_found(
                file_views(files@),
                extension@,
                query@,
                case_insensitive,
                i as int,
            ),
            vague_views(vague@) == vague_found(
                file_views(files@),
                extension@,
                query@,
                case_insensitive,
                i as int,
            ),
            forall|k: int| 0 <= k < exact@.len() ==> exact@[k].fragment is None,
        decreases n - i,
    {
        match search_file(&files[i], extension, folded.as_str(), case_insensitive) {
            Found::Exact(e) => {
                let ghost before = exact@;
                exact.push(e);
                assert(exact_views(exact@) =~= exact_views(before).push(e@));
            },
            Found::Vague(v) => {
                let ghost before = vague@;
                vague.push(v);
                assert(vague_views(vague@) =~= vague_views(before).push(v@));
            },
            Found::Nothing => {},
        }
        i += 1;
    }
    let ghost collected = exact@;
    let exact = sort_exact(exact);
    let vague = sort_vague(vague);
    proof {
        lemma_no_fragments(collected, exact@);
    }
    (exact, vague)
}

/// A list that holds what a list without fragments holds has no fragments.
proof fn lemma_no_fragments(before: Seq<ExactResult>, after: Seq<ExactResult>)
    requires
        forall|k: int| 0 <= k < before.len() ==> before[k].fragment is None,
        exact_views(after).to_multiset() == exact_views(before).to_multiset(),
    ensures
        forall|i: int| 0 <= i < after.len() ==> after[i].fragment is None,
{
    assert forall|i: int| 0 <= i < after.len() implies after[i].fragment is None by {
        let v = exact_views(after)[i];
        exact_views(after).to_multiset_ensures();
        exact_views(before).to_multiset_ensures();
        assert(exact_views(after).contains(v));
        assert(exact_views(before).to_multiset().count(v) > 0);
        assert(exact_views(before).contains(v));
        let k = choose|k: int| 0 <= k < exact_views(before).len() && exact_views(before)[k] == v;
        assert(before[k].fragment is None);
        assert(after[i]@ == before[k]@);
    }
}

} // verus!
