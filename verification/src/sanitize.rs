//! Pages made smaller: the attributes `class`, `title` and `data-language`
//! are taken out of the tags of a page.

use vstd::prelude::*;
use vstd::string::StringExecFns;
use crate::strings::{
    boundary, bytes_of, lemma_boundary_around_ascii, lemma_boundary_by_byte,
    lemma_bytes_of_concat, lemma_bytes_of_valid, lemma_empty_bytes, slice,
};
use crate::text::{matches_at, occurs_at};

verus! {

/// Where the reading of a page stands.
#[derive(Clone, Copy, Debug, PartialEq, Eq, Structural)]
pub enum State {
    /// Outside a tag.
    Default,
    /// Inside a tag.
    InTag,
    /// Inside the name of an attribute that is taken out.
    InKey,
    /// Inside the value of an attribute that is taken out.
    InValue,
}

/// What has been kept of a page, and where its reading stands.
pub ghost struct Scan {
    pub kept: Seq<u8>,
    pub state: State,
}

/// The attribute name `key`, with `="` behind it, stands at `at`, and more of
/// the page follows it.
pub open spec fn key_at(page: Seq<u8>, at: int, key: Seq<char>) -> bool {
    at + bytes_of(key).len() < page.len() && occurs_at(page, bytes_of(key), at)
}

/// An attribute that is taken out starts at `at`.
pub open spec fn starts_key(page: Seq<u8>, at: int) -> bool {
    key_at(page, at, "data-language=\""@) || key_at(page, at, "title=\""@) || key_at(
        page,
        at,
        "class=\""@,
    )
}

/// The reading of the first `upto` bytes of a page.
///
/// Outside a tag every byte is kept, and `<` opens a tag. Inside a tag every
/// byte is kept but for the attributes that are taken out, and `>` closes the
/// tag. Of such an attribute nothing is kept, from the first letter of its name
/// to the quotation mark that ends its value.
pub open spec fn scan(page: Seq<u8>, upto: int) -> Scan
    decreases upto,
{
    if upto <= 0 {
        Scan { kept: Seq::empty(), state: State::Default }
    } else {
        let before = scan(page, upto - 1);
        let b = page[upto - 1];
        match before.state {
            State::Default => Scan {
                kept: before.kept.push(b),
                state: if b == 0x3c {
                    State::InTag
                } else {
                    State::Default
                },
            },
            State::InTag => if starts_key(page, upto - 1) {
                Scan { kept: before.kept, state: State::InKey }
            } else {
                Scan {
                    kept: before.kept.push(b),
                    state: if b == 0x3e {
                        State::Default
                    } else {
                        State::InTag
                    },
                }
            },
            State::InKey => Scan {
                kept: before.kept,
                state: if b == 0x22 {
                    State::InValue
                } else {
                    State::InKey
                },
            },
            State::InValue => Scan {
                kept: before.kept,
                state: if b == 0x22 {
                    State::InTag
                } else {
                    State::InValue
                },
            },
        }
    }
}

/// What is kept of a page.
pub open spec fn sanitized(page: Seq<char>) -> Seq<u8> {
    scan(bytes_of(page), bytes_of(page).len() as int).kept
}

/// Whether the attribute name `key` stands at `at`, with more of the page
/// behind it.
fn is_key_at(page: &[u8], at: usize, key: &str) -> (r: bool)
    requires
        at < page@.len(),
    ensures
        r == key_at(page@, at as int, key@),
{
    let k = key.as_bytes();
    if k.len() >= page.len() - at {
        return false;
    }
    matches_at(page, k, at)
}

/// Whether an attribute that is taken out starts at `at`.
fn is_key_start(page: &[u8], at: usize) -> (r: bool)
    requires
        at < page@.len(),
    ensures
        r == starts_key(page@, at as int),
{
    is_key_at(page, at, "data-language=\"") || is_key_at(page, at, "title=\"") || is_key_at(
        page,
        at,
        "class=\"",
    )
}

/// Where an attribute that is taken out starts, a character starts.
proof fn lemma_key_starts_at_boundary(page: Seq<char>, at: int)
    requires
        0 <= at < bytes_of(page).len(),
        starts_key(bytes_of(page), at),
    ensures
        boundary(page, at),
{
    reveal_strlit("data-language=\"");
    reveal_strlit("title=\"");
    reveal_strlit("class=\"");
    let key = if key_at(bytes_of(page), at, "data-language=\""@) {
        "data-language=\""@
    } else if key_at(bytes_of(page), at, "title=\""@) {
        "title=\""@
    } else {
        "class=\""@
    };
    assert(key.len() > 0);
    lemma_empty_bytes(key);
    lemma_bytes_of_valid(key);
    lemma_bytes_of_valid(page);
    lemma_boundary_by_byte(bytes_of(key), 0);
    assert(bytes_of(page).subrange(at, at + bytes_of(key).len())[0] == bytes_of(page)[at]);
    lemma_boundary_by_byte(bytes_of(page), at);
}

/// Takes the attributes `class`, `title` and `data-language` out of the tags
/// of a page.
pub fn sanitize_html_line(html_line: String) -> (r: String)
    ensures
        bytes_of(r@) == sanitized(html_line@),
{
    let line = html_line.as_str();
    let page = line.as_bytes();
    let n: usize = page.len();
    let mut out = String::new();
    let mut state = State::Default;
    let mut from: usize = 0;
    let mut i: usize = 0;
    proof {
        lemma_bytes_of_valid(line@);
        assert(bytes_of(out@) =~= Seq::<u8>::empty());
        assert(page@.subrange(0, 0) =~= Seq::<u8>::empty());
    }
    while i < n
        invariant
            n == page@.len(),
            page@ == bytes_of(line@),
            i <= n,
            state == scan(page@, i as int).state,
            state == State::Default || state == State::InTag ==> from <= i && boundary(
                line@,
                from as int,
            ) && bytes_of(out@) + page@.subrange(from as int, i as int) == scan(
                page@,
                i as int,
            ).kept,
            state == State::InKey || state == State::InValue ==> bytes_of(out@) == scan(
                page@,
                i as int,
            ).kept,
        decreases n - i,
    {
        let b: u8 = page[i];
        let ghost before = scan(page@, i as int);
        match state {
            State::Default => {
                if b == 0x3c {
                    state = State::InTag;
                }
                assert(page@.subrange(from as int, i + 1) =~= page@.subrange(
                    from as int,
                    i as int,
                ).push(b));
                assert(bytes_of(out@) + page@.subrange(from as int, i + 1) =~= (bytes_of(out@)
                    + page@.subrange(from as int, i as int)).push(b));
            },
            State::InTag => {
                if is_key_start(page, i) {
                    proof {
                        lemma_key_starts_at_boundary(line@, i as int);
                    }
                    let piece = slice(line, from, i);
                    proof {
                        lemma_bytes_of_concat(out@, piece@);
                    }
                    out.append(piece);
                    state = State::InKey;
                } else {
                    if b == 0x3e {
                        state = State::Default;
                    }
                    assert(page@.subrange(from as int, i + 1) =~= page@.subrange(
                        from as int,
                        i as int,
                    ).push(b));
                    assert(bytes_of(out@) + page@.subrange(from as int, i + 1) =~= (bytes_of(
                        out@,
                    ) + page@.subrange(from as int, i as int)).push(b));
                }
            },
            State::InKey => {
                if b == 0x22 {
                    state = State::InValue;
                }
            },
            State::InValue => {
                if b == 0x22 {
                    state = State::InTag;
                    from = i + 1;
                    proof {
                        lemma_bytes_of_valid(line@);
                        lemma_boundary_around_ascii(page@, i as int);
                        assert(page@.subrange(i + 1, i + 1) =~= Seq::<u8>::empty());
                        assert(bytes_of(out@) + page@.subrange(i + 1, i + 1) =~= bytes_of(out@));
                    }
                }
            },
        }
        i += 1;
    }
    match state {
        State::Default | State::InTag => {
            let piece = slice(line, from, n);
            proof {
                lemma_bytes_of_concat(out@, piece@);
            }
            out.append(piece);
        },
        _ => {},
    }
    out
}

/// The reading of a page keeps no more bytes than it has read, and outside
/// of tags it keeps all of them.
proof fn lemma_scan_keeps(page: Seq<u8>, upto: int)
    requires
        0 <= upto <= page.len(),
    ensures
        scan(page, upto).kept.len() <= upto,
        (forall|i: int| 0 <= i < upto ==> page[i] != 0x3c) ==> scan(page, upto) == (Scan {
            kept: page.subrange(0, upto),
            state: State::Default,
        }),
    decreases upto,
{
    if upto > 0 {
        lemma_scan_keeps(page, upto - 1);
        if forall|i: int| 0 <= i < upto ==> page[i] != 0x3c {
            assert(page.subrange(0, upto - 1).push(page[upto - 1]) =~= page.subrange(0, upto));
        }
    } else {
        assert(page.subrange(0, 0) =~= Seq::<u8>::empty());
    }
}

/// A page without `<` has no tags, and all of it is kept.
pub proof fn lemma_page_without_tags_is_kept(page: Seq<char>)
    requires
        forall|i: int| 0 <= i < bytes_of(page).len() ==> bytes_of(page)[i] != 0x3c,
    ensures
        sanitized(page) == bytes_of(page),
{
    let bytes = bytes_of(page);
    lemma_scan_keeps(bytes, bytes.len() as int);
    assert(bytes.subrange(0, bytes.len() as int) =~= bytes);
}

/// Nothing is put into a page: what is kept of it is no longer than the page.
pub proof fn lemma_sanitized_is_no_longer(page: Seq<char>)
    ensures
        sanitized(page).len() <= bytes_of(page).len(),
{
    lemma_scan_keeps(bytes_of(page), bytes_of(page).len() as int);
}

} // verus!
