//! Strings as the library reads them: by their UTF-8 bytes, folded to lower
//! case where a search ignores case, and trimmed of white space.

use vstd::prelude::*;
use vstd::utf8::*;
use crate::text::{bytes_less, contains, less, occurs, same_bytes};

verus! {

/// The UTF-8 bytes of a string.
pub open spec fn bytes_of(s: Seq<char>) -> Seq<u8> {
    encode_utf8(s)
}

/// The lower-case form of a string, as `str::to_lowercase` gives it.
pub uninterp spec fn lowercase(s: Seq<char>) -> Seq<char>;

/// `str::to_lowercase`: the result is the lower-case form of the argument,
/// a function of the argument's characters alone.
pub assume_specification[ str::to_lowercase ](s: &str) -> (r: String)
    ensures
        r@ == lowercase(s@),
;

/// Whether a character has the Unicode property White_Space, as
/// `char::is_whitespace` decides it.
pub uninterp spec fn is_white_space(c: char) -> bool;

/// A string without the white space at its two ends.
pub open spec fn trimmed(s: Seq<char>) -> Seq<char>
    decreases s.len(),
{
    if s.len() == 0 {
        s
    } else if is_white_space(s.first()) {
        trimmed(s.drop_first())
    } else if is_white_space(s.last()) {
        trimmed(s.drop_last())
    } else {
        s
    }
}

/// `str::trim`: the result is the argument without its leading and trailing
/// white space, where white space is what `char::is_whitespace` accepts. A
/// result that is not empty thus starts and ends with a character that is no
/// white space.
pub assume_specification[ str::trim ](s: &str) -> (r: &str)
    ensures
        r@ == trimmed(s@),
        r@.len() > 0 ==> !is_white_space(r@.first()) && !is_white_space(r@.last()),
;

/// A trimmed string has no white space at its ends.
pub proof fn lemma_trimmed_ends(s: Seq<char>)
    ensures
        trimmed(s).len() > 0 ==> !is_white_space(trimmed(s).first()) && !is_white_space(
            trimmed(s).last(),
        ),
    decreases s.len(),
{
    if s.len() == 0 {
    } else if is_white_space(s.first()) {
        lemma_trimmed_ends(s.drop_first());
    } else if is_white_space(s.last()) {
        lemma_trimmed_ends(s.drop_last());
    }
}

/// A trimmed string is a part of the string that it was trimmed from, and what
/// was trimmed off is white space. The result is where that part starts and
/// ends.
pub proof fn lemma_trimmed_part(s: Seq<char>) -> (r: (int, int))
    ensures
        0 <= r.0 <= r.1 <= s.len(),
        trimmed(s) == s.subrange(r.0, r.1),
        forall|k: int| 0 <= k < r.0 || r.1 <= k < s.len() ==> is_white_space(#[trigger] s[k]),
    decreases s.len(),
{
    if s.len() == 0 {
        assert(trimmed(s) =~= s.subrange(0, 0));
        (0, 0)
    } else if is_white_space(s.first()) {
        let rest = s.drop_first();
        let (from, to) = lemma_trimmed_part(rest);
        assert(rest.subrange(from, to) =~= s.subrange(from + 1, to + 1));
        assert forall|k: int| 0 <= k < from + 1 || to + 1 <= k < s.len() implies is_white_space(
            #[trigger] s[k],
        ) by {
            if k > 0 {
                assert(s[k] == rest[k - 1]);
            }
        }
        (from + 1, to + 1)
    } else if is_white_space(s.last()) {
        let rest = s.drop_last();
        let (from, to) = lemma_trimmed_part(rest);
        assert(rest.subrange(from, to) =~= s.subrange(from, to));
        assert forall|k: int| 0 <= k < from || to <= k < s.len() implies is_white_space(
            #[trigger] s[k],
        ) by {
            if k < rest.len() {
                assert(s[k] == rest[k]);
            }
        }
        (from, to)
    } else {
        assert(trimmed(s) =~= s.subrange(0, s.len() as int));
        (0, s.len() as int)
    }
}

/// Trimming keeps whatever stands between two characters that are not white
/// space: where `s` holds such characters at `first` and at `last`, the result
/// is where the trimmed string starts and ends in `s`, and it starts no later
/// than `first` and ends after `last`.
pub proof fn lemma_trimmed_keeps(s: Seq<char>, first: int, last: int) -> (r: (int, int))
    requires
        0 <= first <= last < s.len(),
        !is_white_space(s[first]),
        !is_white_space(s[last]),
    ensures
        0 <= r.0 <= first,
        last < r.1 <= s.len(),
        trimmed(s) == s.subrange(r.0, r.1),
{
    lemma_trimmed_part(s)
}

/// A part of a string has no more bytes than the string.
pub proof fn lemma_part_is_no_longer(s: Seq<char>, from: int, to: int)
    requires
        0 <= from <= to <= s.len(),
    ensures
        bytes_of(s.subrange(from, to)).len() <= bytes_of(s).len(),
{
    let head = s.subrange(0, from);
    let part = s.subrange(from, to);
    let tail = s.subrange(to, s.len() as int);
    assert(s =~= head + part + tail);
    lemma_bytes_of_concat(head + part, tail);
    lemma_bytes_of_concat(head, part);
}

/// A string as a search reads it: in lower case where case is ignored, else as
/// it stands.
pub open spec fn fold_case(s: Seq<char>, case_insensitive: bool) -> Seq<char> {
    if case_insensitive {
        lowercase(s)
    } else {
        s
    }
}

/// `needle` is a substring of `hay`.
pub open spec fn str_occurs(hay: Seq<char>, needle: Seq<char>) -> bool {
    occurs(bytes_of(hay), bytes_of(needle))
}

/// `a` sorts strictly before `b`.
pub open spec fn str_less(a: Seq<char>, b: Seq<char>) -> bool {
    bytes_less(bytes_of(a), bytes_of(b))
}

/// Strings with the same bytes are the same string.
pub proof fn lemma_bytes_of_injective(a: Seq<char>, b: Seq<char>)
    requires
        bytes_of(a) == bytes_of(b),
    ensures
        a == b,
{
    encode_utf8_decode_utf8(a);
    encode_utf8_decode_utf8(b);
}

/// The string that a sequence of UTF-8 bytes encodes.
pub open spec fn text_of(bytes: Seq<u8>) -> Seq<char> {
    decode_utf8(bytes)
}

/// `at` is the start of a character of the string `s`, or its end.
pub open spec fn boundary(s: Seq<char>, at: int) -> bool {
    is_char_boundary(bytes_of(s), at)
}

/// The bytes of a string are valid UTF-8, and encode that string.
pub proof fn lemma_bytes_of_valid(s: Seq<char>)
    ensures
        valid_utf8(bytes_of(s)),
        text_of(bytes_of(s)) == s,
        boundary(s, 0),
        boundary(s, bytes_of(s).len() as int),
{
    encode_utf8_valid_utf8(s);
    encode_utf8_decode_utf8(s);
    is_char_boundary_start_end_of_seq(bytes_of(s));
}

/// The bytes of two strings put together are the bytes of the one and then
/// the bytes of the other.
pub proof fn lemma_bytes_of_concat(a: Seq<char>, b: Seq<char>)
    ensures
        bytes_of(a + b) == bytes_of(a) + bytes_of(b),
    decreases a.len(),
{
    if a.len() == 0 {
        assert(a + b =~= b);
        assert(bytes_of(a) + bytes_of(b) =~= bytes_of(b));
    } else {
        assert((a + b).drop_first() =~= a.drop_first() + b);
        lemma_bytes_of_concat(a.drop_first(), b);
        assert(bytes_of(a + b) =~= bytes_of(a) + bytes_of(b));
    }
}

/// The string that two pieces of valid UTF-8 encode when they are put together
/// is the string of the one and then the string of the other.
pub proof fn lemma_text_of_concat(a: Seq<u8>, b: Seq<u8>)
    requires
        valid_utf8(a),
        valid_utf8(b),
    ensures
        text_of(a + b) == text_of(a) + text_of(b),
{
    decode_utf8_encode_utf8(a);
    decode_utf8_encode_utf8(b);
    lemma_bytes_of_concat(text_of(a), text_of(b));
    encode_utf8_decode_utf8(text_of(a) + text_of(b));
}

/// A character has between one and four bytes.
pub proof fn lemma_char_bytes(c: char)
    ensures
        1 <= bytes_of(seq![c]).len() <= 4,
{
    let s = seq![c];
    assert(s.drop_first() =~= Seq::<char>::empty());
    assert(bytes_of(s) =~= encode_scalar(c as u32) + encode_utf8(s.drop_first()));
    assert(encode_utf8(Seq::<char>::empty()).len() == 0);
}

/// A string has no fewer bytes than characters.
pub proof fn lemma_bytes_no_fewer(s: Seq<char>)
    ensures
        bytes_of(s).len() >= s.len(),
    decreases s.len(),
{
    if s.len() > 0 {
        lemma_char_bytes(s[0]);
        assert(s =~= seq![s[0]] + s.drop_first());
        lemma_bytes_of_concat(seq![s[0]], s.drop_first());
        lemma_bytes_no_fewer(s.drop_first());
    }
}

/// Where one string ends and the next one starts, a character starts.
pub proof fn lemma_boundary_between(a: Seq<char>, b: Seq<char>)
    ensures
        boundary(a + b, bytes_of(a).len() as int),
{
    lemma_bytes_of_concat(a, b);
    lemma_bytes_of_valid(a + b);
    lemma_bytes_of_valid(b);
    let at = bytes_of(a).len() as int;
    if bytes_of(b).len() > 0 {
        assert(bytes_of(a + b)[at] == bytes_of(b)[0]);
        lemma_boundary_by_byte(bytes_of(b), 0);
        lemma_boundary_by_byte(bytes_of(a + b), at);
    }
}

/// Only the empty string has no bytes.
pub proof fn lemma_empty_bytes(s: Seq<char>)
    ensures
        bytes_of(s).len() == 0 <==> s.len() == 0,
{
    if s.len() > 0 {
        encode_utf8_first_scalar(s);
    }
}

/// A place inside valid UTF-8 is a character's start exactly when the byte
/// there is no continuation byte.
pub proof fn lemma_boundary_by_byte(b: Seq<u8>, at: int)
    requires
        valid_utf8(b),
        0 <= at < b.len(),
    ensures
        is_char_boundary(b, at) <==> !(0x80 <= b[at] <= 0xbf),
{
    is_char_boundary_iff_not_is_continuation_byte(b, at);
}

/// What lies between two character boundaries is valid UTF-8, and so is what
/// lies after one.
pub proof fn lemma_between_boundaries(b: Seq<u8>, from: int, to: int)
    requires
        valid_utf8(b),
        0 <= from <= to <= b.len(),
        is_char_boundary(b, from),
        is_char_boundary(b, to),
    ensures
        valid_utf8(b.subrange(0, to)),
        is_char_boundary(b.subrange(0, to), from),
        valid_utf8(b.subrange(from, to)),
        valid_utf8(b.subrange(from, b.len() as int)),
{
    let head = b.subrange(0, to);
    valid_utf8_split(b, to);
    valid_utf8_split(b, from);
    if from == to {
        is_char_boundary_start_end_of_seq(head);
    } else {
        lemma_boundary_by_byte(b, from);
        lemma_boundary_by_byte(head, from);
    }
    valid_utf8_split(head, from);
    assert(head.subrange(from, head.len() as int) =~= b.subrange(from, to));
}

/// After a byte below 0x80 a new character starts, as one does at that byte.
pub proof fn lemma_boundary_around_ascii(b: Seq<u8>, at: int)
    requires
        valid_utf8(b),
        0 <= at < b.len(),
        b[at] < 0x80,
    ensures
        is_char_boundary(b, at),
        is_char_boundary(b, at + 1),
{
    lemma_boundary_by_byte(b, at);
    if at + 1 == b.len() {
        is_char_boundary_start_end_of_seq(b);
    } else {
        valid_utf8_split(b, at);
        let tail = b.subrange(at, b.len() as int);
        assert(tail[0] == b[at]);
        let rest = pop_first_scalar(tail);
        assert(rest =~= b.subrange(at + 1, b.len() as int));
        assert(valid_utf8(rest));
        assert(valid_first_scalar(rest));
        assert(rest[0] == b[at + 1]);
        lemma_boundary_by_byte(b, at + 1);
    }
}

/// The part of `s` between two character boundaries, given as byte offsets.
pub fn slice(s: &str, from: usize, to: usize) -> (r: &str)
    requires
        from <= to <= bytes_of(s@).len(),
        boundary(s@, from as int),
        boundary(s@, to as int),
    ensures
        bytes_of(r@) == bytes_of(s@).subrange(from as int, to as int),
        r@ == text_of(bytes_of(s@).subrange(from as int, to as int)),
{
    proof {
        lemma_bytes_of_valid(s@);
        lemma_between_boundaries(bytes_of(s@), from as int, to as int);
    }
    let (head, _) = s.split_at(to);
    let (_, r) = head.split_at(from);
    proof {
        assert(bytes_of(r@) =~= bytes_of(s@).subrange(from as int, to as int));
        lemma_bytes_of_valid(r@);
    }
    r
}

/// The folded form of `s`.
pub fn fold(s: &str, case_insensitive: bool) -> (r: String)
    ensures
        r@ == fold_case(s@, case_insensitive),
{
    if case_insensitive {
        s.to_lowercase()
    } else {
        s.to_owned()
    }
}

/// Whether `needle` is a substring of `hay`.
pub fn is_substring(hay: &str, needle: &str) -> (r: bool)
    ensures
        r == str_occurs(hay@, needle@),
{
    contains(hay.as_bytes(), needle.as_bytes())
}

/// Whether `a` and `b` are the same string.
pub fn same_str(a: &str, b: &str) -> (r: bool)
    ensures
        r == (a@ == b@),
{
    let r = same_bytes(a.as_bytes(), b.as_bytes());
    proof {
        if r {
            lemma_bytes_of_injective(a@, b@);
        }
    }
    r
}

/// Whether `a` sorts strictly before `b`.
pub fn sorts_before(a: &str, b: &str) -> (r: bool)
    ensures
        r == str_less(a@, b@),
{
    less(a.as_bytes(), b.as_bytes())
}

} // verus!
