//! Byte sequences: occurrences of one sequence in another, and the
//! lexicographic order by which strings are compared.
//!
//! Strings are searched and ordered by their UTF-8 bytes. The functions here
//! work on plain byte sequences, so that they say nothing of encodings.

use vstd::prelude::*;

verus! {

/// `needle` stands in `hay` at offset `at`.
pub open spec fn occurs_at(hay: Seq<u8>, needle: Seq<u8>, at: int) -> bool {
    &&& 0 <= at
    &&& at + needle.len() <= hay.len()
    &&& hay.subrange(at, at + needle.len()) == needle
}

/// `needle` stands somewhere in `hay`.
pub open spec fn occurs(hay: Seq<u8>, needle: Seq<u8>) -> bool {
    exists|at: int| occurs_at(hay, needle, at)
}

/// `at` is the offset of the first occurrence of `needle` in `hay`.
pub open spec fn first_occurrence_at(hay: Seq<u8>, needle: Seq<u8>, at: int) -> bool {
    &&& occurs_at(hay, needle, at)
    &&& forall|k: int| 0 <= k < at ==> !occurs_at(hay, needle, k)
}

/// The offset of the first occurrence of `needle` in `hay`, if there is one.
pub open spec fn first_occurrence(hay: Seq<u8>, needle: Seq<u8>) -> Option<int> {
    if occurs(hay, needle) {
        Some(choose|at: int| first_occurrence_at(hay, needle, at))
    } else {
        None
    }
}

/// `suffix` is what `s` ends with.
pub open spec fn ends_with(s: Seq<u8>, suffix: Seq<u8>) -> bool {
    &&& suffix.len() <= s.len()
    &&& s.subrange(s.len() - suffix.len(), s.len() as int) == suffix
}

/// The first `k` bytes of `a` and of `b` are the same.
pub open spec fn agree_before(a: Seq<u8>, b: Seq<u8>, k: int) -> bool {
    &&& 0 <= k <= a.len()
    &&& k <= b.len()
    &&& forall|i: int| 0 <= i < k ==> a[i] == b[i]
}

/// `a` comes strictly before `b` in lexicographic order: `a` is a proper
/// prefix of `b`, or where the two first differ `a` holds the smaller byte.
pub open spec fn bytes_less(a: Seq<u8>, b: Seq<u8>) -> bool {
    exists|k: int| less_at(a, b, k)
}

/// `k` is the place that puts `a` before `b`.
pub open spec fn less_at(a: Seq<u8>, b: Seq<u8>, k: int) -> bool {
    &&& agree_before(a, b, k)
    &&& k < b.len()
    &&& (k == a.len() || a[k] < b[k])
}

/// Two offsets of first occurrence are the same offset.
pub proof fn lemma_first_occurrence_unique(hay: Seq<u8>, needle: Seq<u8>, at: int, other: int)
    requires
        first_occurrence_at(hay, needle, at),
        first_occurrence_at(hay, needle, other),
    ensures
        at == other,
{
}

/// `first_occurrence` is the one offset that `first_occurrence_at` admits.
pub proof fn lemma_first_occurrence(hay: Seq<u8>, needle: Seq<u8>, at: int)
    requires
        first_occurrence_at(hay, needle, at),
    ensures
        first_occurrence(hay, needle) == Some(at),
{
    let chosen = choose|k: int| first_occurrence_at(hay, needle, k);
    lemma_first_occurrence_unique(hay, needle, at, chosen);
}

/// Nothing comes before itself.
pub proof fn lemma_less_irreflexive(a: Seq<u8>)
    ensures
        !bytes_less(a, a),
{
}

/// Of two sequences exactly one of three holds: the first comes before the
/// second, they are equal, or the second comes before the first.
pub proof fn lemma_less_trichotomy(a: Seq<u8>, b: Seq<u8>)
    ensures
        bytes_less(a, b) || a == b || bytes_less(b, a),
        !(bytes_less(a, b) && bytes_less(b, a)),
        !(bytes_less(a, b) && a == b),
    decreases a.len(),
{
    if bytes_less(a, b) && bytes_less(b, a) {
        let k = choose|k: int| less_at(a, b, k);
        let m = choose|m: int| less_at(b, a, m);
        if k < m {
            assert(b[k] == a[k]);
        } else if m < k {
            assert(a[m] == b[m]);
        }
    }
    lemma_first_difference(a, b, 0);
}

/// From a place up to which `a` and `b` agree, the two are found equal or one of
/// them is found to come first.
proof fn lemma_first_difference(a: Seq<u8>, b: Seq<u8>, k: int)
    requires
        agree_before(a, b, k),
    ensures
        bytes_less(a, b) || a == b || bytes_less(b, a),
    decreases a.len() - k,
{
    if k == a.len() {
        if k == b.len() {
            assert(a =~= b);
        } else {
            assert(less_at(a, b, k));
        }
    } else if k == b.len() {
        assert(agree_before(b, a, k));
        assert(less_at(b, a, k));
    } else if a[k] < b[k] {
        assert(less_at(a, b, k));
    } else if b[k] < a[k] {
        assert(agree_before(b, a, k));
        assert(less_at(b, a, k));
    } else {
        lemma_first_difference(a, b, k + 1);
    }
}

/// The order is transitive.
pub proof fn lemma_less_transitive(a: Seq<u8>, b: Seq<u8>, c: Seq<u8>)
    requires
        bytes_less(a, b),
        bytes_less(b, c),
    ensures
        bytes_less(a, c),
{
    let k = choose|k: int| less_at(a, b, k);
    let m = choose|m: int| less_at(b, c, m);
    let n = if k <= m {
        k
    } else {
        m
    };
    assert(agree_before(a, c, n));
    assert(less_at(a, c, n));
}

/// Whether `needle` stands in `hay` at offset `at`.
pub fn matches_at(hay: &[u8], needle: &[u8], at: usize) -> (r: bool)
    requires
        at + needle@.len() <= hay@.len(),
    ensures
        r == occurs_at(hay@, needle@, at as int),
{
    let n: usize = hay.len();
    let m: usize = needle.len();
    let mut i: usize = 0;
    while i < m
        invariant
            n == hay@.len(),
            m == needle@.len(),
            at + m <= n,
            i <= m,
            forall|j: int| 0 <= j < i ==> hay@[at + j] == needle@[j],
        decreases m - i,
    {
        if hay[at + i] != needle[i] {
            assert(hay@.subrange(at as int, at + m)[i as int] != needle@[i as int]);
            return false;
        }
        i += 1;
    }
    assert(hay@.subrange(at as int, at + m) =~= needle@);
    true
}

/// The offset of the first occurrence of `needle` in `hay`.
///
/// The empty sequence occurs at offset 0 of every sequence.
pub fn find(hay: &[u8], needle: &[u8]) -> (r: Option<usize>)
    ensures
        match r {
            Some(at) => first_occurrence_at(hay@, needle@, at as int),
            None => !occurs(hay@, needle@),
        },
        first_occurrence(hay@, needle@) == match r {
            Some(at) => Some(at as int),
            None => None,
        },
{
    let n: usize = hay.len();
    let m: usize = needle.len();
    if m > n {
        return None;
    }
    let last: usize = n - m;
    let mut at: usize = 0;
    loop
        invariant
            n == hay@.len(),
            m == needle@.len(),
            last == n - m,
            at <= last,
            forall|k: int| 0 <= k < at ==> !occurs_at(hay@, needle@, k),
        decreases last - at,
    {
        if matches_at(hay, needle, at) {
            proof {
                lemma_first_occurrence(hay@, needle@, at as int);
            }
            return Some(at);
        }
        if at == last {
            return None;
        }
        at += 1;
    }
}

/// Whether `needle` stands somewhere in `hay`.
pub fn contains(hay: &[u8], needle: &[u8]) -> (r: bool)
    ensures
        r == occurs(hay@, needle@),
{
    find(hay, needle).is_some()
}

/// Whether `s` ends with `suffix`.
pub fn has_suffix(s: &[u8], suffix: &[u8]) -> (r: bool)
    ensures
        r == ends_with(s@, suffix@),
{
    if suffix.len() > s.len() {
        return false;
    }
    matches_at(s, suffix, s.len() - suffix.len())
}

/// Whether `a` and `b` hold the same bytes.
pub fn same_bytes(a: &[u8], b: &[u8]) -> (r: bool)
    ensures
        r == (a@ == b@),
{
    if a.len() != b.len() {
        return false;
    }
    let r = matches_at(a, b, 0);
    assert(a@.subrange(0, a@.len() as int) =~= a@);
    r
}

/// Whether `a` comes strictly before `b` in lexicographic order.
pub fn less(a: &[u8], b: &[u8]) -> (r: bool)
    ensures
        r == bytes_less(a@, b@),
{
    let n: usize = a.len();
    let m: usize = b.len();
    let mut k: usize = 0;
    while k < n && k < m
        invariant
            n == a@.len(),
            m == b@.len(),
            agree_before(a@, b@, k as int),
        decreases n - k,
    {
        if a[k] != b[k] {
            if a[k] < b[k] {
                assert(less_at(a@, b@, k as int));
                return true;
            } else {
                assert(agree_before(b@, a@, k as int));
                assert(less_at(b@, a@, k as int));
                proof {
                    lemma_less_trichotomy(a@, b@);
                }
                return false;
            }
        }
        k += 1;
    }
    if k < m {
        assert(less_at(a@, b@, k as int));
        true
    } else {
        proof {
            if k == n {
                assert(a@ =~= b@);
                lemma_less_irreflexive(a@);
            } else {
                assert(agree_before(b@, a@, k as int));
                assert(less_at(b@, a@, k as int));
                lemma_less_trichotomy(a@, b@);
            }
        }
        false
    }
}

} // verus!
