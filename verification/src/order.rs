//! The order of results, and sorting by it.
//!
//! Exact results are ordered by item, then by fragment, a result without a
//! fragment before one with a fragment. Vague results are ordered by item, then
//! by their excerpts. Strings are ordered by their UTF-8 bytes.

use vstd::prelude::*;
use vstd::multiset::Multiset;
use vstd::seq_lib::{to_multiset_build, to_multiset_insert, to_multiset_len, to_multiset_remove};
use crate::model::{
    exact_views, string_views, vague_views, ExactResult, ExactView, VagueResult, VagueView,
};
use crate::strings::{bytes_of, lemma_bytes_of_injective, same_str, sorts_before, str_less};
use crate::text::{lemma_less_irreflexive, lemma_less_transitive, lemma_less_trichotomy};

verus! {

/// The order of optional strings: an absent one before a present one.
pub open spec fn option_less(a: Option<Seq<char>>, b: Option<Seq<char>>) -> bool {
    match (a, b) {
        (None, Some(_)) => true,
        (Some(x), Some(y)) => str_less(x, y),
        _ => false,
    }
}

/// `a` sorts strictly before `b`.
pub open spec fn exact_less(a: ExactView, b: ExactView) -> bool {
    str_less(a.item, b.item) || (a.item == b.item && option_less(a.fragment, b.fragment))
}

/// `k` is the place that puts the list `a` before the list `b`.
pub open spec fn list_less_at(a: Seq<Seq<char>>, b: Seq<Seq<char>>, k: int) -> bool {
    &&& 0 <= k <= a.len()
    &&& k < b.len()
    &&& forall|i: int| 0 <= i < k ==> a[i] == b[i]
    &&& (k == a.len() || str_less(a[k], b[k]))
}

/// The order of lists of strings: by the first string in which they differ, a
/// proper prefix before the longer list.
pub open spec fn list_less(a: Seq<Seq<char>>, b: Seq<Seq<char>>) -> bool {
    exists|k: int| list_less_at(a, b, k)
}

/// `a` sorts strictly before `b`.
pub open spec fn vague_less(a: VagueView, b: VagueView) -> bool {
    str_less(a.item, b.item) || (a.item == b.item && list_less(a.contexts, b.contexts))
}

/// No result of the list sorts before one that stands earlier in it.
pub open spec fn exact_sorted(s: Seq<ExactView>) -> bool {
    forall|i: int, j: int| 0 <= i < j < s.len() ==> !exact_less(s[j], s[i])
}

/// No result of the list sorts before one that stands earlier in it.
pub open spec fn vague_sorted(s: Seq<VagueView>) -> bool {
    forall|i: int, j: int| 0 <= i < j < s.len() ==> !vague_less(s[j], s[i])
}

/// The items of the list ascend.
pub open spec fn items_ascend(s: Seq<VagueView>) -> bool {
    forall|i: int, j: int| 0 <= i < j < s.len() ==> !str_less(s[j].item, s[i].item)
}

/// The order of strings is strict and total.
pub proof fn lemma_str_order(a: Seq<char>, b: Seq<char>, c: Seq<char>)
    ensures
        !str_less(a, a),
        str_less(a, b) && str_less(b, c) ==> str_less(a, c),
        str_less(a, b) || a == b || str_less(b, a),
        !(str_less(a, b) && str_less(b, a)),
{
    lemma_less_irreflexive(bytes_of(a));
    lemma_less_trichotomy(bytes_of(a), bytes_of(b));
    if str_less(a, b) && str_less(b, c) {
        lemma_less_transitive(bytes_of(a), bytes_of(b), bytes_of(c));
    }
    if bytes_of(a) == bytes_of(b) {
        lemma_bytes_of_injective(a, b);
    }
}

/// The order of optional strings is strict and total.
pub proof fn lemma_option_order(
    a: Option<Seq<char>>,
    b: Option<Seq<char>>,
    c: Option<Seq<char>>,
)
    ensures
        !option_less(a, a),
        option_less(a, b) && option_less(b, c) ==> option_less(a, c),
        option_less(a, b) || a == b || option_less(b, a),
        !(option_less(a, b) && option_less(b, a)),
{
    match (a, b, c) {
        (Some(x), Some(y), Some(z)) => {
            lemma_str_order(x, y, z);
        },
        (Some(x), Some(y), None) => {
            lemma_str_order(x, y, y);
        },
        (Some(x), None, _) => {
            lemma_str_order(x, x, x);
        },
        _ => {},
    }
}

/// The order of exact results is strict and total.
pub proof fn lemma_exact_order(a: ExactView, b: ExactView, c: ExactView)
    ensures
        !exact_less(a, a),
        exact_less(a, b) && exact_less(b, c) ==> exact_less(a, c),
        exact_less(a, b) || a == b || exact_less(b, a),
        !(exact_less(a, b) && exact_less(b, a)),
        !exact_less(a, b) && !exact_less(b, c) ==> !exact_less(a, c),
{
    lemma_str_order(a.item, b.item, c.item);
    lemma_str_order(b.item, a.item, c.item);
    lemma_str_order(c.item, b.item, a.item);
    lemma_str_order(a.item, c.item, b.item);
    lemma_option_order(a.fragment, b.fragment, c.fragment);
    lemma_option_order(b.fragment, a.fragment, c.fragment);
    lemma_option_order(c.fragment, b.fragment, a.fragment);
    lemma_option_order(a.fragment, c.fragment, b.fragment);
}

/// From a place up to which the lists `a` and `b` agree, the two are found
/// equal or one of them is found to come first.
proof fn lemma_list_first_difference(a: Seq<Seq<char>>, b: Seq<Seq<char>>, k: int)
    requires
        0 <= k <= a.len(),
        k <= b.len(),
        forall|i: int| 0 <= i < k ==> a[i] == b[i],
    ensures
        list_less(a, b) || a == b || list_less(b, a),
    decreases a.len() - k,
{
    if k == a.len() {
        if k == b.len() {
            assert(a =~= b);
        } else {
            assert(list_less_at(a, b, k));
        }
    } else if k == b.len() {
        assert(list_less_at(b, a, k));
    } else {
        lemma_str_order(a[k], b[k], a[k]);
        if str_less(a[k], b[k]) {
            assert(list_less_at(a, b, k));
        } else if str_less(b[k], a[k]) {
            assert(list_less_at(b, a, k));
        } else {
            lemma_list_first_difference(a, b, k + 1);
        }
    }
}

/// The order of lists of strings is strict and total.
pub proof fn lemma_list_order(a: Seq<Seq<char>>, b: Seq<Seq<char>>, c: Seq<Seq<char>>)
    ensures
        !list_less(a, a),
        list_less(a, b) && list_less(b, c) ==> list_less(a, c),
        list_less(a, b) || a == b || list_less(b, a),
        !(list_less(a, b) && list_less(b, a)),
{
    if list_less(a, a) {
        let k = choose|k: int| list_less_at(a, a, k);
        lemma_str_order(a[k], a[k], a[k]);
    }
    if list_less(a, b) && list_less(b, c) {
        let k = choose|k: int| list_less_at(a, b, k);
        let m = choose|m: int| list_less_at(b, c, m);
        if k < m {
            assert(list_less_at(a, c, k));
        } else if m < k {
            assert(list_less_at(a, c, m));
        } else {
            if k < a.len() {
                lemma_str_order(a[k], b[k], c[k]);
            }
            assert(list_less_at(a, c, k));
        }
    }
    if list_less(a, b) && list_less(b, a) {
        let k = choose|k: int| list_less_at(a, b, k);
        let m = choose|m: int| list_less_at(b, a, m);
        if k < m {
            lemma_str_order(a[k], a[k], a[k]);
        } else if m < k {
            lemma_str_order(b[m], b[m], b[m]);
        } else {
            lemma_str_order(a[k], b[k], a[k]);
        }
    }
    lemma_list_first_difference(a, b, 0);
}

/// The order of vague results is strict and total.
pub proof fn lemma_vague_order(a: VagueView, b: VagueView, c: VagueView)
    ensures
        !vague_less(a, a),
        vague_less(a, b) && vague_less(b, c) ==> vague_less(a, c),
        vague_less(a, b) || a == b || vague_less(b, a),
        !(vague_less(a, b) && vague_less(b, a)),
        !vague_less(a, b) && !vague_less(b, c) ==> !vague_less(a, c),
{
    lemma_str_order(a.item, b.item, c.item);
    lemma_str_order(b.item, a.item, c.item);
    lemma_str_order(c.item, b.item, a.item);
    lemma_str_order(a.item, c.item, b.item);
    lemma_list_order(a.contexts, b.contexts, c.contexts);
    lemma_list_order(b.contexts, a.contexts, c.contexts);
    lemma_list_order(c.contexts, b.contexts, a.contexts);
    lemma_list_order(a.contexts, c.contexts, b.contexts);
}

/// A list sorted by item and excerpts has its items in ascending order.
pub proof fn lemma_vague_sorted_items_ascend(s: Seq<VagueView>)
    requires
        vague_sorted(s),
    ensures
        items_ascend(s),
{
    assert forall|i: int, j: int| 0 <= i < j < s.len() implies !str_less(s[j].item, s[i].item) by {
        assert(!vague_less(s[j], s[i]));
    }
}

/// `a` sorts before `b` or is `b`.
pub open spec fn exact_at_most(a: ExactView, b: ExactView) -> bool {
    !exact_less(b, a)
}

/// `a` sorts before `b` or is `b`.
pub open spec fn vague_at_most(a: VagueView, b: VagueView) -> bool {
    !vague_less(b, a)
}

/// The order of exact results, with equality.
pub open spec fn exact_order() -> spec_fn(ExactView, ExactView) -> bool {
    |a: ExactView, b: ExactView| exact_at_most(a, b)
}

/// The order of exact results, with equality, is a total order.
pub proof fn lemma_exact_at_most_is_total()
    ensures
        vstd::relations::total_ordering(exact_order()),
{
    let leq = exact_order();
    assert(vstd::relations::reflexive(leq)) by {
        assert forall|a: ExactView| #[trigger] leq(a, a) by {
            lemma_exact_order(a, a, a);
        }
    }
    assert(vstd::relations::antisymmetric(leq)) by {
        assert forall|a: ExactView, b: ExactView| #[trigger] leq(a, b) && #[trigger] leq(b, a) implies a
            == b by {
            lemma_exact_order(a, b, a);
        }
    }
    assert(vstd::relations::transitive(leq)) by {
        assert forall|a: ExactView, b: ExactView, c: ExactView| #[trigger]
            leq(a, b) && #[trigger] leq(b, c) implies leq(a, c) by {
            lemma_exact_order(c, b, a);
        }
    }
    assert(vstd::relations::strongly_connected(leq)) by {
        assert forall|a: ExactView, b: ExactView| #[trigger] leq(a, b) || #[trigger] leq(b, a) by {
            lemma_exact_order(a, b, a);
        }
    }
}

/// The exact results of a list in their order.
pub open spec fn exact_in_order(s: Seq<ExactView>) -> Seq<ExactView> {
    s.sort_by(exact_order())
}

/// The exact results of a list in their order are sorted, and hold what the
/// list holds, each result as often as the list holds it.
pub proof fn lemma_exact_in_order(s: Seq<ExactView>)
    ensures
        exact_sorted(exact_in_order(s)),
        exact_in_order(s).to_multiset() == s.to_multiset(),
        exact_in_order(s).len() == s.len(),
{
    let leq = exact_order();
    let r = exact_in_order(s);
    lemma_exact_at_most_is_total();
    s.lemma_sort_by_ensures(leq);
    to_multiset_len(s);
    to_multiset_len(r);
    assert forall|i: int, j: int| 0 <= i < j < r.len() implies !exact_less(r[j], r[i]) by {
        assert(leq(r[i], r[j]));
    }
}

/// Two sorted lists of exact results that hold the same results, each as often
/// as the other, are the same list: sorting leaves no choice.
pub proof fn lemma_sorted_exact_is_unique(x: Seq<ExactView>, y: Seq<ExactView>)
    requires
        exact_sorted(x),
        exact_sorted(y),
        x.to_multiset() == y.to_multiset(),
    ensures
        x == y,
{
    let leq = exact_order();
    lemma_exact_at_most_is_total();
    assert(vstd::relations::sorted_by(x, leq));
    assert(vstd::relations::sorted_by(y, leq));
    vstd::seq_lib::lemma_sorted_unique(x, y, leq);
}

/// The order of vague results, with equality.
pub open spec fn vague_order() -> spec_fn(VagueView, VagueView) -> bool {
    |a: VagueView, b: VagueView| vague_at_most(a, b)
}

/// The order of vague results, with equality, is a total order.
pub proof fn lemma_vague_at_most_is_total()
    ensures
        vstd::relations::total_ordering(vague_order()),
{
    let leq = vague_order();
    assert(vstd::relations::reflexive(leq)) by {
        assert forall|a: VagueView| #[trigger] leq(a, a) by {
            lemma_vague_order(a, a, a);
        }
    }
    assert(vstd::relations::antisymmetric(leq)) by {
        assert forall|a: VagueView, b: VagueView| #[trigger] leq(a, b) && #[trigger] leq(b, a) implies a
            == b by {
            lemma_vague_order(a, b, a);
        }
    }
    assert(vstd::relations::transitive(leq)) by {
        assert forall|a: VagueView, b: VagueView, c: VagueView| #[trigger]
            leq(a, b) && #[trigger] leq(b, c) implies leq(a, c) by {
            lemma_vague_order(c, b, a);
        }
    }
    assert(vstd::relations::strongly_connected(leq)) by {
        assert forall|a: VagueView, b: VagueView| #[trigger] leq(a, b) || #[trigger] leq(b, a) by {
            lemma_vague_order(a, b, a);
        }
    }
}

/// The vague results of a list in their order.
pub open spec fn vague_in_order(s: Seq<VagueView>) -> Seq<VagueView> {
    s.sort_by(vague_order())
}

/// The vague results of a list in their order are sorted, and hold what the
/// list holds, each result as often as the list holds it.
pub proof fn lemma_vague_in_order(s: Seq<VagueView>)
    ensures
        vague_sorted(vague_in_order(s)),
        vague_in_order(s).to_multiset() == s.to_multiset(),
        vague_in_order(s).len() == s.len(),
{
    let leq = vague_order();
    let r = vague_in_order(s);
    lemma_vague_at_most_is_total();
    s.lemma_sort_by_ensures(leq);
    to_multiset_len(s);
    to_multiset_len(r);
    assert forall|i: int, j: int| 0 <= i < j < r.len() implies !vague_less(r[j], r[i]) by {
        assert(leq(r[i], r[j]));
    }
}

/// Two sorted lists of vague results that hold the same results, each as often
/// as the other, are the same list: sorting leaves no choice.
pub proof fn lemma_sorted_vague_is_unique(x: Seq<VagueView>, y: Seq<VagueView>)
    requires
        vague_sorted(x),
        vague_sorted(y),
        x.to_multiset() == y.to_multiset(),
    ensures
        x == y,
{
    let leq = vague_order();
    lemma_vague_at_most_is_total();
    assert(vstd::relations::sorted_by(x, leq));
    assert(vstd::relations::sorted_by(y, leq));
    vstd::seq_lib::lemma_sorted_unique(x, y, leq);
}

/// A type whose values have a strict order that sorting goes by.
pub trait Ranked: Sized {
    /// `self` sorts strictly before `other`.
    spec fn precedes(&self, other: &Self) -> bool;

    /// Nothing sorts before itself, the order is transitive, and so is its
    /// complement.
    proof fn lemma_ranked(a: &Self, b: &Self, c: &Self)
        ensures
            !a.precedes(a),
            a.precedes(b) && b.precedes(c) ==> a.precedes(c),
            !a.precedes(b) && !b.precedes(c) ==> !a.precedes(c),
    ;

    /// Whether `self` sorts strictly before `other`.
    fn comes_before(&self, other: &Self) -> (r: bool)
        ensures
            r == self.precedes(other),
    ;
}

/// Whether the list `a` sorts strictly before the list `b`.
pub fn list_comes_before(a: &Vec<String>, b: &Vec<String>) -> (r: bool)
    ensures
        r == list_less(string_views(a@), string_views(b@)),
{
    let ghost av = string_views(a@);
    let ghost bv = string_views(b@);
    let n: usize = a.len();
    let m: usize = b.len();
    let mut k: usize = 0;
    while k < n && k < m
        invariant
            n == a@.len(),
            m == b@.len(),
            av == string_views(a@),
            bv == string_views(b@),
            k <= n,
            k <= m,
            forall|i: int| 0 <= i < k ==> av[i] == bv[i],
        decreases n - k,
    {
        if !same_str(a[k].as_str(), b[k].as_str()) {
            let r = sorts_before(a[k].as_str(), b[k].as_str());
            proof {
                lemma_str_order(av[k as int], bv[k as int], av[k as int]);
                if r {
                    assert(list_less_at(av, bv, k as int));
                } else {
                    assert(list_less_at(bv, av, k as int));
                    lemma_list_order(av, bv, av);
                }
            }
            return r;
        }
        k += 1;
    }
    proof {
        if k < m {
            assert(list_less_at(av, bv, k as int));
        } else if k == n {
            assert(av =~= bv);
            lemma_list_order(av, av, av);
        } else {
            assert(list_less_at(bv, av, k as int));
            lemma_list_order(av, bv, av);
        }
    }
    k < m
}

impl Ranked for ExactResult {
    open spec fn precedes(&self, other: &Self) -> bool {
        exact_less(self@, other@)
    }

    proof fn lemma_ranked(a: &Self, b: &Self, c: &Self) {
        lemma_exact_order(a@, b@, c@);
        lemma_exact_order(a@, a@, a@);
    }

    fn comes_before(&self, other: &Self) -> (r: bool) {
        if !same_str(self.item.as_str(), other.item.as_str()) {
            proof {
                lemma_str_order(self.item@, self.item@, self.item@);
            }
            return sorts_before(self.item.as_str(), other.item.as_str());
        }
        proof {
            lemma_str_order(self.item@, self.item@, self.item@);
        }
        match (&self.fragment, &other.fragment) {
            (None, Some(_)) => true,
            (Some(x), Some(y)) => sorts_before(x.as_str(), y.as_str()),
            _ => false,
        }
    }
}

impl Ranked for VagueResult {
    open spec fn precedes(&self, other: &Self) -> bool {
        vague_less(self@, other@)
    }

    proof fn lemma_ranked(a: &Self, b: &Self, c: &Self) {
        lemma_vague_order(a@, b@, c@);
        lemma_vague_order(a@, a@, a@);
    }

    fn comes_before(&self, other: &Self) -> (r: bool) {
        proof {
            lemma_str_order(self.item@, self.item@, self.item@);
        }
        if !same_str(self.item.as_str(), other.item.as_str()) {
            return sorts_before(self.item.as_str(), other.item.as_str());
        }
        list_comes_before(&self.contexts, &other.contexts)
    }
}

/// No value of the list sorts before one that stands earlier in it.
pub open spec fn sorted<T: Ranked>(s: Seq<T>) -> bool {
    forall|i: int, j: int| #![trigger s[i], s[j]] 0 <= i < j < s.len() ==> !s[j].precedes(&s[i])
}

/// No value of the list sorts before one that stands later in it.
pub open spec fn descending<T: Ranked>(s: Seq<T>) -> bool {
    forall|i: int, j: int| #![trigger s[i], s[j]] 0 <= i < j < s.len() ==> !s[i].precedes(&s[j])
}

/// No value of `high` sorts before a value of `low`.
pub open spec fn all_below<T: Ranked>(low: Seq<T>, high: Seq<T>) -> bool {
    forall|i: int, j: int|
        #![trigger low[i], high[j]]
        0 <= i < low.len() && 0 <= j < high.len() ==> !high[j].precedes(&low[i])
}

/// The empty list holds nothing.
pub proof fn lemma_empty_to_multiset<A>(s: Seq<A>)
    requires
        s.len() == 0,
    ensures
        s.to_multiset() == Multiset::<A>::empty(),
{
    broadcast use vstd::multiset::group_multiset_axioms;

    s.to_multiset_ensures();
    assert forall|a: A| s.to_multiset().count(a) == 0 by {
        assert(!s.contains(a));
    }
    assert(s.to_multiset() =~= Multiset::<A>::empty());
}

/// Lists with the same values the same number of times keep that when a
/// function is applied to each value.
pub proof fn lemma_map_keeps_multiset<A, B>(s: Seq<A>, t: Seq<A>, f: spec_fn(A) -> B)
    requires
        s.to_multiset() == t.to_multiset(),
    ensures
        s.map_values(f).to_multiset() == t.map_values(f).to_multiset(),
    decreases s.len(),
{
    to_multiset_len(s);
    to_multiset_len(t);
    if s.len() == 0 {
        assert(s.map_values(f) =~= t.map_values(f));
    } else {
        let x = s.last();
        let head = s.drop_last();
        assert(s =~= head.push(x));
        to_multiset_build(head, x);
        assert(s.to_multiset().count(x) > 0);
        t.to_multiset_ensures();
        assert(t.contains(x));
        let k = choose|k: int| 0 <= k < t.len() && t[k] == x;
        let rest = t.remove(k);
        to_multiset_remove(t, k);
        assert(head.to_multiset() =~= s.to_multiset().remove(x));
        lemma_map_keeps_multiset(head, rest, f);
        assert(s.map_values(f) =~= head.map_values(f).push(f(x)));
        to_multiset_build(head.map_values(f), f(x));
        assert(t.map_values(f) =~= rest.map_values(f).insert(k, f(x)));
        to_multiset_insert(rest.map_values(f), k, f(x));
    }
}

/// Merges two sorted lists into one.
fn merge<T: Ranked>(a: Vec<T>, b: Vec<T>) -> (r: Vec<T>)
    requires
        sorted(a@),
        sorted(b@),
    ensures
        sorted(r@),
        r@.to_multiset() == a@.to_multiset().add(b@.to_multiset()),
{
    let ghost total = a@.to_multiset().add(b@.to_multiset());
    let mut a = a;
    let mut b = b;
    let mut down: Vec<T> = Vec::new();
    proof {
        lemma_empty_to_multiset(down@);
        assert(a@.to_multiset().add(b@.to_multiset()).add(down@.to_multiset()) =~= total);
    }
    loop
        invariant
            sorted(a@),
            sorted(b@),
            descending(down@),
            all_below(a@, down@),
            all_below(b@, down@),
            a@.to_multiset().add(b@.to_multiset()).add(down@.to_multiset()) == total,
        ensures
            a@.len() == 0,
            b@.len() == 0,
            descending(down@),
            down@.to_multiset() == total,
        decreases a@.len() + b@.len(),
    {
        let n: usize = a.len();
        let m: usize = b.len();
        if n == 0 && m == 0 {
            proof {
                lemma_empty_to_multiset(a@);
                lemma_empty_to_multiset(b@);
            }
            assert(down@.to_multiset() =~= total);
            break;
        }
        let from_b: bool = if n == 0 {
            true
        } else if m == 0 {
            false
        } else {
            !b[m - 1].comes_before(&a[n - 1])
        };
        let ghost a0 = a@;
        let ghost b0 = b@;
        let ghost d0 = down@;
        if from_b {
            let x = b.pop().unwrap();
            assert(b0 =~= b@.push(x));
            proof {
                to_multiset_build(b@, x);
                to_multiset_build(d0, x);
                assert forall|i: int| 0 <= i < a0.len() implies !x.precedes(&a0[i]) by {
                    T::lemma_ranked(&x, &a0[n - 1], &a0[i]);
                    if i < n - 1 {
                        assert(!a0[n - 1].precedes(&a0[i]));
                    } else {
                        T::lemma_ranked(&a0[i], &a0[i], &a0[i]);
                    }
                    assert(x == b0[m - 1]);
                }
                assert forall|i: int| 0 <= i < b@.len() implies !x.precedes(&b@[i]) by {
                    assert(b@[i] == b0[i]);
                    assert(x == b0[m - 1]);
                }
                assert forall|i: int| 0 <= i < d0.len() implies !d0[i].precedes(&x) by {
                    assert(x == b0[m - 1]);
                }
            }
            down.push(x);
            assert(sorted(b@)) by {
                assert forall|i: int, j: int| 0 <= i < j < b@.len() implies !b@[j].precedes(
                    &b@[i],
                ) by {
                    assert(b@[i] == b0[i] && b@[j] == b0[j]);
                }
            }
            assert(all_below(b@, down@)) by {
                assert forall|i: int, j: int|
                    0 <= i < b@.len() && 0 <= j < down@.len() implies !down@[j].precedes(
                    &b@[i],
                ) by {
                    assert(b@[i] == b0[i]);
                    if j < d0.len() {
                        assert(down@[j] == d0[j]);
                    }
                }
            }
            assert(all_below(a@, down@)) by {
                assert forall|i: int, j: int|
                    0 <= i < a@.len() && 0 <= j < down@.len() implies !down@[j].precedes(
                    &a@[i],
                ) by {
                    if j < d0.len() {
                        assert(down@[j] == d0[j]);
                    }
                }
            }
            assert(descending(down@)) by {
                assert forall|i: int, j: int| 0 <= i < j < down@.len() implies !down@[i].precedes(
                    &down@[j],
                ) by {
                    assert(down@[i] == d0[i]);
                    if j < d0.len() {
                        assert(down@[j] == d0[j]);
                    }
                }
            }
            assert(a@.to_multiset().add(b@.to_multiset()).add(down@.to_multiset()) =~= total);
        } else {
            let x = a.pop().unwrap();
            assert(a0 =~= a@.push(x));
            proof {
                to_multiset_build(a@, x);
                to_multiset_build(d0, x);
                assert(x == a0[n - 1]);
                assert forall|i: int| 0 <= i < b0.len() implies !x.precedes(&b0[i]) by {
                    if m > 0 {
                        T::lemma_ranked(&x, &b0[m - 1], &b0[i]);
                        assert(b0[m - 1].precedes(&x));
                        if x.precedes(&b0[i]) {
                            T::lemma_ranked(&b0[m - 1], &x, &b0[i]);
                            if i < m - 1 {
                                assert(!b0[m - 1].precedes(&b0[i]));
                            } else {
                                T::lemma_ranked(&b0[i], &b0[i], &b0[i]);
                            }
                        }
                    }
                }
                assert forall|i: int| 0 <= i < a@.len() implies !x.precedes(&a@[i]) by {
                    assert(a@[i] == a0[i]);
                }
            }
            down.push(x);
            assert(sorted(a@)) by {
                assert forall|i: int, j: int| 0 <= i < j < a@.len() implies !a@[j].precedes(
                    &a@[i],
                ) by {
                    assert(a@[i] == a0[i] && a@[j] == a0[j]);
                }
            }
            assert(all_below(a@, down@)) by {
                assert forall|i: int, j: int|
                    0 <= i < a@.len() && 0 <= j < down@.len() implies !down@[j].precedes(
                    &a@[i],
                ) by {
                    assert(a@[i] == a0[i]);
                    if j < d0.len() {
                        assert(down@[j] == d0[j]);
                    }
                }
            }
            assert(all_below(b@, down@)) by {
                assert forall|i: int, j: int|
                    0 <= i < b@.len() && 0 <= j < down@.len() implies !down@[j].precedes(
                    &b@[i],
                ) by {
                    if j < d0.len() {
                        assert(down@[j] == d0[j]);
                    }
                }
            }
            assert(descending(down@)) by {
                assert forall|i: int, j: int| 0 <= i < j < down@.len() implies !down@[i].precedes(
                    &down@[j],
                ) by {
                    assert(down@[i] == d0[i]);
                    if j < d0.len() {
                        assert(down@[j] == d0[j]);
                    }
                }
            }
            assert(a@.to_multiset().add(b@.to_multiset()).add(down@.to_multiset()) =~= total);
        }
    }
    reversed(down)
}

/// The values of a descending list in ascending order.
fn reversed<T: Ranked>(down: Vec<T>) -> (r: Vec<T>)
    requires
        descending(down@),
    ensures
        sorted(r@),
        r@.to_multiset() == down@.to_multiset(),
{
    let ghost total = down@.to_multiset();
    let mut down = down;
    let mut up: Vec<T> = Vec::new();
    proof {
        lemma_empty_to_multiset(up@);
    }
    assert(up@.to_multiset().add(down@.to_multiset()) =~= total);
    while down.len() > 0
        invariant
            descending(down@),
            sorted(up@),
            all_below(up@, down@),
            up@.to_multiset().add(down@.to_multiset()) == total,
        decreases down@.len(),
    {
        let ghost d0 = down@;
        let ghost u0 = up@;
        let x = down.pop().unwrap();
        assert(d0 =~= down@.push(x));
        proof {
            to_multiset_build(down@, x);
            to_multiset_build(u0, x);
            assert(x == d0[d0.len() - 1]);
        }
        up.push(x);
        assert(sorted(up@)) by {
            assert forall|i: int, j: int| 0 <= i < j < up@.len() implies !up@[j].precedes(
                &up@[i],
            ) by {
                assert(up@[i] == u0[i]);
                if j < u0.len() {
                    assert(up@[j] == u0[j]);
                }
            }
        }
        assert(descending(down@)) by {
            assert forall|i: int, j: int| 0 <= i < j < down@.len() implies !down@[i].precedes(
                &down@[j],
            ) by {
                assert(down@[i] == d0[i] && down@[j] == d0[j]);
            }
        }
        assert(all_below(up@, down@)) by {
            assert forall|i: int, j: int|
                0 <= i < up@.len() && 0 <= j < down@.len() implies !down@[j].precedes(
                &up@[i],
            ) by {
                assert(down@[j] == d0[j]);
                if i < u0.len() {
                    assert(up@[i] == u0[i]);
                }
            }
        }
        assert(up@.to_multiset().add(down@.to_multiset()) =~= total);
    }
    proof {
        lemma_empty_to_multiset(down@);
    }
    assert(up@.to_multiset() =~= total);
    up
}

/// Sorts a list: the result holds the values of `v`, each as often as `v`
/// holds it, in ascending order.
pub fn sort<T: Ranked>(v: Vec<T>) -> (r: Vec<T>)
    ensures
        sorted(r@),
        r@.to_multiset() == v@.to_multiset(),
    decreases v@.len(),
{
    let n: usize = v.len();
    if n <= 1 {
        return v;
    }
    let ghost whole = v@;
    let mut left = v;
    let right = left.split_off(n / 2);
    proof {
        assert(whole =~= left@ + right@);
        vstd::seq_lib::lemma_multiset_commutative(left@, right@);
    }
    let left = sort(left);
    let right = sort(right);
    merge(left, right)
}

/// Sorts exact results by item, then by fragment.
pub fn sort_exact(v: Vec<ExactResult>) -> (r: Vec<ExactResult>)
    ensures
        exact_views(r@) == exact_in_order(exact_views(v@)),
        exact_sorted(exact_views(r@)),
        exact_views(r@).to_multiset() == exact_views(v@).to_multiset(),
        r@.len() == v@.len(),
{
    let r = sort(v);
    proof {
        lemma_map_keeps_multiset(r@, v@, |e: ExactResult| e@);
        to_multiset_len(r@);
        to_multiset_len(v@);
        assert forall|i: int, j: int| 0 <= i < j < r@.len() implies !exact_less(
            exact_views(r@)[j],
            exact_views(r@)[i],
        ) by {
            assert(!r@[j].precedes(&r@[i]));
        }
        lemma_exact_in_order(exact_views(v@));
        lemma_sorted_exact_is_unique(exact_views(r@), exact_in_order(exact_views(v@)));
    }
    r
}

/// Sorts vague results by item, then by their excerpts.
pub fn sort_vague(v: Vec<VagueResult>) -> (r: Vec<VagueResult>)
    ensures
        vague_views(r@) == vague_in_order(vague_views(v@)),
        vague_sorted(vague_views(r@)),
        items_ascend(vague_views(r@)),
        vague_views(r@).to_multiset() == vague_views(v@).to_multiset(),
        r@.len() == v@.len(),
{
    let r = sort(v);
    proof {
        lemma_map_keeps_multiset(r@, v@, |e: VagueResult| e@);
        to_multiset_len(r@);
        to_multiset_len(v@);
        assert forall|i: int, j: int| 0 <= i < j < r@.len() implies !vague_less(
            vague_views(r@)[j],
            vague_views(r@)[i],
        ) by {
            assert(!r@[j].precedes(&r@[i]));
        }
        lemma_vague_sorted_items_ascend(vague_views(r@));
        lemma_vague_in_order(vague_views(v@));
        lemma_sorted_vague_is_unique(vague_views(r@), vague_in_order(vague_views(v@)));
    }
    r
}

} // verus!
