//! A stable sort over any strict weak order, with the proofs that its result
//! is ordered, holds exactly the items it was given, and leaves ordered
//! input alone.

use vstd::prelude::*;

verus! {

/// A strict weak order on a mathematical value: `before` is irreflexive
/// and transitive, and so is "neither comes before the other".
pub trait StrictOrder: Sized {
    /// `self` must stand before `other`.
    spec fn before(self, other: Self) -> bool;

    /// The laws that make `before` a strict weak order.
    proof fn lemma_strict_weak(a: Self, b: Self, c: Self)
        ensures
            !a.before(a),
            a.before(b) && b.before(c) ==> a.before(c),
            !a.before(b) && !b.before(c) ==> !a.before(c),
    ;
}

/// An executable value whose view is ordered, with a test for that order.
pub trait Sortable: View + Sized where <Self as View>::V: StrictOrder {
    /// Decides the order of the two views.
    fn precedes(&self, other: &Self) -> (r: bool)
        ensures
            r == self@.before(other@),
    ;
}

/// No item stands after one that must come before it.
pub open spec fn is_sorted<K: StrictOrder>(s: Seq<K>) -> bool {
    forall|i: int, j: int| 0 <= i < j < s.len() ==> !(#[trigger] s[j]).before(#[trigger] s[i])
}

/// Where `x` goes in the ordered sequence `s`: behind every item that need
/// not follow it, so that items of equal rank keep their order of arrival.
pub open spec fn insert_index<K: StrictOrder>(s: Seq<K>, x: K) -> int
    decreases s.len(),
{
    if s.len() > 0 && x.before(s.last()) {
        insert_index(s.drop_last(), x)
    } else {
        s.len() as int
    }
}

/// `s` with `x` put at its place.
pub open spec fn sorted_insert<K: StrictOrder>(s: Seq<K>, x: K) -> Seq<K> {
    s.insert(insert_index(s, x), x)
}

/// The stable sort of `s`: its items put in place one by one, first to last.
pub open spec fn stable_sort<K: StrictOrder>(s: Seq<K>) -> Seq<K>
    decreases s.len(),
{
    if s.len() == 0 {
        Seq::empty()
    } else {
        sorted_insert(stable_sort(s.drop_last()), s.last())
    }
}

/// The views of a sequence of executable values.
pub open spec fn views<T: View>(s: Seq<T>) -> Seq<T::V> {
    s.map_values(|t: T| t@)
}

/// The place of `x` lies inside `s`; `x` comes before everything behind
/// that place and before nothing at or ahead of the item in front of it.
pub proof fn lemma_insert_index<K: StrictOrder>(s: Seq<K>, x: K)
    ensures
        0 <= insert_index(s, x) <= s.len(),
        forall|k: int| insert_index(s, x) <= k < s.len() ==> x.before(#[trigger] s[k]),
        insert_index(s, x) > 0 ==> !x.before(s[insert_index(s, x) - 1]),
    decreases s.len(),
{
    if s.len() > 0 && x.before(s.last()) {
        let init = s.drop_last();
        lemma_insert_index(init, x);
        assert forall|k: int| insert_index(s, x) <= k < s.len() implies x.before(
            #[trigger] s[k],
        ) by {
            if k < init.len() {
                assert(s[k] == init[k]);
            }
        }
    }
}

/// Putting an item at its place keeps an ordered sequence ordered.
pub proof fn lemma_sorted_insert_is_sorted<K: StrictOrder>(s: Seq<K>, x: K)
    requires
        is_sorted(s),
    ensures
        is_sorted(sorted_insert(s, x)),
        sorted_insert(s, x).len() == s.len() + 1,
{
    let p = insert_index(s, x);
    let t = sorted_insert(s, x);
    lemma_insert_index(s, x);
    assert forall|i: int, j: int| 0 <= i < j < t.len() implies !(#[trigger] t[j]).before(
        #[trigger] t[i],
    ) by {
        if j == p {
            // t[j] is x, t[i] an item in front of its place
            K::lemma_strict_weak(x, s[p - 1], s[i]);
        } else if i == p {
            // t[i] is x, t[j] an item behind its place
            K::lemma_strict_weak(x, s[j - 1], x);
        }
    }
}

/// The stable sort is ordered and as long as what it was given.
pub proof fn lemma_stable_sort_is_sorted<K: StrictOrder>(s: Seq<K>)
    ensures
        is_sorted(stable_sort(s)),
        stable_sort(s).len() == s.len(),
    decreases s.len(),
{
    if s.len() > 0 {
        lemma_stable_sort_is_sorted(s.drop_last());
        lemma_sorted_insert_is_sorted(stable_sort(s.drop_last()), s.last());
    }
}

/// The stable sort holds each item exactly as often as its input does.
pub proof fn lemma_stable_sort_permutes<K: StrictOrder>(s: Seq<K>)
    ensures
        stable_sort(s).to_multiset() == s.to_multiset(),
    decreases s.len(),
{
    broadcast use vstd::seq_lib::group_to_multiset_ensures;

    if s.len() > 0 {
        let rest = stable_sort(s.drop_last());
        lemma_stable_sort_permutes(s.drop_last());
        lemma_insert_index(rest, s.last());
        vstd::seq_lib::to_multiset_insert(rest, insert_index(rest, s.last()), s.last());
        assert(s =~= s.drop_last().push(s.last()));
    }
}

/// Every item of the stable sort is one of the items given.
pub proof fn lemma_stable_sort_members<K: StrictOrder>(s: Seq<K>)
    ensures
        stable_sort(s).len() == s.len(),
        forall|k: int| 0 <= k < s.len() ==> s.contains(#[trigger] stable_sort(s)[k]),
{
    broadcast use vstd::seq_lib::group_to_multiset_ensures;

    lemma_stable_sort_is_sorted(s);
    lemma_stable_sort_permutes(s);
    assert forall|k: int| 0 <= k < s.len() implies s.contains(#[trigger] stable_sort(s)[k]) by {
        let x = stable_sort(s)[k];
        assert(stable_sort(s).contains(x));
        assert(s.to_multiset().count(x) > 0);
    }
}

/// Ordered input comes back unchanged.
pub proof fn lemma_stable_sort_of_sorted<K: StrictOrder>(s: Seq<K>)
    requires
        is_sorted(s),
    ensures
        stable_sort(s) == s,
    decreases s.len(),
{
    if s.len() > 0 {
        lemma_stable_sort_of_sorted(s.drop_last());
    }
}

/// Sorts `input` stably by the order of its items' views.
pub fn sort_stable<T: Sortable>(input: Vec<T>) -> (out: Vec<T>) where <T as View>::V: StrictOrder
    ensures
        views(out@) == stable_sort(views(input@)),
        out@.to_multiset() == input@.to_multiset(),
{
    let ghost given = input@;
    let mut rest = input;
    let mut out: Vec<T> = Vec::new();
    proof {
        broadcast use vstd::seq_lib::group_to_multiset_ensures;

        assert(given.subrange(0, given.len() as int) =~= given);
    }
    while rest.len() > 0
        invariant
            rest@.len() <= given.len(),
            rest@ == given.subrange(given.len() - rest@.len(), given.len() as int),
            views(out@) == stable_sort(views(given.subrange(0, given.len() - rest@.len()))),
            out@.to_multiset().add(rest@.to_multiset()) == given.to_multiset(),
        decreases rest@.len(),
    {
        let ghost k = given.len() - rest@.len();
        let ghost before_out = out@;
        let x = rest.remove(0);
        let mut p = out.len();
        proof {
            assert(views(out@).subrange(0, p as int) =~= views(out@));
        }
        while p > 0 && x.precedes(&out[p - 1])
            invariant
                p <= out.len(),
                insert_index(views(out@), x@) == insert_index(views(out@).subrange(0, p as int), x@),
            decreases p,
        {
            proof {
                let cur = views(out@).subrange(0, p as int);
                assert(cur.drop_last() =~= views(out@).subrange(0, p - 1));
            }
            p -= 1;
        }
        out.insert(p, x);
        proof {
            broadcast use vstd::seq_lib::group_to_multiset_ensures;

            let done = given.subrange(0, k + 1);
            assert(views(done).drop_last() =~= views(given.subrange(0, k)));
            vstd::seq_lib::to_multiset_insert(before_out, p as int, x);
        }
    }
    out
}

} // verus!
