//! Duplicate-free vectors used as finite sets.
//!
//! Exports, imports and usages of a module are set-valued: deduplicated and
//! order-irrelevant.  They are held in vectors whose entries carry pairwise
//! distinct mathematical values, and the contracts speak of the set of those
//! values (`Seq::to_set` of the deep view).

use vstd::prelude::*;

verus! {

/// An element of a set: a value that can decide whether another element
/// carries the same mathematical value.
pub trait SetElem: Sized + DeepView {
    fn elem_eq(&self, other: &Self) -> (r: bool)
        ensures
            r == (self.deep_view() == other.deep_view()),
    ;
}

impl SetElem for String {
    fn elem_eq(&self, other: &Self) -> (r: bool) {
        *self == *other
    }
}

/// The entries of `s` carry pairwise distinct values: `s` represents a set.
pub open spec fn distinct_seq<T: DeepView>(s: Seq<T>) -> bool {
    forall|i: int, j: int|
        0 <= i < j < s.len() ==> s[i].deep_view() != s[j].deep_view()
}

/// Appending an element adds exactly its value to the set of a sequence.
pub proof fn lemma_to_set_push<A>(s: Seq<A>, x: A)
    ensures
        s.push(x).to_set() == s.to_set().insert(x),
{
    let t = s.push(x);
    assert(t[s.len() as int] == x);
    assert forall|e: A| t.to_set().contains(e) implies s.to_set().insert(x).contains(e) by {
        let i = choose|i: int| 0 <= i < t.len() && t[i] == e;
        if i < s.len() {
            assert(s[i] == e);
        }
    }
    assert forall|e: A| s.to_set().insert(x).contains(e) implies t.to_set().contains(e) by {
        if e == x {
            assert(t[s.len() as int] == e);
        } else {
            let i = choose|i: int| 0 <= i < s.len() && s[i] == e;
            assert(t[i] == e);
        }
    }
    assert(t.to_set() =~= s.to_set().insert(x));
}

/// Dropping the last element leaves the set of a sequence short of exactly
/// that element's value (which may still occur earlier).
pub proof fn lemma_to_set_drop_last<A>(s: Seq<A>)
    requires
        s.len() > 0,
    ensures
        s.to_set() == s.drop_last().to_set().insert(s.last()),
{
    assert(s.drop_last().push(s.last()) =~= s);
    lemma_to_set_push(s.drop_last(), s.last());
}

/// Whether `v` holds an entry whose value equals that of `x`.
pub fn vec_set_contains<T: SetElem>(v: &Vec<T>, x: &T) -> (r: bool)
    ensures
        r == v.deep_view().contains(x.deep_view()),
{
    let n = v.len();
    let mut i: usize = 0;
    while i < n
        invariant
            n == v.len(),
            i <= n,
            forall|k: int| 0 <= k < i ==> v.deep_view()[k] != x.deep_view(),
        decreases n - i,
    {
        if v[i].elem_eq(x) {
            assert(v.deep_view()[i as int] == x.deep_view());
            return true;
        }
        i += 1;
    }
    false
}

/// Adds the value of `x` to the set held by `v`: appends `x` unless an entry
/// with the same value is already there.
pub fn vec_set_insert<T: SetElem>(v: &mut Vec<T>, x: T)
    requires
        distinct_seq(old(v)@),
    ensures
        distinct_seq(final(v)@),
        final(v).deep_view().to_set() == old(v).deep_view().to_set().insert(x.deep_view()),
{
    let present = vec_set_contains(v, &x);
    if !present {
        let ghost xv = x.deep_view();
        let ghost prev = v.deep_view();
        v.push(x);
        proof {
            assert(v.deep_view() =~= prev.push(xv));
            lemma_to_set_push(prev, xv);
            assert forall|i: int, j: int| 0 <= i < j < v@.len() implies v@[i].deep_view()
                != v@[j].deep_view() by {
                assert(v@[i].deep_view() == v.deep_view()[i]);
                assert(v@[j].deep_view() == v.deep_view()[j]);
            }
        }
    } else {
        proof {
            let i = choose|i: int|
                0 <= i < v.deep_view().len() && v.deep_view()[i] == x.deep_view();
            assert(v.deep_view().to_set().contains(x.deep_view()));
            assert(v.deep_view().to_set() =~= v.deep_view().to_set().insert(x.deep_view()));
        }
    }
}

/// Moves every value of `other` into the set held by `v`: afterwards `v`
/// holds the union of the two sets.
pub fn vec_set_extend<T: SetElem>(v: &mut Vec<T>, other: Vec<T>)
    requires
        distinct_seq(old(v)@),
    ensures
        distinct_seq(final(v)@),
        final(v).deep_view().to_set() == old(v).deep_view().to_set().union(
            other.deep_view().to_set(),
        ),
{
    let mut rest = other;
    while rest.len() > 0
        invariant
            distinct_seq(v@),
            v.deep_view().to_set().union(rest.deep_view().to_set()) == old(
                v,
            ).deep_view().to_set().union(other.deep_view().to_set()),
        decreases rest.len(),
    {
        let ghost prev_v = v.deep_view();
        let ghost prev_rest = rest.deep_view();
        let x = rest.pop().unwrap();
        let ghost xv = x.deep_view();
        proof {
            assert(rest.deep_view() =~= prev_rest.drop_last());
            lemma_to_set_drop_last(prev_rest);
        }
        vec_set_insert(v, x);
        proof {
            assert(v.deep_view().to_set().union(rest.deep_view().to_set())
                =~= prev_v.to_set().union(prev_rest.to_set()));
        }
    }
    proof {
        assert(rest.deep_view().to_set() =~= Set::<T::V>::empty());
        assert(v.deep_view().to_set() =~= v.deep_view().to_set().union(
            rest.deep_view().to_set(),
        ));
    }
}

} // verus!
