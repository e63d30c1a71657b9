//! A stable sort for reports, specified as the sequence it returns.

use vstd::prelude::*;

verus! {

/// A sorted sequence with `x` put in behind the last item that may stand
/// before it.
pub open spec fn inserted_by<T>(sorted: Seq<T>, x: T, le: spec_fn(T, T) -> bool) -> Seq<T>
    decreases sorted.len(),
{
    if sorted.len() == 0 {
        seq![x]
    } else if le(sorted.last(), x) {
        sorted.push(x)
    } else {
        inserted_by(sorted.drop_last(), x, le).push(sorted.last())
    }
}

/// The items in the order `le`; items of equal rank keep the order they
/// came in.
pub open spec fn sorted_by<T>(s: Seq<T>, le: spec_fn(T, T) -> bool) -> Seq<T>
    decreases s.len(),
{
    if s.len() == 0 {
        Seq::<T>::empty()
    } else {
        inserted_by(sorted_by(s.drop_last(), le), s.last(), le)
    }
}

/// Each item may stand before every later one.
pub open spec fn in_order<T>(s: Seq<T>, le: spec_fn(T, T) -> bool) -> bool {
    forall|i: int, j: int| 0 <= i < j < s.len() ==> le(#[trigger] s[i], #[trigger] s[j])
}

/// Of two items, one may stand before the other.
pub open spec fn is_total<T>(le: spec_fn(T, T) -> bool) -> bool {
    forall|a: T, b: T| #[trigger] le(a, b) || le(b, a)
}

/// What may stand before an item may stand before all that the item may
/// stand before.
pub open spec fn is_transitive<T>(le: spec_fn(T, T) -> bool) -> bool {
    forall|a: T, b: T, c: T| #[trigger] le(a, b) && #[trigger] le(b, c) ==> le(a, c)
}

/// Where `x` goes: behind the items up to `p`, before the rest.
pub proof fn lemma_inserted_at<T>(s: Seq<T>, x: T, p: int, le: spec_fn(T, T) -> bool)
    requires
        0 <= p <= s.len(),
        forall|k: int| p <= k < s.len() ==> !le(#[trigger] s[k], x),
        p > 0 ==> le(s[p - 1], x),
    ensures
        inserted_by(s, x, le) == s.subrange(0, p).push(x) + s.subrange(p, s.len() as int),
    decreases s.len() - p,
{
    if p == s.len() {
        assert(s.subrange(0, p) =~= s);
        assert(s.push(x) + s.subrange(p, s.len() as int) =~= s.push(x));
        if s.len() == 0 {
            assert(inserted_by(s, x, le) =~= s.push(x));
        } else {
            assert(s.last() == s[p - 1]);
        }
    } else {
        let t = s.drop_last();
        assert(!le(s.last(), x)) by {
            assert(s.last() == s[s.len() - 1]);
        }
        assert forall|k: int| p <= k < t.len() implies !le(#[trigger] t[k], x) by {
            assert(t[k] == s[k]);
        }
        if p > 0 {
            assert(t[p - 1] == s[p - 1]);
        }
        lemma_inserted_at(t, x, p, le);
        assert(t.subrange(0, p) =~= s.subrange(0, p));
        assert((t.subrange(0, p).push(x) + t.subrange(p, t.len() as int)).push(s.last()) =~= s.subrange(
            0,
            p,
        ).push(x) + s.subrange(p, s.len() as int));
    }
}

/// Putting an item into an ordered sequence keeps it ordered, and keeps
/// what it holds.
pub proof fn lemma_inserted_in_order<T>(s: Seq<T>, x: T, le: spec_fn(T, T) -> bool)
    requires
        in_order(s, le),
        is_total(le),
        is_transitive(le),
    ensures
        in_order(inserted_by(s, x, le), le),
        inserted_by(s, x, le).to_multiset() == s.to_multiset().insert(x),
        inserted_by(s, x, le).len() == s.len() + 1,
    decreases s.len(),
{
    broadcast use vstd::seq_lib::group_to_multiset_ensures;

    if s.len() == 0 {
        assert(s =~= Seq::<T>::empty());
        assert(inserted_by(s, x, le) =~= Seq::<T>::empty().push(x));
    } else if le(s.last(), x) {
        let r = s.push(x);
        assert forall|i: int, j: int| 0 <= i < j < r.len() implies le(
            #[trigger] r[i],
            #[trigger] r[j],
        ) by {
            if j == s.len() {
                if i < s.len() - 1 {
                    assert(le(s[i], s[s.len() - 1]));
                    assert(le(s[i], s.last()) && le(s.last(), x));
                }
            }
        }
    } else {
        let t = s.drop_last();
        let last = s.last();
        assert(in_order(t, le)) by {
            assert forall|i: int, j: int| 0 <= i < j < t.len() implies le(
                #[trigger] t[i],
                #[trigger] t[j],
            ) by {
                assert(t[i] == s[i] && t[j] == s[j]);
            }
        }
        lemma_inserted_in_order(t, x, le);
        let u = inserted_by(t, x, le);
        let r = u.push(last);
        assert(le(last, x) || le(x, last));
        assert(le(x, last));
        // every item of `u` is `x` or an item of `t`, and both may stand before `last`
        assert forall|i: int| 0 <= i < u.len() implies le(#[trigger] u[i], last) by {
            assert(u.to_multiset().count(u[i]) > 0);
            if u[i] != x {
                assert(t.to_multiset().count(u[i]) > 0);
                let k = choose|k: int| 0 <= k < t.len() && t[k] == u[i];
                assert(le(s[k], s[s.len() - 1]));
            }
        }
        assert forall|i: int, j: int| 0 <= i < j < r.len() implies le(
            #[trigger] r[i],
            #[trigger] r[j],
        ) by {
            if j < u.len() {
                assert(le(u[i], u[j]));
            } else {
                assert(le(u[i], last));
            }
        }
        assert(t.push(last) =~= s);
    }
}

/// Sorting orders the items and neither adds nor drops one.
pub proof fn lemma_sorted_is_in_order<T>(s: Seq<T>, le: spec_fn(T, T) -> bool)
    requires
        is_total(le),
        is_transitive(le),
    ensures
        in_order(sorted_by(s, le), le),
        sorted_by(s, le).to_multiset() == s.to_multiset(),
        sorted_by(s, le).len() == s.len(),
    decreases s.len(),
{
    broadcast use vstd::seq_lib::group_to_multiset_ensures;

    if s.len() == 0 {
        assert(s =~= Seq::<T>::empty());
    } else {
        lemma_sorted_is_in_order(s.drop_last(), le);
        lemma_inserted_in_order(sorted_by(s.drop_last(), le), s.last(), le);
        assert(s.drop_last().push(s.last()) =~= s);
    }
}

proof fn lemma_inserted_len<T>(s: Seq<T>, x: T, le: spec_fn(T, T) -> bool)
    ensures
        inserted_by(s, x, le).len() == s.len() + 1,
    decreases s.len(),
{
    if s.len() > 0 && !le(s.last(), x) {
        lemma_inserted_len(s.drop_last(), x, le);
    }
}

proof fn lemma_inserted_maps<T, V>(
    s: Seq<T>,
    x: T,
    f: spec_fn(T) -> V,
    le_t: spec_fn(T, T) -> bool,
    le_v: spec_fn(V, V) -> bool,
)
    requires
        forall|a: T, b: T| #[trigger] le_t(a, b) == le_v(f(a), f(b)),
    ensures
        inserted_by(s, x, le_t).map_values(f) == inserted_by(s.map_values(f), f(x), le_v),
    decreases s.len(),
{
    let m = s.map_values(f);
    if s.len() == 0 {
        assert(inserted_by(s, x, le_t).map_values(f) =~= seq![f(x)]);
    } else {
        assert(m.last() == f(s.last()));
        assert(m.drop_last() =~= s.drop_last().map_values(f));
        assert(le_t(s.last(), x) == le_v(f(s.last()), f(x)));
        if le_t(s.last(), x) {
            assert(s.push(x).map_values(f) =~= m.push(f(x)));
        } else {
            lemma_inserted_maps(s.drop_last(), x, f, le_t, le_v);
            assert(inserted_by(s.drop_last(), x, le_t).push(s.last()).map_values(f) =~= inserted_by(
                s.drop_last(),
                x,
                le_t,
            ).map_values(f).push(f(s.last())));
        }
    }
}

/// Sorting and then looking at the items through `f` is looking at them
/// through `f` and then sorting, where the two orders agree through `f`.
pub proof fn lemma_sorted_maps<T, V>(
    s: Seq<T>,
    f: spec_fn(T) -> V,
    le_t: spec_fn(T, T) -> bool,
    le_v: spec_fn(V, V) -> bool,
)
    requires
        forall|a: T, b: T| #[trigger] le_t(a, b) == le_v(f(a), f(b)),
    ensures
        sorted_by(s, le_t).map_values(f) == sorted_by(s.map_values(f), le_v),
    decreases s.len(),
{
    if s.len() == 0 {
        assert(sorted_by(s, le_t).map_values(f) =~= Seq::<V>::empty());
        assert(s.map_values(f) =~= Seq::<V>::empty());
    } else {
        lemma_sorted_maps(s.drop_last(), f, le_t, le_v);
        lemma_inserted_maps(sorted_by(s.drop_last(), le_t), s.last(), f, le_t, le_v);
        assert(s.map_values(f).drop_last() =~= s.drop_last().map_values(f));
        assert(s.map_values(f).last() == f(s.last()));
    }
}

/// An item of a report that has a place among its like.
pub trait Listed: Sized {
    /// `a` may stand before `b`.
    spec fn precedes(a: Self, b: Self) -> bool;

    fn may_precede(&self, other: &Self) -> (r: bool)
        ensures
            r == Self::precedes(*self, *other),
    ;
}

/// The order of a listed type.
pub open spec fn order<T: Listed>() -> spec_fn(T, T) -> bool {
    |a: T, b: T| T::precedes(a, b)
}

/// Sorts the items; items of equal rank keep the order they came in.
pub fn sort<T: Listed>(items: Vec<T>) -> (r: Vec<T>)
    ensures
        r@ == sorted_by(items@, order::<T>()),
        r@.len() == items@.len(),
{
    let mut rest = items;
    let mut out: Vec<T> = Vec::new();
    let ghost all = rest@;
    let ghost mut done: int = 0;
    assert(all.subrange(0, 0) =~= Seq::<T>::empty());
    assert(all.subrange(0, all.len() as int) =~= all);
    while rest.len() > 0
        invariant
            0 <= done <= all.len(),
            rest@ == all.subrange(done, all.len() as int),
            out@ == sorted_by(all.subrange(0, done), order::<T>()),
            out@.len() == done,
        decreases rest.len(),
    {
        let x = rest.remove(0);
        assert(x == all[done]);
        assert(all.subrange(0, done + 1).drop_last() =~= all.subrange(0, done));
        assert(all.subrange(0, done + 1).last() == x);
        let mut p: usize = out.len();
        while p > 0 && !out[p - 1].may_precede(&x)
            invariant
                p <= out.len(),
                forall|k: int| p <= k < out@.len() ==> !order::<T>()(#[trigger] out@[k], x),
            decreases p,
        {
            p -= 1;
        }
        proof {
            lemma_inserted_at(out@, x, p as int, order::<T>());
            lemma_inserted_len(out@, x, order::<T>());
        }
        out.insert(p, x);
        assert(out@ =~= sorted_by(all.subrange(0, done + 1), order::<T>()));
        proof {
            done = done + 1;
        }
        assert(rest@ =~= all.subrange(done, all.len() as int));
    }
    assert(all.subrange(0, done) =~= all);
    out
}

} // verus!
