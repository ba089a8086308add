//! Lists put in order, items of equal rank keeping the order they came in.
use vstd::prelude::*;

verus! {

/// What an item is ranked by.
pub trait RankView: Sized {
    /// Whether this item stands before the other wherever both are.
    spec fn precedes(self, other: Self) -> bool;

    /// Two items do not precede each other.
    proof fn asymmetric(self, other: Self)
        ensures
            !(self.precedes(other) && other.precedes(self)),
    ;

    /// Not preceding is passed on.
    proof fn passes_on(self, middle: Self, last: Self)
        ensures
            !self.precedes(middle) && !middle.precedes(last) ==> !self.precedes(last),
    ;
}

/// An item that can be ranked.
pub trait Rank: View where <Self as View>::V: RankView {
    fn goes_before(&self, other: &Self) -> (r: bool)
        ensures
            r == self@.precedes(other@),
    ;
}

/// The views of items.
pub open spec fn views<T: View>(items: Seq<T>) -> Seq<T::V> {
    Seq::new(items.len(), |i: int| items[i]@)
}

/// `x` put behind all that it does not precede.
pub open spec fn rank_insert<V: RankView>(s: Seq<V>, x: V) -> Seq<V>
    decreases s.len(),
{
    if s.len() == 0 || !x.precedes(s.last()) {
        s.push(x)
    } else {
        rank_insert(s.drop_last(), x).push(s.last())
    }
}

/// The items in order.
pub open spec fn ranked<V: RankView>(s: Seq<V>) -> Seq<V>
    decreases s.len(),
{
    if s.len() == 0 {
        Seq::empty()
    } else {
        rank_insert(ranked(s.drop_last()), s.last())
    }
}

/// No item precedes one before it.
pub open spec fn in_order<V: RankView>(s: Seq<V>) -> bool {
    forall|i: int, j: int| 0 <= i < j < s.len() ==> !(#[trigger] s[j]).precedes(#[trigger] s[i])
}

proof fn rank_insert_spec<V: RankView>(s: Seq<V>, x: V)
    requires
        in_order(s),
    ensures
        in_order(rank_insert(s, x)),
        rank_insert(s, x).to_multiset() =~= s.to_multiset().insert(x),
        rank_insert(s, x).len() == s.len() + 1,
    decreases s.len(),
{
    broadcast use vstd::seq_lib::group_to_multiset_ensures;

    let r = rank_insert(s, x);
    if s.len() == 0 || !x.precedes(s.last()) {
        assert forall|i: int, j: int| 0 <= i < j < r.len() implies !(#[trigger] r[j]).precedes(
            #[trigger] r[i],
        ) by {
            if j == s.len() && i < s.len() - 1 {
                assert(!s[s.len() - 1].precedes(s[i]));
                x.passes_on(s.last(), s[i]);
            }
        }
    } else {
        let d = s.drop_last();
        let q = rank_insert(d, x);
        assert(in_order(d)) by {
            assert forall|i: int, j: int| 0 <= i < j < d.len() implies !(#[trigger] d[j]).precedes(
                #[trigger] d[i],
            ) by {
                assert(d[i] == s[i] && d[j] == s[j]);
            }
        }
        rank_insert_spec(d, x);
        assert(s =~= d.push(s.last()));
        assert forall|i: int, j: int| 0 <= i < j < r.len() implies !(#[trigger] r[j]).precedes(
            #[trigger] r[i],
        ) by {
            if j == q.len() {
                assert(q.to_multiset().count(q[i]) > 0) by {
                    assert(q.contains(q[i]));
                }
                if q[i] == x {
                    x.asymmetric(s.last());
                } else {
                    assert(d.to_multiset().count(q[i]) > 0);
                    assert(d.contains(q[i]));
                    let k = choose|k: int| 0 <= k < d.len() && d[k] == q[i];
                    assert(!s[s.len() - 1].precedes(s[k]));
                }
            }
        }
    }
}

/// `ranked` is in order and holds each item as often as its argument.
pub proof fn ranked_spec<V: RankView>(s: Seq<V>)
    ensures
        in_order(ranked(s)),
        ranked(s).to_multiset() =~= s.to_multiset(),
        ranked(s).len() == s.len(),
    decreases s.len(),
{
    broadcast use vstd::seq_lib::group_to_multiset_ensures;

    if s.len() > 0 {
        ranked_spec(s.drop_last());
        rank_insert_spec(ranked(s.drop_last()), s.last());
        assert(s =~= s.drop_last().push(s.last()));
    } else {
        assert(ranked(s) =~= s);
    }
}

/// The items in order.
pub fn rank_all<T: Rank>(items: Vec<T>) -> (r: Vec<T>) where <T as View>::V: RankView
    ensures
        views(r@) == ranked(views(items@)),
{
    let mut rest = items;
    let mut out: Vec<T> = Vec::new();
    let ghost all = views(items@);
    let ghost mut done: int = 0;
    assert(all.take(0) =~= Seq::<T::V>::empty());
    assert(views(out@) =~= Seq::<T::V>::empty());
    assert(items@.skip(0) =~= items@);
    while rest.len() > 0
        invariant
            0 <= done <= items@.len(),
            all == views(items@),
            rest@ == items@.skip(done),
            views(out@) == ranked(all.take(done)),
        decreases rest.len(),
    {
        let ghost next = all.take(done + 1);
        assert(next.drop_last() =~= all.take(done));
        assert(next.last() == items@[done]@);
        let item = rest.remove(0);
        assert(item == items@[done]);
        let ghost x = item@;
        let ghost s = views(out@);
        let mut i: usize = out.len();
        assert(s.take(i as int) =~= s);
        assert(rank_insert(s, x) =~= rank_insert(s.take(i as int), x) + s.skip(i as int));
        while i > 0 && item.goes_before(&out[i - 1])
            invariant
                i <= out.len(),
                x == item@,
                s == views(out@),
                rank_insert(s, x) == rank_insert(s.take(i as int), x) + s.skip(i as int),
            decreases i,
        {
            let ghost head = s.take(i as int);
            assert(head.drop_last() =~= s.take(i - 1));
            assert(head.last() == s[i - 1]);
            assert(rank_insert(s.take(i - 1), x).push(s[i - 1]) + s.skip(i as int) =~= rank_insert(
                s.take(i - 1),
                x,
            ) + s.skip(i - 1));
            i -= 1;
        }
        proof {
            if i > 0 {
                assert(s.take(i as int).last() == s[i - 1]);
            }
            assert(views(out@.insert(i as int, item)) =~= s.take(i as int).push(x) + s.skip(
                i as int,
            ));
        }
        out.insert(i, item);
        proof {
            done = done + 1;
            assert(rest@ =~= items@.skip(done));
        }
    }
    assert(all.take(done) =~= all);
    out
}

/// The first `limit` items, or all without a limit.
pub open spec fn limited<V>(s: Seq<V>, limit: Option<usize>) -> Seq<V> {
    match limit {
        Some(n) => if s.len() > n {
            s.take(n as int)
        } else {
            s
        },
        None => s,
    }
}

/// Keeps the first `limit` items.
pub fn limit_to<T: View>(items: Vec<T>, limit: Option<usize>) -> (r: Vec<T>)
    ensures
        views(r@) == limited(views(items@), limit),
{
    let mut out = items;
    if let Some(n) = limit {
        out.truncate(n);
        assert(views(out@) =~= limited(views(items@), limit));
    }
    out
}

/// A list that is in order stays as it is: items of equal rank keep their places.
pub proof fn ordered_lists_stay<V: RankView>(s: Seq<V>)
    requires
        in_order(s),
    ensures
        ranked(s) == s,
    decreases s.len(),
{
    if s.len() > 0 {
        let rest = s.drop_last();
        assert(in_order(rest)) by {
            assert forall|i: int, j: int| 0 <= i < j < rest.len() implies !(
            #[trigger] rest[j]).precedes(#[trigger] rest[i]) by {
                assert(rest[i] == s[i] && rest[j] == s[j]);
            }
        }
        ordered_lists_stay(rest);
        if rest.len() > 0 {
            assert(rest.last() == s[s.len() - 2]);
            assert(!s[s.len() - 1].precedes(s[s.len() - 2]));
        }
        assert(rest.push(s.last()) =~= s);
    }
}

/// An item stands behind those of its own rank that came before it.
pub proof fn equal_ranks_keep_order<V: RankView>(s: Seq<V>, x: V)
    ensures
        (forall|i: int| 0 <= i < s.len() ==> !x.precedes(#[trigger] s[i])) ==> rank_insert(s, x)
            == s.push(x),
        ranked(s.push(x)) == rank_insert(ranked(s), x),
{
    assert(s.push(x).drop_last() =~= s);
    if s.len() > 0 {
        assert(s.last() == s[s.len() - 1]);
    }
}

} // verus!
