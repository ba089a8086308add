//! The order of texts, and sorted lists of texts.
use crate::text::{chars_of, group_texts, same, texts};
use vstd::prelude::*;

verus! {

/// Texts are ordered character by character; a prefix comes first.
pub open spec fn text_less(a: Seq<char>, b: Seq<char>) -> bool
    decreases a.len(),
{
    if b.len() == 0 {
        false
    } else if a.len() == 0 {
        true
    } else if a[0] != b[0] {
        a[0] < b[0]
    } else {
        text_less(a.skip(1), b.skip(1))
    }
}

pub fn less(a: &str, b: &str) -> (r: bool)
    ensures
        r == text_less(a@, b@),
{
    let x = chars_of(a);
    let y = chars_of(b);
    let mut i: usize = 0;
    assert(a@.skip(0) =~= a@);
    assert(b@.skip(0) =~= b@);
    while i < x.len() && i < y.len() && x[i] == y[i]
        invariant
            i <= x.len(),
            i <= y.len(),
            x@ == a@,
            y@ == b@,
            text_less(a@, b@) == text_less(a@.skip(i as int), b@.skip(i as int)),
        decreases x.len() - i,
    {
        assert(a@.skip(i as int).skip(1) =~= a@.skip(i + 1));
        assert(b@.skip(i as int).skip(1) =~= b@.skip(i + 1));
        i += 1;
    }
    if i == y.len() {
        false
    } else if i == x.len() {
        true
    } else {
        x[i] < y[i]
    }
}

pub proof fn text_less_irreflexive(a: Seq<char>)
    ensures
        !text_less(a, a),
    decreases a.len(),
{
    if a.len() > 0 {
        text_less_irreflexive(a.skip(1));
    }
}

/// Of two different texts, exactly one is less than the other.
pub proof fn text_less_total(a: Seq<char>, b: Seq<char>)
    ensures
        a == b || text_less(a, b) || text_less(b, a),
        !(text_less(a, b) && text_less(b, a)),
    decreases a.len(),
{
    if a.len() == 0 || b.len() == 0 {
        if a.len() == 0 && b.len() == 0 {
            assert(a =~= b);
        }
    } else if a[0] == b[0] {
        text_less_total(a.skip(1), b.skip(1));
        if a.skip(1) == b.skip(1) {
            assert(a =~= seq![a[0]] + a.skip(1));
            assert(b =~= seq![b[0]] + b.skip(1));
        }
    }
}

pub proof fn text_less_transitive(a: Seq<char>, b: Seq<char>, c: Seq<char>)
    requires
        text_less(a, b),
        text_less(b, c),
    ensures
        text_less(a, c),
    decreases a.len(),
{
    if a.len() > 0 && b.len() > 0 && c.len() > 0 && a[0] == b[0] && b[0] == c[0] {
        text_less_transitive(a.skip(1), b.skip(1), c.skip(1));
    }
}

/// Each text is less than all that follow it.
pub open spec fn ascending(s: Seq<Seq<char>>) -> bool {
    forall|i: int, j: int| 0 <= i < j < s.len() ==> text_less(#[trigger] s[i], #[trigger] s[j])
}

/// `x` put in its place in an ascending list, which stays as it is where it
/// holds `x`.
pub open spec fn insert_distinct(s: Seq<Seq<char>>, x: Seq<char>) -> Seq<Seq<char>>
    decreases s.len(),
{
    if s.len() == 0 {
        seq![x]
    } else if s.last() == x {
        s
    } else if text_less(s.last(), x) {
        s.push(x)
    } else {
        insert_distinct(s.drop_last(), x).push(s.last())
    }
}

/// The ascending list of the different texts in `s`.
pub open spec fn sorted_distinct(s: Seq<Seq<char>>) -> Seq<Seq<char>>
    decreases s.len(),
{
    if s.len() == 0 {
        Seq::empty()
    } else {
        insert_distinct(sorted_distinct(s.drop_last()), s.last())
    }
}

pub proof fn insert_distinct_spec(s: Seq<Seq<char>>, x: Seq<char>)
    requires
        ascending(s),
    ensures
        ascending(insert_distinct(s, x)),
        forall|y: Seq<char>| #[trigger]
            insert_distinct(s, x).contains(y) <==> s.contains(y) || y == x,
    decreases s.len(),
{
    let r = insert_distinct(s, x);
    if s.len() == 0 {
        assert(r[0] == x);
    } else if s.last() == x {
        assert(s.contains(x)) by {
            assert(s[s.len() - 1] == x);
        }
    } else if text_less(s.last(), x) {
        assert forall|i: int, j: int| 0 <= i < j < r.len() implies text_less(
            #[trigger] r[i],
            #[trigger] r[j],
        ) by {
            if j == s.len() && i < s.len() - 1 {
                assert(text_less(s[i], s[s.len() - 1]));
                text_less_transitive(s[i], s.last(), x);
            }
        }
        assert forall|y: Seq<char>| #[trigger] r.contains(y) <==> s.contains(y) || y == x by {
            if s.contains(y) {
                let k = choose|k: int| 0 <= k < s.len() && s[k] == y;
                assert(r[k] == y);
            }
            if y == x {
                assert(r[s.len() as int] == y);
            }
        }
    } else {
        let d = s.drop_last();
        let q = insert_distinct(d, x);
        assert(ascending(d)) by {
            assert forall|i: int, j: int| 0 <= i < j < d.len() implies text_less(
                #[trigger] d[i],
                #[trigger] d[j],
            ) by {
                assert(d[i] == s[i] && d[j] == s[j]);
            }
        }
        insert_distinct_spec(d, x);
        text_less_total(s.last(), x);
        assert forall|i: int, j: int| 0 <= i < j < r.len() implies text_less(
            #[trigger] r[i],
            #[trigger] r[j],
        ) by {
            if j == q.len() {
                assert(q.contains(q[i]));
                if q[i] != x {
                    assert(d.contains(q[i]));
                    let k = choose|k: int| 0 <= k < d.len() && d[k] == q[i];
                    assert(text_less(s[k], s[s.len() - 1]));
                }
            }
        }
        assert forall|y: Seq<char>| #[trigger] r.contains(y) <==> s.contains(y) || y == x by {
            if r.contains(y) {
                let k = choose|k: int| 0 <= k < r.len() && r[k] == y;
                if k < q.len() {
                    assert(q[k] == y);
                    assert(q.contains(y));
                    if y != x {
                        let m = choose|m: int| 0 <= m < d.len() && d[m] == y;
                        assert(s[m] == y);
                    }
                } else {
                    assert(s[s.len() - 1] == y);
                }
            }
            if s.contains(y) {
                let k = choose|k: int| 0 <= k < s.len() && s[k] == y;
                if k < d.len() {
                    assert(d[k] == y);
                    assert(q.contains(y));
                    let m = choose|m: int| 0 <= m < q.len() && q[m] == y;
                    assert(r[m] == y);
                } else {
                    assert(r[r.len() - 1] == y);
                }
            }
            if y == x {
                assert(q.contains(y));
                let m = choose|m: int| 0 <= m < q.len() && q[m] == y;
                assert(r[m] == y);
            }
        }
    }
}

/// `sorted_distinct` is ascending and holds what its argument holds.
pub proof fn sorted_distinct_spec(s: Seq<Seq<char>>)
    ensures
        ascending(sorted_distinct(s)),
        forall|y: Seq<char>| #[trigger] sorted_distinct(s).contains(y) <==> s.contains(y),
    decreases s.len(),
{
    if s.len() > 0 {
        let d = s.drop_last();
        sorted_distinct_spec(d);
        insert_distinct_spec(sorted_distinct(d), s.last());
        assert forall|y: Seq<char>| #[trigger] sorted_distinct(s).contains(y) <==> s.contains(
            y,
        ) by {
            if s.contains(y) {
                let k = choose|k: int| 0 <= k < s.len() && s[k] == y;
                if k < d.len() {
                    assert(d[k] == y);
                    assert(d.contains(y));
                }
            }
            if d.contains(y) {
                let k = choose|k: int| 0 <= k < d.len() && d[k] == y;
                assert(s[k] == y);
            }
            if y == s.last() {
                assert(s[s.len() - 1] == y);
            }
        }
    } else {
        assert(sorted_distinct(s) =~= s);
    }
}

/// Two ascending lists that hold the same texts are the same list.
pub proof fn ascending_unique(a: Seq<Seq<char>>, b: Seq<Seq<char>>)
    requires
        ascending(a),
        ascending(b),
        forall|y: Seq<char>| a.contains(y) <==> b.contains(y),
    ensures
        a == b,
    decreases a.len() + b.len(),
{
    if a.len() == 0 {
        if b.len() > 0 {
            assert(b.contains(b[0]));
        }
        assert(a =~= b);
    } else if b.len() == 0 {
        assert(a.contains(a[0]));
    } else {
        let x = a.last();
        let y = b.last();
        assert(a.contains(x) && b.contains(y)) by {
            assert(a[a.len() - 1] == x && b[b.len() - 1] == y);
        }
        let i = choose|i: int| 0 <= i < b.len() && b[i] == x;
        let j = choose|j: int| 0 <= j < a.len() && a[j] == y;
        if x != y {
            assert(text_less(b[i], b[b.len() - 1]));
            assert(text_less(a[j], a[a.len() - 1]));
            text_less_total(x, y);
        }
        let c = a.drop_last();
        let d = b.drop_last();
        assert forall|z: Seq<char>| c.contains(z) <==> d.contains(z) by {
            if c.contains(z) {
                let k = choose|k: int| 0 <= k < c.len() && c[k] == z;
                assert(a[k] == z);
                assert(text_less(a[k], a[a.len() - 1]));
                text_less_irreflexive(z);
                assert(a.contains(z));
                let m = choose|m: int| 0 <= m < b.len() && b[m] == z;
                assert(d[m] == z);
            }
            if d.contains(z) {
                let k = choose|k: int| 0 <= k < d.len() && d[k] == z;
                assert(b[k] == z);
                assert(text_less(b[k], b[b.len() - 1]));
                text_less_irreflexive(z);
                assert(b.contains(z));
                let m = choose|m: int| 0 <= m < a.len() && a[m] == z;
                assert(c[m] == z);
            }
        }
        assert(ascending(c)) by {
            assert forall|p: int, q: int| 0 <= p < q < c.len() implies text_less(
                #[trigger] c[p],
                #[trigger] c[q],
            ) by {
                assert(text_less(a[p], a[q]));
            }
        }
        assert(ascending(d)) by {
            assert forall|p: int, q: int| 0 <= p < q < d.len() implies text_less(
                #[trigger] d[p],
                #[trigger] d[q],
            ) by {
                assert(text_less(b[p], b[q]));
            }
        }
        ascending_unique(c, d);
        assert(a =~= c.push(x));
        assert(b =~= d.push(y));
    }
}

/// Puts `item` in its place in `list`.
pub fn insert_in_order(list: &mut Vec<String>, item: String)
    ensures
        texts(final(list)@) == insert_distinct(texts(old(list)@), item@),
{
    let ghost all = texts(list@);
    let mut i: usize = list.len();
    assert(all.take(i as int) =~= all);
    assert(insert_distinct(all, item@) =~= insert_distinct(all.take(i as int), item@) + all.skip(
        i as int,
    ));
    while i > 0 && !same(list[i - 1].as_str(), item.as_str()) && !less(
        list[i - 1].as_str(),
        item.as_str(),
    )
        invariant
            i <= list.len(),
            all == texts(list@),
            insert_distinct(all, item@) == insert_distinct(all.take(i as int), item@) + all.skip(
                i as int,
            ),
        decreases i,
    {
        let ghost head = all.take(i as int);
        assert(head.drop_last() =~= all.take(i - 1));
        assert(head.last() == all[i - 1]);
        assert(insert_distinct(all.take(i - 1), item@).push(all[i - 1]) + all.skip(i as int)
            =~= insert_distinct(all.take(i - 1), item@) + all.skip(i - 1));
        i -= 1;
    }
    if i > 0 && same(list[i - 1].as_str(), item.as_str()) {
        assert(all.take(i as int).last() == all[i - 1]);
        assert(all.take(i as int) + all.skip(i as int) =~= all);
        return;
    }
    let ghost old_list = list@;
    let ghost new_list = list@.insert(i as int, item);
    proof {
        if i > 0 {
            assert(all.take(i as int).last() == all[i - 1]);
        }
        assert(texts(new_list) =~= all.take(i as int).push(item@) + all.skip(i as int));
        assert(all.take(0) =~= Seq::<Seq<char>>::empty());
        assert(seq![item@] =~= Seq::<Seq<char>>::empty().push(item@));
    }
    list.insert(i, item);
}

/// The ascending list of the different strings in `items`.
pub fn sort_distinct(items: &Vec<String>) -> (r: Vec<String>)
    ensures
        texts(r@) == sorted_distinct(texts(items@)),
{
    broadcast use group_texts;

    let mut out: Vec<String> = Vec::new();
    let mut i: usize = 0;
    assert(texts(items@).take(0) =~= Seq::<Seq<char>>::empty());
    while i < items.len()
        invariant
            i <= items.len(),
            texts(out@) == sorted_distinct(texts(items@).take(i as int)),
        decreases items.len() - i,
    {
        let ghost next = texts(items@).take(i + 1);
        assert(next.drop_last() =~= texts(items@).take(i as int));
        insert_in_order(&mut out, items[i].clone());
        i += 1;
    }
    assert(texts(items@).take(i as int) =~= texts(items@));
    out
}

/// `x` put behind all that are not greater.
pub open spec fn insert_ordered(s: Seq<Seq<char>>, x: Seq<char>) -> Seq<Seq<char>>
    decreases s.len(),
{
    if s.len() == 0 || !text_less(x, s.last()) {
        s.push(x)
    } else {
        insert_ordered(s.drop_last(), x).push(s.last())
    }
}

/// The texts of `s` in ascending order, equal ones side by side.
pub open spec fn sorted_texts(s: Seq<Seq<char>>) -> Seq<Seq<char>>
    decreases s.len(),
{
    if s.len() == 0 {
        Seq::empty()
    } else {
        insert_ordered(sorted_texts(s.drop_last()), s.last())
    }
}

/// No text is greater than one that follows it.
pub open spec fn nondescending(s: Seq<Seq<char>>) -> bool {
    forall|i: int, j: int| 0 <= i < j < s.len() ==> !text_less(#[trigger] s[j], #[trigger] s[i])
}

pub proof fn insert_ordered_spec(s: Seq<Seq<char>>, x: Seq<char>)
    requires
        nondescending(s),
    ensures
        nondescending(insert_ordered(s, x)),
        insert_ordered(s, x).to_multiset() =~= s.to_multiset().insert(x),
        insert_ordered(s, x).len() == s.len() + 1,
    decreases s.len(),
{
    broadcast use vstd::seq_lib::group_to_multiset_ensures;

    let r = insert_ordered(s, x);
    if s.len() == 0 || !text_less(x, s.last()) {
        assert forall|i: int, j: int| 0 <= i < j < r.len() implies !text_less(
            #[trigger] r[j],
            #[trigger] r[i],
        ) by {
            if j == s.len() && i < s.len() - 1 {
                assert(!text_less(s[s.len() - 1], s[i]));
                if text_less(x, s[i]) {
                    text_less_total(s.last(), s[i]);
                    if s.last() != s[i] {
                        text_less_transitive(x, s[i], s.last());
                    }
                }
            }
        }
    } else {
        let d = s.drop_last();
        assert(nondescending(d)) by {
            assert forall|i: int, j: int| 0 <= i < j < d.len() implies !text_less(
                #[trigger] d[j],
                #[trigger] d[i],
            ) by {
                assert(d[i] == s[i] && d[j] == s[j]);
            }
        }
        insert_ordered_spec(d, x);
        let q = insert_ordered(d, x);
        assert(s =~= d.push(s.last()));
        assert forall|i: int, j: int| 0 <= i < j < r.len() implies !text_less(
            #[trigger] r[j],
            #[trigger] r[i],
        ) by {
            if j == q.len() {
                assert(q.to_multiset().count(q[i]) > 0) by {
                    assert(q.contains(q[i]));
                }
                if q[i] == x {
                    text_less_total(x, s.last());
                } else {
                    assert(d.to_multiset().count(q[i]) > 0);
                    assert(d.contains(q[i]));
                    let k = choose|k: int| 0 <= k < d.len() && d[k] == q[i];
                    assert(!text_less(s[s.len() - 1], s[k]));
                }
            }
        }
    }
}

/// `sorted_texts` is in order and holds each text as often as its argument.
pub proof fn sorted_texts_spec(s: Seq<Seq<char>>)
    ensures
        nondescending(sorted_texts(s)),
        sorted_texts(s).to_multiset() =~= s.to_multiset(),
        sorted_texts(s).len() == s.len(),
    decreases s.len(),
{
    broadcast use vstd::seq_lib::group_to_multiset_ensures;

    if s.len() > 0 {
        sorted_texts_spec(s.drop_last());
        insert_ordered_spec(sorted_texts(s.drop_last()), s.last());
        assert(s =~= s.drop_last().push(s.last()));
    } else {
        assert(sorted_texts(s) =~= s);
    }
}

/// The strings of `items` in ascending order.
pub fn sort(items: &Vec<String>) -> (r: Vec<String>)
    ensures
        texts(r@) == sorted_texts(texts(items@)),
{
    broadcast use group_texts;

    let mut out: Vec<String> = Vec::new();
    let mut n: usize = 0;
    assert(texts(items@).take(0) =~= Seq::<Seq<char>>::empty());
    while n < items.len()
        invariant
            n <= items.len(),
            texts(out@) == sorted_texts(texts(items@).take(n as int)),
        decreases items.len() - n,
    {
        let ghost next = texts(items@).take(n + 1);
        assert(next.drop_last() =~= texts(items@).take(n as int));
        let item = items[n].clone();
        let ghost all = texts(out@);
        let ghost x = item@;
        let mut i: usize = out.len();
        assert(all.take(i as int) =~= all);
        assert(insert_ordered(all, x) =~= insert_ordered(all.take(i as int), x) + all.skip(
            i as int,
        ));
        while i > 0 && less(item.as_str(), out[i - 1].as_str())
            invariant
                i <= out.len(),
                x == item@,
                all == texts(out@),
                insert_ordered(all, x) == insert_ordered(all.take(i as int), x) + all.skip(
                    i as int,
                ),
            decreases i,
        {
            let ghost head = all.take(i as int);
            assert(head.drop_last() =~= all.take(i - 1));
            assert(head.last() == all[i - 1]);
            assert(insert_ordered(all.take(i - 1), x).push(all[i - 1]) + all.skip(i as int)
                =~= insert_ordered(all.take(i - 1), x) + all.skip(i - 1));
            i -= 1;
        }
        proof {
            if i > 0 {
                assert(all.take(i as int).last() == all[i - 1]);
            }
            assert(texts(out@.insert(i as int, item)) =~= all.take(i as int).push(x) + all.skip(
                i as int,
            ));
        }
        out.insert(i, item);
        n += 1;
    }
    assert(texts(items@).take(n as int) =~= texts(items@));
    out
}

/// Texts are ordered by the first character in which they differ; a text comes before
/// every text that goes on from it.
pub proof fn first_difference_decides(a: Seq<char>, b: Seq<char>, n: int)
    requires
        0 <= n <= a.len(),
        n <= b.len(),
        a.take(n) == b.take(n),
    ensures
        n < a.len() && n < b.len() && a[n] != b[n] ==> (text_less(a, b) <==> a[n] < b[n]),
        n == a.len() && n < b.len() ==> text_less(a, b),
        n == b.len() ==> !text_less(a, b),
    decreases n,
{
    if n > 0 {
        assert(a[0] == a.take(n)[0]);
        assert(b[0] == b.take(n)[0]);
        assert(a.skip(1).take(n - 1) =~= a.take(n).skip(1));
        assert(b.skip(1).take(n - 1) =~= b.take(n).skip(1));
        first_difference_decides(a.skip(1), b.skip(1), n - 1);
    }
}

} // verus!
