//! Maps and sets with text keys that keep the order in which keys came.
use crate::text::{clone_texts, group_texts, holds, same, texts};
use vstd::prelude::*;

verus! {

/// What `entries` holds for `key`.
pub open spec fn lookup<T>(entries: Seq<(Seq<char>, T)>, key: Seq<char>) -> Option<T>
    decreases entries.len(),
{
    if entries.len() == 0 {
        None
    } else if entries.last().0 == key {
        Some(entries.last().1)
    } else {
        lookup(entries.drop_last(), key)
    }
}

/// The keys of `entries`, in order.
pub open spec fn keys_of<T>(entries: Seq<(Seq<char>, T)>) -> Seq<Seq<char>> {
    Seq::new(entries.len(), |i: int| entries[i].0)
}

/// The mathematical map that `entries` stands for.
pub open spec fn map_of<T>(entries: Seq<(Seq<char>, T)>) -> Map<Seq<char>, T> {
    Map::new(|k: Seq<char>| lookup(entries, k) is Some, |k: Seq<char>| lookup(entries, k)->0)
}

/// `entries` with `value` for `key`: in the key's old place, or at the end.
pub open spec fn put<T>(entries: Seq<(Seq<char>, T)>, key: Seq<char>, value: T) -> Seq<
    (Seq<char>, T),
>
    decreases entries.len(),
{
    if entries.len() == 0 {
        seq![(key, value)]
    } else if entries.last().0 == key {
        entries.drop_last().push((key, value))
    } else if lookup(entries, key) is Some {
        put(entries.drop_last(), key, value).push(entries.last())
    } else {
        entries.push((key, value))
    }
}

/// No key occurs twice.
pub open spec fn distinct_keys<T>(entries: Seq<(Seq<char>, T)>) -> bool {
    forall|i: int, j: int|
        0 <= i < j < entries.len() ==> #[trigger] entries[i].0 != #[trigger] entries[j].0
}

pub proof fn lookup_at<T>(entries: Seq<(Seq<char>, T)>, i: int)
    requires
        distinct_keys(entries),
        0 <= i < entries.len(),
    ensures
        lookup(entries, entries[i].0) == Some(entries[i].1),
    decreases entries.len(),
{
    if i < entries.len() - 1 {
        assert(entries[i].0 != entries[entries.len() - 1].0);
        assert(entries.drop_last()[i] == entries[i]);
        lookup_at(entries.drop_last(), i);
    }
}

/// A key is found where it is the key of an entry.
pub proof fn lookup_found<T>(entries: Seq<(Seq<char>, T)>, key: Seq<char>)
    ensures
        lookup(entries, key) is Some <==> keys_of(entries).contains(key),
        lookup(entries, key) is Some ==> exists|i: int|
            0 <= i < entries.len() && entries[i].0 == key && Some(entries[i].1) == lookup(
                entries,
                key,
            ),
    decreases entries.len(),
{
    if entries.len() > 0 {
        let d = entries.drop_last();
        lookup_found(d, key);
        if entries.last().0 == key {
            assert(keys_of(entries)[entries.len() - 1] == key);
            assert(entries[entries.len() - 1].0 == key);
        } else {
            if lookup(d, key) is Some {
                let i = choose|i: int|
                    0 <= i < d.len() && d[i].0 == key && Some(d[i].1) == lookup(d, key);
                assert(entries[i] == d[i]);
                assert(keys_of(entries)[i] == key);
            }
            if keys_of(entries).contains(key) {
                let i = choose|i: int| 0 <= i < entries.len() && keys_of(entries)[i] == key;
                assert(keys_of(d)[i] == key);
            }
        }
    }
}

/// After `put`, the key has the value and every other key what it had.
pub proof fn put_spec<T>(entries: Seq<(Seq<char>, T)>, key: Seq<char>, value: T)
    ensures
        forall|k: Seq<char>| #[trigger]
            lookup(put(entries, key, value), k) == if k == key {
                Some(value)
            } else {
                lookup(entries, k)
            },
        map_of(put(entries, key, value)) =~= map_of(entries).insert(key, value),
    decreases entries.len(),
{
    let r = put(entries, key, value);
    if entries.len() > 0 {
        put_spec(entries.drop_last(), key, value);
    }
    assert forall|k: Seq<char>| #[trigger] lookup(r, k) == (if k == key {
        Some(value)
    } else {
        lookup(entries, k)
    }) by {
        if entries.len() == 0 {
            assert(r.drop_last() =~= entries);
        } else if entries.last().0 == key {
            assert(r.drop_last() =~= entries.drop_last());
        } else if lookup(entries, key) is Some {
            let q = put(entries.drop_last(), key, value);
            assert(r.drop_last() =~= q);
            assert(lookup(q, k) == lookup(put(entries.drop_last(), key, value), k));
        } else {
            assert(r.drop_last() =~= entries);
        }
    }
    assert(map_of(r) =~= map_of(entries).insert(key, value)) by {
        assert forall|k: Seq<char>| map_of(r).contains_key(k) == map_of(entries).insert(
            key,
            value,
        ).contains_key(k) by {
            assert(lookup(r, k) is Some == (k == key || lookup(entries, k) is Some));
        }
        assert forall|k: Seq<char>| map_of(r).contains_key(k) implies map_of(r)[k] == map_of(
            entries,
        ).insert(key, value)[k] by {
            assert(lookup(r, k) is Some);
        }
    }
}

pub proof fn put_at<T>(entries: Seq<(Seq<char>, T)>, key: Seq<char>, value: T, i: int)
    requires
        distinct_keys(entries),
        0 <= i < entries.len(),
        entries[i].0 == key,
    ensures
        put(entries, key, value) == entries.update(i, (key, value)),
    decreases entries.len(),
{
    lookup_at(entries, i);
    if i == entries.len() - 1 {
        assert(put(entries, key, value) =~= entries.update(i, (key, value)));
    } else {
        assert(entries[i].0 != entries[entries.len() - 1].0);
        assert(entries.drop_last()[i] == entries[i]);
        put_at(entries.drop_last(), key, value, i);
        assert(put(entries, key, value) =~= entries.update(i, (key, value)));
    }
}

pub proof fn put_new<T>(entries: Seq<(Seq<char>, T)>, key: Seq<char>, value: T)
    requires
        lookup(entries, key) is None,
    ensures
        put(entries, key, value) == entries.push((key, value)),
{
    if entries.len() == 0 {
        assert(put(entries, key, value) =~= entries.push((key, value)));
    }
}

/// A map from texts to values.
pub struct StrMap<V> {
    items: Vec<(String, V)>,
}

impl<V: View> View for StrMap<V> {
    type V = Map<Seq<char>, V::V>;

    open spec fn view(&self) -> Map<Seq<char>, V::V> {
        map_of(self.entries())
    }
}

impl<V: View> StrMap<V> {
    /// The entries in the order in which their keys came.
    pub closed spec fn entries(&self) -> Seq<(Seq<char>, V::V)> {
        Seq::new(self.items@.len(), |i: int| (self.items@[i].0@, self.items@[i].1@))
    }
}

impl<V> StrMap<V> {
    /// No key occurs twice.
    #[verifier::type_invariant]
    spec fn wf(&self) -> bool {
        forall|i: int, j: int|
            0 <= i < j < self.items@.len() ==> #[trigger] self.items@[i].0@
                != #[trigger] self.items@[j].0@
    }
}

impl<V: View> StrMap<V> {
    /// The empty map.
    pub fn new() -> (r: Self)
        ensures
            r.entries() == Seq::<(Seq<char>, V::V)>::empty(),
            r@ == Map::<Seq<char>, V::V>::empty(),
    {
        let r = StrMap { items: Vec::new() };
        assert(r.entries() =~= Seq::<(Seq<char>, V::V)>::empty());
        assert(r@ =~= Map::<Seq<char>, V::V>::empty());
        r
    }

    /// How many keys there are.
    pub fn len(&self) -> (r: usize)
        ensures
            r == self.entries().len(),
            distinct_keys(self.entries()),
    {
        proof {
            use_type_invariant(self);
            assert(distinct_keys(self.entries())) by {
                assert forall|i: int, j: int| 0 <= i < j < self.entries().len() implies
                    #[trigger] self.entries()[i].0 != #[trigger] self.entries()[j].0 by {
                    assert(self.items@[i].0@ != self.items@[j].0@);
                }
            }
        }
        self.items.len()
    }

    pub fn is_empty(&self) -> (r: bool)
        ensures
            r == (self.entries().len() == 0),
    {
        self.items.len() == 0
    }

    /// The key at position `i`.
    pub fn key_at(&self, i: usize) -> (r: &str)
        requires
            i < self.entries().len(),
        ensures
            r@ == self.entries()[i as int].0,
    {
        self.items[i].0.as_str()
    }

    /// The value at position `i`.
    pub fn value_at(&self, i: usize) -> (r: &V)
        requires
            i < self.entries().len(),
        ensures
            r@ == self.entries()[i as int].1,
    {
        &self.items[i].1
    }

    fn position(&self, key: &str) -> (r: Option<usize>)
        ensures
            match r {
                Some(i) => i < self.items@.len() && self.items@[i as int].0@ == key@,
                None => forall|j: int| 0 <= j < self.items@.len() ==> #[trigger] self.items@[j].0@
                    != key@,
            },
    {
        let mut i: usize = 0;
        while i < self.items.len()
            invariant
                i <= self.items.len(),
                forall|j: int| 0 <= j < i ==> #[trigger] self.items@[j].0@ != key@,
            decreases self.items.len() - i,
        {
            if same(self.items[i].0.as_str(), key) {
                return Some(i);
            }
            i += 1;
        }
        None
    }

    proof fn not_found(&self, key: Seq<char>)
        requires
            forall|j: int| 0 <= j < self.items@.len() ==> #[trigger] self.items@[j].0@ != key,
        ensures
            lookup(self.entries(), key) is None,
    {
        lookup_found(self.entries(), key);
        if keys_of(self.entries()).contains(key) {
            let i = choose|i: int|
                0 <= i < self.entries().len() && keys_of(self.entries())[i] == key;
            assert(self.items@[i].0@ == key);
        }
    }

    /// The value of `key`.
    pub fn get(&self, key: &str) -> (r: Option<&V>)
        ensures
            match r {
                Some(v) => lookup(self.entries(), key@) == Some(v@),
                None => lookup(self.entries(), key@) is None,
            },
            r is Some <==> self@.contains_key(key@),
            r is Some ==> self@[key@] == r->0@,
    {
        let _ = self.len();
        match self.position(key) {
            Some(i) => {
                proof {
                    lookup_at(self.entries(), i as int);
                }
                Some(&self.items[i].1)
            },
            None => {
                proof {
                    self.not_found(key@);
                }
                None
            },
        }
    }

    pub fn contains_key(&self, key: &str) -> (r: bool)
        ensures
            r == lookup(self.entries(), key@) is Some,
            r == self@.contains_key(key@),
    {
        self.get(key).is_some()
    }

    /// Sets the value of `key`.
    pub fn insert(&mut self, key: String, value: V)
        ensures
            final(self).entries() == put(old(self).entries(), key@, value@),
            final(self)@ == old(self)@.insert(key@, value@),
    {
        let _ = self.len();
        proof {
            use_type_invariant(&*self);
            put_spec(self.entries(), key@, value@);
        }
        let ghost before = self.entries();
        let ghost k = key@;
        let ghost v = value@;
        let at = self.position(key.as_str());
        proof {
            if at is None {
                self.not_found(k);
                put_new(before, k, v);
            } else {
                put_at(before, k, v, at->0 as int);
            }
        }
        let mut items: Vec<(String, V)> = Vec::new();
        std::mem::swap(&mut items, &mut self.items);
        let ghost start = items@;
        match at {
            Some(i) => {
                items.set(i, (key, value));
                self.items = items;
                assert(self.entries() =~= before.update(i as int, (k, v)));
            },
            None => {
                items.push((key, value));
                self.items = items;
                assert(self.entries() =~= before.push((k, v)));
            },
        }
    }

    /// Takes `key` out, and says whether it was there.
    pub fn remove(&mut self, key: &str) -> (r: bool)
        ensures
            r == old(self)@.contains_key(key@),
            r == lookup(old(self).entries(), key@) is Some,
            final(self).entries() == without(old(self).entries(), key@),
            final(self)@ == old(self)@.remove(key@),
    {
        let _ = self.len();
        proof {
            use_type_invariant(&*self);
            without_spec(self.entries(), key@);
        }
        let ghost before = self.entries();
        match self.position(key) {
            Some(i) => {
                proof {
                    lookup_at(before, i as int);
                    without_at(before, i as int);
                }
                let mut items: Vec<(String, V)> = Vec::new();
                std::mem::swap(&mut items, &mut self.items);
                let ghost start = items@;
                items.remove(i);
                assert(forall|a: int, b: int|
                    0 <= a < b < items@.len() ==> #[trigger] items@[a].0@
                        != #[trigger] items@[b].0@) by {
                    assert forall|a: int, b: int| 0 <= a < b < items@.len() implies
                        #[trigger] items@[a].0@ != #[trigger] items@[b].0@ by {
                        let a2 = if a < i { a } else { a + 1 };
                        let b2 = if b < i { b } else { b + 1 };
                        assert(start[a2].0@ != start[b2].0@);
                    }
                }
                self.items = items;
                assert(self.entries() =~= before.remove(i as int));
                true
            },
            None => {
                proof {
                    self.not_found(key@);
                    without_absent(before, key@);
                }
                assert(self@ =~= map_of(before).remove(key@));
                false
            },
        }
    }
}

/// `entries` without those of `key`.
pub open spec fn without<T>(entries: Seq<(Seq<char>, T)>, key: Seq<char>) -> Seq<(Seq<char>, T)>
    decreases entries.len(),
{
    if entries.len() == 0 {
        Seq::empty()
    } else if entries.last().0 == key {
        without(entries.drop_last(), key)
    } else {
        without(entries.drop_last(), key).push(entries.last())
    }
}

pub proof fn without_spec<T>(entries: Seq<(Seq<char>, T)>, key: Seq<char>)
    ensures
        forall|k: Seq<char>| #[trigger]
            lookup(without(entries, key), k) == if k == key {
                None
            } else {
                lookup(entries, k)
            },
        map_of(without(entries, key)) =~= map_of(entries).remove(key),
    decreases entries.len(),
{
    let r = without(entries, key);
    if entries.len() > 0 {
        without_spec(entries.drop_last(), key);
    }
    assert forall|k: Seq<char>| #[trigger] lookup(r, k) == (if k == key {
        None
    } else {
        lookup(entries, k)
    }) by {
        if entries.len() > 0 {
            let q = without(entries.drop_last(), key);
            assert(lookup(q, k) == lookup(without(entries.drop_last(), key), k));
            if entries.last().0 != key {
                assert(r.drop_last() =~= q);
            }
        }
    }
    assert(map_of(r) =~= map_of(entries).remove(key)) by {
        assert forall|k: Seq<char>| map_of(r).contains_key(k) == map_of(entries).remove(
            key,
        ).contains_key(k) by {
            assert(lookup(r, k) is Some == (k != key && lookup(entries, k) is Some));
        }
        assert forall|k: Seq<char>| map_of(r).contains_key(k) implies map_of(r)[k] == map_of(
            entries,
        ).remove(key)[k] by {
            assert(lookup(r, k) is Some);
        }
    }
}

pub proof fn without_absent<T>(entries: Seq<(Seq<char>, T)>, key: Seq<char>)
    requires
        lookup(entries, key) is None,
    ensures
        without(entries, key) == entries,
    decreases entries.len(),
{
    if entries.len() > 0 {
        without_absent(entries.drop_last(), key);
        assert(entries.drop_last().push(entries.last()) =~= entries);
    } else {
        assert(entries =~= Seq::empty());
    }
}

pub proof fn without_at<T>(entries: Seq<(Seq<char>, T)>, i: int)
    requires
        distinct_keys(entries),
        0 <= i < entries.len(),
    ensures
        without(entries, entries[i].0) == entries.remove(i),
    decreases entries.len(),
{
    let key = entries[i].0;
    let d = entries.drop_last();
    if i == entries.len() - 1 {
        lookup_found(d, key);
        if keys_of(d).contains(key) {
            let j = choose|j: int| 0 <= j < d.len() && keys_of(d)[j] == key;
            assert(entries[j].0 != entries[i].0);
        }
        without_absent(d, key);
        assert(entries.remove(i) =~= d);
    } else {
        assert(entries[i].0 != entries[entries.len() - 1].0);
        assert(d[i] == entries[i]);
        without_at(d, i);
        assert(entries.remove(i) =~= d.remove(i).push(entries.last()));
    }
}

impl StrMap<String> {
    /// The same entries.
    pub fn copied(&self) -> (r: Self)
        ensures
            r.entries() == self.entries(),
            r@ == self@,
    {
        let mut r: StrMap<String> = StrMap::new();
        let n: usize = self.len();
        let mut i: usize = 0;
        assert(self.entries().take(0) =~= Seq::<(Seq<char>, Seq<char>)>::empty());
        while i < n
            invariant
                i <= n,
                n == self.entries().len(),
                distinct_keys(self.entries()),
                r.entries() == self.entries().take(i as int),
            decreases n - i,
        {
            proof {
                let done = self.entries().take(i as int);
                let key = self.entries()[i as int].0;
                lookup_found(done, key);
                if keys_of(done).contains(key) {
                    let j = choose|j: int| 0 <= j < done.len() && keys_of(done)[j] == key;
                    assert(self.entries()[j].0 != self.entries()[i as int].0);
                }
                put_new(done, key, self.entries()[i as int].1);
                assert(self.entries().take(i + 1) =~= done.push(self.entries()[i as int]));
            }
            r.insert(self.key_at(i).to_owned(), self.value_at(i).clone());
            i += 1;
        }
        assert(self.entries().take(n as int) =~= self.entries());
        r
    }
}

impl StrMap<bool> {
    /// The same entries.
    pub fn copied(&self) -> (r: Self)
        ensures
            r.entries() == self.entries(),
            r@ == self@,
    {
        let mut r: StrMap<bool> = StrMap::new();
        let n: usize = self.len();
        let mut i: usize = 0;
        assert(self.entries().take(0) =~= Seq::<(Seq<char>, bool)>::empty());
        while i < n
            invariant
                i <= n,
                n == self.entries().len(),
                distinct_keys(self.entries()),
                r.entries() == self.entries().take(i as int),
            decreases n - i,
        {
            proof {
                let done = self.entries().take(i as int);
                let key = self.entries()[i as int].0;
                lookup_found(done, key);
                if keys_of(done).contains(key) {
                    let j = choose|j: int| 0 <= j < done.len() && keys_of(done)[j] == key;
                    assert(self.entries()[j].0 != self.entries()[i as int].0);
                }
                put_new(done, key, self.entries()[i as int].1);
                assert(self.entries().take(i + 1) =~= done.push(self.entries()[i as int]));
            }
            r.insert(self.key_at(i).to_owned(), *self.value_at(i));
            i += 1;
        }
        assert(self.entries().take(n as int) =~= self.entries());
        r
    }
}

impl<V: View> Default for StrMap<V> {
    fn default() -> (r: Self)
        ensures
            r.entries() == Seq::<(Seq<char>, V::V)>::empty(),
            r@ == Map::<Seq<char>, V::V>::empty(),
    {
        StrMap::new()
    }
}

/// A set of texts.
pub struct StrSet {
    items: Vec<String>,
}

impl View for StrSet {
    type V = Set<Seq<char>>;

    open spec fn view(&self) -> Set<Seq<char>> {
        self.elems().to_set()
    }
}

impl StrSet {
    /// The texts in the order in which they came.
    pub closed spec fn elems(&self) -> Seq<Seq<char>> {
        texts(self.items@)
    }

    /// No text occurs twice.
    #[verifier::type_invariant]
    spec fn wf(&self) -> bool {
        texts(self.items@).no_duplicates()
    }

    /// The empty set.
    pub fn new() -> (r: Self)
        ensures
            r.elems() == Seq::<Seq<char>>::empty(),
            r@ == Set::<Seq<char>>::empty(),
    {
        broadcast use group_texts;

        let r = StrSet { items: Vec::new() };
        assert(r@ =~= Set::<Seq<char>>::empty());
        r
    }

    pub fn len(&self) -> (r: usize)
        ensures
            r == self.elems().len(),
            r == self@.len(),
            self.elems().no_duplicates(),
    {
        proof {
            use_type_invariant(self);
            self.elems().unique_seq_to_set();
        }
        self.items.len()
    }

    pub fn is_empty(&self) -> (r: bool)
        ensures
            r == (self.elems().len() == 0),
            r == (self@ == Set::<Seq<char>>::empty()),
    {
        let r = self.items.len() == 0;
        proof {
            if !r {
                assert(self@.contains(self.elems()[0]));
            } else {
                assert(self@ =~= Set::<Seq<char>>::empty());
            }
        }
        r
    }

    pub fn contains(&self, item: &str) -> (r: bool)
        ensures
            r == self@.contains(item@),
            r == self.elems().contains(item@),
    {
        holds(&self.items, item)
    }

    /// The text at position `i`.
    pub fn at(&self, i: usize) -> (r: &str)
        requires
            i < self.elems().len(),
        ensures
            r@ == self.elems()[i as int],
    {
        self.items[i].as_str()
    }

    /// Puts `item` in, and says whether it is new.
    pub fn insert(&mut self, item: String) -> (r: bool)
        ensures
            r == !old(self)@.contains(item@),
            final(self)@ == old(self)@.insert(item@),
            final(self).elems() == with_text(old(self).elems(), item@),
    {
        broadcast use group_texts;

        proof {
            use_type_invariant(&*self);
        }
        let ghost before = self.elems();
        let ghost x = item@;
        if holds(&self.items, item.as_str()) {
            assert(self@ =~= before.to_set().insert(x));
            false
        } else {
            let mut items: Vec<String> = Vec::new();
            std::mem::swap(&mut items, &mut self.items);
            items.push(item);
            self.items = items;
            assert(self@ =~= before.to_set().insert(x)) by {
                assert forall|y: Seq<char>| #![auto] before.push(x).contains(y) <==> before.contains(y)
                    || y == x by {
                    if before.contains(y) {
                        let k = choose|k: int| 0 <= k < before.len() && before[k] == y;
                        assert(before.push(x)[k] == y);
                    }
                    if y == x {
                        assert(before.push(x)[before.len() as int] == y);
                    }
                }
            }
            true
        }
    }

    /// The texts in the order in which they came.
    pub fn to_vec(&self) -> (r: Vec<String>)
        ensures
            texts(r@) == self.elems(),
    {
        clone_texts(&self.items)
    }

    /// The set of the texts in `items`.
    pub fn of(items: &Vec<String>) -> (r: Self)
        ensures
            r@ == texts(items@).to_set(),
            r.elems() == distinct_texts(texts(items@)),
    {
        let mut r = StrSet::new();
        let mut i: usize = 0;
        assert(texts(items@).take(0) =~= Seq::<Seq<char>>::empty());
        while i < items.len()
            invariant
                i <= items.len(),
                r.elems() == distinct_texts(texts(items@).take(i as int)),
            decreases items.len() - i,
        {
            let ghost next = texts(items@).take(i + 1);
            assert(next.drop_last() =~= texts(items@).take(i as int));
            r.insert(items[i].clone());
            i += 1;
        }
        assert(texts(items@).take(i as int) =~= texts(items@));
        proof {
            distinct_texts_spec(texts(items@));
            assert(r@ =~= texts(items@).to_set());
        }
        r
    }

    pub fn copied(&self) -> (r: Self)
        ensures
            r@ == self@,
            r.elems() == self.elems(),
    {
        proof {
            use_type_invariant(self);
        }
        StrSet { items: clone_texts(&self.items) }
    }
}

/// `items` with `item` at the end unless it is there already.
pub open spec fn with_text(items: Seq<Seq<char>>, item: Seq<char>) -> Seq<Seq<char>> {
    if items.contains(item) {
        items
    } else {
        items.push(item)
    }
}

/// `items` without the repetitions: the first of each text stays.
pub open spec fn distinct_texts(items: Seq<Seq<char>>) -> Seq<Seq<char>>
    decreases items.len(),
{
    if items.len() == 0 {
        Seq::empty()
    } else {
        with_text(distinct_texts(items.drop_last()), items.last())
    }
}

pub proof fn distinct_texts_spec(items: Seq<Seq<char>>)
    ensures
        forall|y: Seq<char>| #[trigger] distinct_texts(items).contains(y) <==> items.contains(y),
        distinct_texts(items).no_duplicates(),
    decreases items.len(),
{
    if items.len() > 0 {
        let d = items.drop_last();
        distinct_texts_spec(d);
        let q = distinct_texts(d);
        assert forall|y: Seq<char>| #[trigger]
            distinct_texts(items).contains(y) <==> items.contains(y) by {
            if items.contains(y) {
                let k = choose|k: int| 0 <= k < items.len() && items[k] == y;
                if k < d.len() {
                    assert(d[k] == y);
                    assert(q.contains(y));
                    let m = choose|m: int| 0 <= m < q.len() && q[m] == y;
                    assert(distinct_texts(items)[m] == y);
                } else if !q.contains(y) {
                    assert(distinct_texts(items)[q.len() as int] == y);
                }
            }
            if distinct_texts(items).contains(y) && y != items.last() {
                let m = choose|m: int|
                    0 <= m < distinct_texts(items).len() && distinct_texts(items)[m] == y;
                assert(q[m] == y);
                assert(q.contains(y));
                let k = choose|k: int| 0 <= k < d.len() && d[k] == y;
                assert(items[k] == y);
            }
            if y == items.last() {
                assert(items[items.len() - 1] == y);
            }
        }
    } else {
        assert(distinct_texts(items) =~= items);
    }
}

} // verus!
