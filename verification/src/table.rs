//! Insertion-ordered key-value tables.
//!
//! A `Table` keeps its entries in a vector, in the order in which their keys
//! first arrived. Its view is the map from each key to the value of the first
//! entry that carries it, so a table is meaningful in every state: no
//! well-formedness condition is needed to read or to change one.

use vstd::prelude::*;
use crate::utils::{calculate_rev_limit, window_end, window_start};

verus! {

/// A type whose values can be copied out of a collection: the copy has the
/// same view.
pub trait Record: View + Sized {
    /// A fresh value with the same view.
    fn duplicate(&self) -> (c: Self)
        ensures
            c@ == self@,
    ;
}

/// A type that can serve as the key of a `Table`: keys are compared by their
/// views.
pub trait Key: Record {
    /// Whether two keys have the same view.
    fn same(&self, other: &Self) -> (b: bool)
        ensures
            b == (self@ == other@),
    ;
}

impl Record for String {
    fn duplicate(&self) -> (c: Self) {
        self.clone()
    }
}

impl Key for String {
    fn same(&self, other: &Self) -> (b: bool) {
        *self == *other
    }
}

/// The views of the elements of a list.
pub open spec fn views<T: View>(s: Seq<T>) -> Seq<T::V> {
    Seq::new(s.len(), |i: int| s[i]@)
}

/// The page of a newest-first listing of `order` that skips the `from_index`
/// newest entries and shows at most `limit`: the newest entry shown comes
/// first.
pub open spec fn page<A>(order: Seq<A>, from_index: u64, limit: u64) -> Seq<A> {
    let start = window_start(order.len() as u64, from_index, limit);
    let end = window_end(order.len() as u64, from_index);
    Seq::new((end - start) as nat, |i: int| order[end - 1 - i])
}

/// The keys `keys`, each with the value that `m` holds for it.
pub open spec fn pairs_at<K, V>(keys: Seq<K>, m: Map<K, V>) -> Seq<(K, V)> {
    Seq::new(keys.len(), |i: int| (keys[i], m[keys[i]]))
}

/// The values that `m` holds for `keys`, in the order of the keys.
pub open spec fn values_at<K, V>(keys: Seq<K>, m: Map<K, V>) -> Seq<V> {
    Seq::new(keys.len(), |i: int| m[keys[i]])
}

/// `i` is the position of the first occurrence of `k` in `keys`.
pub open spec fn is_first<K>(keys: Seq<K>, k: K, i: int) -> bool {
    &&& 0 <= i < keys.len()
    &&& keys[i] == k
    &&& forall|j: int| 0 <= j < i ==> keys[j] != k
}

/// The position of the first occurrence of `k` in `keys`, where there is one.
pub open spec fn first_index<K>(keys: Seq<K>, k: K) -> int {
    choose|i: int| is_first(keys, k, i)
}

/// The map that an association list stands for: every key that occurs is
/// mapped to the value beside its first occurrence.
pub open spec fn lookup<K, V>(keys: Seq<K>, vals: Seq<V>) -> Map<K, V> {
    Map::new(|k: K| keys.contains(k), |k: K| vals[first_index(keys, k)])
}

/// `s` with every occurrence of `x` taken out, the rest in their old order.
pub open spec fn without<A>(s: Seq<A>, x: A) -> Seq<A>
    decreases s.len(),
{
    if s.len() == 0 {
        s
    } else if s.last() == x {
        without(s.drop_last(), x)
    } else {
        without(s.drop_last(), x).push(s.last())
    }
}

/// `s` with `x` added at the end unless it already occurs.
pub open spec fn with_member<A>(s: Seq<A>, x: A) -> Seq<A> {
    if s.contains(x) {
        s
    } else {
        s.push(x)
    }
}

/// A key that occurs has a first occurrence, at or before any place where it
/// occurs.
pub proof fn lemma_first_exists<K>(keys: Seq<K>, k: K, i: int)
    requires
        0 <= i < keys.len(),
        keys[i] == k,
    ensures
        is_first(keys, k, first_index(keys, k)),
        first_index(keys, k) <= i,
    decreases i,
{
    if exists|j: int| 0 <= j < i && keys[j] == k {
        let j = choose|j: int| 0 <= j < i && keys[j] == k;
        lemma_first_exists(keys, k, j);
    } else {
        assert(is_first(keys, k, i));
        lemma_first_unique(keys, k, i, first_index(keys, k));
    }
}

/// A key has one first occurrence.
pub proof fn lemma_first_unique<K>(keys: Seq<K>, k: K, i: int, j: int)
    requires
        is_first(keys, k, i),
        is_first(keys, k, j),
    ensures
        i == j,
{
    if i < j {
        assert(keys[i] != k);
    } else if j < i {
        assert(keys[j] != k);
    }
}

/// Where `i` is the first occurrence of `k`, the map holds the value at `i`.
pub proof fn lemma_lookup_at<K, V>(keys: Seq<K>, vals: Seq<V>, k: K, i: int)
    requires
        keys.len() == vals.len(),
        is_first(keys, k, i),
    ensures
        lookup(keys, vals).contains_key(k),
        lookup(keys, vals)[k] == vals[i],
        first_index(keys, k) == i,
{
    lemma_first_exists(keys, k, i);
    lemma_first_unique(keys, k, i, first_index(keys, k));
}

/// Replacing the value beside the first occurrence of a key is `insert`.
pub proof fn lemma_lookup_update<K, V>(keys: Seq<K>, vals: Seq<V>, k: K, i: int, v: V)
    requires
        keys.len() == vals.len(),
        is_first(keys, k, i),
    ensures
        lookup(keys, vals.update(i, v)) == lookup(keys, vals).insert(k, v),
{
    let a = lookup(keys, vals.update(i, v));
    let b = lookup(keys, vals).insert(k, v);
    lemma_lookup_at(keys, vals, k, i);
    assert forall|x: K| a.contains_key(x) implies #[trigger] a[x] == b[x] by {
        if x != k {
            let j = keys.index_of(x);
            lemma_first_exists(keys, x, j);
        }
    }
    assert(a.dom() =~= b.dom());
    assert(a =~= b);
}

/// Appending an entry whose key is new is `insert`.
pub proof fn lemma_lookup_push<K, V>(keys: Seq<K>, vals: Seq<V>, k: K, v: V)
    requires
        keys.len() == vals.len(),
        !keys.contains(k),
    ensures
        lookup(keys.push(k), vals.push(v)) == lookup(keys, vals).insert(k, v),
{
    let keys2 = keys.push(k);
    let vals2 = vals.push(v);
    let a = lookup(keys2, vals2);
    let b = lookup(keys, vals).insert(k, v);
    assert(keys2[keys.len() as int] == k);
    assert forall|x: K| a.contains_key(x) <==> b.contains_key(x) by {
        if keys.contains(x) {
            let j = keys.index_of(x);
            assert(keys2[j] == x);
        }
        if keys2.contains(x) && x != k {
            let j = keys2.index_of(x);
            assert(keys[j] == x);
        }
    }
    assert forall|x: K| a.contains_key(x) implies #[trigger] a[x] == b[x] by {
        if x == k {
            assert(is_first(keys2, k, keys.len() as int));
            lemma_lookup_at(keys2, vals2, k, keys.len() as int);
        } else {
            let j = keys.index_of(x);
            lemma_first_exists(keys, x, j);
            let f = first_index(keys, x);
            assert(is_first(keys2, x, f));
            lemma_lookup_at(keys2, vals2, x, f);
        }
    }
    assert(a.dom() =~= b.dom());
    assert(a =~= b);
}

/// Taking out one entry leaves every other key as it was.
pub proof fn lemma_lookup_remove_at<K, V>(keys: Seq<K>, vals: Seq<V>, i: int, x: K)
    requires
        keys.len() == vals.len(),
        0 <= i < keys.len(),
        x != keys[i],
    ensures
        lookup(keys.remove(i), vals.remove(i)).contains_key(x) == lookup(keys, vals).contains_key(x),
        lookup(keys, vals).contains_key(x) ==> lookup(keys.remove(i), vals.remove(i))[x] == lookup(
            keys,
            vals,
        )[x],
{
    let keys2 = keys.remove(i);
    let vals2 = vals.remove(i);
    if keys.contains(x) {
        let j = keys.index_of(x);
        lemma_first_exists(keys, x, j);
        let f = first_index(keys, x);
        let f2 = if f < i { f } else { f - 1 };
        assert(keys2[f2] == x);
        assert forall|m: int| 0 <= m < f2 implies keys2[m] != x by {
            if m < i {
                assert(keys2[m] == keys[m]);
            } else {
                assert(keys2[m] == keys[m + 1]);
            }
        }
        assert(is_first(keys2, x, f2));
        lemma_lookup_at(keys2, vals2, x, f2);
        lemma_lookup_at(keys, vals, x, f);
    }
    if keys2.contains(x) {
        let j = keys2.index_of(x);
        if j < i {
            assert(keys[j] == x);
        } else {
            assert(keys[j + 1] == x);
        }
    }
}

/// Taking out `x` leaves no `x`, keeps every other element, and makes the
/// list no longer.
pub proof fn lemma_without_absent<A>(s: Seq<A>, x: A)
    ensures
        !without(s, x).contains(x),
        forall|y: A| y != x ==> (without(s, x).contains(y) <==> s.contains(y)),
        without(s, x).len() <= s.len(),
    decreases s.len(),
{
    if s.len() > 0 {
        let rest = s.drop_last();
        let last = s.last();
        lemma_without_absent(rest, x);
        let w = without(rest, x);
        let r = without(s, x);
        assert forall|y: A| y != x implies (r.contains(y) <==> s.contains(y)) by {
            assert(w.contains(y) <==> rest.contains(y));
            if s.contains(y) {
                let j = choose|j: int| 0 <= j < s.len() && s[j] == y;
                if j < rest.len() {
                    assert(rest[j] == y);
                    assert(rest.contains(y));
                    let m = choose|m: int| 0 <= m < w.len() && w[m] == y;
                    assert(r[m] == y);
                } else {
                    assert(last == y);
                    assert(r == w.push(last));
                    assert(r[w.len() as int] == y);
                }
                assert(r.contains(y));
            }
            if r.contains(y) {
                let j = choose|j: int| 0 <= j < r.len() && r[j] == y;
                if j < w.len() {
                    assert(w[j] == y);
                    assert(w.contains(y));
                    let m = choose|m: int| 0 <= m < rest.len() && rest[m] == y;
                    assert(s[m] == y);
                } else {
                    assert(s[s.len() - 1] == y);
                }
                assert(s.contains(y));
            }
        }
        if r.contains(x) {
            let j = choose|j: int| 0 <= j < r.len() && r[j] == x;
            if j < w.len() {
                assert(w[j] == x);
            }
        }
    }
}

/// Two maps agree on every key but `k`.
pub open spec fn agree_except<K, V>(a: Map<K, V>, b: Map<K, V>, k: K) -> bool {
    forall|x: K|
        x != k ==> (#[trigger] a.contains_key(x) == b.contains_key(x)) && (a.contains_key(x)
            ==> a[x] == b[x])
}

/// One entry of a table.
#[derive(Clone, Debug, PartialEq, Eq)]
pub struct Entry<K, V> {
    pub key: K,
    pub value: V,
}

/// An insertion-ordered table from keys to values.
#[derive(Clone, Debug, PartialEq, Eq)]
pub struct Table<K, V> {
    pub entries: Vec<Entry<K, V>>,
}

impl<K: Key, V: View> View for Table<K, V> {
    type V = Map<K::V, V::V>;

    open spec fn view(&self) -> Map<K::V, V::V> {
        lookup(self.keys(), self.values())
    }
}

impl<K: Key, V: View> Table<K, V> {
    /// The keys of the entries, in storage order.
    pub open spec fn keys(&self) -> Seq<K::V> {
        Seq::new(self.entries.len() as nat, |i: int| self.entries[i].key@)
    }

    /// The values of the entries, in storage order.
    pub open spec fn values(&self) -> Seq<V::V> {
        Seq::new(self.entries.len() as nat, |i: int| self.entries[i].value@)
    }

    /// The keys of the table in the order of their first arrival.
    pub open spec fn order(&self) -> Seq<K::V> {
        self.keys()
    }

    /// `after` is `before` with the value of entry `i` replaced and nothing
    /// else touched.
    pub open spec fn changed_at(before: Self, after: Self, i: int) -> bool {
        &&& 0 <= i < before.entries.len()
        &&& after.entries.len() == before.entries.len()
        &&& after.entries[i].key == before.entries[i].key
        &&& forall|j: int|
            0 <= j < before.entries.len() && j != i ==> after.entries[j] == before.entries[j]
    }

    /// Changing in place the value of the first entry of a key is `insert`.
    pub proof fn lemma_changed_at(before: Self, after: Self, i: int)
        requires
            Self::changed_at(before, after, i),
            is_first(before.keys(), before.entries[i].key@, i),
        ensures
            after@ == before@.insert(before.entries[i].key@, after.entries[i].value@),
            after.keys() == before.keys(),
    {
        assert(after.keys() =~= before.keys());
        assert(after.values() =~= before.values().update(i, after.entries[i].value@));
        lemma_lookup_update(
            before.keys(),
            before.values(),
            before.entries[i].key@,
            i,
            after.entries[i].value@,
        );
    }

    /// A table without entries.
    pub fn new() -> (t: Self)
        ensures
            t@ == Map::<K::V, V::V>::empty(),
            t.keys() == Seq::<K::V>::empty(),
    {
        let t = Table { entries: Vec::new() };
        assert(t.keys() =~= Seq::<K::V>::empty());
        assert(t@ =~= Map::<K::V, V::V>::empty());
        t
    }

    /// How many entries the table holds.
    pub fn len(&self) -> (n: usize)
        ensures
            n == self.keys().len(),
    {
        self.entries.len()
    }

    /// The position of the first entry with key `k`.
    pub fn index_of(&self, k: &K) -> (r: Option<usize>)
        ensures
            match r {
                Some(i) => {
                    &&& is_first(self.keys(), k@, i as int)
                    &&& self@.contains_key(k@)
                    &&& self@[k@] == self.entries[i as int].value@
                },
                None => !self@.contains_key(k@) && !self.keys().contains(k@),
            },
    {
        let mut i: usize = 0;
        while i < self.entries.len()
            invariant
                i <= self.entries.len(),
                forall|j: int| 0 <= j < i ==> self.keys()[j] != k@,
            decreases self.entries.len() - i,
        {
            if self.entries[i].key.same(k) {
                proof {
                    assert(self.keys()[i as int] == k@);
                    lemma_lookup_at(self.keys(), self.values(), k@, i as int);
                }
                return Some(i);
            }
            i += 1;
        }
        None
    }

    /// Whether the table holds a value for `k`.
    pub fn contains_key(&self, k: &K) -> (b: bool)
        ensures
            b == self@.contains_key(k@),
    {
        self.index_of(k).is_some()
    }

    /// The value that the table holds for `k`.
    pub fn get(&self, k: &K) -> (r: Option<&V>)
        ensures
            match r {
                Some(v) => self@.contains_key(k@) && v@ == self@[k@],
                None => !self@.contains_key(k@),
            },
    {
        match self.index_of(k) {
            Some(i) => Some(&self.entries[i].value),
            None => None,
        }
    }

    /// The keys on a page of the newest-first listing of the table.
    pub fn page(&self, from_index: u64, limit: u64) -> (keys: Vec<K>)
        ensures
            views(keys@) == page(self.order(), from_index, limit),
    {
        let window = calculate_rev_limit(self.entries.len() as u64, from_index, limit);
        let mut keys: Vec<K> = Vec::new();
        let mut k: u64 = window.end;
        while k > window.start
            invariant
                window.start <= k <= window.end <= self.entries.len(),
                keys.len() == window.end - k,
                forall|i: int| 0 <= i < keys.len() ==> keys[i]@ == self.keys()[window.end - 1 - i],
            decreases k,
        {
            k -= 1;
            keys.push(self.entries[k as usize].key.duplicate());
        }
        assert(views(keys@) =~= page(self.order(), from_index, limit));
        keys
    }

    /// Sets the value of `k`, keeping the place of a key that is already there
    /// and putting a new key last.
    pub fn insert(&mut self, k: K, v: V)
        ensures
            final(self)@ == old(self)@.insert(k@, v@),
            final(self).keys() == with_member(old(self).keys(), k@),
    {
        match self.index_of(&k) {
            Some(i) => {
                let ghost before = *self;
                self.entries[i].value = v;
                proof {
                    Self::lemma_changed_at(before, *self, i as int);
                }
            },
            None => {
                let ghost before = *self;
                self.entries.push(Entry { key: k, value: v });
                proof {
                    assert(self.keys() =~= before.keys().push(k@));
                    assert(self.values() =~= before.values().push(v@));
                    lemma_lookup_push(before.keys(), before.values(), k@, v@);
                }
            },
        }
    }

    /// Takes out every entry with key `k`.
    pub fn remove(&mut self, k: &K)
        ensures
            final(self)@ == old(self)@.remove(k@),
            final(self).keys() == without(old(self).keys(), k@),
    {
        let mut i: usize = 0;
        proof {
            assert(old(self).keys().take(0) =~= Seq::<K::V>::empty());
            assert(self.keys().skip(0) =~= self.keys());
        }
        while i < self.entries.len()
            invariant
                i <= self.entries.len(),
                forall|j: int| 0 <= j < i ==> self.keys()[j] != k@,
                agree_except(self@, old(self)@, k@),
                self.entries.len() <= old(self).entries.len(),
                self.keys().take(i as int) == without(
                    old(self).keys().take(i + old(self).entries.len() - self.entries.len()),
                    k@,
                ),
                self.keys().skip(i as int) == old(self).keys().skip(
                    i + old(self).entries.len() - self.entries.len(),
                ),
            decreases self.entries.len() - i,
        {
            let ghost before = *self;
            let ghost n = i + old(self).entries.len() - self.entries.len();
            proof {
                assert(old(self).keys()[n] == self.keys().skip(i as int)[0]);
                assert(old(self).keys().take(n + 1).drop_last() =~= old(self).keys().take(n));
            }
            if self.entries[i].key.same(k) {
                self.entries.remove(i);
                proof {
                    assert(self.keys() =~= before.keys().remove(i as int));
                    assert(self.values() =~= before.values().remove(i as int));
                    assert forall|x: K::V| x != k@ implies (#[trigger] self@.contains_key(x)
                        == before@.contains_key(x)) && (self@.contains_key(x) ==> self@[x]
                        == before@[x]) by {
                        lemma_lookup_remove_at(before.keys(), before.values(), i as int, x);
                    }
                    assert(self.keys().take(i as int) =~= before.keys().take(i as int));
                    assert(self.keys().skip(i as int) =~= before.keys().skip(i as int).skip(1));
                    assert(old(self).keys().skip(n).skip(1) =~= old(self).keys().skip(n + 1));
                }
            } else {
                i += 1;
                proof {
                    assert(self.keys().take(i as int) =~= self.keys().take(i - 1).push(
                        self.keys()[i - 1],
                    ));
                    assert(self.keys().skip(i as int) =~= before.keys().skip(i - 1).skip(1));
                    assert(old(self).keys().skip(n).skip(1) =~= old(self).keys().skip(n + 1));
                }
            }
        }
        proof {
            assert(self.keys().take(i as int) =~= self.keys());
            assert(old(self).keys().take(old(self).entries.len() as int) =~= old(self).keys());
            assert(self@ =~= old(self)@.remove(k@));
        }
    }
}

impl<K: Key, V: Record> Table<K, V> {
    /// The keys in storage order, each with its value.
    pub fn to_vec(&self) -> (pairs: Vec<(K, V)>)
        ensures
            views(pairs@) == pairs_at(self.order(), self@),
    {
        let mut pairs: Vec<(K, V)> = Vec::new();
        let mut i: usize = 0;
        while i < self.entries.len()
            invariant
                i <= self.entries.len(),
                pairs.len() == i,
                forall|j: int|
                    0 <= j < i ==> (#[trigger] pairs[j])@ == (self.keys()[j], self@[self.keys()[j]]),
            decreases self.entries.len() - i,
        {
            match self.index_of(&self.entries[i].key) {
                Some(j) => {
                    pairs.push((self.entries[i].key.duplicate(), self.entries[j].value.duplicate()));
                },
                None => {
                    assert(self.keys()[i as int] == self.entries[i as int].key@);
                    assert(false);
                },
            }
            i += 1;
        }
        assert(views(pairs@) =~= pairs_at(self.order(), self@));
        pairs
    }

    /// The values on a page of the newest-first listing of the table.
    pub fn page_values(&self, from_index: u64, limit: u64) -> (values: Vec<V>)
        ensures
            views(values@) == values_at(page(self.order(), from_index, limit), self@),
    {
        let window = calculate_rev_limit(self.entries.len() as u64, from_index, limit);
        let mut values: Vec<V> = Vec::new();
        let mut k: u64 = window.end;
        while k > window.start
            invariant
                window.start <= k <= window.end <= self.entries.len(),
                values.len() == window.end - k,
                forall|i: int|
                    0 <= i < values.len() ==> values[i]@ == self@[self.keys()[window.end - 1 - i]],
            decreases k,
        {
            k -= 1;
            match self.index_of(&self.entries[k as usize].key) {
                Some(j) => {
                    values.push(self.entries[j].value.duplicate());
                },
                None => {
                    assert(self.keys()[k as int] == self.entries[k as int].key@);
                    assert(false);
                },
            }
        }
        assert(views(values@) =~= values_at(page(self.order(), from_index, limit), self@));
        values
    }
}

/// An insertion-ordered set of keys.
#[derive(Clone, Debug, PartialEq, Eq)]
pub struct KeySet<K> {
    pub members: Vec<K>,
}

impl<K: Key> View for KeySet<K> {
    type V = Seq<K::V>;

    open spec fn view(&self) -> Seq<K::V> {
        Seq::new(self.members.len() as nat, |i: int| self.members[i]@)
    }
}

impl<K: Key> KeySet<K> {
    /// A set without members.
    pub fn new() -> (s: Self)
        ensures
            s@ == Seq::<K::V>::empty(),
    {
        let s = KeySet { members: Vec::new() };
        assert(s@ =~= Seq::<K::V>::empty());
        s
    }

    /// How many members the set has.
    pub fn len(&self) -> (n: usize)
        ensures
            n == self@.len(),
    {
        self.members.len()
    }

    /// Whether `k` is a member.
    pub fn contains(&self, k: &K) -> (b: bool)
        ensures
            b == self@.contains(k@),
    {
        let mut i: usize = 0;
        while i < self.members.len()
            invariant
                i <= self.members.len(),
                forall|j: int| 0 <= j < i ==> self@[j] != k@,
            decreases self.members.len() - i,
        {
            if self.members[i].same(k) {
                assert(self@[i as int] == k@);
                return true;
            }
            i += 1;
        }
        false
    }

    /// The members on a page of the newest-first listing of the set.
    pub fn page(&self, from_index: u64, limit: u64) -> (keys: Vec<K>)
        ensures
            views(keys@) == page(self@, from_index, limit),
    {
        let window = calculate_rev_limit(self.members.len() as u64, from_index, limit);
        let mut keys: Vec<K> = Vec::new();
        let mut k: u64 = window.end;
        while k > window.start
            invariant
                window.start <= k <= window.end <= self.members.len(),
                keys.len() == window.end - k,
                forall|i: int| 0 <= i < keys.len() ==> keys[i]@ == self@[window.end - 1 - i],
            decreases k,
        {
            k -= 1;
            keys.push(self.members[k as usize].duplicate());
        }
        assert(views(keys@) =~= page(self@, from_index, limit));
        keys
    }

    /// The members in their order.
    pub fn to_vec(&self) -> (keys: Vec<K>)
        ensures
            views(keys@) == self@,
    {
        let mut keys: Vec<K> = Vec::new();
        let mut i: usize = 0;
        while i < self.members.len()
            invariant
                i <= self.members.len(),
                keys.len() == i,
                forall|j: int| 0 <= j < i ==> keys[j]@ == self@[j],
            decreases self.members.len() - i,
        {
            keys.push(self.members[i].duplicate());
            i += 1;
        }
        assert(views(keys@) =~= self@);
        keys
    }

    /// Adds `k` unless it is a member already; tells whether it was added.
    pub fn insert(&mut self, k: K) -> (added: bool)
        ensures
            final(self)@ == with_member(old(self)@, k@),
            added == !old(self)@.contains(k@),
    {
        if self.contains(&k) {
            false
        } else {
            self.members.push(k);
            assert(self@ =~= old(self)@.push(k@));
            true
        }
    }

    /// Takes `k` out; tells whether it was a member.
    pub fn remove(&mut self, k: &K) -> (removed: bool)
        ensures
            final(self)@ == without(old(self)@, k@),
            removed == old(self)@.contains(k@),
    {
        let mut i: usize = 0;
        let mut removed = false;
        proof {
            assert(old(self)@.take(0) =~= Seq::<K::V>::empty());
            assert(self@.skip(0) =~= self@);
        }
        while i < self.members.len()
            invariant
                i <= self.members.len(),
                self.members.len() <= old(self).members.len(),
                self@.take(i as int) == without(
                    old(self)@.take(i + old(self).members.len() - self.members.len()),
                    k@,
                ),
                self@.skip(i as int) == old(self)@.skip(
                    i + old(self).members.len() - self.members.len(),
                ),
                removed == old(self)@.take(
                    i + old(self).members.len() - self.members.len(),
                ).contains(k@),
            decreases self.members.len() - i,
        {
            let ghost before = *self;
            let ghost n = i + old(self).members.len() - self.members.len();
            proof {
                assert(old(self)@[n] == self@.skip(i as int)[0]);
                assert(old(self)@.take(n + 1).drop_last() =~= old(self)@.take(n));
                assert(old(self)@.take(n + 1) =~= old(self)@.take(n).push(old(self)@[n]));
                assert(old(self)@.skip(n).skip(1) =~= old(self)@.skip(n + 1));
                if old(self)@.take(n).contains(k@) {
                    let j = old(self)@.take(n).index_of(k@);
                    assert(old(self)@.take(n + 1)[j] == k@);
                }
                if old(self)@.take(n + 1).contains(k@) && old(self)@[n] != k@ {
                    let j = old(self)@.take(n + 1).index_of(k@);
                    assert(old(self)@.take(n)[j] == k@);
                }
            }
            if self.members[i].same(k) {
                self.members.remove(i);
                removed = true;
                proof {
                    assert(self@ =~= before@.remove(i as int));
                    assert(self@.take(i as int) =~= before@.take(i as int));
                    assert(self@.skip(i as int) =~= before@.skip(i as int).skip(1));
                    assert(old(self)@.take(n + 1)[n] == k@);
                }
            } else {
                i += 1;
                proof {
                    assert(self@.take(i as int) =~= self@.take(i - 1).push(self@[i - 1]));
                    assert(self@.skip(i as int) =~= before@.skip(i - 1).skip(1));
                }
            }
        }
        proof {
            assert(self@.take(i as int) =~= self@);
            assert(old(self)@.take(old(self).members.len() as int) =~= old(self)@);
        }
        removed
    }
}

} // verus!
