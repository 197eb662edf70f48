//! A map that holds its entries in the order of their keys.

use vstd::prelude::*;

use crate::duplicate::Duplicate;

verus! {

/// A key with a strict total order on its mathematical value.
pub trait OrderedKey: DeepView + Sized {
    /// Whether `a` stands before `b`.
    spec fn less(a: Self::V, b: Self::V) -> bool;

    /// No key stands before itself.
    proof fn less_irreflexive(a: Self::V)
        ensures
            !Self::less(a, a),
    ;

    /// The order is transitive.
    proof fn less_transitive(a: Self::V, b: Self::V, c: Self::V)
        requires
            Self::less(a, b),
            Self::less(b, c),
        ensures
            Self::less(a, c),
    ;

    /// Of two different keys one stands before the other.
    proof fn less_total(a: Self::V, b: Self::V)
        ensures
            a == b || Self::less(a, b) || Self::less(b, a),
    ;

    /// Whether this key stands before `other`.
    fn before(&self, other: &Self) -> (r: bool)
        ensures
            r == Self::less(self.deep_view(), other.deep_view()),
    ;
}

/// Whether the keys of a row of entries stand in strictly ascending order.
pub open spec fn ascending<K: OrderedKey, B>(entries: Seq<(K::V, B)>) -> bool {
    forall|i: int, j: int|
        0 <= i < j < entries.len() ==> K::less((#[trigger] entries[i]).0, (#[trigger] entries[j]).0)
}

/// The map that a row of entries stands for.
pub open spec fn map_of<A, B>(entries: Seq<(A, B)>) -> Map<A, B> {
    Map::new(
        |k: A| exists|i: int| 0 <= i < entries.len() && (#[trigger] entries[i]).0 == k,
        |k: A| entries[choose|i: int| 0 <= i < entries.len() && (#[trigger] entries[i]).0 == k].1,
    )
}

/// Whether `entries` is the row of the entries of `m` in ascending order.
pub open spec fn lists<K: OrderedKey, B>(entries: Seq<(K::V, B)>, m: Map<K::V, B>) -> bool {
    ascending::<K, B>(entries) && map_of(entries) == m
}

/// The entries of `m` in ascending order of their keys.
pub open spec fn listing<K: OrderedKey, B>(m: Map<K::V, B>) -> Seq<(K::V, B)> {
    choose|entries: Seq<(K::V, B)>| lists::<K, B>(entries, m)
}

/// The values of `m` in ascending order of their keys.
pub open spec fn values_of<K: OrderedKey, B>(m: Map<K::V, B>) -> Seq<B> {
    listing::<K, B>(m).map_values(|e: (K::V, B)| e.1)
}

/// What `map_of` says of one entry of an ascending row.
pub proof fn lemma_map_of_entry<K: OrderedKey, B>(entries: Seq<(K::V, B)>, i: int)
    requires
        ascending::<K, B>(entries),
        0 <= i < entries.len(),
    ensures
        map_of(entries).dom().contains(entries[i].0),
        map_of(entries)[entries[i].0] == entries[i].1,
{
    let k = entries[i].0;
    let j = choose|j: int| 0 <= j < entries.len() && (#[trigger] entries[j]).0 == k;
    K::less_irreflexive(k);
    assert(i == j);
}

/// A map has only one ascending row of entries.
pub proof fn lemma_lists_unique<K: OrderedKey, B>(
    x: Seq<(K::V, B)>,
    y: Seq<(K::V, B)>,
    m: Map<K::V, B>,
)
    requires
        lists::<K, B>(x, m),
        lists::<K, B>(y, m),
    ensures
        x == y,
    decreases x.len(),
{
    if x.len() == 0 {
        if y.len() > 0 {
            lemma_map_of_entry::<K, B>(y, 0);
        }
        assert(x =~= y);
    } else if y.len() == 0 {
        lemma_map_of_entry::<K, B>(x, 0);
    } else {
        let kx = x.last().0;
        let ky = y.last().0;
        lemma_map_of_entry::<K, B>(x, x.len() - 1);
        lemma_map_of_entry::<K, B>(y, y.len() - 1);
        let i = choose|i: int| 0 <= i < x.len() && (#[trigger] x[i]).0 == ky;
        let j = choose|j: int| 0 <= j < y.len() && (#[trigger] y[j]).0 == kx;
        K::less_irreflexive(kx);
        if kx != ky {
            assert(i < x.len() - 1);
            assert(j < y.len() - 1);
            assert(K::less(ky, kx));
            assert(K::less(kx, ky));
            K::less_transitive(kx, ky, kx);
        }
        let smaller = m.remove(kx);
        lemma_map_of_drop_last::<K, B>(x);
        lemma_map_of_drop_last::<K, B>(y);
        lemma_lists_unique::<K, B>(x.drop_last(), y.drop_last(), smaller);
        assert(x =~= x.drop_last().push(x.last()));
        assert(y =~= y.drop_last().push(y.last()));
    }
}

/// Without its last entry an ascending row stands for the map without that key.
pub proof fn lemma_map_of_drop_last<K: OrderedKey, B>(x: Seq<(K::V, B)>)
    requires
        ascending::<K, B>(x),
        x.len() > 0,
    ensures
        ascending::<K, B>(x.drop_last()),
        map_of(x.drop_last()) == map_of(x).remove(x.last().0),
{
    let d = x.drop_last();
    assert(ascending::<K, B>(d)) by {
        assert forall|i: int, j: int| 0 <= i < j < d.len() implies K::less(
            (#[trigger] d[i]).0,
            (#[trigger] d[j]).0,
        ) by {
            assert(d[i] == x[i] && d[j] == x[j]);
        }
    }
    let m = map_of(x).remove(x.last().0);
    assert forall|k: K::V| #[trigger] map_of(d).dom().contains(k) implies m.dom().contains(k)
        && m[k] == map_of(d)[k] by {
        let i = choose|i: int| 0 <= i < d.len() && (#[trigger] d[i]).0 == k;
        assert(d[i] == x[i]);
        lemma_map_of_entry::<K, B>(x, i);
        lemma_map_of_entry::<K, B>(d, i);
        K::less_irreflexive(k);
    }
    assert forall|k: K::V| #[trigger] m.dom().contains(k) implies map_of(d).dom().contains(k) by {
        let i = choose|i: int| 0 <= i < x.len() && (#[trigger] x[i]).0 == k;
        assert(d[i] == x[i]);
    }
    assert(map_of(d).dom() =~= m.dom());
    assert(map_of(d) =~= m);
}

/// Keys and values side by side.
spec fn entries_of<K: DeepView, V: DeepView>(keys: Seq<K>, values: Seq<V>) -> Seq<(K::V, V::V)> {
    Seq::new(keys.len(), |i: int| (keys[i].deep_view(), values[i].deep_view()))
}

/// A map that holds its entries in ascending order of their keys.
pub struct OrderedMap<K: OrderedKey, V: DeepView> {
    keys: Vec<K>,
    values: Vec<V>,
}

impl<K: OrderedKey, V: DeepView> OrderedMap<K, V> {
    /// The entries, in the order in which they are held.
    pub closed spec fn entries(&self) -> Seq<(K::V, V::V)> {
        entries_of(self.keys@, self.values@)
    }

    #[verifier::type_invariant]
    spec fn well_formed(self) -> bool {
        &&& self.keys@.len() == self.values@.len()
        &&& ascending::<K, V::V>(self.entries())
    }
}

impl<K: OrderedKey, V: DeepView> DeepView for OrderedMap<K, V> {
    type V = Map<K::V, V::V>;

    open spec fn deep_view(&self) -> Map<K::V, V::V> {
        map_of(self.entries())
    }
}

impl<K: OrderedKey, V: DeepView> OrderedMap<K, V> {
    /// The empty map.
    pub fn new() -> (r: Self)
        ensures
            r.deep_view() == Map::<K::V, V::V>::empty(),
            r.entries() == Seq::<(K::V, V::V)>::empty(),
    {
        let r = OrderedMap { keys: Vec::new(), values: Vec::new() };
        assert(r.entries() =~= Seq::<(K::V, V::V)>::empty());
        assert(r.deep_view() =~= Map::<K::V, V::V>::empty());
        r
    }

    /// The number of entries.
    pub fn len(&self) -> (r: usize)
        ensures
            r == self.entries().len(),
            self.entries() == listing::<K, V::V>(self.deep_view()),
            ascending::<K, V::V>(self.entries()),
            self.deep_view().dom().finite(),
            r == self.deep_view().len(),
    {
        proof {
            use_type_invariant(self);
            assert(lists::<K, V::V>(self.entries(), self.deep_view()));
            lemma_lists_unique::<K, V::V>(
                self.entries(),
                listing::<K, V::V>(self.deep_view()),
                self.deep_view(),
            );
            lemma_len::<K, V::V>(self.entries());
        }
        self.keys.len()
    }
}

/// An ascending row has as many entries as its map.
proof fn lemma_len<K: OrderedKey, B>(x: Seq<(K::V, B)>)
    requires
        ascending::<K, B>(x),
    ensures
        map_of(x).dom().finite(),
        map_of(x).len() == x.len(),
    decreases x.len(),
{
    if x.len() == 0 {
        assert(map_of(x).dom() =~= Set::empty());
    } else {
        lemma_map_of_drop_last::<K, B>(x);
        lemma_len::<K, B>(x.drop_last());
        lemma_map_of_entry::<K, B>(x, x.len() - 1);
        assert(map_of(x).dom() =~= map_of(x.drop_last()).dom().insert(x.last().0));
    }
}

/// An ascending row with one more entry stands for the map with that entry.
proof fn lemma_map_of_insert<K: OrderedKey, B>(x: Seq<(K::V, B)>, at: int, k: K::V, b: B)
    requires
        ascending::<K, B>(x),
        0 <= at <= x.len(),
        forall|j: int| 0 <= j < at ==> K::less((#[trigger] x[j]).0, k),
        forall|j: int| at <= j < x.len() ==> K::less(k, (#[trigger] x[j]).0),
    ensures
        ascending::<K, B>(x.insert(at, (k, b))),
        map_of(x.insert(at, (k, b))) == map_of(x).insert(k, b),
{
    let y = x.insert(at, (k, b));
    assert(y[at] == (k, b));
    assert(forall|j: int| 0 <= j < at ==> y[j] == #[trigger] x[j]);
    assert(forall|j: int| at <= j < x.len() ==> y[j + 1] == #[trigger] x[j]);
    assert forall|i: int, j: int| 0 <= i < j < y.len() implies K::less(
        (#[trigger] y[i]).0,
        (#[trigger] y[j]).0,
    ) by {
        let xi = if i < at {
            i
        } else {
            i - 1
        };
        let xj = if j < at {
            j
        } else {
            j - 1
        };
        if i != at {
            assert(y[i] == x[xi]);
        }
        if j != at {
            assert(y[j] == x[xj]);
        }
    }
    let m = map_of(x).insert(k, b);
    lemma_map_of_entry::<K, B>(y, at);
    assert forall|q: K::V| #[trigger] map_of(y).dom().contains(q) implies m.dom().contains(q)
        && m[q] == map_of(y)[q] by {
        let i = choose|i: int| 0 <= i < y.len() && (#[trigger] y[i]).0 == q;
        lemma_map_of_entry::<K, B>(y, i);
        K::less_irreflexive(k);
        if i != at {
            let xi = if i < at {
                i
            } else {
                i - 1
            };
            assert(y[i] == x[xi]);
            lemma_map_of_entry::<K, B>(x, xi);
        }
    }
    assert forall|q: K::V| #[trigger] m.dom().contains(q) implies map_of(y).dom().contains(q) by {
        if q != k {
            let i = choose|i: int| 0 <= i < x.len() && (#[trigger] x[i]).0 == q;
            let yi = if i < at {
                i
            } else {
                i + 1
            };
            assert(y[yi] == x[i]);
        }
    }
    assert(map_of(y).dom() =~= m.dom());
    assert(map_of(y) =~= m);
}

/// An ascending row with one value replaced stands for the map with that value replaced.
proof fn lemma_map_of_update<K: OrderedKey, B>(x: Seq<(K::V, B)>, at: int, b: B)
    requires
        ascending::<K, B>(x),
        0 <= at < x.len(),
    ensures
        ascending::<K, B>(x.update(at, (x[at].0, b))),
        map_of(x.update(at, (x[at].0, b))) == map_of(x).insert(x[at].0, b),
{
    let k = x[at].0;
    let y = x.update(at, (k, b));
    let m = map_of(x).insert(k, b);
    assert(forall|j: int| 0 <= j < x.len() ==> (#[trigger] y[j]).0 == x[j].0);
    assert forall|i: int, j: int| 0 <= i < j < y.len() implies K::less(
        (#[trigger] y[i]).0,
        (#[trigger] y[j]).0,
    ) by {
        assert(K::less(x[i].0, x[j].0));
    }
    assert forall|q: K::V| #[trigger] map_of(y).dom().contains(q) implies m.dom().contains(q)
        && m[q] == map_of(y)[q] by {
        let i = choose|i: int| 0 <= i < y.len() && (#[trigger] y[i]).0 == q;
        lemma_map_of_entry::<K, B>(y, i);
        lemma_map_of_entry::<K, B>(x, i);
        K::less_irreflexive(k);
        if i != at {
            assert(q != k);
        }
    }
    assert forall|q: K::V| #[trigger] m.dom().contains(q) implies map_of(y).dom().contains(q) by {
        if q != k {
            let i = choose|i: int| 0 <= i < x.len() && (#[trigger] x[i]).0 == q;
            assert(y[i].0 == q);
        } else {
            assert(y[at].0 == q);
        }
    }
    assert(map_of(y).dom() =~= m.dom());
    assert(map_of(y) =~= m);
}

/// An ascending row without one entry stands for the map without that key.
proof fn lemma_map_of_remove<K: OrderedKey, B>(x: Seq<(K::V, B)>, at: int)
    requires
        ascending::<K, B>(x),
        0 <= at < x.len(),
    ensures
        ascending::<K, B>(x.remove(at)),
        map_of(x.remove(at)) == map_of(x).remove(x[at].0),
{
    let k = x[at].0;
    let y = x.remove(at);
    let m = map_of(x).remove(k);
    assert(forall|j: int| 0 <= j < at ==> #[trigger] y[j] == x[j]);
    assert(forall|j: int| at <= j < y.len() ==> #[trigger] y[j] == x[j + 1]);
    assert forall|i: int, j: int| 0 <= i < j < y.len() implies K::less(
        (#[trigger] y[i]).0,
        (#[trigger] y[j]).0,
    ) by {
        let xi = if i < at {
            i
        } else {
            i + 1
        };
        let xj = if j < at {
            j
        } else {
            j + 1
        };
        assert(y[i] == x[xi] && y[j] == x[xj]);
    }
    assert forall|q: K::V| #[trigger] map_of(y).dom().contains(q) implies m.dom().contains(q)
        && m[q] == map_of(y)[q] by {
        let i = choose|i: int| 0 <= i < y.len() && (#[trigger] y[i]).0 == q;
        let xi = if i < at {
            i
        } else {
            i + 1
        };
        assert(y[i] == x[xi]);
        lemma_map_of_entry::<K, B>(y, i);
        lemma_map_of_entry::<K, B>(x, xi);
        K::less_irreflexive(k);
    }
    assert forall|q: K::V| #[trigger] m.dom().contains(q) implies map_of(y).dom().contains(q) by {
        let i = choose|i: int| 0 <= i < x.len() && (#[trigger] x[i]).0 == q;
        let yi = if i < at {
            i
        } else {
            i - 1
        };
        assert(y[yi] == x[i]);
    }
    assert(map_of(y).dom() =~= m.dom());
    assert(map_of(y) =~= m);
}

impl<K: OrderedKey, V: DeepView> OrderedMap<K, V> {
    /// The position of `key`, or the position at which it would have to stand.
    fn find(&self, key: &K) -> (r: Result<usize, usize>)
        ensures
            self.keys@.len() == self.values@.len(),
            ascending::<K, V::V>(self.entries()),
            match r {
                Ok(i) => {
                    &&& i < self.keys@.len()
                    &&& self.keys@[i as int].deep_view() == key.deep_view()
                },
                Err(i) => {
                    &&& i <= self.keys@.len()
                    &&& forall|j: int|
                        0 <= j < i ==> K::less(
                            (#[trigger] self.entries()[j]).0,
                            key.deep_view(),
                        )
                    &&& forall|j: int|
                        i <= j < self.keys@.len() ==> K::less(
                            key.deep_view(),
                            (#[trigger] self.entries()[j]).0,
                        )
                },
            },
    {
        proof {
            use_type_invariant(self);
        }
        let mut low: usize = 0;
        let mut high: usize = self.keys.len();
        while low < high
            invariant
                low <= high <= self.keys@.len(),
                ascending::<K, V::V>(self.entries()),
                self.keys@.len() == self.values@.len(),
                forall|j: int|
                    0 <= j < low ==> K::less((#[trigger] self.entries()[j]).0, key.deep_view()),
                forall|j: int|
                    high <= j < self.keys@.len() ==> K::less(
                        key.deep_view(),
                        (#[trigger] self.entries()[j]).0,
                    ),
            decreases high - low,
        {
            let middle: usize = low + (high - low) / 2;
            let ghost here = self.entries()[middle as int].0;
            if self.keys[middle].before(key) {
                proof {
                    assert forall|j: int| 0 <= j < middle + 1 implies K::less(
                        (#[trigger] self.entries()[j]).0,
                        key.deep_view(),
                    ) by {
                        if j < middle {
                            K::less_transitive(self.entries()[j].0, here, key.deep_view());
                        }
                    }
                }
                low = middle + 1;
            } else if key.before(&self.keys[middle]) {
                proof {
                    assert forall|j: int| middle <= j < self.keys@.len() implies K::less(
                        key.deep_view(),
                        (#[trigger] self.entries()[j]).0,
                    ) by {
                        if middle < j {
                            K::less_transitive(key.deep_view(), here, self.entries()[j].0);
                        }
                    }
                }
                high = middle;
            } else {
                proof {
                    K::less_total(key.deep_view(), here);
                }
                return Ok(middle);
            }
        }
        Err(low)
    }

    /// A key that `find` does not meet is not in the map.
    proof fn lemma_absent(entries: Seq<(K::V, V::V)>, at: int, k: K::V)
        requires
            0 <= at <= entries.len(),
            forall|j: int| 0 <= j < at ==> K::less((#[trigger] entries[j]).0, k),
            forall|j: int| at <= j < entries.len() ==> K::less(k, (#[trigger] entries[j]).0),
        ensures
            !map_of(entries).dom().contains(k),
    {
        K::less_irreflexive(k);
    }

    /// The value under `key`.
    pub fn get(&self, key: &K) -> (r: Option<&V>)
        ensures
            match r {
                Some(v) => {
                    &&& self.deep_view().dom().contains(key.deep_view())
                    &&& v.deep_view() == self.deep_view()[key.deep_view()]
                },
                None => !self.deep_view().dom().contains(key.deep_view()),
            },
    {
        match self.find(key) {
            Ok(i) => {
                proof {
                    lemma_map_of_entry::<K, V::V>(self.entries(), i as int);
                }
                Some(&self.values[i])
            },
            Err(i) => {
                proof {
                    Self::lemma_absent(self.entries(), i as int, key.deep_view());
                }
                None
            },
        }
    }

    /// Whether there is a value under `key`.
    pub fn contains_key(&self, key: &K) -> (r: bool)
        ensures
            r == self.deep_view().dom().contains(key.deep_view()),
    {
        self.get(key).is_some()
    }

    /// Puts `value` under `key`, in place of what stood there.
    pub fn insert(&mut self, key: K, value: V)
        ensures
            final(self).deep_view() == old(self).deep_view().insert(
                key.deep_view(),
                value.deep_view(),
            ),
    {
        let ghost before = self.entries();
        let place = self.find(&key);
        let mut taken = OrderedMap::new();
        core::mem::swap(&mut taken, self);
        let OrderedMap { mut keys, mut values } = taken;
        match place {
            Ok(i) => {
                proof {
                    lemma_map_of_update::<K, V::V>(before, i as int, value.deep_view());
                }
                values.set(i, value);
                assert(entries_of(keys@, values@) =~= before.update(
                    i as int,
                    (before[i as int].0, value.deep_view()),
                ));
                *self = OrderedMap { keys, values };
            },
            Err(i) => {
                proof {
                    lemma_map_of_insert::<K, V::V>(
                        before,
                        i as int,
                        key.deep_view(),
                        value.deep_view(),
                    );
                }
                keys.insert(i, key);
                values.insert(i, value);
                assert(entries_of(keys@, values@) =~= before.insert(
                    i as int,
                    (key.deep_view(), value.deep_view()),
                ));
                *self = OrderedMap { keys, values };
            },
        }
    }

    /// Takes the value under `key` out of the map.
    pub fn remove(&mut self, key: &K) -> (r: Option<V>)
        ensures
            final(self).deep_view() == old(self).deep_view().remove(key.deep_view()),
            match r {
                Some(v) => {
                    &&& old(self).deep_view().dom().contains(key.deep_view())
                    &&& v.deep_view() == old(self).deep_view()[key.deep_view()]
                },
                None => !old(self).deep_view().dom().contains(key.deep_view()),
            },
    {
        let ghost before = self.entries();
        match self.find(key) {
            Ok(i) => {
                let mut taken = OrderedMap::new();
                core::mem::swap(&mut taken, self);
                let OrderedMap { mut keys, mut values } = taken;
                proof {
                    lemma_map_of_remove::<K, V::V>(before, i as int);
                    lemma_map_of_entry::<K, V::V>(before, i as int);
                }
                keys.remove(i);
                let value = values.remove(i);
                assert(entries_of(keys@, values@) =~= before.remove(i as int));
                *self = OrderedMap { keys, values };
                Some(value)
            },
            Err(i) => {
                proof {
                    Self::lemma_absent(self.entries(), i as int, key.deep_view());
                    assert(self.deep_view().remove(key.deep_view()) =~= self.deep_view());
                }
                None
            },
        }
    }

    /// The value at position `i` of the ascending order.
    pub fn value_at(&self, i: usize) -> (r: &V)
        requires
            i < self.entries().len(),
        ensures
            r.deep_view() == self.entries()[i as int].1,
    {
        proof {
            use_type_invariant(self);
        }
        &self.values[i]
    }

    /// The key at position `i` of the ascending order.
    pub fn key_at(&self, i: usize) -> (r: &K)
        requires
            i < self.entries().len(),
        ensures
            r.deep_view() == self.entries()[i as int].0,
    {
        proof {
            use_type_invariant(self);
        }
        &self.keys[i]
    }

    /// The keys and the values, in ascending order.
    pub fn into_parts(self) -> (r: (Vec<K>, Vec<V>))
        ensures
            r.0@.len() == self.entries().len(),
            r.1@.len() == self.entries().len(),
            forall|i: int|
                0 <= i < self.entries().len() ==> #[trigger] self.entries()[i] == (
                    r.0@[i].deep_view(),
                    r.1@[i].deep_view(),
                ),
            ascending::<K, V::V>(self.entries()),
    {
        proof {
            use_type_invariant(&self);
        }
        let OrderedMap { keys, values } = self;
        (keys, values)
    }
}

impl<K: OrderedKey + Duplicate, V: Duplicate> Duplicate for OrderedMap<K, V> {
    fn duplicate(&self) -> (r: Self) {
        proof {
            use_type_invariant(self);
        }
        let keys = self.keys.duplicate();
        let values = self.values.duplicate();
        proof {
            assert(keys@.len() == keys.deep_view().len());
            assert(values@.len() == values.deep_view().len());
            assert(self.keys@.len() == self.keys.deep_view().len());
            assert(self.values@.len() == self.values.deep_view().len());
            assert forall|i: int| 0 <= i < keys@.len() implies (#[trigger] keys@[i]).deep_view()
                == self.keys@[i].deep_view() && values@[i].deep_view()
                == self.values@[i].deep_view() by {
                assert(keys.deep_view()[i] == self.keys.deep_view()[i]);
                assert(values.deep_view()[i] == self.values.deep_view()[i]);
            }
            assert(entries_of(keys@, values@) =~= self.entries());
        }
        OrderedMap { keys, values }
    }
}

/// A row from position `i - 1` on stands for the map of the row from `i` on with one entry more.
pub proof fn lemma_map_of_skip<K: OrderedKey, B>(entries: Seq<(K::V, B)>, i: int)
    requires
        ascending::<K, B>(entries),
        0 < i <= entries.len(),
    ensures
        !map_of(entries.skip(i)).dom().contains(entries[i - 1].0),
        map_of(entries.skip(i - 1)) == map_of(entries.skip(i)).insert(
            entries[i - 1].0,
            entries[i - 1].1,
        ),
{
    let rest = entries.skip(i);
    let (k, b) = entries[i - 1];
    assert(forall|j: int| 0 <= j < rest.len() ==> #[trigger] rest[j] == entries[i + j]);
    assert(ascending::<K, B>(rest));
    lemma_map_of_insert::<K, B>(rest, 0, k, b);
    assert(rest.insert(0, (k, b)) =~= entries.skip(i - 1));
    K::less_irreflexive(k);
}

/// Where a key that is not there belongs in an ascending row.
proof fn lemma_place<K: OrderedKey, B>(x: Seq<(K::V, B)>, k: K::V) -> (at: int)
    requires
        ascending::<K, B>(x),
        forall|j: int| 0 <= j < x.len() ==> (#[trigger] x[j]).0 != k,
    ensures
        0 <= at <= x.len(),
        forall|j: int| 0 <= j < at ==> K::less((#[trigger] x[j]).0, k),
        forall|j: int| at <= j < x.len() ==> K::less(k, (#[trigger] x[j]).0),
    decreases x.len(),
{
    if x.len() == 0 {
        0
    } else {
        let d = x.drop_last();
        let n = x.len() - 1;
        assert(forall|j: int| 0 <= j < n ==> #[trigger] d[j] == x[j]);
        K::less_total(x[n].0, k);
        let at = lemma_place::<K, B>(d, k);
        if K::less(x[n].0, k) {
            assert forall|j: int| 0 <= j < n implies K::less((#[trigger] x[j]).0, k) by {
                K::less_transitive(x[j].0, x[n].0, k);
            }
            n + 1
        } else {
            assert forall|j: int| 0 <= j < at implies K::less((#[trigger] x[j]).0, k) by {
                assert(d[j] == x[j]);
            }
            assert forall|j: int| at <= j < x.len() implies K::less(k, (#[trigger] x[j]).0) by {
                if j < n {
                    assert(d[j] == x[j]);
                }
            }
            at
        }
    }
}

/// A finite map can be listed.
pub proof fn lemma_listing<K: OrderedKey, B>(m: Map<K::V, B>)
    requires
        m.dom().finite(),
    ensures
        lists::<K, B>(listing::<K, B>(m), m),
    decreases m.dom().len(),
{
    if m.dom().len() == 0 {
        let none: Seq<(K::V, B)> = seq![];
        assert(map_of(none) =~= m);
        assert(lists::<K, B>(none, m));
    } else {
        let k = m.dom().choose();
        let smaller = m.remove(k);
        lemma_listing::<K, B>(smaller);
        let x = listing::<K, B>(smaller);
        assert forall|j: int| 0 <= j < x.len() implies (#[trigger] x[j]).0 != k by {
            lemma_map_of_entry::<K, B>(x, j);
        }
        let at = lemma_place::<K, B>(x, k);
        lemma_map_of_insert::<K, B>(x, at, k, m[k]);
        assert(smaller.insert(k, m[k]) =~= m);
        assert(lists::<K, B>(x.insert(at, (k, m[k])), m));
    }
}

/// Two maps in one; where both hold a key, the value of `first` stands.
pub open spec fn either_map<A, B>(first: Map<A, B>, second: Map<A, B>) -> Map<A, B> {
    second.union_prefer_right(first)
}

impl<K: OrderedKey, V: DeepView> OrderedMap<K, V> {
    /// Adds the entries of `other` whose keys are not there.
    pub fn add_missing(&mut self, other: OrderedMap<K, V>)
        ensures
            final(self).deep_view() == either_map(old(self).deep_view(), other.deep_view()),
    {
        let ghost start = self.deep_view();
        let ghost entries = other.entries();
        let (mut keys, mut values) = other.into_parts();
        let ghost all_keys = keys@;
        let ghost all_values = values@;
        proof {
            assert(map_of(entries.skip(entries.len() as int)) =~= Map::empty());
            assert(either_map(start, map_of(entries.skip(entries.len() as int))) =~= start);
            assert(all_keys.take(entries.len() as int) =~= all_keys);
            assert(all_values.take(entries.len() as int) =~= all_values);
        }
        while keys.len() > 0
            invariant
                keys@.len() <= entries.len(),
                all_keys.len() == entries.len(),
                all_values.len() == entries.len(),
                keys@ == all_keys.take(keys@.len() as int),
                values@ == all_values.take(keys@.len() as int),
                ascending::<K, V::V>(entries),
                forall|i: int|
                    0 <= i < entries.len() ==> #[trigger] entries[i] == (
                        all_keys[i].deep_view(),
                        all_values[i].deep_view(),
                    ),
                self.deep_view() == either_map(start, map_of(entries.skip(keys@.len() as int))),
            decreases keys@.len(),
        {
            let ghost n = keys@.len() as int;
            let key = keys.pop().unwrap();
            let value = values.pop().unwrap();
            proof {
                assert(key == all_keys[n - 1]);
                assert(value == all_values[n - 1]);
                assert(keys@ =~= all_keys.take(n - 1));
                assert(values@ =~= all_values.take(n - 1));
                lemma_map_of_skip::<K, V::V>(entries, n);
                assert(entries[n - 1] == (key.deep_view(), value.deep_view()));
            }
            if !self.contains_key(&key) {
                self.insert(key, value);
            }
            proof {
                assert(self.deep_view() =~= either_map(start, map_of(entries.skip(n - 1))));
            }
        }
        assert(entries.skip(0) =~= entries);
    }
}

} // verus!
