//! A map keyed by small plain values.

use vstd::prelude::*;

verus! {

/// A value that two keys can be told apart by.
pub trait Key: Copy {
    /// Whether two keys are the same.
    fn same(&self, other: &Self) -> (r: bool)
        ensures
            r == (*self == *other),
    ;
}

/// A map from keys to values, walked in the order in which its keys were first bound.
#[derive(Debug)]
pub struct KeyMap<K, V> {
    entries: Vec<(K, V)>,
}

spec fn unique<K, V>(entries: Seq<(K, V)>) -> bool {
    forall|i: int, j: int|
        0 <= i < j < entries.len() ==> (#[trigger] entries[i]).0 != (#[trigger] entries[j]).0
}

spec fn holds<K, V>(entries: Seq<(K, V)>, key: K) -> bool {
    exists|i: int| 0 <= i < entries.len() && (#[trigger] entries[i]).0 == key
}

spec fn place<K, V>(entries: Seq<(K, V)>, key: K) -> int {
    choose|i: int| 0 <= i < entries.len() && (#[trigger] entries[i]).0 == key
}

spec fn as_map<K, V>(entries: Seq<(K, V)>) -> Map<K, V> {
    Map::new(|key: K| holds(entries, key), |key: K| entries[place(entries, key)].1)
}

proof fn place_is<K, V>(entries: Seq<(K, V)>, i: int)
    requires
        unique(entries),
        0 <= i < entries.len(),
    ensures
        holds(entries, entries[i].0),
        place(entries, entries[i].0) == i,
        as_map(entries).dom().contains(entries[i].0),
        as_map(entries)[entries[i].0] == entries[i].1,
{
}

proof fn same_map<K, V>(a: Seq<(K, V)>, m: Map<K, V>)
    requires
        unique(a),
        forall|i: int| 0 <= i < a.len() ==> m.dom().contains((#[trigger] a[i]).0) && m[a[i].0] == a[i].1,
        forall|key: K| m.dom().contains(key) ==> holds(a, key),
    ensures
        as_map(a) == m,
{
    assert forall|key: K| as_map(a).dom().contains(key) implies m.dom().contains(key) && as_map(
        a,
    )[key] == m[key] by {
        place_is(a, place(a, key));
    }
    assert(as_map(a) =~= m);
}

impl<K, V> KeyMap<K, V> {
    /// No key is bound twice.
    pub closed spec fn wf(self) -> bool {
        unique(self.entries@)
    }

    /// What each key is bound to.
    pub closed spec fn view(&self) -> Map<K, V> {
        as_map(self.entries@)
    }

    /// The keys, in the order in which they were first bound.
    pub closed spec fn keys(&self) -> Seq<K> {
        self.entries@.map_values(|e: (K, V)| e.0)
    }

    /// The keys are those that the map binds, none twice, and there are as many.
    pub proof fn keys_are_its_domain(self)
        requires
            self.wf(),
        ensures
            self.keys().no_duplicates(),
            forall|i: int|
                0 <= i < self.keys().len() ==> self@.dom().contains(#[trigger] self.keys()[i]),
            forall|key: K| self@.dom().contains(key) ==> self.keys().contains(key),
            self@.dom().finite(),
            self@.dom().len() == self.keys().len(),
    {
        let entries = self.entries@;
        let keys = self.keys();
        assert forall|i: int| 0 <= i < keys.len() implies self@.dom().contains(
            #[trigger] keys[i],
        ) by {
            place_is(entries, i);
        }
        assert forall|key: K| self@.dom().contains(key) implies keys.contains(key) by {
            assert(keys[place(entries, key)] == key);
        }
        assert(keys.no_duplicates());
        keys.unique_seq_to_set();
        assert(keys.to_set() =~= self@.dom());
    }

    /// The empty map.
    pub fn new() -> (r: Self)
        ensures
            r.wf(),
            r@ == Map::<K, V>::empty(),
    {
        let r = KeyMap { entries: Vec::new() };
        assert(r@ =~= Map::empty());
        r
    }

    /// How many keys are bound.
    pub fn len(&self) -> (n: usize)
        requires
            self.wf(),
        ensures
            n == self@.dom().len(),
            n == self.keys().len(),
    {
        proof {
            self.keys_are_its_domain();
        }
        self.entries.len()
    }

    /// The `i`-th key and what it is bound to.
    pub fn at(&self, i: usize) -> (r: (&K, &V))
        requires
            self.wf(),
            i < self.keys().len(),
        ensures
            *r.0 == self.keys()[i as int],
            self@.dom().contains(*r.0),
            *r.1 == self@[*r.0],
    {
        proof {
            place_is(self.entries@, i as int);
        }
        let e = &self.entries[i];
        (&e.0, &e.1)
    }
}

impl<K: Key, V> KeyMap<K, V> {
    fn find(&self, key: K) -> (r: Option<usize>)
        requires
            self.wf(),
        ensures
            match r {
                Some(i) => i < self.entries@.len() && self.entries@[i as int].0 == key
                    && self@.dom().contains(key) && self@[key] == self.entries@[i as int].1,
                None => !self@.dom().contains(key) && !holds(self.entries@, key),
            },
    {
        let mut i: usize = 0;
        while i < self.entries.len()
            invariant
                self.wf(),
                i <= self.entries@.len(),
                forall|k: int| 0 <= k < i ==> (#[trigger] self.entries@[k]).0 != key,
            decreases self.entries@.len() - i,
        {
            if self.entries[i].0.same(&key) {
                proof {
                    place_is(self.entries@, i as int);
                }
                return Some(i);
            }
            i += 1;
        }
        None
    }

    /// Whether `key` is bound.
    pub fn contains_key(&self, key: K) -> (r: bool)
        requires
            self.wf(),
        ensures
            r == self@.dom().contains(key),
    {
        self.find(key).is_some()
    }

    /// What `key` is bound to.
    pub fn get(&self, key: K) -> (r: Option<&V>)
        requires
            self.wf(),
        ensures
            r == (if self@.dom().contains(key) {
                Some(&self@[key])
            } else {
                None
            }),
    {
        match self.find(key) {
            Some(i) => Some(&self.entries[i].1),
            None => None,
        }
    }

    /// Binds `key` to `value`, instead of what it was bound to before.
    pub fn insert(&mut self, key: K, value: V)
        requires
            old(self).wf(),
        ensures
            final(self).wf(),
            final(self)@ == old(self)@.insert(key, value),
    {
        let ghost before = self.entries@;
        let ghost m = as_map(before).insert(key, value);
        match self.find(key) {
            Some(i) => {
                self.entries[i] = (key, value);
                proof {
                    let now = self.entries@;
                    assert forall|a: int| 0 <= a < now.len() implies m.dom().contains(
                        (#[trigger] now[a]).0,
                    ) && m[now[a].0] == now[a].1 by {
                        if a != i {
                            place_is(before, a);
                        }
                    }
                    assert forall|k: K| m.dom().contains(k) implies holds(now, k) by {
                        if k == key {
                            assert(now[i as int].0 == k);
                        } else {
                            assert(now[place(before, k)].0 == k);
                        }
                    }
                    same_map(now, m);
                }
            },
            None => {
                self.entries.push((key, value));
                proof {
                    let now = self.entries@;
                    assert forall|a: int| 0 <= a < now.len() implies m.dom().contains(
                        (#[trigger] now[a]).0,
                    ) && m[now[a].0] == now[a].1 by {
                        if a < before.len() {
                            place_is(before, a);
                        }
                    }
                    assert forall|k: K| m.dom().contains(k) implies holds(now, k) by {
                        if k == key {
                            assert(now[before.len() as int].0 == k);
                        } else {
                            assert(now[place(before, k)].0 == k);
                        }
                    }
                    same_map(now, m);
                }
            },
        }
    }

    /// Unbinds `key` and gives what it was bound to.
    pub fn remove(&mut self, key: K) -> (r: Option<V>)
        requires
            old(self).wf(),
        ensures
            final(self).wf(),
            final(self)@ == old(self)@.remove(key),
            r == (if old(self)@.dom().contains(key) {
                Some(old(self)@[key])
            } else {
                None
            }),
    {
        let ghost before = self.entries@;
        match self.find(key) {
            None => {
                assert(self@ =~= old(self)@.remove(key));
                None
            },
            Some(i) => {
                let (_, value) = self.entries.remove(i);
                proof {
                    let m = as_map(before).remove(key);
                    let now = self.entries@;
                    assert forall|a: int| 0 <= a < now.len() implies m.dom().contains(
                        (#[trigger] now[a]).0,
                    ) && m[now[a].0] == now[a].1 by {
                        let b = if a < i {
                            a
                        } else {
                            a + 1
                        };
                        assert(now[a] == before[b]);
                        place_is(before, b);
                    }
                    assert forall|k: K| m.dom().contains(k) implies holds(now, k) by {
                        let b = place(before, k);
                        let a = if b < i {
                            b
                        } else {
                            b - 1
                        };
                        assert(now[a] == before[b]);
                    }
                    same_map(now, m);
                }
                Some(value)
            },
        }
    }
}

} // verus!
