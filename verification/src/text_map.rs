//! A map keyed by text, walked in key order.

use crate::text;
use vstd::prelude::*;

verus! {

/// A map from texts to values. Its model is a `Map` keyed by the characters of the keys.
#[derive(Debug)]
pub struct TextMap<V> {
    entries: Vec<(String, V)>,
}

spec fn ascending<V>(entries: Seq<(String, V)>) -> bool {
    forall|i: int, j: int|
        0 <= i < j < entries.len() ==> text::before(
            (#[trigger] entries[i]).0@,
            (#[trigger] entries[j]).0@,
        )
}

spec fn holds<V>(entries: Seq<(String, V)>, key: Seq<char>) -> bool {
    exists|i: int| 0 <= i < entries.len() && (#[trigger] entries[i]).0@ == key
}

spec fn place<V>(entries: Seq<(String, V)>, key: Seq<char>) -> int {
    choose|i: int| 0 <= i < entries.len() && (#[trigger] entries[i]).0@ == key
}

spec fn as_map<V>(entries: Seq<(String, V)>) -> Map<Seq<char>, V> {
    Map::new(|key: Seq<char>| holds(entries, key), |key: Seq<char>| entries[place(entries, key)].1)
}

spec fn keys_of<V>(entries: Seq<(String, V)>) -> Seq<Seq<char>> {
    entries.map_values(|e: (String, V)| e.0@)
}

proof fn keys_differ<V>(entries: Seq<(String, V)>, i: int, j: int)
    requires
        ascending(entries),
        0 <= i < entries.len(),
        0 <= j < entries.len(),
        entries[i].0@ == entries[j].0@,
    ensures
        i == j,
{
    text::before_is_strict(entries[i].0@, entries[j].0@);
}

proof fn place_is<V>(entries: Seq<(String, V)>, i: int)
    requires
        ascending(entries),
        0 <= i < entries.len(),
    ensures
        holds(entries, entries[i].0@),
        place(entries, entries[i].0@) == i,
        as_map(entries).dom().contains(entries[i].0@),
        as_map(entries)[entries[i].0@] == entries[i].1,
{
    let key = entries[i].0@;
    keys_differ(entries, i, place(entries, key));
}

/// The entries are an index of the map: two entries sequences that hold the same pairs say the same.
proof fn same_map<V>(a: Seq<(String, V)>, m: Map<Seq<char>, V>)
    requires
        ascending(a),
        forall|i: int| 0 <= i < a.len() ==> m.dom().contains((#[trigger] a[i]).0@) && m[a[i].0@] == a[i].1,
        forall|key: Seq<char>| m.dom().contains(key) ==> holds(a, key),
    ensures
        as_map(a) == m,
{
    assert forall|key: Seq<char>| as_map(a).dom().contains(key) implies m.dom().contains(key)
        && as_map(a)[key] == m[key] by {
        let k = place(a, key);
        place_is(a, k);
    }
    assert(as_map(a) =~= m);
}

impl<V> TextMap<V> {
    /// The keys are in order, so none is bound twice.
    pub closed spec fn wf(self) -> bool {
        ascending(self.entries@)
    }

    /// What each key is bound to.
    pub closed spec fn view(&self) -> Map<Seq<char>, V> {
        as_map(self.entries@)
    }

    /// The keys in ascending order.
    pub closed spec fn keys(&self) -> Seq<Seq<char>> {
        keys_of(self.entries@)
    }

    /// The keys come in ascending order, they are those that the map binds, and there are as many.
    pub proof fn keys_are_its_domain(self)
        requires
            self.wf(),
        ensures
            forall|i: int, j: int|
                0 <= i < j < self.keys().len() ==> text::before(
                    #[trigger] self.keys()[i],
                    #[trigger] self.keys()[j],
                ),
            forall|i: int|
                0 <= i < self.keys().len() ==> self@.dom().contains(#[trigger] self.keys()[i]),
            forall|key: Seq<char>| self@.dom().contains(key) ==> self.keys().contains(key),
            self@.dom().finite(),
            self@.dom().len() == self.keys().len(),
    {
        let entries = self.entries@;
        let keys = self.keys();
        assert forall|i: int| 0 <= i < keys.len() implies self@.dom().contains(
            #[trigger] keys[i],
        ) by {
            place_is(entries, i);
        }
        assert forall|key: Seq<char>| self@.dom().contains(key) implies keys.contains(key) by {
            assert(keys[place(entries, key)] == key);
        }
        assert(keys.no_duplicates()) by {
            assert forall|i: int, j: int| 0 <= i < keys.len() && 0 <= j < keys.len() && i != j implies
                keys[i] != keys[j] by {
                if keys[i] == keys[j] {
                    keys_differ(entries, i, j);
                }
            }
        }
        keys.unique_seq_to_set();
        assert(keys.to_set() =~= self@.dom());
    }

    /// The empty map.
    pub fn new() -> (r: Self)
        ensures
            r.wf(),
            r@ == Map::<Seq<char>, V>::empty(),
    {
        let r = TextMap { entries: Vec::new() };
        assert(r@ =~= Map::empty());
        r
    }

    /// How many keys are bound.
    pub fn len(&self) -> (n: usize)
        requires
            self.wf(),
        ensures
            n == self@.dom().len(),
            n == self.keys().len(),
    {
        proof {
            self.keys_are_its_domain();
        }
        self.entries.len()
    }

    /// The `i`-th key and what it is bound to.
    pub fn at(&self, i: usize) -> (r: (&String, &V))
        requires
            self.wf(),
            i < self.keys().len(),
        ensures
            r.0@ == self.keys()[i as int],
            self@.dom().contains(r.0@),
            *r.1 == self@[r.0@],
    {
        proof {
            place_is(self.entries@, i as int);
        }
        let e = &self.entries[i];
        (&e.0, &e.1)
    }

    /// Where `key` is, or where it would have to go.
    fn find(&self, key: &str) -> (r: (usize, bool))
        requires
            self.wf(),
        ensures
            r.0 <= self.entries@.len(),
            forall|i: int| 0 <= i < r.0 ==> text::before((#[trigger] self.entries@[i]).0@, key@),
            r.1 ==> r.0 < self.entries@.len() && self.entries@[r.0 as int].0@ == key@,
            !r.1 ==> forall|i: int|
                r.0 <= i < self.entries@.len() ==> text::before(key@, (#[trigger] self.entries@[i]).0@),
            r.1 == self@.dom().contains(key@),
    {
        let mut i: usize = 0;
        while i < self.entries.len() && text::precedes(self.entries[i].0.as_str(), key)
            invariant
                i <= self.entries@.len(),
                forall|k: int| 0 <= k < i ==> text::before((#[trigger] self.entries@[k]).0@, key@),
            decreases self.entries@.len() - i,
        {
            i += 1;
        }
        let found: bool = i < self.entries.len() && text::same(self.entries[i].0.as_str(), key);
        proof {
            if found {
                place_is(self.entries@, i as int);
            } else {
                if i < self.entries@.len() {
                    text::before_is_total(self.entries@[i as int].0@, key@);
                }
                assert forall|k: int| i <= k < self.entries@.len() implies text::before(
                    key@,
                    (#[trigger] self.entries@[k]).0@,
                ) by {
                    if k > i {
                        text::before_is_transitive(
                            key@,
                            self.entries@[i as int].0@,
                            self.entries@[k].0@,
                        );
                    }
                }
                if holds(self.entries@, key@) {
                    let k = place(self.entries@, key@);
                    text::before_is_strict(key@, self.entries@[k].0@);
                }
            }
        }
        (i, found)
    }

    /// Whether `key` is bound.
    pub fn contains_key(&self, key: &str) -> (r: bool)
        requires
            self.wf(),
        ensures
            r == self@.dom().contains(key@),
    {
        self.find(key).1
    }

    /// What `key` is bound to.
    pub fn get(&self, key: &str) -> (r: Option<&V>)
        requires
            self.wf(),
        ensures
            r == (if self@.dom().contains(key@) {
                Some(&self@[key@])
            } else {
                None
            }),
    {
        let (i, found) = self.find(key);
        if found {
            proof {
                place_is(self.entries@, i as int);
            }
            Some(&self.entries[i].1)
        } else {
            None
        }
    }

    /// Binds `key` to `value`, instead of what it was bound to before.
    pub fn insert(&mut self, key: String, value: V)
        requires
            old(self).wf(),
        ensures
            final(self).wf(),
            final(self)@ == old(self)@.insert(key@, value),
    {
        let ghost before = self.entries@;
        let (i, found) = self.find(key.as_str());
        let ghost k = key@;
        if found {
            self.entries[i] = (key, value);
            assert(ascending(self.entries@)) by {
                assert forall|a: int, b: int| 0 <= a < b < self.entries@.len() implies text::before(
                    (#[trigger] self.entries@[a]).0@,
                    (#[trigger] self.entries@[b]).0@,
                ) by {
                    assert(self.entries@[a].0@ == before[a].0@);
                    assert(self.entries@[b].0@ == before[b].0@);
                }
            }
        } else {
            self.entries.insert(i, (key, value));
            assert(ascending(self.entries@)) by {
                assert forall|a: int, b: int| 0 <= a < b < self.entries@.len() implies text::before(
                    (#[trigger] self.entries@[a]).0@,
                    (#[trigger] self.entries@[b]).0@,
                ) by {
                    if a < i {
                        assert(self.entries@[a] == before[a]);
                    } else if a > i {
                        assert(self.entries@[a] == before[a - 1]);
                    }
                    if b < i {
                        assert(self.entries@[b] == before[b]);
                    } else if b > i {
                        assert(self.entries@[b] == before[b - 1]);
                    }
                }
            }
        }
        proof {
            let m = as_map(before).insert(k, value);
            let now = self.entries@;
            assert forall|a: int| 0 <= a < now.len() implies m.dom().contains((#[trigger] now[a]).0@)
                && m[now[a].0@] == now[a].1 by {
                if a != i {
                    let b = if a < i || found {
                        a
                    } else {
                        a - 1
                    };
                    assert(now[a] == before[b]);
                    place_is(before, b);
                    keys_differ_from(now, a, i as int);
                }
            }
            assert forall|key: Seq<char>| m.dom().contains(key) implies holds(now, key) by {
                if key == k {
                    assert(now[i as int].0@ == key);
                } else {
                    let b = place(before, key);
                    let a = if b < i || found {
                        b
                    } else {
                        b + 1
                    };
                    assert(now[a].0@ == key);
                }
            }
            same_map(now, m);
        }
    }

    /// What `key` is bound to. What is written to it is written to the map, and nothing else of the map
    /// changes.
    pub fn get_mut(&mut self, key: &str) -> (r: Option<&mut V>)
        requires
            old(self).wf(),
        ensures
            final(self).wf(),
            match r {
                Some(v) => old(self)@.dom().contains(key@) && *v == old(self)@[key@] && final(self)@
                    == old(self)@.insert(key@, *final(v)),
                None => !old(self)@.dom().contains(key@) && *final(self) == *old(self),
            },
    {
        let ghost before = self.entries@;
        let (i, found) = self.find(key);
        if !found {
            return None;
        }
        proof {
            place_is(before, i as int);
            assert forall|v: V| #[trigger]
                rebound(before, i as int, v) implies ascending(
                before.update(i as int, (before[i as int].0, v)),
            ) && as_map(before.update(i as int, (before[i as int].0, v))) == as_map(before).insert(
                key@,
                v,
            ) by {
                rebinding(before, i as int, v);
            }
        }
        let r = &mut self.entries[i].1;
        assert(rebound(before, i as int, *final(r)));
        Some(r)
    }

    /// Unbinds `key` and gives what it was bound to.
    pub fn remove(&mut self, key: &str) -> (r: Option<V>)
        requires
            old(self).wf(),
        ensures
            final(self).wf(),
            final(self)@ == old(self)@.remove(key@),
            r == (if old(self)@.dom().contains(key@) {
                Some(old(self)@[key@])
            } else {
                None
            }),
    {
        let ghost before = self.entries@;
        let (i, found) = self.find(key);
        if !found {
            assert(self@ =~= old(self)@.remove(key@));
            return None;
        }
        proof {
            place_is(before, i as int);
        }
        let (_, value) = self.entries.remove(i);
        proof {
            let m = as_map(before).remove(key@);
            let now = self.entries@;
            assert forall|a: int, b: int| 0 <= a < b < now.len() implies text::before(
                (#[trigger] now[a]).0@,
                (#[trigger] now[b]).0@,
            ) by {
                let x = if a < i {
                    a
                } else {
                    a + 1
                };
                let y = if b < i {
                    b
                } else {
                    b + 1
                };
                assert(now[a] == before[x]);
                assert(now[b] == before[y]);
            }
            assert forall|a: int| 0 <= a < now.len() implies m.dom().contains((#[trigger] now[a]).0@)
                && m[now[a].0@] == now[a].1 by {
                let b = if a < i {
                    a
                } else {
                    a + 1
                };
                assert(now[a] == before[b]);
                place_is(before, b);
                if before[b].0@ == key@ {
                    keys_differ(before, b, i as int);
                }
            }
            assert forall|k: Seq<char>| m.dom().contains(k) implies holds(now, k) by {
                let b = place(before, k);
                let a = if b < i {
                    b
                } else {
                    b - 1
                };
                assert(now[a] == before[b]);
            }
            same_map(now, m);
        }
        Some(value)
    }
}

spec fn rebound<V>(entries: Seq<(String, V)>, i: int, v: V) -> bool {
    true
}

proof fn rebinding<V>(before: Seq<(String, V)>, i: int, v: V)
    requires
        ascending(before),
        0 <= i < before.len(),
    ensures
        ascending(before.update(i, (before[i].0, v))),
        as_map(before.update(i, (before[i].0, v))) == as_map(before).insert(before[i].0@, v),
{
    let now = before.update(i, (before[i].0, v));
    let m = as_map(before).insert(before[i].0@, v);
    assert forall|a: int, b: int| 0 <= a < b < now.len() implies text::before(
        (#[trigger] now[a]).0@,
        (#[trigger] now[b]).0@,
    ) by {
        assert(now[a].0@ == before[a].0@);
        assert(now[b].0@ == before[b].0@);
    }
    assert forall|a: int| 0 <= a < now.len() implies m.dom().contains((#[trigger] now[a]).0@) && m[now[a].0@]
        == now[a].1 by {
        if a != i {
            place_is(before, a);
            keys_differ_from(now, a, i);
        }
    }
    assert forall|key: Seq<char>| m.dom().contains(key) implies holds(now, key) by {
        if key == before[i].0@ {
            assert(now[i].0@ == key);
        } else {
            assert(now[place(before, key)].0@ == key);
        }
    }
    same_map(now, m);
}

proof fn keys_differ_from<V>(entries: Seq<(String, V)>, i: int, j: int)
    requires
        ascending(entries),
        0 <= i < entries.len(),
        0 <= j < entries.len(),
        i != j,
    ensures
        entries[i].0@ != entries[j].0@,
{
    if entries[i].0@ == entries[j].0@ {
        keys_differ(entries, i, j);
    }
}

} // verus!
