//! A map from texts to values that keeps its keys in ascending order.

use vstd::prelude::*;

use crate::cut::{begins_with, has_prefix};
use crate::order::{precedes, precedes_is_irreflexive, precedes_is_transitive, rank, Rank};

verus! {

/// The keys of a list of entries.
pub open spec fn keys_of<V>(entries: Seq<(Seq<char>, V)>) -> Seq<Seq<char>> {
    Seq::new(entries.len(), |i: int| entries[i].0)
}

/// Every key comes before the keys behind it, so none occurs twice.
pub open spec fn ascending<V>(entries: Seq<(Seq<char>, V)>) -> bool {
    forall|i: int, j: int|
        0 <= i < j < entries.len() ==> precedes(#[trigger] entries[i].0, #[trigger] entries[j].0)
}

/// The map that a list of entries stands for.
pub open spec fn map_of<V>(entries: Seq<(Seq<char>, V)>) -> Map<Seq<char>, V> {
    Map::new(
        |k: Seq<char>| keys_of(entries).contains(k),
        |k: Seq<char>| entries[keys_of(entries).index_of(k)].1,
    )
}

/// A map from texts to values whose keys are kept in ascending order.
pub struct TextMap<V> {
    entries: Vec<(String, V)>,
}

/// In an ascending list each entry is what the map holds under its key.
pub proof fn entry_is_in_map<V>(entries: Seq<(Seq<char>, V)>, i: int)
    requires
        ascending(entries),
        0 <= i < entries.len(),
    ensures
        map_of(entries).contains_key(entries[i].0),
        map_of(entries)[entries[i].0] == entries[i].1,
{
    let keys = keys_of(entries);
    let k = entries[i].0;
    assert(keys[i] == k);
    assert(keys.contains(k));
    let j = keys.index_of(k);
    assert(0 <= j < keys.len() && keys[j] == k);
    precedes_is_irreflexive(k);
    if i < j {
        assert(precedes(entries[i].0, entries[j].0));
    } else if j < i {
        assert(precedes(entries[j].0, entries[i].0));
    }
}

/// Every key of the map is the key of an entry.
pub proof fn key_has_entry<V>(entries: Seq<(Seq<char>, V)>, k: Seq<char>) -> (i: int)
    requires
        ascending(entries),
        map_of(entries).contains_key(k),
    ensures
        0 <= i < entries.len(),
        entries[i].0 == k,
        map_of(entries)[k] == entries[i].1,
{
    let keys = keys_of(entries);
    let i = keys.index_of(k);
    assert(0 <= i < keys.len() && keys[i] == k);
    i
}

proof fn inserting<V>(entries: Seq<(Seq<char>, V)>, pos: int, k: Seq<char>, v: V)
    requires
        ascending(entries),
        0 <= pos <= entries.len(),
        forall|i: int| 0 <= i < pos ==> precedes(#[trigger] entries[i].0, k),
        forall|i: int| pos <= i < entries.len() ==> precedes(k, #[trigger] entries[i].0),
    ensures
        ascending(entries.insert(pos, (k, v))),
        map_of(entries.insert(pos, (k, v))) == map_of(entries).insert(k, v),
{
    let after = entries.insert(pos, (k, v));
    assert forall|i: int, j: int| 0 <= i < j < after.len() implies precedes(
        #[trigger] after[i].0,
        #[trigger] after[j].0,
    ) by {
        let x = if i < pos {
            i
        } else {
            i - 1
        };
        let y = if j < pos {
            j
        } else {
            j - 1
        };
        if i != pos && j != pos {
            assert(after[i] == entries[x] && after[j] == entries[y]);
        } else if i == pos {
            assert(after[j] == entries[y]);
        } else {
            assert(after[i] == entries[x]);
        }
    }
    let m = map_of(after);
    let n = map_of(entries).insert(k, v);
    assert forall|q: Seq<char>| m.contains_key(q) == n.contains_key(q) by {
        if m.contains_key(q) {
            let i = key_has_entry(after, q);
            if i < pos {
                assert(after[i] == entries[i]);
                entry_is_in_map(entries, i);
            } else if i > pos {
                assert(after[i] == entries[i - 1]);
                entry_is_in_map(entries, i - 1);
            }
        }
        if n.contains_key(q) {
            if q == k {
                assert(after[pos] == (k, v));
                entry_is_in_map(after, pos);
            } else {
                let i = key_has_entry(entries, q);
                if i < pos {
                    assert(after[i] == entries[i]);
                    entry_is_in_map(after, i);
                } else {
                    assert(after[i + 1] == entries[i]);
                    entry_is_in_map(after, i + 1);
                }
            }
        }
    }
    assert forall|q: Seq<char>| m.contains_key(q) implies m[q] == n[q] by {
        if q == k {
            assert(after[pos] == (k, v));
            entry_is_in_map(after, pos);
        } else {
            let i = key_has_entry(entries, q);
            if i < pos {
                assert(after[i] == entries[i]);
                entry_is_in_map(after, i);
            } else {
                assert(after[i + 1] == entries[i]);
                entry_is_in_map(after, i + 1);
            }
        }
    }
    assert(m =~= n);
}

proof fn removing<V>(entries: Seq<(Seq<char>, V)>, pos: int)
    requires
        ascending(entries),
        0 <= pos < entries.len(),
    ensures
        ascending(entries.remove(pos)),
        map_of(entries.remove(pos)) == map_of(entries).remove(entries[pos].0),
{
    let after = entries.remove(pos);
    let k = entries[pos].0;
    assert forall|i: int, j: int| 0 <= i < j < after.len() implies precedes(
        #[trigger] after[i].0,
        #[trigger] after[j].0,
    ) by {
        let x = if i < pos {
            i
        } else {
            i + 1
        };
        let y = if j < pos {
            j
        } else {
            j + 1
        };
        assert(after[i] == entries[x] && after[j] == entries[y]);
    }
    let m = map_of(after);
    let n = map_of(entries).remove(k);
    precedes_is_irreflexive(k);
    assert forall|q: Seq<char>| #[trigger]
        m.contains_key(q) implies n.contains_key(q) && m[q] == n[q] by {
        let i = key_has_entry(after, q);
        let x = if i < pos {
            i
        } else {
            i + 1
        };
        assert(after[i] == entries[x]);
        entry_is_in_map(entries, x);
        if q == k {
            if x < pos {
                assert(precedes(entries[x].0, entries[pos].0));
            } else {
                assert(precedes(entries[pos].0, entries[x].0));
            }
        }
    }
    assert forall|q: Seq<char>| #[trigger] n.contains_key(q) implies m.contains_key(q) by {
        let i = key_has_entry(entries, q);
        if i < pos {
            assert(after[i] == entries[i]);
            entry_is_in_map(after, i);
        } else {
            assert(i != pos);
            assert(after[i - 1] == entries[i]);
            entry_is_in_map(after, i - 1);
        }
    }
    assert(m =~= n);
}

impl<V> TextMap<V> {
    /// The entries, keys ascending.
    pub closed spec fn in_order(&self) -> Seq<(Seq<char>, V)> {
        Seq::new(self.entries@.len(), |i: int| (self.entries@[i].0@, self.entries@[i].1))
    }

    #[verifier::type_invariant]
    spec fn keys_ascend(&self) -> bool {
        ascending(self.in_order())
    }
}

impl<V> View for TextMap<V> {
    type V = Map<Seq<char>, V>;

    open spec fn view(&self) -> Map<Seq<char>, V> {
        map_of(self.in_order())
    }
}

impl<V> TextMap<V> {
    /// The empty map.
    pub fn new() -> (map: Self)
        ensures
            map@ == Map::<Seq<char>, V>::empty(),
            map.in_order() == Seq::<(Seq<char>, V)>::empty(),
    {
        let map = TextMap { entries: Vec::new() };
        assert(map.in_order() == Seq::<(Seq<char>, V)>::empty());
        assert(map@ =~= Map::<Seq<char>, V>::empty());
        map
    }

    /// The number of entries. They stand in ascending order and make up the map.
    pub fn len(&self) -> (n: usize)
        ensures
            n == self.in_order().len(),
            ascending(self.in_order()),
            self@ == map_of(self.in_order()),
    {
        proof {
            use_type_invariant(self);
        }
        self.entries.len()
    }

    /// The key of entry `i`.
    pub fn key_at(&self, i: usize) -> (key: &String)
        requires
            i < self.in_order().len(),
        ensures
            key@ == self.in_order()[i as int].0,
    {
        &self.entries[i].0
    }

    /// The value of entry `i`.
    pub fn value_at(&self, i: usize) -> (value: &V)
        requires
            i < self.in_order().len(),
        ensures
            *value == self.in_order()[i as int].1,
    {
        &self.entries[i].1
    }

    /// Where `key` stands, or where it would have to stand.
    fn locate(&self, key: &str) -> (at: (usize, bool))
        ensures
            at.0 <= self.entries@.len(),
            forall|i: int| 0 <= i < at.0 ==> precedes(#[trigger] self.entries@[i].0@, key@),
            at.1 ==> at.0 < self.entries@.len() && self.entries@[at.0 as int].0@ == key@
                && self@.contains_key(key@) && self@[key@] == self.entries@[at.0 as int].1,
            !at.1 ==> !self@.contains_key(key@) && forall|i: int|
                at.0 <= i < self.entries@.len() ==> precedes(key@, #[trigger] self.entries@[i].0@),
    {
        proof {
            use_type_invariant(self);
        }
        let ghost order = self.in_order();
        let mut i: usize = 0;
        while i < self.entries.len()
            invariant
                i <= self.entries@.len(),
                order == self.in_order(),
                ascending(order),
                forall|j: int| 0 <= j < i ==> precedes(#[trigger] self.entries@[j].0@, key@),
            decreases self.entries@.len() - i,
        {
            match rank(self.entries[i].0.as_str(), key) {
                Rank::Before => {},
                Rank::Same => {
                    proof {
                        assert(order[i as int].0 == key@);
                        entry_is_in_map(order, i as int);
                    }
                    return (i, true);
                },
                Rank::After => {
                    proof {
                        assert forall|j: int| i <= j < self.entries@.len() implies precedes(
                            key@,
                            #[trigger] self.entries@[j].0@,
                        ) by {
                            if i < j {
                                assert(precedes(order[i as int].0, order[j].0));
                                precedes_is_transitive(key@, order[i as int].0, order[j].0);
                            }
                        }
                        if self@.contains_key(key@) {
                            let j = key_has_entry(order, key@);
                            precedes_is_irreflexive(key@);
                            assert(self.entries@[j].0@ == key@);
                        }
                    }
                    return (i, false);
                },
            }
            i = i + 1;
        }
        proof {
            if self@.contains_key(key@) {
                let j = key_has_entry(order, key@);
                precedes_is_irreflexive(key@);
                assert(self.entries@[j].0@ == key@);
            }
        }
        (i, false)
    }

    /// The value under `key`.
    pub fn get(&self, key: &str) -> (value: Option<&V>)
        ensures
            match value {
                Some(v) => self@.contains_key(key@) && *v == self@[key@],
                None => !self@.contains_key(key@),
            },
    {
        let (i, found) = self.locate(key);
        if found {
            Some(&self.entries[i].1)
        } else {
            None
        }
    }

    /// Puts `value` under `key`, in place of what was there.
    pub fn insert(&mut self, key: String, value: V)
        ensures
            final(self)@ == old(self)@.insert(key@, value),
    {
        proof {
            use_type_invariant(&*self);
        }
        let (i, found) = self.locate(key.as_str());
        let ghost before = self.in_order();
        let ghost k = key@;
        let ghost was = self.entries@;
        let mut entries: Vec<(String, V)> = Vec::new();
        std::mem::swap(&mut entries, &mut self.entries);
        proof {
            assert forall|j: int| 0 <= j < i implies precedes(#[trigger] before[j].0, k) by {
                assert(before[j].0 == was[j].0@);
            }
        }
        let ghost mut base = before;
        if found {
            let _ = entries.remove(i);
            proof {
                removing(before, i as int);
                base = before.remove(i as int);
                assert forall|j: int| 0 <= j < i implies precedes(#[trigger] base[j].0, k) by {
                    assert(base[j] == before[j]);
                }
                assert forall|j: int| i <= j < base.len() implies precedes(
                    k,
                    #[trigger] base[j].0,
                ) by {
                    assert(base[j] == before[j + 1]);
                    assert(precedes(before[i as int].0, before[j + 1].0));
                }
            }
        } else {
            proof {
                assert forall|j: int| i <= j < base.len() implies precedes(
                    k,
                    #[trigger] base[j].0,
                ) by {
                    assert(base[j].0 == was[j].0@);
                }
            }
        }
        let ghost mid = entries@;
        assert(Seq::new(mid.len(), |j: int| (mid[j].0@, mid[j].1)) =~= base);
        entries.insert(i, (key, value));
        proof {
            inserting(base, i as int, k, value);
            let now = Seq::new(entries@.len(), |j: int| (entries@[j].0@, entries@[j].1));
            assert(now =~= base.insert(i as int, (k, value))) by {
                assert forall|j: int| 0 <= j < now.len() implies now[j] == base.insert(
                    i as int,
                    (k, value),
                )[j] by {
                    if j < i {
                        assert(entries@[j] == mid[j]);
                    } else if j > i {
                        assert(entries@[j] == mid[j - 1]);
                    }
                }
            }
            assert(map_of(before).remove(k).insert(k, value) =~= map_of(before).insert(k, value));
        }
        self.entries = entries;
    }

    /// Takes `key` and what is under it out of the map.
    pub fn remove(&mut self, key: &str)
        ensures
            final(self)@ == old(self)@.remove(key@),
    {
        proof {
            use_type_invariant(&*self);
        }
        let (i, found) = self.locate(key);
        if found {
            let ghost before = self.in_order();
            let mut entries: Vec<(String, V)> = Vec::new();
            std::mem::swap(&mut entries, &mut self.entries);
            let _ = entries.remove(i);
            proof {
                removing(before, i as int);
                assert(Seq::new(entries@.len(), |j: int| (entries@[j].0@, entries@[j].1))
                    =~= before.remove(i as int));
            }
            self.entries = entries;
        } else {
            assert(self@.remove(key@) =~= self@);
        }
    }

    /// Takes out every entry whose key begins with `prefix`.
    pub fn remove_prefixed(&mut self, prefix: &str)
        ensures
            final(self)@ == old(self)@.remove_keys(
                Set::new(|k: Seq<char>| has_prefix(k, prefix@)),
            ),
    {
        proof {
            use_type_invariant(&*self);
        }
        let ghost before = self.in_order();
        let ghost gone = Set::new(|k: Seq<char>| has_prefix(k, prefix@));
        let mut entries: Vec<(String, V)> = Vec::new();
        std::mem::swap(&mut entries, &mut self.entries);
        let ghost mut now = before;
        let mut i: usize = entries.len();
        assert(Seq::new(entries@.len(), |j: int| (entries@[j].0@, entries@[j].1)) =~= now);
        while i > 0
            invariant
                i <= entries@.len(),
                now == Seq::new(entries@.len(), |j: int| (entries@[j].0@, entries@[j].1)),
                ascending(now),
                forall|j: int|
                    i <= j < now.len() ==> !has_prefix(#[trigger] now[j].0, prefix@),
                forall|k: Seq<char>| #[trigger]
                    map_of(now).contains_key(k) ==> map_of(before).contains_key(k) && map_of(now)[k]
                        == map_of(before)[k],
                forall|k: Seq<char>| #[trigger]
                    map_of(before).contains_key(k) && !has_prefix(k, prefix@) ==> map_of(
                        now,
                    ).contains_key(k),
            decreases i,
        {
            i = i - 1;
            let ghost was = now;
            if begins_with(entries[i].0.as_str(), prefix) {
                let _ = entries.remove(i);
                proof {
                    removing(was, i as int);
                    now = was.remove(i as int);
                    assert(Seq::new(entries@.len(), |j: int| (entries@[j].0@, entries@[j].1))
                        =~= now);
                    assert forall|j: int| i <= j < now.len() implies !has_prefix(
                        #[trigger] now[j].0,
                        prefix@,
                    ) by {
                        assert(now[j] == was[j + 1]);
                    }
                }
            }
        }
        proof {
            let kept = map_of(before).remove_keys(gone);
            assert forall|k: Seq<char>| #[trigger] map_of(now).contains_key(k) implies !has_prefix(
                k,
                prefix@,
            ) by {
                let j = key_has_entry(now, k);
                assert(now[j].0 == k);
            }
            assert(map_of(now) =~= kept);
        }
        self.entries = entries;
    }

    /// The keys, ascending.
    pub fn keys(&self) -> (keys: Vec<String>)
        ensures
            crate::text::texts(keys@) == keys_of(self.in_order()),
    {
        let mut keys: Vec<String> = Vec::new();
        let mut i: usize = 0;
        while i < self.entries.len()
            invariant
                i <= self.entries@.len(),
                keys@.len() == i,
                forall|j: int| 0 <= j < i ==> keys@[j] == #[trigger] self.entries@[j].0,
            decreases self.entries@.len() - i,
        {
            keys.push(self.entries[i].0.clone());
            i = i + 1;
        }
        assert(crate::text::texts(keys@) =~= keys_of(self.in_order()));
        keys
    }
}

} // verus!
