//! A table from string keys to values, kept as a list of entries in which no
//! key occurs twice.

use vstd::prelude::*;

verus! {

/// Whether key `k` occurs in `entries`.
pub open spec fn has_key<V>(entries: Seq<(String, V)>, k: Seq<char>) -> bool {
    exists|i: int| 0 <= i < entries.len() && #[trigger] entries[i].0@ == k
}

/// Where key `k` occurs in `entries`.
pub open spec fn key_index<V>(entries: Seq<(String, V)>, k: Seq<char>) -> int {
    choose|i: int| 0 <= i < entries.len() && #[trigger] entries[i].0@ == k
}

/// The map that a list of entries stands for.
pub open spec fn entries_map<V>(entries: Seq<(String, V)>) -> Map<Seq<char>, V> {
    Map::new(|k: Seq<char>| has_key(entries, k), |k: Seq<char>| entries[key_index(entries, k)].1)
}

/// No key occurs twice in `entries`.
pub open spec fn keys_distinct<V>(entries: Seq<(String, V)>) -> bool {
    forall|i: int, j: int|
        0 <= i < entries.len() && 0 <= j < entries.len() && i != j ==> #[trigger] entries[i].0@
            != #[trigger] entries[j].0@
}

/// In a list whose keys are distinct, the map sends the key of entry `i` to its value.
pub proof fn lemma_entry_in_map<V>(entries: Seq<(String, V)>, i: int)
    requires
        keys_distinct(entries),
        0 <= i < entries.len(),
    ensures
        entries_map(entries).contains_key(entries[i].0@),
        entries_map(entries)[entries[i].0@] == entries[i].1,
{
    let k = entries[i].0@;
    assert(has_key(entries, k));
    let j = key_index(entries, k);
    assert(entries[j].0@ == k);
}

/// Removing entry `i` from a list with distinct keys removes its key from the map.
pub proof fn lemma_remove_entry<V>(entries: Seq<(String, V)>, i: int)
    requires
        keys_distinct(entries),
        0 <= i < entries.len(),
    ensures
        keys_distinct(entries.remove(i)),
        entries_map(entries.remove(i)) == entries_map(entries).remove(entries[i].0@),
{
    let rest = entries.remove(i);
    let k = entries[i].0@;
    assert forall|a: int, b: int|
        0 <= a < rest.len() && 0 <= b < rest.len() && a != b implies #[trigger] rest[a].0@
            != #[trigger] rest[b].0@ by {
        let a0 = if a < i { a } else { a + 1 };
        let b0 = if b < i { b } else { b + 1 };
        assert(rest[a] == entries[a0]);
        assert(rest[b] == entries[b0]);
    }
    let m = entries_map(rest);
    let n = entries_map(entries).remove(k);
    assert forall|key: Seq<char>| #[trigger] m.contains_key(key) <==> n.contains_key(key) by {
        if m.contains_key(key) {
            let a = key_index(rest, key);
            let a0 = if a < i { a } else { a + 1 };
            assert(rest[a] == entries[a0]);
            assert(entries[a0].0@ == key);
            assert(has_key(entries, key));
        }
        if n.contains_key(key) {
            let a0 = key_index(entries, key);
            assert(entries[a0].0@ == key);
            assert(a0 != i);
            let a = if a0 < i { a0 } else { a0 - 1 };
            assert(rest[a] == entries[a0]);
            assert(has_key(rest, key));
        }
    }
    assert forall|key: Seq<char>| m.contains_key(key) implies #[trigger] m[key] == n[key] by {
        let a = key_index(rest, key);
        let a0 = if a < i { a } else { a + 1 };
        assert(rest[a] == entries[a0]);
        lemma_entry_in_map(entries, a0);
    }
    assert(m =~= n);
}

/// Appending an entry whose key is new adds it to the map.
pub proof fn lemma_push_entry<V>(entries: Seq<(String, V)>, key: String, value: V)
    requires
        keys_distinct(entries),
        !has_key(entries, key@),
    ensures
        keys_distinct(entries.push((key, value))),
        entries_map(entries.push((key, value))) == entries_map(entries).insert(key@, value),
{
    let more = entries.push((key, value));
    assert forall|a: int, b: int|
        0 <= a < more.len() && 0 <= b < more.len() && a != b implies #[trigger] more[a].0@
            != #[trigger] more[b].0@ by {
        if a < entries.len() && b < entries.len() {
            assert(more[a] == entries[a]);
            assert(more[b] == entries[b]);
        } else if a < entries.len() {
            assert(more[a] == entries[a]);
        } else {
            assert(more[b] == entries[b]);
        }
    }
    let m = entries_map(more);
    let n = entries_map(entries).insert(key@, value);
    assert forall|k: Seq<char>| #[trigger] m.contains_key(k) <==> n.contains_key(k) by {
        if m.contains_key(k) && k != key@ {
            let a = key_index(more, k);
            assert(more[a].0@ == k);
            assert(a < entries.len());
            assert(more[a] == entries[a]);
            assert(has_key(entries, k));
        }
        if n.contains_key(k) {
            if k == key@ {
                assert(more[entries.len() as int].0@ == k);
            } else {
                let a = key_index(entries, k);
                assert(more[a] == entries[a]);
                assert(has_key(more, k));
            }
        }
    }
    assert forall|k: Seq<char>| m.contains_key(k) implies #[trigger] m[k] == n[k] by {
        let a = key_index(more, k);
        lemma_entry_in_map(more, a);
        if a < entries.len() {
            assert(more[a] == entries[a]);
            lemma_entry_in_map(entries, a);
        }
    }
    assert(m =~= n);
}

/// Replacing the value of entry `i` replaces the value of its key.
pub proof fn lemma_update_entry<V>(entries: Seq<(String, V)>, i: int, key: String, value: V)
    requires
        keys_distinct(entries),
        0 <= i < entries.len(),
        entries[i].0@ == key@,
    ensures
        keys_distinct(entries.update(i, (key, value))),
        entries_map(entries.update(i, (key, value))) == entries_map(entries).insert(key@, value),
{
    let upd = entries.update(i, (key, value));
    assert forall|a: int, b: int|
        0 <= a < upd.len() && 0 <= b < upd.len() && a != b implies #[trigger] upd[a].0@
            != #[trigger] upd[b].0@ by {
        assert(upd[a].0@ == entries[a].0@);
        assert(upd[b].0@ == entries[b].0@);
    }
    let m = entries_map(upd);
    let n = entries_map(entries).insert(key@, value);
    assert forall|k: Seq<char>| #[trigger] m.contains_key(k) <==> n.contains_key(k) by {
        if m.contains_key(k) {
            let a = key_index(upd, k);
            assert(upd[a].0@ == entries[a].0@);
            assert(has_key(entries, k));
        }
        if n.contains_key(k) {
            if k == key@ {
                assert(upd[i].0@ == k);
            } else {
                let a = key_index(entries, k);
                assert(upd[a].0@ == entries[a].0@);
                assert(has_key(upd, k));
            }
        }
    }
    assert forall|k: Seq<char>| m.contains_key(k) implies #[trigger] m[k] == n[k] by {
        let a = key_index(upd, k);
        lemma_entry_in_map(upd, a);
        if a != i {
            assert(upd[a] == entries[a]);
            lemma_entry_in_map(entries, a);
        }
    }
    assert(m =~= n);
}

/// A table from string keys to values.
pub struct Table<V> {
    entries: Vec<(String, V)>,
}

impl<V> Table<V> {
    /// The map that the table stands for.
    pub closed spec fn map(&self) -> Map<Seq<char>, V> {
        entries_map(self.entries@)
    }

    /// The table is well formed: no key occurs twice.
    pub closed spec fn wf(&self) -> bool {
        keys_distinct(self.entries@)
    }

    /// The empty table.
    pub fn new() -> (table: Self)
        ensures
            table.wf(),
            table.map() == Map::<Seq<char>, V>::empty(),
    {
        let table = Table { entries: Vec::new() };
        assert(table.map() =~= Map::<Seq<char>, V>::empty());
        table
    }

    /// Where `key` stands in the list of entries, if it does.
    fn position(&self, key: &String) -> (pos: Option<usize>)
        requires
            self.wf(),
        ensures
            match pos {
                Some(i) => i < self.entries@.len() && self.entries@[i as int].0@ == key@,
                None => !has_key(self.entries@, key@),
            },
    {
        let mut i: usize = 0;
        while i < self.entries.len()
            invariant
                i <= self.entries@.len(),
                forall|j: int| 0 <= j < i ==> #[trigger] self.entries@[j].0@ != key@,
            decreases self.entries@.len() - i,
        {
            if self.entries[i].0 == *key {
                return Some(i);
            }
            i = i + 1;
        }
        None
    }

    /// The entries of the table, each key once.
    pub fn into_entries(self) -> (entries: Vec<(String, V)>)
        requires
            self.wf(),
        ensures
            keys_distinct(entries@),
            entries_map(entries@) == self.map(),
    {
        self.entries
    }

    /// Takes the value of `key` out of the table, if it has one.
    pub fn take(&mut self, key: &String) -> (taken: Option<V>)
        requires
            old(self).wf(),
        ensures
            final(self).wf(),
            final(self).map() == old(self).map().remove(key@),
            taken == (if old(self).map().contains_key(key@) {
                Some(old(self).map()[key@])
            } else {
                None::<V>
            }),
    {
        match self.position(key) {
            Some(i) => {
                proof {
                    lemma_entry_in_map(self.entries@, i as int);
                    lemma_remove_entry(self.entries@, i as int);
                }
                let (_, value) = self.entries.remove(i);
                Some(value)
            },
            None => {
                assert(self.map().remove(key@) =~= self.map());
                None
            },
        }
    }

    /// Sets the value of `key`, replacing the value it had.
    pub fn put(&mut self, key: String, value: V)
        requires
            old(self).wf(),
        ensures
            final(self).wf(),
            final(self).map() == old(self).map().insert(key@, value),
    {
        match self.position(&key) {
            Some(i) => {
                proof {
                    lemma_update_entry(self.entries@, i as int, key, value);
                }
                self.entries.set(i, (key, value));
            },
            None => {
                proof {
                    lemma_push_entry(self.entries@, key, value);
                }
                self.entries.push((key, value));
            },
        }
    }
}

} // verus!
