//! A small association table: a list of entries with distinct keys, seen as a
//! map. Its keys are texts, or hold one, and are told apart by what they show.

use crate::text;
use vstd::prelude::*;

verus! {

/// A key of a [`Table`]: a value that can be compared by what it shows.
pub trait Key: View {
    /// Whether two keys show the same.
    fn same(&self, other: &Self) -> (equal: bool)
        ensures
            equal == (self@ == other@),
    ;
}

impl Key for String {
    fn same(&self, other: &Self) -> (equal: bool) {
        text::same(self.as_str(), other.as_str())
    }
}

/// Entries with distinct keys, in the order in which their keys first came.
pub struct Table<K, V> {
    entries: Vec<(K, V)>,
}

/// Whether no two entries have the same key.
pub open spec fn distinct<K: Key, V>(entries: Seq<(K, V)>) -> bool {
    forall|i: int, j: int|
        0 <= i < j < entries.len() ==> (#[trigger] entries[i]).0@ != (#[trigger] entries[j]).0@
}

/// Whether an entry has the key `key`.
pub open spec fn has_key<K: Key, V>(entries: Seq<(K, V)>, key: K::V) -> bool {
    exists|i: int| 0 <= i < entries.len() && (#[trigger] entries[i]).0@ == key
}

/// Where an entry with the key `key` stands.
pub open spec fn place<K: Key, V>(entries: Seq<(K, V)>, key: K::V) -> int {
    choose|i: int| 0 <= i < entries.len() && (#[trigger] entries[i]).0@ == key
}

/// The entries as a map.
pub open spec fn as_map<K: Key, V>(entries: Seq<(K, V)>) -> Map<K::V, V> {
    Map::new(|key: K::V| has_key(entries, key), |key: K::V| entries[place(entries, key)].1)
}

/// With distinct keys, every entry is what the map holds under its key.
proof fn lemma_entry<K: Key, V>(entries: Seq<(K, V)>, i: int)
    requires
        distinct(entries),
        0 <= i < entries.len(),
    ensures
        as_map(entries).dom().contains(entries[i].0@),
        as_map(entries)[entries[i].0@] == entries[i].1,
        place(entries, entries[i].0@) == i,
{
    let key = entries[i].0@;
    assert(has_key(entries, key));
    let p = place(entries, key);
    assert(0 <= p < entries.len() && entries[p].0@ == key);
    if p < i {
        assert(entries[p].0@ != entries[i].0@);
    } else if i < p {
        assert(entries[i].0@ != entries[p].0@);
    }
}

/// The keys of the entries.
pub open spec fn keys_of<K: Key, V>(entries: Seq<(K, V)>) -> Seq<K::V> {
    entries.map_values(|e: (K, V)| e.0@)
}

/// What the keys of a list show.
pub open spec fn listed_keys<K: Key>(keys: Seq<K>) -> Set<K::V> {
    Set::new(|shown: K::V| exists|i: int| 0 <= i < keys.len() && (#[trigger] keys[i])@ == shown)
}

/// Whether a list has a key that shows the same as `key`.
pub fn lists_key<K: Key>(keys: &Vec<K>, key: &K) -> (found: bool)
    ensures
        found == listed_keys(keys@).contains(key@),
{
    let mut i: usize = 0;
    while i < keys.len()
        invariant
            i <= keys@.len(),
            forall|j: int| 0 <= j < i ==> (#[trigger] keys@[j])@ != key@,
        decreases keys@.len() - i,
    {
        if keys[i].same(key) {
            return true;
        }
        i += 1;
    }
    false
}

proof fn lemma_map_len<K: Key, V>(entries: Seq<(K, V)>)
    requires
        distinct(entries),
    ensures
        as_map(entries).dom().finite(),
        as_map(entries).dom().len() == entries.len(),
{
    let keys = keys_of(entries);
    assert(keys.no_duplicates()) by {
        assert forall|i: int, j: int| 0 <= i < keys.len() && 0 <= j < keys.len() && i != j implies
            keys[i] != keys[j] by {
            if i < j {
                assert(entries[i].0@ != entries[j].0@);
            } else {
                assert(entries[j].0@ != entries[i].0@);
            }
        }
    }
    assert(as_map(entries).dom() =~= keys.to_set()) by {
        assert forall|k: K::V| keys.to_set().contains(k) implies has_key(entries, k) by {
            let i = choose|i: int| 0 <= i < keys.len() && keys[i] == k;
            assert(entries[i].0@ == k);
        }
        assert forall|k: K::V| has_key(entries, k) implies keys.to_set().contains(k) by {
            let i = place(entries, k);
            assert(keys[i] == k);
        }
    }
    keys.unique_seq_to_set();
}

impl<K: Key, V> View for Table<K, V> {
    type V = Map<K::V, V>;

    closed spec fn view(&self) -> Map<K::V, V> {
        as_map(self.entries@)
    }
}

impl<K: Key, V> Table<K, V> {
    /// No two entries have the same key.
    pub closed spec fn wf(&self) -> bool {
        distinct(self.entries@)
    }

    /// The entries in order.
    pub closed spec fn listed(&self) -> Seq<(K, V)> {
        self.entries@
    }

    /// A table with no entry.
    pub fn new() -> (table: Self)
        ensures
            table.wf(),
            table@ == Map::<K::V, V>::empty(),
            table.listed().len() == 0,
    {
        let table = Table { entries: Vec::new() };
        assert(table@ =~= Map::<K::V, V>::empty());
        table
    }

    /// How many entries there are.
    pub fn len(&self) -> (len: usize)
        requires
            self.wf(),
        ensures
            len == self@.dom().len(),
            self@.dom().finite(),
            len == self.listed().len(),
    {
        proof {
            lemma_map_len(self.entries@);
        }
        self.entries.len()
    }

    /// Where the entry with `key` stands.
    fn find(&self, key: &K) -> (found: Option<usize>)
        requires
            self.wf(),
        ensures
            match found {
                Some(i) => i < self.entries@.len() && self.entries@[i as int].0@ == key@
                    && self@.dom().contains(key@) && self@[key@] == self.entries@[i as int].1,
                None => !self@.dom().contains(key@),
            },
    {
        let mut i: usize = 0;
        while i < self.entries.len()
            invariant
                self.wf(),
                i <= self.entries@.len(),
                forall|k: int| 0 <= k < i ==> (#[trigger] self.entries@[k]).0@ != key@,
            decreases self.entries@.len() - i,
        {
            if self.entries[i].0.same(key) {
                proof {
                    lemma_entry(self.entries@, i as int);
                }
                return Some(i);
            }
            i += 1;
        }
        None
    }

    /// Whether there is an entry for `key`.
    pub fn contains(&self, key: &K) -> (found: bool)
        requires
            self.wf(),
        ensures
            found == self@.dom().contains(key@),
    {
        self.find(key).is_some()
    }

    /// The value under `key`.
    pub fn get(&self, key: &K) -> (value: Option<&V>)
        requires
            self.wf(),
        ensures
            match value {
                Some(v) => self@.dom().contains(key@) && self@[key@] == *v,
                None => !self@.dom().contains(key@),
            },
    {
        match self.find(key) {
            Some(i) => Some(&self.entries[i].1),
            None => None,
        }
    }

    /// The value under a key that has one, for changing it in place.
    pub fn at_mut(&mut self, key: &K) -> (value: &mut V)
        requires
            old(self).wf(),
            old(self)@.dom().contains(key@),
        ensures
            final(self).wf(),
            *value == old(self)@[key@],
            final(self)@ == old(self)@.insert(key@, *final(value)),
    {
        let i: usize = match self.find(key) {
            Some(i) => i,
            None => 0,
        };
        let ghost before = self.entries@;
        let entry: &mut (K, V) = &mut self.entries[i];
        proof {
            lemma_updated(before, i as int);
        }
        &mut entry.1
    }

    /// Put `value` under `key`, in place of what was there.
    pub fn insert(&mut self, key: K, value: V)
        requires
            old(self).wf(),
        ensures
            final(self).wf(),
            final(self)@ == old(self)@.insert(key@, value),
    {
        match self.find(&key) {
            Some(i) => {
                let ghost before = self.entries@;
                let ghost shown = key@;
                self.entries.set(i, (key, value));
                proof {
                    lemma_updated(before, i as int);
                    assert(self.entries@[i as int].0@ == shown);
                }
            },
            None => {
                let ghost before = self.entries@;
                self.entries.push((key, value));
                proof {
                    assert(self.entries@.drop_last() =~= before);
                    lemma_pushed(before, self.entries@);
                }
            },
        }
    }

    /// Keep the entries whose keys are in `keys`, and take out the rest.
    pub fn keep(&mut self, keys: &Vec<K>)
        requires
            old(self).wf(),
        ensures
            final(self).wf(),
            final(self)@ == old(self)@.restrict(listed_keys(keys@)),
    {
        let ghost before = self@;
        let ghost kept = listed_keys(keys@);
        let mut i: usize = 0;
        while i < self.entries.len()
            invariant
                self.wf(),
                kept == listed_keys(keys@),
                i <= self.entries@.len(),
                self@.dom().subset_of(before.dom()),
                forall|key: K::V| #[trigger]
                    self@.dom().contains(key) ==> self@[key] == before[key],
                forall|key: K::V| #[trigger]
                    before.dom().contains(key) && kept.contains(key) ==> self@.dom().contains(key),
                forall|j: int| 0 <= j < i ==> kept.contains((#[trigger] self.entries@[j]).0@),
            decreases self.entries@.len() - i,
        {
            if lists_key(keys, &self.entries[i].0) {
                i += 1;
            } else {
                let ghost entries = self.entries@;
                let _ = self.entries.remove(i);
                proof {
                    lemma_removed(entries, i as int);
                    assert forall|j: int| 0 <= j < i implies kept.contains(
                        (#[trigger] self.entries@[j]).0@,
                    ) by {
                        assert(self.entries@[j] == entries[j]);
                    }
                }
            }
        }
        proof {
            assert forall|key: K::V| self@.dom().contains(key) implies kept.contains(key) by {
                let p = place(self.entries@, key);
                assert(self.entries@[p].0@ == key);
            }
            assert(self@ =~= before.restrict(kept));
        }
    }

    /// Take out every entry.
    pub fn clear(&mut self)
        ensures
            final(self).wf(),
            final(self)@ == Map::<K::V, V>::empty(),
    {
        self.entries.clear();
        assert(self@ =~= Map::<K::V, V>::empty());
    }

    /// The entry at place `i`.
    pub fn entry(&self, i: usize) -> (entry: (&K, &V))
        requires
            self.wf(),
            i < self.listed().len(),
        ensures
            *entry.0 == self.listed()[i as int].0,
            *entry.1 == self.listed()[i as int].1,
            self@.dom().contains(entry.0@),
            self@[entry.0@] == *entry.1,
    {
        proof {
            lemma_entry(self.entries@, i as int);
        }
        (&self.entries[i].0, &self.entries[i].1)
    }

    /// No key is listed twice.
    pub proof fn lemma_distinct(&self)
        requires
            self.wf(),
        ensures
            forall|i: int, j: int|
                0 <= i < j < self.listed().len() ==> (#[trigger] self.listed()[i]).0@ != (
                #[trigger] self.listed()[j]).0@,
    {
    }

    /// The map holds exactly what is listed.
    pub proof fn lemma_listed(&self, key: K::V)
        requires
            self.wf(),
        ensures
            self@.dom().contains(key) <==> exists|i: int|
                0 <= i < self.listed().len() && (#[trigger] self.listed()[i]).0@ == key,
            forall|i: int|
                0 <= i < self.listed().len() ==> self@[(#[trigger] self.listed()[i]).0@]
                    == self.listed()[i].1,
    {
        if self@.dom().contains(key) {
            let i = place(self.entries@, key);
            assert(self.listed()[i].0@ == key);
        }
        if exists|i: int| 0 <= i < self.listed().len() && (#[trigger] self.listed()[i]).0@ == key {
            let i = choose|i: int|
                0 <= i < self.listed().len() && (#[trigger] self.listed()[i]).0@ == key;
            lemma_entry(self.entries@, i);
        }
        assert forall|i: int| 0 <= i < self.listed().len() implies self@[(
        #[trigger] self.listed()[i]).0@] == self.listed()[i].1 by {
            lemma_entry(self.entries@, i);
        }
    }
}

proof fn lemma_pushed<K: Key, V>(before: Seq<(K, V)>, after: Seq<(K, V)>)
    requires
        distinct(before),
        after.len() == before.len() + 1,
        after.drop_last() == before,
        !as_map(before).dom().contains(after.last().0@),
    ensures
        distinct(after),
        as_map(after) == as_map(before).insert(after.last().0@, after.last().1),
{
    let key = after.last().0@;
    let n = before.len() as int;
    assert forall|i: int, j: int| 0 <= i < j < after.len() implies (#[trigger] after[i]).0@ != (
    #[trigger] after[j]).0@ by {
        assert(after[i] == before[i]);
        if j == n {
            assert(has_key(before, key) || before[i].0@ != key);
        } else {
            assert(after[j] == before[j]);
        }
    }
    let bigger = as_map(before).insert(key, after.last().1);
    assert forall|k: K::V| as_map(after).dom().contains(k) <==> bigger.dom().contains(k) by {
        if has_key(after, k) {
            let i = place(after, k);
            if i < n {
                assert(before[i] == after[i]);
                assert(has_key(before, k));
            }
        }
        if has_key(before, k) {
            let i = place(before, k);
            assert(after[i] == before[i]);
        }
        assert(after[n].0@ == key);
    }
    assert forall|k: K::V| as_map(after).dom().contains(k) implies as_map(after)[k] == bigger[k] by {
        if k == key {
            lemma_entry(after, n);
        } else {
            let p = place(after, k);
            assert(after[p] == before[p]);
            assert(has_key(before, k));
            let i = place(before, k);
            assert(after[i] == before[i]);
            lemma_entry(after, i);
            lemma_entry(before, i);
        }
    }
    assert(as_map(after) =~= bigger);
}

/// Replacing the value of one entry, and the entry by one with the same key,
/// keeps the keys and changes the map at that key.
proof fn lemma_updated<K: Key, V>(before: Seq<(K, V)>, i: int)
    requires
        distinct(before),
        0 <= i < before.len(),
    ensures
        forall|e: (K, V)|
            #![trigger before.update(i, e)]
            e.0@ == before[i].0@ ==> distinct(before.update(i, e)) && as_map(before.update(i, e))
                == as_map(before).insert(e.0@, e.1),
{
    assert forall|e: (K, V)| #![trigger before.update(i, e)] e.0@ == before[i].0@ implies distinct(
        before.update(i, e),
    ) && as_map(before.update(i, e)) == as_map(before).insert(e.0@, e.1) by {
        let after = before.update(i, e);
        let changed = as_map(before).insert(e.0@, e.1);
        assert forall|a: int, b: int| 0 <= a < b < after.len() implies (#[trigger] after[a]).0@ != (
        #[trigger] after[b]).0@ by {
            assert(after[a].0@ == before[a].0@);
            assert(after[b].0@ == before[b].0@);
        }
        assert forall|k: K::V| as_map(after).dom().contains(k) <==> changed.dom().contains(k) by {
            if has_key(after, k) {
                let p = place(after, k);
                assert(before[p].0@ == k);
            }
            if has_key(before, k) {
                let p = place(before, k);
                assert(after[p].0@ == k);
            }
            assert(after[i].0@ == e.0@);
        }
        assert forall|k: K::V| as_map(after).dom().contains(k) implies as_map(after)[k]
            == changed[k] by {
            let p = place(after, k);
            assert(after[p].0@ == k);
            lemma_entry(after, p);
            lemma_entry(before, p);
        }
        assert(as_map(after) =~= changed);
    }
}

proof fn lemma_removed<K: Key, V>(before: Seq<(K, V)>, i: int)
    requires
        distinct(before),
        0 <= i < before.len(),
    ensures
        distinct(before.remove(i)),
        as_map(before.remove(i)) == as_map(before).remove(before[i].0@),
{
    let after = before.remove(i);
    let key = before[i].0@;
    let smaller = as_map(before).remove(key);
    assert forall|a: int, b: int| 0 <= a < b < after.len() implies (#[trigger] after[a]).0@ != (
    #[trigger] after[b]).0@ by {
        let pa = if a < i { a } else { a + 1 };
        let pb = if b < i { b } else { b + 1 };
        assert(after[a] == before[pa]);
        assert(after[b] == before[pb]);
    }
    assert forall|k: K::V| as_map(after).dom().contains(k) <==> smaller.dom().contains(k) by {
        if has_key(after, k) {
            let p = place(after, k);
            let q = if p < i { p } else { p + 1 };
            assert(before[q] == after[p]);
            lemma_entry(before, q);
            lemma_entry(before, i);
        }
        if has_key(before, k) && k != key {
            let q = place(before, k);
            let p = if q < i { q } else { q - 1 };
            assert(after[p] == before[q]);
        }
    }
    assert forall|k: K::V| as_map(after).dom().contains(k) implies as_map(after)[k]
        == smaller[k] by {
        let p = place(after, k);
        let q = if p < i { p } else { p + 1 };
        assert(before[q] == after[p]);
        lemma_entry(after, p);
        lemma_entry(before, q);
    }
    assert(as_map(after) =~= smaller);
}

/// A value that is put under a key is found there, and what is under other keys stays.
pub proof fn lemma_a_value_is_found_where_it_was_put<K: Key, V>(
    table: &mut Table<K, V>,
    key: K,
    value: V,
    other: K::V,
)
    requires
        old(table).wf(),
        call_ensures(Table::<K, V>::insert, (table, key, value), ()),
    ensures
        final(table)@.dom().contains(key@),
        final(table)@[key@] == value,
        other != key@ ==> (final(table)@.dom().contains(other) <==> old(table)@.dom().contains(
            other,
        )),
        other != key@ && old(table)@.dom().contains(other) ==> final(table)@[other] == old(table)@[other],
{
}

/// What is kept is what was there under the keys that are listed, and nothing else.
pub proof fn lemma_listed_keys_are_kept<K: Key, V>(
    table: &mut Table<K, V>,
    keys: Vec<K>,
    key: K::V,
)
    requires
        old(table).wf(),
        call_ensures(Table::<K, V>::keep, (table, &keys), ()),
    ensures
        final(table)@.dom().contains(key) <==> old(table)@.dom().contains(key) && exists|i: int|
            0 <= i < keys@.len() && (#[trigger] keys@[i])@ == key,
        final(table)@.dom().contains(key) ==> final(table)@[key] == old(table)@[key],
{
    assert(listed_keys(keys@).contains(key) <==> exists|i: int|
        0 <= i < keys@.len() && (#[trigger] keys@[i])@ == key);
}

} // verus!
