//! A map from strings to values, kept as a list of entries and read as the
//! mathematical map from character sequences that the entries make up.

use crate::systems::text::same_text;
use vstd::prelude::*;

verus! {

/// The map that a list of entries makes up: each entry is written in turn, so
/// of two entries with one key the later one counts.
pub open spec fn entries_map<T>(entries: Seq<(Seq<char>, T)>) -> Map<Seq<char>, T>
    decreases entries.len(),
{
    if entries.len() == 0 {
        Map::empty()
    } else {
        entries_map(entries.drop_last()).insert(entries.last().0, entries.last().1)
    }
}

/// A key that no entry holds is not in the map.
pub proof fn lemma_absent_key<T>(entries: Seq<(Seq<char>, T)>, key: Seq<char>)
    requires
        forall|j: int| 0 <= j < entries.len() ==> (#[trigger] entries[j]).0 != key,
    ensures
        !entries_map(entries).contains_key(key),
    decreases entries.len(),
{
    if entries.len() > 0 {
        assert(entries[entries.len() - 1].0 != key);
        lemma_absent_key(entries.drop_last(), key);
    }
}

/// The last entry with a key gives the key's value.
pub proof fn lemma_last_entry_counts<T>(entries: Seq<(Seq<char>, T)>, i: int, key: Seq<char>)
    requires
        0 <= i < entries.len(),
        entries[i].0 == key,
        forall|j: int| i < j < entries.len() ==> (#[trigger] entries[j]).0 != key,
    ensures
        entries_map(entries).contains_key(key),
        entries_map(entries)[key] == entries[i].1,
    decreases entries.len(),
{
    if i < entries.len() - 1 {
        assert(entries[entries.len() - 1].0 != key);
        lemma_last_entry_counts(entries.drop_last(), i, key);
    }
}

/// Replacing the value of the last entry with a key writes the key anew.
pub proof fn lemma_replace_last_entry<T>(
    entries: Seq<(Seq<char>, T)>,
    i: int,
    key: Seq<char>,
    value: T,
)
    requires
        0 <= i < entries.len(),
        entries[i].0 == key,
        forall|j: int| i < j < entries.len() ==> (#[trigger] entries[j]).0 != key,
    ensures
        entries_map(entries.update(i, (key, value))) == entries_map(entries).insert(key, value),
    decreases entries.len(),
{
    let updated = entries.update(i, (key, value));
    if i == entries.len() - 1 {
        assert(updated.drop_last() =~= entries.drop_last());
        assert(entries_map(updated) =~= entries_map(entries).insert(key, value));
    } else {
        let last = entries.last();
        assert(entries[entries.len() - 1].0 != key);
        lemma_replace_last_entry(entries.drop_last(), i, key, value);
        assert(updated.drop_last() =~= entries.drop_last().update(i, (key, value)));
        assert(entries_map(updated) =~= entries_map(entries).insert(key, value));
    }
}

/// A key of the map stands in some entry, and the last such entry gives its
/// value.
pub proof fn lemma_present_key<T>(entries: Seq<(Seq<char>, T)>, key: Seq<char>) -> (i: int)
    requires
        entries_map(entries).contains_key(key),
    ensures
        0 <= i < entries.len(),
        entries[i].0 == key,
        entries_map(entries)[key] == entries[i].1,
    decreases entries.len(),
{
    if entries.last().0 == key {
        entries.len() - 1
    } else {
        lemma_present_key(entries.drop_last(), key)
    }
}

/// The entries with each value replaced by what `f` makes of it.
pub open spec fn entries_with<T, U>(entries: Seq<(Seq<char>, T)>, f: spec_fn(T) -> U) -> Seq<
    (Seq<char>, U),
> {
    Seq::new(entries.len(), |i: int| (entries[i].0, f(entries[i].1)))
}

/// Replacing the values of the entries replaces the values of the map.
pub proof fn lemma_entries_with<T, U>(entries: Seq<(Seq<char>, T)>, f: spec_fn(T) -> U)
    ensures
        entries_map(entries_with(entries, f)) == entries_map(entries).map_values(f),
    decreases entries.len(),
{
    if entries.len() > 0 {
        lemma_entries_with(entries.drop_last(), f);
        assert(entries_with(entries, f).drop_last() =~= entries_with(entries.drop_last(), f));
    }
    assert(entries_map(entries_with(entries, f)) =~= entries_map(entries).map_values(f));
}

/// The function that takes a string to its characters.
pub open spec fn chars_of() -> spec_fn(String) -> Seq<char> {
    |s: String| s@
}

/// A map from strings to strings, read as a map from characters to characters.
pub open spec fn text_map(m: StrMap<String>) -> Map<Seq<char>, Seq<char>> {
    m.as_map().map_values(chars_of())
}

/// A map from strings to values.
#[derive(Debug)]
pub struct StrMap<T> {
    entries: Vec<(String, T)>,
}

impl<T> StrMap<T> {
    /// Whether no two entries have the same key. A map that was filled by
    /// `insert` alone is so.
    pub closed spec fn distinct(&self) -> bool {
        forall|i: int, j: int|
            0 <= i < j < self.entries@.len() ==> self.entries@[i].0@ != self.entries@[j].0@
    }

    /// The entries in storage order, each key as its characters.
    pub closed spec fn spec_entries(&self) -> Seq<(Seq<char>, T)> {
        Seq::new(self.entries@.len(), |i: int| (self.entries@[i].0@, self.entries@[i].1))
    }

    /// The map that the entries make up.
    pub open spec fn as_map(&self) -> Map<Seq<char>, T> {
        entries_map(self.spec_entries())
    }

    /// Where no two entries have the same key, every entry is in the map.
    pub proof fn lemma_entry_in_map(&self, i: int)
        requires
            self.distinct(),
            0 <= i < self.spec_entries().len(),
        ensures
            self.as_map().contains_key(self.spec_entries()[i].0),
            self.as_map()[self.spec_entries()[i].0] == self.spec_entries()[i].1,
    {
        let entries = self.spec_entries();
        assert forall|j: int| i < j < entries.len() implies (#[trigger] entries[j]).0
            != entries[i].0 by {
            assert(self.entries@[i].0@ != self.entries@[j].0@);
        }
        lemma_last_entry_counts(entries, i, entries[i].0);
    }

    /// An empty map.
    pub fn new() -> (r: Self)
        ensures
            r.spec_entries() == Seq::<(Seq<char>, T)>::empty(),
            r.as_map() == Map::<Seq<char>, T>::empty(),
            r.distinct(),
    {
        let r = StrMap { entries: Vec::new() };
        assert(r.spec_entries() =~= Seq::<(Seq<char>, T)>::empty());
        r
    }

    /// The number of entries.
    pub fn len(&self) -> (r: usize)
        ensures
            r == self.spec_entries().len(),
    {
        self.entries.len()
    }

    /// The key of the entry at `i`.
    pub fn key_at(&self, i: usize) -> (r: &String)
        requires
            i < self.spec_entries().len(),
        ensures
            r@ == self.spec_entries()[i as int].0,
    {
        &self.entries[i].0
    }

    /// The value of the entry at `i`.
    pub fn value_at(&self, i: usize) -> (r: &T)
        requires
            i < self.spec_entries().len(),
        ensures
            *r == self.spec_entries()[i as int].1,
    {
        &self.entries[i].1
    }

    /// Where the last entry with the key `key` stands, if there is one.
    fn position(&self, key: &str) -> (r: Option<usize>)
        ensures
            match r {
                Some(i) => i < self.spec_entries().len() && self.spec_entries()[i as int].0 == key@
                    && forall|j: int|
                    i < j < self.spec_entries().len() ==> (#[trigger] self.spec_entries()[j]).0
                        != key@,
                None => forall|j: int|
                    0 <= j < self.spec_entries().len() ==> (#[trigger] self.spec_entries()[j]).0
                        != key@,
            },
    {
        let mut i: usize = self.entries.len();
        while i > 0
            invariant
                i <= self.entries.len(),
                forall|j: int|
                    i <= j < self.spec_entries().len() ==> (#[trigger] self.spec_entries()[j]).0
                        != key@,
            decreases i,
        {
            i -= 1;
            if same_text(self.entries[i].0.as_str(), key) {
                return Some(i);
            }
        }
        None
    }

    /// Whether the map holds the key.
    pub fn contains_key(&self, key: &str) -> (r: bool)
        ensures
            r == self.as_map().contains_key(key@),
    {
        match self.position(key) {
            Some(i) => {
                proof {
                    lemma_last_entry_counts(self.spec_entries(), i as int, key@);
                }
                true
            },
            None => {
                proof {
                    lemma_absent_key(self.spec_entries(), key@);
                }
                false
            },
        }
    }

    /// The value under the key, if the map holds the key.
    pub fn get(&self, key: &str) -> (r: Option<&T>)
        ensures
            r == if self.as_map().contains_key(key@) {
                Some(&self.as_map()[key@])
            } else {
                None
            },
    {
        match self.position(key) {
            Some(i) => {
                proof {
                    lemma_last_entry_counts(self.spec_entries(), i as int, key@);
                }
                Some(&self.entries[i].1)
            },
            None => {
                proof {
                    lemma_absent_key(self.spec_entries(), key@);
                }
                None
            },
        }
    }

    /// The values of the map, in storage order.
    pub fn values(&self) -> (r: Vec<T>) where T: Copy
        requires
            self.distinct(),
        ensures
            r@.to_set() == self.as_map().values(),
            r@.len() == self.spec_entries().len(),
    {
        let mut out: Vec<T> = Vec::new();
        let mut i: usize = 0;
        while i < self.entries.len()
            invariant
                i <= self.entries.len(),
                out@.len() == i,
                forall|j: int| 0 <= j < i ==> out@[j] == (#[trigger] self.spec_entries()[j]).1,
            decreases self.entries.len() - i,
        {
            out.push(self.entries[i].1);
            i += 1;
        }
        proof {
            let entries = self.spec_entries();
            let map = self.as_map();
            assert forall|v: T| out@.to_set().contains(v) <==> map.values().contains(v) by {
                if out@.to_set().contains(v) {
                    let j = choose|j: int| 0 <= j < out@.len() && out@[j] == v;
                    assert(entries[j].1 == v);
                    lemma_last_entry_counts(entries, j, entries[j].0);
                    assert(map.contains_key(entries[j].0) && map[entries[j].0] == v);
                }
                if map.values().contains(v) {
                    let k = choose|k: Seq<char>| map.contains_key(k) && map[k] == v;
                    let j = lemma_present_key(entries, k);
                    assert(out@[j] == v);
                }
            }
            assert(out@.to_set() =~= map.values());
        }
        out
    }

    /// Writes `value` under `key`, in place of the value that was there.
    pub fn insert(&mut self, key: String, value: T)
        ensures
            final(self).as_map() == old(self).as_map().insert(key@, value),
            final(self).spec_entries().len() == if old(self).as_map().contains_key(key@) {
                old(self).spec_entries().len()
            } else {
                old(self).spec_entries().len() + 1
            },
            !old(self).as_map().contains_key(key@) ==> final(self).spec_entries() == old(
                self,
            ).spec_entries().push((key@, value)),
            old(self).as_map().contains_key(key@) ==> exists|i: int|
                0 <= i < old(self).spec_entries().len() && old(self).spec_entries()[i].0 == key@
                    && final(self).spec_entries() == old(self).spec_entries().update(
                    i,
                    (key@, value),
                ),
            old(self).distinct() ==> final(self).distinct(),
    {
        match self.position(key.as_str()) {
            Some(i) => {
                proof {
                    lemma_last_entry_counts(self.spec_entries(), i as int, key@);
                    lemma_replace_last_entry(self.spec_entries(), i as int, key@, value);
                }
                self.entries[i] = (key, value);
                assert(self.spec_entries() =~= old(self).spec_entries().update(
                    i as int,
                    (key@, value),
                ));
                assert(old(self).distinct() ==> self.distinct()) by {
                    if old(self).distinct() {
                        assert forall|a: int, b: int|
                            0 <= a < b < self.entries@.len() implies self.entries@[a].0@
                            != self.entries@[b].0@ by {
                            assert(self.entries@[a].0@ == old(self).entries@[a].0@);
                            assert(self.entries@[b].0@ == old(self).entries@[b].0@);
                        }
                    }
                }
            },
            None => {
                proof {
                    lemma_absent_key(self.spec_entries(), key@);
                }
                self.entries.push((key, value));
                assert(self.spec_entries() =~= old(self).spec_entries().push((key@, value)));
                assert(self.spec_entries().drop_last() =~= old(self).spec_entries());
                assert(old(self).distinct() ==> self.distinct()) by {
                    if old(self).distinct() {
                        assert forall|a: int, b: int|
                            0 <= a < b < self.entries@.len() implies self.entries@[a].0@
                            != self.entries@[b].0@ by {
                            if b == self.entries@.len() - 1 {
                                assert(old(self).spec_entries()[a].0 != key@);
                            } else {
                                assert(self.entries@[a].0@ == old(self).entries@[a].0@);
                                assert(self.entries@[b].0@ == old(self).entries@[b].0@);
                            }
                        }
                    }
                }
            },
        }
    }
}

} // verus!
