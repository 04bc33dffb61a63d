//! A small map from text keys to values, kept as a list of entries in which no
//! key occurs twice.

use vstd::prelude::*;
use crate::text::same_text;

verus! {

/// One key with its value.
pub struct Entry<V> {
    pub key: String,
    pub value: V,
}

/// No two entries of `entries` have the same key.
pub open spec fn distinct_keys<V>(entries: Seq<Entry<V>>) -> bool {
    forall|i: int, j: int|
        0 <= i < entries.len() && 0 <= j < entries.len() && i != j
            ==> entries[i].key@ != entries[j].key@
}

/// Whether some entry of `entries` has the key `key`.
pub open spec fn has_key<V>(entries: Seq<Entry<V>>, key: Seq<char>) -> bool {
    exists|i: int| 0 <= i < entries.len() && #[trigger] entries[i].key@ == key
}

/// The position of an entry with the key `key`, where there is one.
pub open spec fn position_of<V>(entries: Seq<Entry<V>>, key: Seq<char>) -> int {
    choose|i: int| 0 <= i < entries.len() && #[trigger] entries[i].key@ == key
}

/// The map that a list of entries stands for.
pub open spec fn entries_map<V>(entries: Seq<Entry<V>>) -> Map<Seq<char>, V> {
    Map::new(
        |key: Seq<char>| has_key(entries, key),
        |key: Seq<char>| entries[position_of(entries, key)].value,
    )
}

/// In a list with distinct keys, each entry is what the map holds under its key.
pub proof fn lemma_entry_in_map<V>(entries: Seq<Entry<V>>, i: int)
    requires
        distinct_keys(entries),
        0 <= i < entries.len(),
    ensures
        entries_map(entries).contains_key(entries[i].key@),
        entries_map(entries)[entries[i].key@] == entries[i].value,
        position_of(entries, entries[i].key@) == i,
{
    let key = entries[i].key@;
    assert(has_key(entries, key));
    let p = position_of(entries, key);
    assert(0 <= p < entries.len() && entries[p].key@ == key);
}

/// Appending an entry under a key that is not yet there inserts it.
pub proof fn lemma_push_inserts<V>(entries: Seq<Entry<V>>, entry: Entry<V>)
    requires
        distinct_keys(entries),
        !has_key(entries, entry.key@),
    ensures
        distinct_keys(entries.push(entry)),
        entries_map(entries.push(entry)) == entries_map(entries).insert(entry.key@, entry.value),
{
    let after = entries.push(entry);
    assert forall|i: int, j: int|
        0 <= i < after.len() && 0 <= j < after.len() && i != j implies after[i].key@
        != after[j].key@ by {
        if i < entries.len() && j < entries.len() {
        } else if i < entries.len() {
            assert(entries[i].key@ == after[i].key@);
        } else {
            assert(entries[j].key@ == after[j].key@);
        }
    }
    assert forall|key: Seq<char>| has_key(after, key) <==> (key == entry.key@ || has_key(
        entries,
        key,
    )) by {
        if has_key(after, key) {
            let p = position_of(after, key);
            if p < entries.len() {
                assert(entries[p].key@ == key);
            }
        }
        if has_key(entries, key) {
            let p = position_of(entries, key);
            assert(after[p].key@ == key);
        }
        if key == entry.key@ {
            assert(after[entries.len() as int].key@ == key);
        }
    }
    assert forall|key: Seq<char>| has_key(after, key) implies entries_map(after)[key]
        == entries_map(entries).insert(entry.key@, entry.value)[key] by {
        let p = position_of(after, key);
        lemma_entry_in_map(after, p);
        if p < entries.len() {
            assert(entries[p].key@ == key);
            lemma_entry_in_map(entries, p);
        }
    }
    assert(entries_map(after) =~= entries_map(entries).insert(entry.key@, entry.value));
}

/// Taking the entry at `i` out removes its key.
pub proof fn lemma_remove_removes<V>(entries: Seq<Entry<V>>, i: int)
    requires
        distinct_keys(entries),
        0 <= i < entries.len(),
    ensures
        distinct_keys(entries.remove(i)),
        !has_key(entries.remove(i), entries[i].key@),
        entries_map(entries.remove(i)) == entries_map(entries).remove(entries[i].key@),
{
    let after = entries.remove(i);
    let gone = entries[i].key@;
    assert forall|a: int| 0 <= a < after.len() implies #[trigger] after[a] == entries[if a < i {
        a
    } else {
        a + 1
    }] by {}
    assert forall|a: int, b: int|
        0 <= a < after.len() && 0 <= b < after.len() && a != b implies after[a].key@
        != after[b].key@ by {
        let a0 = if a < i { a } else { a + 1 };
        let b0 = if b < i { b } else { b + 1 };
        assert(after[a] == entries[a0] && after[b] == entries[b0]);
    }
    if has_key(after, gone) {
        let p = position_of(after, gone);
        let p0 = if p < i { p } else { p + 1 };
        assert(after[p] == entries[p0]);
    }
    assert forall|key: Seq<char>| has_key(after, key) <==> (key != gone && has_key(
        entries,
        key,
    )) by {
        if has_key(after, key) {
            let p = position_of(after, key);
            let p0 = if p < i { p } else { p + 1 };
            assert(after[p] == entries[p0]);
            assert(entries[p0].key@ == key);
        }
        if key != gone && has_key(entries, key) {
            let p = position_of(entries, key);
            let q = if p < i { p } else { p - 1 };
            assert(after[q] == entries[p]);
            assert(after[q].key@ == key);
        }
    }
    assert forall|key: Seq<char>| has_key(after, key) implies entries_map(after)[key]
        == entries_map(entries).remove(gone)[key] by {
        let p = position_of(after, key);
        let p0 = if p < i { p } else { p + 1 };
        assert(after[p] == entries[p0]);
        lemma_entry_in_map(after, p);
        lemma_entry_in_map(entries, p0);
    }
    assert(entries_map(after) =~= entries_map(entries).remove(gone));
}

/// A list with distinct keys stands for a finite map with one key per entry.
pub proof fn lemma_map_len<V>(entries: Seq<Entry<V>>)
    requires
        distinct_keys(entries),
    ensures
        entries_map(entries).dom().finite(),
        entries_map(entries).dom().len() == entries.len(),
    decreases entries.len(),
{
    if entries.len() == 0 {
        assert(entries_map(entries).dom() =~= Set::<Seq<char>>::empty());
    } else {
        let front = entries.drop_last();
        let last = entries.last();
        assert(distinct_keys(front));
        if has_key(front, last.key@) {
            let p = position_of(front, last.key@);
            assert(entries[p].key@ == last.key@);
        }
        lemma_push_inserts(front, last);
        assert(front.push(last) =~= entries);
        lemma_map_len(front);
        assert(!entries_map(front).dom().contains(last.key@));
        assert(entries_map(entries).dom() =~= entries_map(front).dom().insert(last.key@));
    }
}

/// A map from text keys to values of type `V`.
pub struct TextMap<V> {
    entries: Vec<Entry<V>>,
}

impl<V> TextMap<V> {
    #[verifier::type_invariant]
    spec fn keys_are_distinct(self) -> bool {
        distinct_keys(self.entries@)
    }

    /// What the map holds.
    pub closed spec fn map(self) -> Map<Seq<char>, V> {
        entries_map(self.entries@)
    }

    /// An empty map.
    pub fn new() -> (m: Self)
        ensures
            m.map() == Map::<Seq<char>, V>::empty(),
    {
        let m = TextMap { entries: Vec::new() };
        assert(m.map() =~= Map::<Seq<char>, V>::empty());
        m
    }

    /// The position of the entry under `key`, if there is one.
    fn find(&self, key: &str) -> (r: Option<usize>)
        ensures
            match r {
                Some(i) => i < self.entries.len() && self.entries[i as int].key@ == key@,
                None => !has_key(self.entries@, key@),
            },
    {
        let mut i: usize = 0;
        while i < self.entries.len()
            invariant
                i <= self.entries.len(),
                forall|j: int| 0 <= j < i ==> self.entries[j].key@ != key@,
            decreases self.entries.len() - i,
        {
            if same_text(self.entries[i].key.as_str(), key) {
                return Some(i);
            }
            i += 1;
        }
        None
    }

    /// Whether the map has an entry under `key`.
    pub fn contains_key(&self, key: &str) -> (r: bool)
        ensures
            r == self.map().contains_key(key@),
    {
        self.find(key).is_some()
    }

    /// The value under `key`, if there is one.
    pub fn get(&self, key: &str) -> (r: Option<&V>)
        ensures
            match r {
                Some(v) => self.map().contains_key(key@) && *v == self.map()[key@],
                None => !self.map().contains_key(key@),
            },
    {
        match self.find(key) {
            Some(i) => {
                proof {
                    use_type_invariant(self);
                    lemma_entry_in_map(self.entries@, i as int);
                }
                Some(&self.entries[i].value)
            },
            None => None,
        }
    }

    /// Takes the value under `key` out of the map, if there is one.
    pub fn remove(&mut self, key: &str) -> (r: Option<V>)
        ensures
            final(self).map() == old(self).map().remove(key@),
            match r {
                Some(v) => old(self).map().contains_key(key@) && v == old(self).map()[key@],
                None => !old(self).map().contains_key(key@),
            },
    {
        match self.find(key) {
            Some(i) => {
                proof {
                    use_type_invariant(&*self);
                    lemma_entry_in_map(self.entries@, i as int);
                    lemma_remove_removes(self.entries@, i as int);
                }
                let mut entries: Vec<Entry<V>> = Vec::new();
                core::mem::swap(&mut self.entries, &mut entries);
                let entry = entries.remove(i);
                core::mem::swap(&mut self.entries, &mut entries);
                Some(entry.value)
            },
            None => {
                assert(self.map().remove(key@) =~= self.map());
                None
            },
        }
    }

    /// Puts `value` under `key`, in place of what was there; hands back what was there.
    pub fn insert(&mut self, key: String, value: V) -> (r: Option<V>)
        ensures
            final(self).map() == old(self).map().insert(key@, value),
            match r {
                Some(v) => old(self).map().contains_key(key@) && v == old(self).map()[key@],
                None => !old(self).map().contains_key(key@),
            },
    {
        let previous = self.remove(key.as_str());
        proof {
            use_type_invariant(&*self);
            assert(!self.map().contains_key(key@));
            assert(!has_key(self.entries@, key@));
            lemma_push_inserts(self.entries@, Entry { key, value });
            assert(old(self).map().remove(key@).insert(key@, value) =~= old(self).map().insert(
                key@,
                value,
            ));
        }
        let mut entries: Vec<Entry<V>> = Vec::new();
        core::mem::swap(&mut self.entries, &mut entries);
        entries.push(Entry { key, value });
        core::mem::swap(&mut self.entries, &mut entries);
        previous
    }

    /// Drops every entry.
    pub fn clear(&mut self)
        ensures
            final(self).map() == Map::<Seq<char>, V>::empty(),
    {
        let mut entries: Vec<Entry<V>> = Vec::new();
        core::mem::swap(&mut self.entries, &mut entries);
        assert(self.map() =~= Map::<Seq<char>, V>::empty());
    }

    /// The number of entries.
    pub fn len(&self) -> (n: usize)
        ensures
            self.map().dom().finite(),
            n == self.map().dom().len(),
    {
        proof {
            use_type_invariant(self);
            lemma_map_len(self.entries@);
        }
        self.entries.len()
    }

    /// Whether the map has no entry.
    pub fn is_empty(&self) -> (r: bool)
        ensures
            r == (self.map() == Map::<Seq<char>, V>::empty()),
    {
        proof {
            use_type_invariant(self);
            if self.entries.len() > 0 {
                lemma_entry_in_map(self.entries@, 0);
            } else {
                assert(self.map() =~= Map::<Seq<char>, V>::empty());
            }
        }
        self.entries.len() == 0
    }

    /// The keys of the map, each once.
    pub fn keys(&self) -> (r: Vec<String>)
        ensures
            r.deep_view().no_duplicates(),
            forall|key: Seq<char>| r.deep_view().contains(key) <==> self.map().contains_key(key),
    {
        let mut r: Vec<String> = Vec::new();
        let mut i: usize = 0;
        while i < self.entries.len()
            invariant
                i <= self.entries.len(),
                r.len() == i,
                forall|j: int| 0 <= j < i ==> r[j]@ == self.entries[j].key@,
            decreases self.entries.len() - i,
        {
            r.push(self.entries[i].key.clone());
            i += 1;
        }
        proof {
            use_type_invariant(self);
            let keys = r.deep_view();
            assert(keys.len() == r.len());
            assert forall|j: int| 0 <= j < keys.len() implies keys[j] == self.entries[j].key@ by {
                assert(keys[j] == r[j].deep_view());
            }
            assert forall|key: Seq<char>| keys.contains(key) <==> self.map().contains_key(
                key,
            ) by {
                if keys.contains(key) {
                    let j = choose|j: int| 0 <= j < keys.len() && keys[j] == key;
                    assert(self.entries[j].key@ == key);
                }
                if self.map().contains_key(key) {
                    let j = position_of(self.entries@, key);
                    assert(keys[j] == key);
                }
            }
        }
        r
    }
}

} // verus!
