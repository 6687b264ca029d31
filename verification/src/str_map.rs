//! Maps keyed by text.

use crate::text::same_text;
use vstd::prelude::*;

verus! {

/// The value of the first entry with the given key.
pub open spec fn first_with<V>(entries: Seq<(String, V)>, key: Seq<char>) -> Option<V>
    decreases entries.len(),
{
    if entries.len() == 0 {
        None
    } else if entries[0].0@ == key {
        Some(entries[0].1)
    } else {
        first_with(entries.drop_first(), key)
    }
}

/// The values by key, of entries of which the first counts.
pub open spec fn map_of<V>(entries: Seq<(String, V)>) -> Map<Seq<char>, V> {
    Map::new(
        |key: Seq<char>| first_with(entries, key) is Some,
        |key: Seq<char>| first_with(entries, key)->0,
    )
}

/// No key occurs twice.
pub open spec fn distinct_keys<V>(entries: Seq<(String, V)>) -> bool {
    forall|i: int, j: int|
        #![trigger entries[i], entries[j]]
        0 <= i < j < entries.len() ==> entries[i].0@ != entries[j].0@
}

/// A map from text to values that remembers the order of insertion.
#[derive(Debug, PartialEq)]
pub struct StrMap<V> {
    entries: Vec<(String, V)>,
}

impl<V> View for StrMap<V> {
    type V = Map<Seq<char>, V>;

    /// The values by key.
    open spec fn view(&self) -> Map<Seq<char>, V> {
        map_of(self.entries())
    }
}

impl<V> StrMap<V> {
    /// The entries in order.
    pub closed spec fn entries(self) -> Seq<(String, V)> {
        self.entries@
    }

    /// No key occurs twice.
    pub open spec fn wf(self) -> bool {
        distinct_keys(self.entries())
    }

    /// A map without entries.
    pub fn new() -> (r: Self)
        ensures
            r.wf(),
            r.entries() == Seq::<(String, V)>::empty(),
            r@ == Map::<Seq<char>, V>::empty(),
    {
        let r = StrMap { entries: Vec::new() };
        assert(r@ =~= Map::<Seq<char>, V>::empty());
        r
    }

    /// The number of entries.
    pub fn len(&self) -> (r: usize)
        ensures
            r == self.entries().len(),
    {
        self.entries.len()
    }

    /// Whether there is no entry.
    pub fn is_empty(&self) -> (r: bool)
        ensures
            r == (self.entries().len() == 0),
            r == (self@ == Map::<Seq<char>, V>::empty()),
    {
        proof {
            if self.entries@.len() > 0 {
                assert(self@.contains_key(self.entries@[0].0@));
            } else {
                assert(self@ =~= Map::<Seq<char>, V>::empty());
            }
        }
        self.entries.len() == 0
    }

    /// The key of the `i`-th entry.
    pub fn key_at(&self, i: usize) -> (r: &String)
        requires
            i < self.entries().len(),
        ensures
            *r == self.entries()[i as int].0,
    {
        &self.entries[i].0
    }

    /// The value of the `i`-th entry.
    pub fn value_at(&self, i: usize) -> (r: &V)
        requires
            i < self.entries().len(),
        ensures
            *r == self.entries()[i as int].1,
    {
        &self.entries[i].1
    }

    /// The position of the first entry with the given key.
    pub fn position(&self, key: &str) -> (r: Option<usize>)
        ensures
            match r {
                Some(i) => {
                    &&& i < self.entries().len()
                    &&& self.entries()[i as int].0@ == key@
                    &&& self@.contains_key(key@)
                    &&& self@[key@] == self.entries()[i as int].1
                    &&& forall|j: int| 0 <= j < i ==> (#[trigger] self.entries()[j]).0@ != key@
                },
                None => !self@.contains_key(key@) && forall|j: int|
                    0 <= j < self.entries().len() ==> (#[trigger] self.entries()[j]).0@ != key@,
            },
    {
        let mut i: usize = 0;
        while i < self.entries.len()
            invariant
                i <= self.entries@.len(),
                forall|j: int| 0 <= j < i ==> (#[trigger] self.entries@[j]).0@ != key@,
            decreases self.entries.len() - i,
        {
            if same_text(self.entries[i].0.as_str(), key) {
                proof {
                    lemma_first_with(self.entries@, key@, i as int);
                }
                return Some(i);
            }
            i += 1;
        }
        proof {
            lemma_first_with(self.entries@, key@, i as int);
        }
        None
    }

    /// The value under a key.
    pub fn get(&self, key: &str) -> (r: Option<&V>)
        ensures
            match r {
                Some(v) => self@.contains_key(key@) && self@[key@] == *v,
                None => !self@.contains_key(key@),
            },
    {
        match self.position(key) {
            Some(i) => Some(&self.entries[i].1),
            None => None,
        }
    }

    /// Puts a value under a key, in place of the one that is there.
    pub fn insert(&mut self, key: String, value: V)
        ensures
            final(self)@ == old(self)@.insert(key@, value),
            old(self).wf() ==> final(self).wf(),
            !old(self)@.contains_key(key@) ==> final(self).entries() == old(self).entries().push(
                (key, value),
            ),
    {
        match self.position(key.as_str()) {
            Some(i) => {
                proof {
                    lemma_map_update(self.entries@, i as int, (key, value));
                }
                self.entries.set(i, (key, value));
            },
            None => {
                proof {
                    lemma_map_push(self.entries@, (key, value));
                }
                self.entries.push((key, value));
            },
        }
    }

    /// The value of the `i`-th entry, for changing it.
    pub fn value_at_mut(&mut self, i: usize) -> (r: &mut V)
        requires
            i < old(self).entries().len(),
        ensures
            *r == old(self).entries()[i as int].1,
            final(self).entries() == old(self).entries().update(
                i as int,
                (old(self).entries()[i as int].0, *final(r)),
            ),
    {
        &mut self.entries[i].1
    }

    /// The entries in order, of a map that is no longer needed.
    pub fn into_entries(self) -> (r: Vec<(String, V)>)
        ensures
            r@ == self.entries(),
    {
        self.entries
    }

    /// The value under a key, of a map that is no longer needed.
    pub fn take(self, key: &str) -> (r: Option<V>)
        ensures
            r == if self@.contains_key(key@) {
                Some(self@[key@])
            } else {
                None
            },
    {
        match self.position(key) {
            Some(i) => {
                let mut entries: Vec<(String, V)> = self.entries;
                let (_, value): (String, V) = entries.remove(i);
                Some(value)
            },
            None => None,
        }
    }

    /// Takes away the value under a key.
    pub fn remove(&mut self, key: &str)
        ensures
            final(self)@ == old(self)@.remove(key@),
            old(self).wf() ==> final(self).wf(),
    {
        let ghost before = self.entries@;
        let mut i: usize = 0;
        while i < self.entries.len()
            invariant
                i <= self.entries@.len(),
                forall|j: int| 0 <= j < i ==> (#[trigger] self.entries@[j]).0@ != key@,
                forall|k: Seq<char>|
                    k != key@ ==> #[trigger] first_with(self.entries@, k) == first_with(before, k),
                distinct_keys(before) ==> distinct_keys(self.entries@),
            decreases self.entries@.len() - i,
        {
            if same_text(self.entries[i].0.as_str(), key) {
                let ghost now = self.entries@;
                let _ = self.entries.remove(i);
                proof {
                    assert forall|k: Seq<char>| k != key@ implies #[trigger] first_with(
                        self.entries@,
                        k,
                    ) == first_with(now, k) by {
                        lemma_removed(now, i as int, k);
                    }
                }
            } else {
                i += 1;
            }
        }
        proof {
            lemma_first_with(self.entries@, key@, i as int);
        }
        assert(self@ =~= old(self)@.remove(key@));
    }
}

/// What the first entries of a sequence say about its lookup.
pub proof fn lemma_first_with<V>(entries: Seq<(String, V)>, key: Seq<char>, i: int)
    requires
        0 <= i <= entries.len(),
        forall|j: int| 0 <= j < i ==> (#[trigger] entries[j]).0@ != key,
        i < entries.len() ==> entries[i].0@ == key,
    ensures
        first_with(entries, key) == if i < entries.len() {
            Some(entries[i].1)
        } else {
            None
        },
    decreases entries.len(),
{
    if i > 0 {
        assert forall|j: int| 0 <= j < i - 1 implies (#[trigger] entries.drop_first()[j]).0@
            != key by {
            assert(entries.drop_first()[j] == entries[j + 1]);
        }
        lemma_first_with(entries.drop_first(), key, i - 1);
    }
}

/// Every entry of a map without double keys is found.
pub proof fn lemma_entry_found<V>(entries: Seq<(String, V)>, i: int)
    requires
        distinct_keys(entries),
        0 <= i < entries.len(),
    ensures
        first_with(entries, entries[i].0@) == Some(entries[i].1),
{
    lemma_first_with(entries, entries[i].0@, i);
}

/// Replacing the first entry with a key by one with the same key changes the
/// value under that key.
pub proof fn lemma_map_update<V>(entries: Seq<(String, V)>, i: int, put: (String, V))
    requires
        0 <= i < entries.len(),
        entries[i].0@ == put.0@,
        forall|j: int| 0 <= j < i ==> (#[trigger] entries[j]).0@ != put.0@,
    ensures
        map_of(entries.update(i, put)) == map_of(entries).insert(put.0@, put.1),
{
    assert forall|k: Seq<char>| #[trigger]
        first_with(entries.update(i, put), k) == if k == put.0@ {
            Some(put.1)
        } else {
            first_with(entries, k)
        } by {
        lemma_update(entries, i, put, k);
    }
    assert(map_of(entries.update(i, put)) =~= map_of(entries).insert(put.0@, put.1));
}

/// An entry with a new key at the end adds its value under that key.
pub proof fn lemma_map_push<V>(entries: Seq<(String, V)>, put: (String, V))
    requires
        forall|j: int| 0 <= j < entries.len() ==> (#[trigger] entries[j]).0@ != put.0@,
    ensures
        !map_of(entries).contains_key(put.0@),
        map_of(entries.push(put)) == map_of(entries).insert(put.0@, put.1),
{
    lemma_first_with(entries, put.0@, entries.len() as int);
    assert forall|k: Seq<char>| #[trigger]
        first_with(entries.push(put), k) == if k == put.0@ {
            Some(put.1)
        } else {
            first_with(entries, k)
        } by {
        lemma_push(entries, put, k);
    }
    assert(map_of(entries.push(put)) =~= map_of(entries).insert(put.0@, put.1));
}

proof fn lemma_update<V>(entries: Seq<(String, V)>, i: int, put: (String, V), k: Seq<char>)
    requires
        0 <= i < entries.len(),
        entries[i].0@ == put.0@,
        forall|j: int| 0 <= j < i ==> (#[trigger] entries[j]).0@ != put.0@,
    ensures
        first_with(entries.update(i, put), k) == if k == put.0@ {
            Some(put.1)
        } else {
            first_with(entries, k)
        },
    decreases entries.len(),
{
    let after = entries.update(i, put);
    if i == 0 {
        assert(after.drop_first() =~= entries.drop_first());
    } else {
        assert(after.drop_first() =~= entries.drop_first().update(i - 1, put));
        assert forall|j: int| 0 <= j < i - 1 implies (#[trigger] entries.drop_first()[j]).0@
            != put.0@ by {
            assert(entries.drop_first()[j] == entries[j + 1]);
        }
        lemma_update(entries.drop_first(), i - 1, put, k);
    }
}

proof fn lemma_push<V>(entries: Seq<(String, V)>, put: (String, V), k: Seq<char>)
    ensures
        first_with(entries.push(put), k) == if first_with(entries, k) is Some {
            first_with(entries, k)
        } else if k == put.0@ {
            Some(put.1)
        } else {
            None
        },
    decreases entries.len(),
{
    if entries.len() > 0 {
        assert(entries.push(put).drop_first() =~= entries.drop_first().push(put));
        lemma_push(entries.drop_first(), put, k);
    } else {
        assert(entries.push(put).drop_first() =~= entries);
    }
}

proof fn lemma_removed<V>(entries: Seq<(String, V)>, i: int, k: Seq<char>)
    requires
        0 <= i < entries.len(),
        entries[i].0@ != k,
    ensures
        first_with(entries.remove(i), k) == first_with(entries, k),
    decreases entries.len(),
{
    if i == 0 {
        assert(entries.remove(0) =~= entries.drop_first());
    } else {
        assert(entries.remove(i).drop_first() =~= entries.drop_first().remove(i - 1));
        lemma_removed(entries.drop_first(), i - 1, k);
    }
}

} // verus!
