//! A map from text to values, kept as the list of its entries in the order
//! in which their keys were first put in. No key occurs twice.

use vstd::prelude::*;
use crate::text::str_eq;

verus! {

/// The map that a list of entries stands for: each entry in turn is put
/// into the map, so of two entries with one key the later one stays.
pub open spec fn map_of<V>(entries: Seq<(String, V)>) -> Map<Seq<char>, V>
    decreases entries.len(),
{
    if entries.len() == 0 {
        Map::<Seq<char>, V>::empty()
    } else {
        map_of(entries.drop_last()).insert(entries.last().0@, entries.last().1)
    }
}

/// Whether no two entries of a list have the same key.
pub open spec fn distinct_keys<V>(entries: Seq<(String, V)>) -> bool {
    forall|i: int, j: int|
        0 <= i < j < entries.len() ==> (#[trigger] entries[i]).0@ != (#[trigger] entries[j]).0@
}

/// What a map holds under `key`, if anything.
pub open spec fn lookup<V>(map: Map<Seq<char>, V>, key: Seq<char>) -> Option<V> {
    if map.dom().contains(key) {
        Some(map[key])
    } else {
        None
    }
}

/// A key that no entry has is not in the map.
pub proof fn lemma_map_of_absent<V>(entries: Seq<(String, V)>, key: Seq<char>)
    requires
        forall|j: int| 0 <= j < entries.len() ==> (#[trigger] entries[j]).0@ != key,
    ensures
        !map_of(entries).dom().contains(key),
    decreases entries.len(),
{
    if entries.len() > 0 {
        let rest = entries.drop_last();
        assert forall|j: int| 0 <= j < rest.len() implies (#[trigger] rest[j]).0@ != key by {
            assert(rest[j] == entries[j]);
        }
        lemma_map_of_absent(rest, key);
        assert(entries.last() == entries[entries.len() - 1]);
    }
}

/// The map holds under a key the value of the last entry with that key.
pub proof fn lemma_map_of_last<V>(entries: Seq<(String, V)>, key: Seq<char>, i: int)
    requires
        0 <= i < entries.len(),
        entries[i].0@ == key,
        forall|j: int| i < j < entries.len() ==> (#[trigger] entries[j]).0@ != key,
    ensures
        map_of(entries).dom().contains(key),
        map_of(entries)[key] == entries[i].1,
    decreases entries.len(),
{
    let rest = entries.drop_last();
    if i < entries.len() - 1 {
        assert(rest[i] == entries[i]);
        assert forall|j: int| i < j < rest.len() implies (#[trigger] rest[j]).0@ != key by {
            assert(rest[j] == entries[j]);
        }
        lemma_map_of_last(rest, key, i);
        assert(entries.last() == entries[entries.len() - 1]);
    }
}

/// Where no key occurs twice, putting a new value in the place of an entry
/// with the same key changes the map under that key and nowhere else.
pub proof fn lemma_map_of_update<V>(entries: Seq<(String, V)>, i: int, key: String, value: V)
    requires
        distinct_keys(entries),
        0 <= i < entries.len(),
        entries[i].0@ == key@,
    ensures
        distinct_keys(entries.update(i, (key, value))),
        map_of(entries.update(i, (key, value))) == map_of(entries).insert(key@, value),
{
    let changed = entries.update(i, (key, value));
    assert(changed.len() == entries.len());
    assert forall|a: int| 0 <= a < changed.len() implies (#[trigger] changed[a]).0@
        == entries[a].0@ by {}
    assert forall|a: int, b: int| 0 <= a < b < changed.len() implies (#[trigger] changed[a]).0@
        != (#[trigger] changed[b]).0@ by {
        assert(entries[a].0@ != entries[b].0@);
    }
    let before = map_of(entries);
    let after = map_of(changed);
    let wanted = before.insert(key@, value);
    assert forall|q: Seq<char>| #[trigger]
        after.dom().contains(q) == wanted.dom().contains(q) && (after.dom().contains(q)
            ==> after[q] == wanted[q]) by {
        if exists|j: int| 0 <= j < entries.len() && (#[trigger] entries[j]).0@ == q {
            let j = choose|j: int| 0 <= j < entries.len() && (#[trigger] entries[j]).0@ == q;
            assert forall|k: int| j < k < entries.len() implies (#[trigger] entries[k]).0@
                != q by {
                assert(entries[j].0@ != entries[k].0@);
            }
            assert forall|k: int| j < k < changed.len() implies (#[trigger] changed[k]).0@
                != q by {
                assert(changed[k].0@ == entries[k].0@);
                assert(entries[j].0@ != entries[k].0@);
            }
            assert(changed[j].0@ == q);
            lemma_map_of_last(entries, q, j);
            lemma_map_of_last(changed, q, j);
            if j == i {
                assert(q == key@);
            } else {
                assert(entries[i].0@ != entries[j].0@);
                assert(changed[j] == entries[j]);
            }
        } else {
            assert(entries[i].0@ == key@);
            assert forall|j: int| 0 <= j < changed.len() implies (#[trigger] changed[j]).0@
                != q by {
                assert(changed[j].0@ == entries[j].0@);
            }
            lemma_map_of_absent(entries, q);
            lemma_map_of_absent(changed, q);
        }
    }
    assert(after =~= wanted);
}

fn position<V>(entries: &Vec<(String, V)>, key: &str) -> (found: Option<usize>)
    ensures
        match found {
            Some(i) => i < entries@.len() && entries@[i as int].0@ == key@,
            None => forall|j: int| 0 <= j < entries@.len() ==> (#[trigger] entries@[j]).0@ != key@,
        },
{
    let mut i: usize = 0;
    while i < entries.len()
        invariant
            i <= entries.len(),
            forall|j: int| 0 <= j < i ==> (#[trigger] entries@[j]).0@ != key@,
        decreases entries.len() - i,
    {
        if str_eq(entries[i].0.as_str(), key) {
            return Some(i);
        }
        i += 1;
    }
    None
}

/// A map from text to values of type `V`.
pub struct StringMap<V> {
    pub(crate) entries: Vec<(String, V)>,
}

impl<V> View for StringMap<V> {
    type V = Map<Seq<char>, V>;

    closed spec fn view(&self) -> Map<Seq<char>, V> {
        map_of(self.entries@)
    }
}

impl<V> StringMap<V> {
    /// No key occurs twice among the entries.
    #[verifier::type_invariant]
    pub closed spec fn well_formed(self) -> bool {
        distinct_keys(self.entries@)
    }

    /// Makes a map without entries.
    pub fn new() -> (map: StringMap<V>)
        ensures
            map@ == Map::<Seq<char>, V>::empty(),
            map.well_formed(),
    {
        StringMap { entries: Vec::new() }
    }

    /// Returns the entries of the map, each key once, in the order in which
    /// the keys were first put in.
    pub fn entries(&self) -> (list: &Vec<(String, V)>)
        ensures
            distinct_keys(list@),
            map_of(list@) == self@,
    {
        proof {
            use_type_invariant(self);
        }
        &self.entries
    }

    /// Puts `value` under `key`, in place of what was there.
    pub fn insert(&mut self, key: String, value: V)
        ensures
            final(self)@ == old(self)@.insert(key@, value),
            final(self).well_formed(),
    {
        proof {
            use_type_invariant(&*self);
        }
        let mut entries: Vec<(String, V)> = Vec::new();
        std::mem::swap(&mut entries, &mut self.entries);
        match position(&entries, key.as_str()) {
            Some(i) => {
                proof {
                    lemma_map_of_update(entries@, i as int, key, value);
                }
                entries.set(i, (key, value));
            },
            None => {
                entries.push((key, value));
                proof {
                    assert(entries@.drop_last() =~= old(self).entries@);
                }
            },
        }
        self.entries = entries;
    }

    /// Finds what the map holds under `key`.
    pub fn get(&self, key: &str) -> (found: Option<&V>)
        ensures
            found == match lookup(self@, key@) {
                Some(value) => Some(&value),
                None => None,
            },
    {
        proof {
            use_type_invariant(self);
        }
        match position(&self.entries, key) {
            Some(i) => {
                proof {
                    assert forall|j: int| i < j < self.entries@.len() implies (
                    #[trigger] self.entries@[j]).0@ != key@ by {
                        assert(self.entries@[i as int].0@ != self.entries@[j].0@);
                    }
                    lemma_map_of_last(self.entries@, key@, i as int);
                }
                Some(&self.entries[i].1)
            },
            None => {
                proof {
                    lemma_map_of_absent(self.entries@, key@);
                }
                None
            },
        }
    }

    /// Tells whether the map holds anything under `key`.
    pub fn contains_key(&self, key: &str) -> (yes: bool)
        ensures
            yes == self@.dom().contains(key@),
    {
        self.get(key).is_some()
    }
}

} // verus!
