//! A map with text keys.

use vstd::prelude::*;

verus! {

/// A map from text to values. No key occurs twice.
#[derive(Debug)]
pub struct StringMap<V> {
    entries: Vec<(String, V)>,
}

/// The entries as a map.
spec fn as_map<V>(entries: Seq<(String, V)>) -> Map<Seq<char>, V> {
    Map::new(
        |k: Seq<char>| exists|i: int| 0 <= i < entries.len() && (#[trigger] entries[i]).0@ == k,
        |k: Seq<char>| entries[choose|i: int|
            0 <= i < entries.len() && (#[trigger] entries[i]).0@ == k].1,
    )
}

spec fn distinct<V>(entries: Seq<(String, V)>) -> bool {
    forall|i: int, j: int|
        0 <= i < j < entries.len() ==> (#[trigger] entries[i]).0@ != (#[trigger] entries[j]).0@
}

impl<V> View for StringMap<V> {
    type V = Map<Seq<char>, V>;

    closed spec fn view(&self) -> Map<Seq<char>, V> {
        as_map(self.entries@)
    }
}

proof fn lemma_entry<V>(entries: Seq<(String, V)>, i: int)
    requires
        distinct(entries),
        0 <= i < entries.len(),
    ensures
        as_map(entries).dom().contains(entries[i].0@),
        as_map(entries)[entries[i].0@] == entries[i].1,
{
    let k = entries[i].0@;
    let j = choose|j: int| 0 <= j < entries.len() && (#[trigger] entries[j]).0@ == k;
    assert(entries[j].0@ == k);
    assert(i == j);
}

impl<V> StringMap<V> {
    #[verifier::type_invariant]
    spec fn no_key_twice(self) -> bool {
        distinct(self.entries@)
    }

    /// A map with no entries.
    pub fn new() -> (r: StringMap<V>)
        ensures
            r@ == Map::<Seq<char>, V>::empty(),
    {
        let r = StringMap { entries: Vec::new() };
        assert(r@ =~= Map::<Seq<char>, V>::empty());
        r
    }

    /// The number of entries.
    pub fn len(&self) -> (r: usize)
        ensures
            r == self@.dom().len(),
    {
        proof {
            use_type_invariant(self);
            let entries = self.entries@;
            let keys = entries.map_values(|e: (String, V)| e.0@);
            assert forall|i: int, j: int| 0 <= i < j < keys.len() implies keys[i] != keys[j] by {
                assert(entries[i].0@ != entries[j].0@);
            }
            keys.unique_seq_to_set();
            assert forall|k: Seq<char>| keys.to_set().contains(k) == self@.dom().contains(k) by {
                if keys.to_set().contains(k) {
                    let i = choose|i: int| 0 <= i < keys.len() && keys[i] == k;
                    assert(entries[i].0@ == k);
                }
                if self@.dom().contains(k) {
                    let i = choose|i: int|
                        0 <= i < entries.len() && (#[trigger] entries[i]).0@ == k;
                    assert(keys[i] == k);
                }
            }
            assert(keys.to_set() =~= self@.dom());
        }
        self.entries.len()
    }

    /// The value of a key.
    pub fn get(&self, key: &str) -> (r: Option<&V>)
        ensures
            match r {
                Some(v) => self@.dom().contains(key@) && *v == self@[key@],
                None => !self@.dom().contains(key@),
            },
    {
        proof {
            use_type_invariant(self);
        }
        let mut i: usize = 0;
        while i < self.entries.len()
            invariant
                i <= self.entries@.len(),
                distinct(self.entries@),
                forall|k: int| 0 <= k < i ==> (#[trigger] self.entries@[k]).0@ != key@,
            decreases self.entries@.len() - i,
        {
            if crate::text::same_text(self.entries[i].0.as_str(), key) {
                proof {
                    lemma_entry(self.entries@, i as int);
                }
                return Some(&self.entries[i].1);
            }
            i = i + 1;
        }
        None
    }

    /// Set the value of a key, in place of the one it has.
    pub fn insert(&mut self, key: String, value: V)
        ensures
            final(self)@ == old(self)@.insert(key@, value),
    {
        proof {
            use_type_invariant(&*self);
        }
        let ghost before = self.entries@;
        let mut entries: Vec<(String, V)> = Vec::new();
        std::mem::swap(&mut entries, &mut self.entries);
        let mut i: usize = 0;
        while i < entries.len() && !crate::text::same_text(entries[i].0.as_str(), key.as_str())
            invariant
                i <= entries@.len(),
                entries@ == before,
                forall|k: int| 0 <= k < i ==> (#[trigger] before[k]).0@ != key@,
            decreases entries@.len() - i,
        {
            i = i + 1;
        }
        if i < entries.len() {
            let _ = entries.remove(i);
            entries.insert(i, (key, value));
            proof {
                assert(entries@ =~= before.update(i as int, (key, value)));
                lemma_entry(before, i as int);
            }
        } else {
            entries.push((key, value));
        }
        proof {
            let after = entries@;
            assert(distinct(after)) by {
                assert forall|a: int, b: int| 0 <= a < b < after.len() implies (
                #[trigger] after[a]).0@ != (#[trigger] after[b]).0@ by {
                    if i < before.len() {
                        assert(before[a].0@ != before[b].0@);
                    } else if b < before.len() {
                        assert(before[a].0@ != before[b].0@);
                    }
                }
            }
            assert(after[i as int].0@ == key@ && after[i as int].1 == value);
            lemma_entry(after, i as int);
            assert forall|k: Seq<char>|
                as_map(after).dom().contains(k) == as_map(before).insert(
                    key@,
                    value,
                ).dom().contains(k) by {
                if as_map(before).dom().contains(k) && k != key@ {
                    let j = choose|j: int| 0 <= j < before.len() && (#[trigger] before[j]).0@ == k;
                    assert(after[j] == before[j]);
                    lemma_entry(after, j);
                }
                if as_map(after).dom().contains(k) && k != key@ {
                    let j = choose|j: int| 0 <= j < after.len() && (#[trigger] after[j]).0@ == k;
                    assert(after[j].0@ == k);
                    assert(after[j] == before[j]);
                    lemma_entry(before, j);
                }
            }
            assert forall|k: Seq<char>| as_map(after).dom().contains(k) implies as_map(after)[k]
                == as_map(before).insert(key@, value)[k] by {
                if k != key@ {
                    let j = choose|j: int| 0 <= j < after.len() && (#[trigger] after[j]).0@ == k;
                    assert(after[j].0@ == k);
                    assert(after[j] == before[j]);
                    lemma_entry(before, j);
                    lemma_entry(after, j);
                }
            }
            assert(as_map(after) =~= as_map(before).insert(key@, value));
        }
        self.entries = entries;
    }
}

impl<V: Clone> Clone for StringMap<V> {
    fn clone(&self) -> (r: StringMap<V>)
        ensures
            r@.dom() == self@.dom(),
            forall|k: Seq<char>|
                #![trigger r@[k]]
                self@.dom().contains(k) ==> cloned::<V>(self@[k], r@[k]),
    {
        proof {
            use_type_invariant(self);
        }
        let mut entries: Vec<(String, V)> = Vec::new();
        let mut i: usize = 0;
        while i < self.entries.len()
            invariant
                i <= self.entries@.len(),
                entries@.len() == i,
                forall|k: int|
                    0 <= k < i ==> (#[trigger] entries@[k]).0@ == self.entries@[k].0@ && cloned::<
                        V,
                    >(self.entries@[k].1, entries@[k].1),
            decreases self.entries@.len() - i,
        {
            entries.push((self.entries[i].0.clone(), self.entries[i].1.clone()));
            i = i + 1;
        }
        proof {
            let before = self.entries@;
            let after = entries@;
            assert(distinct(after)) by {
                assert forall|a: int, b: int| 0 <= a < b < after.len() implies (
                #[trigger] after[a]).0@ != (#[trigger] after[b]).0@ by {
                    assert(before[a].0@ != before[b].0@);
                }
            }
            assert forall|k: Seq<char>|
                as_map(after).dom().contains(k) == as_map(before).dom().contains(k) by {
                if as_map(before).dom().contains(k) {
                    let j = choose|j: int| 0 <= j < before.len() && (#[trigger] before[j]).0@ == k;
                    lemma_entry(after, j);
                }
                if as_map(after).dom().contains(k) {
                    let j = choose|j: int| 0 <= j < after.len() && (#[trigger] after[j]).0@ == k;
                    assert(after[j].0@ == k);
                    lemma_entry(before, j);
                }
            }
            assert(as_map(after).dom() =~= as_map(before).dom());
            assert forall|k: Seq<char>| as_map(before).dom().contains(k) implies cloned::<V>(
                as_map(before)[k],
                #[trigger] as_map(after)[k],
            ) by {
                let j = choose|j: int| 0 <= j < before.len() && (#[trigger] before[j]).0@ == k;
                lemma_entry(before, j);
                lemma_entry(after, j);
            }
        }
        StringMap { entries }
    }
}

} // verus!
