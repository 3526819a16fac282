//! Tables keyed by text.
//!
//! A [`Table`] holds values in rows and finds the row of a key with a `dashmap::DashMap`.
//! Seen from outside it is a map from texts to values; the rows can also be walked by number.

use vstd::prelude::*;
use dashmap::DashMap;

verus! {

/// A concurrent hash map of the `dashmap` crate.
#[verifier::external_type_specification]
#[verifier::external_body]
#[verifier::reject_recursive_types(K)]
#[verifier::reject_recursive_types(V)]
#[verifier::reject_recursive_types(S)]
pub struct ExDashMap<K, V, S>(DashMap<K, V, S>);

/// What a `DashMap` from texts to row numbers holds.
pub uninterp spec fn index_entries(index: DashMap<String, u64>) -> Map<Seq<char>, u64>;

/// Calls `DashMap::new`: a map that holds nothing.
#[verifier::external_body]
fn index_new() -> (index: DashMap<String, u64>)
    ensures
        index_entries(index).is_empty(),
{
    DashMap::new()
}

/// Calls `DashMap::get` and reads the value: the one under the key, if there is one.
#[verifier::external_body]
fn index_get(index: &DashMap<String, u64>, key: &str) -> (found: Option<u64>)
    ensures
        found == (if index_entries(*index).contains_key(key@) {
            Some(index_entries(*index)[key@])
        } else {
            None::<u64>
        }),
{
    index.get(key).map(|entry| *entry.value())
}

/// Calls `DashMap::insert`: puts the value under the key, in place of any other.
#[verifier::external_body]
fn index_insert(index: &mut DashMap<String, u64>, key: String, row: u64)
    ensures
        index_entries(*final(index)) == index_entries(*old(index)).insert(key@, row),
{
    index.insert(key, row);
}

/// Calls `DashMap::remove`: takes the key and its value out, if they are there.
#[verifier::external_body]
fn index_remove(index: &mut DashMap<String, u64>, key: &str)
    ensures
        index_entries(*final(index)) == index_entries(*old(index)).remove(key@),
{
    index.remove(key);
}

/// Calls `DashMap::clear`: takes everything out.
#[verifier::external_body]
fn index_clear(index: &mut DashMap<String, u64>)
    ensures
        index_entries(*final(index)).is_empty(),
{
    index.clear();
}

/// Values under texts.
#[verifier::reject_recursive_types(V)]
pub struct Table<V> {
    index: DashMap<String, u64>,
    keys: Vec<String>,
    values: Vec<V>,
}

impl<V> View for Table<V> {
    type V = Map<Seq<char>, V>;

    /// The value under each key.
    closed spec fn view(&self) -> Map<Seq<char>, V> {
        Map::new(
            |k: Seq<char>| index_entries(self.index).contains_key(k),
            |k: Seq<char>| self.values@[index_entries(self.index)[k] as int],
        )
    }
}

impl<V> Table<V> {
    /// Every row is found under its key, and nothing else is.
    pub closed spec fn wf(self) -> bool {
        &&& self.keys@.len() == self.values@.len()
        &&& forall|i: int|
            0 <= i < self.keys@.len() ==> index_entries(self.index).contains_key(
                #[trigger] self.keys@[i]@,
            ) && index_entries(self.index)[self.keys@[i]@] == i
        &&& forall|k: Seq<char>| #[trigger]
            index_entries(self.index).contains_key(k) ==> index_entries(self.index)[k]
                < self.keys@.len() && self.keys@[index_entries(self.index)[k] as int]@ == k
    }

    /// The keys, row by row.
    pub closed spec fn keys(self) -> Seq<Seq<char>> {
        crate::text::texts(self.keys@)
    }

    /// The rows: no key occurs twice, and they hold exactly what the table holds.
    pub proof fn lemma_rows(self)
        requires
            self.wf(),
        ensures
            self.keys().no_duplicates(),
            forall|k: Seq<char>| self@.contains_key(k) <==> self.keys().contains(k),
            forall|i: int| 0 <= i < self.keys().len() ==> #[trigger] self@.contains_key(self.keys()[i]),
            self@.dom().finite(),
            self@.len() == self.keys().len(),
    {
        let ks = self.keys();
        assert forall|i: int| 0 <= i < ks.len() implies #[trigger] self@.contains_key(ks[i]) by {
            assert(ks[i] == self.keys@[i]@);
        }
        assert forall|i: int, j: int| 0 <= i < ks.len() && 0 <= j < ks.len() && i != j implies ks[i]
            != ks[j] by {
            assert(ks[i] == self.keys@[i]@);
            assert(ks[j] == self.keys@[j]@);
        }
        assert forall|k: Seq<char>| self@.contains_key(k) implies ks.contains(k) by {
            let row = index_entries(self.index)[k] as int;
            assert(ks[row] == k);
        }
        assert(self@.dom() =~= ks.to_set());
        ks.unique_seq_to_set();
    }

    /// An empty table.
    pub fn new() -> (t: Table<V>)
        ensures
            t.wf(),
            t@ == Map::<Seq<char>, V>::empty(),
            t.keys() == Seq::<Seq<char>>::empty(),
    {
        let t = Table { index: index_new(), keys: Vec::new(), values: Vec::new() };
        assert(t@ =~= Map::<Seq<char>, V>::empty());
        assert(t.keys() =~= Seq::<Seq<char>>::empty());
        t
    }

    /// The number of rows.
    pub fn len(&self) -> (n: usize)
        requires
            self.wf(),
        ensures
            n == self.keys().len(),
            n == self@.len(),
    {
        proof {
            self.lemma_rows();
        }
        self.keys.len()
    }

    /// The key of a row.
    pub fn key_at(&self, row: usize) -> (key: &String)
        requires
            self.wf(),
            row < self.keys().len(),
        ensures
            key@ == self.keys()[row as int],
    {
        &self.keys[row]
    }

    /// The value of a row.
    pub fn value_at(&self, row: usize) -> (value: &V)
        requires
            self.wf(),
            row < self.keys().len(),
        ensures
            self@.contains_key(self.keys()[row as int]),
            *value == self@[self.keys()[row as int]],
    {
        assert(self.keys()[row as int] == self.keys@[row as int]@);
        &self.values[row]
    }

    /// Whether there is a value under a key.
    pub fn contains_key(&self, key: &str) -> (found: bool)
        requires
            self.wf(),
        ensures
            found == self@.contains_key(key@),
    {
        index_get(&self.index, key).is_some()
    }

    /// The value under a key.
    pub fn get(&self, key: &str) -> (value: Option<&V>)
        requires
            self.wf(),
        ensures
            match value {
                Some(v) => self@.contains_key(key@) && *v == self@[key@],
                None => !self@.contains_key(key@),
            },
    {
        let rows: usize = self.values.len();
        match index_get(&self.index, key) {
            Some(row) => {
                assert(row < rows);
                Some(&self.values[row as usize])
            },
            None => None,
        }
    }

    /// Puts a value under a key and hands back the one that was there.
    pub fn insert(&mut self, key: String, value: V) -> (previous: Option<V>)
        requires
            old(self).wf(),
        ensures
            final(self).wf(),
            final(self)@ == old(self)@.insert(key@, value),
            previous == (if old(self)@.contains_key(key@) {
                Some(old(self)@[key@])
            } else {
                None::<V>
            }),
            final(self).keys() == (if old(self)@.contains_key(key@) {
                old(self).keys()
            } else {
                old(self).keys().push(key@)
            }),
    {
        let ghost before = *self;
        match index_get(&self.index, key.as_str()) {
            Some(row) => {
                let rows: usize = self.values.len();
                assert(row < rows);
                let at: usize = row as usize;
                self.values.push(value);
                let previous = self.values.swap_remove(at);
                proof {
                    assert(self.values@ =~= before.values@.update(at as int, value));
                    assert(self@ =~= before@.insert(key@, value));
                }
                Some(previous)
            },
            None => {
                let row: u64 = self.keys.len() as u64;
                self.values.push(value);
                self.keys.push(key.clone());
                index_insert(&mut self.index, key, row);
                proof {
                    let n = before.keys@.len() as int;
                    assert forall|i: int| 0 <= i < self.keys@.len() implies index_entries(
                        self.index,
                    ).contains_key(#[trigger] self.keys@[i]@) && index_entries(
                        self.index,
                    )[self.keys@[i]@] == i by {
                        if i < n {
                            assert(self.keys@[i] == before.keys@[i]);
                        }
                    }
                    assert forall|k: Seq<char>| #[trigger]
                        index_entries(self.index).contains_key(k) implies index_entries(
                        self.index,
                    )[k] < self.keys@.len() && self.keys@[index_entries(self.index)[k] as int]@
                        == k by {
                        if k != key@ {
                            assert(index_entries(before.index).contains_key(k));
                        }
                    }
                    assert(self@ =~= before@.insert(key@, value));
                    assert(self.keys() =~= before.keys().push(key@));
                }
                None
            },
        }
    }

    /// Takes the value under a key out. The last row takes the place of the row that is freed.
    pub fn remove(&mut self, key: &str) -> (removed: Option<V>)
        requires
            old(self).wf(),
        ensures
            final(self).wf(),
            final(self)@ == old(self)@.remove(key@),
            removed == (if old(self)@.contains_key(key@) {
                Some(old(self)@[key@])
            } else {
                None::<V>
            }),
            !old(self)@.contains_key(key@) ==> final(self).keys() == old(self).keys(),
    {
        let ghost before = *self;
        match index_get(&self.index, key) {
            Some(row) => {
                let rows: usize = self.keys.len();
                assert(row < rows);
                let at: usize = row as usize;
                let last: usize = rows - 1;
                let _ = self.keys.swap_remove(at);
                let removed = self.values.swap_remove(at);
                index_remove(&mut self.index, key);
                if at < last {
                    let moved = self.keys[at].clone();
                    index_insert(&mut self.index, moved, row);
                }
                proof {
                    let old_entries = index_entries(before.index);
                    let entries = index_entries(self.index);
                    assert(before.keys@[at as int]@ == key@);
                    assert forall|i: int| 0 <= i < self.keys@.len() implies entries.contains_key(
                        #[trigger] self.keys@[i]@,
                    ) && entries[self.keys@[i]@] == i by {
                        if i == at {
                            assert(self.keys@[i] == before.keys@[last as int]);
                        } else {
                            assert(self.keys@[i] == before.keys@[i]);
                            assert(old_entries[before.keys@[i]@] == i);
                            assert(old_entries[before.keys@[last as int]@] == last);
                        }
                    }
                    assert forall|k: Seq<char>| #[trigger] entries.contains_key(k) implies
                        entries[k] < self.keys@.len() && self.keys@[entries[k] as int]@ == k by {
                        if at < last && k == before.keys@[last as int]@ {
                        } else {
                            assert(old_entries.contains_key(k));
                            assert(k != key@);
                            assert(entries[k] == old_entries[k]);
                            assert(before.keys@[old_entries[k] as int]@ == k);
                        }
                    }
                    assert forall|k: Seq<char>| self@.contains_key(k) == before@.remove(
                        key@,
                    ).contains_key(k) by {
                        if at < last {
                            assert(before.keys@[last as int]@ != key@) by {
                                assert(old_entries[before.keys@[last as int]@] == last);
                            }
                            assert(old_entries.contains_key(before.keys@[last as int]@));
                        }
                    }
                    assert forall|k: Seq<char>| self@.contains_key(k) implies self@[k]
                        == before@.remove(key@)[k] by {
                        let r = entries[k] as int;
                        assert(entries.contains_key(k));
                        assert(self.keys@[r]@ == k);
                        if r == at {
                            assert(self.values@[r] == before.values@[last as int]);
                            assert(old_entries[before.keys@[last as int]@] == last);
                        } else {
                            assert(self.values@[r] == before.values@[r]);
                            assert(self.keys@[r] == before.keys@[r]);
                            assert(old_entries[before.keys@[r]@] == r);
                        }
                    }
                    assert(self@ =~= before@.remove(key@));
                }
                Some(removed)
            },
            None => {
                assert(self@ =~= before@.remove(key@));
                None
            },
        }
    }

    /// Takes everything out.
    pub fn clear(&mut self)
        requires
            old(self).wf(),
        ensures
            final(self).wf(),
            final(self)@ == Map::<Seq<char>, V>::empty(),
            final(self).keys() == Seq::<Seq<char>>::empty(),
    {
        index_clear(&mut self.index);
        self.keys.clear();
        self.values.clear();
        assert(self@ =~= Map::<Seq<char>, V>::empty());
        assert(self.keys() =~= Seq::<Seq<char>>::empty());
    }
}

} // verus!
