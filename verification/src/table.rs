//! A small association table keyed by strings.
//!
//! Rows keep the order in which their keys first arrived; no key occurs
//! twice. The table is read either row by row or as a `Map` from key to value.

use vstd::prelude::*;

verus! {

/// Table from string keys to values of `V`.
pub struct StrMap<V> {
    rows: Vec<(String, V)>,
}

/// The keys of `rows`, each by its view.
pub open spec fn row_keys<V>(rows: Seq<(String, V)>) -> Seq<Seq<char>> {
    Seq::new(rows.len(), |i: int| rows[i].0@)
}

/// The values of `rows`.
pub open spec fn row_values<V>(rows: Seq<(String, V)>) -> Seq<V> {
    Seq::new(rows.len(), |i: int| rows[i].1)
}

/// The strings of `texts`, each by its view.
pub open spec fn text_views(texts: Map<Seq<char>, String>) -> Map<Seq<char>, Seq<char>> {
    Map::new(|key: Seq<char>| texts.contains_key(key), |key: Seq<char>| texts[key]@)
}

/// In a sequence without duplicates, an element is found where it stands.
pub proof fn lemma_index_of_unique<A>(s: Seq<A>, i: int)
    requires
        s.no_duplicates(),
        0 <= i < s.len(),
    ensures
        s.index_of(s[i]) == i,
{
    let j = s.index_of(s[i]);
    assert(0 <= j < s.len() && s[j] == s[i]);
}

/// The part of `entries` that stands under the first `upto` of `keys`.
pub open spec fn entries_upto<W>(
    keys: Seq<Seq<char>>,
    entries: Map<Seq<char>, W>,
    upto: int,
) -> Map<Seq<char>, W> {
    Map::new(|key: Seq<char>| keys.take(upto).contains(key), |key: Seq<char>| entries[key])
}

/// Taking one more key adds that key's entry.
pub proof fn lemma_entries_upto_step<W>(
    keys: Seq<Seq<char>>,
    entries: Map<Seq<char>, W>,
    upto: int,
)
    requires
        0 <= upto < keys.len(),
    ensures
        entries_upto(keys, entries, upto + 1) == entries_upto(keys, entries, upto).insert(
            keys[upto],
            entries[keys[upto]],
        ),
{
    let target = entries_upto(keys, entries, upto + 1);
    let earlier = entries_upto(keys, entries, upto);
    assert(keys.take(upto + 1) =~= keys.take(upto).push(keys[upto]));
    assert forall|key: Seq<char>| #[trigger]
        target.contains_key(key) <==> earlier.insert(keys[upto], entries[keys[upto]]).contains_key(
            key,
        ) by {
        if keys.take(upto).contains(key) {
            let j = keys.take(upto).index_of(key);
            assert(keys.take(upto + 1)[j] == key);
        }
        if key == keys[upto] {
            assert(keys.take(upto + 1)[upto] == key);
        }
    }
    assert(target =~= earlier.insert(keys[upto], entries[keys[upto]]));
}

/// Taking no key gives nothing, and taking every key gives every entry.
pub proof fn lemma_entries_upto_ends<W>(keys: Seq<Seq<char>>, entries: Map<Seq<char>, W>)
    requires
        forall|key: Seq<char>| entries.contains_key(key) <==> keys.contains(key),
    ensures
        entries_upto(keys, entries, 0) == Map::<Seq<char>, W>::empty(),
        entries_upto(keys, entries, keys.len() as int) == entries,
{
    assert(keys.take(keys.len() as int) =~= keys);
    assert(entries_upto(keys, entries, 0) =~= Map::<Seq<char>, W>::empty());
    assert(entries_upto(keys, entries, keys.len() as int) =~= entries);
}

impl<V> StrMap<V> {
    /// One value per key, and no key twice.
    #[verifier::type_invariant]
    pub closed spec fn wf(&self) -> bool {
        row_keys(self.rows@).no_duplicates()
    }

    /// The keys, in row order.
    pub closed spec fn keys(&self) -> Seq<Seq<char>> {
        row_keys(self.rows@)
    }

    /// The values, in row order.
    pub closed spec fn values(&self) -> Seq<V> {
        row_values(self.rows@)
    }

    /// The table as a map from key to value.
    pub open spec fn view(&self) -> Map<Seq<char>, V> {
        Map::new(
            |k: Seq<char>| self.keys().contains(k),
            |k: Seq<char>| self.values()[self.keys().index_of(k)],
        )
    }

    /// What well-formedness says of the rows and of the map.
    pub proof fn lemma_rows(&self)
        requires
            self.wf(),
        ensures
            self.keys().len() == self.values().len(),
            self.keys().no_duplicates(),
            self@.dom().finite(),
            forall|i: int|
                0 <= i < self.keys().len() ==> self@.contains_key(#[trigger] self.keys()[i])
                    && self@[self.keys()[i]] == self.values()[i],
    {
        let keys = self.keys();
        assert forall|i: int| 0 <= i < keys.len() implies self@.contains_key(#[trigger] keys[i])
            && self@[keys[i]] == self.values()[i] by {
            assert(keys.contains(keys[i]));
            let j = keys.index_of(keys[i]);
            assert(0 <= j < keys.len() && keys[j] == keys[i]);
        }
        assert(self@.dom() =~= keys.to_set());
        vstd::seq_lib::seq_to_set_is_finite(keys);
    }

    /// The empty table.
    pub fn new() -> (table: Self)
        ensures
            table.keys() == Seq::<Seq<char>>::empty(),
            table.values() == Seq::<V>::empty(),
            table@ == Map::<Seq<char>, V>::empty(),
    {
        let table = StrMap { rows: Vec::new() };
        assert(table.keys() =~= Seq::<Seq<char>>::empty());
        assert(table.values() =~= Seq::<V>::empty());
        assert(table@ =~= Map::<Seq<char>, V>::empty());
        table
    }

    /// Number of rows.
    pub fn len(&self) -> (n: usize)
        ensures
            n == self.keys().len(),
            n == self.values().len(),
            n == self@.dom().len(),
    {
        proof {
            use_type_invariant(self);
            self.lemma_rows();
            assert(self@.dom() =~= self.keys().to_set());
            self.keys().unique_seq_to_set();
        }
        self.rows.len()
    }

    /// Key of row `i`.
    pub fn key_at(&self, i: usize) -> (key: &String)
        requires
            i < self.keys().len(),
        ensures
            key@ == self.keys()[i as int],
    {
        &self.rows[i].0
    }

    /// Value of row `i`.
    pub fn value_at(&self, i: usize) -> (value: &V)
        requires
            i < self.values().len(),
        ensures
            *value == self.values()[i as int],
    {
        &self.rows[i].1
    }

    /// Row that holds `key`, if any.
    pub fn position(&self, key: &String) -> (found: Option<usize>)
        ensures
            match found {
                Some(i) => i < self.keys().len() && self.keys()[i as int] == key@,
                None => !self.keys().contains(key@),
            },
    {
        let mut i: usize = 0;
        while i < self.rows.len()
            invariant
                i <= self.rows.len(),
                forall|j: int| 0 <= j < i ==> self.keys()[j] != key@,
            decreases self.rows.len() - i,
        {
            if self.rows[i].0 == *key {
                return Some(i);
            }
            i = i + 1;
        }
        None
    }

    /// Whether `key` has a row.
    pub fn contains_key(&self, key: &String) -> (present: bool)
        ensures
            present == self@.contains_key(key@),
    {
        self.position(key).is_some()
    }

    /// Value stored under `key`, if any.
    pub fn get(&self, key: &String) -> (found: Option<&V>)
        ensures
            match found {
                Some(value) => self@.contains_key(key@) && *value == self@[key@],
                None => !self@.contains_key(key@),
            },
    {
        proof {
            use_type_invariant(self);
            self.lemma_rows();
        }
        match self.position(key) {
            Some(i) => Some(&self.rows[i].1),
            None => None,
        }
    }

    /// Stores `value` under `key`. A key already present keeps its row and
    /// gets the new value; a new key gets a new last row.
    pub fn insert(&mut self, key: String, value: V)
        ensures
            final(self)@ == old(self)@.insert(key@, value),
            old(self).keys().contains(key@) ==> final(self).keys() == old(self).keys()
                && final(self).values() == old(self).values().update(
                old(self).keys().index_of(key@),
                value,
            ),
            !old(self).keys().contains(key@) ==> final(self).keys() == old(self).keys().push(key@)
                && final(self).values() == old(self).values().push(value),
    {
        proof {
            use_type_invariant(&*self);
            self.lemma_rows();
        }
        let ghost before = *self;
        let found = self.position(&key);
        let mut rows: Vec<(String, V)> = Vec::new();
        std::mem::swap(&mut rows, &mut self.rows);
        match found {
            Some(i) => {
                rows.set(i, (key, value));
            },
            None => {
                rows.push((key, value));
            },
        }
        proof {
            let keys = row_keys(rows@);
            if found is Some {
                assert(before.keys().index_of(key@) == found->0);
                assert(keys =~= before.keys());
                assert(row_values(rows@) =~= before.values().update(found->0 as int, value));
            } else {
                assert(keys =~= before.keys().push(key@));
                assert(row_values(rows@) =~= before.values().push(value));
                assert forall|a: int, b: int|
                    0 <= a < keys.len() && 0 <= b < keys.len() && a != b implies keys[a]
                    != keys[b] by {
                    if a < before.keys().len() {
                        assert(before.keys()[a] == keys[a]);
                    }
                    if b < before.keys().len() {
                        assert(before.keys()[b] == keys[b]);
                    }
                }
            }
        }
        self.rows = rows;
        proof {
            self.lemma_rows();
            let after = *self;
            assert forall|k: Seq<char>| after@.contains_key(k) implies #[trigger] after@[k]
                == before@.insert(key@, value)[k] by {
                let j = after.keys().index_of(k);
                assert(0 <= j < after.keys().len() && after.keys()[j] == k);
                lemma_index_of_unique(after.keys(), j);
                if j < before.keys().len() {
                    assert(before.keys()[j] == k);
                    lemma_index_of_unique(before.keys(), j);
                }
            }
            assert forall|k: Seq<char>|
                after@.contains_key(k) <==> before@.insert(key@, value).contains_key(k) by {
                if before.keys().contains(k) {
                    let j = before.keys().index_of(k);
                    assert(after.keys()[j] == k);
                }
                if k == key@ && found is None {
                    assert(after.keys()[before.keys().len() as int] == k);
                }
            }
            assert(after@ =~= before@.insert(key@, value));
        }
    }

    /// Takes the row of `key` out, if there is one. The other rows keep
    /// their order.
    pub fn remove(&mut self, key: &String) -> (removed: Option<V>)
        ensures
            final(self)@ == old(self)@.remove(key@),
            match removed {
                Some(value) => old(self)@.contains_key(key@) && value == old(self)@[key@],
                None => !old(self)@.contains_key(key@),
            },
            old(self).keys().contains(key@) ==> final(self).keys() == old(self).keys().remove(
                old(self).keys().index_of(key@),
            ) && final(self).values() == old(self).values().remove(
                old(self).keys().index_of(key@),
            ),
            !old(self).keys().contains(key@) ==> final(self).keys() == old(self).keys()
                && final(self).values() == old(self).values(),
    {
        proof {
            use_type_invariant(&*self);
            self.lemma_rows();
        }
        let ghost before = *self;
        match self.position(key) {
            None => {
                assert(self@ =~= before@.remove(key@));
                None
            },
            Some(i) => {
                let mut rows: Vec<(String, V)> = Vec::new();
                std::mem::swap(&mut rows, &mut self.rows);
                let row = rows.remove(i);
                proof {
                    let keys = row_keys(rows@);
                    lemma_index_of_unique(before.keys(), i as int);
                    assert(keys =~= before.keys().remove(i as int));
                    assert(row_values(rows@) =~= before.values().remove(i as int));
                    assert forall|a: int, b: int|
                        0 <= a < keys.len() && 0 <= b < keys.len() && a != b implies keys[a]
                        != keys[b] by {
                        let a0 = if a < i { a } else { a + 1 };
                        let b0 = if b < i { b } else { b + 1 };
                        assert(keys[a] == before.keys()[a0]);
                        assert(keys[b] == before.keys()[b0]);
                    }
                }
                self.rows = rows;
                proof {
                    self.lemma_rows();
                    let after = *self;
                    assert forall|k: Seq<char>|
                        after@.contains_key(k) <==> before@.remove(key@).contains_key(k) by {
                        if after.keys().contains(k) {
                            let j = after.keys().index_of(k);
                            let j0 = if j < i { j } else { j + 1 };
                            assert(before.keys()[j0] == k);
                        }
                        if before.keys().contains(k) && k != key@ {
                            let j0 = before.keys().index_of(k);
                            let j = if j0 < i { j0 } else { j0 - 1 };
                            assert(after.keys()[j] == k);
                        }
                    }
                    assert forall|k: Seq<char>| after@.contains_key(k) implies #[trigger] after@[k]
                        == before@.remove(key@)[k] by {
                        let j = after.keys().index_of(k);
                        let j0 = if j < i { j } else { j + 1 };
                        assert(0 <= j < after.keys().len() && after.keys()[j] == k);
                        assert(before.keys()[j0] == k);
                        lemma_index_of_unique(before.keys(), j0);
                        lemma_index_of_unique(after.keys(), j);
                    }
                    assert(after@ =~= before@.remove(key@));
                }
                Some(row.1)
            },
        }
    }
}

} // verus!
