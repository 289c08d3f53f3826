//! A table: rows under distinct keys, in the order in which their keys first came.
//!
//! Keys are numbers, texts and tuples of them, and most readers walk over all rows. A table is walked by
//! place, in an order that its contract states, and speaks of its keys by their views whatever they are; a
//! hash map is walked in no order, and where its keys are texts or tuples it promises nothing of them.

use crate::text;
use vstd::prelude::*;

verus! {

/// What can key a table: a value that is told apart by its view.
pub trait TableKey: View {
    /// Whether two keys are the same.
    fn same_key(&self, other: &Self) -> (r: bool)
        ensures
            r == (self@ == other@),
    ;
}

impl TableKey for u128 {
    fn same_key(&self, other: &Self) -> (r: bool) {
        *self == *other
    }
}

impl TableKey for String {
    fn same_key(&self, other: &Self) -> (r: bool) {
        text::same(self.as_str(), other.as_str())
    }
}

impl TableKey for (u128, u128) {
    fn same_key(&self, other: &Self) -> (r: bool) {
        self.0 == other.0 && self.1 == other.1
    }
}

impl TableKey for (u128, i128) {
    fn same_key(&self, other: &Self) -> (r: bool) {
        self.0 == other.0 && self.1 == other.1
    }
}

impl TableKey for (u128, String) {
    fn same_key(&self, other: &Self) -> (r: bool) {
        self.0 == other.0 && text::same(self.1.as_str(), other.1.as_str())
    }
}

impl TableKey for (u128, i32, u32) {
    fn same_key(&self, other: &Self) -> (r: bool) {
        self.0 == other.0 && self.1 == other.1 && self.2 == other.2
    }
}

/// Rows under distinct keys: the row under a key stands at the key's place.
pub struct Table<K: TableKey, V> {
    names: Vec<K>,
    rows: Vec<V>,
}

/// The views of keys.
pub open spec fn views_of<K: TableKey>(names: Seq<K>) -> Seq<K::V> {
    names.map_values(|name: K| name@)
}

/// The rows by key; of two rows with one key the later counts.
pub open spec fn row_map<A, V>(keys: Seq<A>, rows: Seq<V>) -> Map<A, V>
    decreases keys.len(),
{
    if keys.len() == 0 {
        Map::empty()
    } else {
        row_map(keys.drop_last(), rows).insert(keys.last(), rows[keys.len() - 1])
    }
}

impl<K: TableKey, V> Table<K, V> {
    /// The rows by key.
    pub closed spec fn view(&self) -> Map<K::V, V> {
        row_map(views_of(self.names@), self.rows@)
    }

    /// The keys in the order of the rows.
    pub closed spec fn keys(&self) -> Seq<K::V> {
        views_of(self.names@)
    }

    /// No key stands twice, and each has its row.
    #[verifier::type_invariant]
    spec fn distinct(self) -> bool {
        &&& views_of(self.names@).no_duplicates()
        &&& self.names@.len() == self.rows@.len()
    }
}

proof fn lemma_row_map<A, V>(keys: Seq<A>, rows: Seq<V>)
    requires
        keys.no_duplicates(),
        keys.len() <= rows.len(),
    ensures
        row_map(keys, rows).dom() =~= keys.to_set(),
        forall|k: A| row_map(keys, rows).contains_key(k) == #[trigger] keys.contains(k),
        forall|i: int| 0 <= i < keys.len() ==> row_map(keys, rows)[#[trigger] keys[i]] == rows[i],
        row_map(keys, rows).dom().finite(),
    decreases keys.len(),
{
    if keys.len() > 0 {
        let most = keys.drop_last();
        lemma_row_map(most, rows);
        assert forall|k: A| row_map(keys, rows).contains_key(k) == #[trigger] keys.contains(k) by {
            if keys.contains(k) {
                let i = choose|i: int| 0 <= i < keys.len() && keys[i] == k;
                if i < most.len() {
                    assert(most[i] == k);
                    assert(most.contains(k));
                }
            }
            if row_map(keys, rows).contains_key(k) {
                if k != keys.last() {
                    assert(most.contains(k));
                    let i = choose|i: int| 0 <= i < most.len() && most[i] == k;
                    assert(keys[i] == k);
                }
            }
        }
        assert forall|i: int| 0 <= i < keys.len() implies row_map(keys, rows)[#[trigger] keys[i]]
            == rows[i] by {
            if i < most.len() {
                assert(most[i] == keys[i]);
                assert(keys[i] != keys[keys.len() - 1]);
            }
        }
        assert(row_map(keys, rows).dom() =~= keys.to_set());
    } else {
        assert(keys.to_set() =~= Set::empty());
    }
}

proof fn lemma_row_map_update<A, V>(keys: Seq<A>, rows: Seq<V>, i: int, row: V)
    requires
        keys.no_duplicates(),
        keys.len() == rows.len(),
        0 <= i < rows.len(),
    ensures
        row_map(keys, rows.update(i, row)) == row_map(keys, rows).insert(keys[i], row),
{
    let new = rows.update(i, row);
    lemma_row_map(keys, rows);
    lemma_row_map(keys, new);
    let inserted = row_map(keys, rows).insert(keys[i], row);
    assert(keys.contains(keys[i]));
    assert forall|k: A| row_map(keys, new).contains_key(k) implies row_map(keys, new)[k]
        == inserted[k] by {
        assert(keys.contains(k));
        let j = choose|j: int| 0 <= j < keys.len() && keys[j] == k;
        assert(row_map(keys, new)[keys[j]] == new[j]);
        assert(row_map(keys, rows)[keys[j]] == rows[j]);
    }
    assert(row_map(keys, new) =~= inserted);
}

proof fn lemma_row_map_push<A, V>(keys: Seq<A>, rows: Seq<V>, key: A, row: V)
    requires
        keys.len() == rows.len(),
        keys.no_duplicates(),
        !keys.contains(key),
    ensures
        row_map(keys.push(key), rows.push(row)) == row_map(keys, rows).insert(key, row),
        keys.push(key).no_duplicates(),
{
    let more = keys.push(key);
    assert(more.drop_last() =~= keys);
    lemma_row_map(keys, rows);
    lemma_row_map(keys, rows.push(row));
    assert forall|k: A| row_map(keys, rows).contains_key(k) implies row_map(keys, rows)[k]
        == row_map(keys, rows.push(row))[k] by {
        assert(keys.contains(k));
        let j = choose|j: int| 0 <= j < keys.len() && keys[j] == k;
        assert(row_map(keys, rows)[keys[j]] == rows[j]);
        assert(row_map(keys, rows.push(row))[keys[j]] == rows.push(row)[j]);
    }
    assert(row_map(keys, rows) =~= row_map(keys, rows.push(row)));
    assert forall|a: int, b: int| 0 <= a < more.len() && 0 <= b < more.len() && a != b implies
        more[a] != more[b] by {
        if a < keys.len() {
            assert(keys.contains(keys[a]));
        }
        if b < keys.len() {
            assert(keys.contains(keys[b]));
        }
    }
}

proof fn lemma_row_map_remove<A, V>(keys: Seq<A>, rows: Seq<V>, i: int)
    requires
        keys.no_duplicates(),
        keys.len() == rows.len(),
        0 <= i < rows.len(),
    ensures
        keys.remove(i).no_duplicates(),
        row_map(keys.remove(i), rows.remove(i)) == row_map(keys, rows).remove(keys[i]),
{
    let fewer = keys.remove(i);
    let new = rows.remove(i);
    assert forall|a: int, b: int| 0 <= a < fewer.len() && 0 <= b < fewer.len() && a != b implies
        fewer[a] != fewer[b] by {
        let a2 = if a < i {
            a
        } else {
            a + 1
        };
        let b2 = if b < i {
            b
        } else {
            b + 1
        };
        assert(keys[a2] != keys[b2]);
    }
    lemma_row_map(keys, rows);
    lemma_row_map(fewer, new);
    let removed = row_map(keys, rows).remove(keys[i]);
    assert forall|k: A| row_map(fewer, new).contains_key(k) == removed.contains_key(k) by {
        if row_map(fewer, new).contains_key(k) {
            assert(fewer.contains(k));
            let j = choose|j: int| 0 <= j < fewer.len() && fewer[j] == k;
            let j2 = if j < i {
                j
            } else {
                j + 1
            };
            assert(keys[j2] == k);
            assert(keys.contains(k));
        }
        if removed.contains_key(k) {
            assert(keys.contains(k));
            let j = choose|j: int| 0 <= j < keys.len() && keys[j] == k;
            let j2 = if j < i {
                j
            } else {
                j - 1
            };
            assert(fewer[j2] == k);
            assert(fewer.contains(k));
        }
    }
    assert forall|k: A| row_map(fewer, new).contains_key(k) implies row_map(fewer, new)[k]
        == removed[k] by {
        assert(fewer.contains(k));
        let j = choose|j: int| 0 <= j < fewer.len() && fewer[j] == k;
        let j2 = if j < i {
            j
        } else {
            j + 1
        };
        assert(row_map(fewer, new)[fewer[j]] == new[j]);
        assert(row_map(keys, rows)[keys[j2]] == rows[j2]);
        assert(keys[j2] == k);
    }
    assert(row_map(fewer, new) =~= removed);
}

impl<K: TableKey, V> Table<K, V> {
    /// A table without rows.
    pub fn new() -> (table: Self)
        ensures
            table@ == Map::<K::V, V>::empty(),
            table.keys() == Seq::<K::V>::empty(),
    {
        let names: Vec<K> = Vec::new();
        assert(views_of(names@) =~= Seq::empty());
        Table { names, rows: Vec::new() }
    }

    /// The number of rows. Every row stands under one of the keys, and each key is there once.
    pub fn len(&self) -> (n: usize)
        ensures
            n == self.keys().len(),
            self.keys().no_duplicates(),
            self@.dom() == self.keys().to_set(),
            self@.dom().finite(),
            forall|k: K::V| self@.contains_key(k) == #[trigger] self.keys().contains(k),
            forall|i: int|
                0 <= i < self.keys().len() ==> self@.contains_key(#[trigger] self.keys()[i]),
    {
        proof {
            use_type_invariant(self);
            lemma_row_map(self.keys(), self.rows@);
            assert forall|i: int| 0 <= i < self.keys().len() implies self@.contains_key(
                #[trigger] self.keys()[i],
            ) by {
                assert(self.keys().contains(self.keys()[i]));
            }
        }
        self.names.len()
    }

    /// The key of the row at a place.
    pub fn key_at(&self, i: usize) -> (key: &K)
        requires
            i < self.keys().len(),
        ensures
            key@ == self.keys()[i as int],
    {
        &self.names[i]
    }

    /// The row at a place.
    pub fn row_at(&self, i: usize) -> (row: &V)
        requires
            i < self.keys().len(),
        ensures
            *row == self@[self.keys()[i as int]],
    {
        proof {
            use_type_invariant(self);
            lemma_row_map(self.keys(), self.rows@);
        }
        &self.rows[i]
    }

    /// The place of a key, or the number of rows where it has none.
    fn place_of(&self, key: &K) -> (i: usize)
        ensures
            i <= self.keys().len(),
            i < self.keys().len() ==> self.keys()[i as int] == key@ && self.keys().contains(key@),
            i == self.keys().len() ==> !self.keys().contains(key@),
    {
        let mut i: usize = 0;
        while i < self.names.len()
            invariant
                i <= self.names@.len(),
                forall|j: int| 0 <= j < i ==> #[trigger] self.keys()[j] != key@,
            decreases self.names@.len() - i,
        {
            if self.names[i].same_key(key) {
                assert(self.keys()[i as int] == key@);
                return i;
            }
            i += 1;
        }
        i
    }

    /// The row under a key.
    pub fn get(&self, key: &K) -> (row: Option<&V>)
        ensures
            match row {
                Some(v) => self@.contains_key(key@) && *v == self@[key@],
                None => !self@.contains_key(key@),
            },
    {
        let i = self.place_of(key);
        if i < self.len() {
            Some(self.row_at(i))
        } else {
            None
        }
    }

    /// Whether a row stands under the key.
    pub fn contains(&self, key: &K) -> (r: bool)
        ensures
            r == self@.contains_key(key@),
    {
        self.get(key).is_some()
    }

    /// The row under a key, to be changed.
    pub fn get_mut(&mut self, key: &K) -> (row: Option<&mut V>)
        ensures
            match row {
                Some(v) => {
                    &&& old(self)@.contains_key(key@)
                    &&& *v == old(self)@[key@]
                    &&& final(self)@ == old(self)@.insert(key@, *final(v))
                },
                None => !old(self)@.contains_key(key@) && final(self)@ == old(self)@,
            },
            final(self).keys() == old(self).keys(),
    {
        proof {
            use_type_invariant(&*self);
            lemma_row_map(self.keys(), self.rows@);
            assert forall|i: int, row: V| 0 <= i < self.rows@.len() implies row_map(
                self.keys(),
                #[trigger] self.rows@.update(i, row),
            ) == row_map(self.keys(), self.rows@).insert(self.keys()[i], row) by {
                lemma_row_map_update(self.keys(), self.rows@, i, row);
            }
        }
        let i = self.place_of(key);
        if i < self.rows.len() {
            Some(&mut self.rows[i])
        } else {
            None
        }
    }

    /// Puts a row under a key, in place of the one that stood there.
    pub fn put(&mut self, key: K, row: V)
        ensures
            final(self)@ == old(self)@.insert(key@, row),
            final(self).keys() == (if old(self)@.contains_key(key@) {
                old(self).keys()
            } else {
                old(self).keys().push(key@)
            }),
    {
        proof {
            use_type_invariant(&*self);
            lemma_row_map(self.keys(), self.rows@);
        }
        let i = self.place_of(&key);
        let names: Vec<K> = Vec::new();
        let rows: Vec<V> = Vec::new();
        assert(views_of(names@) =~= Seq::empty());
        let mut empty = Table { names, rows };
        std::mem::swap(self, &mut empty);
        let Table { mut names, mut rows } = empty;
        let ghost keys = views_of(names@);
        if i < rows.len() {
            proof {
                lemma_row_map_update(keys, rows@, i as int, row);
            }
            rows.set(i, row);
        } else {
            proof {
                lemma_row_map_push(keys, rows@, key@, row);
            }
            names.push(key);
            rows.push(row);
            assert(views_of(names@) =~= keys.push(key@));
        }
        *self = Table { names, rows };
    }

    /// Takes the row under a key away.
    pub fn remove(&mut self, key: &K) -> (row: Option<V>)
        ensures
            match row {
                Some(v) => old(self)@.contains_key(key@) && v == old(self)@[key@],
                None => !old(self)@.contains_key(key@),
            },
            final(self)@ == old(self)@.remove(key@),
            row is None ==> final(self).keys() == old(self).keys(),
    {
        proof {
            use_type_invariant(&*self);
            lemma_row_map(self.keys(), self.rows@);
        }
        let i = self.place_of(key);
        if i < self.rows.len() {
            let names: Vec<K> = Vec::new();
            let rows: Vec<V> = Vec::new();
            assert(views_of(names@) =~= Seq::empty());
            let mut empty = Table { names, rows };
            std::mem::swap(self, &mut empty);
            let Table { mut names, mut rows } = empty;
            let ghost keys = views_of(names@);
            proof {
                lemma_row_map_remove(keys, rows@, i as int);
            }
            names.remove(i);
            let row = rows.remove(i);
            assert(views_of(names@) =~= keys.remove(i as int));
            *self = Table { names, rows };
            Some(row)
        } else {
            assert(self@.remove(key@) =~= self@);
            None
        }
    }
}

/// One more of the keys has been seen.
pub proof fn lemma_one_more<A>(keys: Seq<A>, i: int)
    requires
        0 <= i < keys.len(),
        keys.no_duplicates(),
    ensures
        forall|k: A| #[trigger]
            keys.take(i + 1).contains(k) == (keys.take(i).contains(k) || k == keys[i]),
        !keys.take(i).contains(keys[i]),
{
    let more = keys.take(i + 1);
    assert forall|k: A| #[trigger] more.contains(k) == (keys.take(i).contains(k) || k == keys[i]) by {
        if more.contains(k) {
            let j = choose|j: int| 0 <= j < more.len() && more[j] == k;
            if j < i {
                assert(keys.take(i)[j] == k);
            }
        }
        if keys.take(i).contains(k) {
            let j = choose|j: int| 0 <= j < keys.take(i).len() && keys.take(i)[j] == k;
            assert(more[j] == k);
        }
        assert(more[i] == keys[i]);
    }
    if keys.take(i).contains(keys[i]) {
        let j = choose|j: int| 0 <= j < keys.take(i).len() && keys.take(i)[j] == keys[i];
        assert(keys[j] == keys[i]);
    }
}

} // verus!
