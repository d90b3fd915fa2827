//! A small key-value table: a vector of rows in which no key occurs twice.
//!
//! It stands in for the two-level mappings of the ledger. Its view is a finite
//! `Map`; a write to a key that is present changes the row in place, and a write
//! to a new key adds a row.

use crate::primitives::{Address, U256};
use vstd::prelude::*;

verus! {

/// A key of a [`Table`]: a value that can be copied and told apart from another.
pub trait Key: Sized {
    /// Whether the two are the same key.
    fn same(&self, other: &Self) -> (r: bool)
        ensures
            r == (*self == *other),
    ;

    /// The key once more.
    fn copied(&self) -> (r: Self)
        ensures
            r == *self,
    ;
}

impl Key for (U256, Address) {
    fn same(&self, other: &(U256, Address)) -> (r: bool) {
        self.0.same_as(&other.0) && self.1.same_as(&other.1)
    }

    fn copied(&self) -> (r: (U256, Address)) {
        (self.0, self.1)
    }
}

impl Key for (Address, Address) {
    fn same(&self, other: &(Address, Address)) -> (r: bool) {
        self.0.same_as(&other.0) && self.1.same_as(&other.1)
    }

    fn copied(&self) -> (r: (Address, Address)) {
        (self.0, self.1)
    }
}

/// The map that a sequence of rows stands for. Where a key occurs twice, the
/// later row counts.
pub open spec fn rows_map<K, V>(rows: Seq<(K, V)>) -> Map<K, V>
    decreases rows.len(),
{
    if rows.len() == 0 {
        Map::empty()
    } else {
        rows_map(rows.drop_last()).insert(rows.last().0, rows.last().1)
    }
}

/// Whether no key occurs in two rows.
pub open spec fn distinct_keys<K, V>(rows: Seq<(K, V)>) -> bool {
    forall|i: int, j: int| 0 <= i < j < rows.len() ==> rows[i].0 != rows[j].0
}

/// Whether some row has the key.
pub open spec fn has_key<K, V>(rows: Seq<(K, V)>, key: K) -> bool {
    exists|i: int| 0 <= i < rows.len() && (#[trigger] rows[i]).0 == key
}

/// The map of a sequence of rows is finite, its keys are the keys of the rows,
/// and where no key occurs twice each row's value is the one under its key.
pub proof fn lemma_rows_map<K, V>(rows: Seq<(K, V)>)
    ensures
        rows_map(rows).dom().finite(),
        forall|key: K| rows_map(rows).dom().contains(key) <==> has_key(rows, key),
        distinct_keys(rows) ==> forall|i: int|
            0 <= i < rows.len() ==> rows_map(rows)[(#[trigger] rows[i]).0] == rows[i].1,
    decreases rows.len(),
{
    if rows.len() > 0 {
        let front = rows.drop_last();
        let last = rows.last();
        lemma_rows_map(front);
        assert forall|key: K| rows_map(rows).dom().contains(key) <==> has_key(rows, key) by {
            if has_key(front, key) {
                let i = choose|i: int| 0 <= i < front.len() && (#[trigger] front[i]).0 == key;
                assert(rows[i].0 == key);
            }
            if key == last.0 {
                assert(rows[rows.len() - 1].0 == key);
            }
            if has_key(rows, key) && key != last.0 {
                let i = choose|i: int| 0 <= i < rows.len() && (#[trigger] rows[i]).0 == key;
                assert(front[i].0 == key);
            }
        }
        if distinct_keys(rows) {
            assert(distinct_keys(front)) by {
                assert forall|i: int, j: int| 0 <= i < j < front.len() implies front[i].0
                    != front[j].0 by {
                    assert(rows[i].0 != rows[j].0);
                }
            }
            assert forall|i: int| 0 <= i < rows.len() implies rows_map(rows)[(#[trigger] rows[i]).0]
                == rows[i].1 by {
                if i < rows.len() - 1 {
                    assert(front[i] == rows[i]);
                    assert(rows[i].0 != rows[rows.len() - 1].0);
                }
            }
        }
    }
}

/// Writing a row in place of one with the same key writes the value under that
/// key.
pub proof fn lemma_rows_map_update<K, V>(rows: Seq<(K, V)>, i: int, key: K, value: V)
    requires
        distinct_keys(rows),
        0 <= i < rows.len(),
        rows[i].0 == key,
    ensures
        distinct_keys(rows.update(i, (key, value))),
        rows_map(rows.update(i, (key, value))) == rows_map(rows).insert(key, value),
{
    let after = rows.update(i, (key, value));
    assert(distinct_keys(after)) by {
        assert forall|a: int, b: int| 0 <= a < b < after.len() implies after[a].0 != after[b].0 by {
            assert(rows[a].0 != rows[b].0);
        }
    }
    lemma_rows_map(rows);
    lemma_rows_map(after);
    let expected = rows_map(rows).insert(key, value);
    assert forall|k: K| rows_map(after).dom().contains(k) <==> expected.dom().contains(k) by {
        if has_key(after, k) {
            let j = choose|j: int| 0 <= j < after.len() && (#[trigger] after[j]).0 == k;
            assert(rows[j].0 == k);
        }
        if has_key(rows, k) {
            let j = choose|j: int| 0 <= j < rows.len() && (#[trigger] rows[j]).0 == k;
            assert(after[j].0 == k);
        }
    }
    assert forall|k: K| rows_map(after).dom().contains(k) implies rows_map(after)[k]
        == expected[k] by {
        assert(has_key(after, k));
        let j = choose|j: int| 0 <= j < after.len() && (#[trigger] after[j]).0 == k;
        if j == i {
            assert(after[i].1 == value);
        } else {
            assert(rows[j].0 == k);
            assert(rows[j].0 != rows[i].0) by {
                if j < i {
                    assert(rows[j].0 != rows[i].0);
                } else {
                    assert(rows[i].0 != rows[j].0);
                }
            }
            assert(after[j] == rows[j]);
        }
    }
    assert(rows_map(after) =~= expected);
}

/// Adding a row with a new key writes its value under that key.
pub proof fn lemma_rows_map_push<K, V>(rows: Seq<(K, V)>, key: K, value: V)
    requires
        distinct_keys(rows),
        !has_key(rows, key),
    ensures
        distinct_keys(rows.push((key, value))),
        rows_map(rows.push((key, value))) == rows_map(rows).insert(key, value),
{
    let after = rows.push((key, value));
    assert(after.drop_last() =~= rows);
    assert forall|a: int, b: int| 0 <= a < b < after.len() implies after[a].0 != after[b].0 by {
        if b == rows.len() {
            assert(rows[a].0 != key);
        } else {
            assert(rows[a].0 != rows[b].0);
        }
    }
}

/// A table from keys to values.
pub struct Table<K: Key, V: Copy> {
    rows: Vec<(K, V)>,
}

impl<K: Key, V: Copy> View for Table<K, V> {
    type V = Map<K, V>;

    closed spec fn view(&self) -> Map<K, V> {
        rows_map(self.rows@)
    }
}

impl<K: Key, V: Copy> Table<K, V> {
    #[verifier::type_invariant]
    spec fn well_formed(self) -> bool {
        distinct_keys(self.rows@)
    }

    /// A table has finitely many keys.
    pub proof fn lemma_finite(self)
        ensures
            self@.dom().finite(),
    {
        lemma_rows_map(self.rows@);
    }

    /// The empty table.
    pub fn new() -> (r: Table<K, V>)
        ensures
            r@ == Map::<K, V>::empty(),
    {
        Table { rows: Vec::new() }
    }

    /// The index of the row with the key, or the number of rows where no row
    /// has it.
    fn position(&self, key: &K) -> (i: usize)
        ensures
            i <= self.rows@.len(),
            i < self.rows@.len() ==> self.rows@[i as int].0 == *key,
            i == self.rows@.len() ==> !has_key(self.rows@, *key),
    {
        let mut i: usize = 0;
        while i < self.rows.len()
            invariant
                i <= self.rows@.len(),
                forall|j: int| 0 <= j < i ==> (#[trigger] self.rows@[j]).0 != *key,
            decreases self.rows@.len() - i,
        {
            if self.rows[i].0.same(key) {
                return i;
            }
            i += 1;
        }
        i
    }

    /// The value under the key, or `None` where the key is absent.
    pub fn get(&self, key: &K) -> (r: Option<V>)
        ensures
            r == if self@.dom().contains(*key) {
                Some(self@[*key])
            } else {
                None
            },
    {
        proof {
            use_type_invariant(self);
            lemma_rows_map(self.rows@);
        }
        let i = self.position(key);
        if i < self.rows.len() {
            proof {
                assert(has_key(self.rows@, *key));
            }
            Some(self.rows[i].1)
        } else {
            None
        }
    }

    /// Writes the value under the key.
    pub fn insert(&mut self, key: K, value: V)
        ensures
            final(self)@ == old(self)@.insert(key, value),
    {
        proof {
            use_type_invariant(&*self);
        }
        let i = self.position(&key);
        let mut rows: Vec<(K, V)> = Vec::new();
        core::mem::swap(&mut self.rows, &mut rows);
        if i < rows.len() {
            proof {
                lemma_rows_map_update(rows@, i as int, key, value);
            }
            rows.set(i, (key, value));
        } else {
            proof {
                lemma_rows_map_push(rows@, key, value);
            }
            rows.push((key, value));
        }
        self.rows = rows;
    }

    /// A second table with the same contents.
    pub fn duplicate(&self) -> (r: Table<K, V>)
        ensures
            r@ == self@,
    {
        proof {
            use_type_invariant(self);
        }
        let mut rows: Vec<(K, V)> = Vec::new();
        let mut i: usize = 0;
        while i < self.rows.len()
            invariant
                i <= self.rows@.len(),
                rows@ == self.rows@.subrange(0, i as int),
            decreases self.rows@.len() - i,
        {
            rows.push((self.rows[i].0.copied(), self.rows[i].1));
            i += 1;
        }
        proof {
            assert(rows@ =~= self.rows@);
        }
        Table { rows }
    }
}

} // verus!
