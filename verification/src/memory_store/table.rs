//! A small keyed table held in memory: the rows are kept in the order they
//! were added, and the last row with a key is the one that counts.

use vstd::prelude::*;

verus! {

/// A key that can be compared at run time, with the mathematical value it
/// stands for.
pub trait TableKey: Sized {
    type Id;

    spec fn id(&self) -> Self::Id;

    fn same(&self, other: &Self) -> (r: bool)
        ensures
            r == (self.id() == other.id()),
    ;
}

/// One row: a key and the value stored under it.
pub struct Entry<K, V> {
    pub key: K,
    pub value: V,
}

/// The map that a list of rows stands for.
pub open spec fn entries_map<K: TableKey, V>(entries: Seq<Entry<K, V>>) -> Map<K::Id, V>
    decreases entries.len(),
{
    if entries.len() == 0 {
        Map::empty()
    } else {
        entries_map(entries.drop_last()).insert(entries.last().key.id(), entries.last().value)
    }
}

/// Whether row `index` is the one that counts for its key.
pub open spec fn decides<K: TableKey, V>(entries: Seq<Entry<K, V>>, index: int) -> bool {
    &&& 0 <= index < entries.len()
    &&& forall|j: int| index < j < entries.len() ==> (#[trigger] entries[j]).key.id() != entries[index].key.id()
}

/// The row that counts for its key is what the map holds under that key.
pub proof fn lemma_deciding_row<K: TableKey, V>(entries: Seq<Entry<K, V>>, index: int)
    requires
        decides(entries, index),
    ensures
        entries_map(entries).contains_key(entries[index].key.id()),
        entries_map(entries)[entries[index].key.id()] == entries[index].value,
    decreases entries.len(),
{
    if index < entries.len() - 1 {
        assert(entries.drop_last()[index] == entries[index]);
        assert forall|j: int| index < j < entries.drop_last().len() implies (#[trigger] entries.drop_last()[j]).key.id()
            != entries.drop_last()[index].key.id() by {
            assert(entries.drop_last()[j] == entries[j]);
        }
        lemma_deciding_row(entries.drop_last(), index);
        assert(entries[entries.len() - 1].key.id() != entries[index].key.id());
    }
}

/// A key that no row carries is not in the map.
pub proof fn lemma_no_row<K: TableKey, V>(entries: Seq<Entry<K, V>>, id: K::Id)
    requires
        forall|j: int| 0 <= j < entries.len() ==> (#[trigger] entries[j]).key.id() != id,
    ensures
        !entries_map(entries).contains_key(id),
    decreases entries.len(),
{
    if entries.len() > 0 {
        assert forall|j: int| 0 <= j < entries.drop_last().len() implies (#[trigger] entries.drop_last()[j]).key.id()
            != id by {
            assert(entries.drop_last()[j] == entries[j]);
        }
        lemma_no_row(entries.drop_last(), id);
        assert(entries[entries.len() - 1].key.id() != id);
    }
}

/// Replacing the value of the row that counts replaces the map's value
/// under its key.
pub proof fn lemma_replaced_row<K: TableKey, V>(entries: Seq<Entry<K, V>>, index: int, value: V)
    requires
        decides(entries, index),
    ensures
        entries_map(entries.update(index, Entry { key: entries[index].key, value })) == entries_map(
            entries,
        ).insert(entries[index].key.id(), value),
    decreases entries.len(),
{
    let changed = entries.update(index, Entry { key: entries[index].key, value });
    if index == entries.len() - 1 {
        assert(changed.drop_last() =~= entries.drop_last());
        assert(entries_map(changed) =~= entries_map(entries).insert(entries[index].key.id(), value));
    } else {
        let front = entries.drop_last();
        assert(front[index] == entries[index]);
        assert forall|j: int| index < j < front.len() implies (#[trigger] front[j]).key.id()
            != front[index].key.id() by {
            assert(front[j] == entries[j]);
        }
        lemma_replaced_row(front, index, value);
        assert(changed.drop_last() =~= front.update(index, Entry { key: entries[index].key, value }));
        assert(changed.last() == entries.last());
        assert(entries[entries.len() - 1].key.id() != entries[index].key.id());
        assert(entries_map(changed) =~= entries_map(entries).insert(entries[index].key.id(), value));
    }
}

/// A table of rows.
pub struct Table<K, V> {
    pub entries: Vec<Entry<K, V>>,
}

impl<K: TableKey, V> Table<K, V> {
    /// The map this table stands for.
    pub open spec fn map(&self) -> Map<K::Id, V> {
        entries_map(self.entries@)
    }

    /// A table without rows.
    pub fn new() -> (table: Self)
        ensures
            table.map() == Map::<K::Id, V>::empty(),
    {
        Table { entries: Vec::new() }
    }

    /// The index of the row that counts for `key`, if there is one.
    pub fn find(&self, key: &K) -> (found: Option<usize>)
        ensures
            match found {
                Some(index) => {
                    &&& decides(self.entries@, index as int)
                    &&& self.entries@[index as int].key.id() == key.id()
                    &&& self.map().contains_key(key.id())
                    &&& self.map()[key.id()] == self.entries@[index as int].value
                },
                None => !self.map().contains_key(key.id()),
            },
    {
        let mut i: usize = self.entries.len();
        while i > 0
            invariant
                i <= self.entries.len(),
                forall|j: int| i <= j < self.entries.len() ==> (#[trigger] self.entries@[j]).key.id() != key.id(),
            decreases i,
        {
            i = i - 1;
            if self.entries[i].key.same(key) {
                proof {
                    lemma_deciding_row(self.entries@, i as int);
                }
                return Some(i);
            }
        }
        proof {
            lemma_no_row(self.entries@, key.id());
        }
        None
    }

    /// Adds a row; it counts for its key from now on.
    pub fn add(&mut self, key: K, value: V)
        ensures
            final(self).map() == old(self).map().insert(key.id(), value),
    {
        self.entries.push(Entry { key, value });
        assert(self.entries@.drop_last() =~= old(self).entries@);
    }

    /// Gives access to the value of a row that counts for its key.
    pub fn value_mut(&mut self, index: usize) -> (value: &mut V)
        requires
            decides(old(self).entries@, index as int),
        ensures
            *value == old(self).entries@[index as int].value,
            final(self).map() == old(self).map().insert(
                old(self).entries@[index as int].key.id(),
                *final(value),
            ),
    {
        proof {
            let entries = self.entries@;
            assert forall|v: V| #[trigger]
                entries_map(entries.update(index as int, Entry { key: entries[index as int].key, value: v }))
                    == entries_map(entries).insert(entries[index as int].key.id(), v) by {
                lemma_replaced_row(entries, index as int, v);
            }
        }
        &mut self.entries[index].value
    }
}

} // verus!
