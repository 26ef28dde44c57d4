//! The persisted cells of a task as items, grouped by the type of their value.
use rustc_hash::FxBuildHasher;
use std::collections::hash_map::Entry;
use vstd::prelude::*;

use crate::cached_data_item::{lists_items, CachedDataItemAdapter};
use crate::data::TypedSharedReference;
use crate::fx::{hashes_consistently, keys_of, lemma_take_next};
use crate::ids::{law_cell_id_packing, CellId, PackedCellId, ValueTypeId};
use crate::storage_schema::AutoMap;
use crate::unpacked::by_cell;

verus! {

broadcast use vstd::std_specs::hash::group_hash_axioms;

/// The persisted cells of a task.
pub struct CellItems {
    pub cells: AutoMap<PackedCellId, TypedSharedReference>,
}

impl CellItems {
    /// No cell has data.
    pub fn new() -> (items: Self)
        ensures
            items.items() == Map::<CellId, TypedSharedReference>::empty(),
    {
        let items = CellItems { cells: AutoMap::default() };
        assert(items.items() =~= Map::<CellId, TypedSharedReference>::empty());
        items
    }
}

/// The cells whose value has a type.
pub open spec fn cells_of_type(ty: ValueTypeId) -> Set<CellId> {
    Set::new(|cell: CellId| cell.type_id == ty)
}

impl CachedDataItemAdapter for CellItems {
    type Key = CellId;

    type Value = TypedSharedReference;

    type Type = ValueTypeId;

    open spec fn items(&self) -> Map<CellId, TypedSharedReference> {
        by_cell(self.cells@)
    }

    open spec fn type_of(cell: CellId) -> ValueTypeId {
        cell.type_id
    }

    fn insert_kv(&mut self, key: CellId, value: TypedSharedReference) -> (replaced: Option<
        TypedSharedReference,
    >) {
        let _hasher = FxBuildHasher::default();
        let ghost before = self.cells@;
        let replaced = self.cells.insert(key.pack(), value);
        proof {
            lemma_by_cell_insert(before, key, value);
        }
        replaced
    }

    fn get(&self, key: &CellId) -> (value: Option<&TypedSharedReference>) {
        let _hasher = FxBuildHasher::default();
        self.cells.get(&key.pack())
    }

    fn remove(&mut self, key: &CellId) -> (removed: Option<TypedSharedReference>) {
        let _hasher = FxBuildHasher::default();
        let ghost before = self.cells@;
        let removed = self.cells.remove(&key.pack());
        proof {
            lemma_by_cell_remove(before, *key);
        }
        removed
    }

    fn get_mut(&mut self, key: &CellId) -> (value: Option<&mut TypedSharedReference>) {
        let _hasher = FxBuildHasher::default();
        let ghost before = self.cells@;
        proof {
            assert forall|value: TypedSharedReference| by_cell(
                #[trigger] before.insert(key.packed(), value),
            ) == by_cell(before).insert(*key, value) by {
                lemma_by_cell_insert(before, *key, value);
            }
        }
        match self.cells.entry(key.pack()) {
            Entry::Occupied(e) => Some(e.into_mut()),
            Entry::Vacant(_) => None,
        }
    }

    fn count(&self, ty: ValueTypeId) -> (count: usize) {
        let entries = self.iter(ty);
        proof {
            assert(Set::new(|key: CellId| CellItems::type_of(key) == ty) =~= cells_of_type(ty));
            let items = self.items().restrict(cells_of_type(ty));
            let keys = Seq::new(entries@.len(), |i: int| entries@[i].0);
            assert forall|cell: CellId| items.contains_key(cell) implies keys.contains(cell) by {
                let i = choose|i: int| 0 <= i < entries@.len() && (#[trigger] entries@[i]).0 == cell;
                assert(keys[i] == cell);
            }
            assert forall|i: int, j: int|
                0 <= i < keys.len() && 0 <= j < keys.len() && i != j implies keys[i] != keys[j] by {
                if i < j {
                    assert(entries@[i].0 != entries@[j].0);
                } else {
                    assert(entries@[j].0 != entries@[i].0);
                }
            }
            assert(keys.to_set() =~= items.dom());
            keys.unique_seq_to_set();
        }
        entries.len()
    }

    fn iter(&self, ty: ValueTypeId) -> (entries: Vec<(CellId, &TypedSharedReference)>) {
        let _hasher = FxBuildHasher::default();
        let keys = keys_of(&self.cells);
        let ghost all = self.items().restrict(cells_of_type(ty));
        let mut entries: Vec<(CellId, &TypedSharedReference)> = Vec::new();
        let mut i: usize = 0;
        while i < keys.len()
            invariant
                hashes_consistently(_hasher),
                keys@.no_duplicates(),
                keys@.to_set() == self.cells@.dom(),
                i <= keys@.len(),
                all == self.items().restrict(cells_of_type(ty)),
                lists_items(entries@, all.restrict(seen(keys@, i as int))),
            decreases keys@.len() - i,
        {
            let cell = CellId::unpack(keys[i]);
            let ghost before = entries@;
            proof {
                law_cell_id_packing(cell, keys@[i as int]);
                lemma_take_next(keys@, i as int);
                assert(keys@.contains(keys@[i as int]));
                assert(self.cells@.contains_key(keys@[i as int]));
            }
            if let Some(value) = self.cells.get(&keys[i]) {
                if cell.type_id == ty {
                    entries.push((cell, value));
                }
            }
            proof {
                let done = all.restrict(seen(keys@, i as int));
                let next = all.restrict(seen(keys@, i + 1));
                assert forall|other: CellId| seen(keys@, i + 1).contains(other) == (seen(
                    keys@,
                    i as int,
                ).contains(other) || other == cell) by {
                    law_cell_id_packing(other, keys@[i as int]);
                }
                if cell.type_id == ty {
                    assert(next =~= done.insert(cell, self.cells@[keys@[i as int]]));
                    assert forall|key: CellId| #[trigger] next.contains_key(key) implies exists|
                        k: int,
                    | 0 <= k < entries@.len() && (#[trigger] entries@[k]).0 == key by {
                        if key == cell {
                            assert(entries@[before.len() as int].0 == key);
                        } else {
                            assert(done.contains_key(key));
                            let k = choose|k: int|
                                0 <= k < before.len() && (#[trigger] before[k]).0 == key;
                            assert(entries@[k].0 == key);
                        }
                    }
                    assert(!done.contains_key(cell));
                } else {
                    assert(next =~= done);
                }
            }
            i += 1;
        }
        proof {
            assert(keys@.take(i as int) =~= keys@);
            assert forall|cell: CellId| all.contains_key(cell) implies seen(
                keys@,
                i as int,
            ).contains(cell) by {
                assert(keys@.to_set().contains(cell.packed()));
            }
            assert(all.restrict(seen(keys@, i as int)) =~= all);
            assert(Set::new(|key: CellId| CellItems::type_of(key) == ty) =~= cells_of_type(ty));
        }
        entries
    }
}

/// The cells that the first `n` of some keys stand for.
spec fn seen(keys: Seq<PackedCellId>, n: int) -> Set<CellId> {
    Set::new(|cell: CellId| keys.take(n).to_set().contains(cell.packed()))
}

/// Storing data for a cell.
proof fn lemma_by_cell_insert<V>(cells: Map<PackedCellId, V>, cell: CellId, value: V)
    ensures
        by_cell(cells.insert(cell.packed(), value)) == by_cell(cells).insert(cell, value),
{
    assert forall|other: CellId| other != cell implies other.packed() != cell.packed() by {
        law_cell_id_packing(cell, 0);
        law_cell_id_packing(other, 0);
    }
    assert(by_cell(cells.insert(cell.packed(), value)) =~= by_cell(cells).insert(cell, value));
}

/// Removing the data of a cell.
proof fn lemma_by_cell_remove<V>(cells: Map<PackedCellId, V>, cell: CellId)
    ensures
        by_cell(cells.remove(cell.packed())) == by_cell(cells).remove(cell),
{
    assert forall|other: CellId| other != cell implies other.packed() != cell.packed() by {
        law_cell_id_packing(cell, 0);
        law_cell_id_packing(other, 0);
    }
    assert(by_cell(cells.remove(cell.packed())) =~= by_cell(cells).remove(cell));
}

/// The items are the cells that have data, each with its data and under the type of its value.
pub proof fn law_items_are_the_cells(items: CellItems, cell: CellId, ty: ValueTypeId)
    ensures
        items.items().contains_key(cell) <==> items.cells@.contains_key(cell.packed()),
        items.items().contains_key(cell) ==> items.items()[cell] == items.cells@[cell.packed()],
        CellItems::type_of(cell) == ty <==> cell.type_id == ty,
        cells_of_type(ty).contains(cell) <==> cell.type_id == ty,
{
}

} // verus!
