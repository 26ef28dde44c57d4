//! From packed keys back to the identifiers that they stand for.
use vstd::prelude::*;

use crate::fx::lists;
use crate::ids::{
    law_cell_id_packing, law_collectible_ref_packing, CellId, CollectibleRef, PackedCellId,
    PackedCollectibleRef,
};

verus! {

/// A map keyed by packed cells, keyed by the cells themselves.
pub open spec fn by_cell<V>(map: Map<PackedCellId, V>) -> Map<CellId, V> {
    Map::new(
        |cell: CellId| map.contains_key(cell.packed()),
        |cell: CellId| map[cell.packed()],
    )
}

/// A map keyed by packed collectibles, keyed by the collectibles themselves.
pub open spec fn by_collectible<V>(map: Map<PackedCollectibleRef, V>) -> Map<CollectibleRef, V> {
    Map::new(
        |collectible: CollectibleRef| map.contains_key(collectible.packed()),
        |collectible: CollectibleRef| map[collectible.packed()],
    )
}

/// Whether `keys` holds each key of `map` once, in whatever order.
pub open spec fn lists_keys<K, V>(keys: Seq<K>, map: Map<K, V>) -> bool {
    &&& keys.no_duplicates()
    &&& keys.to_set() == map.dom()
}

/// The keys of listed entries.
pub(crate) fn entry_keys<K: Copy, V>(entries: &Vec<(K, V)>) -> (keys: Vec<K>)
    ensures
        keys@.len() == entries@.len(),
        forall|i: int| 0 <= i < entries@.len() ==> #[trigger] keys@[i] == entries@[i].0,
{
    let mut keys: Vec<K> = Vec::new();
    let mut i: usize = 0;
    while i < entries.len()
        invariant
            i <= entries@.len(),
            keys@.len() == i,
            forall|j: int| 0 <= j < i ==> #[trigger] keys@[j] == entries@[j].0,
        decreases entries@.len() - i,
    {
        keys.push(entries[i].0);
        i += 1;
    }
    keys
}

/// The keys of listed entries are the keys of the map.
pub(crate) proof fn lemma_entry_keys<K, V>(entries: Seq<(K, V)>, map: Map<K, V>, keys: Seq<K>)
    requires
        lists(entries, map),
        keys.len() == entries.len(),
        forall|i: int| 0 <= i < entries.len() ==> #[trigger] keys[i] == entries[i].0,
    ensures
        lists_keys(keys, map),
{
    assert forall|i: int, j: int| 0 <= i < keys.len() && 0 <= j < keys.len() && i != j implies keys[i]
        != keys[j] by {
        if i < j {
            assert(entries[i].0 != entries[j].0);
        } else {
            assert(entries[j].0 != entries[i].0);
        }
    }
    assert forall|key: K| map.contains_key(key) implies keys.contains(key) by {
        let i = choose|i: int| 0 <= i < entries.len() && (#[trigger] entries[i]).0 == key;
        assert(keys[i] == key);
    }
    assert forall|key: K| keys.contains(key) implies map.contains_key(key) by {
        let i = choose|i: int| 0 <= i < keys.len() && keys[i] == key;
        assert(map.contains_key(entries[i].0));
    }
    assert(keys.to_set() =~= map.dom());
}

/// The cells that packed keys stand for.
pub(crate) fn unpack_cells<V>(keys: &Vec<PackedCellId>, map: Ghost<Map<PackedCellId, V>>) -> (cells:
    Vec<CellId>)
    requires
        lists_keys(keys@, map@),
    ensures
        cells@.len() == keys@.len(),
        forall|i: int| 0 <= i < keys@.len() ==> #[trigger] cells@[i] == CellId::unpacked(keys@[i]),
        lists_keys(cells@, by_cell(map@)),
{
    let mut cells: Vec<CellId> = Vec::new();
    let mut i: usize = 0;
    while i < keys.len()
        invariant
            i <= keys@.len(),
            cells@.len() == i,
            forall|j: int| 0 <= j < i ==> #[trigger] cells@[j] == CellId::unpacked(keys@[j]),
        decreases keys@.len() - i,
    {
        cells.push(CellId::unpack(keys[i]));
        i += 1;
    }
    proof {
        assert forall|i: int, j: int|
            0 <= i < cells@.len() && 0 <= j < cells@.len() && i != j implies cells@[i]
            != cells@[j] by {
            law_cell_id_packing(cells@[i], keys@[i]);
            law_cell_id_packing(cells@[j], keys@[j]);
        }
        assert forall|cell: CellId| by_cell(map@).contains_key(cell) implies cells@.contains(
            cell,
        ) by {
            assert(keys@.to_set().contains(cell.packed()));
            let i = choose|i: int| 0 <= i < keys@.len() && keys@[i] == cell.packed();
            law_cell_id_packing(cell, keys@[i]);
            assert(cells@[i] == cell);
        }
        assert forall|cell: CellId| cells@.contains(cell) implies by_cell(map@).contains_key(
            cell,
        ) by {
            let i = choose|i: int| 0 <= i < cells@.len() && cells@[i] == cell;
            law_cell_id_packing(cell, keys@[i]);
            assert(keys@.contains(keys@[i]));
            assert(keys@.to_set().contains(cell.packed()));
        }
        assert(cells@.to_set() =~= by_cell(map@).dom());
    }
    cells
}

/// The collectibles that packed keys stand for.
pub(crate) fn unpack_collectibles<V>(
    keys: &Vec<PackedCollectibleRef>,
    map: Ghost<Map<PackedCollectibleRef, V>>,
) -> (collectibles: Vec<CollectibleRef>)
    requires
        lists_keys(keys@, map@),
    ensures
        lists_keys(collectibles@, by_collectible(map@)),
{
    let mut collectibles: Vec<CollectibleRef> = Vec::new();
    let mut i: usize = 0;
    while i < keys.len()
        invariant
            i <= keys@.len(),
            collectibles@.len() == i,
            forall|j: int|
                0 <= j < i ==> #[trigger] collectibles@[j] == CollectibleRef::unpacked(keys@[j]),
        decreases keys@.len() - i,
    {
        collectibles.push(CollectibleRef::unpack(keys[i]));
        i += 1;
    }
    proof {
        assert forall|i: int, j: int|
            0 <= i < collectibles@.len() && 0 <= j < collectibles@.len() && i
                != j implies collectibles@[i] != collectibles@[j] by {
            law_collectible_ref_packing(collectibles@[i], keys@[i]);
            law_collectible_ref_packing(collectibles@[j], keys@[j]);
        }
        assert forall|collectible: CollectibleRef|
            by_collectible(map@).contains_key(collectible) implies collectibles@.contains(
            collectible,
        ) by {
            assert(keys@.to_set().contains(collectible.packed()));
            let i = choose|i: int| 0 <= i < keys@.len() && keys@[i] == collectible.packed();
            law_collectible_ref_packing(collectible, keys@[i]);
            assert(collectibles@[i] == collectible);
        }
        assert forall|collectible: CollectibleRef|
            collectibles@.contains(collectible) implies by_collectible(map@).contains_key(
            collectible,
        ) by {
            let i = choose|i: int| 0 <= i < collectibles@.len() && collectibles@[i] == collectible;
            law_collectible_ref_packing(collectible, keys@[i]);
            assert(keys@.contains(keys@[i]));
            assert(keys@.to_set().contains(collectible.packed()));
        }
        assert(collectibles@.to_set() =~= by_collectible(map@).dom());
    }
    collectibles
}

/// Listed entries with the collectibles that their keys stand for.
pub(crate) fn unpack_collectible_entries<V: Copy>(
    entries: &Vec<(PackedCollectibleRef, V)>,
    map: Ghost<Map<PackedCollectibleRef, V>>,
) -> (unpacked: Vec<(CollectibleRef, V)>)
    requires
        lists(entries@, map@),
    ensures
        lists(unpacked@, by_collectible(map@)),
{
    let mut unpacked: Vec<(CollectibleRef, V)> = Vec::new();
    let mut i: usize = 0;
    while i < entries.len()
        invariant
            i <= entries@.len(),
            unpacked@.len() == i,
            forall|j: int|
                0 <= j < i ==> (#[trigger] unpacked@[j]) == (
                    CollectibleRef::unpacked(entries@[j].0),
                    entries@[j].1,
                ),
        decreases entries@.len() - i,
    {
        unpacked.push((CollectibleRef::unpack(entries[i].0), entries[i].1));
        i += 1;
    }
    proof {
        assert forall|i: int, j: int| 0 <= i < j < unpacked@.len() implies (#[trigger] unpacked@[i]).0
            != (#[trigger] unpacked@[j]).0 by {
            law_collectible_ref_packing(unpacked@[i].0, entries@[i].0);
            law_collectible_ref_packing(unpacked@[j].0, entries@[j].0);
        }
        assert forall|i: int| 0 <= i < unpacked@.len() implies by_collectible(map@).contains_key(
            (#[trigger] unpacked@[i]).0,
        ) && by_collectible(map@)[unpacked@[i].0] == unpacked@[i].1 by {
            law_collectible_ref_packing(unpacked@[i].0, entries@[i].0);
        }
        assert forall|collectible: CollectibleRef| #[trigger]
            by_collectible(map@).contains_key(collectible) implies exists|i: int|
            0 <= i < unpacked@.len() && (#[trigger] unpacked@[i]).0 == collectible by {
            assert(map@.contains_key(collectible.packed()));
            let i = choose|i: int|
                0 <= i < entries@.len() && (#[trigger] entries@[i]).0 == collectible.packed();
            law_collectible_ref_packing(collectible, entries@[i].0);
            assert(unpacked@[i].0 == collectible);
        }
    }
    unpacked
}

/// What is stored for a packed cell or collectible belongs to that cell or collectible, and to no
/// other.
pub proof fn law_unpacking_keeps_each_entry<V>(
    cells: Map<PackedCellId, V>,
    cell: CellId,
    packed_cell: PackedCellId,
    collectibles: Map<PackedCollectibleRef, V>,
    collectible: CollectibleRef,
    packed_collectible: PackedCollectibleRef,
)
    ensures
        by_cell(cells).contains_key(cell) <==> cells.contains_key(cell.packed()),
        by_cell(cells).contains_key(cell) ==> by_cell(cells)[cell] == cells[cell.packed()],
        cells.contains_key(packed_cell) ==> by_cell(cells).get(CellId::unpacked(packed_cell))
            == Some(cells[packed_cell]),
        by_collectible(collectibles).contains_key(collectible) <==> collectibles.contains_key(
            collectible.packed(),
        ),
        by_collectible(collectibles).contains_key(collectible) ==> by_collectible(
            collectibles,
        )[collectible] == collectibles[collectible.packed()],
        collectibles.contains_key(packed_collectible) ==> by_collectible(collectibles).get(
            CollectibleRef::unpacked(packed_collectible),
        ) == Some(collectibles[packed_collectible]),
{
    law_cell_id_packing(cell, packed_cell);
    law_collectible_ref_packing(collectible, packed_collectible);
}

/// Keys that list those of a map are the map's keys, each of them once.
pub proof fn law_a_list_holds_each_key_once<K, V>(keys: Seq<K>, map: Map<K, V>, key: K)
    requires
        lists_keys(keys, map),
    ensures
        keys.contains(key) <==> map.contains_key(key),
        forall|i: int, j: int|
            0 <= i < j < keys.len() ==> #[trigger] keys[i] != #[trigger] keys[j],
        keys.len() == map.dom().len(),
{
    assert(keys.to_set().contains(key) == map.dom().contains(key));
    keys.unique_seq_to_set();
}

} // verus!
