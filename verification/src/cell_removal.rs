//! Picking keys, and removing the cells that have been picked.
use rustc_hash::FxBuildHasher;
use vstd::prelude::*;

use crate::data::InProgressCellState;
use crate::fx::{hashes_consistently, lists};
use crate::ids::{law_cell_id_packing, CellId, PackedCellId};
use crate::storage_schema::AutoMap;
use crate::unpacked::{by_cell, lists_keys};

verus! {

broadcast use vstd::std_specs::hash::group_hash_axioms;

/// The keys with a verdict of `true`, in order.
pub(crate) fn pick<K: Copy>(keys: &Vec<K>, verdicts: &Vec<bool>) -> (picked: Vec<K>)
    requires
        keys@.no_duplicates(),
        verdicts@.len() == keys@.len(),
    ensures
        picked@.no_duplicates(),
        forall|i: int| 0 <= i < picked@.len() ==> keys@.contains(#[trigger] picked@[i]),
        forall|i: int|
            0 <= i < keys@.len() ==> picked@.contains(#[trigger] keys@[i]) == verdicts@[i],
{
    let mut picked: Vec<K> = Vec::new();
    let mut i: usize = 0;
    while i < keys.len()
        invariant
            keys@.no_duplicates(),
            verdicts@.len() == keys@.len(),
            i <= keys@.len(),
            picked@.no_duplicates(),
            forall|j: int|
                0 <= j < picked@.len() ==> keys@.take(i as int).contains(#[trigger] picked@[j]),
            forall|j: int| 0 <= j < i ==> picked@.contains(#[trigger] keys@[j]) == verdicts@[j],
        decreases keys@.len() - i,
    {
        let ghost before = picked@;
        let key = keys[i];
        assert(!before.contains(key)) by {
            if before.contains(key) {
                let j = choose|j: int| 0 <= j < before.len() && before[j] == key;
                assert(keys@.take(i as int).contains(before[j]));
            }
        }
        if verdicts[i] {
            picked.push(key);
            assert(picked@.last() == key);
        }
        proof {
            assert forall|j: int| 0 <= j < picked@.len() implies keys@.take(i + 1).contains(
                #[trigger] picked@[j],
            ) by {
                if j < before.len() {
                    assert(picked@[j] == before[j]);
                    let k = choose|k: int| 0 <= k < i && keys@.take(i as int)[k] == before[j];
                    assert(keys@.take(i + 1)[k] == before[j]);
                } else {
                    assert(keys@.take(i + 1)[i as int] == key);
                }
            }
            assert forall|j: int| 0 <= j < i implies picked@.contains(#[trigger] keys@[j])
                == before.contains(keys@[j]) by {
                if before.contains(keys@[j]) {
                    let k = choose|k: int| 0 <= k < before.len() && before[k] == keys@[j];
                    assert(picked@[k] == keys@[j]);
                }
                if picked@.contains(keys@[j]) {
                    let k = choose|k: int| 0 <= k < picked@.len() && picked@[k] == keys@[j];
                    if k < before.len() {
                        assert(before[k] == keys@[j]);
                    }
                }
            }
        }
        i += 1;
    }
    picked
}

/// Picks the cells that match the predicate.
pub(crate) fn select_cells<F: FnMut(&CellId) -> bool>(
    cells: &Vec<CellId>,
    mut f: F,
) -> (selected: Vec<CellId>)
    requires
        cells@.no_duplicates(),
        forall|i: int| 0 <= i < cells@.len() ==> f.requires((&#[trigger] cells@[i],)),
    ensures
        selected@.no_duplicates(),
        forall|i: int| 0 <= i < selected@.len() ==> cells@.contains(#[trigger] selected@[i]),
        forall|i: int|
            0 <= i < cells@.len() ==> f.ensures(
                (&#[trigger] cells@[i],),
                selected@.contains(cells@[i]),
            ),
{
    let ghost given = f;
    let mut verdicts: Vec<bool> = Vec::new();
    let mut i: usize = 0;
    while i < cells.len()
        invariant
            f == given,
            forall|j: int| 0 <= j < cells@.len() ==> f.requires((&#[trigger] cells@[j],)),
            i <= cells@.len(),
            verdicts@.len() == i,
            forall|j: int| 0 <= j < i ==> f.ensures((&#[trigger] cells@[j],), verdicts@[j]),
        decreases cells@.len() - i,
    {
        verdicts.push(f(&cells[i]));
        i += 1;
    }
    pick(cells, &verdicts)
}

/// Picks the cells that match the predicate together with their states.
pub(crate) fn select_in_progress_cells<F: FnMut(&CellId, &InProgressCellState) -> bool>(
    states: &AutoMap<PackedCellId, InProgressCellState>,
    cells: &Vec<CellId>,
    mut f: F,
) -> (selected: Vec<CellId>)
    requires
        cells@.no_duplicates(),
        forall|i: int|
            0 <= i < cells@.len() ==> states@.contains_key((#[trigger] cells@[i]).packed()),
        forall|i: int|
            0 <= i < cells@.len() ==> f.requires(
                (&#[trigger] cells@[i], &states@[cells@[i].packed()]),
            ),
    ensures
        selected@.no_duplicates(),
        forall|i: int| 0 <= i < selected@.len() ==> cells@.contains(#[trigger] selected@[i]),
        forall|i: int|
            0 <= i < cells@.len() ==> f.ensures(
                (&#[trigger] cells@[i], &states@[cells@[i].packed()]),
                selected@.contains(cells@[i]),
            ),
{
    let _hasher = FxBuildHasher::default();
    let ghost given = f;
    let mut verdicts: Vec<bool> = Vec::new();
    let mut i: usize = 0;
    while i < cells.len()
        invariant
            hashes_consistently(_hasher),
            f == given,
            forall|j: int|
                0 <= j < cells@.len() ==> states@.contains_key((#[trigger] cells@[j]).packed()),
            forall|j: int|
                0 <= j < cells@.len() ==> f.requires(
                    (&#[trigger] cells@[j], &states@[cells@[j].packed()]),
                ),
            i <= cells@.len(),
            verdicts@.len() == i,
            forall|j: int|
                0 <= j < i ==> f.ensures(
                    (&#[trigger] cells@[j], &states@[cells@[j].packed()]),
                    verdicts@[j],
                ),
        decreases cells@.len() - i,
    {
        if let Some(state) = states.get(&cells[i].pack()) {
            verdicts.push(f(&cells[i], state));
        }
        i += 1;
    }
    pick(cells, &verdicts)
}

/// The entries of a map but those of the first `n` of some cells.
spec fn without<V>(map: Map<PackedCellId, V>, cells: Seq<CellId>, n: int) -> Map<PackedCellId, V> {
    map.remove_keys(Set::new(|key: PackedCellId| cells.take(n).contains(CellId::unpacked(key))))
}

/// One cell less.
proof fn lemma_without<V>(map: Map<PackedCellId, V>, cells: Seq<CellId>, n: int)
    requires
        map.dom().finite(),
        cells.no_duplicates(),
        forall|i: int| 0 <= i < cells.len() ==> map.contains_key((#[trigger] cells[i]).packed()),
        0 <= n < cells.len(),
    ensures
        without(map, cells, n).dom().finite(),
        without(map, cells, n).contains_key(cells[n].packed()),
        without(map, cells, n + 1) == without(map, cells, n).remove(cells[n].packed()),
        without(map, cells, n + 1).len() + 1 == without(map, cells, n).len(),
{
    let key = cells[n].packed();
    law_cell_id_packing(cells[n], key);
    assert(without(map, cells, n).dom() =~= map.dom().difference(
        Set::new(|key: PackedCellId| cells.take(n).contains(CellId::unpacked(key))),
    ));
    assert(cells.take(n + 1) =~= cells.take(n).push(cells[n]));
    assert forall|other: PackedCellId| cells.take(n + 1).contains(CellId::unpacked(other)) == (
    cells.take(n).contains(CellId::unpacked(other)) || other == key) by {
        law_cell_id_packing(cells[n], other);
        if cells.take(n).contains(CellId::unpacked(other)) {
            let i = choose|i: int| 0 <= i < n && cells.take(n)[i] == CellId::unpacked(other);
            assert(cells.take(n + 1)[i] == CellId::unpacked(other));
        }
        if other == key {
            assert(cells.take(n + 1)[n] == CellId::unpacked(other));
        }
    }
    assert(without(map, cells, n + 1) =~= without(map, cells, n).remove(key));
    assert(without(map, cells, n + 1).dom() =~= without(map, cells, n).dom().remove(key));
}

/// The listed cells of a map are finitely many, and each key of the map stands for one of them.
pub(crate) proof fn lemma_listed_cells<V>(cells: Seq<CellId>, map: Map<PackedCellId, V>)
    requires
        lists_keys(cells, by_cell(map)),
    ensures
        map.dom().finite(),
        forall|cell: CellId| #[trigger]
            map.contains_key(cell.packed()) ==> cells.contains(cell),
        forall|i: int| 0 <= i < cells.len() ==> map.contains_key((#[trigger] cells[i]).packed()),
{
    let keys = cells.map_values(|cell: CellId| cell.packed());
    assert forall|cell: CellId| #[trigger] map.contains_key(cell.packed()) implies cells.contains(
        cell,
    ) by {
        assert(by_cell(map).contains_key(cell));
        assert(cells.to_set().contains(cell));
    }
    assert forall|i: int| 0 <= i < cells.len() implies map.contains_key(
        (#[trigger] cells[i]).packed(),
    ) by {
        assert(cells.to_set().contains(cells[i]));
    }
    assert forall|key: PackedCellId| map.contains_key(key) implies keys.contains(key) by {
        let cell = CellId::unpacked(key);
        law_cell_id_packing(cell, key);
        assert(map.contains_key(cell.packed()));
        let i = choose|i: int| 0 <= i < cells.len() && cells[i] == cell;
        assert(keys[i] == key);
    }
    vstd::seq_lib::seq_to_set_is_finite(keys);
    vstd::set_lib::lemma_set_subset_finite(keys.to_set(), map.dom());
}

/// Removes some of the cells of a map, which are `all`, and returns what has been removed.
pub(crate) fn remove_cells<V: Copy>(
    map: &mut AutoMap<PackedCellId, V>,
    cells: &Vec<CellId>,
    all: Ghost<Seq<CellId>>,
) -> (removed: Vec<(CellId, V)>)
    requires
        lists_keys(all@, by_cell(old(map)@)),
        cells@.no_duplicates(),
        forall|i: int| 0 <= i < cells@.len() ==> all@.contains(#[trigger] cells@[i]),
    ensures
        final(map)@.submap_of(old(map)@),
        forall|cell: CellId| #[trigger]
            old(map)@.contains_key(cell.packed()) ==> cells@.contains(cell) == !final(
                map)@.contains_key(cell.packed()),
        final(map)@.len() + cells@.len() == old(map)@.len(),
        lists(removed@, by_cell(old(map)@.remove_keys(final(map)@.dom()))),
{
    let _hasher = FxBuildHasher::default();
    let ghost before = map@;
    proof {
        lemma_listed_cells(all@, before);
        assert(without(before, cells@, 0) =~= before);
        assert forall|i: int| 0 <= i < cells@.len() implies before.contains_key(
            (#[trigger] cells@[i]).packed(),
        ) by {
            let k = choose|k: int| 0 <= k < all@.len() && all@[k] == cells@[i];
            assert(before.contains_key(all@[k].packed()));
        }
    }
    let mut removed: Vec<(CellId, V)> = Vec::new();
    let mut i: usize = 0;
    while i < cells.len()
        invariant
            hashes_consistently(_hasher),
            i <= cells@.len(),
            cells@.no_duplicates(),
            before.dom().finite(),
            forall|j: int|
                0 <= j < cells@.len() ==> before.contains_key((#[trigger] cells@[j]).packed()),
            map@ == without(before, cells@, i as int),
            map@.len() + i == before.len(),
            removed@.len() == i,
            forall|j: int|
                0 <= j < i ==> #[trigger] removed@[j] == (
                    cells@[j],
                    before[cells@[j].packed()],
                ),
        decreases cells@.len() - i,
    {
        proof {
            lemma_without(before, cells@, i as int);
        }
        let cell = cells[i];
        if let Some(value) = map.remove(&cell.pack()) {
            removed.push((cell, value));
        }
        i += 1;
    }
    proof {
        let gone = by_cell(before.remove_keys(map@.dom()));
        assert(cells@.take(i as int) =~= cells@);
        assert forall|cell: CellId| #[trigger] before.contains_key(
            cell.packed(),
        ) implies cells@.contains(cell) == !map@.contains_key(cell.packed()) by {
            law_cell_id_packing(cell, cell.packed());
        }
        assert forall|a: int, b: int| 0 <= a < b < removed@.len() implies (#[trigger] removed@[a]).0
            != (#[trigger] removed@[b]).0 by {
            assert(cells@[a] != cells@[b]);
        }
        assert forall|a: int| 0 <= a < removed@.len() implies gone.contains_key(
            (#[trigger] removed@[a]).0,
        ) && gone[removed@[a].0] == removed@[a].1 by {
            assert(before.contains_key(cells@[a].packed()));
            assert(cells@.contains(cells@[a]));
        }
        assert forall|cell: CellId| #[trigger] gone.contains_key(cell) implies exists|a: int|
            0 <= a < removed@.len() && (#[trigger] removed@[a]).0 == cell by {
            assert(before.contains_key(cell.packed()));
            let a = choose|a: int| 0 <= a < cells@.len() && cells@[a] == cell;
            assert(removed@[a].0 == cell);
        }
    }
    removed
}

} // verus!
