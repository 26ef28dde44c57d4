//! Which tasks to prefetch for a task.
use vstd::prelude::*;

use crate::category::TaskDataCategory;
use crate::fx::{lemma_lists_push, lemma_take_set, lists};
use crate::ids::{CellRef, CollectiblesRef, PackedCellRef, PackedCollectiblesRef, TaskId};
use crate::index_map::{index_entries, index_inserted, insert_index, new_index_map, FxIndexMap};
use crate::task_guard::{dependency_rank, in_dependency_order, needed};

verus! {

/// Storing an entry in a map whose entries are listed.
proof fn lemma_index_inserted(
    entries: Seq<(TaskId, TaskDataCategory)>,
    map: Map<TaskId, TaskDataCategory>,
    key: TaskId,
    value: TaskDataCategory,
)
    requires
        lists(entries, map),
    ensures
        lists(index_inserted(entries, key, value), map.insert(key, value)),
        map.contains_key(key) ==> index_inserted(entries, key, value).len() == entries.len(),
        !map.contains_key(key) ==> index_inserted(entries, key, value) == entries.push((key, value)),
        forall|i: int|
            0 <= i < entries.len() ==> (#[trigger] index_inserted(entries, key, value)[i]).0
                == entries[i].0,
{
    let after = index_inserted(entries, key, value);
    if map.contains_key(key) {
        let i = choose|i: int| 0 <= i < entries.len() && (#[trigger] entries[i]).0 == key;
        assert(after == entries.update(i, (key, value)));
        assert forall|a: int, b: int| 0 <= a < b < after.len() implies (#[trigger] after[a]).0 != (
        #[trigger] after[b]).0 by {
            assert(entries[a].0 != entries[b].0);
        }
        assert forall|a: int| 0 <= a < after.len() implies map.insert(key, value).contains_key(
            (#[trigger] after[a]).0,
        ) && map.insert(key, value)[after[a].0] == after[a].1 by {
            if a != i {
                if a < i {
                    assert(entries[a].0 != entries[i].0);
                } else {
                    assert(entries[i].0 != entries[a].0);
                }
            }
        }
        assert forall|k: TaskId| #[trigger] map.insert(key, value).contains_key(k) implies exists|
            a: int,
        | 0 <= a < after.len() && (#[trigger] after[a]).0 == k by {
            let a = choose|a: int| 0 <= a < entries.len() && (#[trigger] entries[a]).0 == k;
            assert(map.contains_key(k));
            assert(after[a].0 == k);
        }
    } else {
        assert forall|i: int| 0 <= i < entries.len() implies (#[trigger] entries[i]).0 != key by {
            assert(map.contains_key(entries[i].0));
        }
        assert(after == entries.push((key, value)));
        lemma_lists_push(entries, map, key, value);
    }
}

/// One more output dependency, while there is none on cells or collectibles.
proof fn lemma_output(
    entries: Seq<(TaskId, TaskDataCategory)>,
    outputs: Set<TaskId>,
    task: TaskId,
)
    requires
        in_dependency_order(entries, outputs, Set::empty(), Set::empty()),
    ensures
        in_dependency_order(
            index_inserted(entries, task, TaskDataCategory::Meta),
            outputs.insert(task),
            Set::empty(),
            Set::empty(),
        ),
{
    let none = Set::<TaskId>::empty();
    let before = needed(outputs, none, none);
    lemma_index_inserted(entries, before, task, TaskDataCategory::Meta);
    let after = index_inserted(entries, task, TaskDataCategory::Meta);
    assert(before.insert(task, TaskDataCategory::Meta) =~= needed(
        outputs.insert(task),
        none,
        none,
    ));
    assert forall|i: int| 0 <= i < after.len() implies outputs.insert(task).contains(
        (#[trigger] after[i]).0,
    ) by {
        assert(needed(outputs.insert(task), none, none).contains_key(after[i].0));
    }
}

/// One more cell dependency, while there is none on collectibles.
proof fn lemma_cell(
    entries: Seq<(TaskId, TaskDataCategory)>,
    outputs: Set<TaskId>,
    cells: Set<TaskId>,
    task: TaskId,
)
    requires
        in_dependency_order(entries, outputs, cells, Set::empty()),
    ensures
        in_dependency_order(
            index_inserted(entries, task, TaskDataCategory::All),
            outputs,
            cells.insert(task),
            Set::empty(),
        ),
{
    let none = Set::<TaskId>::empty();
    let before = needed(outputs, cells, none);
    lemma_index_inserted(entries, before, task, TaskDataCategory::All);
    let after = index_inserted(entries, task, TaskDataCategory::All);
    let then = needed(outputs, cells.insert(task), none);
    assert(before.insert(task, TaskDataCategory::All) =~= then);
    assert forall|i: int, j: int| 0 <= i < j < after.len() implies dependency_rank(
        outputs,
        cells.insert(task),
        (#[trigger] after[i]).0,
    ) <= dependency_rank(
        outputs,
        cells.insert(task),
        (#[trigger] after[j]).0,
    ) by {
        assert(then.contains_key(after[i].0));
        assert(then.contains_key(after[j].0));
        if j < entries.len() {
            assert(before.contains_key(entries[i].0));
            assert(before.contains_key(entries[j].0));
            assert(after[i].0 == entries[i].0);
            assert(after[j].0 == entries[j].0);
        }
    }
}

/// One more dependency on collectibles.
proof fn lemma_collectibles(
    entries: Seq<(TaskId, TaskDataCategory)>,
    outputs: Set<TaskId>,
    cells: Set<TaskId>,
    collectibles: Set<TaskId>,
    task: TaskId,
)
    requires
        in_dependency_order(entries, outputs, cells, collectibles),
    ensures
        in_dependency_order(
            index_inserted(entries, task, TaskDataCategory::All),
            outputs,
            cells,
            collectibles.insert(task),
        ),
{
    let before = needed(outputs, cells, collectibles);
    lemma_index_inserted(entries, before, task, TaskDataCategory::All);
    let after = index_inserted(entries, task, TaskDataCategory::All);
    assert(before.insert(task, TaskDataCategory::All) =~= needed(
        outputs,
        cells,
        collectibles.insert(task),
    ));
    assert forall|i: int, j: int| 0 <= i < j < after.len() implies dependency_rank(
        outputs,
        cells,
        (#[trigger] after[i]).0,
    ) <= dependency_rank(outputs, cells, (#[trigger] after[j]).0) by {
        assert(after[i].0 == entries[i].0);
        if j < entries.len() {
            assert(after[j].0 == entries[j].0);
        } else {
            assert(!before.contains_key(task));
        }
    }
}

/// The tasks that the first dependencies of a list point at, and one more.
proof fn lemma_map_next<A>(list: Seq<A>, i: int, task_of: spec_fn(A) -> TaskId)
    requires
        0 <= i < list.len(),
    ensures
        list.take(i + 1).to_set().map(task_of) == list.take(i).to_set().map(task_of).insert(
            task_of(list[i]),
        ),
{
    lemma_take_set(list, i);
    let before = list.take(i).to_set();
    let after = list.take(i + 1).to_set();
    assert forall|task: TaskId| after.map(task_of).contains(task) == before.map(task_of).insert(
        task_of(list[i]),
    ).contains(task) by {
        if after.map(task_of).contains(task) {
            let a = choose|a: A| after.contains(a) && task == task_of(a);
            if a != list[i] {
                assert(before.contains(a));
            }
        }
        if before.map(task_of).contains(task) {
            let a = choose|a: A| before.contains(a) && task == task_of(a);
            assert(after.contains(a));
        }
        if task == task_of(list[i]) {
            assert(after.contains(list[i]));
        }
    }
    assert(after.map(task_of) =~= before.map(task_of).insert(task_of(list[i])));
}

/// Collects the dependencies of a task: those on outputs need the metadata of their tasks, those on
/// cells and collectibles everything.
pub fn collect_dependencies(
    outputs: &Vec<TaskId>,
    cells: &Vec<PackedCellRef>,
    collectibles: &Vec<PackedCollectiblesRef>,
) -> (map: FxIndexMap<TaskId, TaskDataCategory>)
    ensures
        in_dependency_order(
            index_entries(map),
            outputs@.to_set(),
            cells@.to_set().map(|cell| CellRef::unpacked(cell).task),
            collectibles@.to_set().map(|target| CollectiblesRef::unpacked(target).task),
        ),
{
    let ghost cell_task = |cell: PackedCellRef| CellRef::unpacked(cell).task;
    let ghost collectibles_task = |target: PackedCollectiblesRef|
        CollectiblesRef::unpacked(target).task;
    let mut map = new_index_map();
    let mut i: usize = 0;
    while i < outputs.len()
        invariant
            i <= outputs@.len(),
            in_dependency_order(
                index_entries(map),
                outputs@.take(i as int).to_set(),
                Set::empty(),
                Set::empty(),
            ),
        decreases outputs@.len() - i,
    {
        proof {
            lemma_take_set(outputs@, i as int);
            lemma_output(index_entries(map), outputs@.take(i as int).to_set(), outputs@[i as int]);
        }
        insert_index(&mut map, outputs[i], TaskDataCategory::Meta);
        i += 1;
    }
    proof {
        assert(outputs@.take(i as int) =~= outputs@);
        assert(cells@.take(0).to_set().map(cell_task) =~= Set::empty());
    }
    let mut i: usize = 0;
    while i < cells.len()
        invariant
            cell_task == (|cell: PackedCellRef| CellRef::unpacked(cell).task),
            i <= cells@.len(),
            in_dependency_order(
                index_entries(map),
                outputs@.to_set(),
                cells@.take(i as int).to_set().map(cell_task),
                Set::empty(),
            ),
        decreases cells@.len() - i,
    {
        let task: TaskId = CellRef::unpack(cells[i]).task;
        proof {
            lemma_map_next(cells@, i as int, cell_task);
            lemma_cell(
                index_entries(map),
                outputs@.to_set(),
                cells@.take(i as int).to_set().map(cell_task),
                task,
            );
        }
        insert_index(&mut map, task, TaskDataCategory::All);
        i += 1;
    }
    proof {
        assert(cells@.take(i as int) =~= cells@);
        assert(collectibles@.take(0).to_set().map(collectibles_task) =~= Set::empty());
    }
    let mut i: usize = 0;
    while i < collectibles.len()
        invariant
            collectibles_task == (|target: PackedCollectiblesRef|
                CollectiblesRef::unpacked(target).task),
            i <= collectibles@.len(),
            in_dependency_order(
                index_entries(map),
                outputs@.to_set(),
                cells@.to_set().map(cell_task),
                collectibles@.take(i as int).to_set().map(collectibles_task),
            ),
        decreases collectibles@.len() - i,
    {
        let task: TaskId = CollectiblesRef::unpack(collectibles[i]).task;
        proof {
            lemma_map_next(collectibles@, i as int, collectibles_task);
            lemma_collectibles(
                index_entries(map),
                outputs@.to_set(),
                cells@.to_set().map(cell_task),
                collectibles@.take(i as int).to_set().map(collectibles_task),
                task,
            );
        }
        insert_index(&mut map, task, TaskDataCategory::All);
        i += 1;
    }
    proof {
        assert(collectibles@.take(i as int) =~= collectibles@);
    }
    map
}

} // verus!
