//! What can be asked and done of a task while it is accessed.
use rustc_hash::FxBuildHasher;
use vstd::prelude::*;

use crate::category::{SpecificTaskDataCategory, TaskDataCategory};
use crate::cell_removal::{
    lemma_listed_cells, remove_cells, select_cells, select_in_progress_cells,
};
use crate::counter_map::{count_of, updated, CounterMap};
use crate::data::{
    ActivenessState, Dirtyness, InProgressCellState, InProgressState, SharedReference,
    TaskExecutionReason,
    TypedSharedReference,
};
use crate::fx::{
    hashes_consistently, keys_of, law_a_list_holds_each_entry_once, lemma_lists_push,
    lemma_take_next, lists, positive,
};
use crate::ids::{
    law_cell_id_packing, law_cell_ref_packing, law_collectibles_ref_packing, CellId, CellRef,
    CollectibleRef, CollectiblesRef, PackedCellId, PackedCellRef, PackedCollectiblesRef, TaskId,
};
use crate::index_map::{index_entries, index_len, FxIndexMap};
use crate::prefetch::collect_dependencies;
use crate::storage_schema::{same_data, same_meta, same_transient, TaskStorageSchema};
use crate::task_flags::TaskFlag;
use crate::task_storage_accessors::TaskStorageAccessors;
use crate::unpacked::{
    by_cell, by_collectible, entry_keys, law_a_list_holds_each_key_once, lemma_entry_keys,
    lists_keys, unpack_cells, unpack_collectible_entries, unpack_collectibles,
};

verus! {

broadcast use vstd::std_specs::hash::group_hash_axioms;

/// What a stored count stands for: absent means zero.
pub open spec fn stored_count(stored: Option<i32>) -> int {
    match stored {
        Some(count) => count as int,
        None => 0,
    }
}

/// How a count is stored: zero is not.
pub open spec fn storing(count: int) -> Option<i32> {
    if count == 0 {
        None
    } else {
        Some(count as i32)
    }
}

/// Whether a task has to run again: it is dirty, and not only because of the session while it is
/// clean in the current one.
pub open spec fn has_to_run(data: TaskStorageSchema) -> bool {
    match data.dirty {
        None => false,
        Some(Dirtyness::Dirty) => true,
        Some(Dirtyness::SessionDependent) => !data.flags.contains(TaskFlag::CurrentSessionClean),
    }
}

/// Whether a task is dirty, and whether it is so only because of the session and clean in the
/// current one.
pub open spec fn dirty_and_clean(data: TaskStorageSchema) -> (bool, bool) {
    (
        data.dirty is Some,
        data.dirty == Some(Dirtyness::SessionDependent) && data.flags.contains(
            TaskFlag::CurrentSessionClean,
        ),
    )
}

/// Why a task is dirty, if it is, and whether it is so only because of the session and clean in the
/// current one.
pub open spec fn dirtyness_and_clean(data: TaskStorageSchema) -> Option<(Dirtyness, bool)> {
    match data.dirty {
        None => None,
        Some(Dirtyness::Dirty) => Some((Dirtyness::Dirty, false)),
        Some(Dirtyness::SessionDependent) => Some(
            (
                Dirtyness::SessionDependent,
                data.flags.contains(TaskFlag::CurrentSessionClean),
            ),
        ),
    }
}

/// The containers that are dirty and not made up for by being clean in the current session.
pub open spec fn outstanding(dirty: Map<TaskId, i32>, clean: Map<TaskId, i32>) -> Map<TaskId, i32> {
    Map::new(
        |task: TaskId|
            dirty.contains_key(task) && dirty[task] > 0 && dirty[task] > count_of(clean, task),
        |task: TaskId| dirty[task],
    )
}

/// The data of a cell.
pub open spec fn cell_value(
    data: TaskStorageSchema,
    is_serializable_cell_content: bool,
    cell: CellId,
) -> Option<TypedSharedReference> {
    if is_serializable_cell_content {
        data.cell_data.get(cell.packed())
    } else {
        match data.transient_cell_data.get(cell.packed()) {
            Some(reference) => Some(reference.typed(cell.type_id)),
            None => None,
        }
    }
}

/// The storage with other data for a cell: `None` for no data. Of data that is not serializable
/// the type is not kept.
pub open spec fn with_cell_value(
    data: TaskStorageSchema,
    is_serializable_cell_content: bool,
    cell: CellId,
    value: Option<TypedSharedReference>,
) -> TaskStorageSchema {
    if is_serializable_cell_content {
        TaskStorageSchema {
            cell_data: match value {
                Some(value) => data.cell_data.insert(cell.packed(), value),
                None => data.cell_data.remove(cell.packed()),
            },
            ..data
        }
    } else {
        TaskStorageSchema {
            transient_cell_data: match value {
                Some(value) => data.transient_cell_data.insert(cell.packed(), value.reference),
                None => data.transient_cell_data.remove(cell.packed()),
            },
            ..data
        }
    }
}

/// The tasks whose output a task depends on.
pub open spec fn output_tasks(data: TaskStorageSchema) -> Set<TaskId> {
    data.output_dependencies
}

/// The tasks on whose cells a task depends.
pub open spec fn cell_tasks(data: TaskStorageSchema) -> Set<TaskId> {
    data.cell_dependencies.map(|cell| CellRef::unpacked(cell).task)
}

/// The tasks on whose collectibles a task depends.
pub open spec fn collectibles_tasks(data: TaskStorageSchema) -> Set<TaskId> {
    data.collectibles_dependencies.map(|collectibles| CollectiblesRef::unpacked(collectibles).task)
}

/// The tasks that a task depends on.
pub open spec fn dependencies(data: TaskStorageSchema) -> Set<TaskId> {
    output_tasks(data).union(cell_tasks(data)).union(collectibles_tasks(data))
}

/// What is needed of the tasks on whose outputs, cells and collectibles a task depends: for its
/// output the metadata, for cells and collectibles everything.
pub open spec fn needed(
    outputs: Set<TaskId>,
    cells: Set<TaskId>,
    collectibles: Set<TaskId>,
) -> Map<TaskId, TaskDataCategory> {
    Map::new(
        |task: TaskId| outputs.contains(task) || cells.contains(task) || collectibles.contains(task),
        |task: TaskId|
            if cells.contains(task) || collectibles.contains(task) {
                TaskDataCategory::All
            } else {
                TaskDataCategory::Meta
            },
    )
}

/// Where a task stands among the dependencies: those on outputs come first, then those on cells,
/// then those on collectibles.
pub open spec fn dependency_rank(outputs: Set<TaskId>, cells: Set<TaskId>, task: TaskId) -> int {
    if outputs.contains(task) {
        0
    } else if cells.contains(task) {
        1
    } else {
        2
    }
}

/// Whether `entries` holds each dependency once, with what is needed of it, and ordered by rank.
pub open spec fn in_dependency_order(
    entries: Seq<(TaskId, TaskDataCategory)>,
    outputs: Set<TaskId>,
    cells: Set<TaskId>,
    collectibles: Set<TaskId>,
) -> bool {
    &&& lists(entries, needed(outputs, cells, collectibles))
    &&& forall|i: int, j: int|
        0 <= i < j < entries.len() ==> dependency_rank(outputs, cells, (#[trigger] entries[i]).0)
            <= dependency_rank(outputs, cells, (#[trigger] entries[j]).0)
}

/// Whether prefetching gives an answer: it has not been asked before, and there is more than one
/// task to prefetch.
pub open spec fn prefetch_answers(data: TaskStorageSchema) -> bool {
    !data.flags.contains(TaskFlag::Prefetched) && dependencies(data).len() > 1
}

/// The storage once prefetching has been asked.
pub open spec fn after_prefetch(data: TaskStorageSchema) -> TaskStorageSchema {
    TaskStorageSchema { flags: data.flags.insert(TaskFlag::Prefetched), ..data }
}

/// The entries that are [`outstanding`].
fn outstanding_entries(
    dirty: &CounterMap<TaskId, i32>,
    clean: Option<&CounterMap<TaskId, i32>>,
) -> (entries: Vec<(TaskId, i32)>)
    ensures
        lists(
            entries@,
            outstanding(
                dirty@,
                match clean {
                    Some(clean) => clean@,
                    None => Map::empty(),
                },
            ),
        ),
{
    let _hasher = FxBuildHasher::default();
    let ghost cleaned: Map<TaskId, i32> = match clean {
        Some(clean) => clean@,
        None => Map::empty(),
    };
    let keys = keys_of(dirty);
    let mut entries: Vec<(TaskId, i32)> = Vec::new();
    let mut i: usize = 0;
    while i < keys.len()
        invariant
            hashes_consistently(_hasher),
            keys@.no_duplicates(),
            keys@.to_set() == dirty@.dom(),
            cleaned == (match clean {
                Some(clean) => clean@,
                None => Map::empty(),
            }),
            i <= keys@.len(),
            lists(entries@, outstanding(dirty@, cleaned).restrict(keys@.take(i as int).to_set())),
        decreases keys@.len() - i,
    {
        let task_id: TaskId = keys[i];
        let ghost done = outstanding(dirty@, cleaned).restrict(keys@.take(i as int).to_set());
        let ghost next = outstanding(dirty@, cleaned).restrict(keys@.take(i + 1).to_set());
        proof {
            lemma_take_next(keys@, i as int);
            assert(keys@.contains(task_id));
            assert(dirty@.contains_key(task_id));
            if outstanding(dirty@, cleaned).contains_key(task_id) {
                lemma_lists_push(entries@, done, task_id, dirty@[task_id]);
                assert(next =~= done.insert(task_id, dirty@[task_id]));
            } else {
                assert(next =~= done);
            }
        }
        if let Some(count) = dirty.get(&task_id) {
            let count: i32 = *count;
            if count > 0 {
                let clean_count: i32 = match clean {
                    Some(clean) => match clean.get(&task_id) {
                        Some(clean_count) => *clean_count,
                        None => 0,
                    },
                    None => 0,
                };
                if count > clean_count {
                    entries.push((task_id, count));
                }
            }
        }
        i += 1;
    }
    assert(keys@.take(i as int) =~= keys@);
    assert(outstanding(dirty@, cleaned).restrict(keys@.to_set()) =~= outstanding(dirty@, cleaned));
    entries
}

/// An accessed task.
pub trait TaskGuard: TaskStorageAccessors {
    /// The task that is accessed.
    fn id(&self) -> (task_id: TaskId)
        ensures
            task_id == self.guard().task_id,
    ;

    /// Updates the aggregated dirty container count (the scalar total count field) by the given
    /// delta and returns the new value.
    fn update_and_get_aggregated_dirty_container_count(&mut self, delta: i32) -> (new_value: i32)
        requires
            old(self).storage().wf(),
            old(self).guard().grants(TaskDataCategory::Meta),
            i32::MIN <= stored_count(old(self).storage()@.aggregated_dirty_container_count) + delta
                <= i32::MAX,
        ensures
            new_value == stored_count(old(self).storage()@.aggregated_dirty_container_count)
                + delta,
            final(self).storage().wf(),
            final(self).storage()@ == (TaskStorageSchema {
                aggregated_dirty_container_count: storing(new_value as int),
                ..old(self).storage()@
            }),
            final(self).guard() == old(self).guard().noted(SpecificTaskDataCategory::Meta),
    {
        let current: i32 = match self.get_aggregated_dirty_container_count() {
            Some(count) => *count,
            None => 0,
        };
        let new_value: i32 = current + delta;
        if new_value == 0 {
            self.take_aggregated_dirty_container_count();
        } else {
            self.set_aggregated_dirty_container_count(new_value);
        }
        new_value
    }

    /// Updates the aggregated current session clean container count (the scalar total count field)
    /// by the given delta and returns the new value.
    fn update_and_get_aggregated_current_session_clean_container_count(
        &mut self,
        delta: i32,
    ) -> (new_value: i32)
        requires
            old(self).storage().wf(),
            i32::MIN <= stored_count(
                old(self).storage()@.aggregated_current_session_clean_container_count,
            ) + delta <= i32::MAX,
        ensures
            new_value == stored_count(
                old(self).storage()@.aggregated_current_session_clean_container_count,
            ) + delta,
            final(self).storage().wf(),
            final(self).storage()@ == (TaskStorageSchema {
                aggregated_current_session_clean_container_count: storing(new_value as int),
                ..old(self).storage()@
            }),
            final(self).guard() == old(self).guard(),
    {
        let current: i32 = match self.get_aggregated_current_session_clean_container_count() {
            Some(count) => *count,
            None => 0,
        };
        let new_value: i32 = current + delta;
        if new_value == 0 {
            self.take_aggregated_current_session_clean_container_count();
        } else {
            self.set_aggregated_current_session_clean_container_count(new_value);
        }
        new_value
    }

    /// Whether the task has to run again.
    fn is_dirty(&self) -> (dirty: bool)
        requires
            self.storage().wf(),
            self.guard().grants(TaskDataCategory::Meta),
        ensures
            dirty == has_to_run(self.storage()@),
    {
        match self.get_dirty() {
            None => false,
            Some(Dirtyness::Dirty) => true,
            Some(Dirtyness::SessionDependent) => !self.current_session_clean(),
        }
    }

    /// The dirty state, and whether the task is clean in the current session, which counts only
    /// for a session dependent state.
    fn dirtyness_and_session(&self) -> (state: Option<(Dirtyness, bool)>)
        requires
            self.storage().wf(),
            self.guard().grants(TaskDataCategory::Meta),
        ensures
            state == dirtyness_and_clean(self.storage()@),
    {
        match self.get_dirty() {
            None => None,
            Some(Dirtyness::Dirty) => Some((Dirtyness::Dirty, false)),
            Some(Dirtyness::SessionDependent) => Some(
                (Dirtyness::SessionDependent, self.current_session_clean()),
            ),
        }
    }

    /// Returns (is_dirty, is_clean_in_current_session).
    fn dirty_state(&self) -> (state: (bool, bool))
        requires
            self.storage().wf(),
            self.guard().grants(TaskDataCategory::Meta),
        ensures
            state == dirty_and_clean(self.storage()@),
    {
        match self.get_dirty() {
            None => (false, false),
            Some(Dirtyness::Dirty) => (true, false),
            Some(Dirtyness::SessionDependent) => (true, self.current_session_clean()),
        }
    }

    /// The containers that are dirty and not made up for by being clean in the current session, in
    /// no particular order.
    fn dirty_containers(&self) -> (tasks: Vec<TaskId>)
        requires
            self.storage().wf(),
            self.guard().grants(TaskDataCategory::Meta),
        ensures
            lists_keys(
                tasks@,
                outstanding(
                    self.storage()@.aggregated_dirty_containers,
                    self.storage()@.aggregated_current_session_clean_containers,
                ),
            ),
    {
        let entries = self.dirty_containers_with_count();
        let tasks = entry_keys(&entries);
        proof {
            lemma_entry_keys(
                entries@,
                outstanding(
                    self.storage()@.aggregated_dirty_containers,
                    self.storage()@.aggregated_current_session_clean_containers,
                ),
                tasks@,
            );
        }
        tasks
    }

    /// Like [`TaskGuard::dirty_containers`], each container with its dirty count.
    fn dirty_containers_with_count(&self) -> (entries: Vec<(TaskId, i32)>)
        requires
            self.storage().wf(),
            self.guard().grants(TaskDataCategory::Meta),
        ensures
            lists(
                entries@,
                outstanding(
                    self.storage()@.aggregated_dirty_containers,
                    self.storage()@.aggregated_current_session_clean_containers,
                ),
            ),
    {
        let dirty_map = self.aggregated_dirty_containers();
        let clean_map = self.aggregated_current_session_clean_containers();
        match dirty_map {
            Some(map) => outstanding_entries(map, clean_map),
            None => Vec::new(),
        }
    }

    /// Whether more containers are dirty than are clean in the current session.
    fn has_dirty_containers(&self) -> (has: bool)
        requires
            self.storage().wf(),
            self.guard().grants(TaskDataCategory::Meta),
        ensures
            has == ({
                let dirty_count = stored_count(self.storage()@.aggregated_dirty_container_count);
                let clean_count = stored_count(
                    self.storage()@.aggregated_current_session_clean_container_count,
                );
                dirty_count > 0 && dirty_count > clean_count
            }),
    {
        let dirty_count: i32 = match self.get_aggregated_dirty_container_count() {
            Some(count) => *count,
            None => 0,
        };
        if dirty_count <= 0 {
            return false;
        }
        let clean_count: i32 = match self.get_aggregated_current_session_clean_container_count() {
            Some(count) => *count,
            None => 0,
        };
        dirty_count > clean_count
    }

    /// Removes cell data, returning it.
    fn remove_cell_data(&mut self, is_serializable_cell_content: bool, cell: CellId) -> (removed:
        Option<TypedSharedReference>)
        requires
            old(self).storage().wf(),
            is_serializable_cell_content ==> old(self).guard().grants(TaskDataCategory::Data),
        ensures
            removed == cell_value(old(self).storage()@, is_serializable_cell_content, cell),
            final(self).storage().wf(),
            final(self).storage()@ == with_cell_value(
                old(self).storage()@,
                is_serializable_cell_content,
                cell,
                None,
            ),
            final(self).guard() == (if is_serializable_cell_content {
                old(self).guard().noted(SpecificTaskDataCategory::Data)
            } else {
                old(self).guard()
            }),
    {
        if is_serializable_cell_content {
            self.remove_cell_data_entry(&cell)
        } else {
            match self.remove_transient_cell_data_entry(&cell) {
                Some(reference) => Some(reference.into_typed(cell.type_id)),
                None => None,
            }
        }
    }

    /// The data of a cell.
    fn get_cell_data(&self, is_serializable_cell_content: bool, cell: CellId) -> (value: Option<
        TypedSharedReference,
    >)
        requires
            self.storage().wf(),
            is_serializable_cell_content ==> self.guard().grants(TaskDataCategory::Data),
        ensures
            value == cell_value(self.storage()@, is_serializable_cell_content, cell),
    {
        let _hasher = FxBuildHasher::default();
        if is_serializable_cell_content {
            match self.cell_data() {
                Some(map) => match map.get(&cell.pack()) {
                    Some(value) => Some(*value),
                    None => None,
                },
                None => None,
            }
        } else {
            match self.transient_cell_data() {
                Some(map) => match map.get(&cell.pack()) {
                    Some(reference) => Some(reference.into_typed(cell.type_id)),
                    None => None,
                },
                None => None,
            }
        }
    }

    /// Whether a cell has data.
    fn has_cell_data(&self, is_serializable_cell_content: bool, cell: CellId) -> (has: bool)
        requires
            self.storage().wf(),
            is_serializable_cell_content ==> self.guard().grants(TaskDataCategory::Data),
        ensures
            has == (cell_value(self.storage()@, is_serializable_cell_content, cell) is Some),
    {
        let _hasher = FxBuildHasher::default();
        if is_serializable_cell_content {
            match self.cell_data() {
                Some(map) => map.contains_key(&cell.pack()),
                None => false,
            }
        } else {
            match self.transient_cell_data() {
                Some(map) => map.contains_key(&cell.pack()),
                None => false,
            }
        }
    }

    /// Sets cell data, returning the old value if any.
    fn set_cell_data(
        &mut self,
        is_serializable_cell_content: bool,
        cell: CellId,
        value: TypedSharedReference,
    ) -> (before: Option<TypedSharedReference>)
        requires
            old(self).storage().wf(),
            is_serializable_cell_content ==> old(self).guard().grants(TaskDataCategory::Data),
        ensures
            before == cell_value(old(self).storage()@, is_serializable_cell_content, cell),
            final(self).storage().wf(),
            final(self).storage()@ == with_cell_value(
                old(self).storage()@,
                is_serializable_cell_content,
                cell,
                Some(value),
            ),
            final(self).guard() == (if is_serializable_cell_content {
                old(self).guard().noted(SpecificTaskDataCategory::Data)
            } else {
                old(self).guard()
            }),
    {
        if is_serializable_cell_content {
            self.insert_cell_data_entry(cell, value)
        } else {
            match self.insert_transient_cell_data_entry(cell, value.into_untyped()) {
                Some(reference) => Some(reference.into_typed(cell.type_id)),
                None => None,
            }
        }
    }

    /// Adds new cell data, for a cell that has none.
    fn add_cell_data(
        &mut self,
        is_serializable_cell_content: bool,
        cell: CellId,
        value: TypedSharedReference,
    )
        requires
            old(self).storage().wf(),
            is_serializable_cell_content ==> old(self).guard().grants(TaskDataCategory::Data),
            cell_value(old(self).storage()@, is_serializable_cell_content, cell) is None,
        ensures
            final(self).storage().wf(),
            final(self).storage()@ == with_cell_value(
                old(self).storage()@,
                is_serializable_cell_content,
                cell,
                Some(value),
            ),
            final(self).guard() == (if is_serializable_cell_content {
                old(self).guard().noted(SpecificTaskDataCategory::Data)
            } else {
                old(self).guard()
            }),
    {
        let _before = self.set_cell_data(is_serializable_cell_content, cell, value);
    }

    /// Adds a scheduled task item. Returns true if the task was successfully added (wasn't already
    /// present).
    #[must_use]
    fn add_scheduled<InnerFn, F>(
        &mut self,
        reason: TaskExecutionReason,
        description: F,
    ) -> (added: bool) where F: FnOnce() -> InnerFn, InnerFn: Fn() -> String
        requires
            old(self).storage().wf(),
            description.requires(()),
            forall|describe: InnerFn|
                description.ensures((), describe) ==> #[trigger] describe.requires(()),
        ensures
            added == (old(self).storage()@.in_progress is None),
            final(self).storage().wf(),
            final(self).storage()@ == (TaskStorageSchema {
                in_progress: final(self).storage()@.in_progress,
                ..old(self).storage()@
            }),
            final(self).guard() == old(self).guard(),
            if added {
                match final(self).storage()@.in_progress {
                    Some(state) => {
                        &&& state is Scheduled
                        &&& state->reason == reason
                        &&& exists|describe: InnerFn|
                            description.ensures((), describe) && #[trigger] describe.ensures(
                                (),
                                state->description,
                            )
                    },
                    None => false,
                }
            } else {
                final(self).storage()@.in_progress == old(self).storage()@.in_progress
            },
    {
        self.add_in_progress(InProgressState::new_scheduled(reason, description))
    }

    /// Inserts an outdated collectible with count. Returns true if it was newly inserted.
    #[must_use]
    fn insert_outdated_collectible(&mut self, collectible: CollectibleRef, value: i32) -> (new:
        bool)
        requires
            old(self).storage().wf(),
        ensures
            new == !old(self).storage()@.outdated_collectibles.contains_key(collectible.packed()),
            final(self).storage().wf(),
            final(self).storage()@ == (if new {
                TaskStorageSchema {
                    outdated_collectibles: old(self).storage()@.outdated_collectibles.insert(
                        collectible.packed(),
                        value,
                    ),
                    ..old(self).storage()@
                }
            } else {
                old(self).storage()@
            }),
            final(self).guard() == old(self).guard(),
    {
        if self.get_outdated_collectibles_entry(&collectible).is_some() {
            return false;
        }
        self.add_outdated_collectibles(collectible, value);
        true
    }

    /// All follower tasks (with count > 0), in no particular order.
    fn iter_followers(&self) -> (tasks: Vec<TaskId>)
        requires
            self.storage().wf(),
            self.guard().grants(TaskDataCategory::Meta),
        ensures
            lists_keys(tasks@, positive(self.storage()@.followers)),
    {
        let entries = self.iter_followers_positive_entries();
        let tasks = entry_keys(&entries);
        proof {
            lemma_entry_keys(entries@, positive(self.storage()@.followers), tasks@);
        }
        tasks
    }

    /// All upper tasks (with count > 0), in no particular order.
    fn iter_uppers(&self) -> (tasks: Vec<TaskId>)
        requires
            self.storage().wf(),
            self.guard().grants(TaskDataCategory::Meta),
        ensures
            lists_keys(tasks@, positive(self.storage()@.upper)),
    {
        let entries = self.iter_upper_positive_entries();
        let tasks = entry_keys(&entries);
        proof {
            lemma_entry_keys(entries@, positive(self.storage()@.upper), tasks@);
        }
        tasks
    }

    /// All outdated collectibles, in no particular order.
    fn iter_outdated_collectibles(&self) -> (collectibles: Vec<CollectibleRef>)
        requires
            self.storage().wf(),
        ensures
            lists_keys(
                collectibles@,
                by_collectible(self.storage()@.outdated_collectibles),
            ),
    {
        let keys = self.iter_outdated_collectibles_keys();
        unpack_collectibles::<i32>(&keys, Ghost(self.storage()@.outdated_collectibles))
    }

    /// All aggregated collectibles (with count > 0), in no particular order, as (collectible,
    /// count) pairs.
    fn iter_aggregated_collectibles(&self) -> (entries: Vec<(CollectibleRef, i32)>)
        requires
            self.storage().wf(),
            self.guard().grants(TaskDataCategory::Meta),
        ensures
            lists(
                entries@,
                by_collectible(positive(self.storage()@.aggregated_collectibles)),
            ),
    {
        let entries = self.iter_aggregated_collectibles_positive_entries();
        unpack_collectible_entries(
            &entries,
            Ghost(positive(self.storage()@.aggregated_collectibles)),
        )
    }

    /// All cells with persisted data, in no particular order.
    fn iter_cell_data(&self) -> (cells: Vec<CellId>)
        requires
            self.storage().wf(),
            self.guard().grants(TaskDataCategory::Data),
        ensures
            lists_keys(cells@, by_cell(self.storage()@.cell_data)),
    {
        let keys = self.iter_cell_data_keys();
        unpack_cells::<TypedSharedReference>(&keys, Ghost(self.storage()@.cell_data))
    }

    /// All cells with transient data, in no particular order.
    fn iter_transient_cell_data(&self) -> (cells: Vec<CellId>)
        requires
            self.storage().wf(),
        ensures
            lists_keys(cells@, by_cell(self.storage()@.transient_cell_data)),
    {
        let keys = self.iter_transient_cell_data_keys();
        unpack_cells::<SharedReference>(&keys, Ghost(self.storage()@.transient_cell_data))
    }

    /// All cells that are being computed, in no particular order.
    fn iter_in_progress_cells(&self) -> (cells: Vec<CellId>)
        requires
            self.storage().wf(),
        ensures
            lists_keys(cells@, by_cell(self.storage()@.in_progress_cells)),
    {
        let keys = self.iter_in_progress_cells_keys();
        unpack_cells::<InProgressCellState>(&keys, Ghost(self.storage()@.in_progress_cells))
    }

    /// The activeness state, to be changed; one made by `f` is inserted if there is none.
    fn get_activeness_mut_or_insert_with<F>(&mut self, f: F) -> (value: &mut ActivenessState) where
        F: FnOnce() -> ActivenessState,

        requires
            old(self).storage().wf(),
            old(self).storage()@.activeness is None ==> f.requires(()),
        ensures
            match old(self).storage()@.activeness {
                Some(state) => *value == state,
                None => f.ensures((), *value),
            },
            final(self).storage().wf(),
            final(self).storage()@ == (TaskStorageSchema {
                activeness: Some(*final(value)),
                ..old(self).storage()@
            }),
            final(self).guard() == old(self).guard(),
    {
        if !self.has_activeness() {
            self.set_activeness(f());
        }
        self.get_activeness_mut().unwrap()
    }

    /// Adds an in-progress state if there is none yet. Returns true if newly added.
    fn add_in_progress(&mut self, value: InProgressState) -> (added: bool)
        requires
            old(self).storage().wf(),
        ensures
            added == (old(self).storage()@.in_progress is None),
            final(self).storage().wf(),
            final(self).storage()@ == (if added {
                TaskStorageSchema { in_progress: Some(value), ..old(self).storage()@ }
            } else {
                old(self).storage()@
            }),
            final(self).guard() == old(self).guard(),
    {
        if self.has_in_progress() {
            false
        } else {
            self.set_in_progress(value);
            true
        }
    }

    /// Notes that both parts of the persisted data are modified.
    fn invalidate_serialization(&mut self)
        ensures
            final(self).storage() == old(self).storage(),
            final(self).guard() == old(self).guard().noted(SpecificTaskDataCategory::Data).noted(
                SpecificTaskDataCategory::Meta,
            ),
    {
        self.track_modification(SpecificTaskDataCategory::Data);
        self.track_modification(SpecificTaskDataCategory::Meta);
    }

    /// Determines which tasks to prefetch for the task: the tasks that it depends on, and which of
    /// their data is needed.
    ///
    /// Gives an answer only once per task, and only where more than one task is to be prefetched.
    fn prefetch(&mut self) -> (wanted: Option<FxIndexMap<TaskId, TaskDataCategory>>)
        requires
            old(self).storage().wf(),
            // the dependencies are looked at only where the task has not been prefetched
            !old(self).storage()@.flags.contains(TaskFlag::Prefetched) ==> old(self).guard().grants(
                TaskDataCategory::Data,
            ),
        ensures
            wanted is Some <==> prefetch_answers(old(self).storage()@),
            match wanted {
                Some(map) => in_dependency_order(
                    index_entries(map),
                    output_tasks(old(self).storage()@),
                    cell_tasks(old(self).storage()@),
                    collectibles_tasks(old(self).storage()@),
                ),
                None => true,
            },
            final(self).storage().wf(),
            final(self).storage()@ == after_prefetch(old(self).storage()@),
            final(self).guard() == old(self).guard(),
    {
        if self.typed().flags.get(TaskFlag::Prefetched) {
            assert(self.storage()@.flags.insert(TaskFlag::Prefetched) =~= self.storage()@.flags);
            return None;
        }
        let ghost data = self.storage()@;
        self.typed_mut().flags.set(TaskFlag::Prefetched, true);
        let outputs = self.iter_output_dependencies();
        let cells = self.iter_cell_dependencies();
        let collectibles = self.iter_collectibles_dependencies();
        let map = collect_dependencies(&outputs, &cells, &collectibles);
        proof {
            let entries = index_entries(map);
            let all = needed(output_tasks(data), cell_tasks(data), collectibles_tasks(data));
            let keys = Seq::new(entries.len(), |i: int| entries[i].0);
            lemma_entry_keys(entries, all, keys);
            assert(all.dom() =~= dependencies(data));
            keys.unique_seq_to_set();
        }
        if index_len(&map) > 1 {
            Some(map)
        } else {
            None
        }
    }

    /// Removes the persisted cell data that matches the predicate.
    fn remove_cell_data_if<F>(&mut self, f: F) where F: FnMut(&CellId) -> bool
        requires
            old(self).storage().wf(),
            old(self).guard().grants(TaskDataCategory::Data),
            forall|cell: CellId| #[trigger]
                old(self).storage()@.cell_data.contains_key(cell.packed()) ==> f.requires((&cell,)),
        ensures
            final(self).storage().wf(),
            final(self).storage()@ == (TaskStorageSchema {
                cell_data: final(self).storage()@.cell_data,
                ..old(self).storage()@
            }),
            final(self).storage()@.cell_data.submap_of(old(self).storage()@.cell_data),
            forall|cell: CellId| #[trigger]
                old(self).storage()@.cell_data.contains_key(cell.packed()) ==> f.ensures(
                    (&cell,),
                    !final(self).storage()@.cell_data.contains_key(cell.packed()),
                ),
            final(self).guard() == old(self).guard().noted_times(
                SpecificTaskDataCategory::Data,
                (old(self).storage()@.cell_data.len() - final(self).storage()@.cell_data.len()) as nat,
            ),
    {
        let cells = self.iter_cell_data();
        proof {
            lemma_listed_cells(cells@, self.storage()@.cell_data);
        }
        let to_remove = select_cells(&cells, f);
        self.track_modifications(SpecificTaskDataCategory::Data, to_remove.len());
        if to_remove.len() > 0 {
            remove_cells(self.typed_mut().cell_data_mut(), &to_remove, Ghost(cells@));
        }
    }

    /// Removes the transient cell data that matches the predicate.
    fn remove_transient_cell_data_if<F>(&mut self, f: F) where F: FnMut(&CellId) -> bool
        requires
            old(self).storage().wf(),
            forall|cell: CellId| #[trigger]
                old(self).storage()@.transient_cell_data.contains_key(cell.packed()) ==> f.requires(
                    (&cell,),
                ),
        ensures
            final(self).storage().wf(),
            final(self).storage()@ == (TaskStorageSchema {
                transient_cell_data: final(self).storage()@.transient_cell_data,
                ..old(self).storage()@
            }),
            final(self).storage()@.transient_cell_data.submap_of(
                old(self).storage()@.transient_cell_data,
            ),
            forall|cell: CellId| #[trigger]
                old(self).storage()@.transient_cell_data.contains_key(cell.packed()) ==> f.ensures(
                    (&cell,),
                    !final(self).storage()@.transient_cell_data.contains_key(cell.packed()),
                ),
            final(self).guard() == old(self).guard(),
    {
        let cells = self.iter_transient_cell_data();
        proof {
            lemma_listed_cells(cells@, self.storage()@.transient_cell_data);
        }
        let to_remove = select_cells(&cells, f);
        if to_remove.len() > 0 {
            remove_cells(self.typed_mut().transient_cell_data_mut(), &to_remove, Ghost(cells@));
        }
    }

    /// Removes the states of the cells that are being computed and match the predicate. They are
    /// returned, each once, in no particular order, for their waiters to be notified.
    #[must_use]
    fn remove_in_progress_cells_if<F>(&mut self, f: F) -> (removed: Vec<
        (CellId, InProgressCellState),
    >) where F: FnMut(&CellId, &InProgressCellState) -> bool
        requires
            old(self).storage().wf(),
            forall|cell: CellId| #[trigger]
                old(self).storage()@.in_progress_cells.contains_key(cell.packed()) ==> f.requires(
                    (&cell, &old(self).storage()@.in_progress_cells[cell.packed()]),
                ),
        ensures
            final(self).storage().wf(),
            final(self).storage()@ == (TaskStorageSchema {
                in_progress_cells: final(self).storage()@.in_progress_cells,
                ..old(self).storage()@
            }),
            final(self).storage()@.in_progress_cells.submap_of(
                old(self).storage()@.in_progress_cells,
            ),
            forall|cell: CellId| #[trigger]
                old(self).storage()@.in_progress_cells.contains_key(cell.packed()) ==> f.ensures(
                    (&cell, &old(self).storage()@.in_progress_cells[cell.packed()]),
                    !final(self).storage()@.in_progress_cells.contains_key(cell.packed()),
                ),
            lists(
                removed@,
                by_cell(
                    old(self).storage()@.in_progress_cells.remove_keys(
                        final(self).storage()@.in_progress_cells.dom(),
                    ),
                ),
            ),
            final(self).guard() == old(self).guard(),
    {
        let cells = self.iter_in_progress_cells();
        proof {
            lemma_listed_cells(cells@, self.storage()@.in_progress_cells);
        }
        let to_remove = match self.in_progress_cells() {
            Some(states) => select_in_progress_cells(states, &cells, f),
            None => Vec::new(),
        };
        if to_remove.len() == 0 {
            let ghost states = self.storage()@.in_progress_cells;
            assert(by_cell(states.remove_keys(states.dom())) =~= Map::empty());
            return Vec::new();
        }
        remove_cells(self.typed_mut().in_progress_cells_mut(), &to_remove, Ghost(cells@))
    }
}

/// A stored count is read back, and a count of zero is not stored.
pub proof fn law_count_is_read_back(count: int)
    requires
        i32::MIN <= count <= i32::MAX,
    ensures
        stored_count(storing(count)) == count,
        storing(count) is None <==> count == 0,
{
}

/// A task has to run again exactly if it is dirty and not clean in the current session, and the
/// ways to ask for the two agree.
pub proof fn law_dirty_states_agree(data: TaskStorageSchema)
    ensures
        has_to_run(data) == (dirty_and_clean(data).0 && !dirty_and_clean(data).1),
        dirty_and_clean(data).1 ==> dirty_and_clean(data).0,
        match dirtyness_and_clean(data) {
            Some((dirtyness, clean)) => {
                &&& data.dirty == Some(dirtyness)
                &&& dirty_and_clean(data) == (true, clean)
            },
            None => dirty_and_clean(data) == (false, false),
        },
{
}

/// Data that has been stored for a cell is read back, data that has been removed is gone, and no
/// other cell is touched; serializable and other data are kept apart. Of data that is not
/// serializable the type is taken from the cell.
pub proof fn law_cell_data_is_read_back(
    data: TaskStorageSchema,
    is_serializable_cell_content: bool,
    cell: CellId,
    value: TypedSharedReference,
    other_is_serializable: bool,
    other: CellId,
)
    ensures
        ({
            let stored = with_cell_value(data, is_serializable_cell_content, cell, Some(value));
            &&& cell_value(stored, is_serializable_cell_content, cell) == Some(
                if is_serializable_cell_content {
                    value
                } else {
                    value.reference.typed(cell.type_id)
                },
            )
            &&& value.type_id == cell.type_id ==> cell_value(
                stored,
                is_serializable_cell_content,
                cell,
            ) == Some(value)
            &&& other != cell || other_is_serializable != is_serializable_cell_content
                ==> cell_value(stored, other_is_serializable, other) == cell_value(
                data,
                other_is_serializable,
                other,
            )
        }),
        ({
            let removed = with_cell_value(data, is_serializable_cell_content, cell, None);
            &&& cell_value(removed, is_serializable_cell_content, cell) is None
            &&& other != cell || other_is_serializable != is_serializable_cell_content
                ==> cell_value(removed, other_is_serializable, other) == cell_value(
                data,
                other_is_serializable,
                other,
            )
        }),
{
    law_cell_id_packing(cell, cell.packed());
    law_cell_id_packing(other, other.packed());
}

/// Data that is added for a cell that has none and then removed leaves no trace.
pub proof fn law_cell_data_is_taken_back(
    data: TaskStorageSchema,
    is_serializable_cell_content: bool,
    cell: CellId,
    value: TypedSharedReference,
)
    requires
        cell_value(data, is_serializable_cell_content, cell) is None,
    ensures
        with_cell_value(
            with_cell_value(data, is_serializable_cell_content, cell, Some(value)),
            is_serializable_cell_content,
            cell,
            None,
        ) == data,
{
    let key = cell.packed();
    assert(data.cell_data.insert(key, value).remove(key) =~= data.cell_data
        || data.cell_data.contains_key(key));
    assert(data.transient_cell_data.insert(key, value.reference).remove(key)
        =~= data.transient_cell_data || data.transient_cell_data.contains_key(key));
}

/// Prefetching answers at most once: not again after it has been asked, whatever has become of the
/// task since, as long as the flag stays, and not after persisted data has been restored. Where it
/// does not answer again it changes nothing.
pub proof fn law_prefetch_answers_once(
    data: TaskStorageSchema,
    later: TaskStorageSchema,
    source: TaskStorageSchema,
    category: TaskDataCategory,
)
    ensures
        after_prefetch(data).flags.contains(TaskFlag::Prefetched),
        later.flags.contains(TaskFlag::Prefetched) ==> !prefetch_answers(later) && after_prefetch(
            later,
        ) == later,
        !prefetch_answers(after_prefetch(data)),
        !prefetch_answers(after_prefetch(data).restored_from(source, category)),
        after_prefetch(after_prefetch(data)) == after_prefetch(data),
{
    assert(data.flags.insert(TaskFlag::Prefetched).insert(TaskFlag::Prefetched)
        =~= data.flags.insert(TaskFlag::Prefetched));
    if later.flags.contains(TaskFlag::Prefetched) {
        assert(later.flags.insert(TaskFlag::Prefetched) =~= later.flags);
    }
}

/// A cell dependency that is a reference of its own: every stored dependency stands for one.
proof fn lemma_cell_task(data: TaskStorageSchema, task: TaskId)
    requires
        forall|packed: PackedCellRef| #[trigger]
            data.cell_dependencies.contains(packed) ==> CellRef::unpacked(packed).packed()
                == packed,
    ensures
        cell_tasks(data).contains(task) <==> exists|cell: CellRef|
            cell.task == task && #[trigger] data.cell_dependencies.contains(cell.packed()),
{
    let task_of = |cell: PackedCellRef| CellRef::unpacked(cell).task;
    if cell_tasks(data).contains(task) {
        let packed = choose|packed: PackedCellRef|
            data.cell_dependencies.contains(packed) && task == task_of(packed);
        assert(data.cell_dependencies.contains(CellRef::unpacked(packed).packed()));
    }
    assert forall|cell: CellRef|
        cell.task == task && #[trigger] data.cell_dependencies.contains(
            cell.packed(),
        ) implies cell_tasks(data).contains(task) by {
        law_cell_ref_packing(cell);
        assert(task_of(cell.packed()) == task);
    }
}

/// A dependency on collectibles points at the task that it names.
proof fn lemma_collectibles_task(data: TaskStorageSchema, task: TaskId)
    ensures
        collectibles_tasks(data).contains(task) <==> exists|collectibles: CollectiblesRef|
            collectibles.task == task && #[trigger] data.collectibles_dependencies.contains(
                collectibles.packed(),
            ),
{
    let task_of = |packed: PackedCollectiblesRef| CollectiblesRef::unpacked(packed).task;
    if collectibles_tasks(data).contains(task) {
        let packed = choose|packed: PackedCollectiblesRef|
            data.collectibles_dependencies.contains(packed) && task == task_of(packed);
        law_collectibles_ref_packing(CollectiblesRef::unpacked(packed), packed);
        assert(data.collectibles_dependencies.contains(CollectiblesRef::unpacked(packed).packed()));
    }
    assert forall|collectibles: CollectiblesRef|
        collectibles.task == task && #[trigger] data.collectibles_dependencies.contains(
            collectibles.packed(),
        ) implies collectibles_tasks(data).contains(task) by {
        law_collectibles_ref_packing(collectibles, 0);
        assert(task_of(collectibles.packed()) == task);
    }
}

/// The cell dependency that a reference stands for is one on the reference's task.
proof fn lemma_cell_points_at_its_task(data: TaskStorageSchema, cell: CellRef)
    requires
        data.cell_dependencies.contains(cell.packed()),
    ensures
        cell_tasks(data).contains(cell.task),
{
    law_cell_ref_packing(cell);
    let task_of = |packed: PackedCellRef| CellRef::unpacked(packed).task;
    assert(task_of(cell.packed()) == cell.task);
}

/// Prefetching answers a task that has not been asked before wherever that task depends on two
/// different tasks, in whatever way on either: on its output, on one of its cells, or on
/// collectibles of it.
pub proof fn law_prefetch_answers_for_two_tasks(data: TaskStorageSchema, one: TaskId, other: TaskId)
    requires
        !data.flags.contains(TaskFlag::Prefetched),
        data.output_dependencies.finite(),
        data.cell_dependencies.finite(),
        data.collectibles_dependencies.finite(),
        one != other,
        (data.output_dependencies.contains(one) || (exists|cell: CellRef|
            cell.task == one && #[trigger] data.cell_dependencies.contains(cell.packed())) || (exists|
            collectibles: CollectiblesRef,
        |
            collectibles.task == one && #[trigger] data.collectibles_dependencies.contains(
                collectibles.packed(),
            ))),
        (data.output_dependencies.contains(other) || (exists|cell: CellRef|
            cell.task == other && #[trigger] data.cell_dependencies.contains(cell.packed())) || (exists|
            collectibles: CollectiblesRef,
        |
            collectibles.task == other && #[trigger] data.collectibles_dependencies.contains(
                collectibles.packed(),
            ))),
    ensures
        prefetch_answers(data),
{
    lemma_collectibles_task(data, one);
    lemma_collectibles_task(data, other);
    if exists|cell: CellRef|
        cell.task == one && #[trigger] data.cell_dependencies.contains(cell.packed()) {
        let cell = choose|cell: CellRef|
            cell.task == one && #[trigger] data.cell_dependencies.contains(cell.packed());
        lemma_cell_points_at_its_task(data, cell);
    }
    if exists|cell: CellRef|
        cell.task == other && #[trigger] data.cell_dependencies.contains(cell.packed()) {
        let cell = choose|cell: CellRef|
            cell.task == other && #[trigger] data.cell_dependencies.contains(cell.packed());
        lemma_cell_points_at_its_task(data, cell);
    }
    lemma_dependencies_finite(data);
    let two = Set::<TaskId>::empty().insert(one).insert(other);
    assert(two.subset_of(dependencies(data)));
    vstd::set_lib::lemma_len_subset(two, dependencies(data));
}

/// A task has finitely many dependencies.
proof fn lemma_dependencies_finite(data: TaskStorageSchema)
    requires
        data.output_dependencies.finite(),
        data.cell_dependencies.finite(),
        data.collectibles_dependencies.finite(),
    ensures
        dependencies(data).finite(),
{
    data.cell_dependencies.lemma_map_finite(|cell| CellRef::unpacked(cell).task);
    data.collectibles_dependencies.lemma_map_finite(
        |collectibles| CollectiblesRef::unpacked(collectibles).task,
    );
}

/// Prefetching does not answer a task that depends on at most one other: that takes two different
/// tasks whose outputs, cells or collectibles the task depends on, and that it has not been asked.
pub proof fn law_prefetch_answers_for_no_less(data: TaskStorageSchema) -> (tasks: (TaskId, TaskId))
    requires
        prefetch_answers(data),
        data.output_dependencies.finite(),
        data.cell_dependencies.finite(),
        data.collectibles_dependencies.finite(),
        forall|packed: PackedCellRef| #[trigger]
            data.cell_dependencies.contains(packed) ==> CellRef::unpacked(packed).packed()
                == packed,
    ensures
        !data.flags.contains(TaskFlag::Prefetched),
        tasks.0 != tasks.1,
        (data.output_dependencies.contains(tasks.0) || (exists|cell: CellRef|
            cell.task == tasks.0 && #[trigger] data.cell_dependencies.contains(cell.packed())) || (exists|
            collectibles: CollectiblesRef,
        |
            collectibles.task == tasks.0 && #[trigger] data.collectibles_dependencies.contains(
                collectibles.packed(),
            ))),
        (data.output_dependencies.contains(tasks.1) || (exists|cell: CellRef|
            cell.task == tasks.1 && #[trigger] data.cell_dependencies.contains(cell.packed())) || (exists|
            collectibles: CollectiblesRef,
        |
            collectibles.task == tasks.1 && #[trigger] data.collectibles_dependencies.contains(
                collectibles.packed(),
            ))),
{
    lemma_dependencies_finite(data);
    let all = dependencies(data);
    let one = all.choose();
    assert(all.contains(one));
    let rest = all.remove(one);
    assert(rest.len() > 0);
    let other = rest.choose();
    assert(rest.contains(other));
    lemma_cell_task(data, one);
    lemma_cell_task(data, other);
    lemma_collectibles_task(data, one);
    lemma_collectibles_task(data, other);
    (one, other)
}

/// What prefetching answers holds, each of them once, the tasks whose outputs, cells or collectibles
/// the task depends on, and no other: with everything of a task on whose cells or collectibles it
/// depends, and with the metadata of a task of which it needs the output alone. Tasks whose output
/// is needed come first, then those of which a cell is.
pub proof fn law_prefetch_lists_each_dependency(
    data: TaskStorageSchema,
    entries: Seq<(TaskId, TaskDataCategory)>,
    task: TaskId,
    i: int,
    j: int,
)
    requires
        in_dependency_order(
            entries,
            output_tasks(data),
            cell_tasks(data),
            collectibles_tasks(data),
        ),
        forall|packed: PackedCellRef| #[trigger]
            data.cell_dependencies.contains(packed) ==> CellRef::unpacked(packed).packed()
                == packed,
    ensures
        0 <= i < j < entries.len() ==> entries[i].0 != entries[j].0,
        (exists|k: int| 0 <= k < entries.len() && (#[trigger] entries[k]).0 == task)
            <==> (data.output_dependencies.contains(task) || (exists|cell: CellRef|
            cell.task == task && #[trigger] data.cell_dependencies.contains(cell.packed())) || (exists|
            collectibles: CollectiblesRef,
        |
            collectibles.task == task && #[trigger] data.collectibles_dependencies.contains(
                collectibles.packed(),
            ))),
        entries.contains((task, TaskDataCategory::All)) <==> (exists|cell: CellRef|
            cell.task == task && #[trigger] data.cell_dependencies.contains(cell.packed())) || (
        exists|collectibles: CollectiblesRef|
            collectibles.task == task && #[trigger] data.collectibles_dependencies.contains(
                collectibles.packed(),
            )),
        entries.contains((task, TaskDataCategory::Meta)) <==> data.output_dependencies.contains(
            task,
        ) && !entries.contains((task, TaskDataCategory::All)),
        !entries.contains((task, TaskDataCategory::Data)),
        0 <= i < j < entries.len() && data.output_dependencies.contains(entries[j].0)
            ==> data.output_dependencies.contains(entries[i].0),
        0 <= i < j < entries.len() && (exists|cell: CellRef|
            cell.task == entries[j].0 && #[trigger] data.cell_dependencies.contains(cell.packed()))
            ==> data.output_dependencies.contains(entries[i].0) || exists|cell: CellRef|
            cell.task == entries[i].0 && #[trigger] data.cell_dependencies.contains(cell.packed()),
{
    lemma_cell_task(data, task);
    lemma_collectibles_task(data, task);
    lemma_cell_task(data, entries[i].0);
    lemma_cell_task(data, entries[j].0);
    let all = needed(output_tasks(data), cell_tasks(data), collectibles_tasks(data));
    law_a_list_holds_each_entry_once(entries, all, task);
    if 0 <= i < j < entries.len() {
        let rank = dependency_rank(output_tasks(data), cell_tasks(data), entries[i].0);
        assert(rank <= dependency_rank(output_tasks(data), cell_tasks(data), entries[j].0));
    }
}

/// A container is listed as dirty exactly if it is counted as dirty at least once and more often
/// than as clean, where no entry counts zero; it is listed with the count of times that it is dirty.
pub proof fn law_dirty_containers_are_listed(
    dirty: Map<TaskId, i32>,
    clean: Map<TaskId, i32>,
    entries: Seq<(TaskId, i32)>,
    tasks: Seq<TaskId>,
    task: TaskId,
    count: i32,
)
    requires
        lists(entries, outstanding(dirty, clean)),
        lists_keys(tasks, outstanding(dirty, clean)),
    ensures
        entries.contains((task, count)) <==> {
            &&& dirty.contains_key(task)
            &&& dirty[task] == count
            &&& count >= 1
            &&& clean.contains_key(task) ==> count > clean[task]
        },
        tasks.contains(task) <==> {
            &&& dirty.contains_key(task)
            &&& dirty[task] >= 1
            &&& clean.contains_key(task) ==> dirty[task] > clean[task]
        },
        entries.no_duplicates(),
        tasks.no_duplicates(),
        entries.len() == tasks.len(),
{
    law_a_list_holds_each_entry_once(entries, outstanding(dirty, clean), task);
    law_a_list_holds_each_key_once(tasks, outstanding(dirty, clean), task);
}

/// A container that is counted as dirty once more, by any number, where it was counted in neither
/// way, comes to be outstanding with that number; counted as clean as often, it no longer is. No
/// other container is touched.
pub proof fn law_counting_makes_a_container_outstanding(
    dirty: Map<TaskId, i32>,
    clean: Map<TaskId, i32>,
    task: TaskId,
    times: i32,
    other: TaskId,
)
    requires
        times > 0,
        !dirty.contains_key(task),
        !clean.contains_key(task),
    ensures
        !outstanding(dirty, clean).contains_key(task),
        outstanding(updated(dirty, task, times), clean).get(task) == Some(times),
        !outstanding(updated(dirty, task, times), updated(clean, task, times)).contains_key(task),
        other != task ==> outstanding(updated(dirty, task, times), clean).get(other)
            == outstanding(dirty, clean).get(other),
        other != task ==> outstanding(dirty, updated(clean, task, times)).get(other)
            == outstanding(dirty, clean).get(other),
{
}

/// A dirty task has to run again, unless its result depends on the session alone and it is clean in
/// the current one; a task that is not dirty does not.
pub proof fn law_when_a_task_is_dirty(data: TaskStorageSchema)
    ensures
        data.dirty == Some(Dirtyness::Dirty) ==> {
            &&& has_to_run(data)
            &&& dirty_and_clean(data) == (true, false)
            &&& dirtyness_and_clean(data) == Some((Dirtyness::Dirty, false))
        },
        data.dirty == Some(Dirtyness::SessionDependent) ==> {
            let clean = data.flags.contains(TaskFlag::CurrentSessionClean);
            &&& has_to_run(data) == !clean
            &&& dirty_and_clean(data) == (true, clean)
            &&& dirtyness_and_clean(data) == Some((Dirtyness::SessionDependent, clean))
        },
        data.dirty is None ==> {
            &&& !has_to_run(data)
            &&& dirty_and_clean(data) == (false, false)
            &&& dirtyness_and_clean(data) is None
        },
{
}

/// A count other than zero is stored as that number, and a stored number counts as itself.
pub proof fn law_a_count_is_stored_as_itself(count: i32)
    ensures
        stored_count(Some(count)) == count,
        stored_count(None) == 0,
        count != 0 ==> storing(count as int) == Some(count),
        storing(0) is None,
{
}

/// Serializable data of a cell goes to the data that is persisted, other data to the data that is
/// not; everything else that is stored stays.
pub proof fn law_cell_data_goes_where_it_belongs(
    data: TaskStorageSchema,
    cell: CellId,
    value: TypedSharedReference,
    other: PackedCellId,
)
    ensures
        ({
            let stored = with_cell_value(data, true, cell, Some(value));
            &&& stored.cell_data.contains_key(cell.packed())
            &&& stored.cell_data[cell.packed()] == value
            &&& other != cell.packed() ==> stored.cell_data.get(other) == data.cell_data.get(other)
            &&& same_meta(stored, data) && same_transient(stored, data)
            &&& stored.flags == data.flags
            &&& stored == (TaskStorageSchema { cell_data: stored.cell_data, ..data })
        }),
        ({
            let stored = with_cell_value(data, false, cell, Some(value));
            &&& stored.transient_cell_data.contains_key(cell.packed())
            &&& stored.transient_cell_data[cell.packed()] == value.reference
            &&& other != cell.packed() ==> stored.transient_cell_data.get(other)
                == data.transient_cell_data.get(other)
            &&& same_meta(stored, data) && same_data(stored, data)
            &&& stored.flags == data.flags
            &&& stored == (TaskStorageSchema {
                transient_cell_data: stored.transient_cell_data,
                ..data
            })
        }),
        ({
            let removed = with_cell_value(data, true, cell, None);
            &&& !removed.cell_data.contains_key(cell.packed())
            &&& other != cell.packed() ==> removed.cell_data.get(other) == data.cell_data.get(other)
            &&& removed == (TaskStorageSchema { cell_data: removed.cell_data, ..data })
        }),
        ({
            let removed = with_cell_value(data, false, cell, None);
            &&& !removed.transient_cell_data.contains_key(cell.packed())
            &&& other != cell.packed() ==> removed.transient_cell_data.get(other)
                == data.transient_cell_data.get(other)
            &&& removed == (TaskStorageSchema {
                transient_cell_data: removed.transient_cell_data,
                ..data
            })
        }),
        cell_value(data, true, cell) == data.cell_data.get(cell.packed()),
        cell_value(data, false, cell) is Some <==> data.transient_cell_data.contains_key(
            cell.packed(),
        ),
        cell_value(data, false, cell) matches Some(found) ==> found.type_id == cell.type_id
            && found.reference == data.transient_cell_data[cell.packed()],
{
}

/// Asking for what to prefetch sets one flag and changes nothing else.
pub proof fn law_prefetching_sets_one_flag(data: TaskStorageSchema, flag: TaskFlag)
    ensures
        after_prefetch(data).flags.contains(flag) <==> flag == TaskFlag::Prefetched
            || data.flags.contains(flag),
        same_meta(after_prefetch(data), data),
        same_data(after_prefetch(data), data),
        same_transient(after_prefetch(data), data),
{
}

} // verus!
