//! Access to a task's storage that checks the category and notes modifications.
use rustc_hash::FxBuildHasher;
use vstd::prelude::*;

use crate::category::{SpecificTaskDataCategory, TaskDataCategory};
use crate::counter_map::{CounterMap, CounterMapExt};
use crate::data::{
    ActivenessState, Dirtyness, InProgressCellState, InProgressState, SharedReference,
    TypedSharedReference,
};
use crate::fx::{elements_of, keys_of, lists, positive, positive_entries};
use crate::ids::{
    transient, CellId, CollectibleRef, PackedCellId, PackedCellRef, PackedCollectibleRef,
    PackedCollectiblesRef, TaskId,
};
use crate::storage_schema::{AutoMap, TaskStorage, TaskStorageSchema};
use crate::task_flags::{with_flag, TaskFlag};

verus! {

broadcast use vstd::std_specs::hash::group_hash_axioms;

/// Whether an access that was opened for `held` may touch data of `wanted`.
///
/// `All` is wanted of data that is never persisted, which any access may touch.
pub open spec fn may_access(held: TaskDataCategory, wanted: TaskDataCategory) -> bool {
    match wanted {
        TaskDataCategory::All => true,
        TaskDataCategory::Data | TaskDataCategory::Meta => held == wanted || held
            == TaskDataCategory::All,
    }
}

/// Executable form of [`may_access`].
pub fn is_access_granted(held: TaskDataCategory, wanted: TaskDataCategory) -> (granted: bool)
    ensures
        granted == may_access(held, wanted),
{
    match wanted {
        TaskDataCategory::All => {
            // This category is used for non-persisted/transient data - no check needed
            true
        },
        TaskDataCategory::Data | TaskDataCategory::Meta => held == wanted || held
            == TaskDataCategory::All,
    }
}

/// What an access to a task stands for, besides the task's storage.
pub struct GuardState {
    /// The task.
    pub task_id: TaskId,
    /// The category that the access was opened for.
    pub category: TaskDataCategory,
    /// The modifications that have been noted, in order.
    pub notes: Seq<SpecificTaskDataCategory>,
}

impl GuardState {
    /// The modifications of `part` have been noted `times` times more. Nothing is noted of a
    /// transient task, which is never persisted.
    pub open spec fn noted_times(self, part: SpecificTaskDataCategory, times: nat) -> GuardState {
        if transient(self.task_id) {
            self
        } else {
            GuardState { notes: self.notes + Seq::new(times, |i: int| part), ..self }
        }
    }

    /// One more modification of `part` has been noted, unless the task is transient.
    pub open spec fn noted(self, part: SpecificTaskDataCategory) -> GuardState {
        if transient(self.task_id) {
            self
        } else {
            GuardState { notes: self.notes.push(part), ..self }
        }
    }

    /// Whether data of `wanted` may be touched.
    pub open spec fn grants(self, wanted: TaskDataCategory) -> bool {
        may_access(self.category, wanted)
    }
}

/// Access to the storage of a task, with built-in modification tracking.
///
/// Every method on persisted data asks [`TaskStorageAccessors::check_access`] for the part that the
/// data belongs to, and every method that changes it notes one modification of that part first.
/// Transient data is changed without a note.
pub trait TaskStorageAccessors: Sized {
    /// The task, the category of the access, and what has been noted.
    spec fn guard(&self) -> GuardState;

    /// The task's storage.
    spec fn storage(&self) -> TaskStorage;

    /// The task's storage.
    fn typed(&self) -> (storage: &TaskStorage)
        ensures
            *storage == self.storage(),
    ;

    /// The task's storage, to be changed without a note.
    fn typed_mut(&mut self) -> (storage: &mut TaskStorage)
        ensures
            *storage == old(self).storage(),
            final(self).storage() == *final(storage),
            final(self).guard() == old(self).guard(),
    ;

    /// Notes that data of `category` is modified. Nothing is noted of a transient task.
    fn track_modification(&mut self, category: SpecificTaskDataCategory)
        ensures
            final(self).storage() == old(self).storage(),
            final(self).guard() == old(self).guard().noted(category),
    ;

    /// Notes several modifications of data of `category`.
    fn track_modifications(&mut self, category: SpecificTaskDataCategory, times: usize)
        ensures
            final(self).storage() == old(self).storage(),
            final(self).guard() == old(self).guard().noted_times(category, times as nat),
    {
        let ghost start = self.guard();
        let ghost storage = self.storage();
        let mut i: usize = 0;
        assert(self.guard().notes =~= start.noted_times(category, 0).notes);
        while i < times
            invariant
                i <= times,
                self.storage() == storage,
                self.guard() == start.noted_times(category, i as nat),
            decreases times - i,
        {
            self.track_modification(category);
            i += 1;
            assert(self.guard().notes =~= start.noted_times(category, i as nat).notes);
        }
    }

    /// Whether data of `category` may be touched: to access it, the task needs to be accessed
    /// with that category.
    fn check_access(&self, category: TaskDataCategory) -> (granted: bool)
        ensures
            granted == self.guard().grants(category),
    ;

    /// The dirty state, if there is one.
    fn get_dirty(&self) -> (value: Option<&Dirtyness>)
        requires
            self.storage().wf(),
            self.guard().grants(TaskDataCategory::Meta),
        ensures
            match value {
                Some(value) => self.storage()@.dirty == Some(*value),
                None => self.storage()@.dirty is None,
            },
    {
        let _granted = self.check_access(TaskDataCategory::Meta);
        self.typed().get_dirty()
    }

    /// Stores the dirty state, and gives back the one before.
    fn set_dirty(&mut self, value: Dirtyness) -> (before: Option<Dirtyness>)
        requires
            old(self).storage().wf(),
            old(self).guard().grants(TaskDataCategory::Meta),
        ensures
            final(self).storage().wf(),
            final(self).storage()@ == (TaskStorageSchema {
                dirty: Some(value),
                ..old(self).storage()@
            }),
            final(self).guard() == old(self).guard().noted(SpecificTaskDataCategory::Meta),
            before == old(self).storage()@.dirty,
    {
        let _granted = self.check_access(TaskDataCategory::Meta);
        self.track_modification(SpecificTaskDataCategory::Meta);
        self.typed_mut().set_dirty(value)
    }

    /// Takes the dirty state away.
    fn take_dirty(&mut self) -> (before: Option<Dirtyness>)
        requires
            old(self).storage().wf(),
            old(self).guard().grants(TaskDataCategory::Meta),
        ensures
            final(self).storage().wf(),
            final(self).storage()@ == (TaskStorageSchema {
                dirty: None,
                ..old(self).storage()@
            }),
            final(self).guard() == old(self).guard().noted(SpecificTaskDataCategory::Meta),
            before == old(self).storage()@.dirty,
    {
        let _granted = self.check_access(TaskDataCategory::Meta);
        self.track_modification(SpecificTaskDataCategory::Meta);
        self.typed_mut().take_dirty()
    }

    /// Whether the task is clean in the current session.
    fn current_session_clean(&self) -> (clean: bool)
        ensures
            clean == self.storage()@.flags.contains(TaskFlag::CurrentSessionClean),
    {
        self.typed().flags.get(TaskFlag::CurrentSessionClean)
    }

    /// Says whether the task is clean in the current session.
    fn set_current_session_clean(&mut self, clean: bool)
        requires
            old(self).storage().wf(),
        ensures
            final(self).storage().wf(),
            final(self).storage()@ == (TaskStorageSchema {
                flags: with_flag(
                    old(self).storage()@.flags,
                    TaskFlag::CurrentSessionClean,
                    clean,
                ),
                ..old(self).storage()@
            }),
            final(self).guard() == old(self).guard(),
    {
        self.typed_mut().flags.set(TaskFlag::CurrentSessionClean, clean);
    }

    /// The count of dirty containers, if there is one.
    fn get_aggregated_dirty_container_count(&self) -> (value: Option<&i32>)
        requires
            self.storage().wf(),
            self.guard().grants(TaskDataCategory::Meta),
        ensures
            match value {
                Some(value) => self.storage()@.aggregated_dirty_container_count == Some(*value),
                None => self.storage()@.aggregated_dirty_container_count is None,
            },
    {
        let _granted = self.check_access(TaskDataCategory::Meta);
        self.typed().get_aggregated_dirty_container_count()
    }

    /// Stores the count of dirty containers, and gives back the one before.
    fn set_aggregated_dirty_container_count(&mut self, value: i32) -> (before: Option<i32>)
        requires
            old(self).storage().wf(),
            old(self).guard().grants(TaskDataCategory::Meta),
        ensures
            final(self).storage().wf(),
            final(self).storage()@ == (TaskStorageSchema {
                aggregated_dirty_container_count: Some(value),
                ..old(self).storage()@
            }),
            final(self).guard() == old(self).guard().noted(SpecificTaskDataCategory::Meta),
            before == old(self).storage()@.aggregated_dirty_container_count,
    {
        let _granted = self.check_access(TaskDataCategory::Meta);
        self.track_modification(SpecificTaskDataCategory::Meta);
        self.typed_mut().set_aggregated_dirty_container_count(value)
    }

    /// Takes the count of dirty containers away.
    fn take_aggregated_dirty_container_count(&mut self) -> (before: Option<i32>)
        requires
            old(self).storage().wf(),
            old(self).guard().grants(TaskDataCategory::Meta),
        ensures
            final(self).storage().wf(),
            final(self).storage()@ == (TaskStorageSchema {
                aggregated_dirty_container_count: None,
                ..old(self).storage()@
            }),
            final(self).guard() == old(self).guard().noted(SpecificTaskDataCategory::Meta),
            before == old(self).storage()@.aggregated_dirty_container_count,
    {
        let _granted = self.check_access(TaskDataCategory::Meta);
        self.track_modification(SpecificTaskDataCategory::Meta);
        self.typed_mut().take_aggregated_dirty_container_count()
    }

    /// The count of containers that are clean in the current session, if there is one.
    fn get_aggregated_current_session_clean_container_count(&self) -> (value: Option<&i32>)
        requires
            self.storage().wf(),
        ensures
            match value {
                Some(value) => self.storage()@.aggregated_current_session_clean_container_count == Some(*value),
                None => self.storage()@.aggregated_current_session_clean_container_count is None,
            },
    {
        self.typed().get_aggregated_current_session_clean_container_count()
    }

    /// Stores the count of containers that are clean in the current session, and gives back the one before.
    fn set_aggregated_current_session_clean_container_count(&mut self, value: i32) -> (before: Option<i32>)
        requires
            old(self).storage().wf(),
        ensures
            final(self).storage().wf(),
            final(self).storage()@ == (TaskStorageSchema {
                aggregated_current_session_clean_container_count: Some(value),
                ..old(self).storage()@
            }),
            final(self).guard() == old(self).guard(),
            before == old(self).storage()@.aggregated_current_session_clean_container_count,
    {
        self.typed_mut().set_aggregated_current_session_clean_container_count(value)
    }

    /// Takes the count of containers that are clean in the current session away.
    fn take_aggregated_current_session_clean_container_count(&mut self) -> (before: Option<i32>)
        requires
            old(self).storage().wf(),
        ensures
            final(self).storage().wf(),
            final(self).storage()@ == (TaskStorageSchema {
                aggregated_current_session_clean_container_count: None,
                ..old(self).storage()@
            }),
            final(self).guard() == old(self).guard(),
            before == old(self).storage()@.aggregated_current_session_clean_container_count,
    {
        self.typed_mut().take_aggregated_current_session_clean_container_count()
    }

    /// The activeness state, if there is one.
    fn get_activeness(&self) -> (value: Option<&ActivenessState>)
        requires
            self.storage().wf(),
        ensures
            match value {
                Some(value) => self.storage()@.activeness == Some(*value),
                None => self.storage()@.activeness is None,
            },
    {
        self.typed().get_activeness()
    }

    /// Stores the activeness state, and gives back the one before.
    fn set_activeness(&mut self, value: ActivenessState) -> (before: Option<ActivenessState>)
        requires
            old(self).storage().wf(),
        ensures
            final(self).storage().wf(),
            final(self).storage()@ == (TaskStorageSchema {
                activeness: Some(value),
                ..old(self).storage()@
            }),
            final(self).guard() == old(self).guard(),
            before == old(self).storage()@.activeness,
    {
        self.typed_mut().set_activeness(value)
    }

    /// Takes the activeness state away.
    fn take_activeness(&mut self) -> (before: Option<ActivenessState>)
        requires
            old(self).storage().wf(),
        ensures
            final(self).storage().wf(),
            final(self).storage()@ == (TaskStorageSchema {
                activeness: None,
                ..old(self).storage()@
            }),
            final(self).guard() == old(self).guard(),
            before == old(self).storage()@.activeness,
    {
        self.typed_mut().take_activeness()
    }

    /// The in-progress state, if there is one.
    fn get_in_progress(&self) -> (value: Option<&InProgressState>)
        requires
            self.storage().wf(),
        ensures
            match value {
                Some(value) => self.storage()@.in_progress == Some(*value),
                None => self.storage()@.in_progress is None,
            },
    {
        self.typed().get_in_progress()
    }

    /// Stores the in-progress state, and gives back the one before.
    fn set_in_progress(&mut self, value: InProgressState) -> (before: Option<InProgressState>)
        requires
            old(self).storage().wf(),
        ensures
            final(self).storage().wf(),
            final(self).storage()@ == (TaskStorageSchema {
                in_progress: Some(value),
                ..old(self).storage()@
            }),
            final(self).guard() == old(self).guard(),
            before == old(self).storage()@.in_progress,
    {
        self.typed_mut().set_in_progress(value)
    }

    /// Takes the in-progress state away.
    fn take_in_progress(&mut self) -> (before: Option<InProgressState>)
        requires
            old(self).storage().wf(),
        ensures
            final(self).storage().wf(),
            final(self).storage()@ == (TaskStorageSchema {
                in_progress: None,
                ..old(self).storage()@
            }),
            final(self).guard() == old(self).guard(),
            before == old(self).storage()@.in_progress,
    {
        self.typed_mut().take_in_progress()
    }

    /// Whether there is an activeness state.
    fn has_activeness(&self) -> (has: bool)
        requires
            self.storage().wf(),
        ensures
            has == (self.storage()@.activeness is Some),
    {
        self.get_activeness().is_some()
    }

    /// The activeness state, to be changed.
    fn get_activeness_mut(&mut self) -> (value: Option<&mut ActivenessState>)
        requires
            old(self).storage().wf(),
        ensures
            final(self).guard() == old(self).guard(),
            final(self).storage().wf(),
            match value {
                Some(value) => {
                    &&& old(self).storage()@.activeness == Some(*value)
                    &&& final(self).storage()@ == (TaskStorageSchema {
                        activeness: Some(*final(value)),
                        ..old(self).storage()@
                    })
                },
                None => {
                    &&& old(self).storage()@.activeness is None
                    &&& final(self).storage()@ == old(self).storage()@
                },
            },
    {
        self.typed_mut().get_activeness_mut()
    }

    /// Whether there is an in-progress state.
    fn has_in_progress(&self) -> (has: bool)
        requires
            self.storage().wf(),
        ensures
            has == (self.storage()@.in_progress is Some),
    {
        self.get_in_progress().is_some()
    }

    /// The persisted cell data, by cell. Absent means that there is none.
    fn cell_data(&self) -> (entries: Option<&AutoMap<PackedCellId, TypedSharedReference>>)
        requires
            self.storage().wf(),
            self.guard().grants(TaskDataCategory::Data),
        ensures
            match entries {
                Some(entries) => self.storage()@.cell_data == entries@,
                None => self.storage()@.cell_data == Map::<PackedCellId, TypedSharedReference>::empty(),
            },
    {
        let _granted = self.check_access(TaskDataCategory::Data);
        self.typed().cell_data()
    }

    /// Removes the persisted data of `cell`.
    fn remove_cell_data_entry(&mut self, cell: &CellId) -> (removed: Option<TypedSharedReference>)
        requires
            old(self).storage().wf(),
            old(self).guard().grants(TaskDataCategory::Data),
        ensures
            final(self).storage().wf(),
            final(self).storage()@ == (TaskStorageSchema {
                cell_data: old(self).storage()@.cell_data.remove(cell.packed()),
                ..old(self).storage()@
            }),
            final(self).guard() == old(self).guard().noted(SpecificTaskDataCategory::Data),
            removed == old(self).storage()@.cell_data.get(cell.packed()),
    {
        let _granted = self.check_access(TaskDataCategory::Data);
        let _hasher = FxBuildHasher::default();
        self.track_modification(SpecificTaskDataCategory::Data);
        self.typed_mut().cell_data_mut().remove(&cell.pack())
    }

    /// Stores the persisted data of `cell`, and gives back the one before.
    fn insert_cell_data_entry(&mut self, cell: CellId, value: TypedSharedReference) -> (before: Option<TypedSharedReference>)
        requires
            old(self).storage().wf(),
            old(self).guard().grants(TaskDataCategory::Data),
        ensures
            final(self).storage().wf(),
            final(self).storage()@ == (TaskStorageSchema {
                cell_data: old(self).storage()@.cell_data.insert(cell.packed(), value),
                ..old(self).storage()@
            }),
            final(self).guard() == old(self).guard().noted(SpecificTaskDataCategory::Data),
            before == old(self).storage()@.cell_data.get(cell.packed()),
    {
        let _granted = self.check_access(TaskDataCategory::Data);
        let _hasher = FxBuildHasher::default();
        self.track_modification(SpecificTaskDataCategory::Data);
        self.typed_mut().cell_data_mut().insert(cell.pack(), value)
    }

    /// The transient cell data, by cell. Absent means that there is none.
    fn transient_cell_data(&self) -> (entries: Option<&AutoMap<PackedCellId, SharedReference>>)
        requires
            self.storage().wf(),
        ensures
            match entries {
                Some(entries) => self.storage()@.transient_cell_data == entries@,
                None => self.storage()@.transient_cell_data == Map::<PackedCellId, SharedReference>::empty(),
            },
    {
        self.typed().transient_cell_data()
    }

    /// Removes the transient data of `cell`.
    fn remove_transient_cell_data_entry(&mut self, cell: &CellId) -> (removed: Option<SharedReference>)
        requires
            old(self).storage().wf(),
        ensures
            final(self).storage().wf(),
            final(self).storage()@ == (TaskStorageSchema {
                transient_cell_data: old(self).storage()@.transient_cell_data.remove(cell.packed()),
                ..old(self).storage()@
            }),
            final(self).guard() == old(self).guard(),
            removed == old(self).storage()@.transient_cell_data.get(cell.packed()),
    {
        let _hasher = FxBuildHasher::default();
        self.typed_mut().transient_cell_data_mut().remove(&cell.pack())
    }

    /// Stores the transient data of `cell`, and gives back the one before.
    fn insert_transient_cell_data_entry(&mut self, cell: CellId, value: SharedReference) -> (before: Option<SharedReference>)
        requires
            old(self).storage().wf(),
        ensures
            final(self).storage().wf(),
            final(self).storage()@ == (TaskStorageSchema {
                transient_cell_data: old(self).storage()@.transient_cell_data.insert(cell.packed(), value),
                ..old(self).storage()@
            }),
            final(self).guard() == old(self).guard(),
            before == old(self).storage()@.transient_cell_data.get(cell.packed()),
    {
        let _hasher = FxBuildHasher::default();
        self.typed_mut().transient_cell_data_mut().insert(cell.pack(), value)
    }

    /// The states of the cells that are being computed, by cell. Absent means that there is none.
    fn in_progress_cells(&self) -> (entries: Option<&AutoMap<PackedCellId, InProgressCellState>>)
        requires
            self.storage().wf(),
        ensures
            match entries {
                Some(entries) => self.storage()@.in_progress_cells == entries@,
                None => self.storage()@.in_progress_cells == Map::<PackedCellId, InProgressCellState>::empty(),
            },
    {
        self.typed().in_progress_cells()
    }

    /// Removes the state of `cell`.
    fn remove_in_progress_cells_entry(&mut self, cell: &CellId) -> (removed: Option<InProgressCellState>)
        requires
            old(self).storage().wf(),
        ensures
            final(self).storage().wf(),
            final(self).storage()@ == (TaskStorageSchema {
                in_progress_cells: old(self).storage()@.in_progress_cells.remove(cell.packed()),
                ..old(self).storage()@
            }),
            final(self).guard() == old(self).guard(),
            removed == old(self).storage()@.in_progress_cells.get(cell.packed()),
    {
        let _hasher = FxBuildHasher::default();
        self.typed_mut().in_progress_cells_mut().remove(&cell.pack())
    }

    /// Stores the state of `cell`, and gives back the one before.
    fn insert_in_progress_cells_entry(&mut self, cell: CellId, value: InProgressCellState) -> (before: Option<InProgressCellState>)
        requires
            old(self).storage().wf(),
        ensures
            final(self).storage().wf(),
            final(self).storage()@ == (TaskStorageSchema {
                in_progress_cells: old(self).storage()@.in_progress_cells.insert(cell.packed(), value),
                ..old(self).storage()@
            }),
            final(self).guard() == old(self).guard(),
            before == old(self).storage()@.in_progress_cells.get(cell.packed()),
    {
        let _hasher = FxBuildHasher::default();
        self.typed_mut().in_progress_cells_mut().insert(cell.pack(), value)
    }

    /// The individual dirty containers, by task, with their counts.
    fn aggregated_dirty_containers(&self) -> (counts: Option<&CounterMap<TaskId, i32>>)
        requires
            self.storage().wf(),
            self.guard().grants(TaskDataCategory::Meta),
        ensures
            match counts {
                Some(counts) => self.storage()@.aggregated_dirty_containers == counts@,
                None => self.storage()@.aggregated_dirty_containers == Map::<TaskId, i32>::empty(),
            },
    {
        let _granted = self.check_access(TaskDataCategory::Meta);
        self.typed().aggregated_dirty_containers()
    }

    /// The individual containers that are clean in the current session, by task, with their
    /// counts.
    fn aggregated_current_session_clean_containers(&self) -> (counts: Option<
        &CounterMap<TaskId, i32>,
    >)
        requires
            self.storage().wf(),
        ensures
            match counts {
                Some(counts) => self.storage()@.aggregated_current_session_clean_containers
                    == counts@,
                None => self.storage()@.aggregated_current_session_clean_containers == Map::<
                    TaskId,
                    i32,
                >::empty(),
            },
    {
        self.typed().aggregated_current_session_clean_containers()
    }

    /// The count of an outdated collectible.
    fn get_outdated_collectibles_entry(&self, collectible: &CollectibleRef) -> (count: Option<i32>)
        requires
            self.storage().wf(),
        ensures
            count == self.storage()@.outdated_collectibles.get(collectible.packed()),
    {
        let _hasher = FxBuildHasher::default();
        match self.typed().outdated_collectibles() {
            Some(counts) => match counts.get(&collectible.pack()) {
                Some(count) => Some(*count),
                None => None,
            },
            None => None,
        }
    }

    /// Adds the count of a collectible that is not among the outdated ones yet.
    fn add_outdated_collectibles(&mut self, collectible: CollectibleRef, value: i32)
        requires
            old(self).storage().wf(),
            !old(self).storage()@.outdated_collectibles.contains_key(collectible.packed()),
        ensures
            final(self).storage().wf(),
            final(self).storage()@ == (TaskStorageSchema {
                outdated_collectibles: old(self).storage()@.outdated_collectibles.insert(
                    collectible.packed(),
                    value,
                ),
                ..old(self).storage()@
            }),
            final(self).guard() == old(self).guard(),
    {
        self.typed_mut().outdated_collectibles_mut().add_entry(collectible.pack(), value);
    }

    /// The followers with a positive count, in no particular order.
    fn iter_followers_positive_entries(&self) -> (entries: Vec<(TaskId, u32)>)
        requires
            self.storage().wf(),
            self.guard().grants(TaskDataCategory::Meta),
        ensures
            lists(entries@, positive(self.storage()@.followers)),
    {
        let _granted = self.check_access(TaskDataCategory::Meta);
        match self.typed().followers() {
            Some(counts) => positive_entries(counts),
            None => {
                let entries: Vec<(TaskId, u32)> = Vec::new();
                assert(lists(entries@, positive(self.storage()@.followers)));
                entries
            },
        }
    }

    /// The upper nodes with a positive count, in no particular order.
    fn iter_upper_positive_entries(&self) -> (entries: Vec<(TaskId, u32)>)
        requires
            self.storage().wf(),
            self.guard().grants(TaskDataCategory::Meta),
        ensures
            lists(entries@, positive(self.storage()@.upper)),
    {
        let _granted = self.check_access(TaskDataCategory::Meta);
        positive_entries(&self.typed().upper)
    }

    /// The aggregated collectibles with a positive count, in no particular order.
    fn iter_aggregated_collectibles_positive_entries(&self) -> (entries: Vec<(PackedCollectibleRef, i32)>)
        requires
            self.storage().wf(),
            self.guard().grants(TaskDataCategory::Meta),
        ensures
            lists(entries@, positive(self.storage()@.aggregated_collectibles)),
    {
        let _granted = self.check_access(TaskDataCategory::Meta);
        match self.typed().aggregated_collectibles() {
            Some(counts) => positive_entries(counts),
            None => {
                let entries: Vec<(PackedCollectibleRef, i32)> = Vec::new();
                assert(lists(entries@, positive(self.storage()@.aggregated_collectibles)));
                entries
            },
        }
    }

    /// The outdated collectibles, each once, in no particular order.
    fn iter_outdated_collectibles_keys(&self) -> (keys: Vec<PackedCollectibleRef>)
        requires
            self.storage().wf(),
        ensures
            keys@.no_duplicates(),
            keys@.to_set() == self.storage()@.outdated_collectibles.dom(),
    {
        match self.typed().outdated_collectibles() {
            Some(entries) => keys_of(entries),
            None => {
                let keys: Vec<PackedCollectibleRef> = Vec::new();
                assert(keys@.to_set() =~= self.storage()@.outdated_collectibles.dom());
                keys
            },
        }
    }

    /// The cells with persisted data, each once, in no particular order.
    fn iter_cell_data_keys(&self) -> (keys: Vec<PackedCellId>)
        requires
            self.storage().wf(),
            self.guard().grants(TaskDataCategory::Data),
        ensures
            keys@.no_duplicates(),
            keys@.to_set() == self.storage()@.cell_data.dom(),
    {
        let _granted = self.check_access(TaskDataCategory::Data);
        match self.typed().cell_data() {
            Some(entries) => keys_of(entries),
            None => {
                let keys: Vec<PackedCellId> = Vec::new();
                assert(keys@.to_set() =~= self.storage()@.cell_data.dom());
                keys
            },
        }
    }

    /// The cells with transient data, each once, in no particular order.
    fn iter_transient_cell_data_keys(&self) -> (keys: Vec<PackedCellId>)
        requires
            self.storage().wf(),
        ensures
            keys@.no_duplicates(),
            keys@.to_set() == self.storage()@.transient_cell_data.dom(),
    {
        match self.typed().transient_cell_data() {
            Some(entries) => keys_of(entries),
            None => {
                let keys: Vec<PackedCellId> = Vec::new();
                assert(keys@.to_set() =~= self.storage()@.transient_cell_data.dom());
                keys
            },
        }
    }

    /// The cells that are being computed, each once, in no particular order.
    fn iter_in_progress_cells_keys(&self) -> (keys: Vec<PackedCellId>)
        requires
            self.storage().wf(),
        ensures
            keys@.no_duplicates(),
            keys@.to_set() == self.storage()@.in_progress_cells.dom(),
    {
        match self.typed().in_progress_cells() {
            Some(entries) => keys_of(entries),
            None => {
                let keys: Vec<PackedCellId> = Vec::new();
                assert(keys@.to_set() =~= self.storage()@.in_progress_cells.dom());
                keys
            },
        }
    }

    /// The tasks whose output the task depends on, each once, in no particular order.
    fn iter_output_dependencies(&self) -> (keys: Vec<TaskId>)
        requires
            self.storage().wf(),
            self.guard().grants(TaskDataCategory::Data),
        ensures
            keys@.no_duplicates(),
            keys@.to_set() == self.storage()@.output_dependencies,
    {
        let _granted = self.check_access(TaskDataCategory::Data);
        match self.typed().output_dependencies() {
            Some(entries) => elements_of(entries),
            None => {
                let keys: Vec<TaskId> = Vec::new();
                assert(keys@.to_set() =~= self.storage()@.output_dependencies);
                keys
            },
        }
    }

    /// The cells that the task depends on, each once, in no particular order.
    fn iter_cell_dependencies(&self) -> (keys: Vec<PackedCellRef>)
        requires
            self.storage().wf(),
            self.guard().grants(TaskDataCategory::Data),
        ensures
            keys@.no_duplicates(),
            keys@.to_set() == self.storage()@.cell_dependencies,
    {
        let _granted = self.check_access(TaskDataCategory::Data);
        match self.typed().cell_dependencies() {
            Some(entries) => elements_of(entries),
            None => {
                let keys: Vec<PackedCellRef> = Vec::new();
                assert(keys@.to_set() =~= self.storage()@.cell_dependencies);
                keys
            },
        }
    }

    /// The collectibles that the task depends on, each once, in no particular order.
    fn iter_collectibles_dependencies(&self) -> (keys: Vec<PackedCollectiblesRef>)
        requires
            self.storage().wf(),
            self.guard().grants(TaskDataCategory::Data),
        ensures
            keys@.no_duplicates(),
            keys@.to_set() == self.storage()@.collectibles_dependencies,
    {
        let _granted = self.check_access(TaskDataCategory::Data);
        match self.typed().collectibles_dependencies() {
            Some(entries) => elements_of(entries),
            None => {
                let keys: Vec<PackedCollectiblesRef> = Vec::new();
                assert(keys@.to_set() =~= self.storage()@.collectibles_dependencies);
                keys
            },
        }
    }
}

/// An access may touch the parts that it was opened for, and no other; what is never persisted any
/// access may touch.
pub proof fn law_an_access_touches_what_it_was_opened_for(
    held: TaskDataCategory,
    wanted: TaskDataCategory,
    part: SpecificTaskDataCategory,
)
    ensures
        may_access(held, TaskDataCategory::All),
        may_access(TaskDataCategory::All, wanted),
        may_access(held, held),
        !may_access(TaskDataCategory::Meta, TaskDataCategory::Data),
        !may_access(TaskDataCategory::Data, TaskDataCategory::Meta),
        may_access(held, part.as_category()) <==> held.covers(part),
{
}

/// A modification is noted at the end of what has been noted, of a task that is persisted; of a
/// transient task nothing is. Nothing else of an access changes, and noting several modifications
/// is noting one after the other.
pub proof fn law_modifications_are_noted_in_order(
    guard: GuardState,
    part: SpecificTaskDataCategory,
    times: nat,
    wanted: TaskDataCategory,
)
    ensures
        guard.noted(part).task_id == guard.task_id,
        guard.noted(part).category == guard.category,
        guard.task_id >= 0x8000_0000 ==> guard.noted(part).notes == guard.notes,
        guard.task_id < 0x8000_0000 ==> {
            &&& guard.noted(part).notes.len() == guard.notes.len() + 1
            &&& guard.noted(part).notes.drop_last() == guard.notes
            &&& guard.noted(part).notes.last() == part
        },
        guard.noted_times(part, 0) == guard,
        guard.noted_times(part, times + 1) == guard.noted_times(part, times).noted(part),
        guard.noted(part).grants(wanted) == guard.grants(wanted),
        guard.grants(wanted) == may_access(guard.category, wanted),
{
    assert(guard.notes.push(part).drop_last() =~= guard.notes);
    assert(guard.noted_times(part, 0).notes =~= guard.notes);
    assert(guard.noted_times(part, times + 1).notes =~= guard.noted_times(part, times).noted(
        part,
    ).notes);
}

} // verus!
