use turbo_tasks_backend::category::{SpecificTaskDataCategory, TaskDataCategory};
use turbo_tasks_backend::data::{
    ActivenessState, Dirtyness, InProgressCellState, InProgressState, SharedReference,
    TaskExecutionReason, TypedSharedReference,
};
use turbo_tasks_backend::ids::{
    CellId, CellRef, CollectibleRef, CollectiblesRef, FIRST_TRANSIENT_TASK_ID,
};
use turbo_tasks_backend::storage_schema::TaskStorage;
use turbo_tasks_backend::task_flags::TaskFlag;
use turbo_tasks_backend::task_guard::TaskGuard;
use turbo_tasks_backend::task_guard_impl::{StorageWriteGuard, TaskGuardImpl};
use turbo_tasks_backend::task_storage_accessors::{is_access_granted, TaskStorageAccessors};

const META: SpecificTaskDataCategory = SpecificTaskDataCategory::Meta;
const DATA: SpecificTaskDataCategory = SpecificTaskDataCategory::Data;

fn guard_of(task_id: u32) -> TaskGuardImpl {
    TaskGuardImpl {
        task_id,
        task: StorageWriteGuard::new(TaskStorage::new()),
        category: TaskDataCategory::All,
    }
}

fn value(type_id: u32, value: u64) -> TypedSharedReference {
    TypedSharedReference { type_id, reference: SharedReference { value } }
}

fn collectible(index: u32) -> CollectibleRef {
    let cell = CellRef { task: 1, cell: CellId { type_id: 2, index } };
    CollectibleRef { collectible_type: 3, cell }
}

#[test]
fn access_is_granted_by_category() {
    let mut guard = guard_of(1);
    for category in [TaskDataCategory::Meta, TaskDataCategory::Data, TaskDataCategory::All] {
        assert!(guard.check_access(category));
    }
    guard.category = TaskDataCategory::Meta;
    assert!(guard.check_access(TaskDataCategory::Meta));
    assert!(!guard.check_access(TaskDataCategory::Data));
    assert!(guard.check_access(TaskDataCategory::All));
    guard.category = TaskDataCategory::Data;
    assert!(!guard.check_access(TaskDataCategory::Meta));
    assert!(guard.check_access(TaskDataCategory::Data));
}

#[test]
fn modifications_are_noted_but_not_of_transient_tasks() {
    let mut guard = guard_of(1);
    assert_eq!(guard.id(), 1);
    guard.set_dirty(Dirtyness::Dirty);
    guard.insert_cell_data_entry(CellId { type_id: 1, index: 1 }, value(1, 1));
    guard.set_current_session_clean(true);
    guard.set_activeness(ActivenessState { state: 1 });
    guard.invalidate_serialization();
    assert_eq!(guard.task.modifications, vec![META, DATA, DATA, META]);

    let mut guard = guard_of(FIRST_TRANSIENT_TASK_ID);
    guard.set_dirty(Dirtyness::Dirty);
    guard.track_modification(DATA);
    guard.invalidate_serialization();
    assert!(guard.task.modifications.is_empty());
    assert_eq!(guard.get_dirty(), Some(&Dirtyness::Dirty));
}

#[test]
fn container_counts_are_kept_only_while_they_are_not_zero() {
    let mut guard = guard_of(1);
    assert_eq!(guard.update_and_get_aggregated_dirty_container_count(3), 3);
    assert_eq!(guard.update_and_get_aggregated_dirty_container_count(-5), -2);
    assert_eq!(guard.get_aggregated_dirty_container_count(), Some(&-2));
    assert_eq!(guard.update_and_get_aggregated_dirty_container_count(2), 0);
    assert_eq!(guard.get_aggregated_dirty_container_count(), None);
    assert_eq!(guard.task.modifications, vec![META, META, META]);
    assert_eq!(guard.update_and_get_aggregated_current_session_clean_container_count(4), 4);
    assert_eq!(guard.get_aggregated_current_session_clean_container_count(), Some(&4));
    assert_eq!(guard.update_and_get_aggregated_current_session_clean_container_count(-4), 0);
    assert_eq!(guard.get_aggregated_current_session_clean_container_count(), None);
    assert_eq!(guard.task.modifications.len(), 3);
}

#[test]
fn dirty_states() {
    let mut guard = guard_of(1);
    assert!(!guard.is_dirty());
    assert_eq!(guard.dirtyness_and_session(), None);
    assert_eq!(guard.dirty_state(), (false, false));
    guard.set_current_session_clean(true);
    assert_eq!(guard.dirty_state(), (false, false));
    guard.set_dirty(Dirtyness::Dirty);
    assert!(guard.is_dirty());
    assert_eq!(guard.dirtyness_and_session(), Some((Dirtyness::Dirty, false)));
    assert_eq!(guard.dirty_state(), (true, false));
    guard.set_dirty(Dirtyness::SessionDependent);
    assert!(!guard.is_dirty());
    assert_eq!(guard.dirtyness_and_session(), Some((Dirtyness::SessionDependent, true)));
    assert_eq!(guard.dirty_state(), (true, true));
    guard.set_current_session_clean(false);
    assert!(guard.is_dirty());
    assert_eq!(guard.dirtyness_and_session(), Some((Dirtyness::SessionDependent, false)));
    assert_eq!(guard.dirty_state(), (true, false));
    assert_eq!(guard.take_dirty(), Some(Dirtyness::SessionDependent));
    assert!(!guard.is_dirty());
}

#[test]
fn dirty_containers_are_those_not_made_up_for() {
    let mut guard = guard_of(1);
    assert!(guard.dirty_containers().is_empty());
    let dirty = guard.typed_mut().aggregated_dirty_containers_mut();
    dirty.insert(10, 2);
    dirty.insert(11, 2);
    dirty.insert(12, 2);
    dirty.insert(13, 0);
    dirty.insert(14, -1);
    let clean = guard.typed_mut().aggregated_current_session_clean_containers_mut();
    clean.insert(10, 1);
    clean.insert(11, 2);
    clean.insert(14, -5);
    let mut containers = guard.dirty_containers_with_count();
    containers.sort();
    assert_eq!(containers, vec![(10, 2), (12, 2)]);
    let mut containers = guard.dirty_containers();
    containers.sort();
    assert_eq!(containers, vec![10, 12]);
}

#[test]
fn has_dirty_containers_compares_the_counts() {
    let mut guard = guard_of(1);
    assert!(!guard.has_dirty_containers());
    guard.set_aggregated_dirty_container_count(-1);
    guard.set_aggregated_current_session_clean_container_count(-2);
    assert!(!guard.has_dirty_containers());
    guard.set_aggregated_dirty_container_count(2);
    assert!(guard.has_dirty_containers());
    guard.set_aggregated_current_session_clean_container_count(2);
    assert!(!guard.has_dirty_containers());
    guard.take_aggregated_current_session_clean_container_count();
    assert!(guard.has_dirty_containers());
}

#[test]
fn serializable_cell_data_is_read_back() {
    let mut guard = guard_of(1);
    let cell = CellId { type_id: 5, index: 6 };
    assert_eq!(guard.get_cell_data(true, cell), None);
    assert_eq!(guard.set_cell_data(true, cell, value(9, 1)), None);
    assert_eq!(guard.get_cell_data(true, cell), Some(value(9, 1)));
    assert!(guard.has_cell_data(true, cell));
    assert!(!guard.has_cell_data(false, cell));
    assert!(!guard.has_cell_data(true, CellId { type_id: 6, index: 5 }));
    assert_eq!(guard.set_cell_data(true, cell, value(5, 2)), Some(value(9, 1)));
    assert_eq!(guard.remove_cell_data(true, cell), Some(value(5, 2)));
    assert_eq!(guard.remove_cell_data(true, cell), None);
    assert!(!guard.has_cell_data(true, cell));
    assert_eq!(guard.task.modifications, vec![DATA, DATA, DATA, DATA]);
}

#[test]
fn transient_cell_data_takes_its_type_from_the_cell() {
    let mut guard = guard_of(1);
    let cell = CellId { type_id: 5, index: 6 };
    guard.add_cell_data(false, cell, value(9, 1));
    assert_eq!(guard.get_cell_data(false, cell), Some(value(5, 1)));
    assert_eq!(guard.get_cell_data(true, cell), None);
    assert_eq!(guard.set_cell_data(false, cell, value(5, 3)), Some(value(5, 1)));
    assert_eq!(guard.remove_cell_data(false, cell), Some(value(5, 3)));
    assert_eq!(guard.get_cell_data(false, cell), None);
    assert!(guard.task.modifications.is_empty());
}

#[test]
fn cell_data_that_is_added_and_removed_leaves_no_trace() {
    let mut guard = guard_of(1);
    let cell = CellId { type_id: 5, index: 6 };
    guard.add_cell_data(true, cell, value(5, 1));
    assert_eq!(guard.iter_cell_data(), vec![cell]);
    guard.remove_cell_data(true, cell);
    assert!(guard.iter_cell_data().is_empty());
}

#[test]
fn a_task_is_scheduled_once() {
    let mut guard = guard_of(1);
    let reason = TaskExecutionReason { reason: 4 };
    assert!(guard.add_scheduled(reason, || || "first".to_string()));
    assert!(!guard.add_scheduled(reason, || || "second".to_string()));
    match guard.get_in_progress() {
        Some(InProgressState::Scheduled { reason: given, description }) => {
            assert_eq!(*given, reason);
            assert_eq!(description, "first");
        }
        other => panic!("{other:?}"),
    }
    assert!(!guard.add_in_progress(InProgressState::InProgress { execution: 1 }));
    assert!(guard.take_in_progress().is_some());
    assert!(guard.add_in_progress(InProgressState::InProgress { execution: 1 }));
}

#[test]
fn activeness_is_inserted_once() {
    let mut guard = guard_of(1);
    guard.get_activeness_mut_or_insert_with(|| ActivenessState { state: 3 }).state += 1;
    assert_eq!(guard.get_activeness(), Some(&ActivenessState { state: 4 }));
    guard.get_activeness_mut_or_insert_with(|| panic!("there is one")).state += 1;
    assert_eq!(guard.get_activeness(), Some(&ActivenessState { state: 5 }));
}

#[test]
fn outdated_collectibles_are_inserted_once() {
    let mut guard = guard_of(1);
    assert!(guard.insert_outdated_collectible(collectible(1), 5));
    assert!(!guard.insert_outdated_collectible(collectible(1), 6));
    assert!(guard.insert_outdated_collectible(collectible(2), 7));
    assert_eq!(guard.get_outdated_collectibles_entry(&collectible(1)), Some(5));
    let mut indices: Vec<u32> =
        guard.iter_outdated_collectibles().into_iter().map(|c| c.cell.cell.index).collect();
    indices.sort();
    assert_eq!(indices, vec![1, 2]);
}

#[test]
fn only_positive_counts_are_listed() {
    let mut guard = guard_of(1);
    assert!(guard.iter_followers().is_empty());
    guard.typed_mut().followers_mut().insert(1, 0);
    guard.typed_mut().followers_mut().insert(2, 1);
    assert_eq!(guard.iter_followers(), vec![2]);
    guard.typed_mut().upper.insert(3, 0);
    guard.typed_mut().upper.insert(4, 2);
    assert_eq!(guard.iter_uppers(), vec![4]);
    guard.typed_mut().aggregated_collectibles_mut().insert(collectible(1).pack(), -1);
    guard.typed_mut().aggregated_collectibles_mut().insert(collectible(2).pack(), 8);
    assert_eq!(guard.iter_aggregated_collectibles(), vec![(collectible(2), 8)]);
}

#[test]
fn cells_are_listed() {
    let mut guard = guard_of(1);
    let cell = CellId { type_id: 1, index: 2 };
    guard.set_cell_data(false, cell, value(1, 1));
    assert_eq!(guard.iter_transient_cell_data(), vec![cell]);
    assert!(guard.iter_cell_data().is_empty());
}

#[test]
fn cell_data_is_removed_by_predicate() {
    let mut guard = guard_of(1);
    for index in 0..10u32 {
        guard.set_cell_data(true, CellId { type_id: 1, index }, value(1, 1));
        guard.set_cell_data(false, CellId { type_id: 1, index }, value(1, 1));
    }
    guard.task.modifications.clear();
    let mut asked = 0;
    guard.remove_cell_data_if(|cell| {
        asked += 1;
        cell.index % 3 == 0
    });
    assert_eq!(asked, 10);
    assert_eq!(guard.task.modifications, vec![DATA; 4]);
    let mut left: Vec<u32> = guard.iter_cell_data().into_iter().map(|cell| cell.index).collect();
    left.sort();
    assert_eq!(left, vec![1, 2, 4, 5, 7, 8]);
    guard.remove_transient_cell_data_if(|cell| cell.index != 4);
    assert_eq!(guard.iter_transient_cell_data(), vec![CellId { type_id: 1, index: 4 }]);
    assert_eq!(guard.task.modifications.len(), 4);
}

#[test]
fn in_progress_cells_are_removed_by_predicate() {
    let mut guard = guard_of(1);
    assert!(guard.remove_in_progress_cells_if(|_, _| true).is_empty());
    for index in 0..6u32 {
        let state = InProgressCellState { state: u64::from(index) + 10 };
        guard.insert_in_progress_cells_entry(CellId { type_id: 1, index }, state);
    }
    let mut asked = 0;
    let mut removed = guard.remove_in_progress_cells_if(|cell, state| {
        asked += 1;
        cell.index == 0 || state.state > 12
    });
    assert_eq!(asked, 6);
    removed.sort_by_key(|entry| entry.0.index);
    let states: Vec<(u32, u64)> =
        removed.iter().map(|(cell, state)| (cell.index, state.state)).collect();
    assert_eq!(states, vec![(0, 10), (3, 13), (4, 14), (5, 15)]);
    let mut left: Vec<u32> =
        guard.iter_in_progress_cells().into_iter().map(|cell| cell.index).collect();
    left.sort();
    assert_eq!(left, vec![1, 2]);
}

#[test]
fn prefetch_answers_once_and_in_order() {
    let mut guard = guard_of(1);
    let cell = CellId { type_id: 1, index: 1 };
    guard.typed_mut().output_dependencies_mut().insert(10);
    guard.typed_mut().output_dependencies_mut().insert(11);
    guard.typed_mut().cell_dependencies_mut().insert(CellRef { task: 11, cell }.pack());
    guard.typed_mut().cell_dependencies_mut().insert(CellRef { task: 12, cell }.pack());
    let on_13 = CollectiblesRef { task: 13, collectible_type: 1 };
    let on_12 = CollectiblesRef { task: 12, collectible_type: 1 };
    guard.typed_mut().collectibles_dependencies_mut().insert(on_13.pack());
    guard.typed_mut().collectibles_dependencies_mut().insert(on_12.pack());
    let wanted = guard.prefetch().unwrap();
    assert_eq!(wanted.len(), 4);
    assert_eq!(wanted.get(&10), Some(&TaskDataCategory::Meta));
    assert_eq!(wanted.get(&11), Some(&TaskDataCategory::All));
    assert_eq!(wanted.get(&12), Some(&TaskDataCategory::All));
    assert_eq!(wanted.get(&13), Some(&TaskDataCategory::All));
    assert!(wanted.get_index_of(&10).unwrap() < 2);
    assert!(wanted.get_index_of(&11).unwrap() < 2);
    assert_eq!(wanted.get_index_of(&12), Some(2));
    assert_eq!(wanted.get_index_of(&13), Some(3));
    assert!(guard.typed().flags.get(TaskFlag::Prefetched));
    assert!(guard.prefetch().is_none());
    assert!(guard.task.modifications.is_empty());
}

#[test]
fn prefetch_of_at_most_one_task_answers_nothing() {
    let mut guard = guard_of(1);
    assert!(guard.prefetch().is_none());
    assert!(guard.typed().flags.get(TaskFlag::Prefetched));
    let mut guard = guard_of(1);
    let cell = CellId { type_id: 1, index: 1 };
    guard.typed_mut().output_dependencies_mut().insert(10);
    guard.typed_mut().cell_dependencies_mut().insert(CellRef { task: 10, cell }.pack());
    assert!(guard.prefetch().is_none());
}

#[test]
fn prefetch_does_not_answer_again_after_restoring() {
    let mut guard = guard_of(1);
    guard.typed_mut().output_dependencies_mut().insert(10);
    guard.typed_mut().output_dependencies_mut().insert(11);
    assert!(guard.prefetch().is_some());
    let mut source = TaskStorage::new();
    source.output_dependencies_mut().insert(12);
    source.output_dependencies_mut().insert(13);
    guard.task.storage.restore_from(source, TaskDataCategory::All);
    assert!(guard.prefetch().is_none());
}

#[test]
fn access_and_notes() {
    assert!(is_access_granted(TaskDataCategory::Meta, TaskDataCategory::All));
    assert!(is_access_granted(TaskDataCategory::All, TaskDataCategory::Data));
    assert!(!is_access_granted(TaskDataCategory::Meta, TaskDataCategory::Data));
    let mut guard = guard_of(1);
    guard.track_modifications(DATA, 2);
    assert_eq!(guard.task.modifications, vec![DATA, DATA]);
    let mut guard = guard_of(FIRST_TRANSIENT_TASK_ID);
    guard.track_modifications(DATA, 2);
    assert!(guard.task.modifications.is_empty());
}

#[test]
fn a_prefetched_task_needs_no_access_to_its_data() {
    let mut guard = guard_of(1);
    assert!(guard.prefetch().is_none());
    guard.typed_mut().output_dependencies_mut().insert(10);
    guard.typed_mut().output_dependencies_mut().insert(11);
    guard.category = TaskDataCategory::Meta;
    assert!(guard.prefetch().is_none());
    assert!(guard.typed().flags.get(TaskFlag::Prefetched));
    assert_eq!(guard.typed().output_dependencies().unwrap().len(), 2);
}
