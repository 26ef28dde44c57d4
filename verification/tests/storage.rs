use turbo_tasks_backend::category::{SpecificTaskDataCategory, TaskDataCategory};
use turbo_tasks_backend::data::{
    ActivenessState, AggregationNumber, Dirtyness, OutputValue, SharedReference,
    TypedSharedReference,
};
use turbo_tasks_backend::storage_schema::{AutoSet, LazyField, LazyKind, TaskStorage};
use turbo_tasks_backend::task_flags::TaskFlag;

fn children(field: &LazyField) -> Option<&AutoSet<u32>> {
    match field {
        LazyField::Children(children) => Some(children),
        _ => None,
    }
}

fn children_mut(field: &mut LazyField) -> Option<&mut AutoSet<u32>> {
    match field {
        LazyField::Children(children) => Some(children),
        _ => None,
    }
}

#[test]
fn a_new_storage_is_empty() {
    let storage = TaskStorage::new();
    assert!(storage.is_well_formed());
    assert!(storage.lazy.is_empty());
    assert_eq!(storage.output, None);
    assert!(storage.upper.is_empty());
    assert!(storage.output_dependent.is_empty());
    assert_eq!(
        storage.aggregation_number,
        AggregationNumber { base: 0, distance: 0, effective: 0 }
    );
    assert_eq!(storage.get_dirty(), None);
    assert!(storage.cell_data().is_none());
}

#[test]
fn state_gives_the_flags() {
    let mut storage = TaskStorage::new();
    storage.state_mut().set(TaskFlag::Immutable, true);
    assert!(storage.state().get(TaskFlag::Immutable));
    assert!(storage.flags.get(TaskFlag::Immutable));
}

#[test]
fn single_values_are_set_and_taken() {
    let mut storage = TaskStorage::new();
    assert_eq!(storage.set_dirty(Dirtyness::Dirty), None);
    assert_eq!(storage.set_dirty(Dirtyness::SessionDependent), Some(Dirtyness::Dirty));
    assert_eq!(storage.get_dirty(), Some(&Dirtyness::SessionDependent));
    assert_eq!(storage.lazy.len(), 1);
    assert_eq!(storage.set_aggregated_dirty_container_count(4), None);
    assert_eq!(storage.set_activeness(ActivenessState { state: 6 }), None);
    storage.get_activeness_mut().unwrap().state = 7;
    assert_eq!(storage.get_activeness(), Some(&ActivenessState { state: 7 }));
    assert_eq!(storage.take_dirty(), Some(Dirtyness::SessionDependent));
    assert_eq!(storage.take_dirty(), None);
    assert_eq!(storage.get_aggregated_dirty_container_count(), Some(&4));
    assert_eq!(storage.lazy.len(), 2);
}

#[test]
fn maps_are_made_when_they_are_changed() {
    let mut storage = TaskStorage::new();
    assert!(storage.followers().is_none());
    storage.followers_mut().insert(3, 5);
    storage.followers_mut().insert(4, 6);
    assert_eq!(storage.followers().unwrap().len(), 2);
    assert_eq!(storage.followers().unwrap().get(&4), Some(&6));
    assert_eq!(storage.lazy.len(), 1);
}

#[test]
fn find_lazy_finds_by_the_closure() {
    let mut storage = TaskStorage::new();
    assert!(storage.find_lazy(children).is_none());
    assert!(storage.find_lazy_mut(children_mut).is_none());
    storage.set_dirty(Dirtyness::Dirty);
    let mut set: AutoSet<u32> = AutoSet::default();
    set.insert(8);
    assert!(storage.put_lazy(LazyField::Children(set)).is_none());
    assert!(storage.find_lazy(children).unwrap().contains(&8));
    storage.find_lazy_mut(children_mut).unwrap().insert(9);
    assert_eq!(storage.find_lazy(children).unwrap().len(), 2);
}

#[test]
fn get_or_create_lazy_creates_once() {
    let mut storage = TaskStorage::new();
    storage.set_dirty(Dirtyness::Dirty);
    let create = || LazyField::Children(AutoSet::default());
    storage.get_or_create_lazy(children_mut, create).insert(1);
    assert_eq!(storage.lazy.len(), 2);
    storage.get_or_create_lazy(children_mut, create).insert(2);
    assert_eq!(storage.lazy.len(), 2);
    assert_eq!(storage.find_lazy(children).unwrap().len(), 2);
    assert_eq!(storage.get_dirty(), Some(&Dirtyness::Dirty));
}

#[test]
fn get_or_create_lazy_makes_nothing_where_a_field_exists() {
    let mut storage = TaskStorage::new();
    storage.set_dirty(Dirtyness::Dirty);
    let create = || LazyField::Children(AutoSet::default());
    storage.get_or_create_lazy(children_mut, create).insert(7);
    let other = || LazyField::AggregatedDirtyContainerCount(1);
    assert!(storage.get_or_create_lazy(children_mut, other).contains(&7));
    assert!(storage.get_or_create_lazy(children_mut, || panic!("there is one")).contains(&7));
    assert_eq!(storage.lazy.len(), 2);
    assert!(matches!(storage.lazy[0], LazyField::Dirty(Dirtyness::Dirty)));
    assert!(matches!(storage.lazy[1], LazyField::Children(_)));
}

#[test]
fn lazy_fields_are_put_and_taken_by_kind() {
    let mut storage = TaskStorage::new();
    assert!(storage.put_lazy(LazyField::AggregatedDirtyContainerCount(1)).is_none());
    let replaced = storage.put_lazy(LazyField::AggregatedDirtyContainerCount(2));
    assert!(matches!(replaced, Some(LazyField::AggregatedDirtyContainerCount(1))));
    assert_eq!(storage.lazy_position(LazyKind::AggregatedDirtyContainerCount), Some(0));
    assert_eq!(storage.lazy_position(LazyKind::Dirty), None);
    assert!(storage.take_lazy(LazyKind::Dirty).is_none());
    let taken = storage.take_lazy(LazyKind::AggregatedDirtyContainerCount);
    assert!(matches!(taken, Some(LazyField::AggregatedDirtyContainerCount(2))));
    assert!(storage.lazy.is_empty());
}

#[test]
fn a_field_that_is_kept_twice_is_noticed() {
    let mut storage = TaskStorage::new();
    storage.lazy.push(LazyField::Dirty(Dirtyness::Dirty));
    storage.lazy.push(LazyField::AggregatedDirtyContainerCount(1));
    assert!(storage.is_well_formed());
    storage.lazy.push(LazyField::Dirty(Dirtyness::Dirty));
    assert!(!storage.is_well_formed());
}

#[test]
fn kinds_know_their_part() {
    assert_eq!(LazyKind::CellData.persisted_part(), Some(SpecificTaskDataCategory::Data));
    assert_eq!(LazyKind::Followers.persisted_part(), Some(SpecificTaskDataCategory::Meta));
    assert_eq!(LazyKind::TransientCellData.persisted_part(), None);
    assert_eq!(LazyField::Dirty(Dirtyness::Dirty).which(), LazyKind::Dirty);
}

fn sample(number: u32) -> TaskStorage {
    let mut storage = TaskStorage::new();
    storage.aggregation_number = AggregationNumber { base: number, distance: 0, effective: number };
    storage.output = Some(OutputValue::Output(number));
    storage.upper.insert(number, 1);
    storage.output_dependent.insert(number);
    storage.flags.set(TaskFlag::Immutable, number % 2 == 0);
    storage.flags.set(TaskFlag::Prefetched, number % 2 == 0);
    storage.set_dirty(Dirtyness::Dirty);
    storage.output_dependencies_mut().insert(number);
    let typed = SharedReference { value: u64::from(number) }.into_typed(number);
    storage.cell_data_mut().insert(u64::from(number), typed);
    let untyped = SharedReference { value: u64::from(number) };
    storage.transient_cell_data_mut().insert(u64::from(number), untyped);
    storage
}

fn assert_meta(storage: &TaskStorage, number: u32) {
    assert_eq!(storage.aggregation_number.base, number);
    assert_eq!(storage.output, Some(OutputValue::Output(number)));
    assert_eq!(storage.upper.get(&number), Some(&1));
    assert_eq!(storage.upper.len(), 1);
    assert_eq!(storage.flags.get(TaskFlag::Immutable), number % 2 == 0);
}

fn assert_data(storage: &TaskStorage, number: u32) {
    assert!(storage.output_dependent.contains(&number));
    assert!(storage.output_dependencies().unwrap().contains(&number));
    assert_eq!(storage.output_dependencies().unwrap().len(), 1);
    assert_eq!(
        storage.cell_data().unwrap().get(&u64::from(number)),
        Some(&TypedSharedReference {
            type_id: number,
            reference: SharedReference { value: u64::from(number) }
        })
    );
}

fn assert_transient(storage: &TaskStorage, number: u32) {
    assert_eq!(storage.transient_cell_data().unwrap().len(), 1);
    assert!(storage.transient_cell_data().unwrap().contains_key(&u64::from(number)));
    assert_eq!(storage.flags.get(TaskFlag::Prefetched), number % 2 == 0);
}

#[test]
fn restoring_takes_over_what_the_category_covers() {
    let mut storage = sample(3);
    storage.restore_from(sample(4), TaskDataCategory::Meta);
    assert_meta(&storage, 4);
    assert_data(&storage, 3);
    assert_transient(&storage, 3);

    let mut storage = sample(3);
    storage.restore_from(sample(4), TaskDataCategory::Data);
    assert_meta(&storage, 3);
    assert_data(&storage, 4);
    assert_transient(&storage, 3);
}

#[test]
fn restoring_part_by_part_is_restoring_all() {
    let mut storage = sample(3);
    storage.restore_from(sample(4), TaskDataCategory::Data);
    storage.restore_from(sample(4), TaskDataCategory::Meta);
    assert_meta(&storage, 4);
    assert_data(&storage, 4);
    assert_transient(&storage, 3);

    let mut storage = sample(3);
    storage.restore_from(sample(4), TaskDataCategory::All);
    assert_meta(&storage, 4);
    assert_data(&storage, 4);
    assert_transient(&storage, 3);
}

#[test]
fn restoring_drops_what_is_not_there() {
    let mut storage = sample(3);
    storage.restore_from(TaskStorage::new(), TaskDataCategory::All);
    assert_eq!(storage.get_dirty(), None);
    assert!(storage.cell_data().is_none());
    assert_eq!(storage.output, None);
    assert_transient(&storage, 3);
    assert_eq!(storage.lazy.len(), 1);
}

#[test]
fn restoring_again_changes_nothing() {
    for category in [TaskDataCategory::Meta, TaskDataCategory::Data, TaskDataCategory::All] {
        let mut once = sample(3);
        once.restore_from(sample(4), category);
        let mut twice = sample(3);
        twice.restore_from(sample(4), category);
        twice.restore_from(sample(4), category);
        assert_eq!(once.lazy.len(), twice.lazy.len());
        assert_eq!(once.output, twice.output);
        assert_eq!(once.upper, twice.upper);
        assert_eq!(once.cell_data(), twice.cell_data());
        assert_eq!(once.get_dirty(), twice.get_dirty());
        assert_transient(&twice, 3);
    }
}
