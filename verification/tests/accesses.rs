use turbo_tasks_backend::category::{SpecificTaskDataCategory, TaskDataCategory};
use turbo_tasks_backend::data::Dirtyness;
use turbo_tasks_backend::ids::FIRST_TRANSIENT_TASK_ID;
use turbo_tasks_backend::storage_schema::TaskStorage;
use turbo_tasks_backend::task_access::{TaskAccess, TaskPairAccess};
use turbo_tasks_backend::task_guard_impl::StorageWriteGuard;

fn fresh() -> StorageWriteGuard {
    StorageWriteGuard::new(TaskStorage::new())
}

fn restored_as(category: TaskDataCategory) -> StorageWriteGuard {
    let mut storage = TaskStorage::new();
    storage.flags.set_restored(category);
    StorageWriteGuard::new(storage)
}

fn persisted(task_id: u32) -> TaskStorage {
    let mut storage = TaskStorage::new();
    storage.set_dirty(Dirtyness::Dirty);
    storage.output_dependencies_mut().insert(task_id);
    storage
}

#[test]
fn a_restored_task_is_accessed_at_once() {
    match TaskAccess::begin(1, TaskDataCategory::Meta, restored_as(TaskDataCategory::Meta)) {
        TaskAccess::Ready(guard) => {
            assert_eq!(guard.task_id, 1);
            assert_eq!(guard.category, TaskDataCategory::Meta);
            assert!(!guard.task.storage.flags.is_restored(TaskDataCategory::Data));
        }
        TaskAccess::Restore(_, _) => panic!("restored already"),
    }
}

#[test]
fn a_transient_task_counts_as_restored() {
    match TaskAccess::begin(FIRST_TRANSIENT_TASK_ID, TaskDataCategory::Meta, fresh()) {
        TaskAccess::Ready(guard) => {
            assert!(guard.task.storage.flags.is_restored(TaskDataCategory::All));
        }
        TaskAccess::Restore(_, _) => panic!("nothing to restore"),
    }
}

#[test]
fn metadata_is_restored_before_data() {
    let (pending, task) = match TaskAccess::begin(1, TaskDataCategory::All, fresh()) {
        TaskAccess::Restore(pending, task) => (pending, task),
        TaskAccess::Ready(_) => panic!("nothing restored yet"),
    };
    assert_eq!(pending.part, SpecificTaskDataCategory::Meta);
    let (pending, task) = match TaskAccess::resume(pending, task, persisted(1)) {
        TaskAccess::Restore(pending, task) => (pending, task),
        TaskAccess::Ready(_) => panic!("data not restored yet"),
    };
    assert_eq!(pending.part, SpecificTaskDataCategory::Data);
    assert_eq!(task.storage.get_dirty(), Some(&Dirtyness::Dirty));
    assert!(task.storage.output_dependencies().is_none());
    match TaskAccess::resume(pending, task, persisted(1)) {
        TaskAccess::Ready(guard) => {
            assert!(guard.task.storage.flags.is_restored(TaskDataCategory::All));
            assert!(guard.task.storage.output_dependencies().unwrap().contains(&1));
        }
        TaskAccess::Restore(_, _) => panic!("everything is restored"),
    }
}

#[test]
fn only_what_is_missing_is_restored() {
    let task = restored_as(TaskDataCategory::Meta);
    let pending = match TaskAccess::begin(1, TaskDataCategory::All, task) {
        TaskAccess::Restore(pending, _) => pending,
        TaskAccess::Ready(_) => panic!("data not restored yet"),
    };
    assert_eq!(pending.part, SpecificTaskDataCategory::Data);
}

#[test]
fn what_was_restored_in_the_meantime_stays() {
    let pending = match TaskAccess::begin(1, TaskDataCategory::Data, fresh()) {
        TaskAccess::Restore(pending, _) => pending,
        TaskAccess::Ready(_) => panic!("nothing restored yet"),
    };
    let meanwhile = restored_as(TaskDataCategory::Data);
    match TaskAccess::resume(pending, meanwhile, persisted(1)) {
        TaskAccess::Ready(guard) => {
            assert!(guard.task.storage.output_dependencies().is_none());
        }
        TaskAccess::Restore(_, _) => panic!("restored meanwhile"),
    }
}

#[test]
fn a_pair_of_restored_tasks_is_accessed_at_once() {
    let all = TaskDataCategory::All;
    let access = TaskPairAccess::begin(1, 2, all, restored_as(all), restored_as(all));
    match access {
        TaskPairAccess::Ready(first, second) => {
            assert_eq!((first.task_id, second.task_id), (1, 2));
        }
        TaskPairAccess::Restore(_, _, _) => panic!("restored already"),
    }
}

#[test]
fn a_pair_restores_each_part_of_the_task_that_misses_one() {
    let all = TaskDataCategory::All;
    let half = restored_as(TaskDataCategory::Data);
    let (pending, first, second) =
        match TaskPairAccess::begin(1, 2, all, restored_as(all), half) {
            TaskPairAccess::Restore(pending, first, second) => (pending, first, second),
            TaskPairAccess::Ready(_, _) => panic!("the second task misses its metadata"),
        };
    assert!(!pending.of_first);
    assert!(pending.of_second);
    assert_eq!(pending.part, SpecificTaskDataCategory::Meta);
    let (pending, first, second) =
        match TaskPairAccess::resume(pending, first, second, None, Some(persisted(2))) {
            TaskPairAccess::Restore(pending, first, second) => (pending, first, second),
            TaskPairAccess::Ready(_, _) => panic!("the data is read as well"),
        };
    assert_eq!(pending.part, SpecificTaskDataCategory::Data);
    assert!(pending.of_second);
    match TaskPairAccess::resume(pending, first, second, None, Some(persisted(2))) {
        TaskPairAccess::Ready(first, second) => {
            assert!(first.task.storage.lazy.is_empty());
            assert!(second.task.storage.flags.is_restored(all));
            assert_eq!(second.task.storage.get_dirty(), Some(&Dirtyness::Dirty));
            assert!(second.task.storage.output_dependencies().is_none());
        }
        TaskPairAccess::Restore(_, _, _) => panic!("everything is restored"),
    }
}

#[test]
fn a_pair_is_restored_with_one_part() {
    let data = TaskDataCategory::Data;
    let (pending, first, second) = match TaskPairAccess::begin(1, 2, data, fresh(), fresh()) {
        TaskPairAccess::Restore(pending, first, second) => (pending, first, second),
        TaskPairAccess::Ready(_, _) => panic!("nothing restored yet"),
    };
    assert_eq!(pending.part, SpecificTaskDataCategory::Data);
    let sources = (Some(persisted(1)), Some(persisted(2)));
    match TaskPairAccess::resume(pending, first, second, sources.0, sources.1) {
        TaskPairAccess::Ready(first, second) => {
            assert!(first.task.storage.output_dependencies().unwrap().contains(&1));
            assert!(second.task.storage.output_dependencies().unwrap().contains(&2));
            assert_eq!(second.task.storage.get_dirty(), None);
        }
        TaskPairAccess::Restore(_, _, _) => panic!("the data is restored"),
    }
}

#[test]
fn offering_twice_counts_once() {
    let mut task = fresh();
    task.offer(persisted(1), TaskDataCategory::Data);
    task.offer(persisted(2), TaskDataCategory::Data);
    assert!(task.storage.output_dependencies().unwrap().contains(&1));
    assert!(!task.storage.output_dependencies().unwrap().contains(&2));
    task.offer(persisted(3), TaskDataCategory::Meta);
    assert!(task.storage.flags.is_restored(TaskDataCategory::All));
    assert!(task.storage.output_dependencies().unwrap().contains(&1));
}

#[test]
fn parts_are_offered_in_any_order() {
    let mut meta_first = fresh();
    meta_first.offer(persisted(1), TaskDataCategory::Meta);
    meta_first.offer(persisted(1), TaskDataCategory::Data);
    let mut data_first = fresh();
    data_first.offer(persisted(1), TaskDataCategory::Data);
    data_first.offer(persisted(1), TaskDataCategory::Meta);
    let mut at_once = fresh();
    at_once.offer(persisted(1), TaskDataCategory::All);
    for task in [meta_first, data_first, at_once] {
        assert!(task.storage.flags.is_restored(TaskDataCategory::All));
        assert_eq!(task.storage.get_dirty(), Some(&Dirtyness::Dirty));
        assert!(task.storage.output_dependencies().unwrap().contains(&1));
        assert_eq!(task.storage.lazy.len(), 2);
    }
}
