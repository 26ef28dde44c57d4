use turbo_tasks_backend::category::TaskDataCategory;
use turbo_tasks_backend::data::Dirtyness;
use turbo_tasks_backend::storage_schema::TaskStorage;
use turbo_tasks_backend::transaction::{lookup_typed, TransactionState};

fn read_meta(tx: Option<&u8>, task_id: u32, storage: &mut TaskStorage) -> Result<(), String> {
    if tx == Some(&9) {
        return Err(format!("meta of {task_id}"));
    }
    storage.set_dirty(Dirtyness::Dirty);
    Ok(())
}

fn read_data(tx: Option<&u8>, task_id: u32, storage: &mut TaskStorage) -> Result<(), String> {
    if tx == Some(&8) || tx == Some(&9) {
        return Err(format!("data of {task_id}"));
    }
    storage.output_dependencies_mut().insert(task_id);
    Ok(())
}

#[test]
fn a_transaction_is_started_only_where_it_is_needed() {
    let mut state: TransactionState<u8> = TransactionState::NotStarted;
    assert!(!state.ensure_transaction(false, true, || panic!("not needed")));
    assert!(!state.ensure_transaction(true, false, || panic!("not needed")));
    assert!(matches!(state, TransactionState::NotStarted));
    assert!(state.ensure_transaction(true, true, || Some(5)));
    assert_eq!(state.get_tx(), Some(&5));
    assert!(state.ensure_transaction(false, false, || panic!("there is one")));
    assert_eq!(state.get_tx(), Some(&5));
}

#[test]
fn a_borrowed_or_empty_transaction_counts() {
    let tx: u8 = 7;
    let mut state = TransactionState::Borrowed(Some(&tx));
    assert!(state.ensure_transaction(false, false, || panic!("there is one")));
    assert_eq!(state.get_tx(), Some(&7));
    let mut state: TransactionState<u8> = TransactionState::Borrowed(None);
    assert!(state.ensure_transaction(false, false, || panic!("there is one")));
    assert_eq!(state.get_tx(), None);
    let mut state: TransactionState<u8> = TransactionState::NotStarted;
    assert!(state.ensure_transaction(true, true, || None));
    assert!(matches!(state, TransactionState::Owned(None)));
    assert_eq!(state.get_tx(), None);
}

#[test]
fn the_parts_of_a_category_are_read() {
    let mut storage = TaskStorage::new();
    let meta = TaskDataCategory::Meta;
    assert!(lookup_typed(Some(&1), 3, meta, &mut storage, read_meta, read_data).is_ok());
    assert_eq!(storage.get_dirty(), Some(&Dirtyness::Dirty));
    assert!(storage.output_dependencies().is_none());
    let mut storage = TaskStorage::new();
    let data = TaskDataCategory::Data;
    assert!(lookup_typed(Some(&1), 3, data, &mut storage, read_meta, read_data).is_ok());
    assert_eq!(storage.get_dirty(), None);
    assert!(storage.output_dependencies().unwrap().contains(&3));
    let mut storage = TaskStorage::new();
    let all = TaskDataCategory::All;
    assert!(lookup_typed(Some(&1), 3, all, &mut storage, read_meta, read_data).is_ok());
    assert_eq!(storage.get_dirty(), Some(&Dirtyness::Dirty));
    assert!(storage.output_dependencies().unwrap().contains(&3));
}

#[test]
fn failures_say_what_was_read() {
    let read = |tx: u8, category: TaskDataCategory| {
        let mut storage = TaskStorage::new();
        lookup_typed(Some(&tx), 3, category, &mut storage, read_meta, read_data).unwrap_err()
    };
    let failure = read(9, TaskDataCategory::Meta);
    assert!(!failure.meta_of_all);
    assert_eq!(failure.category, TaskDataCategory::Meta);
    assert_eq!(failure.error, "meta of 3");
    let failure = read(8, TaskDataCategory::Data);
    assert!(!failure.meta_of_all);
    assert_eq!(failure.category, TaskDataCategory::Data);
    assert_eq!(failure.error, "data of 3");
    let failure = read(9, TaskDataCategory::All);
    assert!(failure.meta_of_all);
    assert_eq!(failure.category, TaskDataCategory::Meta);
    assert_eq!(failure.error, "meta of 3");
    let failure = read(8, TaskDataCategory::All);
    assert!(!failure.meta_of_all);
    assert_eq!(failure.category, TaskDataCategory::All);
    assert_eq!(failure.error, "data of 3");
}

#[test]
fn nothing_is_read_where_all_data_is_in_memory() {
    let mut state: TransactionState<u8> = TransactionState::NotStarted;
    let mut storage = TaskStorage::new();
    let result = state.restore_task_data_typed(
        true,
        false,
        || Some(9),
        1,
        TaskDataCategory::All,
        &mut storage,
        read_meta,
        read_data,
    );
    assert!(result.is_ok());
    assert!(storage.lazy.is_empty());
    let single = state.restore_task_data_typed_single(
        true,
        false,
        || Some(9),
        1,
        TaskDataCategory::All,
        read_meta,
        read_data,
    );
    assert!(single.unwrap().lazy.is_empty());
    let batch = state.restore_task_data_typed_batch(
        false,
        true,
        || Some(9),
        &vec![1, 2],
        TaskDataCategory::Data,
        |_, _, _| Err::<Vec<TaskStorage>, String>("not read".to_string()),
    );
    assert!(batch.unwrap().is_none());
    assert!(matches!(state, TransactionState::NotStarted));
}

#[test]
fn data_is_read_through_the_transaction() {
    let mut state: TransactionState<u8> = TransactionState::NotStarted;
    let mut storage = TaskStorage::new();
    let result = state.restore_task_data_typed(
        true,
        true,
        || Some(1),
        4,
        TaskDataCategory::Data,
        &mut storage,
        read_meta,
        read_data,
    );
    assert!(result.is_ok());
    assert!(storage.output_dependencies().unwrap().contains(&4));
    assert!(matches!(state, TransactionState::Owned(Some(1))));
    let single = state.restore_task_data_typed_single(
        true,
        true,
        || panic!("there is one"),
        5,
        TaskDataCategory::All,
        read_meta,
        read_data,
    );
    assert!(single.unwrap().output_dependencies().unwrap().contains(&5));
    let mut failing = TransactionState::Borrowed(Some(&9));
    let single = failing.restore_task_data_typed_single(
        true,
        true,
        || panic!("there is one"),
        5,
        TaskDataCategory::All,
        read_meta,
        read_data,
    );
    assert_eq!(single.err().unwrap().error, "meta of 5");
}

#[test]
fn several_tasks_are_read_at_once() {
    let mut state: TransactionState<u8> = TransactionState::Owned(Some(1));
    let batch = state.restore_task_data_typed_batch(
        true,
        true,
        || None,
        &vec![6, 7],
        TaskDataCategory::Data,
        |tx, task_ids, category| {
            assert_eq!(tx, Some(&1));
            assert_eq!(category, TaskDataCategory::Data);
            let mut storages: Vec<TaskStorage> = Vec::new();
            for task_id in task_ids {
                let mut storage = TaskStorage::new();
                read_data(tx, *task_id, &mut storage)?;
                storages.push(storage);
            }
            Ok::<Vec<TaskStorage>, String>(storages)
        },
    );
    let storages = batch.unwrap().unwrap();
    assert_eq!(storages.len(), 2);
    assert!(storages[1].output_dependencies().unwrap().contains(&7));
    let failed = state.restore_task_data_typed_batch(
        true,
        true,
        || None,
        &vec![6, 7],
        TaskDataCategory::Meta,
        |_, _, _| Err::<Vec<TaskStorage>, String>("broken".to_string()),
    );
    let failure = failed.err().unwrap();
    assert!(!failure.meta_of_all);
    assert_eq!(failure.category, TaskDataCategory::Meta);
    assert_eq!(failure.error, "broken");
}

#[test]
fn lookups_are_made_with_the_transaction_that_there_is() {
    let tx: u8 = 7;
    let mut state = TransactionState::Borrowed(Some(&tx));
    let only_seven = |tx: Option<&u8>, task_id: u32, storage: &mut TaskStorage| {
        assert_eq!(tx, Some(&7));
        read_meta(tx, task_id, storage)
    };
    let after_meta = |tx: Option<&u8>, task_id: u32, storage: &mut TaskStorage| {
        assert_eq!(tx, Some(&7));
        assert_eq!(storage.get_dirty(), Some(&Dirtyness::Dirty));
        read_data(tx, task_id, storage)
    };
    let all = TaskDataCategory::All;
    let start = || panic!("there is one");
    let read =
        state.restore_task_data_typed_single(true, true, start, 3, all, only_seven, after_meta);
    assert!(read.unwrap().output_dependencies().unwrap().contains(&3));
    let mut state: TransactionState<u8> = TransactionState::NotStarted;
    let start = || Some(7);
    let read =
        state.restore_task_data_typed_single(true, true, start, 3, all, only_seven, after_meta);
    assert!(read.is_ok());
    assert_eq!(state.get_tx(), Some(&7));
}
