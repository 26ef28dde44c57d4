use std::collections::BTreeMap;

use turbo_tasks_backend::category::TaskDataCategory;
use turbo_tasks_backend::data::Dirtyness;
use turbo_tasks_backend::ids::FIRST_TRANSIENT_TASK_ID;
use turbo_tasks_backend::prepare::{PreparePhase, PrepareStep, TaskPreparation};
use turbo_tasks_backend::storage_schema::TaskStorage;
use turbo_tasks_backend::task_flags::TaskFlag;
use turbo_tasks_backend::task_guard_impl::StorageWriteGuard;

const T: u32 = FIRST_TRANSIENT_TASK_ID;

fn persisted(task_id: u32) -> TaskStorage {
    let mut storage = TaskStorage::new();
    storage.set_dirty(Dirtyness::Dirty);
    storage.output_dependencies_mut().insert(task_id);
    storage
}

/// Runs a preparation against tasks that are kept in memory, and logs what it does.
struct Run {
    tasks: BTreeMap<u32, StorageWriteGuard>,
    callbacks: Vec<(u32, TaskDataCategory)>,
    loads: Vec<(Vec<u32>, TaskDataCategory)>,
    batches: fn(&[u32]) -> Option<Vec<TaskStorage>>,
}

impl Run {
    fn new() -> Run {
        Run {
            tasks: BTreeMap::new(),
            callbacks: Vec::new(),
            loads: Vec::new(),
            batches: |ids| Some(ids.iter().map(|id| persisted(*id)).collect()),
        }
    }

    fn task(&mut self, task_id: u32) -> &mut StorageWriteGuard {
        self.tasks.entry(task_id).or_insert_with(|| StorageWriteGuard::new(TaskStorage::new()))
    }

    fn run(&mut self, requests: Vec<(u32, TaskDataCategory)>, call_for_transient: bool) {
        let mut preparation = TaskPreparation::new(&requests, call_for_transient);
        loop {
            match preparation.step() {
                PrepareStep::Open(task_id) => {
                    let callback = preparation.opened(self.task(task_id));
                    self.callbacks.extend(callback);
                }
                PrepareStep::LoadSingle(task_id, category) => {
                    self.loads.push((vec![task_id], category));
                    preparation.loaded_single(persisted(task_id));
                }
                PrepareStep::LoadBatch(task_ids, category) => {
                    let storages = (self.batches)(&task_ids);
                    self.loads.push((task_ids, category));
                    preparation.loaded_batch(storages);
                }
                PrepareStep::Done => break,
            }
        }
        assert_eq!(preparation.phase, PreparePhase::Done);
    }
}

#[test]
fn nothing_asked_nothing_done() {
    let mut run = Run::new();
    run.run(vec![], true);
    assert!(run.callbacks.is_empty());
    assert!(run.loads.is_empty());
}

#[test]
fn transient_tasks_come_first_and_need_no_data() {
    let mut run = Run::new();
    let meta = TaskDataCategory::Meta;
    run.task(1).storage.flags.set_restored(meta);
    run.run(vec![(1, meta), (T + 2, meta), (T + 1, meta)], true);
    assert_eq!(run.callbacks, vec![(T + 2, meta), (T + 1, meta), (1, meta)]);
    assert!(run.loads.is_empty());
    assert!(run.task(T + 1).storage.flags.is_restored(TaskDataCategory::All));
}

#[test]
fn transient_tasks_are_left_out_if_that_is_wanted() {
    let mut run = Run::new();
    run.run(vec![(T, TaskDataCategory::All)], false);
    assert!(run.callbacks.is_empty());
    assert!(run.tasks.is_empty());
}

#[test]
fn a_transient_task_that_is_restored_is_left_alone() {
    let mut run = Run::new();
    run.task(T).storage.flags.set_restored(TaskDataCategory::Meta);
    run.run(vec![(T, TaskDataCategory::Meta)], true);
    assert!(!run.task(T).storage.flags.is_restored(TaskDataCategory::Data));
    assert_eq!(run.callbacks.len(), 1);
}

#[test]
fn one_task_is_read_alone() {
    let mut run = Run::new();
    run.run(vec![(1, TaskDataCategory::All)], true);
    let loads = vec![(vec![1], TaskDataCategory::Data), (vec![1], TaskDataCategory::Meta)];
    assert_eq!(run.loads, loads);
    assert_eq!(run.callbacks, vec![(1, TaskDataCategory::All)]);
    let storage = &run.task(1).storage;
    assert!(storage.flags.is_restored(TaskDataCategory::All));
    assert_eq!(storage.get_dirty(), Some(&Dirtyness::Dirty));
    assert!(storage.output_dependencies().unwrap().contains(&1));
}

#[test]
fn several_tasks_are_read_together_and_each_is_handed_over_once() {
    let mut run = Run::new();
    run.task(3).storage.flags.set_restored(TaskDataCategory::All);
    run.task(4).storage.flags.set_restored(TaskDataCategory::Meta);
    let requests = vec![
        (1, TaskDataCategory::Data),
        (2, TaskDataCategory::Meta),
        (3, TaskDataCategory::All),
        (4, TaskDataCategory::All),
        (5, TaskDataCategory::All),
    ];
    run.run(requests.clone(), true);
    let loads =
        vec![(vec![1, 4, 5], TaskDataCategory::Data), (vec![2, 5], TaskDataCategory::Meta)];
    assert_eq!(run.loads, loads);
    let order: Vec<u32> = run.callbacks.iter().map(|callback| callback.0).collect();
    assert_eq!(order, vec![3, 1, 2, 4, 5]);
    let mut callbacks = run.callbacks.clone();
    callbacks.sort_by_key(|callback| callback.0);
    assert_eq!(callbacks, requests);
    assert!(!run.task(1).storage.flags.is_restored(TaskDataCategory::Meta));
    assert!(run.task(1).storage.output_dependencies().unwrap().contains(&1));
    assert_eq!(run.task(1).storage.get_dirty(), None);
    assert!(!run.task(2).storage.flags.is_restored(TaskDataCategory::Data));
    assert!(run.task(5).storage.flags.is_restored(TaskDataCategory::All));
    assert!(run.task(3).storage.lazy.is_empty());
}

#[test]
fn where_nothing_is_to_be_read_the_tasks_are_empty() {
    let mut run = Run::new();
    run.batches = |_| None;
    run.run(vec![(1, TaskDataCategory::Data), (2, TaskDataCategory::Data)], true);
    assert_eq!(run.callbacks.len(), 2);
    assert!(run.task(2).storage.lazy.is_empty());
    assert!(run.task(2).storage.flags.is_restored(TaskDataCategory::Data));
}

#[test]
fn tasks_for_which_nothing_came_back_are_not_handed_over() {
    let mut run = Run::new();
    run.batches = |ids| Some(ids.iter().take(1).map(|id| persisted(*id)).collect());
    run.run(vec![(1, TaskDataCategory::Data), (2, TaskDataCategory::Data)], true);
    assert_eq!(run.callbacks, vec![(1, TaskDataCategory::Data)]);
    assert!(!run.task(2).storage.flags.is_restored(TaskDataCategory::Data));
}

#[test]
fn more_storages_than_asked_for_are_ignored() {
    let mut run = Run::new();
    run.batches = |ids| Some((0..ids.len() as u32 + 3).map(persisted).collect());
    run.run(vec![(7, TaskDataCategory::Data), (8, TaskDataCategory::Data)], true);
    assert_eq!(run.callbacks.len(), 2);
    assert!(run.task(7).storage.output_dependencies().unwrap().contains(&0));
    assert!(run.task(8).storage.output_dependencies().unwrap().contains(&1));
}

#[test]
fn what_was_restored_while_reading_is_kept() {
    let requests = vec![(1, TaskDataCategory::Data)];
    let mut preparation = TaskPreparation::new(&requests, true);
    let mut task = StorageWriteGuard::new(TaskStorage::new());
    assert_eq!(preparation.opened(&mut task), None);
    preparation.loaded_single(persisted(1));
    task.storage.flags.set_restored(TaskDataCategory::Data);
    assert_eq!(preparation.opened(&mut task), Some((1, TaskDataCategory::Data)));
    assert!(task.storage.lazy.is_empty());
}

#[test]
fn preparing_again_reads_and_changes_nothing() {
    let mut run = Run::new();
    let requests = vec![
        (1, TaskDataCategory::Data),
        (2, TaskDataCategory::All),
        (T, TaskDataCategory::Meta),
        (3, TaskDataCategory::Meta),
    ];
    run.run(requests.clone(), false);
    assert!(!run.tasks.contains_key(&T));
    assert_eq!(run.loads.len(), 2);
    for (task_id, category) in [requests[0], requests[1], requests[3]] {
        assert!(run.task(task_id).storage.flags.is_restored(category));
    }
    run.loads.clear();
    run.callbacks.clear();
    run.run(requests, false);
    assert!(run.loads.is_empty());
    assert_eq!(run.callbacks.len(), 3);
    assert_eq!(run.task(2).storage.lazy.len(), 2);
    assert!(!run.task(1).storage.flags.is_restored(TaskDataCategory::Meta));
}

#[test]
fn a_task_that_is_asked_for_twice_is_read_twice_and_merged_once() {
    let mut run = Run::new();
    run.batches = |ids| Some((0..ids.len() as u32).map(persisted).collect());
    run.run(vec![(7, TaskDataCategory::Data), (7, TaskDataCategory::Data)], true);
    assert_eq!(run.loads, vec![(vec![7, 7], TaskDataCategory::Data)]);
    assert_eq!(run.callbacks.len(), 2);
    let dependencies = run.task(7).storage.output_dependencies().unwrap();
    assert!(dependencies.contains(&0));
    assert!(!dependencies.contains(&1));
}

#[test]
fn preparing_keeps_what_is_restored_or_not_asked_for() {
    let mut run = Run::new();
    let restored = &mut run.task(1).storage;
    restored.output_dependencies_mut().insert(50);
    restored.flags.set_restored(TaskDataCategory::Data);
    restored.flags.set(TaskFlag::Prefetched, true);
    let unasked = &mut run.task(2).storage;
    unasked.output_dependencies_mut().insert(60);
    let transient = &mut run.task(T).storage;
    transient.output_dependencies_mut().insert(70);
    let requests = vec![
        (1, TaskDataCategory::All),
        (2, TaskDataCategory::Meta),
        (T, TaskDataCategory::All),
    ];
    run.run(requests, true);
    assert_eq!(run.loads, vec![(vec![1, 2], TaskDataCategory::Meta)]);
    for (task_id, kept) in [(1, 50), (2, 60), (T, 70)] {
        let dependencies = run.task(task_id).storage.output_dependencies().unwrap();
        assert_eq!(dependencies.len(), 1);
        assert!(dependencies.contains(&kept));
    }
    assert_eq!(run.task(1).storage.get_dirty(), Some(&Dirtyness::Dirty));
    assert_eq!(run.task(2).storage.get_dirty(), Some(&Dirtyness::Dirty));
    assert_eq!(run.task(T).storage.get_dirty(), None);
    assert!(run.task(1).storage.flags.get(TaskFlag::Prefetched));
    assert!(!run.task(2).storage.flags.is_restored(TaskDataCategory::Data));
}
