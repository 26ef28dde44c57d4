use turbo_tasks_backend::category::TaskDataCategory;
use turbo_tasks_backend::context::{is_once_task, meta_requests, ActiveTaskLocks, TransientTask};
use turbo_tasks_backend::ids::FIRST_TRANSIENT_TASK_ID;

#[test]
fn only_transient_tasks_run_once() {
    let id = FIRST_TRANSIENT_TASK_ID;
    assert!(!is_once_task(1, |_| panic!("not transient")));
    assert!(is_once_task(id, |task_id| {
        assert_eq!(task_id, id);
        Some(TransientTask::Once)
    }));
    assert!(!is_once_task(id, |_| Some(TransientTask::Root)));
    assert!(!is_once_task(id, |_| None));
}

#[test]
fn metadata_is_asked_for() {
    let meta = TaskDataCategory::Meta;
    assert_eq!(meta_requests(&vec![4, 2, 4]), vec![(4, meta), (2, meta), (4, meta)]);
    assert!(meta_requests(&vec![]).is_empty());
}

#[test]
fn locks_are_counted() {
    let mut locks = ActiveTaskLocks::new();
    assert!(locks.acquire(1));
    assert!(!locks.acquire(1));
    assert_eq!(locks.count, 2);
    locks.release();
    locks.release();
    assert!(locks.acquire(2));
    locks.keep();
    assert_eq!(locks.count, 3);
    locks.release();
    locks.release();
    locks.release();
    assert_eq!(locks.count, 0);
}
