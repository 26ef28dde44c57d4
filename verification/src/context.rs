//! Small decisions of an execution context.
use vstd::prelude::*;

use crate::category::TaskDataCategory;
use crate::ids::{is_transient, transient, TaskId};

verus! {

/// A task that lives only as long as the process.
#[derive(Clone, Copy, PartialEq, Eq, Structural, Debug)]
pub enum TransientTask {
    /// A root task, which runs again whenever it has to.
    Root,
    /// A task that runs once.
    Once,
}

/// Whether `task_id` is a transient task that runs once. Only a transient task is looked up.
pub fn is_once_task<F: FnOnce(TaskId) -> Option<TransientTask>>(
    task_id: TaskId,
    transient_task: F,
) -> (once: bool)
    requires
        transient(task_id) ==> transient_task.requires((task_id,)),
    ensures
        if transient(task_id) {
            exists|found: Option<TransientTask>| #[trigger]
                transient_task.ensures((task_id,), found) && once == (found == Some(
                    TransientTask::Once,
                ))
        } else {
            !once
        },
{
    if !is_transient(task_id) {
        return false;
    }
    match transient_task(task_id) {
        Some(ty) => matches!(ty, TransientTask::Once),
        None => false,
    }
}

/// Asks for the metadata of each of the tasks.
pub fn meta_requests(task_ids: &Vec<TaskId>) -> (requests: Vec<(TaskId, TaskDataCategory)>)
    ensures
        requests@ == task_ids@.map_values(|task_id: TaskId| (task_id, TaskDataCategory::Meta)),
{
    let mut requests: Vec<(TaskId, TaskDataCategory)> = Vec::new();
    let mut i: usize = 0;
    while i < task_ids.len()
        invariant
            i <= task_ids@.len(),
            requests@ =~= task_ids@.take(i as int).map_values(
                |task_id: TaskId| (task_id, TaskDataCategory::Meta),
            ),
        decreases task_ids@.len() - i,
    {
        requests.push((task_ids[i], TaskDataCategory::Meta));
        i += 1;
    }
    assert(task_ids@.take(i as int) =~= task_ids@);
    requests
}

/// Counts the tasks that an operation holds locked.
///
/// An operation that holds a task and locks another one can deadlock, so each lock has to find the
/// count at zero.
#[derive(Clone, Copy, PartialEq, Eq, Structural, Debug)]
pub struct ActiveTaskLocks {
    pub count: u8,
}

impl ActiveTaskLocks {
    /// No task is locked.
    pub fn new() -> (locks: Self)
        ensures
            locks.count == 0,
    {
        ActiveTaskLocks { count: 0 }
    }

    /// Counts `locks` more, and returns the count before.
    fn fetch_add(&mut self, locks: u8) -> (before: u8)
        ensures
            before == old(self).count,
            final(self).count == (old(self).count + locks) % 0x100,
    {
        let before: u8 = self.count;
        self.count = before.wrapping_add(locks);
        before
    }

    /// Counts tasks that are about to be locked. Returns whether they may be: no task was locked
    /// before.
    pub fn acquire(&mut self, locks: u8) -> (allowed: bool)
        ensures
            allowed == (old(self).count == 0),
            final(self).count == (old(self).count + locks) % 0x100,
            allowed ==> final(self).count == locks,
    {
        self.fetch_add(locks) == 0
    }

    /// Counts one more lock on a task that is locked already.
    pub fn keep(&mut self)
        ensures
            final(self).count == (old(self).count + 1) % 0x100,
    {
        self.fetch_add(1);
    }

    /// Counts one lock less.
    pub fn release(&mut self)
        ensures
            final(self).count == (old(self).count + 0xff) % 0x100,
            old(self).count > 0 ==> final(self).count == old(self).count - 1,
    {
        self.fetch_add(0xff);
    }
}

} // verus!
