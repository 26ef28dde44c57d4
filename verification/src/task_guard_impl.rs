//! The access to a task.
use vstd::prelude::*;

use crate::category::{SpecificTaskDataCategory, TaskDataCategory};
use crate::ids::{is_transient, TaskId};
use crate::storage_schema::TaskStorage;
use crate::task_guard::TaskGuard;
use crate::task_storage_accessors::{is_access_granted, GuardState, TaskStorageAccessors};

verus! {

/// A task's storage while it is held for writing, with the modifications that have been noted.
pub struct StorageWriteGuard {
    pub storage: TaskStorage,
    pub modifications: Vec<SpecificTaskDataCategory>,
}

impl StorageWriteGuard {
    /// Holds a storage of which no modification has been noted.
    pub fn new(storage: TaskStorage) -> (guard: Self)
        ensures
            guard.storage == storage,
            guard.modifications@.len() == 0,
    {
        StorageWriteGuard { storage, modifications: Vec::new() }
    }

    /// Notes that data of `category` is modified.
    pub fn track_modification(&mut self, category: SpecificTaskDataCategory)
        ensures
            final(self).storage == old(self).storage,
            final(self).modifications@ == old(self).modifications@.push(category),
    {
        self.modifications.push(category);
    }
}

/// The access to a task.
pub struct TaskGuardImpl {
    pub task_id: TaskId,
    pub task: StorageWriteGuard,
    /// What the access was opened for.
    pub category: TaskDataCategory,
}

impl TaskStorageAccessors for TaskGuardImpl {
    open spec fn guard(&self) -> GuardState {
        GuardState {
            task_id: self.task_id,
            category: self.category,
            notes: self.task.modifications@,
        }
    }

    open spec fn storage(&self) -> TaskStorage {
        self.task.storage
    }

    fn typed(&self) -> (storage: &TaskStorage) {
        &self.task.storage
    }

    fn typed_mut(&mut self) -> (storage: &mut TaskStorage) {
        &mut self.task.storage
    }

    fn track_modification(&mut self, category: SpecificTaskDataCategory) {
        if !is_transient(self.task_id) {
            self.task.track_modification(category);
        }
    }

    fn check_access(&self, category: TaskDataCategory) -> (granted: bool) {
        is_access_granted(self.category, category)
    }
}

impl TaskGuard for TaskGuardImpl {
    fn id(&self) -> (task_id: TaskId) {
        self.task_id
    }
}

/// An access is to the task that it names, for the category that it was opened for, with that task's
/// storage and what has been noted of it.
pub proof fn law_an_access_is_what_it_holds(guard: TaskGuardImpl)
    ensures
        guard.guard().task_id == guard.task_id,
        guard.guard().category == guard.category,
        guard.guard().notes == guard.task.modifications@,
        guard.storage() == guard.task.storage,
{
}

} // verus!
