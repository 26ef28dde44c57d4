//! Accessing a task, or two of them, with their persisted data in place.
//!
//! A task is locked while it is accessed. Persisted data is read with the lock released, so
//! that it does not hold up other tasks: the access is begun with the task's storage, asks for
//! persisted data, and goes on with that data and the storage as it is found once the lock is taken
//! again.
use vstd::prelude::*;

use crate::category::{SpecificTaskDataCategory, TaskDataCategory};
use crate::ids::{is_transient, transient, TaskId};
use crate::storage_schema::{TaskStorage, TaskStorageSchema};
use crate::task_flags::{restored, with_restored, TaskFlag};
use crate::task_guard_impl::{StorageWriteGuard, TaskGuardImpl};

verus! {

/// The storage once persisted data of `category` has been taken over and marked as restored.
pub open spec fn taken_over(
    data: TaskStorageSchema,
    source: TaskStorageSchema,
    category: TaskDataCategory,
) -> TaskStorageSchema {
    let with = data.restored_from(source, category);
    TaskStorageSchema { flags: with_restored(with.flags, category), ..with }
}

/// The storage once persisted data of `category` has been offered: what has been restored in the
/// meantime stays.
pub open spec fn offered(
    data: TaskStorageSchema,
    source: TaskStorageSchema,
    category: TaskDataCategory,
) -> TaskStorageSchema {
    if restored(data.flags, category) {
        data
    } else {
        taken_over(data, source, category)
    }
}

impl StorageWriteGuard {
    /// Takes over persisted data of `category`, unless it has been restored in the meantime.
    pub fn offer(&mut self, source: TaskStorage, category: TaskDataCategory)
        requires
            old(self).storage.wf(),
            source.wf(),
        ensures
            final(self).storage.wf(),
            final(self).storage@ == offered(old(self).storage@, source@, category),
            final(self).modifications == old(self).modifications,
    {
        if !self.storage.flags.is_restored(category) {
            self.storage.restore_from(source, category);
            self.storage.flags.set_restored(category);
        }
    }

    /// Marks everything as restored: there is nothing to restore of a transient task.
    pub fn mark_restored(&mut self)
        requires
            old(self).storage.wf(),
        ensures
            final(self).storage.wf(),
            final(self).storage@ == (TaskStorageSchema {
                flags: with_restored(old(self).storage@.flags, TaskDataCategory::All),
                ..old(self).storage@
            }),
            final(self).modifications == old(self).modifications,
    {
        self.storage.flags.set_restored(TaskDataCategory::All);
    }
}

/// The part to restore first, of those that `category` covers and that have not been restored: the
/// metadata comes before the data.
pub open spec fn first_missing(data: TaskStorageSchema, category: TaskDataCategory) -> Option<
    SpecificTaskDataCategory,
> {
    if category.covers(SpecificTaskDataCategory::Meta) && !restored(
        data.flags,
        TaskDataCategory::Meta,
    ) {
        Some(SpecificTaskDataCategory::Meta)
    } else {
        missing_after(data, category, SpecificTaskDataCategory::Meta)
    }
}

/// The part to restore after `part`.
pub open spec fn missing_after(
    data: TaskStorageSchema,
    category: TaskDataCategory,
    part: SpecificTaskDataCategory,
) -> Option<SpecificTaskDataCategory> {
    if part is Meta && category.covers(SpecificTaskDataCategory::Data) && !restored(
        data.flags,
        TaskDataCategory::Data,
    ) {
        Some(SpecificTaskDataCategory::Data)
    } else {
        None
    }
}

/// An access that waits for persisted data.
#[derive(Clone, Copy, PartialEq, Eq, Structural, Debug)]
pub struct PendingAccess {
    pub task_id: TaskId,
    /// What the access is opened for.
    pub category: TaskDataCategory,
    /// The data that it waits for.
    pub part: SpecificTaskDataCategory,
}

/// How far an access has come.
pub enum TaskAccess {
    /// The task is accessed.
    Ready(TaskGuardImpl),
    /// The lock is to be released, persisted data to be read, and the lock to be taken again.
    Restore(PendingAccess, StorageWriteGuard),
}

/// The state of an access that has gone as far as it can with the task locked.
pub open spec fn access(
    task_id: TaskId,
    category: TaskDataCategory,
    task: StorageWriteGuard,
    missing: Option<SpecificTaskDataCategory>,
) -> TaskAccess {
    match missing {
        Some(part) => TaskAccess::Restore(PendingAccess { task_id, category, part }, task),
        None => TaskAccess::Ready(TaskGuardImpl { task_id, task, category }),
    }
}

impl TaskAccess {
    /// Begins an access to a task that has been locked.
    pub fn begin(task_id: TaskId, category: TaskDataCategory, task: StorageWriteGuard) -> (result:
        TaskAccess)
        requires
            task.storage.wf(),
        ensures
            if !restored(task.storage@.flags, category) && transient(task_id) {
                match result {
                    TaskAccess::Ready(guard) => {
                        &&& guard.task_id == task_id
                        &&& guard.category == category
                        &&& guard.task.storage.wf()
                        &&& guard.task.storage@ == (TaskStorageSchema {
                            flags: with_restored(task.storage@.flags, TaskDataCategory::All),
                            ..task.storage@
                        })
                        &&& guard.task.modifications == task.modifications
                    },
                    TaskAccess::Restore(_, _) => false,
                }
            } else {
                result == access(task_id, category, task, first_missing(task.storage@, category))
            },
            result is Restore <==> !restored(task.storage@.flags, category) && !transient(task_id),
            match result {
                TaskAccess::Ready(guard) => restored(guard.task.storage@.flags, category),
                TaskAccess::Restore(pending, _) => category.covers(pending.part),
            },
    {
        let mut task = task;
        if !task.storage.flags.is_restored(category) {
            if is_transient(task_id) {
                task.mark_restored();
            } else {
                if category.has_part(SpecificTaskDataCategory::Meta)
                    && !task.storage.flags.is_restored(TaskDataCategory::Meta) {
                    let part = SpecificTaskDataCategory::Meta;
                    return TaskAccess::Restore(PendingAccess { task_id, category, part }, task);
                }
                return TaskAccess::after(task_id, category, task, SpecificTaskDataCategory::Meta);
            }
        }
        TaskAccess::Ready(TaskGuardImpl { task_id, task, category })
    }

    /// Goes on with an access: `task` is the task as it has been found with the lock taken again,
    /// `source` the persisted data.
    pub fn resume(pending: PendingAccess, task: StorageWriteGuard, source: TaskStorage) -> (result:
        TaskAccess)
        requires
            task.storage.wf(),
            source.wf(),
        ensures
            ({
                let held = match result {
                    TaskAccess::Ready(guard) => guard.task,
                    TaskAccess::Restore(_, task) => task,
                };
                &&& held.storage.wf()
                &&& held.storage@ == offered(
                    task.storage@,
                    source@,
                    pending.part.as_category(),
                )
                &&& held.modifications == task.modifications
                &&& result == access(
                    pending.task_id,
                    pending.category,
                    held,
                    missing_after(held.storage@, pending.category, pending.part),
                )
                &&& restored(held.storage@.flags, pending.part.as_category())
            }),
            // What had been restored before is so still, unless it was undone with the lock
            // released.
            match result {
                TaskAccess::Ready(guard) => pending.category.covers(pending.part) && (pending.part
                    is Data && pending.category is All ==> restored(
                    task.storage@.flags,
                    TaskDataCategory::Meta,
                )) ==> restored(guard.task.storage@.flags, pending.category),
                TaskAccess::Restore(next, _) => pending.category.covers(next.part) && pending.part
                    is Meta && next.part is Data,
            },
    {
        let mut task = task;
        task.offer(source, pending.part.to_category());
        TaskAccess::after(pending.task_id, pending.category, task, pending.part)
    }

    /// Looks at what is to be restored after `part`.
    fn after(
        task_id: TaskId,
        category: TaskDataCategory,
        task: StorageWriteGuard,
        part: SpecificTaskDataCategory,
    ) -> (result: TaskAccess)
        ensures
            result == access(
                task_id,
                category,
                task,
                missing_after(task.storage@, category, part),
            ),
    {
        if matches!(part, SpecificTaskDataCategory::Meta) && category.has_part(
            SpecificTaskDataCategory::Data,
        ) && !task.storage.flags.is_restored(TaskDataCategory::Data) {
            let part = SpecificTaskDataCategory::Data;
            return TaskAccess::Restore(PendingAccess { task_id, category, part }, task);
        }
        TaskAccess::Ready(TaskGuardImpl { task_id, task, category })
    }
}

/// An access to two tasks that waits for persisted data.
#[derive(Clone, Copy, PartialEq, Eq, Structural, Debug)]
pub struct PendingPairAccess {
    pub task_id1: TaskId,
    pub task_id2: TaskId,
    /// What the access is opened for.
    pub category: TaskDataCategory,
    /// The data that it waits for.
    pub part: SpecificTaskDataCategory,
    /// Whether that data is to be read of the first task.
    pub of_first: bool,
    /// Whether that data is to be read of the second task.
    pub of_second: bool,
}

/// How far an access to two tasks has come.
pub enum TaskPairAccess {
    /// The tasks are accessed.
    Ready(TaskGuardImpl, TaskGuardImpl),
    /// The locks are to be released, persisted data to be read, and the locks to be taken again.
    Restore(PendingPairAccess, StorageWriteGuard, StorageWriteGuard),
}

/// The part of `category` that is restored first.
pub open spec fn first_part(category: TaskDataCategory) -> SpecificTaskDataCategory {
    if category.covers(SpecificTaskDataCategory::Meta) {
        SpecificTaskDataCategory::Meta
    } else {
        SpecificTaskDataCategory::Data
    }
}

/// The storage once persisted data has been offered, where it has been read.
pub open spec fn maybe_offered(
    data: TaskStorageSchema,
    source: Option<TaskStorage>,
    category: TaskDataCategory,
) -> TaskStorageSchema {
    match source {
        Some(source) => offered(data, source@, category),
        None => data,
    }
}

impl TaskPairAccess {
    /// Begins an access to two tasks that have been locked.
    ///
    /// What is to be read is settled here: every part that `category` covers, of each task of which
    /// not all of them have been restored.
    pub fn begin(
        task_id1: TaskId,
        task_id2: TaskId,
        category: TaskDataCategory,
        task1: StorageWriteGuard,
        task2: StorageWriteGuard,
    ) -> (result: TaskPairAccess)
        ensures
            result == ({
                let of_first = !restored(task1.storage@.flags, category);
                let of_second = !restored(task2.storage@.flags, category);
                if of_first || of_second {
                    TaskPairAccess::Restore(
                        PendingPairAccess {
                            task_id1,
                            task_id2,
                            category,
                            part: first_part(category),
                            of_first,
                            of_second,
                        },
                        task1,
                        task2,
                    )
                } else {
                    TaskPairAccess::Ready(
                        TaskGuardImpl { task_id: task_id1, task: task1, category },
                        TaskGuardImpl { task_id: task_id2, task: task2, category },
                    )
                }
            }),
            match result {
                TaskPairAccess::Ready(guard1, guard2) => {
                    &&& restored(guard1.task.storage@.flags, category)
                    &&& restored(guard2.task.storage@.flags, category)
                },
                TaskPairAccess::Restore(pending, _, _) => category.covers(pending.part),
            },
    {
        let is_restored1 = task1.storage.flags.is_restored(category);
        let is_restored2 = task2.storage.flags.is_restored(category);
        if !is_restored1 || !is_restored2 {
            let part = if category.has_part(SpecificTaskDataCategory::Meta) {
                SpecificTaskDataCategory::Meta
            } else {
                SpecificTaskDataCategory::Data
            };
            let pending = PendingPairAccess {
                task_id1,
                task_id2,
                category,
                part,
                of_first: !is_restored1,
                of_second: !is_restored2,
            };
            return TaskPairAccess::Restore(pending, task1, task2);
        }
        TaskPairAccess::Ready(
            TaskGuardImpl { task_id: task_id1, task: task1, category },
            TaskGuardImpl { task_id: task_id2, task: task2, category },
        )
    }

    /// Goes on with an access: `task1` and `task2` are the tasks as they have been found with the
    /// locks taken again, `source1` and `source2` the persisted data that was asked for.
    ///
    /// A task whose data was not asked for has it restored still.
    pub fn resume(
        pending: PendingPairAccess,
        task1: StorageWriteGuard,
        task2: StorageWriteGuard,
        source1: Option<TaskStorage>,
        source2: Option<TaskStorage>,
    ) -> (result: TaskPairAccess)
        requires
            task1.storage.wf(),
            task2.storage.wf(),
            source1 matches Some(source) ==> source.wf(),
            source2 matches Some(source) ==> source.wf(),
            source1 is Some <==> pending.of_first,
            source2 is Some <==> pending.of_second,
            restored(task1.storage@.flags, pending.part.as_category()) || source1 is Some,
            restored(task2.storage@.flags, pending.part.as_category()) || source2 is Some,
        ensures
            ({
                let (held1, held2) = match result {
                    TaskPairAccess::Ready(guard1, guard2) => (guard1.task, guard2.task),
                    TaskPairAccess::Restore(_, task1, task2) => (task1, task2),
                };
                let category = pending.part.as_category();
                &&& held1.storage.wf()
                &&& held1.storage@ == maybe_offered(task1.storage@, source1, category)
                &&& held1.modifications == task1.modifications
                &&& held2.storage.wf()
                &&& held2.storage@ == maybe_offered(task2.storage@, source2, category)
                &&& held2.modifications == task2.modifications
                &&& restored(held1.storage@.flags, category)
                &&& restored(held2.storage@.flags, category)
                &&& result == (if pending.part is Meta && pending.category is All {
                    TaskPairAccess::Restore(
                        PendingPairAccess { part: SpecificTaskDataCategory::Data, ..pending },
                        held1,
                        held2,
                    )
                } else {
                    TaskPairAccess::Ready(
                        TaskGuardImpl {
                            task_id: pending.task_id1,
                            task: held1,
                            category: pending.category,
                        },
                        TaskGuardImpl {
                            task_id: pending.task_id2,
                            task: held2,
                            category: pending.category,
                        },
                    )
                })
            }),
            // What had been restored before is so still, unless it was undone with the locks
            // released.
            match result {
                TaskPairAccess::Ready(guard1, guard2) => pending.category.covers(pending.part) && (
                pending.part is Data && pending.category is All ==> restored(
                    task1.storage@.flags,
                    TaskDataCategory::Meta,
                ) && restored(task2.storage@.flags, TaskDataCategory::Meta)) ==> restored(
                    guard1.task.storage@.flags,
                    pending.category,
                ) && restored(guard2.task.storage@.flags, pending.category),
                TaskPairAccess::Restore(next, _, _) => pending.category.covers(next.part),
            },
    {
        let category = pending.part.to_category();
        let mut task1 = task1;
        let mut task2 = task2;
        if let Some(source) = source1 {
            task1.offer(source, category);
        }
        if let Some(source) = source2 {
            task2.offer(source, category);
        }
        if matches!(pending.part, SpecificTaskDataCategory::Meta) && matches!(
            pending.category,
            TaskDataCategory::All
        ) {
            let part = SpecificTaskDataCategory::Data;
            return TaskPairAccess::Restore(
                PendingPairAccess { part, ..pending },
                task1,
                task2,
            );
        }
        TaskPairAccess::Ready(
            TaskGuardImpl { task_id: pending.task_id1, task: task1, category: pending.category },
            TaskGuardImpl { task_id: pending.task_id2, task: task2, category: pending.category },
        )
    }
}

/// Of two offers of the same part only the first counts, and it leaves the part restored.
pub proof fn law_first_offer_wins(
    data: TaskStorageSchema,
    first: TaskStorageSchema,
    second: TaskStorageSchema,
    category: TaskDataCategory,
)
    ensures
        restored(offered(data, first, category).flags, category),
        offered(offered(data, first, category), second, category) == offered(
            data,
            first,
            category,
        ),
{
}

/// Where everything is offered part by part, the order of the parts does not matter, and it comes
/// to taking over everything at once where nothing had been restored.
pub proof fn law_offering_part_by_part(data: TaskStorageSchema, source: TaskStorageSchema)
    ensures
        offered(offered(data, source, TaskDataCategory::Meta), source, TaskDataCategory::Data)
            == offered(
            offered(data, source, TaskDataCategory::Data),
            source,
            TaskDataCategory::Meta,
        ),
        !restored(data.flags, TaskDataCategory::Meta) && !restored(
            data.flags,
            TaskDataCategory::Data,
        ) ==> offered(
            offered(data, source, TaskDataCategory::Meta),
            source,
            TaskDataCategory::Data,
        ) == offered(data, source, TaskDataCategory::All),
{
    let meta = offered(data, source, TaskDataCategory::Meta);
    let data_first = offered(data, source, TaskDataCategory::Data);
    let a = offered(meta, source, TaskDataCategory::Data);
    let b = offered(data_first, source, TaskDataCategory::Meta);
    assert(a.flags =~= b.flags);
    let all = offered(data, source, TaskDataCategory::All);
    if !restored(data.flags, TaskDataCategory::Meta) && !restored(
        data.flags,
        TaskDataCategory::Data,
    ) {
        assert(a.flags =~= all.flags);
    }
}

/// The storage once an access has been begun, and gone on with what was read, until it is ready.
pub open spec fn accessed(
    data: TaskStorageSchema,
    meta_source: TaskStorageSchema,
    data_source: TaskStorageSchema,
    category: TaskDataCategory,
) -> TaskStorageSchema {
    match first_missing(data, category) {
        None => data,
        Some(SpecificTaskDataCategory::Data) => offered(data, data_source, TaskDataCategory::Data),
        Some(SpecificTaskDataCategory::Meta) => {
            let with = offered(data, meta_source, TaskDataCategory::Meta);
            match missing_after(with, category, SpecificTaskDataCategory::Meta) {
                None => with,
                Some(part) => offered(with, data_source, part.as_category()),
            }
        },
    }
}

/// A task that nobody else touches is accessed with all that the access is for in place: each part
/// that it is for and that had been missing holds, field by field, what was read of it; all else is
/// as it was.
pub proof fn law_an_access_puts_what_is_read_in_place(
    data: TaskStorageSchema,
    meta_source: TaskStorageSchema,
    data_source: TaskStorageSchema,
    category: TaskDataCategory,
    flag: TaskFlag,
)
    ensures
        ({
            // the metadata, field by field
            let last = accessed(data, meta_source, data_source, category);
            let from = if category != TaskDataCategory::Data && !data.flags.contains(
                TaskFlag::MetaRestored,
            ) {
                meta_source
            } else {
                data
            };
            &&& last.aggregation_number == from.aggregation_number
            &&& last.output == from.output
            &&& last.upper == from.upper
            &&& last.collectibles == from.collectibles
            &&& last.aggregated_collectibles == from.aggregated_collectibles
            &&& last.dirty == from.dirty
            &&& last.aggregated_dirty_container_count == from.aggregated_dirty_container_count
            &&& last.aggregated_dirty_containers == from.aggregated_dirty_containers
            &&& last.children == from.children
            &&& last.followers == from.followers
            &&& last.collectibles_dependents == from.collectibles_dependents
            &&& last.flags.contains(TaskFlag::Invalidator) == from.flags.contains(
                TaskFlag::Invalidator,
            )
            &&& last.flags.contains(TaskFlag::Immutable) == from.flags.contains(TaskFlag::Immutable)
        }),
        ({
            // the data, field by field
            let last = accessed(data, meta_source, data_source, category);
            let from = if category != TaskDataCategory::Meta && !data.flags.contains(
                TaskFlag::DataRestored,
            ) {
                data_source
            } else {
                data
            };
            &&& last.output_dependent == from.output_dependent
            &&& last.output_dependencies == from.output_dependencies
            &&& last.cell_dependencies == from.cell_dependencies
            &&& last.collectibles_dependencies == from.collectibles_dependencies
            &&& last.cell_dependents == from.cell_dependents
            &&& last.cell_data == from.cell_data
            &&& last.cell_type_max_index == from.cell_type_max_index
        }),
        ({
            // what is never persisted
            let last = accessed(data, meta_source, data_source, category);
            &&& last.outdated_collectibles == data.outdated_collectibles
            &&& last.aggregated_current_session_clean_container_count == data.aggregated_current_session_clean_container_count
            &&& last.aggregated_current_session_clean_containers == data.aggregated_current_session_clean_containers
            &&& last.outdated_output_dependencies == data.outdated_output_dependencies
            &&& last.outdated_cell_dependencies == data.outdated_cell_dependencies
            &&& last.outdated_collectibles_dependencies == data.outdated_collectibles_dependencies
            &&& last.transient_cell_data == data.transient_cell_data
            &&& last.activeness == data.activeness
            &&& last.in_progress == data.in_progress
            &&& last.in_progress_cells == data.in_progress_cells
            &&& last.flags.contains(TaskFlag::MetaRestored) <==> data.flags.contains(
                TaskFlag::MetaRestored,
            ) || category != TaskDataCategory::Data
            &&& last.flags.contains(TaskFlag::DataRestored) <==> data.flags.contains(
                TaskFlag::DataRestored,
            ) || category != TaskDataCategory::Meta
            &&& flag != TaskFlag::MetaRestored && flag != TaskFlag::DataRestored && flag
                != TaskFlag::Invalidator && flag != TaskFlag::Immutable
                ==> last.flags.contains(flag) == data.flags.contains(flag)
        }),
{
}

/// Of a pair of tasks each is accessed likewise: what has been read of a part goes where that part
/// had been missing, field by field, and all else is as it was.
pub proof fn law_an_access_to_a_pair_puts_what_is_read_in_place(
    data: TaskStorageSchema,
    meta_read: TaskStorage,
    data_read: TaskStorage,
    category: TaskDataCategory,
    flag: TaskFlag,
)
    ensures
        ({
            let meta_source = meta_read@;
            let data_source = data_read@;
            let one = maybe_offered(
                data,
                Some(
                    if first_part(category) is Meta {
                        meta_read
                    } else {
                        data_read
                    },
                ),
                first_part(category).as_category(),
            );
            let both = if category is All {
                maybe_offered(one, Some(data_read), TaskDataCategory::Data)
            } else {
                one
            };
            let meta_from = if category != TaskDataCategory::Data && !data.flags.contains(
                TaskFlag::MetaRestored,
            ) {
                meta_source
            } else {
                data
            };
            let data_from = if category != TaskDataCategory::Meta && !data.flags.contains(
                TaskFlag::DataRestored,
            ) {
                data_source
            } else {
                data
            };
            &&& both.aggregation_number == meta_from.aggregation_number
            &&& both.output == meta_from.output
            &&& both.upper == meta_from.upper
            &&& both.collectibles == meta_from.collectibles
            &&& both.aggregated_collectibles == meta_from.aggregated_collectibles
            &&& both.dirty == meta_from.dirty
            &&& both.aggregated_dirty_container_count == meta_from.aggregated_dirty_container_count
            &&& both.aggregated_dirty_containers == meta_from.aggregated_dirty_containers
            &&& both.children == meta_from.children
            &&& both.followers == meta_from.followers
            &&& both.collectibles_dependents == meta_from.collectibles_dependents
            &&& both.output_dependent == data_from.output_dependent
            &&& both.output_dependencies == data_from.output_dependencies
            &&& both.cell_dependencies == data_from.cell_dependencies
            &&& both.collectibles_dependencies == data_from.collectibles_dependencies
            &&& both.cell_dependents == data_from.cell_dependents
            &&& both.cell_data == data_from.cell_data
            &&& both.cell_type_max_index == data_from.cell_type_max_index
            &&& both.outdated_collectibles == data.outdated_collectibles
            &&& both.aggregated_current_session_clean_container_count == data.aggregated_current_session_clean_container_count
            &&& both.aggregated_current_session_clean_containers == data.aggregated_current_session_clean_containers
            &&& both.outdated_output_dependencies == data.outdated_output_dependencies
            &&& both.outdated_cell_dependencies == data.outdated_cell_dependencies
            &&& both.outdated_collectibles_dependencies == data.outdated_collectibles_dependencies
            &&& both.transient_cell_data == data.transient_cell_data
            &&& both.activeness == data.activeness
            &&& both.in_progress == data.in_progress
            &&& both.in_progress_cells == data.in_progress_cells
            &&& both.flags.contains(TaskFlag::Invalidator) == meta_from.flags.contains(
                TaskFlag::Invalidator,
            )
            &&& both.flags.contains(TaskFlag::Immutable) == meta_from.flags.contains(
                TaskFlag::Immutable,
            )
            &&& both.flags.contains(TaskFlag::MetaRestored) <==> data.flags.contains(
                TaskFlag::MetaRestored,
            ) || category != TaskDataCategory::Data
            &&& both.flags.contains(TaskFlag::DataRestored) <==> data.flags.contains(
                TaskFlag::DataRestored,
            ) || category != TaskDataCategory::Meta
            &&& flag != TaskFlag::MetaRestored && flag != TaskFlag::DataRestored && flag
                != TaskFlag::Invalidator && flag != TaskFlag::Immutable
                ==> both.flags.contains(flag) == data.flags.contains(flag)
        }),
        maybe_offered(data, None, category) == data,
{
}

/// What is offered of a part that had been missing is in place afterwards, field by field, and
/// nothing else is touched; what is offered of a part that had been restored is not taken.
pub proof fn law_what_is_offered_is_in_place(
    data: TaskStorageSchema,
    source: TaskStorageSchema,
    category: TaskDataCategory,
    flag: TaskFlag,
)
    ensures
        ({
            let after = offered(data, source, category);
            let had_meta = data.flags.contains(TaskFlag::MetaRestored) || category
                == TaskDataCategory::Data;
            let had_data = data.flags.contains(TaskFlag::DataRestored) || category
                == TaskDataCategory::Meta;
            if had_meta && had_data {
                after == data
            } else {
                let meta_from = if category == TaskDataCategory::Data {
                    data
                } else {
                    source
                };
                let data_from = if category == TaskDataCategory::Meta {
                    data
                } else {
                    source
                };
                &&& after.aggregation_number == meta_from.aggregation_number
                &&& after.output == meta_from.output
                &&& after.upper == meta_from.upper
                &&& after.collectibles == meta_from.collectibles
                &&& after.aggregated_collectibles == meta_from.aggregated_collectibles
                &&& after.dirty == meta_from.dirty
                &&& after.aggregated_dirty_container_count == meta_from.aggregated_dirty_container_count
                &&& after.aggregated_dirty_containers == meta_from.aggregated_dirty_containers
                &&& after.children == meta_from.children
                &&& after.followers == meta_from.followers
                &&& after.collectibles_dependents == meta_from.collectibles_dependents
                &&& after.output_dependent == data_from.output_dependent
                &&& after.output_dependencies == data_from.output_dependencies
                &&& after.cell_dependencies == data_from.cell_dependencies
                &&& after.collectibles_dependencies == data_from.collectibles_dependencies
                &&& after.cell_dependents == data_from.cell_dependents
                &&& after.cell_data == data_from.cell_data
                &&& after.cell_type_max_index == data_from.cell_type_max_index
                &&& after.outdated_collectibles == data.outdated_collectibles
                &&& after.aggregated_current_session_clean_container_count == data.aggregated_current_session_clean_container_count
                &&& after.aggregated_current_session_clean_containers == data.aggregated_current_session_clean_containers
                &&& after.outdated_output_dependencies == data.outdated_output_dependencies
                &&& after.outdated_cell_dependencies == data.outdated_cell_dependencies
                &&& after.outdated_collectibles_dependencies == data.outdated_collectibles_dependencies
                &&& after.transient_cell_data == data.transient_cell_data
                &&& after.activeness == data.activeness
                &&& after.in_progress == data.in_progress
                &&& after.in_progress_cells == data.in_progress_cells
                &&& after.flags.contains(flag) <==> (if flag == TaskFlag::Invalidator || flag
                    == TaskFlag::Immutable {
                    meta_from.flags.contains(flag)
                } else {
                    data.flags.contains(flag) || flag == TaskFlag::MetaRestored && category
                        != TaskDataCategory::Data || flag == TaskFlag::DataRestored && category
                        != TaskDataCategory::Meta
                })
            }
        }),
        taken_over(data, source, category) == offered(data, source, category) || (data.flags.contains(
            TaskFlag::MetaRestored,
        ) || category == TaskDataCategory::Data) && (data.flags.contains(TaskFlag::DataRestored)
            || category == TaskDataCategory::Meta),
{
}

/// An access asks for the metadata first where that is missing, then for the data where that is,
/// each only if the access is for it, and is ready where nothing is missing. It asks for the task
/// and the category that it is for, and hands over the task as it is.
pub proof fn law_an_access_asks_for_what_is_missing(
    task_id: TaskId,
    category: TaskDataCategory,
    task: StorageWriteGuard,
    part: SpecificTaskDataCategory,
    missing: Option<SpecificTaskDataCategory>,
)
    ensures
        ({
            let flags = task.storage@.flags;
            let no_meta = category != TaskDataCategory::Data && !flags.contains(
                TaskFlag::MetaRestored,
            );
            let no_data = category != TaskDataCategory::Meta && !flags.contains(
                TaskFlag::DataRestored,
            );
            &&& first_missing(task.storage@, category) == Some(SpecificTaskDataCategory::Meta)
                <==> no_meta
            &&& first_missing(task.storage@, category) == Some(SpecificTaskDataCategory::Data)
                <==> !no_meta && no_data
            &&& missing_after(task.storage@, category, part) is Some <==> part
                == SpecificTaskDataCategory::Meta && no_data
            &&& missing_after(task.storage@, category, part) matches Some(next) ==> next
                == SpecificTaskDataCategory::Data
        }),
        match access(task_id, category, task, missing) {
            TaskAccess::Ready(guard) => {
                &&& missing is None
                &&& guard.task_id == task_id
                &&& guard.category == category
                &&& guard.task == task
            },
            TaskAccess::Restore(pending, held) => {
                &&& missing == Some(pending.part)
                &&& pending.task_id == task_id
                &&& pending.category == category
                &&& held == task
            },
        },
        first_part(category) == SpecificTaskDataCategory::Data <==> category
            == TaskDataCategory::Data,
{
}

} // verus!
