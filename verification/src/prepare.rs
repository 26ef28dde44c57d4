//! Preparing a list of tasks: fetching what is missing of them from persistent storage, and
//! handing each of them to a callback.
//!
//! Reading persisted data for several tasks at once is cheaper than one by one. So the tasks are
//! first looked at, those with nothing missing are handed over, the missing data of the others is
//! read in bulk, and then they are handed over as well. [`TaskPreparation`] says what is to be done
//! next and is told of what came of it.
use vstd::prelude::*;

use crate::category::{SpecificTaskDataCategory, TaskDataCategory};
use crate::ids::{is_transient, transient, TaskId};
use crate::storage_schema::{
    same_data, same_meta, same_transient, TaskStorage, TaskStorageSchema,
};
use crate::task_access::maybe_offered;
use crate::task_flags::{restored, with_restored, TaskFlag};
use crate::task_guard_impl::StorageWriteGuard;

verus! {

/// A task that is prepared, with the persisted data that has been read for it.
pub struct PreparedTask {
    pub task_id: TaskId,
    pub category: TaskDataCategory,
    pub data: Option<TaskStorage>,
    pub meta: Option<TaskStorage>,
}

impl PreparedTask {
    /// Whether persisted data has been read for the task.
    pub open spec fn has_storage(self) -> bool {
        self.data is Some || self.meta is Some
    }

    /// No lazy field is kept twice in what has been read.
    pub open spec fn wf(self) -> bool {
        &&& self.data matches Some(storage) ==> storage.wf()
        &&& self.meta matches Some(storage) ==> storage.wf()
    }

    /// What was asked for.
    pub open spec fn request(self) -> (TaskId, TaskDataCategory) {
        (self.task_id, self.category)
    }
}

/// How far a preparation has come.
#[derive(Clone, Copy, PartialEq, Eq, Structural, Debug)]
pub enum PreparePhase {
    /// A transient task is to be opened.
    Transient(usize),
    /// A task is to be opened and looked at.
    Inspect(usize),
    /// Missing data is to be read.
    RestoreData,
    /// Missing metadata is to be read.
    RestoreMeta,
    /// A task is to be opened for what has been read for it.
    Merge(usize),
    /// Nothing is left to do.
    Done,
}

/// What is to be done next.
pub enum PrepareStep {
    /// Lock the task, call [`TaskPreparation::opened`], and hand the task to the callback if that
    /// says so.
    Open(TaskId),
    /// Read persisted data of one task, and call [`TaskPreparation::loaded_single`].
    LoadSingle(TaskId, TaskDataCategory),
    /// Read persisted data of several tasks, and call [`TaskPreparation::loaded_batch`].
    LoadBatch(Vec<TaskId>, TaskDataCategory),
    /// Nothing.
    Done,
}

/// The preparation of a list of tasks.
pub struct TaskPreparation {
    /// The transient tasks to hand over.
    pub transient: Vec<(TaskId, TaskDataCategory)>,
    /// The other tasks.
    pub tasks: Vec<PreparedTask>,
    /// Which of the tasks miss their data.
    pub data_indices: Vec<usize>,
    /// Which of the tasks miss their metadata.
    pub meta_indices: Vec<usize>,
    pub phase: PreparePhase,
    /// Which transient tasks have been handed over, in order.
    pub transient_called: Ghost<Seq<int>>,
    /// Which of the other tasks have been handed over, in order.
    pub called: Ghost<Seq<int>>,
    /// For which tasks persisted data has been read.
    pub loaded: Ghost<Set<int>>,
    /// Whether persisted data was read for fewer tasks than it was asked for.
    pub fell_short: Ghost<bool>,
}

/// Whether `k` is among the indices.
pub open spec fn has_index(indices: Seq<usize>, k: int) -> bool {
    exists|m: int| 0 <= m < indices.len() && #[trigger] indices[m] == k
}

/// The numbers below `n` that are in `set`, in order.
pub open spec fn ascending(n: int, set: Set<int>) -> Seq<int>
    decreases n,
{
    if n <= 0 {
        Seq::empty()
    } else if set.contains(n - 1) {
        ascending(n - 1, set).push(n - 1)
    } else {
        ascending(n - 1, set)
    }
}

/// The numbers below `n`, in order.
pub open spec fn counting(n: int) -> Seq<int> {
    Seq::new(n as nat, |i: int| i)
}

/// What [`ascending`] holds.
pub proof fn lemma_ascending(n: int, set: Set<int>)
    requires
        0 <= n,
    ensures
        ascending(n, set).no_duplicates(),
        forall|k: int| #[trigger]
            ascending(n, set).contains(k) <==> 0 <= k < n && set.contains(k),
    decreases n,
{
    if n > 0 {
        lemma_ascending(n - 1, set);
        let rest = ascending(n - 1, set);
        let all = ascending(n, set);
        if set.contains(n - 1) {
            assert(!rest.contains(n - 1));
            assert forall|k: int| #[trigger] all.contains(k) <==> 0 <= k < n && set.contains(k) by {
                if all.contains(k) {
                    let i = choose|i: int| 0 <= i < all.len() && all[i] == k;
                    if i < rest.len() {
                        assert(rest[i] == k);
                        assert(rest.contains(k));
                    }
                }
                if 0 <= k < n && set.contains(k) {
                    if k == n - 1 {
                        assert(all[rest.len() as int] == k);
                    } else {
                        assert(rest.contains(k));
                        let i = choose|i: int| 0 <= i < rest.len() && rest[i] == k;
                        assert(all[i] == k);
                    }
                }
            }
        }
    }
}

/// Only the numbers below `n` count.
proof fn lemma_ascending_same(n: int, set: Set<int>, other: Set<int>)
    requires
        forall|k: int| 0 <= k < n ==> set.contains(k) == other.contains(k),
    ensures
        ascending(n, set) == ascending(n, other),
    decreases n,
{
    if n > 0 {
        lemma_ascending_same(n - 1, set, other);
    }
}

/// Numbers that are not in the set are passed over.
proof fn lemma_ascending_gap(m: int, n: int, set: Set<int>)
    requires
        m <= n,
        forall|k: int| m <= k < n && 0 <= k ==> !set.contains(k),
    ensures
        ascending(n, set) == ascending(m, set),
    decreases n - m,
{
    if m < n {
        lemma_ascending_gap(m, n - 1, set);
    }
}

/// The indices are in order and below `limit`, and point at tasks that are asked for `part`.
pub open spec fn indices_wf(
    indices: Seq<usize>,
    tasks: Seq<PreparedTask>,
    limit: int,
    part: SpecificTaskDataCategory,
) -> bool {
    &&& forall|m: int|
        0 <= m < indices.len() ==> (#[trigger] indices[m]) < limit
            && tasks[indices[m] as int].category.covers(part)
    &&& forall|m: int, l: int|
        0 <= m < l < indices.len() ==> (#[trigger] indices[m]) < (#[trigger] indices[l])
}

/// Whether data of a part is missing that is asked for.
pub open spec fn misses(
    data: TaskStorageSchema,
    category: TaskDataCategory,
    part: SpecificTaskDataCategory,
) -> bool {
    category.covers(part) && !restored(data.flags, part.as_category())
}

impl TaskPreparation {
    /// Whether something is missing of a task.
    pub open spec fn pending(self, k: int) -> bool {
        has_index(self.data_indices@, k) || has_index(self.meta_indices@, k)
    }

    /// The tasks of which nothing is missing, of those that have been looked at.
    pub open spec fn ready(self) -> Set<int> {
        Set::new(|k: int| !self.pending(k))
    }

    /// Whether persisted data has been read for every task of which something is missing.
    pub open spec fn complete(self) -> bool {
        forall|k: int| #[trigger] self.pending(k) ==> self.loaded@.contains(k)
    }

    /// The tasks for which persisted data is asked for.
    pub open spec fn indices_to_load(self) -> Seq<usize> {
        match self.phase {
            PreparePhase::RestoreData => self.data_indices@,
            PreparePhase::RestoreMeta => self.meta_indices@,
            _ => Seq::empty(),
        }
    }

    /// The tasks that are asked for, but the transient ones.
    pub open spec fn requests(self) -> Seq<(TaskId, TaskDataCategory)> {
        self.tasks@.map_values(|task: PreparedTask| task.request())
    }

    /// A bound on the number of steps that are left.
    pub open spec fn steps_left(self) -> nat {
        let n = self.tasks@.len() as int;
        match self.phase {
            PreparePhase::Transient(i) => (self.transient@.len() - i + 2 * n + 3) as nat,
            PreparePhase::Inspect(i) => (n - i + n + 3) as nat,
            PreparePhase::RestoreData => (n + 2) as nat,
            PreparePhase::RestoreMeta => (n + 1) as nat,
            PreparePhase::Merge(i) => (n - i) as nat,
            PreparePhase::Done => 0,
        }
    }

    /// What holds between any two steps.
    pub open spec fn wf(self) -> bool {
        let n = self.tasks@.len() as int;
        let t = self.transient@.len() as int;
        &&& forall|k: int| 0 <= k < n ==> (#[trigger] self.tasks@[k]).wf()
        &&& indices_wf(self.data_indices@, self.tasks@, n, SpecificTaskDataCategory::Data)
        &&& indices_wf(self.meta_indices@, self.tasks@, n, SpecificTaskDataCategory::Meta)
        &&& forall|k: int|
            0 <= k < n && (#[trigger] self.tasks@[k]).data is Some ==> has_index(
                self.data_indices@,
                k,
            )
        &&& forall|k: int|
            0 <= k < n && (#[trigger] self.tasks@[k]).meta is Some ==> has_index(
                self.meta_indices@,
                k,
            )
        &&& forall|k: int| #[trigger]
            self.loaded@.contains(k) ==> 0 <= k < n && self.pending(k)
        &&& match self.phase {
            PreparePhase::Transient(i) => {
                &&& i < t
                &&& !self.fell_short@
                &&& self.data_indices@.len() == 0
                &&& self.meta_indices@.len() == 0
                &&& self.loaded@ == Set::<int>::empty()
                &&& self.transient_called@ == counting(i as int)
                &&& self.called@ == Seq::<int>::empty()
            },
            PreparePhase::Inspect(i) => {
                &&& i < n
                &&& !self.fell_short@
                &&& indices_wf(
                    self.data_indices@,
                    self.tasks@,
                    i as int,
                    SpecificTaskDataCategory::Data,
                )
                &&& indices_wf(
                    self.meta_indices@,
                    self.tasks@,
                    i as int,
                    SpecificTaskDataCategory::Meta,
                )
                &&& forall|k: int| 0 <= k < n ==> !(#[trigger] self.tasks@[k]).has_storage()
                &&& self.loaded@ == Set::<int>::empty()
                &&& self.transient_called@ == counting(t)
                &&& self.called@ == ascending(i as int, self.ready())
            },
            PreparePhase::RestoreData => {
                &&& self.data_indices@.len() > 0
                &&& !self.fell_short@
                &&& forall|k: int| 0 <= k < n ==> !(#[trigger] self.tasks@[k]).has_storage()
                &&& self.loaded@ == Set::<int>::empty()
                &&& self.transient_called@ == counting(t)
                &&& self.called@ == ascending(n, self.ready())
            },
            PreparePhase::RestoreMeta => {
                &&& self.meta_indices@.len() > 0
                &&& forall|k: int| 0 <= k < n ==> (#[trigger] self.tasks@[k]).meta is None
                &&& !self.fell_short@ ==> forall|k: int|
                    0 <= k < n && has_index(self.data_indices@, k) ==> (
                    #[trigger] self.tasks@[k]).data is Some
                &&& self.loaded@ == Set::<int>::empty()
                &&& self.transient_called@ == counting(t)
                &&& self.called@ == ascending(n, self.ready())
            },
            PreparePhase::Merge(i) => {
                &&& i < n
                &&& !self.fell_short@ ==> self.complete()
                &&& self.tasks@[i as int].has_storage()
                &&& forall|k: int|
                    i <= k < n ==> (#[trigger] self.tasks@[k]).has_storage()
                        == self.loaded@.contains(k)
                &&& !self.fell_short@ ==> forall|k: int|
                    i <= k < n ==> (has_index(self.data_indices@, k) ==> (
                    #[trigger] self.tasks@[k]).data is Some) && (has_index(self.meta_indices@, k)
                        ==> self.tasks@[k].meta is Some)
                &&& self.transient_called@ == counting(t)
                &&& self.called@ == ascending(n, self.ready()) + ascending(i as int, self.loaded@)
            },
            PreparePhase::Done => {
                &&& !self.fell_short@ ==> self.complete()
                &&& self.transient_called@ == counting(t)
                &&& self.called@ == ascending(n, self.ready()) + ascending(n, self.loaded@)
            },
        }
    }
}

/// Where the tasks that are not transient are turned to.
pub open spec fn inspect_start(tasks: nat) -> PreparePhase {
    if tasks > 0 {
        PreparePhase::Inspect(0)
    } else {
        PreparePhase::Done
    }
}

/// What comes once every task has been looked at: nothing, if nothing is missing.
pub open spec fn after_inspection(data: nat, meta: nat) -> PreparePhase {
    if data > 0 {
        PreparePhase::RestoreData
    } else if meta > 0 {
        PreparePhase::RestoreMeta
    } else {
        PreparePhase::Done
    }
}

/// Whether `phase` turns to the first task, from the one at `i` on, for which persisted data has
/// been read.
pub open spec fn merges_next(tasks: Seq<PreparedTask>, i: int, phase: PreparePhase) -> bool {
    match phase {
        PreparePhase::Merge(k) => {
            &&& i <= k < tasks.len()
            &&& tasks[k as int].has_storage()
            &&& forall|j: int| i <= j < k ==> !(#[trigger] tasks[j]).has_storage()
        },
        PreparePhase::Done => forall|j: int|
            i <= j < tasks.len() ==> !(#[trigger] tasks[j]).has_storage(),
        _ => false,
    }
}

/// The transient ones of the tasks that are asked for.
pub open spec fn transient_requests(
    requests: Seq<(TaskId, TaskDataCategory)>,
) -> Seq<(TaskId, TaskDataCategory)> {
    requests.filter(|request: (TaskId, TaskDataCategory)| transient(request.0))
}

/// The others.
pub open spec fn persistent_requests(
    requests: Seq<(TaskId, TaskDataCategory)>,
) -> Seq<(TaskId, TaskDataCategory)> {
    requests.filter(|request: (TaskId, TaskDataCategory)| !transient(request.0))
}

/// Whether `preparation` is what the preparation of the tasks that are asked for begins with.
pub open spec fn begins(
    preparation: TaskPreparation,
    requests: Seq<(TaskId, TaskDataCategory)>,
    call_for_transient_tasks: bool,
) -> bool {
    &&& preparation.transient@ == (if call_for_transient_tasks {
        transient_requests(requests)
    } else {
        Seq::empty()
    })
    &&& preparation.requests() == persistent_requests(requests)
    &&& preparation.data_indices@.len() == 0
    &&& preparation.meta_indices@.len() == 0
    &&& !preparation.fell_short@
    &&& preparation.phase == (if preparation.transient@.len() > 0 {
        PreparePhase::Transient(0)
    } else {
        inspect_start(preparation.tasks@.len())
    })
}

/// One more task that is asked for.
proof fn lemma_requests_next(requests: Seq<(TaskId, TaskDataCategory)>, i: int)
    requires
        0 <= i < requests.len(),
    ensures
        transient_requests(requests.take(i + 1)) == (if transient(requests[i].0) {
            transient_requests(requests.take(i)).push(requests[i])
        } else {
            transient_requests(requests.take(i))
        }),
        persistent_requests(requests.take(i + 1)) == (if transient(requests[i].0) {
            persistent_requests(requests.take(i))
        } else {
            persistent_requests(requests.take(i)).push(requests[i])
        }),
{
    reveal(Seq::filter);
    assert(requests.take(i + 1).drop_last() =~= requests.take(i));
    assert(requests.take(i + 1).last() == requests[i]);
}

impl TaskPreparation {
    /// Prepares the tasks that are asked for. Transient tasks, of which nothing is persisted, are
    /// handed to the callback only if that is wanted.
    pub fn new(
        task_ids: &Vec<(TaskId, TaskDataCategory)>,
        call_prepared_task_callback_for_transient_tasks: bool,
    ) -> (preparation: Self)
        ensures
            preparation.wf(),
            begins(
                preparation,
                task_ids@,
                call_prepared_task_callback_for_transient_tasks,
            ),
    {
        let mut transient: Vec<(TaskId, TaskDataCategory)> = Vec::new();
        let mut tasks: Vec<PreparedTask> = Vec::new();
        let mut i: usize = 0;
        proof {
            reveal(Seq::filter);
        }
        while i < task_ids.len()
            invariant
                i <= task_ids@.len(),
                transient@ == (if call_prepared_task_callback_for_transient_tasks {
                    transient_requests(task_ids@.take(i as int))
                } else {
                    Seq::empty()
                }),
                tasks@.map_values(|task: PreparedTask| task.request()) =~= persistent_requests(
                    task_ids@.take(i as int),
                ),
                forall|k: int|
                    0 <= k < tasks@.len() ==> (#[trigger] tasks@[k]).wf()
                        && !tasks@[k].has_storage(),
            decreases task_ids@.len() - i,
        {
            let (task_id, category) = task_ids[i];
            let ghost before = tasks@;
            proof {
                lemma_requests_next(task_ids@, i as int);
            }
            if is_transient(task_id) {
                if call_prepared_task_callback_for_transient_tasks {
                    transient.push((task_id, category));
                }
            } else {
                tasks.push(PreparedTask { task_id, category, data: None, meta: None });
                assert(tasks@.map_values(|task: PreparedTask| task.request())
                    =~= before.map_values(|task: PreparedTask| task.request()).push(
                    (task_id, category),
                ));
            }
            i += 1;
        }
        assert(task_ids@.take(i as int) =~= task_ids@);
        assert(counting(0) =~= Seq::<int>::empty());
        let phase = if transient.len() > 0 {
            PreparePhase::Transient(0)
        } else if tasks.len() > 0 {
            PreparePhase::Inspect(0)
        } else {
            PreparePhase::Done
        };
        TaskPreparation {
            transient,
            tasks,
            data_indices: Vec::new(),
            meta_indices: Vec::new(),
            phase,
            transient_called: Ghost(Seq::empty()),
            called: Ghost(Seq::empty()),
            loaded: Ghost(Set::empty()),
            fell_short: Ghost(false),
        }
    }

    /// What is to be done next.
    pub fn step(&self) -> (step: PrepareStep)
        requires
            self.wf(),
        ensures
            match self.phase {
                PreparePhase::Transient(i) => step == PrepareStep::Open(
                    self.transient@[i as int].0,
                ),
                PreparePhase::Inspect(i) | PreparePhase::Merge(i) => step == PrepareStep::Open(
                    self.tasks@[i as int].task_id,
                ),
                PreparePhase::RestoreData => loads(
                    step,
                    self.tasks@,
                    self.data_indices@,
                    TaskDataCategory::Data,
                ),
                PreparePhase::RestoreMeta => loads(
                    step,
                    self.tasks@,
                    self.meta_indices@,
                    TaskDataCategory::Meta,
                ),
                PreparePhase::Done => step is Done,
            },
    {
        match self.phase {
            PreparePhase::Transient(i) => PrepareStep::Open(self.transient[i].0),
            PreparePhase::Inspect(i) => PrepareStep::Open(self.tasks[i].task_id),
            PreparePhase::RestoreData => self.load_step(
                &self.data_indices,
                TaskDataCategory::Data,
            ),
            PreparePhase::RestoreMeta => self.load_step(
                &self.meta_indices,
                TaskDataCategory::Meta,
            ),
            PreparePhase::Merge(i) => PrepareStep::Open(self.tasks[i].task_id),
            PreparePhase::Done => PrepareStep::Done,
        }
    }

    /// How the data of some tasks is read: several at once where there are several.
    fn load_step(&self, indices: &Vec<usize>, category: TaskDataCategory) -> (step: PrepareStep)
        requires
            indices@.len() > 0,
            forall|m: int| 0 <= m < indices@.len() ==> (#[trigger] indices@[m]) < self.tasks@.len(),
        ensures
            loads(step, self.tasks@, indices@, category),
    {
        if indices.len() == 1 {
            return PrepareStep::LoadSingle(self.tasks[indices[0]].task_id, category);
        }
        let mut task_ids: Vec<TaskId> = Vec::new();
        let mut m: usize = 0;
        while m < indices.len()
            invariant
                m <= indices@.len(),
                forall|l: int|
                    0 <= l < indices@.len() ==> (#[trigger] indices@[l]) < self.tasks@.len(),
                task_ids@.len() == m,
                forall|l: int|
                    0 <= l < m ==> #[trigger] task_ids@[l]
                        == self.tasks@[indices@[l] as int].task_id,
            decreases indices@.len() - m,
        {
            task_ids.push(self.tasks[indices[m]].task_id);
            m += 1;
        }
        assert(task_ids@ =~= indices@.map_values(|k: usize| self.tasks@[k as int].task_id));
        PrepareStep::LoadBatch(task_ids, category)
    }

    /// Tells that a task has been opened: `task` is what it has been found to be. Returns what is
    /// handed to the callback, if the task is.
    pub fn opened(&mut self, task: &mut StorageWriteGuard) -> (callback: Option<
        (TaskId, TaskDataCategory),
    >)
        requires
            old(self).wf(),
            old(task).storage.wf(),
            old(self).phase is Transient || old(self).phase is Inspect || old(self).phase is Merge,
        ensures
            final(self).wf(),
            final(task).storage.wf(),
            opening(*old(self), *final(self), *old(task), *final(task), callback),
    {
        match self.phase {
            PreparePhase::Transient(i) => self.opened_transient(i, task),
            PreparePhase::Inspect(i) => self.inspected(i, task),
            PreparePhase::Merge(i) => self.merged(i, task),
            _ => None,
        }
    }

    /// A transient task has been opened.
    fn opened_transient(&mut self, i: usize, task: &mut StorageWriteGuard) -> (callback: Option<
        (TaskId, TaskDataCategory),
    >)
        requires
            old(self).wf(),
            old(self).phase == PreparePhase::Transient(i),
            old(task).storage.wf(),
        ensures
            final(self).wf(),
            final(task).storage.wf(),
            opening(*old(self), *final(self), *old(task), *final(task), callback),
    {
        let (task_id, category) = self.transient[i];
        if !task.storage.flags.is_restored(category) {
            task.mark_restored();
        }
        proof {
            self.transient_called@ = self.transient_called@.push(i as int);
            assert(self.transient_called@ =~= counting(i + 1));
        }
        let len: usize = self.transient.len();
        self.phase = if i + 1 < len {
            PreparePhase::Transient(i + 1)
        } else if self.tasks.len() > 0 {
            PreparePhase::Inspect(0)
        } else {
            PreparePhase::Done
        };
        Some((task_id, category))
    }

    /// A task has been opened to be looked at.
    fn inspected(&mut self, i: usize, task: &mut StorageWriteGuard) -> (callback: Option<
        (TaskId, TaskDataCategory),
    >)
        requires
            old(self).wf(),
            old(self).phase == PreparePhase::Inspect(i),
            old(task).storage.wf(),
        ensures
            final(self).wf(),
            final(task).storage.wf(),
            opening(*old(self), *final(self), *old(task), *final(task), callback),
    {
        let ghost before = *self;
        let task_id: TaskId = self.tasks[i].task_id;
        let category = self.tasks[i].category;
        let mut ready = true;
        if category.has_part(SpecificTaskDataCategory::Data) && !task.storage.flags.is_restored(
            TaskDataCategory::Data,
        ) {
            self.data_indices.push(i);
            ready = false;
        }
        if category.has_part(SpecificTaskDataCategory::Meta) && !task.storage.flags.is_restored(
            TaskDataCategory::Meta,
        ) {
            self.meta_indices.push(i);
            ready = false;
        }
        let len: usize = self.tasks.len();
        self.phase = if i + 1 < len {
            PreparePhase::Inspect(i + 1)
        } else if self.data_indices.len() > 0 {
            PreparePhase::RestoreData
        } else if self.meta_indices.len() > 0 {
            PreparePhase::RestoreMeta
        } else {
            PreparePhase::Done
        };
        proof {
            if ready {
                self.called@ = self.called@.push(i as int);
            }
            assert forall|k: int| 0 <= k < i implies before.pending(k) == self.pending(k) by {
                lemma_has_index_push(before.data_indices@, i, k);
                lemma_has_index_push(before.meta_indices@, i, k);
            }
            lemma_has_index_push(before.data_indices@, i, i as int);
            lemma_has_index_push(before.meta_indices@, i, i as int);
            lemma_ascending_same(i as int, before.ready(), self.ready());
            assert(self.pending(i as int) == !ready);
            assert(self.called@ == ascending(i + 1, self.ready()));
            lemma_ascending_gap(0, self.tasks@.len() as int, self.loaded@);
        }
        if ready {
            Some((task_id, category))
        } else {
            None
        }
    }

    /// Turns to the first task, from the one at `i` on, for which persisted data has been read.
    fn next_merge(&self, i: usize) -> (phase: PreparePhase)
        requires
            i <= self.tasks@.len(),
        ensures
            merges_next(self.tasks@, i as int, phase),
    {
        let mut k: usize = i;
        while k < self.tasks.len()
            invariant
                i <= k <= self.tasks@.len(),
                forall|j: int| i <= j < k ==> !(#[trigger] self.tasks@[j]).has_storage(),
            decreases self.tasks@.len() - k,
        {
            if self.tasks[k].data.is_some() || self.tasks[k].meta.is_some() {
                return PreparePhase::Merge(k);
            }
            k += 1;
        }
        PreparePhase::Done
    }

    /// A task has been opened for what has been read for it.
    fn merged(&mut self, i: usize, task: &mut StorageWriteGuard) -> (callback: Option<
        (TaskId, TaskDataCategory),
    >)
        requires
            old(self).wf(),
            old(self).phase == PreparePhase::Merge(i),
            old(task).storage.wf(),
        ensures
            final(self).wf(),
            final(task).storage.wf(),
            opening(*old(self), *final(self), *old(task), *final(task), callback),
    {
        let ghost before = *self;
        let task_id: TaskId = self.tasks[i].task_id;
        let category = self.tasks[i].category;
        let data = self.tasks[i].data.take();
        let meta = self.tasks[i].meta.take();
        if let Some(source) = data {
            task.offer(source, TaskDataCategory::Data);
        }
        if let Some(source) = meta {
            task.offer(source, TaskDataCategory::Meta);
        }
        let len: usize = self.tasks.len();
        assert(i < len);
        let phase = self.next_merge(i + 1);
        self.phase = phase;
        proof {
            let n = self.tasks@.len() as int;
            self.called@ = self.called@.push(i as int);
            let next = match phase {
                PreparePhase::Merge(k) => k as int,
                _ => n,
            };
            assert forall|k: int| i + 1 <= k < n implies self.tasks@[k] == before.tasks@[k] by {}
            assert forall|k: int| i + 1 <= k < next implies !self.loaded@.contains(k) by {
                assert(!self.tasks@[k].has_storage());
            }
            lemma_ascending_gap(i + 1, next, self.loaded@);
            assert(before.ready() =~= self.ready());
            assert forall|k: int| !self.fell_short@ && #[trigger] self.pending(
                k,
            ) implies self.loaded@.contains(k) by {
                assert(before.pending(k));
            }
            assert(self.loaded@.contains(i as int));
            assert(self.called@ =~= ascending(n, self.ready()) + ascending(i + 1, self.loaded@));
            assert(self.requests() =~= before.requests());
            assert(self.tasks@ =~= before.tasks@.update(
                i as int,
                PreparedTask { data: None, meta: None, ..before.tasks@[i as int] },
            ));
        }
        Some((task_id, category))
    }
}

/// Whether the tasks go from `before` to `after` when what has been read for those that `indices`
/// point at is stored with them, in order, as far as it goes.
pub open spec fn stores(
    before: Seq<PreparedTask>,
    after: Seq<PreparedTask>,
    indices: Seq<usize>,
    storages: Seq<TaskStorage>,
    part: SpecificTaskDataCategory,
) -> bool {
    &&& after.len() == before.len()
    &&& forall|k: int|
        0 <= k < before.len() && !has_index(indices, k) ==> #[trigger] after[k] == before[k]
    &&& forall|m: int|
        0 <= m < indices.len() ==> after[#[trigger] indices[m] as int] == stored(
            before[indices[m] as int],
            storages,
            m,
            part,
        )
}

/// A task with what has been read for it, as the one at `m` among those for which persisted data
/// was asked for.
pub open spec fn stored(
    task: PreparedTask,
    storages: Seq<TaskStorage>,
    m: int,
    part: SpecificTaskDataCategory,
) -> PreparedTask {
    let storage = if m < storages.len() {
        Some(storages[m])
    } else {
        None
    };
    match part {
        SpecificTaskDataCategory::Meta => PreparedTask { meta: storage, ..task },
        SpecificTaskDataCategory::Data => PreparedTask { data: storage, ..task },
    }
}

/// Stores what has been read.
fn store_loaded(
    tasks: &mut Vec<PreparedTask>,
    indices: &Vec<usize>,
    storages: Vec<TaskStorage>,
    part: SpecificTaskDataCategory,
)
    requires
        forall|m: int| 0 <= m < indices@.len() ==> (#[trigger] indices@[m]) < old(tasks)@.len(),
        forall|m: int, l: int|
            0 <= m < l < indices@.len() ==> (#[trigger] indices@[m]) < (#[trigger] indices@[l]),
        forall|k: int|
            0 <= k < old(tasks)@.len() ==> match part {
                SpecificTaskDataCategory::Meta => (#[trigger] old(tasks)@[k]).meta is None,
                SpecificTaskDataCategory::Data => old(tasks)@[k].data is None,
            },
    ensures
        stores(old(tasks)@, final(tasks)@, indices@, storages@, part),
{
    let ghost before = tasks@;
    let ghost all = storages@;
    let mut rest = storages;
    while rest.len() > indices.len()
        invariant
            rest@.len() <= all.len(),
            rest@ == all.take(rest@.len() as int),
            rest@.len() == all.len() || rest@.len() >= indices@.len(),
        decreases rest@.len(),
    {
        let _ = rest.pop();
    }
    let ghost given = rest@;
    while rest.len() > 0
        invariant
            before.len() == tasks@.len(),
            given.len() <= indices@.len(),
            given.len() <= all.len(),
            given.len() == all.len() || given.len() == indices@.len(),
            given == all.take(given.len() as int),
            rest@.len() <= given.len(),
            rest@ == given.take(rest@.len() as int),
            forall|m: int| 0 <= m < indices@.len() ==> (#[trigger] indices@[m]) < before.len(),
            forall|k: int|
                0 <= k < before.len() ==> match part {
                    SpecificTaskDataCategory::Meta => (#[trigger] before[k]).meta is None,
                    SpecificTaskDataCategory::Data => before[k].data is None,
                },
            forall|m: int, l: int|
                0 <= m < l < indices@.len() ==> (#[trigger] indices@[m]) < (#[trigger] indices@[l]),
            forall|k: int|
                0 <= k < before.len() && !has_index(indices@, k) ==> #[trigger] tasks@[k]
                    == before[k],
            forall|m: int|
                rest@.len() <= m < indices@.len() && m < given.len() ==> tasks@[#[trigger] indices@[m] as int]
                    == stored(before[indices@[m] as int], all, m, part),
            forall|m: int|
                0 <= m < indices@.len() && (m < rest@.len() || given.len() <= m)
                    ==> tasks@[#[trigger] indices@[m] as int] == before[indices@[m] as int],
        decreases rest@.len(),
    {
        let ghost earlier = tasks@;
        if let Some(storage) = rest.pop() {
            let m: usize = rest.len();
            let k: usize = indices[m];
            assert(storage == all[m as int]);
            match part {
                SpecificTaskDataCategory::Meta => {
                    tasks[k].meta = Some(storage);
                },
                SpecificTaskDataCategory::Data => {
                    tasks[k].data = Some(storage);
                },
            }
            proof {
                assert(earlier[indices@[m as int] as int] == before[indices@[m as int] as int]);
                assert(tasks@ =~= earlier.update(k as int, stored(before[k as int], all, m as int, part)));
                assert(has_index(indices@, k as int));
                assert forall|l: int| 0 <= l < indices@.len() && l != m implies tasks@[#[trigger] indices@[l] as int]
                    == earlier[indices@[l] as int] by {
                    if l < m {
                        assert(indices@[l] < indices@[m as int]);
                    } else {
                        assert(indices@[m as int] < indices@[l]);
                    }
                }
            }
        }
    }
}

impl TaskPreparation {
    /// Tells what has been read for the one task for which persisted data was asked for.
    pub fn loaded_single(&mut self, storage: TaskStorage)
        requires
            old(self).wf(),
            old(self).phase is RestoreData || old(self).phase is RestoreMeta,
            old(self).indices_to_load().len() == 1,
            storage.wf(),
        ensures
            final(self).wf(),
            loading(*old(self), *final(self), seq![storage]),
    {
        let mut storages: Vec<TaskStorage> = Vec::new();
        storages.push(storage);
        assert(storages@ =~= seq![storage]);
        self.loaded_all(storages);
    }

    /// Tells what has been read for the tasks for which persisted data was asked for, in their
    /// order: `None` where it need not be looked at, which comes to nothing for each of them.
    pub fn loaded_batch(&mut self, storages: Option<Vec<TaskStorage>>)
        requires
            old(self).wf(),
            old(self).phase is RestoreData || old(self).phase is RestoreMeta,
            old(self).indices_to_load().len() > 1,
            storages matches Some(storages) ==> forall|m: int|
                0 <= m < storages@.len() ==> (#[trigger] storages@[m]).wf(),
        ensures
            final(self).wf(),
            match storages {
                Some(storages) => loading(*old(self), *final(self), storages@),
                None => exists|empty: Seq<TaskStorage>| #[trigger]
                    loading(*old(self), *final(self), empty) && nothing(
                        empty,
                        old(self).indices_to_load().len(),
                    ),
            },
    {
        match storages {
            Some(storages) => self.loaded_all(storages),
            None => {
                let n: usize = match self.phase {
                    PreparePhase::RestoreData => self.data_indices.len(),
                    _ => self.meta_indices.len(),
                };
                let mut empty: Vec<TaskStorage> = Vec::new();
                while empty.len() < n
                    invariant
                        empty@.len() <= n,
                        nothing(empty@, empty@.len()),
                    decreases n - empty@.len(),
                {
                    empty.push(TaskStorage::new());
                }
                self.loaded_all(empty);
            },
        }
    }

    /// Stores what has been read, and turns to what comes next.
    fn loaded_all(&mut self, storages: Vec<TaskStorage>)
        requires
            old(self).wf(),
            old(self).phase is RestoreData || old(self).phase is RestoreMeta,
            forall|m: int| 0 <= m < storages@.len() ==> (#[trigger] storages@[m]).wf(),
        ensures
            final(self).wf(),
            loading(*old(self), *final(self), storages@),
    {
        let ghost before = *self;
        if matches!(self.phase, PreparePhase::RestoreData) {
            store_loaded(
                &mut self.tasks,
                &self.data_indices,
                storages,
                SpecificTaskDataCategory::Data,
            );
        } else {
            store_loaded(
                &mut self.tasks,
                &self.meta_indices,
                storages,
                SpecificTaskDataCategory::Meta,
            );
        }
        let ghost part = if before.phase is RestoreData {
            SpecificTaskDataCategory::Data
        } else {
            SpecificTaskDataCategory::Meta
        };
        proof {
            self.fell_short@ = before.fell_short@ || storages@.len()
                < before.indices_to_load().len();
            lemma_stores(
                before.tasks@,
                self.tasks@,
                before.indices_to_load(),
                storages@,
                part,
            );
            assert(self.requests() =~= before.requests());
        }
        if matches!(self.phase, PreparePhase::RestoreData) && self.meta_indices.len() > 0 {
            self.phase = PreparePhase::RestoreMeta;
            assert(self.ready() =~= before.ready());
        } else {
            let phase = self.next_merge(0);
            self.phase = phase;
            proof {
                let n = self.tasks@.len() as int;
                let tasks = self.tasks@;
                self.loaded@ = Set::new(|k: int| 0 <= k < n && tasks[k].has_storage());
                let next = match phase {
                    PreparePhase::Merge(k) => k as int,
                    _ => n,
                };
                lemma_ascending_gap(0, next, self.loaded@);
                assert forall|k: int| !self.fell_short@ && #[trigger] self.pending(
                    k,
                ) implies self.loaded@.contains(k) by {
                    lemma_index_bound(self.data_indices@, n, k);
                    lemma_index_bound(self.meta_indices@, n, k);
                    assert(tasks[k].has_storage());
                }
                assert(self.ready() =~= before.ready());
                assert(self.called@ =~= ascending(n, self.ready()) + ascending(next, self.loaded@));
            }
        }
    }
}

/// What stays, and what comes in, when what has been read is stored.
proof fn lemma_stores(
    before: Seq<PreparedTask>,
    after: Seq<PreparedTask>,
    indices: Seq<usize>,
    storages: Seq<TaskStorage>,
    part: SpecificTaskDataCategory,
)
    requires
        stores(before, after, indices, storages, part),
        forall|m: int| 0 <= m < indices.len() ==> (#[trigger] indices[m]) < before.len(),
        forall|m: int| 0 <= m < storages.len() ==> (#[trigger] storages[m]).wf(),
        forall|k: int| 0 <= k < before.len() ==> (#[trigger] before[k]).wf(),
    ensures
        forall|k: int|
            0 <= k < before.len() ==> (#[trigger] after[k]).wf() && after[k].request()
                == before[k].request() && after[k].category == before[k].category && match part {
                SpecificTaskDataCategory::Meta => after[k].data == before[k].data && (
                after[k].meta is Some ==> has_index(indices, k) || before[k].meta is Some) && (
                storages.len() >= indices.len() && has_index(indices, k) ==> after[k].meta is Some),
                SpecificTaskDataCategory::Data => after[k].meta == before[k].meta && (
                after[k].data is Some ==> has_index(indices, k) || before[k].data is Some) && (
                storages.len() >= indices.len() && has_index(indices, k) ==> after[k].data is Some),
            },
{
    assert forall|k: int| 0 <= k < before.len() implies (#[trigger] after[k]).wf()
        && after[k].request() == before[k].request() && after[k].category == before[k].category
        && match part {
        SpecificTaskDataCategory::Meta => after[k].data == before[k].data && (after[k].meta is Some
            ==> has_index(indices, k) || before[k].meta is Some) && (storages.len() >= indices.len()
            && has_index(indices, k) ==> after[k].meta is Some),
        SpecificTaskDataCategory::Data => after[k].meta == before[k].meta && (after[k].data is Some
            ==> has_index(indices, k) || before[k].data is Some) && (storages.len() >= indices.len()
            && has_index(indices, k) ==> after[k].data is Some),
    } by {
        if has_index(indices, k) {
            let m = choose|m: int| 0 <= m < indices.len() && #[trigger] indices[m] == k;
            assert(after[indices[m] as int] == stored(before[k], storages, m, part));
        }
    }
}

/// What is among indices that are below a limit is so too.
proof fn lemma_index_bound(indices: Seq<usize>, limit: int, k: int)
    requires
        forall|m: int| 0 <= m < indices.len() ==> (#[trigger] indices[m]) < limit,
    ensures
        has_index(indices, k) ==> 0 <= k < limit,
{
}

/// An index that is added.
pub(crate) proof fn lemma_has_index_push(indices: Seq<usize>, i: usize, k: int)
    ensures
        has_index(indices.push(i), k) == (has_index(indices, k) || k == i),
{
    let after = indices.push(i);
    if has_index(indices, k) {
        let m = choose|m: int| 0 <= m < indices.len() && #[trigger] indices[m] == k;
        assert(after[m] == k);
    }
    if k == i {
        assert(after[indices.len() as int] == k);
    }
    if has_index(after, k) && k != i {
        let m = choose|m: int| 0 <= m < after.len() && #[trigger] after[m] == k;
        assert(indices[m] == k);
    }
}

/// What it means that a task has been opened: the preparation goes from `before` to `after`, the
/// task from what it has been `found` to be to what it is `left` as, and `callback` is handed over.
pub open spec fn opening(
    before: TaskPreparation,
    after: TaskPreparation,
    found: StorageWriteGuard,
    left: StorageWriteGuard,
    callback: Option<(TaskId, TaskDataCategory)>,
) -> bool {
    &&& after.transient == before.transient
    &&& after.requests() == before.requests()
    &&& after.fell_short == before.fell_short
    &&& after.steps_left() < before.steps_left()
    &&& left.modifications == found.modifications
    &&& match before.phase {
        PreparePhase::Transient(i) => {
            &&& callback == Some(before.transient@[i as int])
            &&& left.storage@ == transient_opened(
                found.storage@,
                before.transient@[i as int].1,
            )
            &&& after.tasks == before.tasks
            &&& after.data_indices == before.data_indices
            &&& after.meta_indices == before.meta_indices
            &&& after.phase == (if i + 1 < before.transient@.len() {
                PreparePhase::Transient((i + 1) as usize)
            } else {
                inspect_start(before.tasks@.len())
            })
            &&& after.called == before.called
            &&& after.loaded == before.loaded
        },
        PreparePhase::Inspect(i) => {
            let request = before.requests()[i as int];
            let misses_data = misses(
                found.storage@,
                request.1,
                SpecificTaskDataCategory::Data,
            );
            let misses_meta = misses(
                found.storage@,
                request.1,
                SpecificTaskDataCategory::Meta,
            );
            &&& left == found
            &&& callback == (if misses_data || misses_meta {
                None
            } else {
                Some(request)
            })
            &&& after.tasks == before.tasks
            &&& after.data_indices@ == (if misses_data {
                before.data_indices@.push(i)
            } else {
                before.data_indices@
            })
            &&& after.meta_indices@ == (if misses_meta {
                before.meta_indices@.push(i)
            } else {
                before.meta_indices@
            })
            &&& after.phase == (if i + 1 < before.tasks@.len() {
                PreparePhase::Inspect((i + 1) as usize)
            } else {
                after_inspection(
                    after.data_indices@.len(),
                    after.meta_indices@.len(),
                )
            })
            &&& after.called@ == (if callback is Some {
                before.called@.push(i as int)
            } else {
                before.called@
            })
            &&& after.loaded == before.loaded
        },
        PreparePhase::Merge(i) => {
            let prepared = before.tasks@[i as int];
            &&& callback == Some(prepared.request())
            &&& left.storage@ == maybe_offered(
                maybe_offered(found.storage@, prepared.data, TaskDataCategory::Data),
                prepared.meta,
                TaskDataCategory::Meta,
            )
            &&& after.tasks@ == before.tasks@.update(
                i as int,
                PreparedTask { data: None, meta: None, ..prepared },
            )
            &&& after.data_indices == before.data_indices
            &&& after.meta_indices == before.meta_indices
            &&& merges_next(before.tasks@, i + 1, after.phase)
            &&& after.called@ == before.called@.push(i as int)
            &&& after.loaded == before.loaded
        },
        _ => false,
    }
}

/// What it means that persisted data has been read: the preparation goes from `before` to `after`.
pub open spec fn loading(
    before: TaskPreparation,
    after: TaskPreparation,
    storages: Seq<TaskStorage>,
) -> bool {
    let part = if before.phase is RestoreData {
        SpecificTaskDataCategory::Data
    } else {
        SpecificTaskDataCategory::Meta
    };
    &&& after.transient == before.transient
    &&& after.requests() == before.requests()
    &&& after.data_indices == before.data_indices
    &&& after.meta_indices == before.meta_indices
    &&& after.called == before.called
    &&& after.fell_short@ == (before.fell_short@ || storages.len() < before.indices_to_load().len())
    &&& after.steps_left() < before.steps_left()
    &&& stores(before.tasks@, after.tasks@, before.indices_to_load(), storages, part)
    &&& if part is Data && before.meta_indices@.len() > 0 {
        after.phase is RestoreMeta && after.loaded == before.loaded
    } else {
        &&& merges_next(after.tasks@, 0, after.phase)
        &&& forall|k: int|
            after.loaded@.contains(k) == (0 <= k < after.tasks@.len()
                && (#[trigger] after.tasks@[k]).has_storage())
    }
}

/// Whether `storages` are `n` storages with nothing in them.
pub open spec fn nothing(storages: Seq<TaskStorage>, n: nat) -> bool {
    &&& storages.len() == n
    &&& forall|m: int|
        0 <= m < n ==> (#[trigger] storages[m]).wf() && storages[m]@ == TaskStorageSchema::empty()
}

/// What a transient task is once it has been opened: everything counts as restored, if what is
/// asked for does not yet.
pub open spec fn transient_opened(
    data: TaskStorageSchema,
    category: TaskDataCategory,
) -> TaskStorageSchema {
    if restored(data.flags, category) {
        data
    } else {
        TaskStorageSchema { flags: with_restored(data.flags, TaskDataCategory::All), ..data }
    }
}

/// Whether `step` asks for the persisted data of the tasks that `indices` point at.
pub open spec fn loads(
    step: PrepareStep,
    tasks: Seq<PreparedTask>,
    indices: Seq<usize>,
    category: TaskDataCategory,
) -> bool {
    if indices.len() == 1 {
        step == PrepareStep::LoadSingle(tasks[indices[0] as int].task_id, category)
    } else {
        match step {
            PrepareStep::LoadBatch(task_ids, asked) => {
                &&& asked == category
                &&& task_ids@ == indices.map_values(|k: usize| tasks[k as int].task_id)
            },
            _ => false,
        }
    }
}

/// Each task is handed to the callback exactly once: no task twice at any time, and, when nothing
/// is left to do, every task, unless persisted data was read for fewer tasks than it was asked for.
pub proof fn law_each_task_is_handed_over_once(preparation: TaskPreparation)
    requires
        preparation.wf(),
    ensures
        preparation.called@.no_duplicates(),
        preparation.transient_called@.no_duplicates(),
        preparation.phase is Done ==> {
            &&& forall|i: int| #[trigger]
                preparation.transient_called@.contains(i) <==> 0 <= i
                    < preparation.transient@.len()
            &&& !preparation.fell_short@ ==> forall|k: int| #[trigger]
                preparation.called@.contains(k) <==> 0 <= k < preparation.tasks@.len()
        },
{
    let n = preparation.tasks@.len() as int;
    let ready = preparation.ready();
    let loaded = preparation.loaded@;
    let (first, second) = match preparation.phase {
        PreparePhase::Transient(_) => (0int, 0int),
        PreparePhase::Inspect(i) => (i as int, 0int),
        PreparePhase::RestoreData | PreparePhase::RestoreMeta => (n, 0int),
        PreparePhase::Merge(i) => (n, i as int),
        PreparePhase::Done => (n, n),
    };
    lemma_ascending(first, ready);
    lemma_ascending(second, loaded);
    let a = ascending(first, ready);
    let b = ascending(second, loaded);
    assert(preparation.called@ =~= a + b);
    assert forall|i: int, j: int| 0 <= i < a.len() && 0 <= j < b.len() implies a[i] != b[j] by {
        assert(a.contains(a[i]));
        assert(b.contains(b[j]));
    }
    assert forall|k: int| #[trigger] preparation.called@.contains(k) <==> a.contains(k)
        || b.contains(k) by {
        if preparation.called@.contains(k) {
            let i = choose|i: int| 0 <= i < (a + b).len() && (a + b)[i] == k;
            if i < a.len() {
                assert(a[i] == k);
            } else {
                assert(b[i - a.len()] == k);
            }
        }
        if a.contains(k) {
            let i = choose|i: int| 0 <= i < a.len() && a[i] == k;
            assert((a + b)[i] == k);
        }
        if b.contains(k) {
            let i = choose|i: int| 0 <= i < b.len() && b[i] == k;
            assert((a + b)[a.len() + i] == k);
        }
    }
    let t = preparation.transient_called@;
    assert forall|i: int| 0 <= i < t.len() implies t.contains(i) by {
        assert(t[i] == i);
    }
}

/// What is handed to the callback has been restored: of a transient task and of one with nothing
/// missing all that was asked for, of another one whatever has been read for it. That is all that
/// was asked for as well, unless persisted data was read for fewer tasks than it was asked for, or
/// what had not been missing was undone in the meantime.
pub proof fn law_what_is_handed_over_is_restored(
    before: TaskPreparation,
    after: TaskPreparation,
    found: StorageWriteGuard,
    left: StorageWriteGuard,
    callback: (TaskId, TaskDataCategory),
)
    requires
        before.wf(),
        opening(before, after, found, left, Some(callback)),
    ensures
        match before.phase {
            PreparePhase::Transient(_) | PreparePhase::Inspect(_) => restored(
                left.storage@.flags,
                callback.1,
            ),
            PreparePhase::Merge(i) => {
                &&& before.tasks@[i as int].data is Some ==> restored(
                    left.storage@.flags,
                    TaskDataCategory::Data,
                )
                &&& before.tasks@[i as int].meta is Some ==> restored(
                    left.storage@.flags,
                    TaskDataCategory::Meta,
                )
                &&& !before.fell_short@ && (callback.1.covers(SpecificTaskDataCategory::Data)
                    && !has_index(before.data_indices@, i as int) ==> restored(
                    found.storage@.flags,
                    TaskDataCategory::Data,
                )) && (callback.1.covers(SpecificTaskDataCategory::Meta) && !has_index(
                    before.meta_indices@,
                    i as int,
                ) ==> restored(found.storage@.flags, TaskDataCategory::Meta)) ==> restored(
                    left.storage@.flags,
                    callback.1,
                )
            },
            _ => false,
        },
{
}

/// Handing over a task for which the same data has been taken over before changes nothing: data
/// that was read for two requests for one task is merged once.
pub proof fn law_merging_again_changes_nothing(
    before: TaskPreparation,
    after: TaskPreparation,
    found: StorageWriteGuard,
    left: StorageWriteGuard,
    callback: (TaskId, TaskDataCategory),
)
    requires
        before.wf(),
        before.phase is Merge,
        opening(before, after, found, left, Some(callback)),
        restored(found.storage@.flags, callback.1),
    ensures
        left.storage@ == found.storage@,
{
    lemma_read_is_asked_for(before, before.phase->Merge_0 as int);
}

/// Persisted data has been read for a task only where it is asked for.
pub(crate) proof fn lemma_read_is_asked_for(preparation: TaskPreparation, k: int)
    requires
        preparation.wf(),
        0 <= k < preparation.tasks@.len(),
    ensures
        preparation.tasks@[k].data is Some ==> preparation.tasks@[k].category.covers(
            SpecificTaskDataCategory::Data,
        ),
        preparation.tasks@[k].meta is Some ==> preparation.tasks@[k].category.covers(
            SpecificTaskDataCategory::Meta,
        ),
{
    let tasks = preparation.tasks@;
    lemma_index_covered(preparation.data_indices@, tasks, SpecificTaskDataCategory::Data, k);
    lemma_index_covered(preparation.meta_indices@, tasks, SpecificTaskDataCategory::Meta, k);
    assert(tasks[k].data is Some ==> has_index(preparation.data_indices@, k));
    assert(tasks[k].meta is Some ==> has_index(preparation.meta_indices@, k));
}

/// A task that misses a part is asked for that part.
proof fn lemma_index_covered(
    indices: Seq<usize>,
    tasks: Seq<PreparedTask>,
    part: SpecificTaskDataCategory,
    k: int,
)
    requires
        indices_wf(indices, tasks, tasks.len() as int, part),
    ensures
        has_index(indices, k) ==> tasks[k].category.covers(part),
{
}

/// Each task that is asked for is prepared once for each time that it is asked for, in order: the
/// persistent ones, and the transient ones if those are to be handed over.
pub proof fn law_all_that_is_asked_for_is_prepared(
    requests: Seq<(TaskId, TaskDataCategory)>,
    more: Seq<(TaskId, TaskDataCategory)>,
    request: (TaskId, TaskDataCategory),
)
    ensures
        persistent_requests(requests + more) == persistent_requests(requests)
            + persistent_requests(more),
        transient_requests(requests + more) == transient_requests(requests) + transient_requests(
            more,
        ),
        persistent_requests(seq![request]) == (if request.0 < 0x8000_0000 {
            seq![request]
        } else {
            Seq::empty()
        }),
        transient_requests(seq![request]) == (if request.0 < 0x8000_0000 {
            Seq::empty()
        } else {
            seq![request]
        }),
        persistent_requests(Seq::empty()).len() == 0,
        transient_requests(Seq::empty()).len() == 0,
{
    let is_transient = |request: (TaskId, TaskDataCategory)| transient(request.0);
    let is_persistent = |request: (TaskId, TaskDataCategory)| !transient(request.0);
    Seq::filter_distributes_over_add(requests, more, is_transient);
    Seq::filter_distributes_over_add(requests, more, is_persistent);
    let one = seq![request];
    let none = Seq::<(TaskId, TaskDataCategory)>::empty();
    reveal(Seq::filter);
    assert(one.drop_last() =~= none);
    assert(none.filter(is_transient) =~= none);
    assert(none.filter(is_persistent) =~= none);
    assert(none.push(request) =~= one);
}

/// A preparation begins with the tasks that are asked for, each with what it is asked for.
pub proof fn law_a_preparation_begins_with_the_requests(
    preparation: TaskPreparation,
    requests: Seq<(TaskId, TaskDataCategory)>,
    call_for_transient_tasks: bool,
    k: int,
)
    requires
        begins(preparation, requests, call_for_transient_tasks),
    ensures
        preparation.tasks@.len() == persistent_requests(requests).len(),
        0 <= k < preparation.tasks@.len() ==> preparation.tasks@[k].task_id == persistent_requests(
            requests,
        )[k].0 && preparation.tasks@[k].category == persistent_requests(requests)[k].1,
        call_for_transient_tasks ==> preparation.transient@ == transient_requests(requests),
        !call_for_transient_tasks ==> preparation.transient@.len() == 0,
        preparation.phase is Done <==> preparation.tasks@.len() == 0
            && preparation.transient@.len() == 0,
        0 <= k < preparation.tasks@.len() ==> preparation.requests()[k] == (
            preparation.tasks@[k].task_id,
            preparation.tasks@[k].category,
        ),
{
    assert(preparation.requests().len() == preparation.tasks@.len());
    if 0 <= k < preparation.tasks@.len() {
        assert(preparation.requests()[k] == preparation.tasks@[k].request());
    }
}

/// A task is handed to the callback exactly where that is counted, with the id and the category
/// that it was asked for with: the transient ones one by one, then each of the others.
pub proof fn law_what_is_counted_is_handed_over(
    before: TaskPreparation,
    after: TaskPreparation,
    found: StorageWriteGuard,
    left: StorageWriteGuard,
    callback: Option<(TaskId, TaskDataCategory)>,
)
    requires
        before.wf(),
        after.wf(),
        opening(before, after, found, left, callback),
    ensures
        match callback {
            Some(handed) => {
                ||| {
                    let k = after.called@.last();
                    &&& after.called@.len() == before.called@.len() + 1
                    &&& after.called@.drop_last() == before.called@
                    &&& after.transient_called@ == before.transient_called@
                    &&& 0 <= k < before.tasks@.len()
                    &&& handed.0 == before.tasks@[k].task_id
                    &&& handed.1 == before.tasks@[k].category
                }
                ||| {
                    let k = after.transient_called@.last();
                    &&& after.transient_called@.len() == before.transient_called@.len() + 1
                    &&& after.transient_called@.drop_last() == before.transient_called@
                    &&& after.called@ == before.called@
                    &&& 0 <= k < before.transient@.len()
                    &&& handed == before.transient@[k]
                }
            },
            None => after.called@ == before.called@ && after.transient_called@
                == before.transient_called@,
        },
        left.modifications@ == found.modifications@,
{
    let n = before.tasks@.len() as int;
    assert(before.requests().len() == n);
    assert(after.requests().len() == after.tasks@.len());
    match before.phase {
        PreparePhase::Transient(i) => {
            assert(before.transient_called@ == counting(i as int));
            assert(after.transient_called@ == counting(i + 1)) by {
                if !(after.phase is Transient) {
                    assert(i + 1 == before.transient@.len());
                }
            }
            assert(counting(i + 1).drop_last() =~= counting(i as int));
            assert(counting(i + 1).last() == i);
        },
        PreparePhase::Inspect(i) => {
            assert(before.requests()[i as int] == before.tasks@[i as int].request());
            assert(before.called@.push(i as int).drop_last() =~= before.called@);
        },
        PreparePhase::Merge(i) => {
            assert(before.called@.push(i as int).drop_last() =~= before.called@);
        },
        _ => {},
    }
}

/// Opening a transient task marks everything as restored, if what is asked for is not, and changes
/// nothing else.
pub proof fn law_a_transient_task_counts_as_restored(
    data: TaskStorageSchema,
    category: TaskDataCategory,
    flag: TaskFlag,
)
    ensures
        ({
            let after = transient_opened(data, category);
            let had = (data.flags.contains(TaskFlag::MetaRestored) || category
                == TaskDataCategory::Data) && (data.flags.contains(TaskFlag::DataRestored)
                || category == TaskDataCategory::Meta);
            &&& same_meta(after, data) && same_data(after, data) && same_transient(after, data)
            &&& after.flags.contains(flag) <==> data.flags.contains(flag) || !had && (flag
                == TaskFlag::MetaRestored || flag == TaskFlag::DataRestored)
        }),
{
}

/// Persisted data is read of the tasks that miss it, in their order: of one alone, or of several
/// together, of the part that is missing and of nothing else.
pub proof fn law_what_is_missing_is_read_in_order(
    step: PrepareStep,
    tasks: Seq<PreparedTask>,
    indices: Seq<usize>,
    category: TaskDataCategory,
    m: int,
)
    requires
        loads(step, tasks, indices, category),
        0 <= m < indices.len(),
    ensures
        match step {
            PrepareStep::LoadSingle(task_id, asked) => {
                &&& asked == category
                &&& indices.len() == 1
                &&& task_id == tasks[indices[m] as int].task_id
            },
            PrepareStep::LoadBatch(task_ids, asked) => {
                &&& asked == category
                &&& indices.len() > 1
                &&& task_ids@.len() == indices.len()
                &&& task_ids@[m] == tasks[indices[m] as int].task_id
            },
            _ => false,
        },
{
}

/// What has been read for a task is kept with it, for the part that was asked for, until the task is
/// opened for it; nothing is kept with any other.
pub proof fn law_what_is_read_is_kept(
    before: TaskPreparation,
    after: TaskPreparation,
    storages: Seq<TaskStorage>,
    m: int,
    k: int,
)
    requires
        before.phase is RestoreData || before.phase is RestoreMeta,
        loading(before, after, storages),
    ensures
        before.phase is RestoreData && 0 <= m < before.data_indices@.len() && m < storages.len()
            ==> after.tasks@[before.data_indices@[m] as int].data == Some(storages[m]),
        before.phase is RestoreMeta && 0 <= m < before.meta_indices@.len() && m < storages.len()
            ==> after.tasks@[before.meta_indices@[m] as int].meta == Some(storages[m]),
        0 <= k < before.tasks@.len() && before.phase is RestoreData ==> after.tasks@[k].meta
            == before.tasks@[k].meta,
        0 <= k < before.tasks@.len() && before.phase is RestoreMeta ==> after.tasks@[k].data
            == before.tasks@[k].data,
        after.tasks@.len() == before.tasks@.len(),
        0 <= k < before.tasks@.len() && !has_index(before.indices_to_load(), k) ==> after.tasks@[k]
            == before.tasks@[k],
        before.phase is RestoreData && before.meta_indices@.len() > 0 ==> after.phase is RestoreMeta,
{
    if 0 <= k < before.tasks@.len() && has_index(before.indices_to_load(), k) {
        let indices = before.indices_to_load();
        let l = choose|l: int| 0 <= l < indices.len() && #[trigger] indices[l] == k;
        assert(after.tasks@[indices[l] as int] == stored(
            before.tasks@[indices[l] as int],
            storages,
            l,
            if before.phase is RestoreData {
                SpecificTaskDataCategory::Data
            } else {
                SpecificTaskDataCategory::Meta
            },
        ));
    }
}

/// Opening a task for what has been read for it puts that in place, field by field, where the part
/// is missing still; a part that is there, or of which nothing has been read, stays as it is found.
pub proof fn law_opening_puts_what_is_read_in_place(
    before: TaskPreparation,
    after: TaskPreparation,
    found: StorageWriteGuard,
    left: StorageWriteGuard,
    callback: Option<(TaskId, TaskDataCategory)>,
    flag: TaskFlag,
)
    requires
        opening(before, after, found, left, callback),
        before.phase is Merge,
    ensures
        ({
            let prepared = before.tasks@[before.phase->Merge_0 as int];
            let from = if prepared.data is Some && !found.storage@.flags.contains(
                TaskFlag::DataRestored,
            ) {
                prepared.data->0@
            } else {
                found.storage@
            };
            let now = left.storage@;
            &&& now.output_dependent == from.output_dependent
            &&& now.output_dependencies == from.output_dependencies
            &&& now.cell_dependencies == from.cell_dependencies
            &&& now.collectibles_dependencies == from.collectibles_dependencies
            &&& now.cell_dependents == from.cell_dependents
            &&& now.cell_data == from.cell_data
            &&& now.cell_type_max_index == from.cell_type_max_index
            &&& now.flags.contains(TaskFlag::DataRestored) <==> prepared.data is Some
                || found.storage@.flags.contains(TaskFlag::DataRestored)
        }),
        ({
            let prepared = before.tasks@[before.phase->Merge_0 as int];
            let from = if prepared.meta is Some && !found.storage@.flags.contains(
                TaskFlag::MetaRestored,
            ) {
                prepared.meta->0@
            } else {
                found.storage@
            };
            let now = left.storage@;
            &&& now.aggregation_number == from.aggregation_number
            &&& now.output == from.output
            &&& now.upper == from.upper
            &&& now.collectibles == from.collectibles
            &&& now.aggregated_collectibles == from.aggregated_collectibles
            &&& now.dirty == from.dirty
            &&& now.aggregated_dirty_container_count == from.aggregated_dirty_container_count
            &&& now.aggregated_dirty_containers == from.aggregated_dirty_containers
            &&& now.children == from.children
            &&& now.followers == from.followers
            &&& now.collectibles_dependents == from.collectibles_dependents
            &&& now.flags.contains(TaskFlag::Invalidator) == from.flags.contains(
                TaskFlag::Invalidator,
            )
            &&& now.flags.contains(TaskFlag::Immutable) == from.flags.contains(TaskFlag::Immutable)
            &&& now.flags.contains(TaskFlag::MetaRestored) <==> prepared.meta is Some
                || found.storage@.flags.contains(TaskFlag::MetaRestored)
        }),
        ({
            let now = left.storage@;
            let then = found.storage@;
            &&& now.outdated_collectibles == then.outdated_collectibles
            &&& now.aggregated_current_session_clean_container_count == then.aggregated_current_session_clean_container_count
            &&& now.aggregated_current_session_clean_containers == then.aggregated_current_session_clean_containers
            &&& now.outdated_output_dependencies == then.outdated_output_dependencies
            &&& now.outdated_cell_dependencies == then.outdated_cell_dependencies
            &&& now.outdated_collectibles_dependencies == then.outdated_collectibles_dependencies
            &&& now.transient_cell_data == then.transient_cell_data
            &&& now.activeness == then.activeness
            &&& now.in_progress == then.in_progress
            &&& now.in_progress_cells == then.in_progress_cells
            &&& flag != TaskFlag::MetaRestored && flag != TaskFlag::DataRestored && flag
                != TaskFlag::Invalidator && flag != TaskFlag::Immutable
                ==> now.flags.contains(flag) == then.flags.contains(flag)
        }),
        callback == Some(
            (
                before.tasks@[before.phase->Merge_0 as int].task_id,
                before.tasks@[before.phase->Merge_0 as int].category,
            ),
        ),
{
}

/// Looking at a task changes nothing of it. It is handed over at once where nothing that it is asked
/// for is missing, and otherwise it is noted which parts are.
pub proof fn law_looking_at_a_task_changes_nothing(
    before: TaskPreparation,
    after: TaskPreparation,
    found: StorageWriteGuard,
    left: StorageWriteGuard,
    callback: Option<(TaskId, TaskDataCategory)>,
)
    requires
        before.wf(),
        opening(before, after, found, left, callback),
        before.phase is Inspect,
    ensures
        left == found,
        ({
            let i = before.phase->Inspect_0;
            let task = before.tasks@[i as int];
            let no_data = task.category != TaskDataCategory::Meta && !found.storage@.flags.contains(
                TaskFlag::DataRestored,
            );
            let no_meta = task.category != TaskDataCategory::Data && !found.storage@.flags.contains(
                TaskFlag::MetaRestored,
            );
            &&& callback is None <==> no_data || no_meta
            &&& callback is Some ==> callback->0 == (task.task_id, task.category)
            &&& no_data ==> after.data_indices@ == before.data_indices@.push(i)
            &&& !no_data ==> after.data_indices@ == before.data_indices@
            &&& no_meta ==> after.meta_indices@ == before.meta_indices@.push(i)
            &&& !no_meta ==> after.meta_indices@ == before.meta_indices@
        }),
{
    assert(before.requests().len() == before.tasks@.len());
    let i = before.phase->Inspect_0 as int;
    assert(before.requests()[i] == before.tasks@[i].request());
}

/// A transient task that is opened is handed over as it was asked for, with its content as it is
/// found, and with all that was asked for marked as restored.
pub proof fn law_opening_a_transient_task_keeps_its_content(
    before: TaskPreparation,
    after: TaskPreparation,
    found: StorageWriteGuard,
    left: StorageWriteGuard,
    callback: Option<(TaskId, TaskDataCategory)>,
)
    requires
        opening(before, after, found, left, callback),
        before.phase is Transient,
    ensures
        callback == Some(before.transient@[before.phase->Transient_0 as int]),
        same_meta(left.storage@, found.storage@),
        same_data(left.storage@, found.storage@),
        same_transient(left.storage@, found.storage@),
        (callback->0).1 != TaskDataCategory::Data ==> left.storage@.flags.contains(
            TaskFlag::MetaRestored,
        ),
        (callback->0).1 != TaskDataCategory::Meta ==> left.storage@.flags.contains(
            TaskFlag::DataRestored,
        ),
        found.storage@.flags.subset_of(left.storage@.flags),
{
}

/// Whatever is told, a preparation is nearer to its end afterwards.
pub proof fn law_a_preparation_comes_to_its_end(
    before: TaskPreparation,
    after: TaskPreparation,
    found: StorageWriteGuard,
    left: StorageWriteGuard,
    callback: Option<(TaskId, TaskDataCategory)>,
    storages: Seq<TaskStorage>,
)
    requires
        opening(before, after, found, left, callback) || loading(before, after, storages),
    ensures
        after.steps_left() < before.steps_left(),
        after.tasks@.len() == before.tasks@.len(),
        after.transient@ == before.transient@,
{
    assert(after.requests().len() == after.tasks@.len());
    assert(before.requests().len() == before.tasks@.len());
}

/// Where persisted data need not be looked at, nothing has been read: for each of the tasks a
/// storage in which there is nothing.
pub proof fn law_nothing_is_an_empty_storage_for_each(
    storages: Seq<TaskStorage>,
    n: nat,
    m: int,
    flag: TaskFlag,
)
    requires
        nothing(storages, n),
    ensures
        storages.len() == n,
        0 <= m < n ==> {
            &&& storages[m].wf()
            &&& same_meta(storages[m]@, TaskStorageSchema::empty())
            &&& same_data(storages[m]@, TaskStorageSchema::empty())
            &&& same_transient(storages[m]@, TaskStorageSchema::empty())
            &&& !storages[m]@.flags.contains(flag)
        },
{
}

} // verus!
