//! What comes of preparing a list of tasks from beginning to end, while nobody else touches them.
use vstd::prelude::*;

use crate::category::{SpecificTaskDataCategory, TaskDataCategory};
use crate::ids::{transient, TaskId};
use crate::prepare::{
    begins, has_index, inspect_start, law_merging_again_changes_nothing,
    law_what_is_missing_is_read_in_order, law_what_is_read_is_kept, lemma_has_index_push,
    lemma_read_is_asked_for, loading, loads, misses, opening, persistent_requests,
    transient_opened, transient_requests, PreparePhase, PrepareStep, PreparedTask,
    TaskPreparation,
};
use crate::storage_schema::{same_data, same_meta, TaskStorage, TaskStorageSchema};
use crate::task_access::maybe_offered;
use crate::task_flags::{restored, TaskFlag};
use crate::task_guard_impl::StorageWriteGuard;

verus! {

/// A preparation together with what is stored for each task.
pub struct PreparationState {
    pub preparation: TaskPreparation,
    pub tasks: spec_fn(TaskId) -> TaskStorageSchema,
}

impl PreparationState {
    /// The task that is opened next.
    pub open spec fn next_task(self) -> TaskId {
        match self.preparation.phase {
            PreparePhase::Transient(i) => self.preparation.transient@[i as int].0,
            PreparePhase::Inspect(i) | PreparePhase::Merge(i) => self.preparation.requests()[i as int].0,
            _ => 0,
        }
    }

    /// Whether a request is met: what is asked for has been restored.
    pub open spec fn meets(self, request: (TaskId, TaskDataCategory)) -> bool {
        restored((self.tasks)(request.0).flags, request.1)
    }
}

/// Whether a step of a preparation goes from `before` to `after`: a task is opened and left by the
/// callback as it is handed over, or persisted data is read for all tasks for which it is asked.
pub open spec fn steps(before: PreparationState, after: PreparationState) -> bool {
    &&& after.preparation.wf()
    &&& match before.preparation.phase {
        PreparePhase::Transient(_) | PreparePhase::Inspect(_) | PreparePhase::Merge(_) => exists|
            found: StorageWriteGuard,
            left: StorageWriteGuard,
            callback: Option<(TaskId, TaskDataCategory)>,
        |
            {
                &&& #[trigger] opening(
                    before.preparation,
                    after.preparation,
                    found,
                    left,
                    callback,
                )
                &&& found.storage@ == (before.tasks)(before.next_task())
                &&& forall|task: TaskId| #[trigger]
                    (after.tasks)(task) == (if task == before.next_task() {
                        left.storage@
                    } else {
                        (before.tasks)(task)
                    })
            },
        PreparePhase::RestoreData | PreparePhase::RestoreMeta => {
            &&& after.tasks == before.tasks
            &&& exists|storages: Seq<TaskStorage>| #[trigger]
                loading(before.preparation, after.preparation, storages) && storages.len()
                    >= before.preparation.indices_to_load().len()
        },
        PreparePhase::Done => false,
    }
}

/// Whether `states` are those of a preparation of the tasks that are asked for, from its beginning.
pub open spec fn is_run(
    states: Seq<PreparationState>,
    requests: Seq<(TaskId, TaskDataCategory)>,
    call_for_transient_tasks: bool,
) -> bool {
    &&& states.len() > 0
    &&& states[0].preparation.wf()
    &&& begins(states[0].preparation, requests, call_for_transient_tasks)
    &&& forall|j: int|
        0 <= j < states.len() - 1 ==> steps(#[trigger] states[j], states[j + 1])
}

/// Whether a run has come to its end.
pub open spec fn is_complete_run(
    states: Seq<PreparationState>,
    requests: Seq<(TaskId, TaskDataCategory)>,
    call_for_transient_tasks: bool,
) -> bool {
    &&& is_run(states, requests, call_for_transient_tasks)
    &&& states.last().preparation.phase is Done
}

/// Whether each part of the request at `k` has been restored or is asked for.
spec fn settled(state: PreparationState, k: int) -> bool {
    let request = state.preparation.requests()[k];
    let flags = (state.tasks)(request.0).flags;
    &&& request.1.covers(SpecificTaskDataCategory::Data) ==> restored(flags, TaskDataCategory::Data)
        || has_index(state.preparation.data_indices@, k)
    &&& request.1.covers(SpecificTaskDataCategory::Meta) ==> restored(flags, TaskDataCategory::Meta)
        || has_index(state.preparation.meta_indices@, k)
}

/// Whether persisted data is asked for exactly where it was missing for the request at `k`.
pub open spec fn asks_for_what_is_missing(
    start: spec_fn(TaskId) -> TaskStorageSchema,
    preparation: TaskPreparation,
    k: int,
) -> bool {
    let request = preparation.requests()[k];
    &&& has_index(preparation.data_indices@, k) <==> misses(
        start(request.0),
        request.1,
        SpecificTaskDataCategory::Data,
    )
    &&& has_index(preparation.meta_indices@, k) <==> misses(
        start(request.0),
        request.1,
        SpecificTaskDataCategory::Meta,
    )
}

/// What holds in every state of a run that begins with the tasks as in `start`.
spec fn run_inv(
    start: spec_fn(TaskId) -> TaskStorageSchema,
    state: PreparationState,
    requests: Seq<(TaskId, TaskDataCategory)>,
    call_for_transient_tasks: bool,
) -> bool {
    let preparation = state.preparation;
    let n = preparation.tasks@.len() as int;
    let t = preparation.transient@.len() as int;
    &&& preparation.wf()
    &&& !preparation.fell_short@
    &&& preparation.transient@ == (if call_for_transient_tasks {
        transient_requests(requests)
    } else {
        Seq::empty()
    })
    &&& preparation.requests() == persistent_requests(requests)
    &&& !call_for_transient_tasks ==> forall|task: TaskId|
        transient(task) ==> #[trigger] (state.tasks)(task) == start(task)
    &&& match preparation.phase {
        PreparePhase::Transient(i) => {
            &&& forall|task: TaskId|
                !transient(task) ==> #[trigger] (state.tasks)(task) == start(task)
            &&& forall|k: int| 0 <= k < i ==> state.meets(#[trigger] preparation.transient@[k])
        },
        PreparePhase::Inspect(i) => {
            &&& forall|task: TaskId|
                !transient(task) ==> #[trigger] (state.tasks)(task) == start(task)
            &&& forall|k: int| 0 <= k < t ==> state.meets(#[trigger] preparation.transient@[k])
            &&& forall|k: int|
                0 <= k < i ==> #[trigger] settled(state, k) && asks_for_what_is_missing(
                    start,
                    preparation,
                    k,
                )
        },
        PreparePhase::RestoreData | PreparePhase::RestoreMeta => {
            &&& forall|task: TaskId|
                !transient(task) ==> #[trigger] (state.tasks)(task) == start(task)
            &&& forall|k: int| 0 <= k < t ==> state.meets(#[trigger] preparation.transient@[k])
            &&& forall|k: int|
                0 <= k < n ==> #[trigger] settled(state, k) && asks_for_what_is_missing(
                    start,
                    preparation,
                    k,
                )
        },
        PreparePhase::Merge(i) => {
            &&& forall|k: int| 0 <= k < t ==> state.meets(#[trigger] preparation.transient@[k])
            &&& forall|k: int| 0 <= k < n ==> #[trigger] settled(state, k)
            &&& forall|k: int|
                0 <= k < n ==> #[trigger] asks_for_what_is_missing(start, preparation, k)
            &&& forall|k: int| 0 <= k < i ==> state.meets(#[trigger] preparation.requests()[k])
        },
        PreparePhase::Done => {
            &&& forall|k: int| 0 <= k < t ==> state.meets(#[trigger] preparation.transient@[k])
            &&& forall|k: int| 0 <= k < n ==> state.meets(#[trigger] preparation.requests()[k])
            &&& forall|k: int|
                0 <= k < n ==> #[trigger] asks_for_what_is_missing(start, preparation, k)
        },
    }
}

/// Opening a task takes no restored part back.
proof fn lemma_opening_keeps_restored(
    before: TaskPreparation,
    after: TaskPreparation,
    found: StorageWriteGuard,
    left: StorageWriteGuard,
    callback: Option<(TaskId, TaskDataCategory)>,
    category: TaskDataCategory,
)
    requires
        opening(before, after, found, left, callback),
        restored(found.storage@.flags, category),
    ensures
        restored(left.storage@.flags, category),
{
}

/// The transient ones of the requests are transient, and the others are not.
proof fn lemma_requests_split(requests: Seq<(TaskId, TaskDataCategory)>)
    ensures
        forall|k: int|
            0 <= k < transient_requests(requests).len() ==> transient(
                (#[trigger] transient_requests(requests)[k]).0,
            ),
        forall|k: int|
            0 <= k < persistent_requests(requests).len() ==> !transient(
                (#[trigger] persistent_requests(requests)[k]).0,
            ),
{
    let is_transient = |request: (TaskId, TaskDataCategory)| transient(request.0);
    let is_persistent = |request: (TaskId, TaskDataCategory)| !transient(request.0);
    assert forall|k: int| 0 <= k < transient_requests(requests).len() implies transient(
        (#[trigger] transient_requests(requests)[k]).0,
    ) by {
        requests.lemma_filter_pred(is_transient, k);
    }
    assert forall|k: int| 0 <= k < persistent_requests(requests).len() implies !transient(
        (#[trigger] persistent_requests(requests)[k]).0,
    ) by {
        requests.lemma_filter_pred(is_persistent, k);
    }
}

/// A step that opens a task finds it as it was before, and touches no other.
proof fn lemma_task_opened(before: PreparationState, after: PreparationState) -> (opened: (
    StorageWriteGuard,
    StorageWriteGuard,
    Option<(TaskId, TaskDataCategory)>,
))
    requires
        steps(before, after),
        before.preparation.phase is Transient || before.preparation.phase is Inspect
            || before.preparation.phase is Merge,
    ensures
        opening(before.preparation, after.preparation, opened.0, opened.1, opened.2),
        opened.0.storage@ == (before.tasks)(before.next_task()),
        forall|task: TaskId| #[trigger]
            (after.tasks)(task) == (if task == before.next_task() {
                opened.1.storage@
            } else {
                (before.tasks)(task)
            }),
{
    choose|
        found: StorageWriteGuard,
        left: StorageWriteGuard,
        callback: Option<(TaskId, TaskDataCategory)>,
    |
        {
            &&& #[trigger] opening(
                before.preparation,
                after.preparation,
                found,
                left,
                callback,
            )
            &&& found.storage@ == (before.tasks)(before.next_task())
            &&& forall|task: TaskId| #[trigger]
                (after.tasks)(task) == (if task == before.next_task() {
                    left.storage@
                } else {
                    (before.tasks)(task)
                })
        }
}

/// A step keeps what holds in every state of a run.
proof fn lemma_step(
    start: spec_fn(TaskId) -> TaskStorageSchema,
    before: PreparationState,
    after: PreparationState,
    requests: Seq<(TaskId, TaskDataCategory)>,
    call_for_transient_tasks: bool,
)
    requires
        run_inv(start, before, requests, call_for_transient_tasks),
        steps(before, after),
    ensures
        run_inv(start, after, requests, call_for_transient_tasks),
{
    lemma_requests_split(requests);
    let p = before.preparation;
    let q = after.preparation;
    let n = p.tasks@.len() as int;
    assert(p.requests().len() == n);
    assert(q.requests().len() == q.tasks@.len());
    match p.phase {
        PreparePhase::RestoreData | PreparePhase::RestoreMeta => {
            assert forall|k: int| 0 <= k < n implies #[trigger] settled(after, k) by {
                assert(settled(before, k));
            }
            assert forall|k: int| 0 <= k < n implies #[trigger] asks_for_what_is_missing(
                start,
                q,
                k,
            ) by {
                assert(settled(before, k));
            }
            if !(q.phase is RestoreMeta) {
                let next = match q.phase {
                    PreparePhase::Merge(k) => k as int,
                    _ => n,
                };
                assert forall|k: int| 0 <= k < next implies after.meets(
                    #[trigger] q.requests()[k],
                ) by {
                    assert(!q.tasks@[k].has_storage());
                    assert(!q.pending(k));
                    assert(settled(after, k));
                }
            }
        },
        PreparePhase::Transient(_) | PreparePhase::Inspect(_) | PreparePhase::Merge(_) => {
            let (found, left, callback) = lemma_task_opened(before, after);
            lemma_opened(start, before, after, found, left, callback, requests, call_for_transient_tasks);
        },
        PreparePhase::Done => {},
    }
}

/// Opening a task keeps what holds in every state of a run.
#[verifier::spinoff_prover]
proof fn lemma_opened(
    start: spec_fn(TaskId) -> TaskStorageSchema,
    before: PreparationState,
    after: PreparationState,
    found: StorageWriteGuard,
    left: StorageWriteGuard,
    callback: Option<(TaskId, TaskDataCategory)>,
    requests: Seq<(TaskId, TaskDataCategory)>,
    call_for_transient_tasks: bool,
)
    requires
        run_inv(start, before, requests, call_for_transient_tasks),
        after.preparation.wf(),
        opening(before.preparation, after.preparation, found, left, callback),
        found.storage@ == (before.tasks)(before.next_task()),
        forall|task: TaskId| #[trigger]
            (after.tasks)(task) == (if task == before.next_task() {
                left.storage@
            } else {
                (before.tasks)(task)
            }),
    ensures
        run_inv(start, after, requests, call_for_transient_tasks),
{
    lemma_requests_split(requests);
    let p = before.preparation;
    let q = after.preparation;
    let n = p.tasks@.len() as int;
    assert(p.requests().len() == n);
    assert(q.requests().len() == q.tasks@.len());
    assert forall|request: (TaskId, TaskDataCategory)| before.meets(request) implies #[trigger] after.meets(
        request,
    ) by {
        if request.0 == before.next_task() {
            lemma_opening_keeps_restored(p, q, found, left, callback, request.1);
        }
    }
    match p.phase {
        PreparePhase::Transient(i) => {
            assert(transient(p.transient@[i as int].0));
            assert forall|k: int| 0 <= k <= i implies after.meets(#[trigger] q.transient@[k]) by {
                if k < i {
                    assert(before.meets(p.transient@[k]));
                } else {
                    assert(left.storage@ == transient_opened(found.storage@, p.transient@[k].1));
                }
            }
            assert forall|task: TaskId| !transient(task) implies #[trigger] (after.tasks)(task)
                == start(task) by {
                assert((before.tasks)(task) == start(task));
            }
            assert(call_for_transient_tasks);
            assert(q.phase is Transient || q.phase == inspect_start(p.tasks@.len()));
        },
        PreparePhase::Inspect(i) => {
            assert(!transient(p.requests()[i as int].0));
            assert(left.storage@ == found.storage@);
            assert forall|task: TaskId| #[trigger] (after.tasks)(task) == (before.tasks)(task) by {}
            assert forall|k: int| 0 <= k < q.transient@.len() implies after.meets(
                #[trigger] q.transient@[k],
            ) by {
                assert(before.meets(p.transient@[k]));
            }
            assert forall|k: int| 0 <= k <= i implies #[trigger] settled(after, k)
                && asks_for_what_is_missing(start, q, k) by {
                lemma_has_index_push(p.data_indices@, i, k);
                lemma_has_index_push(p.meta_indices@, i, k);
                if k < i {
                    assert(settled(before, k));
                } else {
                    assert(!has_index(p.data_indices@, k));
                    assert(!has_index(p.meta_indices@, k));
                }
            }
            if q.phase is Done {
                assert forall|k: int| 0 <= k < n implies after.meets(
                    #[trigger] q.requests()[k],
                ) by {
                    assert(settled(after, k));
                }
                assert forall|k: int| 0 <= k < n implies #[trigger] asks_for_what_is_missing(
                    start,
                    q,
                    k,
                ) by {
                    assert(settled(after, k));
                }
            }
        },
        PreparePhase::Merge(i) => {
            assert(!transient(p.requests()[i as int].0));
            assert forall|k: int| 0 <= k < n implies #[trigger] asks_for_what_is_missing(
                start,
                q,
                k,
            ) by {
                assert(asks_for_what_is_missing(start, p, k));
            }
            assert forall|k: int| 0 <= k < q.transient@.len() implies after.meets(
                #[trigger] q.transient@[k],
            ) by {
                assert(before.meets(p.transient@[k]));
            }
            assert forall|k: int| 0 <= k < n implies #[trigger] settled(after, k) by {
                assert(settled(before, k));
                let request = p.requests()[k];
                if restored((before.tasks)(request.0).flags, TaskDataCategory::Data) {
                    assert(before.meets((request.0, TaskDataCategory::Data)));
                    assert(after.meets((request.0, TaskDataCategory::Data)));
                }
                if restored((before.tasks)(request.0).flags, TaskDataCategory::Meta) {
                    assert(before.meets((request.0, TaskDataCategory::Meta)));
                    assert(after.meets((request.0, TaskDataCategory::Meta)));
                }
            }
            let next = match q.phase {
                PreparePhase::Merge(k) => k as int,
                _ => n,
            };
            assert forall|k: int| 0 <= k < next implies after.meets(#[trigger] q.requests()[k]) by {
                if k < i {
                    assert(before.meets(p.requests()[k]));
                } else if k == i {
                    assert(settled(before, k));
                    let task = p.tasks@[k];
                    assert(has_index(p.data_indices@, k) ==> task.data is Some);
                    assert(left.storage@ == maybe_offered(
                        maybe_offered(found.storage@, task.data, TaskDataCategory::Data),
                        task.meta,
                        TaskDataCategory::Meta,
                    ));
                } else {
                    assert(!p.tasks@[k].has_storage());
                    assert(!p.pending(k));
                    assert(settled(after, k));
                }
            }
        },
        _ => {},
    }
}

/// What holds in every state of a run.
proof fn lemma_run(
    states: Seq<PreparationState>,
    requests: Seq<(TaskId, TaskDataCategory)>,
    call_for_transient_tasks: bool,
    j: int,
)
    requires
        is_run(states, requests, call_for_transient_tasks),
        0 <= j < states.len(),
    ensures
        run_inv(states[0].tasks, states[j], requests, call_for_transient_tasks),
    decreases j,
{
    if j > 0 {
        lemma_run(states, requests, call_for_transient_tasks, j - 1);
        assert(steps(states[j - 1], states[j - 1 + 1]));
        lemma_step(
            states[0].tasks,
            states[j - 1],
            states[j],
            requests,
            call_for_transient_tasks,
        );
    }
}

/// Once tasks have been prepared, all that was asked for has been restored. Transient tasks are
/// untouched, unless they are to be handed over, and then they count as restored.
pub proof fn law_preparing_restores_what_is_asked_for(
    states: Seq<PreparationState>,
    requests: Seq<(TaskId, TaskDataCategory)>,
    call_for_transient_tasks: bool,
    task: TaskId,
)
    requires
        is_complete_run(states, requests, call_for_transient_tasks),
    ensures
        forall|k: int|
            0 <= k < requests.len() && (call_for_transient_tasks || !transient(requests[k].0))
                ==> states.last().meets(#[trigger] requests[k]),
        !call_for_transient_tasks && transient(task) ==> (states.last().tasks)(task) == (
        states[0].tasks)(task),
{
    let last = states.len() - 1;
    lemma_run(states, requests, call_for_transient_tasks, last);
    let preparation = states[last].preparation;
    let is_transient = |request: (TaskId, TaskDataCategory)| transient(request.0);
    let is_persistent = |request: (TaskId, TaskDataCategory)| !transient(request.0);
    assert forall|k: int|
        0 <= k < requests.len() && (call_for_transient_tasks || !transient(
            requests[k].0,
        )) implies states.last().meets(#[trigger] requests[k]) by {
        if transient(requests[k].0) {
            requests.lemma_filter_contains(is_transient, k);
            let all = transient_requests(requests);
            let m = choose|m: int| 0 <= m < all.len() && all[m] == requests[k];
            assert(states[last].meets(preparation.transient@[m]));
        } else {
            requests.lemma_filter_contains(is_persistent, k);
            let all = persistent_requests(requests);
            let m = choose|m: int| 0 <= m < all.len() && all[m] == requests[k];
            assert(preparation.requests().len() == preparation.tasks@.len());
            assert(states[last].meets(preparation.requests()[m]));
        }
    }
}

/// Persisted data is asked for exactly where it is missing when the preparation begins: once for
/// each request, so more than once for a task that is asked for more than once.
pub proof fn law_each_missing_part_is_asked_for(
    states: Seq<PreparationState>,
    requests: Seq<(TaskId, TaskDataCategory)>,
    call_for_transient_tasks: bool,
    j: int,
    k: int,
)
    requires
        is_run(states, requests, call_for_transient_tasks),
        0 <= j < states.len(),
        states[j].preparation.phase is RestoreData || states[j].preparation.phase is RestoreMeta,
        0 <= k < persistent_requests(requests).len(),
    ensures
        states[j].preparation.requests() == persistent_requests(requests),
        asks_for_what_is_missing(states[0].tasks, states[j].preparation, k),
{
    lemma_run(states, requests, call_for_transient_tasks, j);
    assert(states[j].preparation.requests().len() == states[j].preparation.tasks@.len());
    assert(settled(states[j], k));
}

/// Persisted data that has been read for two like requests is merged once: handing the task over
/// for the second one leaves every task as it is.
pub proof fn law_like_requests_are_merged_once(
    states: Seq<PreparationState>,
    requests: Seq<(TaskId, TaskDataCategory)>,
    call_for_transient_tasks: bool,
    j: int,
    k: int,
    task: TaskId,
)
    requires
        is_run(states, requests, call_for_transient_tasks),
        0 <= j < states.len() - 1,
        states[j].preparation.phase matches PreparePhase::Merge(i) && 0 <= k < i
            && states[j].preparation.requests()[k] == states[j].preparation.requests()[i as int],
    ensures
        (states[j + 1].tasks)(task) == (states[j].tasks)(task),
{
    lemma_run(states, requests, call_for_transient_tasks, j);
    let before = states[j];
    let after = states[j + 1];
    let p = before.preparation;
    let q = after.preparation;
    assert(steps(states[j], states[j + 1]));
    assert(before.meets(p.requests()[k]));
    let (found, left, callback) = lemma_task_opened(before, after);
    law_merging_again_changes_nothing(p, q, found, left, callback->0);
}

/// Preparing tasks of which all that is asked for has been restored reads nothing and changes
/// nothing.
pub proof fn law_preparing_restored_tasks_changes_nothing(
    states: Seq<PreparationState>,
    requests: Seq<(TaskId, TaskDataCategory)>,
    call_for_transient_tasks: bool,
    j: int,
    task: TaskId,
)
    requires
        is_run(states, requests, call_for_transient_tasks),
        forall|k: int|
            0 <= k < requests.len() && (call_for_transient_tasks || !transient(requests[k].0))
                ==> states[0].meets(#[trigger] requests[k]),
        0 <= j < states.len(),
    ensures
        !(states[j].preparation.phase is RestoreData),
        !(states[j].preparation.phase is RestoreMeta),
        (states[j].tasks)(task) == (states[0].tasks)(task),
    decreases j,
{
    lemma_run(states, requests, call_for_transient_tasks, j);
    lemma_all_met(states[0], requests, call_for_transient_tasks);
    let preparation = states[j].preparation;
    assert(preparation.requests().len() == preparation.tasks@.len());
    if j > 0 {
        assert(steps(states[j - 1], states[j - 1 + 1]));
        lemma_run(states, requests, call_for_transient_tasks, j - 1);
        let earlier = states[j - 1];
        assert forall|other: TaskId| #[trigger] (earlier.tasks)(other) == (states[0].tasks)(
            other,
        ) by {
            law_preparing_restored_tasks_changes_nothing(
                states,
                requests,
                call_for_transient_tasks,
                j - 1,
                other,
            );
        }
        law_preparing_restored_tasks_changes_nothing(
            states,
            requests,
            call_for_transient_tasks,
            j - 1,
            task,
        );
        lemma_restored_step(
            states[0],
            states[j - 1],
            states[j],
            requests,
            call_for_transient_tasks,
            task,
        );
    }
    if preparation.phase is RestoreData {
        let k = preparation.data_indices@[0] as int;
        assert(has_index(preparation.data_indices@, k));
        assert(settled(states[j], k));
        assert(states[0].meets(persistent_requests(requests)[k]));
    }
    if preparation.phase is RestoreMeta {
        let k = preparation.meta_indices@[0] as int;
        assert(has_index(preparation.meta_indices@, k));
        assert(settled(states[j], k));
        assert(states[0].meets(persistent_requests(requests)[k]));
    }
}

/// The requests that are met are so however they are listed.
proof fn lemma_all_met(
    state: PreparationState,
    requests: Seq<(TaskId, TaskDataCategory)>,
    call_for_transient_tasks: bool,
)
    requires
        forall|k: int|
            0 <= k < requests.len() && (call_for_transient_tasks || !transient(requests[k].0))
                ==> state.meets(#[trigger] requests[k]),
    ensures
        forall|k: int|
            0 <= k < persistent_requests(requests).len() ==> state.meets(
                #[trigger] persistent_requests(requests)[k],
            ),
        call_for_transient_tasks ==> forall|k: int|
            0 <= k < transient_requests(requests).len() ==> state.meets(
                #[trigger] transient_requests(requests)[k],
            ),
    decreases requests.len(),
{
    reveal(Seq::filter);
    if requests.len() > 0 {
        let rest = requests.drop_last();
        assert forall|k: int|
            0 <= k < rest.len() && (call_for_transient_tasks || !transient(
                rest[k].0,
            )) implies state.meets(#[trigger] rest[k]) by {
            assert(state.meets(requests[k]));
        }
        lemma_all_met(state, rest, call_for_transient_tasks);
        let last = requests[requests.len() - 1];
        assert(call_for_transient_tasks || !transient(last.0) ==> state.meets(last));
        assert forall|k: int| 0 <= k < persistent_requests(requests).len() implies state.meets(
            #[trigger] persistent_requests(requests)[k],
        ) by {
            if k < persistent_requests(rest).len() {
                assert(state.meets(persistent_requests(rest)[k]));
            }
        }
        if call_for_transient_tasks {
            assert forall|k: int| 0 <= k < transient_requests(requests).len() implies state.meets(
                #[trigger] transient_requests(requests)[k],
            ) by {
                if k < transient_requests(rest).len() {
                    assert(state.meets(transient_requests(rest)[k]));
                }
            }
        }
    }
}

/// A step in which every task is found as in `start`, with all that is asked for restored.
proof fn lemma_restored_step(
    start: PreparationState,
    before: PreparationState,
    after: PreparationState,
    requests: Seq<(TaskId, TaskDataCategory)>,
    call_for_transient_tasks: bool,
    task: TaskId,
)
    requires
        run_inv(start.tasks, before, requests, call_for_transient_tasks),
        steps(before, after),
        forall|other: TaskId| #[trigger] (before.tasks)(other) == (start.tasks)(other),
        forall|k: int|
            0 <= k < persistent_requests(requests).len() ==> start.meets(
                #[trigger] persistent_requests(requests)[k],
            ),
        call_for_transient_tasks ==> forall|k: int|
            0 <= k < transient_requests(requests).len() ==> start.meets(
                #[trigger] transient_requests(requests)[k],
            ),
    ensures
        (after.tasks)(task) == (start.tasks)(task),
{
    let p = before.preparation;
    let q = after.preparation;
    assert(p.requests().len() == p.tasks@.len());
    if p.phase is Transient || p.phase is Inspect || p.phase is Merge {
        let (found, left, callback) = lemma_task_opened(before, after);
        match p.phase {
            PreparePhase::Transient(i) => {
                assert(start.meets(transient_requests(requests)[i as int]));
            },
            PreparePhase::Merge(i) => {
                assert(start.meets(persistent_requests(requests)[i as int]));
                law_merging_again_changes_nothing(p, q, found, left, callback->0);
            },
            _ => {},
        }
    }
}

/// Preparing the same tasks again reads nothing and changes nothing.
pub proof fn law_preparing_again_changes_nothing(
    first: Seq<PreparationState>,
    second: Seq<PreparationState>,
    requests: Seq<(TaskId, TaskDataCategory)>,
    call_for_transient_tasks: bool,
    j: int,
    task: TaskId,
)
    requires
        is_complete_run(first, requests, call_for_transient_tasks),
        is_run(second, requests, call_for_transient_tasks),
        second[0].tasks == first.last().tasks,
        0 <= j < second.len(),
    ensures
        !(second[j].preparation.phase is RestoreData),
        !(second[j].preparation.phase is RestoreMeta),
        (second[j].tasks)(task) == (second[0].tasks)(task),
{
    law_preparing_restores_what_is_asked_for(first, requests, call_for_transient_tasks, task);
    assert forall|k: int|
        0 <= k < requests.len() && (call_for_transient_tasks || !transient(
            requests[k].0,
        )) implies second[0].meets(#[trigger] requests[k]) by {
        assert(first.last().meets(requests[k]));
    }
    law_preparing_restored_tasks_changes_nothing(
        second,
        requests,
        call_for_transient_tasks,
        j,
        task,
    );
}

/// Whether a part of a task is asked for.
pub open spec fn asked_for(
    requests: Seq<(TaskId, TaskDataCategory)>,
    task: TaskId,
    part: SpecificTaskDataCategory,
) -> bool {
    exists|k: int|
        0 <= k < requests.len() && (#[trigger] requests[k]).0 == task && requests[k].1.covers(part)
}

/// Whether the two differ at most in persisted content, and in what of it counts as restored.
pub open spec fn same_but_persisted(before: TaskStorageSchema, after: TaskStorageSchema) -> bool {
    let back = after.restored_from(before, TaskDataCategory::All);
    &&& back == (TaskStorageSchema { flags: back.flags, ..before })
    &&& forall|flag: TaskFlag|
        !(flag is MetaRestored || flag is DataRestored) ==> #[trigger] back.flags.contains(flag)
            == before.flags.contains(flag)
}

/// What is kept of a part of a task that is found as in `start`: its content, where it has been
/// restored or is not to be read, and all that is not persisted.
spec fn kept(
    start: TaskStorageSchema,
    now: TaskStorageSchema,
    part: SpecificTaskDataCategory,
    untouched: bool,
) -> bool {
    &&& restored(start.flags, part.as_category()) ==> restored(now.flags, part.as_category())
    &&& restored(start.flags, part.as_category()) || untouched ==> now.restored_from(
        start,
        part.as_category(),
    ) == now
    &&& same_but_persisted(start, now)
}

/// What is kept stays so when persisted data is offered, unless it is of the part that is not to be
/// read.
proof fn lemma_offer_keeps(
    start: TaskStorageSchema,
    now: TaskStorageSchema,
    source: Option<TaskStorage>,
    offered: SpecificTaskDataCategory,
    part: SpecificTaskDataCategory,
    untouched: bool,
)
    requires
        kept(start, now, part, untouched),
        untouched && offered == part ==> source is None,
    ensures
        kept(start, maybe_offered(now, source, offered.as_category()), part, untouched),
        offered != part ==> restored(
            maybe_offered(now, source, offered.as_category()).flags,
            part.as_category(),
        ) == restored(now.flags, part.as_category()),
{
    let after = maybe_offered(now, source, offered.as_category());
    if after != now {
        let all = after.restored_from(start, TaskDataCategory::All);
        let all_before = now.restored_from(start, TaskDataCategory::All);
        assert forall|flag: TaskFlag|
            !(flag is MetaRestored || flag is DataRestored) implies #[trigger] all.flags.contains(
            flag,
        ) == start.flags.contains(flag) by {
            assert(all_before.flags.contains(flag) == start.flags.contains(flag));
        }
        if restored(start.flags, part.as_category()) || untouched {
            assert(offered != part);
            let with = now.restored_from(start, part.as_category());
            let again = after.restored_from(start, part.as_category());
            assert(again.flags =~= after.flags) by {
                assert(with.flags == now.flags);
                assert forall|flag: TaskFlag| again.flags.contains(flag) == #[trigger]
                    after.flags.contains(flag) by {
                    assert(with.flags.contains(flag) == now.flags.contains(flag));
                }
            }
        }
    }
}

/// Opening a transient task keeps its content.
proof fn lemma_opening_transient_keeps(
    start: TaskStorageSchema,
    now: TaskStorageSchema,
    category: TaskDataCategory,
    part: SpecificTaskDataCategory,
)
    requires
        kept(start, now, part, true),
    ensures
        kept(start, transient_opened(now, category), part, true),
{
    let after = transient_opened(now, category);
    let all = after.restored_from(start, TaskDataCategory::All);
    let all_before = now.restored_from(start, TaskDataCategory::All);
    assert forall|flag: TaskFlag|
        !(flag is MetaRestored || flag is DataRestored) implies #[trigger] all.flags.contains(flag)
        == start.flags.contains(flag) by {
        assert(all_before.flags.contains(flag) == start.flags.contains(flag));
    }
    let with = now.restored_from(start, part.as_category());
    let again = after.restored_from(start, part.as_category());
    assert(again.flags =~= after.flags) by {
        assert forall|flag: TaskFlag| again.flags.contains(flag) == #[trigger] after.flags.contains(
            flag,
        ) by {
            assert(with.flags.contains(flag) == now.flags.contains(flag));
        }
    }
}

/// What is not transient of the requests is among them.
proof fn lemma_persistent_asked_for(
    requests: Seq<(TaskId, TaskDataCategory)>,
    k: int,
    part: SpecificTaskDataCategory,
)
    requires
        0 <= k < persistent_requests(requests).len(),
        persistent_requests(requests)[k].1.covers(part),
    ensures
        asked_for(requests, persistent_requests(requests)[k].0, part),
    decreases requests.len(),
{
    reveal(Seq::filter);
    let rest = requests.drop_last();
    let request = persistent_requests(requests)[k];
    if k < persistent_requests(rest).len() {
        lemma_persistent_asked_for(rest, k, part);
        let m = choose|m: int|
            0 <= m < rest.len() && (#[trigger] rest[m]).0 == request.0 && rest[m].1.covers(part);
        assert(requests[m].0 == request.0);
    } else {
        assert(requests[requests.len() - 1].0 == request.0);
    }
}

/// Preparing tasks leaves alone what is not to be read: the content of a part that had been
/// restored when the preparation began, or that is not asked for, stays as it was, as does the
/// content of a transient task. What had been restored counts as restored all along, what is not
/// asked for does not come to, and what is not persisted stays as well.
pub proof fn law_preparing_keeps_the_rest(
    states: Seq<PreparationState>,
    requests: Seq<(TaskId, TaskDataCategory)>,
    call_for_transient_tasks: bool,
    j: int,
    task: TaskId,
    part: SpecificTaskDataCategory,
)
    requires
        is_run(states, requests, call_for_transient_tasks),
        0 <= j < states.len(),
    ensures
        transient(task) || restored((states[0].tasks)(task).flags, part.as_category())
            || !asked_for(requests, task, part) ==> (states[j].tasks)(task).restored_from(
            (states[0].tasks)(task),
            part.as_category(),
        ) == (states[j].tasks)(task),
        restored((states[0].tasks)(task).flags, part.as_category()) ==> restored(
            (states[j].tasks)(task).flags,
            part.as_category(),
        ),
        !transient(task) && !asked_for(requests, task, part) ==> restored(
            (states[j].tasks)(task).flags,
            part.as_category(),
        ) == restored((states[0].tasks)(task).flags, part.as_category()),
        same_but_persisted((states[0].tasks)(task), (states[j].tasks)(task)),
    decreases j,
{
    let start = (states[0].tasks)(task);
    let untouched = transient(task) || !asked_for(requests, task, part);
    if j == 0 {
        assert(start.restored_from(start, TaskDataCategory::All).flags =~= start.flags);
        assert(start.restored_from(start, part.as_category()).flags =~= start.flags);
    } else {
        law_preparing_keeps_the_rest(
            states,
            requests,
            call_for_transient_tasks,
            j - 1,
            task,
            part,
        );
        lemma_run(states, requests, call_for_transient_tasks, j - 1);
        assert(steps(states[j - 1], states[j - 1 + 1]));
        let before = states[j - 1];
        let after = states[j];
        let p = before.preparation;
        assert(kept(start, (before.tasks)(task), part, untouched));
        lemma_requests_split(requests);
        match p.phase {
            PreparePhase::Transient(i) => {
                let (found, left, callback) = lemma_task_opened(before, after);
                assert(transient(p.transient@[i as int].0));
                if task == before.next_task() {
                    lemma_opening_transient_keeps(
                        start,
                        found.storage@,
                        p.transient@[i as int].1,
                        part,
                    );
                }
            },
            PreparePhase::Inspect(_) => {
                let (found, left, callback) = lemma_task_opened(before, after);
            },
            PreparePhase::Merge(i) => {
                let (found, left, callback) = lemma_task_opened(before, after);
                if task == before.next_task() {
                    let prepared = p.tasks@[i as int];
                    assert(p.requests()[i as int] == prepared.request());
                    lemma_read_is_asked_for(p, i as int);
                    if prepared.category.covers(part) {
                        lemma_persistent_asked_for(requests, i as int, part);
                    }
                    let half = maybe_offered(found.storage@, prepared.data, TaskDataCategory::Data);
                    lemma_offer_keeps(
                        start,
                        found.storage@,
                        prepared.data,
                        SpecificTaskDataCategory::Data,
                        part,
                        untouched,
                    );
                    lemma_offer_keeps(
                        start,
                        half,
                        prepared.meta,
                        SpecificTaskDataCategory::Meta,
                        part,
                        untouched,
                    );
                }
            },
            _ => {},
        }
    }
}

/// Which of the tasks miss a part.
spec fn part_indices(preparation: TaskPreparation, part: SpecificTaskDataCategory) -> Seq<usize> {
    match part {
        SpecificTaskDataCategory::Data => preparation.data_indices@,
        SpecificTaskDataCategory::Meta => preparation.meta_indices@,
    }
}

/// What has been read for a part of a task, and not been merged yet.
spec fn part_read(task: PreparedTask, part: SpecificTaskDataCategory) -> Option<TaskStorage> {
    match part {
        SpecificTaskDataCategory::Data => task.data,
        SpecificTaskDataCategory::Meta => task.meta,
    }
}

/// What is read for a part of a task, while it has not been merged yet and once it has.
spec fn carried(
    state: PreparationState,
    k: int,
    part: SpecificTaskDataCategory,
    read: TaskStorage,
) -> bool {
    let preparation = state.preparation;
    let task = preparation.requests()[k].0;
    let waits = part_read(preparation.tasks@[k], part) == Some(read) && !restored((state.tasks)(task).flags, part.as_category());
    let merged = restored((state.tasks)(task).flags, part.as_category())
        && (state.tasks)(task).restored_from(read@, part.as_category()) == (state.tasks)(task);
    &&& 0 <= k < preparation.tasks@.len()
    &&& has_index(part_indices(preparation, part), k)
    &&& forall|l: int|
        0 <= l < k && #[trigger] has_index(part_indices(preparation, part), l)
            ==> preparation.requests()[l].0 != task
    &&& match preparation.phase {
        PreparePhase::RestoreMeta => part is Data && waits,
        PreparePhase::Merge(i) => if i <= k {
            waits
        } else {
            merged
        },
        PreparePhase::Done => merged,
        _ => false,
    }
}

/// What has been merged of a part is left alone when the other part is offered.
proof fn lemma_other_part_is_left(
    now: TaskStorageSchema,
    read: TaskStorageSchema,
    source: Option<TaskStorage>,
    part: SpecificTaskDataCategory,
    other: SpecificTaskDataCategory,
)
    requires
        part != other,
    ensures
        restored(maybe_offered(now, source, other.as_category()).flags, part.as_category())
            == restored(now.flags, part.as_category()),
        now.restored_from(read, part.as_category()) == now ==> ({
            let after = maybe_offered(now, source, other.as_category());
            after.restored_from(read, part.as_category()) == after
        }),
{
    let after = maybe_offered(now, source, other.as_category());
    if now.restored_from(read, part.as_category()) == now && after != now {
        let with = now.restored_from(read, part.as_category());
        let again = after.restored_from(read, part.as_category());
        assert forall|flag: TaskFlag| again.flags.contains(flag) == #[trigger] after.flags.contains(
            flag,
        ) by {
            assert(with.flags.contains(flag) == now.flags.contains(flag));
        }
        assert(again.flags =~= after.flags);
    }
}

/// What is offered of a part that has not been restored is taken.
proof fn lemma_offer_is_taken(
    now: TaskStorageSchema,
    source: TaskStorage,
    part: SpecificTaskDataCategory,
)
    requires
        !restored(now.flags, part.as_category()),
    ensures
        ({
            let after = maybe_offered(now, Some(source), part.as_category());
            &&& restored(after.flags, part.as_category())
            &&& after.restored_from(source@, part.as_category()) == after
        }),
{
    let after = maybe_offered(now, Some(source), part.as_category());
    let again = after.restored_from(source@, part.as_category());
    assert(again.flags =~= after.flags);
}

/// Merging what has been read for one task: what it comes to for a part of a task.
proof fn lemma_merged_part(
    found: TaskStorageSchema,
    prepared: PreparedTask,
    part: SpecificTaskDataCategory,
    read: TaskStorage,
)
    ensures
        ({
            let left = maybe_offered(
                maybe_offered(found, prepared.data, TaskDataCategory::Data),
                prepared.meta,
                TaskDataCategory::Meta,
            );
            // nothing has been read of the part, or it had been restored
            &&& part_read(prepared, part) is None || restored(found.flags, part.as_category()) ==> {
                &&& restored(left.flags, part.as_category()) == restored(
                    found.flags,
                    part.as_category(),
                )
                &&& found.restored_from(read@, part.as_category()) == found
                    ==> left.restored_from(read@, part.as_category()) == left
            }
            // it had been missing
            &&& part_read(prepared, part) == Some(read) && !restored(
                found.flags,
                part.as_category(),
            ) ==> {
                &&& restored(left.flags, part.as_category())
                &&& left.restored_from(read@, part.as_category()) == left
            }
        }),
{
    let half = maybe_offered(found, prepared.data, TaskDataCategory::Data);
    if part is Data {
        if part_read(prepared, part) == Some(read) && !restored(found.flags, part.as_category()) {
            lemma_offer_is_taken(found, read, part);
        }
        lemma_other_part_is_left(half, read@, prepared.meta, part, SpecificTaskDataCategory::Meta);
    } else {
        lemma_other_part_is_left(
            found,
            read@,
            prepared.data,
            part,
            SpecificTaskDataCategory::Data,
        );
        if part_read(prepared, part) == Some(read) && !restored(found.flags, part.as_category()) {
            lemma_offer_is_taken(half, read, part);
        }
    }
}

/// Opening tasks for what has been read for them carries what has been read to its task.
proof fn lemma_merge_carries(
    before: PreparationState,
    after: PreparationState,
    k: int,
    part: SpecificTaskDataCategory,
    read: TaskStorage,
)
    requires
        before.preparation.wf(),
        before.preparation.phase is Merge,
        carried(before, k, part, read),
        steps(before, after),
    ensures
        carried(after, k, part, read),
{
    let p = before.preparation;
    let q = after.preparation;
    let i = p.phase->Merge_0 as int;
    let (found, left, callback) = lemma_task_opened(before, after);
    let prepared = p.tasks@[i];
    let task = p.requests()[k].0;
    assert(p.requests().len() == p.tasks@.len());
    assert(q.requests() == p.requests());
    assert(p.requests()[i] == prepared.request());
    assert(part_indices(q, part) == part_indices(p, part));
    if task == before.next_task() {
        if i < k {
            assert(part_read(prepared, part) is Some ==> has_index(part_indices(p, part), i));
            assert(part_read(prepared, part) is None);
        }
        lemma_merged_part(found.storage@, prepared, part, read);
    }
    if i < k {
        assert(q.tasks@[k] == p.tasks@[k]);
        assert(p.tasks@[k].has_storage());
    }
}

/// Reading the metadata keeps the data that has been read.
proof fn lemma_reading_carries(
    before: PreparationState,
    after: PreparationState,
    k: int,
    part: SpecificTaskDataCategory,
    read: TaskStorage,
)
    requires
        before.preparation.wf(),
        before.preparation.phase is RestoreMeta,
        carried(before, k, part, read),
        steps(before, after),
    ensures
        carried(after, k, part, read),
{
    let p = before.preparation;
    let q = after.preparation;
    let storages = choose|storages: Seq<TaskStorage>| #[trigger]
        loading(p, q, storages) && storages.len() >= p.indices_to_load().len();
    law_what_is_read_is_kept(p, q, storages, 0, k);
    assert(q.requests() == p.requests());
    assert(part_indices(q, part) == part_indices(p, part));
    assert(q.tasks@[k].has_storage());
}

/// What has been read, once it is kept with its task, is carried through to the end.
proof fn lemma_carried(
    states: Seq<PreparationState>,
    requests: Seq<(TaskId, TaskDataCategory)>,
    call_for_transient_tasks: bool,
    j: int,
    later: int,
    k: int,
    part: SpecificTaskDataCategory,
    read: TaskStorage,
)
    requires
        is_run(states, requests, call_for_transient_tasks),
        0 <= j <= later < states.len(),
        carried(states[j], k, part, read),
    ensures
        carried(states[later], k, part, read),
    decreases later - j,
{
    if j < later {
        lemma_carried(states, requests, call_for_transient_tasks, j, later - 1, k, part, read);
        lemma_run(states, requests, call_for_transient_tasks, later - 1);
        assert(steps(states[later - 1], states[later - 1 + 1]));
        let before = states[later - 1];
        match before.preparation.phase {
            PreparePhase::Merge(_) => {
                lemma_merge_carries(before, states[later], k, part, read);
            },
            PreparePhase::RestoreMeta => {
                lemma_reading_carries(before, states[later], k, part, read);
            },
            _ => {},
        }
    }
}

/// What has just been read for a task that is the first to miss the part is carried.
proof fn lemma_read_is_carried(
    states: Seq<PreparationState>,
    requests: Seq<(TaskId, TaskDataCategory)>,
    call_for_transient_tasks: bool,
    j: int,
    storages: Seq<TaskStorage>,
    m: int,
)
    requires
        is_run(states, requests, call_for_transient_tasks),
        0 <= j < states.len() - 1,
        states[j].preparation.phase is RestoreData || states[j].preparation.phase is RestoreMeta,
        loading(states[j].preparation, states[j + 1].preparation, storages),
        0 <= m < states[j].preparation.indices_to_load().len(),
        m < storages.len(),
        forall|l: int|
            0 <= l < m ==> states[j].preparation.requests()[
                #[trigger] states[j].preparation.indices_to_load()[l] as int
            ].0 != states[j].preparation.requests()[
                states[j].preparation.indices_to_load()[m] as int
            ].0,
    ensures
        carried(
            states[j + 1],
            states[j].preparation.indices_to_load()[m] as int,
            if states[j].preparation.phase is RestoreData {
                SpecificTaskDataCategory::Data
            } else {
                SpecificTaskDataCategory::Meta
            },
            storages[m],
        ),
{
    lemma_run(states, requests, call_for_transient_tasks, j);
    lemma_run(states, requests, call_for_transient_tasks, j + 1);
    lemma_requests_split(requests);
    assert(steps(states[j], states[j + 1]));
    let p = states[j].preparation;
    let q = states[j + 1].preparation;
    let indices = p.indices_to_load();
    let k = indices[m] as int;
    assert(p.requests().len() == p.tasks@.len());
    law_what_is_read_is_kept(p, q, storages, m, k);
    assert(has_index(indices, k));
    assert(settled(states[j], k));
    assert(asks_for_what_is_missing(states[0].tasks, p, k));
    let task = p.requests()[k].0;
    assert(!transient(task));
    assert((states[j].tasks)(task) == (states[0].tasks)(task));
    let part = if p.phase is RestoreData {
        SpecificTaskDataCategory::Data
    } else {
        SpecificTaskDataCategory::Meta
    };
    assert(part_indices(q, part) == indices);
    assert forall|l: int| 0 <= l < k && #[trigger] has_index(part_indices(q, part), l) implies q.requests()[l].0
        != task by {
        let o = choose|o: int| 0 <= o < indices.len() && #[trigger] indices[o] == l;
        if o >= m {
            assert(o == m || indices[m] < indices[o]);
        }
        assert(p.requests()[indices[o] as int].0 != task);
    }
    assert(q.tasks@[k].has_storage());
}

/// Once tasks have been prepared, what was read for a task and part is in place, field by field:
/// what a step asked for of a task is what that task holds in the end. Where a task is asked for
/// more than once, what was read first counts.
pub proof fn law_what_is_read_is_in_place(
    states: Seq<PreparationState>,
    requests: Seq<(TaskId, TaskDataCategory)>,
    call_for_transient_tasks: bool,
    j: int,
    step: PrepareStep,
    storages: Seq<TaskStorage>,
    m: int,
    task: TaskId,
)
    requires
        is_complete_run(states, requests, call_for_transient_tasks),
        0 <= j < states.len() - 1,
        states[j].preparation.phase is RestoreData ==> loads(
            step,
            states[j].preparation.tasks@,
            states[j].preparation.data_indices@,
            TaskDataCategory::Data,
        ),
        states[j].preparation.phase is RestoreMeta ==> loads(
            step,
            states[j].preparation.tasks@,
            states[j].preparation.meta_indices@,
            TaskDataCategory::Meta,
        ),
        states[j].preparation.phase is RestoreData || states[j].preparation.phase is RestoreMeta,
        match step {
            PrepareStep::LoadSingle(task_id, _) => m == 0 && task == task_id,
            PrepareStep::LoadBatch(task_ids, _) => {
                &&& 0 <= m < task_ids@.len()
                &&& task == task_ids@[m]
                &&& forall|l: int| 0 <= l < m ==> #[trigger] task_ids@[l] != task
            },
            _ => false,
        },
        loading(states[j].preparation, states[j + 1].preparation, storages),
        m < storages.len(),
    ensures
        step matches PrepareStep::LoadSingle(_, category) ==> category
            == TaskDataCategory::Data || category == TaskDataCategory::Meta,
        step matches PrepareStep::LoadBatch(_, category) ==> category == TaskDataCategory::Data
            || category == TaskDataCategory::Meta,
        (step matches PrepareStep::LoadSingle(_, category) && category == TaskDataCategory::Data)
            || (step matches PrepareStep::LoadBatch(_, category) && category
            == TaskDataCategory::Data) ==> ({
            let now = (states.last().tasks)(task);
            let read = storages[m]@;
            &&& now.output_dependent == read.output_dependent
            &&& now.output_dependencies == read.output_dependencies
            &&& now.cell_dependencies == read.cell_dependencies
            &&& now.collectibles_dependencies == read.collectibles_dependencies
            &&& now.cell_dependents == read.cell_dependents
            &&& now.cell_data == read.cell_data
            &&& now.cell_type_max_index == read.cell_type_max_index
            &&& now.flags.contains(TaskFlag::DataRestored)
        }),
        (step matches PrepareStep::LoadSingle(_, category) && category == TaskDataCategory::Meta)
            || (step matches PrepareStep::LoadBatch(_, category) && category
            == TaskDataCategory::Meta) ==> ({
            let now = (states.last().tasks)(task);
            let read = storages[m]@;
            &&& now.aggregation_number == read.aggregation_number
            &&& now.output == read.output
            &&& now.upper == read.upper
            &&& now.collectibles == read.collectibles
            &&& now.aggregated_collectibles == read.aggregated_collectibles
            &&& now.dirty == read.dirty
            &&& now.aggregated_dirty_container_count == read.aggregated_dirty_container_count
            &&& now.aggregated_dirty_containers == read.aggregated_dirty_containers
            &&& now.children == read.children
            &&& now.followers == read.followers
            &&& now.collectibles_dependents == read.collectibles_dependents
            &&& now.flags.contains(TaskFlag::Invalidator) == read.flags.contains(
                TaskFlag::Invalidator,
            )
            &&& now.flags.contains(TaskFlag::Immutable) == read.flags.contains(TaskFlag::Immutable)
            &&& now.flags.contains(TaskFlag::MetaRestored)
        }),
{
    let p = states[j].preparation;
    let indices = p.indices_to_load();
    let last = states.len() - 1;
    let part = if p.phase is RestoreData {
        SpecificTaskDataCategory::Data
    } else {
        SpecificTaskDataCategory::Meta
    };
    lemma_run(states, requests, call_for_transient_tasks, j);
    lemma_run(states, requests, call_for_transient_tasks, last);
    assert(p.requests().len() == p.tasks@.len());
    assert(p.wf());
    if indices.len() == 1 {
        assert(m == 0);
    } else {
        law_what_is_missing_is_read_in_order(step, p.tasks@, indices, part.as_category(), m);
    }
    assert(indices[m] < p.tasks@.len());
    assert(p.requests()[indices[m] as int].0 == task);
    assert forall|l: int| 0 <= l < m implies p.requests()[#[trigger] indices[l] as int].0
        != task by {
        law_what_is_missing_is_read_in_order(step, p.tasks@, indices, part.as_category(), l);
        assert(indices[l] < p.tasks@.len());
    }
    lemma_read_is_carried(states, requests, call_for_transient_tasks, j, storages, m);
    let k = indices[m] as int;
    lemma_carried(
        states,
        requests,
        call_for_transient_tasks,
        j + 1,
        last,
        k,
        part,
        storages[m],
    );
    let now = (states[last].tasks)(task);
    let with = now.restored_from(storages[m]@, part.as_category());
    assert(states[last].preparation.requests() == p.requests());
    assert(with == now);
    assert(with.flags.contains(TaskFlag::Invalidator) == now.flags.contains(TaskFlag::Invalidator));
    assert(with.flags.contains(TaskFlag::Immutable) == now.flags.contains(TaskFlag::Immutable));
}

/// Where data is asked for, a run comes by the reading of it.
proof fn lemma_reads_data(
    states: Seq<PreparationState>,
    requests: Seq<(TaskId, TaskDataCategory)>,
    call_for_transient_tasks: bool,
    later: int,
) -> (j: int)
    requires
        is_run(states, requests, call_for_transient_tasks),
        0 <= later < states.len(),
        states[later].preparation.data_indices@.len() > 0,
        states[later].preparation.phase is RestoreMeta || states[later].preparation.phase is Merge
            || states[later].preparation.phase is Done,
    ensures
        0 <= j < later,
        states[j].preparation.phase is RestoreData,
        states[j].preparation.data_indices@ == states[later].preparation.data_indices@,
    decreases later,
{
    lemma_run(states, requests, call_for_transient_tasks, later);
    if later == 0 {
        0
    } else {
        lemma_run(states, requests, call_for_transient_tasks, later - 1);
        assert(steps(states[later - 1], states[later - 1 + 1]));
        if states[later - 1].preparation.phase is RestoreData {
            later - 1
        } else {
            lemma_reads_data(states, requests, call_for_transient_tasks, later - 1)
        }
    }
}

/// Where metadata is asked for, a run comes by the reading of it.
proof fn lemma_reads_meta(
    states: Seq<PreparationState>,
    requests: Seq<(TaskId, TaskDataCategory)>,
    call_for_transient_tasks: bool,
    later: int,
) -> (j: int)
    requires
        is_run(states, requests, call_for_transient_tasks),
        0 <= later < states.len(),
        states[later].preparation.meta_indices@.len() > 0,
        states[later].preparation.phase is Merge || states[later].preparation.phase is Done,
    ensures
        0 <= j < later,
        states[j].preparation.phase is RestoreMeta,
        states[j].preparation.meta_indices@ == states[later].preparation.meta_indices@,
    decreases later,
{
    lemma_run(states, requests, call_for_transient_tasks, later);
    if later == 0 {
        0
    } else {
        lemma_run(states, requests, call_for_transient_tasks, later - 1);
        assert(steps(states[later - 1], states[later - 1 + 1]));
        if states[later - 1].preparation.phase is RestoreMeta {
            later - 1
        } else {
            lemma_reads_meta(states, requests, call_for_transient_tasks, later - 1)
        }
    }
}

/// The first of the indices that point at a request for a task.
proof fn lemma_first_of_task(
    requests: Seq<(TaskId, TaskDataCategory)>,
    indices: Seq<usize>,
    m: int,
) -> (first: int)
    requires
        0 <= m < indices.len(),
    ensures
        0 <= first <= m,
        requests[indices[first] as int].0 == requests[indices[m] as int].0,
        forall|l: int|
            0 <= l < first ==> requests[#[trigger] indices[l] as int].0
                != requests[indices[first] as int].0,
    decreases m,
{
    if exists|l: int|
        0 <= l < m && requests[#[trigger] indices[l] as int].0 == requests[indices[m] as int].0 {
        let l = choose|l: int|
            0 <= l < m && requests[#[trigger] indices[l] as int].0 == requests[
                indices[m] as int
            ].0;
        lemma_first_of_task(requests, indices, l)
    } else {
        m
    }
}

/// Each part that is asked for of a persistent task, and that is missing when the preparation
/// begins, is read from persistent storage, and once the tasks have been prepared the task holds,
/// field by field, what was read for it: of the storages that were read, the one that stands where
/// the task stands among those that were asked for.
pub proof fn law_each_missing_part_is_read_into_place(
    states: Seq<PreparationState>,
    requests: Seq<(TaskId, TaskDataCategory)>,
    call_for_transient_tasks: bool,
    k: int,
)
    requires
        is_complete_run(states, requests, call_for_transient_tasks),
        0 <= k < requests.len(),
        requests[k].0 < 0x8000_0000,
    ensures
        requests[k].1 != TaskDataCategory::Meta && !(states[0].tasks)(requests[k].0).flags.contains(
            TaskFlag::DataRestored,
        ) ==> exists|j: int, m: int, storages: Seq<TaskStorage>|
            {
                let asking = states[j].preparation;
                let now = (states.last().tasks)(requests[k].0);
                let read = storages[m]@;
                &&& 0 <= j < states.len() - 1
                &&& asking.phase is RestoreData
                &&& #[trigger] loading(states[j].preparation, states[j + 1].preparation, storages)
                &&& 0 <= m < asking.data_indices@.len()
                &&& m < storages.len()
                &&& asking.tasks@[#[trigger] states[j].preparation.data_indices@[m] as int].task_id
                    == requests[k].0
                &&& now.output_dependent == read.output_dependent
                &&& now.output_dependencies == read.output_dependencies
                &&& now.cell_dependencies == read.cell_dependencies
                &&& now.collectibles_dependencies == read.collectibles_dependencies
                &&& now.cell_dependents == read.cell_dependents
                &&& now.cell_data == read.cell_data
                &&& now.cell_type_max_index == read.cell_type_max_index
                &&& now.flags.contains(TaskFlag::DataRestored)
            },
        requests[k].1 != TaskDataCategory::Data && !(states[0].tasks)(requests[k].0).flags.contains(
            TaskFlag::MetaRestored,
        ) ==> exists|j: int, m: int, storages: Seq<TaskStorage>|
            {
                let asking = states[j].preparation;
                let now = (states.last().tasks)(requests[k].0);
                let read = storages[m]@;
                &&& 0 <= j < states.len() - 1
                &&& asking.phase is RestoreMeta
                &&& #[trigger] loading(states[j].preparation, states[j + 1].preparation, storages)
                &&& 0 <= m < asking.meta_indices@.len()
                &&& m < storages.len()
                &&& asking.tasks@[#[trigger] states[j].preparation.meta_indices@[m] as int].task_id
                    == requests[k].0
                &&& now.aggregation_number == read.aggregation_number
                &&& now.output == read.output
                &&& now.upper == read.upper
                &&& now.collectibles == read.collectibles
                &&& now.aggregated_collectibles == read.aggregated_collectibles
                &&& now.dirty == read.dirty
                &&& now.aggregated_dirty_container_count == read.aggregated_dirty_container_count
                &&& now.aggregated_dirty_containers == read.aggregated_dirty_containers
                &&& now.children == read.children
                &&& now.followers == read.followers
                &&& now.collectibles_dependents == read.collectibles_dependents
                &&& now.flags.contains(TaskFlag::Invalidator) == read.flags.contains(
                    TaskFlag::Invalidator,
                )
                &&& now.flags.contains(TaskFlag::Immutable) == read.flags.contains(
                    TaskFlag::Immutable,
                )
                &&& now.flags.contains(TaskFlag::MetaRestored)
            },
{
    let last = states.len() - 1;
    lemma_run(states, requests, call_for_transient_tasks, last);
    let done = states[last].preparation;
    let is_persistent = |request: (TaskId, TaskDataCategory)| !transient(request.0);
    requests.lemma_filter_contains(is_persistent, k);
    let all = persistent_requests(requests);
    let o = choose|o: int| 0 <= o < all.len() && all[o] == requests[k];
    assert(done.requests().len() == done.tasks@.len());
    assert(asks_for_what_is_missing(states[0].tasks, done, o));
    if requests[k].1 != TaskDataCategory::Meta && !(states[0].tasks)(requests[k].0).flags.contains(
        TaskFlag::DataRestored,
    ) {
        assert(has_index(done.data_indices@, o));
        let j = lemma_reads_data(states, requests, call_for_transient_tasks, last);
        lemma_run(states, requests, call_for_transient_tasks, j);
        assert(steps(states[j], states[j + 1]));
        let p = states[j].preparation;
        let storages = choose|storages: Seq<TaskStorage>| #[trigger]
            loading(p, states[j + 1].preparation, storages) && storages.len()
                >= p.indices_to_load().len();
        let at = choose|at: int|
            0 <= at < p.data_indices@.len() && #[trigger] p.data_indices@[at] == o;
        let m = lemma_first_of_task(p.requests(), p.data_indices@, at);
        lemma_held_in_the_end(states, requests, call_for_transient_tasks, j, storages, m);
        assert(p.requests().len() == p.tasks@.len());
        assert(p.requests()[p.data_indices@[m] as int] == p.tasks@[
            p.data_indices@[m] as int
        ].request());
        assert(loading(states[j].preparation, states[j + 1].preparation, storages));
        assert(states[j].preparation.data_indices@[m] == p.data_indices@[m]);
    }
    if requests[k].1 != TaskDataCategory::Data && !(states[0].tasks)(requests[k].0).flags.contains(
        TaskFlag::MetaRestored,
    ) {
        assert(has_index(done.meta_indices@, o));
        let j = lemma_reads_meta(states, requests, call_for_transient_tasks, last);
        lemma_run(states, requests, call_for_transient_tasks, j);
        assert(steps(states[j], states[j + 1]));
        let p = states[j].preparation;
        let storages = choose|storages: Seq<TaskStorage>| #[trigger]
            loading(p, states[j + 1].preparation, storages) && storages.len()
                >= p.indices_to_load().len();
        let at = choose|at: int|
            0 <= at < p.meta_indices@.len() && #[trigger] p.meta_indices@[at] == o;
        let m = lemma_first_of_task(p.requests(), p.meta_indices@, at);
        lemma_held_in_the_end(states, requests, call_for_transient_tasks, j, storages, m);
        assert(p.requests().len() == p.tasks@.len());
        assert(p.requests()[p.meta_indices@[m] as int] == p.tasks@[
            p.meta_indices@[m] as int
        ].request());
        assert(loading(states[j].preparation, states[j + 1].preparation, storages));
        assert(states[j].preparation.meta_indices@[m] == p.meta_indices@[m]);
    }
}

/// What was read for the first request for a task is held in the end.
proof fn lemma_held_in_the_end(
    states: Seq<PreparationState>,
    requests: Seq<(TaskId, TaskDataCategory)>,
    call_for_transient_tasks: bool,
    j: int,
    storages: Seq<TaskStorage>,
    m: int,
)
    requires
        is_complete_run(states, requests, call_for_transient_tasks),
        0 <= j < states.len() - 1,
        states[j].preparation.phase is RestoreData || states[j].preparation.phase is RestoreMeta,
        loading(states[j].preparation, states[j + 1].preparation, storages),
        0 <= m < states[j].preparation.indices_to_load().len(),
        m < storages.len(),
        forall|l: int|
            0 <= l < m ==> states[j].preparation.requests()[
                #[trigger] states[j].preparation.indices_to_load()[l] as int
            ].0 != states[j].preparation.requests()[
                states[j].preparation.indices_to_load()[m] as int
            ].0,
    ensures
        ({
            let p = states[j].preparation;
            let now = (states.last().tasks)(p.requests()[p.indices_to_load()[m] as int].0);
            let read = storages[m]@;
            if p.phase is RestoreData {
                same_data(now, read) && now.flags.contains(TaskFlag::DataRestored)
            } else {
                &&& same_meta(now, read)
                &&& now.flags.contains(TaskFlag::Invalidator) == read.flags.contains(
                    TaskFlag::Invalidator,
                )
                &&& now.flags.contains(TaskFlag::Immutable) == read.flags.contains(
                    TaskFlag::Immutable,
                )
                &&& now.flags.contains(TaskFlag::MetaRestored)
            }
        }),
{
    let p = states[j].preparation;
    let k = p.indices_to_load()[m] as int;
    let last = states.len() - 1;
    let part = if p.phase is RestoreData {
        SpecificTaskDataCategory::Data
    } else {
        SpecificTaskDataCategory::Meta
    };
    lemma_run(states, requests, call_for_transient_tasks, j);
    lemma_run(states, requests, call_for_transient_tasks, last);
    lemma_read_is_carried(states, requests, call_for_transient_tasks, j, storages, m);
    lemma_carried(
        states,
        requests,
        call_for_transient_tasks,
        j + 1,
        last,
        k,
        part,
        storages[m],
    );
    let now = (states[last].tasks)(p.requests()[k].0);
    let with = now.restored_from(storages[m]@, part.as_category());
    assert(states[last].preparation.requests() == p.requests());
    assert(with == now);
    assert(with.flags.contains(TaskFlag::Invalidator) == now.flags.contains(TaskFlag::Invalidator));
    assert(with.flags.contains(TaskFlag::Immutable) == now.flags.contains(TaskFlag::Immutable));
}

/// Persisted data is read of a task for each request that it be there and that finds it missing,
/// and for no other.
pub proof fn law_only_what_is_missing_is_read(
    states: Seq<PreparationState>,
    requests: Seq<(TaskId, TaskDataCategory)>,
    call_for_transient_tasks: bool,
    j: int,
    k: int,
)
    requires
        is_run(states, requests, call_for_transient_tasks),
        0 <= j < states.len(),
        states[j].preparation.phase is RestoreData || states[j].preparation.phase is RestoreMeta,
        0 <= k < states[j].preparation.tasks@.len(),
    ensures
        ({
            let preparation = states[j].preparation;
            let start = (states[0].tasks)(preparation.tasks@[k].task_id);
            &&& (exists|m: int|
                0 <= m < preparation.data_indices@.len() && #[trigger] preparation.data_indices@[m]
                    == k) <==> preparation.tasks@[k].category != TaskDataCategory::Meta
                && !start.flags.contains(TaskFlag::DataRestored)
            &&& (exists|m: int|
                0 <= m < preparation.meta_indices@.len() && #[trigger] preparation.meta_indices@[m]
                    == k) <==> preparation.tasks@[k].category != TaskDataCategory::Data
                && !start.flags.contains(TaskFlag::MetaRestored)
        }),
{
    lemma_run(states, requests, call_for_transient_tasks, j);
    let preparation = states[j].preparation;
    assert(preparation.requests().len() == preparation.tasks@.len());
    assert(preparation.requests()[k] == preparation.tasks@[k].request());
    assert(settled(states[j], k));
}

} // verus!
