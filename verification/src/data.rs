//! The values that a task's storage holds.
use vstd::prelude::*;

use crate::ids::{CellRef, TaskId, ValueTypeId};

verus! {

/// Why a task has to run again.
#[derive(Clone, Copy, PartialEq, Eq, Structural, Debug)]
pub enum Dirtyness {
    /// The task has to run again.
    Dirty,
    /// The task's result holds for one session: it is dirty unless it is clean in the current
    /// session.
    SessionDependent,
}

/// A task's position in the aggregation tree. Zero means "not set".
#[derive(Clone, Copy, PartialEq, Eq, Structural, Debug)]
pub struct AggregationNumber {
    pub base: u32,
    pub distance: u32,
    pub effective: u32,
}

/// What a task returned.
#[derive(Clone, Copy, PartialEq, Eq, Structural, Debug)]
pub enum OutputValue {
    /// A cell.
    Cell(CellRef),
    /// The output of another task.
    Output(TaskId),
    /// An error, by its number in the engine's table of errors.
    Error(u64),
}

/// A shared value, by its number in the engine's table of values.
#[derive(Clone, Copy, PartialEq, Eq, Structural, Debug)]
pub struct SharedReference {
    pub value: u64,
}

/// A shared value together with its type.
#[derive(Clone, Copy, PartialEq, Eq, Structural, Debug)]
pub struct TypedSharedReference {
    pub type_id: ValueTypeId,
    pub reference: SharedReference,
}

impl SharedReference {
    /// The reference with a type attached.
    pub open spec fn typed(self, type_id: ValueTypeId) -> TypedSharedReference {
        TypedSharedReference { type_id, reference: self }
    }

    /// Executable form of [`SharedReference::typed`].
    pub fn into_typed(self, type_id: ValueTypeId) -> (typed: TypedSharedReference)
        ensures
            typed == self.typed(type_id),
    {
        TypedSharedReference { type_id, reference: self }
    }
}

impl TypedSharedReference {
    /// Forgets the type.
    pub fn into_untyped(self) -> (untyped: SharedReference)
        ensures
            untyped == self.reference,
    {
        self.reference
    }
}

/// Why a task is executed, by its number in the engine's table of reasons.
#[derive(Clone, Copy, PartialEq, Eq, Structural, Debug)]
pub struct TaskExecutionReason {
    pub reason: u32,
}

/// The activeness state of a task, by its number in the engine's table of such states.
#[derive(Clone, Copy, PartialEq, Eq, Structural, Debug)]
pub struct ActivenessState {
    pub state: u64,
}

/// How far the execution of a task has come.
#[derive(Debug)]
pub enum InProgressState {
    /// The task waits to be executed.
    Scheduled {
        reason: TaskExecutionReason,
        /// Describes the task to those who wait for it.
        description: String,
    },
    /// The task is being executed, by the execution's number in the engine's table.
    InProgress { execution: u64 },
}

impl InProgressState {
    /// The state of a task that waits to be executed. `description` makes what describes the task.
    pub fn new_scheduled<InnerFn, F>(reason: TaskExecutionReason, description: F) -> (state:
        Self) where F: FnOnce() -> InnerFn, InnerFn: Fn() -> String
        requires
            description.requires(()),
            forall|describe: InnerFn|
                description.ensures((), describe) ==> #[trigger] describe.requires(()),
        ensures
            state is Scheduled,
            state->reason == reason,
            exists|describe: InnerFn|
                description.ensures((), describe) && #[trigger] describe.ensures(
                    (),
                    state->description,
                ),
    {
        let describe = description();
        let text = describe();
        let state = InProgressState::Scheduled { reason, description: text };
        assert(state->description == text);
        assert(describe.ensures((), state->description));
        assert(description.ensures((), describe));
        state
    }
}

/// The state of a cell that is being computed, by its number in the engine's table.
#[derive(Clone, Copy, PartialEq, Eq, Structural, Debug)]
pub struct InProgressCellState {
    pub state: u64,
}

} // verus!
