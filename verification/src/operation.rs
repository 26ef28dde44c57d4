//! The operations on the graph of tasks.
use vstd::prelude::*;

verus! {

/// An operation, which is executed in a context of type `C`.
pub trait Operation<C>: Sized {
    /// Whether executing the operation may take the context from `before` to `after`.
    spec fn runs(self, before: C, after: C) -> bool;

    /// Executes the operation.
    fn execute(self, ctx: &mut C)
        ensures
            self.runs(*old(ctx), *final(ctx)),
    ;
}

/// Any of the operations, or several of them.
pub enum AnyOperation<ConnectChild, Invalidate, UpdateCell, CleanupOldEdges, AggregationUpdate> {
    ConnectChild(ConnectChild),
    Invalidate(Invalidate),
    UpdateCell(UpdateCell),
    CleanupOldEdges(CleanupOldEdges),
    AggregationUpdate(AggregationUpdate),
    Nested(
        Vec<
            AnyOperation<
                ConnectChild,
                Invalidate,
                UpdateCell,
                CleanupOldEdges,
                AggregationUpdate,
            >,
        >,
    ),
}

/// Whether executing `op` may take a context from `before` to `after`.
pub open spec fn any_runs<C, O1, O2, O3, O4, O5>(
    op: AnyOperation<O1, O2, O3, O4, O5>,
    before: C,
    after: C,
) -> bool where
    O1: Operation<C>,
    O2: Operation<C>,
    O3: Operation<C>,
    O4: Operation<C>,
    O5: Operation<C>,

    decreases op,
{
    match op {
        AnyOperation::ConnectChild(op) => op.runs(before, after),
        AnyOperation::Invalidate(op) => op.runs(before, after),
        AnyOperation::UpdateCell(op) => op.runs(before, after),
        AnyOperation::CleanupOldEdges(op) => op.runs(before, after),
        AnyOperation::AggregationUpdate(op) => op.runs(before, after),
        AnyOperation::Nested(ops) => exists|states: Seq<C>|
            #[trigger] states.len() == ops@.len() + 1 && states[0] == before
                && states[ops@.len() as int] == after && all_run(ops@, states),
    }
}

/// Whether executing `ops` one after the other may take a context through `states`.
pub open spec fn all_run<C, O1, O2, O3, O4, O5>(
    ops: Seq<AnyOperation<O1, O2, O3, O4, O5>>,
    states: Seq<C>,
) -> bool where
    O1: Operation<C>,
    O2: Operation<C>,
    O3: Operation<C>,
    O4: Operation<C>,
    O5: Operation<C>,

    decreases ops,
{
    &&& states.len() == ops.len() + 1
    &&& forall|i: int|
        0 <= i < ops.len() ==> any_runs(#[trigger] ops[i], states[i], states[i + 1])
}

impl<O1, O2, O3, O4, O5> AnyOperation<O1, O2, O3, O4, O5> {
    /// Executes the operation; several operations one after the other.
    pub fn execute<C>(self, ctx: &mut C) where
        O1: Operation<C>,
        O2: Operation<C>,
        O3: Operation<C>,
        O4: Operation<C>,
        O5: Operation<C>,

        ensures
            any_runs(self, *old(ctx), *final(ctx)),
        decreases self,
    {
        match self {
            AnyOperation::ConnectChild(op) => op.execute(ctx),
            AnyOperation::Invalidate(op) => op.execute(ctx),
            AnyOperation::UpdateCell(op) => op.execute(ctx),
            AnyOperation::CleanupOldEdges(op) => op.execute(ctx),
            AnyOperation::AggregationUpdate(op) => op.execute(ctx),
            AnyOperation::Nested(ops) => {
                let ghost given = ops;
                let ghost mut states: Seq<C> = seq![*ctx];
                for op in it: ops
                    invariant
                        self == AnyOperation::<O1, O2, O3, O4, O5>::Nested(given),
                        it.seq() == given@,
                        states.len() == it.index() + 1,
                        states[0] == *old(ctx),
                        states[it.index() as int] == *ctx,
                        forall|i: int|
                            0 <= i < it.index() ==> any_runs(
                                #[trigger] given@[i],
                                states[i],
                                states[i + 1],
                            ),
                {
                    let ghost i = it.index() as int;
                    assert(decreases_to!(self => self->Nested_0));
                    assert(decreases_to!(given => given@));
                    assert(decreases_to!(given@ => given@[i]));
                    op.execute(ctx);
                    proof {
                        states = states.push(*ctx);
                    }
                }
                assert(all_run(given@, states));
            },
        }
    }
}

impl<C, O1, O2, O3, O4, O5> Operation<C> for AnyOperation<O1, O2, O3, O4, O5> where
    O1: Operation<C>,
    O2: Operation<C>,
    O3: Operation<C>,
    O4: Operation<C>,
    O5: Operation<C>,
 {
    open spec fn runs(self, before: C, after: C) -> bool {
        any_runs(self, before, after)
    }

    fn execute(self, ctx: &mut C) {
        AnyOperation::execute(self, ctx)
    }
}

impl<O1, O2, O3, O4, O5> AnyOperation<O1, O2, O3, O4, O5> {
    /// The operation as a `ConnectChild`, which it may not be.
    pub open spec fn as_connect_child(self) -> Result<O1, ()> {
        match self {
            AnyOperation::ConnectChild(op) => Ok(op),
            _ => Err(()),
        }
    }

    /// A `ConnectChild` as one of the operations.
    pub fn from_connect_child(op: O1) -> (any: Self)
        ensures
            any == AnyOperation::<O1, O2, O3, O4, O5>::ConnectChild(op),
    {
        AnyOperation::ConnectChild(op)
    }

    /// Executable form of [`AnyOperation::as_connect_child`].
    pub fn try_into_connect_child(self) -> (result: Result<O1, ()>)
        ensures
            result == self.as_connect_child(),
    {
        match self {
            AnyOperation::ConnectChild(op) => Ok(op),
            _ => Err(()),
        }
    }

    /// The operation as a `Invalidate`, which it may not be.
    pub open spec fn as_invalidate(self) -> Result<O2, ()> {
        match self {
            AnyOperation::Invalidate(op) => Ok(op),
            _ => Err(()),
        }
    }

    /// A `Invalidate` as one of the operations.
    pub fn from_invalidate(op: O2) -> (any: Self)
        ensures
            any == AnyOperation::<O1, O2, O3, O4, O5>::Invalidate(op),
    {
        AnyOperation::Invalidate(op)
    }

    /// Executable form of [`AnyOperation::as_invalidate`].
    pub fn try_into_invalidate(self) -> (result: Result<O2, ()>)
        ensures
            result == self.as_invalidate(),
    {
        match self {
            AnyOperation::Invalidate(op) => Ok(op),
            _ => Err(()),
        }
    }

    /// The operation as a `UpdateCell`, which it may not be.
    pub open spec fn as_update_cell(self) -> Result<O3, ()> {
        match self {
            AnyOperation::UpdateCell(op) => Ok(op),
            _ => Err(()),
        }
    }

    /// A `UpdateCell` as one of the operations.
    pub fn from_update_cell(op: O3) -> (any: Self)
        ensures
            any == AnyOperation::<O1, O2, O3, O4, O5>::UpdateCell(op),
    {
        AnyOperation::UpdateCell(op)
    }

    /// Executable form of [`AnyOperation::as_update_cell`].
    pub fn try_into_update_cell(self) -> (result: Result<O3, ()>)
        ensures
            result == self.as_update_cell(),
    {
        match self {
            AnyOperation::UpdateCell(op) => Ok(op),
            _ => Err(()),
        }
    }

    /// The operation as a `CleanupOldEdges`, which it may not be.
    pub open spec fn as_cleanup_old_edges(self) -> Result<O4, ()> {
        match self {
            AnyOperation::CleanupOldEdges(op) => Ok(op),
            _ => Err(()),
        }
    }

    /// A `CleanupOldEdges` as one of the operations.
    pub fn from_cleanup_old_edges(op: O4) -> (any: Self)
        ensures
            any == AnyOperation::<O1, O2, O3, O4, O5>::CleanupOldEdges(op),
    {
        AnyOperation::CleanupOldEdges(op)
    }

    /// Executable form of [`AnyOperation::as_cleanup_old_edges`].
    pub fn try_into_cleanup_old_edges(self) -> (result: Result<O4, ()>)
        ensures
            result == self.as_cleanup_old_edges(),
    {
        match self {
            AnyOperation::CleanupOldEdges(op) => Ok(op),
            _ => Err(()),
        }
    }

    /// The operation as a `AggregationUpdate`, which it may not be.
    pub open spec fn as_aggregation_update(self) -> Result<O5, ()> {
        match self {
            AnyOperation::AggregationUpdate(op) => Ok(op),
            _ => Err(()),
        }
    }

    /// A `AggregationUpdate` as one of the operations.
    pub fn from_aggregation_update(op: O5) -> (any: Self)
        ensures
            any == AnyOperation::<O1, O2, O3, O4, O5>::AggregationUpdate(op),
    {
        AnyOperation::AggregationUpdate(op)
    }

    /// Executable form of [`AnyOperation::as_aggregation_update`].
    pub fn try_into_aggregation_update(self) -> (result: Result<O5, ()>)
        ensures
            result == self.as_aggregation_update(),
    {
        match self {
            AnyOperation::AggregationUpdate(op) => Ok(op),
            _ => Err(()),
        }
    }
}

/// An operation that has been made one of the operations is got back, and only as what it is;
/// several operations are none of them.
pub proof fn law_operations_are_got_back<O1, O2, O3, O4, O5>(
    any: AnyOperation<O1, O2, O3, O4, O5>,
)
    ensures
        any.as_connect_child() matches Ok(op) ==> any == AnyOperation::<
            O1,
            O2,
            O3,
            O4,
            O5,
        >::ConnectChild(op),
        any.as_invalidate() matches Ok(op) ==> any == AnyOperation::<O1, O2, O3, O4, O5>::Invalidate(
            op,
        ),
        any.as_update_cell() matches Ok(op) ==> any == AnyOperation::<
            O1,
            O2,
            O3,
            O4,
            O5,
        >::UpdateCell(op),
        any.as_cleanup_old_edges() matches Ok(op) ==> any == AnyOperation::<
            O1,
            O2,
            O3,
            O4,
            O5,
        >::CleanupOldEdges(op),
        any.as_aggregation_update() matches Ok(op) ==> any == AnyOperation::<
            O1,
            O2,
            O3,
            O4,
            O5,
        >::AggregationUpdate(op),
        match any {
            AnyOperation::ConnectChild(op) => any.as_connect_child() == Ok::<O1, ()>(op),
            AnyOperation::Invalidate(op) => any.as_invalidate() == Ok::<O2, ()>(op),
            AnyOperation::UpdateCell(op) => any.as_update_cell() == Ok::<O3, ()>(op),
            AnyOperation::CleanupOldEdges(op) => any.as_cleanup_old_edges() == Ok::<O4, ()>(op),
            AnyOperation::AggregationUpdate(op) => any.as_aggregation_update() == Ok::<O5, ()>(op),
            AnyOperation::Nested(_) => {
                &&& any.as_connect_child() is Err
                &&& any.as_invalidate() is Err
                &&& any.as_update_cell() is Err
                &&& any.as_cleanup_old_edges() is Err
                &&& any.as_aggregation_update() is Err
            },
        },
{
}

/// Executing several operations and then several more comes to the same as executing all of them
/// in that order.
pub proof fn law_nesting_does_not_matter<C, O1, O2, O3, O4, O5>(
    first: Vec<AnyOperation<O1, O2, O3, O4, O5>>,
    second: Vec<AnyOperation<O1, O2, O3, O4, O5>>,
    both: Vec<AnyOperation<O1, O2, O3, O4, O5>>,
    before: C,
    after: C,
) where
    O1: Operation<C>,
    O2: Operation<C>,
    O3: Operation<C>,
    O4: Operation<C>,
    O5: Operation<C>,

    requires
        both@ == first@ + second@,
    ensures
        any_runs(AnyOperation::Nested(both), before, after) <==> exists|between: C| #[trigger]
            any_runs(AnyOperation::Nested(first), before, between) && any_runs(
                AnyOperation::Nested(second),
                between,
                after,
            ),
{
    let n = first@.len() as int;
    if any_runs(AnyOperation::Nested(both), before, after) {
        let states = choose|states: Seq<C>|
            #[trigger] states.len() == both@.len() + 1 && states[0] == before
                && states[both@.len() as int] == after && all_run(both@, states);
        let early = states.take(n + 1);
        let late = states.skip(n);
        assert forall|i: int| 0 <= i < first@.len() implies any_runs(
            #[trigger] first@[i],
            early[i],
            early[i + 1],
        ) by {
            assert(both@[i] == first@[i]);
        }
        assert forall|i: int| 0 <= i < second@.len() implies any_runs(
            #[trigger] second@[i],
            late[i],
            late[i + 1],
        ) by {
            assert(both@[n + i] == second@[i]);
        }
        assert(early.len() == first@.len() + 1 && all_run(first@, early));
        assert(late.len() == second@.len() + 1 && all_run(second@, late));
        assert(any_runs(AnyOperation::Nested(first), before, states[n]));
        assert(any_runs(AnyOperation::Nested(second), states[n], after));
    }
    assert forall|between: C| #[trigger] any_runs(AnyOperation::Nested(first), before, between)
        && any_runs(AnyOperation::Nested(second), between, after) implies any_runs(
        AnyOperation::Nested(both),
        before,
        after,
    ) by {
        let early = choose|states: Seq<C>|
            #[trigger] states.len() == first@.len() + 1 && states[0] == before
                && states[first@.len() as int] == between && all_run(first@, states);
        let late = choose|states: Seq<C>|
            #[trigger] states.len() == second@.len() + 1 && states[0] == between
                && states[second@.len() as int] == after && all_run(second@, states);
        let states = early + late.skip(1);
        assert forall|i: int| 0 <= i < both@.len() implies any_runs(
            #[trigger] both@[i],
            states[i],
            states[i + 1],
        ) by {
            if i < n {
                assert(both@[i] == first@[i]);
            } else {
                assert(both@[i] == second@[i - n]);
                assert(states[i] == late[i - n]);
                assert(states[i + 1] == late[i - n + 1]);
            }
        }
        assert(states.len() == both@.len() + 1 && all_run(both@, states));
    }
}

/// An operation of any kind does what it does alone, on its own as well as within nested ones:
/// nesting a single operation, of whatever kind, comes to that operation, and nesting none to
/// nothing.
pub proof fn law_nesting_one_is_executing_it<C, O1, O2, O3, O4, O5>(
    op: AnyOperation<O1, O2, O3, O4, O5>,
    one: Vec<AnyOperation<O1, O2, O3, O4, O5>>,
    none: Vec<AnyOperation<O1, O2, O3, O4, O5>>,
    before: C,
    after: C,
) where
    O1: Operation<C>,
    O2: Operation<C>,
    O3: Operation<C>,
    O4: Operation<C>,
    O5: Operation<C>,

    requires
        one@ == seq![op],
        none@.len() == 0,
    ensures
        match op {
            AnyOperation::ConnectChild(alone) => any_runs(op, before, after) <==> alone.runs(before, after),
            AnyOperation::Invalidate(alone) => any_runs(op, before, after) <==> alone.runs(before, after),
            AnyOperation::UpdateCell(alone) => any_runs(op, before, after) <==> alone.runs(before, after),
            AnyOperation::CleanupOldEdges(alone) => any_runs(op, before, after) <==> alone.runs(before, after),
            AnyOperation::AggregationUpdate(alone) => any_runs(op, before, after) <==> alone.runs(before, after),
            AnyOperation::Nested(_) => true,
        },
        any_runs(AnyOperation::Nested(one), before, after) <==> any_runs(op, before, after),
        any_runs(AnyOperation::<O1, O2, O3, O4, O5>::Nested(none), before, after) <==> before == after,
        op.runs(before, after) <==> any_runs(op, before, after),
{
    if any_runs(AnyOperation::Nested(one), before, after) {
        let states = choose|states: Seq<C>|
            #[trigger] states.len() == one@.len() + 1 && states[0] == before
                && states[one@.len() as int] == after && all_run(one@, states);
        assert(one@[0] == op);
        assert(states[0] == before && states[0int + 1] == after);
    }
    if any_runs(op, before, after) {
        let states = seq![before, after];
        assert(one@[0] == op);
        assert(all_run(one@, states));
        assert(states.len() == one@.len() + 1);
    }
    let still = seq![before];
    assert(all_run(none@, still));
    assert(still.len() == none@.len() + 1);
}

/// Executing one operation and then several more comes to executing all of them nested, the one
/// first: whatever its kind, an operation within nested ones is executed in its turn.
pub proof fn law_nested_operations_run_in_turn<C, O1, O2, O3, O4, O5>(
    first: AnyOperation<O1, O2, O3, O4, O5>,
    rest: Vec<AnyOperation<O1, O2, O3, O4, O5>>,
    all: Vec<AnyOperation<O1, O2, O3, O4, O5>>,
    before: C,
    after: C,
) where
    O1: Operation<C>,
    O2: Operation<C>,
    O3: Operation<C>,
    O4: Operation<C>,
    O5: Operation<C>,

    requires
        all@ == seq![first] + rest@,
    ensures
        any_runs(AnyOperation::Nested(all), before, after) <==> exists|between: C| #[trigger]
            any_runs(first, before, between) && any_runs(
                AnyOperation::Nested(rest),
                between,
                after,
            ),
{
    if any_runs(AnyOperation::Nested(all), before, after) {
        let states = choose|states: Seq<C>|
            #[trigger] states.len() == all@.len() + 1 && states[0] == before
                && states[all@.len() as int] == after && all_run(all@, states);
        assert(all@[0] == first);
        assert(any_runs(first, before, states[0int + 1]));
        let late = states.skip(1);
        assert forall|i: int| 0 <= i < rest@.len() implies any_runs(
            #[trigger] rest@[i],
            late[i],
            late[i + 1],
        ) by {
            assert(all@[i + 1] == rest@[i]);
        }
        assert(late.len() == rest@.len() + 1 && all_run(rest@, late));
        assert(any_runs(AnyOperation::Nested(rest), states[1], after));
    }
    assert forall|between: C| #[trigger] any_runs(first, before, between) && any_runs(
        AnyOperation::Nested(rest),
        between,
        after,
    ) implies any_runs(AnyOperation::Nested(all), before, after) by {
        let late = choose|states: Seq<C>|
            #[trigger] states.len() == rest@.len() + 1 && states[0] == between
                && states[rest@.len() as int] == after && all_run(rest@, states);
        let states = seq![before] + late;
        assert forall|i: int| 0 <= i < all@.len() implies any_runs(
            #[trigger] all@[i],
            states[i],
            states[i + 1],
        ) by {
            if i > 0 {
                assert(all@[i] == rest@[i - 1]);
                assert(states[i] == late[i - 1]);
                assert(states[i + 1] == late[i - 1 + 1]);
            } else {
                assert(all@[0] == first);
            }
        }
        assert(states.len() == all@.len() + 1 && all_run(all@, states));
    }
}

} // verus!
