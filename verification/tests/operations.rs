use turbo_tasks_backend::operation::{AnyOperation, Operation};

struct Push(u32);

struct Double;

impl Operation<Vec<u32>> for Push {
    fn runs(self, _before: Vec<u32>, _after: Vec<u32>) -> bool {
        unreachable!()
    }

    fn execute(self, ctx: &mut Vec<u32>) {
        ctx.push(self.0);
    }
}

impl Operation<Vec<u32>> for Double {
    fn runs(self, _before: Vec<u32>, _after: Vec<u32>) -> bool {
        unreachable!()
    }

    fn execute(self, ctx: &mut Vec<u32>) {
        for entry in ctx.iter_mut() {
            *entry *= 2;
        }
    }
}

type Any = AnyOperation<Push, Double, Push, Push, Push>;

fn executed(op: Any) -> Vec<u32> {
    let mut ctx: Vec<u32> = vec![1];
    op.execute(&mut ctx);
    ctx
}

#[test]
fn each_operation_is_executed() {
    assert_eq!(executed(Any::ConnectChild(Push(5))), vec![1, 5]);
    assert_eq!(executed(Any::Invalidate(Double)), vec![2]);
    assert_eq!(executed(Any::UpdateCell(Push(6))), vec![1, 6]);
    assert_eq!(executed(Any::CleanupOldEdges(Push(7))), vec![1, 7]);
    assert_eq!(executed(Any::AggregationUpdate(Push(8))), vec![1, 8]);
    assert_eq!(executed(Any::Nested(vec![])), vec![1]);
}

#[test]
fn nested_operations_are_executed_in_order() {
    let flat = Any::Nested(vec![
        Any::ConnectChild(Push(5)),
        Any::Invalidate(Double),
        Any::UpdateCell(Push(6)),
    ]);
    let nested = Any::Nested(vec![
        Any::Nested(vec![Any::ConnectChild(Push(5)), Any::Invalidate(Double)]),
        Any::Nested(vec![Any::UpdateCell(Push(6))]),
    ]);
    assert_eq!(executed(flat), vec![2, 10, 6]);
    assert_eq!(executed(nested), vec![2, 10, 6]);
}

#[test]
fn an_operation_is_got_back_as_what_it_is() {
    assert_eq!(Any::from_connect_child(Push(3)).try_into_connect_child().ok().unwrap().0, 3);
    assert!(Any::from_connect_child(Push(3)).try_into_invalidate().is_err());
    assert!(Any::from_connect_child(Push(3)).try_into_update_cell().is_err());
    assert!(Any::from_invalidate(Double).try_into_invalidate().is_ok());
    assert_eq!(Any::from_update_cell(Push(4)).try_into_update_cell().ok().unwrap().0, 4);
    assert_eq!(Any::from_cleanup_old_edges(Push(5)).try_into_cleanup_old_edges().ok().unwrap().0, 5);
    let update = Any::from_aggregation_update(Push(6));
    assert_eq!(update.try_into_aggregation_update().ok().unwrap().0, 6);
    assert!(Any::Nested(vec![]).try_into_connect_child().is_err());
    assert!(Any::Nested(vec![]).try_into_aggregation_update().is_err());
    assert!(Any::Nested(vec![]).try_into_cleanup_old_edges().is_err());
}
