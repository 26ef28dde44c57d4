//! Taking over persisted data.
use vstd::prelude::*;

use crate::category::{SpecificTaskDataCategory, TaskDataCategory};
use crate::storage_schema::{
    by_kind, distinct_kinds, restored_flags, LazyField, LazyKind, TaskStorage,
};
use crate::task_flags::TaskFlag;
use crate::task_storage::{lemma_by_kind, lemma_push_field, lemma_remove_field};

verus! {

/// Whether `category` covers the lazy field of `kind`.
pub open spec fn covered(category: TaskDataCategory, kind: LazyKind) -> bool {
    match kind.part() {
        Some(part) => category.covers(part),
        None => false,
    }
}

/// Executable form of [`covered`].
fn is_covered(category: TaskDataCategory, kind: LazyKind) -> (is_covered: bool)
    ensures
        is_covered == covered(category, kind),
{
    match kind.persisted_part() {
        Some(part) => category.has_part(part),
        None => false,
    }
}

/// Drops the fields that `category` covers.
fn drop_covered(fields: &mut Vec<LazyField>, category: TaskDataCategory)
    requires
        distinct_kinds(old(fields)@),
    ensures
        distinct_kinds(final(fields)@),
        forall|kind: LazyKind| #[trigger]
            by_kind(final(fields)@).get(kind) == (if covered(category, kind) {
                None
            } else {
                by_kind(old(fields)@).get(kind)
            }),
{
    let ghost before = by_kind(fields@);
    let mut i: usize = 0;
    while i < fields.len()
        invariant
            i <= fields@.len(),
            distinct_kinds(fields@),
            forall|j: int|
                0 <= j < i ==> !covered(category, (#[trigger] fields@[j]).kind()),
            forall|kind: LazyKind|
                !covered(category, kind) ==> #[trigger] by_kind(fields@).get(kind) == before.get(
                    kind,
                ),
        decreases fields@.len() - i,
    {
        if is_covered(category, fields[i].which()) {
            proof {
                lemma_remove_field(fields@, i as int);
            }
            let ghost with = by_kind(fields@);
            let _ = fields.remove(i);
            assert forall|kind: LazyKind| !covered(category, kind) implies #[trigger] by_kind(
                fields@,
            ).get(kind) == before.get(kind) by {
                assert(with.get(kind) == before.get(kind));
            }
        } else {
            i += 1;
        }
    }
    proof {
        reveal(by_kind);
        assert forall|kind: LazyKind| covered(category, kind) implies #[trigger] by_kind(
            fields@,
        ).get(kind) is None by {}
    }
}

/// Moves the fields that `category` covers from `source` to `fields`.
fn move_covered(fields: &mut Vec<LazyField>, source: Vec<LazyField>, category: TaskDataCategory)
    requires
        distinct_kinds(old(fields)@),
        distinct_kinds(source@),
        forall|kind: LazyKind|
            covered(category, kind) ==> #[trigger] by_kind(old(fields)@).get(kind) is None,
    ensures
        distinct_kinds(final(fields)@),
        forall|kind: LazyKind| #[trigger]
            by_kind(final(fields)@).get(kind) == (if covered(category, kind) {
                by_kind(source@).get(kind)
            } else {
                by_kind(old(fields)@).get(kind)
            }),
{
    let ghost before = by_kind(fields@);
    let ghost from = by_kind(source@);
    let mut rest = source;
    while rest.len() > 0
        invariant
            distinct_kinds(fields@),
            distinct_kinds(rest@),
            forall|kind: LazyKind|
                !covered(category, kind) ==> #[trigger] by_kind(fields@).get(kind) == before.get(
                    kind,
                ),
            forall|kind: LazyKind|
                covered(category, kind) ==> #[trigger] by_kind(fields@).get(kind) == (if by_kind(
                    rest@,
                ).contains_key(kind) {
                    None
                } else {
                    from.get(kind)
                }),
            forall|kind: LazyKind| #[trigger]
                by_kind(rest@).contains_key(kind) ==> by_kind(rest@)[kind] == from[kind]
                    && from.contains_key(kind),
        decreases rest@.len(),
    {
        let ghost full = rest@;
        proof {
            let last = full.len() - 1;
            lemma_by_kind(full, last);
            lemma_remove_field(full, last);
            assert(full.remove(last) =~= full.drop_last());
        }
        if let Some(field) = rest.pop() {
            let ghost kind = field.kind();
            assert(by_kind(full).contains_key(kind));
            if is_covered(category, field.which()) {
                assert(by_kind(fields@).get(kind) is None);
                proof {
                    lemma_push_field(fields@, field);
                }
                let ghost without = by_kind(fields@);
                fields.push(field);
                assert forall|other: LazyKind| other != kind implies #[trigger] by_kind(
                    fields@,
                ).get(other) == without.get(other) by {}
                assert forall|other: LazyKind| !covered(category, other) implies #[trigger] by_kind(
                    fields@,
                ).get(other) == before.get(other) by {
                    assert(without.get(other) == before.get(other));
                }
                assert forall|other: LazyKind| covered(category, other) implies #[trigger] by_kind(
                    fields@,
                ).get(other) == (if by_kind(rest@).contains_key(other) {
                    None
                } else {
                    from.get(other)
                }) by {
                    assert(other != kind ==> without.get(other) == (if by_kind(full).contains_key(
                        other,
                    ) {
                        None
                    } else {
                        from.get(other)
                    }));
                }
            }
        }
    }
    proof {
        reveal(by_kind);
        assert(by_kind(rest@) =~= Map::empty());
    }
}

impl TaskStorage {
    /// Takes over from `source` what `category` covers: the persisted fields, and with the
    /// metadata the persisted flags.
    pub fn restore_from(&mut self, source: TaskStorage, category: TaskDataCategory)
        requires
            old(self).wf(),
            source.wf(),
        ensures
            final(self).wf(),
            final(self)@ == old(self)@.restored_from(source@, category),
    {
        let ghost before = *self;
        drop_covered(&mut self.lazy, category);
        let mut flags = self.flags;
        if category.has_part(SpecificTaskDataCategory::Meta) {
            flags.set(TaskFlag::Invalidator, source.flags.get(TaskFlag::Invalidator));
            flags.set(TaskFlag::Immutable, source.flags.get(TaskFlag::Immutable));
            self.flags = flags;
            assert(self.flags@ =~= restored_flags(before.flags@, source.flags@));
            self.aggregation_number = source.aggregation_number;
            self.output = source.output;
            self.upper = source.upper;
        }
        if category.has_part(SpecificTaskDataCategory::Data) {
            self.output_dependent = source.output_dependent;
        }
        move_covered(&mut self.lazy, source.lazy, category);
    }
}

} // verus!
