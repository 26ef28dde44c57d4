//! Typed access to the lazy fields of a task's storage.
use vstd::prelude::*;

use crate::counter_map::CounterMap;
use crate::data::{
    ActivenessState, Dirtyness, InProgressCellState, InProgressState, SharedReference,
    TypedSharedReference,
};
use crate::ids::{
    PackedCellId, PackedCellRef, PackedCollectibleRef, PackedCollectiblesRef, TaskId,
};
use crate::storage_schema::{
    activeness_in, aggregated_collectibles_in, aggregated_current_session_clean_container_count_in,
    aggregated_current_session_clean_containers_in, aggregated_dirty_container_count_in,
    aggregated_dirty_containers_in, by_kind, cell_data_in, cell_dependencies_in,
    cell_dependents_in, cell_type_max_index_in, children_in, collectibles_dependencies_in,
    collectibles_dependents_in, collectibles_in, dirty_in, distinct_kinds, followers_in,
    in_progress_cells_in, in_progress_in, outdated_cell_dependencies_in,
    outdated_collectibles_dependencies_in, outdated_collectibles_in,
    outdated_output_dependencies_in, output_dependencies_in, transient_cell_data_in, AutoMap,
    AutoSet, LazyField, LazyKind, TaskStorage, TaskStorageSchema,
};

verus! {

broadcast use vstd::std_specs::hash::group_hash_axioms;

/// A field that is there is the one found by its kind.
pub(crate) proof fn lemma_by_kind(fields: Seq<LazyField>, i: int)
    requires
        distinct_kinds(fields),
        0 <= i < fields.len(),
    ensures
        by_kind(fields).contains_key(fields[i].kind()),
        by_kind(fields)[fields[i].kind()] == fields[i],
{
    reveal(by_kind);
    let kind = fields[i].kind();
    let k = choose|k: int| 0 <= k < fields.len() && (#[trigger] fields[k]).kind() == kind;
    if k < i {
        assert(fields[k].kind() != fields[i].kind());
    }
    if i < k {
        assert(fields[i].kind() != fields[k].kind());
    }
}

/// Two ways to say that a field has been stored.
pub(crate) proof fn lemma_insert_field(
    before: Map<LazyKind, LazyField>,
    after: Map<LazyKind, LazyField>,
    field: LazyField,
)
    requires
        after.contains_key(field.kind()),
        after[field.kind()] == field,
        forall|other: LazyKind|
            other != field.kind() ==> #[trigger] after.get(other) == before.get(other),
    ensures
        after == before.insert(field.kind(), field),
{
    assert forall|other: LazyKind| after.contains_key(other) == before.insert(
        field.kind(),
        field,
    ).contains_key(other) by {
        assert(other != field.kind() ==> after.get(other) == before.get(other));
    }
    assert forall|other: LazyKind| after.contains_key(other) implies after[other] == before.insert(
        field.kind(),
        field,
    )[other] by {
        assert(other != field.kind() ==> after.get(other) == before.get(other));
    }
    assert(after =~= before.insert(field.kind(), field));
}

/// Appending a field of a new kind.
pub(crate) proof fn lemma_push_field(fields: Seq<LazyField>, field: LazyField)
    requires
        distinct_kinds(fields),
        !by_kind(fields).contains_key(field.kind()),
    ensures
        distinct_kinds(fields.push(field)),
        by_kind(fields.push(field)) == by_kind(fields).insert(field.kind(), field),
{
    reveal(by_kind);
    let after = fields.push(field);
    assert forall|i: int, j: int| 0 <= i < j < after.len() implies (#[trigger] after[i]).kind() != (
    #[trigger] after[j]).kind() by {
        if j == fields.len() {
            lemma_by_kind(fields, i);
        } else {
            assert(fields[i].kind() != fields[j].kind());
        }
    }
    lemma_same_fields(fields, after, field.kind());
    lemma_by_kind(after, fields.len() as int);
    lemma_insert_field(by_kind(fields), by_kind(after), field);
}

/// Replacing a field by one of the same kind.
pub(crate) proof fn lemma_replace_field(fields: Seq<LazyField>, i: int, field: LazyField)
    requires
        distinct_kinds(fields),
        0 <= i < fields.len(),
        fields[i].kind() == field.kind(),
    ensures
        distinct_kinds(fields.update(i, field)),
        by_kind(fields.update(i, field)) == by_kind(fields).insert(field.kind(), field),
{
    reveal(by_kind);
    let after = fields.update(i, field);
    assert forall|a: int, b: int| 0 <= a < b < after.len() implies (#[trigger] after[a]).kind() != (
    #[trigger] after[b]).kind() by {
        assert(fields[a].kind() != fields[b].kind());
    }
    lemma_same_fields(fields, after, field.kind());
    lemma_by_kind(after, i);
    lemma_insert_field(by_kind(fields), by_kind(after), field);
}

/// Removing a field.
pub(crate) proof fn lemma_remove_field(fields: Seq<LazyField>, i: int)
    requires
        distinct_kinds(fields),
        0 <= i < fields.len(),
    ensures
        distinct_kinds(fields.remove(i)),
        by_kind(fields.remove(i)) == by_kind(fields).remove(fields[i].kind()),
{
    reveal(by_kind);
    let after = fields.remove(i);
    assert forall|a: int| 0 <= a < after.len() implies #[trigger] after[a] == fields[if a < i {
        a
    } else {
        a + 1
    }] by {}
    assert forall|a: int, b: int| 0 <= a < b < after.len() implies (#[trigger] after[a]).kind() != (
    #[trigger] after[b]).kind() by {
        let c = if a < i {
            a
        } else {
            a + 1
        };
        let d = if b < i {
            b
        } else {
            b + 1
        };
        assert(fields[c].kind() != fields[d].kind());
    }
    let kind = fields[i].kind();
    assert forall|a: int| 0 <= a < after.len() implies (#[trigger] after[a]).kind() != kind by {
        if a < i {
            assert(fields[a].kind() != fields[i].kind());
        } else {
            assert(fields[i].kind() != fields[a + 1].kind());
        }
    }
    assert forall|j: int| 0 <= j < fields.len() && fields[j].kind() != kind implies after.contains(
        #[trigger] fields[j],
    ) by {
        if j < i {
            assert(after[j] == fields[j]);
        } else {
            assert(after[j - 1] == fields[j]);
        }
    }
    assert forall|other: LazyKind| other != kind implies by_kind(after).get(other) == by_kind(
        fields,
    ).get(other) by {
        if by_kind(fields).contains_key(other) {
            let j = choose|j: int| 0 <= j < fields.len() && (#[trigger] fields[j]).kind() == other;
            lemma_by_kind(fields, j);
            assert(after.contains(fields[j]));
            let a = choose|a: int| 0 <= a < after.len() && after[a] == fields[j];
            lemma_by_kind(after, a);
        }
        if by_kind(after).contains_key(other) {
            let a = choose|a: int| 0 <= a < after.len() && (#[trigger] after[a]).kind() == other;
            let c = if a < i {
                a
            } else {
                a + 1
            };
            assert(fields[c].kind() == other);
        }
    }
    assert forall|other: LazyKind| by_kind(after).contains_key(other) == by_kind(fields).remove(
        kind,
    ).contains_key(other) by {
        if other != kind {
            assert(by_kind(after).get(other) == by_kind(fields).get(other));
        }
    }
    assert forall|other: LazyKind| by_kind(after).contains_key(other) implies by_kind(after)[other]
        == by_kind(fields)[other] by {
        assert(by_kind(after).get(other) == by_kind(fields).get(other));
    }
    assert(by_kind(after) =~= by_kind(fields).remove(kind));
}

/// Where two sequences differ only in fields of one kind, and no field is lost, the fields of the
/// other kinds are found alike.
pub(crate) proof fn lemma_same_fields(before: Seq<LazyField>, after: Seq<LazyField>, kind: LazyKind)
    requires
        distinct_kinds(before),
        distinct_kinds(after),
        before.len() <= after.len(),
        forall|i: int|
            0 <= i < before.len() && (#[trigger] after[i]).kind() != kind ==> before[i] == after[i],
        forall|i: int| 0 <= i < before.len() ==> (#[trigger] after[i]).kind() == before[i].kind(),
        forall|i: int| before.len() <= i < after.len() ==> (#[trigger] after[i]).kind() == kind,
    ensures
        forall|other: LazyKind|
            other != kind ==> #[trigger] by_kind(after).get(other) == by_kind(before).get(other),
{
    reveal(by_kind);
    assert forall|other: LazyKind| other != kind implies #[trigger] by_kind(after).get(other)
        == by_kind(before).get(other) by {
        if by_kind(before).contains_key(other) {
            let i = choose|i: int| 0 <= i < before.len() && (#[trigger] before[i]).kind() == other;
            assert(after[i].kind() == other);
            lemma_by_kind(before, i);
            lemma_by_kind(after, i);
        } else if by_kind(after).contains_key(other) {
            let i = choose|i: int| 0 <= i < after.len() && (#[trigger] after[i]).kind() == other;
            assert(before[i].kind() == other);
        }
    }
}

impl TaskStorage {
    /// Whether no lazy field is kept twice.
    pub fn is_well_formed(&self) -> (well_formed: bool)
        ensures
            well_formed == self.wf(),
    {
        let mut j: usize = 0;
        while j < self.lazy.len()
            invariant
                j <= self.lazy@.len(),
                distinct_kinds(self.lazy@.take(j as int)),
            decreases self.lazy@.len() - j,
        {
            let kind = self.lazy[j].which();
            let mut i: usize = 0;
            while i < j
                invariant
                    i <= j < self.lazy@.len(),
                    kind == self.lazy@[j as int].kind(),
                    forall|k: int| 0 <= k < i ==> (#[trigger] self.lazy@[k]).kind() != kind,
                decreases j - i,
            {
                if self.lazy[i].which() == kind {
                    assert(self.lazy@[i as int].kind() == self.lazy@[j as int].kind());
                    return false;
                }
                i += 1;
            }
            proof {
                let next = self.lazy@.take(j + 1);
                assert forall|a: int, b: int| 0 <= a < b < next.len() implies (
                #[trigger] next[a]).kind() != (#[trigger] next[b]).kind() by {
                    if b < j {
                        assert(self.lazy@.take(j as int)[a] == next[a]);
                        assert(self.lazy@.take(j as int)[b] == next[b]);
                    } else {
                        assert(self.lazy@[a].kind() != kind);
                    }
                }
            }
            j += 1;
        }
        assert(self.lazy@.take(j as int) =~= self.lazy@);
        true
    }

    /// Where the field of `kind` is kept.
    pub fn lazy_position(&self, kind: LazyKind) -> (position: Option<usize>)
        requires
            self.wf(),
        ensures
            match position {
                Some(i) => i < self.lazy@.len() && self.lazy@[i as int].kind() == kind && by_kind(
                    self.lazy@,
                ).get(kind) == Some(self.lazy@[i as int]),
                None => !by_kind(self.lazy@).contains_key(kind),
            },
    {
        let mut i: usize = 0;
        while i < self.lazy.len()
            invariant
                self.wf(),
                i <= self.lazy@.len(),
                forall|j: int| 0 <= j < i ==> (#[trigger] self.lazy@[j]).kind() != kind,
            decreases self.lazy@.len() - i,
        {
            if self.lazy[i].which() == kind {
                proof {
                    lemma_by_kind(self.lazy@, i as int);
                }
                return Some(i);
            }
            i += 1;
        }
        proof {
            reveal(by_kind);
        }
        None
    }

    /// Keeps `field`, and gives back the field of its kind that it replaces.
    pub fn put_lazy(&mut self, field: LazyField) -> (replaced: Option<LazyField>)
        requires
            old(self).wf(),
        ensures
            final(self).wf(),
            *final(self) == (TaskStorage { lazy: final(self).lazy, ..*old(self) }),
            by_kind(final(self).lazy@) == by_kind(old(self).lazy@).insert(field.kind(), field),
            replaced == by_kind(old(self).lazy@).get(field.kind()),
    {
        match self.lazy_position(field.which()) {
            Some(i) => {
                proof {
                    lemma_replace_field(self.lazy@, i as int, field);
                }
                let mut field = field;
                std::mem::swap(&mut self.lazy[i], &mut field);
                Some(field)
            },
            None => {
                proof {
                    lemma_push_field(self.lazy@, field);
                }
                self.lazy.push(field);
                None
            },
        }
    }

    /// Removes the field of `kind`.
    pub fn take_lazy(&mut self, kind: LazyKind) -> (taken: Option<LazyField>)
        requires
            old(self).wf(),
        ensures
            final(self).wf(),
            *final(self) == (TaskStorage { lazy: final(self).lazy, ..*old(self) }),
            by_kind(final(self).lazy@) == by_kind(old(self).lazy@).remove(kind),
            taken == by_kind(old(self).lazy@).get(kind),
    {
        match self.lazy_position(kind) {
            Some(i) => {
                proof {
                    lemma_remove_field(self.lazy@, i as int);
                }
                Some(self.lazy.remove(i))
            },
            None => {
                assert(by_kind(self.lazy@).remove(kind) =~= by_kind(self.lazy@));
                None
            },
        }
    }

    /// The place of the field of `empty`'s kind, where `empty` is put if there is none yet.
    fn lazy_slot(&mut self, empty: LazyField) -> (slot: &mut LazyField)
        requires
            old(self).wf(),
        ensures
            *slot == (match by_kind(old(self).lazy@).get(empty.kind()) {
                Some(field) => field,
                None => empty,
            }),
            slot.kind() == empty.kind(),
            *final(self) == (TaskStorage { lazy: final(self).lazy, ..*old(self) }),
            final(slot).kind() == empty.kind() ==> {
                &&& final(self).wf()
                &&& by_kind(final(self).lazy@) == by_kind(old(self).lazy@).insert(
                    empty.kind(),
                    *final(slot),
                )
            },
    {
        let ghost before = self.lazy@;
        match self.lazy_position(empty.which()) {
            Some(i) => {
                assert forall|field: LazyField| field.kind() == empty.kind() implies {
                    &&& distinct_kinds(#[trigger] before.update(i as int, field))
                    &&& by_kind(before.update(i as int, field)) == by_kind(before).insert(
                        empty.kind(),
                        field,
                    )
                } by {
                    lemma_replace_field(before, i as int, field);
                }
                &mut self.lazy[i]
            },
            None => {
                let ghost kind = empty.kind();
                let i: usize = self.lazy.len();
                self.lazy.push(empty);
                assert forall|field: LazyField| field.kind() == kind implies {
                    &&& distinct_kinds(#[trigger] before.push(empty).update(i as int, field))
                    &&& by_kind(before.push(empty).update(i as int, field)) == by_kind(
                        before,
                    ).insert(kind, field)
                } by {
                    lemma_push_field(before, empty);
                    lemma_replace_field(before.push(empty), i as int, field);
                    assert(by_kind(before).insert(kind, empty).insert(kind, field) =~= by_kind(
                        before,
                    ).insert(kind, field));
                }
                &mut self.lazy[i]
            },
        }
    }


    /// The dirty state, if there is one.
    pub fn get_dirty(&self) -> (value: Option<&Dirtyness>)
        requires
            self.wf(),
        ensures
            match value {
                Some(value) => self@.dirty == Some(*value),
                None => self@.dirty is None,
            },
    {
        proof {
            reveal(dirty_in);
        }
        match self.lazy_position(LazyKind::Dirty) {
            Some(i) => match &self.lazy[i] {
                LazyField::Dirty(value) => Some(value),
                _ => None,
            },
            None => None,
        }
    }

    /// Stores the dirty state, and gives back the one before.
    pub fn set_dirty(&mut self, value: Dirtyness) -> (before: Option<Dirtyness>)
        requires
            old(self).wf(),
        ensures
            final(self).wf(),
            final(self)@ == (TaskStorageSchema { dirty: Some(value), ..old(self)@ }),
            before == old(self)@.dirty,
    {
        proof {
            reveal(dirty_in);
        }
        match self.put_lazy(LazyField::Dirty(value)) {
            Some(LazyField::Dirty(before)) => Some(before),
            _ => None,
        }
    }

    /// Takes the dirty state away.
    pub fn take_dirty(&mut self) -> (before: Option<Dirtyness>)
        requires
            old(self).wf(),
        ensures
            final(self).wf(),
            final(self)@ == (TaskStorageSchema { dirty: None, ..old(self)@ }),
            before == old(self)@.dirty,
    {
        proof {
            reveal(dirty_in);
        }
        match self.take_lazy(LazyKind::Dirty) {
            Some(LazyField::Dirty(before)) => Some(before),
            _ => None,
        }
    }

    /// The count of dirty containers, if there is one.
    pub fn get_aggregated_dirty_container_count(&self) -> (value: Option<&i32>)
        requires
            self.wf(),
        ensures
            match value {
                Some(value) => self@.aggregated_dirty_container_count == Some(*value),
                None => self@.aggregated_dirty_container_count is None,
            },
    {
        proof {
            reveal(aggregated_dirty_container_count_in);
        }
        match self.lazy_position(LazyKind::AggregatedDirtyContainerCount) {
            Some(i) => match &self.lazy[i] {
                LazyField::AggregatedDirtyContainerCount(value) => Some(value),
                _ => None,
            },
            None => None,
        }
    }

    /// Stores the count of dirty containers, and gives back the one before.
    pub fn set_aggregated_dirty_container_count(&mut self, value: i32) -> (before: Option<i32>)
        requires
            old(self).wf(),
        ensures
            final(self).wf(),
            final(self)@ == (TaskStorageSchema {
                aggregated_dirty_container_count: Some(value),
                ..old(self)@
            }),
            before == old(self)@.aggregated_dirty_container_count,
    {
        proof {
            reveal(aggregated_dirty_container_count_in);
        }
        match self.put_lazy(LazyField::AggregatedDirtyContainerCount(value)) {
            Some(LazyField::AggregatedDirtyContainerCount(before)) => Some(before),
            _ => None,
        }
    }

    /// Takes the count of dirty containers away.
    pub fn take_aggregated_dirty_container_count(&mut self) -> (before: Option<i32>)
        requires
            old(self).wf(),
        ensures
            final(self).wf(),
            final(self)@ == (TaskStorageSchema {
                aggregated_dirty_container_count: None,
                ..old(self)@
            }),
            before == old(self)@.aggregated_dirty_container_count,
    {
        proof {
            reveal(aggregated_dirty_container_count_in);
        }
        match self.take_lazy(LazyKind::AggregatedDirtyContainerCount) {
            Some(LazyField::AggregatedDirtyContainerCount(before)) => Some(before),
            _ => None,
        }
    }

    /// The count of containers that are clean in the current session, if there is one.
    pub fn get_aggregated_current_session_clean_container_count(&self) -> (value: Option<&i32>)
        requires
            self.wf(),
        ensures
            match value {
                Some(value) => self@.aggregated_current_session_clean_container_count
                    == Some(*value),
                None => self@.aggregated_current_session_clean_container_count is None,
            },
    {
        proof {
            reveal(aggregated_current_session_clean_container_count_in);
        }
        match self.lazy_position(LazyKind::AggregatedCurrentSessionCleanContainerCount) {
            Some(i) => match &self.lazy[i] {
                LazyField::AggregatedCurrentSessionCleanContainerCount(value) => Some(value),
                _ => None,
            },
            None => None,
        }
    }

    /// Stores the count of containers that are clean in the current session, and gives back the one before.
    pub fn set_aggregated_current_session_clean_container_count(
        &mut self,
        value: i32,
    ) -> (before: Option<i32>)
        requires
            old(self).wf(),
        ensures
            final(self).wf(),
            final(self)@ == (TaskStorageSchema {
                aggregated_current_session_clean_container_count: Some(value),
                ..old(self)@
            }),
            before == old(self)@.aggregated_current_session_clean_container_count,
    {
        proof {
            reveal(aggregated_current_session_clean_container_count_in);
        }
        match self.put_lazy(LazyField::AggregatedCurrentSessionCleanContainerCount(value)) {
            Some(LazyField::AggregatedCurrentSessionCleanContainerCount(before)) => Some(before),
            _ => None,
        }
    }

    /// Takes the count of containers that are clean in the current session away.
    pub fn take_aggregated_current_session_clean_container_count(&mut self) -> (before: Option<i32>)
        requires
            old(self).wf(),
        ensures
            final(self).wf(),
            final(self)@ == (TaskStorageSchema {
                aggregated_current_session_clean_container_count: None,
                ..old(self)@
            }),
            before == old(self)@.aggregated_current_session_clean_container_count,
    {
        proof {
            reveal(aggregated_current_session_clean_container_count_in);
        }
        match self.take_lazy(LazyKind::AggregatedCurrentSessionCleanContainerCount) {
            Some(LazyField::AggregatedCurrentSessionCleanContainerCount(before)) => Some(before),
            _ => None,
        }
    }

    /// The activeness state, if there is one.
    pub fn get_activeness(&self) -> (value: Option<&ActivenessState>)
        requires
            self.wf(),
        ensures
            match value {
                Some(value) => self@.activeness == Some(*value),
                None => self@.activeness is None,
            },
    {
        proof {
            reveal(activeness_in);
        }
        match self.lazy_position(LazyKind::Activeness) {
            Some(i) => match &self.lazy[i] {
                LazyField::Activeness(value) => Some(value),
                _ => None,
            },
            None => None,
        }
    }

    /// Stores the activeness state, and gives back the one before.
    pub fn set_activeness(&mut self, value: ActivenessState) -> (before: Option<ActivenessState>)
        requires
            old(self).wf(),
        ensures
            final(self).wf(),
            final(self)@ == (TaskStorageSchema { activeness: Some(value), ..old(self)@ }),
            before == old(self)@.activeness,
    {
        proof {
            reveal(activeness_in);
        }
        match self.put_lazy(LazyField::Activeness(value)) {
            Some(LazyField::Activeness(before)) => Some(before),
            _ => None,
        }
    }

    /// Takes the activeness state away.
    pub fn take_activeness(&mut self) -> (before: Option<ActivenessState>)
        requires
            old(self).wf(),
        ensures
            final(self).wf(),
            final(self)@ == (TaskStorageSchema { activeness: None, ..old(self)@ }),
            before == old(self)@.activeness,
    {
        proof {
            reveal(activeness_in);
        }
        match self.take_lazy(LazyKind::Activeness) {
            Some(LazyField::Activeness(before)) => Some(before),
            _ => None,
        }
    }

    /// The in-progress state, if there is one.
    pub fn get_in_progress(&self) -> (value: Option<&InProgressState>)
        requires
            self.wf(),
        ensures
            match value {
                Some(value) => self@.in_progress == Some(*value),
                None => self@.in_progress is None,
            },
    {
        proof {
            reveal(in_progress_in);
        }
        match self.lazy_position(LazyKind::InProgress) {
            Some(i) => match &self.lazy[i] {
                LazyField::InProgress(value) => Some(value),
                _ => None,
            },
            None => None,
        }
    }

    /// Stores the in-progress state, and gives back the one before.
    pub fn set_in_progress(&mut self, value: InProgressState) -> (before: Option<InProgressState>)
        requires
            old(self).wf(),
        ensures
            final(self).wf(),
            final(self)@ == (TaskStorageSchema { in_progress: Some(value), ..old(self)@ }),
            before == old(self)@.in_progress,
    {
        proof {
            reveal(in_progress_in);
        }
        match self.put_lazy(LazyField::InProgress(value)) {
            Some(LazyField::InProgress(before)) => Some(before),
            _ => None,
        }
    }

    /// Takes the in-progress state away.
    pub fn take_in_progress(&mut self) -> (before: Option<InProgressState>)
        requires
            old(self).wf(),
        ensures
            final(self).wf(),
            final(self)@ == (TaskStorageSchema { in_progress: None, ..old(self)@ }),
            before == old(self)@.in_progress,
    {
        proof {
            reveal(in_progress_in);
        }
        match self.take_lazy(LazyKind::InProgress) {
            Some(LazyField::InProgress(before)) => Some(before),
            _ => None,
        }
    }

    /// The activeness state, to be changed.
    pub fn get_activeness_mut(&mut self) -> (value: Option<&mut ActivenessState>)
        requires
            old(self).wf(),
        ensures
            final(self).wf(),
            match value {
                Some(value) => {
                    &&& old(self)@.activeness == Some(*value)
                    &&& final(self)@ == (TaskStorageSchema {
                        activeness: Some(*final(value)),
                        ..old(self)@
                    })
                },
                None => old(self)@.activeness is None && *final(self) == *old(self),
            },
    {
        proof {
            reveal(activeness_in);
        }
        match self.lazy_position(LazyKind::Activeness) {
            Some(i) => {
                let ghost before = self.lazy@;
                assert forall|field: LazyField| field.kind() is Activeness implies {
                    &&& distinct_kinds(#[trigger] before.update(i as int, field))
                    &&& by_kind(before.update(i as int, field)) == by_kind(before).insert(
                        LazyKind::Activeness,
                        field,
                    )
                } by {
                    lemma_replace_field(before, i as int, field);
                }
                match &mut self.lazy[i] {
                    LazyField::Activeness(value) => Some(value),
                    _ => None,
                }
            },
            None => None,
        }
    }

    /// Outdated collectibles to be cleaned up.
    pub fn outdated_collectibles(&self) -> (value: Option<&CounterMap<PackedCollectibleRef, i32>>)
        requires
            self.wf(),
        ensures
            match value {
                Some(value) => self@.outdated_collectibles == value@,
                None => self@.outdated_collectibles == Map::<PackedCollectibleRef, i32>::empty(),
            },
    {
        proof {
            reveal(outdated_collectibles_in);
        }
        match self.lazy_position(LazyKind::OutdatedCollectibles) {
            Some(i) => match &self.lazy[i] {
                LazyField::OutdatedCollectibles(value) => Some(value),
                _ => None,
            },
            None => None,
        }
    }

    /// Outdated collectibles to be cleaned up. To be changed.
    pub fn outdated_collectibles_mut(
        &mut self,
    ) -> (value: &mut CounterMap<PackedCollectibleRef, i32>)
        requires
            old(self).wf(),
        ensures
            value@ == old(self)@.outdated_collectibles,
            final(self).wf(),
            final(self)@ == (TaskStorageSchema {
                outdated_collectibles: final(value)@,
                ..old(self)@
            }),
    {
        proof {
            reveal(outdated_collectibles_in);
        }
        match self.lazy_slot(LazyField::OutdatedCollectibles(CounterMap::default())) {
            LazyField::OutdatedCollectibles(value) => value,
            _ => vstd::pervasive::unreached(),
        }
    }

    /// Aggregated collectibles from the subgraph.
    pub fn aggregated_collectibles(&self) -> (value: Option<&CounterMap<PackedCollectibleRef, i32>>)
        requires
            self.wf(),
        ensures
            match value {
                Some(value) => self@.aggregated_collectibles == value@,
                None => self@.aggregated_collectibles == Map::<PackedCollectibleRef, i32>::empty(),
            },
    {
        proof {
            reveal(aggregated_collectibles_in);
        }
        match self.lazy_position(LazyKind::AggregatedCollectibles) {
            Some(i) => match &self.lazy[i] {
                LazyField::AggregatedCollectibles(value) => Some(value),
                _ => None,
            },
            None => None,
        }
    }

    /// Aggregated collectibles from the subgraph. To be changed.
    pub fn aggregated_collectibles_mut(
        &mut self,
    ) -> (value: &mut CounterMap<PackedCollectibleRef, i32>)
        requires
            old(self).wf(),
        ensures
            value@ == old(self)@.aggregated_collectibles,
            final(self).wf(),
            final(self)@ == (TaskStorageSchema {
                aggregated_collectibles: final(value)@,
                ..old(self)@
            }),
    {
        proof {
            reveal(aggregated_collectibles_in);
        }
        match self.lazy_slot(LazyField::AggregatedCollectibles(CounterMap::default())) {
            LazyField::AggregatedCollectibles(value) => value,
            _ => vstd::pervasive::unreached(),
        }
    }

    /// Individual dirty containers in the aggregated subgraph.
    pub fn aggregated_dirty_containers(&self) -> (value: Option<&CounterMap<TaskId, i32>>)
        requires
            self.wf(),
        ensures
            match value {
                Some(value) => self@.aggregated_dirty_containers == value@,
                None => self@.aggregated_dirty_containers == Map::<TaskId, i32>::empty(),
            },
    {
        proof {
            reveal(aggregated_dirty_containers_in);
        }
        match self.lazy_position(LazyKind::AggregatedDirtyContainers) {
            Some(i) => match &self.lazy[i] {
                LazyField::AggregatedDirtyContainers(value) => Some(value),
                _ => None,
            },
            None => None,
        }
    }

    /// Individual dirty containers in the aggregated subgraph. To be changed.
    pub fn aggregated_dirty_containers_mut(&mut self) -> (value: &mut CounterMap<TaskId, i32>)
        requires
            old(self).wf(),
        ensures
            value@ == old(self)@.aggregated_dirty_containers,
            final(self).wf(),
            final(self)@ == (TaskStorageSchema {
                aggregated_dirty_containers: final(value)@,
                ..old(self)@
            }),
    {
        proof {
            reveal(aggregated_dirty_containers_in);
        }
        match self.lazy_slot(LazyField::AggregatedDirtyContainers(CounterMap::default())) {
            LazyField::AggregatedDirtyContainers(value) => value,
            _ => vstd::pervasive::unreached(),
        }
    }

    /// Individual clean containers in the current session.
    pub fn aggregated_current_session_clean_containers(
        &self,
    ) -> (value: Option<&CounterMap<TaskId, i32>>)
        requires
            self.wf(),
        ensures
            match value {
                Some(value) => self@.aggregated_current_session_clean_containers == value@,
                None => self@.aggregated_current_session_clean_containers
                    == Map::<TaskId, i32>::empty(),
            },
    {
        proof {
            reveal(aggregated_current_session_clean_containers_in);
        }
        match self.lazy_position(LazyKind::AggregatedCurrentSessionCleanContainers) {
            Some(i) => match &self.lazy[i] {
                LazyField::AggregatedCurrentSessionCleanContainers(value) => Some(value),
                _ => None,
            },
            None => None,
        }
    }

    /// Individual clean containers in the current session. To be changed.
    pub fn aggregated_current_session_clean_containers_mut(
        &mut self,
    ) -> (value: &mut CounterMap<TaskId, i32>)
        requires
            old(self).wf(),
        ensures
            value@ == old(self)@.aggregated_current_session_clean_containers,
            final(self).wf(),
            final(self)@ == (TaskStorageSchema {
                aggregated_current_session_clean_containers: final(value)@,
                ..old(self)@
            }),
    {
        proof {
            reveal(aggregated_current_session_clean_containers_in);
        }
        match self.lazy_slot(LazyField::AggregatedCurrentSessionCleanContainers(CounterMap::default())) {
            LazyField::AggregatedCurrentSessionCleanContainers(value) => value,
            _ => vstd::pervasive::unreached(),
        }
    }

    /// Follower nodes in the aggregation tree (reference counted).
    pub fn followers(&self) -> (value: Option<&CounterMap<TaskId, u32>>)
        requires
            self.wf(),
        ensures
            match value {
                Some(value) => self@.followers == value@,
                None => self@.followers == Map::<TaskId, u32>::empty(),
            },
    {
        proof {
            reveal(followers_in);
        }
        match self.lazy_position(LazyKind::Followers) {
            Some(i) => match &self.lazy[i] {
                LazyField::Followers(value) => Some(value),
                _ => None,
            },
            None => None,
        }
    }

    /// Follower nodes in the aggregation tree (reference counted). To be changed.
    pub fn followers_mut(&mut self) -> (value: &mut CounterMap<TaskId, u32>)
        requires
            old(self).wf(),
        ensures
            value@ == old(self)@.followers,
            final(self).wf(),
            final(self)@ == (TaskStorageSchema { followers: final(value)@, ..old(self)@ }),
    {
        proof {
            reveal(followers_in);
        }
        match self.lazy_slot(LazyField::Followers(CounterMap::default())) {
            LazyField::Followers(value) => value,
            _ => vstd::pervasive::unreached(),
        }
    }

    /// Tasks whose output the task depends on.
    pub fn output_dependencies(&self) -> (value: Option<&AutoSet<TaskId>>)
        requires
            self.wf(),
        ensures
            match value {
                Some(value) => self@.output_dependencies == value@,
                None => self@.output_dependencies == Set::<TaskId>::empty(),
            },
    {
        proof {
            reveal(output_dependencies_in);
        }
        match self.lazy_position(LazyKind::OutputDependencies) {
            Some(i) => match &self.lazy[i] {
                LazyField::OutputDependencies(value) => Some(value),
                _ => None,
            },
            None => None,
        }
    }

    /// Tasks whose output the task depends on. To be changed.
    pub fn output_dependencies_mut(&mut self) -> (value: &mut AutoSet<TaskId>)
        requires
            old(self).wf(),
        ensures
            value@ == old(self)@.output_dependencies,
            final(self).wf(),
            final(self)@ == (TaskStorageSchema {
                output_dependencies: final(value)@,
                ..old(self)@
            }),
    {
        proof {
            reveal(output_dependencies_in);
        }
        match self.lazy_slot(LazyField::OutputDependencies(AutoSet::default())) {
            LazyField::OutputDependencies(value) => value,
            _ => vstd::pervasive::unreached(),
        }
    }

    /// Cells the task depends on.
    pub fn cell_dependencies(&self) -> (value: Option<&AutoSet<PackedCellRef>>)
        requires
            self.wf(),
        ensures
            match value {
                Some(value) => self@.cell_dependencies == value@,
                None => self@.cell_dependencies == Set::<PackedCellRef>::empty(),
            },
    {
        proof {
            reveal(cell_dependencies_in);
        }
        match self.lazy_position(LazyKind::CellDependencies) {
            Some(i) => match &self.lazy[i] {
                LazyField::CellDependencies(value) => Some(value),
                _ => None,
            },
            None => None,
        }
    }

    /// Cells the task depends on. To be changed.
    pub fn cell_dependencies_mut(&mut self) -> (value: &mut AutoSet<PackedCellRef>)
        requires
            old(self).wf(),
        ensures
            value@ == old(self)@.cell_dependencies,
            final(self).wf(),
            final(self)@ == (TaskStorageSchema { cell_dependencies: final(value)@, ..old(self)@ }),
    {
        proof {
            reveal(cell_dependencies_in);
        }
        match self.lazy_slot(LazyField::CellDependencies(AutoSet::default())) {
            LazyField::CellDependencies(value) => value,
            _ => vstd::pervasive::unreached(),
        }
    }

    /// Collectibles the task depends on.
    pub fn collectibles_dependencies(&self) -> (value: Option<&AutoSet<PackedCollectiblesRef>>)
        requires
            self.wf(),
        ensures
            match value {
                Some(value) => self@.collectibles_dependencies == value@,
                None => self@.collectibles_dependencies == Set::<PackedCollectiblesRef>::empty(),
            },
    {
        proof {
            reveal(collectibles_dependencies_in);
        }
        match self.lazy_position(LazyKind::CollectiblesDependencies) {
            Some(i) => match &self.lazy[i] {
                LazyField::CollectiblesDependencies(value) => Some(value),
                _ => None,
            },
            None => None,
        }
    }

    /// Collectibles the task depends on. To be changed.
    pub fn collectibles_dependencies_mut(&mut self) -> (value: &mut AutoSet<PackedCollectiblesRef>)
        requires
            old(self).wf(),
        ensures
            value@ == old(self)@.collectibles_dependencies,
            final(self).wf(),
            final(self)@ == (TaskStorageSchema {
                collectibles_dependencies: final(value)@,
                ..old(self)@
            }),
    {
        proof {
            reveal(collectibles_dependencies_in);
        }
        match self.lazy_slot(LazyField::CollectiblesDependencies(AutoSet::default())) {
            LazyField::CollectiblesDependencies(value) => value,
            _ => vstd::pervasive::unreached(),
        }
    }

    /// Persistent cell data (serializable).
    pub fn cell_data(&self) -> (value: Option<&AutoMap<PackedCellId, TypedSharedReference>>)
        requires
            self.wf(),
        ensures
            match value {
                Some(value) => self@.cell_data == value@,
                None => self@.cell_data == Map::<PackedCellId, TypedSharedReference>::empty(),
            },
    {
        proof {
            reveal(cell_data_in);
        }
        match self.lazy_position(LazyKind::CellData) {
            Some(i) => match &self.lazy[i] {
                LazyField::CellData(value) => Some(value),
                _ => None,
            },
            None => None,
        }
    }

    /// Persistent cell data (serializable). To be changed.
    pub fn cell_data_mut(&mut self) -> (value: &mut AutoMap<PackedCellId, TypedSharedReference>)
        requires
            old(self).wf(),
        ensures
            value@ == old(self)@.cell_data,
            final(self).wf(),
            final(self)@ == (TaskStorageSchema { cell_data: final(value)@, ..old(self)@ }),
    {
        proof {
            reveal(cell_data_in);
        }
        match self.lazy_slot(LazyField::CellData(AutoMap::default())) {
            LazyField::CellData(value) => value,
            _ => vstd::pervasive::unreached(),
        }
    }

    /// Transient cell data (not serializable).
    pub fn transient_cell_data(&self) -> (value: Option<&AutoMap<PackedCellId, SharedReference>>)
        requires
            self.wf(),
        ensures
            match value {
                Some(value) => self@.transient_cell_data == value@,
                None => self@.transient_cell_data == Map::<PackedCellId, SharedReference>::empty(),
            },
    {
        proof {
            reveal(transient_cell_data_in);
        }
        match self.lazy_position(LazyKind::TransientCellData) {
            Some(i) => match &self.lazy[i] {
                LazyField::TransientCellData(value) => Some(value),
                _ => None,
            },
            None => None,
        }
    }

    /// Transient cell data (not serializable). To be changed.
    pub fn transient_cell_data_mut(
        &mut self,
    ) -> (value: &mut AutoMap<PackedCellId, SharedReference>)
        requires
            old(self).wf(),
        ensures
            value@ == old(self)@.transient_cell_data,
            final(self).wf(),
            final(self)@ == (TaskStorageSchema {
                transient_cell_data: final(value)@,
                ..old(self)@
            }),
    {
        proof {
            reveal(transient_cell_data_in);
        }
        match self.lazy_slot(LazyField::TransientCellData(AutoMap::default())) {
            LazyField::TransientCellData(value) => value,
            _ => vstd::pervasive::unreached(),
        }
    }

    /// In-progress state of the cells that are being computed.
    pub fn in_progress_cells(&self) -> (value: Option<&AutoMap<PackedCellId, InProgressCellState>>)
        requires
            self.wf(),
        ensures
            match value {
                Some(value) => self@.in_progress_cells == value@,
                None => self@.in_progress_cells
                    == Map::<PackedCellId, InProgressCellState>::empty(),
            },
    {
        proof {
            reveal(in_progress_cells_in);
        }
        match self.lazy_position(LazyKind::InProgressCells) {
            Some(i) => match &self.lazy[i] {
                LazyField::InProgressCells(value) => Some(value),
                _ => None,
            },
            None => None,
        }
    }

    /// In-progress state of the cells that are being computed. To be changed.
    pub fn in_progress_cells_mut(
        &mut self,
    ) -> (value: &mut AutoMap<PackedCellId, InProgressCellState>)
        requires
            old(self).wf(),
        ensures
            value@ == old(self)@.in_progress_cells,
            final(self).wf(),
            final(self)@ == (TaskStorageSchema { in_progress_cells: final(value)@, ..old(self)@ }),
    {
        proof {
            reveal(in_progress_cells_in);
        }
        match self.lazy_slot(LazyField::InProgressCells(AutoMap::default())) {
            LazyField::InProgressCells(value) => value,
            _ => vstd::pervasive::unreached(),
        }
    }
}

/// A storage means what its fields hold: each lazy field that is there is seen, as what it is.
pub proof fn law_each_field_is_seen(storage: TaskStorage, i: int)
    requires
        storage.wf(),
        0 <= i < storage.lazy@.len(),
    ensures
        match storage.lazy@[i] {
            LazyField::Collectibles(value) => storage@.collectibles == value@,
            LazyField::AggregatedCollectibles(value) => storage@.aggregated_collectibles == value@,
            LazyField::OutdatedCollectibles(value) => storage@.outdated_collectibles == value@,
            LazyField::Dirty(value) => storage@.dirty == Some(value),
            LazyField::AggregatedDirtyContainerCount(value) => storage@.aggregated_dirty_container_count == Some(value),
            LazyField::AggregatedDirtyContainers(value) => storage@.aggregated_dirty_containers == value@,
            LazyField::AggregatedCurrentSessionCleanContainerCount(value) => storage@.aggregated_current_session_clean_container_count == Some(value),
            LazyField::AggregatedCurrentSessionCleanContainers(value) => storage@.aggregated_current_session_clean_containers == value@,
            LazyField::Children(value) => storage@.children == value@,
            LazyField::Followers(value) => storage@.followers == value@,
            LazyField::OutputDependencies(value) => storage@.output_dependencies == value@,
            LazyField::CellDependencies(value) => storage@.cell_dependencies == value@,
            LazyField::CollectiblesDependencies(value) => storage@.collectibles_dependencies == value@,
            LazyField::OutdatedOutputDependencies(value) => storage@.outdated_output_dependencies == value@,
            LazyField::OutdatedCellDependencies(value) => storage@.outdated_cell_dependencies == value@,
            LazyField::OutdatedCollectiblesDependencies(value) => storage@.outdated_collectibles_dependencies == value@,
            LazyField::CellDependents(value) => storage@.cell_dependents.dom() == value@.dom() && forall|key| #[trigger]
                value@.contains_key(key) ==> storage@.cell_dependents[key] == value@[key]@,
            LazyField::CollectiblesDependents(value) => storage@.collectibles_dependents.dom() == value@.dom() && forall|key| #[trigger]
                value@.contains_key(key) ==> storage@.collectibles_dependents[key] == value@[key]@,
            LazyField::CellData(value) => storage@.cell_data == value@,
            LazyField::TransientCellData(value) => storage@.transient_cell_data == value@,
            LazyField::CellTypeMaxIndex(value) => storage@.cell_type_max_index == value@,
            LazyField::Activeness(value) => storage@.activeness == Some(value),
            LazyField::InProgress(value) => storage@.in_progress == Some(value),
            LazyField::InProgressCells(value) => storage@.in_progress_cells == value@,
        },
{
    lemma_by_kind(storage.lazy@, i);
    reveal(collectibles_in);
    reveal(aggregated_collectibles_in);
    reveal(outdated_collectibles_in);
    reveal(dirty_in);
    reveal(aggregated_dirty_container_count_in);
    reveal(aggregated_dirty_containers_in);
    reveal(aggregated_current_session_clean_container_count_in);
    reveal(aggregated_current_session_clean_containers_in);
    reveal(children_in);
    reveal(followers_in);
    reveal(output_dependencies_in);
    reveal(cell_dependencies_in);
    reveal(collectibles_dependencies_in);
    reveal(outdated_output_dependencies_in);
    reveal(outdated_cell_dependencies_in);
    reveal(outdated_collectibles_dependencies_in);
    reveal(cell_dependents_in);
    reveal(collectibles_dependents_in);
    reveal(cell_data_in);
    reveal(transient_cell_data_in);
    reveal(cell_type_max_index_in);
    reveal(activeness_in);
    reveal(in_progress_in);
    reveal(in_progress_cells_in);
}

/// A lazy field that is not there counts as an empty one, and the fields that are always there are
/// seen as they are.
pub proof fn law_an_absent_field_is_empty(storage: TaskStorage)
    ensures
        storage@.aggregation_number == storage.aggregation_number,
        storage@.output_dependent == storage.output_dependent@,
        storage@.output == storage.output,
        storage@.upper == storage.upper@,
        storage@.flags == storage.flags@,
        (forall|j: int|
            0 <= j < storage.lazy@.len() ==> !(#[trigger] storage.lazy@[j] is Collectibles))
            ==> storage@.collectibles =~= Map::empty(),
        (forall|j: int|
            0 <= j < storage.lazy@.len() ==> !(#[trigger] storage.lazy@[j] is AggregatedCollectibles))
            ==> storage@.aggregated_collectibles =~= Map::empty(),
        (forall|j: int|
            0 <= j < storage.lazy@.len() ==> !(#[trigger] storage.lazy@[j] is OutdatedCollectibles))
            ==> storage@.outdated_collectibles =~= Map::empty(),
        (forall|j: int|
            0 <= j < storage.lazy@.len() ==> !(#[trigger] storage.lazy@[j] is Dirty))
            ==> storage@.dirty is None,
        (forall|j: int|
            0 <= j < storage.lazy@.len() ==> !(#[trigger] storage.lazy@[j] is AggregatedDirtyContainerCount))
            ==> storage@.aggregated_dirty_container_count is None,
        (forall|j: int|
            0 <= j < storage.lazy@.len() ==> !(#[trigger] storage.lazy@[j] is AggregatedDirtyContainers))
            ==> storage@.aggregated_dirty_containers =~= Map::empty(),
        (forall|j: int|
            0 <= j < storage.lazy@.len() ==> !(#[trigger] storage.lazy@[j] is AggregatedCurrentSessionCleanContainerCount))
            ==> storage@.aggregated_current_session_clean_container_count is None,
        (forall|j: int|
            0 <= j < storage.lazy@.len() ==> !(#[trigger] storage.lazy@[j] is AggregatedCurrentSessionCleanContainers))
            ==> storage@.aggregated_current_session_clean_containers =~= Map::empty(),
        (forall|j: int|
            0 <= j < storage.lazy@.len() ==> !(#[trigger] storage.lazy@[j] is Children))
            ==> storage@.children =~= Set::empty(),
        (forall|j: int|
            0 <= j < storage.lazy@.len() ==> !(#[trigger] storage.lazy@[j] is Followers))
            ==> storage@.followers =~= Map::empty(),
        (forall|j: int|
            0 <= j < storage.lazy@.len() ==> !(#[trigger] storage.lazy@[j] is OutputDependencies))
            ==> storage@.output_dependencies =~= Set::empty(),
        (forall|j: int|
            0 <= j < storage.lazy@.len() ==> !(#[trigger] storage.lazy@[j] is CellDependencies))
            ==> storage@.cell_dependencies =~= Set::empty(),
        (forall|j: int|
            0 <= j < storage.lazy@.len() ==> !(#[trigger] storage.lazy@[j] is CollectiblesDependencies))
            ==> storage@.collectibles_dependencies =~= Set::empty(),
        (forall|j: int|
            0 <= j < storage.lazy@.len() ==> !(#[trigger] storage.lazy@[j] is OutdatedOutputDependencies))
            ==> storage@.outdated_output_dependencies =~= Set::empty(),
        (forall|j: int|
            0 <= j < storage.lazy@.len() ==> !(#[trigger] storage.lazy@[j] is OutdatedCellDependencies))
            ==> storage@.outdated_cell_dependencies =~= Set::empty(),
        (forall|j: int|
            0 <= j < storage.lazy@.len() ==> !(#[trigger] storage.lazy@[j] is OutdatedCollectiblesDependencies))
            ==> storage@.outdated_collectibles_dependencies =~= Set::empty(),
        (forall|j: int|
            0 <= j < storage.lazy@.len() ==> !(#[trigger] storage.lazy@[j] is CellDependents))
            ==> storage@.cell_dependents =~= Map::empty(),
        (forall|j: int|
            0 <= j < storage.lazy@.len() ==> !(#[trigger] storage.lazy@[j] is CollectiblesDependents))
            ==> storage@.collectibles_dependents =~= Map::empty(),
        (forall|j: int|
            0 <= j < storage.lazy@.len() ==> !(#[trigger] storage.lazy@[j] is CellData))
            ==> storage@.cell_data =~= Map::empty(),
        (forall|j: int|
            0 <= j < storage.lazy@.len() ==> !(#[trigger] storage.lazy@[j] is TransientCellData))
            ==> storage@.transient_cell_data =~= Map::empty(),
        (forall|j: int|
            0 <= j < storage.lazy@.len() ==> !(#[trigger] storage.lazy@[j] is CellTypeMaxIndex))
            ==> storage@.cell_type_max_index =~= Map::empty(),
        (forall|j: int|
            0 <= j < storage.lazy@.len() ==> !(#[trigger] storage.lazy@[j] is Activeness))
            ==> storage@.activeness is None,
        (forall|j: int|
            0 <= j < storage.lazy@.len() ==> !(#[trigger] storage.lazy@[j] is InProgress))
            ==> storage@.in_progress is None,
        (forall|j: int|
            0 <= j < storage.lazy@.len() ==> !(#[trigger] storage.lazy@[j] is InProgressCells))
            ==> storage@.in_progress_cells =~= Map::empty(),
{
    reveal(by_kind);
    reveal(collectibles_in);
    reveal(aggregated_collectibles_in);
    reveal(outdated_collectibles_in);
    reveal(dirty_in);
    reveal(aggregated_dirty_container_count_in);
    reveal(aggregated_dirty_containers_in);
    reveal(aggregated_current_session_clean_container_count_in);
    reveal(aggregated_current_session_clean_containers_in);
    reveal(children_in);
    reveal(followers_in);
    reveal(output_dependencies_in);
    reveal(cell_dependencies_in);
    reveal(collectibles_dependencies_in);
    reveal(outdated_output_dependencies_in);
    reveal(outdated_cell_dependencies_in);
    reveal(outdated_collectibles_dependencies_in);
    reveal(cell_dependents_in);
    reveal(collectibles_dependents_in);
    reveal(cell_data_in);
    reveal(transient_cell_data_in);
    reveal(cell_type_max_index_in);
    reveal(activeness_in);
    reveal(in_progress_in);
    reveal(in_progress_cells_in);
}

} // verus!
