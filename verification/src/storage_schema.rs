//! The storage of a task.
//!
//! # Categories
//!
//! - data: frequently changed bulk data (dependencies, cell data)
//! - meta: rarely changed metadata (output, aggregation, flags)
//! - transient: never persisted, only exists in memory
use rustc_hash::{FxHashMap, FxHashSet};
use vstd::prelude::*;

use crate::category::{SpecificTaskDataCategory, TaskDataCategory};
use crate::counter_map::CounterMap;
use crate::data::{
    ActivenessState, AggregationNumber, Dirtyness, InProgressCellState, InProgressState,
    OutputValue, SharedReference, TypedSharedReference,
};
use crate::ids::{
    PackedCellId, PackedCellRef, PackedCollectibleRef, PackedCollectiblesRef, TaskId, TraitTypeId,
    ValueTypeId,
};
use crate::task_flags::{TaskFlag, TaskFlags};

verus! {

broadcast use vstd::std_specs::hash::group_hash_axioms;

/// Auto-set storage for sets of keys.
pub type AutoSet<K> = FxHashSet<K>;

/// Auto-map storage for key-value pairs.
pub type AutoMap<K, V> = FxHashMap<K, V>;

/// Auto-multimap storage: each key maps to a set of values.
pub type AutoMultimap<K, V> = FxHashMap<K, FxHashSet<V>>;

/// Everything that is stored for a task, one field for each thing.
///
/// This is what the storage of a task means: a map or a set that is not there is an empty one.
pub struct TaskStorageSchema {
    /// The task's aggregation number for the aggregation tree (meta).
    pub aggregation_number: AggregationNumber,
    /// Tasks that depend on the task's output (data).
    pub output_dependent: Set<TaskId>,
    /// The task's output value (meta).
    pub output: Option<OutputValue>,
    /// Upper nodes in the aggregation tree, reference counted (meta).
    pub upper: Map<TaskId, u32>,
    /// The flags that are set.
    pub flags: Set<TaskFlag>,
    /// Collectibles emitted by the task (reference counted). (meta)
    pub collectibles: Map<PackedCollectibleRef, i32>,
    /// Aggregated collectibles from the subgraph. (meta)
    pub aggregated_collectibles: Map<PackedCollectibleRef, i32>,
    /// Outdated collectibles to be cleaned up. (transient)
    pub outdated_collectibles: Map<PackedCollectibleRef, i32>,
    /// Whether the task is dirty (needs re-execution): absent means clean. (meta)
    pub dirty: Option<Dirtyness>,
    /// Count of dirty containers in the aggregated subgraph: absent means 0. (meta)
    pub aggregated_dirty_container_count: Option<i32>,
    /// Individual dirty containers in the aggregated subgraph. (meta)
    pub aggregated_dirty_containers: Map<TaskId, i32>,
    /// Count of clean containers in the current session: absent means 0. (transient)
    pub aggregated_current_session_clean_container_count: Option<i32>,
    /// Individual clean containers in the current session. (transient)
    pub aggregated_current_session_clean_containers: Map<TaskId, i32>,
    /// Child tasks of the task. (meta)
    pub children: Set<TaskId>,
    /// Follower nodes in the aggregation tree (reference counted). (meta)
    pub followers: Map<TaskId, u32>,
    /// Tasks whose output the task depends on. (data)
    pub output_dependencies: Set<TaskId>,
    /// Cells the task depends on. (data)
    pub cell_dependencies: Set<PackedCellRef>,
    /// Collectibles the task depends on. (data)
    pub collectibles_dependencies: Set<PackedCollectiblesRef>,
    /// Outdated output dependencies to be cleaned up. (transient)
    pub outdated_output_dependencies: Set<TaskId>,
    /// Outdated cell dependencies to be cleaned up. (transient)
    pub outdated_cell_dependencies: Set<PackedCellRef>,
    /// Outdated collectibles dependencies to be cleaned up. (transient)
    pub outdated_collectibles_dependencies: Set<PackedCollectiblesRef>,
    /// Tasks that depend on specific cells of the task. (data)
    pub cell_dependents: Map<PackedCellId, Set<TaskId>>,
    /// Tasks that depend on collectibles of a specific type from the task. (meta)
    pub collectibles_dependents: Map<TraitTypeId, Set<TaskId>>,
    /// Persistent cell data (serializable). (data)
    pub cell_data: Map<PackedCellId, TypedSharedReference>,
    /// Transient cell data (not serializable). (transient)
    pub transient_cell_data: Map<PackedCellId, SharedReference>,
    /// Maximum cell index per cell type. (data)
    pub cell_type_max_index: Map<ValueTypeId, u32>,
    /// Activeness state for root and once tasks. (transient)
    pub activeness: Option<ActivenessState>,
    /// In-progress execution state. (transient)
    pub in_progress: Option<InProgressState>,
    /// In-progress state of the cells that are being computed. (transient)
    pub in_progress_cells: Map<PackedCellId, InProgressCellState>,
}

impl TaskStorageSchema {
    /// Nothing is stored.
    pub open spec fn empty() -> TaskStorageSchema {
        TaskStorageSchema {
            aggregation_number: AggregationNumber { base: 0, distance: 0, effective: 0 },
            output_dependent: Set::empty(),
            output: None,
            upper: Map::empty(),
            flags: Set::empty(),
            collectibles: Map::empty(),
            aggregated_collectibles: Map::empty(),
            outdated_collectibles: Map::empty(),
            dirty: None,
            aggregated_dirty_container_count: None,
            aggregated_dirty_containers: Map::empty(),
            aggregated_current_session_clean_container_count: None,
            aggregated_current_session_clean_containers: Map::empty(),
            children: Set::empty(),
            followers: Map::empty(),
            output_dependencies: Set::empty(),
            cell_dependencies: Set::empty(),
            collectibles_dependencies: Set::empty(),
            outdated_output_dependencies: Set::empty(),
            outdated_cell_dependencies: Set::empty(),
            outdated_collectibles_dependencies: Set::empty(),
            cell_dependents: Map::empty(),
            collectibles_dependents: Map::empty(),
            cell_data: Map::empty(),
            transient_cell_data: Map::empty(),
            cell_type_max_index: Map::empty(),
            activeness: None,
            in_progress: None,
            in_progress_cells: Map::empty(),
        }
    }

    /// What is stored once the parts that `category` covers have been taken over from `source`:
    /// transient fields and flags stay as they are.
    pub open spec fn restored_from(
        self,
        source: TaskStorageSchema,
        category: TaskDataCategory,
    ) -> TaskStorageSchema {
        let before = self;
        let meta = category.covers(SpecificTaskDataCategory::Meta);
        let data = category.covers(SpecificTaskDataCategory::Data);
        TaskStorageSchema {
            aggregation_number: if meta {
                source.aggregation_number
            } else {
                before.aggregation_number
            },
            output_dependent: if data { source.output_dependent } else { before.output_dependent },
            output: if meta { source.output } else { before.output },
            upper: if meta { source.upper } else { before.upper },
            flags: if meta { restored_flags(before.flags, source.flags) } else { before.flags },
            collectibles: if meta { source.collectibles } else { before.collectibles },
            aggregated_collectibles: if meta {
                source.aggregated_collectibles
            } else {
                before.aggregated_collectibles
            },
            outdated_collectibles: before.outdated_collectibles,
            dirty: if meta { source.dirty } else { before.dirty },
            aggregated_dirty_container_count: if meta {
                source.aggregated_dirty_container_count
            } else {
                before.aggregated_dirty_container_count
            },
            aggregated_dirty_containers: if meta {
                source.aggregated_dirty_containers
            } else {
                before.aggregated_dirty_containers
            },
            aggregated_current_session_clean_container_count: before.aggregated_current_session_clean_container_count,
            aggregated_current_session_clean_containers: before.aggregated_current_session_clean_containers,
            children: if meta { source.children } else { before.children },
            followers: if meta { source.followers } else { before.followers },
            output_dependencies: if data {
                source.output_dependencies
            } else {
                before.output_dependencies
            },
            cell_dependencies: if data {
                source.cell_dependencies
            } else {
                before.cell_dependencies
            },
            collectibles_dependencies: if data {
                source.collectibles_dependencies
            } else {
                before.collectibles_dependencies
            },
            outdated_output_dependencies: before.outdated_output_dependencies,
            outdated_cell_dependencies: before.outdated_cell_dependencies,
            outdated_collectibles_dependencies: before.outdated_collectibles_dependencies,
            cell_dependents: if data { source.cell_dependents } else { before.cell_dependents },
            collectibles_dependents: if meta {
                source.collectibles_dependents
            } else {
                before.collectibles_dependents
            },
            cell_data: if data { source.cell_data } else { before.cell_data },
            transient_cell_data: before.transient_cell_data,
            cell_type_max_index: if data {
                source.cell_type_max_index
            } else {
                before.cell_type_max_index
            },
            activeness: before.activeness,
            in_progress: before.in_progress,
            in_progress_cells: before.in_progress_cells,
        }
    }
}

/// The flags once the persisted ones have been taken over from `source`.
pub open spec fn restored_flags(before: Set<TaskFlag>, source: Set<TaskFlag>) -> Set<TaskFlag> {
    Set::new(
        |flag: TaskFlag|
            if flag.persisted() {
                source.contains(flag)
            } else {
                before.contains(flag)
            },
    )
}

/// A field of a task's storage that takes room only when there is something in it.
pub enum LazyField {
    Collectibles(CounterMap<PackedCollectibleRef, i32>),
    AggregatedCollectibles(CounterMap<PackedCollectibleRef, i32>),
    OutdatedCollectibles(CounterMap<PackedCollectibleRef, i32>),
    Dirty(Dirtyness),
    AggregatedDirtyContainerCount(i32),
    AggregatedDirtyContainers(CounterMap<TaskId, i32>),
    AggregatedCurrentSessionCleanContainerCount(i32),
    AggregatedCurrentSessionCleanContainers(CounterMap<TaskId, i32>),
    Children(AutoSet<TaskId>),
    Followers(CounterMap<TaskId, u32>),
    OutputDependencies(AutoSet<TaskId>),
    CellDependencies(AutoSet<PackedCellRef>),
    CollectiblesDependencies(AutoSet<PackedCollectiblesRef>),
    OutdatedOutputDependencies(AutoSet<TaskId>),
    OutdatedCellDependencies(AutoSet<PackedCellRef>),
    OutdatedCollectiblesDependencies(AutoSet<PackedCollectiblesRef>),
    CellDependents(AutoMultimap<PackedCellId, TaskId>),
    CollectiblesDependents(AutoMultimap<TraitTypeId, TaskId>),
    CellData(AutoMap<PackedCellId, TypedSharedReference>),
    TransientCellData(AutoMap<PackedCellId, SharedReference>),
    CellTypeMaxIndex(AutoMap<ValueTypeId, u32>),
    Activeness(ActivenessState),
    InProgress(InProgressState),
    InProgressCells(AutoMap<PackedCellId, InProgressCellState>),
}

/// Names a lazy field.
#[derive(Clone, Copy, PartialEq, Eq, Structural, Debug)]
pub enum LazyKind {
    Collectibles,
    AggregatedCollectibles,
    OutdatedCollectibles,
    Dirty,
    AggregatedDirtyContainerCount,
    AggregatedDirtyContainers,
    AggregatedCurrentSessionCleanContainerCount,
    AggregatedCurrentSessionCleanContainers,
    Children,
    Followers,
    OutputDependencies,
    CellDependencies,
    CollectiblesDependencies,
    OutdatedOutputDependencies,
    OutdatedCellDependencies,
    OutdatedCollectiblesDependencies,
    CellDependents,
    CollectiblesDependents,
    CellData,
    TransientCellData,
    CellTypeMaxIndex,
    Activeness,
    InProgress,
    InProgressCells,
}

impl LazyKind {
    /// The part of the persisted data that the field belongs to; `None` for a transient field.
    pub open spec fn part(self) -> Option<SpecificTaskDataCategory> {
        match self {
            LazyKind::Collectibles => Some(SpecificTaskDataCategory::Meta),
            LazyKind::AggregatedCollectibles => Some(SpecificTaskDataCategory::Meta),
            LazyKind::OutdatedCollectibles => None,
            LazyKind::Dirty => Some(SpecificTaskDataCategory::Meta),
            LazyKind::AggregatedDirtyContainerCount => Some(SpecificTaskDataCategory::Meta),
            LazyKind::AggregatedDirtyContainers => Some(SpecificTaskDataCategory::Meta),
            LazyKind::AggregatedCurrentSessionCleanContainerCount => None,
            LazyKind::AggregatedCurrentSessionCleanContainers => None,
            LazyKind::Children => Some(SpecificTaskDataCategory::Meta),
            LazyKind::Followers => Some(SpecificTaskDataCategory::Meta),
            LazyKind::OutputDependencies => Some(SpecificTaskDataCategory::Data),
            LazyKind::CellDependencies => Some(SpecificTaskDataCategory::Data),
            LazyKind::CollectiblesDependencies => Some(SpecificTaskDataCategory::Data),
            LazyKind::OutdatedOutputDependencies => None,
            LazyKind::OutdatedCellDependencies => None,
            LazyKind::OutdatedCollectiblesDependencies => None,
            LazyKind::CellDependents => Some(SpecificTaskDataCategory::Data),
            LazyKind::CollectiblesDependents => Some(SpecificTaskDataCategory::Meta),
            LazyKind::CellData => Some(SpecificTaskDataCategory::Data),
            LazyKind::TransientCellData => None,
            LazyKind::CellTypeMaxIndex => Some(SpecificTaskDataCategory::Data),
            LazyKind::Activeness => None,
            LazyKind::InProgress => None,
            LazyKind::InProgressCells => None,
        }
    }

    /// Executable form of [`LazyKind::part`].
    pub fn persisted_part(self) -> (part: Option<SpecificTaskDataCategory>)
        ensures
            part == self.part(),
    {
        match self {
            LazyKind::Collectibles => Some(SpecificTaskDataCategory::Meta),
            LazyKind::AggregatedCollectibles => Some(SpecificTaskDataCategory::Meta),
            LazyKind::OutdatedCollectibles => None,
            LazyKind::Dirty => Some(SpecificTaskDataCategory::Meta),
            LazyKind::AggregatedDirtyContainerCount => Some(SpecificTaskDataCategory::Meta),
            LazyKind::AggregatedDirtyContainers => Some(SpecificTaskDataCategory::Meta),
            LazyKind::AggregatedCurrentSessionCleanContainerCount => None,
            LazyKind::AggregatedCurrentSessionCleanContainers => None,
            LazyKind::Children => Some(SpecificTaskDataCategory::Meta),
            LazyKind::Followers => Some(SpecificTaskDataCategory::Meta),
            LazyKind::OutputDependencies => Some(SpecificTaskDataCategory::Data),
            LazyKind::CellDependencies => Some(SpecificTaskDataCategory::Data),
            LazyKind::CollectiblesDependencies => Some(SpecificTaskDataCategory::Data),
            LazyKind::OutdatedOutputDependencies => None,
            LazyKind::OutdatedCellDependencies => None,
            LazyKind::OutdatedCollectiblesDependencies => None,
            LazyKind::CellDependents => Some(SpecificTaskDataCategory::Data),
            LazyKind::CollectiblesDependents => Some(SpecificTaskDataCategory::Meta),
            LazyKind::CellData => Some(SpecificTaskDataCategory::Data),
            LazyKind::TransientCellData => None,
            LazyKind::CellTypeMaxIndex => Some(SpecificTaskDataCategory::Data),
            LazyKind::Activeness => None,
            LazyKind::InProgress => None,
            LazyKind::InProgressCells => None,
        }
    }
}

impl LazyField {
    /// Which field this is.
    pub open spec fn kind(self) -> LazyKind {
        match self {
            LazyField::Collectibles(_) => LazyKind::Collectibles,
            LazyField::AggregatedCollectibles(_) => LazyKind::AggregatedCollectibles,
            LazyField::OutdatedCollectibles(_) => LazyKind::OutdatedCollectibles,
            LazyField::Dirty(_) => LazyKind::Dirty,
            LazyField::AggregatedDirtyContainerCount(_) => LazyKind::AggregatedDirtyContainerCount,
            LazyField::AggregatedDirtyContainers(_) => LazyKind::AggregatedDirtyContainers,
            LazyField::AggregatedCurrentSessionCleanContainerCount(_) => {
                LazyKind::AggregatedCurrentSessionCleanContainerCount
            },
            LazyField::AggregatedCurrentSessionCleanContainers(_) => {
                LazyKind::AggregatedCurrentSessionCleanContainers
            },
            LazyField::Children(_) => LazyKind::Children,
            LazyField::Followers(_) => LazyKind::Followers,
            LazyField::OutputDependencies(_) => LazyKind::OutputDependencies,
            LazyField::CellDependencies(_) => LazyKind::CellDependencies,
            LazyField::CollectiblesDependencies(_) => LazyKind::CollectiblesDependencies,
            LazyField::OutdatedOutputDependencies(_) => LazyKind::OutdatedOutputDependencies,
            LazyField::OutdatedCellDependencies(_) => LazyKind::OutdatedCellDependencies,
            LazyField::OutdatedCollectiblesDependencies(_) => {
                LazyKind::OutdatedCollectiblesDependencies
            },
            LazyField::CellDependents(_) => LazyKind::CellDependents,
            LazyField::CollectiblesDependents(_) => LazyKind::CollectiblesDependents,
            LazyField::CellData(_) => LazyKind::CellData,
            LazyField::TransientCellData(_) => LazyKind::TransientCellData,
            LazyField::CellTypeMaxIndex(_) => LazyKind::CellTypeMaxIndex,
            LazyField::Activeness(_) => LazyKind::Activeness,
            LazyField::InProgress(_) => LazyKind::InProgress,
            LazyField::InProgressCells(_) => LazyKind::InProgressCells,
        }
    }

    /// Executable form of [`LazyField::kind`].
    pub fn which(&self) -> (kind: LazyKind)
        ensures
            kind == self.kind(),
    {
        match self {
            LazyField::Collectibles(_) => LazyKind::Collectibles,
            LazyField::AggregatedCollectibles(_) => LazyKind::AggregatedCollectibles,
            LazyField::OutdatedCollectibles(_) => LazyKind::OutdatedCollectibles,
            LazyField::Dirty(_) => LazyKind::Dirty,
            LazyField::AggregatedDirtyContainerCount(_) => LazyKind::AggregatedDirtyContainerCount,
            LazyField::AggregatedDirtyContainers(_) => LazyKind::AggregatedDirtyContainers,
            LazyField::AggregatedCurrentSessionCleanContainerCount(_) => {
                LazyKind::AggregatedCurrentSessionCleanContainerCount
            },
            LazyField::AggregatedCurrentSessionCleanContainers(_) => {
                LazyKind::AggregatedCurrentSessionCleanContainers
            },
            LazyField::Children(_) => LazyKind::Children,
            LazyField::Followers(_) => LazyKind::Followers,
            LazyField::OutputDependencies(_) => LazyKind::OutputDependencies,
            LazyField::CellDependencies(_) => LazyKind::CellDependencies,
            LazyField::CollectiblesDependencies(_) => LazyKind::CollectiblesDependencies,
            LazyField::OutdatedOutputDependencies(_) => LazyKind::OutdatedOutputDependencies,
            LazyField::OutdatedCellDependencies(_) => LazyKind::OutdatedCellDependencies,
            LazyField::OutdatedCollectiblesDependencies(_) => {
                LazyKind::OutdatedCollectiblesDependencies
            },
            LazyField::CellDependents(_) => LazyKind::CellDependents,
            LazyField::CollectiblesDependents(_) => LazyKind::CollectiblesDependents,
            LazyField::CellData(_) => LazyKind::CellData,
            LazyField::TransientCellData(_) => LazyKind::TransientCellData,
            LazyField::CellTypeMaxIndex(_) => LazyKind::CellTypeMaxIndex,
            LazyField::Activeness(_) => LazyKind::Activeness,
            LazyField::InProgress(_) => LazyKind::InProgress,
            LazyField::InProgressCells(_) => LazyKind::InProgressCells,
        }
    }
}

/// No field occurs twice.
pub open spec fn distinct_kinds(fields: Seq<LazyField>) -> bool {
    forall|i: int, j: int|
        0 <= i < j < fields.len() ==> (#[trigger] fields[i]).kind() != (#[trigger] fields[j]).kind()
}

/// The fields, each found by its kind.
#[verifier::opaque]
pub open spec fn by_kind(fields: Seq<LazyField>) -> Map<LazyKind, LazyField> {
    Map::new(
        |kind: LazyKind| exists|i: int| 0 <= i < fields.len() && (#[trigger] fields[i]).kind() == kind,
        |kind: LazyKind|
            fields[choose|i: int| 0 <= i < fields.len() && (#[trigger] fields[i]).kind() == kind],
    )
}


/// What a field says of [`TaskStorageSchema::collectibles`].
#[verifier::opaque]
pub open spec fn collectibles_in(field: Option<LazyField>) -> Map<PackedCollectibleRef, i32> {
    match field {
        Some(LazyField::Collectibles(value)) => value@,
        _ => Map::empty(),
    }
}

/// What a field says of [`TaskStorageSchema::aggregated_collectibles`].
#[verifier::opaque]
pub open spec fn aggregated_collectibles_in(
    field: Option<LazyField>,
) -> Map<PackedCollectibleRef, i32> {
    match field {
        Some(LazyField::AggregatedCollectibles(value)) => value@,
        _ => Map::empty(),
    }
}

/// What a field says of [`TaskStorageSchema::outdated_collectibles`].
#[verifier::opaque]
pub open spec fn outdated_collectibles_in(
    field: Option<LazyField>,
) -> Map<PackedCollectibleRef, i32> {
    match field {
        Some(LazyField::OutdatedCollectibles(value)) => value@,
        _ => Map::empty(),
    }
}

/// What a field says of [`TaskStorageSchema::dirty`].
#[verifier::opaque]
pub open spec fn dirty_in(field: Option<LazyField>) -> Option<Dirtyness> {
    match field {
        Some(LazyField::Dirty(value)) => Some(value),
        _ => None,
    }
}

/// What a field says of [`TaskStorageSchema::aggregated_dirty_container_count`].
#[verifier::opaque]
pub open spec fn aggregated_dirty_container_count_in(field: Option<LazyField>) -> Option<i32> {
    match field {
        Some(LazyField::AggregatedDirtyContainerCount(value)) => Some(value),
        _ => None,
    }
}

/// What a field says of [`TaskStorageSchema::aggregated_dirty_containers`].
#[verifier::opaque]
pub open spec fn aggregated_dirty_containers_in(field: Option<LazyField>) -> Map<TaskId, i32> {
    match field {
        Some(LazyField::AggregatedDirtyContainers(value)) => value@,
        _ => Map::empty(),
    }
}

/// What a field says of [`TaskStorageSchema::aggregated_current_session_clean_container_count`].
#[verifier::opaque]
pub open spec fn aggregated_current_session_clean_container_count_in(
    field: Option<LazyField>,
) -> Option<i32> {
    match field {
        Some(LazyField::AggregatedCurrentSessionCleanContainerCount(value)) => Some(value),
        _ => None,
    }
}

/// What a field says of [`TaskStorageSchema::aggregated_current_session_clean_containers`].
#[verifier::opaque]
pub open spec fn aggregated_current_session_clean_containers_in(
    field: Option<LazyField>,
) -> Map<TaskId, i32> {
    match field {
        Some(LazyField::AggregatedCurrentSessionCleanContainers(value)) => value@,
        _ => Map::empty(),
    }
}

/// What a field says of [`TaskStorageSchema::children`].
#[verifier::opaque]
pub open spec fn children_in(field: Option<LazyField>) -> Set<TaskId> {
    match field {
        Some(LazyField::Children(value)) => value@,
        _ => Set::empty(),
    }
}

/// What a field says of [`TaskStorageSchema::followers`].
#[verifier::opaque]
pub open spec fn followers_in(field: Option<LazyField>) -> Map<TaskId, u32> {
    match field {
        Some(LazyField::Followers(value)) => value@,
        _ => Map::empty(),
    }
}

/// What a field says of [`TaskStorageSchema::output_dependencies`].
#[verifier::opaque]
pub open spec fn output_dependencies_in(field: Option<LazyField>) -> Set<TaskId> {
    match field {
        Some(LazyField::OutputDependencies(value)) => value@,
        _ => Set::empty(),
    }
}

/// What a field says of [`TaskStorageSchema::cell_dependencies`].
#[verifier::opaque]
pub open spec fn cell_dependencies_in(field: Option<LazyField>) -> Set<PackedCellRef> {
    match field {
        Some(LazyField::CellDependencies(value)) => value@,
        _ => Set::empty(),
    }
}

/// What a field says of [`TaskStorageSchema::collectibles_dependencies`].
#[verifier::opaque]
pub open spec fn collectibles_dependencies_in(
    field: Option<LazyField>,
) -> Set<PackedCollectiblesRef> {
    match field {
        Some(LazyField::CollectiblesDependencies(value)) => value@,
        _ => Set::empty(),
    }
}

/// What a field says of [`TaskStorageSchema::outdated_output_dependencies`].
#[verifier::opaque]
pub open spec fn outdated_output_dependencies_in(field: Option<LazyField>) -> Set<TaskId> {
    match field {
        Some(LazyField::OutdatedOutputDependencies(value)) => value@,
        _ => Set::empty(),
    }
}

/// What a field says of [`TaskStorageSchema::outdated_cell_dependencies`].
#[verifier::opaque]
pub open spec fn outdated_cell_dependencies_in(field: Option<LazyField>) -> Set<PackedCellRef> {
    match field {
        Some(LazyField::OutdatedCellDependencies(value)) => value@,
        _ => Set::empty(),
    }
}

/// What a field says of [`TaskStorageSchema::outdated_collectibles_dependencies`].
#[verifier::opaque]
pub open spec fn outdated_collectibles_dependencies_in(
    field: Option<LazyField>,
) -> Set<PackedCollectiblesRef> {
    match field {
        Some(LazyField::OutdatedCollectiblesDependencies(value)) => value@,
        _ => Set::empty(),
    }
}

/// What a field says of [`TaskStorageSchema::cell_dependents`].
#[verifier::opaque]
pub open spec fn cell_dependents_in(field: Option<LazyField>) -> Map<PackedCellId, Set<TaskId>> {
    match field {
        Some(LazyField::CellDependents(value)) => value@.map_values(|tasks: AutoSet<TaskId>| tasks@),
        _ => Map::empty(),
    }
}

/// What a field says of [`TaskStorageSchema::collectibles_dependents`].
#[verifier::opaque]
pub open spec fn collectibles_dependents_in(
    field: Option<LazyField>,
) -> Map<TraitTypeId, Set<TaskId>> {
    match field {
        Some(LazyField::CollectiblesDependents(value)) => value@.map_values(|tasks: AutoSet<TaskId>| tasks@),
        _ => Map::empty(),
    }
}

/// What a field says of [`TaskStorageSchema::cell_data`].
#[verifier::opaque]
pub open spec fn cell_data_in(field: Option<LazyField>) -> Map<PackedCellId, TypedSharedReference> {
    match field {
        Some(LazyField::CellData(value)) => value@,
        _ => Map::empty(),
    }
}

/// What a field says of [`TaskStorageSchema::transient_cell_data`].
#[verifier::opaque]
pub open spec fn transient_cell_data_in(
    field: Option<LazyField>,
) -> Map<PackedCellId, SharedReference> {
    match field {
        Some(LazyField::TransientCellData(value)) => value@,
        _ => Map::empty(),
    }
}

/// What a field says of [`TaskStorageSchema::cell_type_max_index`].
#[verifier::opaque]
pub open spec fn cell_type_max_index_in(field: Option<LazyField>) -> Map<ValueTypeId, u32> {
    match field {
        Some(LazyField::CellTypeMaxIndex(value)) => value@,
        _ => Map::empty(),
    }
}

/// What a field says of [`TaskStorageSchema::activeness`].
#[verifier::opaque]
pub open spec fn activeness_in(field: Option<LazyField>) -> Option<ActivenessState> {
    match field {
        Some(LazyField::Activeness(value)) => Some(value),
        _ => None,
    }
}

/// What a field says of [`TaskStorageSchema::in_progress`].
#[verifier::opaque]
pub open spec fn in_progress_in(field: Option<LazyField>) -> Option<InProgressState> {
    match field {
        Some(LazyField::InProgress(value)) => Some(value),
        _ => None,
    }
}

/// What a field says of [`TaskStorageSchema::in_progress_cells`].
#[verifier::opaque]
pub open spec fn in_progress_cells_in(
    field: Option<LazyField>,
) -> Map<PackedCellId, InProgressCellState> {
    match field {
        Some(LazyField::InProgressCells(value)) => value@,
        _ => Map::empty(),
    }
}

/// The storage of a task.
pub struct TaskStorage {
    pub aggregation_number: AggregationNumber,
    pub output_dependent: AutoSet<TaskId>,
    pub output: Option<OutputValue>,
    pub upper: CounterMap<TaskId, u32>,
    pub flags: TaskFlags,
    /// The lazy fields, each at most once.
    pub lazy: Vec<LazyField>,
}

impl View for TaskStorage {
    type V = TaskStorageSchema;

    open spec fn view(&self) -> TaskStorageSchema {
        let lazy = by_kind(self.lazy@);
        TaskStorageSchema {
            aggregation_number: self.aggregation_number,
            output_dependent: self.output_dependent@,
            output: self.output,
            upper: self.upper@,
            flags: self.flags@,
            collectibles: collectibles_in(lazy.get(LazyKind::Collectibles)),
            aggregated_collectibles: aggregated_collectibles_in(
                lazy.get(LazyKind::AggregatedCollectibles),
            ),
            outdated_collectibles: outdated_collectibles_in(
                lazy.get(LazyKind::OutdatedCollectibles),
            ),
            dirty: dirty_in(lazy.get(LazyKind::Dirty)),
            aggregated_dirty_container_count: aggregated_dirty_container_count_in(
                lazy.get(LazyKind::AggregatedDirtyContainerCount),
            ),
            aggregated_dirty_containers: aggregated_dirty_containers_in(
                lazy.get(LazyKind::AggregatedDirtyContainers),
            ),
            aggregated_current_session_clean_container_count: aggregated_current_session_clean_container_count_in(
                lazy.get(LazyKind::AggregatedCurrentSessionCleanContainerCount),
            ),
            aggregated_current_session_clean_containers: aggregated_current_session_clean_containers_in(
                lazy.get(LazyKind::AggregatedCurrentSessionCleanContainers),
            ),
            children: children_in(lazy.get(LazyKind::Children)),
            followers: followers_in(lazy.get(LazyKind::Followers)),
            output_dependencies: output_dependencies_in(lazy.get(LazyKind::OutputDependencies)),
            cell_dependencies: cell_dependencies_in(lazy.get(LazyKind::CellDependencies)),
            collectibles_dependencies: collectibles_dependencies_in(
                lazy.get(LazyKind::CollectiblesDependencies),
            ),
            outdated_output_dependencies: outdated_output_dependencies_in(
                lazy.get(LazyKind::OutdatedOutputDependencies),
            ),
            outdated_cell_dependencies: outdated_cell_dependencies_in(
                lazy.get(LazyKind::OutdatedCellDependencies),
            ),
            outdated_collectibles_dependencies: outdated_collectibles_dependencies_in(
                lazy.get(LazyKind::OutdatedCollectiblesDependencies),
            ),
            cell_dependents: cell_dependents_in(lazy.get(LazyKind::CellDependents)),
            collectibles_dependents: collectibles_dependents_in(
                lazy.get(LazyKind::CollectiblesDependents),
            ),
            cell_data: cell_data_in(lazy.get(LazyKind::CellData)),
            transient_cell_data: transient_cell_data_in(lazy.get(LazyKind::TransientCellData)),
            cell_type_max_index: cell_type_max_index_in(lazy.get(LazyKind::CellTypeMaxIndex)),
            activeness: activeness_in(lazy.get(LazyKind::Activeness)),
            in_progress: in_progress_in(lazy.get(LazyKind::InProgress)),
            in_progress_cells: in_progress_cells_in(lazy.get(LazyKind::InProgressCells)),
        }
    }
}

impl TaskStorage {
    /// No lazy field is kept twice.
    pub open spec fn wf(&self) -> bool {
        distinct_kinds(self.lazy@)
    }

    /// The storage of a task of which nothing is known yet.
    pub fn new() -> (storage: Self)
        ensures
            storage.wf(),
            storage.lazy@.len() == 0,
            storage@ == TaskStorageSchema::empty(),
    {
        proof {
            reveal(by_kind);
            reveal(collectibles_in);
            reveal(aggregated_collectibles_in);
            reveal(outdated_collectibles_in);
            reveal(dirty_in);
            reveal(aggregated_dirty_container_count_in);
            reveal(aggregated_dirty_containers_in);
            reveal(aggregated_current_session_clean_container_count_in);
            reveal(aggregated_current_session_clean_containers_in);
            reveal(children_in);
            reveal(followers_in);
            reveal(output_dependencies_in);
            reveal(cell_dependencies_in);
            reveal(collectibles_dependencies_in);
            reveal(outdated_output_dependencies_in);
            reveal(outdated_cell_dependencies_in);
            reveal(outdated_collectibles_dependencies_in);
            reveal(cell_dependents_in);
            reveal(collectibles_dependents_in);
            reveal(cell_data_in);
            reveal(transient_cell_data_in);
            reveal(cell_type_max_index_in);
            reveal(activeness_in);
            reveal(in_progress_in);
            reveal(in_progress_cells_in);
        }
        TaskStorage {
            aggregation_number: AggregationNumber { base: 0, distance: 0, effective: 0 },
            output_dependent: AutoSet::default(),
            output: None,
            upper: CounterMap::default(),
            flags: TaskFlags::default(),
            lazy: Vec::new(),
        }
    }

    /// The flags.
    pub fn state(&self) -> (flags: &TaskFlags)
        ensures
            *flags == self.flags,
    {
        &self.flags
    }

    /// The flags, to be changed.
    pub fn state_mut(&mut self) -> (flags: &mut TaskFlags)
        ensures
            *flags == old(self).flags,
            *final(self) == (TaskStorage { flags: *final(flags), ..*old(self) }),
    {
        &mut self.flags
    }
}

/// Restoring the metadata and restoring the data, in either order, comes to restoring everything.
pub proof fn law_restoring_parts_is_restoring_all(
    data: TaskStorageSchema,
    source: TaskStorageSchema,
)
    ensures
        data.restored_from(source, TaskDataCategory::Meta).restored_from(
            source,
            TaskDataCategory::Data,
        ) == data.restored_from(source, TaskDataCategory::All),
        data.restored_from(source, TaskDataCategory::Data).restored_from(
            source,
            TaskDataCategory::Meta,
        ) == data.restored_from(source, TaskDataCategory::All),
{
}

/// Restoring the same data again changes nothing.
pub proof fn law_restoring_again_changes_nothing(
    data: TaskStorageSchema,
    source: TaskStorageSchema,
    category: TaskDataCategory,
)
    ensures
        data.restored_from(source, category).restored_from(source, category)
            == data.restored_from(source, category),
{
    let once = data.restored_from(source, category);
    assert(restored_flags(once.flags, source.flags) =~= restored_flags(data.flags, source.flags));
}

/// Restoring leaves every flag that is not persisted as it is.
pub proof fn law_restoring_keeps_transient_flags(
    data: TaskStorageSchema,
    source: TaskStorageSchema,
    category: TaskDataCategory,
    flag: TaskFlag,
)
    requires
        !flag.persisted(),
    ensures
        data.restored_from(source, category).flags.contains(flag) == data.flags.contains(flag),
{
}

/// Whether two storages hold the same metadata, flags aside.
pub open spec fn same_meta(one: TaskStorageSchema, other: TaskStorageSchema) -> bool {
    &&& one.aggregation_number == other.aggregation_number
    &&& one.output == other.output
    &&& one.upper == other.upper
    &&& one.collectibles == other.collectibles
    &&& one.aggregated_collectibles == other.aggregated_collectibles
    &&& one.dirty == other.dirty
    &&& one.aggregated_dirty_container_count == other.aggregated_dirty_container_count
    &&& one.aggregated_dirty_containers == other.aggregated_dirty_containers
    &&& one.children == other.children
    &&& one.followers == other.followers
    &&& one.collectibles_dependents == other.collectibles_dependents
}

/// Whether two storages hold the same data.
pub open spec fn same_data(one: TaskStorageSchema, other: TaskStorageSchema) -> bool {
    &&& one.output_dependent == other.output_dependent
    &&& one.output_dependencies == other.output_dependencies
    &&& one.cell_dependencies == other.cell_dependencies
    &&& one.collectibles_dependencies == other.collectibles_dependencies
    &&& one.cell_dependents == other.cell_dependents
    &&& one.cell_data == other.cell_data
    &&& one.cell_type_max_index == other.cell_type_max_index
}

/// Whether two storages hold the same of what is never persisted, flags aside.
pub open spec fn same_transient(one: TaskStorageSchema, other: TaskStorageSchema) -> bool {
    &&& one.outdated_collectibles == other.outdated_collectibles
    &&& one.aggregated_current_session_clean_container_count == other.aggregated_current_session_clean_container_count
    &&& one.aggregated_current_session_clean_containers == other.aggregated_current_session_clean_containers
    &&& one.outdated_output_dependencies == other.outdated_output_dependencies
    &&& one.outdated_cell_dependencies == other.outdated_cell_dependencies
    &&& one.outdated_collectibles_dependencies == other.outdated_collectibles_dependencies
    &&& one.transient_cell_data == other.transient_cell_data
    &&& one.activeness == other.activeness
    &&& one.in_progress == other.in_progress
    &&& one.in_progress_cells == other.in_progress_cells
}

/// Restoring takes over, one by one, each field of the metadata where the metadata is asked for,
/// and each field of the data where the data is. Every other field stays.
pub proof fn law_restoring_takes_over_each_field(
    data: TaskStorageSchema,
    source: TaskStorageSchema,
    category: TaskDataCategory,
)
    ensures
        ({
            let after = data.restored_from(source, category);
            let from = if category is Data {
                data
            } else {
                source
            };
            &&& after.aggregation_number == from.aggregation_number
            &&& after.output == from.output
            &&& after.upper == from.upper
            &&& after.collectibles == from.collectibles
            &&& after.aggregated_collectibles == from.aggregated_collectibles
            &&& after.dirty == from.dirty
            &&& after.aggregated_dirty_container_count == from.aggregated_dirty_container_count
            &&& after.aggregated_dirty_containers == from.aggregated_dirty_containers
            &&& after.children == from.children
            &&& after.followers == from.followers
            &&& after.collectibles_dependents == from.collectibles_dependents
        }),
        ({
            let after = data.restored_from(source, category);
            let from = if category is Meta {
                data
            } else {
                source
            };
            &&& after.output_dependent == from.output_dependent
            &&& after.output_dependencies == from.output_dependencies
            &&& after.cell_dependencies == from.cell_dependencies
            &&& after.collectibles_dependencies == from.collectibles_dependencies
            &&& after.cell_dependents == from.cell_dependents
            &&& after.cell_data == from.cell_data
            &&& after.cell_type_max_index == from.cell_type_max_index
        }),
        ({
            let after = data.restored_from(source, category);
            &&& after.outdated_collectibles == data.outdated_collectibles
            &&& after.aggregated_current_session_clean_container_count == data.aggregated_current_session_clean_container_count
            &&& after.aggregated_current_session_clean_containers == data.aggregated_current_session_clean_containers
            &&& after.outdated_output_dependencies == data.outdated_output_dependencies
            &&& after.outdated_cell_dependencies == data.outdated_cell_dependencies
            &&& after.outdated_collectibles_dependencies == data.outdated_collectibles_dependencies
            &&& after.transient_cell_data == data.transient_cell_data
            &&& after.activeness == data.activeness
            &&& after.in_progress == data.in_progress
            &&& after.in_progress_cells == data.in_progress_cells
        }),
{
}

/// With the metadata, and only with it, the two flags that are persisted are taken over: that the
/// task has an invalidator, and that it is immutable. Every other flag stays.
pub proof fn law_restoring_takes_over_two_flags(
    data: TaskStorageSchema,
    source: TaskStorageSchema,
    category: TaskDataCategory,
    flag: TaskFlag,
)
    ensures
        data.restored_from(source, category).flags.contains(flag) == (if !(category is Data) && (
        flag == TaskFlag::Invalidator || flag == TaskFlag::Immutable) {
            source.flags.contains(flag)
        } else {
            data.flags.contains(flag)
        }),
{
}

/// Two storages are the same exactly if they agree in the metadata, in the data, in what is never
/// persisted, and in the flags; and each of these is what its fields are.
pub proof fn law_a_storage_is_its_parts(one: TaskStorageSchema, other: TaskStorageSchema)
    ensures
        one == other <==> same_meta(one, other) && same_data(one, other) && same_transient(
            one,
            other,
        ) && one.flags == other.flags,
        same_meta(one, other) ==> {
            &&& one.aggregation_number == other.aggregation_number
            &&& one.output == other.output
            &&& one.upper == other.upper
            &&& one.collectibles == other.collectibles
            &&& one.aggregated_collectibles == other.aggregated_collectibles
            &&& one.dirty == other.dirty
            &&& one.aggregated_dirty_container_count == other.aggregated_dirty_container_count
            &&& one.aggregated_dirty_containers == other.aggregated_dirty_containers
            &&& one.children == other.children
            &&& one.followers == other.followers
            &&& one.collectibles_dependents == other.collectibles_dependents
        },
        same_data(one, other) ==> {
            &&& one.output_dependent == other.output_dependent
            &&& one.output_dependencies == other.output_dependencies
            &&& one.cell_dependencies == other.cell_dependencies
            &&& one.collectibles_dependencies == other.collectibles_dependencies
            &&& one.cell_dependents == other.cell_dependents
            &&& one.cell_data == other.cell_data
            &&& one.cell_type_max_index == other.cell_type_max_index
        },
        same_transient(one, other) ==> {
            &&& one.outdated_collectibles == other.outdated_collectibles
            &&& one.aggregated_current_session_clean_container_count == other.aggregated_current_session_clean_container_count
            &&& one.aggregated_current_session_clean_containers == other.aggregated_current_session_clean_containers
            &&& one.outdated_output_dependencies == other.outdated_output_dependencies
            &&& one.outdated_cell_dependencies == other.outdated_cell_dependencies
            &&& one.outdated_collectibles_dependencies == other.outdated_collectibles_dependencies
            &&& one.transient_cell_data == other.transient_cell_data
            &&& one.activeness == other.activeness
            &&& one.in_progress == other.in_progress
            &&& one.in_progress_cells == other.in_progress_cells
        },
{
}

/// Where nothing is stored there is no flag, no output, no entry in any map or set, and no state;
/// the aggregation number is not set.
pub proof fn law_an_empty_storage_holds_nothing(flag: TaskFlag)
    ensures
        ({
            let empty = TaskStorageSchema::empty();
            &&& !empty.flags.contains(flag)
            &&& empty.aggregation_number.base == 0
            &&& empty.aggregation_number.distance == 0
            &&& empty.aggregation_number.effective == 0
            &&& empty.output is None
            &&& empty.dirty is None
            &&& empty.aggregated_dirty_container_count is None
            &&& empty.aggregated_current_session_clean_container_count is None
            &&& empty.activeness is None
            &&& empty.in_progress is None
            &&& empty.upper.dom() == Set::<TaskId>::empty()
            &&& empty.followers.dom() == Set::<TaskId>::empty()
            &&& empty.collectibles.dom() == Set::<PackedCollectibleRef>::empty()
            &&& empty.aggregated_collectibles.dom() == Set::<PackedCollectibleRef>::empty()
            &&& empty.outdated_collectibles.dom() == Set::<PackedCollectibleRef>::empty()
            &&& empty.aggregated_dirty_containers.dom() == Set::<TaskId>::empty()
            &&& empty.aggregated_current_session_clean_containers.dom() == Set::<TaskId>::empty()
            &&& empty.cell_dependents.dom() == Set::<PackedCellId>::empty()
            &&& empty.collectibles_dependents.dom() == Set::<TraitTypeId>::empty()
            &&& empty.cell_data.dom() == Set::<PackedCellId>::empty()
            &&& empty.transient_cell_data.dom() == Set::<PackedCellId>::empty()
            &&& empty.cell_type_max_index.dom() == Set::<ValueTypeId>::empty()
            &&& empty.in_progress_cells.dom() == Set::<PackedCellId>::empty()
            &&& empty.output_dependent == Set::<TaskId>::empty()
            &&& empty.children == Set::<TaskId>::empty()
            &&& empty.output_dependencies == Set::<TaskId>::empty()
            &&& empty.cell_dependencies == Set::<PackedCellRef>::empty()
            &&& empty.collectibles_dependencies == Set::<PackedCollectiblesRef>::empty()
            &&& empty.outdated_output_dependencies == Set::<TaskId>::empty()
            &&& empty.outdated_cell_dependencies == Set::<PackedCellRef>::empty()
            &&& empty.outdated_collectibles_dependencies == Set::<PackedCollectiblesRef>::empty()
        }),
{
}

} // verus!
