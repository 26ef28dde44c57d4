//! Identifiers of tasks, cells and collectibles.
//!
//! Hash tables are keyed by integers, so each compound identifier has a packed form.
use vstd::prelude::*;

verus! {

/// Identifies a task.
pub type TaskId = u32;

/// Identifies the type of a value.
pub type ValueTypeId = u32;

/// Identifies a trait.
pub type TraitTypeId = u32;

/// The first id of a transient task: from here on every id belongs to a task that is never
/// persisted.
pub const FIRST_TRANSIENT_TASK_ID: TaskId = 0x8000_0000;

/// Whether `task_id` belongs to a task that is never persisted.
pub open spec fn transient(task_id: TaskId) -> bool {
    task_id >= FIRST_TRANSIENT_TASK_ID
}

/// Executable form of [`transient`].
pub fn is_transient(task_id: TaskId) -> (is_transient: bool)
    ensures
        is_transient == transient(task_id),
{
    task_id >= FIRST_TRANSIENT_TASK_ID
}

/// The packed form of a [`CellId`].
pub type PackedCellId = u64;

/// The packed form of a [`CellRef`].
pub type PackedCellRef = u128;

/// The packed form of a [`CollectibleRef`].
pub type PackedCollectibleRef = u128;

/// The packed form of a [`CollectiblesRef`].
pub type PackedCollectiblesRef = u64;

/// A cell within a task.
#[derive(Clone, Copy, PartialEq, Eq, Structural, Debug)]
pub struct CellId {
    /// The type of the cell's value.
    pub type_id: ValueTypeId,
    /// The number of the cell among the task's cells of that type.
    pub index: u32,
}

impl CellId {
    /// The integer that stands for the cell in a hash table.
    pub open spec fn packed(self) -> PackedCellId {
        (self.type_id * 0x1_0000_0000 + self.index) as u64
    }

    /// The cell that an integer stands for.
    pub open spec fn unpacked(packed: PackedCellId) -> CellId {
        CellId { type_id: (packed / 0x1_0000_0000) as u32, index: (packed % 0x1_0000_0000) as u32 }
    }

    /// Executable form of [`CellId::packed`].
    pub fn pack(self) -> (packed: PackedCellId)
        ensures
            packed == self.packed(),
            packed == self.type_id * 0x1_0000_0000 + self.index,
    {
        self.type_id as u64 * 0x1_0000_0000 + self.index as u64
    }

    /// Executable form of [`CellId::unpacked`].
    pub fn unpack(packed: PackedCellId) -> (cell: CellId)
        ensures
            cell == CellId::unpacked(packed),
    {
        CellId { type_id: (packed / 0x1_0000_0000) as u32, index: (packed % 0x1_0000_0000) as u32 }
    }
}

/// Packing a cell loses nothing, and every integer stands for a cell.
pub proof fn law_cell_id_packing(cell: CellId, packed: PackedCellId)
    ensures
        CellId::unpacked(cell.packed()) == cell,
        CellId::unpacked(packed).packed() == packed,
{
    let sum = cell.type_id * 0x1_0000_0000 + cell.index;
    assert(sum as u64 == sum);
}

/// A cell of a task.
#[derive(Clone, Copy, PartialEq, Eq, Structural, Debug)]
pub struct CellRef {
    pub task: TaskId,
    pub cell: CellId,
}

impl CellRef {
    /// The integer that stands for the cell in a hash table.
    pub open spec fn packed(self) -> PackedCellRef {
        (self.task * 0x1_0000_0000_0000_0000 + self.cell.packed()) as u128
    }

    /// The cell that an integer stands for.
    pub open spec fn unpacked(packed: PackedCellRef) -> CellRef {
        CellRef {
            task: (packed / 0x1_0000_0000_0000_0000 % 0x1_0000_0000) as u32,
            cell: CellId::unpacked((packed % 0x1_0000_0000_0000_0000) as u64),
        }
    }

    /// Executable form of [`CellRef::packed`].
    pub fn pack(self) -> (packed: PackedCellRef)
        ensures
            packed == self.packed(),
            packed == self.task * 0x1_0000_0000_0000_0000 + self.cell.packed(),
    {
        self.task as u128 * 0x1_0000_0000_0000_0000 + self.cell.pack() as u128
    }

    /// Executable form of [`CellRef::unpacked`].
    pub fn unpack(packed: PackedCellRef) -> (cell: CellRef)
        ensures
            cell == CellRef::unpacked(packed),
    {
        CellRef {
            task: (packed / 0x1_0000_0000_0000_0000 % 0x1_0000_0000) as u32,
            cell: CellId::unpack((packed % 0x1_0000_0000_0000_0000) as u64),
        }
    }
}

/// Packing a cell of a task loses nothing.
pub proof fn law_cell_ref_packing(cell: CellRef)
    ensures
        CellRef::unpacked(cell.packed()) == cell,
{
    law_cell_id_packing(cell.cell, cell.cell.packed());
    let sum = cell.task * 0x1_0000_0000_0000_0000 + cell.cell.packed();
    assert(sum as u128 == sum);
    assert(sum / 0x1_0000_0000_0000_0000 == cell.task);
    assert(sum % 0x1_0000_0000_0000_0000 == cell.cell.packed());
}

/// A collectible: the cell that holds it, and the trait that it is collected as.
#[derive(Clone, Copy, PartialEq, Eq, Structural, Debug)]
pub struct CollectibleRef {
    pub collectible_type: TraitTypeId,
    pub cell: CellRef,
}

impl CollectibleRef {
    /// The integer that stands for the collectible in a hash table.
    pub open spec fn packed(self) -> PackedCollectibleRef {
        (self.collectible_type * 0x1_0000_0000_0000_0000_0000_0000 + self.cell.packed()) as u128
    }

    /// The collectible that an integer stands for.
    pub open spec fn unpacked(packed: PackedCollectibleRef) -> CollectibleRef {
        CollectibleRef {
            collectible_type: (packed / 0x1_0000_0000_0000_0000_0000_0000) as u32,
            cell: CellRef::unpacked(packed % 0x1_0000_0000_0000_0000_0000_0000),
        }
    }

    /// Executable form of [`CollectibleRef::packed`].
    pub fn pack(self) -> (packed: PackedCollectibleRef)
        ensures
            packed == self.packed(),
            packed == self.collectible_type * 0x1_0000_0000_0000_0000_0000_0000
                + self.cell.packed(),
    {
        let cell: u128 = self.cell.pack();
        self.collectible_type as u128 * 0x1_0000_0000_0000_0000_0000_0000 + cell
    }

    /// Executable form of [`CollectibleRef::unpacked`].
    pub fn unpack(packed: PackedCollectibleRef) -> (collectible: CollectibleRef)
        ensures
            collectible == CollectibleRef::unpacked(packed),
    {
        CollectibleRef {
            collectible_type: (packed / 0x1_0000_0000_0000_0000_0000_0000) as u32,
            cell: CellRef::unpack(packed % 0x1_0000_0000_0000_0000_0000_0000),
        }
    }
}

/// Packing a collectible loses nothing, and every integer stands for a collectible.
pub proof fn law_collectible_ref_packing(
    collectible: CollectibleRef,
    packed: PackedCollectibleRef,
)
    ensures
        CollectibleRef::unpacked(collectible.packed()) == collectible,
        CollectibleRef::unpacked(packed).packed() == packed,
{
    let cell = collectible.cell;
    law_cell_ref_packing(cell);
    law_cell_id_packing(cell.cell, cell.cell.packed());
    let inner = cell.task * 0x1_0000_0000_0000_0000 + cell.cell.packed();
    assert(inner as u128 == inner);
    let sum = collectible.collectible_type * 0x1_0000_0000_0000_0000_0000_0000 + inner;
    assert(sum as u128 == sum);
    assert(sum / 0x1_0000_0000_0000_0000_0000_0000 == collectible.collectible_type);
    assert(sum % 0x1_0000_0000_0000_0000_0000_0000 == inner);
    let rest = packed % 0x1_0000_0000_0000_0000_0000_0000;
    law_cell_id_packing(cell.cell, (rest % 0x1_0000_0000_0000_0000) as u64);
    let top = packed / 0x1_0000_0000_0000_0000_0000_0000;
    assert(top as u32 == top);
    assert(rest / 0x1_0000_0000_0000_0000 < 0x1_0000_0000);
    assert(CellRef::unpacked(rest).packed() == rest);
}

/// The collectibles of one type that a task's subgraph holds.
#[derive(Clone, Copy, PartialEq, Eq, Structural, Debug)]
pub struct CollectiblesRef {
    pub task: TaskId,
    pub collectible_type: TraitTypeId,
}

impl CollectiblesRef {
    /// The integer that stands for the collectibles in a hash table.
    pub open spec fn packed(self) -> PackedCollectiblesRef {
        (self.task * 0x1_0000_0000 + self.collectible_type) as u64
    }

    /// The collectibles that an integer stands for.
    pub open spec fn unpacked(packed: PackedCollectiblesRef) -> CollectiblesRef {
        CollectiblesRef {
            task: (packed / 0x1_0000_0000) as u32,
            collectible_type: (packed % 0x1_0000_0000) as u32,
        }
    }

    /// Executable form of [`CollectiblesRef::packed`].
    pub fn pack(self) -> (packed: PackedCollectiblesRef)
        ensures
            packed == self.packed(),
            packed == self.task * 0x1_0000_0000 + self.collectible_type,
    {
        self.task as u64 * 0x1_0000_0000 + self.collectible_type as u64
    }

    /// Executable form of [`CollectiblesRef::unpacked`].
    pub fn unpack(packed: PackedCollectiblesRef) -> (collectibles: CollectiblesRef)
        ensures
            collectibles == CollectiblesRef::unpacked(packed),
    {
        CollectiblesRef {
            task: (packed / 0x1_0000_0000) as u32,
            collectible_type: (packed % 0x1_0000_0000) as u32,
        }
    }
}

/// Packing a reference to collectibles loses nothing, and every integer stands for one.
pub proof fn law_collectibles_ref_packing(
    collectibles: CollectiblesRef,
    packed: PackedCollectiblesRef,
)
    ensures
        CollectiblesRef::unpacked(collectibles.packed()) == collectibles,
        CollectiblesRef::unpacked(packed).packed() == packed,
{
    let sum = collectibles.task * 0x1_0000_0000 + collectibles.collectible_type;
    assert(sum as u64 == sum);
}

/// The upper half of all ids belongs to transient tasks, the lower half to persistent ones.
pub proof fn law_half_of_the_ids_are_transient(task_id: TaskId, below: TaskId)
    requires
        below < 0x8000_0000,
    ensures
        transient(task_id) <==> task_id / 0x8000_0000 == 1,
        !transient(below),
        transient((below + 0x8000_0000) as TaskId),
{
}

/// Different cells, collectibles and references are never taken for one another in a hash table.
pub proof fn law_packing_keeps_apart(
    cell: CellId,
    other_cell: CellId,
    reference: CellRef,
    other_reference: CellRef,
    collectible: CollectibleRef,
    other_collectible: CollectibleRef,
    collectibles: CollectiblesRef,
    other_collectibles: CollectiblesRef,
)
    ensures
        cell.packed() == other_cell.packed() ==> cell == other_cell,
        reference.packed() == other_reference.packed() ==> reference == other_reference,
        collectible.packed() == other_collectible.packed() ==> collectible == other_collectible,
        collectibles.packed() == other_collectibles.packed() ==> collectibles
            == other_collectibles,
{
    law_cell_id_packing(cell, 0);
    law_cell_id_packing(other_cell, 0);
    law_cell_ref_packing(reference);
    law_cell_ref_packing(other_reference);
    law_collectible_ref_packing(collectible, 0);
    law_collectible_ref_packing(other_collectible, 0);
    law_collectibles_ref_packing(collectibles, 0);
    law_collectibles_ref_packing(other_collectibles, 0);
}

} // verus!
