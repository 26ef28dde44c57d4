//! The categories that a task's stored data falls into.
use vstd::prelude::*;

verus! {

/// Which part of a task's data an access needs.
#[derive(Clone, Copy, PartialEq, Eq, Structural, Debug)]
pub enum TaskDataCategory {
    /// Rarely changed metadata: output, aggregation, persisted flags.
    Meta,
    /// Frequently changed bulk data: dependencies and cell data.
    Data,
    /// Both of them.
    All,
}

/// One part of a task's persisted data.
#[derive(Clone, Copy, PartialEq, Eq, Structural, Debug)]
pub enum SpecificTaskDataCategory {
    Meta,
    Data,
}

impl TaskDataCategory {
    /// Whether the category covers `part`.
    pub open spec fn covers(self, part: SpecificTaskDataCategory) -> bool {
        match self {
            TaskDataCategory::Meta => part is Meta,
            TaskDataCategory::Data => part is Data,
            TaskDataCategory::All => true,
        }
    }

    /// Executable form of [`TaskDataCategory::covers`].
    pub fn has_part(self, part: SpecificTaskDataCategory) -> (covered: bool)
        ensures
            covered == self.covers(part),
    {
        match self {
            TaskDataCategory::Meta => matches!(part, SpecificTaskDataCategory::Meta),
            TaskDataCategory::Data => matches!(part, SpecificTaskDataCategory::Data),
            TaskDataCategory::All => true,
        }
    }
}

impl SpecificTaskDataCategory {
    /// The category that consists of this part alone.
    pub open spec fn as_category(self) -> TaskDataCategory {
        match self {
            SpecificTaskDataCategory::Meta => TaskDataCategory::Meta,
            SpecificTaskDataCategory::Data => TaskDataCategory::Data,
        }
    }

    /// Executable form of [`SpecificTaskDataCategory::as_category`].
    pub fn to_category(self) -> (category: TaskDataCategory)
        ensures
            category == self.as_category(),
    {
        match self {
            SpecificTaskDataCategory::Meta => TaskDataCategory::Meta,
            SpecificTaskDataCategory::Data => TaskDataCategory::Data,
        }
    }
}

/// Both parts together are everything, each part is a category of its own, and the two parts have
/// nothing in common.
pub proof fn law_categories_are_made_of_parts(
    category: TaskDataCategory,
    part: SpecificTaskDataCategory,
    other: SpecificTaskDataCategory,
)
    ensures
        TaskDataCategory::All.covers(part),
        TaskDataCategory::Meta.covers(part) <==> part == SpecificTaskDataCategory::Meta,
        TaskDataCategory::Data.covers(part) <==> part == SpecificTaskDataCategory::Data,
        part.as_category().covers(other) <==> part == other,
        SpecificTaskDataCategory::Meta.as_category() == TaskDataCategory::Meta,
        SpecificTaskDataCategory::Data.as_category() == TaskDataCategory::Data,
        category.covers(SpecificTaskDataCategory::Meta) && category.covers(
            SpecificTaskDataCategory::Data,
        ) <==> category == TaskDataCategory::All,
{
}

} // verus!
