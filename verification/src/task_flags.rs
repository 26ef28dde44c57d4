//! The boolean flags of a task, kept in one bit field.
use vstd::prelude::*;

use crate::category::TaskDataCategory;

verus! {

/// A boolean flag of a task.
///
/// Persisted flags come first, then transient ones.
#[derive(Clone, Copy, PartialEq, Eq, Structural, Debug)]
pub enum TaskFlag {
    /// The task has an invalidator (persisted with the metadata).
    Invalidator,
    /// The task's output is immutable (persisted with the metadata).
    Immutable,
    /// The task is clean in the current session.
    CurrentSessionClean,
    /// The metadata has been restored from persistent storage.
    MetaRestored,
    /// The data has been restored from persistent storage.
    DataRestored,
    /// The metadata was modified before snapshot mode was entered.
    MetaModified,
    /// The data was modified before snapshot mode was entered.
    DataModified,
    /// The metadata was modified after snapshot mode was entered.
    MetaSnapshot,
    /// The data was modified after snapshot mode was entered.
    DataSnapshot,
    /// The task's dependencies have been prefetched.
    Prefetched,
}

impl TaskFlag {
    /// The position of the flag in the bit field.
    pub open spec fn position(self) -> u16 {
        match self {
            TaskFlag::Invalidator => 0,
            TaskFlag::Immutable => 1,
            TaskFlag::CurrentSessionClean => 2,
            TaskFlag::MetaRestored => 3,
            TaskFlag::DataRestored => 4,
            TaskFlag::MetaModified => 5,
            TaskFlag::DataModified => 6,
            TaskFlag::MetaSnapshot => 7,
            TaskFlag::DataSnapshot => 8,
            TaskFlag::Prefetched => 9,
        }
    }

    /// Whether the flag is written to persistent storage.
    pub open spec fn persisted(self) -> bool {
        self is Invalidator || self is Immutable
    }

    fn bit_position(self) -> (position: u16)
        ensures
            position == self.position(),
    {
        match self {
            TaskFlag::Invalidator => 0,
            TaskFlag::Immutable => 1,
            TaskFlag::CurrentSessionClean => 2,
            TaskFlag::MetaRestored => 3,
            TaskFlag::DataRestored => 4,
            TaskFlag::MetaModified => 5,
            TaskFlag::DataModified => 6,
            TaskFlag::MetaSnapshot => 7,
            TaskFlag::DataSnapshot => 8,
            TaskFlag::Prefetched => 9,
        }
    }
}

/// Writing one bit of a word changes that bit and no other.
proof fn lemma_write_bit(bits: u16, i: u16, j: u16)
    by (bit_vector)
    requires
        i < 16,
        j < 16,
    ensures
        ((bits | (1u16 << i)) >> j) & 1 == (if i == j {
            1u16
        } else {
            (bits >> j) & 1
        }),
        ((bits & !(1u16 << i)) >> j) & 1 == (if i == j {
            0u16
        } else {
            (bits >> j) & 1
        }),
        (0u16 >> j) & 1 == 0,
{
}

/// The flags of a task.
#[derive(Clone, Copy, Debug)]
pub struct TaskFlags {
    bits: u16,
}

impl View for TaskFlags {
    type V = Set<TaskFlag>;

    /// The flags that are set.
    closed spec fn view(&self) -> Set<TaskFlag> {
        Set::new(|flag: TaskFlag| (self.bits >> flag.position()) & 1 == 1)
    }
}

/// The flags after `flag` has been written.
pub open spec fn with_flag(flags: Set<TaskFlag>, flag: TaskFlag, value: bool) -> Set<TaskFlag> {
    if value {
        flags.insert(flag)
    } else {
        flags.remove(flag)
    }
}

/// Whether flags say that the whole of `category` has been restored.
pub open spec fn restored(flags: Set<TaskFlag>, category: TaskDataCategory) -> bool {
    match category {
        TaskDataCategory::Meta => flags.contains(TaskFlag::MetaRestored),
        TaskDataCategory::Data => flags.contains(TaskFlag::DataRestored),
        TaskDataCategory::All => flags.contains(TaskFlag::MetaRestored) && flags.contains(
            TaskFlag::DataRestored,
        ),
    }
}

/// The flags after the whole of `category` has been marked as restored.
pub open spec fn with_restored(flags: Set<TaskFlag>, category: TaskDataCategory) -> Set<TaskFlag> {
    match category {
        TaskDataCategory::Meta => flags.insert(TaskFlag::MetaRestored),
        TaskDataCategory::Data => flags.insert(TaskFlag::DataRestored),
        TaskDataCategory::All => flags.insert(TaskFlag::MetaRestored).insert(
            TaskFlag::DataRestored,
        ),
    }
}

impl Default for TaskFlags {
    /// No flag is set.
    fn default() -> (flags: Self)
        ensures
            flags@ == Set::<TaskFlag>::empty(),
    {
        let flags = TaskFlags { bits: 0 };
        proof {
            assert forall|flag: TaskFlag| !flags@.contains(flag) by {
                lemma_write_bit(0, 0, flag.position());
            }
        }
        flags
    }
}

impl TaskFlags {
    /// Whether `flag` is set.
    pub fn get(&self, flag: TaskFlag) -> (value: bool)
        ensures
            value == self@.contains(flag),
    {
        (self.bits >> flag.bit_position()) & 1 == 1
    }

    /// Sets or clears `flag`.
    pub fn set(&mut self, flag: TaskFlag, value: bool)
        ensures
            final(self)@ == with_flag(old(self)@, flag, value),
    {
        let position: u16 = flag.bit_position();
        let ghost before = self.bits;
        if value {
            self.bits = self.bits | (1u16 << position);
        } else {
            self.bits = self.bits & !(1u16 << position);
        }
        proof {
            assert forall|other: TaskFlag|
                self@.contains(other) == with_flag(old(self)@, flag, value).contains(other) by {
                lemma_write_bit(before, position, other.position());
            }
        }
    }

    /// Marks `category` as restored.
    pub fn set_restored(&mut self, category: TaskDataCategory)
        ensures
            final(self)@ == with_restored(old(self)@, category),
            restored(final(self)@, category),
    {
        match category {
            TaskDataCategory::Meta => {
                self.set(TaskFlag::MetaRestored, true);
            },
            TaskDataCategory::Data => {
                self.set(TaskFlag::DataRestored, true);
            },
            TaskDataCategory::All => {
                self.set(TaskFlag::MetaRestored, true);
                self.set(TaskFlag::DataRestored, true);
            },
        }
    }

    /// Whether the whole of `category` has been restored.
    pub fn is_restored(&self, category: TaskDataCategory) -> (is_restored: bool)
        ensures
            is_restored == restored(self@, category),
    {
        match category {
            TaskDataCategory::Meta => self.get(TaskFlag::MetaRestored),
            TaskDataCategory::Data => self.get(TaskFlag::DataRestored),
            TaskDataCategory::All => self.get(TaskFlag::MetaRestored) && self.get(
                TaskFlag::DataRestored,
            ),
        }
    }

    /// Whether any snapshot flag is set.
    pub fn any_snapshot(&self) -> (any: bool)
        ensures
            any == (self@.contains(TaskFlag::MetaSnapshot) || self@.contains(
                TaskFlag::DataSnapshot,
            )),
    {
        self.get(TaskFlag::MetaSnapshot) || self.get(TaskFlag::DataSnapshot)
    }

    /// Whether any modified flag is set.
    pub fn any_modified(&self) -> (any: bool)
        ensures
            any == (self@.contains(TaskFlag::MetaModified) || self@.contains(
                TaskFlag::DataModified,
            )),
    {
        self.get(TaskFlag::MetaModified) || self.get(TaskFlag::DataModified)
    }
}

/// Marking a category as restored restores the parts that it covers, and takes nothing back.
pub proof fn law_marking_restored(
    flags: Set<TaskFlag>,
    marked: TaskDataCategory,
    asked: TaskDataCategory,
)
    ensures
        restored(with_restored(flags, marked), marked),
        restored(flags, asked) ==> restored(with_restored(flags, marked), asked),
        restored(with_restored(flags, TaskDataCategory::All), asked),
        restored(flags, TaskDataCategory::All) <==> restored(flags, TaskDataCategory::Meta)
            && restored(flags, TaskDataCategory::Data),
        flags.subset_of(with_restored(flags, marked)),
{
}

/// A flag that has been written is read back, and no other flag is touched.
pub proof fn law_a_flag_is_read_back(
    flags: Set<TaskFlag>,
    flag: TaskFlag,
    value: bool,
    other: TaskFlag,
)
    ensures
        with_flag(flags, flag, value).contains(flag) == value,
        other != flag ==> with_flag(flags, flag, value).contains(other) == flags.contains(other),
{
}

/// Each part has one flag that says that it has been restored, and everything has been restored
/// where both flags are set. Marking a category sets the flags of its parts and no other.
pub proof fn law_each_part_has_its_flag(
    flags: Set<TaskFlag>,
    category: TaskDataCategory,
    flag: TaskFlag,
)
    ensures
        restored(flags, TaskDataCategory::Meta) <==> flags.contains(TaskFlag::MetaRestored),
        restored(flags, TaskDataCategory::Data) <==> flags.contains(TaskFlag::DataRestored),
        restored(flags, TaskDataCategory::All) <==> flags.contains(TaskFlag::MetaRestored)
            && flags.contains(TaskFlag::DataRestored),
        with_restored(flags, category).contains(flag) <==> flags.contains(flag) || flag
            == TaskFlag::MetaRestored && category != TaskDataCategory::Data || flag
            == TaskFlag::DataRestored && category != TaskDataCategory::Meta,
{
}

} // verus!
