use turbo_tasks_backend::category::{SpecificTaskDataCategory, TaskDataCategory};
use turbo_tasks_backend::task_flags::{TaskFlag, TaskFlags};

const ALL_FLAGS: [TaskFlag; 10] = [
    TaskFlag::Invalidator,
    TaskFlag::Immutable,
    TaskFlag::CurrentSessionClean,
    TaskFlag::MetaRestored,
    TaskFlag::DataRestored,
    TaskFlag::MetaModified,
    TaskFlag::DataModified,
    TaskFlag::MetaSnapshot,
    TaskFlag::DataSnapshot,
    TaskFlag::Prefetched,
];

#[test]
fn no_flag_is_set_at_first() {
    let flags = TaskFlags::default();
    for flag in ALL_FLAGS {
        assert!(!flags.get(flag));
    }
    assert!(!flags.any_snapshot());
    assert!(!flags.any_modified());
}

#[test]
fn writing_a_flag_leaves_the_others_alone() {
    for flag in ALL_FLAGS {
        let mut flags = TaskFlags::default();
        flags.set(flag, true);
        for other in ALL_FLAGS {
            assert_eq!(flags.get(other), other == flag);
        }
        for other in ALL_FLAGS {
            flags.set(other, true);
        }
        flags.set(flag, false);
        for other in ALL_FLAGS {
            assert_eq!(flags.get(other), other != flag);
        }
    }
}

#[test]
fn restoring_all_restores_both_parts() {
    let mut flags = TaskFlags::default();
    flags.set_restored(TaskDataCategory::All);
    assert!(flags.is_restored(TaskDataCategory::Meta));
    assert!(flags.is_restored(TaskDataCategory::Data));
    assert!(flags.is_restored(TaskDataCategory::All));
}

#[test]
fn restoring_one_part_does_not_restore_the_other() {
    let mut flags = TaskFlags::default();
    flags.set_restored(TaskDataCategory::Meta);
    assert!(flags.is_restored(TaskDataCategory::Meta));
    assert!(!flags.is_restored(TaskDataCategory::Data));
    assert!(!flags.is_restored(TaskDataCategory::All));
    flags.set_restored(TaskDataCategory::Data);
    assert!(flags.is_restored(TaskDataCategory::Meta));
    assert!(flags.is_restored(TaskDataCategory::All));
}

#[test]
fn any_snapshot_sees_either_snapshot_flag() {
    for flag in ALL_FLAGS {
        let mut flags = TaskFlags::default();
        flags.set(flag, true);
        let snapshot = matches!(flag, TaskFlag::MetaSnapshot | TaskFlag::DataSnapshot);
        assert_eq!(flags.any_snapshot(), snapshot);
    }
}

#[test]
fn any_modified_sees_either_modified_flag() {
    for flag in ALL_FLAGS {
        let mut flags = TaskFlags::default();
        flags.set(flag, true);
        let modified = matches!(flag, TaskFlag::MetaModified | TaskFlag::DataModified);
        assert_eq!(flags.any_modified(), modified);
    }
}

#[test]
fn categories_cover_their_parts() {
    let meta = SpecificTaskDataCategory::Meta;
    let data = SpecificTaskDataCategory::Data;
    assert!(TaskDataCategory::Meta.has_part(meta));
    assert!(!TaskDataCategory::Meta.has_part(data));
    assert!(!TaskDataCategory::Data.has_part(meta));
    assert!(TaskDataCategory::Data.has_part(data));
    assert!(TaskDataCategory::All.has_part(meta));
    assert!(TaskDataCategory::All.has_part(data));
    assert_eq!(meta.to_category(), TaskDataCategory::Meta);
    assert_eq!(data.to_category(), TaskDataCategory::Data);
}
