use turbo_tasks_backend::counter_map::{CounterMap, CounterMapExt, CounterValue};
use turbo_tasks_backend::fx::{elements_of, keys_of, positive_entries};
use turbo_tasks_backend::storage_schema::AutoSet;

#[test]
fn update_count_reports_crossing_zero() {
    let mut counts: CounterMap<u32, i32> = CounterMap::default();
    assert!(counts.update_count(7, 2));
    assert_eq!(counts.get(&7), Some(&2));
    assert!(!counts.update_count(7, 1));
    assert_eq!(counts.get(&7), Some(&3));
    assert!(!counts.update_count(7, -4));
    assert_eq!(counts.get(&7), Some(&-1));
    assert!(counts.update_count(7, 1));
    assert_eq!(counts.get(&7), None);
    assert!(!counts.update_count(7, 0));
    assert_eq!(counts.len(), 0);
}

#[test]
fn update_and_get_returns_the_new_value() {
    let mut counts: CounterMap<u32, u32> = CounterMap::default();
    assert_eq!(counts.update_and_get(1, 5), 5);
    assert_eq!(counts.update_and_get(1, 6), 11);
    assert_eq!(counts.update_and_get(2, 0), 0);
    assert_eq!(counts.len(), 1);
    assert_eq!(counts.get(&1), Some(&11));
}

#[test]
fn an_update_is_undone_by_the_opposite_update() {
    let mut counts: CounterMap<u32, i32> = CounterMap::default();
    counts.add_entry(3, 4);
    let before = counts.clone();
    assert_eq!(counts.update_and_get(3, -9), -5);
    assert_eq!(counts.update_and_get(3, 9), 4);
    assert_eq!(counts, before);
    assert_eq!(counts.update_and_get(8, 1), 1);
    assert_eq!(counts.update_and_get(8, -1), 0);
    assert_eq!(counts, before);
}

#[test]
fn two_updates_combine() {
    let mut twice: CounterMap<u32, i32> = CounterMap::default();
    let mut once: CounterMap<u32, i32> = CounterMap::default();
    twice.update_count(1, 5);
    twice.update_count(1, -3);
    once.update_count(1, 2);
    assert_eq!(twice, once);
}

#[test]
fn update_with_replaces_inserts_and_removes() {
    let mut counts: CounterMap<u32, i32> = CounterMap::default();
    counts.update_with(1, |old| {
        assert_eq!(old, None);
        Some(3)
    });
    assert_eq!(counts.get(&1), Some(&3));
    counts.update_with(1, |old| old.map(|count| count + 5));
    assert_eq!(counts.get(&1), Some(&8));
    counts.update_with(1, |old| {
        assert_eq!(old, Some(8));
        None
    });
    assert_eq!(counts.get(&1), None);
    counts.update_with(2, |_| None);
    assert_eq!(counts.len(), 0);
}

#[test]
fn update_with_keeps_no_entry_at_zero() {
    let mut counts: CounterMap<u32, i32> = CounterMap::default();
    counts.add_entry(1, 2);
    counts.add_entry(2, 4);
    counts.update_with(1, |_| Some(0));
    assert_eq!(counts.get(&1), None);
    counts.update_with(3, |old| {
        assert_eq!(old, None);
        Some(0)
    });
    assert_eq!(counts.len(), 1);
    assert_eq!(counts.get(&2), Some(&4));
}

#[test]
fn add_entry_adds() {
    let mut counts: CounterMap<u32, i32> = CounterMap::default();
    counts.add_entry(9, -3);
    assert_eq!(counts.get(&9), Some(&-3));
}

#[test]
fn positive_crossing_is_reported_both_ways() {
    let mut counts: CounterMap<u32, i32> = CounterMap::default();
    assert!(!counts.update_positive_crossing(1, -2));
    assert_eq!(counts.get(&1), Some(&-2));
    assert!(!counts.update_positive_crossing(1, 2));
    assert_eq!(counts.get(&1), None);
    assert!(counts.update_positive_crossing(1, 3));
    assert!(!counts.update_positive_crossing(1, 1));
    assert!(counts.update_positive_crossing(1, -9));
    assert_eq!(counts.get(&1), Some(&-5));
    assert!(counts.update_positive_crossing(1, 6));
    assert!(!counts.update_positive_crossing(2, 0));
    assert_eq!(counts.len(), 1);
}

#[test]
fn zero_and_positive_values() {
    assert!(0u32.is_zero() && !1u32.is_zero());
    assert!(!0u32.is_positive() && 1u32.is_positive());
    assert!(0i32.is_zero() && !(-1i32).is_zero());
    assert!(!(-1i32).is_positive() && !0i32.is_positive() && 1i32.is_positive());
}

#[test]
fn keys_and_elements_are_listed_once() {
    let mut counts: CounterMap<u32, i32> = CounterMap::default();
    let mut set: AutoSet<u64> = AutoSet::default();
    for i in 0..100u32 {
        counts.add_entry(i * 3, 1);
        set.insert(u64::from(i) * 5);
    }
    let mut keys = keys_of(&counts);
    keys.sort();
    assert_eq!(keys, (0..100u32).map(|i| i * 3).collect::<Vec<_>>());
    let mut elements = elements_of(&set);
    elements.sort();
    assert_eq!(elements, (0..100u64).map(|i| i * 5).collect::<Vec<_>>());
}

#[test]
fn positive_entries_leave_out_the_others() {
    let mut counts: CounterMap<u32, i32> = CounterMap::default();
    counts.add_entry(1, 2);
    counts.add_entry(2, 0);
    counts.add_entry(3, -4);
    counts.add_entry(4, 7);
    let mut entries = positive_entries(&counts);
    entries.sort();
    assert_eq!(entries, vec![(1, 2), (4, 7)]);
}

#[test]
fn an_update_moves_one_counter_only() {
    let mut counts: CounterMap<u32, i32> = CounterMap::default();
    counts.add_entry(1, 4);
    counts.add_entry(2, 6);
    assert_eq!(counts.update_and_get(1, -9), -5);
    assert_eq!(counts.get(&2), Some(&6));
    assert!(counts.update_count(2, -6));
    assert_eq!(counts.get(&1), Some(&-5));
    assert_eq!(counts.len(), 1);
}
