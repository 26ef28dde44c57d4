use turbo_tasks_backend::cached_data_item::{
    CachedDataItem, CachedDataItemAdapter, CachedDataItemAdapterExt,
};
use turbo_tasks_backend::cell_items::CellItems;
use turbo_tasks_backend::data::{SharedReference, TypedSharedReference};
use turbo_tasks_backend::ids::CellId;

type Item = CachedDataItem<CellId, TypedSharedReference>;

fn cell(type_id: u32, index: u32) -> CellId {
    CellId { type_id, index }
}

fn value(value: u64) -> TypedSharedReference {
    TypedSharedReference { type_id: 1, reference: SharedReference { value } }
}

fn item(type_id: u32, index: u32, number: u64) -> Item {
    CachedDataItem::from_key_and_value(cell(type_id, index), value(number))
}

#[test]
fn an_item_is_a_key_and_a_value() {
    assert_eq!(item(1, 2, 3).into_key_and_value(), (cell(1, 2), value(3)));
}

#[test]
fn add_does_not_overwrite() {
    let mut items = CellItems::new();
    assert!(items.add(item(1, 1, 5)));
    assert!(!items.add(item(1, 1, 6)));
    assert_eq!(items.get(&cell(1, 1)), Some(&value(5)));
}

#[test]
fn insert_overwrites() {
    let mut items = CellItems::new();
    assert_eq!(items.insert(item(1, 1, 5)), None);
    assert_eq!(items.insert(item(1, 1, 6)), Some(value(5)));
    assert_eq!(items.insert_kv(cell(1, 1), value(7)), Some(value(6)));
    assert!(items.contains_key(&cell(1, 1)));
    assert!(!items.contains_key(&cell(1, 2)));
    assert_eq!(items.remove(&cell(1, 1)), Some(value(7)));
    assert_eq!(items.remove(&cell(1, 1)), None);
}

#[test]
fn update_changes_creates_and_removes() {
    let mut items = CellItems::new();
    items.update(cell(1, 1), |old| {
        assert_eq!(old, None);
        Some(value(2))
    });
    items.update(cell(1, 1), |old| old.map(|old| value(old.reference.value + 1)));
    assert_eq!(items.get(&cell(1, 1)), Some(&value(3)));
    items.update(cell(1, 1), |_| None);
    assert_eq!(items.get(&cell(1, 1)), None);
    items.update(cell(1, 2), |_| None);
    assert_eq!(items.count(1), 0);
}

#[test]
fn get_mut_or_insert_with_inserts_once() {
    let mut items = CellItems::new();
    items.get_mut_or_insert_with(cell(1, 1), || value(4)).reference.value += 1;
    assert_eq!(items.get(&cell(1, 1)), Some(&value(5)));
    items.get_mut_or_insert_with(cell(1, 1), || panic!("there is one")).reference.value += 1;
    assert_eq!(items.get(&cell(1, 1)), Some(&value(6)));
    items.get_mut(&cell(1, 1)).unwrap().reference.value = 9;
    assert_eq!(items.get(&cell(1, 1)), Some(&value(9)));
    assert!(items.get_mut(&cell(1, 2)).is_none());
}

#[test]
fn extend_tells_whether_all_items_were_new() {
    let mut items = CellItems::new();
    assert!(items.extend(1, vec![item(1, 1, 1), item(1, 2, 2)]));
    assert!(!items.extend(1, vec![item(1, 2, 9), item(1, 3, 3)]));
    assert_eq!(items.get(&cell(1, 2)), Some(&value(2)));
    assert_eq!(items.get(&cell(1, 3)), Some(&value(3)));
    assert!(!items.extend(1, vec![item(1, 4, 4), item(1, 4, 5)]));
    assert_eq!(items.get(&cell(1, 4)), Some(&value(4)));
    assert!(items.extend(1, vec![]));
}

#[test]
fn items_are_counted_and_listed_by_type() {
    let mut items = CellItems::new();
    items.extend(0, vec![item(1, 1, 1), item(2, 1, 2), item(1, 2, 3)]);
    assert_eq!(items.count(1), 2);
    assert_eq!(items.count(2), 1);
    assert_eq!(items.count(3), 0);
    assert_eq!(items.iter(2), vec![(cell(2, 1), &value(2))]);
    let mut indices: Vec<u32> = items.iter(1).into_iter().map(|entry| entry.0.index).collect();
    indices.sort();
    assert_eq!(indices, vec![1, 2]);
}

#[test]
fn extract_if_removes_what_matches() {
    let mut items = CellItems::new();
    for index in 0..6u32 {
        items.add(item(1, index, u64::from(index)));
        items.add(item(2, index, u64::from(index)));
    }
    let mut extracted = items.extract_if(1, |key, value| key.index > 1 && value.reference.value < 4);
    extracted.sort_by_key(|item| item.key.index);
    assert_eq!(extracted, vec![item(1, 2, 2), item(1, 3, 3)]);
    assert_eq!(items.count(1), 4);
    assert_eq!(items.count(2), 6);
    assert!(!items.contains_key(&cell(1, 2)));
    assert!(items.extract_if(3, |_, _| true).is_empty());
}
