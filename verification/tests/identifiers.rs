use turbo_tasks_backend::ids::{
    is_transient, CellId, CellRef, CollectibleRef, CollectiblesRef, FIRST_TRANSIENT_TASK_ID,
};

#[test]
fn transient_ids_are_the_upper_half() {
    assert!(!is_transient(0));
    assert!(!is_transient(FIRST_TRANSIENT_TASK_ID - 1));
    assert!(is_transient(FIRST_TRANSIENT_TASK_ID));
    assert!(is_transient(u32::MAX));
}

#[test]
fn cells_are_packed_and_unpacked() {
    let cell = CellId { type_id: 0xdead_beef, index: 0x0102_0304 };
    assert_eq!(cell.pack(), 0xdead_beef_0102_0304);
    assert_eq!(CellId::unpack(cell.pack()), cell);
    assert_eq!(CellId::unpack(7), CellId { type_id: 0, index: 7 });
}

#[test]
fn cells_of_tasks_are_packed_and_unpacked() {
    let cell = CellRef { task: 0x8000_0001, cell: CellId { type_id: 2, index: u32::MAX } };
    assert_eq!(cell.pack(), 0x8000_0001_0000_0002_ffff_ffff);
    assert_eq!(CellRef::unpack(cell.pack()), cell);
}

#[test]
fn collectibles_are_packed_and_unpacked() {
    let cell = CellRef { task: 3, cell: CellId { type_id: 4, index: 5 } };
    let collectible = CollectibleRef { collectible_type: 0xffff_fffe, cell };
    assert_eq!(collectible.pack(), 0xffff_fffe_0000_0003_0000_0004_0000_0005);
    assert_eq!(CollectibleRef::unpack(collectible.pack()), collectible);
    let collectibles = CollectiblesRef { task: 9, collectible_type: 10 };
    assert_eq!(collectibles.pack(), 0x0000_0009_0000_000a);
    assert_eq!(CollectiblesRef::unpack(collectibles.pack()), collectibles);
}
