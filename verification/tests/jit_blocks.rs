use lazuli::jit_blocks::{Blocks, DepsTable, MappingSpace, StoredBlock};
use lazuli::jit_mapping::{BlockId, Mapping};

#[test]
fn deps_table_lists_each_address_once() {
    let mut d = DepsTable::new();
    assert!(!d.has(5));
    assert_eq!(d.list(5), Vec::<u32>::new());
    d.insert(5, 0x100);
    d.insert(5, 0x200);
    d.insert(5, 0x100);
    d.insert(5, 0x300);
    assert!(d.has(5));
    assert_eq!(d.list(5), vec![0x100, 0x200, 0x300]);
    d.swap_remove(5, 0x100);
    assert_eq!(d.list(5), vec![0x300, 0x200]);
    d.swap_remove(5, 0x999);
    assert_eq!(d.list(5), vec![0x300, 0x200]);
}

#[test]
fn mapping_space_insert_and_remove() {
    let mut s = MappingSpace::new();
    let m = Mapping { id: BlockId(7), length: 0x1800 };
    s.insert_mapping(0x8000_0F00, m);
    assert_eq!(s.get_mapping(0x8000_0F00), Some(m));
    assert_eq!(s.get_mapping(0x8000_0F04), None);
    assert_eq!(s.remove_mapping_if_contains(0x8000_0F00, 0x8000_3000), Ok(None));
    assert_eq!(s.remove_mapping_if_contains(0x8000_0F04, 0x8000_0F04), Err(0x8000_0F04));
    assert_eq!(s.remove_mapping_if_contains(0x8000_0F00, 0x8000_2700), Ok(Some(m)));
    assert_eq!(s.get_mapping(0x8000_0F00), None);
}

#[test]
fn blocks_insert_get_and_invalidate() {
    let mut b = Blocks::new();
    let id = b.insert(true, 0x8000_0000, 0x2000);
    assert_eq!(id, BlockId(0));
    assert_eq!(b.get_mapping(true, 0x8000_0000), Some(Mapping { id: BlockId(0), length: 0x2000 }));
    assert_eq!(b.get_mapping(false, 0x8000_0000), None);
    assert_eq!(b.get(true, 0x8000_0000), Some(StoredBlock { length: 0x2000 }));
    let other = b.insert(false, 0x0000_0000, 0x100);
    assert_eq!(other, BlockId(1));
    // A write on the second page of the block invalidates it.
    assert_eq!(b.invalidate(true, 0x8000_1004), vec![BlockId(0)]);
    assert_eq!(b.get_mapping(true, 0x8000_0000), None);
    assert_eq!(b.get(true, 0x8000_0000), None);
    // The physical space is untouched.
    assert_eq!(b.get(false, 0x0000_0000), Some(StoredBlock { length: 0x100 }));
    // Invalidating again finds nothing.
    assert_eq!(b.invalidate(true, 0x8000_1004), vec![]);
}

#[test]
fn blocks_invalidate_outside_the_block_keeps_it() {
    let mut b = Blocks::new();
    b.insert(true, 0x8000_0000, 0x100);
    assert_eq!(b.invalidate(true, 0x8000_0200), vec![]);
    assert_eq!(b.get(true, 0x8000_0000), Some(StoredBlock { length: 0x100 }));
    // Both ends of the block count as inside it.
    assert_eq!(b.invalidate(true, 0x8000_0100), vec![BlockId(0)]);
}

#[test]
fn blocks_replaced_mapping_is_invalidated_by_its_own_length() {
    let mut b = Blocks::new();
    b.insert(true, 0x8000_0000, 0x2000);
    // A shorter block replaces the mapping at the same address.
    b.insert(true, 0x8000_0000, 0x10);
    assert_eq!(b.invalidate(true, 0x8000_0020), vec![]);
    assert_eq!(b.get(true, 0x8000_0000), Some(StoredBlock { length: 0x10 }));
    assert_eq!(b.invalidate(true, 0x8000_0004), vec![BlockId(1)]);
    assert_eq!(b.get(true, 0x8000_0000), None);
}

#[test]
fn blocks_clear_forgets_mappings() {
    let mut b = Blocks::new();
    b.insert(true, 0x8000_0000, 0x40);
    b.insert(false, 0x0000_0040, 0x40);
    b.clear();
    assert_eq!(b.get(true, 0x8000_0000), None);
    assert_eq!(b.get(false, 0x0000_0040), None);
    assert_eq!(b.invalidate(true, 0x8000_0000), vec![]);
    assert_eq!(b.insert(true, 0x8000_0000, 0x40), BlockId(2));
}

#[test]
fn write_in_the_first_page_of_a_block_invalidates_it() {
    let mut b = Blocks::new();
    let id = b.insert(false, 0x0000_2040, 0x30);
    assert_eq!(b.invalidate(false, 0x0000_2050), vec![id]);
}

#[test]
fn a_block_is_listed_for_every_page_it_reaches() {
    // A block of 8 bytes starting 4 bytes before a page boundary reaches into the next page,
    // so a write there invalidates it.
    let mut b = Blocks::new();
    let id = b.insert(true, 0x8000_0FFC, 8);
    assert_eq!(b.invalidate(true, 0x8000_1000), vec![id]);
    assert_eq!(b.get(true, 0x8000_0FFC), None);
    let id = b.insert(true, 0x8000_0FFC, 8);
    assert_eq!(b.invalidate(true, 0x8000_0FFE), vec![id]);
    // A block ending exactly at a page boundary counts its end address, so the next page too.
    let id = b.insert(false, 0x0000_0F00, 0x100);
    assert_eq!(b.invalidate(false, 0x0000_1000), vec![id]);
}
