use lazuli::jit_mapping::{addr_to_deps_idx, addr_to_icache_idx, addr_to_mapping_idx, closest_breakpoint, deps_page_base, BlockId, Mapping, Table};

#[test]
fn mapping_indices_split_the_word_address() {
    assert_eq!(addr_to_mapping_idx(0x8000_3100), (0x800, 0x03, 0x040));
    assert_eq!(addr_to_mapping_idx(0xFFFF_FFFF), (0xFFF, 0xFF, 0x3FF));
    assert_eq!(addr_to_mapping_idx(0x8000_3103), addr_to_mapping_idx(0x8000_3100));
    assert_ne!(addr_to_mapping_idx(0x8000_3104), addr_to_mapping_idx(0x8000_3100));
}

#[test]
fn deps_and_icache_indices() {
    assert_eq!(deps_page_base(0x8000_3100), 0x80003);
    assert_eq!(addr_to_deps_idx(0x8000_3100), (0x800, 0x03));
    assert_eq!(addr_to_icache_idx(0x8000_3120), (0x400, 0x01, 0x89));
}

#[test]
fn table_get_after_insert_and_remove() {
    let mut t = Table::new();
    let m = Mapping { id: BlockId(3), length: 16 };
    t.insert(0x8000_0000, m);
    assert_eq!(t.get(0x8000_0000), Some(&m));
    assert_eq!(t.get(0x8000_0002), Some(&m));
    assert_eq!(t.get(0x8000_0004), None);
    let n = Mapping { id: BlockId(4), length: 8 };
    t.insert(0x8000_0001, n);
    assert_eq!(t.get(0x8000_0000), Some(&n));
    assert_eq!(t.remove(0x8000_0000), Some(n));
    assert_eq!(t.remove(0x8000_0000), None);
    assert_eq!(t.get(0x8000_0000), None);
}

#[test]
fn closest_breakpoint_after_pc() {
    assert_eq!(closest_breakpoint(0x100, &[0x80, 0x200, 0x180, 0x100]), 0x180);
    assert_eq!(closest_breakpoint(0x100, &[]), u32::MAX);
    assert_eq!(closest_breakpoint(0x100, &[0x100, 0x10]), u32::MAX);
    assert_eq!(closest_breakpoint(0, &[5, 3, 3]), 3);
}
