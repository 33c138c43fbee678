use lazuli::memory::{Bat, FastmemTarget, Memory, PageTranslation, Region, IPL_LEN, NO_MAPPING};

#[test]
fn page_translation_maps_or_not() {
    let p = PageTranslation::new(Some(0x0003));
    assert_eq!(p.base(), Some(3));
    assert_eq!(p.translate(0x8001_2345), Some(0x0007_2345));
    let none = PageTranslation::new(None);
    assert_eq!(none.0, NO_MAPPING);
    assert_eq!(none.base(), None);
    assert_eq!(none.translate(0x1234), None);
}

#[test]
fn regions_of_physical_addresses() {
    assert_eq!(Region::of(0x0000_1000), Some((Region::Ram, 0x1000)));
    assert_eq!(Region::of(0x017F_FFFF), Some((Region::Ram, 0x017F_FFFF)));
    assert_eq!(Region::of(0x0180_0000), None);
    assert_eq!(Region::of(0xE000_0010), Some((Region::L2c, 0x10)));
    assert_eq!(Region::of(0xE000_4000), None);
    assert_eq!(Region::of(0xFFF0_0004), Some((Region::Ipl, 4)));
}

fn bat(start: u32, end: u32, physical_start: u32, physical_end: u32, supervisor_mode: bool) -> Bat {
    Bat { supervisor_mode, start, end, physical_start, physical_end }
}

#[test]
fn data_bats_translate_addresses() {
    let mut m = Memory::new(&vec![0u8; IPL_LEN]);
    assert_eq!(m.translate_data_addr(0x8000_0000), None);
    let dbats = [
        bat(0x8000_0000, 0x8FFF_FFFF, 0x0000_0000, 0x0FFF_FFFF, true),
        bat(0xC000_0000, 0xCFFF_FFFF, 0x0000_0000, 0x0FFF_FFFF, false),
        bat(0, 0, 0, 0, false),
        bat(0, 0, 0, 0, false),
    ];
    m.build_data_bat_lut(&dbats);
    assert_eq!(m.translate_data_addr(0x8012_3456), Some(0x0012_3456));
    assert_eq!(m.translate_data_addr(0xC012_3456), None);
    assert_eq!(m.translate_inst_addr(0x8012_3456), None);
    let lut = m.data_fastmem_lut_logical();
    assert_eq!(lut[0x8000_0000usize >> 17], Some(FastmemTarget { region: Region::Ram, offset: 0 }));
    assert_eq!(lut[0x8180_0000usize >> 17], None);
}

#[test]
fn shorter_range_bounds_bat_mapping() {
    let mut m = Memory::new(&vec![0u8; IPL_LEN]);
    let ibats = [
        bat(0x8000_0000, 0x8FFF_FFFF, 0x0000_0000, 0x0003_FFFF, true),
        bat(0, 0, 0, 0, false),
        bat(0, 0, 0, 0, false),
        bat(0, 0, 0, 0, false),
    ];
    m.build_instr_bat_lut(&ibats);
    assert_eq!(m.translate_inst_addr(0x8002_0010), Some(0x0002_0010));
    assert_eq!(m.translate_inst_addr(0x8004_0000), None);
}

#[test]
fn physical_fastmem_covers_regions() {
    let m = Memory::new(&vec![7u8; IPL_LEN]);
    let lut = m.data_fastmem_lut_physical();
    assert_eq!(lut[0], Some(FastmemTarget { region: Region::Ram, offset: 0 }));
    assert_eq!(lut[0xE000_0000usize >> 17], Some(FastmemTarget { region: Region::L2c, offset: 0 }));
    assert_eq!(lut[0xFFF0_0000usize >> 17], Some(FastmemTarget { region: Region::Ipl, offset: 0 }));
    assert_eq!(lut[0x1000_0000usize >> 17], None);
    assert_eq!(m.ipl()[5], 7);
    assert_eq!(m.ram().len(), 0x180_0000);
}

#[test]
fn physical_fastmem_pages_by_range() {
    let m = Memory::new(&vec![0u8; IPL_LEN]);
    let lut = m.data_fastmem_lut_physical();
    assert_eq!(lut[0], Some(FastmemTarget { region: Region::Ram, offset: 0 }));
    assert_eq!(lut[0xBF], Some(FastmemTarget { region: Region::Ram, offset: 0xBF << 17 }));
    assert_eq!(lut[0xC0], None);
    assert_eq!(lut[0x6FFF], None);
    assert_eq!(lut[0x7000], Some(FastmemTarget { region: Region::L2c, offset: 0 }));
    assert_eq!(lut[0x7001], None);
    assert_eq!(lut[0x7FF7], None);
    assert_eq!(lut[0x7FF8], Some(FastmemTarget { region: Region::Ipl, offset: 0 }));
    assert_eq!(lut[0x7FFF], Some(FastmemTarget { region: Region::Ipl, offset: (0x7FFF << 17) - 0xFFF0_0000 }));
}
