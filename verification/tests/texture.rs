use lazuli::texture::{
    update_clut, update_texture, ClutFormat, ClutLoad, Encoding, Format, LodLevel, LutRef, MinFilter, Sampler, ScaleU,
    Interface, ScaleV, Scaling, TextureMap, TextureSlot, WrapMode,
};

fn encoding(width: u32, height: u32, format: u32) -> Encoding {
    Encoding((width - 1) | ((height - 1) << 10) | (format << 20))
}

#[test]
fn filters_and_formats() {
    assert!(MinFilter::from_bits(4).is_linear());
    assert!(!MinFilter::from_bits(4).uses_lods());
    assert!(MinFilter::from_bits(6).uses_lods());
    assert!(MinFilter::from_bits(1).uses_lods());
    assert!(!MinFilter::from_bits(1).is_linear());
    assert_eq!(MinFilter::from_bits(0xB), MinFilter::Reserved0);
    assert!(Format::from_bits(6).is_direct());
    assert!(!Format::from_bits(8).is_direct());
    assert!(!Format::from_bits(10).is_direct());
    assert_eq!(Format::from_bits(0xE), Format::Cmp);
    assert_eq!(WrapMode::from_bits(5), WrapMode::Repeat);
    assert_eq!(ClutFormat::from_bits(2), ClutFormat::RGB5A3);
}

#[test]
fn encoding_fields() {
    let e = encoding(640, 480, 4);
    assert_eq!(e.width(), 640);
    assert_eq!(e.height(), 480);
    assert_eq!(e.format(), Format::Rgb565);
    assert_eq!(e.lod_count(), 9);
}

#[test]
fn texture_lengths_pad_to_blocks() {
    assert_eq!(Encoding::length_for(640, 480, Format::Rgb565), 640 * 480 * 2);
    assert_eq!(Encoding::length_for(3, 3, Format::I4), 8 * 8 / 2);
    assert_eq!(Encoding::length_for(9, 5, Format::I8), 16 * 8);
    assert_eq!(Encoding::length_for(1, 1, Format::Rgba8), 4 * 4 * 4);
    assert_eq!(Encoding::length_for(5, 5, Format::CI4), 12);
    assert_eq!(Encoding::length_for(5, 5, Format::CI8), 25);
    assert_eq!(Encoding::length_for(16, 16, Format::Cmp), 128);
}

#[test]
fn mipmap_length_sums_levels() {
    let e = encoding(8, 8, 6);
    assert_eq!(e.lod_count(), 4);
    assert_eq!(e.length(), 256);
    assert_eq!(e.length_mipmap(), 256 + 64 + 64 + 64);
    let e = encoding(1024, 1024, 0);
    assert_eq!(e.lod_count(), 11);
}

#[test]
fn scales() {
    let u = ScaleU(0x000F_1234);
    assert_eq!(u.scale_minus_one(), 0x1234);
    assert!(u.range_bias_enable());
    assert!(u.cylindrical_wrapping());
    assert!(u.offset_lines());
    assert!(u.offset_points());
    let v = ScaleV(0x0001_0002);
    assert_eq!(v.scale_minus_one(), 2);
    assert!(v.range_bias_enable());
    assert!(!v.cylindrical_wrapping());
}

#[test]
fn cache_reports_unchanged_data() {
    let mut cache = Interface::new();
    assert!(!cache.is_tex_dirty(0x1000, &[1, 2, 3]));
    assert!(cache.is_tex_dirty(0x1000, &[1, 2, 3]));
    assert!(!cache.is_tex_dirty(0x1000, &[1, 2, 4]));
    assert!(cache.is_tex_dirty(0x1000, &[1, 2, 4]));
    assert!(!cache.is_clut_dirty(0x2000, &[1, 2, 4]));
    assert!(cache.is_tex_dirty(0x2000, &[1, 2, 4]));
}

fn mip_map(sampler: u32) -> TextureMap {
    TextureMap {
        address: 0x100,
        // 8 by 8, I8.
        encoding: Encoding(7 | (7 << 10) | (1 << 20)),
        sampler: Sampler(sampler),
        scaling: Scaling { u: ScaleU(0), v: ScaleV(0) },
        clut: LutRef(0x812),
        dirty: false,
    }
}

#[test]
fn sampler_fields() {
    let s = Sampler(0x0028_1E25);
    assert_eq!(s.wrap_u(), WrapMode::Repeat);
    assert_eq!(s.wrap_v(), WrapMode::Repeat);
    assert!(!s.mag_linear());
    assert_eq!(s.min_filter(), MinFilter::NearMipNear);
    assert!(!s.diagonal_lod());
    assert_eq!(s.lod_bias(), 0x0F);
    assert_eq!(s.max_anisotropy_log2(), 1);
    assert!(s.lod_and_bias_clamp());
    assert_eq!(ClutLoad(0x405).tmem_offset(), 5);
    assert_eq!(ClutLoad(0x405).count(), 1);
    assert_eq!(LutRef(0x812).tmem_offset(), 0x12);
    assert_eq!(LutRef(0x812).format(), ClutFormat::RGB5A3);
}

#[test]
fn update_texture_loads_every_level_once() {
    let mut ram = vec![0u8; 4096];
    let mut tex = Interface::new();
    tex.maps[3] = mip_map(0x20);
    let update = update_texture(&mut tex, 3, &ram);
    let load = update.load.expect("a texture never seen is loaded");
    assert_eq!((load.id, load.width, load.height, load.format, load.base), (0x100, 8, 8, Format::I8, 0x100));
    assert_eq!(
        load.levels,
        vec![
            LodLevel { offset: 0, width: 8, height: 8, length: 64 },
            LodLevel { offset: 64, width: 4, height: 4, length: 32 },
            LodLevel { offset: 96, width: 2, height: 2, length: 32 },
            LodLevel { offset: 128, width: 1, height: 1, length: 32 },
        ]
    );
    assert_eq!(
        update.slot,
        TextureSlot {
            slot: 3,
            texture_id: 0x100,
            sampler: Sampler(0x20),
            scaling: Scaling { u: ScaleU(0), v: ScaleV(0) },
            clut_addr: 0x12,
            clut_fmt: ClutFormat::RGB5A3,
        }
    );
    // The same data again is not loaded again.
    assert_eq!(update_texture(&mut tex, 3, &ram).load, None);
    // A change past the last level is not read.
    ram[0x100 + 160] = 1;
    assert_eq!(update_texture(&mut tex, 3, &ram).load, None);
    // A change in the last level is.
    ram[0x100 + 159] = 1;
    assert!(update_texture(&mut tex, 3, &ram).load.is_some());
}

#[test]
fn update_texture_without_mipmaps_reads_one_level() {
    let mut ram = vec![0u8; 4096];
    let mut tex = Interface::new();
    tex.maps[0] = mip_map(0x80);
    let load = update_texture(&mut tex, 0, &ram).load.expect("loaded");
    assert_eq!(load.levels, vec![LodLevel { offset: 0, width: 8, height: 8, length: 64 }]);
    ram[0x100 + 64] = 9;
    assert_eq!(update_texture(&mut tex, 0, &ram).load, None);
}

#[test]
fn update_clut_reads_big_endian_entries() {
    let mut ram = vec![0u8; 1024];
    ram[256] = 0x12;
    ram[257] = 0x34;
    ram[286] = 0xAB;
    ram[287] = 0xCD;
    let mut tex = Interface::new();
    // The base wraps: its bits from 26 up are dropped.
    tex.clut_base = 0x0800_0008;
    tex.clut_load = ClutLoad(0x405);
    let upload = update_clut(&mut tex, &ram).expect("new palette");
    assert_eq!(upload.addr, 5);
    let mut expected = vec![0u16; 16];
    expected[0] = 0x1234;
    expected[15] = 0xABCD;
    assert_eq!(upload.entries, expected);
    tex.clut_base = 8;
    assert_eq!(update_clut(&mut tex, &ram), None);
}
