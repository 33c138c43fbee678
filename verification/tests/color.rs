use lazuli::color::{convert_range, Rgba8};

#[test]
fn convert_range_scales_to_full_byte() {
    assert_eq!(convert_range::<31, 255>(31), 255);
    assert_eq!(convert_range::<31, 255>(0), 0);
    assert_eq!(convert_range::<31, 255>(16), 132);
    assert_eq!(convert_range::<255, 31>(255), 31);
    assert_eq!(convert_range::<255, 63>(128), 32);
}

#[test]
fn ia8_splits_intensity_and_alpha() {
    let c = Rgba8::from_ia8(0x80FF);
    assert_eq!(c, Rgba8 { r: 0x80, g: 0x80, b: 0x80, a: 0xFF });
}

#[test]
fn rgb565_decodes_channels() {
    let c = Rgba8::from_rgb565(0xF800);
    assert_eq!(c, Rgba8 { r: 255, g: 0, b: 0, a: 255 });
    let c = Rgba8::from_rgb565(0x07E0);
    assert_eq!(c, Rgba8 { r: 0, g: 255, b: 0, a: 255 });
}

#[test]
fn rgb565_roundtrip_all_values() {
    for v in 0..=u16::MAX {
        assert_eq!(Rgba8::from_rgb565(v).to_rgb565(), v);
        assert_eq!(Rgba8::from_rgb565_fast(v).to_rgb565_fast(), v);
    }
}

#[test]
fn rgb5a3_roundtrip_all_values() {
    for v in 0..=u16::MAX {
        assert_eq!(Rgba8::from_rgb5a3(v).to_rgb5a3(), v);
    }
}

#[test]
fn rgb5a3_translucent_alpha() {
    let c = Rgba8::from_rgb5a3(0x3000);
    assert_eq!(c.a, 96);
    assert_eq!(c.r, 0);
}

#[test]
fn fast_y_of_white_and_black() {
    assert_eq!(Rgba8 { r: 0, g: 0, b: 0, a: 255 }.fast_y(), 16);
    assert_eq!(Rgba8 { r: 255, g: 255, b: 255, a: 255 }.fast_y(), 237);
    assert_eq!(Rgba8 { r: 100, g: 50, b: 16, a: 0 }.fast_y(), 25 + 25 + 2 + 16);
}

#[test]
fn quick_rgb565_is_within_one_of_exact() {
    for v in 0..=u16::MAX {
        let e = Rgba8::from_rgb565(v);
        let f = Rgba8::from_rgb565_fast(v);
        assert_eq!(f.a, 255);
        assert!((f.r as i16 - e.r as i16).abs() <= 1);
        assert!((f.g as i16 - e.g as i16).abs() <= 1);
        assert!((f.b as i16 - e.b as i16).abs() <= 1);
    }
    assert_eq!(Rgba8::from_rgb565_fast(0xFFFF), Rgba8::from_rgb565(0xFFFF));
    assert_eq!(Rgba8::from_rgb565_fast(0), Rgba8::from_rgb565(0));
}
