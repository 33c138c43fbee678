//! Pixel formats and the conversions between them.
use vstd::prelude::*;

verus! {

/// Rescales `value` from the range `0..=old_max` to the range `0..=new_max`, rounding to
/// nearest.
pub open spec fn rescale(value: int, old_max: int, new_max: int) -> int {
    (value * new_max + old_max / 2) / old_max
}

/// Converts a value in range `0..=OLD_MAX` to a value in the range `0..=NEW_MAX`.
pub fn convert_range<const OLD_MAX: u32, const NEW_MAX: u32>(value: u8) -> (r: u8)
    requires
        OLD_MAX != 0,
        OLD_MAX <= 255,
        NEW_MAX <= 255,
    ensures
        r == rescale(value as int, OLD_MAX as int, NEW_MAX as int) % 256,
        value <= OLD_MAX ==> r == rescale(value as int, OLD_MAX as int, NEW_MAX as int),
        value <= OLD_MAX ==> r <= NEW_MAX,
{
    let v = value as u32;
    assert(v * NEW_MAX <= 255 * 255) by (nonlinear_arith)
        requires
            v <= 255,
            NEW_MAX <= 255,
    ;
    let q = (v * NEW_MAX + OLD_MAX / 2) / OLD_MAX;
    proof {
        lemma_rescale_bound(v as int, OLD_MAX as int, NEW_MAX as int);
    }
    (q % 256) as u8
}

proof fn lemma_rescale_bound(v: int, old_max: int, new_max: int)
    requires
        0 <= v <= 255,
        0 < old_max <= 255,
        0 <= new_max <= 255,
    ensures
        rescale(v, old_max, new_max) >= 0,
        v <= old_max ==> rescale(v, old_max, new_max) <= new_max,
{
    assert(v * new_max >= 0) by (nonlinear_arith)
        requires
            v >= 0,
            new_max >= 0,
    ;
    if v <= old_max {
        assert(v * new_max <= old_max * new_max) by (nonlinear_arith)
            requires
                v <= old_max,
                new_max >= 0,
        ;
        assert((v * new_max + old_max / 2) / old_max <= new_max) by (nonlinear_arith)
            requires
                v * new_max <= old_max * new_max,
                old_max > 0,
                new_max >= 0,
        ;
    }
}

/// Widens a 5 bit value to 8 bits by replicating its high bits.
fn fast_range_conv_31_to_255(value: u8) -> (r: u8)
    requires
        value <= 31,
    ensures
        r == (value << 3u8) | (value >> 2u8),
{
    (value << 3) | (value >> 2)
}

/// Widens a 6 bit value to 8 bits by replicating its high bits.
fn fast_range_conv_63_to_255(value: u8) -> (r: u8)
    requires
        value <= 63,
    ensures
        r == (value << 2u8) | (value >> 4u8),
{
    (value << 2) | (value >> 4)
}

/// Narrows an 8 bit value to 5 bits by dropping its low bits.
fn fast_range_conv_255_to_31(value: u8) -> (r: u8)
    ensures
        r == value / 8,
{
    proof {
        lemma_shr_is_div(value);
    }
    value >> 3
}

/// Narrows an 8 bit value to 6 bits by dropping its low bits.
fn fast_range_conv_255_to_63(value: u8) -> (r: u8)
    ensures
        r == value / 4,
{
    proof {
        lemma_shr_is_div(value);
    }
    value >> 2
}

proof fn lemma_shr_is_div(x: u8)
    by (bit_vector)
    ensures
        x >> 3u8 == x / 8,
        x >> 2u8 == x / 4,
{
}

/// A single RGBA8 pixel.
#[derive(Debug, Clone, Copy, PartialEq, Eq, Hash, Default)]
pub struct Rgba8 {
    pub r: u8,
    pub g: u8,
    pub b: u8,
    pub a: u8,
}

/// The pixel that an RGB565 value stands for.
pub open spec fn spec_from_rgb565(value: u16) -> Rgba8 {
    Rgba8 {
        r: rescale(((value >> 11u16) & 0x1f) as int, 31, 255) as u8,
        g: rescale(((value >> 5u16) & 0x3f) as int, 63, 255) as u8,
        b: rescale((value & 0x1f) as int, 31, 255) as u8,
        a: 255,
    }
}

/// The RGB565 value of a pixel, alpha dropped.
pub open spec fn spec_to_rgb565(c: Rgba8) -> u16 {
    let r = rescale(c.r as int, 255, 31) as u16;
    let g = rescale(c.g as int, 255, 63) as u16;
    let b = rescale(c.b as int, 255, 31) as u16;
    b | (g << 5u16) | (r << 11u16)
}

/// The pixel that an RGB5A3 value stands for.
pub open spec fn spec_from_rgb5a3(value: u16) -> Rgba8 {
    if (value >> 15u16) & 1 == 1 {
        Rgba8 {
            r: rescale(((value >> 10u16) & 0x1f) as int, 31, 255) as u8,
            g: rescale(((value >> 5u16) & 0x1f) as int, 31, 255) as u8,
            b: rescale((value & 0x1f) as int, 31, 255) as u8,
            a: 255,
        }
    } else {
        Rgba8 {
            r: rescale(((value >> 8u16) & 0xf) as int, 15, 255) as u8,
            g: rescale(((value >> 4u16) & 0xf) as int, 15, 255) as u8,
            b: rescale((value & 0xf) as int, 15, 255) as u8,
            a: (((value >> 12u16) & 0x7) * 32) as u8,
        }
    }
}

/// The RGB5A3 value of a pixel: opaque pixels keep 5 bits per channel, the others 4 bits per
/// channel and 3 bits of alpha.
pub open spec fn spec_to_rgb5a3(c: Rgba8) -> u16 {
    if c.a == 255 {
        let r = rescale(c.r as int, 255, 31) as u16;
        let g = rescale(c.g as int, 255, 31) as u16;
        let b = rescale(c.b as int, 255, 31) as u16;
        b | (g << 5u16) | (r << 10u16) | 0x8000u16
    } else {
        let r = rescale(c.r as int, 255, 15) as u16;
        let g = rescale(c.g as int, 255, 15) as u16;
        let b = rescale(c.b as int, 255, 15) as u16;
        let a = (c.a / 32) as u16;
        b | (g << 4u16) | (r << 8u16) | (a << 12u16)
    }
}

impl Rgba8 {
    /// Decodes an IA8 value: the low byte is alpha, the high byte is the intensity of every
    /// color channel.
    pub fn from_ia8(value: u16) -> (c: Self)
        ensures
            c.r == value / 256,
            c.g == value / 256,
            c.b == value / 256,
            c.a == value % 256,
    {
        let alpha = (value & 0xff) as u8;
        let intensity = (value >> 8) as u8;
        proof {
            lemma_split_join16(value);
        }
        Self { r: intensity, g: intensity, b: intensity, a: alpha }
    }

    /// Decodes an RGB565 value, rescaling every channel to 8 bits with rounding.
    pub fn from_rgb565(value: u16) -> (c: Self)
        ensures
            c == spec_from_rgb565(value),
    {
        proof {
            lemma_split_join16(value);
        }
        Self {
            r: convert_range::<31, 255>(((value >> 11) & 0x1f) as u8),
            g: convert_range::<63, 255>(((value >> 5) & 0x3f) as u8),
            b: convert_range::<31, 255>((value & 0x1f) as u8),
            a: 255,
        }
    }

    /// Decodes an RGB565 value, widening every channel to 8 bits by replicating its high bits.
    pub fn from_rgb565_fast(value: u16) -> (c: Self)
        ensures
            c.r == (((value >> 11u16) & 0x1f) as u8) << 3u8 | (((value >> 11u16) & 0x1f) as u8) >> 2u8,
            c.g == (((value >> 5u16) & 0x3f) as u8) << 2u8 | (((value >> 5u16) & 0x3f) as u8) >> 4u8,
            c.b == ((value & 0x1f) as u8) << 3u8 | ((value & 0x1f) as u8) >> 2u8,
            c.a == 255,
    {
        proof {
            lemma_split_join16(value);
        }
        Self {
            r: fast_range_conv_31_to_255(((value >> 11) & 0x1f) as u8),
            g: fast_range_conv_63_to_255(((value >> 5) & 0x3f) as u8),
            b: fast_range_conv_31_to_255((value & 0x1f) as u8),
            a: 255,
        }
    }

    /// Encodes this pixel as RGB565, rescaling every channel with rounding.
    pub fn to_rgb565(self) -> (v: u16)
        ensures
            v == spec_to_rgb565(self),
    {
        let r = convert_range::<255, 31>(self.r);
        let g = convert_range::<255, 63>(self.g);
        let b = convert_range::<255, 31>(self.b);
        (b as u16) | ((g as u16) << 5) | ((r as u16) << 11)
    }

    /// Encodes this pixel as RGB565, dropping the low bits of every channel.
    pub fn to_rgb565_fast(self) -> (v: u16)
        ensures
            v == ((self.b / 8) as u16) | (((self.g / 4) as u16) << 5u16) | (((self.r / 8) as u16) << 11u16),
    {
        let r = fast_range_conv_255_to_31(self.r);
        let g = fast_range_conv_255_to_63(self.g);
        let b = fast_range_conv_255_to_31(self.b);
        (b as u16) | ((g as u16) << 5) | ((r as u16) << 11)
    }

    /// Decodes an RGB5A3 value: with bit 15 set, an opaque RGB555 pixel; otherwise an RGB444
    /// pixel with 3 bits of alpha.
    pub fn from_rgb5a3(value: u16) -> (c: Self)
        ensures
            c == spec_from_rgb5a3(value),
    {
        proof {
            lemma_split_join16(value);
        }
        if (value >> 15) & 1 == 1 {
            Rgba8 {
                r: convert_range::<31, 255>(((value >> 10) & 0x1f) as u8),
                g: convert_range::<31, 255>(((value >> 5) & 0x1f) as u8),
                b: convert_range::<31, 255>((value & 0x1f) as u8),
                a: 255,
            }
        } else {
            Rgba8 {
                r: convert_range::<15, 255>(((value >> 8) & 0xf) as u8),
                g: convert_range::<15, 255>(((value >> 4) & 0xf) as u8),
                b: convert_range::<15, 255>((value & 0xf) as u8),
                a: ((value >> 12) & 0x7) as u8 * 32,
            }
        }
    }

    /// Encodes this pixel as RGB5A3.
    pub fn to_rgb5a3(self) -> (v: u16)
        ensures
            v == spec_to_rgb5a3(self),
    {
        if self.a == 255 {
            let r = convert_range::<255, 31>(self.r);
            let g = convert_range::<255, 31>(self.g);
            let b = convert_range::<255, 31>(self.b);
            (b as u16) | ((g as u16) << 5) | ((r as u16) << 10) | 0x8000
        } else {
            let r = convert_range::<255, 15>(self.r);
            let g = convert_range::<255, 15>(self.g);
            let b = convert_range::<255, 15>(self.b);
            let a = self.a / 32;
            (b as u16) | ((g as u16) << 4) | ((r as u16) << 8) | ((a as u16) << 12)
        }
    }

    /// A cheap approximation of the luma of this pixel.
    pub fn fast_y(self) -> (y: u8)
        ensures
            y == self.r / 4 + self.g / 2 + self.b / 8 + 16,
    {
        let (r, g, b) = (self.r as u16, self.g as u16, self.b as u16);
        let sum = r / 4 + g / 2 + b / 8 + 16;
        let clamped = if sum < 255 { sum } else { 255 };
        clamped as u8
    }
}

/// A single pixel with its channels in ABGR order.
#[derive(Debug, Clone, Copy, Default)]
pub struct Abgr8 {
    pub a: u8,
    pub b: u8,
    pub g: u8,
    pub r: u8,
}

/// A single pixel with 16 bit signed channels.
#[derive(Debug, Clone, Copy, PartialEq, Eq, Hash, Default)]
pub struct Rgba16 {
    pub r: i16,
    pub g: i16,
    pub b: i16,
    pub a: i16,
}

} // verus!

verus! {

/// Rescaling a channel up to 8 bits and back down gives it back unchanged.
proof fn lemma_rescale_roundtrip(x: u32)
    ensures
        x <= 31 ==> (((x * 255 + 15) / 31) * 31 + 127) / 255 == x,
        x <= 63 ==> (((x * 255 + 31) / 63) * 63 + 127) / 255 == x,
        x <= 15 ==> (((x * 255 + 7) / 15) * 15 + 127) / 255 == x,
        x <= 31 ==> (x * 255 + 15) / 31 <= 255,
        x <= 63 ==> (x * 255 + 31) / 63 <= 255,
        x <= 15 ==> (x * 255 + 7) / 15 <= 255,
{
}

/// Splitting a 16 bit value into its fields and joining them again gives it back.
proof fn lemma_split_join16(v: u16)
    by (bit_vector)
    ensures
        v == (v & 0x1f) | (((v >> 5u16) & 0x3f) << 5u16) | (((v >> 11u16) & 0x1f) << 11u16),
        (v >> 15u16) & 1 == 1 ==> v == (v & 0x1f) | (((v >> 5u16) & 0x1f) << 5u16) | (((v
            >> 10u16) & 0x1f) << 10u16) | 0x8000u16,
        (v >> 15u16) & 1 != 1 ==> v == (v & 0xf) | (((v >> 4u16) & 0xf) << 4u16) | (((v >> 8u16)
            & 0xf) << 8u16) | (((v >> 12u16) & 0x7) << 12u16),
        (v >> 11u16) & 0x1f <= 31,
        (v >> 5u16) & 0x3f <= 63,
        (v >> 10u16) & 0x1f <= 31,
        (v >> 5u16) & 0x1f <= 31,
        v & 0x1f <= 31,
        (v >> 8u16) & 0xf <= 15,
        (v >> 4u16) & 0xf <= 15,
        v & 0xf <= 15,
        (v >> 12u16) & 0x7 <= 7,
        v & 0xff == v % 256,
        v >> 8u16 == v / 256,
{
}

/// Widening a field by replicating its high bits and narrowing it again gives it back.
proof fn lemma_fast_roundtrip(x: u8)
    by (bit_vector)
    ensures
        x <= 31 ==> ((x << 3u8) | (x >> 2u8)) / 8 == x,
        x <= 63 ==> ((x << 2u8) | (x >> 4u8)) / 4 == x,
        x <= 31 ==> (x << 3u8) | (x >> 2u8) == x * 8 + x / 4,
        x <= 63 ==> (x << 2u8) | (x >> 4u8) == x * 4 + x / 16,
{
}

/// Widening a 5 or 6 bit field by replicating its high bits is within one of rescaling it
/// with rounding, and agrees with it at both ends of the range.
proof fn lemma_fast_near(x: u8)
    ensures
        x <= 31 ==> {
            let f = ((x << 3u8) | (x >> 2u8)) as int;
            let e = rescale(x as int, 31, 255);
            &&& -1 <= f - e <= 1
            &&& x == 0 ==> f == 0 && e == 0
            &&& x == 31 ==> f == 255 && e == 255
        },
        x <= 63 ==> {
            let f = ((x << 2u8) | (x >> 4u8)) as int;
            let e = rescale(x as int, 63, 255);
            &&& -1 <= f - e <= 1
            &&& x == 0 ==> f == 0 && e == 0
            &&& x == 63 ==> f == 255 && e == 255
        },
{
    lemma_fast_roundtrip(x);
    let v = x as int;
    if x <= 31 {
        assert(rescale(v, 31, 255) == 8 * v + (7 * v + 15) / 31) by {
            assert(v * 255 + 31int / 2 == 31 * (8 * v) + (7 * v + 15));
        }
        assert(-1 <= v / 4 - (7 * v + 15) / 31 <= 1);
    }
    if x <= 63 {
        assert(rescale(v, 63, 255) == 4 * v + (3 * v + 31) / 63) by {
            assert(v * 255 + 63int / 2 == 63 * (4 * v) + (3 * v + 31));
        }
        assert(-1 <= v / 16 - (3 * v + 31) / 63 <= 1);
    }
}

/// The quick RGB565 decoder is within one of the exact one on every channel, and agrees with
/// it at both ends of each channel's range: a zero field gives 0 and an all-ones field 255.
pub proof fn law_rgb565_fast_near_exact(v: u16)
    ensures
        ({
            let r = ((v >> 11u16) & 0x1f) as u8;
            let g = ((v >> 5u16) & 0x3f) as u8;
            let b = (v & 0x1f) as u8;
            let fast = Rgba8 {
                r: (r << 3u8) | (r >> 2u8),
                g: (g << 2u8) | (g >> 4u8),
                b: (b << 3u8) | (b >> 2u8),
                a: 255,
            };
            let exact = spec_from_rgb565(v);
            &&& fast.a == exact.a
            &&& -1 <= fast.r - exact.r <= 1
            &&& -1 <= fast.g - exact.g <= 1
            &&& -1 <= fast.b - exact.b <= 1
            &&& (r == 0 ==> fast.r == 0 && exact.r == 0) && (r == 31 ==> fast.r == 255 && exact.r == 255)
            &&& (g == 0 ==> fast.g == 0 && exact.g == 0) && (g == 63 ==> fast.g == 255 && exact.g == 255)
            &&& (b == 0 ==> fast.b == 0 && exact.b == 0) && (b == 31 ==> fast.b == 255 && exact.b == 255)
        }),
{
    lemma_split_join16(v);
    let r = ((v >> 11u16) & 0x1f) as u8;
    let g = ((v >> 5u16) & 0x3f) as u8;
    let b = (v & 0x1f) as u8;
    lemma_fast_near(r);
    lemma_fast_near(g);
    lemma_fast_near(b);
    lemma_rescale_bound(r as int, 31, 255);
    lemma_rescale_bound(g as int, 63, 255);
    lemma_rescale_bound(b as int, 31, 255);
}

/// Encoding a decoded RGB565 value as RGB565 gives back the value.
pub proof fn law_rgb565_roundtrip(v: u16)
    ensures
        spec_to_rgb565(spec_from_rgb565(v)) == v,
{
    let r = (v >> 11u16) & 0x1f;
    let g = (v >> 5u16) & 0x3f;
    let b = v & 0x1f;
    lemma_split_join16(v);
    lemma_rescale_roundtrip(r as u32);
    lemma_rescale_roundtrip(g as u32);
    lemma_rescale_roundtrip(b as u32);
}

/// Encoding a decoded RGB5A3 value as RGB5A3 gives back the value, for opaque and translucent
/// values alike.
pub proof fn law_rgb5a3_roundtrip(v: u16)
    ensures
        spec_to_rgb5a3(spec_from_rgb5a3(v)) == v,
{
    lemma_split_join16(v);
    if (v >> 15u16) & 1 == 1 {
        lemma_rescale_roundtrip(((v >> 10u16) & 0x1f) as u32);
        lemma_rescale_roundtrip(((v >> 5u16) & 0x1f) as u32);
        lemma_rescale_roundtrip((v & 0x1f) as u32);
    } else {
        lemma_rescale_roundtrip(((v >> 8u16) & 0xf) as u32);
        lemma_rescale_roundtrip(((v >> 4u16) & 0xf) as u32);
        lemma_rescale_roundtrip((v & 0xf) as u32);
    }
}

/// Encoding a quickly decoded RGB565 value with the quick encoder gives back the value.
pub proof fn law_rgb565_fast_roundtrip(v: u16)
    ensures
        ({
            let r = ((v >> 11u16) & 0x1f) as u8;
            let g = ((v >> 5u16) & 0x3f) as u8;
            let b = (v & 0x1f) as u8;
            let c = Rgba8 {
                r: (r << 3u8) | (r >> 2u8),
                g: (g << 2u8) | (g >> 4u8),
                b: (b << 3u8) | (b >> 2u8),
                a: 255,
            };
            ((c.b / 8) as u16) | (((c.g / 4) as u16) << 5u16) | (((c.r / 8) as u16) << 11u16) == v
        }),
{
    lemma_split_join16(v);
    lemma_fast_roundtrip(((v >> 11u16) & 0x1f) as u8);
    lemma_fast_roundtrip(((v >> 5u16) & 0x3f) as u8);
    lemma_fast_roundtrip((v & 0x1f) as u8);
}

} // verus!

verus! {

/// The fields of a value joined from RGB5A3 fields read back as those fields.
proof fn lemma_join_rgb5a3(b: u16, g: u16, r: u16, a: u16)
    by (bit_vector)
    ensures
        b <= 15 && g <= 15 && r <= 15 && a <= 7 ==> {
            let v = b | (g << 4u16) | (r << 8u16) | (a << 12u16);
            &&& (v >> 15u16) & 1 == 0
            &&& v & 0xf == b
            &&& (v >> 4u16) & 0xf == g
            &&& (v >> 8u16) & 0xf == r
            &&& (v >> 12u16) & 0x7 == a
        },
        b <= 31 && g <= 31 && r <= 31 ==> {
            let v = b | (g << 5u16) | (r << 10u16) | 0x8000u16;
            &&& (v >> 15u16) & 1 == 1
            &&& v & 0x1f == b
            &&& (v >> 5u16) & 0x1f == g
            &&& (v >> 10u16) & 0x1f == r
        },
{
}

/// How RGB5A3 lays out a pixel. With bit 15 clear (translucent) red sits in bits 8..12,
/// green in bits 4..8 and blue in bits 0..4, each scaled by 17 to 8 bits, and alpha in bits
/// 12..15, scaled by 32. With bit 15 set (opaque) alpha is 255, and red sits in bits 10..15,
/// green in bits 5..10 and blue in bits 0..5: the top five bits of each 8 bit channel.
pub proof fn law_rgb5a3_channels(v: u16)
    ensures
        (v >> 15u16) & 1 == 0 ==> {
            let c = spec_from_rgb5a3(v);
            &&& c.r == 17 * ((v >> 8u16) & 0xf)
            &&& c.g == 17 * ((v >> 4u16) & 0xf)
            &&& c.b == 17 * (v & 0xf)
            &&& c.a == 32 * ((v >> 12u16) & 0x7)
        },
        (v >> 15u16) & 1 == 1 ==> {
            let c = spec_from_rgb5a3(v);
            &&& c.a == 255
            &&& c.r / 8 == (v >> 10u16) & 0x1f
            &&& c.g / 8 == (v >> 5u16) & 0x1f
            &&& c.b / 8 == v & 0x1f
        },
{
    lemma_split_join16(v);
    lemma_rescale_roundtrip(((v >> 8u16) & 0xf) as u32);
    lemma_rescale_roundtrip(((v >> 4u16) & 0xf) as u32);
    lemma_rescale_roundtrip((v & 0xf) as u32);
    lemma_rescale_roundtrip(((v >> 10u16) & 0x1f) as u32);
    lemma_rescale_roundtrip(((v >> 5u16) & 0x1f) as u32);
    lemma_rescale_roundtrip((v & 0x1f) as u32);
}

/// Rescaling an 8 bit channel to 4 bits and back by 17 is off by at most 8; to 5 bits and
/// back, by at most 4.
proof fn lemma_channel_near(x: u8)
    ensures
        rescale(x as int, 255, 15) <= 15,
        rescale(x as int, 255, 31) <= 31,
        -8 <= 17 * rescale(x as int, 255, 15) - x <= 8,
        -4 <= rescale(rescale(x as int, 255, 31), 31, 255) - x <= 4,
{
    let q4 = rescale(x as int, 255, 15);
    let q5 = rescale(x as int, 255, 31);
    lemma_rescale_bound(x as int, 255, 15);
    lemma_rescale_bound(x as int, 255, 31);
    assert(255 * q4 <= 15 * x + 127 < 255 * q4 + 255);
    let back = rescale(q5, 31, 255);
    assert(255 * q5 <= 31 * x + 127 < 255 * q5 + 255);
    assert(31 * back <= 255 * q5 + 15 < 31 * back + 31);
}

/// Encoding a pixel as RGB5A3 and decoding it keeps every channel close: a pixel with alpha
/// 255 comes back opaque with every color channel within 4; any other comes back with its
/// alpha cut to a multiple of 32 and every color channel within 8.
pub proof fn law_rgb5a3_encode_decode(c: Rgba8)
    ensures
        ({
            let d = spec_from_rgb5a3(spec_to_rgb5a3(c));
            &&& c.a == 255 ==> {
                &&& d.a == 255
                &&& -4 <= d.r - c.r <= 4
                &&& -4 <= d.g - c.g <= 4
                &&& -4 <= d.b - c.b <= 4
            }
            &&& c.a != 255 ==> {
                &&& d.a == c.a / 32 * 32
                &&& -8 <= d.r - c.r <= 8
                &&& -8 <= d.g - c.g <= 8
                &&& -8 <= d.b - c.b <= 8
            }
        }),
{
    lemma_channel_near(c.r);
    lemma_channel_near(c.g);
    lemma_channel_near(c.b);
    let v = spec_to_rgb5a3(c);
    if c.a == 255 {
        let r = rescale(c.r as int, 255, 31) as u16;
        let g = rescale(c.g as int, 255, 31) as u16;
        let b = rescale(c.b as int, 255, 31) as u16;
        lemma_join_rgb5a3(b, g, r, 0);
        lemma_rescale_bound(r as int, 31, 255);
        lemma_rescale_bound(g as int, 31, 255);
        lemma_rescale_bound(b as int, 31, 255);
    } else {
        let r = rescale(c.r as int, 255, 15) as u16;
        let g = rescale(c.g as int, 255, 15) as u16;
        let b = rescale(c.b as int, 255, 15) as u16;
        let a = (c.a / 32) as u16;
        lemma_join_rgb5a3(b, g, r, a);
        law_rgb5a3_channels(v);
    }
}

} // verus!
