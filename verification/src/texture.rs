//! Texture unit (TX): texture formats and their sizes, sampler settings, and the cache that
//! tells whether texture data changed since it was last seen.
use std::collections::HashMap;
use vstd::prelude::*;

verus! {

broadcast use vstd::std_specs::hash::group_hash_axioms;

/// How texture coordinates outside the texture wrap.
#[derive(Debug, Clone, Copy, PartialEq, Eq, Structural)]
pub enum WrapMode {
    Clamp,
    Repeat,
    Mirror,
    Reserved,
}

/// The wrap mode numbered `n` (0 to 3).
pub open spec fn wrap_mode_of(n: u32) -> WrapMode {
    if n == 0 {
        WrapMode::Clamp
    } else if n == 1 {
        WrapMode::Repeat
    } else if n == 2 {
        WrapMode::Mirror
    } else {
        WrapMode::Reserved
    }
}

impl WrapMode {
    /// The wrap mode numbered by the two low bits of `bits`.
    pub fn from_bits(bits: u32) -> (r: WrapMode)
        ensures
            r == wrap_mode_of(bits & 3),
    {
        let b = bits & 3;
        if b == 0 {
            WrapMode::Clamp
        } else if b == 1 {
            WrapMode::Repeat
        } else if b == 2 {
            WrapMode::Mirror
        } else {
            WrapMode::Reserved
        }
    }
}

/// The filter used when a texture is minified.
#[derive(Debug, Clone, Copy, PartialEq, Eq, Structural)]
pub enum MinFilter {
    Near,
    NearMipNear,
    NearMipLinear,
    Reserved0,
    Linear,
    LinearMipNear,
    LinearMipLinear,
    Reserved,
}

/// The filter numbered `n` (0 to 7).
pub open spec fn min_filter_of(n: u32) -> MinFilter {
    if n == 0 {
        MinFilter::Near
    } else if n == 1 {
        MinFilter::NearMipNear
    } else if n == 2 {
        MinFilter::NearMipLinear
    } else if n == 3 {
        MinFilter::Reserved0
    } else if n == 4 {
        MinFilter::Linear
    } else if n == 5 {
        MinFilter::LinearMipNear
    } else if n == 6 {
        MinFilter::LinearMipLinear
    } else {
        MinFilter::Reserved
    }
}

impl MinFilter {
    /// The filter numbered by the three low bits of `bits`.
    pub fn from_bits(bits: u32) -> (r: MinFilter)
        ensures
            r == min_filter_of(bits & 7),
    {
        let b = bits & 7;
        if b == 0 {
            MinFilter::Near
        } else if b == 1 {
            MinFilter::NearMipNear
        } else if b == 2 {
            MinFilter::NearMipLinear
        } else if b == 3 {
            MinFilter::Reserved0
        } else if b == 4 {
            MinFilter::Linear
        } else if b == 5 {
            MinFilter::LinearMipNear
        } else if b == 6 {
            MinFilter::LinearMipLinear
        } else {
            MinFilter::Reserved
        }
    }

    /// Whether the filter interpolates between texels.
    pub fn is_linear(&self) -> (r: bool)
        ensures
            r == (*self == MinFilter::Linear || *self == MinFilter::LinearMipNear || *self
                == MinFilter::LinearMipLinear),
    {
        match self {
            MinFilter::Linear | MinFilter::LinearMipNear | MinFilter::LinearMipLinear => true,
            _ => false,
        }
    }

    /// Whether the filter reads mipmap levels.
    pub fn uses_lods(&self) -> (r: bool)
        ensures
            r == (*self == MinFilter::NearMipNear || *self == MinFilter::NearMipLinear || *self
                == MinFilter::LinearMipNear || *self == MinFilter::LinearMipLinear),
    {
        match self {
            MinFilter::NearMipNear | MinFilter::NearMipLinear | MinFilter::LinearMipNear
            | MinFilter::LinearMipLinear => true,
            _ => false,
        }
    }
}

/// The texel formats of textures.
#[derive(Debug, Clone, Copy, PartialEq, Eq, Structural)]
pub enum Format {
    I4,
    I8,
    IA4,
    IA8,
    Rgb565,
    Rgb5A3,
    Rgba8,
    Reserved0,
    CI4,
    CI8,
    CI14X2,
    Reserved1,
    Reserved2,
    Reserved3,
    Cmp,
    Reserved4,
}

/// The format numbered `n` (0 to 15).
pub open spec fn format_of(n: u32) -> Format {
    if n == 0 {
        Format::I4
    } else if n == 1 {
        Format::I8
    } else if n == 2 {
        Format::IA4
    } else if n == 3 {
        Format::IA8
    } else if n == 4 {
        Format::Rgb565
    } else if n == 5 {
        Format::Rgb5A3
    } else if n == 6 {
        Format::Rgba8
    } else if n == 7 {
        Format::Reserved0
    } else if n == 8 {
        Format::CI4
    } else if n == 9 {
        Format::CI8
    } else if n == 10 {
        Format::CI14X2
    } else if n == 11 {
        Format::Reserved1
    } else if n == 12 {
        Format::Reserved2
    } else if n == 13 {
        Format::Reserved3
    } else if n == 14 {
        Format::Cmp
    } else {
        Format::Reserved4
    }
}

impl Format {
    /// The format numbered by the four low bits of `bits`.
    pub fn from_bits(bits: u32) -> (r: Format)
        ensures
            r == format_of(bits & 0xF),
    {
        let b = bits & 0xF;
        if b == 0 {
            Format::I4
        } else if b == 1 {
            Format::I8
        } else if b == 2 {
            Format::IA4
        } else if b == 3 {
            Format::IA8
        } else if b == 4 {
            Format::Rgb565
        } else if b == 5 {
            Format::Rgb5A3
        } else if b == 6 {
            Format::Rgba8
        } else if b == 7 {
            Format::Reserved0
        } else if b == 8 {
            Format::CI4
        } else if b == 9 {
            Format::CI8
        } else if b == 10 {
            Format::CI14X2
        } else if b == 11 {
            Format::Reserved1
        } else if b == 12 {
            Format::Reserved2
        } else if b == 13 {
            Format::Reserved3
        } else if b == 14 {
            Format::Cmp
        } else {
            Format::Reserved4
        }
    }

    /// Whether texels hold colors rather than palette indices.
    pub fn is_direct(&self) -> (r: bool)
        ensures
            r == !(*self == Format::CI4 || *self == Format::CI8 || *self == Format::CI14X2),
    {
        match self {
            Format::CI4 | Format::CI8 | Format::CI14X2 => false,
            _ => true,
        }
    }
}

/// Whether the size of textures of this format is known.
pub open spec fn sized(f: Format) -> bool {
    match f {
        Format::I4 | Format::I8 | Format::IA4 | Format::IA8 | Format::Rgb565 | Format::Rgb5A3
        | Format::Rgba8 | Format::Cmp | Format::CI8 | Format::CI4 => true,
        _ => false,
    }
}

/// The block a format stores its texels in (width and height), and its size as a fraction
/// of a byte per texel (multiplier, divisor).
pub open spec fn layout(f: Format) -> (int, int, int, int) {
    match f {
        Format::I4 => (8, 8, 1, 2),
        Format::I8 => (8, 4, 1, 1),
        Format::IA4 => (8, 8, 1, 1),
        Format::IA8 => (4, 4, 2, 1),
        Format::Rgb565 => (4, 4, 2, 1),
        Format::Rgb5A3 => (4, 4, 2, 1),
        Format::Rgba8 => (4, 4, 4, 1),
        Format::Cmp => (8, 8, 1, 2),
        Format::CI8 => (1, 1, 1, 1),
        _ => (1, 1, 1, 2),
    }
}

/// `x` rounded up to a multiple of `n`.
pub open spec fn round_up(x: int, n: int) -> int {
    if x % n == 0 {
        x
    } else {
        x - x % n + n
    }
}

/// The size in bytes of a `width` by `height` texture of format `f`: its texels padded to
/// whole blocks.
pub open spec fn spec_length_for(width: int, height: int, f: Format) -> int {
    let (bw, bh, mul, div) = layout(f);
    round_up(width, bw) * round_up(height, bh) * mul / div
}

/// Whether the size of a `width` by `height` texture of format `f` can be computed in 32 bits.
pub open spec fn length_fits(width: int, height: int, f: Format) -> bool {
    let (bw, bh, mul, div) = layout(f);
    &&& round_up(width, bw) <= u32::MAX
    &&& round_up(height, bh) <= u32::MAX
    &&& round_up(width, bw) * round_up(height, bh) * mul <= u32::MAX
}

/// `x` rounded up to a multiple of `n`, if that fits in 32 bits.
fn next_multiple_of(x: u32, n: u32) -> (r: u32)
    requires
        n > 0,
        round_up(x as int, n as int) <= u32::MAX,
    ensures
        r == round_up(x as int, n as int),
{
    let rem = x % n;
    proof {
        vstd::arithmetic::div_mod::lemma_fundamental_div_mod(x as int, n as int);
        vstd::arithmetic::div_mod::lemma_div_pos_is_pos(x as int, n as int);
        vstd::arithmetic::mul::lemma_mul_nonnegative(n as int, x as int / n as int);
    }
    if rem == 0 {
        x
    } else {
        let base = x - rem;
        assert(base + n == round_up(x as int, n as int));
        base + n
    }
}

/// `floor(log2(x))` for a positive `x`.
pub open spec fn log2(x: int) -> int
    decreases x,
{
    if x <= 1 {
        0
    } else {
        1 + log2(x / 2)
    }
}

/// `floor(log2(x))` of a side of a texture.
fn ilog2(x: u32) -> (r: u32)
    requires
        1 <= x <= 1024,
    ensures
        r == log2(x as int),
{
    proof {
        lemma_log2_bound(x as int);
    }
    let mut y = x;
    let mut r: u32 = 0;
    while y > 1
        invariant
            1 <= y <= 1024,
            r + log2(y as int) == log2(x as int),
            log2(x as int) <= 10,
            log2(y as int) >= 0,
        decreases y,
    {
        proof {
            lemma_log2_half(y as int);
            lemma_log2_bound(y as int / 2);
        }
        y = y / 2;
        r += 1;
    }
    r
}

/// The encoding of a texture: its size and format.
#[derive(Debug, Clone, Copy, PartialEq, Eq, Structural)]
pub struct Encoding(pub u32);

/// The sizes of the `n` mipmap levels of a `w` by `h` texture of format `f`, each level half
/// the size of the one before (rounding down).
pub open spec fn mipmap_len(w: int, h: int, f: Format, n: nat) -> int
    decreases n,
{
    if n == 0 {
        0
    } else {
        spec_length_for(w, h, f) + mipmap_len(w / 2, h / 2, f, (n - 1) as nat)
    }
}

/// The ten bit fields of a register word are at most 0x3FF.
proof fn lemma_ten_bit_fields(x: u32)
    by (bit_vector)
    ensures
        x & 0x3FF <= 0x3FF,
        (x >> 10u32) & 0x3FF <= 0x3FF,
{
}

impl Encoding {
    /// The texture width.
    pub open spec fn spec_width(&self) -> u32 {
        ((self.0 & 0x3FF) + 1) as u32
    }

    /// The texture height.
    pub open spec fn spec_height(&self) -> u32 {
        (((self.0 >> 10u32) & 0x3FF) + 1) as u32
    }

    /// The texel format.
    pub open spec fn spec_format(&self) -> Format {
        format_of((self.0 >> 20u32) & 0xF)
    }

    /// The number of mipmap levels: down to where the smaller side is one texel.
    pub open spec fn spec_lod_count(&self) -> int {
        let lw = log2(self.spec_width() as int);
        let lh = log2(self.spec_height() as int);
        (if lw < lh { lw } else { lh }) + 1
    }

    /// The texture width.
    pub fn width(&self) -> (r: u32)
        ensures
            r == self.spec_width(),
            1 <= r <= 1024,
    {
        let bits = self.0;
        proof {
            lemma_ten_bit_fields(bits);
        }
        let w = bits & 0x3FF;
        w + 1
    }

    /// The texture height.
    pub fn height(&self) -> (r: u32)
        ensures
            r == self.spec_height(),
            1 <= r <= 1024,
    {
        let bits = self.0;
        proof {
            lemma_ten_bit_fields(bits);
        }
        let h = (bits >> 10u32) & 0x3FF;
        h + 1
    }

    /// The texel format.
    pub fn format(&self) -> (r: Format)
        ensures
            r == self.spec_format(),
    {
        let bits = self.0;
        let f = (bits >> 20u32) & 0xF;
        assert(f & 0xF == f) by (bit_vector)
            requires
                f == (bits >> 20u32) & 0xF,
        ;
        Format::from_bits(f)
    }

    /// The number of mipmap levels.
    pub fn lod_count(&self) -> (r: u32)
        ensures
            r == self.spec_lod_count(),
    {
        let lw = ilog2(self.width());
        let lh = ilog2(self.height());
        proof {
            lemma_log2_bound(self.spec_width() as int);
        }
        (if lw < lh { lw } else { lh }) + 1
    }

    /// The size in bytes of a `width` by `height` texture of format `format`.
    pub fn length_for(width: u32, height: u32, format: Format) -> (r: u32)
        requires
            sized(format),
            length_fits(width as int, height as int, format),
        ensures
            r == spec_length_for(width as int, height as int, format),
    {
        let (bw, bh, mul, div): (u32, u32, u32, u32) = match format {
            Format::I4 => (8, 8, 1, 2),
            Format::I8 => (8, 4, 1, 1),
            Format::IA4 => (8, 8, 1, 1),
            Format::IA8 => (4, 4, 2, 1),
            Format::Rgb565 => (4, 4, 2, 1),
            Format::Rgb5A3 => (4, 4, 2, 1),
            Format::Rgba8 => (4, 4, 4, 1),
            Format::Cmp => (8, 8, 1, 2),
            Format::CI8 => (1, 1, 1, 1),
            _ => (1, 1, 1, 2),
        };
        let rw = next_multiple_of(width, bw);
        let rh = next_multiple_of(height, bh);
        proof {
            vstd::arithmetic::mul::lemma_mul_nonnegative(rw as int, rh as int);
            vstd::arithmetic::mul::lemma_mul_inequality(1, mul as int, (rw * rh) as int);
            vstd::arithmetic::mul::lemma_mul_is_commutative(mul as int, (rw * rh) as int);
        }
        let pixels = rw * rh;
        pixels * mul / div
    }

    /// Size, in bytes, of the texture.
    pub fn length(&self) -> (r: u32)
        requires
            sized(self.spec_format()),
        ensures
            r == spec_length_for(self.spec_width() as int, self.spec_height() as int, self.spec_format()),
    {
        let w = self.width();
        let h = self.height();
        proof {
            lemma_small_fits(w as int, h as int, self.spec_format());
        }
        Self::length_for(w, h, self.format())
    }

    /// Size, in bytes, of the mipmap: every level, from the full texture down.
    pub fn length_mipmap(&self) -> (r: u32)
        requires
            sized(self.spec_format()),
        ensures
            r == mipmap_len(self.spec_width() as int, self.spec_height() as int, self.spec_format(), self.spec_lod_count() as nat),
    {
        let format = self.format();
        let count = self.lod_count();
        let mut current_width = self.width();
        let mut current_height = self.height();
        let ghost w0 = current_width as int;
        let ghost h0 = current_height as int;
        proof {
            lemma_log2_bound(w0);
            lemma_log2_bound(h0);
            lemma_mipmap_total(w0, h0, format, count as nat);
        }
        let mut size: u32 = 0;
        let mut k: u32 = 0;
        while k < count
            invariant
                k <= count,
                count <= 11,
                sized(format),
                format == self.spec_format(),
                current_width <= 1024,
                current_height <= 1024,
                k < count ==> 1 <= current_width && 1 <= current_height && count - k <= log2(current_width as int) + 1
                    && count - k <= log2(current_height as int) + 1,
                size + mipmap_len(current_width as int, current_height as int, format, (count - k) as nat)
                    == mipmap_len(w0, h0, format, count as nat),
                mipmap_len(w0, h0, format, count as nat) <= 11 * 0x40_0000,
            decreases count - k,
        {
            proof {
                lemma_small_fits(current_width as int, current_height as int, format);
                lemma_mipmap_nonneg(current_width as int / 2, current_height as int / 2, format, (count - k - 1) as nat);
                if count - k > 1 {
                    lemma_log2_half(current_width as int);
                    lemma_log2_half(current_height as int);
                }
            }
            size = size + Self::length_for(current_width, current_height, format);
            current_width = current_width / 2;
            current_height = current_height / 2;
            k += 1;
        }
        size
    }
}

/// `log2` does not decrease.
proof fn lemma_log2_monotone(x: int, y: int)
    requires
        1 <= x <= y,
    ensures
        0 <= log2(x) <= log2(y),
    decreases y,
{
    if x > 1 {
        lemma_log2_monotone(x / 2, y / 2);
    } else if y > 1 {
        lemma_log2_monotone(1, y / 2);
    }
}

/// `log2` of a side of a texture is at most 10.
proof fn lemma_log2_bound(x: int)
    requires
        1 <= x <= 1024,
    ensures
        0 <= log2(x) <= 10,
{
    lemma_log2_monotone(x, 1024);
    assert(log2(1024) == 10) by {
        reveal_with_fuel(log2, 11);
    }
}

/// Halving a side lowers its `log2` by one.
proof fn lemma_log2_half(x: int)
    requires
        x >= 2,
    ensures
        log2(x / 2) == log2(x) - 1,
{
}

/// The size of a texture at most 1024 texels on a side fits, and is at most 4 MiB.
proof fn lemma_small_fits(w: int, h: int, f: Format)
    requires
        1 <= w <= 1024,
        1 <= h <= 1024,
    ensures
        length_fits(w, h, f),
        0 <= spec_length_for(w, h, f) <= 0x40_0000,
{
    let (bw, bh, mul, div) = layout(f);
    let rw = round_up(w, bw);
    let rh = round_up(h, bh);
    assert(1 <= rw <= 1024 && 1 <= rh <= 1024) by {
        vstd::arithmetic::div_mod::lemma_mod_pos_bound(w, bw);
        vstd::arithmetic::div_mod::lemma_mod_pos_bound(h, bh);
        if w % bw != 0 {
            vstd::arithmetic::div_mod::lemma_fundamental_div_mod(w, bw);
            vstd::arithmetic::div_mod::lemma_fundamental_div_mod(1024, bw);
        }
        if h % bh != 0 {
            vstd::arithmetic::div_mod::lemma_fundamental_div_mod(h, bh);
            vstd::arithmetic::div_mod::lemma_fundamental_div_mod(1024, bh);
        }
        lemma_round_up_le(w, bw, 1024);
        lemma_round_up_le(h, bh, 1024);
    }
    assert(rw * rh * mul <= 0x40_0000 && rw * rh * mul >= 0) by (nonlinear_arith)
        requires
            1 <= rw <= 1024,
            1 <= rh <= 1024,
            1 <= mul <= 4,
    ;
    assert(0 <= rw * rh * mul / div <= rw * rh * mul) by (nonlinear_arith)
        requires
            rw * rh * mul >= 0,
            1 <= div <= 2,
    ;
}

/// Rounding up to a multiple of a power of two up to 8 stays within a bound that is itself a
/// multiple of it.
proof fn lemma_round_up_le(x: int, n: int, bound: int)
    requires
        1 <= x <= bound,
        n == 1 || n == 4 || n == 8,
        bound == 1024,
    ensures
        x <= round_up(x, n) <= bound,
{
    vstd::arithmetic::div_mod::lemma_mod_pos_bound(x, n);
    vstd::arithmetic::div_mod::lemma_fundamental_div_mod(x, n);
    if x % n != 0 {
        let q = x / n;
        assert(x == n * q + x % n);
        assert(round_up(x, n) == n * q + n);
        assert(n * q < bound) by (nonlinear_arith)
            requires
                x == n * q + x % n,
                x % n > 0,
                x <= bound;
        assert(n * (q + 1) <= bound) by (nonlinear_arith)
            requires
                n * q < bound,
                bound == 1024,
                n == 1 || n == 4 || n == 8,
                q >= 0;
        assert(n * q + n == n * (q + 1)) by (nonlinear_arith);
    }
}

/// The mipmap sizes are not negative.
proof fn lemma_mipmap_nonneg(w: int, h: int, f: Format, n: nat)
    requires
        n <= log2(w) + 1,
        n <= log2(h) + 1,
        1 <= w <= 1024 || n == 0,
        1 <= h <= 1024 || n == 0,
    ensures
        mipmap_len(w, h, f, n) >= 0,
    decreases n,
{
    if n > 0 {
        lemma_small_fits(w, h, f);
        if n > 1 {
            lemma_log2_half(w);
            lemma_log2_half(h);
        }
        lemma_mipmap_nonneg(w / 2, h / 2, f, (n - 1) as nat);
    }
}

/// The mipmap of a texture at most 1024 texels on a side is at most 6 MiB.
proof fn lemma_mipmap_total(w: int, h: int, f: Format, n: nat)
    requires
        1 <= w <= 1024,
        1 <= h <= 1024,
        n <= log2(w) + 1,
        n <= log2(h) + 1,
        n <= 11,
    ensures
        0 <= mipmap_len(w, h, f, n) <= n * 0x40_0000,
    decreases n,
{
    if n > 0 {
        lemma_small_fits(w, h, f);
        assert(mipmap_len(w, h, f, n) == spec_length_for(w, h, f) + mipmap_len(w / 2, h / 2, f, (n - 1) as nat));
        if n > 1 {
            lemma_log2_half(w);
            lemma_log2_half(h);
            lemma_mipmap_total(w / 2, h / 2, f, (n - 1) as nat);
        } else {
            assert(mipmap_len(w / 2, h / 2, f, 0) == 0);
        }
    }
}

/// Texture coordinate scale and options for U.
#[derive(Debug, Clone, Copy, PartialEq, Eq, Structural)]
pub struct ScaleU(pub u32);

impl ScaleU {
    /// The scale, minus one.
    pub fn scale_minus_one(&self) -> (r: u16)
        ensures
            r == self.0 % 0x1_0000,
    {
        (self.0 % 0x1_0000) as u16
    }

    pub fn range_bias_enable(&self) -> (r: bool)
        ensures
            r == ((self.0 >> 16u32) & 1 == 1),
    {
        (self.0 >> 16u32) & 1 == 1
    }

    pub fn cylindrical_wrapping(&self) -> (r: bool)
        ensures
            r == ((self.0 >> 17u32) & 1 == 1),
    {
        (self.0 >> 17u32) & 1 == 1
    }

    pub fn offset_lines(&self) -> (r: bool)
        ensures
            r == ((self.0 >> 18u32) & 1 == 1),
    {
        (self.0 >> 18u32) & 1 == 1
    }

    pub fn offset_points(&self) -> (r: bool)
        ensures
            r == ((self.0 >> 19u32) & 1 == 1),
    {
        (self.0 >> 19u32) & 1 == 1
    }
}

/// Texture coordinate scale and options for V.
#[derive(Debug, Clone, Copy, PartialEq, Eq, Structural)]
pub struct ScaleV(pub u32);

impl ScaleV {
    /// The scale, minus one.
    pub fn scale_minus_one(&self) -> (r: u16)
        ensures
            r == self.0 % 0x1_0000,
    {
        (self.0 % 0x1_0000) as u16
    }

    pub fn range_bias_enable(&self) -> (r: bool)
        ensures
            r == ((self.0 >> 16u32) & 1 == 1),
    {
        (self.0 >> 16u32) & 1 == 1
    }

    pub fn cylindrical_wrapping(&self) -> (r: bool)
        ensures
            r == ((self.0 >> 17u32) & 1 == 1),
    {
        (self.0 >> 17u32) & 1 == 1
    }
}

/// Texture coordinate scaling of both axes.
#[derive(Debug, Clone, Copy, PartialEq, Eq, Structural)]
pub struct Scaling {
    pub u: ScaleU,
    pub v: ScaleV,
}

/// The formats of palette entries.
#[derive(Debug, Clone, Copy, PartialEq, Eq, Structural)]
pub enum ClutFormat {
    IA8,
    RGB565,
    RGB5A3,
    Reserved0,
}

/// The palette format numbered `n` (0 to 3).
pub open spec fn clut_format_of(n: u32) -> ClutFormat {
    if n == 0 {
        ClutFormat::IA8
    } else if n == 1 {
        ClutFormat::RGB565
    } else if n == 2 {
        ClutFormat::RGB5A3
    } else {
        ClutFormat::Reserved0
    }
}

impl ClutFormat {
    /// The palette format numbered by the two low bits of `bits`.
    pub fn from_bits(bits: u32) -> (r: ClutFormat)
        ensures
            r == clut_format_of(bits & 3),
    {
        let b = bits & 3;
        if b == 0 {
            ClutFormat::IA8
        } else if b == 1 {
            ClutFormat::RGB565
        } else if b == 2 {
            ClutFormat::RGB5A3
        } else {
            ClutFormat::Reserved0
        }
    }
}

/// How a texture is sampled: wrapping, filters and level-of-detail settings.
#[derive(Debug, Clone, Copy, PartialEq, Eq, Structural)]
pub struct Sampler(pub u32);

impl Sampler {
    /// How U coordinates wrap (bits 0 to 1).
    pub fn wrap_u(&self) -> (r: WrapMode)
        ensures
            r == wrap_mode_of(self.0 & 3),
    {
        WrapMode::from_bits(self.0)
    }

    /// How V coordinates wrap (bits 2 to 3).
    pub fn wrap_v(&self) -> (r: WrapMode)
        ensures
            r == wrap_mode_of((self.0 >> 2u32) & 3),
    {
        WrapMode::from_bits(self.0 >> 2u32)
    }

    /// Whether magnification interpolates (bit 4).
    pub fn mag_linear(&self) -> (r: bool)
        ensures
            r == ((self.0 >> 4u32) & 1 == 1),
    {
        (self.0 >> 4u32) & 1 == 1
    }

    /// The minification filter (bits 5 to 7).
    pub open spec fn spec_min_filter(&self) -> MinFilter {
        min_filter_of((self.0 >> 5u32) & 7)
    }

    /// The minification filter (bits 5 to 7).
    pub fn min_filter(&self) -> (r: MinFilter)
        ensures
            r == self.spec_min_filter(),
    {
        MinFilter::from_bits(self.0 >> 5u32)
    }

    /// Whether the level of detail is computed along the diagonal (bit 8).
    pub fn diagonal_lod(&self) -> (r: bool)
        ensures
            r == ((self.0 >> 8u32) & 1 == 1),
    {
        (self.0 >> 8u32) & 1 == 1
    }

    /// The level-of-detail bias (bits 9 to 16).
    pub fn lod_bias(&self) -> (r: u8)
        ensures
            r == (self.0 >> 9u32) & 0xFF,
    {
        let bits = self.0;
        let v = (bits >> 9u32) & 0xFF;
        assert(v <= 0xFF) by (bit_vector)
            requires
                v == (bits >> 9u32) & 0xFF,
        ;
        v as u8
    }

    /// The base-two logarithm of the largest anisotropy (bits 19 to 20).
    pub fn max_anisotropy_log2(&self) -> (r: u8)
        ensures
            r == (self.0 >> 19u32) & 3,
    {
        let bits = self.0;
        let v = (bits >> 19u32) & 3;
        assert(v <= 3) by (bit_vector)
            requires
                v == (bits >> 19u32) & 3,
        ;
        v as u8
    }

    /// Whether the level of detail and bias are clamped (bit 21).
    pub fn lod_and_bias_clamp(&self) -> (r: bool)
        ensures
            r == ((self.0 >> 21u32) & 1 == 1),
    {
        (self.0 >> 21u32) & 1 == 1
    }
}

/// A palette load: where in texture memory it goes, and how many 16-entry lines it has.
#[derive(Debug, Clone, Copy, PartialEq, Eq, Structural)]
pub struct ClutLoad(pub u32);

impl ClutLoad {
    /// The offset in texture memory (bits 0 to 9).
    pub fn tmem_offset(&self) -> (r: u16)
        ensures
            r == self.0 & 0x3FF,
    {
        let bits = self.0;
        let v = bits & 0x3FF;
        assert(v <= 0x3FF) by (bit_vector)
            requires
                v == bits & 0x3FF,
        ;
        v as u16
    }

    /// The number of 16-entry lines (bits 10 to 20).
    pub fn count(&self) -> (r: u16)
        ensures
            r == (self.0 >> 10u32) & 0x7FF,
    {
        let bits = self.0;
        let v = (bits >> 10u32) & 0x7FF;
        assert(v <= 0x7FF) by (bit_vector)
            requires
                v == (bits >> 10u32) & 0x7FF,
        ;
        v as u16
    }
}

/// The palette a texture reads: where it is in texture memory, and its format.
#[derive(Debug, Clone, Copy, PartialEq, Eq, Structural)]
pub struct LutRef(pub u32);

impl LutRef {
    /// The offset in texture memory (bits 0 to 9).
    pub fn tmem_offset(&self) -> (r: u16)
        ensures
            r == self.0 & 0x3FF,
    {
        let bits = self.0;
        let v = bits & 0x3FF;
        assert(v <= 0x3FF) by (bit_vector)
            requires
                v == bits & 0x3FF,
        ;
        v as u16
    }

    /// The palette format (bits 10 to 11).
    pub fn format(&self) -> (r: ClutFormat)
        ensures
            r == clut_format_of((self.0 >> 10u32) & 3),
    {
        ClutFormat::from_bits(self.0 >> 10u32)
    }
}

/// One of the texture maps: where its data is, how it is encoded and sampled, and its palette.
#[derive(Debug, Clone, Copy, PartialEq, Eq, Structural)]
pub struct TextureMap {
    pub address: u32,
    pub encoding: Encoding,
    pub sampler: Sampler,
    pub scaling: Scaling,
    pub clut: LutRef,
    pub dirty: bool,
}

/// The hash of `data` that `twox_hash::XxHash3_64::oneshot` computes.
pub uninterp spec fn xxh3_64(data: Seq<u8>) -> u64;

/// Calls `twox_hash::XxHash3_64::oneshot`, the XXH3 64-bit hash with the default seed and
/// secret. Claimed: the hash is a function of the data alone, named `xxh3_64`.
#[verifier::external_body]
fn hash_data(data: &[u8]) -> (r: u64)
    ensures
        r == xxh3_64(data@),
{
    twox_hash::XxHash3_64::oneshot(data)
}

/// The texture unit: its eight texture maps, the palette load registers, and the hashes of
/// texture data last seen at each address.
#[derive(Debug)]
pub struct Interface {
    pub maps: [TextureMap; 8],
    pub clut_base: u32,
    pub clut_load: ClutLoad,
    pub tex_cache: HashMap<u32, u64>,
}

/// A texture map with every register zero.
pub open spec fn blank_map() -> TextureMap {
    TextureMap {
        address: 0,
        encoding: Encoding(0),
        sampler: Sampler(0),
        scaling: Scaling { u: ScaleU(0), v: ScaleV(0) },
        clut: LutRef(0),
        dirty: false,
    }
}

impl Interface {
    /// The hash last seen at each address.
    pub open spec fn hashes(&self) -> Map<u32, u64> {
        self.tex_cache@
    }

    /// The unit after reset: every register zero, and no data seen.
    pub fn new() -> (r: Interface)
        ensures
            r.hashes() == Map::<u32, u64>::empty(),
            forall|i: int| 0 <= i < 8 ==> r.maps[i] == blank_map(),
            r.clut_base == 0,
            r.clut_load == ClutLoad(0),
    {
        let blank = TextureMap {
            address: 0,
            encoding: Encoding(0),
            sampler: Sampler(0),
            scaling: Scaling { u: ScaleU(0), v: ScaleV(0) },
            clut: LutRef(0),
            dirty: false,
        };
        Interface { maps: [blank; 8], clut_base: 0, clut_load: ClutLoad(0), tex_cache: HashMap::new() }
    }

    /// Whether the texture data at `addr` is the same as when last seen there; the cache then
    /// holds the hash of `data` at `addr`.
    pub fn is_tex_dirty(&mut self, addr: u32, data: &[u8]) -> (r: bool)
        ensures
            r == (old(self).hashes().contains_key(addr) && old(self).hashes()[addr] == xxh3_64(data@)),
            final(self).hashes() == old(self).hashes().insert(addr, xxh3_64(data@)),
            final(self).maps == old(self).maps,
            final(self).clut_base == old(self).clut_base,
            final(self).clut_load == old(self).clut_load,
    {
        let new_hash = hash_data(data);
        let same = match self.tex_cache.get(&addr) {
            Some(old_hash) => *old_hash == new_hash,
            None => false,
        };
        if same {
            proof {
                assert(old(self).hashes().insert(addr, new_hash) =~= old(self).hashes());
            }
            true
        } else {
            self.tex_cache.insert(addr, new_hash);
            false
        }
    }

    /// Whether the palette data at `addr` is the same as when last seen there. Palettes share
    /// the cache of textures.
    pub fn is_clut_dirty(&mut self, addr: u32, data: &[u8]) -> (r: bool)
        ensures
            r == (old(self).hashes().contains_key(addr) && old(self).hashes()[addr] == xxh3_64(data@)),
            final(self).hashes() == old(self).hashes().insert(addr, xxh3_64(data@)),
            final(self).maps == old(self).maps,
            final(self).clut_base == old(self).clut_base,
            final(self).clut_load == old(self).clut_load,
    {
        self.is_tex_dirty(addr, data)
    }
}

/// Seeing the same data twice at an address reports it unchanged the second time.
pub proof fn law_cache_same_data_twice(cache: Map<u32, u64>, addr: u32, data: Seq<u8>)
    ensures
        ({
            let after = cache.insert(addr, xxh3_64(data));
            after.contains_key(addr) && after[addr] == xxh3_64(data)
        }),
{
}

/// `x` halved `k` times, rounding down each time.
pub open spec fn shrink(x: int, k: nat) -> int
    decreases k,
{
    if k == 0 {
        x
    } else {
        shrink(x / 2, (k - 1) as nat)
    }
}

/// Halving once more after `k` halvings is `k + 1` halvings.
proof fn lemma_shrink_step(x: int, k: nat)
    ensures
        shrink(x, k + 1) == shrink(x, k) / 2,
    decreases k,
{
    assert(shrink(x, k + 1) == shrink(x / 2, k));
    if k > 0 {
        lemma_shrink_step(x / 2, (k - 1) as nat);
        assert(shrink(x, k) == shrink(x / 2, (k - 1) as nat));
    }
}

/// The first `i + 1` levels of a mipmap are its first `i` levels and level `i`.
proof fn lemma_mipmap_step(w: int, h: int, f: Format, i: nat)
    ensures
        mipmap_len(w, h, f, i + 1) == mipmap_len(w, h, f, i) + spec_length_for(shrink(w, i), shrink(h, i), f),
    decreases i,
{
    assert(mipmap_len(w, h, f, i + 1) == spec_length_for(w, h, f) + mipmap_len(w / 2, h / 2, f, i));
    if i > 0 {
        lemma_mipmap_step(w / 2, h / 2, f, (i - 1) as nat);
        assert(mipmap_len(w, h, f, i) == spec_length_for(w, h, f) + mipmap_len(w / 2, h / 2, f, (i - 1) as nat));
        assert(shrink(w, i) == shrink(w / 2, (i - 1) as nat));
        assert(shrink(h, i) == shrink(h / 2, (i - 1) as nat));
    } else {
        assert(mipmap_len(w / 2, h / 2, f, 0) == 0);
        assert(mipmap_len(w, h, f, 0) == 0);
    }
}

/// Where one mipmap level lies in the data of a texture (from its start), its size in texels,
/// and its length in bytes.
#[derive(Debug, Clone, Copy, PartialEq, Eq, Structural)]
pub struct LodLevel {
    pub offset: u32,
    pub width: u32,
    pub height: u32,
    pub length: u32,
}

/// Level `i` of the mipmap of a `w` by `h` texture of format `f`: it follows the levels before
/// it, and each side is halved `i` times.
pub open spec fn lod_level(w: int, h: int, f: Format, i: nat) -> LodLevel {
    LodLevel {
        offset: mipmap_len(w, h, f, i) as u32,
        width: shrink(w, i) as u32,
        height: shrink(h, i) as u32,
        length: spec_length_for(shrink(w, i), shrink(h, i), f) as u32,
    }
}

/// Mipmap levels lie end to end: each starts where the one before it ends, and the last of
/// `n` levels ends where the mipmap does.
pub proof fn law_levels_end_to_end(w: int, h: int, f: Format, i: nat)
    requires
        1 <= w <= 1024,
        1 <= h <= 1024,
        i + 1 <= log2(w) + 1,
        i + 1 <= log2(h) + 1,
    ensures
        lod_level(w, h, f, i + 1).offset == lod_level(w, h, f, i).offset + lod_level(w, h, f, i).length,
        lod_level(w, h, f, i).offset + lod_level(w, h, f, i).length == mipmap_len(w, h, f, i + 1),
{
    lemma_log2_bound(w);
    lemma_log2_bound(h);
    lemma_mipmap_step(w, h, f, i);
    lemma_mipmap_total(w, h, f, (i + 1) as nat);
    lemma_mipmap_total(w, h, f, i);
    lemma_shrink_range(w, i);
    lemma_shrink_range(h, i);
    lemma_small_fits(shrink(w, i), shrink(h, i), f);
}

/// Halving a side `i` times, with `i` at most its `log2`, leaves at least one texel and no more
/// than it had.
proof fn lemma_shrink_range(x: int, i: nat)
    requires
        1 <= x <= 1024,
        i <= log2(x),
    ensures
        1 <= shrink(x, i) <= 1024,
    decreases i,
{
    if i > 0 {
        lemma_log2_half(x);
        lemma_shrink_range(x / 2, (i - 1) as nat);
    }
}

/// The first `count` mipmap levels of a `width` by `height` texture of format `format`.
fn lod_levels(width: u32, height: u32, format: Format, count: u32) -> (r: Vec<LodLevel>)
    requires
        1 <= width <= 1024,
        1 <= height <= 1024,
        sized(format),
        count <= log2(width as int) + 1,
        count <= log2(height as int) + 1,
    ensures
        r@.len() == count,
        forall|i: int| 0 <= i < count ==> #[trigger] r@[i] == lod_level(width as int, height as int, format, i as nat),
{
    let ghost w0 = width as int;
    let ghost h0 = height as int;
    proof {
        lemma_log2_bound(w0);
        lemma_log2_bound(h0);
        lemma_mipmap_total(w0, h0, format, count as nat);
    }
    let mut levels: Vec<LodLevel> = Vec::new();
    let mut offset: u32 = 0;
    let mut current_width = width;
    let mut current_height = height;
    let mut k: u32 = 0;
    while k < count
        invariant
            k <= count,
            count <= 11,
            sized(format),
            w0 == width,
            h0 == height,
            current_width <= 1024,
            current_height <= 1024,
            current_width == shrink(w0, k as nat),
            current_height == shrink(h0, k as nat),
            k < count ==> 1 <= current_width && 1 <= current_height && count - k <= log2(current_width as int) + 1
                && count - k <= log2(current_height as int) + 1,
            offset == mipmap_len(w0, h0, format, k as nat),
            offset + mipmap_len(current_width as int, current_height as int, format, (count - k) as nat)
                == mipmap_len(w0, h0, format, count as nat),
            mipmap_len(w0, h0, format, count as nat) <= 11 * 0x40_0000,
            levels@.len() == k,
            forall|i: int| 0 <= i < k ==> #[trigger] levels@[i] == lod_level(w0, h0, format, i as nat),
        decreases count - k,
    {
        proof {
            lemma_small_fits(current_width as int, current_height as int, format);
            lemma_mipmap_nonneg(current_width as int / 2, current_height as int / 2, format, (count - k - 1) as nat);
            lemma_mipmap_step(w0, h0, format, k as nat);
            lemma_shrink_step(w0, k as nat);
            lemma_shrink_step(h0, k as nat);
            if count - k > 1 {
                lemma_log2_half(current_width as int);
                lemma_log2_half(current_height as int);
            }
        }
        let length = Encoding::length_for(current_width, current_height, format);
        let level = LodLevel { offset, width: current_width, height: current_height, length };
        assert(level == lod_level(w0, h0, format, k as nat));
        levels.push(level);
        offset = offset + length;
        current_width = current_width / 2;
        current_height = current_height / 2;
        k += 1;
    }
    levels
}

/// Whether the filter reads mipmap levels.
pub open spec fn spec_uses_lods(f: MinFilter) -> bool {
    f == MinFilter::NearMipNear || f == MinFilter::NearMipLinear || f == MinFilter::LinearMipNear
        || f == MinFilter::LinearMipLinear
}

/// The number of levels of a texture map that are read: all of its mipmap where the sampler
/// uses levels, else the full texture alone.
pub open spec fn map_lod_count(map: TextureMap) -> int {
    if spec_uses_lods(map.sampler.spec_min_filter()) {
        map.encoding.spec_lod_count()
    } else {
        1
    }
}

/// The length in bytes of the data of a texture map that is read.
pub open spec fn map_length(map: TextureMap) -> int {
    mipmap_len(
        map.encoding.spec_width() as int,
        map.encoding.spec_height() as int,
        map.encoding.spec_format(),
        map_lod_count(map) as nat,
    )
}

/// A texture to load: its identifier (its address), size and format, where its data starts in
/// RAM, and where each of its levels lies from there.
#[derive(Debug, Clone, PartialEq, Eq)]
pub struct TextureLoad {
    pub id: u32,
    pub width: u32,
    pub height: u32,
    pub format: Format,
    pub base: u32,
    pub levels: Vec<LodLevel>,
}

/// The binding of a texture to one of the slots, with how it is sampled and its palette.
#[derive(Debug, Clone, Copy, PartialEq, Eq, Structural)]
pub struct TextureSlot {
    pub slot: usize,
    pub texture_id: u32,
    pub sampler: Sampler,
    pub scaling: Scaling,
    pub clut_addr: u16,
    pub clut_fmt: ClutFormat,
}

/// What updating a texture map asks of the renderer: the texture to load, where its data
/// changed or was not seen before, and the binding of the slot.
#[derive(Debug, Clone, PartialEq, Eq)]
pub struct TextureUpdate {
    pub load: Option<TextureLoad>,
    pub slot: TextureSlot,
}

/// The binding of texture map `index` to its slot.
pub open spec fn spec_texture_slot(index: usize, map: TextureMap) -> TextureSlot {
    TextureSlot {
        slot: index,
        texture_id: map.address,
        sampler: map.sampler,
        scaling: map.scaling,
        clut_addr: (map.clut.0 & 0x3FF) as u16,
        clut_fmt: clut_format_of((map.clut.0 >> 10u32) & 3),
    }
}

/// Updates texture map `index` from `ram`: hashes the data the map reads, and where it is not
/// what the unit last saw at its address, describes the texture to load, level by level.
pub fn update_texture(tex: &mut Interface, index: usize, ram: &[u8]) -> (r: TextureUpdate)
    requires
        index < 8,
        sized(old(tex).maps[index as int].encoding.spec_format()),
        old(tex).maps[index as int].address + map_length(old(tex).maps[index as int]) <= ram@.len(),
    ensures
        ({
            let map = old(tex).maps[index as int];
            let base = map.address as int;
            let data = ram@.subrange(base, base + map_length(map));
            let seen = old(tex).hashes().contains_key(map.address) && old(tex).hashes()[map.address] == xxh3_64(data);
            let w = map.encoding.spec_width() as int;
            let h = map.encoding.spec_height() as int;
            let f = map.encoding.spec_format();
            &&& final(tex).hashes() == old(tex).hashes().insert(map.address, xxh3_64(data))
            &&& r.slot == spec_texture_slot(index, map)
            &&& r.load is Some <==> !seen
            &&& r.load matches Some(load) ==> {
                &&& load.id == map.address
                &&& load.width == w
                &&& load.height == h
                &&& load.format == f
                &&& load.base == map.address
                &&& load.levels@.len() == map_lod_count(map)
                &&& forall|i: int| 0 <= i < load.levels@.len() ==> #[trigger] load.levels@[i] == lod_level(w, h, f, i as nat)
            }
        }),
        final(tex).maps == old(tex).maps,
        final(tex).clut_base == old(tex).clut_base,
        final(tex).clut_load == old(tex).clut_load,
{
    let map = tex.maps[index];
    let encoding = map.encoding;
    let uses_lods = map.sampler.min_filter().uses_lods();
    let (len, lod_count) = if uses_lods {
        (encoding.length_mipmap(), encoding.lod_count())
    } else {
        proof {
            let w = encoding.spec_width() as int;
            let h = encoding.spec_height() as int;
            let f = encoding.spec_format();
            assert(mipmap_len(w / 2, h / 2, f, 0) == 0);
            assert(mipmap_len(w, h, f, 1) == spec_length_for(w, h, f) + mipmap_len(w / 2, h / 2, f, 0));
        }
        (encoding.length(), 1)
    };
    assert(len == map_length(map));
    let base = map.address;
    let n = ram.len();
    assert(base + len <= n);
    let data = vstd::slice::slice_subrange(ram, base as usize, base as usize + len as usize);
    let unchanged = tex.is_tex_dirty(base, data);
    let load = if !unchanged {
        let width = encoding.width();
        let height = encoding.height();
        proof {
            lemma_log2_bound(width as int);
            lemma_log2_bound(height as int);
        }
        let levels = lod_levels(width, height, encoding.format(), lod_count);
        Some(TextureLoad { id: base, width, height, format: encoding.format(), base, levels })
    } else {
        None
    };
    let slot = TextureSlot {
        slot: index,
        texture_id: base,
        sampler: map.sampler,
        scaling: map.scaling,
        clut_addr: map.clut.tmem_offset(),
        clut_fmt: map.clut.format(),
    };
    TextureUpdate { load, slot }
}

/// The address in RAM of the palette data: the base register in 32-byte units, with the bits
/// from 26 up cleared.
pub open spec fn clut_address(clut_base: u32) -> u32 {
    (clut_base << 5u32) & 0x03FF_FFFF
}

/// The big-endian 16-bit words of `data`, two bytes each.
pub open spec fn be_words(data: Seq<u8>) -> Seq<u16> {
    Seq::new(data.len() / 2, |i: int| (data[2 * i] * 256 + data[2 * i + 1]) as u16)
}

/// A palette to load: where in texture memory it goes, and its entries.
#[derive(Debug, Clone, PartialEq, Eq)]
pub struct ClutUpload {
    pub addr: u16,
    pub entries: Vec<u16>,
}

/// Loads a palette from `ram`: as many lines of 16 entries as the load register counts, at
/// the palette base. Where the data is not what the unit last saw there, gives the entries to
/// load and where in texture memory they go.
pub fn update_clut(tex: &mut Interface, ram: &[u8]) -> (r: Option<ClutUpload>)
    requires
        clut_address(old(tex).clut_base) + ((old(tex).clut_load.0 >> 10u32) & 0x7FF) * 32 <= ram@.len(),
    ensures
        ({
            let addr = clut_address(old(tex).clut_base);
            let load = old(tex).clut_load;
            let data = ram@.subrange(addr as int, addr + ((load.0 >> 10u32) & 0x7FF) * 32);
            let seen = old(tex).hashes().contains_key(addr) && old(tex).hashes()[addr] == xxh3_64(data);
            &&& final(tex).hashes() == old(tex).hashes().insert(addr, xxh3_64(data))
            &&& r is Some <==> !seen
            &&& r matches Some(u) ==> u.addr == load.0 & 0x3FF && u.entries@ == be_words(data)
        }),
        final(tex).maps == old(tex).maps,
        final(tex).clut_base == old(tex).clut_base,
        final(tex).clut_load == old(tex).clut_load,
{
    let clut_base = tex.clut_base;
    let load = tex.clut_load;
    let base = (clut_base << 5u32) & 0x03FF_FFFF;
    let len = load.count() as usize * 32;
    let n = ram.len();
    assert(base + len <= n);
    let data = vstd::slice::slice_subrange(ram, base as usize, base as usize + len);
    if tex.is_clut_dirty(base, data) {
        return None;
    }
    let mut entries: Vec<u16> = Vec::new();
    let mut i: usize = 0;
    while i < len / 2
        invariant
            i <= len / 2,
            data@.len() == len,
            entries@ =~= be_words(data@).take(i as int),
        decreases len / 2 - i,
    {
        let hi = data[2 * i] as u16;
        let lo = data[2 * i + 1] as u16;
        entries.push(hi * 256 + lo);
        i += 1;
        proof {
            assert(entries@ =~= be_words(data@).take(i as int));
        }
    }
    assert(entries@ =~= be_words(data@));
    Some(ClutUpload { addr: load.tmem_offset(), entries })
}

} // verus!

verus! {

/// A value rounded up to a multiple of 8 is one, and is at least the value.
proof fn lemma_round_up_multiple(x: int, n: int)
    requires
        x >= 0,
        n > 0,
    ensures
        round_up(x, n) % n == 0,
        round_up(x, n) >= x,
        round_up(x, n) >= 0,
{
    if x % n != 0 {
        vstd::arithmetic::div_mod::lemma_fundamental_div_mod(x, n);
        vstd::arithmetic::mul::lemma_mul_is_distributive_add(n, x / n, 1);
        assert(x - x % n + n == n * (x / n + 1));
        assert((n * (x / n + 1)) % n == 0) by {
            vstd::arithmetic::div_mod::lemma_mod_multiples_basic(x / n + 1, n);
            vstd::arithmetic::mul::lemma_mul_is_commutative(n, x / n + 1);
        }
    }
}

/// The size of a texture is its texels, padded to whole blocks, times the bytes per texel of
/// its format: 4 bit I4 and CMP in 8x8 blocks, 8 bit I8 in 8x4 blocks and IA4 in 8x8 blocks,
/// 16 bit IA8, RGB565 and RGB5A3 and 32 bit RGBA8 in 4x4 blocks, and the palette indices CI8
/// (8 bit) and CI4 (4 bit) unpadded. So an IA4 texture is twice an I4 one, and an RGBA8
/// texture twice an RGB565 one, of the same size.
pub proof fn law_texture_sizes(w: nat, h: nat)
    ensures
        spec_length_for(w as int, h as int, Format::I4) == round_up(w as int, 8) * round_up(h as int, 8) / 2,
        spec_length_for(w as int, h as int, Format::Cmp) == round_up(w as int, 8) * round_up(h as int, 8) / 2,
        spec_length_for(w as int, h as int, Format::I8) == round_up(w as int, 8) * round_up(h as int, 4),
        spec_length_for(w as int, h as int, Format::IA4) == round_up(w as int, 8) * round_up(h as int, 8),
        spec_length_for(w as int, h as int, Format::IA8) == 2 * (round_up(w as int, 4) * round_up(h as int, 4)),
        spec_length_for(w as int, h as int, Format::Rgb565) == 2 * (round_up(w as int, 4) * round_up(h as int, 4)),
        spec_length_for(w as int, h as int, Format::Rgb5A3) == 2 * (round_up(w as int, 4) * round_up(h as int, 4)),
        spec_length_for(w as int, h as int, Format::Rgba8) == 4 * (round_up(w as int, 4) * round_up(h as int, 4)),
        spec_length_for(w as int, h as int, Format::CI8) == w * h,
        spec_length_for(w as int, h as int, Format::CI4) == w * h / 2,
        spec_length_for(w as int, h as int, Format::IA4) == 2 * spec_length_for(w as int, h as int, Format::I4),
        spec_length_for(w as int, h as int, Format::Rgba8) == 2 * spec_length_for(w as int, h as int, Format::Rgb565),
{
    let w8 = round_up(w as int, 8);
    let h8 = round_up(h as int, 8);
    let w4 = round_up(w as int, 4);
    let h4 = round_up(h as int, 4);
    lemma_round_up_multiple(w as int, 8);
    lemma_round_up_multiple(h as int, 8);
    lemma_round_up_multiple(w as int, 4);
    lemma_round_up_multiple(h as int, 4);
    assert(round_up(w as int, 1) == w && round_up(h as int, 1) == h);
    let p = w8 * h8;
    assert(p % 2 == 0) by {
        let k = w8 / 8;
        assert(w8 == 8 * k);
        assert(p == 2 * (4 * k * h8)) by (nonlinear_arith)
            requires
                w8 == 8 * k,
                p == w8 * h8,
        ;
    }
    assert(w8 * h8 * 1 == p);
    assert(w4 * h4 * 2 == 2 * (w4 * h4)) by (nonlinear_arith);
    assert(w4 * h4 * 4 == 4 * (w4 * h4)) by (nonlinear_arith);
}

} // verus!
