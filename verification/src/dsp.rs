//! The DSP register file: accumulators, the product register, the status register and the
//! hardware stacks.
use vstd::prelude::*;
use tinyvec::ArrayVec;

verus! {

#[verifier::external_type_specification]
#[verifier::external_body]
#[verifier::reject_recursive_types(A)]
pub struct ExArrayVec<A>(ArrayVec<A>);

/// The items of an eight entry stack, bottom first.
pub uninterp spec fn stack8_items(v: ArrayVec<[u16; 8]>) -> Seq<u16>;

/// The items of a four entry stack, bottom first.
pub uninterp spec fn stack4_items(v: ArrayVec<[u16; 4]>) -> Seq<u16>;

/// `ArrayVec::new`: an empty stack.
#[verifier::external_body]
pub(crate) fn stack8_new() -> (v: ArrayVec<[u16; 8]>)
    ensures
        stack8_items(v) == Seq::<u16>::empty(),
{
    ArrayVec::new()
}

/// `ArrayVec::len`: the number of items, which never exceeds the capacity.
#[verifier::external_body]
pub(crate) fn stack8_len(v: &ArrayVec<[u16; 8]>) -> (n: usize)
    ensures
        n == stack8_items(*v).len(),
        n <= 8,
{
    v.len()
}

/// `ArrayVec::push`, which panics when the stack is full: appends `x` on top.
#[verifier::external_body]
pub(crate) fn stack8_push(v: &mut ArrayVec<[u16; 8]>, x: u16)
    requires
        stack8_items(*old(v)).len() < 8,
    ensures
        stack8_items(*final(v)) == stack8_items(*old(v)).push(x),
{
    v.push(x)
}

/// `ArrayVec::pop`: removes and returns the top item, if any.
#[verifier::external_body]
pub(crate) fn stack8_pop(v: &mut ArrayVec<[u16; 8]>) -> (r: Option<u16>)
    ensures
        stack8_items(*old(v)).len() <= 8,
        stack8_items(*old(v)).len() == 0 ==> r is None && stack8_items(*final(v)) == stack8_items(*old(v)),
        stack8_items(*old(v)).len() > 0 ==> r == Some(stack8_items(*old(v)).last()) && stack8_items(*final(v))
            == stack8_items(*old(v)).drop_last(),
{
    v.pop()
}

/// The top item, if any, read through the slice that `ArrayVec` dereferences to.
#[verifier::external_body]
pub(crate) fn stack8_last(v: &ArrayVec<[u16; 8]>) -> (r: Option<u16>)
    ensures
        stack8_items(*v).len() == 0 ==> r is None,
        stack8_items(*v).len() > 0 ==> r == Some(stack8_items(*v).last()),
{
    v.last().copied()
}

/// `ArrayVec::clear`: removes every item.
#[verifier::external_body]
pub(crate) fn stack8_clear(v: &mut ArrayVec<[u16; 8]>)
    ensures
        stack8_items(*final(v)) == Seq::<u16>::empty(),
{
    v.clear()
}

/// `ArrayVec::new`: an empty stack.
#[verifier::external_body]
pub(crate) fn stack4_new() -> (v: ArrayVec<[u16; 4]>)
    ensures
        stack4_items(v) == Seq::<u16>::empty(),
{
    ArrayVec::new()
}

/// `ArrayVec::len`: the number of items, which never exceeds the capacity.
#[verifier::external_body]
pub(crate) fn stack4_len(v: &ArrayVec<[u16; 4]>) -> (n: usize)
    ensures
        n == stack4_items(*v).len(),
        n <= 4,
{
    v.len()
}

/// `ArrayVec::push`, which panics when the stack is full: appends `x` on top.
#[verifier::external_body]
pub(crate) fn stack4_push(v: &mut ArrayVec<[u16; 4]>, x: u16)
    requires
        stack4_items(*old(v)).len() < 4,
    ensures
        stack4_items(*final(v)) == stack4_items(*old(v)).push(x),
{
    v.push(x)
}

/// `ArrayVec::pop`: removes and returns the top item, if any.
#[verifier::external_body]
pub(crate) fn stack4_pop(v: &mut ArrayVec<[u16; 4]>) -> (r: Option<u16>)
    ensures
        stack4_items(*old(v)).len() <= 4,
        stack4_items(*old(v)).len() == 0 ==> r is None && stack4_items(*final(v)) == stack4_items(*old(v)),
        stack4_items(*old(v)).len() > 0 ==> r == Some(stack4_items(*old(v)).last()) && stack4_items(*final(v))
            == stack4_items(*old(v)).drop_last(),
{
    v.pop()
}

/// The top item, if any, read through the slice that `ArrayVec` dereferences to.
#[verifier::external_body]
pub(crate) fn stack4_last(v: &ArrayVec<[u16; 4]>) -> (r: Option<u16>)
    ensures
        stack4_items(*v).len() == 0 ==> r is None,
        stack4_items(*v).len() > 0 ==> r == Some(stack4_items(*v).last()),
{
    v.last().copied()
}

/// `ArrayVec::clear`: removes every item.
#[verifier::external_body]
pub(crate) fn stack4_clear(v: &mut ArrayVec<[u16; 4]>)
    ensures
        stack4_items(*final(v)) == Seq::<u16>::empty(),
{
    v.clear()
}

/// The top of a stack, or zero when it is empty.
pub open spec fn top_or_zero(s: Seq<u16>) -> u16 {
    if s.len() > 0 {
        s.last()
    } else {
        0
    }
}

/// Exceptions of the DSP, in priority order.
#[derive(Debug, Clone, Copy, PartialEq, Eq, Structural)]
pub enum Exception {
    Reset,
    StackOverflow,
    Unknown0,
    AccelRawReadOverflow,
    AccelRawWriteOverflow,
    AccelSampleReadOverflow,
    Unknown1,
    Interrupt,
}

/// Sign-extends the low 40 bits of `v`.
pub open spec fn sext40(v: i64) -> i64 {
    (v << 24u64) >> 24u64
}

/// The bits of a 40 bit accumulator whose parts are `low`, `mid` and `high`.
pub open spec fn join40(low: u16, mid: u16, high: u8) -> u64 {
    (low as u64) | ((mid as u64) << 16u64) | ((high as u64) << 32u64)
}

/// Facts about 40 bit values: joining parts gives a value below 2^40, sign-extending it lands
/// in the signed 40 bit range, and splitting a value and joining the parts again is
/// sign-extension.
proof fn lemma_join40(low: u16, mid: u16, high: u8, v: i64)
    by (bit_vector)
    ensures
        join40(low, mid, high) < 0x100_0000_0000u64,
        -0x80_0000_0000i64 <= sext40(join40(low, mid, high) as i64) < 0x80_0000_0000i64,
        sext40(join40(low, mid, high) as i64) as u16 == low,
        (sext40(join40(low, mid, high) as i64) >> 16u64) as u16 == mid,
        (sext40(join40(low, mid, high) as i64) >> 32u64) as u8 == high,
        sext40(join40(v as u16, (v >> 16u64) as u16, (v >> 32u64) as u8) as i64) == sext40(v),
        -0x80_0000_0000i64 <= v < 0x80_0000_0000i64 ==> sext40(v) == v,
{
}

/// A 40 bit accumulator.
#[derive(Debug, Clone, Copy, Default, PartialEq, Eq, Structural)]
pub struct Acc40 {
    pub low: u16,
    pub mid: u16,
    pub high: u8,
}

/// Smallest value of a 40 bit accumulator.
pub const ACC40_MIN: i64 = -0x80_0000_0000i64;

impl Acc40 {
    /// The signed value held by this accumulator.
    pub open spec fn value(self) -> i64 {
        sext40(join40(self.low, self.mid, self.high) as i64)
    }

    /// The accumulator that holds the low 40 bits of `value`.
    pub open spec fn spec_from(value: i64) -> Acc40 {
        Acc40 { low: value as u16, mid: (value >> 16u64) as u16, high: (value >> 32u64) as u8 }
    }

    /// The accumulator that holds the low 40 bits of `value`.
    pub fn from(value: i64) -> (a: Self)
        ensures
            a == Self::spec_from(value),
            a.value() == sext40(value),
    {
        proof {
            lemma_join40(0, 0, 0, value);
        }
        Self { low: value as u16, mid: (value >> 16) as u16, high: (value >> 32) as u8 }
    }

    /// The signed value held by this accumulator.
    pub fn get(&self) -> (v: i64)
        ensures
            v == self.value(),
            -0x80_0000_0000i64 <= v < 0x80_0000_0000i64,
    {
        proof {
            lemma_join40(self.low, self.mid, self.high, 0);
        }
        let bits = (self.low as u64) | ((self.mid as u64) << 16) | ((self.high as u64) << 32);
        ((bits as i64) << 24) >> 24
    }

    /// Stores the low 40 bits of `value` and returns the value now held.
    pub fn set(&mut self, value: i64) -> (v: i64)
        ensures
            *final(self) == Self::spec_from(value),
            v == sext40(value),
            v == final(self).value(),
    {
        *self = Self::from(value);
        self.get()
    }
}

/// Splitting the value of an accumulator and storing the parts gives back the accumulator, and
/// its value is always a signed 40 bit number.
pub proof fn law_acc40_roundtrip(a: Acc40)
    ensures
        Acc40::spec_from(a.value()) == a,
        -0x80_0000_0000i64 <= a.value() < 0x80_0000_0000i64,
{
    lemma_join40(a.low, a.mid, a.high, 0);
}

/// Reading an accumulator after storing `v` gives `v` sign-extended from 40 bits; values
/// already in the signed 40 bit range come back unchanged.
pub proof fn law_acc40_store_load(v: i64)
    ensures
        Acc40::spec_from(v).value() == sext40(v),
        -0x80_0000_0000i64 <= v < 0x80_0000_0000i64 ==> Acc40::spec_from(v).value() == v,
{
    lemma_join40(0, 0, 0, v);
}

/// The product register, which holds a product as two partial sums in its middle parts.
#[derive(Debug, Clone, Copy, Default, PartialEq, Eq, Structural)]
pub struct Product {
    pub low: u16,
    pub mid1: u16,
    pub mid2: u16,
    pub high: u8,
}

impl Product {
    /// The carry out of summing the middle parts and the high part.
    pub open spec fn spec_carry(self) -> bool {
        let carry_mid = self.mid1 as int + self.mid2 as int > 0xFFFF;
        self.high as int + (if carry_mid { 1int } else { 0int }) > 0xFF
    }

    /// The high part once the carry out of the middle parts is added.
    pub open spec fn spec_high(self) -> u8 {
        let carry_mid = self.mid1 as int + self.mid2 as int > 0xFFFF;
        ((self.high as int + (if carry_mid { 1int } else { 0int })) % 256) as u8
    }

    /// Whether adding that carry turned a non-negative high part negative.
    pub open spec fn spec_overflow(self) -> bool {
        self.high < 128 && self.spec_high() >= 128
    }

    /// The signed 40 bit value of the product.
    pub open spec fn spec_value(self) -> i64 {
        let sum = ((self.mid1 as int + self.mid2 as int) % 65536) as u16;
        sext40(join40(self.low, sum, self.spec_high()) as i64)
    }

    /// Reads the product: the carry out of the final sum, whether it overflowed, and its value.
    pub fn get(&self) -> (r: (bool, bool, i64))
        ensures
            r == (self.spec_carry(), self.spec_overflow(), self.spec_value()),
            -0x80_0000_0000i64 <= r.2 < 0x80_0000_0000i64,
    {
        let wide = self.mid1 as u32 + self.mid2 as u32;
        let carry_mid = wide > 0xFFFF;
        let sum = (wide % 65536) as u16;
        let wide_high = self.high as u16 + if carry_mid { 1u16 } else { 0u16 };
        let carry = wide_high > 0xFF;
        let c_high = (wide_high % 256) as u8;
        let overflow = self.high < 128 && c_high >= 128;
        let acc = Acc40 { low: self.low, mid: sum, high: c_high };
        let value = acc.get();
        (carry, overflow, value)
    }

    /// The product register that holds `value`, with nothing in its first middle part.
    pub open spec fn spec_set(value: i64) -> Product {
        Product { low: value as u16, mid1: 0, mid2: (value >> 16u64) as u16, high: (value >> 32u64) as u8 }
    }

    /// Stores `value` in the product register.
    pub fn set(&mut self, value: i64)
        ensures
            *final(self) == Self::spec_set(value),
    {
        self.low = value as u16;
        self.mid1 = 0;
        self.mid2 = (value >> 16) as u16;
        self.high = (value >> 32) as u8;
    }
}

/// Reading the product register after storing `v` gives `v` sign-extended from 40 bits, with
/// neither carry nor overflow.
pub proof fn law_product_store_load(v: i64)
    ensures
        Product::spec_set(v).spec_value() == sext40(v),
        !Product::spec_set(v).spec_carry(),
        !Product::spec_set(v).spec_overflow(),
{
    lemma_join40(0, 0, 0, v);
    let p = Product::spec_set(v);
    assert(((p.mid1 as int + p.mid2 as int) % 65536) as u16 == p.mid2);
}

/// Bit `k` of `bits`.
pub open spec fn flag(bits: u16, k: u16) -> bool {
    (bits >> k) & 1u16 == 1u16
}

/// `bits` with bit `k` set to `v`.
pub open spec fn with_flag(bits: u16, k: u16, v: bool) -> u16 {
    if v {
        bits | (1u16 << k)
    } else {
        bits & !(1u16 << k)
    }
}

/// Setting a bit changes that bit alone.
pub proof fn law_with_flag(bits: u16, k: u16, j: u16, v: bool)
    by (bit_vector)
    requires
        k < 16,
        j < 16,
    ensures
        flag(with_flag(bits, k, v), k) == v,
        j != k ==> flag(with_flag(bits, k, v), j) == flag(bits, j),
{
}

/// The DSP status register.
#[derive(Debug, Clone, Copy, PartialEq, Eq, Structural)]
pub struct Status {
    pub bits: u16,
}

impl Status {
    /// The status register with the given bits.
    pub fn from_bits(bits: u16) -> (s: Self)
        ensures
            s.bits == bits,
    {
        Status { bits }
    }

    /// The bits of the status register.
    pub fn to_bits(&self) -> (bits: u16)
        ensures
            bits == self.bits,
    {
        self.bits
    }

    /// The status after reset: both interrupt enables set, every other bit clear.
    pub fn default() -> (s: Self)
        ensures
            s.bits == 0x0A00,
    {
        Status { bits: 0x0A00 }
    }

    /// Bit 0 of the status register.
    pub fn carry(&self) -> (v: bool)
        ensures
            v == flag(self.bits, 0),
    {
        (self.bits >> 0u16) & 1 == 1
    }

    /// Sets bit 0 of the status register.
    pub fn set_carry(&mut self, v: bool)
        ensures
            final(self).bits == with_flag(old(self).bits, 0, v),
    {
        if v {
            self.bits = self.bits | (1u16 << 0u16);
        } else {
            self.bits = self.bits & !(1u16 << 0u16);
        }
    }

    /// Bit 1 of the status register.
    pub fn overflow(&self) -> (v: bool)
        ensures
            v == flag(self.bits, 1),
    {
        (self.bits >> 1u16) & 1 == 1
    }

    /// Sets bit 1 of the status register.
    pub fn set_overflow(&mut self, v: bool)
        ensures
            final(self).bits == with_flag(old(self).bits, 1, v),
    {
        if v {
            self.bits = self.bits | (1u16 << 1u16);
        } else {
            self.bits = self.bits & !(1u16 << 1u16);
        }
    }

    /// Bit 2 of the status register.
    pub fn arithmetic_zero(&self) -> (v: bool)
        ensures
            v == flag(self.bits, 2),
    {
        (self.bits >> 2u16) & 1 == 1
    }

    /// Sets bit 2 of the status register.
    pub fn set_arithmetic_zero(&mut self, v: bool)
        ensures
            final(self).bits == with_flag(old(self).bits, 2, v),
    {
        if v {
            self.bits = self.bits | (1u16 << 2u16);
        } else {
            self.bits = self.bits & !(1u16 << 2u16);
        }
    }

    /// Bit 3 of the status register.
    pub fn sign(&self) -> (v: bool)
        ensures
            v == flag(self.bits, 3),
    {
        (self.bits >> 3u16) & 1 == 1
    }

    /// Sets bit 3 of the status register.
    pub fn set_sign(&mut self, v: bool)
        ensures
            final(self).bits == with_flag(old(self).bits, 3, v),
    {
        if v {
            self.bits = self.bits | (1u16 << 3u16);
        } else {
            self.bits = self.bits & !(1u16 << 3u16);
        }
    }

    /// Bit 4 of the status register.
    pub fn above_s32(&self) -> (v: bool)
        ensures
            v == flag(self.bits, 4),
    {
        (self.bits >> 4u16) & 1 == 1
    }

    /// Sets bit 4 of the status register.
    pub fn set_above_s32(&mut self, v: bool)
        ensures
            final(self).bits == with_flag(old(self).bits, 4, v),
    {
        if v {
            self.bits = self.bits | (1u16 << 4u16);
        } else {
            self.bits = self.bits & !(1u16 << 4u16);
        }
    }

    /// Bit 5 of the status register.
    pub fn top_two_bits_eq(&self) -> (v: bool)
        ensures
            v == flag(self.bits, 5),
    {
        (self.bits >> 5u16) & 1 == 1
    }

    /// Sets bit 5 of the status register.
    pub fn set_top_two_bits_eq(&mut self, v: bool)
        ensures
            final(self).bits == with_flag(old(self).bits, 5, v),
    {
        if v {
            self.bits = self.bits | (1u16 << 5u16);
        } else {
            self.bits = self.bits & !(1u16 << 5u16);
        }
    }

    /// Bit 6 of the status register.
    pub fn logic_zero(&self) -> (v: bool)
        ensures
            v == flag(self.bits, 6),
    {
        (self.bits >> 6u16) & 1 == 1
    }

    /// Sets bit 6 of the status register.
    pub fn set_logic_zero(&mut self, v: bool)
        ensures
            final(self).bits == with_flag(old(self).bits, 6, v),
    {
        if v {
            self.bits = self.bits | (1u16 << 6u16);
        } else {
            self.bits = self.bits & !(1u16 << 6u16);
        }
    }

    /// Bit 7 of the status register.
    pub fn overflow_fused(&self) -> (v: bool)
        ensures
            v == flag(self.bits, 7),
    {
        (self.bits >> 7u16) & 1 == 1
    }

    /// Sets bit 7 of the status register.
    pub fn set_overflow_fused(&mut self, v: bool)
        ensures
            final(self).bits == with_flag(old(self).bits, 7, v),
    {
        if v {
            self.bits = self.bits | (1u16 << 7u16);
        } else {
            self.bits = self.bits & !(1u16 << 7u16);
        }
    }

    /// Bit 9 of the status register.
    pub fn interrupt_enable(&self) -> (v: bool)
        ensures
            v == flag(self.bits, 9),
    {
        (self.bits >> 9u16) & 1 == 1
    }

    /// Sets bit 9 of the status register.
    pub fn set_interrupt_enable(&mut self, v: bool)
        ensures
            final(self).bits == with_flag(old(self).bits, 9, v),
    {
        if v {
            self.bits = self.bits | (1u16 << 9u16);
        } else {
            self.bits = self.bits & !(1u16 << 9u16);
        }
    }

    /// Bit 11 of the status register.
    pub fn external_interrupt_enable(&self) -> (v: bool)
        ensures
            v == flag(self.bits, 11),
    {
        (self.bits >> 11u16) & 1 == 1
    }

    /// Sets bit 11 of the status register.
    pub fn set_external_interrupt_enable(&mut self, v: bool)
        ensures
            final(self).bits == with_flag(old(self).bits, 11, v),
    {
        if v {
            self.bits = self.bits | (1u16 << 11u16);
        } else {
            self.bits = self.bits & !(1u16 << 11u16);
        }
    }

    /// Bit 13 of the status register.
    pub fn dont_double_result(&self) -> (v: bool)
        ensures
            v == flag(self.bits, 13),
    {
        (self.bits >> 13u16) & 1 == 1
    }

    /// Sets bit 13 of the status register.
    pub fn set_dont_double_result(&mut self, v: bool)
        ensures
            final(self).bits == with_flag(old(self).bits, 13, v),
    {
        if v {
            self.bits = self.bits | (1u16 << 13u16);
        } else {
            self.bits = self.bits & !(1u16 << 13u16);
        }
    }

    /// Bit 14 of the status register.
    pub fn sign_extend_to_40(&self) -> (v: bool)
        ensures
            v == flag(self.bits, 14),
    {
        (self.bits >> 14u16) & 1 == 1
    }

    /// Sets bit 14 of the status register.
    pub fn set_sign_extend_to_40(&mut self, v: bool)
        ensures
            final(self).bits == with_flag(old(self).bits, 14, v),
    {
        if v {
            self.bits = self.bits | (1u16 << 14u16);
        } else {
            self.bits = self.bits & !(1u16 << 14u16);
        }
    }

    /// Bit 15 of the status register.
    pub fn unsigned_mul(&self) -> (v: bool)
        ensures
            v == flag(self.bits, 15),
    {
        (self.bits >> 15u16) & 1 == 1
    }

    /// Sets bit 15 of the status register.
    pub fn set_unsigned_mul(&mut self, v: bool)
        ensures
            final(self).bits == with_flag(old(self).bits, 15, v),
    {
        if v {
            self.bits = self.bits | (1u16 << 15u16);
        } else {
            self.bits = self.bits & !(1u16 << 15u16);
        }
    }

}

/// A register, by its 5 bit index.
#[derive(Debug, Clone, Copy, PartialEq, Eq, Structural)]
pub enum Reg {
    Addr0,
    Addr1,
    Addr2,
    Addr3,
    Index0,
    Index1,
    Index2,
    Index3,
    Wrap0,
    Wrap1,
    Wrap2,
    Wrap3,
    CallStack,
    DataStack,
    LoopStack,
    LoopCount,
    Acc40High0,
    Acc40High1,
    Config,
    Status,
    ProdLow,
    ProdMid1,
    ProdHigh,
    ProdMid2,
    Acc32Low0,
    Acc32Low1,
    Acc32High0,
    Acc32High1,
    Acc40Low0,
    Acc40Low1,
    Acc40Mid0,
    Acc40Mid1,
}

impl Reg {
    /// The 5 bit index of this register.
    pub open spec fn index(self) -> u8 {
        match self {
            Reg::Addr0 => 0,
            Reg::Addr1 => 1,
            Reg::Addr2 => 2,
            Reg::Addr3 => 3,
            Reg::Index0 => 4,
            Reg::Index1 => 5,
            Reg::Index2 => 6,
            Reg::Index3 => 7,
            Reg::Wrap0 => 8,
            Reg::Wrap1 => 9,
            Reg::Wrap2 => 10,
            Reg::Wrap3 => 11,
            Reg::CallStack => 12,
            Reg::DataStack => 13,
            Reg::LoopStack => 14,
            Reg::LoopCount => 15,
            Reg::Acc40High0 => 16,
            Reg::Acc40High1 => 17,
            Reg::Config => 18,
            Reg::Status => 19,
            Reg::ProdLow => 20,
            Reg::ProdMid1 => 21,
            Reg::ProdHigh => 22,
            Reg::ProdMid2 => 23,
            Reg::Acc32Low0 => 24,
            Reg::Acc32Low1 => 25,
            Reg::Acc32High0 => 26,
            Reg::Acc32High1 => 27,
            Reg::Acc40Low0 => 28,
            Reg::Acc40Low1 => 29,
            Reg::Acc40Mid0 => 30,
            Reg::Acc40Mid1 => 31,
        }
    }

    /// The register with the given 5 bit index.
    pub fn new(index: u8) -> (r: Self)
        requires
            index < 32,
        ensures
            r.index() == index,
            r == reg_at(index),
    {
        match index {
            0 => Reg::Addr0,
            1 => Reg::Addr1,
            2 => Reg::Addr2,
            3 => Reg::Addr3,
            4 => Reg::Index0,
            5 => Reg::Index1,
            6 => Reg::Index2,
            7 => Reg::Index3,
            8 => Reg::Wrap0,
            9 => Reg::Wrap1,
            10 => Reg::Wrap2,
            11 => Reg::Wrap3,
            12 => Reg::CallStack,
            13 => Reg::DataStack,
            14 => Reg::LoopStack,
            15 => Reg::LoopCount,
            16 => Reg::Acc40High0,
            17 => Reg::Acc40High1,
            18 => Reg::Config,
            19 => Reg::Status,
            20 => Reg::ProdLow,
            21 => Reg::ProdMid1,
            22 => Reg::ProdHigh,
            23 => Reg::ProdMid2,
            24 => Reg::Acc32Low0,
            25 => Reg::Acc32Low1,
            26 => Reg::Acc32High0,
            27 => Reg::Acc32High1,
            28 => Reg::Acc40Low0,
            29 => Reg::Acc40Low1,
            30 => Reg::Acc40Mid0,
            _ => Reg::Acc40Mid1,
        }
    }
}

/// The register with the given 5 bit index; indices past the last name the last register.
pub open spec fn reg_at(index: u8) -> Reg {
    if index == 0 {
        Reg::Addr0
    } else if index == 1 {
        Reg::Addr1
    } else if index == 2 {
        Reg::Addr2
    } else if index == 3 {
        Reg::Addr3
    } else if index == 4 {
        Reg::Index0
    } else if index == 5 {
        Reg::Index1
    } else if index == 6 {
        Reg::Index2
    } else if index == 7 {
        Reg::Index3
    } else if index == 8 {
        Reg::Wrap0
    } else if index == 9 {
        Reg::Wrap1
    } else if index == 10 {
        Reg::Wrap2
    } else if index == 11 {
        Reg::Wrap3
    } else if index == 12 {
        Reg::CallStack
    } else if index == 13 {
        Reg::DataStack
    } else if index == 14 {
        Reg::LoopStack
    } else if index == 15 {
        Reg::LoopCount
    } else if index == 16 {
        Reg::Acc40High0
    } else if index == 17 {
        Reg::Acc40High1
    } else if index == 18 {
        Reg::Config
    } else if index == 19 {
        Reg::Status
    } else if index == 20 {
        Reg::ProdLow
    } else if index == 21 {
        Reg::ProdMid1
    } else if index == 22 {
        Reg::ProdHigh
    } else if index == 23 {
        Reg::ProdMid2
    } else if index == 24 {
        Reg::Acc32Low0
    } else if index == 25 {
        Reg::Acc32Low1
    } else if index == 26 {
        Reg::Acc32High0
    } else if index == 27 {
        Reg::Acc32High1
    } else if index == 28 {
        Reg::Acc40Low0
    } else if index == 29 {
        Reg::Acc40Low1
    } else if index == 30 {
        Reg::Acc40Mid0
    } else {
        Reg::Acc40Mid1
    }
}

} // verus!

verus! {

/// The registers of the DSP.
#[derive(Debug)]
pub struct Registers {
    pub pc: u16,
    pub addressing: [u16; 4],
    pub indexing: [u16; 4],
    pub wrapping: [u16; 4],
    pub call_stack: ArrayVec<[u16; 8]>,
    pub data_stack: ArrayVec<[u16; 4]>,
    pub loop_stack: ArrayVec<[u16; 4]>,
    pub loop_count: ArrayVec<[u16; 4]>,
    pub product: Product,
    pub acc40: [Acc40; 2],
    pub acc32: [i32; 2],
    pub config: u8,
    pub status: Status,
}

/// Whether `new` holds the same registers as `old` in every field but the one numbered
/// `field` (in declaration order).
pub open spec fn same_except(old: Registers, new: Registers, field: int) -> bool {
    &&& (0 != field ==> new.pc == old.pc)
    &&& (1 != field ==> new.addressing == old.addressing)
    &&& (2 != field ==> new.indexing == old.indexing)
    &&& (3 != field ==> new.wrapping == old.wrapping)
    &&& (4 != field ==> new.call_stack == old.call_stack)
    &&& (5 != field ==> new.data_stack == old.data_stack)
    &&& (6 != field ==> new.loop_stack == old.loop_stack)
    &&& (7 != field ==> new.loop_count == old.loop_count)
    &&& (8 != field ==> new.product == old.product)
    &&& (9 != field ==> new.acc40 == old.acc40)
    &&& (10 != field ==> new.acc32 == old.acc32)
    &&& (11 != field ==> new.config == old.config)
    &&& (12 != field ==> new.status == old.status)
}

/// The value that the middle part of accumulator `i` reads as: saturated to the 16 bit range
/// when 40 bit sign extension is on and the value does not fit in 32 bits.
pub open spec fn saturated_mid(r: Registers, i: int) -> u16 {
    let hml = r.acc40[i].value();
    if flag(r.status.bits, 14) && (hml as i32) as i64 != hml {
        if hml >= 0 {
            0x7FFF
        } else {
            0x8000
        }
    } else {
        r.acc40[i].mid
    }
}

/// The value that register `reg` reads as.
pub open spec fn reg_value(r: Registers, reg: Reg) -> u16 {
    match reg {
        Reg::Addr0 => r.addressing[0],
        Reg::Addr1 => r.addressing[1],
        Reg::Addr2 => r.addressing[2],
        Reg::Addr3 => r.addressing[3],
        Reg::Index0 => r.indexing[0],
        Reg::Index1 => r.indexing[1],
        Reg::Index2 => r.indexing[2],
        Reg::Index3 => r.indexing[3],
        Reg::Wrap0 => r.wrapping[0],
        Reg::Wrap1 => r.wrapping[1],
        Reg::Wrap2 => r.wrapping[2],
        Reg::Wrap3 => r.wrapping[3],
        Reg::CallStack => top_or_zero(stack8_items(r.call_stack)),
        Reg::DataStack => top_or_zero(stack4_items(r.data_stack)),
        Reg::LoopStack => top_or_zero(stack4_items(r.loop_stack)),
        Reg::LoopCount => top_or_zero(stack4_items(r.loop_count)),
        Reg::Acc40High0 => r.acc40[0].high as i8 as i16 as u16,
        Reg::Acc40High1 => r.acc40[1].high as i8 as i16 as u16,
        Reg::Config => r.config as u16,
        Reg::Status => r.status.bits,
        Reg::ProdLow => r.product.low,
        Reg::ProdMid1 => r.product.mid1,
        Reg::ProdHigh => r.product.high as u16,
        Reg::ProdMid2 => r.product.mid2,
        Reg::Acc32Low0 => r.acc32[0] as u16,
        Reg::Acc32Low1 => r.acc32[1] as u16,
        Reg::Acc32High0 => (r.acc32[0] >> 16i32) as u16,
        Reg::Acc32High1 => (r.acc32[1] >> 16i32) as u16,
        Reg::Acc40Low0 => r.acc40[0].low,
        Reg::Acc40Low1 => r.acc40[1].low,
        Reg::Acc40Mid0 => saturated_mid(r, 0),
        Reg::Acc40Mid1 => saturated_mid(r, 1),
    }
}

/// `a` with its low 16 bits replaced by `v`.
pub open spec fn with_low16(a: i32, v: u16) -> i32 {
    ((a as u32 & 0xFFFF_0000u32) | (v as u32)) as i32
}

/// `a` with its high 16 bits replaced by `v`.
pub open spec fn with_high16(a: i32, v: u16) -> i32 {
    ((a as u32 & 0xFFFFu32) | ((v as u32) << 16u32)) as i32
}

/// Whether a write of `value` to a stack register fits: the stack it pushes onto is not full.
pub open spec fn can_write(r: Registers, reg: Reg) -> bool {
    match reg {
        Reg::CallStack => stack8_items(r.call_stack).len() < 8,
        Reg::DataStack => stack4_items(r.data_stack).len() < 4,
        Reg::LoopStack => stack4_items(r.loop_stack).len() < 4,
        Reg::LoopCount => stack4_items(r.loop_count).len() < 4,
        _ => true,
    }
}

/// What writing `value` to `reg` does: `new` is `old` after the write.
pub open spec fn wrote(old: Registers, new: Registers, reg: Reg, value: u16) -> bool {
    match reg {
        Reg::Addr0 => same_except(old, new, 1) && new.addressing@ == old.addressing@.update(0, value),
        Reg::Addr1 => same_except(old, new, 1) && new.addressing@ == old.addressing@.update(1, value),
        Reg::Addr2 => same_except(old, new, 1) && new.addressing@ == old.addressing@.update(2, value),
        Reg::Addr3 => same_except(old, new, 1) && new.addressing@ == old.addressing@.update(3, value),
        Reg::Index0 => same_except(old, new, 2) && new.indexing@ == old.indexing@.update(0, value),
        Reg::Index1 => same_except(old, new, 2) && new.indexing@ == old.indexing@.update(1, value),
        Reg::Index2 => same_except(old, new, 2) && new.indexing@ == old.indexing@.update(2, value),
        Reg::Index3 => same_except(old, new, 2) && new.indexing@ == old.indexing@.update(3, value),
        Reg::Wrap0 => same_except(old, new, 3) && new.wrapping@ == old.wrapping@.update(0, value),
        Reg::Wrap1 => same_except(old, new, 3) && new.wrapping@ == old.wrapping@.update(1, value),
        Reg::Wrap2 => same_except(old, new, 3) && new.wrapping@ == old.wrapping@.update(2, value),
        Reg::Wrap3 => same_except(old, new, 3) && new.wrapping@ == old.wrapping@.update(3, value),
        Reg::CallStack => same_except(old, new, 4) && stack8_items(new.call_stack) == stack8_items(old.call_stack).push(value),
        Reg::DataStack => same_except(old, new, 5) && stack4_items(new.data_stack) == stack4_items(old.data_stack).push(value),
        Reg::LoopStack => same_except(old, new, 6) && stack4_items(new.loop_stack) == stack4_items(old.loop_stack).push(value),
        Reg::LoopCount => same_except(old, new, 7) && stack4_items(new.loop_count) == stack4_items(old.loop_count).push(value),
        Reg::Acc40High0 => same_except(old, new, 9) && new.acc40@ == old.acc40@.update(0, Acc40 { high: value as u8, ..old.acc40[0] }),
        Reg::Acc40High1 => same_except(old, new, 9) && new.acc40@ == old.acc40@.update(1, Acc40 { high: value as u8, ..old.acc40[1] }),
        Reg::Config => same_except(old, new, 11) && new.config == value as u8,
        Reg::Status => same_except(old, new, 12) && new.status.bits == value & !0x100u16,
        Reg::ProdLow => same_except(old, new, 8) && new.product == Product { low: value, ..old.product },
        Reg::ProdMid1 => same_except(old, new, 8) && new.product == Product { mid1: value, ..old.product },
        Reg::ProdHigh => same_except(old, new, 8) && new.product == Product { high: value as u8, ..old.product },
        Reg::ProdMid2 => same_except(old, new, 8) && new.product == Product { mid2: value, ..old.product },
        Reg::Acc32Low0 => same_except(old, new, 10) && new.acc32@ == old.acc32@.update(0, with_low16(old.acc32[0], value)),
        Reg::Acc32Low1 => same_except(old, new, 10) && new.acc32@ == old.acc32@.update(1, with_low16(old.acc32[1], value)),
        Reg::Acc32High0 => same_except(old, new, 10) && new.acc32@ == old.acc32@.update(0, with_high16(old.acc32[0], value)),
        Reg::Acc32High1 => same_except(old, new, 10) && new.acc32@ == old.acc32@.update(1, with_high16(old.acc32[1], value)),
        Reg::Acc40Low0 => same_except(old, new, 9) && new.acc40@ == old.acc40@.update(0, Acc40 { low: value, ..old.acc40[0] }),
        Reg::Acc40Low1 => same_except(old, new, 9) && new.acc40@ == old.acc40@.update(1, Acc40 { low: value, ..old.acc40[1] }),
        Reg::Acc40Mid0 => same_except(old, new, 9) && new.acc40@ == old.acc40@.update(0, Acc40 { mid: value, ..old.acc40[0] }),
        Reg::Acc40Mid1 => same_except(old, new, 9) && new.acc40@ == old.acc40@.update(1, Acc40 { mid: value, ..old.acc40[1] }),
    }
}

/// What a saturating write of `value` to `reg` does: writes to the middle part of an
/// accumulator with 40 bit sign extension on also clear its low part and sign-extend into its
/// high part, writes to the loop stack are dropped, and every other write is a plain one.
pub open spec fn wrote_saturating(old: Registers, new: Registers, reg: Reg, value: u16) -> bool {
    match reg {
        Reg::Acc40Mid0 | Reg::Acc40Mid1 => {
            let i = if reg == Reg::Acc40Mid0 { 0int } else { 1int };
            let high: u8 = if (value >> 15u16) & 1 == 1 { 0xFF } else { 0 };
            same_except(old, new, 9) && new.acc40@ == old.acc40@.update(
                i,
                if flag(old.status.bits, 14) {
                    Acc40 { low: 0, mid: value, high }
                } else {
                    Acc40 { mid: value, ..old.acc40[i] }
                },
            )
        },
        Reg::LoopStack => same_except(old, new, 13),
        _ => wrote(old, new, reg, value),
    }
}

impl Registers {
    /// The registers after reset: wrapping registers all ones, empty stacks, interrupts
    /// enabled, everything else zero.
    pub fn new() -> (r: Self)
        ensures
            r.pc == 0,
            r.addressing@ == seq![0u16, 0, 0, 0],
            r.indexing@ == seq![0u16, 0, 0, 0],
            r.wrapping@ == seq![0xFFFFu16, 0xFFFF, 0xFFFF, 0xFFFF],
            stack8_items(r.call_stack) == Seq::<u16>::empty(),
            stack4_items(r.data_stack) == Seq::<u16>::empty(),
            stack4_items(r.loop_stack) == Seq::<u16>::empty(),
            stack4_items(r.loop_count) == Seq::<u16>::empty(),
            r.product == (Product { low: 0, mid1: 0, mid2: 0, high: 0 }),
            r.acc40@ == seq![Acc40 { low: 0, mid: 0, high: 0 }, Acc40 { low: 0, mid: 0, high: 0 }],
            r.acc32@ == seq![0i32, 0],
            r.config == 0,
            r.status.bits == 0x0A00,
    {
        let r = Registers {
            pc: 0,
            addressing: [0; 4],
            indexing: [0; 4],
            wrapping: [0xFFFF; 4],
            call_stack: stack8_new(),
            data_stack: stack4_new(),
            loop_stack: stack4_new(),
            loop_count: stack4_new(),
            product: Product { low: 0, mid1: 0, mid2: 0, high: 0 },
            acc40: [Acc40 { low: 0, mid: 0, high: 0 }; 2],
            acc32: [0; 2],
            config: 0,
            status: Status::default(),
        };
        assert(r.addressing@ =~= seq![0u16, 0, 0, 0]);
        assert(r.indexing@ =~= seq![0u16, 0, 0, 0]);
        assert(r.wrapping@ =~= seq![0xFFFFu16, 0xFFFF, 0xFFFF, 0xFFFF]);
        assert(r.acc40@ =~= seq![Acc40 { low: 0, mid: 0, high: 0 }, Acc40 { low: 0, mid: 0, high: 0 }]);
        assert(r.acc32@ =~= seq![0i32, 0]);
        r
    }

    /// The middle part of accumulator `i` as it reads.
    fn acc_saturate(&self, i: usize) -> (v: u16)
        requires
            i < 2,
        ensures
            v == saturated_mid(*self, i as int),
    {
        let hml = self.acc40[i].get();
        let ml = hml as i32 as i64;
        if self.status.sign_extend_to_40() && ml != hml {
            if hml >= 0 {
                0x7FFF
            } else {
                0x8000
            }
        } else {
            self.acc40[i].mid
        }
    }

    /// Reads register `reg`.
    pub fn get(&self, reg: Reg) -> (v: u16)
        ensures
            v == reg_value(*self, reg),
    {
        match reg {
            Reg::Addr0 => self.addressing[0],
            Reg::Addr1 => self.addressing[1],
            Reg::Addr2 => self.addressing[2],
            Reg::Addr3 => self.addressing[3],
            Reg::Index0 => self.indexing[0],
            Reg::Index1 => self.indexing[1],
            Reg::Index2 => self.indexing[2],
            Reg::Index3 => self.indexing[3],
            Reg::Wrap0 => self.wrapping[0],
            Reg::Wrap1 => self.wrapping[1],
            Reg::Wrap2 => self.wrapping[2],
            Reg::Wrap3 => self.wrapping[3],
            Reg::CallStack => match stack8_last(&self.call_stack) {
                Some(v) => v,
                None => 0,
            },
            Reg::DataStack => match stack4_last(&self.data_stack) {
                Some(v) => v,
                None => 0,
            },
            Reg::LoopStack => match stack4_last(&self.loop_stack) {
                Some(v) => v,
                None => 0,
            },
            Reg::LoopCount => match stack4_last(&self.loop_count) {
                Some(v) => v,
                None => 0,
            },
            Reg::Acc40High0 => self.acc40[0].high as i8 as i16 as u16,
            Reg::Acc40High1 => self.acc40[1].high as i8 as i16 as u16,
            Reg::Config => self.config as u16,
            Reg::Status => self.status.to_bits(),
            Reg::ProdLow => self.product.low,
            Reg::ProdMid1 => self.product.mid1,
            Reg::ProdHigh => self.product.high as u16,
            Reg::ProdMid2 => self.product.mid2,
            Reg::Acc32Low0 => self.acc32[0] as u16,
            Reg::Acc32Low1 => self.acc32[1] as u16,
            Reg::Acc32High0 => (self.acc32[0] >> 16) as u16,
            Reg::Acc32High1 => (self.acc32[1] >> 16) as u16,
            Reg::Acc40Low0 => self.acc40[0].low,
            Reg::Acc40Low1 => self.acc40[1].low,
            Reg::Acc40Mid0 => self.acc_saturate(0),
            Reg::Acc40Mid1 => self.acc_saturate(1),
        }
    }

    /// Writes `value` to register `reg`; writes to a stack register push onto that stack.
    pub fn set(&mut self, reg: Reg, value: u16)
        requires
            can_write(*old(self), reg),
        ensures
            wrote(*old(self), *final(self), reg, value),
    {
        match reg {
            Reg::Addr0 => self.addressing[0] = value,
            Reg::Addr1 => self.addressing[1] = value,
            Reg::Addr2 => self.addressing[2] = value,
            Reg::Addr3 => self.addressing[3] = value,
            Reg::Index0 => self.indexing[0] = value,
            Reg::Index1 => self.indexing[1] = value,
            Reg::Index2 => self.indexing[2] = value,
            Reg::Index3 => self.indexing[3] = value,
            Reg::Wrap0 => self.wrapping[0] = value,
            Reg::Wrap1 => self.wrapping[1] = value,
            Reg::Wrap2 => self.wrapping[2] = value,
            Reg::Wrap3 => self.wrapping[3] = value,
            Reg::CallStack => stack8_push(&mut self.call_stack, value),
            Reg::DataStack => stack4_push(&mut self.data_stack, value),
            Reg::LoopStack => stack4_push(&mut self.loop_stack, value),
            Reg::LoopCount => stack4_push(&mut self.loop_count, value),
            Reg::Acc40High0 => self.acc40[0].high = value as u8,
            Reg::Acc40High1 => self.acc40[1].high = value as u8,
            Reg::Config => self.config = value as u8,
            Reg::Status => self.status = Status::from_bits(value & !0x100),
            Reg::ProdLow => self.product.low = value,
            Reg::ProdMid1 => self.product.mid1 = value,
            Reg::ProdHigh => self.product.high = value as u8,
            Reg::ProdMid2 => self.product.mid2 = value,
            Reg::Acc32Low0 => self.acc32[0] = ((self.acc32[0] as u32 & 0xFFFF_0000) | (value as u32)) as i32,
            Reg::Acc32Low1 => self.acc32[1] = ((self.acc32[1] as u32 & 0xFFFF_0000) | (value as u32)) as i32,
            Reg::Acc32High0 => self.acc32[0] = ((self.acc32[0] as u32 & 0xFFFF) | ((value as u32) << 16)) as i32,
            Reg::Acc32High1 => self.acc32[1] = ((self.acc32[1] as u32 & 0xFFFF) | ((value as u32) << 16)) as i32,
            Reg::Acc40Low0 => self.acc40[0].low = value,
            Reg::Acc40Low1 => self.acc40[1].low = value,
            Reg::Acc40Mid0 => self.acc40[0].mid = value,
            Reg::Acc40Mid1 => self.acc40[1].mid = value,
        }
    }

    /// Writes `value` to register `reg` as moves between registers do: see
    /// [`wrote_saturating`].
    pub fn set_saturate(&mut self, reg: Reg, value: u16)
        requires
            reg != Reg::LoopStack ==> can_write(*old(self), reg),
        ensures
            wrote_saturating(*old(self), *final(self), reg, value),
    {
        match reg {
            Reg::Acc40Mid0 | Reg::Acc40Mid1 => {
                let i: usize = if reg == Reg::Acc40Mid0 { 0 } else { 1 };
                if !self.status.sign_extend_to_40() {
                    let a = self.acc40[i];
                    self.acc40[i] = Acc40 { mid: value, ..a };
                } else {
                    let high: u8 = if (value >> 15) & 1 == 1 { 0xFF } else { 0 };
                    self.acc40[i] = Acc40 { low: 0, mid: value, high };
                }
                proof {
                    assert(final(self).acc40@ =~= old(self).acc40@.update(i as int, self.acc40[i as int]));
                }
            },
            Reg::LoopStack => {},
            _ => self.set(reg, value),
        }
    }
}

/// Reading a register just written gives back the value written, for every register that
/// holds all 16 bits it is given and does not saturate on reads.
pub proof fn law_read_after_write(old: Registers, new: Registers, reg: Reg, value: u16)
    requires
        wrote(old, new, reg, value),
        reg != Reg::Acc40High0 && reg != Reg::Acc40High1 && reg != Reg::Config && reg != Reg::Status
            && reg != Reg::ProdHigh && reg != Reg::Acc40Mid0 && reg != Reg::Acc40Mid1,
    ensures
        reg_value(new, reg) == value,
{
    assert(with_low16(old.acc32[0], value) as u16 == value && (with_high16(old.acc32[0], value) >> 16i32) as u16 == value
        && with_low16(old.acc32[1], value) as u16 == value && (with_high16(old.acc32[1], value) >> 16i32) as u16 == value) by {
        lemma_halves(old.acc32[0], value);
        lemma_halves(old.acc32[1], value);
    }
}

/// Replacing one half of a 32 bit accumulator leaves that half reading as the new value.
proof fn lemma_halves(a: i32, v: u16)
    by (bit_vector)
    ensures
        (((a as u32 & 0xFFFF_0000u32) | (v as u32)) as i32) as u16 == v,
        ((((a as u32 & 0xFFFFu32) | ((v as u32) << 16u32)) as i32) >> 16i32) as u16 == v,
{
}

} // verus!
