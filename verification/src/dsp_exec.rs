//! Execution of DSP instructions that work on the register file.
use vstd::prelude::*;
use crate::dsp::{ACC40_MIN, Acc40, reg_at, wrote_saturating, stack8_push, stack8_pop, stack8_last, stack4_push, stack4_pop, stack4_last, Product, Registers, Reg, Status, flag, with_flag, sext40, same_except, reg_value, can_write, stack8_items, stack4_items};
use crate::dsp_ins::{CondCode, Ins};

verus! {

/// Whether an addition from `lhs` to `new` carried out of bit 63.
pub open spec fn spec_add_carried(lhs: i64, new: i64) -> bool {
    (lhs as u64) > (new as u64)
}

/// Whether a subtraction from `lhs` to `new` did not borrow.
pub open spec fn spec_sub_carried(lhs: i64, new: i64) -> bool {
    (lhs as u64) >= (new as u64)
}

/// Whether adding two operands of the same sign gave a result of the other sign (or zero).
pub open spec fn spec_add_overflowed(lhs: i64, rhs: i64, new: i64) -> bool {
    (lhs > 0 && rhs > 0 && new <= 0) || (lhs < 0 && rhs < 0 && new >= 0)
}

/// Whether `lhs - rhs` overflowed into `new`.
pub open spec fn spec_sub_overflowed(lhs: i64, rhs: i64, new: i64) -> bool {
    spec_add_overflowed(lhs, (-rhs) as i64, new)
}

fn add_carried(lhs: i64, new: i64) -> (r: bool)
    ensures
        r == spec_add_carried(lhs, new),
{
    lhs as u64 > new as u64
}

fn sub_carried(lhs: i64, new: i64) -> (r: bool)
    ensures
        r == spec_sub_carried(lhs, new),
{
    lhs as u64 >= new as u64
}

fn add_overflowed(lhs: i64, rhs: i64, new: i64) -> (r: bool)
    ensures
        r == spec_add_overflowed(lhs, rhs, new),
{
    (lhs > 0 && rhs > 0 && new <= 0) || (lhs < 0 && rhs < 0 && new >= 0)
}

fn sub_overflowed(lhs: i64, rhs: i64, new: i64) -> (r: bool)
    requires
        rhs > i64::MIN,
    ensures
        r == spec_sub_overflowed(lhs, rhs, new),
{
    add_overflowed(lhs, -rhs, new)
}

/// `value` rounded to a multiple of 0x10000, ties to even.
pub open spec fn spec_round_40(value: i64) -> i64 {
    if (value >> 16u64) & 1 == 1 {
        ((value + 0x8000) as i64) & !0xFFFFi64
    } else {
        ((value + 0x7FFF) as i64) & !0xFFFFi64
    }
}

/// Rounding gives the multiple of 0x10000 nearest to `value`, and of two equally near the
/// one whose bit 16 is clear.
pub proof fn law_round_40_nearest_even(value: i64)
    by (bit_vector)
    requires
        value <= i64::MAX - 0x8000,
    ensures
        spec_round_40(value) & 0xFFFF == 0,
        value - 0x8000 <= spec_round_40(value) <= value + 0x8000,
        (spec_round_40(value) == value - 0x8000 || spec_round_40(value) == value + 0x8000)
            ==> (spec_round_40(value) >> 16u64) & 1 == 0,
{
}

/// Rounds `value` to a multiple of 0x10000, ties to even.
fn round_40(value: i64) -> (r: i64)
    requires
        value <= i64::MAX - 0x8000,
    ensures
        r == spec_round_40(value),
{
    if (value >> 16) & 1 == 1 {
        (value + 0x8000) & !0xFFFF
    } else {
        (value + 0x7FFF) & !0xFFFF
    }
}

/// A mask of the significant bits of a wrapping register: the smallest `2^n - 1` with `n >= 1`
/// that is at least `wr`.
pub open spec fn wrap_mask(wr: u16) -> u16 {
    let n = 16 - vstd::std_specs::bits::u16_leading_zeros(wr);
    let n = if n < 1 { 1 } else { n };
    if n >= 16 {
        0xFFFFu16
    } else {
        ((1u16 << (n as u16)) - 1) as u16
    }
}

/// Adds `value` to the address register `ar` modulo the buffer that the wrapping register `wr`
/// describes, `mask` being the significant bits of `wr`: crossing the end of the buffer (the
/// carry out of the bits under `mask`) moves the result back by `wr + 1`, and crossing its
/// start moves it forward by `wr + 1`.
pub open spec fn add_masked(ar: u16, wr: u16, mask: u16, value: i16) -> u16 {
    let carry = (ar & mask) as int + (value as u16 & mask) as int > mask as int;
    let result = ar.wrapping_add_signed(value);
    if value >= 0 {
        if carry {
            result.wrapping_sub(wr.wrapping_add(1))
        } else {
            result
        }
    } else {
        let carry_again = (result & mask) < (!wr & mask);
        if !carry || carry_again {
            result.wrapping_add(wr.wrapping_add(1))
        } else {
            result
        }
    }
}

/// Adds `value` to the address register `ar` modulo the buffer that the wrapping register `wr`
/// describes (see [`add_masked`]), masked by [`wrap_mask`].
pub open spec fn spec_add_to_addr_reg(ar: u16, wr: u16, value: i16) -> u16 {
    add_masked(ar, wr, wrap_mask(wr), value)
}

/// Subtracts `value` from the address register `ar` modulo the buffer that `wr` describes,
/// `mask` being its significant bits: adds the one's complement of `value` and one, wrapping
/// as [`add_masked`] does.
pub open spec fn sub_masked(ar: u16, wr: u16, mask: u16, value: i16) -> u16 {
    let value = !value;
    let carry = (ar & mask) as int + (value as u16 & mask) as int + 1 > mask as int;
    let result = ar.wrapping_add_signed(value).wrapping_add(1);
    if value.wrapping_add(1) > 0 {
        if carry {
            result.wrapping_sub(wr.wrapping_add(1))
        } else {
            result
        }
    } else {
        let carry_again = (result & mask) < (!wr & mask);
        if !carry || carry_again {
            result.wrapping_add(wr.wrapping_add(1))
        } else {
            result
        }
    }
}

/// Subtracts `value` from the address register `ar` modulo the buffer that `wr` describes
/// (see [`sub_masked`]), masked by [`wrap_mask`].
pub open spec fn spec_sub_from_addr_reg(ar: u16, wr: u16, value: i16) -> u16 {
    sub_masked(ar, wr, wrap_mask(wr), value)
}

/// With a wrapping register of all ones below its highest set bit, stepping an address
/// register back by what it was stepped on gives it back.
proof fn lemma_masked_inverse(ar: u16, wr: u16, value: i16)
    by (bit_vector)
    requires
        wr != 0,
        wr & wr.wrapping_add(1) == 0,
        value != i16::MIN,
    ensures
        sub_masked(add_masked(ar, wr, wr, value), wr, wr, value) == ar,
{
}

/// Bits of a wrapping register that is all ones below its highest set bit.
proof fn lemma_ones_bits(wr: u16, lz: u16)
    by (bit_vector)
    requires
        wr != 0,
        wr & wr.wrapping_add(1) == 0,
        lz < 16,
        (wr >> ((15 - lz) as u16)) & 1u16 != 0u16,
        wr >> ((16 - lz) as u16) == 0,
    ensures
        lz == 0 ==> wr == 0xFFFF,
        lz > 0 ==> (((1u16 << ((16 - lz) as u16)) - 1) as u16) == wr,
{
}

/// The significant bits of a wrapping register that is all ones below its highest set bit
/// are the register itself.
proof fn lemma_wrap_mask_ones(wr: u16)
    requires
        wr != 0,
        wr & wr.wrapping_add(1) == 0,
    ensures
        wrap_mask(wr) == wr,
{
    vstd::std_specs::bits::axiom_u16_leading_zeros(wr);
    let l = vstd::std_specs::bits::u16_leading_zeros(wr);
    let lz = l as u16;
    lemma_ones_bits(wr, lz);
    if lz > 0 {
        assert(1u16 << ((16 - lz) as u16) >= 1) by (bit_vector)
            requires
                0 < lz < 16,
        ;
    }
}

/// With a wrapping register of all ones below its highest set bit (a buffer of a power of
/// two words), stepping an address register back by what it was stepped on gives it back.
pub proof fn law_step_back_undoes_step(ar: u16, wr: u16, value: i16)
    requires
        wr != 0,
        wr & wr.wrapping_add(1) == 0,
        value != i16::MIN,
    ensures
        spec_sub_from_addr_reg(spec_add_to_addr_reg(ar, wr, value), wr, value) == ar,
{
    lemma_wrap_mask_ones(wr);
    lemma_masked_inverse(ar, wr, value);
}

/// With a wrapping register of all ones below its highest set bit and a step that stays
/// within one buffer length, stepping on keeps the bits above the buffer and adds under it.
proof fn lemma_masked_add_is_modular(ar: u16, wr: u16, value: i16)
    by (bit_vector)
    requires
        wr & wr.wrapping_add(1) == 0,
        (value as u16) & !wr == 0 || (!value as u16) & !wr == 0,
    ensures
        add_masked(ar, wr, wr, value) == (ar & !wr) | (ar.wrapping_add_signed(value) & wr),
{
}

/// With a wrapping register `wr` of all ones below its highest set bit (a buffer of a power
/// of two words), an address register steps around its buffer: the bits above the buffer
/// stay and the bits under it take the sum, for any step of at most a buffer length either
/// way.
pub proof fn law_buffer_addressing(ar: u16, wr: u16, value: i16)
    requires
        wr != 0,
        wr & wr.wrapping_add(1) == 0,
        (value as u16) & !wr == 0 || (!value as u16) & !wr == 0,
    ensures
        spec_add_to_addr_reg(ar, wr, value) == (ar & !wr) | (ar.wrapping_add_signed(value) & wr),
{
    lemma_wrap_mask_ones(wr);
    lemma_masked_add_is_modular(ar, wr, value);
}

/// What the loop check before each instruction does to the registers `old`, giving `new`: at
/// the end of a block loop, counts one iteration down, popping the loop's entries on the last
/// one and otherwise jumping back to its start; elsewhere nothing.
pub open spec fn stacks_checked(old: Registers, new: Registers) -> bool {
    let ls = stack4_items(old.loop_stack);
    let lc = stack4_items(old.loop_count);
    let cs = stack8_items(old.call_stack);
    if ls.len() > 0 && ls.last() == old.pc {
        let counter = if lc.last() > 0 { (lc.last() - 1) as u16 } else { 0u16 };
        if counter == 0 {
            &&& stack8_items(new.call_stack) == if cs.len() > 0 { cs.drop_last() } else { cs }
            &&& stack4_items(new.loop_stack) == ls.drop_last()
            &&& stack4_items(new.loop_count) == lc.drop_last()
            &&& new.pc == old.pc
        } else {
            &&& stack8_items(new.call_stack) == cs
            &&& stack4_items(new.loop_stack) == ls
            &&& stack4_items(new.loop_count) == lc.drop_last().push(counter)
            &&& new.pc == cs.last()
        }
    } else {
        new == old
    }
}

/// Whether the loop check can run on `r`: at the end of a block loop, its count is there, and
/// where the loop goes round again (a count above one), so is the address it returns to.
pub open spec fn stacks_ok(r: Registers) -> bool {
    stack4_items(r.loop_stack).len() > 0 && stack4_items(r.loop_stack).last() == r.pc ==> {
        &&& stack4_items(r.loop_count).len() > 0
        &&& stack4_items(r.loop_count).last() > 1 ==> stack8_items(r.call_stack).len() > 0
    }
}

/// A left shift of one by less than the width is at least one.
proof fn lemma_shl_one(n: u16)
    by (bit_vector)
    requires
        n < 16,
    ensures
        1u16 << n >= 1,
{
}

fn wrap_mask_of(wr: u16) -> (mask: u16)
    ensures
        mask == wrap_mask(wr),
{
    let n = 16 - wr.leading_zeros();
    let n = if n < 1 { 1 } else { n };
    proof {
        vstd::std_specs::bits::axiom_u16_leading_zeros(wr);
    }
    if n >= 16 {
        0xFFFF
    } else {
        proof {
            lemma_shl_one(n as u16);
        }
        (1u16 << (n as u16)) - 1
    }
}

/// Adds `value` to an address register, wrapping around the buffer that `wr` describes.
pub fn add_to_addr_reg(ar: u16, wr: u16, value: i16) -> (r: u16)
    ensures
        r == spec_add_to_addr_reg(ar, wr, value),
{
    let mask = wrap_mask_of(wr);
    let carry = ((ar & mask) as u32 + (value as u16 & mask) as u32) > mask as u32;
    let mut result = ar.wrapping_add_signed(value);
    if value >= 0 {
        if carry {
            result = result.wrapping_sub(wr.wrapping_add(1));
        }
    } else {
        let low_sum = result & mask;
        let low_not_wrap = (!wr) & mask;
        let carry_again = low_sum < low_not_wrap;
        if !carry || carry_again {
            result = result.wrapping_add(wr.wrapping_add(1));
        }
    }
    result
}

/// Subtracts `value` from an address register, wrapping around the buffer that `wr`
/// describes.
pub fn sub_from_addr_reg(ar: u16, wr: u16, value: i16) -> (r: u16)
    ensures
        r == spec_sub_from_addr_reg(ar, wr, value),
{
    let value = !value;
    let mask = wrap_mask_of(wr);
    let carry = ((ar & mask) as u32 + (value as u16 & mask) as u32 + 1) > mask as u32;
    let mut result = ar.wrapping_add_signed(value).wrapping_add(1);
    if value.wrapping_add(1) > 0 {
        if carry {
            result = result.wrapping_sub(wr.wrapping_add(1));
        }
    } else {
        let low_sum = result & mask;
        let low_not_wrap = (!wr) & mask;
        let carry_again = low_sum < low_not_wrap;
        if !carry || carry_again {
            result = result.wrapping_add(wr.wrapping_add(1));
        }
    }
    result
}

/// Facts about the all-ones wrapping register.
proof fn lemma_all_ones(x: u16)
    by (bit_vector)
    ensures
        x & 0xFFFFu16 == x,
        !0xFFFFu16 & 0xFFFFu16 == 0,
        (0xFFFFu16 >> 15u16) & 1u16 == 1u16,
{
}

/// The all-ones wrapping register masks all 16 bits.
proof fn lemma_wrap_mask_all_ones()
    ensures
        wrap_mask(0xFFFF) == 0xFFFF,
{
    vstd::std_specs::bits::axiom_u16_leading_zeros(0xFFFF);
    lemma_all_ones(0);
    let lz = vstd::std_specs::bits::u16_leading_zeros(0xFFFF);
    if lz > 0 {
        assert((0xFFFFu16 >> 15u16) & 1u16 == 0u16);
    }
}

/// With the all-ones wrapping register, stepping an address register is plain wrapping
/// arithmetic on 16 bits.
pub proof fn law_linear_addressing(ar: u16, value: i16)
    ensures
        spec_add_to_addr_reg(ar, 0xFFFF, value) == ar.wrapping_add_signed(value),
        spec_sub_from_addr_reg(ar, 0xFFFF, value) == ar.wrapping_add_signed(!value).wrapping_add(1),
{
    lemma_wrap_mask_all_ones();
    lemma_all_ones(ar);
    lemma_all_ones(value as u16);
    lemma_all_ones(!value as u16);
    lemma_all_ones(ar.wrapping_add_signed(value));
    lemma_all_ones(ar.wrapping_add_signed(!value).wrapping_add(1));
}

} // verus!

verus! {

/// The memories of the DSP: instruction RAM and ROM, data RAM and coefficient ROM.
pub struct Memory {
    pub iram: Vec<u16>,
    pub irom: Vec<u16>,
    pub dram: Vec<u16>,
    pub coef: Vec<u16>,
}

impl Memory {
    /// Whether every memory has its size.
    pub open spec fn wf(&self) -> bool {
        &&& self.iram.len() == 0x1000
        &&& self.irom.len() == 0x1000
        &&& self.dram.len() == 0x1000
        &&& self.coef.len() == 0x0800
    }

    /// Zero-filled memories.
    pub fn new() -> (m: Self)
        ensures
            m.wf(),
            forall|i: int| 0 <= i < 0x1000 ==> m.iram@[i] == 0 && m.irom@[i] == 0 && m.dram@[i] == 0,
            forall|i: int| 0 <= i < 0x0800 ==> m.coef@[i] == 0,
    {
        Memory {
            iram: vec![0u16; 0x1000],
            irom: vec![0u16; 0x1000],
            dram: vec![0u16; 0x1000],
            coef: vec![0u16; 0x0800],
        }
    }
}

/// The big-endian 16-bit words of `bytes`, two bytes each.
pub open spec fn dsp_words(bytes: Seq<u8>) -> Seq<u16> {
    Seq::new(bytes.len() / 2, |i: int| (bytes[2 * i] * 256 + bytes[2 * i + 1]) as u16)
}

/// The words of a ROM image: its bytes read as big-endian 16-bit words, `n` of them, where
/// the image holds `2 * n` or `2 * n + 1` bytes.
pub fn convert_to_dsp_words(bytes: &[u8], n: usize) -> (r: Vec<u16>)
    requires
        bytes@.len() / 2 == n,
    ensures
        r@ == dsp_words(bytes@),
{
    let blen = bytes.len();
    let mut r: Vec<u16> = Vec::new();
    let mut i: usize = 0;
    while i < n
        invariant
            i <= n,
            blen == bytes@.len(),
            bytes@.len() / 2 == n,
            r@ =~= dsp_words(bytes@).take(i as int),
        decreases n - i,
    {
        let hi = bytes[2 * i] as u16;
        let lo = bytes[2 * i + 1] as u16;
        r.push(hi * 256 + lo);
        i += 1;
        assert(r@ =~= dsp_words(bytes@).take(i as int));
    }
    assert(r@ =~= dsp_words(bytes@));
    r
}

/// State of the ARAM accelerator.
#[derive(Debug, Clone, Copy, PartialEq, Eq, Structural)]
pub struct Accelerator {
    pub format: u16,
    pub gain: u16,
    pub pred_scale: u16,
    pub aram_start: u32,
    pub aram_end: u32,
    pub aram_curr: u32,
}

/// The DSP interpreter.
pub struct Interpreter {
    pub regs: Registers,
    pub mem: Memory,
    pub accel: Accelerator,
    pub loop_counter: Option<u16>,
    pub old_reset_high: bool,
}

/// Whether `new` holds the same registers as `old` in every field but the ones numbered `f`
/// and `g` (in declaration order).
pub open spec fn keeps(old: Registers, new: Registers, f: int, g: int) -> bool {
    &&& (0 != f && 0 != g ==> new.pc == old.pc)
    &&& (1 != f && 1 != g ==> new.addressing == old.addressing)
    &&& (2 != f && 2 != g ==> new.indexing == old.indexing)
    &&& (3 != f && 3 != g ==> new.wrapping == old.wrapping)
    &&& (4 != f && 4 != g ==> new.call_stack == old.call_stack)
    &&& (5 != f && 5 != g ==> new.data_stack == old.data_stack)
    &&& (6 != f && 6 != g ==> new.loop_stack == old.loop_stack)
    &&& (7 != f && 7 != g ==> new.loop_count == old.loop_count)
    &&& (8 != f && 8 != g ==> new.product == old.product)
    &&& (9 != f && 9 != g ==> new.acc40 == old.acc40)
    &&& (10 != f && 10 != g ==> new.acc32 == old.acc32)
    &&& (11 != f && 11 != g ==> new.config == old.config)
    &&& (12 != f && 12 != g ==> new.status == old.status)
}

/// Whether `new` differs from `old` in its registers alone.
pub open spec fn only_regs(old: Interpreter, new: Interpreter) -> bool {
    &&& new.mem == old.mem
    &&& new.accel == old.accel
    &&& new.loop_counter == old.loop_counter
    &&& new.old_reset_high == old.old_reset_high
}

/// The status bits after an arithmetic result `value`: sign, zero, whether it leaves the 32
/// bit range, whether bits 30 and 31 agree, and the sticky overflow.
pub open spec fn spec_base_flags(bits: u16, value: i64) -> u16 {
    let b = with_flag(bits, 3, value < 0);
    let b = with_flag(b, 2, value == 0);
    let b = with_flag(b, 4, value > 0x7FFF_FFFF || value < -0x8000_0000);
    let b = with_flag(b, 5, (value >> 30u64) & 1 == (value >> 31u64) & 1);
    with_flag(b, 7, flag(b, 1) || flag(b, 7))
}

/// The status bits after an arithmetic operation with the given carry and overflow.
pub open spec fn arith_status(bits: u16, carry: bool, overflow: bool, value: i64) -> u16 {
    spec_base_flags(with_flag(with_flag(bits, 0, carry), 1, overflow), value)
}

/// The status bits after a logic operation on the middle part of an accumulator: zero and sign
/// follow that middle part.
pub open spec fn logic_status(bits: u16, value: i64, mid: u16) -> u16 {
    with_flag(with_flag(arith_status(bits, false, false, value), 2, mid == 0), 3, (mid as i16) < 0)
}

/// The half of a 32 bit accumulator that index `s` picks: low halves first.
pub open spec fn acc32_half(r: Registers, s: int) -> u16 {
    if s == 0 {
        r.acc32[0] as u16
    } else if s == 1 {
        r.acc32[1] as u16
    } else if s == 2 {
        (r.acc32[0] >> 16i32) as u16
    } else {
        (r.acc32[1] >> 16i32) as u16
    }
}

/// Fields of an instruction word fit their widths.
pub(crate) proof fn lemma_field(x: u16)
    by (bit_vector)
    ensures
        forall|k: u16| #![trigger (x >> k)] (x >> k) & 1 <= 1,
        forall|k: u16| #![trigger (x >> k)] (x >> k) & 3 <= 3,
        forall|k: u16| #![trigger (x >> k)] (x >> k) & 7 <= 7,
        forall|k: u16| #![trigger (x >> k)] (x >> k) & 0xF <= 0xF,
        forall|k: u16| #![trigger (x >> k)] (x >> k) & 0x1F <= 0x1F,
        x & 0x3F <= 0x3F,
        x & 0xFF <= 0xFF,
        x & 0x7 <= 0x7,
        x & 0x3 <= 0x3,
        x & 0xF <= 0xF,
        x & 0x1F <= 0x1F,
{
}

/// Bit `k` of an instruction word, as an index.
pub open spec fn bit_index(base: u16, k: u16) -> int {
    ((base >> k) & 1) as int
}

/// A 16 bit word, signed, shifted into the middle part of an accumulator.
pub open spec fn shifted_word(w: u16) -> i64 {
    ((w as i16 as i64) * 65536) as i64
}

/// The low byte of an instruction word, signed, shifted into the middle part of an
/// accumulator.
pub open spec fn shifted_byte(base: u16) -> i64 {
    (((base & 0xFF) as u8 as i8 as i64) * 65536) as i64
}

/// The high half of a 32 bit accumulator shifted into the middle part of an accumulator.
pub open spec fn shifted_high(a: i32) -> i64 {
    (((a >> 16i32) as i64) * 65536) as i64
}

/// The difference of two accumulator values, sign-extended from 40 bits.
pub open spec fn diff40(lhs: i64, rhs: i64) -> i64 {
    sext40((lhs - rhs) as i64)
}

/// The high half of a 32 bit value is a 16 bit value.
proof fn lemma_high_half(a: i32)
    by (bit_vector)
    ensures
        -0x8000i32 <= a >> 16i32 <= 0x7FFFi32,
{
}

pub(crate) fn acc_bit(base: u16, k: u16) -> (r: usize)
    requires
        k < 16,
    ensures
        r == bit_index(base, k),
        r < 2,
{
    proof {
        lemma_field(base);
    }
    ((base >> k) & 1) as usize
}

fn shift_word(w: u16) -> (r: i64)
    ensures
        r == shifted_word(w),
{
    (w as i16 as i64) * 65536
}

fn shift_byte(base: u16) -> (r: i64)
    ensures
        r == shifted_byte(base),
{
    ((base & 0xFF) as u8 as i8 as i64) * 65536
}

fn shift_high(a: i32) -> (r: i64)
    ensures
        r == shifted_high(a),
        -0x8000_0000i64 <= r < 0x8000_0000i64,
{
    proof {
        lemma_high_half(a);
    }
    ((a >> 16) as i64) * 65536
}

/// Whether condition `code` holds for the status bits `bits`.
pub open spec fn spec_condition(bits: u16, code: CondCode) -> bool {
    let carry = flag(bits, 0);
    let overflow = flag(bits, 1);
    let zero = flag(bits, 2);
    let sign = flag(bits, 3);
    let above_s32 = flag(bits, 4);
    let top_two = flag(bits, 5);
    let logic_zero = flag(bits, 6);
    match code {
        CondCode::GreaterOrEqual => overflow == sign,
        CondCode::Less => overflow != sign,
        CondCode::Greater => overflow == sign && !zero,
        CondCode::LessOrEqual => overflow != sign || zero,
        CondCode::NotZero => !zero,
        CondCode::Zero => zero,
        CondCode::NotCarry => !carry,
        CondCode::Carry => carry,
        CondCode::BelowS32 => !above_s32,
        CondCode::AboveS32 => above_s32,
        CondCode::WeirdA => (above_s32 || top_two) && !zero,
        CondCode::WeirdB => (!above_s32 && !top_two) || zero,
        CondCode::NotLogicZero => !logic_zero,
        CondCode::LogicZero => logic_zero,
        CondCode::Overflow => overflow,
        CondCode::Always => true,
    }
}

/// The condition in the low 4 bits of an instruction word.
pub open spec fn cond_of(base: u16) -> CondCode {
    cond_at((base & 0xF) as u8)
}

/// The condition with the 4 bit encoding `v`.
pub open spec fn cond_at(v: u8) -> CondCode {
    if v == 0 { CondCode::GreaterOrEqual }
    else if v == 1 { CondCode::Less }
    else if v == 2 { CondCode::Greater }
    else if v == 3 { CondCode::LessOrEqual }
    else if v == 4 { CondCode::NotZero }
    else if v == 5 { CondCode::Zero }
    else if v == 6 { CondCode::NotCarry }
    else if v == 7 { CondCode::Carry }
    else if v == 8 { CondCode::BelowS32 }
    else if v == 9 { CondCode::AboveS32 }
    else if v == 10 { CondCode::WeirdA }
    else if v == 11 { CondCode::WeirdB }
    else if v == 12 { CondCode::NotLogicZero }
    else if v == 13 { CondCode::LogicZero }
    else if v == 14 { CondCode::Overflow }
    else { CondCode::Always }
}

pub(crate) fn cond_in(base: u16) -> (c: CondCode)
    ensures
        c == cond_of(base),
{
    proof {
        lemma_field(base);
    }
    let c = CondCode::new((base & 0xF) as u8);
    proof {
        let v = (base & 0xF) as u8;
        assert(c.code() == v);
    }
    c
}

/// What instruction memory holds at `addr`.
pub open spec fn spec_read_imem(mem: Memory, addr: u16) -> u16 {
    if addr < 0x1000 {
        mem.iram@[addr as int]
    } else if 0x8000 <= addr < 0x9000 {
        mem.irom@[addr - 0x8000]
    } else {
        0
    }
}

/// Rounding a 40 bit value stays well inside the 64 bit range.
proof fn lemma_round_40_range(v: i64)
    by (bit_vector)
    requires
        -0x80_0000_0000i64 <= v < 0x80_0000_0000i64,
    ensures
        -0x100_0000_0000i64 <= spec_round_40(v) < 0x100_0000_0000i64,
{
}

impl Interpreter {
    /// Whether the memories have their sizes.
    pub open spec fn wf(&self) -> bool {
        self.mem.wf()
    }

    /// A DSP after power-on: reset registers, zeroed memories, no loop running.
    pub fn new() -> (i: Self)
        ensures
            i.wf(),
            i.loop_counter is None,
            !i.old_reset_high,
            i.accel == (Accelerator { format: 0, gain: 0, pred_scale: 0, aram_start: 0, aram_end: 0, aram_curr: 0 }),
    {
        Interpreter {
            regs: Registers::new(),
            mem: Memory::new(),
            accel: Accelerator {
                format: 0,
                gain: 0,
                pred_scale: 0,
                aram_start: 0,
                aram_end: 0,
                aram_curr: 0,
            },
            loop_counter: None,
            old_reset_high: false,
        }
    }

    /// Stores the low 40 bits of `value` in accumulator `d`, returning what it now holds.
    fn set_acc(&mut self, d: usize, value: i64) -> (new: i64)
        requires
            d < 2,
        ensures
            new == sext40(value),
            final(self).regs.acc40@ == old(self).regs.acc40@.update(d as int, Acc40::spec_from(value)),
            keeps(old(self).regs, final(self).regs, 9, 9),
            only_regs(*old(self), *final(self)),
    {
        let a = Acc40::from(value);
        self.regs.acc40[d] = a;
        a.get()
    }

    /// Updates the status flags after an arithmetic result.
    fn base_flags(&mut self, value: i64)
        ensures
            final(self).regs.status.bits == spec_base_flags(old(self).regs.status.bits, value),
            keeps(old(self).regs, final(self).regs, 12, 12),
            only_regs(*old(self), *final(self)),
    {
        self.regs.status.set_sign(value < 0);
        self.regs.status.set_arithmetic_zero(value == 0);
        self.regs.status.set_above_s32(value > 0x7FFF_FFFF || value < -0x8000_0000);
        self.regs.status.set_top_two_bits_eq((value >> 30) & 1 == (value >> 31) & 1);
        let fused = self.regs.status.overflow() || self.regs.status.overflow_fused();
        self.regs.status.set_overflow_fused(fused);
    }

    /// Sets carry and overflow, then the flags for an arithmetic result.
    fn set_flags(&mut self, carry: bool, overflow: bool, value: i64)
        ensures
            final(self).regs.status.bits == arith_status(old(self).regs.status.bits, carry, overflow, value),
            keeps(old(self).regs, final(self).regs, 12, 12),
            only_regs(*old(self), *final(self)),
    {
        self.regs.status.set_carry(carry);
        self.regs.status.set_overflow(overflow);
        self.base_flags(value);
    }

    /// Sets the flags for `lhs - rhs`, leaving the accumulators alone.
    fn compare(&mut self, lhs: i64, rhs: i64)
        requires
            -0x80_0000_0000i64 <= lhs < 0x80_0000_0000i64,
            -0x80_0000_0000i64 <= rhs < 0x80_0000_0000i64,
        ensures
            final(self).regs.status.bits == arith_status(old(self).regs.status.bits, spec_sub_carried(lhs, diff40(lhs, rhs)), spec_sub_overflowed(lhs, rhs, diff40(lhs, rhs)), diff40(lhs, rhs)),
            keeps(old(self).regs, final(self).regs, 12, 12),
            only_regs(*old(self), *final(self)),
    {
        let diff = Acc40::from(lhs - rhs).get();
        self.set_flags(sub_carried(lhs, diff), sub_overflowed(lhs, rhs, diff), diff);
    }

    /// Stores a new middle part in accumulator `d` and sets the flags as logic operations do.
    fn finish_logic(&mut self, d: usize, mid: u16)
        requires
            d < 2,
        ensures
            ({
                let acc = Acc40 { mid, ..old(self).regs.acc40[d as int] };
                &&& final(self).regs.acc40@ == old(self).regs.acc40@.update(d as int, acc)
                &&& final(self).regs.status.bits == logic_status(old(self).regs.status.bits, acc.value(), mid)
                &&& keeps(old(self).regs, final(self).regs, 9, 12)
            }),
            only_regs(*old(self), *final(self)),
    {
        let a = self.regs.acc40[d];
        self.regs.acc40[d] = Acc40 { mid, ..a };
        let new = self.regs.acc40[d].get();
        self.set_flags(false, false, new);
        self.regs.status.set_arithmetic_zero(mid == 0);
        self.regs.status.set_sign((mid as i16) < 0);
    }

    /// Adds the other accumulator to accumulator `d` (bit 8).
    pub fn add(&mut self, ins: Ins)
        ensures
            ({
                let d = ((ins.base >> 8u16) & 1) as int;
                let lhs = old(self).regs.acc40[d].value();
                let rhs: i64 = old(self).regs.acc40[1 - d].value();
                let result = (lhs + rhs) as i64;
                let new = sext40(result);
                &&& final(self).regs.acc40@ == old(self).regs.acc40@.update(d, Acc40::spec_from(result))
                &&& final(self).regs.status.bits == arith_status(old(self).regs.status.bits, spec_add_carried(lhs, new), spec_add_overflowed(lhs, rhs, new), new)
                &&& keeps(old(self).regs, final(self).regs, 9, 12)
            }),
            only_regs(*old(self), *final(self)),
    {
        proof {
            lemma_field(ins.base);
        }
        let d = ((ins.base >> 8u16) & 1) as usize;
        let lhs = self.regs.acc40[d].get();
        let rhs: i64 = self.regs.acc40[1 - d].get();
        let new = self.set_acc(d, lhs + rhs);
        self.set_flags(add_carried(lhs, new), add_overflowed(lhs, rhs, new), new);
    }

    /// Subtracts the other accumulator from accumulator `d` (bit 8).
    pub fn sub(&mut self, ins: Ins)
        ensures
            ({
                let d = ((ins.base >> 8u16) & 1) as int;
                let lhs = old(self).regs.acc40[d].value();
                let rhs: i64 = old(self).regs.acc40[1 - d].value();
                let result = (lhs - rhs) as i64;
                let new = sext40(result);
                &&& final(self).regs.acc40@ == old(self).regs.acc40@.update(d, Acc40::spec_from(result))
                &&& final(self).regs.status.bits == arith_status(old(self).regs.status.bits, spec_sub_carried(lhs, new), spec_sub_overflowed(lhs, rhs, new), new)
                &&& keeps(old(self).regs, final(self).regs, 9, 12)
            }),
            only_regs(*old(self), *final(self)),
    {
        proof {
            lemma_field(ins.base);
        }
        let d = ((ins.base >> 8u16) & 1) as usize;
        let lhs = self.regs.acc40[d].get();
        let rhs: i64 = self.regs.acc40[1 - d].get();
        let new = self.set_acc(d, lhs - rhs);
        self.set_flags(sub_carried(lhs, new), sub_overflowed(lhs, rhs, new), new);
    }

    /// Adds 32 bit accumulator `s` (bit 9) to accumulator `d` (bit 8).
    pub fn addax(&mut self, ins: Ins)
        ensures
            ({
                let d = ((ins.base >> 8u16) & 1) as int;
                let s = ((ins.base >> 9u16) & 1) as int;
                let lhs = old(self).regs.acc40[d].value();
                let rhs: i64 = old(self).regs.acc32[s] as i64;
                let result = (lhs + rhs) as i64;
                let new = sext40(result);
                &&& final(self).regs.acc40@ == old(self).regs.acc40@.update(d, Acc40::spec_from(result))
                &&& final(self).regs.status.bits == arith_status(old(self).regs.status.bits, spec_add_carried(lhs, new), spec_add_overflowed(lhs, rhs, new), new)
                &&& keeps(old(self).regs, final(self).regs, 9, 12)
            }),
            only_regs(*old(self), *final(self)),
    {
        proof {
            lemma_field(ins.base);
        }
        let d = ((ins.base >> 8u16) & 1) as usize;
        let s = ((ins.base >> 9u16) & 1) as usize;
        let lhs = self.regs.acc40[d].get();
        let rhs: i64 = self.regs.acc32[s] as i64;
        let new = self.set_acc(d, lhs + rhs);
        self.set_flags(add_carried(lhs, new), add_overflowed(lhs, rhs, new), new);
    }

    /// Subtracts 32 bit accumulator `s` (bit 9) from accumulator `d` (bit 8).
    pub fn subax(&mut self, ins: Ins)
        ensures
            ({
                let d = ((ins.base >> 8u16) & 1) as int;
                let s = ((ins.base >> 9u16) & 1) as int;
                let lhs = old(self).regs.acc40[d].value();
                let rhs: i64 = old(self).regs.acc32[s] as i64;
                let result = (lhs - rhs) as i64;
                let new = sext40(result);
                &&& final(self).regs.acc40@ == old(self).regs.acc40@.update(d, Acc40::spec_from(result))
                &&& final(self).regs.status.bits == arith_status(old(self).regs.status.bits, spec_sub_carried(lhs, new), spec_sub_overflowed(lhs, rhs, new), new)
                &&& keeps(old(self).regs, final(self).regs, 9, 12)
            }),
            only_regs(*old(self), *final(self)),
    {
        proof {
            lemma_field(ins.base);
        }
        let d = ((ins.base >> 8u16) & 1) as usize;
        let s = ((ins.base >> 9u16) & 1) as usize;
        let lhs = self.regs.acc40[d].get();
        let rhs: i64 = self.regs.acc32[s] as i64;
        let new = self.set_acc(d, lhs - rhs);
        self.set_flags(sub_carried(lhs, new), sub_overflowed(lhs, rhs, new), new);
    }

    /// Adds the low half of 32 bit accumulator `s` (bit 9), unsigned, to accumulator `d` (bit 8).
    pub fn addaxl(&mut self, ins: Ins)
        ensures
            ({
                let d = ((ins.base >> 8u16) & 1) as int;
                let s = ((ins.base >> 9u16) & 1) as int;
                let lhs = old(self).regs.acc40[d].value();
                let rhs: i64 = (old(self).regs.acc32[s] as u16) as i64;
                let result = (lhs + rhs) as i64;
                let new = sext40(result);
                &&& final(self).regs.acc40@ == old(self).regs.acc40@.update(d, Acc40::spec_from(result))
                &&& final(self).regs.status.bits == arith_status(old(self).regs.status.bits, spec_add_carried(lhs, new), spec_add_overflowed(lhs, rhs, new), new)
                &&& keeps(old(self).regs, final(self).regs, 9, 12)
            }),
            only_regs(*old(self), *final(self)),
    {
        proof {
            lemma_field(ins.base);
        }
        let d = ((ins.base >> 8u16) & 1) as usize;
        let s = ((ins.base >> 9u16) & 1) as usize;
        let lhs = self.regs.acc40[d].get();
        let rhs: i64 = (self.regs.acc32[s] as u16) as i64;
        let new = self.set_acc(d, lhs + rhs);
        self.set_flags(add_carried(lhs, new), add_overflowed(lhs, rhs, new), new);
    }

    /// Adds the second instruction word, shifted into the middle part, to accumulator `d` (bit 8).
    pub fn addi(&mut self, ins: Ins)
        ensures
            ({
                let d = ((ins.base >> 8u16) & 1) as int;
                let lhs = old(self).regs.acc40[d].value();
                let rhs: i64 = ((ins.extra as i16 as i64) * 65536) as i64;
                let result = (lhs + rhs) as i64;
                let new = sext40(result);
                &&& final(self).regs.acc40@ == old(self).regs.acc40@.update(d, Acc40::spec_from(result))
                &&& final(self).regs.status.bits == arith_status(old(self).regs.status.bits, spec_add_carried(lhs, new), spec_add_overflowed(lhs, rhs, new), new)
                &&& keeps(old(self).regs, final(self).regs, 9, 12)
            }),
            only_regs(*old(self), *final(self)),
    {
        proof {
            lemma_field(ins.base);
        }
        let d = ((ins.base >> 8u16) & 1) as usize;
        let lhs = self.regs.acc40[d].get();
        let rhs: i64 = (ins.extra as i16 as i64) * 65536;
        let new = self.set_acc(d, lhs + rhs);
        self.set_flags(add_carried(lhs, new), add_overflowed(lhs, rhs, new), new);
    }

    /// Adds the low byte of the instruction, signed and shifted into the middle part, to accumulator `d` (bit 8).
    pub fn addis(&mut self, ins: Ins)
        ensures
            ({
                let d = ((ins.base >> 8u16) & 1) as int;
                let lhs = old(self).regs.acc40[d].value();
                let rhs: i64 = (((ins.base & 0xFF) as u8 as i8 as i64) * 65536) as i64;
                let result = (lhs + rhs) as i64;
                let new = sext40(result);
                &&& final(self).regs.acc40@ == old(self).regs.acc40@.update(d, Acc40::spec_from(result))
                &&& final(self).regs.status.bits == arith_status(old(self).regs.status.bits, spec_add_carried(lhs, new), spec_add_overflowed(lhs, rhs, new), new)
                &&& keeps(old(self).regs, final(self).regs, 9, 12)
            }),
            only_regs(*old(self), *final(self)),
    {
        proof {
            lemma_field(ins.base);
        }
        let d = ((ins.base >> 8u16) & 1) as usize;
        let lhs = self.regs.acc40[d].get();
        let rhs: i64 = ((ins.base & 0xFF) as u8 as i8 as i64) * 65536;
        let new = self.set_acc(d, lhs + rhs);
        self.set_flags(add_carried(lhs, new), add_overflowed(lhs, rhs, new), new);
    }

    /// Adds a half of a 32 bit accumulator (bits 9..11 pick it), signed and shifted into the middle part, to accumulator `d` (bit 8).
    pub fn addr(&mut self, ins: Ins)
        ensures
            ({
                let d = ((ins.base >> 8u16) & 1) as int;
                let s = ((ins.base >> 9u16) & 3) as int;
                let lhs = old(self).regs.acc40[d].value();
                let rhs: i64 = ((acc32_half(old(self).regs, s) as i16 as i64) * 65536) as i64;
                let result = (lhs + rhs) as i64;
                let new = sext40(result);
                &&& final(self).regs.acc40@ == old(self).regs.acc40@.update(d, Acc40::spec_from(result))
                &&& final(self).regs.status.bits == arith_status(old(self).regs.status.bits, spec_add_carried(lhs, new), spec_add_overflowed(lhs, rhs, new), new)
                &&& keeps(old(self).regs, final(self).regs, 9, 12)
            }),
            only_regs(*old(self), *final(self)),
    {
        proof {
            lemma_field(ins.base);
        }
        let d = ((ins.base >> 8u16) & 1) as usize;
        let s = ((ins.base >> 9u16) & 3) as u8;
        let lhs = self.regs.acc40[d].get();
        let rhs: i64 = (self.regs.get(Reg::new(s + 0x18)) as i16 as i64) * 65536;
        let new = self.set_acc(d, lhs + rhs);
        self.set_flags(add_carried(lhs, new), add_overflowed(lhs, rhs, new), new);
    }

    /// Subtracts a half of a 32 bit accumulator (bits 9..11 pick it), signed and shifted into the middle part, from accumulator `d` (bit 8).
    pub fn subr(&mut self, ins: Ins)
        ensures
            ({
                let d = ((ins.base >> 8u16) & 1) as int;
                let s = ((ins.base >> 9u16) & 3) as int;
                let lhs = old(self).regs.acc40[d].value();
                let rhs: i64 = ((acc32_half(old(self).regs, s) as i16 as i64) * 65536) as i64;
                let result = (lhs - rhs) as i64;
                let new = sext40(result);
                &&& final(self).regs.acc40@ == old(self).regs.acc40@.update(d, Acc40::spec_from(result))
                &&& final(self).regs.status.bits == arith_status(old(self).regs.status.bits, spec_sub_carried(lhs, new), spec_sub_overflowed(lhs, rhs, new), new)
                &&& keeps(old(self).regs, final(self).regs, 9, 12)
            }),
            only_regs(*old(self), *final(self)),
    {
        proof {
            lemma_field(ins.base);
        }
        let d = ((ins.base >> 8u16) & 1) as usize;
        let s = ((ins.base >> 9u16) & 3) as u8;
        let lhs = self.regs.acc40[d].get();
        let rhs: i64 = (self.regs.get(Reg::new(s + 0x18)) as i16 as i64) * 65536;
        let new = self.set_acc(d, lhs - rhs);
        self.set_flags(sub_carried(lhs, new), sub_overflowed(lhs, rhs, new), new);
    }

    /// Adds one to accumulator `d` (bit 8).
    pub fn inc(&mut self, ins: Ins)
        ensures
            ({
                let d = ((ins.base >> 8u16) & 1) as int;
                let prev = old(self).regs.acc40[d].value();
                let result = (prev + 1i64) as i64;
                let new = sext40(result);
                &&& final(self).regs.acc40@ == old(self).regs.acc40@.update(d, Acc40::spec_from(result))
                &&& final(self).regs.status.bits == arith_status(old(self).regs.status.bits, spec_add_carried(prev, new), spec_add_overflowed(prev, 1i64, new), new)
                &&& keeps(old(self).regs, final(self).regs, 9, 12)
            }),
            only_regs(*old(self), *final(self)),
    {
        proof {
            lemma_field(ins.base);
        }
        let d = ((ins.base >> 8u16) & 1) as usize;
        let prev = self.regs.acc40[d].get();
        let new = self.set_acc(d, prev + 1i64);
        self.set_flags(add_carried(prev, new), add_overflowed(prev, 1i64, new), new);
    }

    /// Subtracts one from accumulator `d` (bit 8).
    pub fn dec(&mut self, ins: Ins)
        ensures
            ({
                let d = ((ins.base >> 8u16) & 1) as int;
                let prev = old(self).regs.acc40[d].value();
                let result = (prev + -1i64) as i64;
                let new = sext40(result);
                &&& final(self).regs.acc40@ == old(self).regs.acc40@.update(d, Acc40::spec_from(result))
                &&& final(self).regs.status.bits == arith_status(old(self).regs.status.bits, spec_sub_carried(prev, new), spec_add_overflowed(prev, -1i64, new), new)
                &&& keeps(old(self).regs, final(self).regs, 9, 12)
            }),
            only_regs(*old(self), *final(self)),
    {
        proof {
            lemma_field(ins.base);
        }
        let d = ((ins.base >> 8u16) & 1) as usize;
        let prev = self.regs.acc40[d].get();
        let new = self.set_acc(d, prev + -1i64);
        self.set_flags(sub_carried(prev, new), add_overflowed(prev, -1i64, new), new);
    }

    /// Adds one to the middle part of accumulator `d` (bit 8).
    pub fn incm(&mut self, ins: Ins)
        ensures
            ({
                let d = ((ins.base >> 8u16) & 1) as int;
                let prev = old(self).regs.acc40[d].value();
                let result = (prev + 65536i64) as i64;
                let new = sext40(result);
                &&& final(self).regs.acc40@ == old(self).regs.acc40@.update(d, Acc40::spec_from(result))
                &&& final(self).regs.status.bits == arith_status(old(self).regs.status.bits, spec_add_carried(prev, new), spec_add_overflowed(prev, 65536i64, new), new)
                &&& keeps(old(self).regs, final(self).regs, 9, 12)
            }),
            only_regs(*old(self), *final(self)),
    {
        proof {
            lemma_field(ins.base);
        }
        let d = ((ins.base >> 8u16) & 1) as usize;
        let prev = self.regs.acc40[d].get();
        let new = self.set_acc(d, prev + 65536i64);
        self.set_flags(add_carried(prev, new), add_overflowed(prev, 65536i64, new), new);
    }

    /// Subtracts one from the middle part of accumulator `d` (bit 8).
    pub fn decm(&mut self, ins: Ins)
        ensures
            ({
                let d = ((ins.base >> 8u16) & 1) as int;
                let prev = old(self).regs.acc40[d].value();
                let result = (prev + -65536i64) as i64;
                let new = sext40(result);
                &&& final(self).regs.acc40@ == old(self).regs.acc40@.update(d, Acc40::spec_from(result))
                &&& final(self).regs.status.bits == arith_status(old(self).regs.status.bits, spec_sub_carried(prev, new), spec_add_overflowed(prev, -65536i64, new), new)
                &&& keeps(old(self).regs, final(self).regs, 9, 12)
            }),
            only_regs(*old(self), *final(self)),
    {
        proof {
            lemma_field(ins.base);
        }
        let d = ((ins.base >> 8u16) & 1) as usize;
        let prev = self.regs.acc40[d].get();
        let new = self.set_acc(d, prev + -65536i64);
        self.set_flags(sub_carried(prev, new), add_overflowed(prev, -65536i64, new), new);
    }

    /// Compares accumulator 0 with accumulator 1.
    pub fn cmp(&mut self, ins: Ins)
        ensures
            ({
                let lhs = old(self).regs.acc40[0].value();
                let rhs: i64 = old(self).regs.acc40[1].value();
                let diff = diff40(lhs, rhs);
                &&& final(self).regs.status.bits == arith_status(old(self).regs.status.bits, spec_sub_carried(lhs, diff), spec_sub_overflowed(lhs, rhs, diff), diff)
                &&& keeps(old(self).regs, final(self).regs, 12, 12)
            }),
            only_regs(*old(self), *final(self)),
    {
        let lhs = self.regs.acc40[0].get();
        let rhs: i64 = self.regs.acc40[1].get();
        self.compare(lhs, rhs);
    }

    /// Compares accumulator `d` (bit 8) with the second instruction word shifted into the middle part.
    pub fn cmpi(&mut self, ins: Ins)
        ensures
            ({
                let d = bit_index(ins.base, 8);
                let lhs = old(self).regs.acc40[d].value();
                let rhs: i64 = shifted_word(ins.extra);
                let diff = diff40(lhs, rhs);
                &&& final(self).regs.status.bits == arith_status(old(self).regs.status.bits, spec_sub_carried(lhs, diff), spec_sub_overflowed(lhs, rhs, diff), diff)
                &&& keeps(old(self).regs, final(self).regs, 12, 12)
            }),
            only_regs(*old(self), *final(self)),
    {
        let d = acc_bit(ins.base, 8);
        let lhs = self.regs.acc40[d].get();
        let rhs: i64 = shift_word(ins.extra);
        self.compare(lhs, rhs);
    }

    /// Compares accumulator `d` (bit 8) with the low byte of the instruction, signed and shifted into the middle part.
    pub fn cmpis(&mut self, ins: Ins)
        ensures
            ({
                let d = bit_index(ins.base, 8);
                let lhs = old(self).regs.acc40[d].value();
                let rhs: i64 = shifted_byte(ins.base);
                let diff = diff40(lhs, rhs);
                &&& final(self).regs.status.bits == arith_status(old(self).regs.status.bits, spec_sub_carried(lhs, diff), spec_sub_overflowed(lhs, rhs, diff), diff)
                &&& keeps(old(self).regs, final(self).regs, 12, 12)
            }),
            only_regs(*old(self), *final(self)),
    {
        let d = acc_bit(ins.base, 8);
        let lhs = self.regs.acc40[d].get();
        let rhs: i64 = shift_byte(ins.base);
        self.compare(lhs, rhs);
    }

    /// Compares accumulator `s` (bit 11) with the high half of 32 bit accumulator `r` (bit 12), shifted into the middle part.
    pub fn cmpaxh(&mut self, ins: Ins)
        ensures
            ({
                let s = bit_index(ins.base, 11);
                let r = bit_index(ins.base, 12);
                let lhs = old(self).regs.acc40[s].value();
                let rhs: i64 = shifted_high(old(self).regs.acc32[r]);
                let diff = diff40(lhs, rhs);
                &&& final(self).regs.status.bits == arith_status(old(self).regs.status.bits, spec_sub_carried(lhs, diff), spec_sub_overflowed(lhs, rhs, diff), diff)
                &&& keeps(old(self).regs, final(self).regs, 12, 12)
            }),
            only_regs(*old(self), *final(self)),
    {
        let s = acc_bit(ins.base, 11);
        let r = acc_bit(ins.base, 12);
        let lhs = self.regs.acc40[s].get();
        let rhs: i64 = shift_high(self.regs.acc32[r]);
        self.compare(lhs, rhs);
    }

    /// Clears accumulator `d` (bit 11).
    pub fn clr(&mut self, ins: Ins)
        ensures
            ({
                let d = ((ins.base >> 11u16) & 1) as int;
                let result: i64 = 0;
                let new = sext40(result);
                &&& final(self).regs.acc40@ == old(self).regs.acc40@.update(d, Acc40::spec_from(result))
                &&& final(self).regs.status.bits == arith_status(old(self).regs.status.bits, false, false, new)
                &&& keeps(old(self).regs, final(self).regs, 9, 12)
            }),
            only_regs(*old(self), *final(self)),
    {
        proof {
            lemma_field(ins.base);
        }
        let d = ((ins.base >> 11u16) & 1) as usize;
        let result: i64 = 0;
        let new = self.set_acc(d, result);
        self.set_flags(false, false, new);
    }

    /// Rounds accumulator `d` (bit 8) to its middle part.
    pub fn clrl(&mut self, ins: Ins)
        ensures
            ({
                let d = ((ins.base >> 8u16) & 1) as int;
                let prev = old(self).regs.acc40[d].value();
                let result: i64 = spec_round_40(prev);
                let new = sext40(result);
                &&& final(self).regs.acc40@ == old(self).regs.acc40@.update(d, Acc40::spec_from(result))
                &&& final(self).regs.status.bits == arith_status(old(self).regs.status.bits, false, false, new)
                &&& keeps(old(self).regs, final(self).regs, 9, 12)
            }),
            only_regs(*old(self), *final(self)),
    {
        proof {
            lemma_field(ins.base);
        }
        let d = ((ins.base >> 8u16) & 1) as usize;
        let prev = self.regs.acc40[d].get();
        let result: i64 = round_40(prev);
        let new = self.set_acc(d, result);
        self.set_flags(false, false, new);
    }

    /// Copies the other accumulator into accumulator `d` (bit 8).
    pub fn mov(&mut self, ins: Ins)
        ensures
            ({
                let d = ((ins.base >> 8u16) & 1) as int;
                let result: i64 = old(self).regs.acc40[1 - d].value();
                let new = sext40(result);
                &&& final(self).regs.acc40@ == old(self).regs.acc40@.update(d, Acc40::spec_from(result))
                &&& final(self).regs.status.bits == arith_status(old(self).regs.status.bits, false, false, new)
                &&& keeps(old(self).regs, final(self).regs, 9, 12)
            }),
            only_regs(*old(self), *final(self)),
    {
        proof {
            lemma_field(ins.base);
        }
        let d = ((ins.base >> 8u16) & 1) as usize;
        let result: i64 = self.regs.acc40[1 - d].get();
        let new = self.set_acc(d, result);
        self.set_flags(false, false, new);
    }

    /// Copies 32 bit accumulator `s` (bit 9), sign-extended, into accumulator `d` (bit 8).
    pub fn movax(&mut self, ins: Ins)
        ensures
            ({
                let d = ((ins.base >> 8u16) & 1) as int;
                let s = ((ins.base >> 9u16) & 1) as int;
                let result: i64 = old(self).regs.acc32[s] as i64;
                let new = sext40(result);
                &&& final(self).regs.acc40@ == old(self).regs.acc40@.update(d, Acc40::spec_from(result))
                &&& final(self).regs.status.bits == arith_status(old(self).regs.status.bits, false, false, new)
                &&& keeps(old(self).regs, final(self).regs, 9, 12)
            }),
            only_regs(*old(self), *final(self)),
    {
        proof {
            lemma_field(ins.base);
        }
        let d = ((ins.base >> 8u16) & 1) as usize;
        let s = ((ins.base >> 9u16) & 1) as usize;
        let result: i64 = self.regs.acc32[s] as i64;
        let new = self.set_acc(d, result);
        self.set_flags(false, false, new);
    }

    /// Loads a half of a 32 bit accumulator (bits 9..11 pick it), signed, into the middle part of accumulator `d` (bit 8).
    pub fn movr(&mut self, ins: Ins)
        ensures
            ({
                let d = ((ins.base >> 8u16) & 1) as int;
                let s = ((ins.base >> 9u16) & 3) as int;
                let result: i64 = ((acc32_half(old(self).regs, s) as i16 as i64) * 65536) as i64;
                let new = sext40(result);
                &&& final(self).regs.acc40@ == old(self).regs.acc40@.update(d, Acc40::spec_from(result))
                &&& final(self).regs.status.bits == arith_status(old(self).regs.status.bits, false, false, new)
                &&& keeps(old(self).regs, final(self).regs, 9, 12)
            }),
            only_regs(*old(self), *final(self)),
    {
        proof {
            lemma_field(ins.base);
        }
        let d = ((ins.base >> 8u16) & 1) as usize;
        let s = ((ins.base >> 9u16) & 3) as u8;
        let result: i64 = (self.regs.get(Reg::new(s + 0x18)) as i16 as i64) * 65536;
        let new = self.set_acc(d, result);
        self.set_flags(false, false, new);
    }

    /// Negates accumulator `d` (bit 8).
    pub fn neg(&mut self, ins: Ins)
        ensures
            ({
                let d = ((ins.base >> 8u16) & 1) as int;
                let prev = old(self).regs.acc40[d].value();
                let result: i64 = (-prev) as i64;
                let new = sext40(result);
                &&& final(self).regs.acc40@ == old(self).regs.acc40@.update(d, Acc40::spec_from(result))
                &&& final(self).regs.status.bits == arith_status(old(self).regs.status.bits, prev == 0, prev == 0x100_0000_0000, new)
                &&& keeps(old(self).regs, final(self).regs, 9, 12)
            }),
            only_regs(*old(self), *final(self)),
    {
        proof {
            lemma_field(ins.base);
        }
        let d = ((ins.base >> 8u16) & 1) as usize;
        let prev = self.regs.acc40[d].get();
        let result: i64 = -prev;
        let new = self.set_acc(d, result);
        self.set_flags(prev == 0, prev == 0x100_0000_0000, new);
    }

    /// Takes the absolute value of accumulator `d` (bit 11).
    pub fn abs(&mut self, ins: Ins)
        ensures
            ({
                let d = ((ins.base >> 11u16) & 1) as int;
                let prev = old(self).regs.acc40[d].value();
                let result: i64 = (if prev < 0 { -prev } else { prev as int }) as i64;
                let new = sext40(result);
                &&& final(self).regs.acc40@ == old(self).regs.acc40@.update(d, Acc40::spec_from(result))
                &&& final(self).regs.status.bits == arith_status(old(self).regs.status.bits, false, new == ACC40_MIN, new)
                &&& keeps(old(self).regs, final(self).regs, 9, 12)
            }),
            only_regs(*old(self), *final(self)),
    {
        proof {
            lemma_field(ins.base);
        }
        let d = ((ins.base >> 11u16) & 1) as usize;
        let prev = self.regs.acc40[d].get();
        let result: i64 = if prev < 0 { -prev } else { prev };
        let new = self.set_acc(d, result);
        self.set_flags(false, new == ACC40_MIN, new);
    }

    /// Copies the product into accumulator `d` (bit 8).
    pub fn movp(&mut self, ins: Ins)
        ensures
            ({
                let d = ((ins.base >> 8u16) & 1) as int;
                let result: i64 = old(self).regs.product.spec_value();
                let new = sext40(result);
                &&& final(self).regs.acc40@ == old(self).regs.acc40@.update(d, Acc40::spec_from(result))
                &&& final(self).regs.status.bits == arith_status(old(self).regs.status.bits, old(self).regs.product.spec_carry(), old(self).regs.product.spec_overflow(), new)
                &&& keeps(old(self).regs, final(self).regs, 9, 12)
            }),
            only_regs(*old(self), *final(self)),
    {
        proof {
            lemma_field(ins.base);
        }
        let d = ((ins.base >> 8u16) & 1) as usize;
        let p = self.regs.product.get();
        let result: i64 = p.2;
        let new = self.set_acc(d, result);
        self.set_flags(p.0, p.1, new);
    }

    /// Copies the negated product into accumulator `d` (bit 8).
    pub fn movnp(&mut self, ins: Ins)
        ensures
            ({
                let d = ((ins.base >> 8u16) & 1) as int;
                let result: i64 = (-old(self).regs.product.spec_value()) as i64;
                let new = sext40(result);
                &&& final(self).regs.acc40@ == old(self).regs.acc40@.update(d, Acc40::spec_from(result))
                &&& final(self).regs.status.bits == arith_status(old(self).regs.status.bits, old(self).regs.product.spec_value() != 0 && !old(self).regs.product.spec_carry(), old(self).regs.product.spec_overflow(), new)
                &&& keeps(old(self).regs, final(self).regs, 9, 12)
            }),
            only_regs(*old(self), *final(self)),
    {
        proof {
            lemma_field(ins.base);
        }
        let d = ((ins.base >> 8u16) & 1) as usize;
        let p = self.regs.product.get();
        let result: i64 = -p.2;
        let new = self.set_acc(d, result);
        self.set_flags(p.2 != 0 && !p.0, p.1, new);
    }

    /// Copies the product, rounded to its middle part, into accumulator `d` (bit 8).
    pub fn movpz(&mut self, ins: Ins)
        ensures
            ({
                let d = ((ins.base >> 8u16) & 1) as int;
                let result: i64 = spec_round_40(old(self).regs.product.spec_value());
                let new = sext40(result);
                &&& final(self).regs.acc40@ == old(self).regs.acc40@.update(d, Acc40::spec_from(result))
                &&& final(self).regs.status.bits == arith_status(old(self).regs.status.bits, old(self).regs.product.spec_carry(), old(self).regs.product.spec_overflow(), new)
                &&& keeps(old(self).regs, final(self).regs, 9, 12)
            }),
            only_regs(*old(self), *final(self)),
    {
        proof {
            lemma_field(ins.base);
        }
        let d = ((ins.base >> 8u16) & 1) as usize;
        let p = self.regs.product.get();
        let result: i64 = round_40(p.2);
        let new = self.set_acc(d, result);
        self.set_flags(p.0, p.1, new);
    }

    /// Shifts accumulator `d` (bit 8) left by the low 6 bits of the instruction.
    pub fn asl(&mut self, ins: Ins)
        ensures
            ({
                let d = ((ins.base >> 8u16) & 1) as int;
                let result: i64 = old(self).regs.acc40[d].value() << ((ins.base & 0x3F) as u64);
                let new = sext40(result);
                &&& final(self).regs.acc40@ == old(self).regs.acc40@.update(d, Acc40::spec_from(result))
                &&& final(self).regs.status.bits == arith_status(old(self).regs.status.bits, false, false, new)
                &&& keeps(old(self).regs, final(self).regs, 9, 12)
            }),
            only_regs(*old(self), *final(self)),
    {
        proof {
            lemma_field(ins.base);
        }
        let d = ((ins.base >> 8u16) & 1) as usize;
        let prev = self.regs.acc40[d].get();
        let sh = (ins.base & 0x3F) as u64;
        let result: i64 = prev << sh;
        let new = self.set_acc(d, result);
        self.set_flags(false, false, new);
    }

    /// Shifts accumulator `d` (bit 8) left by the low 6 bits of the instruction.
    pub fn lsl(&mut self, ins: Ins)
        ensures
            ({
                let d = ((ins.base >> 8u16) & 1) as int;
                let result: i64 = old(self).regs.acc40[d].value() << ((ins.base & 0x3F) as u64);
                let new = sext40(result);
                &&& final(self).regs.acc40@ == old(self).regs.acc40@.update(d, Acc40::spec_from(result))
                &&& final(self).regs.status.bits == arith_status(old(self).regs.status.bits, false, false, new)
                &&& keeps(old(self).regs, final(self).regs, 9, 12)
            }),
            only_regs(*old(self), *final(self)),
    {
        proof {
            lemma_field(ins.base);
        }
        let d = ((ins.base >> 8u16) & 1) as usize;
        let prev = self.regs.acc40[d].get();
        let sh = (ins.base & 0x3F) as u64;
        let result: i64 = prev << sh;
        let new = self.set_acc(d, result);
        self.set_flags(false, false, new);
    }

    /// Shifts accumulator `d` (bit 8) right, arithmetically, by 64 minus the low 6 bits of the instruction (modulo 64).
    pub fn asr(&mut self, ins: Ins)
        ensures
            ({
                let d = ((ins.base >> 8u16) & 1) as int;
                let result: i64 = old(self).regs.acc40[d].value() >> (((64 - (ins.base & 0x3F)) % 64) as u64);
                let new = sext40(result);
                &&& final(self).regs.acc40@ == old(self).regs.acc40@.update(d, Acc40::spec_from(result))
                &&& final(self).regs.status.bits == arith_status(old(self).regs.status.bits, false, false, new)
                &&& keeps(old(self).regs, final(self).regs, 9, 12)
            }),
            only_regs(*old(self), *final(self)),
    {
        proof {
            lemma_field(ins.base);
        }
        let d = ((ins.base >> 8u16) & 1) as usize;
        let prev = self.regs.acc40[d].get();
        let sh = ((64 - (ins.base & 0x3F)) % 64) as u64;
        let result: i64 = prev >> sh;
        let new = self.set_acc(d, result);
        self.set_flags(false, false, new);
    }

    /// Shifts the 40 bits of accumulator `d` (bit 8) right, logically, by 64 minus the low 6 bits of the instruction (modulo 64).
    pub fn lsr(&mut self, ins: Ins)
        ensures
            ({
                let d = ((ins.base >> 8u16) & 1) as int;
                let result: i64 = (((old(self).regs.acc40[d].value() as u64) & 0xFF_FFFF_FFFFu64) >> (((64 - (ins.base & 0x3F)) % 64) as u64)) as i64;
                let new = sext40(result);
                &&& final(self).regs.acc40@ == old(self).regs.acc40@.update(d, Acc40::spec_from(result))
                &&& final(self).regs.status.bits == arith_status(old(self).regs.status.bits, false, false, new)
                &&& keeps(old(self).regs, final(self).regs, 9, 12)
            }),
            only_regs(*old(self), *final(self)),
    {
        proof {
            lemma_field(ins.base);
        }
        let d = ((ins.base >> 8u16) & 1) as usize;
        let prev = self.regs.acc40[d].get();
        let sh = ((64 - (ins.base & 0x3F)) % 64) as u64;
        let result: i64 = ((prev as u64 & 0xFF_FFFF_FFFF) >> sh) as i64;
        let new = self.set_acc(d, result);
        self.set_flags(false, false, new);
    }

    /// Shifts accumulator `d` (bit 8) left by 16.
    pub fn lsl16(&mut self, ins: Ins)
        ensures
            ({
                let d = ((ins.base >> 8u16) & 1) as int;
                let result: i64 = old(self).regs.acc40[d].value() << 16u64;
                let new = sext40(result);
                &&& final(self).regs.acc40@ == old(self).regs.acc40@.update(d, Acc40::spec_from(result))
                &&& final(self).regs.status.bits == arith_status(old(self).regs.status.bits, false, false, new)
                &&& keeps(old(self).regs, final(self).regs, 9, 12)
            }),
            only_regs(*old(self), *final(self)),
    {
        proof {
            lemma_field(ins.base);
        }
        let d = ((ins.base >> 8u16) & 1) as usize;
        let prev = self.regs.acc40[d].get();
        let result: i64 = prev << 16u64;
        let new = self.set_acc(d, result);
        self.set_flags(false, false, new);
    }

    /// Shifts the 40 bits of accumulator `d` (bit 8) right, logically, by 16.
    pub fn lsr16(&mut self, ins: Ins)
        ensures
            ({
                let d = ((ins.base >> 8u16) & 1) as int;
                let result: i64 = (((old(self).regs.acc40[d].value() as u64) & 0xFF_FFFF_FFFFu64) >> 16u64) as i64;
                let new = sext40(result);
                &&& final(self).regs.acc40@ == old(self).regs.acc40@.update(d, Acc40::spec_from(result))
                &&& final(self).regs.status.bits == arith_status(old(self).regs.status.bits, false, false, new)
                &&& keeps(old(self).regs, final(self).regs, 9, 12)
            }),
            only_regs(*old(self), *final(self)),
    {
        proof {
            lemma_field(ins.base);
        }
        let d = ((ins.base >> 8u16) & 1) as usize;
        let prev = self.regs.acc40[d].get();
        let result: i64 = ((prev as u64 & 0xFF_FFFF_FFFF) >> 16u64) as i64;
        let new = self.set_acc(d, result);
        self.set_flags(false, false, new);
    }

    /// Shifts accumulator `d` (bit 11) right, arithmetically, by 16.
    pub fn asr16(&mut self, ins: Ins)
        ensures
            ({
                let d = ((ins.base >> 11u16) & 1) as int;
                let result: i64 = old(self).regs.acc40[d].value() >> 16u64;
                let new = sext40(result);
                &&& final(self).regs.acc40@ == old(self).regs.acc40@.update(d, Acc40::spec_from(result))
                &&& final(self).regs.status.bits == arith_status(old(self).regs.status.bits, false, false, new)
                &&& keeps(old(self).regs, final(self).regs, 9, 12)
            }),
            only_regs(*old(self), *final(self)),
    {
        proof {
            lemma_field(ins.base);
        }
        let d = ((ins.base >> 11u16) & 1) as usize;
        let prev = self.regs.acc40[d].get();
        let result: i64 = prev >> 16u64;
        let new = self.set_acc(d, result);
        self.set_flags(false, false, new);
    }

    /// Sets the flags for the value of accumulator `r` (bit 11).
    pub fn tst(&mut self, ins: Ins)
        ensures
            ({
                let r = ((ins.base >> 11u16) & 1) as int;
                let v: i64 = old(self).regs.acc40[r].value();
                &&& final(self).regs.status.bits == arith_status(old(self).regs.status.bits, false, false, v)
                &&& keeps(old(self).regs, final(self).regs, 12, 12)
            }),
            only_regs(*old(self), *final(self)),
    {
        proof {
            lemma_field(ins.base);
        }
        let r = ((ins.base >> 11u16) & 1) as usize;
        let v: i64 = self.regs.acc40[r].get();
        self.set_flags(false, false, v);
    }

    /// Sets the flags for the value of the product.
    pub fn tstprod(&mut self, ins: Ins)
        ensures
            ({
                let v: i64 = old(self).regs.product.spec_value();
                &&& final(self).regs.status.bits == arith_status(old(self).regs.status.bits, old(self).regs.product.spec_carry(), old(self).regs.product.spec_overflow(), v)
                &&& keeps(old(self).regs, final(self).regs, 12, 12)
            }),
            only_regs(*old(self), *final(self)),
    {
        proof {
            lemma_field(ins.base);
        }
        let p = self.regs.product.get();
        let v: i64 = p.2;
        self.set_flags(p.0, p.1, v);
    }

    /// Ands the middle part of accumulator `d` (bit 8) with the second instruction word.
    pub fn andi(&mut self, ins: Ins)
        ensures
            ({
                let d = ((ins.base >> 8u16) & 1) as int;
                let mid: u16 = old(self).regs.acc40[d].mid & ins.extra;
                let acc = Acc40 { mid, ..old(self).regs.acc40[d] };
                &&& final(self).regs.acc40@ == old(self).regs.acc40@.update(d, acc)
                &&& final(self).regs.status.bits == logic_status(old(self).regs.status.bits, acc.value(), mid)
                &&& keeps(old(self).regs, final(self).regs, 9, 12)
            }),
            only_regs(*old(self), *final(self)),
    {
        proof {
            lemma_field(ins.base);
        }
        let d = ((ins.base >> 8u16) & 1) as usize;
        let mid: u16 = self.regs.acc40[d].mid & ins.extra;
        self.finish_logic(d, mid);
    }

    /// Ors the middle part of accumulator `d` (bit 8) with the second instruction word.
    pub fn ori(&mut self, ins: Ins)
        ensures
            ({
                let d = ((ins.base >> 8u16) & 1) as int;
                let mid: u16 = old(self).regs.acc40[d].mid | ins.extra;
                let acc = Acc40 { mid, ..old(self).regs.acc40[d] };
                &&& final(self).regs.acc40@ == old(self).regs.acc40@.update(d, acc)
                &&& final(self).regs.status.bits == logic_status(old(self).regs.status.bits, acc.value(), mid)
                &&& keeps(old(self).regs, final(self).regs, 9, 12)
            }),
            only_regs(*old(self), *final(self)),
    {
        proof {
            lemma_field(ins.base);
        }
        let d = ((ins.base >> 8u16) & 1) as usize;
        let mid: u16 = self.regs.acc40[d].mid | ins.extra;
        self.finish_logic(d, mid);
    }

    /// Xors the middle part of accumulator `d` (bit 8) with the second instruction word.
    pub fn xori(&mut self, ins: Ins)
        ensures
            ({
                let d = ((ins.base >> 8u16) & 1) as int;
                let mid: u16 = old(self).regs.acc40[d].mid ^ ins.extra;
                let acc = Acc40 { mid, ..old(self).regs.acc40[d] };
                &&& final(self).regs.acc40@ == old(self).regs.acc40@.update(d, acc)
                &&& final(self).regs.status.bits == logic_status(old(self).regs.status.bits, acc.value(), mid)
                &&& keeps(old(self).regs, final(self).regs, 9, 12)
            }),
            only_regs(*old(self), *final(self)),
    {
        proof {
            lemma_field(ins.base);
        }
        let d = ((ins.base >> 8u16) & 1) as usize;
        let mid: u16 = self.regs.acc40[d].mid ^ ins.extra;
        self.finish_logic(d, mid);
    }

    /// Ands the middle part of accumulator `d` (bit 8) with that of the other accumulator.
    pub fn andc(&mut self, ins: Ins)
        ensures
            ({
                let d = ((ins.base >> 8u16) & 1) as int;
                let mid: u16 = old(self).regs.acc40[d].mid & old(self).regs.acc40[1 - d].mid;
                let acc = Acc40 { mid, ..old(self).regs.acc40[d] };
                &&& final(self).regs.acc40@ == old(self).regs.acc40@.update(d, acc)
                &&& final(self).regs.status.bits == logic_status(old(self).regs.status.bits, acc.value(), mid)
                &&& keeps(old(self).regs, final(self).regs, 9, 12)
            }),
            only_regs(*old(self), *final(self)),
    {
        proof {
            lemma_field(ins.base);
        }
        let d = ((ins.base >> 8u16) & 1) as usize;
        let mid: u16 = self.regs.acc40[d].mid & self.regs.acc40[1 - d].mid;
        self.finish_logic(d, mid);
    }

    /// Ors the middle part of accumulator `d` (bit 8) with that of the other accumulator.
    pub fn orc(&mut self, ins: Ins)
        ensures
            ({
                let d = ((ins.base >> 8u16) & 1) as int;
                let mid: u16 = old(self).regs.acc40[d].mid | old(self).regs.acc40[1 - d].mid;
                let acc = Acc40 { mid, ..old(self).regs.acc40[d] };
                &&& final(self).regs.acc40@ == old(self).regs.acc40@.update(d, acc)
                &&& final(self).regs.status.bits == logic_status(old(self).regs.status.bits, acc.value(), mid)
                &&& keeps(old(self).regs, final(self).regs, 9, 12)
            }),
            only_regs(*old(self), *final(self)),
    {
        proof {
            lemma_field(ins.base);
        }
        let d = ((ins.base >> 8u16) & 1) as usize;
        let mid: u16 = self.regs.acc40[d].mid | self.regs.acc40[1 - d].mid;
        self.finish_logic(d, mid);
    }

    /// Xors the middle part of accumulator `d` (bit 8) with that of the other accumulator.
    pub fn xorc(&mut self, ins: Ins)
        ensures
            ({
                let d = ((ins.base >> 8u16) & 1) as int;
                let mid: u16 = old(self).regs.acc40[d].mid ^ old(self).regs.acc40[1 - d].mid;
                let acc = Acc40 { mid, ..old(self).regs.acc40[d] };
                &&& final(self).regs.acc40@ == old(self).regs.acc40@.update(d, acc)
                &&& final(self).regs.status.bits == logic_status(old(self).regs.status.bits, acc.value(), mid)
                &&& keeps(old(self).regs, final(self).regs, 9, 12)
            }),
            only_regs(*old(self), *final(self)),
    {
        proof {
            lemma_field(ins.base);
        }
        let d = ((ins.base >> 8u16) & 1) as usize;
        let mid: u16 = self.regs.acc40[d].mid ^ self.regs.acc40[1 - d].mid;
        self.finish_logic(d, mid);
    }

    /// Ands the middle part of accumulator `d` (bit 8) with the high half of 32 bit accumulator `s` (bit 9).
    pub fn andr(&mut self, ins: Ins)
        ensures
            ({
                let d = ((ins.base >> 8u16) & 1) as int;
                let s = ((ins.base >> 9u16) & 1) as int;
                let mid: u16 = old(self).regs.acc40[d].mid & (old(self).regs.acc32[s] >> 16i32) as u16;
                let acc = Acc40 { mid, ..old(self).regs.acc40[d] };
                &&& final(self).regs.acc40@ == old(self).regs.acc40@.update(d, acc)
                &&& final(self).regs.status.bits == logic_status(old(self).regs.status.bits, acc.value(), mid)
                &&& keeps(old(self).regs, final(self).regs, 9, 12)
            }),
            only_regs(*old(self), *final(self)),
    {
        proof {
            lemma_field(ins.base);
        }
        let d = ((ins.base >> 8u16) & 1) as usize;
        let s = ((ins.base >> 9u16) & 1) as usize;
        let mid: u16 = self.regs.acc40[d].mid & (self.regs.acc32[s] >> 16) as u16;
        self.finish_logic(d, mid);
    }

    /// Ors the middle part of accumulator `d` (bit 8) with the high half of 32 bit accumulator `s` (bit 9).
    pub fn orr(&mut self, ins: Ins)
        ensures
            ({
                let d = ((ins.base >> 8u16) & 1) as int;
                let s = ((ins.base >> 9u16) & 1) as int;
                let mid: u16 = old(self).regs.acc40[d].mid | (old(self).regs.acc32[s] >> 16i32) as u16;
                let acc = Acc40 { mid, ..old(self).regs.acc40[d] };
                &&& final(self).regs.acc40@ == old(self).regs.acc40@.update(d, acc)
                &&& final(self).regs.status.bits == logic_status(old(self).regs.status.bits, acc.value(), mid)
                &&& keeps(old(self).regs, final(self).regs, 9, 12)
            }),
            only_regs(*old(self), *final(self)),
    {
        proof {
            lemma_field(ins.base);
        }
        let d = ((ins.base >> 8u16) & 1) as usize;
        let s = ((ins.base >> 9u16) & 1) as usize;
        let mid: u16 = self.regs.acc40[d].mid | (self.regs.acc32[s] >> 16) as u16;
        self.finish_logic(d, mid);
    }

    /// Xors the middle part of accumulator `d` (bit 8) with the high half of 32 bit accumulator `s` (bit 9).
    pub fn xorr(&mut self, ins: Ins)
        ensures
            ({
                let d = ((ins.base >> 8u16) & 1) as int;
                let s = ((ins.base >> 9u16) & 1) as int;
                let mid: u16 = old(self).regs.acc40[d].mid ^ (old(self).regs.acc32[s] >> 16i32) as u16;
                let acc = Acc40 { mid, ..old(self).regs.acc40[d] };
                &&& final(self).regs.acc40@ == old(self).regs.acc40@.update(d, acc)
                &&& final(self).regs.status.bits == logic_status(old(self).regs.status.bits, acc.value(), mid)
                &&& keeps(old(self).regs, final(self).regs, 9, 12)
            }),
            only_regs(*old(self), *final(self)),
    {
        proof {
            lemma_field(ins.base);
        }
        let d = ((ins.base >> 8u16) & 1) as usize;
        let s = ((ins.base >> 9u16) & 1) as usize;
        let mid: u16 = self.regs.acc40[d].mid ^ (self.regs.acc32[s] >> 16) as u16;
        self.finish_logic(d, mid);
    }

    /// Complements the middle part of accumulator `d` (bit 8).
    pub fn not(&mut self, ins: Ins)
        ensures
            ({
                let d = ((ins.base >> 8u16) & 1) as int;
                let mid: u16 = old(self).regs.acc40[d].mid ^ 0xFFFFu16;
                let acc = Acc40 { mid, ..old(self).regs.acc40[d] };
                &&& final(self).regs.acc40@ == old(self).regs.acc40@.update(d, acc)
                &&& final(self).regs.status.bits == logic_status(old(self).regs.status.bits, acc.value(), mid)
                &&& keeps(old(self).regs, final(self).regs, 9, 12)
            }),
            only_regs(*old(self), *final(self)),
    {
        proof {
            lemma_field(ins.base);
        }
        let d = ((ins.base >> 8u16) & 1) as usize;
        let mid: u16 = self.regs.acc40[d].mid ^ 0xFFFF;
        self.finish_logic(d, mid);
    }

    /// Turns off doubling of products.
    pub fn m0(&mut self, ins: Ins)
        ensures
            final(self).regs.status.bits == with_flag(old(self).regs.status.bits, 13, true),
            keeps(old(self).regs, final(self).regs, 12, 12),
            only_regs(*old(self), *final(self)),
    {
        self.regs.status.set_dont_double_result(true);
    }

    /// Turns on doubling of products.
    pub fn m2(&mut self, ins: Ins)
        ensures
            final(self).regs.status.bits == with_flag(old(self).regs.status.bits, 13, false),
            keeps(old(self).regs, final(self).regs, 12, 12),
            only_regs(*old(self), *final(self)),
    {
        self.regs.status.set_dont_double_result(false);
    }

    /// Makes multiplications signed.
    pub fn clr15(&mut self, ins: Ins)
        ensures
            final(self).regs.status.bits == with_flag(old(self).regs.status.bits, 15, false),
            keeps(old(self).regs, final(self).regs, 12, 12),
            only_regs(*old(self), *final(self)),
    {
        self.regs.status.set_unsigned_mul(false);
    }

    /// Makes multiplications unsigned where the instruction allows it.
    pub fn set15(&mut self, ins: Ins)
        ensures
            final(self).regs.status.bits == with_flag(old(self).regs.status.bits, 15, true),
            keeps(old(self).regs, final(self).regs, 12, 12),
            only_regs(*old(self), *final(self)),
    {
        self.regs.status.set_unsigned_mul(true);
    }

    /// Turns off 40 bit sign extension of accumulator moves.
    pub fn set16(&mut self, ins: Ins)
        ensures
            final(self).regs.status.bits == with_flag(old(self).regs.status.bits, 14, false),
            keeps(old(self).regs, final(self).regs, 12, 12),
            only_regs(*old(self), *final(self)),
    {
        self.regs.status.set_sign_extend_to_40(false);
    }

    /// Turns on 40 bit sign extension of accumulator moves.
    pub fn set40(&mut self, ins: Ins)
        ensures
            final(self).regs.status.bits == with_flag(old(self).regs.status.bits, 14, true),
            keeps(old(self).regs, final(self).regs, 12, 12),
            only_regs(*old(self), *final(self)),
    {
        self.regs.status.set_sign_extend_to_40(true);
    }

    /// Clears status bit 6 plus the low 3 bits of the instruction, except bit 13.
    pub fn sbclr(&mut self, ins: Ins)
        ensures
            ({
                let idx = (6 + (ins.base & 7)) as u16;
                final(self).regs.status.bits == if idx == 13 {
                    old(self).regs.status.bits
                } else {
                    with_flag(old(self).regs.status.bits, idx, false)
                }
            }),
            keeps(old(self).regs, final(self).regs, 12, 12),
            only_regs(*old(self), *final(self)),
    {
        proof {
            lemma_field(ins.base);
        }
        let idx = 6 + (ins.base & 7);
        let old_bits = self.regs.status.to_bits();
        let new_bits = if idx == 13 {
            old_bits
        } else {
            old_bits & !(1u16 << idx)
        };
        self.regs.status = Status::from_bits(new_bits);
    }

    /// Sets status bit 6 plus the low 3 bits of the instruction, except bits 8 and 13.
    pub fn sbset(&mut self, ins: Ins)
        ensures
            ({
                let idx = (6 + (ins.base & 7)) as u16;
                final(self).regs.status.bits == if idx == 13 || idx == 8 {
                    old(self).regs.status.bits
                } else {
                    with_flag(old(self).regs.status.bits, idx, true)
                }
            }),
            keeps(old(self).regs, final(self).regs, 12, 12),
            only_regs(*old(self), *final(self)),
    {
        proof {
            lemma_field(ins.base);
        }
        let idx = 6 + (ins.base & 7);
        let old_bits = self.regs.status.to_bits();
        let new_bits = if idx == 13 || idx == 8 {
            old_bits
        } else {
            old_bits | (1u16 << idx)
        };
        self.regs.status = Status::from_bits(new_bits);
    }

    /// Sets the logic zero flag when the middle part of accumulator `d` (bit 8) has none of
    /// the bits of the second instruction word.
    pub fn andf(&mut self, ins: Ins)
        ensures
            ({
                let d = bit_index(ins.base, 8);
                final(self).regs.status.bits == with_flag(old(self).regs.status.bits, 6, old(self).regs.acc40[d].mid & ins.extra == 0)
            }),
            keeps(old(self).regs, final(self).regs, 12, 12),
            only_regs(*old(self), *final(self)),
    {
        let d = acc_bit(ins.base, 8);
        let is_equal = self.regs.acc40[d].mid & ins.extra == 0;
        self.regs.status.set_logic_zero(is_equal);
    }

    /// Sets the logic zero flag when the middle part of accumulator `d` (bit 8) has all the
    /// bits of the second instruction word.
    pub fn andcf(&mut self, ins: Ins)
        ensures
            ({
                let d = bit_index(ins.base, 8);
                final(self).regs.status.bits == with_flag(old(self).regs.status.bits, 6, old(self).regs.acc40[d].mid & ins.extra == ins.extra)
            }),
            keeps(old(self).regs, final(self).regs, 12, 12),
            only_regs(*old(self), *final(self)),
    {
        let d = acc_bit(ins.base, 8);
        let is_equal = self.regs.acc40[d].mid & ins.extra == ins.extra;
        self.regs.status.set_logic_zero(is_equal);
    }

    /// Sets the flags for the high half of 32 bit accumulator `r` (bit 8); bits 14 and 15 of
    /// that half decide whether the top two bits agree.
    pub fn tstaxh(&mut self, ins: Ins)
        ensures
            ({
                let r = bit_index(ins.base, 8);
                let acc = old(self).regs.acc32[r] >> 16i32;
                final(self).regs.status.bits == with_flag(arith_status(old(self).regs.status.bits, false, false, acc as i64), 5, (acc >> 15i32) & 1 == (acc >> 14i32) & 1)
            }),
            keeps(old(self).regs, final(self).regs, 12, 12),
            only_regs(*old(self), *final(self)),
    {
        let r = acc_bit(ins.base, 8);
        let acc = self.regs.acc32[r] >> 16;
        self.set_flags(false, false, acc as i64);
        self.regs.status.set_top_two_bits_eq((acc >> 15) & 1 == (acc >> 14) & 1);
    }

    /// Clears the product register to zero, held as partial sums.
    pub fn clrp(&mut self, ins: Ins)
        ensures
            final(self).regs.product == (Product { low: 0x0000, mid1: 0xFFF0, mid2: 0x0010, high: 0x00FF }),
            keeps(old(self).regs, final(self).regs, 8, 8),
            only_regs(*old(self), *final(self)),
    {
        self.regs.product = Product { low: 0x0000, mid1: 0xFFF0, mid2: 0x0010, high: 0x00FF };
    }

    /// Adds the product to accumulator `d` (bit 8); the carry and overflow of the product
    /// combine with those of the sum.
    pub fn addp(&mut self, ins: Ins)
        ensures
            ({
                let d = bit_index(ins.base, 8);
                let lhs = old(self).regs.acc40[d].value();
                let p = old(self).regs.product;
                let rhs = p.spec_value();
                let result = (lhs + rhs) as i64;
                let new = sext40(result);
                &&& final(self).regs.acc40@ == old(self).regs.acc40@.update(d, Acc40::spec_from(result))
                &&& final(self).regs.status.bits == arith_status(old(self).regs.status.bits, spec_add_carried(lhs, new) || p.spec_carry(), spec_add_overflowed(lhs, rhs, new) != p.spec_overflow(), new)
                &&& keeps(old(self).regs, final(self).regs, 9, 12)
            }),
            only_regs(*old(self), *final(self)),
    {
        let d = acc_bit(ins.base, 8);
        let lhs = self.regs.acc40[d].get();
        let (carry, overflow, rhs) = self.regs.product.get();
        let new = self.set_acc(d, lhs + rhs);
        self.set_flags(add_carried(lhs, new) || carry, add_overflowed(lhs, rhs, new) ^ overflow, new);
    }

    /// Subtracts the product from accumulator `d` (bit 8); the carry and overflow of the
    /// product combine with those of the difference.
    pub fn subp(&mut self, ins: Ins)
        ensures
            ({
                let d = bit_index(ins.base, 8);
                let lhs = old(self).regs.acc40[d].value();
                let p = old(self).regs.product;
                let rhs = p.spec_value();
                let result = (lhs - rhs) as i64;
                let new = sext40(result);
                &&& final(self).regs.acc40@ == old(self).regs.acc40@.update(d, Acc40::spec_from(result))
                &&& final(self).regs.status.bits == arith_status(old(self).regs.status.bits, spec_sub_carried(lhs, new) != !p.spec_carry(), spec_sub_overflowed(lhs, rhs, new) != p.spec_overflow(), new)
                &&& keeps(old(self).regs, final(self).regs, 9, 12)
            }),
            only_regs(*old(self), *final(self)),
    {
        let d = acc_bit(ins.base, 8);
        let lhs = self.regs.acc40[d].get();
        let (carry, overflow, rhs) = self.regs.product.get();
        let new = self.set_acc(d, lhs - rhs);
        self.set_flags(sub_carried(lhs, new) ^ !carry, sub_overflowed(lhs, rhs, new) ^ overflow, new);
    }

    /// Adds 32 bit accumulator `s` (bit 9) to the product rounded to its middle part, and
    /// stores the sum with its low part cleared in accumulator `d` (bit 8).
    pub fn addpaxz(&mut self, ins: Ins)
        ensures
            ({
                let d = bit_index(ins.base, 8);
                let s = bit_index(ins.base, 9);
                let p = old(self).regs.product;
                let lhs = spec_round_40(p.spec_value());
                let rhs = old(self).regs.acc32[s] as i64;
                let result = ((lhs + rhs) as i64) & !0xFFFFi64;
                let new = sext40(result);
                &&& final(self).regs.acc40@ == old(self).regs.acc40@.update(d, Acc40::spec_from(result))
                &&& final(self).regs.status.bits == arith_status(old(self).regs.status.bits, spec_add_carried(lhs, new) != p.spec_carry(), spec_add_overflowed(lhs, rhs, new) != p.spec_overflow(), new)
                &&& keeps(old(self).regs, final(self).regs, 9, 12)
            }),
            only_regs(*old(self), *final(self)),
    {
        let d = acc_bit(ins.base, 8);
        let s = acc_bit(ins.base, 9);
        let (carry, overflow, prod) = self.regs.product.get();
        let lhs = round_40(prod);
        proof {
            lemma_round_40_range(prod);
        }
        let rhs = self.regs.acc32[s] as i64;
        let new = self.set_acc(d, (lhs + rhs) & !0xFFFF);
        self.set_flags(add_carried(lhs, new) ^ carry, add_overflowed(lhs, rhs, new) ^ overflow, new);
    }

    /// Steps address register `r` (low 2 bits) forward by one within its buffer.
    pub fn iar(&mut self, ins: Ins)
        ensures
            ({
                let r = (ins.base & 3) as int;
                final(self).regs.addressing@ == old(self).regs.addressing@.update(r, spec_add_to_addr_reg(old(self).regs.addressing[r], old(self).regs.wrapping[r], 1))
            }),
            keeps(old(self).regs, final(self).regs, 1, 1),
            only_regs(*old(self), *final(self)),
    {
        proof {
            lemma_field(ins.base);
        }
        let r = (ins.base & 3) as usize;
        let ar = self.regs.addressing[r];
        let wr = self.regs.wrapping[r];
        self.regs.addressing[r] = add_to_addr_reg(ar, wr, 1);
    }

    /// Steps address register `r` (low 2 bits) back by one within its buffer.
    pub fn dar(&mut self, ins: Ins)
        ensures
            ({
                let r = (ins.base & 3) as int;
                final(self).regs.addressing@ == old(self).regs.addressing@.update(r, spec_sub_from_addr_reg(old(self).regs.addressing[r], old(self).regs.wrapping[r], 1))
            }),
            keeps(old(self).regs, final(self).regs, 1, 1),
            only_regs(*old(self), *final(self)),
    {
        proof {
            lemma_field(ins.base);
        }
        let r = (ins.base & 3) as usize;
        let ar = self.regs.addressing[r];
        let wr = self.regs.wrapping[r];
        self.regs.addressing[r] = sub_from_addr_reg(ar, wr, 1);
    }

    /// Adds index register `s` (bits 2..4) to address register `d` (low 2 bits) within its
    /// buffer.
    pub fn addarn(&mut self, ins: Ins)
        ensures
            ({
                let d = (ins.base & 3) as int;
                let s = ((ins.base >> 2u16) & 3) as int;
                final(self).regs.addressing@ == old(self).regs.addressing@.update(d, spec_add_to_addr_reg(old(self).regs.addressing[d], old(self).regs.wrapping[d], old(self).regs.indexing[s] as i16))
            }),
            keeps(old(self).regs, final(self).regs, 1, 1),
            only_regs(*old(self), *final(self)),
    {
        proof {
            lemma_field(ins.base);
        }
        let d = (ins.base & 3) as usize;
        let s = ((ins.base >> 2) & 3) as usize;
        let ar = self.regs.addressing[d];
        let wr = self.regs.wrapping[d];
        let ix = self.regs.indexing[s];
        self.regs.addressing[d] = add_to_addr_reg(ar, wr, ix as i16);
    }

    /// Subtracts index register `d` from address register `d` (low 2 bits) within its buffer.
    pub fn subarn(&mut self, ins: Ins)
        ensures
            ({
                let d = (ins.base & 3) as int;
                final(self).regs.addressing@ == old(self).regs.addressing@.update(d, spec_sub_from_addr_reg(old(self).regs.addressing[d], old(self).regs.wrapping[d], old(self).regs.indexing[d] as i16))
            }),
            keeps(old(self).regs, final(self).regs, 1, 1),
            only_regs(*old(self), *final(self)),
    {
        proof {
            lemma_field(ins.base);
        }
        let d = (ins.base & 3) as usize;
        let ix = self.regs.indexing[d];
        let ar = self.regs.addressing[d];
        let wr = self.regs.wrapping[d];
        self.regs.addressing[d] = sub_from_addr_reg(ar, wr, ix as i16);
    }

    /// Whether condition `code` holds for the current status flags.
    pub fn condition(&self, code: CondCode) -> (r: bool)
        ensures
            r == spec_condition(self.regs.status.bits, code),
    {
        let status = self.regs.status;
        match code {
            CondCode::GreaterOrEqual => status.overflow() == status.sign(),
            CondCode::Less => status.overflow() != status.sign(),
            CondCode::Greater => status.overflow() == status.sign() && !status.arithmetic_zero(),
            CondCode::LessOrEqual => status.overflow() != status.sign() || status.arithmetic_zero(),
            CondCode::NotZero => !status.arithmetic_zero(),
            CondCode::Zero => status.arithmetic_zero(),
            CondCode::NotCarry => !status.carry(),
            CondCode::Carry => status.carry(),
            CondCode::BelowS32 => !status.above_s32(),
            CondCode::AboveS32 => status.above_s32(),
            CondCode::WeirdA => (status.above_s32() || status.top_two_bits_eq()) && !status.arithmetic_zero(),
            CondCode::WeirdB => (!status.above_s32() && !status.top_two_bits_eq()) || status.arithmetic_zero(),
            CondCode::NotLogicZero => !status.logic_zero(),
            CondCode::LogicZero => status.logic_zero(),
            CondCode::Overflow => status.overflow(),
            CondCode::Always => true,
        }
    }

    /// Skips the next instruction word unless the condition in the low 4 bits holds.
    pub fn ifcc(&mut self, ins: Ins)
        requires
            !spec_condition(old(self).regs.status.bits, cond_of(ins.base)) ==> old(self).regs.pc < 0xFFFF,
        ensures
            final(self).regs.pc == if spec_condition(old(self).regs.status.bits, cond_of(ins.base)) {
                old(self).regs.pc
            } else {
                (old(self).regs.pc + 1) as u16
            },
            keeps(old(self).regs, final(self).regs, 0, 0),
            only_regs(*old(self), *final(self)),
    {
        let code = cond_in(ins.base);
        if !self.condition(code) {
            self.regs.pc = self.regs.pc + 1;
        }
    }

    /// Jumps to the second instruction word when the condition in the low 4 bits holds (the
    /// program counter is left two words before the target, as the step that follows adds
    /// the instruction's length).
    pub fn jmp(&mut self, ins: Ins)
        requires
            spec_condition(old(self).regs.status.bits, cond_of(ins.base)) ==> ins.extra >= 2,
        ensures
            final(self).regs.pc == if spec_condition(old(self).regs.status.bits, cond_of(ins.base)) {
                (ins.extra - 2) as u16
            } else {
                old(self).regs.pc
            },
            keeps(old(self).regs, final(self).regs, 0, 0),
            only_regs(*old(self), *final(self)),
    {
        let code = cond_in(ins.base);
        if self.condition(code) {
            self.regs.pc = ins.extra - 2;
        }
    }

    /// Jumps to the address in register `r` (bits 5..8) when the condition in the low 4 bits
    /// holds (the program counter is left one word before the target).
    pub fn jmpr(&mut self, ins: Ins)
        requires
            spec_condition(old(self).regs.status.bits, cond_of(ins.base)) ==> reg_value(old(self).regs, reg_at(((ins.base >> 5u16) & 7) as u8)) >= 1,
        ensures
            final(self).regs.pc == if spec_condition(old(self).regs.status.bits, cond_of(ins.base)) {
                (reg_value(old(self).regs, reg_at(((ins.base >> 5u16) & 7) as u8)) - 1) as u16
            } else {
                old(self).regs.pc
            },
            keeps(old(self).regs, final(self).regs, 0, 0),
            only_regs(*old(self), *final(self)),
    {
        proof {
            lemma_field(ins.base);
        }
        let r = ((ins.base >> 5) & 7) as u8;
        let code = cond_in(ins.base);
        let addr = self.regs.get(Reg::new(r));
        if self.condition(code) {
            self.regs.pc = addr - 1;
        }
    }

    /// Calls the second instruction word when the condition in the low 4 bits holds: pushes
    /// the address after this instruction onto the call stack.
    pub fn call(&mut self, ins: Ins)
        requires
            spec_condition(old(self).regs.status.bits, cond_of(ins.base)) ==> ins.extra >= 2 && stack8_items(old(self).regs.call_stack).len() < 8,
        ensures
            spec_condition(old(self).regs.status.bits, cond_of(ins.base)) ==> final(self).regs.pc == (ins.extra - 2) as u16
                && stack8_items(final(self).regs.call_stack) == stack8_items(old(self).regs.call_stack).push(old(self).regs.pc.wrapping_add(2))
                && keeps(old(self).regs, final(self).regs, 0, 4),
            !spec_condition(old(self).regs.status.bits, cond_of(ins.base)) ==> final(self).regs == old(self).regs,
            only_regs(*old(self), *final(self)),
    {
        let code = cond_in(ins.base);
        if self.condition(code) {
            stack8_push(&mut self.regs.call_stack, self.regs.pc.wrapping_add(2));
            self.regs.pc = ins.extra - 2;
        }
    }

    /// Calls the address in register `r` (bits 5..8) when the condition in the low 4 bits
    /// holds: pushes the address after this instruction onto the call stack.
    pub fn callr(&mut self, ins: Ins)
        requires
            spec_condition(old(self).regs.status.bits, cond_of(ins.base)) ==> reg_value(old(self).regs, reg_at(((ins.base >> 5u16) & 7) as u8)) >= 1 && stack8_items(old(self).regs.call_stack).len() < 8,
        ensures
            spec_condition(old(self).regs.status.bits, cond_of(ins.base)) ==> final(self).regs.pc == (reg_value(old(self).regs, reg_at(((ins.base >> 5u16) & 7) as u8)) - 1) as u16
                && stack8_items(final(self).regs.call_stack) == stack8_items(old(self).regs.call_stack).push(old(self).regs.pc.wrapping_add(1))
                && keeps(old(self).regs, final(self).regs, 0, 4),
            !spec_condition(old(self).regs.status.bits, cond_of(ins.base)) ==> final(self).regs == old(self).regs,
            only_regs(*old(self), *final(self)),
    {
        proof {
            lemma_field(ins.base);
        }
        let r = ((ins.base >> 5) & 7) as u8;
        let code = cond_in(ins.base);
        let addr = self.regs.get(Reg::new(r));
        if self.condition(code) {
            stack8_push(&mut self.regs.call_stack, self.regs.pc.wrapping_add(1));
            self.regs.pc = addr - 1;
        }
    }

    /// Returns when the condition in the low 4 bits holds: pops the call stack into the
    /// program counter (one word before the return address).
    pub fn ret(&mut self, ins: Ins)
        requires
            spec_condition(old(self).regs.status.bits, cond_of(ins.base)) ==> stack8_items(old(self).regs.call_stack).len() > 0
                && stack8_items(old(self).regs.call_stack).last() >= 1,
        ensures
            spec_condition(old(self).regs.status.bits, cond_of(ins.base)) ==> final(self).regs.pc == (stack8_items(old(self).regs.call_stack).last() - 1) as u16
                && stack8_items(final(self).regs.call_stack) == stack8_items(old(self).regs.call_stack).drop_last()
                && keeps(old(self).regs, final(self).regs, 0, 4),
            !spec_condition(old(self).regs.status.bits, cond_of(ins.base)) ==> final(self).regs == old(self).regs,
            only_regs(*old(self), *final(self)),
    {
        let code = cond_in(ins.base);
        if self.condition(code) {
            let popped = stack8_pop(&mut self.regs.call_stack);
            match popped {
                Some(addr) => {
                    self.regs.pc = addr - 1;
                },
                None => {},
            }
        }
    }

    /// Moves register `s` (low 5 bits) to register `d` (bits 5..10), saturating.
    pub fn mrr(&mut self, ins: Ins)
        requires
            reg_at(((ins.base >> 5u16) & 0x1F) as u8) != Reg::LoopStack ==> can_write(old(self).regs, reg_at(((ins.base >> 5u16) & 0x1F) as u8)),
        ensures
            wrote_saturating(old(self).regs, final(self).regs, reg_at(((ins.base >> 5u16) & 0x1F) as u8), reg_value(old(self).regs, reg_at((ins.base & 0x1F) as u8))),
            only_regs(*old(self), *final(self)),
    {
        proof {
            lemma_field(ins.base);
        }
        let s = (ins.base & 0x1F) as u8;
        let d = ((ins.base >> 5) & 0x1F) as u8;
        let src = self.regs.get(Reg::new(s));
        self.regs.set_saturate(Reg::new(d), src);
    }

    /// Loads the second instruction word into register `d` (low 5 bits), saturating.
    pub fn lri(&mut self, ins: Ins)
        requires
            reg_at((ins.base & 0x1F) as u8) != Reg::LoopStack ==> can_write(old(self).regs, reg_at((ins.base & 0x1F) as u8)),
        ensures
            wrote_saturating(old(self).regs, final(self).regs, reg_at((ins.base & 0x1F) as u8), ins.extra),
            only_regs(*old(self), *final(self)),
    {
        proof {
            lemma_field(ins.base);
        }
        let d = (ins.base & 0x1F) as u8;
        self.regs.set_saturate(Reg::new(d), ins.extra);
    }

    /// Loads the low byte of the instruction, sign-extended, into register `0x18 + d` (`d` in
    /// bits 8..11), saturating.
    pub fn lris(&mut self, ins: Ins)
        ensures
            wrote_saturating(old(self).regs, final(self).regs, reg_at((0x18 + ((ins.base >> 8u16) & 7)) as u8), (ins.base & 0xFF) as u8 as i8 as i16 as u16),
            only_regs(*old(self), *final(self)),
    {
        proof {
            lemma_field(ins.base);
        }
        let d = ((ins.base >> 8) & 7) as u8;
        let imm = (ins.base & 0xFF) as u8 as i8 as i16;
        self.regs.set_saturate(Reg::new(0x18 + d), imm as u16);
    }

    /// Starts a block loop counted by register `r` (low 5 bits): pushes the return address,
    /// the loop end (the second instruction word plus one) and the register's value.
    pub fn bloop(&mut self, ins: Ins)
        requires
            ins.extra < 0xFFFF,
            stack8_items(old(self).regs.call_stack).len() < 8,
            stack4_items(old(self).regs.loop_stack).len() < 4,
            stack4_items(old(self).regs.loop_count).len() < 4,
        ensures
            stack8_items(final(self).regs.call_stack) == stack8_items(old(self).regs.call_stack).push(old(self).regs.pc.wrapping_add(2)),
            stack4_items(final(self).regs.loop_stack) == stack4_items(old(self).regs.loop_stack).push((ins.extra + 1) as u16),
            stack4_items(final(self).regs.loop_count) == stack4_items(old(self).regs.loop_count).push(reg_value(old(self).regs, reg_at((ins.base & 0x1F) as u8))),
            final(self).regs.pc == old(self).regs.pc,
            final(self).regs.addressing == old(self).regs.addressing,
            final(self).regs.acc40 == old(self).regs.acc40,
            final(self).regs.status == old(self).regs.status,
            only_regs(*old(self), *final(self)),
    {
        proof {
            lemma_field(ins.base);
        }
        let r = (ins.base & 0x1F) as u8;
        let counter = self.regs.get(Reg::new(r));
        stack8_push(&mut self.regs.call_stack, self.regs.pc.wrapping_add(2));
        stack4_push(&mut self.regs.loop_stack, ins.extra + 1);
        stack4_push(&mut self.regs.loop_count, counter);
    }

    /// Starts a block loop: pushes the return address, the loop end (the second instruction
    /// word plus one) and the count in the low byte of the instruction.
    pub fn bloopi(&mut self, ins: Ins)
        requires
            ins.extra < 0xFFFF,
            stack8_items(old(self).regs.call_stack).len() < 8,
            stack4_items(old(self).regs.loop_stack).len() < 4,
            stack4_items(old(self).regs.loop_count).len() < 4,
        ensures
            stack8_items(final(self).regs.call_stack) == stack8_items(old(self).regs.call_stack).push(old(self).regs.pc.wrapping_add(2)),
            stack4_items(final(self).regs.loop_stack) == stack4_items(old(self).regs.loop_stack).push((ins.extra + 1) as u16),
            stack4_items(final(self).regs.loop_count) == stack4_items(old(self).regs.loop_count).push(ins.base & 0xFF),
            final(self).regs.pc == old(self).regs.pc,
            final(self).regs.addressing == old(self).regs.addressing,
            final(self).regs.acc40 == old(self).regs.acc40,
            final(self).regs.status == old(self).regs.status,
            only_regs(*old(self), *final(self)),
    {
        let counter = ins.base & 0xFF;
        stack8_push(&mut self.regs.call_stack, self.regs.pc.wrapping_add(2));
        stack4_push(&mut self.regs.loop_stack, ins.extra + 1);
        stack4_push(&mut self.regs.loop_count, counter);
    }

    /// Reads instruction memory: IRAM below 0x1000, IROM at 0x8000..0x9000, zero elsewhere.
    pub fn read_imem(&self, addr: u16) -> (v: u16)
        requires
            self.wf(),
        ensures
            v == spec_read_imem(self.mem, addr),
    {
        if addr < 0x1000 {
            self.mem.iram[addr as usize]
        } else if 0x8000 <= addr && addr < 0x9000 {
            self.mem.irom[(addr - 0x8000) as usize]
        } else {
            0
        }
    }

    /// Writes instruction memory; only IRAM, below 0x1000, takes writes.
    pub fn write_imem(&mut self, addr: u16, value: u16)
        requires
            old(self).wf(),
        ensures
            final(self).wf(),
            addr < 0x1000 ==> final(self).mem.iram@ == old(self).mem.iram@.update(addr as int, value),
            addr >= 0x1000 ==> final(self).mem.iram@ == old(self).mem.iram@,
            final(self).mem.irom == old(self).mem.irom,
            final(self).mem.dram == old(self).mem.dram,
            final(self).mem.coef == old(self).mem.coef,
            final(self).regs == old(self).regs,
            final(self).loop_counter == old(self).loop_counter,
            final(self).accel == old(self).accel,
            final(self).old_reset_high == old(self).old_reset_high,
    {
        if addr < 0x1000 {
            self.mem.iram.set(addr as usize, value);
        }
    }

    /// At the end of a block loop (the loop stack's top equals the program counter) counts
    /// one iteration down: on the last one pops the loop's entries, otherwise jumps back to
    /// its start.
    pub fn check_stacks(&mut self)
        requires
            stacks_ok(old(self).regs),
        ensures
            stacks_checked(old(self).regs, final(self).regs),
            final(self).regs.acc40 == old(self).regs.acc40,
            final(self).regs.status == old(self).regs.status,
            final(self).regs.product == old(self).regs.product,
            only_regs(*old(self), *final(self)),
    {
        let top = stack4_last(&self.regs.loop_stack);
        match top {
            Some(end) => {
                if end == self.regs.pc {
                    let count = stack4_pop(&mut self.regs.loop_count);
                    let counter = match count {
                        Some(c) => if c > 0 { c - 1 } else { 0 },
                        None => 0,
                    };
                    if counter == 0 {
                        stack8_pop(&mut self.regs.call_stack);
                        stack4_pop(&mut self.regs.loop_stack);
                    } else {
                        stack4_push(&mut self.regs.loop_count, counter);
                        let start = stack8_last(&self.regs.call_stack);
                        match start {
                            Some(addr) => {
                                self.regs.pc = addr;
                            },
                            None => {},
                        }
                    }
                }
            },
            None => {},
        }
    }
}


/// A product of two 16 bit values, doubled unless bit 13 of the status asks not to.
pub open spec fn scaled_product(bits: u16, m: int) -> int {
    if flag(bits, 13) {
        m
    } else {
        2 * m
    }
}

/// Whether a scaled product fits the 32 bits it is computed in.
pub open spec fn scaled_fits(bits: u16, m: int) -> bool {
    i32::MIN <= scaled_product(bits, m) <= i32::MAX
}

/// The low half of a 32 bit accumulator times its high half, both signed.
pub open spec fn halves_product(a: i32) -> int {
    (a as i16) as int * (a >> 16i32) as int
}

/// The middle part of a 40 bit accumulator times the high half of a 32 bit one, both signed.
pub open spec fn mid_high_product(mid: u16, a: i32) -> int {
    (mid as i16) as int * (a >> 16i32) as int
}

/// The product of two 16 bit halves, both signed.
pub open spec fn words_product(a: u16, b: u16) -> int {
    (a as i16) as int * (b as i16) as int
}

/// Two signed 16 bit values multiply within 31 bits.
proof fn lemma_mul16(x: int, y: int)
    by (nonlinear_arith)
    requires
        -0x8000 <= x <= 0x7FFF,
        -0x8000 <= y <= 0x7FFF,
    ensures
        -0x4000_0000 < x * y <= 0x4000_0000,
{
}

/// How the operands of an extended multiplication are extended.
#[derive(Debug, Clone, Copy, PartialEq, Eq, Structural)]
pub enum MultiplyMode {
    Unsigned,
    Mixed,
    Signed,
}

/// The extended product of `a` and `b`: both signed in signed mode or when bit 15 of the status
/// is clear, else `a` unsigned and `b` signed in mixed mode, both unsigned otherwise; doubled
/// unless bit 13 asks not to.
pub open spec fn spec_multiply(bits: u16, mode: MultiplyMode, a: u16, b: u16) -> i64 {
    let factor: int = if flag(bits, 13) { 1 } else { 2 };
    let (x, y): (int, int) = if mode == MultiplyMode::Signed || !flag(bits, 15) {
        ((a as i16) as int, (b as i16) as int)
    } else if mode == MultiplyMode::Mixed {
        (a as int, (b as i16) as int)
    } else {
        (a as int, b as int)
    };
    (x * y * factor) as i64
}

/// The operands and mode of an extended multiplication picked by bits 11 and 12: the high or
/// low halves of the two 32 bit accumulators.
pub open spec fn mulx_operands(r: Registers, base: u16) -> (MultiplyMode, u16, u16) {
    let t = flag(base, 11);
    let s = flag(base, 12);
    let lhs = if s { acc32_half(r, 2) } else { acc32_half(r, 0) };
    let rhs = if t { acc32_half(r, 3) } else { acc32_half(r, 1) };
    if !s && !t {
        (MultiplyMode::Unsigned, lhs, rhs)
    } else if !s && t {
        (MultiplyMode::Mixed, lhs, rhs)
    } else if s && !t {
        (MultiplyMode::Mixed, rhs, lhs)
    } else {
        (MultiplyMode::Signed, lhs, rhs)
    }
}

/// The extended product that bits 11 and 12 of `base` pick.
pub open spec fn mulx_product(r: Registers, base: u16) -> i64 {
    let (mode, a, b) = mulx_operands(r, base);
    spec_multiply(r.status.bits, mode, a, b)
}

/// `value` shifted by the signed shift in the low 7 bits of `ss`: with bit 6 set, by 64 minus
/// the low 6 bits (modulo 64) in one direction, else by the low 6 bits in the other; to the
/// left first when `left_first`.
pub open spec fn shift_by(value: i64, ss: u16, left_first: bool) -> i64 {
    let n = (ss & 0x3F) as u64;
    let m = ((64 - (ss & 0x3F)) % 64) as u64;
    if (ss >> 6u16) & 1 == 1 {
        if left_first { value << m } else { value >> m }
    } else {
        if left_first { value >> n } else { value << n }
    }
}

/// The low 40 bits of an accumulator value.
pub open spec fn low40(value: i64) -> i64 {
    value & 0xFF_FFFF_FFFFi64
}

/// Whether `new` differs from `old` in the product, the 40 bit accumulators and the status
/// alone.
pub open spec fn keeps_but_mac(old: Registers, new: Registers) -> bool {
    &&& new.pc == old.pc
    &&& new.addressing == old.addressing
    &&& new.indexing == old.indexing
    &&& new.wrapping == old.wrapping
    &&& new.call_stack == old.call_stack
    &&& new.data_stack == old.data_stack
    &&& new.loop_stack == old.loop_stack
    &&& new.loop_count == old.loop_count
    &&& new.acc32 == old.acc32
    &&& new.config == old.config
}

/// The status after a multiply-and-accumulate result `new`: overflow cleared, then the
/// flags of the result.
pub open spec fn mac_status(bits: u16, new: i64) -> u16 {
    spec_base_flags(with_flag(bits, 1, false), new)
}

impl Interpreter {
    /// Multiplies `m`, already a 16 by 16 bit product, by two unless bit 13 of the status asks
    /// not to.
    fn scale(&self, m: i32) -> (r: i32)
        requires
            scaled_fits(self.regs.status.bits, m as int),
        ensures
            r == scaled_product(self.regs.status.bits, m as int),
    {
        if self.regs.status.dont_double_result() {
            m
        } else {
            2 * m
        }
    }

    /// The low half of 32 bit accumulator `s` times its high half.
    pub(crate) fn halves(&self, s: usize) -> (r: i32)
        requires
            s < 2,
        ensures
            r == halves_product(self.regs.acc32[s as int]),
            -0x4000_0000 < r <= 0x4000_0000,
    {
        let a = self.regs.acc32[s];
        proof {
            lemma_high_half(a);
            lemma_mul16((a as i16) as int, (a >> 16i32) as int);
        }
        let low = (a as i16) as i32;
        let high = a >> 16i32;
        low * high
    }

    /// The middle part of accumulator `s` times the high half of 32 bit accumulator `t`.
    pub(crate) fn mid_high(&self, s: usize, t: usize) -> (r: i32)
        requires
            s < 2,
            t < 2,
        ensures
            r == mid_high_product(self.regs.acc40[s as int].mid, self.regs.acc32[t as int]),
            -0x4000_0000 < r <= 0x4000_0000,
    {
        let a = self.regs.acc32[t];
        let mid = self.regs.acc40[s].mid;
        proof {
            lemma_high_half(a);
            lemma_mul16((mid as i16) as int, (a >> 16i32) as int);
        }
        let lhs = (mid as i16) as i32;
        let rhs = a >> 16i32;
        lhs * rhs
    }

    /// The extended product of `a` and `b` in `mode`.
    fn multiply(&self, mode: MultiplyMode, a: u16, b: u16) -> (r: i64)
        ensures
            r == spec_multiply(self.regs.status.bits, mode, a, b),
    {
        let factor: i64 = if self.regs.status.dont_double_result() { 1 } else { 2 };
        let (x, y): (i64, i64) = if mode == MultiplyMode::Signed || !self.regs.status.unsigned_mul() {
            (a as i16 as i64, b as i16 as i64)
        } else if mode == MultiplyMode::Mixed {
            (a as i64, b as i16 as i64)
        } else {
            (a as i64, b as i64)
        };
        assert(-0x1_0000_0000 <= x * y <= 0x1_0000_0000) by (nonlinear_arith)
            requires
                -0x8000 <= x <= 0xFFFF,
                -0x8000 <= y <= 0xFFFF,
        ;
        x * y * factor
    }

    /// The operands and mode of an extended multiplication.
    fn mulx_args(&self, base: u16) -> (r: (MultiplyMode, u16, u16))
        ensures
            r == mulx_operands(self.regs, base),
    {
        proof {
            lemma_high_half(self.regs.acc32[0]);
            lemma_high_half(self.regs.acc32[1]);
        }
        let t = (base >> 11u16) & 1 == 1;
        let s = (base >> 12u16) & 1 == 1;
        let lhs = if s { self.regs.get(Reg::new(0x1A)) } else { self.regs.get(Reg::new(0x18)) };
        let rhs = if t { self.regs.get(Reg::new(0x1B)) } else { self.regs.get(Reg::new(0x19)) };
        if !s && !t {
            (MultiplyMode::Unsigned, lhs, rhs)
        } else if !s && t {
            (MultiplyMode::Mixed, lhs, rhs)
        } else if s && !t {
            (MultiplyMode::Mixed, rhs, lhs)
        } else {
            (MultiplyMode::Signed, lhs, rhs)
        }
    }

    /// Multiplies the halves of 32 bit accumulator `s` (bit 11) into the product.
    pub fn mul(&mut self, ins: Ins)
        requires
            scaled_fits(old(self).regs.status.bits, halves_product(old(self).regs.acc32[bit_index(ins.base, 11)])),
        ensures
            final(self).regs.product == Product::spec_set(
                scaled_product(old(self).regs.status.bits, halves_product(old(self).regs.acc32[bit_index(ins.base, 11)])) as i64,
            ),
            keeps(old(self).regs, final(self).regs, 8, 8),
            only_regs(*old(self), *final(self)),
    {
        let s = acc_bit(ins.base, 11);
        let m = self.halves(s);
        let result = self.scale(m);
        self.regs.product.set(result as i64);
    }

    /// Adds the product to accumulator `r` (bit 8), then multiplies the halves of 32 bit
    /// accumulator `s` (bit 11) into the product.
    pub fn mulac(&mut self, ins: Ins)
        requires
            scaled_fits(old(self).regs.status.bits, halves_product(old(self).regs.acc32[bit_index(ins.base, 11)])),
        ensures
            ({
                let r = bit_index(ins.base, 8);
                let result = (old(self).regs.acc40[r].value() + old(self).regs.product.spec_value()) as i64;
                &&& final(self).regs.acc40@ == old(self).regs.acc40@.update(r, Acc40::spec_from(result))
                &&& final(self).regs.product == Product::spec_set(
                    scaled_product(old(self).regs.status.bits, halves_product(old(self).regs.acc32[bit_index(ins.base, 11)])) as i64,
                )
                &&& final(self).regs.status.bits == mac_status(old(self).regs.status.bits, sext40(result))
                &&& keeps_but_mac(old(self).regs, final(self).regs)
            }),
            only_regs(*old(self), *final(self)),
    {
        let r = acc_bit(ins.base, 8);
        let s = acc_bit(ins.base, 11);
        let acc_r = self.regs.acc40[r].get();
        let (_, _, prod) = self.regs.product.get();
        let new = self.set_acc(r, acc_r + prod);
        let m = self.halves(s);
        let result = self.scale(m);
        self.regs.product.set(result as i64);
        self.regs.status.set_overflow(false);
        self.base_flags(new);
    }

    /// Squares the high half of 32 bit accumulator 0 into the product.
    pub fn mulaxh(&mut self, ins: Ins)
        ensures
            ({
                let v = (old(self).regs.acc32[0] >> 16i32) as int;
                final(self).regs.product == Product::spec_set(scaled_product(old(self).regs.status.bits, v * v) as i64)
            }),
            keeps(old(self).regs, final(self).regs, 8, 8),
            only_regs(*old(self), *final(self)),
    {
        let a = self.regs.acc32[0];
        proof {
            lemma_high_half(a);
            lemma_mul16((a >> 16i32) as int, (a >> 16i32) as int);
        }
        let val = (a >> 16i32) as i64;
        let m = val * val;
        let result = if self.regs.status.dont_double_result() { m } else { 2 * m };
        self.regs.product.set(result);
    }

    /// Multiplies the middle part of accumulator `s` (bit 12) by the high half of 32 bit
    /// accumulator `t` (bit 11) into the product.
    pub fn mulc(&mut self, ins: Ins)
        requires
            scaled_fits(old(self).regs.status.bits, mid_high_product(old(self).regs.acc40[bit_index(ins.base, 12)].mid, old(self).regs.acc32[bit_index(ins.base, 11)])),
        ensures
            final(self).regs.product == Product::spec_set(
                scaled_product(old(self).regs.status.bits, mid_high_product(old(self).regs.acc40[bit_index(ins.base, 12)].mid, old(self).regs.acc32[bit_index(ins.base, 11)])) as i64,
            ),
            keeps(old(self).regs, final(self).regs, 8, 8),
            only_regs(*old(self), *final(self)),
    {
        let t = acc_bit(ins.base, 11);
        let s = acc_bit(ins.base, 12);
        let m = self.mid_high(s, t);
        let result = self.scale(m);
        self.regs.product.set(result as i64);
    }

    /// Multiplies the middle part of accumulator `s` (bit 12) by the high half of 32 bit
    /// accumulator `t` (bit 11) into the product, and adds the previous product to accumulator
    /// `r` (bit 8).
    pub fn mulcac(&mut self, ins: Ins)
        requires
            scaled_fits(old(self).regs.status.bits, mid_high_product(old(self).regs.acc40[bit_index(ins.base, 12)].mid, old(self).regs.acc32[bit_index(ins.base, 11)])),
        ensures
            ({
                let r = bit_index(ins.base, 8);
                let result = (old(self).regs.acc40[r].value() + old(self).regs.product.spec_value()) as i64;
                &&& final(self).regs.acc40@ == old(self).regs.acc40@.update(r, Acc40::spec_from(result))
                &&& final(self).regs.product == Product::spec_set(
                    scaled_product(old(self).regs.status.bits, mid_high_product(old(self).regs.acc40[bit_index(ins.base, 12)].mid, old(self).regs.acc32[bit_index(ins.base, 11)])) as i64,
                )
                &&& final(self).regs.status.bits == mac_status(old(self).regs.status.bits, sext40(result))
                &&& keeps_but_mac(old(self).regs, final(self).regs)
            }),
            only_regs(*old(self), *final(self)),
    {
        let r = acc_bit(ins.base, 8);
        let t = acc_bit(ins.base, 11);
        let s = acc_bit(ins.base, 12);
        let (_, _, prod) = self.regs.product.get();
        let m = self.mid_high(s, t);
        let result = self.scale(m);
        self.regs.product.set(result as i64);
        let acc_r = self.regs.acc40[r].get();
        let new = self.set_acc(r, acc_r + prod);
        self.regs.status.set_overflow(false);
        self.base_flags(new);
    }

    /// Multiplies as `mulc` does, and moves the previous product into accumulator `r` (bit 8).
    pub fn mulcmv(&mut self, ins: Ins)
        requires
            scaled_fits(old(self).regs.status.bits, mid_high_product(old(self).regs.acc40[bit_index(ins.base, 12)].mid, old(self).regs.acc32[bit_index(ins.base, 11)])),
        ensures
            ({
                let r = bit_index(ins.base, 8);
                let result = old(self).regs.product.spec_value();
                &&& final(self).regs.acc40@ == old(self).regs.acc40@.update(r, Acc40::spec_from(result))
                &&& final(self).regs.product == Product::spec_set(
                    scaled_product(old(self).regs.status.bits, mid_high_product(old(self).regs.acc40[bit_index(ins.base, 12)].mid, old(self).regs.acc32[bit_index(ins.base, 11)])) as i64,
                )
                &&& final(self).regs.status.bits == mac_status(old(self).regs.status.bits, sext40(result))
                &&& keeps_but_mac(old(self).regs, final(self).regs)
            }),
            only_regs(*old(self), *final(self)),
    {
        let r = acc_bit(ins.base, 8);
        let t = acc_bit(ins.base, 11);
        let s = acc_bit(ins.base, 12);
        let (_, _, prod) = self.regs.product.get();
        let m = self.mid_high(s, t);
        let result = self.scale(m);
        self.regs.product.set(result as i64);
        let new = self.set_acc(r, prod);
        self.regs.status.set_overflow(false);
        self.base_flags(new);
    }

    /// Multiplies as `mulc` does, and moves the previous product, rounded to its middle part,
    /// into accumulator `r` (bit 8).
    pub fn mulcmvz(&mut self, ins: Ins)
        requires
            scaled_fits(old(self).regs.status.bits, mid_high_product(old(self).regs.acc40[bit_index(ins.base, 12)].mid, old(self).regs.acc32[bit_index(ins.base, 11)])),
        ensures
            ({
                let r = bit_index(ins.base, 8);
                let result = spec_round_40(old(self).regs.product.spec_value());
                &&& final(self).regs.acc40@ == old(self).regs.acc40@.update(r, Acc40::spec_from(result))
                &&& final(self).regs.product == Product::spec_set(
                    scaled_product(old(self).regs.status.bits, mid_high_product(old(self).regs.acc40[bit_index(ins.base, 12)].mid, old(self).regs.acc32[bit_index(ins.base, 11)])) as i64,
                )
                &&& final(self).regs.status.bits == mac_status(old(self).regs.status.bits, sext40(result))
                &&& keeps_but_mac(old(self).regs, final(self).regs)
            }),
            only_regs(*old(self), *final(self)),
    {
        let r = acc_bit(ins.base, 8);
        let t = acc_bit(ins.base, 11);
        let s = acc_bit(ins.base, 12);
        let (_, _, prod) = self.regs.product.get();
        let m = self.mid_high(s, t);
        let result = self.scale(m);
        self.regs.product.set(result as i64);
        let new = self.set_acc(r, round_40(prod));
        self.regs.status.set_overflow(false);
        self.base_flags(new);
    }

    /// Moves the product into accumulator `r` (bit 8), then multiplies the halves of 32 bit
    /// accumulator `s` (bit 11) into the product.
    pub fn mulmv(&mut self, ins: Ins)
        requires
            scaled_fits(old(self).regs.status.bits, halves_product(old(self).regs.acc32[bit_index(ins.base, 11)])),
        ensures
            ({
                let r = bit_index(ins.base, 8);
                let result = old(self).regs.product.spec_value();
                &&& final(self).regs.acc40@ == old(self).regs.acc40@.update(r, Acc40::spec_from(result))
                &&& final(self).regs.product == Product::spec_set(
                    scaled_product(old(self).regs.status.bits, halves_product(old(self).regs.acc32[bit_index(ins.base, 11)])) as i64,
                )
                &&& final(self).regs.status.bits == mac_status(old(self).regs.status.bits, sext40(result))
                &&& keeps_but_mac(old(self).regs, final(self).regs)
            }),
            only_regs(*old(self), *final(self)),
    {
        let r = acc_bit(ins.base, 8);
        let s = acc_bit(ins.base, 11);
        let (_, _, prod) = self.regs.product.get();
        let new = self.set_acc(r, prod);
        let m = self.halves(s);
        let result = self.scale(m);
        self.regs.product.set(result as i64);
        self.regs.status.set_overflow(false);
        self.base_flags(new);
    }

    /// Moves the product, rounded to its middle part, into accumulator `r` (bit 8), then
    /// multiplies the halves of 32 bit accumulator `s` (bit 11) into the product.
    pub fn mulmvz(&mut self, ins: Ins)
        requires
            scaled_fits(old(self).regs.status.bits, halves_product(old(self).regs.acc32[bit_index(ins.base, 11)])),
        ensures
            ({
                let r = bit_index(ins.base, 8);
                let result = spec_round_40(old(self).regs.product.spec_value());
                &&& final(self).regs.acc40@ == old(self).regs.acc40@.update(r, Acc40::spec_from(result))
                &&& final(self).regs.product == Product::spec_set(
                    scaled_product(old(self).regs.status.bits, halves_product(old(self).regs.acc32[bit_index(ins.base, 11)])) as i64,
                )
                &&& final(self).regs.status.bits == mac_status(old(self).regs.status.bits, sext40(result))
                &&& keeps_but_mac(old(self).regs, final(self).regs)
            }),
            only_regs(*old(self), *final(self)),
    {
        let r = acc_bit(ins.base, 8);
        let s = acc_bit(ins.base, 11);
        let (_, _, prod) = self.regs.product.get();
        let new = self.set_acc(r, round_40(prod));
        let m = self.halves(s);
        let result = self.scale(m);
        self.regs.product.set(result as i64);
        self.regs.status.set_overflow(false);
        self.base_flags(new);
    }

    /// Multiplies a half of each 32 bit accumulator (bits 11 and 12 pick them, and with them
    /// signed, mixed or unsigned operands) into the product.
    pub fn mulx(&mut self, ins: Ins)
        ensures
            final(self).regs.product == Product::spec_set(mulx_product(old(self).regs, ins.base)),
            keeps(old(self).regs, final(self).regs, 8, 8),
            only_regs(*old(self), *final(self)),
    {
        let (mode, lhs, rhs) = self.mulx_args(ins.base);
        let result = self.multiply(mode, lhs, rhs);
        self.regs.product.set(result);
    }

    /// Adds the product to accumulator `r` (bit 8), then multiplies as `mulx` does.
    pub fn mulxac(&mut self, ins: Ins)
        ensures
            ({
                let r = bit_index(ins.base, 8);
                let result = (old(self).regs.acc40[r].value() + old(self).regs.product.spec_value()) as i64;
                &&& final(self).regs.acc40@ == old(self).regs.acc40@.update(r, Acc40::spec_from(result))
                &&& final(self).regs.product == Product::spec_set(mulx_product(old(self).regs, ins.base))
                &&& keeps(old(self).regs, final(self).regs, 8, 9)
            }),
            only_regs(*old(self), *final(self)),
    {
        let r = acc_bit(ins.base, 8);
        let (mode, lhs, rhs) = self.mulx_args(ins.base);
        let (_, _, prod) = self.regs.product.get();
        let acc = self.regs.acc40[r].get();
        self.set_acc(r, acc + prod);
        let result = self.multiply(mode, lhs, rhs);
        self.regs.product.set(result);
    }

    /// Moves the product into accumulator `r` (bit 8), then multiplies as `mulx` does.
    pub fn mulxmv(&mut self, ins: Ins)
        ensures
            ({
                let r = bit_index(ins.base, 8);
                let result = old(self).regs.product.spec_value();
                &&& final(self).regs.acc40@ == old(self).regs.acc40@.update(r, Acc40::spec_from(result))
                &&& final(self).regs.product == Product::spec_set(mulx_product(old(self).regs, ins.base))
                &&& keeps(old(self).regs, final(self).regs, 8, 9)
            }),
            only_regs(*old(self), *final(self)),
    {
        let r = acc_bit(ins.base, 8);
        let (mode, lhs, rhs) = self.mulx_args(ins.base);
        let (_, _, prod) = self.regs.product.get();
        self.set_acc(r, prod);
        let result = self.multiply(mode, lhs, rhs);
        self.regs.product.set(result);
    }

    /// Moves the product, rounded to its middle part, into accumulator `r` (bit 8), then
    /// multiplies as `mulx` does.
    pub fn mulxmvz(&mut self, ins: Ins)
        ensures
            ({
                let r = bit_index(ins.base, 8);
                let result = spec_round_40(old(self).regs.product.spec_value());
                &&& final(self).regs.acc40@ == old(self).regs.acc40@.update(r, Acc40::spec_from(result))
                &&& final(self).regs.product == Product::spec_set(mulx_product(old(self).regs, ins.base))
                &&& keeps(old(self).regs, final(self).regs, 8, 9)
            }),
            only_regs(*old(self), *final(self)),
    {
        let r = acc_bit(ins.base, 8);
        let (mode, lhs, rhs) = self.mulx_args(ins.base);
        let (_, _, prod) = self.regs.product.get();
        self.set_acc(r, round_40(prod));
        let result = self.multiply(mode, lhs, rhs);
        self.regs.product.set(result);
    }

    /// Adds the halves of 32 bit accumulator `s` (bit 8), multiplied, to the product.
    pub fn madd(&mut self, ins: Ins)
        requires
            scaled_fits(old(self).regs.status.bits, halves_product(old(self).regs.acc32[bit_index(ins.base, 8)])),
        ensures
            final(self).regs.product == Product::spec_set(
                (old(self).regs.product.spec_value() + scaled_product(old(self).regs.status.bits, halves_product(old(self).regs.acc32[bit_index(ins.base, 8)]))) as i64,
            ),
            keeps(old(self).regs, final(self).regs, 8, 8),
            only_regs(*old(self), *final(self)),
    {
        let s = acc_bit(ins.base, 8);
        let m = self.halves(s);
        let result = self.scale(m);
        let (_, _, prod) = self.regs.product.get();
        self.regs.product.set(prod + result as i64);
    }

    /// Subtracts the halves of 32 bit accumulator `s` (bit 8), multiplied, from the product.
    pub fn msub(&mut self, ins: Ins)
        requires
            scaled_fits(old(self).regs.status.bits, halves_product(old(self).regs.acc32[bit_index(ins.base, 8)])),
        ensures
            final(self).regs.product == Product::spec_set(
                (old(self).regs.product.spec_value() - scaled_product(old(self).regs.status.bits, halves_product(old(self).regs.acc32[bit_index(ins.base, 8)]))) as i64,
            ),
            keeps(old(self).regs, final(self).regs, 8, 8),
            only_regs(*old(self), *final(self)),
    {
        let s = acc_bit(ins.base, 8);
        let m = self.halves(s);
        let result = self.scale(m);
        let (_, _, prod) = self.regs.product.get();
        self.regs.product.set(prod - result as i64);
    }

    /// Adds the middle part of accumulator `s` (bit 9) times the high half of 32 bit accumulator
    /// `t` (bit 8) to the product.
    pub fn maddc(&mut self, ins: Ins)
        requires
            scaled_fits(old(self).regs.status.bits, mid_high_product(old(self).regs.acc40[bit_index(ins.base, 9)].mid, old(self).regs.acc32[bit_index(ins.base, 8)])),
        ensures
            final(self).regs.product == Product::spec_set(
                (old(self).regs.product.spec_value() + scaled_product(old(self).regs.status.bits, mid_high_product(old(self).regs.acc40[bit_index(ins.base, 9)].mid, old(self).regs.acc32[bit_index(ins.base, 8)]))) as i64,
            ),
            keeps(old(self).regs, final(self).regs, 8, 8),
            only_regs(*old(self), *final(self)),
    {
        let t = acc_bit(ins.base, 8);
        let s = acc_bit(ins.base, 9);
        let m = self.mid_high(s, t);
        let result = self.scale(m);
        let (_, _, prod) = self.regs.product.get();
        self.regs.product.set(prod + result as i64);
    }

    /// Subtracts the middle part of accumulator `s` (bit 9) times the high half of 32 bit
    /// accumulator `t` (bit 8) from the product.
    pub fn msubc(&mut self, ins: Ins)
        requires
            scaled_fits(old(self).regs.status.bits, mid_high_product(old(self).regs.acc40[bit_index(ins.base, 9)].mid, old(self).regs.acc32[bit_index(ins.base, 8)])),
        ensures
            final(self).regs.product == Product::spec_set(
                (old(self).regs.product.spec_value() - scaled_product(old(self).regs.status.bits, mid_high_product(old(self).regs.acc40[bit_index(ins.base, 9)].mid, old(self).regs.acc32[bit_index(ins.base, 8)]))) as i64,
            ),
            keeps(old(self).regs, final(self).regs, 8, 8),
            only_regs(*old(self), *final(self)),
    {
        let t = acc_bit(ins.base, 8);
        let s = acc_bit(ins.base, 9);
        let m = self.mid_high(s, t);
        let result = self.scale(m);
        let (_, _, prod) = self.regs.product.get();
        self.regs.product.set(prod - result as i64);
    }

    /// Adds a half of 32 bit accumulator 0 (bit 9: high) times a half of 32 bit accumulator 1
    /// (bit 8: high), both signed, to the product.
    pub fn maddx(&mut self, ins: Ins)
        requires
            scaled_fits(old(self).regs.status.bits, words_product(acc32_half(old(self).regs, 2 * bit_index(ins.base, 9)), acc32_half(old(self).regs, 1 + 2 * bit_index(ins.base, 8)))),
        ensures
            final(self).regs.product == Product::spec_set(
                (old(self).regs.product.spec_value() + scaled_product(old(self).regs.status.bits, words_product(acc32_half(old(self).regs, 2 * bit_index(ins.base, 9)), acc32_half(old(self).regs, 1 + 2 * bit_index(ins.base, 8))))) as i64,
            ),
            keeps(old(self).regs, final(self).regs, 8, 8),
            only_regs(*old(self), *final(self)),
    {
        let m = self.cross_halves(ins.base);
        let result = self.scale(m);
        let (_, _, prod) = self.regs.product.get();
        self.regs.product.set(prod + result as i64);
    }

    /// Subtracts a half of 32 bit accumulator 0 (bit 9: high) times a half of 32 bit
    /// accumulator 1 (bit 8: high), both signed, from the product.
    pub fn msubx(&mut self, ins: Ins)
        requires
            scaled_fits(old(self).regs.status.bits, words_product(acc32_half(old(self).regs, 2 * bit_index(ins.base, 9)), acc32_half(old(self).regs, 1 + 2 * bit_index(ins.base, 8)))),
        ensures
            final(self).regs.product == Product::spec_set(
                (old(self).regs.product.spec_value() - scaled_product(old(self).regs.status.bits, words_product(acc32_half(old(self).regs, 2 * bit_index(ins.base, 9)), acc32_half(old(self).regs, 1 + 2 * bit_index(ins.base, 8))))) as i64,
            ),
            keeps(old(self).regs, final(self).regs, 8, 8),
            only_regs(*old(self), *final(self)),
    {
        let m = self.cross_halves(ins.base);
        let result = self.scale(m);
        let (_, _, prod) = self.regs.product.get();
        self.regs.product.set(prod - result as i64);
    }

    /// A half of 32 bit accumulator 0 (bit 9: high) times a half of 32 bit accumulator 1
    /// (bit 8: high), both signed.
    pub(crate) fn cross_halves(&self, base: u16) -> (r: i32)
        ensures
            r == words_product(acc32_half(self.regs, 2 * bit_index(base, 9)), acc32_half(self.regs, 1 + 2 * bit_index(base, 8))),
            -0x4000_0000 < r <= 0x4000_0000,
    {
        let t = acc_bit(base, 8) as u8;
        let s = acc_bit(base, 9) as u8;
        let a = self.regs.get(Reg::new(0x18 + 2 * s));
        let b = self.regs.get(Reg::new(0x19 + 2 * t));
        proof {
            lemma_mul16((a as i16) as int, (b as i16) as int);
        }
        let lhs = a as i16 as i32;
        let rhs = b as i16 as i32;
        lhs * rhs
    }

    /// Shifts `value` by the signed shift in `ss`.
    fn shift_value(value: i64, ss: u16, left_first: bool) -> (r: i64)
        ensures
            r == shift_by(value, ss, left_first),
    {
        assert(ss & 0x3F <= 0x3F) by (bit_vector);
        let n = (ss & 0x3F) as u64;
        let m = ((64 - (ss & 0x3F)) % 64) as u64;
        if (ss >> 6u16) & 1 == 1 {
            if left_first { value << m } else { value >> m }
        } else {
            if left_first { value >> n } else { value << n }
        }
    }

    /// Shifts accumulator 0 arithmetically by the signed shift in the middle part of
    /// accumulator 1: left when its bit 6 is set, else right.
    pub fn asrn(&mut self, ins: Ins)
        ensures
            ({
                let result = shift_by(old(self).regs.acc40[0].value(), old(self).regs.acc40[1].mid, true);
                &&& final(self).regs.acc40@ == old(self).regs.acc40@.update(0, Acc40::spec_from(result))
                &&& final(self).regs.status.bits == arith_status(old(self).regs.status.bits, false, false, sext40(result))
                &&& keeps(old(self).regs, final(self).regs, 9, 12)
            }),
            only_regs(*old(self), *final(self)),
    {
        let lhs = self.regs.acc40[0].get();
        let ss = self.regs.acc40[1].mid;
        let new = self.set_acc(0, Self::shift_value(lhs, ss, true));
        self.set_flags(false, false, new);
    }

    /// Shifts the low 40 bits of accumulator 0 logically by the signed shift in the middle part
    /// of accumulator 1: left when its bit 6 is set, else right.
    pub fn lsrn(&mut self, ins: Ins)
        ensures
            ({
                let result = shift_by(low40(old(self).regs.acc40[0].value()), old(self).regs.acc40[1].mid, true);
                &&& final(self).regs.acc40@ == old(self).regs.acc40@.update(0, Acc40::spec_from(result))
                &&& final(self).regs.status.bits == arith_status(old(self).regs.status.bits, false, false, sext40(result))
                &&& keeps(old(self).regs, final(self).regs, 9, 12)
            }),
            only_regs(*old(self), *final(self)),
    {
        let lhs = self.regs.acc40[0].get() & 0xFF_FFFF_FFFFi64;
        let ss = self.regs.acc40[1].mid;
        let new = self.set_acc(0, Self::shift_value(lhs, ss, true));
        self.set_flags(false, false, new);
    }

    /// Shifts accumulator `d` (bit 8) arithmetically by the signed shift in the middle part of
    /// the other accumulator: right when its bit 6 is set, else left.
    pub fn asrnr(&mut self, ins: Ins)
        ensures
            ({
                let d = bit_index(ins.base, 8);
                let result = shift_by(old(self).regs.acc40[d].value(), old(self).regs.acc40[1 - d].mid, false);
                &&& final(self).regs.acc40@ == old(self).regs.acc40@.update(d, Acc40::spec_from(result))
                &&& final(self).regs.status.bits == arith_status(old(self).regs.status.bits, false, false, sext40(result))
                &&& keeps(old(self).regs, final(self).regs, 9, 12)
            }),
            only_regs(*old(self), *final(self)),
    {
        let d = acc_bit(ins.base, 8);
        let lhs = self.regs.acc40[d].get();
        let ss = self.regs.acc40[1 - d].mid;
        let new = self.set_acc(d, Self::shift_value(lhs, ss, false));
        self.set_flags(false, false, new);
    }

    /// Shifts the low 40 bits of accumulator `d` (bit 8) logically by the signed shift in the
    /// middle part of the other accumulator: right when its bit 6 is set, else left.
    pub fn lsrnr(&mut self, ins: Ins)
        ensures
            ({
                let d = bit_index(ins.base, 8);
                let result = shift_by(low40(old(self).regs.acc40[d].value()), old(self).regs.acc40[1 - d].mid, false);
                &&& final(self).regs.acc40@ == old(self).regs.acc40@.update(d, Acc40::spec_from(result))
                &&& final(self).regs.status.bits == arith_status(old(self).regs.status.bits, false, false, sext40(result))
                &&& keeps(old(self).regs, final(self).regs, 9, 12)
            }),
            only_regs(*old(self), *final(self)),
    {
        let d = acc_bit(ins.base, 8);
        let lhs = self.regs.acc40[d].get() & 0xFF_FFFF_FFFFi64;
        let ss = self.regs.acc40[1 - d].mid;
        let new = self.set_acc(d, Self::shift_value(lhs, ss, false));
        self.set_flags(false, false, new);
    }

    /// Shifts accumulator `d` (bit 8) arithmetically by the signed shift in the high half of
    /// 32 bit accumulator `s` (bit 9): right when its bit 6 is set, else left.
    pub fn asrnrx(&mut self, ins: Ins)
        ensures
            ({
                let d = bit_index(ins.base, 8);
                let s = bit_index(ins.base, 9);
                let result = shift_by(old(self).regs.acc40[d].value(), acc32_half(old(self).regs, 2 + s), false);
                &&& final(self).regs.acc40@ == old(self).regs.acc40@.update(d, Acc40::spec_from(result))
                &&& final(self).regs.status.bits == arith_status(old(self).regs.status.bits, false, false, sext40(result))
                &&& keeps(old(self).regs, final(self).regs, 9, 12)
            }),
            only_regs(*old(self), *final(self)),
    {
        let d = acc_bit(ins.base, 8);
        let s = acc_bit(ins.base, 9) as u8;
        let lhs = self.regs.acc40[d].get();
        let ss = self.regs.get(Reg::new(0x1A + s));
        let new = self.set_acc(d, Self::shift_value(lhs, ss, false));
        self.set_flags(false, false, new);
    }

    /// Shifts the low 40 bits of accumulator `d` (bit 8) logically by the signed shift in the
    /// high half of 32 bit accumulator `s` (bit 9): right when its bit 6 is set, else left.
    pub fn lsrnrx(&mut self, ins: Ins)
        ensures
            ({
                let d = bit_index(ins.base, 8);
                let s = bit_index(ins.base, 9);
                let result = shift_by(low40(old(self).regs.acc40[d].value()), acc32_half(old(self).regs, 2 + s), false);
                &&& final(self).regs.acc40@ == old(self).regs.acc40@.update(d, Acc40::spec_from(result))
                &&& final(self).regs.status.bits == arith_status(old(self).regs.status.bits, false, false, sext40(result))
                &&& keeps(old(self).regs, final(self).regs, 9, 12)
            }),
            only_regs(*old(self), *final(self)),
    {
        let d = acc_bit(ins.base, 8);
        let s = acc_bit(ins.base, 9) as u8;
        let lhs = self.regs.acc40[d].get() & 0xFF_FFFF_FFFFi64;
        let ss = self.regs.get(Reg::new(0x1A + s));
        let new = self.set_acc(d, Self::shift_value(lhs, ss, false));
        self.set_flags(false, false, new);
    }
}
} // verus!

verus! {

/// The status bits after an arithmetic result `value` that did not overflow: carry `carry`
/// and the rest of `bits` as they were.
pub open spec fn status_after(bits: u16, carry: bool, value: i64) -> u16 {
    arith_status(bits, carry, false, value)
}

/// The conditions read the last arithmetic result. After a result that did not overflow,
/// "greater" holds exactly when it was above zero, "greater or equal" when it was at least
/// zero, "less" when below, "less or equal" when at most zero, and "zero" and "not zero" as
/// their names say.
pub proof fn law_conditions_after_result(bits: u16, carry: bool, value: i64)
    ensures
        spec_condition(status_after(bits, carry, value), CondCode::Greater) <==> value > 0,
        spec_condition(status_after(bits, carry, value), CondCode::GreaterOrEqual) <==> value >= 0,
        spec_condition(status_after(bits, carry, value), CondCode::Less) <==> value < 0,
        spec_condition(status_after(bits, carry, value), CondCode::LessOrEqual) <==> value <= 0,
        spec_condition(status_after(bits, carry, value), CondCode::Zero) <==> value == 0,
        spec_condition(status_after(bits, carry, value), CondCode::NotZero) <==> value != 0,
        spec_condition(status_after(bits, carry, value), CondCode::Carry) <==> carry,
        spec_condition(status_after(bits, carry, value), CondCode::NotCarry) <==> !carry,
{
    let b0 = with_flag(bits, 0, carry);
    let b1 = with_flag(b0, 1, false);
    let s3 = with_flag(b1, 3, value < 0);
    let s2 = with_flag(s3, 2, value == 0);
    let s4 = with_flag(s2, 4, value > 0x7FFF_FFFF || value < -0x8000_0000);
    let s5 = with_flag(s4, 5, (value >> 30u64) & 1 == (value >> 31u64) & 1);
    let s7 = with_flag(s5, 7, flag(s5, 1) || flag(s5, 7));
    crate::dsp::law_with_flag(bits, 0, 0, carry);
    crate::dsp::law_with_flag(b0, 1, 0, false);
    crate::dsp::law_with_flag(b0, 1, 1, false);
    crate::dsp::law_with_flag(b1, 3, 0, value < 0);
    crate::dsp::law_with_flag(b1, 3, 1, value < 0);
    crate::dsp::law_with_flag(s3, 2, 0, value == 0);
    crate::dsp::law_with_flag(s3, 2, 1, value == 0);
    crate::dsp::law_with_flag(s3, 2, 3, value == 0);
    crate::dsp::law_with_flag(s2, 4, 0, value > 0x7FFF_FFFF || value < -0x8000_0000);
    crate::dsp::law_with_flag(s2, 4, 1, value > 0x7FFF_FFFF || value < -0x8000_0000);
    crate::dsp::law_with_flag(s2, 4, 2, value > 0x7FFF_FFFF || value < -0x8000_0000);
    crate::dsp::law_with_flag(s2, 4, 3, value > 0x7FFF_FFFF || value < -0x8000_0000);
    crate::dsp::law_with_flag(s4, 5, 0, (value >> 30u64) & 1 == (value >> 31u64) & 1);
    crate::dsp::law_with_flag(s4, 5, 1, (value >> 30u64) & 1 == (value >> 31u64) & 1);
    crate::dsp::law_with_flag(s4, 5, 2, (value >> 30u64) & 1 == (value >> 31u64) & 1);
    crate::dsp::law_with_flag(s4, 5, 3, (value >> 30u64) & 1 == (value >> 31u64) & 1);
    crate::dsp::law_with_flag(s5, 7, 0, flag(s5, 1) || flag(s5, 7));
    crate::dsp::law_with_flag(s5, 7, 1, flag(s5, 1) || flag(s5, 7));
    crate::dsp::law_with_flag(s5, 7, 2, flag(s5, 1) || flag(s5, 7));
    crate::dsp::law_with_flag(s5, 7, 3, flag(s5, 1) || flag(s5, 7));
    assert(status_after(bits, carry, value) == s7);
}

/// How the conditions relate, whatever the status: each comes with its negation, and
/// "greater" is "greater or equal" without "zero".
pub proof fn law_condition_pairs(bits: u16)
    ensures
        spec_condition(bits, CondCode::Greater) == !spec_condition(bits, CondCode::LessOrEqual),
        spec_condition(bits, CondCode::GreaterOrEqual) == !spec_condition(bits, CondCode::Less),
        spec_condition(bits, CondCode::Zero) == !spec_condition(bits, CondCode::NotZero),
        spec_condition(bits, CondCode::Carry) == !spec_condition(bits, CondCode::NotCarry),
        spec_condition(bits, CondCode::Greater) == (spec_condition(bits, CondCode::GreaterOrEqual)
            && !spec_condition(bits, CondCode::Zero)),
        spec_condition(bits, CondCode::Always),
{
}

} // verus!
