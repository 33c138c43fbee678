//! The DSP's view of the rest of the system: its memory-mapped registers, data memory, the
//! ARAM accelerator, the DMA between main RAM and its memories, reset and interrupts, and the
//! instructions that load and store data memory.
use crate::dsp::{
    can_write, flag, reg_at, reg_value, same_except, stack4_items, stack4_new, stack4_push, stack8_items, stack8_new,
    stack8_push, with_flag, wrote, wrote_saturating, Exception, Reg, Registers,
};
use crate::dsp_exec::{
    add_to_addr_reg, lemma_field, spec_add_to_addr_reg, spec_read_imem, spec_sub_from_addr_reg, sub_from_addr_reg,
    Accelerator, Interpreter, Memory,
};
use crate::dsp_ins::Ins;
use crate::mmio::{Control, DspDma, DspDmaControl, Mailbox, Mmio};
use vstd::prelude::*;

verus! {

/// The parts of the system that the DSP reaches: its registers as the CPU sees them, main RAM
/// and ARAM.
pub struct Bus {
    pub mmio: Mmio,
    pub ram: Vec<u8>,
    pub aram: Vec<u8>,
}

/// What reads and writes of data memory can change: data RAM, the accelerator, the
/// memory-mapped registers and ARAM.
pub struct DataState {
    pub dram: Seq<u16>,
    pub accel: Accelerator,
    pub mmio: Mmio,
    pub aram: Seq<u8>,
}

/// The data-memory side of an interpreter and its bus.
pub open spec fn data_state(i: Interpreter, bus: Bus) -> DataState {
    DataState { dram: i.mem.dram@, accel: i.accel, mmio: bus.mmio, aram: bus.aram@ }
}

/// What the external interrupt check does to the registers and memory-mapped registers: with
/// an interrupt pending and external interrupts enabled, clears the pending bit and raises
/// the interrupt exception; otherwise nothing.
pub open spec fn interrupt_checked(old: Registers, old_mmio: Mmio, new: Registers, new_mmio: Mmio) -> bool {
    if flag(old_mmio.control.0, 1) && flag(old.status.bits, 11) {
        &&& raised(old, new, Exception::Interrupt)
        &&& new_mmio == (Mmio { control: Control(with_flag(old_mmio.control.0, 1, false)), ..old_mmio })
    } else {
        &&& new == old
        &&& new_mmio == old_mmio
    }
}

/// Whether the external interrupt check can run: where it raises the interrupt, the call and
/// data stacks have room.
pub open spec fn interrupt_ok(r: Registers, mmio: Mmio) -> bool {
    flag(mmio.control.0, 1) && flag(r.status.bits, 11) ==> {
        &&& stack8_items(r.call_stack).len() < 8
        &&& stack4_items(r.data_stack).len() < 4
    }
}

/// Whether `new` and `new_bus` differ from `old` and `old_bus` only in what data memory
/// reaches.
pub open spec fn only_data(old: Interpreter, new: Interpreter, old_bus: Bus, new_bus: Bus) -> bool {
    &&& new.regs == old.regs
    &&& new.mem.iram == old.mem.iram
    &&& new.mem.irom == old.mem.irom
    &&& new.mem.coef == old.mem.coef
    &&& new.mem.dram@.len() == old.mem.dram@.len()
    &&& new.loop_counter == old.loop_counter
    &&& new.old_reset_high == old.old_reset_high
    &&& new_bus.ram == old_bus.ram
}

/// `x` with its high 16 bits replaced by `v`.
pub open spec fn with_high_half(x: u32, v: u16) -> u32 {
    (x & 0xFFFFu32) | ((v as u32) << 16u32)
}

/// `x` with its low 16 bits replaced by `v`.
pub open spec fn with_low_half(x: u32, v: u16) -> u32 {
    (x & 0xFFFF_0000u32) | (v as u32)
}

/// Where in ARAM the accelerator's address points: bit 31 is ignored.
pub open spec fn aram_index(curr: u32) -> int {
    (curr & 0x7FFF_FFFFu32) as int
}

/// The big-endian word at byte `i` of `b`.
pub open spec fn be_word(b: Seq<u8>, i: int) -> u16 {
    (b[i] * 256 + b[i + 1]) as u16
}

/// `b` with the big-endian bytes of `v` at `i` and `i + 1`.
pub open spec fn with_be_word(b: Seq<u8>, i: int, v: u16) -> Seq<u8> {
    b.update(i, (v >> 8u16) as u8).update(i + 1, v as u8)
}

/// Whether a register of the DSP's own is at `offset` and can be read.
pub open spec fn mmio_readable(offset: u8) -> bool {
    ||| offset == 0xC9 || offset == 0xCB || offset == 0xCD || offset == 0xCE || offset == 0xCF
    ||| 0xD3 <= offset <= 0xDE
    ||| 0xFC <= offset
}

/// Whether the accelerator can step through ARAM at its current address: the word there lies
/// in ARAM and the address can grow by one.
pub open spec fn accel_can_step(s: DataState) -> bool {
    &&& aram_index(s.accel.aram_curr) + 2 <= s.aram.len()
    &&& s.accel.aram_curr < u32::MAX
}

/// Whether reading the register at `offset` succeeds.
pub open spec fn mmio_read_ok(s: DataState, offset: u8) -> bool {
    &&& mmio_readable(offset)
    &&& offset == 0xD3 ==> accel_can_step(s)
}

/// The accelerator with its address moved on by one.
pub open spec fn accel_stepped(a: Accelerator) -> Accelerator {
    Accelerator { aram_curr: (a.aram_curr + 1) as u32, ..a }
}

/// What reading the register at `offset` gives, and the state after: reading the ARAM data
/// register moves the accelerator on, and reading the low half of the CPU mailbox marks it
/// read.
pub open spec fn mmio_read(s: DataState, offset: u8) -> (u16, DataState) {
    let m = s.mmio;
    let a = s.accel;
    if offset == 0xC9 {
        (m.dsp_dma.control.0, s)
    } else if offset == 0xCB {
        (m.dsp_dma.length, s)
    } else if offset == 0xCD {
        (m.dsp_dma.dsp_base, s)
    } else if offset == 0xCE {
        ((m.dsp_dma.ram_base >> 16u32) as u16, s)
    } else if offset == 0xCF {
        (m.dsp_dma.ram_base as u16, s)
    } else if offset == 0xD3 {
        (be_word(s.aram, aram_index(a.aram_curr)), DataState { accel: accel_stepped(a), ..s })
    } else if offset == 0xD4 {
        ((a.aram_start >> 16u32) as u16, s)
    } else if offset == 0xD5 {
        (a.aram_start as u16, s)
    } else if offset == 0xD6 {
        ((a.aram_end >> 16u32) as u16, s)
    } else if offset == 0xD7 {
        (a.aram_end as u16, s)
    } else if offset == 0xD8 {
        ((a.aram_curr >> 16u32) as u16, s)
    } else if offset == 0xD9 {
        (a.aram_curr as u16, s)
    } else if offset == 0xDA {
        (a.pred_scale, s)
    } else if offset == 0xDE {
        (a.gain, s)
    } else if offset == 0xFC {
        ((m.dsp_mailbox.0 / 0x1_0000) as u16, s)
    } else if offset == 0xFD {
        ((m.dsp_mailbox.0 % 0x1_0000) as u16, s)
    } else if offset == 0xFE {
        ((m.cpu_mailbox.0 / 0x1_0000) as u16, s)
    } else if offset == 0xFF {
        (
            (m.cpu_mailbox.0 % 0x1_0000) as u16,
            DataState { mmio: Mmio { cpu_mailbox: Mailbox(m.cpu_mailbox.0 % 0x8000_0000), ..m }, ..s },
        )
    } else {
        (0, s)
    }
}

/// Whether a register of the DSP's own is at `offset` and can be written.
pub open spec fn mmio_writable(offset: u8) -> bool {
    ||| 0xA0 <= offset <= 0xAF
    ||| offset == 0xC9 || offset == 0xCB || offset == 0xCD || offset == 0xCE || offset == 0xCF
    ||| offset == 0xD1 || (0xD3 <= offset <= 0xDC) || offset == 0xDE
    ||| offset == 0xFB || offset == 0xFC || offset == 0xFD
}

/// Whether writing `value` to the register at `offset` succeeds: the high half of the DSP
/// mailbox takes 15 bits.
pub open spec fn mmio_write_ok(s: DataState, offset: u8, value: u16) -> bool {
    &&& mmio_writable(offset)
    &&& offset == 0xD3 ==> accel_can_step(s)
    &&& offset == 0xFC ==> value < 0x8000
}

/// The DMA registers with `f` applied.
pub open spec fn with_dsp_dma(m: Mmio, d: DspDma) -> Mmio {
    Mmio { dsp_dma: d, ..m }
}

/// The state after writing `value` to the register at `offset`.
pub open spec fn mmio_write(s: DataState, offset: u8, value: u16) -> DataState {
    let m = s.mmio;
    let a = s.accel;
    let d = m.dsp_dma;
    if offset == 0xC9 {
        DataState { mmio: with_dsp_dma(m, DspDma { control: DspDmaControl(value), ..d }), ..s }
    } else if offset == 0xCB {
        DataState {
            mmio: Mmio {
                dsp_dma: DspDma { length: value, control: DspDmaControl(with_flag(d.control.0, 2, true)), ..d },
                control: Control(with_flag(m.control.0, 9, true)),
                ..m
            },
            ..s
        }
    } else if offset == 0xCD {
        DataState { mmio: with_dsp_dma(m, DspDma { dsp_base: value, ..d }), ..s }
    } else if offset == 0xCE {
        DataState { mmio: with_dsp_dma(m, DspDma { ram_base: with_high_half(d.ram_base, value), ..d }), ..s }
    } else if offset == 0xCF {
        DataState { mmio: with_dsp_dma(m, DspDma { ram_base: with_low_half(d.ram_base, value), ..d }), ..s }
    } else if offset == 0xFB {
        if value > 0 {
            DataState { mmio: Mmio { control: Control(with_flag(m.control.0, 7, true)), ..m }, ..s }
        } else {
            s
        }
    } else if offset == 0xD1 {
        DataState { accel: Accelerator { format: value, ..a }, ..s }
    } else if offset == 0xD3 {
        DataState { accel: accel_stepped(a), aram: with_be_word(s.aram, aram_index(a.aram_curr), value), ..s }
    } else if offset == 0xD4 {
        DataState { accel: Accelerator { aram_start: with_high_half(a.aram_start, value), ..a }, ..s }
    } else if offset == 0xD5 {
        DataState { accel: Accelerator { aram_start: with_low_half(a.aram_start, value), ..a }, ..s }
    } else if offset == 0xD6 {
        DataState { accel: Accelerator { aram_end: with_high_half(a.aram_end, value), ..a }, ..s }
    } else if offset == 0xD7 {
        DataState { accel: Accelerator { aram_end: with_low_half(a.aram_end, value), ..a }, ..s }
    } else if offset == 0xD8 {
        DataState { accel: Accelerator { aram_curr: with_high_half(a.aram_curr, value), ..a }, ..s }
    } else if offset == 0xD9 {
        DataState { accel: Accelerator { aram_curr: with_low_half(a.aram_curr, value), ..a }, ..s }
    } else if offset == 0xDA {
        DataState { accel: Accelerator { pred_scale: value, ..a }, ..s }
    } else if offset == 0xDE {
        DataState { accel: Accelerator { gain: value, ..a }, ..s }
    } else if offset == 0xFC {
        DataState {
            mmio: Mmio { dsp_mailbox: Mailbox((m.dsp_mailbox.0 & 0x8000_FFFFu32) | ((value as u32) << 16u32)), ..m },
            ..s
        }
    } else if offset == 0xFD {
        let low_set = (m.dsp_mailbox.0 - m.dsp_mailbox.0 % 0x1_0000 + value) as u32;
        DataState { mmio: Mmio { dsp_mailbox: Mailbox((low_set % 0x8000_0000 + 0x8000_0000) as u32), ..m }, ..s }
    } else {
        s
    }
}

/// Whether reading data memory at `addr` succeeds.
pub open spec fn read_dmem_ok(s: DataState, addr: u16) -> bool {
    addr >= 0xFF00 ==> mmio_read_ok(s, (addr - 0xFF00) as u8)
}

/// What reading data memory at `addr` gives, and the state after: data RAM below 0x1000,
/// coefficients (`coef`) up to 0x1800, the registers from 0xFF00, zero elsewhere.
pub open spec fn read_dmem_spec(s: DataState, coef: Seq<u16>, addr: u16) -> (u16, DataState) {
    if addr < 0x1000 {
        (s.dram[addr as int], s)
    } else if addr < 0x1800 {
        (coef[addr - 0x1000], s)
    } else if addr >= 0xFF00 {
        mmio_read(s, (addr - 0xFF00) as u8)
    } else {
        (0, s)
    }
}

/// Whether writing `value` to data memory at `addr` succeeds.
pub open spec fn write_dmem_ok(s: DataState, addr: u16, value: u16) -> bool {
    addr >= 0xFF00 ==> mmio_write_ok(s, (addr - 0xFF00) as u8, value)
}

/// The state after writing `value` to data memory at `addr`: data RAM below 0x1000, the
/// registers from 0xFF00; coefficients and the rest take no writes.
pub open spec fn write_dmem_spec(s: DataState, addr: u16, value: u16) -> DataState {
    if addr < 0x1000 {
        DataState { dram: s.dram.update(addr as int, value), ..s }
    } else if addr >= 0xFF00 {
        mmio_write(s, (addr - 0xFF00) as u8, value)
    } else {
        s
    }
}

/// Where in ARAM the accelerator's address points.
fn aram_offset(curr: u32) -> (r: usize)
    ensures
        r == aram_index(curr),
{
    let masked = curr & 0x7FFF_FFFF;
    assert(masked <= 0x7FFF_FFFF) by (bit_vector)
        requires
            masked == curr & 0x7FFF_FFFFu32,
    ;
    masked as usize
}

impl Interpreter {
    /// Reads the DSP register at `offset`.
    pub fn read_mmio(&mut self, bus: &mut Bus, offset: u8) -> (v: u16)
        requires
            old(self).wf(),
            mmio_read_ok(data_state(*old(self), *old(bus)), offset),
        ensures
            final(self).wf(),
            (v, data_state(*final(self), *final(bus))) == mmio_read(data_state(*old(self), *old(bus)), offset),
            only_data(*old(self), *final(self), *old(bus), *final(bus)),
    {
        let ghost s0 = data_state(*self, *bus);
        if offset == 0xC9 {
            bus.mmio.dsp_dma.control.0
        } else if offset == 0xCB {
            bus.mmio.dsp_dma.length
        } else if offset == 0xCD {
            bus.mmio.dsp_dma.dsp_base
        } else if offset == 0xCE {
            (bus.mmio.dsp_dma.ram_base >> 16u32) as u16
        } else if offset == 0xCF {
            bus.mmio.dsp_dma.ram_base as u16
        } else if offset == 0xD3 {
            let idx = aram_offset(self.accel.aram_curr);
            let n = bus.aram.len();
            assert(idx + 2 <= n);
            let hi = bus.aram[idx] as u16;
            let lo = bus.aram[idx + 1] as u16;
            self.accel.aram_curr = self.accel.aram_curr + 1;
            hi * 256 + lo
        } else if offset == 0xD4 {
            (self.accel.aram_start >> 16u32) as u16
        } else if offset == 0xD5 {
            self.accel.aram_start as u16
        } else if offset == 0xD6 {
            (self.accel.aram_end >> 16u32) as u16
        } else if offset == 0xD7 {
            self.accel.aram_end as u16
        } else if offset == 0xD8 {
            (self.accel.aram_curr >> 16u32) as u16
        } else if offset == 0xD9 {
            self.accel.aram_curr as u16
        } else if offset == 0xDA {
            self.accel.pred_scale
        } else if offset == 0xDE {
            self.accel.gain
        } else if offset == 0xFC {
            bus.mmio.dsp_mailbox.high_and_status()
        } else if offset == 0xFD {
            bus.mmio.dsp_mailbox.low()
        } else if offset == 0xFE {
            bus.mmio.cpu_mailbox.high_and_status()
        } else if offset == 0xFF {
            if bus.mmio.cpu_mailbox.status() {
                bus.mmio.cpu_mailbox.set_status(false);
            }
            bus.mmio.cpu_mailbox.low()
        } else {
            0
        }
    }

    /// Writes `value` to the DSP register at `offset`.
    pub fn write_mmio(&mut self, bus: &mut Bus, offset: u8, value: u16)
        requires
            old(self).wf(),
            mmio_write_ok(data_state(*old(self), *old(bus)), offset, value),
        ensures
            final(self).wf(),
            data_state(*final(self), *final(bus)) == mmio_write(data_state(*old(self), *old(bus)), offset, value),
            only_data(*old(self), *final(self), *old(bus), *final(bus)),
    {
        if 0xA0 <= offset && offset <= 0xAF {
        } else if offset == 0xC9 {
            bus.mmio.dsp_dma.control = DspDmaControl(value);
        } else if offset == 0xCB {
            bus.mmio.dsp_dma.length = value;
            bus.mmio.dsp_dma.control.set_transfer_ongoing(true);
            bus.mmio.control.set_bit(9, true);
        } else if offset == 0xCD {
            bus.mmio.dsp_dma.dsp_base = value;
        } else if offset == 0xCE {
            bus.mmio.dsp_dma.ram_base = (bus.mmio.dsp_dma.ram_base & 0xFFFF) | ((value as u32) << 16u32);
        } else if offset == 0xCF {
            bus.mmio.dsp_dma.ram_base = (bus.mmio.dsp_dma.ram_base & 0xFFFF_0000) | (value as u32);
        } else if offset == 0xFB {
            if value > 0 {
                bus.mmio.control.set_bit(7, true);
            }
        } else if offset == 0xD1 {
            self.accel.format = value;
        } else if offset == 0xD3 {
            let idx = aram_offset(self.accel.aram_curr);
            let n = bus.aram.len();
            assert(idx + 2 <= n);
            bus.aram.set(idx, (value >> 8u16) as u8);
            bus.aram.set(idx + 1, value as u8);
            self.accel.aram_curr = self.accel.aram_curr + 1;
        } else if offset == 0xD4 {
            self.accel.aram_start = (self.accel.aram_start & 0xFFFF) | ((value as u32) << 16u32);
        } else if offset == 0xD5 {
            self.accel.aram_start = (self.accel.aram_start & 0xFFFF_0000) | (value as u32);
        } else if offset == 0xD6 {
            self.accel.aram_end = (self.accel.aram_end & 0xFFFF) | ((value as u32) << 16u32);
        } else if offset == 0xD7 {
            self.accel.aram_end = (self.accel.aram_end & 0xFFFF_0000) | (value as u32);
        } else if offset == 0xD8 {
            self.accel.aram_curr = (self.accel.aram_curr & 0xFFFF) | ((value as u32) << 16u32);
        } else if offset == 0xD9 {
            self.accel.aram_curr = (self.accel.aram_curr & 0xFFFF_0000) | (value as u32);
        } else if offset == 0xDA {
            self.accel.pred_scale = value;
        } else if offset == 0xDB || offset == 0xDC {
        } else if offset == 0xDE {
            self.accel.gain = value;
        } else if offset == 0xFC {
            bus.mmio.dsp_mailbox.set_high(value);
        } else {
            bus.mmio.dsp_mailbox.set_low(value);
            bus.mmio.dsp_mailbox.set_status(true);
        }
        assert(data_state(*self, *bus) =~= mmio_write(data_state(*old(self), *old(bus)), offset, value));
    }
    /// Reads data memory at `addr`.
    pub fn read_dmem(&mut self, bus: &mut Bus, addr: u16) -> (v: u16)
        requires
            old(self).wf(),
            read_dmem_ok(data_state(*old(self), *old(bus)), addr),
        ensures
            final(self).wf(),
            (v, data_state(*final(self), *final(bus))) == read_dmem_spec(data_state(*old(self), *old(bus)), old(self).mem.coef@, addr),
            only_data(*old(self), *final(self), *old(bus), *final(bus)),
    {
        if addr < 0x1000 {
            self.mem.dram[addr as usize]
        } else if addr < 0x1800 {
            self.mem.coef[(addr - 0x1000) as usize]
        } else if addr >= 0xFF00 {
            self.read_mmio(bus, (addr - 0xFF00) as u8)
        } else {
            0
        }
    }

    /// Writes `value` to data memory at `addr`.
    pub fn write_dmem(&mut self, bus: &mut Bus, addr: u16, value: u16)
        requires
            old(self).wf(),
            write_dmem_ok(data_state(*old(self), *old(bus)), addr, value),
        ensures
            final(self).wf(),
            data_state(*final(self), *final(bus)) == write_dmem_spec(data_state(*old(self), *old(bus)), addr, value),
            only_data(*old(self), *final(self), *old(bus), *final(bus)),
    {
        if addr < 0x1000 {
            self.mem.dram.set(addr as usize, value);
            assert(data_state(*self, *bus) =~= write_dmem_spec(data_state(*old(self), *old(bus)), addr, value));
        } else if addr < 0x1800 {
        } else if addr >= 0xFF00 {
            self.write_mmio(bus, (addr - 0xFF00) as u8, value);
        }
    }
}

/// The number of an exception: its place in priority order.
pub open spec fn exception_number(e: Exception) -> u16 {
    match e {
        Exception::Reset => 0,
        Exception::StackOverflow => 1,
        Exception::Unknown0 => 2,
        Exception::AccelRawReadOverflow => 3,
        Exception::AccelRawWriteOverflow => 4,
        Exception::AccelSampleReadOverflow => 5,
        Exception::Unknown1 => 6,
        Exception::Interrupt => 7,
    }
}

/// Whether `new` holds the same registers as `old` but the program counter and the call and
/// data stacks.
pub open spec fn keeps_but_pc_and_stacks(old: Registers, new: Registers) -> bool {
    &&& new.addressing == old.addressing
    &&& new.indexing == old.indexing
    &&& new.wrapping == old.wrapping
    &&& new.loop_stack == old.loop_stack
    &&& new.loop_count == old.loop_count
    &&& new.product == old.product
    &&& new.acc40 == old.acc40
    &&& new.acc32 == old.acc32
    &&& new.config == old.config
    &&& new.status == old.status
}

/// What entering the handler of `e` does to the registers: the program counter and the
/// status are pushed, and the program counter jumps to twice the exception's number.
pub open spec fn raised(old: Registers, new: Registers, e: Exception) -> bool {
    &&& stack8_items(new.call_stack) == stack8_items(old.call_stack).push(old.pc)
    &&& stack4_items(new.data_stack) == stack4_items(old.data_stack).push(old.status.bits)
    &&& new.pc == exception_number(e) * 2
    &&& keeps_but_pc_and_stacks(old, new)
}

/// Whether the registers after a soft reset are `new`: empty stacks, all-ones wrapping
/// registers, and the program counter at the IROM (0x8000) when `reset_high`, else at zero.
pub open spec fn reset_regs(old: Registers, new: Registers, reset_high: bool) -> bool {
    &&& new.pc == (if reset_high { 0x8000u16 } else { 0u16 })
    &&& new.wrapping@ == seq![0xFFFFu16, 0xFFFF, 0xFFFF, 0xFFFF]
    &&& stack8_items(new.call_stack) == Seq::<u16>::empty()
    &&& stack4_items(new.data_stack) == Seq::<u16>::empty()
    &&& stack4_items(new.loop_stack) == Seq::<u16>::empty()
    &&& stack4_items(new.loop_count) == Seq::<u16>::empty()
    &&& new.addressing == old.addressing
    &&& new.indexing == old.indexing
    &&& new.product == old.product
    &&& new.acc40 == old.acc40
    &&& new.acc32 == old.acc32
    &&& new.config == old.config
    &&& new.status == old.status
}

/// Instruction RAM with its first 512 words loaded from the big-endian words at 0x0100_0000
/// of main RAM.
pub open spec fn iram_boot_stub(iram: Seq<u16>, ram: Seq<u8>) -> Seq<u16> {
    Seq::new(iram.len(), |k: int| if k < 512 { be_word(ram, 0x0100_0000 + 2 * k) } else { iram[k] })
}

/// Where in main RAM a DSP DMA starts: the register with its bits from 26 up cleared.
pub open spec fn dma_ram_base(d: DspDma) -> int {
    (d.ram_base & 0x03FF_FFFFu32) as int
}

/// The state after the first `k` words of a DMA from main RAM at `rb` to data memory at `db`.
pub open spec fn dma_in_dmem(s: DataState, ram: Seq<u8>, rb: int, db: int, k: nat) -> DataState
    decreases k,
{
    if k == 0 {
        s
    } else {
        let j = k - 1;
        write_dmem_spec(dma_in_dmem(s, ram, rb, db, j as nat), (db + j) as u16, be_word(ram, rb + 2 * j))
    }
}

/// Whether each of the first `k` writes of a DMA into data memory succeeds.
pub open spec fn dma_in_dmem_ok(s: DataState, ram: Seq<u8>, rb: int, db: int, k: nat) -> bool
    decreases k,
{
    k == 0 || {
        let j = k - 1;
        &&& dma_in_dmem_ok(s, ram, rb, db, j as nat)
        &&& write_dmem_ok(dma_in_dmem(s, ram, rb, db, j as nat), (db + j) as u16, be_word(ram, rb + 2 * j))
    }
}

/// The state and main RAM after the first `k` words of a DMA from data memory at `db` to main
/// RAM at `rb`.
pub open spec fn dma_out_dmem(s: DataState, coef: Seq<u16>, ram: Seq<u8>, rb: int, db: int, k: nat) -> (DataState, Seq<u8>)
    decreases k,
{
    if k == 0 {
        (s, ram)
    } else {
        let j = k - 1;
        let (s1, r1) = dma_out_dmem(s, coef, ram, rb, db, j as nat);
        let (v, s2) = read_dmem_spec(s1, coef, (db + j) as u16);
        (s2, with_be_word(r1, rb + 2 * j, v))
    }
}

/// Whether each of the first `k` reads of a DMA out of data memory succeeds.
pub open spec fn dma_out_dmem_ok(s: DataState, coef: Seq<u16>, ram: Seq<u8>, rb: int, db: int, k: nat) -> bool
    decreases k,
{
    k == 0 || {
        let j = k - 1;
        &&& dma_out_dmem_ok(s, coef, ram, rb, db, j as nat)
        &&& read_dmem_ok(dma_out_dmem(s, coef, ram, rb, db, j as nat).0, (db + j) as u16)
    }
}

/// Instruction RAM after the first `k` words of a DMA from main RAM at `rb` to instruction
/// memory at `db`; only instruction RAM takes writes.
pub open spec fn dma_in_imem(iram: Seq<u16>, ram: Seq<u8>, rb: int, db: int, k: nat) -> Seq<u16>
    decreases k,
{
    if k == 0 {
        iram
    } else {
        let j = k - 1;
        let before = dma_in_imem(iram, ram, rb, db, j as nat);
        if db + j < 0x1000 {
            before.update(db + j, be_word(ram, rb + 2 * j))
        } else {
            before
        }
    }
}

/// The state once a DMA is done: no length left, no transfer ongoing.
pub open spec fn dma_done(s: DataState) -> DataState {
    let m = s.mmio;
    DataState {
        mmio: Mmio {
            dsp_dma: DspDma { length: 0, control: DspDmaControl(with_flag(m.dsp_dma.control.0, 2, false)), ..m.dsp_dma },
            control: Control(with_flag(m.control.0, 9, false)),
            ..m
        },
        ..s
    }
}

/// Whether the ongoing DMA, if any, can run: its words lie in main RAM, its DSP addresses do
/// not pass 0xFFFF, every access of DSP memory succeeds, and it does not copy instruction
/// memory out.
pub open spec fn dma_ok(i: Interpreter, bus: Bus) -> bool {
    let d = bus.mmio.dsp_dma;
    let n = (d.length / 2) as nat;
    let rb = dma_ram_base(d);
    let db = d.dsp_base as int;
    let s = data_state(i, bus);
    flag(d.control.0, 2) ==> {
        &&& rb + 2 * n <= bus.ram@.len()
        &&& db + n <= 0x1_0000
        &&& !flag(d.control.0, 1) && !flag(d.control.0, 0) ==> dma_in_dmem_ok(s, bus.ram@, rb, db, n)
        &&& !flag(d.control.0, 1) && flag(d.control.0, 0) ==> dma_out_dmem_ok(s, i.mem.coef@, bus.ram@, rb, db, n)
        &&& flag(d.control.0, 1) ==> !flag(d.control.0, 0)
    }
}

/// The first `k` of the writes of a DMA into data memory succeed where all `n` do.
proof fn lemma_dma_in_ok_prefix(s: DataState, ram: Seq<u8>, rb: int, db: int, k: nat, n: nat)
    requires
        k <= n,
        dma_in_dmem_ok(s, ram, rb, db, n),
    ensures
        dma_in_dmem_ok(s, ram, rb, db, k),
    decreases n,
{
    if k < n {
        lemma_dma_in_ok_prefix(s, ram, rb, db, k, (n - 1) as nat);
    }
}

/// The first `k` of the reads of a DMA out of data memory succeed where all `n` do.
proof fn lemma_dma_out_ok_prefix(s: DataState, coef: Seq<u16>, ram: Seq<u8>, rb: int, db: int, k: nat, n: nat)
    requires
        k <= n,
        dma_out_dmem_ok(s, coef, ram, rb, db, n),
    ensures
        dma_out_dmem_ok(s, coef, ram, rb, db, k),
    decreases n,
{
    if k < n {
        lemma_dma_out_ok_prefix(s, coef, ram, rb, db, k, (n - 1) as nat);
    }
}

/// A DMA out of data memory leaves main RAM as long as it was.
proof fn lemma_dma_out_len(s: DataState, coef: Seq<u16>, ram: Seq<u8>, rb: int, db: int, k: nat)
    requires
        0 <= rb,
        rb + 2 * k <= ram.len(),
    ensures
        dma_out_dmem(s, coef, ram, rb, db, k).1.len() == ram.len(),
    decreases k,
{
    if k > 0 {
        lemma_dma_out_len(s, coef, ram, rb, db, (k - 1) as nat);
    }
}

/// The words at which the DSP waits for mail: read the CPU mailbox's high half into an
/// accumulator, test its status bit, and jump back while it is clear.
pub open spec fn mail_wait_at(mem: Memory, start: u16) -> bool {
    let w = |k: u16| spec_read_imem(mem, start.wrapping_add(k));
    &&& w(2) == 0x8000
    &&& w(3) == 0x029C
    &&& w(4) == start
    &&& (w(0) == 0x26FE && w(1) == 0x02C0) || (w(0) == 0x27FE && w(1) == 0x03C0)
}

impl Interpreter {
    /// Enters the handler of `exception`.
    pub fn raise_exception(&mut self, exception: Exception)
        requires
            stack8_items(old(self).regs.call_stack).len() < 8,
            stack4_items(old(self).regs.data_stack).len() < 4,
        ensures
            raised(old(self).regs, final(self).regs, exception),
            final(self).mem == old(self).mem,
            final(self).accel == old(self).accel,
            final(self).loop_counter == old(self).loop_counter,
            final(self).old_reset_high == old(self).old_reset_high,
    {
        stack8_push(&mut self.regs.call_stack, self.regs.pc);
        stack4_push(&mut self.regs.data_stack, self.regs.status.to_bits());
        let number: u16 = match exception {
            Exception::Reset => 0,
            Exception::StackOverflow => 1,
            Exception::Unknown0 => 2,
            Exception::AccelRawReadOverflow => 3,
            Exception::AccelRawWriteOverflow => 4,
            Exception::AccelSampleReadOverflow => 5,
            Exception::Unknown1 => 6,
            Exception::Interrupt => 7,
        };
        self.regs.pc = number * 2;
    }

    /// Takes an external interrupt where the CPU raised one and the DSP has them enabled: the
    /// request is cleared and the interrupt's handler entered.
    pub fn check_external_interrupt(&mut self, bus: &mut Bus)
        requires
            flag(old(bus).mmio.control.0, 1) && flag(old(self).regs.status.bits, 11) ==> {
                &&& stack8_items(old(self).regs.call_stack).len() < 8
                &&& stack4_items(old(self).regs.data_stack).len() < 4
            },
        ensures
            interrupt_checked(old(self).regs, old(bus).mmio, final(self).regs, final(bus).mmio),
            final(self).mem == old(self).mem,
            final(self).accel == old(self).accel,
            final(self).loop_counter == old(self).loop_counter,
            final(self).old_reset_high == old(self).old_reset_high,
            final(bus).ram == old(bus).ram,
            final(bus).aram == old(bus).aram,
    {
        if bus.mmio.control.interrupt() && self.regs.status.external_interrupt_enable() {
            bus.mmio.control.set_bit(1, false);
            self.raise_exception(Exception::Interrupt);
        }
    }

    /// Soft resets the DSP: no loop counting, empty stacks, all-ones wrapping registers, both
    /// mailboxes cleared, and the program counter at the IROM or at zero as the control
    /// register's reset line says.
    pub fn reset(&mut self, bus: &mut Bus)
        ensures
            reset_regs(old(self).regs, final(self).regs, flag(old(bus).mmio.control.0, 11)),
            (final(self).loop_counter is None),
            final(bus).mmio == (Mmio { dsp_mailbox: Mailbox(0), cpu_mailbox: Mailbox(0), ..old(bus).mmio }),
            final(self).mem == old(self).mem,
            final(self).accel == old(self).accel,
            final(self).old_reset_high == old(self).old_reset_high,
            final(bus).ram == old(bus).ram,
            final(bus).aram == old(bus).aram,
    {
        self.loop_counter = None;
        self.regs.wrapping = [0xFFFF; 4];
        self.regs.call_stack = stack8_new();
        self.regs.data_stack = stack4_new();
        self.regs.loop_stack = stack4_new();
        self.regs.loop_count = stack4_new();
        bus.mmio.dsp_mailbox = Mailbox(0);
        bus.mmio.cpu_mailbox = Mailbox(0);
        self.regs.pc = if bus.mmio.control.reset_high() {
            0x8000
        } else {
            0x0000
        };
        assert(self.regs.wrapping@ =~= seq![0xFFFFu16, 0xFFFF, 0xFFFF, 0xFFFF]);
    }

    /// Resets the DSP where the CPU asked for it or moved the reset line; resetting with the
    /// line low first copies the boot stub from main RAM into instruction RAM. The reset
    /// request is then cleared and the line remembered.
    pub fn check_reset(&mut self, bus: &mut Bus)
        requires
            old(self).wf(),
            !flag(old(bus).mmio.control.0, 11) ==> old(bus).ram@.len() >= 0x0100_0400,
        ensures
            final(self).wf(),
            ({
                let c = old(bus).mmio.control.0;
                let high = flag(c, 11);
                if flag(c, 0) || high != old(self).old_reset_high {
                    &&& reset_regs(old(self).regs, final(self).regs, high)
                    &&& (final(self).loop_counter is None)
                    &&& final(bus).mmio == (Mmio { dsp_mailbox: Mailbox(0), cpu_mailbox: Mailbox(0), control: Control(with_flag(c, 0, false)), ..old(bus).mmio })
                    &&& final(self).mem.iram@ == (if high { old(self).mem.iram@ } else { iram_boot_stub(old(self).mem.iram@, old(bus).ram@) })
                } else {
                    &&& final(self).regs == old(self).regs
                    &&& final(self).loop_counter == old(self).loop_counter
                    &&& final(bus).mmio == (Mmio { control: Control(with_flag(c, 0, false)), ..old(bus).mmio })
                    &&& final(self).mem.iram == old(self).mem.iram
                }
            }),
            final(self).old_reset_high == flag(old(bus).mmio.control.0, 11),
            final(self).mem.irom == old(self).mem.irom,
            final(self).mem.dram == old(self).mem.dram,
            final(self).mem.coef == old(self).mem.coef,
            final(self).accel == old(self).accel,
            final(bus).ram == old(bus).ram,
            final(bus).aram == old(bus).aram,
    {
        let high = bus.mmio.control.reset_high();
        if bus.mmio.control.reset() || high != self.old_reset_high {
            if !high {
                let ghost iram0 = self.mem.iram@;
                let mut k: usize = 0;
                while k < 512
                    invariant
                        k <= 512,
                        self.wf(),
                        bus.ram@.len() >= 0x0100_0400,
                        iram0.len() == 0x1000,
                        forall|j: int| 0 <= j < 0x1000 ==> #[trigger] self.mem.iram@[j] == (if j < k {
                            be_word(bus.ram@, 0x0100_0000 + 2 * j)
                        } else {
                            iram0[j]
                        }),
                        self.regs == old(self).regs,
                        self.mem.irom == old(self).mem.irom,
                        self.mem.dram == old(self).mem.dram,
                        self.mem.coef == old(self).mem.coef,
                        self.accel == old(self).accel,
                        self.loop_counter == old(self).loop_counter,
                        self.old_reset_high == old(self).old_reset_high,
                        bus.mmio == old(bus).mmio,
                        bus.ram == old(bus).ram,
                        bus.aram == old(bus).aram,
                    decreases 512 - k,
                {
                    let hi = bus.ram[0x0100_0000 + 2 * k] as u16;
                    let lo = bus.ram[0x0100_0000 + 2 * k + 1] as u16;
                    self.mem.iram.set(k, hi * 256 + lo);
                    k += 1;
                }
                assert(self.mem.iram@ =~= iram_boot_stub(iram0, bus.ram@));
            }
            self.reset(bus);
        }
        bus.mmio.control.set_bit(0, false);
        self.old_reset_high = bus.mmio.control.reset_high();
        proof {
            let c = old(bus).mmio.control.0;
            assert(flag(with_flag(c, 0, false), 11) == flag(c, 11)) by (bit_vector);
        }
    }

    /// Runs the ongoing DSP DMA, if any: copies `length / 2` words between main RAM (from the
    /// base register, bits 26 up cleared) and data or instruction memory, then clears the
    /// length and the transfer flags.
    pub fn do_dma(&mut self, bus: &mut Bus)
        requires
            old(self).wf(),
            dma_ok(*old(self), *old(bus)),
        ensures
            final(self).wf(),
            ({
                let d = old(bus).mmio.dsp_dma;
                let n = (d.length / 2) as nat;
                let rb = dma_ram_base(d);
                let db = d.dsp_base as int;
                let s0 = data_state(*old(self), *old(bus));
                let ram0 = old(bus).ram@;
                if !flag(d.control.0, 2) {
                    &&& data_state(*final(self), *final(bus)) == s0
                    &&& final(self).mem.iram == old(self).mem.iram
                    &&& final(bus).ram == old(bus).ram
                } else if flag(d.control.0, 1) {
                    &&& data_state(*final(self), *final(bus)) == dma_done(s0)
                    &&& final(self).mem.iram@ == dma_in_imem(old(self).mem.iram@, ram0, rb, db, n)
                    &&& final(bus).ram == old(bus).ram
                } else if flag(d.control.0, 0) {
                    let (s, r) = dma_out_dmem(s0, old(self).mem.coef@, ram0, rb, db, n);
                    &&& data_state(*final(self), *final(bus)) == dma_done(s)
                    &&& final(self).mem.iram == old(self).mem.iram
                    &&& final(bus).ram@ == r
                } else {
                    &&& data_state(*final(self), *final(bus)) == dma_done(dma_in_dmem(s0, ram0, rb, db, n))
                    &&& final(self).mem.iram == old(self).mem.iram
                    &&& final(bus).ram == old(bus).ram
                }
            }),
            final(self).regs == old(self).regs,
            final(self).mem.irom == old(self).mem.irom,
            final(self).mem.coef == old(self).mem.coef,
            final(self).loop_counter == old(self).loop_counter,
            final(self).old_reset_high == old(self).old_reset_high,
    {
        if !bus.mmio.dsp_dma.control.transfer_ongoing() {
            return;
        }
        let raw_base = bus.mmio.dsp_dma.ram_base;
        let ram_base = raw_base & 0x03FF_FFFF;
        let dsp_base = bus.mmio.dsp_dma.dsp_base;
        let n = bus.mmio.dsp_dma.length / 2;
        let target_imem = (bus.mmio.dsp_dma.control.0 >> 1u16) & 1 == 1;
        let to_ram = (bus.mmio.dsp_dma.control.0 >> 0u16) & 1 == 1;
        let ghost s0 = data_state(*self, *bus);
        let ghost ram0 = bus.ram@;
        let ghost rb = ram_base as int;
        let ghost db = dsp_base as int;
        assert(ram_base <= 0x03FF_FFFF) by (bit_vector)
            requires
                ram_base == raw_base & 0x03FF_FFFFu32,
        ;
        let rlen = bus.ram.len();
        if !target_imem && !to_ram {
            let mut word: u16 = 0;
            while word < n
                invariant
                    word <= n,
                    self.wf(),
                    rb + 2 * n <= ram0.len(),
                    db + n <= 0x1_0000,
                    rlen == ram0.len(),
                    rb == ram_base,
                    db == dsp_base,
                    rb <= 0x03FF_FFFF,
                    dma_in_dmem_ok(s0, ram0, rb, db, n as nat),
                    data_state(*self, *bus) == dma_in_dmem(s0, ram0, rb, db, word as nat),
                    bus.ram@ == ram0,
                    bus.ram == old(bus).ram,
                    self.regs == old(self).regs,
                    self.mem.iram == old(self).mem.iram,
                    self.mem.irom == old(self).mem.irom,
                    self.mem.coef == old(self).mem.coef,
                    self.loop_counter == old(self).loop_counter,
                    self.old_reset_high == old(self).old_reset_high,
                decreases n - word,
            {
                let at = (ram_base + 2 * word as u32) as usize;
                let hi = bus.ram[at] as u16;
                let lo = bus.ram[at + 1] as u16;
                proof {
                    lemma_dma_in_ok_prefix(s0, ram0, rb, db, (word + 1) as nat, n as nat);
                }
                self.write_dmem(bus, dsp_base + word, hi * 256 + lo);
                word += 1;
            }
        } else if !target_imem {
            let mut word: u16 = 0;
            while word < n
                invariant
                    word <= n,
                    self.wf(),
                    rb + 2 * n <= ram0.len(),
                    db + n <= 0x1_0000,
                    rlen == ram0.len(),
                    rb == ram_base,
                    db == dsp_base,
                    rb <= 0x03FF_FFFF,
                    dma_out_dmem_ok(s0, old(self).mem.coef@, ram0, rb, db, n as nat),
                    (data_state(*self, *bus), bus.ram@) == dma_out_dmem(s0, old(self).mem.coef@, ram0, rb, db, word as nat),
                    self.regs == old(self).regs,
                    self.mem.iram == old(self).mem.iram,
                    self.mem.irom == old(self).mem.irom,
                    self.mem.coef == old(self).mem.coef,
                    self.loop_counter == old(self).loop_counter,
                    self.old_reset_high == old(self).old_reset_high,
                decreases n - word,
            {
                proof {
                    lemma_dma_out_ok_prefix(s0, old(self).mem.coef@, ram0, rb, db, (word + 1) as nat, n as nat);
                    lemma_dma_out_len(s0, old(self).mem.coef@, ram0, rb, db, word as nat);
                }
                let v = self.read_dmem(bus, dsp_base + word);
                let at = (ram_base + 2 * word as u32) as usize;
                bus.ram.set(at, (v >> 8u16) as u8);
                bus.ram.set(at + 1, v as u8);
                word += 1;
            }
        } else {
            let ghost iram0 = self.mem.iram@;
            let mut word: u16 = 0;
            while word < n
                invariant
                    word <= n,
                    self.wf(),
                    rb + 2 * n <= ram0.len(),
                    db + n <= 0x1_0000,
                    rlen == ram0.len(),
                    rb == ram_base,
                    db == dsp_base,
                    rb <= 0x03FF_FFFF,
                    iram0 == old(self).mem.iram@,
                    self.mem.iram@ == dma_in_imem(iram0, ram0, rb, db, word as nat),
                    data_state(*self, *bus) == s0,
                    bus.ram@ == ram0,
                    bus.ram == old(bus).ram,
                    self.regs == old(self).regs,
                    self.mem.irom == old(self).mem.irom,
                    self.mem.coef == old(self).mem.coef,
                    self.loop_counter == old(self).loop_counter,
                    self.old_reset_high == old(self).old_reset_high,
                decreases n - word,
            {
                let at = (ram_base + 2 * word as u32) as usize;
                let hi = bus.ram[at] as u16;
                let lo = bus.ram[at + 1] as u16;
                self.write_imem(dsp_base + word, hi * 256 + lo);
                word += 1;
            }
        }
        bus.mmio.dsp_dma.length = 0;
        bus.mmio.dsp_dma.control.set_transfer_ongoing(false);
        bus.mmio.control.set_bit(9, false);
    }

    /// Whether the code around the program counter (at `offset` from it) is the loop in which
    /// the DSP waits for mail from the CPU.
    pub fn is_waiting_for_mail_inner(&self, offset: i16) -> (r: bool)
        requires
            self.wf(),
        ensures
            r == mail_wait_at(self.mem, self.regs.pc.wrapping_add_signed(offset)),
    {
        let start = self.regs.pc.wrapping_add_signed(offset);
        let w0 = self.read_imem(start);
        let w1 = self.read_imem(start.wrapping_add(1));
        let w2 = self.read_imem(start.wrapping_add(2));
        let w3 = self.read_imem(start.wrapping_add(3));
        let w4 = self.read_imem(start.wrapping_add(4));
        let a = w0 == 0x26FE && w1 == 0x02C0;
        let b = w0 == 0x27FE && w1 == 0x03C0;
        w2 == 0x8000 && w3 == 0x029C && w4 == start && (a || b)
    }

    /// Whether the DSP sits in the loop in which it waits for mail, at any of its
    /// instructions.
    pub fn is_waiting_for_mail(&self) -> (r: bool)
        requires
            self.wf(),
        ensures
            r == (mail_wait_at(self.mem, self.regs.pc) || mail_wait_at(self.mem, self.regs.pc.wrapping_add_signed(-1i16))
                || mail_wait_at(self.mem, self.regs.pc.wrapping_add_signed(-3i16))),
    {
        proof {
            assert(self.regs.pc.wrapping_add_signed(0) == self.regs.pc);
        }
        self.is_waiting_for_mail_inner(0) || self.is_waiting_for_mail_inner(-1) || self.is_waiting_for_mail_inner(-3)
    }
}

/// Whether `new` and `new_bus` hold the same code, coefficients, loop state and main RAM as
/// `old` and `old_bus`.
pub open spec fn same_code(old: Interpreter, new: Interpreter, old_bus: Bus, new_bus: Bus) -> bool {
    &&& new.mem.iram == old.mem.iram
    &&& new.mem.irom == old.mem.irom
    &&& new.mem.coef == old.mem.coef
    &&& new.mem.dram@.len() == old.mem.dram@.len()
    &&& new.loop_counter == old.loop_counter
    &&& new.old_reset_high == old.old_reset_high
    &&& new_bus.ram == old_bus.ram
}

/// Whether `mid` is `old` with address register `s` set to `x`.
pub open spec fn addr_set(old: Registers, mid: Registers, s: int, x: u16) -> bool {
    &&& same_except(old, mid, 1)
    &&& mid.addressing@ == old.addressing@.update(s, x)
}

/// An address register `ar` with wrapping register `wr` stepped by `step`, down where `down`.
pub open spec fn stepped_addr(ar: u16, wr: u16, step: i16, down: bool) -> u16 {
    if down {
        spec_sub_from_addr_reg(ar, wr, step)
    } else {
        spec_add_to_addr_reg(ar, wr, step)
    }
}

/// The middle part of the accumulator that bit 8 of `base` names.
pub open spec fn mid_reg(base: u16) -> Reg {
    if (base >> 8u16) & 1 == 1 {
        Reg::Acc40Mid1
    } else {
        Reg::Acc40Mid0
    }
}

/// Whether a saturating load into `reg` can be written.
pub open spec fn can_load(r: Registers, reg: Reg) -> bool {
    reg != Reg::LoopStack ==> can_write(r, reg)
}

/// The destination of a load whose register field (five bits) is at the bottom of `base`.
pub open spec fn low_reg(base: u16) -> Reg {
    reg_at((base & 0x1F) as u8)
}

/// The address register field (two bits) at bit 5 of `base`.
pub open spec fn field5(base: u16) -> int {
    ((base >> 5u16) & 3) as int
}

impl Interpreter {
    /// Stops the DSP: sets the halt bit of the control register.
    pub fn halt(&mut self, bus: &mut Bus, ins: Ins)
        ensures
            final(bus).mmio == (Mmio { control: Control(with_flag(old(bus).mmio.control.0, 2, true)), ..old(bus).mmio }),
            final(self).regs == old(self).regs,
            final(self).mem == old(self).mem,
            final(self).accel == old(self).accel,
            final(self).loop_counter == old(self).loop_counter,
            final(self).old_reset_high == old(self).old_reset_high,
            final(bus).ram == old(bus).ram,
            final(bus).aram == old(bus).aram,
    {
        bus.mmio.control.set_bit(2, true);
    }

    /// Loads data memory at the second instruction word into register `d` (low 5 bits),
    /// saturating.
    pub fn lr(&mut self, bus: &mut Bus, ins: Ins)
        requires
            old(self).wf(),
            read_dmem_ok(data_state(*old(self), *old(bus)), ins.extra),
            can_load(old(self).regs, low_reg(ins.base)),
        ensures
            final(self).wf(),
            ({
                let (v, s) = read_dmem_spec(data_state(*old(self), *old(bus)), old(self).mem.coef@, ins.extra);
                &&& wrote_saturating(old(self).regs, final(self).regs, low_reg(ins.base), v)
                &&& data_state(*final(self), *final(bus)) == s
            }),
            same_code(*old(self), *final(self), *old(bus), *final(bus)),
    {
        proof {
            lemma_field(ins.base);
        }
        let d = (ins.base & 0x1F) as u8;
        let data = self.read_dmem(bus, ins.extra);
        self.regs.set_saturate(Reg::new(d), data);
    }

    /// Loads data memory at address register `s` (bits 5..7) into register `d` (low 5 bits),
    /// saturating.
    pub fn lrr(&mut self, bus: &mut Bus, ins: Ins)
        requires
            old(self).wf(),
            read_dmem_ok(data_state(*old(self), *old(bus)), old(self).regs.addressing[field5(ins.base)]),
            can_load(old(self).regs, low_reg(ins.base)),
        ensures
            final(self).wf(),
            ({
                let addr = old(self).regs.addressing[field5(ins.base)];
                let (v, s) = read_dmem_spec(data_state(*old(self), *old(bus)), old(self).mem.coef@, addr);
                &&& wrote_saturating(old(self).regs, final(self).regs, low_reg(ins.base), v)
                &&& data_state(*final(self), *final(bus)) == s
            }),
            same_code(*old(self), *final(self), *old(bus), *final(bus)),
    {
        proof {
            lemma_field(ins.base);
        }
        let d = (ins.base & 0x1F) as u8;
        let s = ((ins.base >> 5u16) & 3) as usize;
        let addr = self.regs.addressing[s];
        let data = self.read_dmem(bus, addr);
        self.regs.set_saturate(Reg::new(d), data);
    }
    /// Loads data memory at address register `s` (bits 5..7) into register `d` (low 5 bits),
    /// saturating, and steps the address register by `step` within its buffer (down where
    /// `down`). The step is made before the load is written.
    fn load_stepping(&mut self, bus: &mut Bus, ins: Ins, step: i16, down: bool)
        requires
            old(self).wf(),
            read_dmem_ok(data_state(*old(self), *old(bus)), old(self).regs.addressing[field5(ins.base)]),
            can_load(old(self).regs, low_reg(ins.base)),
        ensures
            final(self).wf(),
            ({
                let r = field5(ins.base);
                let ar = old(self).regs.addressing[r];
                let wr = old(self).regs.wrapping[r];
                let x = stepped_addr(ar, wr, step, down);
                let (v, s) = read_dmem_spec(data_state(*old(self), *old(bus)), old(self).mem.coef@, ar);
                &&& exists|mid: Registers| #[trigger] addr_set(old(self).regs, mid, r, x) && wrote_saturating(mid, final(self).regs, low_reg(ins.base), v)
                &&& data_state(*final(self), *final(bus)) == s
            }),
            same_code(*old(self), *final(self), *old(bus), *final(bus)),
    {
        proof {
            lemma_field(ins.base);
        }
        let d = (ins.base & 0x1F) as u8;
        let s = ((ins.base >> 5u16) & 3) as usize;
        let ar = self.regs.addressing[s];
        let wr = self.regs.wrapping[s];
        let data = self.read_dmem(bus, ar);
        self.regs.addressing[s] = if down {
            sub_from_addr_reg(ar, wr, step)
        } else {
            add_to_addr_reg(ar, wr, step)
        };
        let ghost mid = self.regs;
        assert(addr_set(old(self).regs, mid, field5(ins.base), stepped_addr(ar, wr, step, down)));
        assert(can_write(mid, reg_at(d)) == can_write(old(self).regs, reg_at(d)));
        self.regs.set_saturate(Reg::new(d), data);
        assert(wrote_saturating(mid, self.regs, low_reg(ins.base), data));
    }

    /// `lrr` stepping its address register back by one.
    pub fn lrrd(&mut self, bus: &mut Bus, ins: Ins)
        requires
            old(self).wf(),
            read_dmem_ok(data_state(*old(self), *old(bus)), old(self).regs.addressing[field5(ins.base)]),
            can_load(old(self).regs, low_reg(ins.base)),
        ensures
            final(self).wf(),
            ({
                let r = field5(ins.base);
                let ar = old(self).regs.addressing[r];
                let x = spec_sub_from_addr_reg(ar, old(self).regs.wrapping[r], 1);
                let (v, s) = read_dmem_spec(data_state(*old(self), *old(bus)), old(self).mem.coef@, ar);
                &&& exists|mid: Registers| #[trigger] addr_set(old(self).regs, mid, r, x) && wrote_saturating(mid, final(self).regs, low_reg(ins.base), v)
                &&& data_state(*final(self), *final(bus)) == s
            }),
            same_code(*old(self), *final(self), *old(bus), *final(bus)),
    {
        self.load_stepping(bus, ins, 1, true);
    }

    /// `lrr` stepping its address register on by one.
    pub fn lrri(&mut self, bus: &mut Bus, ins: Ins)
        requires
            old(self).wf(),
            read_dmem_ok(data_state(*old(self), *old(bus)), old(self).regs.addressing[field5(ins.base)]),
            can_load(old(self).regs, low_reg(ins.base)),
        ensures
            final(self).wf(),
            ({
                let r = field5(ins.base);
                let ar = old(self).regs.addressing[r];
                let x = spec_add_to_addr_reg(ar, old(self).regs.wrapping[r], 1);
                let (v, s) = read_dmem_spec(data_state(*old(self), *old(bus)), old(self).mem.coef@, ar);
                &&& exists|mid: Registers| #[trigger] addr_set(old(self).regs, mid, r, x) && wrote_saturating(mid, final(self).regs, low_reg(ins.base), v)
                &&& data_state(*final(self), *final(bus)) == s
            }),
            same_code(*old(self), *final(self), *old(bus), *final(bus)),
    {
        self.load_stepping(bus, ins, 1, false);
    }

    /// `lrr` stepping its address register on by its index register.
    pub fn lrrn(&mut self, bus: &mut Bus, ins: Ins)
        requires
            old(self).wf(),
            read_dmem_ok(data_state(*old(self), *old(bus)), old(self).regs.addressing[field5(ins.base)]),
            can_load(old(self).regs, low_reg(ins.base)),
        ensures
            final(self).wf(),
            ({
                let r = field5(ins.base);
                let ar = old(self).regs.addressing[r];
                let x = spec_add_to_addr_reg(ar, old(self).regs.wrapping[r], old(self).regs.indexing[r] as i16);
                let (v, s) = read_dmem_spec(data_state(*old(self), *old(bus)), old(self).mem.coef@, ar);
                &&& exists|mid: Registers| #[trigger] addr_set(old(self).regs, mid, r, x) && wrote_saturating(mid, final(self).regs, low_reg(ins.base), v)
                &&& data_state(*final(self), *final(bus)) == s
            }),
            same_code(*old(self), *final(self), *old(bus), *final(bus)),
    {
        proof {
            lemma_field(ins.base);
        }
        let s = ((ins.base >> 5u16) & 3) as usize;
        let ix = self.regs.indexing[s];
        self.load_stepping(bus, ins, ix as i16, false);
    }

    /// Loads data memory at the address whose low byte is the instruction's and whose high
    /// byte is the configuration register, into register `0x18 + d` (`d` in bits 8..11),
    /// saturating.
    pub fn lrs(&mut self, bus: &mut Bus, ins: Ins)
        requires
            old(self).wf(),
            read_dmem_ok(data_state(*old(self), *old(bus)), (old(self).regs.config as int * 256 + (ins.base & 0xFF)) as u16),
        ensures
            final(self).wf(),
            ({
                let addr = (old(self).regs.config as int * 256 + (ins.base & 0xFF)) as u16;
                let (v, s) = read_dmem_spec(data_state(*old(self), *old(bus)), old(self).mem.coef@, addr);
                &&& wrote_saturating(old(self).regs, final(self).regs, reg_at((0x18 + ((ins.base >> 8u16) & 7)) as u8), v)
                &&& data_state(*final(self), *final(bus)) == s
            }),
            same_code(*old(self), *final(self), *old(bus), *final(bus)),
    {
        proof {
            lemma_field(ins.base);
        }
        let imm = (ins.base & 0xFF) as u16;
        let d = ((ins.base >> 8u16) & 7) as u8;
        let addr = (self.regs.config as u16) * 256 + imm;
        let data = self.read_dmem(bus, addr);
        self.regs.set_saturate(Reg::new(0x18 + d), data);
    }

    /// Loads instruction memory at address register `s` (low 2 bits) into the middle part of
    /// accumulator `d` (bit 8), saturating, then steps the address register by `step` (down
    /// where `down`), unless `step` is zero and not `down`.
    fn iload(&mut self, ins: Ins, step: i16, down: bool, moves: bool)
        requires
            old(self).wf(),
        ensures
            final(self).wf(),
            ({
                let r = (ins.base & 3) as int;
                let ar = old(self).regs.addressing[r];
                let wr = old(self).regs.wrapping[r];
                let reg = mid_reg(ins.base);
                let v = spec_read_imem(old(self).mem, ar);
                let x = stepped_addr(ar, wr, step, down);
                if moves {
                    exists|mid: Registers| #[trigger] wrote_saturating(old(self).regs, mid, reg, v) && addr_set(mid, final(self).regs, r, x)
                } else {
                    wrote_saturating(old(self).regs, final(self).regs, reg, v)
                }
            }),
            final(self).mem == old(self).mem,
            final(self).accel == old(self).accel,
            final(self).loop_counter == old(self).loop_counter,
            final(self).old_reset_high == old(self).old_reset_high,
    {
        proof {
            lemma_field(ins.base);
        }
        let s = (ins.base & 3) as usize;
        let reg = if (ins.base >> 8u16) & 1 == 1 { Reg::Acc40Mid1 } else { Reg::Acc40Mid0 };
        let ar = self.regs.addressing[s];
        let wr = self.regs.wrapping[s];
        let data = self.read_imem(ar);
        self.regs.set_saturate(reg, data);
        if moves {
            let ghost mid = self.regs;
            self.regs.addressing[s] = if down {
                sub_from_addr_reg(ar, wr, step)
            } else {
                add_to_addr_reg(ar, wr, step)
            };
            assert(addr_set(mid, self.regs, s as int, self.regs.addressing[s as int]));
        }
    }
    /// Loads instruction memory at address register `s` (low 2 bits) into the middle part of
    /// accumulator `d` (bit 8), saturating.
    pub fn ilrr(&mut self, ins: Ins)
        requires
            old(self).wf(),
        ensures
            final(self).wf(),
            wrote_saturating(old(self).regs, final(self).regs, mid_reg(ins.base), spec_read_imem(old(self).mem, old(self).regs.addressing[(ins.base & 3) as int])),
            final(self).mem == old(self).mem,
            final(self).accel == old(self).accel,
            final(self).loop_counter == old(self).loop_counter,
            final(self).old_reset_high == old(self).old_reset_high,
    {
        self.iload(ins, 0, false, false);
    }

    /// `ilrr` stepping its address register back by one.
    pub fn ilrrd(&mut self, ins: Ins)
        requires
            old(self).wf(),
        ensures
            final(self).wf(),
            ({
                let r = (ins.base & 3) as int;
                let ar = old(self).regs.addressing[r];
                let v = spec_read_imem(old(self).mem, ar);
                let x = spec_sub_from_addr_reg(ar, old(self).regs.wrapping[r], 1);
                exists|mid: Registers| #[trigger] wrote_saturating(old(self).regs, mid, mid_reg(ins.base), v) && addr_set(mid, final(self).regs, r, x)
            }),
            final(self).mem == old(self).mem,
            final(self).accel == old(self).accel,
            final(self).loop_counter == old(self).loop_counter,
            final(self).old_reset_high == old(self).old_reset_high,
    {
        self.iload(ins, 1, true, true);
    }

    /// `ilrr` stepping its address register on by one.
    pub fn ilrri(&mut self, ins: Ins)
        requires
            old(self).wf(),
        ensures
            final(self).wf(),
            ({
                let r = (ins.base & 3) as int;
                let ar = old(self).regs.addressing[r];
                let v = spec_read_imem(old(self).mem, ar);
                let x = spec_add_to_addr_reg(ar, old(self).regs.wrapping[r], 1);
                exists|mid: Registers| #[trigger] wrote_saturating(old(self).regs, mid, mid_reg(ins.base), v) && addr_set(mid, final(self).regs, r, x)
            }),
            final(self).mem == old(self).mem,
            final(self).accel == old(self).accel,
            final(self).loop_counter == old(self).loop_counter,
            final(self).old_reset_high == old(self).old_reset_high,
    {
        self.iload(ins, 1, false, true);
    }

    /// `ilrr` stepping its address register on by its index register.
    pub fn ilrrn(&mut self, ins: Ins)
        requires
            old(self).wf(),
        ensures
            final(self).wf(),
            ({
                let r = (ins.base & 3) as int;
                let ar = old(self).regs.addressing[r];
                let v = spec_read_imem(old(self).mem, ar);
                let x = spec_add_to_addr_reg(ar, old(self).regs.wrapping[r], old(self).regs.indexing[r] as i16);
                exists|mid: Registers| #[trigger] wrote_saturating(old(self).regs, mid, mid_reg(ins.base), v) && addr_set(mid, final(self).regs, r, x)
            }),
            final(self).mem == old(self).mem,
            final(self).accel == old(self).accel,
            final(self).loop_counter == old(self).loop_counter,
            final(self).old_reset_high == old(self).old_reset_high,
    {
        proof {
            lemma_field(ins.base);
        }
        let s = (ins.base & 3) as usize;
        let ix = self.regs.indexing[s];
        self.iload(ins, ix as i16, false, true);
    }

    /// Stores the second instruction word at the register whose offset is the instruction's
    /// low byte.
    pub fn si(&mut self, bus: &mut Bus, ins: Ins)
        requires
            old(self).wf(),
            write_dmem_ok(data_state(*old(self), *old(bus)), (0xFF00 + (ins.base & 0xFF)) as u16, ins.extra),
        ensures
            final(self).wf(),
            data_state(*final(self), *final(bus)) == write_dmem_spec(data_state(*old(self), *old(bus)), (0xFF00 + (ins.base & 0xFF)) as u16, ins.extra),
            only_data(*old(self), *final(self), *old(bus), *final(bus)),
    {
        proof {
            lemma_field(ins.base);
        }
        let offset = ins.base & 0xFF;
        self.write_dmem(bus, 0xFF00 + offset, ins.extra);
    }

    /// Stores register `s` (low 5 bits) at the second instruction word.
    pub fn sr(&mut self, bus: &mut Bus, ins: Ins)
        requires
            old(self).wf(),
            write_dmem_ok(data_state(*old(self), *old(bus)), ins.extra, reg_value(old(self).regs, low_reg(ins.base))),
        ensures
            final(self).wf(),
            data_state(*final(self), *final(bus)) == write_dmem_spec(data_state(*old(self), *old(bus)), ins.extra, reg_value(old(self).regs, low_reg(ins.base))),
            only_data(*old(self), *final(self), *old(bus), *final(bus)),
    {
        proof {
            lemma_field(ins.base);
        }
        let s = (ins.base & 0x1F) as u8;
        let data = self.regs.get(Reg::new(s));
        self.write_dmem(bus, ins.extra, data);
    }

    /// Stores register `s` (low 5 bits) at address register `d` (bits 5..7).
    pub fn srr(&mut self, bus: &mut Bus, ins: Ins)
        requires
            old(self).wf(),
            write_dmem_ok(data_state(*old(self), *old(bus)), old(self).regs.addressing[field5(ins.base)], reg_value(old(self).regs, low_reg(ins.base))),
        ensures
            final(self).wf(),
            data_state(*final(self), *final(bus)) == write_dmem_spec(data_state(*old(self), *old(bus)), old(self).regs.addressing[field5(ins.base)], reg_value(old(self).regs, low_reg(ins.base))),
            only_data(*old(self), *final(self), *old(bus), *final(bus)),
    {
        proof {
            lemma_field(ins.base);
        }
        let s = (ins.base & 0x1F) as u8;
        let d = ((ins.base >> 5u16) & 3) as usize;
        let data = self.regs.get(Reg::new(s));
        let addr = self.regs.addressing[d];
        self.write_dmem(bus, addr, data);
    }

    /// Steps address register `d` (bits 5..7) back by one, then stores register `s` (low 5
    /// bits) at the address it now holds.
    pub fn srrd(&mut self, bus: &mut Bus, ins: Ins)
        requires
            old(self).wf(),
            write_dmem_ok(
                data_state(*old(self), *old(bus)),
                spec_sub_from_addr_reg(old(self).regs.addressing[field5(ins.base)], old(self).regs.wrapping[field5(ins.base)], 1),
                reg_value(old(self).regs, low_reg(ins.base)),
            ),
        ensures
            final(self).wf(),
            ({
                let r = field5(ins.base);
                let x = spec_sub_from_addr_reg(old(self).regs.addressing[r], old(self).regs.wrapping[r], 1);
                &&& addr_set(old(self).regs, final(self).regs, r, x)
                &&& data_state(*final(self), *final(bus)) == write_dmem_spec(data_state(*old(self), *old(bus)), x, reg_value(old(self).regs, low_reg(ins.base)))
            }),
            same_code(*old(self), *final(self), *old(bus), *final(bus)),
    {
        proof {
            lemma_field(ins.base);
        }
        let s = (ins.base & 0x1F) as u8;
        let d = ((ins.base >> 5u16) & 3) as usize;
        let data = self.regs.get(Reg::new(s));
        let ar = self.regs.addressing[d];
        let wr = self.regs.wrapping[d];
        self.regs.addressing[d] = sub_from_addr_reg(ar, wr, 1);
        let addr = self.regs.addressing[d];
        self.write_dmem(bus, addr, data);
    }

    /// Stores register `s` (low 5 bits) at address register `d` (bits 5..7), then steps the
    /// address register on by one.
    pub fn srri(&mut self, bus: &mut Bus, ins: Ins)
        requires
            old(self).wf(),
            write_dmem_ok(data_state(*old(self), *old(bus)), old(self).regs.addressing[field5(ins.base)], reg_value(old(self).regs, low_reg(ins.base))),
        ensures
            final(self).wf(),
            ({
                let r = field5(ins.base);
                let ar = old(self).regs.addressing[r];
                &&& addr_set(old(self).regs, final(self).regs, r, spec_add_to_addr_reg(ar, old(self).regs.wrapping[r], 1))
                &&& data_state(*final(self), *final(bus)) == write_dmem_spec(data_state(*old(self), *old(bus)), ar, reg_value(old(self).regs, low_reg(ins.base)))
            }),
            same_code(*old(self), *final(self), *old(bus), *final(bus)),
    {
        proof {
            lemma_field(ins.base);
        }
        let s = (ins.base & 0x1F) as u8;
        let d = ((ins.base >> 5u16) & 3) as usize;
        let data = self.regs.get(Reg::new(s));
        let ar = self.regs.addressing[d];
        let wr = self.regs.wrapping[d];
        self.regs.addressing[d] = add_to_addr_reg(ar, wr, 1);
        self.write_dmem(bus, ar, data);
    }
}

/// The accumulator half that bit `k` of `base` picks for a paired load: the high half of
/// accumulator `acc` where the bit is set, else its low half.
pub open spec fn pair_reg(base: u16, k: u16, acc: int) -> Reg {
    if (base >> k) & 1 == 1 {
        if acc == 0 { Reg::Acc32High0 } else { Reg::Acc32High1 }
    } else {
        if acc == 0 { Reg::Acc32Low0 } else { Reg::Acc32Low1 }
    }
}

/// What an extension load does to the registers: register `0x18 + d` (bits 3..6 of `base`)
/// takes `v`, saturating, then address register `r` (low 2 bits) is stepped on by `step` from
/// its value in `prev`.
pub open spec fn ext_loaded(old: Registers, new: Registers, prev: Registers, base: u16, step: i16, v: u16) -> bool {
    let r = (base & 3) as int;
    let reg = reg_at((0x18 + ((base >> 3u16) & 7)) as u8);
    let x = spec_add_to_addr_reg(prev.addressing[r], prev.wrapping[r], step);
    exists|mid: Registers| #[trigger] wrote_saturating(old, mid, reg, v) && addr_set(mid, new, r, x)
}

impl Interpreter {
    /// Extension: steps address register `r` (low 2 bits) back by one, from its value before
    /// the instruction (`prev`).
    pub fn ext_dr(&mut self, ins: Ins, prev: &Registers)
        ensures
            ({
                let r = (ins.base & 3) as int;
                addr_set(old(self).regs, final(self).regs, r, spec_sub_from_addr_reg(prev.addressing[r], prev.wrapping[r], 1))
            }),
            final(self).mem == old(self).mem,
            final(self).accel == old(self).accel,
            final(self).loop_counter == old(self).loop_counter,
            final(self).old_reset_high == old(self).old_reset_high,
    {
        proof {
            lemma_field(ins.base);
        }
        let r = (ins.base & 3) as usize;
        self.regs.addressing[r] = sub_from_addr_reg(prev.addressing[r], prev.wrapping[r], 1);
    }

    /// Extension: steps address register `r` (low 2 bits) on by one, from its value before
    /// the instruction (`prev`).
    pub fn ext_ir(&mut self, ins: Ins, prev: &Registers)
        ensures
            ({
                let r = (ins.base & 3) as int;
                addr_set(old(self).regs, final(self).regs, r, spec_add_to_addr_reg(prev.addressing[r], prev.wrapping[r], 1))
            }),
            final(self).mem == old(self).mem,
            final(self).accel == old(self).accel,
            final(self).loop_counter == old(self).loop_counter,
            final(self).old_reset_high == old(self).old_reset_high,
    {
        proof {
            lemma_field(ins.base);
        }
        let r = (ins.base & 3) as usize;
        self.regs.addressing[r] = add_to_addr_reg(prev.addressing[r], prev.wrapping[r], 1);
    }

    /// Extension: steps address register `r` (low 2 bits) on by its index register, from their
    /// values before the instruction (`prev`).
    pub fn ext_nr(&mut self, ins: Ins, prev: &Registers)
        ensures
            ({
                let r = (ins.base & 3) as int;
                addr_set(old(self).regs, final(self).regs, r, spec_add_to_addr_reg(prev.addressing[r], prev.wrapping[r], prev.indexing[r] as i16))
            }),
            final(self).mem == old(self).mem,
            final(self).accel == old(self).accel,
            final(self).loop_counter == old(self).loop_counter,
            final(self).old_reset_high == old(self).old_reset_high,
    {
        proof {
            lemma_field(ins.base);
        }
        let r = (ins.base & 3) as usize;
        self.regs.addressing[r] = add_to_addr_reg(prev.addressing[r], prev.wrapping[r], prev.indexing[r] as i16);
    }

    /// Extension: moves register `0x1C + s` (low 2 bits) as it was before the instruction into
    /// register `0x18 + d` (bits 2..4).
    pub fn ext_mv(&mut self, ins: Ins, prev: &Registers)
        ensures
            wrote(
                old(self).regs,
                final(self).regs,
                reg_at((0x18 + ((ins.base >> 2u16) & 3)) as u8),
                reg_value(*prev, reg_at((0x1C + (ins.base & 3)) as u8)),
            ),
            final(self).mem == old(self).mem,
            final(self).accel == old(self).accel,
            final(self).loop_counter == old(self).loop_counter,
            final(self).old_reset_high == old(self).old_reset_high,
    {
        proof {
            lemma_field(ins.base);
        }
        let s = (ins.base & 3) as u8;
        let d = ((ins.base >> 2u16) & 3) as u8;
        let v = prev.get(Reg::new(0x1C + s));
        self.regs.set(Reg::new(0x18 + d), v);
    }

    /// Extension: loads data memory at address register `s` (low 2 bits) into register
    /// `0x18 + d` (bits 3..6), saturating, then steps the address register on by `step`, all
    /// from the registers before the instruction (`prev`).
    fn ext_load(&mut self, bus: &mut Bus, ins: Ins, prev: &Registers, step: i16)
        requires
            old(self).wf(),
            read_dmem_ok(data_state(*old(self), *old(bus)), prev.addressing[(ins.base & 3) as int]),
        ensures
            final(self).wf(),
            ({
                let (v, s) = read_dmem_spec(data_state(*old(self), *old(bus)), old(self).mem.coef@, prev.addressing[(ins.base & 3) as int]);
                &&& ext_loaded(old(self).regs, final(self).regs, *prev, ins.base, step, v)
                &&& data_state(*final(self), *final(bus)) == s
            }),
            same_code(*old(self), *final(self), *old(bus), *final(bus)),
    {
        proof {
            lemma_field(ins.base);
        }
        let s = (ins.base & 3) as usize;
        let d = ((ins.base >> 3u16) & 7) as u8;
        let data = self.read_dmem(bus, prev.addressing[s]);
        self.regs.set_saturate(Reg::new(0x18 + d), data);
        let ghost mid = self.regs;
        assert(wrote_saturating(old(self).regs, mid, reg_at((0x18 + ((ins.base >> 3u16) & 7)) as u8), data));
        self.regs.addressing[s] = add_to_addr_reg(prev.addressing[s], prev.wrapping[s], step);
        proof {
            let r = (ins.base & 3) as int;
            let reg = reg_at((0x18 + ((ins.base >> 3u16) & 7)) as u8);
            let x = spec_add_to_addr_reg(prev.addressing[r], prev.wrapping[r], step);
            assert(addr_set(mid, self.regs, r, x));
            assert(wrote_saturating(old(self).regs, mid, reg, data) && addr_set(mid, self.regs, r, x));
            assert(ext_loaded(old(self).regs, self.regs, *prev, ins.base, step, data));
        }
    }

    /// Extension `l`: the load stepping its address register on by one.
    pub fn ext_l(&mut self, bus: &mut Bus, ins: Ins, prev: &Registers)
        requires
            old(self).wf(),
            read_dmem_ok(data_state(*old(self), *old(bus)), prev.addressing[(ins.base & 3) as int]),
        ensures
            final(self).wf(),
            ({
                let (v, s) = read_dmem_spec(data_state(*old(self), *old(bus)), old(self).mem.coef@, prev.addressing[(ins.base & 3) as int]);
                &&& ext_loaded(old(self).regs, final(self).regs, *prev, ins.base, 1, v)
                &&& data_state(*final(self), *final(bus)) == s
            }),
            same_code(*old(self), *final(self), *old(bus), *final(bus)),
    {
        self.ext_load(bus, ins, prev, 1);
    }

    /// Extension `ln`: the load stepping its address register on by its index register.
    pub fn ext_ln(&mut self, bus: &mut Bus, ins: Ins, prev: &Registers)
        requires
            old(self).wf(),
            read_dmem_ok(data_state(*old(self), *old(bus)), prev.addressing[(ins.base & 3) as int]),
        ensures
            final(self).wf(),
            ({
                let (v, s) = read_dmem_spec(data_state(*old(self), *old(bus)), old(self).mem.coef@, prev.addressing[(ins.base & 3) as int]);
                &&& ext_loaded(old(self).regs, final(self).regs, *prev, ins.base, prev.indexing[(ins.base & 3) as int] as i16, v)
                &&& data_state(*final(self), *final(bus)) == s
            }),
            same_code(*old(self), *final(self), *old(bus), *final(bus)),
    {
        proof {
            lemma_field(ins.base);
        }
        let s = (ins.base & 3) as usize;
        self.ext_load(bus, ins, prev, prev.indexing[s] as i16);
    }
}

/// What a paired extension load does to the registers: the half of accumulator 0 that bit 5
/// of `base` picks takes `v1`, then the half of accumulator 1 that bit 4 picks takes `v2`
/// (both saturating), then address register `s` (low 2 bits) is stepped on by `step_s` and
/// address register 3 by `step_3`, each from its value in `prev`.
pub open spec fn ext_pair_loaded(old: Registers, new: Registers, prev: Registers, base: u16, step_s: i16, step_3: i16, v1: u16, v2: u16) -> bool {
    let s = (base & 3) as int;
    let xs = spec_add_to_addr_reg(prev.addressing[s], prev.wrapping[s], step_s);
    let x3 = spec_add_to_addr_reg(prev.addressing[3], prev.wrapping[3], step_3);
    exists|m1: Registers, m2: Registers|
        #![trigger wrote_saturating(old, m1, pair_reg(base, 5, 0), v1), wrote_saturating(m1, m2, pair_reg(base, 4, 1), v2)]
        {
            &&& wrote_saturating(old, m1, pair_reg(base, 5, 0), v1)
            &&& wrote_saturating(m1, m2, pair_reg(base, 4, 1), v2)
            &&& same_except(m2, new, 1)
            &&& new.addressing@ == m2.addressing@.update(s, xs).update(3, x3)
        }
}

/// Whether both reads of a paired extension load succeed.
pub open spec fn pair_read_ok(s0: DataState, coef: Seq<u16>, prev: Registers, base: u16) -> bool {
    let a = prev.addressing[(base & 3) as int];
    &&& read_dmem_ok(s0, a)
    &&& read_dmem_ok(read_dmem_spec(s0, coef, a).1, prev.addressing[3])
}

/// The values a paired extension load reads, and the state after.
pub open spec fn pair_read(s0: DataState, coef: Seq<u16>, prev: Registers, base: u16) -> (u16, u16, DataState) {
    let (v1, s1) = read_dmem_spec(s0, coef, prev.addressing[(base & 3) as int]);
    let (v2, s2) = read_dmem_spec(s1, coef, prev.addressing[3]);
    (v1, v2, s2)
}

impl Interpreter {
    /// Extension: loads data memory at address register `s` (low 2 bits) into a half of
    /// accumulator 0 (bit 5: high) and at address register 3 into a half of accumulator 1
    /// (bit 4: high), saturating, then steps both address registers, all from the registers
    /// before the instruction (`prev`).
    fn ext_load_pair(&mut self, bus: &mut Bus, ins: Ins, prev: &Registers, step_s: i16, step_3: i16)
        requires
            old(self).wf(),
            pair_read_ok(data_state(*old(self), *old(bus)), old(self).mem.coef@, *prev, ins.base),
        ensures
            final(self).wf(),
            ({
                let (v1, v2, s) = pair_read(data_state(*old(self), *old(bus)), old(self).mem.coef@, *prev, ins.base);
                &&& ext_pair_loaded(old(self).regs, final(self).regs, *prev, ins.base, step_s, step_3, v1, v2)
                &&& data_state(*final(self), *final(bus)) == s
            }),
            same_code(*old(self), *final(self), *old(bus), *final(bus)),
    {
        proof {
            lemma_field(ins.base);
        }
        let s = (ins.base & 3) as usize;
        let dreg = if (ins.base >> 5u16) & 1 == 1 { Reg::Acc32High0 } else { Reg::Acc32Low0 };
        let rreg = if (ins.base >> 4u16) & 1 == 1 { Reg::Acc32High1 } else { Reg::Acc32Low1 };
        let v1 = self.read_dmem(bus, prev.addressing[s]);
        self.regs.set_saturate(dreg, v1);
        let ghost m1 = self.regs;
        let v2 = self.read_dmem(bus, prev.addressing[3]);
        self.regs.set_saturate(rreg, v2);
        let ghost m2 = self.regs;
        self.regs.addressing[s] = add_to_addr_reg(prev.addressing[s], prev.wrapping[s], step_s);
        self.regs.addressing[3] = add_to_addr_reg(prev.addressing[3], prev.wrapping[3], step_3);
        proof {
            assert(wrote_saturating(old(self).regs, m1, pair_reg(ins.base, 5, 0), v1));
            assert(wrote_saturating(m1, m2, pair_reg(ins.base, 4, 1), v2));
            assert(self.regs.addressing@ =~= m2.addressing@.update(s as int, self.regs.addressing[s as int]).update(3, self.regs.addressing[3]));
            assert(ext_pair_loaded(old(self).regs, self.regs, *prev, ins.base, step_s, step_3, v1, v2));
        }
    }

    /// Extension `ld`: the paired load stepping both address registers on by one.
    pub fn ext_ld(&mut self, bus: &mut Bus, ins: Ins, prev: &Registers)
        requires
            old(self).wf(),
            pair_read_ok(data_state(*old(self), *old(bus)), old(self).mem.coef@, *prev, ins.base),
        ensures
            final(self).wf(),
            ({
                let (v1, v2, s) = pair_read(data_state(*old(self), *old(bus)), old(self).mem.coef@, *prev, ins.base);
                &&& ext_pair_loaded(old(self).regs, final(self).regs, *prev, ins.base, 1, 1, v1, v2)
                &&& data_state(*final(self), *final(bus)) == s
            }),
            same_code(*old(self), *final(self), *old(bus), *final(bus)),
    {
        self.ext_load_pair(bus, ins, prev, 1, 1);
    }

    /// Extension `ldm`: the paired load stepping address register `s` on by one and address
    /// register 3 on by its index register.
    pub fn ext_ldm(&mut self, bus: &mut Bus, ins: Ins, prev: &Registers)
        requires
            old(self).wf(),
            pair_read_ok(data_state(*old(self), *old(bus)), old(self).mem.coef@, *prev, ins.base),
        ensures
            final(self).wf(),
            ({
                let (v1, v2, s) = pair_read(data_state(*old(self), *old(bus)), old(self).mem.coef@, *prev, ins.base);
                &&& ext_pair_loaded(old(self).regs, final(self).regs, *prev, ins.base, 1, prev.indexing[3] as i16, v1, v2)
                &&& data_state(*final(self), *final(bus)) == s
            }),
            same_code(*old(self), *final(self), *old(bus), *final(bus)),
    {
        self.ext_load_pair(bus, ins, prev, 1, prev.indexing[3] as i16);
    }

    /// Extension `ldn`: the paired load stepping address register `s` on by its index
    /// register and address register 3 on by one.
    pub fn ext_ldn(&mut self, bus: &mut Bus, ins: Ins, prev: &Registers)
        requires
            old(self).wf(),
            pair_read_ok(data_state(*old(self), *old(bus)), old(self).mem.coef@, *prev, ins.base),
        ensures
            final(self).wf(),
            ({
                let (v1, v2, s) = pair_read(data_state(*old(self), *old(bus)), old(self).mem.coef@, *prev, ins.base);
                &&& ext_pair_loaded(old(self).regs, final(self).regs, *prev, ins.base, prev.indexing[(ins.base & 3) as int] as i16, 1, v1, v2)
                &&& data_state(*final(self), *final(bus)) == s
            }),
            same_code(*old(self), *final(self), *old(bus), *final(bus)),
    {
        proof {
            lemma_field(ins.base);
        }
        let s = (ins.base & 3) as usize;
        self.ext_load_pair(bus, ins, prev, prev.indexing[s] as i16, 1);
    }

    /// Extension `ldnm`: the paired load stepping both address registers on by their index
    /// registers.
    pub fn ext_ldnm(&mut self, bus: &mut Bus, ins: Ins, prev: &Registers)
        requires
            old(self).wf(),
            pair_read_ok(data_state(*old(self), *old(bus)), old(self).mem.coef@, *prev, ins.base),
        ensures
            final(self).wf(),
            ({
                let (v1, v2, s) = pair_read(data_state(*old(self), *old(bus)), old(self).mem.coef@, *prev, ins.base);
                &&& ext_pair_loaded(
                    old(self).regs,
                    final(self).regs,
                    *prev,
                    ins.base,
                    prev.indexing[(ins.base & 3) as int] as i16,
                    prev.indexing[3] as i16,
                    v1,
                    v2,
                )
                &&& data_state(*final(self), *final(bus)) == s
            }),
            same_code(*old(self), *final(self), *old(bus), *final(bus)),
    {
        proof {
            lemma_field(ins.base);
        }
        let s = (ins.base & 3) as usize;
        self.ext_load_pair(bus, ins, prev, prev.indexing[s] as i16, prev.indexing[3] as i16);
    }
}

} // verus!

verus! {

/// A word written to data RAM reads back, and the read changes nothing.
pub proof fn law_dram_read_after_write(s: DataState, coef: Seq<u16>, addr: u16, v: u16)
    requires
        addr < 0x1000,
        s.dram.len() == 0x1000,
    ensures
        read_dmem_spec(write_dmem_spec(s, addr, v), coef, addr) == (v, write_dmem_spec(s, addr, v)),
{
}

/// The halves of a 32-bit register read back as they were written.
proof fn lemma_halves(x: u32, v: u16)
    by (bit_vector)
    ensures
        (((x & 0xFFFFu32) | ((v as u32) << 16u32)) >> 16u32) as u16 == v,
        ((x & 0xFFFF_0000u32) | (v as u32)) as u16 == v,
{
}

/// The DMA and accelerator registers that take a whole word read back what was written to
/// them.
pub proof fn law_registers_read_back(s: DataState, offset: u8, v: u16)
    requires
        offset == 0xC9 || offset == 0xCD || offset == 0xCE || offset == 0xCF || (0xD4 <= offset <= 0xDA) || offset
            == 0xDE,
    ensures
        mmio_read(mmio_write(s, offset, v), offset).0 == v,
{
    lemma_halves(s.mmio.dsp_dma.ram_base, v);
    lemma_halves(s.accel.aram_start, v);
    lemma_halves(s.accel.aram_end, v);
    lemma_halves(s.accel.aram_curr, v);
}

/// A word the accelerator writes to ARAM reads back from the same address.
pub proof fn law_aram_word_read_back(s: DataState, v: u16)
    requires
        accel_can_step(s),
    ensures
        ({
            let written = mmio_write(s, 0xD3, v);
            mmio_read(DataState { accel: s.accel, ..written }, 0xD3).0 == v
        }),
{
    assert((((v >> 8u16) as u8) as u16) * 256 + ((v as u8) as u16) == v) by (bit_vector);
}

/// Reading the low half of the CPU mailbox marks it read: its status bit is then clear.
pub proof fn law_cpu_mail_read_once(s: DataState)
    ensures
        mmio_read(s, 0xFF).1.mmio.cpu_mailbox.0 < 0x8000_0000,
        mmio_read(mmio_read(s, 0xFF).1, 0xFE).0 < 0x8000,
{
}

} // verus!

verus! {

/// A DMA into data RAM alone writes the words of main RAM, one after another, and leaves the
/// rest of the state as it was.
proof fn lemma_dma_in_dram(s: DataState, ram: Seq<u8>, rb: int, db: int, k: nat)
    requires
        s.dram.len() == 0x1000,
        0 <= db,
        db + k <= 0x1000,
    ensures
        ({
            let r = dma_in_dmem(s, ram, rb, db, k);
            &&& r.dram.len() == 0x1000
            &&& r.accel == s.accel
            &&& r.mmio == s.mmio
            &&& r.aram == s.aram
            &&& forall|i: int| 0 <= i < 0x1000 ==> #[trigger] r.dram[i] == if db <= i < db + k {
                be_word(ram, rb + 2 * (i - db))
            } else {
                s.dram[i]
            }
        }),
    decreases k,
{
    if k > 0 {
        lemma_dma_in_dram(s, ram, rb, db, (k - 1) as nat);
    }
}

/// A DMA out of data RAM alone changes nothing but main RAM, where it writes the words read,
/// high byte first.
proof fn lemma_dma_out_dram(s: DataState, coef: Seq<u16>, ram: Seq<u8>, rb: int, db: int, k: nat)
    requires
        s.dram.len() == 0x1000,
        0 <= db,
        db + k <= 0x1000,
        0 <= rb,
        rb + 2 * k <= ram.len(),
    ensures
        ({
            let (r, out) = dma_out_dmem(s, coef, ram, rb, db, k);
            &&& r == s
            &&& out.len() == ram.len()
            &&& forall|p: int| 0 <= p < ram.len() ==> #[trigger] out[p] == if rb <= p < rb + 2 * k {
                let w = s.dram[db + (p - rb) / 2];
                if (p - rb) % 2 == 0 { (w >> 8u16) as u8 } else { w as u8 }
            } else {
                ram[p]
            }
        }),
    decreases k,
{
    if k > 0 {
        lemma_dma_out_dram(s, coef, ram, rb, db, (k - 1) as nat);
    }
}

/// The bytes of a big-endian word.
proof fn lemma_be_bytes(a: u8, b: u8)
    by (bit_vector)
    ensures
        ((((a as u16) * 256 + (b as u16)) as u16) >> 8u16) as u8 == a,
        (((a as u16) * 256 + (b as u16)) as u16) as u8 == b,
{
}

/// A DMA from main RAM into data RAM and back out to main RAM copies the bytes: what lands
/// at the second place is what was at the first.
pub proof fn law_dma_roundtrip(s: DataState, coef: Seq<u16>, ram: Seq<u8>, rb: int, rb2: int, db: int, n: nat, p: int)
    requires
        s.dram.len() == 0x1000,
        0 <= db,
        db + n <= 0x1000,
        0 <= rb,
        rb + 2 * n <= ram.len(),
        0 <= rb2,
        rb2 + 2 * n <= ram.len(),
        0 <= p < 2 * n,
    ensures
        dma_out_dmem(dma_in_dmem(s, ram, rb, db, n), coef, ram, rb2, db, n).1[rb2 + p] == ram[rb + p],
{
    let s1 = dma_in_dmem(s, ram, rb, db, n);
    lemma_dma_in_dram(s, ram, rb, db, n);
    lemma_dma_out_dram(s1, coef, ram, rb2, db, n);
    let q = p / 2;
    assert(s1.dram[db + q] == be_word(ram, rb + 2 * q));
    lemma_be_bytes(ram[rb + 2 * q], ram[rb + 2 * q + 1]);
    assert((rb2 + p - rb2) / 2 == q);
    if p % 2 == 0 {
        assert(rb + 2 * q == rb + p);
    } else {
        assert(rb + 2 * q + 1 == rb + p);
    }
}

} // verus!
