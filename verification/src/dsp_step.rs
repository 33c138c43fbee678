//! One step of the DSP interpreter: the loop and interrupt checks, fetching and decoding the
//! instruction at the program counter, running its opcode and extension, and moving the
//! program counter on or counting down a repeated instruction.
use crate::dsp::{
    can_write, flag, reg_at, reg_value, stack4_items, stack4_last, stack4_len, stack4_new, stack8_items, stack8_last, stack8_len,
    stack8_new, Reg, Registers,
};
use crate::dsp_bus::{
    accel_can_step, aram_index, data_state, mmio_read_ok, mmio_readable, mmio_writable, mmio_write_ok, pair_read_ok,
    read_dmem_ok, read_dmem_spec, write_dmem_ok, can_load, interrupt_checked, interrupt_ok, Bus,
};
use crate::dsp_exec::{acc_bit, cond_in, scaled_fits, spec_read_imem, stacks_checked, stacks_ok, sub_from_addr_reg, Interpreter};
use crate::dsp_effects::{extension_ok, extension_ran, opcode_ok, opcode_ran};
use crate::dsp_ins::{spec_decoded, Decoded, ExtensionOpcode, Ins, Opcode};
use vstd::prelude::*;

verus! {

/// Why a step was not carried out.
#[derive(Debug, Clone, Copy, PartialEq, Eq, Structural)]
pub enum StepFault {
    /// The opcode or extension has no handler in this interpreter: `loop`, `loopi`, `rti`,
    /// `srrn`, `srs`, `srsh` and the store extensions.
    Unsupported,
    /// The instruction cannot run in this state: a stack would over- or underflow, a jump
    /// target or loop end would leave the address range, a product would overflow, a
    /// register that cannot be read or written would be reached, or the extension is illegal.
    Refused,
}

/// The instruction at the program counter: its first word and, where the opcode takes one,
/// the word after it.
pub open spec fn fetched(i: Interpreter) -> Ins {
    let base = spec_read_imem(i.mem, i.regs.pc);
    Ins {
        base,
        extra: if spec_decoded(base).needs_extra { spec_read_imem(i.mem, i.regs.pc.wrapping_add(1)) } else { 0 },
    }
}

/// Whether the interpreter runs this opcode.
pub open spec fn opcode_supported(op: Opcode) -> bool {
    !(op == Opcode::Loop || op == Opcode::Loopi || op == Opcode::Rti || op == Opcode::Srrn || op == Opcode::Srs
        || op == Opcode::Srsh)
}

/// Whether the interpreter runs this extension (the loads, the register steps and moves).
pub open spec fn extension_supported(e: ExtensionOpcode) -> bool {
    e == ExtensionOpcode::Nop || e == ExtensionOpcode::Dr || e == ExtensionOpcode::Ir || e == ExtensionOpcode::Nr
        || e == ExtensionOpcode::Mv || e == ExtensionOpcode::L || e == ExtensionOpcode::Ln || e == ExtensionOpcode::Ld
        || e == ExtensionOpcode::Ldm || e == ExtensionOpcode::Ldn || e == ExtensionOpcode::Ldnm
        || e == ExtensionOpcode::Illegal
}

/// The program counter and loop counter after an instruction of `len` words ran in `i`:
/// counting down a repeated instruction, moving past it once the count is out, or moving on
/// by the instruction's length.
pub open spec fn advanced(i: Interpreter, len: u16) -> (u16, Option<u16>) {
    match i.loop_counter {
        Some(c) => if c == 0 {
            ((i.regs.pc + 1) as u16, None)
        } else {
            (i.regs.pc, Some((c - 1) as u16))
        },
        None => (i.regs.pc.wrapping_add(len), None),
    }
}

/// Whether `a` and `a_bus` are `s` and `bus` after the checks that come before each
/// instruction, the loop check having left the registers `m`: unless an instruction is being
/// repeated, the external interrupt check follows.
pub open spec fn prepared(s: Interpreter, bus: Bus, m: Registers, a: Interpreter, a_bus: Bus) -> bool {
    &&& if s.loop_counter is None {
        interrupt_checked(m, bus.mmio, a.regs, a_bus.mmio)
    } else {
        a.regs == m && a_bus.mmio == bus.mmio
    }
    &&& a.mem == s.mem
    &&& a.accel == s.accel
    &&& a.loop_counter == s.loop_counter
    &&& a.old_reset_high == s.old_reset_high
    &&& a_bus.ram == bus.ram
    &&& a_bus.aram == bus.aram
}

/// Whether the interrupt check cannot run after the loop check left the registers `m`: no
/// instruction is being repeated, and an interrupt to raise finds a stack full.
pub open spec fn interrupt_blocked(s: Interpreter, bus: Bus, m: Registers) -> bool {
    s.loop_counter is None && !interrupt_ok(m, bus.mmio)
}

/// How many words an instruction decoded as `d` takes.
pub open spec fn ins_len(d: Decoded) -> u16 {
    if d.needs_extra {
        2
    } else {
        1
    }
}

/// Whether `prev` holds the registers of `regs` that extensions read: all but the stacks,
/// which it holds empty.
pub open spec fn extension_view_of(prev: Registers, regs: Registers) -> bool {
    &&& prev == (Registers {
        call_stack: prev.call_stack,
        data_stack: prev.data_stack,
        loop_stack: prev.loop_stack,
        loop_count: prev.loop_count,
        ..regs
    })
    &&& stack8_items(prev.call_stack) == Seq::<u16>::empty()
    &&& stack4_items(prev.data_stack) == Seq::<u16>::empty()
    &&& stack4_items(prev.loop_stack) == Seq::<u16>::empty()
    &&& stack4_items(prev.loop_count) == Seq::<u16>::empty()
}

/// What a step from the prepared state `a` and `a_bus` ends in, with result `r` and final
/// state `f` and `f_bus`, when the instruction at the program counter runs: an opcode
/// without a handler makes the step unsupported, and one that cannot run refuses it, both
/// leaving the state as it is. Otherwise the opcode runs; then its extension, against the
/// registers as they were before the opcode, is unsupported, refused or runs in the same
/// way; last, the program counter or the repeat counter moves as [`advanced`] says, which is
/// refused where a repeat ends at the last address.
pub open spec fn stepped_from(a: Interpreter, a_bus: Bus, r: Result<(), StepFault>, f: Interpreter, f_bus: Bus) -> bool {
    let ins = fetched(a);
    let d = spec_decoded(ins.base);
    if !opcode_supported(d.opcode) {
        r == Err::<(), StepFault>(StepFault::Unsupported) && f == a && f_bus == a_bus
    } else if !opcode_ok(d.opcode, ins, a, a_bus) {
        r == Err::<(), StepFault>(StepFault::Refused) && f == a && f_bus == a_bus
    } else {
        exists|c: Interpreter, c_bus: Bus, prev: Registers|
            #![trigger opcode_ran(d.opcode, ins, a, a_bus, c, c_bus), extension_view_of(prev, a.regs)]
        {
            &&& opcode_ran(d.opcode, ins, a, a_bus, c, c_bus)
            &&& extension_view_of(prev, a.regs)
            &&& match d.extension {
                Some(x) => if !extension_supported(x) {
                    r == Err::<(), StepFault>(StepFault::Unsupported) && f == c && f_bus == c_bus
                } else if !extension_ok(x, ins, prev, c, c_bus) {
                    r == Err::<(), StepFault>(StepFault::Refused) && f == c && f_bus == c_bus
                } else {
                    exists|e: Interpreter| #[trigger] extension_ran(x, ins, prev, c, c_bus, e, f_bus) && finished(e, ins_len(d), r, f)
                },
                None => f_bus == c_bus && finished(c, ins_len(d), r, f),
            }
        }
    }
}

/// The end of a step from `e`, after an instruction of `len` words ran, with result `r` and
/// final state `f`: refused, leaving `e`, where a repeat ends at the last address; otherwise
/// the program counter or the repeat counter moves as [`advanced`] says.
pub open spec fn finished(e: Interpreter, len: u16, r: Result<(), StepFault>, f: Interpreter) -> bool {
    if e.loop_counter == Some(0u16) && e.regs.pc == 0xFFFF {
        r == Err::<(), StepFault>(StepFault::Refused) && f == e
    } else {
        &&& r == Ok::<(), StepFault>(())
        &&& (f.regs.pc, f.loop_counter) == advanced(e, len)
        &&& f.regs == (Registers { pc: f.regs.pc, ..e.regs })
        &&& f.mem == e.mem
        &&& f.accel == e.accel
        &&& f.old_reset_high == e.old_reset_high
    }
}

/// The registers that extensions read, as they stand: every register but the stacks, which
/// no extension reads, and which the copy leaves empty.
fn extension_view(r: &Registers) -> (s: Registers)
    ensures
        s.pc == r.pc,
        s.addressing == r.addressing,
        s.indexing == r.indexing,
        s.wrapping == r.wrapping,
        s.product == r.product,
        s.acc40 == r.acc40,
        s.acc32 == r.acc32,
        s.config == r.config,
        s.status == r.status,
        extension_view_of(s, *r),
{
    Registers {
        pc: r.pc,
        addressing: r.addressing,
        indexing: r.indexing,
        wrapping: r.wrapping,
        call_stack: stack8_new(),
        data_stack: stack4_new(),
        loop_stack: stack4_new(),
        loop_count: stack4_new(),
        product: r.product,
        acc40: r.acc40,
        acc32: r.acc32,
        config: r.config,
        status: r.status,
    }
}

/// Whether `new` keeps the code memories of `old` and its well-formedness.
pub open spec fn keeps_code(old: Interpreter, new: Interpreter) -> bool {
    &&& new.wf()
    &&& new.mem.iram == old.mem.iram
    &&& new.mem.irom == old.mem.irom
    &&& new.mem.coef == old.mem.coef
}

/// The register whose index is the field of `base` at bit `shift` under `mask`.
fn reg_field(base: u16, shift: u16, mask: u16) -> (r: Reg)
    requires
        shift < 16,
        mask == 7 || mask == 0x1F,
    ensures
        r == reg_at(((base >> shift) & mask) as u8),
{
    proof {
        crate::dsp_exec::lemma_field(base);
    }
    let i = (base >> shift) & mask;
    Reg::new(i as u8)
}

/// The register whose index is the low five bits of `base`.
fn low_reg_of(base: u16) -> (r: Reg)
    ensures
        r == reg_at((base & 0x1F) as u8),
{
    let i = base & 0x1F;
    proof {
        crate::dsp_exec::lemma_field(base);
    }
    Reg::new(i as u8)
}

/// The low two bits of `base`.
fn low2(base: u16) -> (r: usize)
    ensures
        r == (base & 3) as int,
        r < 4,
{
    let i = base & 3;
    proof {
        crate::dsp_exec::lemma_field(base);
    }
    i as usize
}

/// The data address of a register from the low byte of `base`: 0xFF00 on.
fn register_addr(base: u16) -> (r: u16)
    ensures
        r == (0xFF00 + (base & 0xFF)) as u16,
{
    let low = base & 0xFF;
    proof {
        crate::dsp_exec::lemma_field(base);
    }
    0xFF00 + low
}

/// The address register field (two bits) at bit 5 of `base`.
fn addr_field(base: u16) -> (r: usize)
    ensures
        r == ((base >> 5u16) & 3) as int,
        r < 4,
{
    let i = (base >> 5u16) & 3;
    proof {
        crate::dsp_exec::lemma_field(base);
    }
    i as usize
}

/// The short data address of `lrs`: the configuration register as the high byte, the low
/// byte of `base` as the low one.
fn short_addr(config: u8, base: u16) -> (r: u16)
    ensures
        r == (config as int * 256 + (base & 0xFF)) as u16,
{
    let low = base & 0xFF;
    proof {
        crate::dsp_exec::lemma_field(base);
    }
    (config as u16) * 256 + low
}

impl Interpreter {
    /// Fetches and decodes the instruction at the program counter.
    pub fn fetch(&self) -> (r: (Ins, Decoded))
        requires
            self.wf(),
        ensures
            r.0 == fetched(*self),
            r.1 == spec_decoded(r.0.base),
    {
        let base = self.read_imem(self.regs.pc);
        let ins = Ins::new(base);
        let decoded = ins.decoded();
        let ins = if decoded.needs_extra {
            Ins::with_extra(base, self.read_imem(self.regs.pc.wrapping_add(1)))
        } else {
            ins
        };
        (ins, decoded)
    }

    /// Moves the program counter past an instruction of `len` words, or counts down the
    /// instruction being repeated.
    pub fn advance(&mut self, len: u16)
        requires
            old(self).loop_counter == Some(0u16) ==> old(self).regs.pc < 0xFFFF,
        ensures
            (final(self).regs.pc, final(self).loop_counter) == advanced(*old(self), len),
            final(self).regs == (Registers { pc: final(self).regs.pc, ..old(self).regs }),
            final(self).mem == old(self).mem,
            final(self).accel == old(self).accel,
            final(self).old_reset_high == old(self).old_reset_high,
    {
        match self.loop_counter {
            Some(c) => {
                if c == 0 {
                    self.loop_counter = None;
                    self.regs.pc = self.regs.pc + 1;
                } else {
                    self.loop_counter = Some(c - 1);
                }
            },
            None => {
                self.regs.pc = self.regs.pc.wrapping_add(len);
            },
        }
    }

    /// Whether `reg` can take a load: every register but the stacks, and a stack that has room.
    fn can_load_reg(&self, reg: Reg) -> (r: bool)
        ensures
            r == can_load(self.regs, reg),
    {
        match reg {
            Reg::CallStack => stack8_len(&self.regs.call_stack) < 8,
            Reg::DataStack => stack4_len(&self.regs.data_stack) < 4,
            Reg::LoopCount => stack4_len(&self.regs.loop_count) < 4,
            _ => true,
        }
    }

    /// Whether a return can pop an address of at least one.
    fn can_return(&self) -> (r: bool)
        ensures
            r == (stack8_items(self.regs.call_stack).len() > 0 && stack8_items(self.regs.call_stack).last() >= 1),
    {
        match stack8_last(&self.regs.call_stack) {
            Some(a) => a >= 1,
            None => false,
        }
    }

    /// Whether a block loop can push its entries.
    fn loop_room(&self) -> (r: bool)
        ensures
            r == (stack8_items(self.regs.call_stack).len() < 8 && stack4_items(self.regs.loop_stack).len() < 4
                && stack4_items(self.regs.loop_count).len() < 4),
    {
        stack8_len(&self.regs.call_stack) < 8 && stack4_len(&self.regs.loop_stack) < 4
            && stack4_len(&self.regs.loop_count) < 4
    }

    /// Whether the product `m`, doubled unless the status register says not to, fits 32 bits.
    fn product_fits(&self, m: i32) -> (r: bool)
        requires
            -0x4000_0000 < m <= 0x4000_0000,
        ensures
            r == scaled_fits(self.regs.status.bits, m as int),
    {
        self.regs.status.dont_double_result() || m < 0x4000_0000
    }

    /// Whether the accelerator can step from ARAM address `curr`.
    fn accel_ok(bus: &Bus, curr: u32) -> (r: bool)
        ensures
            r == (aram_index(curr) + 2 <= bus.aram@.len() && curr < u32::MAX),
    {
        curr < u32::MAX && ((curr & 0x7FFF_FFFF) as usize) <= bus.aram.len() && bus.aram.len() - ((curr & 0x7FFF_FFFF) as usize) >= 2
    }

    /// Whether reading data memory at `addr` succeeds.
    fn dmem_read_ok(&self, bus: &Bus, addr: u16) -> (r: bool)
        ensures
            r == read_dmem_ok(data_state(*self, *bus), addr),
    {
        if addr < 0xFF00 {
            return true;
        }
        let off = (addr - 0xFF00) as u8;
        let readable = off == 0xC9 || off == 0xCB || off == 0xCD || off == 0xCE || off == 0xCF
            || (0xD3 <= off && off <= 0xDE) || 0xFC <= off;
        if !readable {
            return false;
        }
        if off == 0xD3 {
            Self::accel_ok(bus, self.accel.aram_curr)
        } else {
            true
        }
    }

    /// Whether writing `value` to data memory at `addr` succeeds.
    fn dmem_write_ok(&self, bus: &Bus, addr: u16, value: u16) -> (r: bool)
        ensures
            r == write_dmem_ok(data_state(*self, *bus), addr, value),
    {
        if addr < 0xFF00 {
            return true;
        }
        let off = (addr - 0xFF00) as u8;
        let writable = (0xA0 <= off && off <= 0xAF) || off == 0xC9 || off == 0xCB || off == 0xCD || off == 0xCE
            || off == 0xCF || off == 0xD1 || (0xD3 <= off && off <= 0xDC) || off == 0xDE || off == 0xFB || off == 0xFC
            || off == 0xFD;
        if !writable {
            return false;
        }
        if off == 0xD3 && !Self::accel_ok(bus, self.accel.aram_curr) {
            return false;
        }
        !(off == 0xFC && value >= 0x8000)
    }

    /// Whether the two reads of a paired extension load succeed: from address register `a`
    /// and then from address register 3.
    fn pair_ok(&self, bus: &Bus, prev: &Registers, base: u16) -> (r: bool)
        ensures
            r == pair_read_ok(data_state(*self, *bus), self.mem.coef@, *prev, base),
    {
        let a = prev.addressing[low2(base)];
        let b = prev.addressing[3];
        if !self.dmem_read_ok(bus, a) {
            return false;
        }
        if b < 0xFF00 {
            return true;
        }
        let off = (b - 0xFF00) as u8;
        let readable = off == 0xC9 || off == 0xCB || off == 0xCD || off == 0xCE || off == 0xCF
            || (0xD3 <= off && off <= 0xDE) || 0xFC <= off;
        if !readable {
            return false;
        }
        if off != 0xD3 {
            return true;
        }
        let curr = if a == 0xFFD3 { self.accel.aram_curr + 1 } else { self.accel.aram_curr };
        Self::accel_ok(bus, curr)
    }

    /// Runs the opcode of `ins`.
    #[verifier::rlimit(100)]
    #[verifier::spinoff_prover]
    fn execute_opcode(&mut self, bus: &mut Bus, ins: Ins, op: Opcode) -> (r: Result<(), StepFault>)
        requires
            old(self).wf(),
        ensures
            keeps_code(*old(self), *final(self)),
            final(self).loop_counter == old(self).loop_counter,
            r == Err::<(), StepFault>(StepFault::Unsupported) <==> !opcode_supported(op),
            r == Err::<(), StepFault>(StepFault::Refused) <==> opcode_supported(op) && !opcode_ok(op, ins, *old(self), *old(bus)),
            r is Err ==> *final(self) == *old(self) && *final(bus) == *old(bus),
            r is Ok ==> opcode_ran(op, ins, *old(self), *old(bus), *final(self), *final(bus)),
    {
        match op {
            Opcode::Add => {
                self.add(ins);
                Ok(())
            },
            Opcode::Sub => {
                self.sub(ins);
                Ok(())
            },
            Opcode::Addax => {
                self.addax(ins);
                Ok(())
            },
            Opcode::Subax => {
                self.subax(ins);
                Ok(())
            },
            Opcode::Addaxl => {
                self.addaxl(ins);
                Ok(())
            },
            Opcode::Addi => {
                self.addi(ins);
                Ok(())
            },
            Opcode::Addis => {
                self.addis(ins);
                Ok(())
            },
            Opcode::Addr => {
                self.addr(ins);
                Ok(())
            },
            Opcode::Subr => {
                self.subr(ins);
                Ok(())
            },
            Opcode::Inc => {
                self.inc(ins);
                Ok(())
            },
            Opcode::Dec => {
                self.dec(ins);
                Ok(())
            },
            Opcode::Incm => {
                self.incm(ins);
                Ok(())
            },
            Opcode::Decm => {
                self.decm(ins);
                Ok(())
            },
            Opcode::Cmp => {
                self.cmp(ins);
                Ok(())
            },
            Opcode::Cmpi => {
                self.cmpi(ins);
                Ok(())
            },
            Opcode::Cmpis => {
                self.cmpis(ins);
                Ok(())
            },
            Opcode::Cmpaxh => {
                self.cmpaxh(ins);
                Ok(())
            },
            Opcode::Clr => {
                self.clr(ins);
                Ok(())
            },
            Opcode::Clrl => {
                self.clrl(ins);
                Ok(())
            },
            Opcode::Mov => {
                self.mov(ins);
                Ok(())
            },
            Opcode::Movax => {
                self.movax(ins);
                Ok(())
            },
            Opcode::Movr => {
                self.movr(ins);
                Ok(())
            },
            Opcode::Neg => {
                self.neg(ins);
                Ok(())
            },
            Opcode::Abs => {
                self.abs(ins);
                Ok(())
            },
            Opcode::Movp => {
                self.movp(ins);
                Ok(())
            },
            Opcode::Movnp => {
                self.movnp(ins);
                Ok(())
            },
            Opcode::Movpz => {
                self.movpz(ins);
                Ok(())
            },
            Opcode::Asl => {
                self.asl(ins);
                Ok(())
            },
            Opcode::Lsl => {
                self.lsl(ins);
                Ok(())
            },
            Opcode::Asr => {
                self.asr(ins);
                Ok(())
            },
            Opcode::Lsr => {
                self.lsr(ins);
                Ok(())
            },
            Opcode::Lsl16 => {
                self.lsl16(ins);
                Ok(())
            },
            Opcode::Lsr16 => {
                self.lsr16(ins);
                Ok(())
            },
            Opcode::Asr16 => {
                self.asr16(ins);
                Ok(())
            },
            Opcode::Tst => {
                self.tst(ins);
                Ok(())
            },
            Opcode::Tstprod => {
                self.tstprod(ins);
                Ok(())
            },
            Opcode::Andi => {
                self.andi(ins);
                Ok(())
            },
            Opcode::Ori => {
                self.ori(ins);
                Ok(())
            },
            Opcode::Xori => {
                self.xori(ins);
                Ok(())
            },
            Opcode::Andc => {
                self.andc(ins);
                Ok(())
            },
            Opcode::Orc => {
                self.orc(ins);
                Ok(())
            },
            Opcode::Xorc => {
                self.xorc(ins);
                Ok(())
            },
            Opcode::Andr => {
                self.andr(ins);
                Ok(())
            },
            Opcode::Orr => {
                self.orr(ins);
                Ok(())
            },
            Opcode::Xorr => {
                self.xorr(ins);
                Ok(())
            },
            Opcode::Not => {
                self.not(ins);
                Ok(())
            },
            Opcode::M0 => {
                self.m0(ins);
                Ok(())
            },
            Opcode::M2 => {
                self.m2(ins);
                Ok(())
            },
            Opcode::Clr15 => {
                self.clr15(ins);
                Ok(())
            },
            Opcode::Set15 => {
                self.set15(ins);
                Ok(())
            },
            Opcode::Set16 => {
                self.set16(ins);
                Ok(())
            },
            Opcode::Set40 => {
                self.set40(ins);
                Ok(())
            },
            Opcode::Sbclr => {
                self.sbclr(ins);
                Ok(())
            },
            Opcode::Sbset => {
                self.sbset(ins);
                Ok(())
            },
            Opcode::Andf => {
                self.andf(ins);
                Ok(())
            },
            Opcode::Andcf => {
                self.andcf(ins);
                Ok(())
            },
            Opcode::Tstaxh => {
                self.tstaxh(ins);
                Ok(())
            },
            Opcode::Clrp => {
                self.clrp(ins);
                Ok(())
            },
            Opcode::Addp => {
                self.addp(ins);
                Ok(())
            },
            Opcode::Subp => {
                self.subp(ins);
                Ok(())
            },
            Opcode::Addpaxz => {
                self.addpaxz(ins);
                Ok(())
            },
            Opcode::Iar => {
                self.iar(ins);
                Ok(())
            },
            Opcode::Dar => {
                self.dar(ins);
                Ok(())
            },
            Opcode::Addarn => {
                self.addarn(ins);
                Ok(())
            },
            Opcode::Subarn => {
                self.subarn(ins);
                Ok(())
            },
            Opcode::Mulaxh => {
                self.mulaxh(ins);
                Ok(())
            },
            Opcode::Mulx => {
                self.mulx(ins);
                Ok(())
            },
            Opcode::Mulxac => {
                self.mulxac(ins);
                Ok(())
            },
            Opcode::Mulxmv => {
                self.mulxmv(ins);
                Ok(())
            },
            Opcode::Mulxmvz => {
                self.mulxmvz(ins);
                Ok(())
            },
            Opcode::Asrn => {
                self.asrn(ins);
                Ok(())
            },
            Opcode::Lsrn => {
                self.lsrn(ins);
                Ok(())
            },
            Opcode::Asrnr => {
                self.asrnr(ins);
                Ok(())
            },
            Opcode::Lsrnr => {
                self.lsrnr(ins);
                Ok(())
            },
            Opcode::Asrnrx => {
                self.asrnrx(ins);
                Ok(())
            },
            Opcode::Lsrnrx => {
                self.lsrnrx(ins);
                Ok(())
            },
            Opcode::Lris => {
                self.lris(ins);
                Ok(())
            },
            Opcode::If => {
                if self.condition(cond_in(ins.base)) || self.regs.pc < 0xFFFF {
                    self.ifcc(ins);
                    Ok(())
                } else {
                    Err(StepFault::Refused)
                }
            },
            Opcode::Jmp => {
                if !self.condition(cond_in(ins.base)) || ins.extra >= 2 {
                    self.jmp(ins);
                    Ok(())
                } else {
                    Err(StepFault::Refused)
                }
            },
            Opcode::Jr => {
                if !self.condition(cond_in(ins.base)) || self.regs.get(reg_field(ins.base, 5, 7)) >= 1 {
                    self.jmpr(ins);
                    Ok(())
                } else {
                    Err(StepFault::Refused)
                }
            },
            Opcode::Call => {
                if !self.condition(cond_in(ins.base)) || (ins.extra >= 2 && stack8_len(&self.regs.call_stack) < 8) {
                    self.call(ins);
                    Ok(())
                } else {
                    Err(StepFault::Refused)
                }
            },
            Opcode::Callr => {
                if !self.condition(cond_in(ins.base)) || (self.regs.get(reg_field(ins.base, 5, 7)) >= 1 && stack8_len(&self.regs.call_stack) < 8) {
                    self.callr(ins);
                    Ok(())
                } else {
                    Err(StepFault::Refused)
                }
            },
            Opcode::Ret => {
                if !self.condition(cond_in(ins.base)) || self.can_return() {
                    self.ret(ins);
                    Ok(())
                } else {
                    Err(StepFault::Refused)
                }
            },
            Opcode::Mrr => {
                if self.can_load_reg(reg_field(ins.base, 5, 0x1F)) {
                    self.mrr(ins);
                    Ok(())
                } else {
                    Err(StepFault::Refused)
                }
            },
            Opcode::Lri => {
                if self.can_load_reg(low_reg_of(ins.base)) {
                    self.lri(ins);
                    Ok(())
                } else {
                    Err(StepFault::Refused)
                }
            },
            Opcode::Bloop => {
                if ins.extra < 0xFFFF && self.loop_room() {
                    self.bloop(ins);
                    Ok(())
                } else {
                    Err(StepFault::Refused)
                }
            },
            Opcode::Bloopi => {
                if ins.extra < 0xFFFF && self.loop_room() {
                    self.bloopi(ins);
                    Ok(())
                } else {
                    Err(StepFault::Refused)
                }
            },
            Opcode::Mul => {
                if self.product_fits(self.halves(acc_bit(ins.base, 11))) {
                    self.mul(ins);
                    Ok(())
                } else {
                    Err(StepFault::Refused)
                }
            },
            Opcode::Mulac => {
                if self.product_fits(self.halves(acc_bit(ins.base, 11))) {
                    self.mulac(ins);
                    Ok(())
                } else {
                    Err(StepFault::Refused)
                }
            },
            Opcode::Mulmv => {
                if self.product_fits(self.halves(acc_bit(ins.base, 11))) {
                    self.mulmv(ins);
                    Ok(())
                } else {
                    Err(StepFault::Refused)
                }
            },
            Opcode::Mulmvz => {
                if self.product_fits(self.halves(acc_bit(ins.base, 11))) {
                    self.mulmvz(ins);
                    Ok(())
                } else {
                    Err(StepFault::Refused)
                }
            },
            Opcode::Mulc => {
                if self.product_fits(self.mid_high(acc_bit(ins.base, 12), acc_bit(ins.base, 11))) {
                    self.mulc(ins);
                    Ok(())
                } else {
                    Err(StepFault::Refused)
                }
            },
            Opcode::Mulcac => {
                if self.product_fits(self.mid_high(acc_bit(ins.base, 12), acc_bit(ins.base, 11))) {
                    self.mulcac(ins);
                    Ok(())
                } else {
                    Err(StepFault::Refused)
                }
            },
            Opcode::Mulcmv => {
                if self.product_fits(self.mid_high(acc_bit(ins.base, 12), acc_bit(ins.base, 11))) {
                    self.mulcmv(ins);
                    Ok(())
                } else {
                    Err(StepFault::Refused)
                }
            },
            Opcode::Mulcmvz => {
                if self.product_fits(self.mid_high(acc_bit(ins.base, 12), acc_bit(ins.base, 11))) {
                    self.mulcmvz(ins);
                    Ok(())
                } else {
                    Err(StepFault::Refused)
                }
            },
            Opcode::Madd => {
                if self.product_fits(self.halves(acc_bit(ins.base, 8))) {
                    self.madd(ins);
                    Ok(())
                } else {
                    Err(StepFault::Refused)
                }
            },
            Opcode::Msub => {
                if self.product_fits(self.halves(acc_bit(ins.base, 8))) {
                    self.msub(ins);
                    Ok(())
                } else {
                    Err(StepFault::Refused)
                }
            },
            Opcode::Maddc => {
                if self.product_fits(self.mid_high(acc_bit(ins.base, 9), acc_bit(ins.base, 8))) {
                    self.maddc(ins);
                    Ok(())
                } else {
                    Err(StepFault::Refused)
                }
            },
            Opcode::Msubc => {
                if self.product_fits(self.mid_high(acc_bit(ins.base, 9), acc_bit(ins.base, 8))) {
                    self.msubc(ins);
                    Ok(())
                } else {
                    Err(StepFault::Refused)
                }
            },
            Opcode::Maddx => {
                if self.product_fits(self.cross_halves(ins.base)) {
                    self.maddx(ins);
                    Ok(())
                } else {
                    Err(StepFault::Refused)
                }
            },
            Opcode::Msubx => {
                if self.product_fits(self.cross_halves(ins.base)) {
                    self.msubx(ins);
                    Ok(())
                } else {
                    Err(StepFault::Refused)
                }
            },
            Opcode::Halt => {
                self.halt(bus, ins);
                Ok(())
            },
            Opcode::Lr => {
                if self.dmem_read_ok(bus, ins.extra) && self.can_load_reg(low_reg_of(ins.base)) {
                    self.lr(bus, ins);
                    Ok(())
                } else {
                    Err(StepFault::Refused)
                }
            },
            Opcode::Lrr => {
                if self.dmem_read_ok(bus, self.regs.addressing[addr_field(ins.base)]) && self.can_load_reg(low_reg_of(ins.base)) {
                    self.lrr(bus, ins);
                    Ok(())
                } else {
                    Err(StepFault::Refused)
                }
            },
            Opcode::Lrrd => {
                if self.dmem_read_ok(bus, self.regs.addressing[addr_field(ins.base)]) && self.can_load_reg(low_reg_of(ins.base)) {
                    self.lrrd(bus, ins);
                    Ok(())
                } else {
                    Err(StepFault::Refused)
                }
            },
            Opcode::Lrri => {
                if self.dmem_read_ok(bus, self.regs.addressing[addr_field(ins.base)]) && self.can_load_reg(low_reg_of(ins.base)) {
                    self.lrri(bus, ins);
                    Ok(())
                } else {
                    Err(StepFault::Refused)
                }
            },
            Opcode::Lrrn => {
                if self.dmem_read_ok(bus, self.regs.addressing[addr_field(ins.base)]) && self.can_load_reg(low_reg_of(ins.base)) {
                    self.lrrn(bus, ins);
                    Ok(())
                } else {
                    Err(StepFault::Refused)
                }
            },
            Opcode::Lrs => {
                if self.dmem_read_ok(bus, short_addr(self.regs.config, ins.base)) {
                    self.lrs(bus, ins);
                    Ok(())
                } else {
                    Err(StepFault::Refused)
                }
            },
            Opcode::Ilrr => {
                self.ilrr(ins);
                Ok(())
            },
            Opcode::Ilrrd => {
                self.ilrrd(ins);
                Ok(())
            },
            Opcode::Ilrri => {
                self.ilrri(ins);
                Ok(())
            },
            Opcode::Ilrrn => {
                self.ilrrn(ins);
                Ok(())
            },
            Opcode::Si => {
                if self.dmem_write_ok(bus, register_addr(ins.base), ins.extra) {
                    self.si(bus, ins);
                    Ok(())
                } else {
                    Err(StepFault::Refused)
                }
            },
            Opcode::Sr => {
                if self.dmem_write_ok(bus, ins.extra, self.regs.get(low_reg_of(ins.base))) {
                    self.sr(bus, ins);
                    Ok(())
                } else {
                    Err(StepFault::Refused)
                }
            },
            Opcode::Srr => {
                if self.dmem_write_ok(bus, self.regs.addressing[addr_field(ins.base)], self.regs.get(low_reg_of(ins.base))) {
                    self.srr(bus, ins);
                    Ok(())
                } else {
                    Err(StepFault::Refused)
                }
            },
            Opcode::Srri => {
                if self.dmem_write_ok(bus, self.regs.addressing[addr_field(ins.base)], self.regs.get(low_reg_of(ins.base))) {
                    self.srri(bus, ins);
                    Ok(())
                } else {
                    Err(StepFault::Refused)
                }
            },
            Opcode::Srrd => {
                if self.dmem_write_ok(bus, sub_from_addr_reg(self.regs.addressing[addr_field(ins.base)], self.regs.wrapping[addr_field(ins.base)], 1), self.regs.get(low_reg_of(ins.base))) {
                    self.srrd(bus, ins);
                    Ok(())
                } else {
                    Err(StepFault::Refused)
                }
            },
            Opcode::Nop | Opcode::Nx | Opcode::Illegal => Ok(()),
            Opcode::Loop | Opcode::Loopi | Opcode::Rti | Opcode::Srrn | Opcode::Srs | Opcode::Srsh => Err(StepFault::Unsupported),

        }
    }

    /// Runs the extension `e` of `ins`, with the registers as they were before its opcode ran.
    fn execute_extension(&mut self, bus: &mut Bus, ins: Ins, e: ExtensionOpcode, prev: &Registers) -> (r: Result<(), StepFault>)
        requires
            old(self).wf(),
        ensures
            keeps_code(*old(self), *final(self)),
            final(self).loop_counter == old(self).loop_counter,
            r == Err::<(), StepFault>(StepFault::Unsupported) <==> !extension_supported(e),
            r == Err::<(), StepFault>(StepFault::Refused) <==> extension_supported(e) && !extension_ok(e, ins, *prev, *old(self), *old(bus)),
            r is Err ==> *final(self) == *old(self) && *final(bus) == *old(bus),
            r is Ok ==> extension_ran(e, ins, *prev, *old(self), *old(bus), *final(self), *final(bus)),
    {
        match e {
            ExtensionOpcode::Nop => Ok(()),
            ExtensionOpcode::Dr => {
                self.ext_dr(ins, prev);
                Ok(())
            },
            ExtensionOpcode::Ir => {
                self.ext_ir(ins, prev);
                Ok(())
            },
            ExtensionOpcode::Nr => {
                self.ext_nr(ins, prev);
                Ok(())
            },
            ExtensionOpcode::Mv => {
                self.ext_mv(ins, prev);
                Ok(())
            },
            ExtensionOpcode::L => {
                if self.dmem_read_ok(bus, prev.addressing[low2(ins.base)]) {
                    self.ext_l(bus, ins, prev);
                    Ok(())
                } else {
                    Err(StepFault::Refused)
                }
            },
            ExtensionOpcode::Ln => {
                if self.dmem_read_ok(bus, prev.addressing[low2(ins.base)]) {
                    self.ext_ln(bus, ins, prev);
                    Ok(())
                } else {
                    Err(StepFault::Refused)
                }
            },
            ExtensionOpcode::Ld => {
                if self.pair_ok(bus, prev, ins.base) {
                    self.ext_ld(bus, ins, prev);
                    Ok(())
                } else {
                    Err(StepFault::Refused)
                }
            },
            ExtensionOpcode::Ldm => {
                if self.pair_ok(bus, prev, ins.base) {
                    self.ext_ldm(bus, ins, prev);
                    Ok(())
                } else {
                    Err(StepFault::Refused)
                }
            },
            ExtensionOpcode::Ldn => {
                if self.pair_ok(bus, prev, ins.base) {
                    self.ext_ldn(bus, ins, prev);
                    Ok(())
                } else {
                    Err(StepFault::Refused)
                }
            },
            ExtensionOpcode::Ldnm => {
                if self.pair_ok(bus, prev, ins.base) {
                    self.ext_ldnm(bus, ins, prev);
                    Ok(())
                } else {
                    Err(StepFault::Refused)
                }
            },
            ExtensionOpcode::Illegal => Err(StepFault::Refused),
            _ => Err(StepFault::Unsupported),
        }
    }

    /// Runs one instruction, unless the DSP is halted: the loop check, the external interrupt
    /// check when no instruction is being repeated, then the instruction at the program
    /// counter, its extension against the registers as they were before it, and the move of
    /// the program counter or the repeat counter. A step that cannot run (see [`StepFault`])
    /// leaves the state as far as it got.
    pub fn step(&mut self, bus: &mut Bus) -> (r: Result<(), StepFault>)
        requires
            old(self).wf(),
        ensures
            flag(old(bus).mmio.control.0, 2) ==> r == Ok::<(), StepFault>(()) && *final(self) == *old(self)
                && *final(bus) == *old(bus),
            keeps_code(*old(self), *final(self)),
            !flag(old(bus).mmio.control.0, 2) && !stacks_ok(old(self).regs) ==> r == Err::<(), StepFault>(StepFault::Refused)
                && *final(self) == *old(self) && *final(bus) == *old(bus),
            !flag(old(bus).mmio.control.0, 2) && stacks_ok(old(self).regs) ==> exists|m: Registers|
                #[trigger] stacks_checked(old(self).regs, m) && if interrupt_blocked(*old(self), *old(bus), m) {
                    r == Err::<(), StepFault>(StepFault::Refused) && *final(self) == (Interpreter { regs: m, ..*old(self) })
                        && *final(bus) == *old(bus)
                } else {
                    exists|a: Interpreter, ab: Bus| #[trigger] prepared(*old(self), *old(bus), m, a, ab)
                        && stepped_from(a, ab, r, *final(self), *final(bus))
                },
    {
        if bus.mmio.control.halt() {
            return Ok(());
        }
        let ready = match stack4_last(&self.regs.loop_stack) {
            Some(end) => end != self.regs.pc || match stack4_last(&self.regs.loop_count) {
                Some(count) => count <= 1 || stack8_len(&self.regs.call_stack) > 0,
                None => false,
            },
            None => true,
        };
        if !ready {
            return Err(StepFault::Refused);
        }
        let ghost s0 = *self;
        let ghost b0 = *bus;
        self.check_stacks();
        let ghost m = self.regs;
        proof {
            assert(stacks_checked(s0.regs, m));
        }
        if self.loop_counter.is_none() {
            if bus.mmio.control.interrupt() && self.regs.status.external_interrupt_enable()
                && !(stack8_len(&self.regs.call_stack) < 8 && stack4_len(&self.regs.data_stack) < 4) {
                proof {
                    assert(interrupt_blocked(s0, b0, m));
                    assert(*self == (Interpreter { regs: m, ..s0 }));
                }
                return Err(StepFault::Refused);
            }
            self.check_external_interrupt(bus);
        }
        let ghost a = *self;
        let ghost ab = *bus;
        proof {
            assert(!interrupt_blocked(s0, b0, m));
            assert(prepared(s0, b0, m, a, ab));
        }
        let (ins, decoded) = self.fetch();
        let len: u16 = if decoded.needs_extra { 2 } else { 1 };
        let prev = extension_view(&self.regs);
        match self.execute_opcode(bus, ins, decoded.opcode) {
            Ok(()) => {},
            Err(f) => {
                proof {
                    assert(stepped_from(a, ab, Err(f), *self, *bus));
                }
                return Err(f);
            },
        }
        let ghost c = *self;
        let ghost cb = *bus;
        proof {
            assert(opcode_ran(decoded.opcode, ins, a, ab, c, cb));
            assert(extension_view_of(prev, a.regs));
        }
        match decoded.extension {
            Some(x) => match self.execute_extension(bus, ins, x, &prev) {
                Ok(()) => {},
                Err(f) => {
                    proof {
                        assert(stepped_from(a, ab, Err(f), *self, *bus));
                    }
                    return Err(f);
                },
            },
            None => {},
        }
        let ghost e = *self;
        let ghost eb = *bus;
        if self.loop_counter == Some(0u16) && self.regs.pc == 0xFFFF {
            proof {
                assert(finished(e, ins_len(decoded), Err(StepFault::Refused), *self));
                if let Some(x) = decoded.extension {
                    assert(extension_ran(x, ins, prev, c, cb, e, eb));
                }
                assert(stepped_from(a, ab, Err(StepFault::Refused), *self, *bus));
            }
            return Err(StepFault::Refused);
        }
        self.advance(len);
        proof {
            assert(len == ins_len(decoded));
            assert(finished(e, ins_len(decoded), Ok(()), *self));
            if let Some(x) = decoded.extension {
                assert(extension_ran(x, ins, prev, c, cb, e, eb));
            }
            assert(stepped_from(a, ab, Ok(()), *self, *bus));
        }
        Ok(())
    }
}

} // verus!
