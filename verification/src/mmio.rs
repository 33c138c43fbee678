//! The DSP's memory-mapped registers as the CPU sees them: the mailboxes, the control
//! register, and the DSP and ARAM DMA registers.
use crate::dsp::{flag, with_flag};
use vstd::prelude::*;

verus! {

/// A mailbox: 31 bits of data and a status bit telling whether it holds unread data.
#[derive(Debug, Clone, Copy, PartialEq, Eq, Structural)]
pub struct Mailbox(pub u32);

impl Mailbox {
    /// The low half of the data.
    pub fn low(&self) -> (r: u16)
        ensures
            r == self.0 % 0x1_0000,
    {
        (self.0 % 0x1_0000) as u16
    }

    /// The high 15 bits of the data.
    pub fn high(&self) -> (r: u16)
        ensures
            r == (self.0 / 0x1_0000) % 0x8000,
    {
        ((self.0 / 0x1_0000) % 0x8000) as u16
    }

    /// The high half of the register: the high 15 bits of the data and the status bit.
    pub fn high_and_status(&self) -> (r: u16)
        ensures
            r == self.0 / 0x1_0000,
    {
        (self.0 / 0x1_0000) as u16
    }

    /// The 31 bits of data.
    pub fn data(&self) -> (r: u32)
        ensures
            r == self.0 % 0x8000_0000,
    {
        self.0 % 0x8000_0000
    }

    /// Whether the mailbox holds unread data.
    pub fn status(&self) -> (r: bool)
        ensures
            r == (self.0 >= 0x8000_0000),
    {
        self.0 >= 0x8000_0000
    }

    /// Sets the low half of the data.
    pub fn set_low(&mut self, v: u16)
        ensures
            final(self).0 == old(self).0 - old(self).0 % 0x1_0000 + v,
    {
        self.0 = self.0 - self.0 % 0x1_0000 + v as u32;
    }

    /// Sets the high half of the register: the high 15 bits of the data and the status bit.
    pub fn set_high_and_status(&mut self, v: u16)
        ensures
            final(self).0 == v as int * 0x1_0000 + old(self).0 % 0x1_0000,
    {
        self.0 = v as u32 * 0x1_0000 + self.0 % 0x1_0000;
    }

    /// Sets the high 15 bits of the data, keeping the status bit and the low half.
    pub fn set_high(&mut self, v: u16)
        requires
            v < 0x8000,
        ensures
            final(self).0 == (old(self).0 & 0x8000_FFFFu32) | ((v as u32) << 16u32),
    {
        self.0 = (self.0 & 0x8000_FFFF) | ((v as u32) << 16u32);
    }

    /// Sets whether the mailbox holds unread data.
    pub fn set_status(&mut self, v: bool)
        ensures
            final(self).0 == old(self).0 % 0x8000_0000 + (if v { 0x8000_0000int } else { 0 }),
    {
        self.0 = self.0 % 0x8000_0000 + if v { 0x8000_0000u32 } else { 0 };
    }
}

/// The DSP control register.
#[derive(Debug, Clone, Copy, PartialEq, Eq, Structural)]
pub struct Control(pub u16);

impl Control {
    /// The register after reset: only the reset line high.
    pub fn new() -> (r: Control)
        ensures
            r.0 == 0x0800,
            flag(r.0, 11),
    {
        assert(flag(0x0800u16, 11)) by (bit_vector);
        Control(0x0800)
    }

    pub fn reset(&self) -> (r: bool)
        ensures
            r == flag(self.0, 0),
    {
        (self.0 >> 0u16) & 1 == 1
    }

    pub fn interrupt(&self) -> (r: bool)
        ensures
            r == flag(self.0, 1),
    {
        (self.0 >> 1u16) & 1 == 1
    }

    pub fn halt(&self) -> (r: bool)
        ensures
            r == flag(self.0, 2),
    {
        (self.0 >> 2u16) & 1 == 1
    }

    pub fn ai_interrupt(&self) -> (r: bool)
        ensures
            r == flag(self.0, 3),
    {
        (self.0 >> 3u16) & 1 == 1
    }

    pub fn ai_interrupt_mask(&self) -> (r: bool)
        ensures
            r == flag(self.0, 4),
    {
        (self.0 >> 4u16) & 1 == 1
    }

    pub fn aram_interrupt(&self) -> (r: bool)
        ensures
            r == flag(self.0, 5),
    {
        (self.0 >> 5u16) & 1 == 1
    }

    pub fn aram_interrupt_mask(&self) -> (r: bool)
        ensures
            r == flag(self.0, 6),
    {
        (self.0 >> 6u16) & 1 == 1
    }

    pub fn dsp_interrupt(&self) -> (r: bool)
        ensures
            r == flag(self.0, 7),
    {
        (self.0 >> 7u16) & 1 == 1
    }

    pub fn dsp_interrupt_mask(&self) -> (r: bool)
        ensures
            r == flag(self.0, 8),
    {
        (self.0 >> 8u16) & 1 == 1
    }

    pub fn dsp_dma_ongoing(&self) -> (r: bool)
        ensures
            r == flag(self.0, 9),
    {
        (self.0 >> 9u16) & 1 == 1
    }

    pub fn reset_high(&self) -> (r: bool)
        ensures
            r == flag(self.0, 11),
    {
        (self.0 >> 11u16) & 1 == 1
    }

    /// Sets bit `k` of the register.
    pub fn set_bit(&mut self, k: u16, v: bool)
        requires
            k < 16,
        ensures
            final(self).0 == with_flag(old(self).0, k, v),
    {
        self.0 = if v {
            self.0 | (1u16 << k)
        } else {
            self.0 & !(1u16 << k)
        };
    }

    /// Whether an unmasked audio, ARAM or DSP interrupt is raised.
    pub fn any_interrupt(&self) -> (r: bool)
        ensures
            r == ((flag(self.0, 3) && flag(self.0, 4)) || (flag(self.0, 5) && flag(self.0, 6)) || (flag(self.0, 7)
                && flag(self.0, 8))),
    {
        let ai = self.ai_interrupt() && self.ai_interrupt_mask();
        let aram = self.aram_interrupt() && self.aram_interrupt_mask();
        let dsp = self.dsp_interrupt() && self.dsp_interrupt_mask();
        ai || aram || dsp
    }
}

/// Which way an ARAM DMA copies.
#[derive(Debug, Clone, Copy, PartialEq, Eq, Structural)]
pub enum AramDmaDirection {
    FromRamToAram,
    FromAramToRam,
}

/// The ARAM DMA control register: the length of the transfer and its direction.
#[derive(Debug, Clone, Copy, PartialEq, Eq, Structural)]
pub struct AramDmaControl(pub u32);

impl AramDmaControl {
    /// The length of the transfer.
    pub fn length(&self) -> (r: u32)
        ensures
            r == self.0 % 0x8000_0000,
    {
        self.0 % 0x8000_0000
    }

    /// Which way the transfer copies.
    pub fn direction(&self) -> (r: AramDmaDirection)
        ensures
            r == (if self.0 >= 0x8000_0000 { AramDmaDirection::FromAramToRam } else { AramDmaDirection::FromRamToAram }),
    {
        if self.0 >= 0x8000_0000 {
            AramDmaDirection::FromAramToRam
        } else {
            AramDmaDirection::FromRamToAram
        }
    }
}

/// Which way a DSP DMA copies.
#[derive(Debug, Clone, Copy, PartialEq, Eq, Structural)]
pub enum DspDmaDirection {
    FromRamToDsp,
    FromDspToRam,
}

/// Which DSP memory a DSP DMA reaches.
#[derive(Debug, Clone, Copy, PartialEq, Eq, Structural)]
pub enum DspDmaTarget {
    Dmem,
    Imem,
}

/// The DSP DMA control register.
#[derive(Debug, Clone, Copy, PartialEq, Eq, Structural)]
pub struct DspDmaControl(pub u16);

impl DspDmaControl {
    /// Which way the transfer copies: bit 0.
    pub fn direction(&self) -> (r: DspDmaDirection)
        ensures
            r == (if flag(self.0, 0) { DspDmaDirection::FromDspToRam } else { DspDmaDirection::FromRamToDsp }),
    {
        if (self.0 >> 0u16) & 1 == 1 {
            DspDmaDirection::FromDspToRam
        } else {
            DspDmaDirection::FromRamToDsp
        }
    }

    /// Which DSP memory the transfer reaches: bit 1.
    pub fn dsp_target(&self) -> (r: DspDmaTarget)
        ensures
            r == (if flag(self.0, 1) { DspDmaTarget::Imem } else { DspDmaTarget::Dmem }),
    {
        if (self.0 >> 1u16) & 1 == 1 {
            DspDmaTarget::Imem
        } else {
            DspDmaTarget::Dmem
        }
    }

    /// Whether a transfer is ongoing: bit 2.
    pub fn transfer_ongoing(&self) -> (r: bool)
        ensures
            r == flag(self.0, 2),
    {
        (self.0 >> 2u16) & 1 == 1
    }

    /// Sets whether a transfer is ongoing.
    pub fn set_transfer_ongoing(&mut self, v: bool)
        ensures
            final(self).0 == with_flag(old(self).0, 2, v),
    {
        self.0 = if v {
            self.0 | (1u16 << 2u16)
        } else {
            self.0 & !(1u16 << 2u16)
        };
    }
}

/// The DSP DMA registers.
#[derive(Debug, Clone, Copy, PartialEq, Eq, Structural)]
pub struct DspDma {
    pub ram_base: u32,
    pub dsp_base: u16,
    pub length: u16,
    pub control: DspDmaControl,
}

/// The ARAM DMA registers.
#[derive(Debug, Clone, Copy, PartialEq, Eq, Structural)]
pub struct AramDma {
    pub ram_base: u32,
    pub aram_base: u32,
    pub control: AramDmaControl,
}

/// The DSP's memory-mapped registers.
#[derive(Debug, Clone, Copy, PartialEq, Eq, Structural)]
pub struct Mmio {
    pub control: Control,
    /// Data from DSP to CPU.
    pub dsp_mailbox: Mailbox,
    /// Data from CPU to DSP.
    pub cpu_mailbox: Mailbox,
    pub dsp_dma: DspDma,
    pub aram_dma: AramDma,
}

impl Mmio {
    /// The registers after reset: every one zero but the control register's reset line.
    pub fn new() -> (r: Mmio)
        ensures
            r.control.0 == 0x0800,
            r.dsp_mailbox.0 == 0,
            r.cpu_mailbox.0 == 0,
            r.dsp_dma == (DspDma { ram_base: 0, dsp_base: 0, length: 0, control: DspDmaControl(0) }),
            r.aram_dma == (AramDma { ram_base: 0, aram_base: 0, control: AramDmaControl(0) }),
    {
        Mmio {
            control: Control::new(),
            dsp_mailbox: Mailbox(0),
            cpu_mailbox: Mailbox(0),
            dsp_dma: DspDma { ram_base: 0, dsp_base: 0, length: 0, control: DspDmaControl(0) },
            aram_dma: AramDma { ram_base: 0, aram_base: 0, control: AramDmaControl(0) },
        }
    }
}

/// Writing the high half of a mailbox and then its low half gives back the halves written.
pub proof fn law_mailbox_halves(m: u32, high: u16, low: u16)
    ensures
        ({
            let after_high = (high as int * 0x1_0000 + m % 0x1_0000) as u32;
            let after_low = (after_high - after_high % 0x1_0000 + low) as u32;
            &&& after_low / 0x1_0000 == high
            &&& after_low % 0x1_0000 == low
        }),
{
    let after_high = (high as int * 0x1_0000 + m % 0x1_0000) as u32;
    assert(after_high % 0x1_0000 == m % 0x1_0000) by (nonlinear_arith)
        requires
            after_high == high as int * 0x1_0000 + m % 0x1_0000,
            0 <= m % 0x1_0000 < 0x1_0000;
    let after_low = (after_high - after_high % 0x1_0000 + low) as u32;
    assert(after_low == high as int * 0x1_0000 + low) by (nonlinear_arith)
        requires
            after_low == after_high - after_high % 0x1_0000 + low,
            after_high == high as int * 0x1_0000 + m % 0x1_0000,
            after_high % 0x1_0000 == m % 0x1_0000;
    assert(after_low / 0x1_0000 == high && after_low % 0x1_0000 == low) by (nonlinear_arith)
        requires
            after_low == high as int * 0x1_0000 + low,
            low < 0x1_0000;
}

} // verus!
