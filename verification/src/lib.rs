//! Verified core logic of a GameCube emulator: pixel formats, the DSP instruction set and
//! register file, executable and disc image formats, and address translation tables.
#![allow(unused_imports)]

pub mod color;
pub mod dsp_ins;
pub mod dsp;
pub mod dsp_exec;
pub mod dol;
pub mod from_elf;
pub mod rvz;
pub mod gcw_rvz;
pub mod jit_mapping;
pub mod memory;
pub mod serial;
pub mod texture;
pub mod ipl;
pub mod mmio;
pub mod jit_blocks;
pub mod dsp_cases;
pub mod buffer_alloc;
pub mod dsp_bus;
pub mod dsp_step;
pub mod dsp_effects;
pub mod vfs;
