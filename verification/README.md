# lazuli

The core logic of a GameCube emulator, written in Verus and proved against its
contracts.

## What is verified

- `src/color.rs`: the 16-bit colour encodings (RGB565, RGB5A3).
- `src/dsp_ins.rs`: the DSP instruction set and its decoder.
- `src/dsp.rs`: the DSP register file, its 40-bit accumulators and its stacks.
- `src/dsp_exec.rs`: the DSP arithmetic, logic, branch and loop instructions, and address-register
  stepping.
- `src/dsp_bus.rs`: DSP data memory, memory-mapped registers, mailboxes, DMA, and the load/store
  instructions.
- `src/dsp_step.rs`: one step of the DSP interpreter. Its contract uses `src/dsp_effects.rs`, which states what each instruction handler does as a relation between the states before and after it.
- `src/dsp_cases.rs`: the file format of the DSP test cases.
- `src/dol.rs`, `src/from_elf.rs`: `.dol` executables and the ELF to DOL conversion.
- `src/rvz.rs`, `src/gcw_rvz.rs`: `.rvz` disc images. Reading works as a state machine: the caller
  fetches the bytes that each step asks for.
- `src/ipl.rs`: decoding the boot ROM.
- `src/vfs.rs`: the directory nesting of a disc's file system table.
- `src/memory.rs`: address translation.
- `src/jit_mapping.rs`, `src/jit_blocks.rs`: the recompiler's block tables.
- `src/serial.rs`: the serial interface.
- `src/mmio.rs`: the memory-mapped DSP registers.
- `src/texture.rs`: the texture unit.
- `src/buffer_alloc.rs`: buffer size buckets.

Public `law_*` proof functions state properties that span several functions, such as round trips
and read-after-write.

The outside crates `tinyvec`, `indexmap`, `elf`, `zstd` and `twox-hash` are called through a small set of
trusted wrappers. Each wrapper's doc comment says what its contract claims.

## Layout

- `src/`: the verified library.
- `tests/`: its tests.
- `app/`: a command-line front end that does the file I/O. It inspects DOL and RVZ files, converts
  ELF to DOL and extracts RVZ images.
