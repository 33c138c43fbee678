use lazuli::dsp::{Exception, Reg, Registers};
use lazuli::dsp_bus::Bus;
use lazuli::dsp_exec::Interpreter;
use lazuli::dsp_ins::Ins;
use lazuli::mmio::{DspDmaControl, Mailbox, Mmio};

fn setup() -> (Interpreter, Bus) {
    let dsp = Interpreter::new();
    let bus = Bus { mmio: Mmio::new(), ram: vec![0u8; 0x1000], aram: vec![0u8; 0x100] };
    (dsp, bus)
}

#[test]
fn dma_registers_read_back() {
    let (mut dsp, mut bus) = setup();
    dsp.write_dmem(&mut bus, 0xFFCE, 0x1234);
    dsp.write_dmem(&mut bus, 0xFFCF, 0x5678);
    dsp.write_dmem(&mut bus, 0xFFCD, 0x0020);
    assert_eq!(bus.mmio.dsp_dma.ram_base, 0x1234_5678);
    assert_eq!(dsp.read_dmem(&mut bus, 0xFFCE), 0x1234);
    assert_eq!(dsp.read_dmem(&mut bus, 0xFFCF), 0x5678);
    assert_eq!(dsp.read_dmem(&mut bus, 0xFFCD), 0x0020);
    // Writing the length starts the transfer.
    dsp.write_dmem(&mut bus, 0xFFCB, 8);
    assert_eq!(bus.mmio.dsp_dma.length, 8);
    assert!(bus.mmio.dsp_dma.control.transfer_ongoing());
    assert!(bus.mmio.control.dsp_dma_ongoing());
    assert_eq!(dsp.read_dmem(&mut bus, 0xFFC9), 0b100);
}

#[test]
fn mailboxes_through_data_memory() {
    let (mut dsp, mut bus) = setup();
    bus.mmio.cpu_mailbox = Mailbox(0x8000_1234);
    assert_eq!(dsp.read_dmem(&mut bus, 0xFFFE), 0x8000);
    assert_eq!(dsp.read_dmem(&mut bus, 0xFFFF), 0x1234);
    // Reading the low half marks the mail read.
    assert_eq!(dsp.read_dmem(&mut bus, 0xFFFE), 0x0000);
    dsp.write_dmem(&mut bus, 0xFFFC, 0x1234);
    dsp.write_dmem(&mut bus, 0xFFFD, 0x5678);
    assert_eq!(bus.mmio.dsp_mailbox, Mailbox(0x9234_5678));
    assert_eq!(dsp.read_dmem(&mut bus, 0xFFFC), 0x9234);
    assert_eq!(dsp.read_dmem(&mut bus, 0xFFFD), 0x5678);
    // Any non-zero write to 0xFFFB raises the DSP interrupt towards the CPU.
    dsp.write_dmem(&mut bus, 0xFFFB, 0);
    assert!(!bus.mmio.control.dsp_interrupt());
    dsp.write_dmem(&mut bus, 0xFFFB, 1);
    assert!(bus.mmio.control.dsp_interrupt());
}

#[test]
fn accelerator_steps_through_aram() {
    let (mut dsp, mut bus) = setup();
    dsp.write_dmem(&mut bus, 0xFFD8, 0x8000);
    dsp.write_dmem(&mut bus, 0xFFD9, 0x0010);
    assert_eq!(dsp.accel.aram_curr, 0x8000_0010);
    // Bit 31 of the address is ignored.
    dsp.write_dmem(&mut bus, 0xFFD3, 0xABCD);
    assert_eq!(&bus.aram[0x10..0x12], &[0xAB, 0xCD]);
    assert_eq!(dsp.accel.aram_curr, 0x8000_0011);
    assert_eq!(dsp.read_dmem(&mut bus, 0xFFD9), 0x0011);
    dsp.write_dmem(&mut bus, 0xFFD9, 0x0010);
    assert_eq!(dsp.read_dmem(&mut bus, 0xFFD3), 0xABCD);
    assert_eq!(dsp.accel.aram_curr, 0x8000_0011);
    dsp.write_dmem(&mut bus, 0xFFDE, 7);
    assert_eq!(dsp.read_dmem(&mut bus, 0xFFDE), 7);
    assert_eq!(dsp.read_dmem(&mut bus, 0xFFDB), 0);
}

#[test]
fn data_memory_regions() {
    let (mut dsp, mut bus) = setup();
    dsp.write_dmem(&mut bus, 0x0005, 0x1111);
    assert_eq!(dsp.read_dmem(&mut bus, 0x0005), 0x1111);
    dsp.mem.coef[3] = 0x4444;
    assert_eq!(dsp.read_dmem(&mut bus, 0x1003), 0x4444);
    // Coefficients take no writes, and nothing is mapped between them and the registers.
    dsp.write_dmem(&mut bus, 0x1003, 0x5555);
    assert_eq!(dsp.read_dmem(&mut bus, 0x1003), 0x4444);
    dsp.write_dmem(&mut bus, 0x2000, 0x5555);
    assert_eq!(dsp.read_dmem(&mut bus, 0x2000), 0);
}

#[test]
fn dma_between_ram_and_dsp_memories() {
    let (mut dsp, mut bus) = setup();
    bus.ram[0x100..0x104].copy_from_slice(&[0x12, 0x34, 0x56, 0x78]);
    // From RAM into data memory; the bits of the RAM base from 26 up are ignored.
    bus.mmio.dsp_dma.ram_base = 0xFC00_0100;
    bus.mmio.dsp_dma.dsp_base = 0x20;
    bus.mmio.dsp_dma.length = 4;
    bus.mmio.dsp_dma.control = DspDmaControl(0b100);
    bus.mmio.control.set_bit(9, true);
    dsp.do_dma(&mut bus);
    assert_eq!(&dsp.mem.dram[0x20..0x22], &[0x1234, 0x5678]);
    assert_eq!(bus.mmio.dsp_dma.length, 0);
    assert!(!bus.mmio.dsp_dma.control.transfer_ongoing());
    assert!(!bus.mmio.control.dsp_dma_ongoing());
    // Nothing happens without a transfer ongoing.
    dsp.mem.dram[0x30] = 0xBEEF;
    bus.mmio.dsp_dma.ram_base = 0x200;
    bus.mmio.dsp_dma.dsp_base = 0x30;
    bus.mmio.dsp_dma.length = 2;
    bus.mmio.dsp_dma.control = DspDmaControl(0b001);
    dsp.do_dma(&mut bus);
    assert_eq!(&bus.ram[0x200..0x202], &[0, 0]);
    // From data memory into RAM.
    bus.mmio.dsp_dma.control = DspDmaControl(0b101);
    dsp.do_dma(&mut bus);
    assert_eq!(&bus.ram[0x200..0x202], &[0xBE, 0xEF]);
    // From RAM into instruction memory.
    bus.mmio.dsp_dma.ram_base = 0x100;
    bus.mmio.dsp_dma.dsp_base = 0x40;
    bus.mmio.dsp_dma.length = 4;
    bus.mmio.dsp_dma.control = DspDmaControl(0b110);
    dsp.do_dma(&mut bus);
    assert_eq!(&dsp.mem.iram[0x40..0x42], &[0x1234, 0x5678]);
}

#[test]
fn reset_goes_to_irom_or_iram() {
    let (mut dsp, mut bus) = setup();
    dsp.regs.pc = 0x123;
    dsp.regs.set(Reg::CallStack, 5);
    bus.mmio.cpu_mailbox = Mailbox(0x8000_0001);
    // Reset requested with the reset line high.
    bus.mmio.control.set_bit(0, true);
    dsp.check_reset(&mut bus);
    assert_eq!(dsp.regs.pc, 0x8000);
    assert_eq!(dsp.regs.get(Reg::CallStack), 0);
    assert_eq!(bus.mmio.cpu_mailbox, Mailbox(0));
    assert!(!bus.mmio.control.reset());
    assert!(dsp.old_reset_high);
    // Nothing more while the line stays.
    dsp.regs.pc = 0x42;
    dsp.check_reset(&mut bus);
    assert_eq!(dsp.regs.pc, 0x42);
    // Dropping the line resets at IRAM, which first takes the boot stub from RAM.
    let mut ram = vec![0u8; 0x0100_0400];
    ram[0x0100_0000] = 0xAB;
    ram[0x0100_0001] = 0xCD;
    ram[0x0100_03FE] = 0x01;
    ram[0x0100_03FF] = 0x02;
    bus.ram = ram;
    bus.mmio.control.set_bit(11, false);
    dsp.check_reset(&mut bus);
    assert_eq!(dsp.regs.pc, 0);
    assert_eq!(dsp.mem.iram[0], 0xABCD);
    assert_eq!(dsp.mem.iram[511], 0x0102);
    assert!(!dsp.old_reset_high);
}

#[test]
fn external_interrupt_enters_its_handler() {
    let (mut dsp, mut bus) = setup();
    dsp.regs.pc = 0x0100;
    dsp.check_external_interrupt(&mut bus);
    assert_eq!(dsp.regs.pc, 0x0100);
    bus.mmio.control.set_bit(1, true);
    dsp.check_external_interrupt(&mut bus);
    assert_eq!(dsp.regs.pc, 14);
    assert_eq!(dsp.regs.get(Reg::CallStack), 0x0100);
    assert_eq!(dsp.regs.get(Reg::DataStack), 0x0A00);
    assert!(!bus.mmio.control.interrupt());
    dsp.raise_exception(Exception::StackOverflow);
    assert_eq!(dsp.regs.pc, 2);
    assert_eq!(dsp.regs.get(Reg::CallStack), 14);
}

#[test]
fn waiting_for_mail_pattern() {
    let (mut dsp, _bus) = setup();
    dsp.mem.iram[0x10..0x15].copy_from_slice(&[0x26FE, 0x02C0, 0x8000, 0x029C, 0x0010]);
    for (pc, expected) in [(0x10, true), (0x11, true), (0x12, false), (0x13, true), (0x14, false)] {
        dsp.regs.pc = pc;
        assert_eq!(dsp.is_waiting_for_mail(), expected, "pc {pc:#x}");
    }
    dsp.mem.iram[0x14] = 0x0011;
    dsp.regs.pc = 0x10;
    assert!(!dsp.is_waiting_for_mail());
}

#[test]
fn loads_and_stores() {
    let (mut dsp, mut bus) = setup();
    dsp.mem.dram[5] = 0x1234;
    // lr $AR0, @0x0005
    dsp.lr(&mut bus, Ins::with_extra(0x00C0, 0x0005));
    assert_eq!(dsp.regs.addressing[0], 0x1234);
    // lrri $AX0.L, @$AR1 (register 0x18)
    dsp.regs.addressing[1] = 5;
    dsp.lrri(&mut bus, Ins::new(0x1900 | (1 << 5) | 0x18));
    assert_eq!(dsp.regs.get(Reg::Acc32Low0), 0x1234);
    assert_eq!(dsp.regs.addressing[1], 6);
    // lrrd loads at the address, then steps back.
    dsp.lrrd(&mut bus, Ins::new(0x1880 | (1 << 5) | 0x1B));
    assert_eq!(dsp.regs.get(Reg::Acc32High1), 0);
    assert_eq!(dsp.regs.addressing[1], 5);
    // lrrn steps by the index register.
    dsp.regs.indexing[1] = 3;
    dsp.lrrn(&mut bus, Ins::new(0x1980 | (1 << 5) | 0x19));
    assert_eq!(dsp.regs.get(Reg::Acc32Low1), 0x1234);
    assert_eq!(dsp.regs.addressing[1], 8);
    // srri stores at the address before stepping; srrd steps first.
    dsp.regs.addressing[2] = 0x40;
    dsp.srri(&mut bus, Ins::new(0x1B00 | (2 << 5) | 0x18));
    assert_eq!(dsp.mem.dram[0x40], 0x1234);
    assert_eq!(dsp.regs.addressing[2], 0x41);
    dsp.srrd(&mut bus, Ins::new(0x1A80 | (2 << 5) | 0x00));
    assert_eq!(dsp.regs.addressing[2], 0x40);
    assert_eq!(dsp.mem.dram[0x40], 0x1234);
    // sr and srr.
    dsp.sr(&mut bus, Ins::with_extra(0x00E0 | 0x18, 0x0050));
    assert_eq!(dsp.mem.dram[0x50], 0x1234);
    dsp.regs.addressing[3] = 0x51;
    dsp.srr(&mut bus, Ins::new(0x1A00 | (3 << 5) | 0x03));
    assert_eq!(dsp.mem.dram[0x51], 0x51);
    // si writes a register by its low byte.
    dsp.si(&mut bus, Ins::with_extra(0x16FC, 0x0123));
    assert_eq!(bus.mmio.dsp_mailbox, Mailbox(0x0123_0000));
    // lrs reads at the configuration register's page.
    dsp.regs.config = 0;
    dsp.lrs(&mut bus, Ins::new(0x2000 | (1 << 8) | 0x50));
    assert_eq!(dsp.regs.get(Reg::Acc32Low1), 0x1234);
}

#[test]
fn instruction_memory_loads() {
    let (mut dsp, _bus) = setup();
    dsp.mem.iram[0x20] = 0x0042;
    dsp.regs.addressing[2] = 0x20;
    dsp.ilrri(Ins::new(0x0218 | (1 << 8) | 2));
    assert_eq!(dsp.regs.acc40[1].mid, 0x0042);
    assert_eq!(dsp.regs.addressing[2], 0x21);
    dsp.ilrrd(Ins::new(0x0214 | 2));
    assert_eq!(dsp.regs.acc40[0].mid, 0);
    assert_eq!(dsp.regs.addressing[2], 0x20);
    dsp.ilrr(Ins::new(0x0210 | 2));
    assert_eq!(dsp.regs.acc40[0].mid, 0x0042);
    dsp.regs.indexing[2] = 4;
    dsp.ilrrn(Ins::new(0x021C | 2));
    assert_eq!(dsp.regs.addressing[2], 0x24);
}

#[test]
fn extension_loads_use_registers_before_the_instruction() {
    let (mut dsp, mut bus) = setup();
    dsp.mem.dram[0x10] = 0x1111;
    dsp.mem.dram[0x20] = 0x2222;
    let mut prev = Registers::new();
    prev.addressing[0] = 0x10;
    prev.addressing[3] = 0x20;
    prev.indexing[3] = 2;
    dsp.regs.addressing[0] = 0x99;
    // l $AX0.H, @$AR0 (register 0x1A)
    dsp.ext_l(&mut bus, Ins::new((2 << 3) | 0), &prev);
    assert_eq!(dsp.regs.get(Reg::Acc32High0), 0x1111);
    assert_eq!(dsp.regs.addressing[0], 0x11);
    // ldm: high half of accumulator 0 from $AR0, low half of accumulator 1 from $AR3.
    dsp.ext_ldm(&mut bus, Ins::new(1 << 5), &prev);
    assert_eq!(dsp.regs.get(Reg::Acc32High0), 0x1111);
    assert_eq!(dsp.regs.get(Reg::Acc32Low1), 0x2222);
    assert_eq!(dsp.regs.addressing[0], 0x11);
    assert_eq!(dsp.regs.addressing[3], 0x22);
    dsp.ext_dr(Ins::new(3), &prev);
    assert_eq!(dsp.regs.addressing[3], 0x1F);
    dsp.ext_ir(Ins::new(3), &prev);
    assert_eq!(dsp.regs.addressing[3], 0x21);
    dsp.ext_nr(Ins::new(3), &prev);
    assert_eq!(dsp.regs.addressing[3], 0x22);
    // mv: $AX1.L from $AC0.L of the registers before.
    prev.acc40[0].low = 0x7777;
    dsp.ext_mv(Ins::new(1 << 2), &prev);
    assert_eq!(dsp.regs.get(Reg::Acc32Low1), 0x7777);
}

#[test]
fn halt_sets_the_control_bit() {
    let (mut dsp, mut bus) = setup();
    assert!(!bus.mmio.control.halt());
    dsp.halt(&mut bus, Ins::new(0x0021));
    assert!(bus.mmio.control.halt());
}

#[test]
fn bloop_counts_by_a_register() {
    let (mut dsp, _bus) = setup();
    dsp.regs.pc = 0x10;
    dsp.regs.addressing[2] = 5;
    dsp.bloop(Ins::with_extra(0x0062, 0x0020));
    assert_eq!(dsp.regs.get(Reg::CallStack), 0x12);
    assert_eq!(dsp.regs.get(Reg::LoopStack), 0x21);
    assert_eq!(dsp.regs.get(Reg::LoopCount), 5);
}

#[test]
fn dma_in_and_out_copies_bytes() {
    let (mut dsp, mut bus) = setup();
    let bytes: Vec<u8> = (0..32u8).map(|b| b.wrapping_mul(37).wrapping_add(5)).collect();
    bus.ram[0x300..0x320].copy_from_slice(&bytes);
    bus.mmio.dsp_dma.ram_base = 0x300;
    bus.mmio.dsp_dma.dsp_base = 0x0F00;
    bus.mmio.dsp_dma.length = 32;
    bus.mmio.dsp_dma.control = DspDmaControl(0b100);
    dsp.do_dma(&mut bus);
    bus.mmio.dsp_dma.ram_base = 0x800;
    bus.mmio.dsp_dma.length = 32;
    bus.mmio.dsp_dma.control = DspDmaControl(0b101);
    dsp.do_dma(&mut bus);
    assert_eq!(&bus.ram[0x800..0x820], &bytes[..]);
}

#[test]
fn whole_word_registers_read_back() {
    let (mut dsp, mut bus) = setup();
    for offset in [0xC9u16, 0xCD, 0xCE, 0xCF, 0xD4, 0xD5, 0xD6, 0xD7, 0xD8, 0xD9, 0xDA, 0xDE] {
        let addr = 0xFF00 | offset;
        dsp.write_dmem(&mut bus, addr, 0xA5C3 ^ offset);
        assert_eq!(dsp.read_dmem(&mut bus, addr), 0xA5C3 ^ offset, "{addr:#x}");
    }
}
