use lazuli::dsp_bus::Bus;
use lazuli::dsp_exec::Interpreter;
use lazuli::dsp_step::StepFault;
use lazuli::mmio::{Control, Mmio};

fn setup(program: &[u16]) -> (Interpreter, Bus) {
    let mut dsp = Interpreter::new();
    for (i, w) in program.iter().enumerate() {
        dsp.mem.iram[i] = *w;
    }
    dsp.regs.pc = 0;
    dsp.regs.wrapping = [0xFFFF; 4];
    let mut bus = Bus { mmio: Mmio::new(), ram: vec![0u8; 0x1000], aram: vec![0u8; 0x100] };
    bus.mmio.control = Control(0);
    (dsp, bus)
}

#[test]
fn step_runs_a_nop_and_moves_on() {
    let (mut dsp, mut bus) = setup(&[0x0000, 0x0000]);
    assert_eq!(dsp.step(&mut bus), Ok(()));
    assert_eq!(dsp.regs.pc, 1);
}

#[test]
fn step_loads_an_immediate_of_two_words() {
    // lri $AR0, #0x1234
    let (mut dsp, mut bus) = setup(&[0x0080, 0x1234]);
    assert_eq!(dsp.step(&mut bus), Ok(()));
    assert_eq!(dsp.regs.addressing[0], 0x1234);
    assert_eq!(dsp.regs.pc, 2);
}

#[test]
fn step_jumps() {
    // jmp 0x0010 (always)
    let (mut dsp, mut bus) = setup(&[0x029F, 0x0010]);
    assert_eq!(dsp.step(&mut bus), Ok(()));
    assert_eq!(dsp.regs.pc, 0x0010);
}

#[test]
fn step_runs_the_extension_with_the_opcode() {
    // clr $ACC0 with the extension ir $AR0
    let (mut dsp, mut bus) = setup(&[0x8108]);
    dsp.regs.addressing[0] = 5;
    assert_eq!(dsp.step(&mut bus), Ok(()));
    assert_eq!(dsp.regs.addressing[0], 6);
    assert_eq!(dsp.regs.acc40[0].get(), 0);
    assert_eq!(dsp.regs.pc, 1);
}

#[test]
fn step_does_nothing_while_halted() {
    let (mut dsp, mut bus) = setup(&[0x0000]);
    bus.mmio.control = Control(0b100);
    assert_eq!(dsp.step(&mut bus), Ok(()));
    assert_eq!(dsp.regs.pc, 0);
}

#[test]
fn step_counts_a_repeated_instruction_down() {
    let (mut dsp, mut bus) = setup(&[0x0000, 0x0000]);
    dsp.loop_counter = Some(1);
    assert_eq!(dsp.step(&mut bus), Ok(()));
    assert_eq!((dsp.regs.pc, dsp.loop_counter), (0, Some(0)));
    assert_eq!(dsp.step(&mut bus), Ok(()));
    assert_eq!((dsp.regs.pc, dsp.loop_counter), (1, None));
}

#[test]
fn step_reports_an_opcode_without_a_handler() {
    // loop $AR0
    let (mut dsp, mut bus) = setup(&[0x0040]);
    assert_eq!(dsp.step(&mut bus), Err(StepFault::Unsupported));
}

#[test]
fn step_refuses_a_return_with_nothing_to_return_to() {
    // ret (always) with an empty call stack
    let (mut dsp, mut bus) = setup(&[0x02DF]);
    assert_eq!(dsp.step(&mut bus), Err(StepFault::Refused));
}

#[test]
fn fetch_and_advance() {
    let (mut dsp, _) = setup(&[0x0080, 0x4321]);
    let (ins, decoded) = dsp.fetch();
    assert_eq!((ins.base, ins.extra), (0x0080, 0x4321));
    assert!(decoded.needs_extra);
    dsp.advance(2);
    assert_eq!(dsp.regs.pc, 2);
}

#[test]
fn step_ends_a_loop_with_no_return_address() {
    // The last iteration of a block loop ends at pc 0; with no return address on the call
    // stack the loop's entries are popped all the same and the step goes on.
    let (mut dsp, mut bus) = setup(&[0x0000, 0x0000]);
    dsp.regs.loop_stack.push(0);
    dsp.regs.loop_count.push(1);
    assert_eq!(dsp.step(&mut bus), Ok(()));
    assert!(dsp.regs.loop_stack.is_empty());
    assert!(dsp.regs.loop_count.is_empty());
    assert!(dsp.regs.call_stack.is_empty());
    assert_eq!(dsp.regs.pc, 1);
}

#[test]
fn step_refuses_a_loop_that_goes_round_with_no_return_address() {
    let (mut dsp, mut bus) = setup(&[0x0000]);
    dsp.regs.loop_stack.push(0);
    dsp.regs.loop_count.push(2);
    assert_eq!(dsp.step(&mut bus), Err(StepFault::Refused));
}
