use lazuli::dsp::{Acc40, Product, Reg, Registers, Status};
use lazuli::dsp_exec::{add_to_addr_reg, sub_from_addr_reg, Interpreter};
use lazuli::dsp_ins::Ins;

#[test]
fn acc40_keeps_40_bits_sign_extended() {
    let a = Acc40::from(-1);
    assert_eq!(a, Acc40 { low: 0xFFFF, mid: 0xFFFF, high: 0xFF });
    assert_eq!(a.get(), -1);
    let mut b = Acc40::from(0);
    assert_eq!(b.set(0x80_0000_0000), -0x80_0000_0000);
    assert_eq!(b.get(), -0x80_0000_0000);
    assert_eq!(b.set(0x12_3456_789A), 0x12_3456_789A);
}

#[test]
fn product_store_then_load() {
    let mut p = Product { low: 0, mid1: 0, mid2: 0, high: 0 };
    p.set(0x0012_3456_789A);
    let (_, _, v) = p.get();
    assert_eq!(v, 0x0012_3456_789A);
    p.set(-5);
    assert_eq!(p.get().2, -5);
}

#[test]
fn status_default_and_flags() {
    let mut s = Status::default();
    assert_eq!(s.to_bits(), 0x0A00);
    s.set_carry(true);
    assert!(s.carry());
    s.set_dont_double_result(true);
    assert!(s.dont_double_result());
    assert_eq!(s.to_bits(), 0x2A01);
}

#[test]
fn registers_read_after_write() {
    let mut r = Registers::new();
    r.set(Reg::Addr2, 0x1234);
    assert_eq!(r.get(Reg::Addr2), 0x1234);
    r.set(Reg::Acc32High1, 0xBEEF);
    assert_eq!(r.get(Reg::Acc32High1), 0xBEEF);
    r.set(Reg::CallStack, 7);
    assert_eq!(r.get(Reg::CallStack), 7);
    assert_eq!(r.get(Reg::Wrap0), 0xFFFF);
}

#[test]
fn circular_addressing_wraps_both_ways() {
    assert_eq!(add_to_addr_reg(0x0F, 0x0F, 1), 0x00);
    assert_eq!(add_to_addr_reg(0x00, 0x0F, -1), 0x0F);
    assert_eq!(add_to_addr_reg(0x05, 0x0F, 3), 0x08);
    assert_eq!(sub_from_addr_reg(0x00, 0x0F, 1), 0x0F);
}

#[test]
fn linear_addressing_with_full_wrap() {
    assert_eq!(add_to_addr_reg(0x1234, 0xFFFF, 0x10), 0x1244);
    assert_eq!(add_to_addr_reg(0x0000, 0xFFFF, -1), 0xFFFF);
}

#[test]
fn interpreter_addi_sets_accumulator_and_flags() {
    let mut dsp = Interpreter::new();
    // addi $acc0, 0x0001 (middle part)
    dsp.addi(Ins::with_extra(0x0200, 0x0001));
    assert_eq!(dsp.regs.acc40[0].get(), 0x1_0000);
    assert!(!dsp.regs.status.arithmetic_zero());
    assert!(!dsp.regs.status.sign());
}

#[test]
fn interpreter_mul_doubles_unless_told_not_to() {
    let mut dsp = Interpreter::new();
    dsp.regs.acc32[0] = (3 << 16) | 5;
    dsp.mul(Ins::new(0x9000));
    assert_eq!(dsp.regs.product.get().2, 30);
    dsp.regs.status.set_dont_double_result(true);
    dsp.mul(Ins::new(0x9000));
    assert_eq!(dsp.regs.product.get().2, 15);
}

#[test]
fn interpreter_mulac_accumulates_previous_product() {
    let mut dsp = Interpreter::new();
    dsp.regs.status.set_dont_double_result(true);
    dsp.regs.acc32[0] = (2 << 16) | 4;
    dsp.mul(Ins::new(0x9000));
    dsp.mulac(Ins::new(0x9400));
    assert_eq!(dsp.regs.acc40[0].get(), 8);
    assert_eq!(dsp.regs.product.get().2, 8);
}

#[test]
fn interpreter_madd_and_msub() {
    let mut dsp = Interpreter::new();
    dsp.regs.status.set_dont_double_result(true);
    dsp.regs.acc32[1] = (-3i32 << 16) | 7;
    dsp.madd(Ins::new(0xF300));
    assert_eq!(dsp.regs.product.get().2, -21);
    dsp.msub(Ins::new(0xF700));
    assert_eq!(dsp.regs.product.get().2, 0);
}

#[test]
fn interpreter_asrn_shifts_by_register() {
    let mut dsp = Interpreter::new();
    dsp.regs.acc40[0] = Acc40::from(0x100);
    dsp.regs.acc40[1].mid = 4;
    dsp.asrn(Ins::new(0x02CB));
    assert_eq!(dsp.regs.acc40[0].get(), 0x10);
    dsp.regs.acc40[1].mid = 0x7C;
    dsp.asrn(Ins::new(0x02CB));
    assert_eq!(dsp.regs.acc40[0].get(), 0x100);
}

#[test]
fn stepping_back_undoes_a_step_in_power_of_two_buffers() {
    for wr in [0x0001u16, 0x000F, 0x00FF, 0x0FFF, 0xFFFF] {
        for ar in [0x0000u16, 0x1234, 0x8001, 0xFFFF] {
            for value in [1i16, -1, 7, -300, 0x7FFF] {
                let stepped = add_to_addr_reg(ar, wr, value);
                assert_eq!(sub_from_addr_reg(stepped, wr, value), ar, "{ar:#x} {wr:#x} {value}");
            }
        }
    }
    // Within a buffer of 16 words, stepping past the end wraps to its start.
    assert_eq!(add_to_addr_reg(0x100F, 0x000F, 1), 0x1000);
    assert_eq!(sub_from_addr_reg(0x1000, 0x000F, 1), 0x100F);
}
