//! What each DSP instruction handler does, as a relation between the states before and after
//! it, and when it can run: spec functions per handler, stating its contract, and the
//! relations by opcode and by extension opcode that the interpreter step is stated over.
use crate::dsp::{
    can_write, reg_at, reg_value, sext40, stack4_items, Reg, ACC40_MIN, stack8_items, with_flag, wrote, wrote_saturating, Acc40, Product, Registers,
};
use crate::dsp_bus::{
    addr_set, can_load, data_state, ext_loaded, pair_read_ok, read_dmem_ok, write_dmem_ok, ext_pair_loaded, field5, low_reg, mid_reg, only_data, pair_read, read_dmem_spec,
    same_code, write_dmem_spec, Bus,
};
use crate::dsp_exec::{
    acc32_half, arith_status, bit_index, cond_of, diff40, halves_product, keeps, keeps_but_mac, logic_status, mac_status,
    mid_high_product, mulx_product, only_regs, scaled_product, shift_by, shifted_byte, shifted_high, shifted_word,
    spec_add_carried, spec_add_overflowed, spec_add_to_addr_reg, spec_condition, spec_read_imem, spec_round_40,
    spec_sub_carried, spec_sub_from_addr_reg, spec_sub_overflowed, words_product, low40, scaled_fits, Interpreter,
};
use crate::mmio::{Control, Mmio};
use crate::dsp_ins::{ExtensionOpcode, Ins, Opcode};
use vstd::prelude::*;

verus! {

/// What the `add` handler does, as its contract states.
pub open spec fn ran_add(ins: Ins, s0: Interpreter, b0: Bus, s1: Interpreter, b1: Bus) -> bool {
    &&& ({
                    let d = ((ins.base >> 8u16) & 1) as int;
                    let lhs = s0.regs.acc40[d].value();
                    let rhs: i64 = s0.regs.acc40[1 - d].value();
                    let result = (lhs + rhs) as i64;
                    let new = sext40(result);
                    &&& s1.regs.acc40@ == s0.regs.acc40@.update(d, Acc40::spec_from(result))
                    &&& s1.regs.status.bits == arith_status(s0.regs.status.bits, spec_add_carried(lhs, new), spec_add_overflowed(lhs, rhs, new), new)
                    &&& keeps(s0.regs, s1.regs, 9, 12)
                })
    &&& only_regs(s0, s1)
    &&& b1 == b0
}

/// What the `sub` handler does, as its contract states.
pub open spec fn ran_sub(ins: Ins, s0: Interpreter, b0: Bus, s1: Interpreter, b1: Bus) -> bool {
    &&& ({
                    let d = ((ins.base >> 8u16) & 1) as int;
                    let lhs = s0.regs.acc40[d].value();
                    let rhs: i64 = s0.regs.acc40[1 - d].value();
                    let result = (lhs - rhs) as i64;
                    let new = sext40(result);
                    &&& s1.regs.acc40@ == s0.regs.acc40@.update(d, Acc40::spec_from(result))
                    &&& s1.regs.status.bits == arith_status(s0.regs.status.bits, spec_sub_carried(lhs, new), spec_sub_overflowed(lhs, rhs, new), new)
                    &&& keeps(s0.regs, s1.regs, 9, 12)
                })
    &&& only_regs(s0, s1)
    &&& b1 == b0
}

/// What the `addax` handler does, as its contract states.
pub open spec fn ran_addax(ins: Ins, s0: Interpreter, b0: Bus, s1: Interpreter, b1: Bus) -> bool {
    &&& ({
                    let d = ((ins.base >> 8u16) & 1) as int;
                    let s = ((ins.base >> 9u16) & 1) as int;
                    let lhs = s0.regs.acc40[d].value();
                    let rhs: i64 = s0.regs.acc32[s] as i64;
                    let result = (lhs + rhs) as i64;
                    let new = sext40(result);
                    &&& s1.regs.acc40@ == s0.regs.acc40@.update(d, Acc40::spec_from(result))
                    &&& s1.regs.status.bits == arith_status(s0.regs.status.bits, spec_add_carried(lhs, new), spec_add_overflowed(lhs, rhs, new), new)
                    &&& keeps(s0.regs, s1.regs, 9, 12)
                })
    &&& only_regs(s0, s1)
    &&& b1 == b0
}

/// What the `subax` handler does, as its contract states.
pub open spec fn ran_subax(ins: Ins, s0: Interpreter, b0: Bus, s1: Interpreter, b1: Bus) -> bool {
    &&& ({
                    let d = ((ins.base >> 8u16) & 1) as int;
                    let s = ((ins.base >> 9u16) & 1) as int;
                    let lhs = s0.regs.acc40[d].value();
                    let rhs: i64 = s0.regs.acc32[s] as i64;
                    let result = (lhs - rhs) as i64;
                    let new = sext40(result);
                    &&& s1.regs.acc40@ == s0.regs.acc40@.update(d, Acc40::spec_from(result))
                    &&& s1.regs.status.bits == arith_status(s0.regs.status.bits, spec_sub_carried(lhs, new), spec_sub_overflowed(lhs, rhs, new), new)
                    &&& keeps(s0.regs, s1.regs, 9, 12)
                })
    &&& only_regs(s0, s1)
    &&& b1 == b0
}

/// What the `addaxl` handler does, as its contract states.
pub open spec fn ran_addaxl(ins: Ins, s0: Interpreter, b0: Bus, s1: Interpreter, b1: Bus) -> bool {
    &&& ({
                    let d = ((ins.base >> 8u16) & 1) as int;
                    let s = ((ins.base >> 9u16) & 1) as int;
                    let lhs = s0.regs.acc40[d].value();
                    let rhs: i64 = (s0.regs.acc32[s] as u16) as i64;
                    let result = (lhs + rhs) as i64;
                    let new = sext40(result);
                    &&& s1.regs.acc40@ == s0.regs.acc40@.update(d, Acc40::spec_from(result))
                    &&& s1.regs.status.bits == arith_status(s0.regs.status.bits, spec_add_carried(lhs, new), spec_add_overflowed(lhs, rhs, new), new)
                    &&& keeps(s0.regs, s1.regs, 9, 12)
                })
    &&& only_regs(s0, s1)
    &&& b1 == b0
}

/// What the `addi` handler does, as its contract states.
pub open spec fn ran_addi(ins: Ins, s0: Interpreter, b0: Bus, s1: Interpreter, b1: Bus) -> bool {
    &&& ({
                    let d = ((ins.base >> 8u16) & 1) as int;
                    let lhs = s0.regs.acc40[d].value();
                    let rhs: i64 = ((ins.extra as i16 as i64) * 65536) as i64;
                    let result = (lhs + rhs) as i64;
                    let new = sext40(result);
                    &&& s1.regs.acc40@ == s0.regs.acc40@.update(d, Acc40::spec_from(result))
                    &&& s1.regs.status.bits == arith_status(s0.regs.status.bits, spec_add_carried(lhs, new), spec_add_overflowed(lhs, rhs, new), new)
                    &&& keeps(s0.regs, s1.regs, 9, 12)
                })
    &&& only_regs(s0, s1)
    &&& b1 == b0
}

/// What the `addis` handler does, as its contract states.
pub open spec fn ran_addis(ins: Ins, s0: Interpreter, b0: Bus, s1: Interpreter, b1: Bus) -> bool {
    &&& ({
                    let d = ((ins.base >> 8u16) & 1) as int;
                    let lhs = s0.regs.acc40[d].value();
                    let rhs: i64 = (((ins.base & 0xFF) as u8 as i8 as i64) * 65536) as i64;
                    let result = (lhs + rhs) as i64;
                    let new = sext40(result);
                    &&& s1.regs.acc40@ == s0.regs.acc40@.update(d, Acc40::spec_from(result))
                    &&& s1.regs.status.bits == arith_status(s0.regs.status.bits, spec_add_carried(lhs, new), spec_add_overflowed(lhs, rhs, new), new)
                    &&& keeps(s0.regs, s1.regs, 9, 12)
                })
    &&& only_regs(s0, s1)
    &&& b1 == b0
}

/// What the `addr` handler does, as its contract states.
pub open spec fn ran_addr(ins: Ins, s0: Interpreter, b0: Bus, s1: Interpreter, b1: Bus) -> bool {
    &&& ({
                    let d = ((ins.base >> 8u16) & 1) as int;
                    let s = ((ins.base >> 9u16) & 3) as int;
                    let lhs = s0.regs.acc40[d].value();
                    let rhs: i64 = ((acc32_half(s0.regs, s) as i16 as i64) * 65536) as i64;
                    let result = (lhs + rhs) as i64;
                    let new = sext40(result);
                    &&& s1.regs.acc40@ == s0.regs.acc40@.update(d, Acc40::spec_from(result))
                    &&& s1.regs.status.bits == arith_status(s0.regs.status.bits, spec_add_carried(lhs, new), spec_add_overflowed(lhs, rhs, new), new)
                    &&& keeps(s0.regs, s1.regs, 9, 12)
                })
    &&& only_regs(s0, s1)
    &&& b1 == b0
}

/// What the `subr` handler does, as its contract states.
pub open spec fn ran_subr(ins: Ins, s0: Interpreter, b0: Bus, s1: Interpreter, b1: Bus) -> bool {
    &&& ({
                    let d = ((ins.base >> 8u16) & 1) as int;
                    let s = ((ins.base >> 9u16) & 3) as int;
                    let lhs = s0.regs.acc40[d].value();
                    let rhs: i64 = ((acc32_half(s0.regs, s) as i16 as i64) * 65536) as i64;
                    let result = (lhs - rhs) as i64;
                    let new = sext40(result);
                    &&& s1.regs.acc40@ == s0.regs.acc40@.update(d, Acc40::spec_from(result))
                    &&& s1.regs.status.bits == arith_status(s0.regs.status.bits, spec_sub_carried(lhs, new), spec_sub_overflowed(lhs, rhs, new), new)
                    &&& keeps(s0.regs, s1.regs, 9, 12)
                })
    &&& only_regs(s0, s1)
    &&& b1 == b0
}

/// What the `inc` handler does, as its contract states.
pub open spec fn ran_inc(ins: Ins, s0: Interpreter, b0: Bus, s1: Interpreter, b1: Bus) -> bool {
    &&& ({
                    let d = ((ins.base >> 8u16) & 1) as int;
                    let prev = s0.regs.acc40[d].value();
                    let result = (prev + 1i64) as i64;
                    let new = sext40(result);
                    &&& s1.regs.acc40@ == s0.regs.acc40@.update(d, Acc40::spec_from(result))
                    &&& s1.regs.status.bits == arith_status(s0.regs.status.bits, spec_add_carried(prev, new), spec_add_overflowed(prev, 1i64, new), new)
                    &&& keeps(s0.regs, s1.regs, 9, 12)
                })
    &&& only_regs(s0, s1)
    &&& b1 == b0
}

/// What the `dec` handler does, as its contract states.
pub open spec fn ran_dec(ins: Ins, s0: Interpreter, b0: Bus, s1: Interpreter, b1: Bus) -> bool {
    &&& ({
                    let d = ((ins.base >> 8u16) & 1) as int;
                    let prev = s0.regs.acc40[d].value();
                    let result = (prev + -1i64) as i64;
                    let new = sext40(result);
                    &&& s1.regs.acc40@ == s0.regs.acc40@.update(d, Acc40::spec_from(result))
                    &&& s1.regs.status.bits == arith_status(s0.regs.status.bits, spec_sub_carried(prev, new), spec_add_overflowed(prev, -1i64, new), new)
                    &&& keeps(s0.regs, s1.regs, 9, 12)
                })
    &&& only_regs(s0, s1)
    &&& b1 == b0
}

/// What the `incm` handler does, as its contract states.
pub open spec fn ran_incm(ins: Ins, s0: Interpreter, b0: Bus, s1: Interpreter, b1: Bus) -> bool {
    &&& ({
                    let d = ((ins.base >> 8u16) & 1) as int;
                    let prev = s0.regs.acc40[d].value();
                    let result = (prev + 65536i64) as i64;
                    let new = sext40(result);
                    &&& s1.regs.acc40@ == s0.regs.acc40@.update(d, Acc40::spec_from(result))
                    &&& s1.regs.status.bits == arith_status(s0.regs.status.bits, spec_add_carried(prev, new), spec_add_overflowed(prev, 65536i64, new), new)
                    &&& keeps(s0.regs, s1.regs, 9, 12)
                })
    &&& only_regs(s0, s1)
    &&& b1 == b0
}

/// What the `decm` handler does, as its contract states.
pub open spec fn ran_decm(ins: Ins, s0: Interpreter, b0: Bus, s1: Interpreter, b1: Bus) -> bool {
    &&& ({
                    let d = ((ins.base >> 8u16) & 1) as int;
                    let prev = s0.regs.acc40[d].value();
                    let result = (prev + -65536i64) as i64;
                    let new = sext40(result);
                    &&& s1.regs.acc40@ == s0.regs.acc40@.update(d, Acc40::spec_from(result))
                    &&& s1.regs.status.bits == arith_status(s0.regs.status.bits, spec_sub_carried(prev, new), spec_add_overflowed(prev, -65536i64, new), new)
                    &&& keeps(s0.regs, s1.regs, 9, 12)
                })
    &&& only_regs(s0, s1)
    &&& b1 == b0
}

/// What the `compare` handler does, as its contract states.
pub open spec fn ran_compare(ins: Ins, s0: Interpreter, b0: Bus, s1: Interpreter, b1: Bus) -> bool {
    &&& ({
                    let lhs = s0.regs.acc40[0].value();
                    let rhs: i64 = s0.regs.acc40[1].value();
                    let diff = diff40(lhs, rhs);
                    &&& s1.regs.status.bits == arith_status(s0.regs.status.bits, spec_sub_carried(lhs, diff), spec_sub_overflowed(lhs, rhs, diff), diff)
                    &&& keeps(s0.regs, s1.regs, 12, 12)
                })
    &&& only_regs(s0, s1)
    &&& b1 == b0
}

/// What the `comparei` handler does, as its contract states.
pub open spec fn ran_comparei(ins: Ins, s0: Interpreter, b0: Bus, s1: Interpreter, b1: Bus) -> bool {
    &&& ({
                    let d = bit_index(ins.base, 8);
                    let lhs = s0.regs.acc40[d].value();
                    let rhs: i64 = shifted_word(ins.extra);
                    let diff = diff40(lhs, rhs);
                    &&& s1.regs.status.bits == arith_status(s0.regs.status.bits, spec_sub_carried(lhs, diff), spec_sub_overflowed(lhs, rhs, diff), diff)
                    &&& keeps(s0.regs, s1.regs, 12, 12)
                })
    &&& only_regs(s0, s1)
    &&& b1 == b0
}

/// What the `compareis` handler does, as its contract states.
pub open spec fn ran_compareis(ins: Ins, s0: Interpreter, b0: Bus, s1: Interpreter, b1: Bus) -> bool {
    &&& ({
                    let d = bit_index(ins.base, 8);
                    let lhs = s0.regs.acc40[d].value();
                    let rhs: i64 = shifted_byte(ins.base);
                    let diff = diff40(lhs, rhs);
                    &&& s1.regs.status.bits == arith_status(s0.regs.status.bits, spec_sub_carried(lhs, diff), spec_sub_overflowed(lhs, rhs, diff), diff)
                    &&& keeps(s0.regs, s1.regs, 12, 12)
                })
    &&& only_regs(s0, s1)
    &&& b1 == b0
}

/// What the `compareaxh` handler does, as its contract states.
pub open spec fn ran_compareaxh(ins: Ins, s0: Interpreter, b0: Bus, s1: Interpreter, b1: Bus) -> bool {
    &&& ({
                    let s = bit_index(ins.base, 11);
                    let r = bit_index(ins.base, 12);
                    let lhs = s0.regs.acc40[s].value();
                    let rhs: i64 = shifted_high(s0.regs.acc32[r]);
                    let diff = diff40(lhs, rhs);
                    &&& s1.regs.status.bits == arith_status(s0.regs.status.bits, spec_sub_carried(lhs, diff), spec_sub_overflowed(lhs, rhs, diff), diff)
                    &&& keeps(s0.regs, s1.regs, 12, 12)
                })
    &&& only_regs(s0, s1)
    &&& b1 == b0
}

/// What the `clr` handler does, as its contract states.
pub open spec fn ran_clr(ins: Ins, s0: Interpreter, b0: Bus, s1: Interpreter, b1: Bus) -> bool {
    &&& ({
                    let d = ((ins.base >> 11u16) & 1) as int;
                    let result: i64 = 0;
                    let new = sext40(result);
                    &&& s1.regs.acc40@ == s0.regs.acc40@.update(d, Acc40::spec_from(result))
                    &&& s1.regs.status.bits == arith_status(s0.regs.status.bits, false, false, new)
                    &&& keeps(s0.regs, s1.regs, 9, 12)
                })
    &&& only_regs(s0, s1)
    &&& b1 == b0
}

/// What the `clrl` handler does, as its contract states.
pub open spec fn ran_clrl(ins: Ins, s0: Interpreter, b0: Bus, s1: Interpreter, b1: Bus) -> bool {
    &&& ({
                    let d = ((ins.base >> 8u16) & 1) as int;
                    let prev = s0.regs.acc40[d].value();
                    let result: i64 = spec_round_40(prev);
                    let new = sext40(result);
                    &&& s1.regs.acc40@ == s0.regs.acc40@.update(d, Acc40::spec_from(result))
                    &&& s1.regs.status.bits == arith_status(s0.regs.status.bits, false, false, new)
                    &&& keeps(s0.regs, s1.regs, 9, 12)
                })
    &&& only_regs(s0, s1)
    &&& b1 == b0
}

/// What the `mov` handler does, as its contract states.
pub open spec fn ran_mov(ins: Ins, s0: Interpreter, b0: Bus, s1: Interpreter, b1: Bus) -> bool {
    &&& ({
                    let d = ((ins.base >> 8u16) & 1) as int;
                    let result: i64 = s0.regs.acc40[1 - d].value();
                    let new = sext40(result);
                    &&& s1.regs.acc40@ == s0.regs.acc40@.update(d, Acc40::spec_from(result))
                    &&& s1.regs.status.bits == arith_status(s0.regs.status.bits, false, false, new)
                    &&& keeps(s0.regs, s1.regs, 9, 12)
                })
    &&& only_regs(s0, s1)
    &&& b1 == b0
}

/// What the `movax` handler does, as its contract states.
pub open spec fn ran_movax(ins: Ins, s0: Interpreter, b0: Bus, s1: Interpreter, b1: Bus) -> bool {
    &&& ({
                    let d = ((ins.base >> 8u16) & 1) as int;
                    let s = ((ins.base >> 9u16) & 1) as int;
                    let result: i64 = s0.regs.acc32[s] as i64;
                    let new = sext40(result);
                    &&& s1.regs.acc40@ == s0.regs.acc40@.update(d, Acc40::spec_from(result))
                    &&& s1.regs.status.bits == arith_status(s0.regs.status.bits, false, false, new)
                    &&& keeps(s0.regs, s1.regs, 9, 12)
                })
    &&& only_regs(s0, s1)
    &&& b1 == b0
}

/// What the `movr` handler does, as its contract states.
pub open spec fn ran_movr(ins: Ins, s0: Interpreter, b0: Bus, s1: Interpreter, b1: Bus) -> bool {
    &&& ({
                    let d = ((ins.base >> 8u16) & 1) as int;
                    let s = ((ins.base >> 9u16) & 3) as int;
                    let result: i64 = ((acc32_half(s0.regs, s) as i16 as i64) * 65536) as i64;
                    let new = sext40(result);
                    &&& s1.regs.acc40@ == s0.regs.acc40@.update(d, Acc40::spec_from(result))
                    &&& s1.regs.status.bits == arith_status(s0.regs.status.bits, false, false, new)
                    &&& keeps(s0.regs, s1.regs, 9, 12)
                })
    &&& only_regs(s0, s1)
    &&& b1 == b0
}

/// What the `neg` handler does, as its contract states.
pub open spec fn ran_neg(ins: Ins, s0: Interpreter, b0: Bus, s1: Interpreter, b1: Bus) -> bool {
    &&& ({
                    let d = ((ins.base >> 8u16) & 1) as int;
                    let prev = s0.regs.acc40[d].value();
                    let result: i64 = (-prev) as i64;
                    let new = sext40(result);
                    &&& s1.regs.acc40@ == s0.regs.acc40@.update(d, Acc40::spec_from(result))
                    &&& s1.regs.status.bits == arith_status(s0.regs.status.bits, prev == 0, prev == 0x100_0000_0000, new)
                    &&& keeps(s0.regs, s1.regs, 9, 12)
                })
    &&& only_regs(s0, s1)
    &&& b1 == b0
}

/// What the `abs` handler does, as its contract states.
pub open spec fn ran_abs(ins: Ins, s0: Interpreter, b0: Bus, s1: Interpreter, b1: Bus) -> bool {
    &&& ({
                    let d = ((ins.base >> 11u16) & 1) as int;
                    let prev = s0.regs.acc40[d].value();
                    let result: i64 = (if prev < 0 { -prev } else { prev as int }) as i64;
                    let new = sext40(result);
                    &&& s1.regs.acc40@ == s0.regs.acc40@.update(d, Acc40::spec_from(result))
                    &&& s1.regs.status.bits == arith_status(s0.regs.status.bits, false, new == ACC40_MIN, new)
                    &&& keeps(s0.regs, s1.regs, 9, 12)
                })
    &&& only_regs(s0, s1)
    &&& b1 == b0
}

/// What the `movp` handler does, as its contract states.
pub open spec fn ran_movp(ins: Ins, s0: Interpreter, b0: Bus, s1: Interpreter, b1: Bus) -> bool {
    &&& ({
                    let d = ((ins.base >> 8u16) & 1) as int;
                    let result: i64 = s0.regs.product.spec_value();
                    let new = sext40(result);
                    &&& s1.regs.acc40@ == s0.regs.acc40@.update(d, Acc40::spec_from(result))
                    &&& s1.regs.status.bits == arith_status(s0.regs.status.bits, s0.regs.product.spec_carry(), s0.regs.product.spec_overflow(), new)
                    &&& keeps(s0.regs, s1.regs, 9, 12)
                })
    &&& only_regs(s0, s1)
    &&& b1 == b0
}

/// What the `movnp` handler does, as its contract states.
pub open spec fn ran_movnp(ins: Ins, s0: Interpreter, b0: Bus, s1: Interpreter, b1: Bus) -> bool {
    &&& ({
                    let d = ((ins.base >> 8u16) & 1) as int;
                    let result: i64 = (-s0.regs.product.spec_value()) as i64;
                    let new = sext40(result);
                    &&& s1.regs.acc40@ == s0.regs.acc40@.update(d, Acc40::spec_from(result))
                    &&& s1.regs.status.bits == arith_status(s0.regs.status.bits, s0.regs.product.spec_value() != 0 && !s0.regs.product.spec_carry(), s0.regs.product.spec_overflow(), new)
                    &&& keeps(s0.regs, s1.regs, 9, 12)
                })
    &&& only_regs(s0, s1)
    &&& b1 == b0
}

/// What the `movpz` handler does, as its contract states.
pub open spec fn ran_movpz(ins: Ins, s0: Interpreter, b0: Bus, s1: Interpreter, b1: Bus) -> bool {
    &&& ({
                    let d = ((ins.base >> 8u16) & 1) as int;
                    let result: i64 = spec_round_40(s0.regs.product.spec_value());
                    let new = sext40(result);
                    &&& s1.regs.acc40@ == s0.regs.acc40@.update(d, Acc40::spec_from(result))
                    &&& s1.regs.status.bits == arith_status(s0.regs.status.bits, s0.regs.product.spec_carry(), s0.regs.product.spec_overflow(), new)
                    &&& keeps(s0.regs, s1.regs, 9, 12)
                })
    &&& only_regs(s0, s1)
    &&& b1 == b0
}

/// What the `asl` handler does, as its contract states.
pub open spec fn ran_asl(ins: Ins, s0: Interpreter, b0: Bus, s1: Interpreter, b1: Bus) -> bool {
    &&& ({
                    let d = ((ins.base >> 8u16) & 1) as int;
                    let result: i64 = s0.regs.acc40[d].value() << ((ins.base & 0x3F) as u64);
                    let new = sext40(result);
                    &&& s1.regs.acc40@ == s0.regs.acc40@.update(d, Acc40::spec_from(result))
                    &&& s1.regs.status.bits == arith_status(s0.regs.status.bits, false, false, new)
                    &&& keeps(s0.regs, s1.regs, 9, 12)
                })
    &&& only_regs(s0, s1)
    &&& b1 == b0
}

/// What the `lsl` handler does, as its contract states.
pub open spec fn ran_lsl(ins: Ins, s0: Interpreter, b0: Bus, s1: Interpreter, b1: Bus) -> bool {
    &&& ({
                    let d = ((ins.base >> 8u16) & 1) as int;
                    let result: i64 = s0.regs.acc40[d].value() << ((ins.base & 0x3F) as u64);
                    let new = sext40(result);
                    &&& s1.regs.acc40@ == s0.regs.acc40@.update(d, Acc40::spec_from(result))
                    &&& s1.regs.status.bits == arith_status(s0.regs.status.bits, false, false, new)
                    &&& keeps(s0.regs, s1.regs, 9, 12)
                })
    &&& only_regs(s0, s1)
    &&& b1 == b0
}

/// What the `asr` handler does, as its contract states.
pub open spec fn ran_asr(ins: Ins, s0: Interpreter, b0: Bus, s1: Interpreter, b1: Bus) -> bool {
    &&& ({
                    let d = ((ins.base >> 8u16) & 1) as int;
                    let result: i64 = s0.regs.acc40[d].value() >> (((64 - (ins.base & 0x3F)) % 64) as u64);
                    let new = sext40(result);
                    &&& s1.regs.acc40@ == s0.regs.acc40@.update(d, Acc40::spec_from(result))
                    &&& s1.regs.status.bits == arith_status(s0.regs.status.bits, false, false, new)
                    &&& keeps(s0.regs, s1.regs, 9, 12)
                })
    &&& only_regs(s0, s1)
    &&& b1 == b0
}

/// What the `lsr` handler does, as its contract states.
pub open spec fn ran_lsr(ins: Ins, s0: Interpreter, b0: Bus, s1: Interpreter, b1: Bus) -> bool {
    &&& ({
                    let d = ((ins.base >> 8u16) & 1) as int;
                    let result: i64 = (((s0.regs.acc40[d].value() as u64) & 0xFF_FFFF_FFFFu64) >> (((64 - (ins.base & 0x3F)) % 64) as u64)) as i64;
                    let new = sext40(result);
                    &&& s1.regs.acc40@ == s0.regs.acc40@.update(d, Acc40::spec_from(result))
                    &&& s1.regs.status.bits == arith_status(s0.regs.status.bits, false, false, new)
                    &&& keeps(s0.regs, s1.regs, 9, 12)
                })
    &&& only_regs(s0, s1)
    &&& b1 == b0
}

/// What the `lsl16` handler does, as its contract states.
pub open spec fn ran_lsl16(ins: Ins, s0: Interpreter, b0: Bus, s1: Interpreter, b1: Bus) -> bool {
    &&& ({
                    let d = ((ins.base >> 8u16) & 1) as int;
                    let result: i64 = s0.regs.acc40[d].value() << 16u64;
                    let new = sext40(result);
                    &&& s1.regs.acc40@ == s0.regs.acc40@.update(d, Acc40::spec_from(result))
                    &&& s1.regs.status.bits == arith_status(s0.regs.status.bits, false, false, new)
                    &&& keeps(s0.regs, s1.regs, 9, 12)
                })
    &&& only_regs(s0, s1)
    &&& b1 == b0
}

/// What the `lsr16` handler does, as its contract states.
pub open spec fn ran_lsr16(ins: Ins, s0: Interpreter, b0: Bus, s1: Interpreter, b1: Bus) -> bool {
    &&& ({
                    let d = ((ins.base >> 8u16) & 1) as int;
                    let result: i64 = (((s0.regs.acc40[d].value() as u64) & 0xFF_FFFF_FFFFu64) >> 16u64) as i64;
                    let new = sext40(result);
                    &&& s1.regs.acc40@ == s0.regs.acc40@.update(d, Acc40::spec_from(result))
                    &&& s1.regs.status.bits == arith_status(s0.regs.status.bits, false, false, new)
                    &&& keeps(s0.regs, s1.regs, 9, 12)
                })
    &&& only_regs(s0, s1)
    &&& b1 == b0
}

/// What the `asr16` handler does, as its contract states.
pub open spec fn ran_asr16(ins: Ins, s0: Interpreter, b0: Bus, s1: Interpreter, b1: Bus) -> bool {
    &&& ({
                    let d = ((ins.base >> 11u16) & 1) as int;
                    let result: i64 = s0.regs.acc40[d].value() >> 16u64;
                    let new = sext40(result);
                    &&& s1.regs.acc40@ == s0.regs.acc40@.update(d, Acc40::spec_from(result))
                    &&& s1.regs.status.bits == arith_status(s0.regs.status.bits, false, false, new)
                    &&& keeps(s0.regs, s1.regs, 9, 12)
                })
    &&& only_regs(s0, s1)
    &&& b1 == b0
}

/// What the `tst` handler does, as its contract states.
pub open spec fn ran_tst(ins: Ins, s0: Interpreter, b0: Bus, s1: Interpreter, b1: Bus) -> bool {
    &&& ({
                    let r = ((ins.base >> 11u16) & 1) as int;
                    let v: i64 = s0.regs.acc40[r].value();
                    &&& s1.regs.status.bits == arith_status(s0.regs.status.bits, false, false, v)
                    &&& keeps(s0.regs, s1.regs, 12, 12)
                })
    &&& only_regs(s0, s1)
    &&& b1 == b0
}

/// What the `tstprod` handler does, as its contract states.
pub open spec fn ran_tstprod(ins: Ins, s0: Interpreter, b0: Bus, s1: Interpreter, b1: Bus) -> bool {
    &&& ({
                    let v: i64 = s0.regs.product.spec_value();
                    &&& s1.regs.status.bits == arith_status(s0.regs.status.bits, s0.regs.product.spec_carry(), s0.regs.product.spec_overflow(), v)
                    &&& keeps(s0.regs, s1.regs, 12, 12)
                })
    &&& only_regs(s0, s1)
    &&& b1 == b0
}

/// What the `andi` handler does, as its contract states.
pub open spec fn ran_andi(ins: Ins, s0: Interpreter, b0: Bus, s1: Interpreter, b1: Bus) -> bool {
    &&& ({
                    let d = ((ins.base >> 8u16) & 1) as int;
                    let mid: u16 = s0.regs.acc40[d].mid & ins.extra;
                    let acc = Acc40 { mid, ..s0.regs.acc40[d] };
                    &&& s1.regs.acc40@ == s0.regs.acc40@.update(d, acc)
                    &&& s1.regs.status.bits == logic_status(s0.regs.status.bits, acc.value(), mid)
                    &&& keeps(s0.regs, s1.regs, 9, 12)
                })
    &&& only_regs(s0, s1)
    &&& b1 == b0
}

/// What the `ori` handler does, as its contract states.
pub open spec fn ran_ori(ins: Ins, s0: Interpreter, b0: Bus, s1: Interpreter, b1: Bus) -> bool {
    &&& ({
                    let d = ((ins.base >> 8u16) & 1) as int;
                    let mid: u16 = s0.regs.acc40[d].mid | ins.extra;
                    let acc = Acc40 { mid, ..s0.regs.acc40[d] };
                    &&& s1.regs.acc40@ == s0.regs.acc40@.update(d, acc)
                    &&& s1.regs.status.bits == logic_status(s0.regs.status.bits, acc.value(), mid)
                    &&& keeps(s0.regs, s1.regs, 9, 12)
                })
    &&& only_regs(s0, s1)
    &&& b1 == b0
}

/// What the `xori` handler does, as its contract states.
pub open spec fn ran_xori(ins: Ins, s0: Interpreter, b0: Bus, s1: Interpreter, b1: Bus) -> bool {
    &&& ({
                    let d = ((ins.base >> 8u16) & 1) as int;
                    let mid: u16 = s0.regs.acc40[d].mid ^ ins.extra;
                    let acc = Acc40 { mid, ..s0.regs.acc40[d] };
                    &&& s1.regs.acc40@ == s0.regs.acc40@.update(d, acc)
                    &&& s1.regs.status.bits == logic_status(s0.regs.status.bits, acc.value(), mid)
                    &&& keeps(s0.regs, s1.regs, 9, 12)
                })
    &&& only_regs(s0, s1)
    &&& b1 == b0
}

/// What the `andc` handler does, as its contract states.
pub open spec fn ran_andc(ins: Ins, s0: Interpreter, b0: Bus, s1: Interpreter, b1: Bus) -> bool {
    &&& ({
                    let d = ((ins.base >> 8u16) & 1) as int;
                    let mid: u16 = s0.regs.acc40[d].mid & s0.regs.acc40[1 - d].mid;
                    let acc = Acc40 { mid, ..s0.regs.acc40[d] };
                    &&& s1.regs.acc40@ == s0.regs.acc40@.update(d, acc)
                    &&& s1.regs.status.bits == logic_status(s0.regs.status.bits, acc.value(), mid)
                    &&& keeps(s0.regs, s1.regs, 9, 12)
                })
    &&& only_regs(s0, s1)
    &&& b1 == b0
}

/// What the `orc` handler does, as its contract states.
pub open spec fn ran_orc(ins: Ins, s0: Interpreter, b0: Bus, s1: Interpreter, b1: Bus) -> bool {
    &&& ({
                    let d = ((ins.base >> 8u16) & 1) as int;
                    let mid: u16 = s0.regs.acc40[d].mid | s0.regs.acc40[1 - d].mid;
                    let acc = Acc40 { mid, ..s0.regs.acc40[d] };
                    &&& s1.regs.acc40@ == s0.regs.acc40@.update(d, acc)
                    &&& s1.regs.status.bits == logic_status(s0.regs.status.bits, acc.value(), mid)
                    &&& keeps(s0.regs, s1.regs, 9, 12)
                })
    &&& only_regs(s0, s1)
    &&& b1 == b0
}

/// What the `xorc` handler does, as its contract states.
pub open spec fn ran_xorc(ins: Ins, s0: Interpreter, b0: Bus, s1: Interpreter, b1: Bus) -> bool {
    &&& ({
                    let d = ((ins.base >> 8u16) & 1) as int;
                    let mid: u16 = s0.regs.acc40[d].mid ^ s0.regs.acc40[1 - d].mid;
                    let acc = Acc40 { mid, ..s0.regs.acc40[d] };
                    &&& s1.regs.acc40@ == s0.regs.acc40@.update(d, acc)
                    &&& s1.regs.status.bits == logic_status(s0.regs.status.bits, acc.value(), mid)
                    &&& keeps(s0.regs, s1.regs, 9, 12)
                })
    &&& only_regs(s0, s1)
    &&& b1 == b0
}

/// What the `andr` handler does, as its contract states.
pub open spec fn ran_andr(ins: Ins, s0: Interpreter, b0: Bus, s1: Interpreter, b1: Bus) -> bool {
    &&& ({
                    let d = ((ins.base >> 8u16) & 1) as int;
                    let s = ((ins.base >> 9u16) & 1) as int;
                    let mid: u16 = s0.regs.acc40[d].mid & (s0.regs.acc32[s] >> 16i32) as u16;
                    let acc = Acc40 { mid, ..s0.regs.acc40[d] };
                    &&& s1.regs.acc40@ == s0.regs.acc40@.update(d, acc)
                    &&& s1.regs.status.bits == logic_status(s0.regs.status.bits, acc.value(), mid)
                    &&& keeps(s0.regs, s1.regs, 9, 12)
                })
    &&& only_regs(s0, s1)
    &&& b1 == b0
}

/// What the `orr` handler does, as its contract states.
pub open spec fn ran_orr(ins: Ins, s0: Interpreter, b0: Bus, s1: Interpreter, b1: Bus) -> bool {
    &&& ({
                    let d = ((ins.base >> 8u16) & 1) as int;
                    let s = ((ins.base >> 9u16) & 1) as int;
                    let mid: u16 = s0.regs.acc40[d].mid | (s0.regs.acc32[s] >> 16i32) as u16;
                    let acc = Acc40 { mid, ..s0.regs.acc40[d] };
                    &&& s1.regs.acc40@ == s0.regs.acc40@.update(d, acc)
                    &&& s1.regs.status.bits == logic_status(s0.regs.status.bits, acc.value(), mid)
                    &&& keeps(s0.regs, s1.regs, 9, 12)
                })
    &&& only_regs(s0, s1)
    &&& b1 == b0
}

/// What the `xorr` handler does, as its contract states.
pub open spec fn ran_xorr(ins: Ins, s0: Interpreter, b0: Bus, s1: Interpreter, b1: Bus) -> bool {
    &&& ({
                    let d = ((ins.base >> 8u16) & 1) as int;
                    let s = ((ins.base >> 9u16) & 1) as int;
                    let mid: u16 = s0.regs.acc40[d].mid ^ (s0.regs.acc32[s] >> 16i32) as u16;
                    let acc = Acc40 { mid, ..s0.regs.acc40[d] };
                    &&& s1.regs.acc40@ == s0.regs.acc40@.update(d, acc)
                    &&& s1.regs.status.bits == logic_status(s0.regs.status.bits, acc.value(), mid)
                    &&& keeps(s0.regs, s1.regs, 9, 12)
                })
    &&& only_regs(s0, s1)
    &&& b1 == b0
}

/// What the `not` handler does, as its contract states.
pub open spec fn ran_not(ins: Ins, s0: Interpreter, b0: Bus, s1: Interpreter, b1: Bus) -> bool {
    &&& ({
                    let d = ((ins.base >> 8u16) & 1) as int;
                    let mid: u16 = s0.regs.acc40[d].mid ^ 0xFFFFu16;
                    let acc = Acc40 { mid, ..s0.regs.acc40[d] };
                    &&& s1.regs.acc40@ == s0.regs.acc40@.update(d, acc)
                    &&& s1.regs.status.bits == logic_status(s0.regs.status.bits, acc.value(), mid)
                    &&& keeps(s0.regs, s1.regs, 9, 12)
                })
    &&& only_regs(s0, s1)
    &&& b1 == b0
}

/// What the `m0` handler does, as its contract states.
pub open spec fn ran_m0(ins: Ins, s0: Interpreter, b0: Bus, s1: Interpreter, b1: Bus) -> bool {
    &&& s1.regs.status.bits == with_flag(s0.regs.status.bits, 13, true)
    &&& keeps(s0.regs, s1.regs, 12, 12)
    &&& only_regs(s0, s1)
    &&& b1 == b0
}

/// What the `m2` handler does, as its contract states.
pub open spec fn ran_m2(ins: Ins, s0: Interpreter, b0: Bus, s1: Interpreter, b1: Bus) -> bool {
    &&& s1.regs.status.bits == with_flag(s0.regs.status.bits, 13, false)
    &&& keeps(s0.regs, s1.regs, 12, 12)
    &&& only_regs(s0, s1)
    &&& b1 == b0
}

/// What the `clr15` handler does, as its contract states.
pub open spec fn ran_clr15(ins: Ins, s0: Interpreter, b0: Bus, s1: Interpreter, b1: Bus) -> bool {
    &&& s1.regs.status.bits == with_flag(s0.regs.status.bits, 15, false)
    &&& keeps(s0.regs, s1.regs, 12, 12)
    &&& only_regs(s0, s1)
    &&& b1 == b0
}

/// What the `set15` handler does, as its contract states.
pub open spec fn ran_set15(ins: Ins, s0: Interpreter, b0: Bus, s1: Interpreter, b1: Bus) -> bool {
    &&& s1.regs.status.bits == with_flag(s0.regs.status.bits, 15, true)
    &&& keeps(s0.regs, s1.regs, 12, 12)
    &&& only_regs(s0, s1)
    &&& b1 == b0
}

/// What the `set16` handler does, as its contract states.
pub open spec fn ran_set16(ins: Ins, s0: Interpreter, b0: Bus, s1: Interpreter, b1: Bus) -> bool {
    &&& s1.regs.status.bits == with_flag(s0.regs.status.bits, 14, false)
    &&& keeps(s0.regs, s1.regs, 12, 12)
    &&& only_regs(s0, s1)
    &&& b1 == b0
}

/// What the `set40` handler does, as its contract states.
pub open spec fn ran_set40(ins: Ins, s0: Interpreter, b0: Bus, s1: Interpreter, b1: Bus) -> bool {
    &&& s1.regs.status.bits == with_flag(s0.regs.status.bits, 14, true)
    &&& keeps(s0.regs, s1.regs, 12, 12)
    &&& only_regs(s0, s1)
    &&& b1 == b0
}

/// What the `sbclr` handler does, as its contract states.
pub open spec fn ran_sbclr(ins: Ins, s0: Interpreter, b0: Bus, s1: Interpreter, b1: Bus) -> bool {
    &&& ({
                    let idx = (6 + (ins.base & 7)) as u16;
                    s1.regs.status.bits == if idx == 13 {
                        s0.regs.status.bits
                    } else {
                        with_flag(s0.regs.status.bits, idx, false)
                    }
                })
    &&& keeps(s0.regs, s1.regs, 12, 12)
    &&& only_regs(s0, s1)
    &&& b1 == b0
}

/// What the `sbset` handler does, as its contract states.
pub open spec fn ran_sbset(ins: Ins, s0: Interpreter, b0: Bus, s1: Interpreter, b1: Bus) -> bool {
    &&& ({
                    let idx = (6 + (ins.base & 7)) as u16;
                    s1.regs.status.bits == if idx == 13 || idx == 8 {
                        s0.regs.status.bits
                    } else {
                        with_flag(s0.regs.status.bits, idx, true)
                    }
                })
    &&& keeps(s0.regs, s1.regs, 12, 12)
    &&& only_regs(s0, s1)
    &&& b1 == b0
}

/// What the `andf` handler does, as its contract states.
pub open spec fn ran_andf(ins: Ins, s0: Interpreter, b0: Bus, s1: Interpreter, b1: Bus) -> bool {
    &&& ({
                    let d = bit_index(ins.base, 8);
                    s1.regs.status.bits == with_flag(s0.regs.status.bits, 6, s0.regs.acc40[d].mid & ins.extra == 0)
                })
    &&& keeps(s0.regs, s1.regs, 12, 12)
    &&& only_regs(s0, s1)
    &&& b1 == b0
}

/// What the `andcf` handler does, as its contract states.
pub open spec fn ran_andcf(ins: Ins, s0: Interpreter, b0: Bus, s1: Interpreter, b1: Bus) -> bool {
    &&& ({
                    let d = bit_index(ins.base, 8);
                    s1.regs.status.bits == with_flag(s0.regs.status.bits, 6, s0.regs.acc40[d].mid & ins.extra == ins.extra)
                })
    &&& keeps(s0.regs, s1.regs, 12, 12)
    &&& only_regs(s0, s1)
    &&& b1 == b0
}

/// What the `tstaxh` handler does, as its contract states.
pub open spec fn ran_tstaxh(ins: Ins, s0: Interpreter, b0: Bus, s1: Interpreter, b1: Bus) -> bool {
    &&& ({
                    let r = bit_index(ins.base, 8);
                    let acc = s0.regs.acc32[r] >> 16i32;
                    s1.regs.status.bits == with_flag(arith_status(s0.regs.status.bits, false, false, acc as i64), 5, (acc >> 15i32) & 1 == (acc >> 14i32) & 1)
                })
    &&& keeps(s0.regs, s1.regs, 12, 12)
    &&& only_regs(s0, s1)
    &&& b1 == b0
}

/// What the `clrp` handler does, as its contract states.
pub open spec fn ran_clrp(ins: Ins, s0: Interpreter, b0: Bus, s1: Interpreter, b1: Bus) -> bool {
    &&& s1.regs.product == (Product { low: 0x0000, mid1: 0xFFF0, mid2: 0x0010, high: 0x00FF })
    &&& keeps(s0.regs, s1.regs, 8, 8)
    &&& only_regs(s0, s1)
    &&& b1 == b0
}

/// What the `addp` handler does, as its contract states.
pub open spec fn ran_addp(ins: Ins, s0: Interpreter, b0: Bus, s1: Interpreter, b1: Bus) -> bool {
    &&& ({
                    let d = bit_index(ins.base, 8);
                    let lhs = s0.regs.acc40[d].value();
                    let p = s0.regs.product;
                    let rhs = p.spec_value();
                    let result = (lhs + rhs) as i64;
                    let new = sext40(result);
                    &&& s1.regs.acc40@ == s0.regs.acc40@.update(d, Acc40::spec_from(result))
                    &&& s1.regs.status.bits == arith_status(s0.regs.status.bits, spec_add_carried(lhs, new) || p.spec_carry(), spec_add_overflowed(lhs, rhs, new) != p.spec_overflow(), new)
                    &&& keeps(s0.regs, s1.regs, 9, 12)
                })
    &&& only_regs(s0, s1)
    &&& b1 == b0
}

/// What the `subp` handler does, as its contract states.
pub open spec fn ran_subp(ins: Ins, s0: Interpreter, b0: Bus, s1: Interpreter, b1: Bus) -> bool {
    &&& ({
                    let d = bit_index(ins.base, 8);
                    let lhs = s0.regs.acc40[d].value();
                    let p = s0.regs.product;
                    let rhs = p.spec_value();
                    let result = (lhs - rhs) as i64;
                    let new = sext40(result);
                    &&& s1.regs.acc40@ == s0.regs.acc40@.update(d, Acc40::spec_from(result))
                    &&& s1.regs.status.bits == arith_status(s0.regs.status.bits, spec_sub_carried(lhs, new) != !p.spec_carry(), spec_sub_overflowed(lhs, rhs, new) != p.spec_overflow(), new)
                    &&& keeps(s0.regs, s1.regs, 9, 12)
                })
    &&& only_regs(s0, s1)
    &&& b1 == b0
}

/// What the `addpaxz` handler does, as its contract states.
pub open spec fn ran_addpaxz(ins: Ins, s0: Interpreter, b0: Bus, s1: Interpreter, b1: Bus) -> bool {
    &&& ({
                    let d = bit_index(ins.base, 8);
                    let s = bit_index(ins.base, 9);
                    let p = s0.regs.product;
                    let lhs = spec_round_40(p.spec_value());
                    let rhs = s0.regs.acc32[s] as i64;
                    let result = ((lhs + rhs) as i64) & !0xFFFFi64;
                    let new = sext40(result);
                    &&& s1.regs.acc40@ == s0.regs.acc40@.update(d, Acc40::spec_from(result))
                    &&& s1.regs.status.bits == arith_status(s0.regs.status.bits, spec_add_carried(lhs, new) != p.spec_carry(), spec_add_overflowed(lhs, rhs, new) != p.spec_overflow(), new)
                    &&& keeps(s0.regs, s1.regs, 9, 12)
                })
    &&& only_regs(s0, s1)
    &&& b1 == b0
}

/// What the `iar` handler does, as its contract states.
pub open spec fn ran_iar(ins: Ins, s0: Interpreter, b0: Bus, s1: Interpreter, b1: Bus) -> bool {
    &&& ({
                    let r = (ins.base & 3) as int;
                    s1.regs.addressing@ == s0.regs.addressing@.update(r, spec_add_to_addr_reg(s0.regs.addressing[r], s0.regs.wrapping[r], 1))
                })
    &&& keeps(s0.regs, s1.regs, 1, 1)
    &&& only_regs(s0, s1)
    &&& b1 == b0
}

/// What the `dar` handler does, as its contract states.
pub open spec fn ran_dar(ins: Ins, s0: Interpreter, b0: Bus, s1: Interpreter, b1: Bus) -> bool {
    &&& ({
                    let r = (ins.base & 3) as int;
                    s1.regs.addressing@ == s0.regs.addressing@.update(r, spec_sub_from_addr_reg(s0.regs.addressing[r], s0.regs.wrapping[r], 1))
                })
    &&& keeps(s0.regs, s1.regs, 1, 1)
    &&& only_regs(s0, s1)
    &&& b1 == b0
}

/// What the `addarn` handler does, as its contract states.
pub open spec fn ran_addarn(ins: Ins, s0: Interpreter, b0: Bus, s1: Interpreter, b1: Bus) -> bool {
    &&& ({
                    let d = (ins.base & 3) as int;
                    let s = ((ins.base >> 2u16) & 3) as int;
                    s1.regs.addressing@ == s0.regs.addressing@.update(d, spec_add_to_addr_reg(s0.regs.addressing[d], s0.regs.wrapping[d], s0.regs.indexing[s] as i16))
                })
    &&& keeps(s0.regs, s1.regs, 1, 1)
    &&& only_regs(s0, s1)
    &&& b1 == b0
}

/// What the `subarn` handler does, as its contract states.
pub open spec fn ran_subarn(ins: Ins, s0: Interpreter, b0: Bus, s1: Interpreter, b1: Bus) -> bool {
    &&& ({
                    let d = (ins.base & 3) as int;
                    s1.regs.addressing@ == s0.regs.addressing@.update(d, spec_sub_from_addr_reg(s0.regs.addressing[d], s0.regs.wrapping[d], s0.regs.indexing[d] as i16))
                })
    &&& keeps(s0.regs, s1.regs, 1, 1)
    &&& only_regs(s0, s1)
    &&& b1 == b0
}

/// What the `mulaxh` handler does, as its contract states.
pub open spec fn ran_mulaxh(ins: Ins, s0: Interpreter, b0: Bus, s1: Interpreter, b1: Bus) -> bool {
    &&& ({
                    let v = (s0.regs.acc32[0] >> 16i32) as int;
                    s1.regs.product == Product::spec_set(scaled_product(s0.regs.status.bits, v * v) as i64)
                })
    &&& keeps(s0.regs, s1.regs, 8, 8)
    &&& only_regs(s0, s1)
    &&& b1 == b0
}

/// What the `mulx` handler does, as its contract states.
pub open spec fn ran_mulx(ins: Ins, s0: Interpreter, b0: Bus, s1: Interpreter, b1: Bus) -> bool {
    &&& s1.regs.product == Product::spec_set(mulx_product(s0.regs, ins.base))
    &&& keeps(s0.regs, s1.regs, 8, 8)
    &&& only_regs(s0, s1)
    &&& b1 == b0
}

/// What the `mulxac` handler does, as its contract states.
pub open spec fn ran_mulxac(ins: Ins, s0: Interpreter, b0: Bus, s1: Interpreter, b1: Bus) -> bool {
    &&& ({
                    let r = bit_index(ins.base, 8);
                    let result = (s0.regs.acc40[r].value() + s0.regs.product.spec_value()) as i64;
                    &&& s1.regs.acc40@ == s0.regs.acc40@.update(r, Acc40::spec_from(result))
                    &&& s1.regs.product == Product::spec_set(mulx_product(s0.regs, ins.base))
                    &&& keeps(s0.regs, s1.regs, 8, 9)
                })
    &&& only_regs(s0, s1)
    &&& b1 == b0
}

/// What the `mulxmv` handler does, as its contract states.
pub open spec fn ran_mulxmv(ins: Ins, s0: Interpreter, b0: Bus, s1: Interpreter, b1: Bus) -> bool {
    &&& ({
                    let r = bit_index(ins.base, 8);
                    let result = s0.regs.product.spec_value();
                    &&& s1.regs.acc40@ == s0.regs.acc40@.update(r, Acc40::spec_from(result))
                    &&& s1.regs.product == Product::spec_set(mulx_product(s0.regs, ins.base))
                    &&& keeps(s0.regs, s1.regs, 8, 9)
                })
    &&& only_regs(s0, s1)
    &&& b1 == b0
}

/// What the `mulxmvz` handler does, as its contract states.
pub open spec fn ran_mulxmvz(ins: Ins, s0: Interpreter, b0: Bus, s1: Interpreter, b1: Bus) -> bool {
    &&& ({
                    let r = bit_index(ins.base, 8);
                    let result = spec_round_40(s0.regs.product.spec_value());
                    &&& s1.regs.acc40@ == s0.regs.acc40@.update(r, Acc40::spec_from(result))
                    &&& s1.regs.product == Product::spec_set(mulx_product(s0.regs, ins.base))
                    &&& keeps(s0.regs, s1.regs, 8, 9)
                })
    &&& only_regs(s0, s1)
    &&& b1 == b0
}

/// What the `asrn` handler does, as its contract states.
pub open spec fn ran_asrn(ins: Ins, s0: Interpreter, b0: Bus, s1: Interpreter, b1: Bus) -> bool {
    &&& ({
                    let result = shift_by(s0.regs.acc40[0].value(), s0.regs.acc40[1].mid, true);
                    &&& s1.regs.acc40@ == s0.regs.acc40@.update(0, Acc40::spec_from(result))
                    &&& s1.regs.status.bits == arith_status(s0.regs.status.bits, false, false, sext40(result))
                    &&& keeps(s0.regs, s1.regs, 9, 12)
                })
    &&& only_regs(s0, s1)
    &&& b1 == b0
}

/// What the `lsrn` handler does, as its contract states.
pub open spec fn ran_lsrn(ins: Ins, s0: Interpreter, b0: Bus, s1: Interpreter, b1: Bus) -> bool {
    &&& ({
                    let result = shift_by(low40(s0.regs.acc40[0].value()), s0.regs.acc40[1].mid, true);
                    &&& s1.regs.acc40@ == s0.regs.acc40@.update(0, Acc40::spec_from(result))
                    &&& s1.regs.status.bits == arith_status(s0.regs.status.bits, false, false, sext40(result))
                    &&& keeps(s0.regs, s1.regs, 9, 12)
                })
    &&& only_regs(s0, s1)
    &&& b1 == b0
}

/// What the `asrnr` handler does, as its contract states.
pub open spec fn ran_asrnr(ins: Ins, s0: Interpreter, b0: Bus, s1: Interpreter, b1: Bus) -> bool {
    &&& ({
                    let d = bit_index(ins.base, 8);
                    let result = shift_by(s0.regs.acc40[d].value(), s0.regs.acc40[1 - d].mid, false);
                    &&& s1.regs.acc40@ == s0.regs.acc40@.update(d, Acc40::spec_from(result))
                    &&& s1.regs.status.bits == arith_status(s0.regs.status.bits, false, false, sext40(result))
                    &&& keeps(s0.regs, s1.regs, 9, 12)
                })
    &&& only_regs(s0, s1)
    &&& b1 == b0
}

/// What the `lsrnr` handler does, as its contract states.
pub open spec fn ran_lsrnr(ins: Ins, s0: Interpreter, b0: Bus, s1: Interpreter, b1: Bus) -> bool {
    &&& ({
                    let d = bit_index(ins.base, 8);
                    let result = shift_by(low40(s0.regs.acc40[d].value()), s0.regs.acc40[1 - d].mid, false);
                    &&& s1.regs.acc40@ == s0.regs.acc40@.update(d, Acc40::spec_from(result))
                    &&& s1.regs.status.bits == arith_status(s0.regs.status.bits, false, false, sext40(result))
                    &&& keeps(s0.regs, s1.regs, 9, 12)
                })
    &&& only_regs(s0, s1)
    &&& b1 == b0
}

/// What the `asrnrx` handler does, as its contract states.
pub open spec fn ran_asrnrx(ins: Ins, s0: Interpreter, b0: Bus, s1: Interpreter, b1: Bus) -> bool {
    &&& ({
                    let d = bit_index(ins.base, 8);
                    let s = bit_index(ins.base, 9);
                    let result = shift_by(s0.regs.acc40[d].value(), acc32_half(s0.regs, 2 + s), false);
                    &&& s1.regs.acc40@ == s0.regs.acc40@.update(d, Acc40::spec_from(result))
                    &&& s1.regs.status.bits == arith_status(s0.regs.status.bits, false, false, sext40(result))
                    &&& keeps(s0.regs, s1.regs, 9, 12)
                })
    &&& only_regs(s0, s1)
    &&& b1 == b0
}

/// What the `lsrnrx` handler does, as its contract states.
pub open spec fn ran_lsrnrx(ins: Ins, s0: Interpreter, b0: Bus, s1: Interpreter, b1: Bus) -> bool {
    &&& ({
                    let d = bit_index(ins.base, 8);
                    let s = bit_index(ins.base, 9);
                    let result = shift_by(low40(s0.regs.acc40[d].value()), acc32_half(s0.regs, 2 + s), false);
                    &&& s1.regs.acc40@ == s0.regs.acc40@.update(d, Acc40::spec_from(result))
                    &&& s1.regs.status.bits == arith_status(s0.regs.status.bits, false, false, sext40(result))
                    &&& keeps(s0.regs, s1.regs, 9, 12)
                })
    &&& only_regs(s0, s1)
    &&& b1 == b0
}

/// What the `lris` handler does, as its contract states.
pub open spec fn ran_lris(ins: Ins, s0: Interpreter, b0: Bus, s1: Interpreter, b1: Bus) -> bool {
    &&& wrote_saturating(s0.regs, s1.regs, reg_at((0x18 + ((ins.base >> 8u16) & 7)) as u8), (ins.base & 0xFF) as u8 as i8 as i16 as u16)
    &&& only_regs(s0, s1)
    &&& b1 == b0
}

/// What the `ifcc` handler does, as its contract states.
pub open spec fn ran_ifcc(ins: Ins, s0: Interpreter, b0: Bus, s1: Interpreter, b1: Bus) -> bool {
    &&& s1.regs.pc == if spec_condition(s0.regs.status.bits, cond_of(ins.base)) {
                    s0.regs.pc
                } else {
                    (s0.regs.pc + 1) as u16
                }
    &&& keeps(s0.regs, s1.regs, 0, 0)
    &&& only_regs(s0, s1)
    &&& b1 == b0
}

/// What the `jmp` handler does, as its contract states.
pub open spec fn ran_jmp(ins: Ins, s0: Interpreter, b0: Bus, s1: Interpreter, b1: Bus) -> bool {
    &&& s1.regs.pc == if spec_condition(s0.regs.status.bits, cond_of(ins.base)) {
                    (ins.extra - 2) as u16
                } else {
                    s0.regs.pc
                }
    &&& keeps(s0.regs, s1.regs, 0, 0)
    &&& only_regs(s0, s1)
    &&& b1 == b0
}

/// What the `jmpr` handler does, as its contract states.
pub open spec fn ran_jmpr(ins: Ins, s0: Interpreter, b0: Bus, s1: Interpreter, b1: Bus) -> bool {
    &&& s1.regs.pc == if spec_condition(s0.regs.status.bits, cond_of(ins.base)) {
                    (reg_value(s0.regs, reg_at(((ins.base >> 5u16) & 7) as u8)) - 1) as u16
                } else {
                    s0.regs.pc
                }
    &&& keeps(s0.regs, s1.regs, 0, 0)
    &&& only_regs(s0, s1)
    &&& b1 == b0
}

/// What the `call` handler does, as its contract states.
pub open spec fn ran_call(ins: Ins, s0: Interpreter, b0: Bus, s1: Interpreter, b1: Bus) -> bool {
    &&& spec_condition(s0.regs.status.bits, cond_of(ins.base)) ==> s1.regs.pc == (ins.extra - 2) as u16
                    && stack8_items(s1.regs.call_stack) == stack8_items(s0.regs.call_stack).push(s0.regs.pc.wrapping_add(2))
                    && keeps(s0.regs, s1.regs, 0, 4)
    &&& !spec_condition(s0.regs.status.bits, cond_of(ins.base)) ==> s1.regs == s0.regs
    &&& only_regs(s0, s1)
    &&& b1 == b0
}

/// What the `callr` handler does, as its contract states.
pub open spec fn ran_callr(ins: Ins, s0: Interpreter, b0: Bus, s1: Interpreter, b1: Bus) -> bool {
    &&& spec_condition(s0.regs.status.bits, cond_of(ins.base)) ==> s1.regs.pc == (reg_value(s0.regs, reg_at(((ins.base >> 5u16) & 7) as u8)) - 1) as u16
                    && stack8_items(s1.regs.call_stack) == stack8_items(s0.regs.call_stack).push(s0.regs.pc.wrapping_add(1))
                    && keeps(s0.regs, s1.regs, 0, 4)
    &&& !spec_condition(s0.regs.status.bits, cond_of(ins.base)) ==> s1.regs == s0.regs
    &&& only_regs(s0, s1)
    &&& b1 == b0
}

/// What the `ret` handler does, as its contract states.
pub open spec fn ran_ret(ins: Ins, s0: Interpreter, b0: Bus, s1: Interpreter, b1: Bus) -> bool {
    &&& spec_condition(s0.regs.status.bits, cond_of(ins.base)) ==> s1.regs.pc == (stack8_items(s0.regs.call_stack).last() - 1) as u16
                    && stack8_items(s1.regs.call_stack) == stack8_items(s0.regs.call_stack).drop_last()
                    && keeps(s0.regs, s1.regs, 0, 4)
    &&& !spec_condition(s0.regs.status.bits, cond_of(ins.base)) ==> s1.regs == s0.regs
    &&& only_regs(s0, s1)
    &&& b1 == b0
}

/// What the `mrr` handler does, as its contract states.
pub open spec fn ran_mrr(ins: Ins, s0: Interpreter, b0: Bus, s1: Interpreter, b1: Bus) -> bool {
    &&& wrote_saturating(s0.regs, s1.regs, reg_at(((ins.base >> 5u16) & 0x1F) as u8), reg_value(s0.regs, reg_at((ins.base & 0x1F) as u8)))
    &&& only_regs(s0, s1)
    &&& b1 == b0
}

/// What the `lri` handler does, as its contract states.
pub open spec fn ran_lri(ins: Ins, s0: Interpreter, b0: Bus, s1: Interpreter, b1: Bus) -> bool {
    &&& wrote_saturating(s0.regs, s1.regs, reg_at((ins.base & 0x1F) as u8), ins.extra)
    &&& only_regs(s0, s1)
    &&& b1 == b0
}

/// What the `bloop` handler does, as its contract states.
pub open spec fn ran_bloop(ins: Ins, s0: Interpreter, b0: Bus, s1: Interpreter, b1: Bus) -> bool {
    &&& stack8_items(s1.regs.call_stack) == stack8_items(s0.regs.call_stack).push(s0.regs.pc.wrapping_add(2))
    &&& stack4_items(s1.regs.loop_stack) == stack4_items(s0.regs.loop_stack).push((ins.extra + 1) as u16)
    &&& stack4_items(s1.regs.loop_count) == stack4_items(s0.regs.loop_count).push(reg_value(s0.regs, reg_at((ins.base & 0x1F) as u8)))
    &&& s1.regs.pc == s0.regs.pc
    &&& s1.regs.addressing == s0.regs.addressing
    &&& s1.regs.acc40 == s0.regs.acc40
    &&& s1.regs.status == s0.regs.status
    &&& only_regs(s0, s1)
    &&& b1 == b0
}

/// What the `bloopi` handler does, as its contract states.
pub open spec fn ran_bloopi(ins: Ins, s0: Interpreter, b0: Bus, s1: Interpreter, b1: Bus) -> bool {
    &&& stack8_items(s1.regs.call_stack) == stack8_items(s0.regs.call_stack).push(s0.regs.pc.wrapping_add(2))
    &&& stack4_items(s1.regs.loop_stack) == stack4_items(s0.regs.loop_stack).push((ins.extra + 1) as u16)
    &&& stack4_items(s1.regs.loop_count) == stack4_items(s0.regs.loop_count).push(ins.base & 0xFF)
    &&& s1.regs.pc == s0.regs.pc
    &&& s1.regs.addressing == s0.regs.addressing
    &&& s1.regs.acc40 == s0.regs.acc40
    &&& s1.regs.status == s0.regs.status
    &&& only_regs(s0, s1)
    &&& b1 == b0
}

/// What the `mul` handler does, as its contract states.
pub open spec fn ran_mul(ins: Ins, s0: Interpreter, b0: Bus, s1: Interpreter, b1: Bus) -> bool {
    &&& s1.regs.product == Product::spec_set(
                    scaled_product(s0.regs.status.bits, halves_product(s0.regs.acc32[bit_index(ins.base, 11)])) as i64,
                )
    &&& keeps(s0.regs, s1.regs, 8, 8)
    &&& only_regs(s0, s1)
    &&& b1 == b0
}

/// What the `mulac` handler does, as its contract states.
pub open spec fn ran_mulac(ins: Ins, s0: Interpreter, b0: Bus, s1: Interpreter, b1: Bus) -> bool {
    &&& ({
                    let r = bit_index(ins.base, 8);
                    let result = (s0.regs.acc40[r].value() + s0.regs.product.spec_value()) as i64;
                    &&& s1.regs.acc40@ == s0.regs.acc40@.update(r, Acc40::spec_from(result))
                    &&& s1.regs.product == Product::spec_set(
                        scaled_product(s0.regs.status.bits, halves_product(s0.regs.acc32[bit_index(ins.base, 11)])) as i64,
                    )
                    &&& s1.regs.status.bits == mac_status(s0.regs.status.bits, sext40(result))
                    &&& keeps_but_mac(s0.regs, s1.regs)
                })
    &&& only_regs(s0, s1)
    &&& b1 == b0
}

/// What the `mulmv` handler does, as its contract states.
pub open spec fn ran_mulmv(ins: Ins, s0: Interpreter, b0: Bus, s1: Interpreter, b1: Bus) -> bool {
    &&& ({
                    let r = bit_index(ins.base, 8);
                    let result = s0.regs.product.spec_value();
                    &&& s1.regs.acc40@ == s0.regs.acc40@.update(r, Acc40::spec_from(result))
                    &&& s1.regs.product == Product::spec_set(
                        scaled_product(s0.regs.status.bits, halves_product(s0.regs.acc32[bit_index(ins.base, 11)])) as i64,
                    )
                    &&& s1.regs.status.bits == mac_status(s0.regs.status.bits, sext40(result))
                    &&& keeps_but_mac(s0.regs, s1.regs)
                })
    &&& only_regs(s0, s1)
    &&& b1 == b0
}

/// What the `mulmvz` handler does, as its contract states.
pub open spec fn ran_mulmvz(ins: Ins, s0: Interpreter, b0: Bus, s1: Interpreter, b1: Bus) -> bool {
    &&& ({
                    let r = bit_index(ins.base, 8);
                    let result = spec_round_40(s0.regs.product.spec_value());
                    &&& s1.regs.acc40@ == s0.regs.acc40@.update(r, Acc40::spec_from(result))
                    &&& s1.regs.product == Product::spec_set(
                        scaled_product(s0.regs.status.bits, halves_product(s0.regs.acc32[bit_index(ins.base, 11)])) as i64,
                    )
                    &&& s1.regs.status.bits == mac_status(s0.regs.status.bits, sext40(result))
                    &&& keeps_but_mac(s0.regs, s1.regs)
                })
    &&& only_regs(s0, s1)
    &&& b1 == b0
}

/// What the `mulc` handler does, as its contract states.
pub open spec fn ran_mulc(ins: Ins, s0: Interpreter, b0: Bus, s1: Interpreter, b1: Bus) -> bool {
    &&& s1.regs.product == Product::spec_set(
                    scaled_product(s0.regs.status.bits, mid_high_product(s0.regs.acc40[bit_index(ins.base, 12)].mid, s0.regs.acc32[bit_index(ins.base, 11)])) as i64,
                )
    &&& keeps(s0.regs, s1.regs, 8, 8)
    &&& only_regs(s0, s1)
    &&& b1 == b0
}

/// What the `mulcac` handler does, as its contract states.
pub open spec fn ran_mulcac(ins: Ins, s0: Interpreter, b0: Bus, s1: Interpreter, b1: Bus) -> bool {
    &&& ({
                    let r = bit_index(ins.base, 8);
                    let result = (s0.regs.acc40[r].value() + s0.regs.product.spec_value()) as i64;
                    &&& s1.regs.acc40@ == s0.regs.acc40@.update(r, Acc40::spec_from(result))
                    &&& s1.regs.product == Product::spec_set(
                        scaled_product(s0.regs.status.bits, mid_high_product(s0.regs.acc40[bit_index(ins.base, 12)].mid, s0.regs.acc32[bit_index(ins.base, 11)])) as i64,
                    )
                    &&& s1.regs.status.bits == mac_status(s0.regs.status.bits, sext40(result))
                    &&& keeps_but_mac(s0.regs, s1.regs)
                })
    &&& only_regs(s0, s1)
    &&& b1 == b0
}

/// What the `mulcmv` handler does, as its contract states.
pub open spec fn ran_mulcmv(ins: Ins, s0: Interpreter, b0: Bus, s1: Interpreter, b1: Bus) -> bool {
    &&& ({
                    let r = bit_index(ins.base, 8);
                    let result = s0.regs.product.spec_value();
                    &&& s1.regs.acc40@ == s0.regs.acc40@.update(r, Acc40::spec_from(result))
                    &&& s1.regs.product == Product::spec_set(
                        scaled_product(s0.regs.status.bits, mid_high_product(s0.regs.acc40[bit_index(ins.base, 12)].mid, s0.regs.acc32[bit_index(ins.base, 11)])) as i64,
                    )
                    &&& s1.regs.status.bits == mac_status(s0.regs.status.bits, sext40(result))
                    &&& keeps_but_mac(s0.regs, s1.regs)
                })
    &&& only_regs(s0, s1)
    &&& b1 == b0
}

/// What the `mulcmvz` handler does, as its contract states.
pub open spec fn ran_mulcmvz(ins: Ins, s0: Interpreter, b0: Bus, s1: Interpreter, b1: Bus) -> bool {
    &&& ({
                    let r = bit_index(ins.base, 8);
                    let result = spec_round_40(s0.regs.product.spec_value());
                    &&& s1.regs.acc40@ == s0.regs.acc40@.update(r, Acc40::spec_from(result))
                    &&& s1.regs.product == Product::spec_set(
                        scaled_product(s0.regs.status.bits, mid_high_product(s0.regs.acc40[bit_index(ins.base, 12)].mid, s0.regs.acc32[bit_index(ins.base, 11)])) as i64,
                    )
                    &&& s1.regs.status.bits == mac_status(s0.regs.status.bits, sext40(result))
                    &&& keeps_but_mac(s0.regs, s1.regs)
                })
    &&& only_regs(s0, s1)
    &&& b1 == b0
}

/// What the `madd` handler does, as its contract states.
pub open spec fn ran_madd(ins: Ins, s0: Interpreter, b0: Bus, s1: Interpreter, b1: Bus) -> bool {
    &&& s1.regs.product == Product::spec_set(
                    (s0.regs.product.spec_value() + scaled_product(s0.regs.status.bits, halves_product(s0.regs.acc32[bit_index(ins.base, 8)]))) as i64,
                )
    &&& keeps(s0.regs, s1.regs, 8, 8)
    &&& only_regs(s0, s1)
    &&& b1 == b0
}

/// What the `msub` handler does, as its contract states.
pub open spec fn ran_msub(ins: Ins, s0: Interpreter, b0: Bus, s1: Interpreter, b1: Bus) -> bool {
    &&& s1.regs.product == Product::spec_set(
                    (s0.regs.product.spec_value() - scaled_product(s0.regs.status.bits, halves_product(s0.regs.acc32[bit_index(ins.base, 8)]))) as i64,
                )
    &&& keeps(s0.regs, s1.regs, 8, 8)
    &&& only_regs(s0, s1)
    &&& b1 == b0
}

/// What the `maddc` handler does, as its contract states.
pub open spec fn ran_maddc(ins: Ins, s0: Interpreter, b0: Bus, s1: Interpreter, b1: Bus) -> bool {
    &&& s1.regs.product == Product::spec_set(
                    (s0.regs.product.spec_value() + scaled_product(s0.regs.status.bits, mid_high_product(s0.regs.acc40[bit_index(ins.base, 9)].mid, s0.regs.acc32[bit_index(ins.base, 8)]))) as i64,
                )
    &&& keeps(s0.regs, s1.regs, 8, 8)
    &&& only_regs(s0, s1)
    &&& b1 == b0
}

/// What the `msubc` handler does, as its contract states.
pub open spec fn ran_msubc(ins: Ins, s0: Interpreter, b0: Bus, s1: Interpreter, b1: Bus) -> bool {
    &&& s1.regs.product == Product::spec_set(
                    (s0.regs.product.spec_value() - scaled_product(s0.regs.status.bits, mid_high_product(s0.regs.acc40[bit_index(ins.base, 9)].mid, s0.regs.acc32[bit_index(ins.base, 8)]))) as i64,
                )
    &&& keeps(s0.regs, s1.regs, 8, 8)
    &&& only_regs(s0, s1)
    &&& b1 == b0
}

/// What the `maddx` handler does, as its contract states.
pub open spec fn ran_maddx(ins: Ins, s0: Interpreter, b0: Bus, s1: Interpreter, b1: Bus) -> bool {
    &&& s1.regs.product == Product::spec_set(
                    (s0.regs.product.spec_value() + scaled_product(s0.regs.status.bits, words_product(acc32_half(s0.regs, 2 * bit_index(ins.base, 9)), acc32_half(s0.regs, 1 + 2 * bit_index(ins.base, 8))))) as i64,
                )
    &&& keeps(s0.regs, s1.regs, 8, 8)
    &&& only_regs(s0, s1)
    &&& b1 == b0
}

/// What the `msubx` handler does, as its contract states.
pub open spec fn ran_msubx(ins: Ins, s0: Interpreter, b0: Bus, s1: Interpreter, b1: Bus) -> bool {
    &&& s1.regs.product == Product::spec_set(
                    (s0.regs.product.spec_value() - scaled_product(s0.regs.status.bits, words_product(acc32_half(s0.regs, 2 * bit_index(ins.base, 9)), acc32_half(s0.regs, 1 + 2 * bit_index(ins.base, 8))))) as i64,
                )
    &&& keeps(s0.regs, s1.regs, 8, 8)
    &&& only_regs(s0, s1)
    &&& b1 == b0
}

/// What the `halt` handler does, as its contract states.
pub open spec fn ran_halt(ins: Ins, s0: Interpreter, b0: Bus, s1: Interpreter, b1: Bus) -> bool {
    &&& b1.mmio == (Mmio { control: Control(with_flag(b0.mmio.control.0, 2, true)), ..b0.mmio })
    &&& s1.regs == s0.regs
    &&& s1.mem == s0.mem
    &&& s1.accel == s0.accel
    &&& s1.loop_counter == s0.loop_counter
    &&& s1.old_reset_high == s0.old_reset_high
    &&& b1.ram == b0.ram
    &&& b1.aram == b0.aram
}

/// What the `lr` handler does, as its contract states.
pub open spec fn ran_lr(ins: Ins, s0: Interpreter, b0: Bus, s1: Interpreter, b1: Bus) -> bool {
    &&& s1.wf()
    &&& ({
                    let (v, s) = read_dmem_spec(data_state(s0, b0), s0.mem.coef@, ins.extra);
                    &&& wrote_saturating(s0.regs, s1.regs, low_reg(ins.base), v)
                    &&& data_state(s1, b1) == s
                })
    &&& same_code(s0, s1, b0, b1)
}

/// What the `lrr` handler does, as its contract states.
pub open spec fn ran_lrr(ins: Ins, s0: Interpreter, b0: Bus, s1: Interpreter, b1: Bus) -> bool {
    &&& s1.wf()
    &&& ({
                    let addr = s0.regs.addressing[field5(ins.base)];
                    let (v, s) = read_dmem_spec(data_state(s0, b0), s0.mem.coef@, addr);
                    &&& wrote_saturating(s0.regs, s1.regs, low_reg(ins.base), v)
                    &&& data_state(s1, b1) == s
                })
    &&& same_code(s0, s1, b0, b1)
}

/// What the `lrrd` handler does, as its contract states.
pub open spec fn ran_lrrd(ins: Ins, s0: Interpreter, b0: Bus, s1: Interpreter, b1: Bus) -> bool {
    &&& s1.wf()
    &&& ({
                    let r = field5(ins.base);
                    let ar = s0.regs.addressing[r];
                    let x = spec_sub_from_addr_reg(ar, s0.regs.wrapping[r], 1);
                    let (v, s) = read_dmem_spec(data_state(s0, b0), s0.mem.coef@, ar);
                    &&& exists|mid: Registers| #[trigger] addr_set(s0.regs, mid, r, x) && wrote_saturating(mid, s1.regs, low_reg(ins.base), v)
                    &&& data_state(s1, b1) == s
                })
    &&& same_code(s0, s1, b0, b1)
}

/// What the `lrri` handler does, as its contract states.
pub open spec fn ran_lrri(ins: Ins, s0: Interpreter, b0: Bus, s1: Interpreter, b1: Bus) -> bool {
    &&& s1.wf()
    &&& ({
                    let r = field5(ins.base);
                    let ar = s0.regs.addressing[r];
                    let x = spec_add_to_addr_reg(ar, s0.regs.wrapping[r], 1);
                    let (v, s) = read_dmem_spec(data_state(s0, b0), s0.mem.coef@, ar);
                    &&& exists|mid: Registers| #[trigger] addr_set(s0.regs, mid, r, x) && wrote_saturating(mid, s1.regs, low_reg(ins.base), v)
                    &&& data_state(s1, b1) == s
                })
    &&& same_code(s0, s1, b0, b1)
}

/// What the `lrrn` handler does, as its contract states.
pub open spec fn ran_lrrn(ins: Ins, s0: Interpreter, b0: Bus, s1: Interpreter, b1: Bus) -> bool {
    &&& s1.wf()
    &&& ({
                    let r = field5(ins.base);
                    let ar = s0.regs.addressing[r];
                    let x = spec_add_to_addr_reg(ar, s0.regs.wrapping[r], s0.regs.indexing[r] as i16);
                    let (v, s) = read_dmem_spec(data_state(s0, b0), s0.mem.coef@, ar);
                    &&& exists|mid: Registers| #[trigger] addr_set(s0.regs, mid, r, x) && wrote_saturating(mid, s1.regs, low_reg(ins.base), v)
                    &&& data_state(s1, b1) == s
                })
    &&& same_code(s0, s1, b0, b1)
}

/// What the `lrs` handler does, as its contract states.
pub open spec fn ran_lrs(ins: Ins, s0: Interpreter, b0: Bus, s1: Interpreter, b1: Bus) -> bool {
    &&& s1.wf()
    &&& ({
                    let addr = (s0.regs.config as int * 256 + (ins.base & 0xFF)) as u16;
                    let (v, s) = read_dmem_spec(data_state(s0, b0), s0.mem.coef@, addr);
                    &&& wrote_saturating(s0.regs, s1.regs, reg_at((0x18 + ((ins.base >> 8u16) & 7)) as u8), v)
                    &&& data_state(s1, b1) == s
                })
    &&& same_code(s0, s1, b0, b1)
}

/// What the `ilrr` handler does, as its contract states.
pub open spec fn ran_ilrr(ins: Ins, s0: Interpreter, b0: Bus, s1: Interpreter, b1: Bus) -> bool {
    &&& s1.wf()
    &&& wrote_saturating(s0.regs, s1.regs, mid_reg(ins.base), spec_read_imem(s0.mem, s0.regs.addressing[(ins.base & 3) as int]))
    &&& s1.mem == s0.mem
    &&& s1.accel == s0.accel
    &&& s1.loop_counter == s0.loop_counter
    &&& s1.old_reset_high == s0.old_reset_high
}

/// What the `ilrrd` handler does, as its contract states.
pub open spec fn ran_ilrrd(ins: Ins, s0: Interpreter, b0: Bus, s1: Interpreter, b1: Bus) -> bool {
    &&& s1.wf()
    &&& ({
                    let r = (ins.base & 3) as int;
                    let ar = s0.regs.addressing[r];
                    let v = spec_read_imem(s0.mem, ar);
                    let x = spec_sub_from_addr_reg(ar, s0.regs.wrapping[r], 1);
                    exists|mid: Registers| #[trigger] wrote_saturating(s0.regs, mid, mid_reg(ins.base), v) && addr_set(mid, s1.regs, r, x)
                })
    &&& s1.mem == s0.mem
    &&& s1.accel == s0.accel
    &&& s1.loop_counter == s0.loop_counter
    &&& s1.old_reset_high == s0.old_reset_high
}

/// What the `ilrri` handler does, as its contract states.
pub open spec fn ran_ilrri(ins: Ins, s0: Interpreter, b0: Bus, s1: Interpreter, b1: Bus) -> bool {
    &&& s1.wf()
    &&& ({
                    let r = (ins.base & 3) as int;
                    let ar = s0.regs.addressing[r];
                    let v = spec_read_imem(s0.mem, ar);
                    let x = spec_add_to_addr_reg(ar, s0.regs.wrapping[r], 1);
                    exists|mid: Registers| #[trigger] wrote_saturating(s0.regs, mid, mid_reg(ins.base), v) && addr_set(mid, s1.regs, r, x)
                })
    &&& s1.mem == s0.mem
    &&& s1.accel == s0.accel
    &&& s1.loop_counter == s0.loop_counter
    &&& s1.old_reset_high == s0.old_reset_high
}

/// What the `ilrrn` handler does, as its contract states.
pub open spec fn ran_ilrrn(ins: Ins, s0: Interpreter, b0: Bus, s1: Interpreter, b1: Bus) -> bool {
    &&& s1.wf()
    &&& ({
                    let r = (ins.base & 3) as int;
                    let ar = s0.regs.addressing[r];
                    let v = spec_read_imem(s0.mem, ar);
                    let x = spec_add_to_addr_reg(ar, s0.regs.wrapping[r], s0.regs.indexing[r] as i16);
                    exists|mid: Registers| #[trigger] wrote_saturating(s0.regs, mid, mid_reg(ins.base), v) && addr_set(mid, s1.regs, r, x)
                })
    &&& s1.mem == s0.mem
    &&& s1.accel == s0.accel
    &&& s1.loop_counter == s0.loop_counter
    &&& s1.old_reset_high == s0.old_reset_high
}

/// What the `si` handler does, as its contract states.
pub open spec fn ran_si(ins: Ins, s0: Interpreter, b0: Bus, s1: Interpreter, b1: Bus) -> bool {
    &&& s1.wf()
    &&& data_state(s1, b1) == write_dmem_spec(data_state(s0, b0), (0xFF00 + (ins.base & 0xFF)) as u16, ins.extra)
    &&& only_data(s0, s1, b0, b1)
}

/// What the `sr` handler does, as its contract states.
pub open spec fn ran_sr(ins: Ins, s0: Interpreter, b0: Bus, s1: Interpreter, b1: Bus) -> bool {
    &&& s1.wf()
    &&& data_state(s1, b1) == write_dmem_spec(data_state(s0, b0), ins.extra, reg_value(s0.regs, low_reg(ins.base)))
    &&& only_data(s0, s1, b0, b1)
}

/// What the `srr` handler does, as its contract states.
pub open spec fn ran_srr(ins: Ins, s0: Interpreter, b0: Bus, s1: Interpreter, b1: Bus) -> bool {
    &&& s1.wf()
    &&& data_state(s1, b1) == write_dmem_spec(data_state(s0, b0), s0.regs.addressing[field5(ins.base)], reg_value(s0.regs, low_reg(ins.base)))
    &&& only_data(s0, s1, b0, b1)
}

/// What the `srri` handler does, as its contract states.
pub open spec fn ran_srri(ins: Ins, s0: Interpreter, b0: Bus, s1: Interpreter, b1: Bus) -> bool {
    &&& s1.wf()
    &&& ({
                    let r = field5(ins.base);
                    let ar = s0.regs.addressing[r];
                    &&& addr_set(s0.regs, s1.regs, r, spec_add_to_addr_reg(ar, s0.regs.wrapping[r], 1))
                    &&& data_state(s1, b1) == write_dmem_spec(data_state(s0, b0), ar, reg_value(s0.regs, low_reg(ins.base)))
                })
    &&& same_code(s0, s1, b0, b1)
}

/// What the `srrd` handler does, as its contract states.
pub open spec fn ran_srrd(ins: Ins, s0: Interpreter, b0: Bus, s1: Interpreter, b1: Bus) -> bool {
    &&& s1.wf()
    &&& ({
                    let r = field5(ins.base);
                    let x = spec_sub_from_addr_reg(s0.regs.addressing[r], s0.regs.wrapping[r], 1);
                    &&& addr_set(s0.regs, s1.regs, r, x)
                    &&& data_state(s1, b1) == write_dmem_spec(data_state(s0, b0), x, reg_value(s0.regs, low_reg(ins.base)))
                })
    &&& same_code(s0, s1, b0, b1)
}

/// What the `ext_dr` handler does, as its contract states.
pub open spec fn ran_ext_dr(ins: Ins, prev: Registers, s0: Interpreter, b0: Bus, s1: Interpreter, b1: Bus) -> bool {
    &&& ({
                    let r = (ins.base & 3) as int;
                    addr_set(s0.regs, s1.regs, r, spec_sub_from_addr_reg(prev.addressing[r], prev.wrapping[r], 1))
                })
    &&& s1.mem == s0.mem
    &&& s1.accel == s0.accel
    &&& s1.loop_counter == s0.loop_counter
    &&& s1.old_reset_high == s0.old_reset_high
    &&& b1 == b0
}

/// What the `ext_ir` handler does, as its contract states.
pub open spec fn ran_ext_ir(ins: Ins, prev: Registers, s0: Interpreter, b0: Bus, s1: Interpreter, b1: Bus) -> bool {
    &&& ({
                    let r = (ins.base & 3) as int;
                    addr_set(s0.regs, s1.regs, r, spec_add_to_addr_reg(prev.addressing[r], prev.wrapping[r], 1))
                })
    &&& s1.mem == s0.mem
    &&& s1.accel == s0.accel
    &&& s1.loop_counter == s0.loop_counter
    &&& s1.old_reset_high == s0.old_reset_high
    &&& b1 == b0
}

/// What the `ext_nr` handler does, as its contract states.
pub open spec fn ran_ext_nr(ins: Ins, prev: Registers, s0: Interpreter, b0: Bus, s1: Interpreter, b1: Bus) -> bool {
    &&& ({
                    let r = (ins.base & 3) as int;
                    addr_set(s0.regs, s1.regs, r, spec_add_to_addr_reg(prev.addressing[r], prev.wrapping[r], prev.indexing[r] as i16))
                })
    &&& s1.mem == s0.mem
    &&& s1.accel == s0.accel
    &&& s1.loop_counter == s0.loop_counter
    &&& s1.old_reset_high == s0.old_reset_high
    &&& b1 == b0
}

/// What the `ext_mv` handler does, as its contract states.
pub open spec fn ran_ext_mv(ins: Ins, prev: Registers, s0: Interpreter, b0: Bus, s1: Interpreter, b1: Bus) -> bool {
    &&& wrote(
                    s0.regs,
                    s1.regs,
                    reg_at((0x18 + ((ins.base >> 2u16) & 3)) as u8),
                    reg_value(prev, reg_at((0x1C + (ins.base & 3)) as u8)),
                )
    &&& s1.mem == s0.mem
    &&& s1.accel == s0.accel
    &&& s1.loop_counter == s0.loop_counter
    &&& s1.old_reset_high == s0.old_reset_high
    &&& b1 == b0
}

/// What the `ext_l` handler does, as its contract states.
pub open spec fn ran_ext_l(ins: Ins, prev: Registers, s0: Interpreter, b0: Bus, s1: Interpreter, b1: Bus) -> bool {
    &&& s1.wf()
    &&& ({
                    let (v, s) = read_dmem_spec(data_state(s0, b0), s0.mem.coef@, prev.addressing[(ins.base & 3) as int]);
                    &&& ext_loaded(s0.regs, s1.regs, prev, ins.base, 1, v)
                    &&& data_state(s1, b1) == s
                })
    &&& same_code(s0, s1, b0, b1)
}

/// What the `ext_ln` handler does, as its contract states.
pub open spec fn ran_ext_ln(ins: Ins, prev: Registers, s0: Interpreter, b0: Bus, s1: Interpreter, b1: Bus) -> bool {
    &&& s1.wf()
    &&& ({
                    let (v, s) = read_dmem_spec(data_state(s0, b0), s0.mem.coef@, prev.addressing[(ins.base & 3) as int]);
                    &&& ext_loaded(s0.regs, s1.regs, prev, ins.base, prev.indexing[(ins.base & 3) as int] as i16, v)
                    &&& data_state(s1, b1) == s
                })
    &&& same_code(s0, s1, b0, b1)
}

/// What the `ext_ld` handler does, as its contract states.
pub open spec fn ran_ext_ld(ins: Ins, prev: Registers, s0: Interpreter, b0: Bus, s1: Interpreter, b1: Bus) -> bool {
    &&& s1.wf()
    &&& ({
                    let (v1, v2, s) = pair_read(data_state(s0, b0), s0.mem.coef@, prev, ins.base);
                    &&& ext_pair_loaded(s0.regs, s1.regs, prev, ins.base, 1, 1, v1, v2)
                    &&& data_state(s1, b1) == s
                })
    &&& same_code(s0, s1, b0, b1)
}

/// What the `ext_ldm` handler does, as its contract states.
pub open spec fn ran_ext_ldm(ins: Ins, prev: Registers, s0: Interpreter, b0: Bus, s1: Interpreter, b1: Bus) -> bool {
    &&& s1.wf()
    &&& ({
                    let (v1, v2, s) = pair_read(data_state(s0, b0), s0.mem.coef@, prev, ins.base);
                    &&& ext_pair_loaded(s0.regs, s1.regs, prev, ins.base, 1, prev.indexing[3] as i16, v1, v2)
                    &&& data_state(s1, b1) == s
                })
    &&& same_code(s0, s1, b0, b1)
}

/// What the `ext_ldn` handler does, as its contract states.
pub open spec fn ran_ext_ldn(ins: Ins, prev: Registers, s0: Interpreter, b0: Bus, s1: Interpreter, b1: Bus) -> bool {
    &&& s1.wf()
    &&& ({
                    let (v1, v2, s) = pair_read(data_state(s0, b0), s0.mem.coef@, prev, ins.base);
                    &&& ext_pair_loaded(s0.regs, s1.regs, prev, ins.base, prev.indexing[(ins.base & 3) as int] as i16, 1, v1, v2)
                    &&& data_state(s1, b1) == s
                })
    &&& same_code(s0, s1, b0, b1)
}

/// What the `ext_ldnm` handler does, as its contract states.
pub open spec fn ran_ext_ldnm(ins: Ins, prev: Registers, s0: Interpreter, b0: Bus, s1: Interpreter, b1: Bus) -> bool {
    &&& s1.wf()
    &&& ({
                    let (v1, v2, s) = pair_read(data_state(s0, b0), s0.mem.coef@, prev, ins.base);
                    &&& ext_pair_loaded(
                        s0.regs,
                        s1.regs,
                        prev,
                        ins.base,
                        prev.indexing[(ins.base & 3) as int] as i16,
                        prev.indexing[3] as i16,
                        v1,
                        v2,
                    )
                    &&& data_state(s1, b1) == s
                })
    &&& same_code(s0, s1, b0, b1)
}

/// What running opcode `op` of `ins` does, taking `s0` and `b0` to `s1` and `b1`, as the
/// contract of its handler states; nothing for the opcodes without one.
pub open spec fn opcode_ran(op: Opcode, ins: Ins, s0: Interpreter, b0: Bus, s1: Interpreter, b1: Bus) -> bool {
    match op {
        Opcode::Add => ran_add(ins, s0, b0, s1, b1),
        Opcode::Sub => ran_sub(ins, s0, b0, s1, b1),
        Opcode::Addax => ran_addax(ins, s0, b0, s1, b1),
        Opcode::Subax => ran_subax(ins, s0, b0, s1, b1),
        Opcode::Addaxl => ran_addaxl(ins, s0, b0, s1, b1),
        Opcode::Addi => ran_addi(ins, s0, b0, s1, b1),
        Opcode::Addis => ran_addis(ins, s0, b0, s1, b1),
        Opcode::Addr => ran_addr(ins, s0, b0, s1, b1),
        Opcode::Subr => ran_subr(ins, s0, b0, s1, b1),
        Opcode::Inc => ran_inc(ins, s0, b0, s1, b1),
        Opcode::Dec => ran_dec(ins, s0, b0, s1, b1),
        Opcode::Incm => ran_incm(ins, s0, b0, s1, b1),
        Opcode::Decm => ran_decm(ins, s0, b0, s1, b1),
        Opcode::Cmp => ran_compare(ins, s0, b0, s1, b1),
        Opcode::Cmpi => ran_comparei(ins, s0, b0, s1, b1),
        Opcode::Cmpis => ran_compareis(ins, s0, b0, s1, b1),
        Opcode::Cmpaxh => ran_compareaxh(ins, s0, b0, s1, b1),
        Opcode::Clr => ran_clr(ins, s0, b0, s1, b1),
        Opcode::Clrl => ran_clrl(ins, s0, b0, s1, b1),
        Opcode::Mov => ran_mov(ins, s0, b0, s1, b1),
        Opcode::Movax => ran_movax(ins, s0, b0, s1, b1),
        Opcode::Movr => ran_movr(ins, s0, b0, s1, b1),
        Opcode::Neg => ran_neg(ins, s0, b0, s1, b1),
        Opcode::Abs => ran_abs(ins, s0, b0, s1, b1),
        Opcode::Movp => ran_movp(ins, s0, b0, s1, b1),
        Opcode::Movnp => ran_movnp(ins, s0, b0, s1, b1),
        Opcode::Movpz => ran_movpz(ins, s0, b0, s1, b1),
        Opcode::Asl => ran_asl(ins, s0, b0, s1, b1),
        Opcode::Lsl => ran_lsl(ins, s0, b0, s1, b1),
        Opcode::Asr => ran_asr(ins, s0, b0, s1, b1),
        Opcode::Lsr => ran_lsr(ins, s0, b0, s1, b1),
        Opcode::Lsl16 => ran_lsl16(ins, s0, b0, s1, b1),
        Opcode::Lsr16 => ran_lsr16(ins, s0, b0, s1, b1),
        Opcode::Asr16 => ran_asr16(ins, s0, b0, s1, b1),
        Opcode::Tst => ran_tst(ins, s0, b0, s1, b1),
        Opcode::Tstprod => ran_tstprod(ins, s0, b0, s1, b1),
        Opcode::Andi => ran_andi(ins, s0, b0, s1, b1),
        Opcode::Ori => ran_ori(ins, s0, b0, s1, b1),
        Opcode::Xori => ran_xori(ins, s0, b0, s1, b1),
        Opcode::Andc => ran_andc(ins, s0, b0, s1, b1),
        Opcode::Orc => ran_orc(ins, s0, b0, s1, b1),
        Opcode::Xorc => ran_xorc(ins, s0, b0, s1, b1),
        Opcode::Andr => ran_andr(ins, s0, b0, s1, b1),
        Opcode::Orr => ran_orr(ins, s0, b0, s1, b1),
        Opcode::Xorr => ran_xorr(ins, s0, b0, s1, b1),
        Opcode::Not => ran_not(ins, s0, b0, s1, b1),
        Opcode::M0 => ran_m0(ins, s0, b0, s1, b1),
        Opcode::M2 => ran_m2(ins, s0, b0, s1, b1),
        Opcode::Clr15 => ran_clr15(ins, s0, b0, s1, b1),
        Opcode::Set15 => ran_set15(ins, s0, b0, s1, b1),
        Opcode::Set16 => ran_set16(ins, s0, b0, s1, b1),
        Opcode::Set40 => ran_set40(ins, s0, b0, s1, b1),
        Opcode::Sbclr => ran_sbclr(ins, s0, b0, s1, b1),
        Opcode::Sbset => ran_sbset(ins, s0, b0, s1, b1),
        Opcode::Andf => ran_andf(ins, s0, b0, s1, b1),
        Opcode::Andcf => ran_andcf(ins, s0, b0, s1, b1),
        Opcode::Tstaxh => ran_tstaxh(ins, s0, b0, s1, b1),
        Opcode::Clrp => ran_clrp(ins, s0, b0, s1, b1),
        Opcode::Addp => ran_addp(ins, s0, b0, s1, b1),
        Opcode::Subp => ran_subp(ins, s0, b0, s1, b1),
        Opcode::Addpaxz => ran_addpaxz(ins, s0, b0, s1, b1),
        Opcode::Iar => ran_iar(ins, s0, b0, s1, b1),
        Opcode::Dar => ran_dar(ins, s0, b0, s1, b1),
        Opcode::Addarn => ran_addarn(ins, s0, b0, s1, b1),
        Opcode::Subarn => ran_subarn(ins, s0, b0, s1, b1),
        Opcode::Mulaxh => ran_mulaxh(ins, s0, b0, s1, b1),
        Opcode::Mulx => ran_mulx(ins, s0, b0, s1, b1),
        Opcode::Mulxac => ran_mulxac(ins, s0, b0, s1, b1),
        Opcode::Mulxmv => ran_mulxmv(ins, s0, b0, s1, b1),
        Opcode::Mulxmvz => ran_mulxmvz(ins, s0, b0, s1, b1),
        Opcode::Asrn => ran_asrn(ins, s0, b0, s1, b1),
        Opcode::Lsrn => ran_lsrn(ins, s0, b0, s1, b1),
        Opcode::Asrnr => ran_asrnr(ins, s0, b0, s1, b1),
        Opcode::Lsrnr => ran_lsrnr(ins, s0, b0, s1, b1),
        Opcode::Asrnrx => ran_asrnrx(ins, s0, b0, s1, b1),
        Opcode::Lsrnrx => ran_lsrnrx(ins, s0, b0, s1, b1),
        Opcode::Lris => ran_lris(ins, s0, b0, s1, b1),
        Opcode::If => ran_ifcc(ins, s0, b0, s1, b1),
        Opcode::Jmp => ran_jmp(ins, s0, b0, s1, b1),
        Opcode::Jr => ran_jmpr(ins, s0, b0, s1, b1),
        Opcode::Call => ran_call(ins, s0, b0, s1, b1),
        Opcode::Callr => ran_callr(ins, s0, b0, s1, b1),
        Opcode::Ret => ran_ret(ins, s0, b0, s1, b1),
        Opcode::Mrr => ran_mrr(ins, s0, b0, s1, b1),
        Opcode::Lri => ran_lri(ins, s0, b0, s1, b1),
        Opcode::Bloop => ran_bloop(ins, s0, b0, s1, b1),
        Opcode::Bloopi => ran_bloopi(ins, s0, b0, s1, b1),
        Opcode::Mul => ran_mul(ins, s0, b0, s1, b1),
        Opcode::Mulac => ran_mulac(ins, s0, b0, s1, b1),
        Opcode::Mulmv => ran_mulmv(ins, s0, b0, s1, b1),
        Opcode::Mulmvz => ran_mulmvz(ins, s0, b0, s1, b1),
        Opcode::Mulc => ran_mulc(ins, s0, b0, s1, b1),
        Opcode::Mulcac => ran_mulcac(ins, s0, b0, s1, b1),
        Opcode::Mulcmv => ran_mulcmv(ins, s0, b0, s1, b1),
        Opcode::Mulcmvz => ran_mulcmvz(ins, s0, b0, s1, b1),
        Opcode::Madd => ran_madd(ins, s0, b0, s1, b1),
        Opcode::Msub => ran_msub(ins, s0, b0, s1, b1),
        Opcode::Maddc => ran_maddc(ins, s0, b0, s1, b1),
        Opcode::Msubc => ran_msubc(ins, s0, b0, s1, b1),
        Opcode::Maddx => ran_maddx(ins, s0, b0, s1, b1),
        Opcode::Msubx => ran_msubx(ins, s0, b0, s1, b1),
        Opcode::Halt => ran_halt(ins, s0, b0, s1, b1),
        Opcode::Lr => ran_lr(ins, s0, b0, s1, b1),
        Opcode::Lrr => ran_lrr(ins, s0, b0, s1, b1),
        Opcode::Lrrd => ran_lrrd(ins, s0, b0, s1, b1),
        Opcode::Lrri => ran_lrri(ins, s0, b0, s1, b1),
        Opcode::Lrrn => ran_lrrn(ins, s0, b0, s1, b1),
        Opcode::Lrs => ran_lrs(ins, s0, b0, s1, b1),
        Opcode::Ilrr => ran_ilrr(ins, s0, b0, s1, b1),
        Opcode::Ilrrd => ran_ilrrd(ins, s0, b0, s1, b1),
        Opcode::Ilrri => ran_ilrri(ins, s0, b0, s1, b1),
        Opcode::Ilrrn => ran_ilrrn(ins, s0, b0, s1, b1),
        Opcode::Si => ran_si(ins, s0, b0, s1, b1),
        Opcode::Sr => ran_sr(ins, s0, b0, s1, b1),
        Opcode::Srr => ran_srr(ins, s0, b0, s1, b1),
        Opcode::Srri => ran_srri(ins, s0, b0, s1, b1),
        Opcode::Srrd => ran_srrd(ins, s0, b0, s1, b1),
        Opcode::Nop | Opcode::Nx | Opcode::Illegal => s1 == s0 && b1 == b0,
        Opcode::Loop | Opcode::Loopi | Opcode::Rti | Opcode::Srrn | Opcode::Srs | Opcode::Srsh => true,
    }
}

/// What running extension `e` of `ins` does against the registers `prev` of before its
/// opcode, as the contract of its handler states; nothing for the extensions without one.
pub open spec fn extension_ran(e: ExtensionOpcode, ins: Ins, prev: Registers, s0: Interpreter, b0: Bus, s1: Interpreter, b1: Bus) -> bool {
    match e {
        ExtensionOpcode::Dr => ran_ext_dr(ins, prev, s0, b0, s1, b1),
        ExtensionOpcode::Ir => ran_ext_ir(ins, prev, s0, b0, s1, b1),
        ExtensionOpcode::Nr => ran_ext_nr(ins, prev, s0, b0, s1, b1),
        ExtensionOpcode::Mv => ran_ext_mv(ins, prev, s0, b0, s1, b1),
        ExtensionOpcode::L => ran_ext_l(ins, prev, s0, b0, s1, b1),
        ExtensionOpcode::Ln => ran_ext_ln(ins, prev, s0, b0, s1, b1),
        ExtensionOpcode::Ld => ran_ext_ld(ins, prev, s0, b0, s1, b1),
        ExtensionOpcode::Ldm => ran_ext_ldm(ins, prev, s0, b0, s1, b1),
        ExtensionOpcode::Ldn => ran_ext_ldn(ins, prev, s0, b0, s1, b1),
        ExtensionOpcode::Ldnm => ran_ext_ldnm(ins, prev, s0, b0, s1, b1),
        ExtensionOpcode::Nop => s1 == s0 && b1 == b0,
        _ => true,
    }
}

/// Whether the `ifcc` handler can run, as its contract requires.
pub open spec fn can_ifcc(ins: Ins, s0: Interpreter, b0: Bus) -> bool {
    &&& !spec_condition(s0.regs.status.bits, cond_of(ins.base)) ==> s0.regs.pc < 0xFFFF
}

/// Whether the `jmp` handler can run, as its contract requires.
pub open spec fn can_jmp(ins: Ins, s0: Interpreter, b0: Bus) -> bool {
    &&& spec_condition(s0.regs.status.bits, cond_of(ins.base)) ==> ins.extra >= 2
}

/// Whether the `jmpr` handler can run, as its contract requires.
pub open spec fn can_jmpr(ins: Ins, s0: Interpreter, b0: Bus) -> bool {
    &&& spec_condition(s0.regs.status.bits, cond_of(ins.base)) ==> reg_value(s0.regs, reg_at(((ins.base >> 5u16) & 7) as u8)) >= 1
}

/// Whether the `call` handler can run, as its contract requires.
pub open spec fn can_call(ins: Ins, s0: Interpreter, b0: Bus) -> bool {
    &&& spec_condition(s0.regs.status.bits, cond_of(ins.base)) ==> ins.extra >= 2 && stack8_items(s0.regs.call_stack).len() < 8
}

/// Whether the `callr` handler can run, as its contract requires.
pub open spec fn can_callr(ins: Ins, s0: Interpreter, b0: Bus) -> bool {
    &&& spec_condition(s0.regs.status.bits, cond_of(ins.base)) ==> reg_value(s0.regs, reg_at(((ins.base >> 5u16) & 7) as u8)) >= 1 && stack8_items(s0.regs.call_stack).len() < 8
}

/// Whether the `ret` handler can run, as its contract requires.
pub open spec fn can_ret(ins: Ins, s0: Interpreter, b0: Bus) -> bool {
    &&& spec_condition(s0.regs.status.bits, cond_of(ins.base)) ==> stack8_items(s0.regs.call_stack).len() > 0
                    && stack8_items(s0.regs.call_stack).last() >= 1
}

/// Whether the `mrr` handler can run, as its contract requires.
pub open spec fn can_mrr(ins: Ins, s0: Interpreter, b0: Bus) -> bool {
    &&& reg_at(((ins.base >> 5u16) & 0x1F) as u8) != Reg::LoopStack ==> can_write(s0.regs, reg_at(((ins.base >> 5u16) & 0x1F) as u8))
}

/// Whether the `lri` handler can run, as its contract requires.
pub open spec fn can_lri(ins: Ins, s0: Interpreter, b0: Bus) -> bool {
    &&& reg_at((ins.base & 0x1F) as u8) != Reg::LoopStack ==> can_write(s0.regs, reg_at((ins.base & 0x1F) as u8))
}

/// Whether the `bloop` handler can run, as its contract requires.
pub open spec fn can_bloop(ins: Ins, s0: Interpreter, b0: Bus) -> bool {
    &&& ins.extra < 0xFFFF
    &&& stack8_items(s0.regs.call_stack).len() < 8
    &&& stack4_items(s0.regs.loop_stack).len() < 4
    &&& stack4_items(s0.regs.loop_count).len() < 4
}

/// Whether the `bloopi` handler can run, as its contract requires.
pub open spec fn can_bloopi(ins: Ins, s0: Interpreter, b0: Bus) -> bool {
    &&& ins.extra < 0xFFFF
    &&& stack8_items(s0.regs.call_stack).len() < 8
    &&& stack4_items(s0.regs.loop_stack).len() < 4
    &&& stack4_items(s0.regs.loop_count).len() < 4
}

/// Whether the `mul` handler can run, as its contract requires.
pub open spec fn can_mul(ins: Ins, s0: Interpreter, b0: Bus) -> bool {
    &&& scaled_fits(s0.regs.status.bits, halves_product(s0.regs.acc32[bit_index(ins.base, 11)]))
}

/// Whether the `mulac` handler can run, as its contract requires.
pub open spec fn can_mulac(ins: Ins, s0: Interpreter, b0: Bus) -> bool {
    &&& scaled_fits(s0.regs.status.bits, halves_product(s0.regs.acc32[bit_index(ins.base, 11)]))
}

/// Whether the `mulmv` handler can run, as its contract requires.
pub open spec fn can_mulmv(ins: Ins, s0: Interpreter, b0: Bus) -> bool {
    &&& scaled_fits(s0.regs.status.bits, halves_product(s0.regs.acc32[bit_index(ins.base, 11)]))
}

/// Whether the `mulmvz` handler can run, as its contract requires.
pub open spec fn can_mulmvz(ins: Ins, s0: Interpreter, b0: Bus) -> bool {
    &&& scaled_fits(s0.regs.status.bits, halves_product(s0.regs.acc32[bit_index(ins.base, 11)]))
}

/// Whether the `mulc` handler can run, as its contract requires.
pub open spec fn can_mulc(ins: Ins, s0: Interpreter, b0: Bus) -> bool {
    &&& scaled_fits(s0.regs.status.bits, mid_high_product(s0.regs.acc40[bit_index(ins.base, 12)].mid, s0.regs.acc32[bit_index(ins.base, 11)]))
}

/// Whether the `mulcac` handler can run, as its contract requires.
pub open spec fn can_mulcac(ins: Ins, s0: Interpreter, b0: Bus) -> bool {
    &&& scaled_fits(s0.regs.status.bits, mid_high_product(s0.regs.acc40[bit_index(ins.base, 12)].mid, s0.regs.acc32[bit_index(ins.base, 11)]))
}

/// Whether the `mulcmv` handler can run, as its contract requires.
pub open spec fn can_mulcmv(ins: Ins, s0: Interpreter, b0: Bus) -> bool {
    &&& scaled_fits(s0.regs.status.bits, mid_high_product(s0.regs.acc40[bit_index(ins.base, 12)].mid, s0.regs.acc32[bit_index(ins.base, 11)]))
}

/// Whether the `mulcmvz` handler can run, as its contract requires.
pub open spec fn can_mulcmvz(ins: Ins, s0: Interpreter, b0: Bus) -> bool {
    &&& scaled_fits(s0.regs.status.bits, mid_high_product(s0.regs.acc40[bit_index(ins.base, 12)].mid, s0.regs.acc32[bit_index(ins.base, 11)]))
}

/// Whether the `madd` handler can run, as its contract requires.
pub open spec fn can_madd(ins: Ins, s0: Interpreter, b0: Bus) -> bool {
    &&& scaled_fits(s0.regs.status.bits, halves_product(s0.regs.acc32[bit_index(ins.base, 8)]))
}

/// Whether the `msub` handler can run, as its contract requires.
pub open spec fn can_msub(ins: Ins, s0: Interpreter, b0: Bus) -> bool {
    &&& scaled_fits(s0.regs.status.bits, halves_product(s0.regs.acc32[bit_index(ins.base, 8)]))
}

/// Whether the `maddc` handler can run, as its contract requires.
pub open spec fn can_maddc(ins: Ins, s0: Interpreter, b0: Bus) -> bool {
    &&& scaled_fits(s0.regs.status.bits, mid_high_product(s0.regs.acc40[bit_index(ins.base, 9)].mid, s0.regs.acc32[bit_index(ins.base, 8)]))
}

/// Whether the `msubc` handler can run, as its contract requires.
pub open spec fn can_msubc(ins: Ins, s0: Interpreter, b0: Bus) -> bool {
    &&& scaled_fits(s0.regs.status.bits, mid_high_product(s0.regs.acc40[bit_index(ins.base, 9)].mid, s0.regs.acc32[bit_index(ins.base, 8)]))
}

/// Whether the `maddx` handler can run, as its contract requires.
pub open spec fn can_maddx(ins: Ins, s0: Interpreter, b0: Bus) -> bool {
    &&& scaled_fits(s0.regs.status.bits, words_product(acc32_half(s0.regs, 2 * bit_index(ins.base, 9)), acc32_half(s0.regs, 1 + 2 * bit_index(ins.base, 8))))
}

/// Whether the `msubx` handler can run, as its contract requires.
pub open spec fn can_msubx(ins: Ins, s0: Interpreter, b0: Bus) -> bool {
    &&& scaled_fits(s0.regs.status.bits, words_product(acc32_half(s0.regs, 2 * bit_index(ins.base, 9)), acc32_half(s0.regs, 1 + 2 * bit_index(ins.base, 8))))
}

/// Whether the `lr` handler can run, as its contract requires.
pub open spec fn can_lr(ins: Ins, s0: Interpreter, b0: Bus) -> bool {
    &&& read_dmem_ok(data_state(s0, b0), ins.extra)
    &&& can_load(s0.regs, low_reg(ins.base))
}

/// Whether the `lrr` handler can run, as its contract requires.
pub open spec fn can_lrr(ins: Ins, s0: Interpreter, b0: Bus) -> bool {
    &&& read_dmem_ok(data_state(s0, b0), s0.regs.addressing[field5(ins.base)])
    &&& can_load(s0.regs, low_reg(ins.base))
}

/// Whether the `lrrd` handler can run, as its contract requires.
pub open spec fn can_lrrd(ins: Ins, s0: Interpreter, b0: Bus) -> bool {
    &&& read_dmem_ok(data_state(s0, b0), s0.regs.addressing[field5(ins.base)])
    &&& can_load(s0.regs, low_reg(ins.base))
}

/// Whether the `lrri` handler can run, as its contract requires.
pub open spec fn can_lrri(ins: Ins, s0: Interpreter, b0: Bus) -> bool {
    &&& read_dmem_ok(data_state(s0, b0), s0.regs.addressing[field5(ins.base)])
    &&& can_load(s0.regs, low_reg(ins.base))
}

/// Whether the `lrrn` handler can run, as its contract requires.
pub open spec fn can_lrrn(ins: Ins, s0: Interpreter, b0: Bus) -> bool {
    &&& read_dmem_ok(data_state(s0, b0), s0.regs.addressing[field5(ins.base)])
    &&& can_load(s0.regs, low_reg(ins.base))
}

/// Whether the `lrs` handler can run, as its contract requires.
pub open spec fn can_lrs(ins: Ins, s0: Interpreter, b0: Bus) -> bool {
    &&& read_dmem_ok(data_state(s0, b0), (s0.regs.config as int * 256 + (ins.base & 0xFF)) as u16)
}

/// Whether the `si` handler can run, as its contract requires.
pub open spec fn can_si(ins: Ins, s0: Interpreter, b0: Bus) -> bool {
    &&& write_dmem_ok(data_state(s0, b0), (0xFF00 + (ins.base & 0xFF)) as u16, ins.extra)
}

/// Whether the `sr` handler can run, as its contract requires.
pub open spec fn can_sr(ins: Ins, s0: Interpreter, b0: Bus) -> bool {
    &&& write_dmem_ok(data_state(s0, b0), ins.extra, reg_value(s0.regs, low_reg(ins.base)))
}

/// Whether the `srr` handler can run, as its contract requires.
pub open spec fn can_srr(ins: Ins, s0: Interpreter, b0: Bus) -> bool {
    &&& write_dmem_ok(data_state(s0, b0), s0.regs.addressing[field5(ins.base)], reg_value(s0.regs, low_reg(ins.base)))
}

/// Whether the `srri` handler can run, as its contract requires.
pub open spec fn can_srri(ins: Ins, s0: Interpreter, b0: Bus) -> bool {
    &&& write_dmem_ok(data_state(s0, b0), s0.regs.addressing[field5(ins.base)], reg_value(s0.regs, low_reg(ins.base)))
}

/// Whether the `srrd` handler can run, as its contract requires.
pub open spec fn can_srrd(ins: Ins, s0: Interpreter, b0: Bus) -> bool {
    &&& write_dmem_ok(
                    data_state(s0, b0),
                    spec_sub_from_addr_reg(s0.regs.addressing[field5(ins.base)], s0.regs.wrapping[field5(ins.base)], 1),
                    reg_value(s0.regs, low_reg(ins.base)),
                )
}

/// Whether the `ext_l` handler can run, as its contract requires.
pub open spec fn can_ext_l(ins: Ins, prev: Registers, s0: Interpreter, b0: Bus) -> bool {
    &&& read_dmem_ok(data_state(s0, b0), prev.addressing[(ins.base & 3) as int])
}

/// Whether the `ext_ln` handler can run, as its contract requires.
pub open spec fn can_ext_ln(ins: Ins, prev: Registers, s0: Interpreter, b0: Bus) -> bool {
    &&& read_dmem_ok(data_state(s0, b0), prev.addressing[(ins.base & 3) as int])
}

/// Whether the `ext_ld` handler can run, as its contract requires.
pub open spec fn can_ext_ld(ins: Ins, prev: Registers, s0: Interpreter, b0: Bus) -> bool {
    &&& pair_read_ok(data_state(s0, b0), s0.mem.coef@, prev, ins.base)
}

/// Whether the `ext_ldm` handler can run, as its contract requires.
pub open spec fn can_ext_ldm(ins: Ins, prev: Registers, s0: Interpreter, b0: Bus) -> bool {
    &&& pair_read_ok(data_state(s0, b0), s0.mem.coef@, prev, ins.base)
}

/// Whether the `ext_ldn` handler can run, as its contract requires.
pub open spec fn can_ext_ldn(ins: Ins, prev: Registers, s0: Interpreter, b0: Bus) -> bool {
    &&& pair_read_ok(data_state(s0, b0), s0.mem.coef@, prev, ins.base)
}

/// Whether the `ext_ldnm` handler can run, as its contract requires.
pub open spec fn can_ext_ldnm(ins: Ins, prev: Registers, s0: Interpreter, b0: Bus) -> bool {
    &&& pair_read_ok(data_state(s0, b0), s0.mem.coef@, prev, ins.base)
}

/// Whether opcode `op` of `ins` can run in `s0` and `b0`, as the contract of its handler
/// requires.
pub open spec fn opcode_ok(op: Opcode, ins: Ins, s0: Interpreter, b0: Bus) -> bool {
    match op {
        Opcode::If => can_ifcc(ins, s0, b0),
        Opcode::Jmp => can_jmp(ins, s0, b0),
        Opcode::Jr => can_jmpr(ins, s0, b0),
        Opcode::Call => can_call(ins, s0, b0),
        Opcode::Callr => can_callr(ins, s0, b0),
        Opcode::Ret => can_ret(ins, s0, b0),
        Opcode::Mrr => can_mrr(ins, s0, b0),
        Opcode::Lri => can_lri(ins, s0, b0),
        Opcode::Bloop => can_bloop(ins, s0, b0),
        Opcode::Bloopi => can_bloopi(ins, s0, b0),
        Opcode::Mul => can_mul(ins, s0, b0),
        Opcode::Mulac => can_mulac(ins, s0, b0),
        Opcode::Mulmv => can_mulmv(ins, s0, b0),
        Opcode::Mulmvz => can_mulmvz(ins, s0, b0),
        Opcode::Mulc => can_mulc(ins, s0, b0),
        Opcode::Mulcac => can_mulcac(ins, s0, b0),
        Opcode::Mulcmv => can_mulcmv(ins, s0, b0),
        Opcode::Mulcmvz => can_mulcmvz(ins, s0, b0),
        Opcode::Madd => can_madd(ins, s0, b0),
        Opcode::Msub => can_msub(ins, s0, b0),
        Opcode::Maddc => can_maddc(ins, s0, b0),
        Opcode::Msubc => can_msubc(ins, s0, b0),
        Opcode::Maddx => can_maddx(ins, s0, b0),
        Opcode::Msubx => can_msubx(ins, s0, b0),
        Opcode::Lr => can_lr(ins, s0, b0),
        Opcode::Lrr => can_lrr(ins, s0, b0),
        Opcode::Lrrd => can_lrrd(ins, s0, b0),
        Opcode::Lrri => can_lrri(ins, s0, b0),
        Opcode::Lrrn => can_lrrn(ins, s0, b0),
        Opcode::Lrs => can_lrs(ins, s0, b0),
        Opcode::Si => can_si(ins, s0, b0),
        Opcode::Sr => can_sr(ins, s0, b0),
        Opcode::Srr => can_srr(ins, s0, b0),
        Opcode::Srri => can_srri(ins, s0, b0),
        Opcode::Srrd => can_srrd(ins, s0, b0),
        _ => true,
    }
}

/// Whether extension `e` of `ins` can run in `s0` and `b0` against the registers `prev`, as
/// the contract of its handler requires; never for the illegal extension.
pub open spec fn extension_ok(e: ExtensionOpcode, ins: Ins, prev: Registers, s0: Interpreter, b0: Bus) -> bool {
    match e {
        ExtensionOpcode::L => can_ext_l(ins, prev, s0, b0),
        ExtensionOpcode::Ln => can_ext_ln(ins, prev, s0, b0),
        ExtensionOpcode::Ld => can_ext_ld(ins, prev, s0, b0),
        ExtensionOpcode::Ldm => can_ext_ldm(ins, prev, s0, b0),
        ExtensionOpcode::Ldn => can_ext_ldn(ins, prev, s0, b0),
        ExtensionOpcode::Ldnm => can_ext_ldnm(ins, prev, s0, b0),
        ExtensionOpcode::Illegal => false,
        _ => true,
    }
}

} // verus!
