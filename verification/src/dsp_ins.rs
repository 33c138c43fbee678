//! The DSP instruction set: opcode patterns and instruction decoding.
use vstd::prelude::*;

verus! {

/// A condition tested by conditional instructions.
#[derive(Debug, Clone, Copy, PartialEq, Eq, Structural)]
pub enum CondCode {
    GreaterOrEqual,
    Less,
    Greater,
    LessOrEqual,
    NotZero,
    Zero,
    NotCarry,
    Carry,
    BelowS32,
    AboveS32,
    WeirdA,
    WeirdB,
    NotLogicZero,
    LogicZero,
    Overflow,
    Always,
}

impl CondCode {
    /// The 4 bit encoding of this condition.
    pub open spec fn code(self) -> u8 {
        match self {
            CondCode::GreaterOrEqual => 0,
            CondCode::Less => 1,
            CondCode::Greater => 2,
            CondCode::LessOrEqual => 3,
            CondCode::NotZero => 4,
            CondCode::Zero => 5,
            CondCode::NotCarry => 6,
            CondCode::Carry => 7,
            CondCode::BelowS32 => 8,
            CondCode::AboveS32 => 9,
            CondCode::WeirdA => 10,
            CondCode::WeirdB => 11,
            CondCode::NotLogicZero => 12,
            CondCode::LogicZero => 13,
            CondCode::Overflow => 14,
            CondCode::Always => 15,
        }
    }

    /// The condition with the given 4 bit encoding.
    pub fn new(value: u8) -> (c: Self)
        requires
            value < 16,
        ensures
            c.code() == value,
    {
        match value {
            0 => CondCode::GreaterOrEqual,
            1 => CondCode::Less,
            2 => CondCode::Greater,
            3 => CondCode::LessOrEqual,
            4 => CondCode::NotZero,
            5 => CondCode::Zero,
            6 => CondCode::NotCarry,
            7 => CondCode::Carry,
            8 => CondCode::BelowS32,
            9 => CondCode::AboveS32,
            10 => CondCode::WeirdA,
            11 => CondCode::WeirdB,
            12 => CondCode::NotLogicZero,
            13 => CondCode::LogicZero,
            14 => CondCode::Overflow,
            _ => CondCode::Always,
        }
    }
}

/// A bit pattern: a value matches when its bits under `mask` equal `target`.
#[derive(Debug, Clone, Copy, PartialEq, Eq, Structural)]
pub struct OpcodeInfo {
    pub mask: u16,
    pub target: u16,
}

impl OpcodeInfo {
    /// Whether `value` has the bits of this pattern.
    pub open spec fn spec_matches(self, value: u16) -> bool {
        value & self.mask == self.target
    }

    /// Whether `value` has the bits of this pattern.
    pub fn matches(self, value: u16) -> (r: bool)
        ensures
            r == self.spec_matches(value),
    {
        (value & self.mask) == self.target
    }
}

/// An opcode of the DSP instruction set.
#[derive(Debug, Clone, Copy, PartialEq, Eq, Structural)]
pub enum Opcode {
    Nop,
    Dar,
    Iar,
    Subarn,
    Addarn,
    Halt,
    Loop,
    Bloop,
    Lri,
    Lr,
    Sr,
    If,
    Jmp,
    Call,
    Ret,
    Rti,
    Addi,
    Xori,
    Andi,
    Ori,
    Cmpi,
    Andf,
    Andcf,
    Lsrn,
    Asrn,
    Ilrr,
    Ilrrd,
    Ilrri,
    Ilrrn,
    Addis,
    Cmpis,
    Lris,
    Loopi,
    Bloopi,
    Sbclr,
    Sbset,
    Lsl,
    Lsr,
    Asl,
    Asr,
    Si,
    Jr,
    Callr,
    Lrr,
    Lrrd,
    Lrri,
    Lrrn,
    Srr,
    Srrd,
    Srri,
    Srrn,
    Mrr,
    Lrs,
    Srsh,
    Srs,
    Xorr,
    Andr,
    Orr,
    Andc,
    Orc,
    Xorc,
    Not,
    Lsrnrx,
    Asrnrx,
    Lsrnr,
    Asrnr,
    Addr,
    Addax,
    Add,
    Addp,
    Subr,
    Subax,
    Sub,
    Subp,
    Movr,
    Movax,
    Mov,
    Movp,
    Addaxl,
    Incm,
    Inc,
    Decm,
    Dec,
    Neg,
    Movnp,
    Nx,
    Clr,
    Cmp,
    Mulaxh,
    Clrp,
    Tstprod,
    Tstaxh,
    M2,
    M0,
    Clr15,
    Set15,
    Set16,
    Set40,
    Mul,
    Asr16,
    Mulmvz,
    Mulac,
    Mulmv,
    Mulx,
    Abs,
    Tst,
    Mulxmvz,
    Mulxac,
    Mulxmv,
    Mulc,
    Cmpaxh,
    Mulcmvz,
    Mulcac,
    Mulcmv,
    Maddx,
    Msubx,
    Maddc,
    Msubc,
    Lsl16,
    Madd,
    Lsr16,
    Msub,
    Addpaxz,
    Clrl,
    Movpz,
    Illegal,
}

impl Opcode {
    /// The bit pattern of this opcode; `None` for `Illegal`.
    pub open spec fn spec_info(self) -> Option<OpcodeInfo> {
        match self {
            Opcode::Nop => Some(OpcodeInfo { mask: 0xffff, target: 0x0000 }),
            Opcode::Dar => Some(OpcodeInfo { mask: 0xfffc, target: 0x0004 }),
            Opcode::Iar => Some(OpcodeInfo { mask: 0xfffc, target: 0x0008 }),
            Opcode::Subarn => Some(OpcodeInfo { mask: 0xfffc, target: 0x000c }),
            Opcode::Addarn => Some(OpcodeInfo { mask: 0xfff0, target: 0x0010 }),
            Opcode::Halt => Some(OpcodeInfo { mask: 0xffff, target: 0x0021 }),
            Opcode::Loop => Some(OpcodeInfo { mask: 0xffe0, target: 0x0040 }),
            Opcode::Bloop => Some(OpcodeInfo { mask: 0xffe0, target: 0x0060 }),
            Opcode::Lri => Some(OpcodeInfo { mask: 0xffe0, target: 0x0080 }),
            Opcode::Lr => Some(OpcodeInfo { mask: 0xffe0, target: 0x00c0 }),
            Opcode::Sr => Some(OpcodeInfo { mask: 0xffe0, target: 0x00e0 }),
            Opcode::If => Some(OpcodeInfo { mask: 0xfff0, target: 0x0270 }),
            Opcode::Jmp => Some(OpcodeInfo { mask: 0xfff0, target: 0x0290 }),
            Opcode::Call => Some(OpcodeInfo { mask: 0xfff0, target: 0x02b0 }),
            Opcode::Ret => Some(OpcodeInfo { mask: 0xfff0, target: 0x02d0 }),
            Opcode::Rti => Some(OpcodeInfo { mask: 0xfff0, target: 0x02f0 }),
            Opcode::Addi => Some(OpcodeInfo { mask: 0xfeff, target: 0x0200 }),
            Opcode::Xori => Some(OpcodeInfo { mask: 0xfeff, target: 0x0220 }),
            Opcode::Andi => Some(OpcodeInfo { mask: 0xfeff, target: 0x0240 }),
            Opcode::Ori => Some(OpcodeInfo { mask: 0xfeff, target: 0x0260 }),
            Opcode::Cmpi => Some(OpcodeInfo { mask: 0xfeff, target: 0x0280 }),
            Opcode::Andf => Some(OpcodeInfo { mask: 0xfeff, target: 0x02a0 }),
            Opcode::Andcf => Some(OpcodeInfo { mask: 0xfeff, target: 0x02c0 }),
            Opcode::Lsrn => Some(OpcodeInfo { mask: 0xffff, target: 0x02ca }),
            Opcode::Asrn => Some(OpcodeInfo { mask: 0xffff, target: 0x02cb }),
            Opcode::Ilrr => Some(OpcodeInfo { mask: 0xfefc, target: 0x0210 }),
            Opcode::Ilrrd => Some(OpcodeInfo { mask: 0xfefc, target: 0x0214 }),
            Opcode::Ilrri => Some(OpcodeInfo { mask: 0xfefc, target: 0x0218 }),
            Opcode::Ilrrn => Some(OpcodeInfo { mask: 0xfefc, target: 0x021c }),
            Opcode::Addis => Some(OpcodeInfo { mask: 0xfe00, target: 0x0400 }),
            Opcode::Cmpis => Some(OpcodeInfo { mask: 0xfe00, target: 0x0600 }),
            Opcode::Lris => Some(OpcodeInfo { mask: 0xf800, target: 0x0800 }),
            Opcode::Loopi => Some(OpcodeInfo { mask: 0xff00, target: 0x1000 }),
            Opcode::Bloopi => Some(OpcodeInfo { mask: 0xff00, target: 0x1100 }),
            Opcode::Sbclr => Some(OpcodeInfo { mask: 0xff00, target: 0x1200 }),
            Opcode::Sbset => Some(OpcodeInfo { mask: 0xff00, target: 0x1300 }),
            Opcode::Lsl => Some(OpcodeInfo { mask: 0xfec0, target: 0x1400 }),
            Opcode::Lsr => Some(OpcodeInfo { mask: 0xfec0, target: 0x1440 }),
            Opcode::Asl => Some(OpcodeInfo { mask: 0xfec0, target: 0x1480 }),
            Opcode::Asr => Some(OpcodeInfo { mask: 0xfec0, target: 0x14c0 }),
            Opcode::Si => Some(OpcodeInfo { mask: 0xff00, target: 0x1600 }),
            Opcode::Jr => Some(OpcodeInfo { mask: 0xff10, target: 0x1700 }),
            Opcode::Callr => Some(OpcodeInfo { mask: 0xff10, target: 0x1710 }),
            Opcode::Lrr => Some(OpcodeInfo { mask: 0xff80, target: 0x1800 }),
            Opcode::Lrrd => Some(OpcodeInfo { mask: 0xff80, target: 0x1880 }),
            Opcode::Lrri => Some(OpcodeInfo { mask: 0xff80, target: 0x1900 }),
            Opcode::Lrrn => Some(OpcodeInfo { mask: 0xff80, target: 0x1980 }),
            Opcode::Srr => Some(OpcodeInfo { mask: 0xff80, target: 0x1a00 }),
            Opcode::Srrd => Some(OpcodeInfo { mask: 0xff80, target: 0x1a80 }),
            Opcode::Srri => Some(OpcodeInfo { mask: 0xff80, target: 0x1b00 }),
            Opcode::Srrn => Some(OpcodeInfo { mask: 0xff80, target: 0x1b80 }),
            Opcode::Mrr => Some(OpcodeInfo { mask: 0xfc00, target: 0x1c00 }),
            Opcode::Lrs => Some(OpcodeInfo { mask: 0xf800, target: 0x2000 }),
            Opcode::Srsh => Some(OpcodeInfo { mask: 0xfe00, target: 0x2800 }),
            Opcode::Srs => Some(OpcodeInfo { mask: 0xfc00, target: 0x2c00 }),
            Opcode::Xorr => Some(OpcodeInfo { mask: 0xfc80, target: 0x3000 }),
            Opcode::Andr => Some(OpcodeInfo { mask: 0xfc80, target: 0x3400 }),
            Opcode::Orr => Some(OpcodeInfo { mask: 0xfc80, target: 0x3800 }),
            Opcode::Andc => Some(OpcodeInfo { mask: 0xfe80, target: 0x3c00 }),
            Opcode::Orc => Some(OpcodeInfo { mask: 0xfe80, target: 0x3e00 }),
            Opcode::Xorc => Some(OpcodeInfo { mask: 0xfe80, target: 0x3080 }),
            Opcode::Not => Some(OpcodeInfo { mask: 0xfe80, target: 0x3280 }),
            Opcode::Lsrnrx => Some(OpcodeInfo { mask: 0xfc80, target: 0x3480 }),
            Opcode::Asrnrx => Some(OpcodeInfo { mask: 0xfc80, target: 0x3880 }),
            Opcode::Lsrnr => Some(OpcodeInfo { mask: 0xfe80, target: 0x3c80 }),
            Opcode::Asrnr => Some(OpcodeInfo { mask: 0xfe80, target: 0x3e80 }),
            Opcode::Addr => Some(OpcodeInfo { mask: 0xf800, target: 0x4000 }),
            Opcode::Addax => Some(OpcodeInfo { mask: 0xfc00, target: 0x4800 }),
            Opcode::Add => Some(OpcodeInfo { mask: 0xfe00, target: 0x4c00 }),
            Opcode::Addp => Some(OpcodeInfo { mask: 0xfe00, target: 0x4e00 }),
            Opcode::Subr => Some(OpcodeInfo { mask: 0xf800, target: 0x5000 }),
            Opcode::Subax => Some(OpcodeInfo { mask: 0xfc00, target: 0x5800 }),
            Opcode::Sub => Some(OpcodeInfo { mask: 0xfe00, target: 0x5c00 }),
            Opcode::Subp => Some(OpcodeInfo { mask: 0xfe00, target: 0x5e00 }),
            Opcode::Movr => Some(OpcodeInfo { mask: 0xf800, target: 0x6000 }),
            Opcode::Movax => Some(OpcodeInfo { mask: 0xfc00, target: 0x6800 }),
            Opcode::Mov => Some(OpcodeInfo { mask: 0xfe00, target: 0x6c00 }),
            Opcode::Movp => Some(OpcodeInfo { mask: 0xfe00, target: 0x6e00 }),
            Opcode::Addaxl => Some(OpcodeInfo { mask: 0xfc00, target: 0x7000 }),
            Opcode::Incm => Some(OpcodeInfo { mask: 0xfe00, target: 0x7400 }),
            Opcode::Inc => Some(OpcodeInfo { mask: 0xfe00, target: 0x7600 }),
            Opcode::Decm => Some(OpcodeInfo { mask: 0xfe00, target: 0x7800 }),
            Opcode::Dec => Some(OpcodeInfo { mask: 0xfe00, target: 0x7a00 }),
            Opcode::Neg => Some(OpcodeInfo { mask: 0xfe00, target: 0x7c00 }),
            Opcode::Movnp => Some(OpcodeInfo { mask: 0xfe00, target: 0x7e00 }),
            Opcode::Nx => Some(OpcodeInfo { mask: 0xf700, target: 0x8000 }),
            Opcode::Clr => Some(OpcodeInfo { mask: 0xf700, target: 0x8100 }),
            Opcode::Cmp => Some(OpcodeInfo { mask: 0xff00, target: 0x8200 }),
            Opcode::Mulaxh => Some(OpcodeInfo { mask: 0xff00, target: 0x8300 }),
            Opcode::Clrp => Some(OpcodeInfo { mask: 0xff00, target: 0x8400 }),
            Opcode::Tstprod => Some(OpcodeInfo { mask: 0xff00, target: 0x8500 }),
            Opcode::Tstaxh => Some(OpcodeInfo { mask: 0xfe00, target: 0x8600 }),
            Opcode::M2 => Some(OpcodeInfo { mask: 0xff00, target: 0x8a00 }),
            Opcode::M0 => Some(OpcodeInfo { mask: 0xff00, target: 0x8b00 }),
            Opcode::Clr15 => Some(OpcodeInfo { mask: 0xff00, target: 0x8c00 }),
            Opcode::Set15 => Some(OpcodeInfo { mask: 0xff00, target: 0x8d00 }),
            Opcode::Set16 => Some(OpcodeInfo { mask: 0xff00, target: 0x8e00 }),
            Opcode::Set40 => Some(OpcodeInfo { mask: 0xff00, target: 0x8f00 }),
            Opcode::Mul => Some(OpcodeInfo { mask: 0xf700, target: 0x9000 }),
            Opcode::Asr16 => Some(OpcodeInfo { mask: 0xf700, target: 0x9100 }),
            Opcode::Mulmvz => Some(OpcodeInfo { mask: 0xf600, target: 0x9200 }),
            Opcode::Mulac => Some(OpcodeInfo { mask: 0xf600, target: 0x9400 }),
            Opcode::Mulmv => Some(OpcodeInfo { mask: 0xf600, target: 0x9600 }),
            Opcode::Mulx => Some(OpcodeInfo { mask: 0xe700, target: 0xa000 }),
            Opcode::Abs => Some(OpcodeInfo { mask: 0xf700, target: 0xa100 }),
            Opcode::Tst => Some(OpcodeInfo { mask: 0xf700, target: 0xb100 }),
            Opcode::Mulxmvz => Some(OpcodeInfo { mask: 0xe600, target: 0xa200 }),
            Opcode::Mulxac => Some(OpcodeInfo { mask: 0xe600, target: 0xa400 }),
            Opcode::Mulxmv => Some(OpcodeInfo { mask: 0xe600, target: 0xa600 }),
            Opcode::Mulc => Some(OpcodeInfo { mask: 0xe700, target: 0xc000 }),
            Opcode::Cmpaxh => Some(OpcodeInfo { mask: 0xe700, target: 0xc100 }),
            Opcode::Mulcmvz => Some(OpcodeInfo { mask: 0xe600, target: 0xc200 }),
            Opcode::Mulcac => Some(OpcodeInfo { mask: 0xe600, target: 0xc400 }),
            Opcode::Mulcmv => Some(OpcodeInfo { mask: 0xe600, target: 0xc600 }),
            Opcode::Maddx => Some(OpcodeInfo { mask: 0xfc00, target: 0xe000 }),
            Opcode::Msubx => Some(OpcodeInfo { mask: 0xfc00, target: 0xe400 }),
            Opcode::Maddc => Some(OpcodeInfo { mask: 0xfc00, target: 0xe800 }),
            Opcode::Msubc => Some(OpcodeInfo { mask: 0xfc00, target: 0xec00 }),
            Opcode::Lsl16 => Some(OpcodeInfo { mask: 0xfe00, target: 0xf000 }),
            Opcode::Madd => Some(OpcodeInfo { mask: 0xfe00, target: 0xf200 }),
            Opcode::Lsr16 => Some(OpcodeInfo { mask: 0xfe00, target: 0xf400 }),
            Opcode::Msub => Some(OpcodeInfo { mask: 0xfe00, target: 0xf600 }),
            Opcode::Addpaxz => Some(OpcodeInfo { mask: 0xfc00, target: 0xf800 }),
            Opcode::Clrl => Some(OpcodeInfo { mask: 0xfe00, target: 0xfc00 }),
            Opcode::Movpz => Some(OpcodeInfo { mask: 0xfe00, target: 0xfe00 }),
            Opcode::Illegal => None,
        }
    }

    /// The bit pattern of this opcode; `None` for `Illegal`.
    pub fn info(self) -> (r: Option<OpcodeInfo>)
        ensures
            r == self.spec_info(),
    {
        match self {
            Opcode::Nop => Some(OpcodeInfo { mask: 0xffff, target: 0x0000 }),
            Opcode::Dar => Some(OpcodeInfo { mask: 0xfffc, target: 0x0004 }),
            Opcode::Iar => Some(OpcodeInfo { mask: 0xfffc, target: 0x0008 }),
            Opcode::Subarn => Some(OpcodeInfo { mask: 0xfffc, target: 0x000c }),
            Opcode::Addarn => Some(OpcodeInfo { mask: 0xfff0, target: 0x0010 }),
            Opcode::Halt => Some(OpcodeInfo { mask: 0xffff, target: 0x0021 }),
            Opcode::Loop => Some(OpcodeInfo { mask: 0xffe0, target: 0x0040 }),
            Opcode::Bloop => Some(OpcodeInfo { mask: 0xffe0, target: 0x0060 }),
            Opcode::Lri => Some(OpcodeInfo { mask: 0xffe0, target: 0x0080 }),
            Opcode::Lr => Some(OpcodeInfo { mask: 0xffe0, target: 0x00c0 }),
            Opcode::Sr => Some(OpcodeInfo { mask: 0xffe0, target: 0x00e0 }),
            Opcode::If => Some(OpcodeInfo { mask: 0xfff0, target: 0x0270 }),
            Opcode::Jmp => Some(OpcodeInfo { mask: 0xfff0, target: 0x0290 }),
            Opcode::Call => Some(OpcodeInfo { mask: 0xfff0, target: 0x02b0 }),
            Opcode::Ret => Some(OpcodeInfo { mask: 0xfff0, target: 0x02d0 }),
            Opcode::Rti => Some(OpcodeInfo { mask: 0xfff0, target: 0x02f0 }),
            Opcode::Addi => Some(OpcodeInfo { mask: 0xfeff, target: 0x0200 }),
            Opcode::Xori => Some(OpcodeInfo { mask: 0xfeff, target: 0x0220 }),
            Opcode::Andi => Some(OpcodeInfo { mask: 0xfeff, target: 0x0240 }),
            Opcode::Ori => Some(OpcodeInfo { mask: 0xfeff, target: 0x0260 }),
            Opcode::Cmpi => Some(OpcodeInfo { mask: 0xfeff, target: 0x0280 }),
            Opcode::Andf => Some(OpcodeInfo { mask: 0xfeff, target: 0x02a0 }),
            Opcode::Andcf => Some(OpcodeInfo { mask: 0xfeff, target: 0x02c0 }),
            Opcode::Lsrn => Some(OpcodeInfo { mask: 0xffff, target: 0x02ca }),
            Opcode::Asrn => Some(OpcodeInfo { mask: 0xffff, target: 0x02cb }),
            Opcode::Ilrr => Some(OpcodeInfo { mask: 0xfefc, target: 0x0210 }),
            Opcode::Ilrrd => Some(OpcodeInfo { mask: 0xfefc, target: 0x0214 }),
            Opcode::Ilrri => Some(OpcodeInfo { mask: 0xfefc, target: 0x0218 }),
            Opcode::Ilrrn => Some(OpcodeInfo { mask: 0xfefc, target: 0x021c }),
            Opcode::Addis => Some(OpcodeInfo { mask: 0xfe00, target: 0x0400 }),
            Opcode::Cmpis => Some(OpcodeInfo { mask: 0xfe00, target: 0x0600 }),
            Opcode::Lris => Some(OpcodeInfo { mask: 0xf800, target: 0x0800 }),
            Opcode::Loopi => Some(OpcodeInfo { mask: 0xff00, target: 0x1000 }),
            Opcode::Bloopi => Some(OpcodeInfo { mask: 0xff00, target: 0x1100 }),
            Opcode::Sbclr => Some(OpcodeInfo { mask: 0xff00, target: 0x1200 }),
            Opcode::Sbset => Some(OpcodeInfo { mask: 0xff00, target: 0x1300 }),
            Opcode::Lsl => Some(OpcodeInfo { mask: 0xfec0, target: 0x1400 }),
            Opcode::Lsr => Some(OpcodeInfo { mask: 0xfec0, target: 0x1440 }),
            Opcode::Asl => Some(OpcodeInfo { mask: 0xfec0, target: 0x1480 }),
            Opcode::Asr => Some(OpcodeInfo { mask: 0xfec0, target: 0x14c0 }),
            Opcode::Si => Some(OpcodeInfo { mask: 0xff00, target: 0x1600 }),
            Opcode::Jr => Some(OpcodeInfo { mask: 0xff10, target: 0x1700 }),
            Opcode::Callr => Some(OpcodeInfo { mask: 0xff10, target: 0x1710 }),
            Opcode::Lrr => Some(OpcodeInfo { mask: 0xff80, target: 0x1800 }),
            Opcode::Lrrd => Some(OpcodeInfo { mask: 0xff80, target: 0x1880 }),
            Opcode::Lrri => Some(OpcodeInfo { mask: 0xff80, target: 0x1900 }),
            Opcode::Lrrn => Some(OpcodeInfo { mask: 0xff80, target: 0x1980 }),
            Opcode::Srr => Some(OpcodeInfo { mask: 0xff80, target: 0x1a00 }),
            Opcode::Srrd => Some(OpcodeInfo { mask: 0xff80, target: 0x1a80 }),
            Opcode::Srri => Some(OpcodeInfo { mask: 0xff80, target: 0x1b00 }),
            Opcode::Srrn => Some(OpcodeInfo { mask: 0xff80, target: 0x1b80 }),
            Opcode::Mrr => Some(OpcodeInfo { mask: 0xfc00, target: 0x1c00 }),
            Opcode::Lrs => Some(OpcodeInfo { mask: 0xf800, target: 0x2000 }),
            Opcode::Srsh => Some(OpcodeInfo { mask: 0xfe00, target: 0x2800 }),
            Opcode::Srs => Some(OpcodeInfo { mask: 0xfc00, target: 0x2c00 }),
            Opcode::Xorr => Some(OpcodeInfo { mask: 0xfc80, target: 0x3000 }),
            Opcode::Andr => Some(OpcodeInfo { mask: 0xfc80, target: 0x3400 }),
            Opcode::Orr => Some(OpcodeInfo { mask: 0xfc80, target: 0x3800 }),
            Opcode::Andc => Some(OpcodeInfo { mask: 0xfe80, target: 0x3c00 }),
            Opcode::Orc => Some(OpcodeInfo { mask: 0xfe80, target: 0x3e00 }),
            Opcode::Xorc => Some(OpcodeInfo { mask: 0xfe80, target: 0x3080 }),
            Opcode::Not => Some(OpcodeInfo { mask: 0xfe80, target: 0x3280 }),
            Opcode::Lsrnrx => Some(OpcodeInfo { mask: 0xfc80, target: 0x3480 }),
            Opcode::Asrnrx => Some(OpcodeInfo { mask: 0xfc80, target: 0x3880 }),
            Opcode::Lsrnr => Some(OpcodeInfo { mask: 0xfe80, target: 0x3c80 }),
            Opcode::Asrnr => Some(OpcodeInfo { mask: 0xfe80, target: 0x3e80 }),
            Opcode::Addr => Some(OpcodeInfo { mask: 0xf800, target: 0x4000 }),
            Opcode::Addax => Some(OpcodeInfo { mask: 0xfc00, target: 0x4800 }),
            Opcode::Add => Some(OpcodeInfo { mask: 0xfe00, target: 0x4c00 }),
            Opcode::Addp => Some(OpcodeInfo { mask: 0xfe00, target: 0x4e00 }),
            Opcode::Subr => Some(OpcodeInfo { mask: 0xf800, target: 0x5000 }),
            Opcode::Subax => Some(OpcodeInfo { mask: 0xfc00, target: 0x5800 }),
            Opcode::Sub => Some(OpcodeInfo { mask: 0xfe00, target: 0x5c00 }),
            Opcode::Subp => Some(OpcodeInfo { mask: 0xfe00, target: 0x5e00 }),
            Opcode::Movr => Some(OpcodeInfo { mask: 0xf800, target: 0x6000 }),
            Opcode::Movax => Some(OpcodeInfo { mask: 0xfc00, target: 0x6800 }),
            Opcode::Mov => Some(OpcodeInfo { mask: 0xfe00, target: 0x6c00 }),
            Opcode::Movp => Some(OpcodeInfo { mask: 0xfe00, target: 0x6e00 }),
            Opcode::Addaxl => Some(OpcodeInfo { mask: 0xfc00, target: 0x7000 }),
            Opcode::Incm => Some(OpcodeInfo { mask: 0xfe00, target: 0x7400 }),
            Opcode::Inc => Some(OpcodeInfo { mask: 0xfe00, target: 0x7600 }),
            Opcode::Decm => Some(OpcodeInfo { mask: 0xfe00, target: 0x7800 }),
            Opcode::Dec => Some(OpcodeInfo { mask: 0xfe00, target: 0x7a00 }),
            Opcode::Neg => Some(OpcodeInfo { mask: 0xfe00, target: 0x7c00 }),
            Opcode::Movnp => Some(OpcodeInfo { mask: 0xfe00, target: 0x7e00 }),
            Opcode::Nx => Some(OpcodeInfo { mask: 0xf700, target: 0x8000 }),
            Opcode::Clr => Some(OpcodeInfo { mask: 0xf700, target: 0x8100 }),
            Opcode::Cmp => Some(OpcodeInfo { mask: 0xff00, target: 0x8200 }),
            Opcode::Mulaxh => Some(OpcodeInfo { mask: 0xff00, target: 0x8300 }),
            Opcode::Clrp => Some(OpcodeInfo { mask: 0xff00, target: 0x8400 }),
            Opcode::Tstprod => Some(OpcodeInfo { mask: 0xff00, target: 0x8500 }),
            Opcode::Tstaxh => Some(OpcodeInfo { mask: 0xfe00, target: 0x8600 }),
            Opcode::M2 => Some(OpcodeInfo { mask: 0xff00, target: 0x8a00 }),
            Opcode::M0 => Some(OpcodeInfo { mask: 0xff00, target: 0x8b00 }),
            Opcode::Clr15 => Some(OpcodeInfo { mask: 0xff00, target: 0x8c00 }),
            Opcode::Set15 => Some(OpcodeInfo { mask: 0xff00, target: 0x8d00 }),
            Opcode::Set16 => Some(OpcodeInfo { mask: 0xff00, target: 0x8e00 }),
            Opcode::Set40 => Some(OpcodeInfo { mask: 0xff00, target: 0x8f00 }),
            Opcode::Mul => Some(OpcodeInfo { mask: 0xf700, target: 0x9000 }),
            Opcode::Asr16 => Some(OpcodeInfo { mask: 0xf700, target: 0x9100 }),
            Opcode::Mulmvz => Some(OpcodeInfo { mask: 0xf600, target: 0x9200 }),
            Opcode::Mulac => Some(OpcodeInfo { mask: 0xf600, target: 0x9400 }),
            Opcode::Mulmv => Some(OpcodeInfo { mask: 0xf600, target: 0x9600 }),
            Opcode::Mulx => Some(OpcodeInfo { mask: 0xe700, target: 0xa000 }),
            Opcode::Abs => Some(OpcodeInfo { mask: 0xf700, target: 0xa100 }),
            Opcode::Tst => Some(OpcodeInfo { mask: 0xf700, target: 0xb100 }),
            Opcode::Mulxmvz => Some(OpcodeInfo { mask: 0xe600, target: 0xa200 }),
            Opcode::Mulxac => Some(OpcodeInfo { mask: 0xe600, target: 0xa400 }),
            Opcode::Mulxmv => Some(OpcodeInfo { mask: 0xe600, target: 0xa600 }),
            Opcode::Mulc => Some(OpcodeInfo { mask: 0xe700, target: 0xc000 }),
            Opcode::Cmpaxh => Some(OpcodeInfo { mask: 0xe700, target: 0xc100 }),
            Opcode::Mulcmvz => Some(OpcodeInfo { mask: 0xe600, target: 0xc200 }),
            Opcode::Mulcac => Some(OpcodeInfo { mask: 0xe600, target: 0xc400 }),
            Opcode::Mulcmv => Some(OpcodeInfo { mask: 0xe600, target: 0xc600 }),
            Opcode::Maddx => Some(OpcodeInfo { mask: 0xfc00, target: 0xe000 }),
            Opcode::Msubx => Some(OpcodeInfo { mask: 0xfc00, target: 0xe400 }),
            Opcode::Maddc => Some(OpcodeInfo { mask: 0xfc00, target: 0xe800 }),
            Opcode::Msubc => Some(OpcodeInfo { mask: 0xfc00, target: 0xec00 }),
            Opcode::Lsl16 => Some(OpcodeInfo { mask: 0xfe00, target: 0xf000 }),
            Opcode::Madd => Some(OpcodeInfo { mask: 0xfe00, target: 0xf200 }),
            Opcode::Lsr16 => Some(OpcodeInfo { mask: 0xfe00, target: 0xf400 }),
            Opcode::Msub => Some(OpcodeInfo { mask: 0xfe00, target: 0xf600 }),
            Opcode::Addpaxz => Some(OpcodeInfo { mask: 0xfc00, target: 0xf800 }),
            Opcode::Clrl => Some(OpcodeInfo { mask: 0xfe00, target: 0xfc00 }),
            Opcode::Movpz => Some(OpcodeInfo { mask: 0xfe00, target: 0xfe00 }),
            Opcode::Illegal => None,
        }
    }

    /// Whether `value` has the bit pattern of this opcode.
    pub open spec fn spec_matches(self, value: u16) -> bool {
        match self.spec_info() {
            Some(info) => info.spec_matches(value),
            None => false,
        }
    }

    /// All opcodes, `Illegal` last.
    pub open spec fn spec_variants() -> Seq<Opcode> {
        seq![
            Opcode::Nop,
            Opcode::Dar,
            Opcode::Iar,
            Opcode::Subarn,
            Opcode::Addarn,
            Opcode::Halt,
            Opcode::Loop,
            Opcode::Bloop,
            Opcode::Lri,
            Opcode::Lr,
            Opcode::Sr,
            Opcode::If,
            Opcode::Jmp,
            Opcode::Call,
            Opcode::Ret,
            Opcode::Rti,
            Opcode::Addi,
            Opcode::Xori,
            Opcode::Andi,
            Opcode::Ori,
            Opcode::Cmpi,
            Opcode::Andf,
            Opcode::Andcf,
            Opcode::Lsrn,
            Opcode::Asrn,
            Opcode::Ilrr,
            Opcode::Ilrrd,
            Opcode::Ilrri,
            Opcode::Ilrrn,
            Opcode::Addis,
            Opcode::Cmpis,
            Opcode::Lris,
            Opcode::Loopi,
            Opcode::Bloopi,
            Opcode::Sbclr,
            Opcode::Sbset,
            Opcode::Lsl,
            Opcode::Lsr,
            Opcode::Asl,
            Opcode::Asr,
            Opcode::Si,
            Opcode::Jr,
            Opcode::Callr,
            Opcode::Lrr,
            Opcode::Lrrd,
            Opcode::Lrri,
            Opcode::Lrrn,
            Opcode::Srr,
            Opcode::Srrd,
            Opcode::Srri,
            Opcode::Srrn,
            Opcode::Mrr,
            Opcode::Lrs,
            Opcode::Srsh,
            Opcode::Srs,
            Opcode::Xorr,
            Opcode::Andr,
            Opcode::Orr,
            Opcode::Andc,
            Opcode::Orc,
            Opcode::Xorc,
            Opcode::Not,
            Opcode::Lsrnrx,
            Opcode::Asrnrx,
            Opcode::Lsrnr,
            Opcode::Asrnr,
            Opcode::Addr,
            Opcode::Addax,
            Opcode::Add,
            Opcode::Addp,
            Opcode::Subr,
            Opcode::Subax,
            Opcode::Sub,
            Opcode::Subp,
            Opcode::Movr,
            Opcode::Movax,
            Opcode::Mov,
            Opcode::Movp,
            Opcode::Addaxl,
            Opcode::Incm,
            Opcode::Inc,
            Opcode::Decm,
            Opcode::Dec,
            Opcode::Neg,
            Opcode::Movnp,
            Opcode::Nx,
            Opcode::Clr,
            Opcode::Cmp,
            Opcode::Mulaxh,
            Opcode::Clrp,
            Opcode::Tstprod,
            Opcode::Tstaxh,
            Opcode::M2,
            Opcode::M0,
            Opcode::Clr15,
            Opcode::Set15,
            Opcode::Set16,
            Opcode::Set40,
            Opcode::Mul,
            Opcode::Asr16,
            Opcode::Mulmvz,
            Opcode::Mulac,
            Opcode::Mulmv,
            Opcode::Mulx,
            Opcode::Abs,
            Opcode::Tst,
            Opcode::Mulxmvz,
            Opcode::Mulxac,
            Opcode::Mulxmv,
            Opcode::Mulc,
            Opcode::Cmpaxh,
            Opcode::Mulcmvz,
            Opcode::Mulcac,
            Opcode::Mulcmv,
            Opcode::Maddx,
            Opcode::Msubx,
            Opcode::Maddc,
            Opcode::Msubc,
            Opcode::Lsl16,
            Opcode::Madd,
            Opcode::Lsr16,
            Opcode::Msub,
            Opcode::Addpaxz,
            Opcode::Clrl,
            Opcode::Movpz,
            Opcode::Illegal,
        ]
    }

    /// All opcodes, `Illegal` last.
    pub fn variants() -> (v: Vec<Opcode>)
        ensures
            v@ == Self::spec_variants(),
    {
        let v: Vec<Opcode> = vec![
            Opcode::Nop,
            Opcode::Dar,
            Opcode::Iar,
            Opcode::Subarn,
            Opcode::Addarn,
            Opcode::Halt,
            Opcode::Loop,
            Opcode::Bloop,
            Opcode::Lri,
            Opcode::Lr,
            Opcode::Sr,
            Opcode::If,
            Opcode::Jmp,
            Opcode::Call,
            Opcode::Ret,
            Opcode::Rti,
            Opcode::Addi,
            Opcode::Xori,
            Opcode::Andi,
            Opcode::Ori,
            Opcode::Cmpi,
            Opcode::Andf,
            Opcode::Andcf,
            Opcode::Lsrn,
            Opcode::Asrn,
            Opcode::Ilrr,
            Opcode::Ilrrd,
            Opcode::Ilrri,
            Opcode::Ilrrn,
            Opcode::Addis,
            Opcode::Cmpis,
            Opcode::Lris,
            Opcode::Loopi,
            Opcode::Bloopi,
            Opcode::Sbclr,
            Opcode::Sbset,
            Opcode::Lsl,
            Opcode::Lsr,
            Opcode::Asl,
            Opcode::Asr,
            Opcode::Si,
            Opcode::Jr,
            Opcode::Callr,
            Opcode::Lrr,
            Opcode::Lrrd,
            Opcode::Lrri,
            Opcode::Lrrn,
            Opcode::Srr,
            Opcode::Srrd,
            Opcode::Srri,
            Opcode::Srrn,
            Opcode::Mrr,
            Opcode::Lrs,
            Opcode::Srsh,
            Opcode::Srs,
            Opcode::Xorr,
            Opcode::Andr,
            Opcode::Orr,
            Opcode::Andc,
            Opcode::Orc,
            Opcode::Xorc,
            Opcode::Not,
            Opcode::Lsrnrx,
            Opcode::Asrnrx,
            Opcode::Lsrnr,
            Opcode::Asrnr,
            Opcode::Addr,
            Opcode::Addax,
            Opcode::Add,
            Opcode::Addp,
            Opcode::Subr,
            Opcode::Subax,
            Opcode::Sub,
            Opcode::Subp,
            Opcode::Movr,
            Opcode::Movax,
            Opcode::Mov,
            Opcode::Movp,
            Opcode::Addaxl,
            Opcode::Incm,
            Opcode::Inc,
            Opcode::Decm,
            Opcode::Dec,
            Opcode::Neg,
            Opcode::Movnp,
            Opcode::Nx,
            Opcode::Clr,
            Opcode::Cmp,
            Opcode::Mulaxh,
            Opcode::Clrp,
            Opcode::Tstprod,
            Opcode::Tstaxh,
            Opcode::M2,
            Opcode::M0,
            Opcode::Clr15,
            Opcode::Set15,
            Opcode::Set16,
            Opcode::Set40,
            Opcode::Mul,
            Opcode::Asr16,
            Opcode::Mulmvz,
            Opcode::Mulac,
            Opcode::Mulmv,
            Opcode::Mulx,
            Opcode::Abs,
            Opcode::Tst,
            Opcode::Mulxmvz,
            Opcode::Mulxac,
            Opcode::Mulxmv,
            Opcode::Mulc,
            Opcode::Cmpaxh,
            Opcode::Mulcmvz,
            Opcode::Mulcac,
            Opcode::Mulcmv,
            Opcode::Maddx,
            Opcode::Msubx,
            Opcode::Maddc,
            Opcode::Msubc,
            Opcode::Lsl16,
            Opcode::Madd,
            Opcode::Lsr16,
            Opcode::Msub,
            Opcode::Addpaxz,
            Opcode::Clrl,
            Opcode::Movpz,
            Opcode::Illegal,
        ];
        assert(v@ =~= Self::spec_variants());
        v
    }

    /// The first opcode, in declaration order, whose pattern `value` has.
    fn find_match(value: u16) -> (op: Self)
        ensures
            op != Opcode::Illegal ==> op.spec_matches(value),
            op == Opcode::Illegal ==> forall|o: Opcode| !o.spec_matches(value),
    {
        if value & 0xffff == 0x0000 {
            return Opcode::Nop;
        }
        if value & 0xfffc == 0x0004 {
            return Opcode::Dar;
        }
        if value & 0xfffc == 0x0008 {
            return Opcode::Iar;
        }
        if value & 0xfffc == 0x000c {
            return Opcode::Subarn;
        }
        if value & 0xfff0 == 0x0010 {
            return Opcode::Addarn;
        }
        if value & 0xffff == 0x0021 {
            return Opcode::Halt;
        }
        if value & 0xffe0 == 0x0040 {
            return Opcode::Loop;
        }
        if value & 0xffe0 == 0x0060 {
            return Opcode::Bloop;
        }
        if value & 0xffe0 == 0x0080 {
            return Opcode::Lri;
        }
        if value & 0xffe0 == 0x00c0 {
            return Opcode::Lr;
        }
        if value & 0xffe0 == 0x00e0 {
            return Opcode::Sr;
        }
        if value & 0xfff0 == 0x0270 {
            return Opcode::If;
        }
        if value & 0xfff0 == 0x0290 {
            return Opcode::Jmp;
        }
        if value & 0xfff0 == 0x02b0 {
            return Opcode::Call;
        }
        if value & 0xfff0 == 0x02d0 {
            return Opcode::Ret;
        }
        if value & 0xfff0 == 0x02f0 {
            return Opcode::Rti;
        }
        if value & 0xfeff == 0x0200 {
            return Opcode::Addi;
        }
        if value & 0xfeff == 0x0220 {
            return Opcode::Xori;
        }
        if value & 0xfeff == 0x0240 {
            return Opcode::Andi;
        }
        if value & 0xfeff == 0x0260 {
            return Opcode::Ori;
        }
        if value & 0xfeff == 0x0280 {
            return Opcode::Cmpi;
        }
        if value & 0xfeff == 0x02a0 {
            return Opcode::Andf;
        }
        if value & 0xfeff == 0x02c0 {
            return Opcode::Andcf;
        }
        if value & 0xffff == 0x02ca {
            return Opcode::Lsrn;
        }
        if value & 0xffff == 0x02cb {
            return Opcode::Asrn;
        }
        if value & 0xfefc == 0x0210 {
            return Opcode::Ilrr;
        }
        if value & 0xfefc == 0x0214 {
            return Opcode::Ilrrd;
        }
        if value & 0xfefc == 0x0218 {
            return Opcode::Ilrri;
        }
        if value & 0xfefc == 0x021c {
            return Opcode::Ilrrn;
        }
        if value & 0xfe00 == 0x0400 {
            return Opcode::Addis;
        }
        if value & 0xfe00 == 0x0600 {
            return Opcode::Cmpis;
        }
        if value & 0xf800 == 0x0800 {
            return Opcode::Lris;
        }
        if value & 0xff00 == 0x1000 {
            return Opcode::Loopi;
        }
        if value & 0xff00 == 0x1100 {
            return Opcode::Bloopi;
        }
        if value & 0xff00 == 0x1200 {
            return Opcode::Sbclr;
        }
        if value & 0xff00 == 0x1300 {
            return Opcode::Sbset;
        }
        if value & 0xfec0 == 0x1400 {
            return Opcode::Lsl;
        }
        if value & 0xfec0 == 0x1440 {
            return Opcode::Lsr;
        }
        if value & 0xfec0 == 0x1480 {
            return Opcode::Asl;
        }
        if value & 0xfec0 == 0x14c0 {
            return Opcode::Asr;
        }
        if value & 0xff00 == 0x1600 {
            return Opcode::Si;
        }
        if value & 0xff10 == 0x1700 {
            return Opcode::Jr;
        }
        if value & 0xff10 == 0x1710 {
            return Opcode::Callr;
        }
        if value & 0xff80 == 0x1800 {
            return Opcode::Lrr;
        }
        if value & 0xff80 == 0x1880 {
            return Opcode::Lrrd;
        }
        if value & 0xff80 == 0x1900 {
            return Opcode::Lrri;
        }
        if value & 0xff80 == 0x1980 {
            return Opcode::Lrrn;
        }
        if value & 0xff80 == 0x1a00 {
            return Opcode::Srr;
        }
        if value & 0xff80 == 0x1a80 {
            return Opcode::Srrd;
        }
        if value & 0xff80 == 0x1b00 {
            return Opcode::Srri;
        }
        if value & 0xff80 == 0x1b80 {
            return Opcode::Srrn;
        }
        if value & 0xfc00 == 0x1c00 {
            return Opcode::Mrr;
        }
        if value & 0xf800 == 0x2000 {
            return Opcode::Lrs;
        }
        if value & 0xfe00 == 0x2800 {
            return Opcode::Srsh;
        }
        if value & 0xfc00 == 0x2c00 {
            return Opcode::Srs;
        }
        if value & 0xfc80 == 0x3000 {
            return Opcode::Xorr;
        }
        if value & 0xfc80 == 0x3400 {
            return Opcode::Andr;
        }
        if value & 0xfc80 == 0x3800 {
            return Opcode::Orr;
        }
        if value & 0xfe80 == 0x3c00 {
            return Opcode::Andc;
        }
        if value & 0xfe80 == 0x3e00 {
            return Opcode::Orc;
        }
        if value & 0xfe80 == 0x3080 {
            return Opcode::Xorc;
        }
        if value & 0xfe80 == 0x3280 {
            return Opcode::Not;
        }
        if value & 0xfc80 == 0x3480 {
            return Opcode::Lsrnrx;
        }
        if value & 0xfc80 == 0x3880 {
            return Opcode::Asrnrx;
        }
        if value & 0xfe80 == 0x3c80 {
            return Opcode::Lsrnr;
        }
        if value & 0xfe80 == 0x3e80 {
            return Opcode::Asrnr;
        }
        if value & 0xf800 == 0x4000 {
            return Opcode::Addr;
        }
        if value & 0xfc00 == 0x4800 {
            return Opcode::Addax;
        }
        if value & 0xfe00 == 0x4c00 {
            return Opcode::Add;
        }
        if value & 0xfe00 == 0x4e00 {
            return Opcode::Addp;
        }
        if value & 0xf800 == 0x5000 {
            return Opcode::Subr;
        }
        if value & 0xfc00 == 0x5800 {
            return Opcode::Subax;
        }
        if value & 0xfe00 == 0x5c00 {
            return Opcode::Sub;
        }
        if value & 0xfe00 == 0x5e00 {
            return Opcode::Subp;
        }
        if value & 0xf800 == 0x6000 {
            return Opcode::Movr;
        }
        if value & 0xfc00 == 0x6800 {
            return Opcode::Movax;
        }
        if value & 0xfe00 == 0x6c00 {
            return Opcode::Mov;
        }
        if value & 0xfe00 == 0x6e00 {
            return Opcode::Movp;
        }
        if value & 0xfc00 == 0x7000 {
            return Opcode::Addaxl;
        }
        if value & 0xfe00 == 0x7400 {
            return Opcode::Incm;
        }
        if value & 0xfe00 == 0x7600 {
            return Opcode::Inc;
        }
        if value & 0xfe00 == 0x7800 {
            return Opcode::Decm;
        }
        if value & 0xfe00 == 0x7a00 {
            return Opcode::Dec;
        }
        if value & 0xfe00 == 0x7c00 {
            return Opcode::Neg;
        }
        if value & 0xfe00 == 0x7e00 {
            return Opcode::Movnp;
        }
        if value & 0xf700 == 0x8000 {
            return Opcode::Nx;
        }
        if value & 0xf700 == 0x8100 {
            return Opcode::Clr;
        }
        if value & 0xff00 == 0x8200 {
            return Opcode::Cmp;
        }
        if value & 0xff00 == 0x8300 {
            return Opcode::Mulaxh;
        }
        if value & 0xff00 == 0x8400 {
            return Opcode::Clrp;
        }
        if value & 0xff00 == 0x8500 {
            return Opcode::Tstprod;
        }
        if value & 0xfe00 == 0x8600 {
            return Opcode::Tstaxh;
        }
        if value & 0xff00 == 0x8a00 {
            return Opcode::M2;
        }
        if value & 0xff00 == 0x8b00 {
            return Opcode::M0;
        }
        if value & 0xff00 == 0x8c00 {
            return Opcode::Clr15;
        }
        if value & 0xff00 == 0x8d00 {
            return Opcode::Set15;
        }
        if value & 0xff00 == 0x8e00 {
            return Opcode::Set16;
        }
        if value & 0xff00 == 0x8f00 {
            return Opcode::Set40;
        }
        if value & 0xf700 == 0x9000 {
            return Opcode::Mul;
        }
        if value & 0xf700 == 0x9100 {
            return Opcode::Asr16;
        }
        if value & 0xf600 == 0x9200 {
            return Opcode::Mulmvz;
        }
        if value & 0xf600 == 0x9400 {
            return Opcode::Mulac;
        }
        if value & 0xf600 == 0x9600 {
            return Opcode::Mulmv;
        }
        if value & 0xe700 == 0xa000 {
            return Opcode::Mulx;
        }
        if value & 0xf700 == 0xa100 {
            return Opcode::Abs;
        }
        if value & 0xf700 == 0xb100 {
            return Opcode::Tst;
        }
        if value & 0xe600 == 0xa200 {
            return Opcode::Mulxmvz;
        }
        if value & 0xe600 == 0xa400 {
            return Opcode::Mulxac;
        }
        if value & 0xe600 == 0xa600 {
            return Opcode::Mulxmv;
        }
        if value & 0xe700 == 0xc000 {
            return Opcode::Mulc;
        }
        if value & 0xe700 == 0xc100 {
            return Opcode::Cmpaxh;
        }
        if value & 0xe600 == 0xc200 {
            return Opcode::Mulcmvz;
        }
        if value & 0xe600 == 0xc400 {
            return Opcode::Mulcac;
        }
        if value & 0xe600 == 0xc600 {
            return Opcode::Mulcmv;
        }
        if value & 0xfc00 == 0xe000 {
            return Opcode::Maddx;
        }
        if value & 0xfc00 == 0xe400 {
            return Opcode::Msubx;
        }
        if value & 0xfc00 == 0xe800 {
            return Opcode::Maddc;
        }
        if value & 0xfc00 == 0xec00 {
            return Opcode::Msubc;
        }
        if value & 0xfe00 == 0xf000 {
            return Opcode::Lsl16;
        }
        if value & 0xfe00 == 0xf200 {
            return Opcode::Madd;
        }
        if value & 0xfe00 == 0xf400 {
            return Opcode::Lsr16;
        }
        if value & 0xfe00 == 0xf600 {
            return Opcode::Msub;
        }
        if value & 0xfc00 == 0xf800 {
            return Opcode::Addpaxz;
        }
        if value & 0xfe00 == 0xfc00 {
            return Opcode::Clrl;
        }
        if value & 0xfe00 == 0xfe00 {
            return Opcode::Movpz;
        }
        Opcode::Illegal
    }
}

/// The byte of a value that an Opcode pattern fixes to a few values.
proof fn lemma_opcode_key_byte(value: u16)
    by (bit_vector)
    ensures
        value & 0xffff == 0x0000 ==> (value >> 8u16) & 0xff == 0x00,
        value & 0xfffc == 0x0004 ==> (value >> 8u16) & 0xff == 0x00,
        value & 0xfffc == 0x0008 ==> (value >> 8u16) & 0xff == 0x00,
        value & 0xfffc == 0x000c ==> (value >> 8u16) & 0xff == 0x00,
        value & 0xfff0 == 0x0010 ==> (value >> 8u16) & 0xff == 0x00,
        value & 0xffff == 0x0021 ==> (value >> 8u16) & 0xff == 0x00,
        value & 0xffe0 == 0x0040 ==> (value >> 8u16) & 0xff == 0x00,
        value & 0xffe0 == 0x0060 ==> (value >> 8u16) & 0xff == 0x00,
        value & 0xffe0 == 0x0080 ==> (value >> 8u16) & 0xff == 0x00,
        value & 0xffe0 == 0x00c0 ==> (value >> 8u16) & 0xff == 0x00,
        value & 0xffe0 == 0x00e0 ==> (value >> 8u16) & 0xff == 0x00,
        value & 0xfff0 == 0x0270 ==> (value >> 8u16) & 0xff == 0x02,
        value & 0xfff0 == 0x0290 ==> (value >> 8u16) & 0xff == 0x02,
        value & 0xfff0 == 0x02b0 ==> (value >> 8u16) & 0xff == 0x02,
        value & 0xfff0 == 0x02d0 ==> (value >> 8u16) & 0xff == 0x02,
        value & 0xfff0 == 0x02f0 ==> (value >> 8u16) & 0xff == 0x02,
        value & 0xfeff == 0x0200 ==> (value >> 8u16) & 0xff == 0x02 || (value >> 8u16) & 0xff == 0x03,
        value & 0xfeff == 0x0220 ==> (value >> 8u16) & 0xff == 0x02 || (value >> 8u16) & 0xff == 0x03,
        value & 0xfeff == 0x0240 ==> (value >> 8u16) & 0xff == 0x02 || (value >> 8u16) & 0xff == 0x03,
        value & 0xfeff == 0x0260 ==> (value >> 8u16) & 0xff == 0x02 || (value >> 8u16) & 0xff == 0x03,
        value & 0xfeff == 0x0280 ==> (value >> 8u16) & 0xff == 0x02 || (value >> 8u16) & 0xff == 0x03,
        value & 0xfeff == 0x02a0 ==> (value >> 8u16) & 0xff == 0x02 || (value >> 8u16) & 0xff == 0x03,
        value & 0xfeff == 0x02c0 ==> (value >> 8u16) & 0xff == 0x02 || (value >> 8u16) & 0xff == 0x03,
        value & 0xffff == 0x02ca ==> (value >> 8u16) & 0xff == 0x02,
        value & 0xffff == 0x02cb ==> (value >> 8u16) & 0xff == 0x02,
        value & 0xfefc == 0x0210 ==> (value >> 8u16) & 0xff == 0x02 || (value >> 8u16) & 0xff == 0x03,
        value & 0xfefc == 0x0214 ==> (value >> 8u16) & 0xff == 0x02 || (value >> 8u16) & 0xff == 0x03,
        value & 0xfefc == 0x0218 ==> (value >> 8u16) & 0xff == 0x02 || (value >> 8u16) & 0xff == 0x03,
        value & 0xfefc == 0x021c ==> (value >> 8u16) & 0xff == 0x02 || (value >> 8u16) & 0xff == 0x03,
        value & 0xfe00 == 0x0400 ==> (value >> 8u16) & 0xff == 0x04 || (value >> 8u16) & 0xff == 0x05,
        value & 0xfe00 == 0x0600 ==> (value >> 8u16) & 0xff == 0x06 || (value >> 8u16) & 0xff == 0x07,
        value & 0xf800 == 0x0800 ==> (value >> 8u16) & 0xff == 0x08 || (value >> 8u16) & 0xff == 0x09 || (value >> 8u16) & 0xff == 0x0a || (value >> 8u16) & 0xff == 0x0b || (value >> 8u16) & 0xff == 0x0c || (value >> 8u16) & 0xff == 0x0d || (value >> 8u16) & 0xff == 0x0e || (value >> 8u16) & 0xff == 0x0f,
        value & 0xff00 == 0x1000 ==> (value >> 8u16) & 0xff == 0x10,
        value & 0xff00 == 0x1100 ==> (value >> 8u16) & 0xff == 0x11,
        value & 0xff00 == 0x1200 ==> (value >> 8u16) & 0xff == 0x12,
        value & 0xff00 == 0x1300 ==> (value >> 8u16) & 0xff == 0x13,
        value & 0xfec0 == 0x1400 ==> (value >> 8u16) & 0xff == 0x14 || (value >> 8u16) & 0xff == 0x15,
        value & 0xfec0 == 0x1440 ==> (value >> 8u16) & 0xff == 0x14 || (value >> 8u16) & 0xff == 0x15,
        value & 0xfec0 == 0x1480 ==> (value >> 8u16) & 0xff == 0x14 || (value >> 8u16) & 0xff == 0x15,
        value & 0xfec0 == 0x14c0 ==> (value >> 8u16) & 0xff == 0x14 || (value >> 8u16) & 0xff == 0x15,
        value & 0xff00 == 0x1600 ==> (value >> 8u16) & 0xff == 0x16,
        value & 0xff10 == 0x1700 ==> (value >> 8u16) & 0xff == 0x17,
        value & 0xff10 == 0x1710 ==> (value >> 8u16) & 0xff == 0x17,
        value & 0xff80 == 0x1800 ==> (value >> 8u16) & 0xff == 0x18,
        value & 0xff80 == 0x1880 ==> (value >> 8u16) & 0xff == 0x18,
        value & 0xff80 == 0x1900 ==> (value >> 8u16) & 0xff == 0x19,
        value & 0xff80 == 0x1980 ==> (value >> 8u16) & 0xff == 0x19,
        value & 0xff80 == 0x1a00 ==> (value >> 8u16) & 0xff == 0x1a,
        value & 0xff80 == 0x1a80 ==> (value >> 8u16) & 0xff == 0x1a,
        value & 0xff80 == 0x1b00 ==> (value >> 8u16) & 0xff == 0x1b,
        value & 0xff80 == 0x1b80 ==> (value >> 8u16) & 0xff == 0x1b,
        value & 0xfc00 == 0x1c00 ==> (value >> 8u16) & 0xff == 0x1c || (value >> 8u16) & 0xff == 0x1d || (value >> 8u16) & 0xff == 0x1e || (value >> 8u16) & 0xff == 0x1f,
        value & 0xf800 == 0x2000 ==> (value >> 8u16) & 0xff == 0x20 || (value >> 8u16) & 0xff == 0x21 || (value >> 8u16) & 0xff == 0x22 || (value >> 8u16) & 0xff == 0x23 || (value >> 8u16) & 0xff == 0x24 || (value >> 8u16) & 0xff == 0x25 || (value >> 8u16) & 0xff == 0x26 || (value >> 8u16) & 0xff == 0x27,
        value & 0xfe00 == 0x2800 ==> (value >> 8u16) & 0xff == 0x28 || (value >> 8u16) & 0xff == 0x29,
        value & 0xfc00 == 0x2c00 ==> (value >> 8u16) & 0xff == 0x2c || (value >> 8u16) & 0xff == 0x2d || (value >> 8u16) & 0xff == 0x2e || (value >> 8u16) & 0xff == 0x2f,
        value & 0xfc80 == 0x3000 ==> (value >> 8u16) & 0xff == 0x30 || (value >> 8u16) & 0xff == 0x31 || (value >> 8u16) & 0xff == 0x32 || (value >> 8u16) & 0xff == 0x33,
        value & 0xfc80 == 0x3400 ==> (value >> 8u16) & 0xff == 0x34 || (value >> 8u16) & 0xff == 0x35 || (value >> 8u16) & 0xff == 0x36 || (value >> 8u16) & 0xff == 0x37,
        value & 0xfc80 == 0x3800 ==> (value >> 8u16) & 0xff == 0x38 || (value >> 8u16) & 0xff == 0x39 || (value >> 8u16) & 0xff == 0x3a || (value >> 8u16) & 0xff == 0x3b,
        value & 0xfe80 == 0x3c00 ==> (value >> 8u16) & 0xff == 0x3c || (value >> 8u16) & 0xff == 0x3d,
        value & 0xfe80 == 0x3e00 ==> (value >> 8u16) & 0xff == 0x3e || (value >> 8u16) & 0xff == 0x3f,
        value & 0xfe80 == 0x3080 ==> (value >> 8u16) & 0xff == 0x30 || (value >> 8u16) & 0xff == 0x31,
        value & 0xfe80 == 0x3280 ==> (value >> 8u16) & 0xff == 0x32 || (value >> 8u16) & 0xff == 0x33,
        value & 0xfc80 == 0x3480 ==> (value >> 8u16) & 0xff == 0x34 || (value >> 8u16) & 0xff == 0x35 || (value >> 8u16) & 0xff == 0x36 || (value >> 8u16) & 0xff == 0x37,
        value & 0xfc80 == 0x3880 ==> (value >> 8u16) & 0xff == 0x38 || (value >> 8u16) & 0xff == 0x39 || (value >> 8u16) & 0xff == 0x3a || (value >> 8u16) & 0xff == 0x3b,
        value & 0xfe80 == 0x3c80 ==> (value >> 8u16) & 0xff == 0x3c || (value >> 8u16) & 0xff == 0x3d,
        value & 0xfe80 == 0x3e80 ==> (value >> 8u16) & 0xff == 0x3e || (value >> 8u16) & 0xff == 0x3f,
        value & 0xf800 == 0x4000 ==> (value >> 8u16) & 0xff == 0x40 || (value >> 8u16) & 0xff == 0x41 || (value >> 8u16) & 0xff == 0x42 || (value >> 8u16) & 0xff == 0x43 || (value >> 8u16) & 0xff == 0x44 || (value >> 8u16) & 0xff == 0x45 || (value >> 8u16) & 0xff == 0x46 || (value >> 8u16) & 0xff == 0x47,
        value & 0xfc00 == 0x4800 ==> (value >> 8u16) & 0xff == 0x48 || (value >> 8u16) & 0xff == 0x49 || (value >> 8u16) & 0xff == 0x4a || (value >> 8u16) & 0xff == 0x4b,
        value & 0xfe00 == 0x4c00 ==> (value >> 8u16) & 0xff == 0x4c || (value >> 8u16) & 0xff == 0x4d,
        value & 0xfe00 == 0x4e00 ==> (value >> 8u16) & 0xff == 0x4e || (value >> 8u16) & 0xff == 0x4f,
        value & 0xf800 == 0x5000 ==> (value >> 8u16) & 0xff == 0x50 || (value >> 8u16) & 0xff == 0x51 || (value >> 8u16) & 0xff == 0x52 || (value >> 8u16) & 0xff == 0x53 || (value >> 8u16) & 0xff == 0x54 || (value >> 8u16) & 0xff == 0x55 || (value >> 8u16) & 0xff == 0x56 || (value >> 8u16) & 0xff == 0x57,
        value & 0xfc00 == 0x5800 ==> (value >> 8u16) & 0xff == 0x58 || (value >> 8u16) & 0xff == 0x59 || (value >> 8u16) & 0xff == 0x5a || (value >> 8u16) & 0xff == 0x5b,
        value & 0xfe00 == 0x5c00 ==> (value >> 8u16) & 0xff == 0x5c || (value >> 8u16) & 0xff == 0x5d,
        value & 0xfe00 == 0x5e00 ==> (value >> 8u16) & 0xff == 0x5e || (value >> 8u16) & 0xff == 0x5f,
        value & 0xf800 == 0x6000 ==> (value >> 8u16) & 0xff == 0x60 || (value >> 8u16) & 0xff == 0x61 || (value >> 8u16) & 0xff == 0x62 || (value >> 8u16) & 0xff == 0x63 || (value >> 8u16) & 0xff == 0x64 || (value >> 8u16) & 0xff == 0x65 || (value >> 8u16) & 0xff == 0x66 || (value >> 8u16) & 0xff == 0x67,
        value & 0xfc00 == 0x6800 ==> (value >> 8u16) & 0xff == 0x68 || (value >> 8u16) & 0xff == 0x69 || (value >> 8u16) & 0xff == 0x6a || (value >> 8u16) & 0xff == 0x6b,
        value & 0xfe00 == 0x6c00 ==> (value >> 8u16) & 0xff == 0x6c || (value >> 8u16) & 0xff == 0x6d,
        value & 0xfe00 == 0x6e00 ==> (value >> 8u16) & 0xff == 0x6e || (value >> 8u16) & 0xff == 0x6f,
        value & 0xfc00 == 0x7000 ==> (value >> 8u16) & 0xff == 0x70 || (value >> 8u16) & 0xff == 0x71 || (value >> 8u16) & 0xff == 0x72 || (value >> 8u16) & 0xff == 0x73,
        value & 0xfe00 == 0x7400 ==> (value >> 8u16) & 0xff == 0x74 || (value >> 8u16) & 0xff == 0x75,
        value & 0xfe00 == 0x7600 ==> (value >> 8u16) & 0xff == 0x76 || (value >> 8u16) & 0xff == 0x77,
        value & 0xfe00 == 0x7800 ==> (value >> 8u16) & 0xff == 0x78 || (value >> 8u16) & 0xff == 0x79,
        value & 0xfe00 == 0x7a00 ==> (value >> 8u16) & 0xff == 0x7a || (value >> 8u16) & 0xff == 0x7b,
        value & 0xfe00 == 0x7c00 ==> (value >> 8u16) & 0xff == 0x7c || (value >> 8u16) & 0xff == 0x7d,
        value & 0xfe00 == 0x7e00 ==> (value >> 8u16) & 0xff == 0x7e || (value >> 8u16) & 0xff == 0x7f,
        value & 0xf700 == 0x8000 ==> (value >> 8u16) & 0xff == 0x80 || (value >> 8u16) & 0xff == 0x88,
        value & 0xf700 == 0x8100 ==> (value >> 8u16) & 0xff == 0x81 || (value >> 8u16) & 0xff == 0x89,
        value & 0xff00 == 0x8200 ==> (value >> 8u16) & 0xff == 0x82,
        value & 0xff00 == 0x8300 ==> (value >> 8u16) & 0xff == 0x83,
        value & 0xff00 == 0x8400 ==> (value >> 8u16) & 0xff == 0x84,
        value & 0xff00 == 0x8500 ==> (value >> 8u16) & 0xff == 0x85,
        value & 0xfe00 == 0x8600 ==> (value >> 8u16) & 0xff == 0x86 || (value >> 8u16) & 0xff == 0x87,
        value & 0xff00 == 0x8a00 ==> (value >> 8u16) & 0xff == 0x8a,
        value & 0xff00 == 0x8b00 ==> (value >> 8u16) & 0xff == 0x8b,
        value & 0xff00 == 0x8c00 ==> (value >> 8u16) & 0xff == 0x8c,
        value & 0xff00 == 0x8d00 ==> (value >> 8u16) & 0xff == 0x8d,
        value & 0xff00 == 0x8e00 ==> (value >> 8u16) & 0xff == 0x8e,
        value & 0xff00 == 0x8f00 ==> (value >> 8u16) & 0xff == 0x8f,
        value & 0xf700 == 0x9000 ==> (value >> 8u16) & 0xff == 0x90 || (value >> 8u16) & 0xff == 0x98,
        value & 0xf700 == 0x9100 ==> (value >> 8u16) & 0xff == 0x91 || (value >> 8u16) & 0xff == 0x99,
        value & 0xf600 == 0x9200 ==> (value >> 8u16) & 0xff == 0x92 || (value >> 8u16) & 0xff == 0x93 || (value >> 8u16) & 0xff == 0x9a || (value >> 8u16) & 0xff == 0x9b,
        value & 0xf600 == 0x9400 ==> (value >> 8u16) & 0xff == 0x94 || (value >> 8u16) & 0xff == 0x95 || (value >> 8u16) & 0xff == 0x9c || (value >> 8u16) & 0xff == 0x9d,
        value & 0xf600 == 0x9600 ==> (value >> 8u16) & 0xff == 0x96 || (value >> 8u16) & 0xff == 0x97 || (value >> 8u16) & 0xff == 0x9e || (value >> 8u16) & 0xff == 0x9f,
        value & 0xe700 == 0xa000 ==> (value >> 8u16) & 0xff == 0xa0 || (value >> 8u16) & 0xff == 0xa8 || (value >> 8u16) & 0xff == 0xb0 || (value >> 8u16) & 0xff == 0xb8,
        value & 0xf700 == 0xa100 ==> (value >> 8u16) & 0xff == 0xa1 || (value >> 8u16) & 0xff == 0xa9,
        value & 0xf700 == 0xb100 ==> (value >> 8u16) & 0xff == 0xb1 || (value >> 8u16) & 0xff == 0xb9,
        value & 0xe600 == 0xa200 ==> (value >> 8u16) & 0xff == 0xa2 || (value >> 8u16) & 0xff == 0xa3 || (value >> 8u16) & 0xff == 0xaa || (value >> 8u16) & 0xff == 0xab || (value >> 8u16) & 0xff == 0xb2 || (value >> 8u16) & 0xff == 0xb3 || (value >> 8u16) & 0xff == 0xba || (value >> 8u16) & 0xff == 0xbb,
        value & 0xe600 == 0xa400 ==> (value >> 8u16) & 0xff == 0xa4 || (value >> 8u16) & 0xff == 0xa5 || (value >> 8u16) & 0xff == 0xac || (value >> 8u16) & 0xff == 0xad || (value >> 8u16) & 0xff == 0xb4 || (value >> 8u16) & 0xff == 0xb5 || (value >> 8u16) & 0xff == 0xbc || (value >> 8u16) & 0xff == 0xbd,
        value & 0xe600 == 0xa600 ==> (value >> 8u16) & 0xff == 0xa6 || (value >> 8u16) & 0xff == 0xa7 || (value >> 8u16) & 0xff == 0xae || (value >> 8u16) & 0xff == 0xaf || (value >> 8u16) & 0xff == 0xb6 || (value >> 8u16) & 0xff == 0xb7 || (value >> 8u16) & 0xff == 0xbe || (value >> 8u16) & 0xff == 0xbf,
        value & 0xe700 == 0xc000 ==> (value >> 8u16) & 0xff == 0xc0 || (value >> 8u16) & 0xff == 0xc8 || (value >> 8u16) & 0xff == 0xd0 || (value >> 8u16) & 0xff == 0xd8,
        value & 0xe700 == 0xc100 ==> (value >> 8u16) & 0xff == 0xc1 || (value >> 8u16) & 0xff == 0xc9 || (value >> 8u16) & 0xff == 0xd1 || (value >> 8u16) & 0xff == 0xd9,
        value & 0xe600 == 0xc200 ==> (value >> 8u16) & 0xff == 0xc2 || (value >> 8u16) & 0xff == 0xc3 || (value >> 8u16) & 0xff == 0xca || (value >> 8u16) & 0xff == 0xcb || (value >> 8u16) & 0xff == 0xd2 || (value >> 8u16) & 0xff == 0xd3 || (value >> 8u16) & 0xff == 0xda || (value >> 8u16) & 0xff == 0xdb,
        value & 0xe600 == 0xc400 ==> (value >> 8u16) & 0xff == 0xc4 || (value >> 8u16) & 0xff == 0xc5 || (value >> 8u16) & 0xff == 0xcc || (value >> 8u16) & 0xff == 0xcd || (value >> 8u16) & 0xff == 0xd4 || (value >> 8u16) & 0xff == 0xd5 || (value >> 8u16) & 0xff == 0xdc || (value >> 8u16) & 0xff == 0xdd,
        value & 0xe600 == 0xc600 ==> (value >> 8u16) & 0xff == 0xc6 || (value >> 8u16) & 0xff == 0xc7 || (value >> 8u16) & 0xff == 0xce || (value >> 8u16) & 0xff == 0xcf || (value >> 8u16) & 0xff == 0xd6 || (value >> 8u16) & 0xff == 0xd7 || (value >> 8u16) & 0xff == 0xde || (value >> 8u16) & 0xff == 0xdf,
        value & 0xfc00 == 0xe000 ==> (value >> 8u16) & 0xff == 0xe0 || (value >> 8u16) & 0xff == 0xe1 || (value >> 8u16) & 0xff == 0xe2 || (value >> 8u16) & 0xff == 0xe3,
        value & 0xfc00 == 0xe400 ==> (value >> 8u16) & 0xff == 0xe4 || (value >> 8u16) & 0xff == 0xe5 || (value >> 8u16) & 0xff == 0xe6 || (value >> 8u16) & 0xff == 0xe7,
        value & 0xfc00 == 0xe800 ==> (value >> 8u16) & 0xff == 0xe8 || (value >> 8u16) & 0xff == 0xe9 || (value >> 8u16) & 0xff == 0xea || (value >> 8u16) & 0xff == 0xeb,
        value & 0xfc00 == 0xec00 ==> (value >> 8u16) & 0xff == 0xec || (value >> 8u16) & 0xff == 0xed || (value >> 8u16) & 0xff == 0xee || (value >> 8u16) & 0xff == 0xef,
        value & 0xfe00 == 0xf000 ==> (value >> 8u16) & 0xff == 0xf0 || (value >> 8u16) & 0xff == 0xf1,
        value & 0xfe00 == 0xf200 ==> (value >> 8u16) & 0xff == 0xf2 || (value >> 8u16) & 0xff == 0xf3,
        value & 0xfe00 == 0xf400 ==> (value >> 8u16) & 0xff == 0xf4 || (value >> 8u16) & 0xff == 0xf5,
        value & 0xfe00 == 0xf600 ==> (value >> 8u16) & 0xff == 0xf6 || (value >> 8u16) & 0xff == 0xf7,
        value & 0xfc00 == 0xf800 ==> (value >> 8u16) & 0xff == 0xf8 || (value >> 8u16) & 0xff == 0xf9 || (value >> 8u16) & 0xff == 0xfa || (value >> 8u16) & 0xff == 0xfb,
        value & 0xfe00 == 0xfc00 ==> (value >> 8u16) & 0xff == 0xfc || (value >> 8u16) & 0xff == 0xfd,
        value & 0xfe00 == 0xfe00 ==> (value >> 8u16) & 0xff == 0xfe || (value >> 8u16) & 0xff == 0xff,
{
}

/// Patterns that fix the same byte differ in another one.
proof fn lemma_opcode_patterns_disjoint(value: u16)
    by (bit_vector)
    ensures
        !(value & 0xffff == 0x0000 && value & 0xfffc == 0x0004),
        !(value & 0xffff == 0x0000 && value & 0xfffc == 0x0008),
        !(value & 0xffff == 0x0000 && value & 0xfffc == 0x000c),
        !(value & 0xffff == 0x0000 && value & 0xfff0 == 0x0010),
        !(value & 0xffff == 0x0000 && value & 0xffff == 0x0021),
        !(value & 0xffff == 0x0000 && value & 0xffe0 == 0x0040),
        !(value & 0xffff == 0x0000 && value & 0xffe0 == 0x0060),
        !(value & 0xffff == 0x0000 && value & 0xffe0 == 0x0080),
        !(value & 0xffff == 0x0000 && value & 0xffe0 == 0x00c0),
        !(value & 0xffff == 0x0000 && value & 0xffe0 == 0x00e0),
        !(value & 0xfffc == 0x0004 && value & 0xfffc == 0x0008),
        !(value & 0xfffc == 0x0004 && value & 0xfffc == 0x000c),
        !(value & 0xfffc == 0x0004 && value & 0xfff0 == 0x0010),
        !(value & 0xfffc == 0x0004 && value & 0xffff == 0x0021),
        !(value & 0xfffc == 0x0004 && value & 0xffe0 == 0x0040),
        !(value & 0xfffc == 0x0004 && value & 0xffe0 == 0x0060),
        !(value & 0xfffc == 0x0004 && value & 0xffe0 == 0x0080),
        !(value & 0xfffc == 0x0004 && value & 0xffe0 == 0x00c0),
        !(value & 0xfffc == 0x0004 && value & 0xffe0 == 0x00e0),
        !(value & 0xfffc == 0x0008 && value & 0xfffc == 0x000c),
        !(value & 0xfffc == 0x0008 && value & 0xfff0 == 0x0010),
        !(value & 0xfffc == 0x0008 && value & 0xffff == 0x0021),
        !(value & 0xfffc == 0x0008 && value & 0xffe0 == 0x0040),
        !(value & 0xfffc == 0x0008 && value & 0xffe0 == 0x0060),
        !(value & 0xfffc == 0x0008 && value & 0xffe0 == 0x0080),
        !(value & 0xfffc == 0x0008 && value & 0xffe0 == 0x00c0),
        !(value & 0xfffc == 0x0008 && value & 0xffe0 == 0x00e0),
        !(value & 0xfffc == 0x000c && value & 0xfff0 == 0x0010),
        !(value & 0xfffc == 0x000c && value & 0xffff == 0x0021),
        !(value & 0xfffc == 0x000c && value & 0xffe0 == 0x0040),
        !(value & 0xfffc == 0x000c && value & 0xffe0 == 0x0060),
        !(value & 0xfffc == 0x000c && value & 0xffe0 == 0x0080),
        !(value & 0xfffc == 0x000c && value & 0xffe0 == 0x00c0),
        !(value & 0xfffc == 0x000c && value & 0xffe0 == 0x00e0),
        !(value & 0xfff0 == 0x0010 && value & 0xffff == 0x0021),
        !(value & 0xfff0 == 0x0010 && value & 0xffe0 == 0x0040),
        !(value & 0xfff0 == 0x0010 && value & 0xffe0 == 0x0060),
        !(value & 0xfff0 == 0x0010 && value & 0xffe0 == 0x0080),
        !(value & 0xfff0 == 0x0010 && value & 0xffe0 == 0x00c0),
        !(value & 0xfff0 == 0x0010 && value & 0xffe0 == 0x00e0),
        !(value & 0xffff == 0x0021 && value & 0xffe0 == 0x0040),
        !(value & 0xffff == 0x0021 && value & 0xffe0 == 0x0060),
        !(value & 0xffff == 0x0021 && value & 0xffe0 == 0x0080),
        !(value & 0xffff == 0x0021 && value & 0xffe0 == 0x00c0),
        !(value & 0xffff == 0x0021 && value & 0xffe0 == 0x00e0),
        !(value & 0xffe0 == 0x0040 && value & 0xffe0 == 0x0060),
        !(value & 0xffe0 == 0x0040 && value & 0xffe0 == 0x0080),
        !(value & 0xffe0 == 0x0040 && value & 0xffe0 == 0x00c0),
        !(value & 0xffe0 == 0x0040 && value & 0xffe0 == 0x00e0),
        !(value & 0xffe0 == 0x0060 && value & 0xffe0 == 0x0080),
        !(value & 0xffe0 == 0x0060 && value & 0xffe0 == 0x00c0),
        !(value & 0xffe0 == 0x0060 && value & 0xffe0 == 0x00e0),
        !(value & 0xffe0 == 0x0080 && value & 0xffe0 == 0x00c0),
        !(value & 0xffe0 == 0x0080 && value & 0xffe0 == 0x00e0),
        !(value & 0xffe0 == 0x00c0 && value & 0xffe0 == 0x00e0),
        !(value & 0xfff0 == 0x0270 && value & 0xfff0 == 0x0290),
        !(value & 0xfff0 == 0x0270 && value & 0xfff0 == 0x02b0),
        !(value & 0xfff0 == 0x0270 && value & 0xfff0 == 0x02d0),
        !(value & 0xfff0 == 0x0270 && value & 0xfff0 == 0x02f0),
        !(value & 0xfff0 == 0x0270 && value & 0xfeff == 0x0200),
        !(value & 0xfff0 == 0x0270 && value & 0xfeff == 0x0220),
        !(value & 0xfff0 == 0x0270 && value & 0xfeff == 0x0240),
        !(value & 0xfff0 == 0x0270 && value & 0xfeff == 0x0260),
        !(value & 0xfff0 == 0x0270 && value & 0xfeff == 0x0280),
        !(value & 0xfff0 == 0x0270 && value & 0xfeff == 0x02a0),
        !(value & 0xfff0 == 0x0270 && value & 0xfeff == 0x02c0),
        !(value & 0xfff0 == 0x0270 && value & 0xffff == 0x02ca),
        !(value & 0xfff0 == 0x0270 && value & 0xffff == 0x02cb),
        !(value & 0xfff0 == 0x0270 && value & 0xfefc == 0x0210),
        !(value & 0xfff0 == 0x0270 && value & 0xfefc == 0x0214),
        !(value & 0xfff0 == 0x0270 && value & 0xfefc == 0x0218),
        !(value & 0xfff0 == 0x0270 && value & 0xfefc == 0x021c),
        !(value & 0xfff0 == 0x0290 && value & 0xfff0 == 0x02b0),
        !(value & 0xfff0 == 0x0290 && value & 0xfff0 == 0x02d0),
        !(value & 0xfff0 == 0x0290 && value & 0xfff0 == 0x02f0),
        !(value & 0xfff0 == 0x0290 && value & 0xfeff == 0x0200),
        !(value & 0xfff0 == 0x0290 && value & 0xfeff == 0x0220),
        !(value & 0xfff0 == 0x0290 && value & 0xfeff == 0x0240),
        !(value & 0xfff0 == 0x0290 && value & 0xfeff == 0x0260),
        !(value & 0xfff0 == 0x0290 && value & 0xfeff == 0x0280),
        !(value & 0xfff0 == 0x0290 && value & 0xfeff == 0x02a0),
        !(value & 0xfff0 == 0x0290 && value & 0xfeff == 0x02c0),
        !(value & 0xfff0 == 0x0290 && value & 0xffff == 0x02ca),
        !(value & 0xfff0 == 0x0290 && value & 0xffff == 0x02cb),
        !(value & 0xfff0 == 0x0290 && value & 0xfefc == 0x0210),
        !(value & 0xfff0 == 0x0290 && value & 0xfefc == 0x0214),
        !(value & 0xfff0 == 0x0290 && value & 0xfefc == 0x0218),
        !(value & 0xfff0 == 0x0290 && value & 0xfefc == 0x021c),
        !(value & 0xfff0 == 0x02b0 && value & 0xfff0 == 0x02d0),
        !(value & 0xfff0 == 0x02b0 && value & 0xfff0 == 0x02f0),
        !(value & 0xfff0 == 0x02b0 && value & 0xfeff == 0x0200),
        !(value & 0xfff0 == 0x02b0 && value & 0xfeff == 0x0220),
        !(value & 0xfff0 == 0x02b0 && value & 0xfeff == 0x0240),
        !(value & 0xfff0 == 0x02b0 && value & 0xfeff == 0x0260),
        !(value & 0xfff0 == 0x02b0 && value & 0xfeff == 0x0280),
        !(value & 0xfff0 == 0x02b0 && value & 0xfeff == 0x02a0),
        !(value & 0xfff0 == 0x02b0 && value & 0xfeff == 0x02c0),
        !(value & 0xfff0 == 0x02b0 && value & 0xffff == 0x02ca),
        !(value & 0xfff0 == 0x02b0 && value & 0xffff == 0x02cb),
        !(value & 0xfff0 == 0x02b0 && value & 0xfefc == 0x0210),
        !(value & 0xfff0 == 0x02b0 && value & 0xfefc == 0x0214),
        !(value & 0xfff0 == 0x02b0 && value & 0xfefc == 0x0218),
        !(value & 0xfff0 == 0x02b0 && value & 0xfefc == 0x021c),
        !(value & 0xfff0 == 0x02d0 && value & 0xfff0 == 0x02f0),
        !(value & 0xfff0 == 0x02d0 && value & 0xfeff == 0x0200),
        !(value & 0xfff0 == 0x02d0 && value & 0xfeff == 0x0220),
        !(value & 0xfff0 == 0x02d0 && value & 0xfeff == 0x0240),
        !(value & 0xfff0 == 0x02d0 && value & 0xfeff == 0x0260),
        !(value & 0xfff0 == 0x02d0 && value & 0xfeff == 0x0280),
        !(value & 0xfff0 == 0x02d0 && value & 0xfeff == 0x02a0),
        !(value & 0xfff0 == 0x02d0 && value & 0xfeff == 0x02c0),
        !(value & 0xfff0 == 0x02d0 && value & 0xffff == 0x02ca),
        !(value & 0xfff0 == 0x02d0 && value & 0xffff == 0x02cb),
        !(value & 0xfff0 == 0x02d0 && value & 0xfefc == 0x0210),
        !(value & 0xfff0 == 0x02d0 && value & 0xfefc == 0x0214),
        !(value & 0xfff0 == 0x02d0 && value & 0xfefc == 0x0218),
        !(value & 0xfff0 == 0x02d0 && value & 0xfefc == 0x021c),
        !(value & 0xfff0 == 0x02f0 && value & 0xfeff == 0x0200),
        !(value & 0xfff0 == 0x02f0 && value & 0xfeff == 0x0220),
        !(value & 0xfff0 == 0x02f0 && value & 0xfeff == 0x0240),
        !(value & 0xfff0 == 0x02f0 && value & 0xfeff == 0x0260),
        !(value & 0xfff0 == 0x02f0 && value & 0xfeff == 0x0280),
        !(value & 0xfff0 == 0x02f0 && value & 0xfeff == 0x02a0),
        !(value & 0xfff0 == 0x02f0 && value & 0xfeff == 0x02c0),
        !(value & 0xfff0 == 0x02f0 && value & 0xffff == 0x02ca),
        !(value & 0xfff0 == 0x02f0 && value & 0xffff == 0x02cb),
        !(value & 0xfff0 == 0x02f0 && value & 0xfefc == 0x0210),
        !(value & 0xfff0 == 0x02f0 && value & 0xfefc == 0x0214),
        !(value & 0xfff0 == 0x02f0 && value & 0xfefc == 0x0218),
        !(value & 0xfff0 == 0x02f0 && value & 0xfefc == 0x021c),
        !(value & 0xfeff == 0x0200 && value & 0xfeff == 0x0220),
        !(value & 0xfeff == 0x0200 && value & 0xfeff == 0x0240),
        !(value & 0xfeff == 0x0200 && value & 0xfeff == 0x0260),
        !(value & 0xfeff == 0x0200 && value & 0xfeff == 0x0280),
        !(value & 0xfeff == 0x0200 && value & 0xfeff == 0x02a0),
        !(value & 0xfeff == 0x0200 && value & 0xfeff == 0x02c0),
        !(value & 0xfeff == 0x0200 && value & 0xffff == 0x02ca),
        !(value & 0xfeff == 0x0200 && value & 0xffff == 0x02cb),
        !(value & 0xfeff == 0x0200 && value & 0xfefc == 0x0210),
        !(value & 0xfeff == 0x0200 && value & 0xfefc == 0x0214),
        !(value & 0xfeff == 0x0200 && value & 0xfefc == 0x0218),
        !(value & 0xfeff == 0x0200 && value & 0xfefc == 0x021c),
        !(value & 0xfeff == 0x0220 && value & 0xfeff == 0x0240),
        !(value & 0xfeff == 0x0220 && value & 0xfeff == 0x0260),
        !(value & 0xfeff == 0x0220 && value & 0xfeff == 0x0280),
        !(value & 0xfeff == 0x0220 && value & 0xfeff == 0x02a0),
        !(value & 0xfeff == 0x0220 && value & 0xfeff == 0x02c0),
        !(value & 0xfeff == 0x0220 && value & 0xffff == 0x02ca),
        !(value & 0xfeff == 0x0220 && value & 0xffff == 0x02cb),
        !(value & 0xfeff == 0x0220 && value & 0xfefc == 0x0210),
        !(value & 0xfeff == 0x0220 && value & 0xfefc == 0x0214),
        !(value & 0xfeff == 0x0220 && value & 0xfefc == 0x0218),
        !(value & 0xfeff == 0x0220 && value & 0xfefc == 0x021c),
        !(value & 0xfeff == 0x0240 && value & 0xfeff == 0x0260),
        !(value & 0xfeff == 0x0240 && value & 0xfeff == 0x0280),
        !(value & 0xfeff == 0x0240 && value & 0xfeff == 0x02a0),
        !(value & 0xfeff == 0x0240 && value & 0xfeff == 0x02c0),
        !(value & 0xfeff == 0x0240 && value & 0xffff == 0x02ca),
        !(value & 0xfeff == 0x0240 && value & 0xffff == 0x02cb),
        !(value & 0xfeff == 0x0240 && value & 0xfefc == 0x0210),
        !(value & 0xfeff == 0x0240 && value & 0xfefc == 0x0214),
        !(value & 0xfeff == 0x0240 && value & 0xfefc == 0x0218),
        !(value & 0xfeff == 0x0240 && value & 0xfefc == 0x021c),
        !(value & 0xfeff == 0x0260 && value & 0xfeff == 0x0280),
        !(value & 0xfeff == 0x0260 && value & 0xfeff == 0x02a0),
        !(value & 0xfeff == 0x0260 && value & 0xfeff == 0x02c0),
        !(value & 0xfeff == 0x0260 && value & 0xffff == 0x02ca),
        !(value & 0xfeff == 0x0260 && value & 0xffff == 0x02cb),
        !(value & 0xfeff == 0x0260 && value & 0xfefc == 0x0210),
        !(value & 0xfeff == 0x0260 && value & 0xfefc == 0x0214),
        !(value & 0xfeff == 0x0260 && value & 0xfefc == 0x0218),
        !(value & 0xfeff == 0x0260 && value & 0xfefc == 0x021c),
        !(value & 0xfeff == 0x0280 && value & 0xfeff == 0x02a0),
        !(value & 0xfeff == 0x0280 && value & 0xfeff == 0x02c0),
        !(value & 0xfeff == 0x0280 && value & 0xffff == 0x02ca),
        !(value & 0xfeff == 0x0280 && value & 0xffff == 0x02cb),
        !(value & 0xfeff == 0x0280 && value & 0xfefc == 0x0210),
        !(value & 0xfeff == 0x0280 && value & 0xfefc == 0x0214),
        !(value & 0xfeff == 0x0280 && value & 0xfefc == 0x0218),
        !(value & 0xfeff == 0x0280 && value & 0xfefc == 0x021c),
        !(value & 0xfeff == 0x02a0 && value & 0xfeff == 0x02c0),
        !(value & 0xfeff == 0x02a0 && value & 0xffff == 0x02ca),
        !(value & 0xfeff == 0x02a0 && value & 0xffff == 0x02cb),
        !(value & 0xfeff == 0x02a0 && value & 0xfefc == 0x0210),
        !(value & 0xfeff == 0x02a0 && value & 0xfefc == 0x0214),
        !(value & 0xfeff == 0x02a0 && value & 0xfefc == 0x0218),
        !(value & 0xfeff == 0x02a0 && value & 0xfefc == 0x021c),
        !(value & 0xfeff == 0x02c0 && value & 0xffff == 0x02ca),
        !(value & 0xfeff == 0x02c0 && value & 0xffff == 0x02cb),
        !(value & 0xfeff == 0x02c0 && value & 0xfefc == 0x0210),
        !(value & 0xfeff == 0x02c0 && value & 0xfefc == 0x0214),
        !(value & 0xfeff == 0x02c0 && value & 0xfefc == 0x0218),
        !(value & 0xfeff == 0x02c0 && value & 0xfefc == 0x021c),
        !(value & 0xffff == 0x02ca && value & 0xffff == 0x02cb),
        !(value & 0xffff == 0x02ca && value & 0xfefc == 0x0210),
        !(value & 0xffff == 0x02ca && value & 0xfefc == 0x0214),
        !(value & 0xffff == 0x02ca && value & 0xfefc == 0x0218),
        !(value & 0xffff == 0x02ca && value & 0xfefc == 0x021c),
        !(value & 0xffff == 0x02cb && value & 0xfefc == 0x0210),
        !(value & 0xffff == 0x02cb && value & 0xfefc == 0x0214),
        !(value & 0xffff == 0x02cb && value & 0xfefc == 0x0218),
        !(value & 0xffff == 0x02cb && value & 0xfefc == 0x021c),
        !(value & 0xfefc == 0x0210 && value & 0xfefc == 0x0214),
        !(value & 0xfefc == 0x0210 && value & 0xfefc == 0x0218),
        !(value & 0xfefc == 0x0210 && value & 0xfefc == 0x021c),
        !(value & 0xfefc == 0x0214 && value & 0xfefc == 0x0218),
        !(value & 0xfefc == 0x0214 && value & 0xfefc == 0x021c),
        !(value & 0xfefc == 0x0218 && value & 0xfefc == 0x021c),
        !(value & 0xfec0 == 0x1400 && value & 0xfec0 == 0x1440),
        !(value & 0xfec0 == 0x1400 && value & 0xfec0 == 0x1480),
        !(value & 0xfec0 == 0x1400 && value & 0xfec0 == 0x14c0),
        !(value & 0xfec0 == 0x1440 && value & 0xfec0 == 0x1480),
        !(value & 0xfec0 == 0x1440 && value & 0xfec0 == 0x14c0),
        !(value & 0xfec0 == 0x1480 && value & 0xfec0 == 0x14c0),
        !(value & 0xff10 == 0x1700 && value & 0xff10 == 0x1710),
        !(value & 0xff80 == 0x1800 && value & 0xff80 == 0x1880),
        !(value & 0xff80 == 0x1900 && value & 0xff80 == 0x1980),
        !(value & 0xff80 == 0x1a00 && value & 0xff80 == 0x1a80),
        !(value & 0xff80 == 0x1b00 && value & 0xff80 == 0x1b80),
        !(value & 0xfc80 == 0x3000 && value & 0xfe80 == 0x3080),
        !(value & 0xfc80 == 0x3000 && value & 0xfe80 == 0x3280),
        !(value & 0xfc80 == 0x3400 && value & 0xfc80 == 0x3480),
        !(value & 0xfc80 == 0x3800 && value & 0xfc80 == 0x3880),
        !(value & 0xfe80 == 0x3c00 && value & 0xfe80 == 0x3c80),
        !(value & 0xfe80 == 0x3e00 && value & 0xfe80 == 0x3e80),
{
}

/// No value has the patterns of two different Opcodes.
#[verifier::spinoff_prover]
#[verifier::rlimit(100)]
pub proof fn law_opcode_unique(value: u16, a: Opcode, b: Opcode)
    requires
        a.spec_matches(value),
        b.spec_matches(value),
    ensures
        a == b,
{
    lemma_opcode_key_byte(value);
    lemma_opcode_patterns_disjoint(value);
}

/// An extension opcode, carried in the low byte of some instructions.
#[derive(Debug, Clone, Copy, PartialEq, Eq, Structural)]
pub enum ExtensionOpcode {
    Nop,
    Dr,
    Ir,
    Nr,
    Mv,
    S,
    Sn,
    L,
    Ln,
    Ls,
    Sl,
    Lsn,
    Sln,
    Lsm,
    Slm,
    Lsnm,
    Slnm,
    Ld,
    Ldn,
    Ldm,
    Ldnm,
    Illegal,
}

impl ExtensionOpcode {
    /// The bit pattern of this opcode; `None` for `Illegal`.
    pub open spec fn spec_info(self) -> Option<OpcodeInfo> {
        match self {
            ExtensionOpcode::Nop => Some(OpcodeInfo { mask: 0x00fc, target: 0x0000 }),
            ExtensionOpcode::Dr => Some(OpcodeInfo { mask: 0x00fc, target: 0x0004 }),
            ExtensionOpcode::Ir => Some(OpcodeInfo { mask: 0x00fc, target: 0x0008 }),
            ExtensionOpcode::Nr => Some(OpcodeInfo { mask: 0x00fc, target: 0x000c }),
            ExtensionOpcode::Mv => Some(OpcodeInfo { mask: 0x00f0, target: 0x0010 }),
            ExtensionOpcode::S => Some(OpcodeInfo { mask: 0x00e4, target: 0x0020 }),
            ExtensionOpcode::Sn => Some(OpcodeInfo { mask: 0x00e4, target: 0x0024 }),
            ExtensionOpcode::L => Some(OpcodeInfo { mask: 0x00c4, target: 0x0040 }),
            ExtensionOpcode::Ln => Some(OpcodeInfo { mask: 0x00c4, target: 0x0044 }),
            ExtensionOpcode::Ls => Some(OpcodeInfo { mask: 0x00ce, target: 0x0080 }),
            ExtensionOpcode::Sl => Some(OpcodeInfo { mask: 0x00ce, target: 0x0082 }),
            ExtensionOpcode::Lsn => Some(OpcodeInfo { mask: 0x00ce, target: 0x0084 }),
            ExtensionOpcode::Sln => Some(OpcodeInfo { mask: 0x00ce, target: 0x0086 }),
            ExtensionOpcode::Lsm => Some(OpcodeInfo { mask: 0x00ce, target: 0x0088 }),
            ExtensionOpcode::Slm => Some(OpcodeInfo { mask: 0x00ce, target: 0x008a }),
            ExtensionOpcode::Lsnm => Some(OpcodeInfo { mask: 0x00ce, target: 0x008c }),
            ExtensionOpcode::Slnm => Some(OpcodeInfo { mask: 0x00ce, target: 0x008e }),
            ExtensionOpcode::Ld => Some(OpcodeInfo { mask: 0x00cc, target: 0x00c0 }),
            ExtensionOpcode::Ldn => Some(OpcodeInfo { mask: 0x00cc, target: 0x00c4 }),
            ExtensionOpcode::Ldm => Some(OpcodeInfo { mask: 0x00cc, target: 0x00c8 }),
            ExtensionOpcode::Ldnm => Some(OpcodeInfo { mask: 0x00cc, target: 0x00cc }),
            ExtensionOpcode::Illegal => None,
        }
    }

    /// The bit pattern of this opcode; `None` for `Illegal`.
    pub fn info(self) -> (r: Option<OpcodeInfo>)
        ensures
            r == self.spec_info(),
    {
        match self {
            ExtensionOpcode::Nop => Some(OpcodeInfo { mask: 0x00fc, target: 0x0000 }),
            ExtensionOpcode::Dr => Some(OpcodeInfo { mask: 0x00fc, target: 0x0004 }),
            ExtensionOpcode::Ir => Some(OpcodeInfo { mask: 0x00fc, target: 0x0008 }),
            ExtensionOpcode::Nr => Some(OpcodeInfo { mask: 0x00fc, target: 0x000c }),
            ExtensionOpcode::Mv => Some(OpcodeInfo { mask: 0x00f0, target: 0x0010 }),
            ExtensionOpcode::S => Some(OpcodeInfo { mask: 0x00e4, target: 0x0020 }),
            ExtensionOpcode::Sn => Some(OpcodeInfo { mask: 0x00e4, target: 0x0024 }),
            ExtensionOpcode::L => Some(OpcodeInfo { mask: 0x00c4, target: 0x0040 }),
            ExtensionOpcode::Ln => Some(OpcodeInfo { mask: 0x00c4, target: 0x0044 }),
            ExtensionOpcode::Ls => Some(OpcodeInfo { mask: 0x00ce, target: 0x0080 }),
            ExtensionOpcode::Sl => Some(OpcodeInfo { mask: 0x00ce, target: 0x0082 }),
            ExtensionOpcode::Lsn => Some(OpcodeInfo { mask: 0x00ce, target: 0x0084 }),
            ExtensionOpcode::Sln => Some(OpcodeInfo { mask: 0x00ce, target: 0x0086 }),
            ExtensionOpcode::Lsm => Some(OpcodeInfo { mask: 0x00ce, target: 0x0088 }),
            ExtensionOpcode::Slm => Some(OpcodeInfo { mask: 0x00ce, target: 0x008a }),
            ExtensionOpcode::Lsnm => Some(OpcodeInfo { mask: 0x00ce, target: 0x008c }),
            ExtensionOpcode::Slnm => Some(OpcodeInfo { mask: 0x00ce, target: 0x008e }),
            ExtensionOpcode::Ld => Some(OpcodeInfo { mask: 0x00cc, target: 0x00c0 }),
            ExtensionOpcode::Ldn => Some(OpcodeInfo { mask: 0x00cc, target: 0x00c4 }),
            ExtensionOpcode::Ldm => Some(OpcodeInfo { mask: 0x00cc, target: 0x00c8 }),
            ExtensionOpcode::Ldnm => Some(OpcodeInfo { mask: 0x00cc, target: 0x00cc }),
            ExtensionOpcode::Illegal => None,
        }
    }

    /// Whether `value` has the bit pattern of this opcode.
    pub open spec fn spec_matches(self, value: u16) -> bool {
        match self.spec_info() {
            Some(info) => info.spec_matches(value),
            None => false,
        }
    }

    /// All opcodes, `Illegal` last.
    pub open spec fn spec_variants() -> Seq<ExtensionOpcode> {
        seq![
            ExtensionOpcode::Nop,
            ExtensionOpcode::Dr,
            ExtensionOpcode::Ir,
            ExtensionOpcode::Nr,
            ExtensionOpcode::Mv,
            ExtensionOpcode::S,
            ExtensionOpcode::Sn,
            ExtensionOpcode::L,
            ExtensionOpcode::Ln,
            ExtensionOpcode::Ls,
            ExtensionOpcode::Sl,
            ExtensionOpcode::Lsn,
            ExtensionOpcode::Sln,
            ExtensionOpcode::Lsm,
            ExtensionOpcode::Slm,
            ExtensionOpcode::Lsnm,
            ExtensionOpcode::Slnm,
            ExtensionOpcode::Ld,
            ExtensionOpcode::Ldn,
            ExtensionOpcode::Ldm,
            ExtensionOpcode::Ldnm,
            ExtensionOpcode::Illegal,
        ]
    }

    /// All opcodes, `Illegal` last.
    pub fn variants() -> (v: Vec<ExtensionOpcode>)
        ensures
            v@ == Self::spec_variants(),
    {
        let v: Vec<ExtensionOpcode> = vec![
            ExtensionOpcode::Nop,
            ExtensionOpcode::Dr,
            ExtensionOpcode::Ir,
            ExtensionOpcode::Nr,
            ExtensionOpcode::Mv,
            ExtensionOpcode::S,
            ExtensionOpcode::Sn,
            ExtensionOpcode::L,
            ExtensionOpcode::Ln,
            ExtensionOpcode::Ls,
            ExtensionOpcode::Sl,
            ExtensionOpcode::Lsn,
            ExtensionOpcode::Sln,
            ExtensionOpcode::Lsm,
            ExtensionOpcode::Slm,
            ExtensionOpcode::Lsnm,
            ExtensionOpcode::Slnm,
            ExtensionOpcode::Ld,
            ExtensionOpcode::Ldn,
            ExtensionOpcode::Ldm,
            ExtensionOpcode::Ldnm,
            ExtensionOpcode::Illegal,
        ];
        assert(v@ =~= Self::spec_variants());
        v
    }

    /// The first opcode, in declaration order, whose pattern `value` has.
    fn find_match(value: u16) -> (op: Self)
        ensures
            op != ExtensionOpcode::Illegal ==> op.spec_matches(value),
            op == ExtensionOpcode::Illegal ==> forall|o: ExtensionOpcode| !o.spec_matches(value),
    {
        if value & 0x00fc == 0x0000 {
            return ExtensionOpcode::Nop;
        }
        if value & 0x00fc == 0x0004 {
            return ExtensionOpcode::Dr;
        }
        if value & 0x00fc == 0x0008 {
            return ExtensionOpcode::Ir;
        }
        if value & 0x00fc == 0x000c {
            return ExtensionOpcode::Nr;
        }
        if value & 0x00f0 == 0x0010 {
            return ExtensionOpcode::Mv;
        }
        if value & 0x00e4 == 0x0020 {
            return ExtensionOpcode::S;
        }
        if value & 0x00e4 == 0x0024 {
            return ExtensionOpcode::Sn;
        }
        if value & 0x00c4 == 0x0040 {
            return ExtensionOpcode::L;
        }
        if value & 0x00c4 == 0x0044 {
            return ExtensionOpcode::Ln;
        }
        if value & 0x00ce == 0x0080 {
            return ExtensionOpcode::Ls;
        }
        if value & 0x00ce == 0x0082 {
            return ExtensionOpcode::Sl;
        }
        if value & 0x00ce == 0x0084 {
            return ExtensionOpcode::Lsn;
        }
        if value & 0x00ce == 0x0086 {
            return ExtensionOpcode::Sln;
        }
        if value & 0x00ce == 0x0088 {
            return ExtensionOpcode::Lsm;
        }
        if value & 0x00ce == 0x008a {
            return ExtensionOpcode::Slm;
        }
        if value & 0x00ce == 0x008c {
            return ExtensionOpcode::Lsnm;
        }
        if value & 0x00ce == 0x008e {
            return ExtensionOpcode::Slnm;
        }
        if value & 0x00cc == 0x00c0 {
            return ExtensionOpcode::Ld;
        }
        if value & 0x00cc == 0x00c4 {
            return ExtensionOpcode::Ldn;
        }
        if value & 0x00cc == 0x00c8 {
            return ExtensionOpcode::Ldm;
        }
        if value & 0x00cc == 0x00cc {
            return ExtensionOpcode::Ldnm;
        }
        ExtensionOpcode::Illegal
    }
}

/// The byte of a value that an ExtensionOpcode pattern fixes to a few values.
proof fn lemma_extensionopcode_key_byte(value: u16)
    by (bit_vector)
    ensures
        value & 0x00fc == 0x0000 ==> value & 0xff == 0x00 || value & 0xff == 0x01 || value & 0xff == 0x02 || value & 0xff == 0x03,
        value & 0x00fc == 0x0004 ==> value & 0xff == 0x04 || value & 0xff == 0x05 || value & 0xff == 0x06 || value & 0xff == 0x07,
        value & 0x00fc == 0x0008 ==> value & 0xff == 0x08 || value & 0xff == 0x09 || value & 0xff == 0x0a || value & 0xff == 0x0b,
        value & 0x00fc == 0x000c ==> value & 0xff == 0x0c || value & 0xff == 0x0d || value & 0xff == 0x0e || value & 0xff == 0x0f,
        value & 0x00f0 == 0x0010 ==> value & 0xff == 0x10 || value & 0xff == 0x11 || value & 0xff == 0x12 || value & 0xff == 0x13 || value & 0xff == 0x14 || value & 0xff == 0x15 || value & 0xff == 0x16 || value & 0xff == 0x17 || value & 0xff == 0x18 || value & 0xff == 0x19 || value & 0xff == 0x1a || value & 0xff == 0x1b || value & 0xff == 0x1c || value & 0xff == 0x1d || value & 0xff == 0x1e || value & 0xff == 0x1f,
        value & 0x00e4 == 0x0020 ==> value & 0xff == 0x20 || value & 0xff == 0x21 || value & 0xff == 0x22 || value & 0xff == 0x23 || value & 0xff == 0x28 || value & 0xff == 0x29 || value & 0xff == 0x2a || value & 0xff == 0x2b || value & 0xff == 0x30 || value & 0xff == 0x31 || value & 0xff == 0x32 || value & 0xff == 0x33 || value & 0xff == 0x38 || value & 0xff == 0x39 || value & 0xff == 0x3a || value & 0xff == 0x3b,
        value & 0x00e4 == 0x0024 ==> value & 0xff == 0x24 || value & 0xff == 0x25 || value & 0xff == 0x26 || value & 0xff == 0x27 || value & 0xff == 0x2c || value & 0xff == 0x2d || value & 0xff == 0x2e || value & 0xff == 0x2f || value & 0xff == 0x34 || value & 0xff == 0x35 || value & 0xff == 0x36 || value & 0xff == 0x37 || value & 0xff == 0x3c || value & 0xff == 0x3d || value & 0xff == 0x3e || value & 0xff == 0x3f,
        value & 0x00c4 == 0x0040 ==> value & 0xff == 0x40 || value & 0xff == 0x41 || value & 0xff == 0x42 || value & 0xff == 0x43 || value & 0xff == 0x48 || value & 0xff == 0x49 || value & 0xff == 0x4a || value & 0xff == 0x4b || value & 0xff == 0x50 || value & 0xff == 0x51 || value & 0xff == 0x52 || value & 0xff == 0x53 || value & 0xff == 0x58 || value & 0xff == 0x59 || value & 0xff == 0x5a || value & 0xff == 0x5b || value & 0xff == 0x60 || value & 0xff == 0x61 || value & 0xff == 0x62 || value & 0xff == 0x63 || value & 0xff == 0x68 || value & 0xff == 0x69 || value & 0xff == 0x6a || value & 0xff == 0x6b || value & 0xff == 0x70 || value & 0xff == 0x71 || value & 0xff == 0x72 || value & 0xff == 0x73 || value & 0xff == 0x78 || value & 0xff == 0x79 || value & 0xff == 0x7a || value & 0xff == 0x7b,
        value & 0x00c4 == 0x0044 ==> value & 0xff == 0x44 || value & 0xff == 0x45 || value & 0xff == 0x46 || value & 0xff == 0x47 || value & 0xff == 0x4c || value & 0xff == 0x4d || value & 0xff == 0x4e || value & 0xff == 0x4f || value & 0xff == 0x54 || value & 0xff == 0x55 || value & 0xff == 0x56 || value & 0xff == 0x57 || value & 0xff == 0x5c || value & 0xff == 0x5d || value & 0xff == 0x5e || value & 0xff == 0x5f || value & 0xff == 0x64 || value & 0xff == 0x65 || value & 0xff == 0x66 || value & 0xff == 0x67 || value & 0xff == 0x6c || value & 0xff == 0x6d || value & 0xff == 0x6e || value & 0xff == 0x6f || value & 0xff == 0x74 || value & 0xff == 0x75 || value & 0xff == 0x76 || value & 0xff == 0x77 || value & 0xff == 0x7c || value & 0xff == 0x7d || value & 0xff == 0x7e || value & 0xff == 0x7f,
        value & 0x00ce == 0x0080 ==> value & 0xff == 0x80 || value & 0xff == 0x81 || value & 0xff == 0x90 || value & 0xff == 0x91 || value & 0xff == 0xa0 || value & 0xff == 0xa1 || value & 0xff == 0xb0 || value & 0xff == 0xb1,
        value & 0x00ce == 0x0082 ==> value & 0xff == 0x82 || value & 0xff == 0x83 || value & 0xff == 0x92 || value & 0xff == 0x93 || value & 0xff == 0xa2 || value & 0xff == 0xa3 || value & 0xff == 0xb2 || value & 0xff == 0xb3,
        value & 0x00ce == 0x0084 ==> value & 0xff == 0x84 || value & 0xff == 0x85 || value & 0xff == 0x94 || value & 0xff == 0x95 || value & 0xff == 0xa4 || value & 0xff == 0xa5 || value & 0xff == 0xb4 || value & 0xff == 0xb5,
        value & 0x00ce == 0x0086 ==> value & 0xff == 0x86 || value & 0xff == 0x87 || value & 0xff == 0x96 || value & 0xff == 0x97 || value & 0xff == 0xa6 || value & 0xff == 0xa7 || value & 0xff == 0xb6 || value & 0xff == 0xb7,
        value & 0x00ce == 0x0088 ==> value & 0xff == 0x88 || value & 0xff == 0x89 || value & 0xff == 0x98 || value & 0xff == 0x99 || value & 0xff == 0xa8 || value & 0xff == 0xa9 || value & 0xff == 0xb8 || value & 0xff == 0xb9,
        value & 0x00ce == 0x008a ==> value & 0xff == 0x8a || value & 0xff == 0x8b || value & 0xff == 0x9a || value & 0xff == 0x9b || value & 0xff == 0xaa || value & 0xff == 0xab || value & 0xff == 0xba || value & 0xff == 0xbb,
        value & 0x00ce == 0x008c ==> value & 0xff == 0x8c || value & 0xff == 0x8d || value & 0xff == 0x9c || value & 0xff == 0x9d || value & 0xff == 0xac || value & 0xff == 0xad || value & 0xff == 0xbc || value & 0xff == 0xbd,
        value & 0x00ce == 0x008e ==> value & 0xff == 0x8e || value & 0xff == 0x8f || value & 0xff == 0x9e || value & 0xff == 0x9f || value & 0xff == 0xae || value & 0xff == 0xaf || value & 0xff == 0xbe || value & 0xff == 0xbf,
        value & 0x00cc == 0x00c0 ==> value & 0xff == 0xc0 || value & 0xff == 0xc1 || value & 0xff == 0xc2 || value & 0xff == 0xc3 || value & 0xff == 0xd0 || value & 0xff == 0xd1 || value & 0xff == 0xd2 || value & 0xff == 0xd3 || value & 0xff == 0xe0 || value & 0xff == 0xe1 || value & 0xff == 0xe2 || value & 0xff == 0xe3 || value & 0xff == 0xf0 || value & 0xff == 0xf1 || value & 0xff == 0xf2 || value & 0xff == 0xf3,
        value & 0x00cc == 0x00c4 ==> value & 0xff == 0xc4 || value & 0xff == 0xc5 || value & 0xff == 0xc6 || value & 0xff == 0xc7 || value & 0xff == 0xd4 || value & 0xff == 0xd5 || value & 0xff == 0xd6 || value & 0xff == 0xd7 || value & 0xff == 0xe4 || value & 0xff == 0xe5 || value & 0xff == 0xe6 || value & 0xff == 0xe7 || value & 0xff == 0xf4 || value & 0xff == 0xf5 || value & 0xff == 0xf6 || value & 0xff == 0xf7,
        value & 0x00cc == 0x00c8 ==> value & 0xff == 0xc8 || value & 0xff == 0xc9 || value & 0xff == 0xca || value & 0xff == 0xcb || value & 0xff == 0xd8 || value & 0xff == 0xd9 || value & 0xff == 0xda || value & 0xff == 0xdb || value & 0xff == 0xe8 || value & 0xff == 0xe9 || value & 0xff == 0xea || value & 0xff == 0xeb || value & 0xff == 0xf8 || value & 0xff == 0xf9 || value & 0xff == 0xfa || value & 0xff == 0xfb,
        value & 0x00cc == 0x00cc ==> value & 0xff == 0xcc || value & 0xff == 0xcd || value & 0xff == 0xce || value & 0xff == 0xcf || value & 0xff == 0xdc || value & 0xff == 0xdd || value & 0xff == 0xde || value & 0xff == 0xdf || value & 0xff == 0xec || value & 0xff == 0xed || value & 0xff == 0xee || value & 0xff == 0xef || value & 0xff == 0xfc || value & 0xff == 0xfd || value & 0xff == 0xfe || value & 0xff == 0xff,
{
}

/// No value has the patterns of two different ExtensionOpcodes.
#[verifier::spinoff_prover]
#[verifier::rlimit(100)]
pub proof fn law_extensionopcode_unique(value: u16, a: ExtensionOpcode, b: ExtensionOpcode)
    requires
        a.spec_matches(value),
        b.spec_matches(value),
    ensures
        a == b,
{
    lemma_extensionopcode_key_byte(value);
}

impl Opcode {
    /// Whether instructions with this opcode take a second word.
    pub open spec fn spec_needs_extra(self) -> bool {
        match self {
            Opcode::Bloop => true,
            Opcode::Lri => true,
            Opcode::Lr => true,
            Opcode::Sr => true,
            Opcode::Jmp => true,
            Opcode::Call => true,
            Opcode::Addi => true,
            Opcode::Xori => true,
            Opcode::Andi => true,
            Opcode::Ori => true,
            Opcode::Cmpi => true,
            Opcode::Andf => true,
            Opcode::Andcf => true,
            Opcode::Bloopi => true,
            Opcode::Si => true,
            _ => false,
        }
    }

    /// Whether instructions with this opcode take a second word.
    pub fn needs_extra(self) -> (r: bool)
        ensures
            r == self.spec_needs_extra(),
    {
        match self {
            Opcode::Bloop => true,
            Opcode::Lri => true,
            Opcode::Lr => true,
            Opcode::Sr => true,
            Opcode::Jmp => true,
            Opcode::Call => true,
            Opcode::Addi => true,
            Opcode::Xori => true,
            Opcode::Andi => true,
            Opcode::Ori => true,
            Opcode::Cmpi => true,
            Opcode::Andf => true,
            Opcode::Andcf => true,
            Opcode::Bloopi => true,
            Opcode::Si => true,
            _ => false,
        }
    }

    /// Whether instructions with this opcode carry an extension opcode: those whose pattern
    /// lies in the upper part of the encoding space, from 0x3000 on.
    pub open spec fn spec_has_extension(self) -> bool {
        match self.spec_info() {
            Some(info) => info.target >= 0x3000,
            None => false,
        }
    }

    /// Whether instructions with this opcode carry an extension opcode.
    pub fn has_extension(self) -> (r: bool)
        ensures
            r == self.spec_has_extension(),
    {
        match self {
            Opcode::Xorr => true,
            Opcode::Andr => true,
            Opcode::Orr => true,
            Opcode::Andc => true,
            Opcode::Orc => true,
            Opcode::Xorc => true,
            Opcode::Not => true,
            Opcode::Lsrnrx => true,
            Opcode::Asrnrx => true,
            Opcode::Lsrnr => true,
            Opcode::Asrnr => true,
            Opcode::Addr => true,
            Opcode::Addax => true,
            Opcode::Add => true,
            Opcode::Addp => true,
            Opcode::Subr => true,
            Opcode::Subax => true,
            Opcode::Sub => true,
            Opcode::Subp => true,
            Opcode::Movr => true,
            Opcode::Movax => true,
            Opcode::Mov => true,
            Opcode::Movp => true,
            Opcode::Addaxl => true,
            Opcode::Incm => true,
            Opcode::Inc => true,
            Opcode::Decm => true,
            Opcode::Dec => true,
            Opcode::Neg => true,
            Opcode::Movnp => true,
            Opcode::Nx => true,
            Opcode::Clr => true,
            Opcode::Cmp => true,
            Opcode::Mulaxh => true,
            Opcode::Clrp => true,
            Opcode::Tstprod => true,
            Opcode::Tstaxh => true,
            Opcode::M2 => true,
            Opcode::M0 => true,
            Opcode::Clr15 => true,
            Opcode::Set15 => true,
            Opcode::Set16 => true,
            Opcode::Set40 => true,
            Opcode::Mul => true,
            Opcode::Asr16 => true,
            Opcode::Mulmvz => true,
            Opcode::Mulac => true,
            Opcode::Mulmv => true,
            Opcode::Mulx => true,
            Opcode::Abs => true,
            Opcode::Tst => true,
            Opcode::Mulxmvz => true,
            Opcode::Mulxac => true,
            Opcode::Mulxmv => true,
            Opcode::Mulc => true,
            Opcode::Cmpaxh => true,
            Opcode::Mulcmvz => true,
            Opcode::Mulcac => true,
            Opcode::Mulcmv => true,
            Opcode::Maddx => true,
            Opcode::Msubx => true,
            Opcode::Maddc => true,
            Opcode::Msubc => true,
            Opcode::Lsl16 => true,
            Opcode::Madd => true,
            Opcode::Lsr16 => true,
            Opcode::Msub => true,
            Opcode::Addpaxz => true,
            Opcode::Clrl => true,
            Opcode::Movpz => true,
            _ => false,
        }
    }

    /// The bits of an instruction that hold its extension opcode.
    pub open spec fn spec_extension_mask(self) -> u16 {
        match self {
            Opcode::Asrnr => 0x7F,
            Opcode::Asrnrx => 0x7F,
            _ => 0xFF,
        }
    }

    /// The bits of an instruction that hold its extension opcode.
    pub fn extension_mask(&self) -> (m: u16)
        ensures
            m == self.spec_extension_mask(),
    {
        match self {
            Opcode::Asrnr => 0x7F,
            Opcode::Asrnrx => 0x7F,
            _ => 0xFF,
        }
    }
}

impl Opcode {
    /// The opcode whose pattern `value` has; `Illegal` when there is none.
    pub open spec fn spec_new(value: u16) -> Opcode {
        if exists|o: Opcode| o.spec_matches(value) {
            choose|o: Opcode| o.spec_matches(value)
        } else {
            Opcode::Illegal
        }
    }

    /// Decodes `value`: the opcode whose pattern it has, `Illegal` when there is none.
    pub fn new(value: u16) -> (op: Self)
        ensures
            op == Self::spec_new(value),
            op != Opcode::Illegal ==> op.spec_matches(value),
            op == Opcode::Illegal ==> forall|o: Opcode| !o.spec_matches(value),
    {
        let op = Self::find_match(value);
        proof {
            if op != Opcode::Illegal {
                let c = choose|o: Opcode| o.spec_matches(value);
                law_opcode_unique(value, op, c);
            }
        }
        op
    }
}

impl ExtensionOpcode {
    /// The opcode whose pattern `value` has; `Illegal` when there is none.
    pub open spec fn spec_new(value: u16) -> ExtensionOpcode {
        if exists|o: ExtensionOpcode| o.spec_matches(value) {
            choose|o: ExtensionOpcode| o.spec_matches(value)
        } else {
            ExtensionOpcode::Illegal
        }
    }

    /// Decodes `value`: the opcode whose pattern it has, `Illegal` when there is none.
    pub fn new(value: u16) -> (op: Self)
        ensures
            op == Self::spec_new(value),
            op != ExtensionOpcode::Illegal ==> op.spec_matches(value),
            op == ExtensionOpcode::Illegal ==> forall|o: ExtensionOpcode| !o.spec_matches(value),
    {
        let op = Self::find_match(value);
        proof {
            if op != ExtensionOpcode::Illegal {
                let c = choose|o: ExtensionOpcode| o.spec_matches(value);
                law_extensionopcode_unique(value, op, c);
            }
        }
        op
    }
}

/// A DSP instruction: its first word and, for opcodes that take one, its second word.
#[derive(Debug, Clone, Copy, PartialEq, Eq, Structural)]
pub struct Ins {
    pub base: u16,
    pub extra: u16,
}

/// What decoding the first word of an instruction tells.
#[derive(Debug, Clone, Copy, PartialEq, Eq, Structural)]
pub struct Decoded {
    pub opcode: Opcode,
    pub extension: Option<ExtensionOpcode>,
    pub needs_extra: bool,
}

/// The extension opcode of an instruction whose first word is `base`.
pub open spec fn spec_extension_opcode(base: u16) -> ExtensionOpcode {
    ExtensionOpcode::spec_new(base & Opcode::spec_new(base).spec_extension_mask())
}

/// Everything that the first word `base` of an instruction tells about it.
pub open spec fn spec_decoded(base: u16) -> Decoded {
    let opcode = Opcode::spec_new(base);
    Decoded {
        opcode,
        extension: if opcode.spec_has_extension() {
            Some(spec_extension_opcode(base))
        } else {
            None
        },
        needs_extra: opcode.spec_needs_extra(),
    }
}

impl Decoded {
    /// Length of the instruction in words.
    pub fn len(self) -> (n: u16)
        ensures
            n == (if self.needs_extra { 2u16 } else { 1u16 }),
    {
        if self.needs_extra {
            2
        } else {
            1
        }
    }
}

impl Ins {
    /// An instruction of one word.
    pub fn new(base: u16) -> (ins: Self)
        ensures
            ins.base == base,
            ins.extra == 0,
    {
        Self { base, extra: 0 }
    }

    /// An instruction of two words.
    pub fn with_extra(base: u16, extra: u16) -> (ins: Self)
        ensures
            ins.base == base,
            ins.extra == extra,
    {
        Self { base, extra }
    }

    /// The opcode of this instruction.
    pub fn opcode(self) -> (op: Opcode)
        ensures
            op == Opcode::spec_new(self.base),
    {
        Opcode::new(self.base)
    }

    /// The extension opcode of this instruction, read from the bits that its opcode leaves for
    /// one.
    pub fn extension_opcode(self) -> (e: ExtensionOpcode)
        ensures
            e == spec_extension_opcode(self.base),
    {
        let opcode = self.opcode();
        let mask = opcode.extension_mask();
        ExtensionOpcode::new(self.base & mask)
    }

    /// Decodes this instruction's first word.
    pub fn decoded(self) -> (d: Decoded)
        ensures
            d == spec_decoded(self.base),
    {
        let opcode = self.opcode();
        let extension = if opcode.has_extension() {
            Some(self.extension_opcode())
        } else {
            None
        };
        Decoded { opcode, extension, needs_extra: opcode.needs_extra() }
    }
}

} // verus!

verus! {

/// Whether `x` is the first word of an instruction whose second word holds an immediate or
/// an address: `bloop`, `lri`, `lr`, `sr` (register in the low five bits), `jmp`, `call`
/// (condition in the low four bits), `addi`, `xori`, `andi`, `ori`, `cmpi`, `andf`, `andcf`
/// (accumulator in bit 8), `bloopi` and `si` (a byte in the low eight bits).
pub open spec fn carries_second_word(x: u16) -> bool {
    ||| x & 0xffe0 == 0x0060
    ||| x & 0xffe0 == 0x0080
    ||| x & 0xffe0 == 0x00c0
    ||| x & 0xffe0 == 0x00e0
    ||| x & 0xfff0 == 0x0290
    ||| x & 0xfff0 == 0x02b0
    ||| x & 0xfeff == 0x0200
    ||| x & 0xfeff == 0x0220
    ||| x & 0xfeff == 0x0240
    ||| x & 0xfeff == 0x0260
    ||| x & 0xfeff == 0x0280
    ||| x & 0xfeff == 0x02a0
    ||| x & 0xfeff == 0x02c0
    ||| x & 0xff00 == 0x1100
    ||| x & 0xff00 == 0x1600
}

/// The decoded opcode of a word that has an opcode's pattern is that opcode.
proof fn lemma_decodes_as(x: u16, op: Opcode)
    requires
        op.spec_matches(x),
    ensures
        Opcode::spec_new(x) == op,
{
    let c = choose|o: Opcode| o.spec_matches(x);
    law_opcode_unique(x, op, c);
}

/// An instruction is decoded as taking a second word exactly when its first word is that of
/// an instruction with an immediate or an address in its second word.
pub proof fn law_second_word(x: u16)
    ensures
        spec_decoded(x).needs_extra <==> carries_second_word(x),
{
    let ops = seq![
        Opcode::Bloop, Opcode::Lri, Opcode::Lr, Opcode::Sr, Opcode::Jmp, Opcode::Call, Opcode::Addi,
        Opcode::Xori, Opcode::Andi, Opcode::Ori, Opcode::Cmpi, Opcode::Andf, Opcode::Andcf,
        Opcode::Bloopi, Opcode::Si,
    ];
    if carries_second_word(x) {
        assert(exists|k: int| 0 <= k < 15 && ops[k].spec_matches(x));
        let k = choose|k: int| 0 <= k < 15 && ops[k].spec_matches(x);
        lemma_decodes_as(x, ops[k]);
    }
    let op = Opcode::spec_new(x);
    if op.spec_needs_extra() {
        assert(op != Opcode::Illegal);
        assert(exists|o: Opcode| o.spec_matches(x));
        assert(op.spec_matches(x));
    }
}

} // verus!
