//! The instruction set: which operation, operand and base cycle count an
//! opcode stands for.

use crate::alu::{Binary, Unary};
use vstd::prelude::*;

verus! {

/// Where an operand comes from.
#[derive(Clone, Copy, PartialEq, Eq, Structural, Debug)]
pub enum Mode {
    Imm,
    Direct,
    Indexed,
    Extended,
}

/// An 8-bit accumulator.
#[derive(Clone, Copy, PartialEq, Eq, Structural, Debug)]
pub enum Acc {
    A,
    B,
}

/// A 16-bit register; `D` is A and B together.
#[derive(Clone, Copy, PartialEq, Eq, Structural, Debug)]
pub enum Reg16 {
    D,
    X,
    Y,
    U,
    S,
}

/// A decoded instruction. `cycles` is its base cycle count; indexed operands
/// add to it.
#[derive(Clone, Copy, PartialEq, Eq, Structural, Debug)]
pub enum Instr {
    /// Accumulator with operand.
    Alu { op: Binary, acc: Acc, mode: Mode },
    StoreAcc { acc: Acc, mode: Mode },
    /// Unary operation on a byte of memory.
    Mem { unary: Unary, mode: Mode },
    /// Unary operation on an accumulator.
    Accum { unary: Unary, acc: Acc },
    Load16 { reg: Reg16, mode: Mode, cycles: u32 },
    Store16 { reg: Reg16, mode: Mode, cycles: u32 },
    Compare16 { reg: Reg16, mode: Mode, cycles: u32 },
    AddD { mode: Mode, cycles: u32 },
    SubD { mode: Mode, cycles: u32 },
    /// Conditional branch; code 0 is BRA.
    Branch { code: u8 },
    LongBranch { code: u8 },
    Lbra,
    Bsr,
    Lbsr,
    Jmp { mode: Mode },
    Jsr { mode: Mode },
    Lea { reg: Reg16 },
    /// PSHS, or PSHU where `user` is set.
    Push { user: bool },
    /// PULS, or PULU where `user` is set.
    Pull { user: bool },
    Rts,
    Rti,
    /// SWI, SWI2, SWI3.
    Swi { n: u8 },
    Cwai,
    Sync,
    Nop,
    Abx,
    Mul,
    Daa,
    Sex,
    Exg,
    Tfr,
    OrCc,
    AndCc,
    /// No instruction of the main page.
    Unknown,
    /// No instruction of a prefixed page.
    UnknownPrefixed,
}

/// The unary operation of an opcode whose low digit is `lo`.
pub open spec fn unary_of(lo: u8) -> Option<Unary> {
    match lo {
        0x0 => Some(Unary::Neg),
        0x3 => Some(Unary::Com),
        0x4 => Some(Unary::Lsr),
        0x6 => Some(Unary::Ror),
        0x7 => Some(Unary::Asr),
        0x8 => Some(Unary::Asl),
        0x9 => Some(Unary::Rol),
        0xA => Some(Unary::Dec),
        0xC => Some(Unary::Inc),
        0xD => Some(Unary::Tst),
        0xF => Some(Unary::Clr),
        _ => None,
    }
}

/// The accumulator operation of an opcode whose low digit is `lo`.
pub open spec fn binary_of(lo: u8) -> Option<Binary> {
    match lo {
        0x0 => Some(Binary::Sub),
        0x1 => Some(Binary::Compare),
        0x2 => Some(Binary::Sbc),
        0x4 => Some(Binary::And),
        0x5 => Some(Binary::Bit),
        0x6 => Some(Binary::Ld),
        0x8 => Some(Binary::Eor),
        0x9 => Some(Binary::Adc),
        0xA => Some(Binary::Or),
        0xB => Some(Binary::Add),
        _ => None,
    }
}

/// The operand mode of the opcodes from `$80` on, by their high digit.
pub open spec fn mode_of(hi: u8) -> Mode {
    match hi % 4 {
        0 => Mode::Imm,
        1 => Mode::Direct,
        2 => Mode::Indexed,
        _ => Mode::Extended,
    }
}

/// One of four cycle counts, by operand mode.
pub open spec fn by_mode(mode: Mode, imm: u32, direct: u32, indexed: u32, extended: u32) -> u32 {
    match mode {
        Mode::Imm => imm,
        Mode::Direct => direct,
        Mode::Indexed => indexed,
        Mode::Extended => extended,
    }
}

/// The opcodes `$10` to `$1F`.
pub open spec fn row1(lo: u8) -> Instr {
    match lo {
        0x2 => Instr::Nop,
        0x3 => Instr::Sync,
        0x6 => Instr::Lbra,
        0x7 => Instr::Lbsr,
        0x9 => Instr::Daa,
        0xA => Instr::OrCc,
        0xC => Instr::AndCc,
        0xD => Instr::Sex,
        0xE => Instr::Exg,
        0xF => Instr::Tfr,
        _ => Instr::Unknown,
    }
}

/// The opcodes `$30` to `$3F`.
pub open spec fn row3(lo: u8) -> Instr {
    match lo {
        0x0 => Instr::Lea { reg: Reg16::X },
        0x1 => Instr::Lea { reg: Reg16::Y },
        0x2 => Instr::Lea { reg: Reg16::S },
        0x3 => Instr::Lea { reg: Reg16::U },
        0x4 => Instr::Push { user: false },
        0x5 => Instr::Pull { user: false },
        0x6 => Instr::Push { user: true },
        0x7 => Instr::Pull { user: true },
        0x9 => Instr::Rts,
        0xA => Instr::Abx,
        0xB => Instr::Rti,
        0xC => Instr::Cwai,
        0xD => Instr::Mul,
        0xF => Instr::Swi { n: 1 },
        _ => Instr::Unknown,
    }
}

/// The opcodes from `$80` on that take a 16-bit operand or an address.
pub open spec fn wide(hi: u8, lo: u8) -> Instr {
    let mode = mode_of(hi);
    let first = hi < 0xC;
    match lo {
        0x3 => if first {
            Instr::SubD { mode, cycles: by_mode(mode, 4, 6, 6, 7) }
        } else {
            Instr::AddD { mode, cycles: by_mode(mode, 4, 6, 6, 7) }
        },
        0xC => if first {
            Instr::Compare16 { reg: Reg16::X, mode, cycles: by_mode(mode, 4, 4, 5, 5) }
        } else {
            Instr::Load16 { reg: Reg16::D, mode, cycles: by_mode(mode, 3, 5, 5, 6) }
        },
        0xD => if first {
            if mode == Mode::Imm {
                Instr::Bsr
            } else {
                Instr::Jsr { mode }
            }
        } else if mode == Mode::Imm {
            Instr::Unknown
        } else {
            Instr::Store16 { reg: Reg16::D, mode, cycles: by_mode(mode, 0, 5, 5, 6) }
        },
        0xE => if first {
            Instr::Load16 { reg: Reg16::X, mode, cycles: by_mode(mode, 3, 5, 5, 6) }
        } else {
            Instr::Load16 { reg: Reg16::U, mode, cycles: by_mode(mode, 3, 4, 5, 6) }
        },
        0xF => if mode == Mode::Imm {
            Instr::Unknown
        } else if first {
            Instr::Store16 { reg: Reg16::X, mode, cycles: by_mode(mode, 0, 5, 5, 6) }
        } else {
            Instr::Store16 { reg: Reg16::U, mode, cycles: by_mode(mode, 0, 4, 5, 6) }
        },
        _ => Instr::Unknown,
    }
}

/// The main opcode page, but for the prefixes `$10` and `$11`.
pub open spec fn page1(op: u8) -> Instr {
    let hi = op / 16;
    let lo = op % 16;
    match hi {
        0x0 | 0x6 | 0x7 => {
            let mode = match hi {
                0x0 => Mode::Direct,
                0x6 => Mode::Indexed,
                _ => Mode::Extended,
            };
            match unary_of(lo) {
                Some(unary) => Instr::Mem { unary, mode },
                None => if lo == 0xE {
                    Instr::Jmp { mode }
                } else {
                    Instr::Unknown
                },
            }
        },
        0x1 => row1(lo),
        0x2 => Instr::Branch { code: lo },
        0x3 => row3(lo),
        0x4 | 0x5 => {
            let acc = if hi == 0x4 {
                Acc::A
            } else {
                Acc::B
            };
            match unary_of(lo) {
                Some(unary) => Instr::Accum { unary, acc },
                None => Instr::Unknown,
            }
        },
        _ => {
            let acc = if hi < 0xC {
                Acc::A
            } else {
                Acc::B
            };
            let mode = mode_of(hi);
            match binary_of(lo) {
                Some(op) => Instr::Alu { op, acc, mode },
                None => if lo == 0x7 {
                    if mode == Mode::Imm {
                        Instr::Unknown
                    } else {
                        Instr::StoreAcc { acc, mode }
                    }
                } else {
                    wide(hi, lo)
                },
            }
        },
    }
}

/// The page behind prefix `$10`.
pub open spec fn page2(op: u8) -> Instr {
    let hi = op / 16;
    let lo = op % 16;
    let mode = mode_of(hi);
    if 0x21 <= op <= 0x2F {
        Instr::LongBranch { code: lo }
    } else if op == 0x3F {
        Instr::Swi { n: 2 }
    } else if 0x8 <= hi <= 0xB && lo == 0x3 {
        Instr::Compare16 { reg: Reg16::D, mode, cycles: by_mode(mode, 5, 7, 7, 8) }
    } else if 0x8 <= hi <= 0xB && lo == 0xC {
        Instr::Compare16 { reg: Reg16::Y, mode, cycles: by_mode(mode, 5, 5, 5, 6) }
    } else if hi >= 0x8 && lo == 0xE {
        Instr::Load16 {
            reg: if hi < 0xC {
                Reg16::Y
            } else {
                Reg16::S
            },
            mode,
            cycles: by_mode(mode, 4, 5, 5, 6),
        }
    } else if hi >= 0x8 && lo == 0xF && mode != Mode::Imm {
        Instr::Store16 {
            reg: if hi < 0xC {
                Reg16::Y
            } else {
                Reg16::S
            },
            mode,
            cycles: by_mode(mode, 0, 5, 5, 6),
        }
    } else {
        Instr::UnknownPrefixed
    }
}

/// The page behind prefix `$11`.
pub open spec fn page3(op: u8) -> Instr {
    let hi = op / 16;
    let lo = op % 16;
    let mode = mode_of(hi);
    if op == 0x3F {
        Instr::Swi { n: 3 }
    } else if 0x8 <= hi <= 0xB && lo == 0x3 {
        Instr::Compare16 { reg: Reg16::U, mode, cycles: by_mode(mode, 5, 5, 5, 6) }
    } else if 0x8 <= hi <= 0xB && lo == 0xC {
        Instr::Compare16 { reg: Reg16::S, mode, cycles: by_mode(mode, 5, 5, 5, 6) }
    } else {
        Instr::UnknownPrefixed
    }
}

/// The base cycle counts in the table are small.
pub open spec fn small_cycles(instr: Instr) -> bool {
    match instr {
        Instr::Load16 { reg, mode, cycles } => cycles <= 10,
        Instr::Store16 { reg, mode, cycles } => cycles <= 10,
        Instr::Compare16 { reg, mode, cycles } => cycles <= 10,
        Instr::AddD { mode, cycles } => cycles <= 10,
        Instr::SubD { mode, cycles } => cycles <= 10,
        _ => true,
    }
}

fn decode_unary(lo: u8) -> (r: Option<Unary>)
    ensures
        r == unary_of(lo),
{
    match lo {
        0x0 => Some(Unary::Neg),
        0x3 => Some(Unary::Com),
        0x4 => Some(Unary::Lsr),
        0x6 => Some(Unary::Ror),
        0x7 => Some(Unary::Asr),
        0x8 => Some(Unary::Asl),
        0x9 => Some(Unary::Rol),
        0xA => Some(Unary::Dec),
        0xC => Some(Unary::Inc),
        0xD => Some(Unary::Tst),
        0xF => Some(Unary::Clr),
        _ => None,
    }
}

fn decode_binary(lo: u8) -> (r: Option<Binary>)
    ensures
        r == binary_of(lo),
{
    match lo {
        0x0 => Some(Binary::Sub),
        0x1 => Some(Binary::Compare),
        0x2 => Some(Binary::Sbc),
        0x4 => Some(Binary::And),
        0x5 => Some(Binary::Bit),
        0x6 => Some(Binary::Ld),
        0x8 => Some(Binary::Eor),
        0x9 => Some(Binary::Adc),
        0xA => Some(Binary::Or),
        0xB => Some(Binary::Add),
        _ => None,
    }
}

fn decode_mode(hi: u8) -> (r: Mode)
    ensures
        r == mode_of(hi),
{
    match hi % 4 {
        0 => Mode::Imm,
        1 => Mode::Direct,
        2 => Mode::Indexed,
        _ => Mode::Extended,
    }
}

pub fn pick_by_mode(mode: Mode, imm: u32, direct: u32, indexed: u32, extended: u32) -> (r: u32)
    ensures
        r == by_mode(mode, imm, direct, indexed, extended),
{
    match mode {
        Mode::Imm => imm,
        Mode::Direct => direct,
        Mode::Indexed => indexed,
        Mode::Extended => extended,
    }
}

fn decode_row1(lo: u8) -> (r: Instr)
    ensures
        r == row1(lo),
{
    match lo {
        0x2 => Instr::Nop,
        0x3 => Instr::Sync,
        0x6 => Instr::Lbra,
        0x7 => Instr::Lbsr,
        0x9 => Instr::Daa,
        0xA => Instr::OrCc,
        0xC => Instr::AndCc,
        0xD => Instr::Sex,
        0xE => Instr::Exg,
        0xF => Instr::Tfr,
        _ => Instr::Unknown,
    }
}

fn decode_row3(lo: u8) -> (r: Instr)
    ensures
        r == row3(lo),
{
    match lo {
        0x0 => Instr::Lea { reg: Reg16::X },
        0x1 => Instr::Lea { reg: Reg16::Y },
        0x2 => Instr::Lea { reg: Reg16::S },
        0x3 => Instr::Lea { reg: Reg16::U },
        0x4 => Instr::Push { user: false },
        0x5 => Instr::Pull { user: false },
        0x6 => Instr::Push { user: true },
        0x7 => Instr::Pull { user: true },
        0x9 => Instr::Rts,
        0xA => Instr::Abx,
        0xB => Instr::Rti,
        0xC => Instr::Cwai,
        0xD => Instr::Mul,
        0xF => Instr::Swi { n: 1 },
        _ => Instr::Unknown,
    }
}

fn decode_wide(hi: u8, lo: u8) -> (r: Instr)
    ensures
        r == wide(hi, lo),
{
    let mode: Mode = decode_mode(hi);
    let first: bool = hi < 0xC;
    match lo {
        0x3 => if first {
            Instr::SubD { mode, cycles: pick_by_mode(mode, 4, 6, 6, 7) }
        } else {
            Instr::AddD { mode, cycles: pick_by_mode(mode, 4, 6, 6, 7) }
        },
        0xC => if first {
            Instr::Compare16 { reg: Reg16::X, mode, cycles: pick_by_mode(mode, 4, 4, 5, 5) }
        } else {
            Instr::Load16 { reg: Reg16::D, mode, cycles: pick_by_mode(mode, 3, 5, 5, 6) }
        },
        0xD => if first {
            if mode == Mode::Imm {
                Instr::Bsr
            } else {
                Instr::Jsr { mode }
            }
        } else if mode == Mode::Imm {
            Instr::Unknown
        } else {
            Instr::Store16 { reg: Reg16::D, mode, cycles: pick_by_mode(mode, 0, 5, 5, 6) }
        },
        0xE => if first {
            Instr::Load16 { reg: Reg16::X, mode, cycles: pick_by_mode(mode, 3, 5, 5, 6) }
        } else {
            Instr::Load16 { reg: Reg16::U, mode, cycles: pick_by_mode(mode, 3, 4, 5, 6) }
        },
        0xF => if mode == Mode::Imm {
            Instr::Unknown
        } else if first {
            Instr::Store16 { reg: Reg16::X, mode, cycles: pick_by_mode(mode, 0, 5, 5, 6) }
        } else {
            Instr::Store16 { reg: Reg16::U, mode, cycles: pick_by_mode(mode, 0, 4, 5, 6) }
        },
        _ => Instr::Unknown,
    }
}

/// Decodes an opcode of the main page.
pub fn decode_page1(op: u8) -> (r: Instr)
    ensures
        r == page1(op),
{
    let hi: u8 = op / 16;
    let lo: u8 = op % 16;
    match hi {
        0x0 | 0x6 | 0x7 => {
            let mode: Mode = match hi {
                0x0 => Mode::Direct,
                0x6 => Mode::Indexed,
                _ => Mode::Extended,
            };
            match decode_unary(lo) {
                Some(unary) => Instr::Mem { unary, mode },
                None => if lo == 0xE {
                    Instr::Jmp { mode }
                } else {
                    Instr::Unknown
                },
            }
        },
        0x1 => decode_row1(lo),
        0x2 => Instr::Branch { code: lo },
        0x3 => decode_row3(lo),
        0x4 | 0x5 => {
            let acc: Acc = if hi == 0x4 {
                Acc::A
            } else {
                Acc::B
            };
            match decode_unary(lo) {
                Some(unary) => Instr::Accum { unary, acc },
                None => Instr::Unknown,
            }
        },
        _ => {
            let acc: Acc = if hi < 0xC {
                Acc::A
            } else {
                Acc::B
            };
            let mode: Mode = decode_mode(hi);
            match decode_binary(lo) {
                Some(op) => Instr::Alu { op, acc, mode },
                None => if lo == 0x7 {
                    if mode == Mode::Imm {
                        Instr::Unknown
                    } else {
                        Instr::StoreAcc { acc, mode }
                    }
                } else {
                    decode_wide(hi, lo)
                },
            }
        },
    }
}

/// Decodes an opcode behind prefix `$10`.
pub fn decode_page2(op: u8) -> (r: Instr)
    ensures
        r == page2(op),
{
    let hi: u8 = op / 16;
    let lo: u8 = op % 16;
    let mode: Mode = decode_mode(hi);
    if 0x21 <= op && op <= 0x2F {
        Instr::LongBranch { code: lo }
    } else if op == 0x3F {
        Instr::Swi { n: 2 }
    } else if 0x8 <= hi && hi <= 0xB && lo == 0x3 {
        Instr::Compare16 { reg: Reg16::D, mode, cycles: pick_by_mode(mode, 5, 7, 7, 8) }
    } else if 0x8 <= hi && hi <= 0xB && lo == 0xC {
        Instr::Compare16 { reg: Reg16::Y, mode, cycles: pick_by_mode(mode, 5, 5, 5, 6) }
    } else if hi >= 0x8 && lo == 0xE {
        let reg: Reg16 = if hi < 0xC {
            Reg16::Y
        } else {
            Reg16::S
        };
        Instr::Load16 { reg, mode, cycles: pick_by_mode(mode, 4, 5, 5, 6) }
    } else if hi >= 0x8 && lo == 0xF && mode != Mode::Imm {
        let reg: Reg16 = if hi < 0xC {
            Reg16::Y
        } else {
            Reg16::S
        };
        Instr::Store16 { reg, mode, cycles: pick_by_mode(mode, 0, 5, 5, 6) }
    } else {
        Instr::UnknownPrefixed
    }
}

/// Decodes an opcode behind prefix `$11`.
pub fn decode_page3(op: u8) -> (r: Instr)
    ensures
        r == page3(op),
{
    let hi: u8 = op / 16;
    let lo: u8 = op % 16;
    let mode: Mode = decode_mode(hi);
    if op == 0x3F {
        Instr::Swi { n: 3 }
    } else if 0x8 <= hi && hi <= 0xB && lo == 0x3 {
        Instr::Compare16 { reg: Reg16::U, mode, cycles: pick_by_mode(mode, 5, 5, 5, 6) }
    } else if 0x8 <= hi && hi <= 0xB && lo == 0xC {
        Instr::Compare16 { reg: Reg16::S, mode, cycles: pick_by_mode(mode, 5, 5, 5, 6) }
    } else {
        Instr::UnknownPrefixed
    }
}

} // verus!
