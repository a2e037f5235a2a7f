//! The text of a traced instruction.

use crate::alu::{Binary, Unary};
use crate::cpu::isa::{Acc, Instr, Mode, Reg16};
use crate::cpu::machine::{IndexDesc, Opnd};
use crate::text::{
    decimal, hex2, hex4, push_decimal, push_hex2, push_hex4, push_text,
};
use vstd::prelude::*;

verus! {

pub open spec fn index_name(reg: u8) -> Seq<char> {
    match reg {
        0 => "X"@,
        1 => "Y"@,
        2 => "U"@,
        _ => "S"@,
    }
}

/// `inner`, in brackets where the operand is indirect.
pub open spec fn bracketed(indirect: bool, inner: Seq<char>) -> Seq<char> {
    if indirect {
        "["@ + inner + "]"@
    } else {
        inner
    }
}

/// An indexed operand as it is written in a trace.
pub open spec fn index_text(d: IndexDesc) -> Seq<char> {
    match d {
        IndexDesc::Offset5 { reg, off } => index_name(reg) + "+"@ + decimal(off as int),
        IndexDesc::Zero { reg, indirect } => if indirect {
            "["@ + index_name(reg) + "]"@
        } else {
            ","@ + index_name(reg)
        },
        IndexDesc::Accumulator { acc, reg, indirect } => bracketed(
            indirect,
            seq![acc] + ","@ + index_name(reg),
        ),
        IndexDesc::Offset { reg, off, indirect } => bracketed(
            indirect,
            index_name(reg) + "+"@ + decimal(off as int),
        ),
        IndexDesc::Program { off, indirect } => bracketed(
            indirect,
            "PC+"@ + decimal(off as int),
        ),
        IndexDesc::Increment { reg, by, indirect } => bracketed(
            indirect,
            ","@ + index_name(reg) + (if by == 1 {
                "+"@
            } else {
                "++"@
            }),
        ),
        IndexDesc::Decrement { reg, by, indirect } => bracketed(
            indirect,
            (if by == 1 {
                ",-"@
            } else {
                ",--"@
            }) + index_name(reg),
        ),
        IndexDesc::Absolute { addr } => "["@ + hex4(addr) + "]"@,
        IndexDesc::Other { reg } => ","@ + index_name(reg) + "?"@,
    }
}

pub open spec fn binary_name(op: Binary, acc: Acc) -> Seq<char> {
    let a = acc == Acc::A;
    match op {
        Binary::Sub => if a { "SUBA"@ } else { "SUBB"@ },
        Binary::Compare => if a { "CMPA"@ } else { "CMPB"@ },
        Binary::Sbc => if a { "SBCA"@ } else { "SBCB"@ },
        Binary::And => if a { "ANDA"@ } else { "ANDB"@ },
        Binary::Bit => if a { "BITA"@ } else { "BITB"@ },
        Binary::Ld => if a { "LDA"@ } else { "LDB"@ },
        Binary::Eor => if a { "EORA"@ } else { "EORB"@ },
        Binary::Adc => if a { "ADCA"@ } else { "ADCB"@ },
        Binary::Or => if a { "ORA"@ } else { "ORB"@ },
        Binary::Add => if a { "ADDA"@ } else { "ADDB"@ },
    }
}

pub open spec fn unary_name(op: Unary) -> Seq<char> {
    match op {
        Unary::Neg => "NEG"@,
        Unary::Com => "COM"@,
        Unary::Lsr => "LSR"@,
        Unary::Ror => "ROR"@,
        Unary::Asr => "ASR"@,
        Unary::Asl => "ASL"@,
        Unary::Rol => "ROL"@,
        Unary::Dec => "DEC"@,
        Unary::Inc => "INC"@,
        Unary::Tst => "TST"@,
        Unary::Clr => "CLR"@,
    }
}

pub open spec fn reg_name(reg: Reg16) -> Seq<char> {
    match reg {
        Reg16::D => "D"@,
        Reg16::X => "X"@,
        Reg16::Y => "Y"@,
        Reg16::U => "U"@,
        Reg16::S => "S"@,
    }
}

pub open spec fn branch_name(code: u8) -> Seq<char> {
    match code {
        0x0 => "BRA"@,
        0x1 => "BRN"@,
        0x2 => "BHI"@,
        0x3 => "BLS"@,
        0x4 => "BCC"@,
        0x5 => "BCS"@,
        0x6 => "BNE"@,
        0x7 => "BEQ"@,
        0x8 => "BVC"@,
        0x9 => "BVS"@,
        0xA => "BPL"@,
        0xB => "BMI"@,
        0xC => "BGE"@,
        0xD => "BLT"@,
        0xE => "BGT"@,
        _ => "BLE"@,
    }
}

pub open spec fn taken_text(taken: bool) -> Seq<char> {
    if taken {
        "taken"@
    } else {
        "not"@
    }
}

/// Operand bytes, mnemonic and operand. `gap` stands between a one-byte operand
/// and the mnemonic, `dir` before a direct-page offset; with `arrow` the
/// effective address of an indexed operand follows.
pub open spec fn operand_text(
    name: Seq<char>,
    o: Opnd,
    imm: bool,
    gap: Seq<char>,
    dir: Seq<char>,
    arrow: bool,
) -> Seq<char> {
    match o {
        Opnd::Byte(b) => " "@ + hex2(b) + gap + name + (if imm {
            " #$"@
        } else {
            dir
        }) + hex2(b),
        Opnd::Word(w) => " "@ + hex4(w) + " "@ + name + (if imm {
            " #$"@
        } else {
            " $"@
        }) + hex4(w),
        Opnd::Index(d, ea) => " ..    "@ + name + " "@ + index_text(d) + (if arrow {
            " -> "@ + hex4(ea)
        } else {
            Seq::<char>::empty()
        }),
        _ => Seq::<char>::empty(),
    }
}

/// A one-byte operand, then the mnemonic.
pub open spec fn postbyte_text(name: Seq<char>, o: Opnd) -> Seq<char> {
    match o {
        Opnd::Byte(b) => " "@ + hex2(b) + "   "@ + name,
        _ => Seq::<char>::empty(),
    }
}

/// The gap behind the direct-page offset of a 16-bit load or store.
pub open spec fn wide_gap(reg: Reg16) -> Seq<char> {
    if reg == Reg16::D || reg == Reg16::X {
        "   "@
    } else {
        " "@
    }
}

/// What follows the opcode.
pub open spec fn instr_text(op: u8, instr: Instr, o: Opnd) -> Seq<char> {
    match instr {
        Instr::Alu { op: b, acc, mode } => operand_text(
            binary_name(b, acc),
            o,
            mode == Mode::Imm,
            "   "@,
            " $"@,
            b == Binary::Ld && acc == Acc::A,
        ),
        Instr::StoreAcc { acc, mode } => operand_text(
            if acc == Acc::A {
                "STA"@
            } else {
                "STB"@
            },
            o,
            false,
            "   "@,
            " $"@,
            acc == Acc::A,
        ),
        Instr::Mem { unary: u, mode } => operand_text(
            unary_name(u),
            o,
            false,
            "    "@,
            " <$"@,
            false,
        ),
        Instr::Accum { unary: u, acc } => "        "@ + unary_name(u) + (if acc == Acc::A {
            "A"@
        } else {
            "B"@
        }),
        Instr::Load16 { reg, mode, cycles } => operand_text(
            "LD"@ + reg_name(reg),
            o,
            mode == Mode::Imm,
            wide_gap(reg),
            " <$"@,
            reg == Reg16::X,
        ),
        Instr::Store16 { reg, mode, cycles } => operand_text(
            "ST"@ + reg_name(reg),
            o,
            false,
            wide_gap(reg),
            " <$"@,
            reg == Reg16::X,
        ),
        Instr::Compare16 { reg, mode, cycles } => operand_text(
            "CMP"@ + reg_name(reg),
            o,
            mode == Mode::Imm,
            " "@,
            " <$"@,
            false,
        ),
        Instr::AddD { mode, cycles } => operand_text(
            "ADDD"@,
            o,
            mode == Mode::Imm,
            "   "@,
            " $"@,
            false,
        ),
        Instr::SubD { mode, cycles } => operand_text(
            "SUBD"@,
            o,
            mode == Mode::Imm,
            "   "@,
            " $"@,
            false,
        ),
        Instr::Branch { code } => match o {
            Opnd::Relative { raw, target, taken } => " "@ + hex2((raw % 256) as u8) + "   "@
                + branch_name(code) + " "@ + (if code == 0 {
                "$"@ + hex4(target)
            } else {
                taken_text(taken)
            }),
            _ => Seq::<char>::empty(),
        },
        Instr::LongBranch { code } => match o {
            Opnd::Relative { raw, target, taken } => " "@ + hex4(raw) + " LB"@ + hex2(op) + " "@
                + taken_text(taken),
            _ => Seq::<char>::empty(),
        },
        Instr::Lbra => match o {
            Opnd::Relative { raw, target, taken } => " "@ + hex4(raw) + " LBRA $"@ + hex4(target),
            _ => Seq::<char>::empty(),
        },
        Instr::Lbsr => match o {
            Opnd::Relative { raw, target, taken } => " "@ + hex4(raw) + " LBSR"@,
            _ => Seq::<char>::empty(),
        },
        Instr::Bsr => match o {
            Opnd::Relative { raw, target, taken } => " "@ + hex2((raw % 256) as u8) + "   BSR"@,
            _ => Seq::<char>::empty(),
        },
        Instr::Jmp { mode } => operand_text("JMP"@, o, false, "   "@, " <$"@, false),
        Instr::Jsr { mode } => operand_text("JSR"@, o, false, "   "@, " <$"@, false),
        Instr::Lea { reg } => " ..    LEA"@ + reg_name(reg),
        Instr::Push { user } => postbyte_text(
            if user {
                "PSHU"@
            } else {
                "PSHS"@
            },
            o,
        ),
        Instr::Pull { user } => postbyte_text(
            if user {
                "PULU"@
            } else {
                "PULS"@
            },
            o,
        ),
        Instr::Exg => postbyte_text("EXG"@, o),
        Instr::Tfr => postbyte_text("TFR"@, o),
        Instr::OrCc => operand_text("ORCC"@, o, true, "   "@, " $"@, false),
        Instr::AndCc => operand_text("ANDCC"@, o, true, "   "@, " $"@, false),
        Instr::Cwai => operand_text("CWAI"@, o, true, "    "@, " $"@, false),
        Instr::Swi { n } => match n {
            1 => "        SWI"@,
            2 => "   SWI2"@,
            _ => "   SWI3"@,
        },
        Instr::Rts => "        RTS"@,
        Instr::Rti => "        RTI"@,
        Instr::Sync => "        SYNC"@,
        Instr::Nop => "        NOP"@,
        Instr::Abx => "        ABX"@,
        Instr::Mul => "        MUL"@,
        Instr::Daa => "        DAA"@,
        Instr::Sex => "        SEX"@,
        Instr::Unknown => "      UNIMPL"@,
        Instr::UnknownPrefixed => "   UNIMPL-PFX"@,
    }
}

/// The trace line of an instruction at `pc`.
pub open spec fn trace_text(pc: u16, prefix: u8, op: u8, instr: Instr, o: Opnd) -> Seq<char> {
    hex4(pc) + ": "@ + (if prefix == 0 {
        Seq::<char>::empty()
    } else {
        hex2(prefix) + " "@
    }) + hex2(op) + instr_text(op, instr, o)
}

pub(crate) fn index_str(reg: u8) -> (s: &'static str)
    ensures
        s@ == index_name(reg),
{
    match reg {
        0 => "X",
        1 => "Y",
        2 => "U",
        _ => "S",
    }
}

fn push_bracket(out: &mut String, open: bool, indirect: bool)
    ensures
        final(out)@ == old(out)@ + (if !indirect {
            Seq::<char>::empty()
        } else if open {
            "["@
        } else {
            "]"@
        }),
{
    if indirect {
        if open {
            push_text(out, "[");
        } else {
            push_text(out, "]");
        }
    }
    assert(out@ =~= old(out)@ + (if !indirect {
        Seq::<char>::empty()
    } else if open {
        "["@
    } else {
        "]"@
    }));
}

/// Writes an indexed operand.
pub fn push_index_text(out: &mut String, d: IndexDesc)
    ensures
        final(out)@ == old(out)@ + index_text(d),
{
    match d {
        IndexDesc::Offset5 { reg, off } => {
            push_text(out, index_str(reg));
            push_text(out, "+");
            push_decimal(out, off);
        },
        IndexDesc::Zero { reg, indirect } => {
            if indirect {
                push_text(out, "[");
                push_text(out, index_str(reg));
                push_text(out, "]");
            } else {
                push_text(out, ",");
                push_text(out, index_str(reg));
            }
        },
        IndexDesc::Accumulator { acc, reg, indirect } => {
            push_bracket(out, true, indirect);
            out.push(acc);
            push_text(out, ",");
            push_text(out, index_str(reg));
            push_bracket(out, false, indirect);
        },
        IndexDesc::Offset { reg, off, indirect } => {
            push_bracket(out, true, indirect);
            push_text(out, index_str(reg));
            push_text(out, "+");
            push_decimal(out, off);
            push_bracket(out, false, indirect);
        },
        IndexDesc::Program { off, indirect } => {
            push_bracket(out, true, indirect);
            push_text(out, "PC+");
            push_decimal(out, off);
            push_bracket(out, false, indirect);
        },
        IndexDesc::Increment { reg, by, indirect } => {
            push_bracket(out, true, indirect);
            push_text(out, ",");
            push_text(out, index_str(reg));
            if by == 1 {
                push_text(out, "+");
            } else {
                push_text(out, "++");
            }
            push_bracket(out, false, indirect);
        },
        IndexDesc::Decrement { reg, by, indirect } => {
            push_bracket(out, true, indirect);
            if by == 1 {
                push_text(out, ",-");
            } else {
                push_text(out, ",--");
            }
            push_text(out, index_str(reg));
            push_bracket(out, false, indirect);
        },
        IndexDesc::Absolute { addr } => {
            push_text(out, "[");
            push_hex4(out, addr);
            push_text(out, "]");
        },
        IndexDesc::Other { reg } => {
            push_text(out, ",");
            push_text(out, index_str(reg));
            push_text(out, "?");
        },
    }
    assert(out@ =~= old(out)@ + index_text(d));
}

pub(crate) fn binary_str(op: Binary, acc: Acc) -> (s: &'static str)
    ensures
        s@ == binary_name(op, acc),
{
    let a: bool = acc == Acc::A;
    match op {
        Binary::Sub => if a { "SUBA" } else { "SUBB" },
        Binary::Compare => if a { "CMPA" } else { "CMPB" },
        Binary::Sbc => if a { "SBCA" } else { "SBCB" },
        Binary::And => if a { "ANDA" } else { "ANDB" },
        Binary::Bit => if a { "BITA" } else { "BITB" },
        Binary::Ld => if a { "LDA" } else { "LDB" },
        Binary::Eor => if a { "EORA" } else { "EORB" },
        Binary::Adc => if a { "ADCA" } else { "ADCB" },
        Binary::Or => if a { "ORA" } else { "ORB" },
        Binary::Add => if a { "ADDA" } else { "ADDB" },
    }
}

pub(crate) fn unary_str(op: Unary) -> (s: &'static str)
    ensures
        s@ == unary_name(op),
{
    match op {
        Unary::Neg => "NEG",
        Unary::Com => "COM",
        Unary::Lsr => "LSR",
        Unary::Ror => "ROR",
        Unary::Asr => "ASR",
        Unary::Asl => "ASL",
        Unary::Rol => "ROL",
        Unary::Dec => "DEC",
        Unary::Inc => "INC",
        Unary::Tst => "TST",
        Unary::Clr => "CLR",
    }
}

pub(crate) fn reg_str(reg: Reg16) -> (s: &'static str)
    ensures
        s@ == reg_name(reg),
{
    match reg {
        Reg16::D => "D",
        Reg16::X => "X",
        Reg16::Y => "Y",
        Reg16::U => "U",
        Reg16::S => "S",
    }
}

pub(crate) fn branch_str(code: u8) -> (s: &'static str)
    ensures
        s@ == branch_name(code),
{
    match code {
        0x0 => "BRA",
        0x1 => "BRN",
        0x2 => "BHI",
        0x3 => "BLS",
        0x4 => "BCC",
        0x5 => "BCS",
        0x6 => "BNE",
        0x7 => "BEQ",
        0x8 => "BVC",
        0x9 => "BVS",
        0xA => "BPL",
        0xB => "BMI",
        0xC => "BGE",
        0xD => "BLT",
        0xE => "BGT",
        _ => "BLE",
    }
}

fn taken_str(taken: bool) -> (s: &'static str)
    ensures
        s@ == taken_text(taken),
{
    if taken {
        "taken"
    } else {
        "not"
    }
}

/// A mnemonic made of two parts, and how its operand is laid out.
struct Layout {
    name: &'static str,
    suffix: &'static str,
    imm: bool,
    gap: &'static str,
    dir: &'static str,
    arrow: bool,
}

fn push_operand(out: &mut String, o: Opnd, l: Layout)
    ensures
        final(out)@ == old(out)@ + operand_text(
            l.name@ + l.suffix@,
            o,
            l.imm,
            l.gap@,
            l.dir@,
            l.arrow,
        ),
{
    match o {
        Opnd::Byte(b) => {
            push_text(out, " ");
            push_hex2(out, b);
            push_text(out, l.gap);
            push_text(out, l.name);
            push_text(out, l.suffix);
            if l.imm {
                push_text(out, " #$");
            } else {
                push_text(out, l.dir);
            }
            push_hex2(out, b);
        },
        Opnd::Word(w) => {
            push_text(out, " ");
            push_hex4(out, w);
            push_text(out, " ");
            push_text(out, l.name);
            push_text(out, l.suffix);
            if l.imm {
                push_text(out, " #$");
            } else {
                push_text(out, " $");
            }
            push_hex4(out, w);
        },
        Opnd::Index(d, ea) => {
            push_text(out, " ..    ");
            push_text(out, l.name);
            push_text(out, l.suffix);
            push_text(out, " ");
            push_index_text(out, d);
            if l.arrow {
                push_text(out, " -> ");
                push_hex4(out, ea);
            }
        },
        _ => {},
    }
    assert(out@ =~= old(out)@ + operand_text(l.name@ + l.suffix@, o, l.imm, l.gap@, l.dir@, l.arrow));
}

fn push_plain_operand(out: &mut String, o: Opnd, name: &'static str, imm: bool, gap: &'static str, dir: &'static str, arrow: bool)
    ensures
        final(out)@ == old(out)@ + operand_text(name@, o, imm, gap@, dir@, arrow),
{
    proof {
        reveal_strlit("");
    }
    assert(name@ + ""@ =~= name@);
    push_operand(out, o, Layout { name, suffix: "", imm, gap, dir, arrow });
}

fn push_postbyte(out: &mut String, o: Opnd, name: &'static str)
    ensures
        final(out)@ == old(out)@ + postbyte_text(name@, o),
{
    if let Opnd::Byte(b) = o {
        push_text(out, " ");
        push_hex2(out, b);
        push_text(out, "   ");
        push_text(out, name);
    }
    assert(out@ =~= old(out)@ + postbyte_text(name@, o));
}

fn push_relative(out: &mut String, op: u8, instr: Instr, o: Opnd)
    requires
        instr is Branch || instr is LongBranch || instr is Lbra || instr is Lbsr || instr is Bsr,
    ensures
        final(out)@ == old(out)@ + instr_text(op, instr, o),
{
    if let Opnd::Relative { raw, target, taken } = o {
        push_text(out, " ");
        match instr {
            Instr::Branch { code } => {
                push_hex2(out, (raw % 256) as u8);
                push_text(out, "   ");
                push_text(out, branch_str(code));
                push_text(out, " ");
                if code == 0 {
                    push_text(out, "$");
                    push_hex4(out, target);
                } else {
                    push_text(out, taken_str(taken));
                }
            },
            Instr::LongBranch { code } => {
                push_hex4(out, raw);
                push_text(out, " LB");
                push_hex2(out, op);
                push_text(out, " ");
                push_text(out, taken_str(taken));
            },
            Instr::Lbra => {
                push_hex4(out, raw);
                push_text(out, " LBRA $");
                push_hex4(out, target);
            },
            Instr::Lbsr => {
                push_hex4(out, raw);
                push_text(out, " LBSR");
            },
            _ => {
                push_hex2(out, (raw % 256) as u8);
                push_text(out, "   BSR");
            },
        }
    }
    assert(out@ =~= old(out)@ + instr_text(op, instr, o));
}

fn wide_gap_str(reg: Reg16) -> (s: &'static str)
    ensures
        s@ == wide_gap(reg),
{
    if reg == Reg16::D || reg == Reg16::X {
        "   "
    } else {
        " "
    }
}

fn push_instr_text(out: &mut String, op: u8, instr: Instr, o: Opnd)
    ensures
        final(out)@ == old(out)@ + instr_text(op, instr, o),
{
    match instr {
        Instr::Alu { op: b, acc, mode } => push_plain_operand(
            out,
            o,
            binary_str(b, acc),
            mode == Mode::Imm,
            "   ",
            " $",
            b == Binary::Ld && acc == Acc::A,
        ),
        Instr::StoreAcc { acc, mode } => {
            let name: &'static str = if acc == Acc::A {
                "STA"
            } else {
                "STB"
            };
            push_plain_operand(out, o, name, false, "   ", " $", acc == Acc::A)
        },
        Instr::Mem { unary: u, mode } => push_plain_operand(
            out,
            o,
            unary_str(u),
            false,
            "    ",
            " <$",
            false,
        ),
        Instr::Accum { unary: u, acc } => {
            push_text(out, "        ");
            push_text(out, unary_str(u));
            if acc == Acc::A {
                push_text(out, "A");
            } else {
                push_text(out, "B");
            }
            assert(out@ =~= old(out)@ + instr_text(op, instr, o));
        },
        Instr::Load16 { reg, mode, cycles } => push_operand(
            out,
            o,
            Layout {
                name: "LD",
                suffix: reg_str(reg),
                imm: mode == Mode::Imm,
                gap: wide_gap_str(reg),
                dir: " <$",
                arrow: reg == Reg16::X,
            },
        ),
        Instr::Store16 { reg, mode, cycles } => push_operand(
            out,
            o,
            Layout {
                name: "ST",
                suffix: reg_str(reg),
                imm: false,
                gap: wide_gap_str(reg),
                dir: " <$",
                arrow: reg == Reg16::X,
            },
        ),
        Instr::Compare16 { reg, mode, cycles } => push_operand(
            out,
            o,
            Layout {
                name: "CMP",
                suffix: reg_str(reg),
                imm: mode == Mode::Imm,
                gap: " ",
                dir: " <$",
                arrow: false,
            },
        ),
        Instr::AddD { mode, cycles } => push_plain_operand(
            out,
            o,
            "ADDD",
            mode == Mode::Imm,
            "   ",
            " $",
            false,
        ),
        Instr::SubD { mode, cycles } => push_plain_operand(
            out,
            o,
            "SUBD",
            mode == Mode::Imm,
            "   ",
            " $",
            false,
        ),
        Instr::Branch { code } => push_relative(out, op, instr, o),
        Instr::LongBranch { code } => push_relative(out, op, instr, o),
        Instr::Lbra => push_relative(out, op, instr, o),
        Instr::Lbsr => push_relative(out, op, instr, o),
        Instr::Bsr => push_relative(out, op, instr, o),
        Instr::Jmp { mode } => push_plain_operand(out, o, "JMP", false, "   ", " <$", false),
        Instr::Jsr { mode } => push_plain_operand(out, o, "JSR", false, "   ", " <$", false),
        Instr::Lea { reg } => {
            push_text(out, " ..    LEA");
            push_text(out, reg_str(reg));
            assert(out@ =~= old(out)@ + instr_text(op, instr, o));
        },
        Instr::Push { user } => {
            if user {
                push_postbyte(out, o, "PSHU")
            } else {
                push_postbyte(out, o, "PSHS")
            }
        },
        Instr::Pull { user } => {
            if user {
                push_postbyte(out, o, "PULU")
            } else {
                push_postbyte(out, o, "PULS")
            }
        },
        Instr::Exg => push_postbyte(out, o, "EXG"),
        Instr::Tfr => push_postbyte(out, o, "TFR"),
        Instr::OrCc => push_plain_operand(out, o, "ORCC", true, "   ", " $", false),
        Instr::AndCc => push_plain_operand(out, o, "ANDCC", true, "   ", " $", false),
        Instr::Cwai => push_plain_operand(out, o, "CWAI", true, "    ", " $", false),
        Instr::Swi { n } => {
            if n == 1 {
                push_text(out, "        SWI")
            } else if n == 2 {
                push_text(out, "   SWI2")
            } else {
                push_text(out, "   SWI3")
            }
        },
        Instr::Rts => push_text(out, "        RTS"),
        Instr::Rti => push_text(out, "        RTI"),
        Instr::Sync => push_text(out, "        SYNC"),
        Instr::Nop => push_text(out, "        NOP"),
        Instr::Abx => push_text(out, "        ABX"),
        Instr::Mul => push_text(out, "        MUL"),
        Instr::Daa => push_text(out, "        DAA"),
        Instr::Sex => push_text(out, "        SEX"),
        Instr::Unknown => push_text(out, "      UNIMPL"),
        Instr::UnknownPrefixed => push_text(out, "   UNIMPL-PFX"),
    }
}

/// The trace line of an instruction at `pc`.
pub fn trace_line(pc: u16, prefix: u8, op: u8, instr: Instr, o: Opnd) -> (line: String)
    ensures
        line@ == trace_text(pc, prefix, op, instr, o),
{
    let mut out: String = String::new();
    push_hex4(&mut out, pc);
    push_text(&mut out, ": ");
    if prefix != 0 {
        push_hex2(&mut out, prefix);
        push_text(&mut out, " ");
    }
    push_hex2(&mut out, op);
    push_instr_text(&mut out, op, instr, o);
    assert(out@ =~= trace_text(pc, prefix, op, instr, o));
    out
}

} // verus!
