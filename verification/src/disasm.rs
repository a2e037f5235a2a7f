//! Disassembly.

use crate::alu::{
    make_word, offset, offset_by, signed16, signed8, to_signed16, to_signed8, word,
};
use crate::bus::{min_int, Bus};
use crate::cpu::isa::{
    decode_page1, decode_page2, decode_page3, page1, page2, page3, Acc, Instr, Mode,
};
use crate::cpu::machine::signed5;
use crate::cpu::trace::{
    binary_name, binary_str, branch_name, branch_str, index_name, index_str, reg_name, reg_str,
    unary_name, unary_str,
};
use crate::debug::{listing_start, InstructionBoundaries};
use crate::text::{digits, hex2, hex4, push_digits, push_hex2, push_hex4, push_text};
use vstd::prelude::*;

verus! {

/// A read of one byte: the byte and the state of the bus behind it.
pub open spec fn rd8<B: Bus>(m: B::V, addr: u16) -> (u8, B::V) {
    (B::read_val(m, addr), B::read_next(m, addr))
}

/// A read of a word, high byte first.
pub open spec fn rd16<B: Bus>(m: B::V, addr: u16) -> (u16, B::V) {
    let (hi, m1) = rd8::<B>(m, addr);
    let (lo, m2) = rd8::<B>(m1, offset(addr, 1));
    (word(hi, lo), m2)
}

/// A number with its sign in front.
pub open spec fn signed_text(n: int) -> Seq<char> {
    if n < 0 {
        "-"@ + digits((-n) as nat)
    } else {
        "+"@ + digits(n as nat)
    }
}

pub open spec fn hex8_text(v: u8) -> Seq<char> {
    "$"@ + hex2(v)
}

pub open spec fn hex16_text(v: u16) -> Seq<char> {
    "$"@ + hex4(v)
}

pub open spec fn enclosed(indirect: bool, inner: Seq<char>) -> Seq<char> {
    if indirect {
        "["@ + inner + "]"@
    } else {
        inner
    }
}

/// `n,R`, without the number where it is zero.
pub open spec fn offset_text(off: int, base: Seq<char>, indirect: bool) -> Seq<char> {
    enclosed(
        indirect,
        if off == 0 {
            ","@ + base
        } else {
            signed_text(off) + ","@ + base
        },
    )
}

/// An indexed operand at `pc`: the number of bytes it takes and its text.
///
/// The form is the postbyte's low digit and bit 4 tells an indirection. The
/// forms `$C` and `$D` are relative to PC, whatever register the postbyte
/// names. A step of one byte cannot be indirect: with bit 4 the form is not
/// assigned.
pub open spec fn indexed_operand<B: Bus>(m: B::V, pc: u16) -> (u16, Seq<char>, B::V) {
    let (pb, m1) = rd8::<B>(m, pc);
    let base = index_name((pb / 32) % 4);
    let indirect = (pb / 16) % 2 == 1;
    if pb < 0x80 {
        (1, offset_text(signed5(pb % 32), base, false), m1)
    } else {
        match pb % 16 {
            0x0 => (
                1,
                ","@ + base + (if indirect {
                    "(?)"@
                } else {
                    "+"@
                }),
                m1,
            ),
            0x1 => (1, enclosed(indirect, ","@ + base + "++"@), m1),
            0x2 => (
                1,
                if indirect {
                    ","@ + base + "(?)"@
                } else {
                    ",-"@ + base
                },
                m1,
            ),
            0x3 => (1, enclosed(indirect, ",--"@ + base), m1),
            0x4 => (1, enclosed(indirect, ","@ + base), m1),
            0x5 => (1, enclosed(indirect, "B,"@ + base), m1),
            0x6 => (1, enclosed(indirect, "A,"@ + base), m1),
            0xB => (1, enclosed(indirect, "D,"@ + base), m1),
            0x8 | 0xC => {
                let (b, m2) = rd8::<B>(m1, offset(pc, 1));
                (
                    2,
                    offset_text(
                        signed8(b),
                        if pb % 16 == 0xC {
                            "PC"@
                        } else {
                            base
                        },
                        indirect,
                    ),
                    m2,
                )
            },
            0x9 | 0xD => {
                let (w, m2) = rd16::<B>(m1, offset(pc, 1));
                (
                    3,
                    offset_text(
                        signed16(w),
                        if pb % 16 == 0xD {
                            "PC"@
                        } else {
                            base
                        },
                        indirect,
                    ),
                    m2,
                )
            },
            0xF => {
                let (w, m2) = rd16::<B>(m1, offset(pc, 1));
                (3, "["@ + hex16_text(w) + "]"@, m2)
            },
            _ => (1, ","@ + base + "(?)"@, m1),
        }
    }
}

/// An operand behind `n` opcode bytes at `pc`: the length of the instruction
/// and the text of mnemonic and operand.
#[verifier::opaque]
pub open spec fn mode_text<B: Bus>(
    m: B::V,
    pc: u16,
    n: u16,
    name: Seq<char>,
    mode: Mode,
    wide: bool,
) -> (u16, Seq<char>, B::V) {
    let at = offset(pc, n as int);
    match mode {
        Mode::Imm => if wide {
            let (w, m1) = rd16::<B>(m, at);
            ((n + 2) as u16, name + " #"@ + hex16_text(w), m1)
        } else {
            let (b, m1) = rd8::<B>(m, at);
            ((n + 1) as u16, name + " #"@ + hex8_text(b), m1)
        },
        Mode::Direct => {
            let (b, m1) = rd8::<B>(m, at);
            ((n + 1) as u16, name + " <"@ + hex8_text(b), m1)
        },
        Mode::Indexed => {
            let (len, text, m1) = indexed_operand::<B>(m, at);
            ((n + len) as u16, name + " "@ + text, m1)
        },
        Mode::Extended => {
            let (w, m1) = rd16::<B>(m, at);
            ((n + 2) as u16, name + " "@ + hex16_text(w), m1)
        },
    }
}

/// A branch: its offset and the address it leads to.
pub open spec fn relative_text(name: Seq<char>, off: int, target: u16) -> Seq<char> {
    name + " "@ + signed_text(off) + " -> "@ + hex16_text(target)
}

#[verifier::opaque]
pub open spec fn short_text<B: Bus>(m: B::V, pc: u16, name: Seq<char>) -> (u16, Seq<char>, B::V) {
    let (b, m1) = rd8::<B>(m, offset(pc, 1));
    (2, relative_text(name, signed8(b), offset(pc, 2 + signed8(b))), m1)
}

#[verifier::opaque]
pub open spec fn long_text<B: Bus>(m: B::V, pc: u16, n: u16, name: Seq<char>) -> (
    u16,
    Seq<char>,
    B::V,
) {
    let (w, m1) = rd16::<B>(m, offset(pc, n as int));
    (
        (n + 2) as u16,
        relative_text(name, signed16(w), offset(pc, n + 2 + signed16(w))),
        m1,
    )
}

/// The name of a register in EXG and TFR.
pub open spec fn transfer_name(code: u8) -> Option<Seq<char>> {
    match code {
        0x0 => Some("D"@),
        0x1 => Some("X"@),
        0x2 => Some("Y"@),
        0x3 => Some("U"@),
        0x4 => Some("S"@),
        0x5 => Some("PC"@),
        0x8 => Some("A"@),
        0x9 => Some("B"@),
        0xA => Some("CC"@),
        0xB => Some("DP"@),
        _ => None,
    }
}

/// EXG or TFR: two registers of one size, or the postbyte.
#[verifier::opaque]
pub open spec fn transfer_text(name: Seq<char>, pb: u8) -> Seq<char> {
    let src = pb / 16;
    let dst = pb % 16;
    let s = transfer_name(src);
    let d = transfer_name(dst);
    if s is Some && d is Some && (src < 8) == (dst < 8) {
        name + " "@ + s->0 + ","@ + d->0
    } else {
        name + " $"@ + hex2(pb)
    }
}

/// What follows a mnemonic.
#[derive(Clone, Copy, PartialEq, Eq, Structural, Debug)]
pub enum Operand {
    Nothing,
    /// An operand of one byte, or of two where `wide` is set.
    Moded { mode: Mode, wide: bool },
    /// An 8-bit branch offset.
    Short,
    /// A 16-bit branch offset.
    Long,
    /// A pair of registers.
    Registers,
}

/// The mnemonic of an instruction.
pub open spec fn mnemonic(instr: Instr) -> Seq<char> {
    match instr {
        Instr::Alu { op, acc, mode } => binary_name(op, acc),
        Instr::StoreAcc { acc, mode } => if acc == Acc::A {
            "STA"@
        } else {
            "STB"@
        },
        Instr::Mem { unary, mode } => unary_name(unary),
        Instr::Accum { unary, acc } => unary_name(unary) + (if acc == Acc::A {
            "A"@
        } else {
            "B"@
        }),
        Instr::Load16 { reg, mode, cycles } => "LD"@ + reg_name(reg),
        Instr::Store16 { reg, mode, cycles } => "ST"@ + reg_name(reg),
        Instr::Compare16 { reg, mode, cycles } => "CMP"@ + reg_name(reg),
        Instr::AddD { mode, cycles } => "ADDD"@,
        Instr::SubD { mode, cycles } => "SUBD"@,
        Instr::Branch { code } => branch_name(code),
        Instr::LongBranch { code } => "L"@ + branch_name(code),
        Instr::Lbra => "LBRA"@,
        Instr::Lbsr => "LBSR"@,
        Instr::Bsr => "BSR"@,
        Instr::Jmp { mode } => "JMP"@,
        Instr::Jsr { mode } => "JSR"@,
        Instr::Lea { reg } => "LEA"@ + reg_name(reg),
        Instr::Push { user } => if user {
            "PSHU"@
        } else {
            "PSHS"@
        },
        Instr::Pull { user } => if user {
            "PULU"@
        } else {
            "PULS"@
        },
        Instr::OrCc => "ORCC"@,
        Instr::AndCc => "ANDCC"@,
        Instr::Cwai => "CWAI"@,
        Instr::Exg => "EXG"@,
        Instr::Tfr => "TFR"@,
        Instr::Swi { n } => match n {
            1 => "SWI"@,
            2 => "SWI2"@,
            _ => "SWI3"@,
        },
        Instr::Rts => "RTS"@,
        Instr::Rti => "RTI"@,
        Instr::Sync => "SYNC"@,
        Instr::Nop => "NOP"@,
        Instr::Abx => "ABX"@,
        Instr::Mul => "MUL"@,
        Instr::Daa => "DAA"@,
        Instr::Sex => "SEX"@,
        Instr::Unknown | Instr::UnknownPrefixed => Seq::<char>::empty(),
    }
}

/// The operand of an instruction.
pub open spec fn operand(instr: Instr) -> Operand {
    match instr {
        Instr::Alu { op, acc, mode } => Operand::Moded { mode, wide: false },
        Instr::StoreAcc { acc, mode } => Operand::Moded { mode, wide: false },
        Instr::Mem { unary, mode } => Operand::Moded { mode, wide: false },
        Instr::Load16 { reg, mode, cycles } => Operand::Moded { mode, wide: true },
        Instr::Store16 { reg, mode, cycles } => Operand::Moded { mode, wide: true },
        Instr::Compare16 { reg, mode, cycles } => Operand::Moded { mode, wide: true },
        Instr::AddD { mode, cycles } => Operand::Moded { mode, wide: true },
        Instr::SubD { mode, cycles } => Operand::Moded { mode, wide: true },
        Instr::Jmp { mode } => Operand::Moded { mode, wide: true },
        Instr::Jsr { mode } => Operand::Moded { mode, wide: true },
        Instr::Lea { reg } => Operand::Moded { mode: Mode::Indexed, wide: true },
        Instr::Push { user } => Operand::Moded { mode: Mode::Imm, wide: false },
        Instr::Pull { user } => Operand::Moded { mode: Mode::Imm, wide: false },
        Instr::OrCc | Instr::AndCc | Instr::Cwai => Operand::Moded { mode: Mode::Imm, wide: false },
        Instr::Branch { code } => Operand::Short,
        Instr::Bsr => Operand::Short,
        Instr::LongBranch { code } => Operand::Long,
        Instr::Lbra | Instr::Lbsr => Operand::Long,
        Instr::Exg | Instr::Tfr => Operand::Registers,
        _ => Operand::Nothing,
    }
}

/// The text of an instruction with `n` opcode bytes at `pc`.
pub open spec fn instruction<B: Bus>(m: B::V, pc: u16, n: u16, instr: Instr) -> (
    u16,
    Seq<char>,
    B::V,
) {
    let name = mnemonic(instr);
    match operand(instr) {
        Operand::Nothing => (n, name, m),
        Operand::Moded { mode, wide } => mode_text::<B>(m, pc, n, name, mode, wide),
        Operand::Short => short_text::<B>(m, pc, name),
        Operand::Long => long_text::<B>(m, pc, n, name),
        Operand::Registers => {
            let (pb, m1) = rd8::<B>(m, offset(pc, 1));
            (2, transfer_text(name, pb), m1)
        },
    }
}

/// The instruction at `pc`: its length, its text and the state of the bus
/// behind the reads.
#[verifier::opaque]
pub open spec fn disassembled<B: Bus>(m: B::V, pc: u16) -> (u16, Seq<char>, B::V) {
    let (op, m1) = rd8::<B>(m, pc);
    if op == 0x10 || op == 0x11 {
        let (op2, m2) = rd8::<B>(m1, offset(pc, 1));
        let instr = if op == 0x10 {
            page2(op2)
        } else {
            page3(op2)
        };
        if instr is UnknownPrefixed {
            (2, "FCB $"@ + hex2(op) + ", $"@ + hex2(op2), m2)
        } else {
            instruction::<B>(m2, pc, 2, instr)
        }
    } else if page1(op) is Unknown {
        (1, "FCB $"@ + hex2(op), m1)
    } else {
        instruction::<B>(m1, pc, 1, page1(op))
    }
}

fn r8<B: Bus>(bus: &mut B, addr: u16) -> (v: u8)
    requires
        old(bus).wf(),
    ensures
        final(bus).wf(),
        (v, final(bus)@) == rd8::<B>(old(bus)@, addr),
{
    bus.read8(addr)
}

fn r16<B: Bus>(bus: &mut B, addr: u16) -> (v: u16)
    requires
        old(bus).wf(),
    ensures
        final(bus).wf(),
        (v, final(bus)@) == rd16::<B>(old(bus)@, addr),
{
    let hi: u8 = r8(bus, addr);
    let lo: u8 = r8(bus, offset_by(addr, 1));
    make_word(hi, lo)
}

fn push_hex8_text(out: &mut String, v: u8)
    ensures
        final(out)@ == old(out)@ + hex8_text(v),
{
    push_text(out, "$");
    push_hex2(out, v);
    assert(out@ =~= old(out)@ + hex8_text(v));
}

fn push_hex16_text(out: &mut String, v: u16)
    ensures
        final(out)@ == old(out)@ + hex16_text(v),
{
    push_text(out, "$");
    push_hex4(out, v);
    assert(out@ =~= old(out)@ + hex16_text(v));
}

fn push_signed(out: &mut String, n: i32)
    ensures
        final(out)@ == old(out)@ + signed_text(n as int),
{
    if n < 0 {
        push_text(out, "-");
        push_digits(out, (-(n as i64)) as u64);
    } else {
        push_text(out, "+");
        push_digits(out, n as u64);
    }
    assert(out@ =~= old(out)@ + signed_text(n as int));
}

fn push_offset(out: &mut String, off: i32, base: &str, indirect: bool)
    ensures
        final(out)@ == old(out)@ + offset_text(off as int, base@, indirect),
{
    if indirect {
        push_text(out, "[");
    }
    if off != 0 {
        push_signed(out, off);
    }
    push_text(out, ",");
    push_text(out, base);
    if indirect {
        push_text(out, "]");
    }
    assert(out@ =~= old(out)@ + offset_text(off as int, base@, indirect));
}

/// Writes three texts one behind the other, in brackets where the operand is
/// indirect.
fn push_enclosed(out: &mut String, indirect: bool, a: &str, b: &str, c: &str)
    ensures
        final(out)@ == old(out)@ + enclosed(indirect, a@ + b@ + c@),
        c@.len() == 0 ==> final(out)@ == old(out)@ + enclosed(indirect, a@ + b@),
{
    if indirect {
        push_text(out, "[");
    }
    push_text(out, a);
    push_text(out, b);
    push_text(out, c);
    if indirect {
        push_text(out, "]");
    }
    assert(out@ =~= old(out)@ + enclosed(indirect, a@ + b@ + c@));
    assert(c@.len() == 0 ==> a@ + b@ + c@ =~= a@ + b@);
}

/// Writes an indexed operand at `pc`; returns the number of bytes it takes.
#[verifier::rlimit(60)]
fn decode_indexed<B: Bus>(bus: &mut B, pc: u16, out: &mut String) -> (len: u16)
    requires
        old(bus).wf(),
    ensures
        final(bus).wf(),
        len == indexed_operand::<B>(old(bus)@, pc).0,
        final(out)@ == old(out)@ + indexed_operand::<B>(old(bus)@, pc).1,
        final(bus)@ == indexed_operand::<B>(old(bus)@, pc).2,
        1 <= len <= 3,
{
    proof {
        reveal_strlit("");
    }
    let pb: u8 = r8(bus, pc);
    let base: &'static str = index_str((pb / 32) % 4);
    let indirect: bool = (pb / 16) % 2 == 1;
    if pb < 0x80 {
        let low5: u8 = pb % 32;
        let off: i32 = if low5 < 16 {
            low5 as i32
        } else {
            low5 as i32 - 32
        };
        push_offset(out, off, base, false);
        return 1;
    }
    match pb % 16 {
        0x0 => {
            if indirect {
                push_enclosed(out, false, ",", base, "(?)");
            } else {
                push_enclosed(out, false, ",", base, "+");
            }
            1
        },
        0x1 => {
            push_enclosed(out, indirect, ",", base, "++");
            1
        },
        0x2 => {
            if indirect {
                push_enclosed(out, false, ",", base, "(?)");
            } else {
                push_enclosed(out, false, ",-", base, "");
            }
            1
        },
        0x3 => {
            push_enclosed(out, indirect, ",--", base, "");
            1
        },
        0x4 => {
            push_enclosed(out, indirect, ",", base, "");
            1
        },
        0x5 => {
            push_enclosed(out, indirect, "B,", base, "");
            1
        },
        0x6 => {
            push_enclosed(out, indirect, "A,", base, "");
            1
        },
        0xB => {
            push_enclosed(out, indirect, "D,", base, "");
            1
        },
        0x8 => {
            let off: i32 = to_signed8(r8(bus, offset_by(pc, 1)));
            push_offset(out, off, base, indirect);
            2
        },
        0xC => {
            let off: i32 = to_signed8(r8(bus, offset_by(pc, 1)));
            push_offset(out, off, "PC", indirect);
            2
        },
        0x9 => {
            let off: i32 = to_signed16(r16(bus, offset_by(pc, 1)));
            push_offset(out, off, base, indirect);
            3
        },
        0xD => {
            let off: i32 = to_signed16(r16(bus, offset_by(pc, 1)));
            push_offset(out, off, "PC", indirect);
            3
        },
        0xF => {
            let addr: u16 = r16(bus, offset_by(pc, 1));
            push_text(out, "[");
            push_hex16_text(out, addr);
            push_text(out, "]");
            assert(out@ =~= old(out)@ + ("["@ + hex16_text(addr) + "]"@));
            3
        },
        _ => {
            push_enclosed(out, false, ",", base, "(?)");
            1
        },
    }
}

/// Writes an operand behind the mnemonic `out`.
fn text_for_mode<B: Bus>(
    bus: &mut B,
    pc: u16,
    n: u16,
    name: String,
    mode: Mode,
    wide: bool,
) -> (r: (u16, String))
    requires
        old(bus).wf(),
        1 <= n <= 2,
    ensures
        final(bus).wf(),
        (r.0, r.1@, final(bus)@) == mode_text::<B>(old(bus)@, pc, n, name@, mode, wide),
        1 <= r.0 <= 5,
{
    proof {
        reveal(mode_text);
    }
    let mut out: String = name;
    let at: u16 = offset_by(pc, n as i32);
    match mode {
        Mode::Imm => {
            push_text(&mut out, " #");
            if wide {
                let w: u16 = r16(bus, at);
                push_hex16_text(&mut out, w);
                (n + 2, out)
            } else {
                let b: u8 = r8(bus, at);
                push_hex8_text(&mut out, b);
                (n + 1, out)
            }
        },
        Mode::Direct => {
            let b: u8 = r8(bus, at);
            push_text(&mut out, " <");
            push_hex8_text(&mut out, b);
            (n + 1, out)
        },
        Mode::Indexed => {
            push_text(&mut out, " ");
            let len: u16 = decode_indexed(bus, at, &mut out);
            (n + len, out)
        },
        Mode::Extended => {
            let w: u16 = r16(bus, at);
            push_text(&mut out, " ");
            push_hex16_text(&mut out, w);
            (n + 2, out)
        },
    }
}

fn text_for_branch(name: String, off: i32, target: u16) -> (s: String)
    ensures
        s@ == relative_text(name@, off as int, target),
{
    let mut out: String = name;
    push_text(&mut out, " ");
    push_signed(&mut out, off);
    push_text(&mut out, " -> ");
    push_hex16_text(&mut out, target);
    assert(out@ =~= relative_text(name@, off as int, target));
    out
}

fn text_for_short<B: Bus>(bus: &mut B, pc: u16, name: String) -> (r: (u16, String))
    requires
        old(bus).wf(),
    ensures
        final(bus).wf(),
        (r.0, r.1@, final(bus)@) == short_text::<B>(old(bus)@, pc, name@),
        1 <= r.0 <= 5,
{
    proof {
        reveal(short_text);
    }
    let off: i32 = to_signed8(r8(bus, offset_by(pc, 1)));
    (2, text_for_branch(name, off, offset_by(pc, 2 + off)))
}

fn text_for_long<B: Bus>(bus: &mut B, pc: u16, n: u16, name: String) -> (r: (u16, String))
    requires
        old(bus).wf(),
        1 <= n <= 2,
    ensures
        final(bus).wf(),
        (r.0, r.1@, final(bus)@) == long_text::<B>(old(bus)@, pc, n, name@),
        1 <= r.0 <= 5,
{
    proof {
        reveal(long_text);
    }
    let off: i32 = to_signed16(r16(bus, offset_by(pc, n as i32)));
    (n + 2, text_for_branch(name, off, offset_by(pc, n as i32 + 2 + off)))
}

fn transfer_str(code: u8) -> (s: Option<&'static str>)
    ensures
        s is Some == transfer_name(code) is Some,
        s is Some ==> s->0@ == transfer_name(code)->0,
{
    match code {
        0x0 => Some("D"),
        0x1 => Some("X"),
        0x2 => Some("Y"),
        0x3 => Some("U"),
        0x4 => Some("S"),
        0x5 => Some("PC"),
        0x8 => Some("A"),
        0x9 => Some("B"),
        0xA => Some("CC"),
        0xB => Some("DP"),
        _ => None,
    }
}

fn text_for_transfer(name: String, pb: u8) -> (s: String)
    ensures
        s@ == transfer_text(name@, pb),
{
    proof {
        reveal(transfer_text);
    }
    let src: u8 = pb / 16;
    let dst: u8 = pb % 16;
    let mut out: String = name;
    if let (Some(s), Some(d)) = (transfer_str(src), transfer_str(dst)) {
        if (src < 8) == (dst < 8) {
            push_text(&mut out, " ");
            push_text(&mut out, s);
            push_text(&mut out, ",");
            push_text(&mut out, d);
            assert(out@ =~= transfer_text(name@, pb));
            return out;
        }
    }
    push_text(&mut out, " $");
    push_hex2(&mut out, pb);
    assert(out@ =~= transfer_text(name@, pb));
    out
}

/// A text of two parts.
fn joined(a: &str, b: &str) -> (r: String)
    ensures
        r@ == a@ + b@,
{
    let mut out: String = String::new();
    push_text(&mut out, a);
    push_text(&mut out, b);
    assert(out@ =~= a@ + b@);
    out
}

fn fixed(s: &str) -> (r: String)
    ensures
        r@ == s@,
{
    let mut out: String = String::new();
    push_text(&mut out, s);
    assert(out@ =~= s@);
    out
}

fn mnemonic_of(instr: Instr) -> (s: String)
    ensures
        s@ == mnemonic(instr),
{
    match instr {
        Instr::Alu { op, acc, mode } => fixed(binary_str(op, acc)),
        Instr::StoreAcc { acc, mode } => if acc == Acc::A {
            fixed("STA")
        } else {
            fixed("STB")
        },
        Instr::Mem { unary, mode } => fixed(unary_str(unary)),
        Instr::Accum { unary, acc } => if acc == Acc::A {
            joined(unary_str(unary), "A")
        } else {
            joined(unary_str(unary), "B")
        },
        Instr::Load16 { reg, mode, cycles } => joined("LD", reg_str(reg)),
        Instr::Store16 { reg, mode, cycles } => joined("ST", reg_str(reg)),
        Instr::Compare16 { reg, mode, cycles } => joined("CMP", reg_str(reg)),
        Instr::AddD { mode, cycles } => fixed("ADDD"),
        Instr::SubD { mode, cycles } => fixed("SUBD"),
        Instr::Branch { code } => fixed(branch_str(code)),
        Instr::LongBranch { code } => joined("L", branch_str(code)),
        Instr::Lbra => fixed("LBRA"),
        Instr::Lbsr => fixed("LBSR"),
        Instr::Bsr => fixed("BSR"),
        Instr::Jmp { mode } => fixed("JMP"),
        Instr::Jsr { mode } => fixed("JSR"),
        Instr::Lea { reg } => joined("LEA", reg_str(reg)),
        Instr::Push { user } => if user {
            fixed("PSHU")
        } else {
            fixed("PSHS")
        },
        Instr::Pull { user } => if user {
            fixed("PULU")
        } else {
            fixed("PULS")
        },
        Instr::OrCc => fixed("ORCC"),
        Instr::AndCc => fixed("ANDCC"),
        Instr::Cwai => fixed("CWAI"),
        Instr::Exg => fixed("EXG"),
        Instr::Tfr => fixed("TFR"),
        Instr::Swi { n } => if n == 1 {
            fixed("SWI")
        } else if n == 2 {
            fixed("SWI2")
        } else {
            fixed("SWI3")
        },
        Instr::Rts => fixed("RTS"),
        Instr::Rti => fixed("RTI"),
        Instr::Sync => fixed("SYNC"),
        Instr::Nop => fixed("NOP"),
        Instr::Abx => fixed("ABX"),
        Instr::Mul => fixed("MUL"),
        Instr::Daa => fixed("DAA"),
        Instr::Sex => fixed("SEX"),
        Instr::Unknown | Instr::UnknownPrefixed => String::new(),
    }
}

fn operand_of(instr: Instr) -> (o: Operand)
    ensures
        o == operand(instr),
{
    match instr {
        Instr::Alu { op, acc, mode } => Operand::Moded { mode, wide: false },
        Instr::StoreAcc { acc, mode } => Operand::Moded { mode, wide: false },
        Instr::Mem { unary, mode } => Operand::Moded { mode, wide: false },
        Instr::Load16 { reg, mode, cycles } => Operand::Moded { mode, wide: true },
        Instr::Store16 { reg, mode, cycles } => Operand::Moded { mode, wide: true },
        Instr::Compare16 { reg, mode, cycles } => Operand::Moded { mode, wide: true },
        Instr::AddD { mode, cycles } => Operand::Moded { mode, wide: true },
        Instr::SubD { mode, cycles } => Operand::Moded { mode, wide: true },
        Instr::Jmp { mode } => Operand::Moded { mode, wide: true },
        Instr::Jsr { mode } => Operand::Moded { mode, wide: true },
        Instr::Lea { reg } => Operand::Moded { mode: Mode::Indexed, wide: true },
        Instr::Push { user } => Operand::Moded { mode: Mode::Imm, wide: false },
        Instr::Pull { user } => Operand::Moded { mode: Mode::Imm, wide: false },
        Instr::OrCc | Instr::AndCc | Instr::Cwai => Operand::Moded { mode: Mode::Imm, wide: false },
        Instr::Branch { code } => Operand::Short,
        Instr::Bsr => Operand::Short,
        Instr::LongBranch { code } => Operand::Long,
        Instr::Lbra | Instr::Lbsr => Operand::Long,
        Instr::Exg | Instr::Tfr => Operand::Registers,
        _ => Operand::Nothing,
    }
}

fn text_for<B: Bus>(bus: &mut B, pc: u16, n: u16, instr: Instr) -> (r: (u16, String))
    requires
        old(bus).wf(),
        1 <= n <= 2,
    ensures
        final(bus).wf(),
        (r.0, r.1@, final(bus)@) == instruction::<B>(old(bus)@, pc, n, instr),
        1 <= r.0 <= 5,
{
    let name: String = mnemonic_of(instr);
    match operand_of(instr) {
        Operand::Nothing => (n, name),
        Operand::Moded { mode, wide } => text_for_mode(bus, pc, n, name, mode, wide),
        Operand::Short => text_for_short(bus, pc, name),
        Operand::Long => text_for_long(bus, pc, n, name),
        Operand::Registers => {
            let pb: u8 = r8(bus, offset_by(pc, 1));
            (2, text_for_transfer(name, pb))
        },
    }
}

/// Disassembles the instruction at `pc`: its length in bytes and its text. What
/// is no instruction is shown as a constant: one byte, or two behind a prefix.
pub fn disasm_one<B: Bus>(bus: &mut B, pc: u16) -> (r: (u16, String))
    requires
        old(bus).wf(),
    ensures
        final(bus).wf(),
        (r.0, r.1@, final(bus)@) == disassembled::<B>(old(bus)@, pc),
        1 <= r.0 <= 5,
{
    proof {
        reveal(disassembled);
    }
    let op: u8 = r8(bus, pc);
    if op == 0x10 || op == 0x11 {
        let op2: u8 = r8(bus, offset_by(pc, 1));
        let instr: Instr = if op == 0x10 {
            decode_page2(op2)
        } else {
            decode_page3(op2)
        };
        if let Instr::UnknownPrefixed = instr {
            let mut out: String = String::new();
            push_text(&mut out, "FCB $");
            push_hex2(&mut out, op);
            push_text(&mut out, ", $");
            push_hex2(&mut out, op2);
            assert(out@ =~= "FCB $"@ + hex2(op) + ", $"@ + hex2(op2));
            return (2, out);
        }
        text_for(bus, pc, 2, instr)
    } else {
        let instr: Instr = decode_page1(op);
        if let Instr::Unknown = instr {
            let mut out: String = String::new();
            push_text(&mut out, "FCB $");
            push_hex2(&mut out, op);
            assert(out@ =~= "FCB $"@ + hex2(op));
            return (1, out);
        }
        text_for(bus, pc, 1, instr)
    }
}

/// The bytes from `pc` on as two-digit numbers with blanks between them,
/// `from` of them read before.
pub open spec fn byte_column<B: Bus>(m: B::V, pc: u16, from: int, len: int, acc: Seq<char>) -> (
    Seq<char>,
    B::V,
)
    decreases len - from,
{
    if from < len {
        let (b, m1) = rd8::<B>(m, offset(pc, from));
        byte_column::<B>(
            m1,
            pc,
            from + 1,
            len,
            (if from == 0 {
                acc
            } else {
                acc + " "@
            }) + "$"@ + hex2(b),
        )
    } else {
        (acc, m)
    }
}

/// `s` with blanks behind it up to `width` characters.
pub open spec fn padded(s: Seq<char>, width: nat) -> Seq<char> {
    if s.len() < width {
        s + Seq::new((width - s.len()) as nat, |i: int| ' ')
    } else {
        s
    }
}

/// Disassembles the instruction at `pc`, with its bytes in a column of 20
/// characters before the text.
pub fn disasm_one_hex<B: Bus>(bus: &mut B, pc: u16) -> (r: (u16, String))
    requires
        old(bus).wf(),
    ensures
        final(bus).wf(),
        ({
            let (len, text, m1) = disassembled::<B>(old(bus)@, pc);
            let (bytes, m2) = byte_column::<B>(m1, pc, 0, len as int, Seq::empty());
            &&& r.0 == len
            &&& r.1@ == padded(bytes, 20) + " "@ + text
            &&& final(bus)@ == m2
        }),
{
    let (len, text) = disasm_one(bus, pc);
    let ghost m1 = bus@;
    let mut out: String = String::new();
    let mut count: usize = 0;
    let mut i: u16 = 0;
    while i < len
        invariant
            bus.wf(),
            i <= len <= 5,
            count == out@.len(),
            count <= 4 * i,
            byte_column::<B>(m1, pc, 0, len as int, Seq::empty()) == byte_column::<B>(
                bus@,
                pc,
                i as int,
                len as int,
                out@,
            ),
        decreases len - i,
    {
        let ghost before = out@;
        proof {
            reveal_strlit(" ");
            reveal_strlit("$");
        }
        if i != 0 {
            push_text(&mut out, " ");
            count = count + 1;
        }
        let b: u8 = r8(bus, offset_by(pc, i as i32));
        push_text(&mut out, "$");
        push_hex2(&mut out, b);
        count = count + 3;
        i = i + 1;
    }
    let ghost bytes = out@;
    while count < 20
        invariant
            count == out@.len(),
            bytes.len() <= count,
            bytes.len() >= 20 ==> out@ == bytes,
            bytes.len() < 20 ==> count <= 20,
            out@ == bytes + Seq::new((count - bytes.len()) as nat, |i: int| ' '),
        decreases 20 - count,
    {
        out.push(' ');
        count = count + 1;
        assert(out@ =~= bytes + Seq::new((count - bytes.len()) as nat, |i: int| ' '));
    }
    assert(out@ =~= padded(bytes, 20));
    push_text(&mut out, " ");
    push_text(&mut out, text.as_str());
    assert(out@ =~= padded(bytes, 20) + " "@ + text@);
    (len, out)
}

/// One disassembled line: address and text.
pub type DisasmLine = (u16, String);

/// The contents of a list of lines.
pub open spec fn lines_view(lines: Seq<DisasmLine>) -> Seq<(u16, Seq<char>)> {
    lines.map_values(|l: DisasmLine| (l.0, l.1@))
}

/// A forward walk from `cur`, behind the lines walked so far; `at` is the place
/// of the line of `pc`. It ends `n_after` lines behind that line, at `limit`
/// lines, or where an instruction reaches past the last address.
pub open spec fn walked<B: Bus>(
    m: B::V,
    cur: u16,
    pc: u16,
    n_after: int,
    limit: int,
    lines: Seq<(u16, Seq<char>)>,
    at: Option<int>,
) -> (Seq<(u16, Seq<char>)>, Option<int>, B::V)
    decreases limit - lines.len(),
{
    if lines.len() < limit {
        let (len, text, m1) = disassembled::<B>(m, cur);
        let at1 = if cur == pc {
            Some(lines.len() as int)
        } else {
            at
        };
        let lines1 = lines.push((cur, text));
        if len == 0 || cur + len > 0xFFFF {
            (lines1, at1, m1)
        } else if at1 is Some && lines1.len() >= at1->0 + 1 + n_after {
            (lines1, at1, m1)
        } else {
            walked::<B>(m1, (cur + len) as u16, pc, n_after, limit, lines1, at1)
        }
    } else {
        (lines, at, m)
    }
}

/// The largest entry at or below `pc`, or `pc`.
pub open spec fn is_anchor(s: Seq<u16>, pc: u16, anchor: u16) -> bool {
    if exists|b: u16| s.contains(b) && b <= pc {
        s.contains(anchor) && anchor <= pc && (forall|b: u16|
            s.contains(b) && b <= pc ==> b <= anchor)
    } else {
        anchor == pc
    }
}

/// The lines of a window around `pc` that a walk from `start` yields: at most
/// `n_before` lines before that of `pc` and `n_after` behind it. Where the walk
/// passes over `pc`, the line of `pc` alone.
pub open spec fn window<B: Bus>(m: B::V, start: u16, pc: u16, n_before: int, n_after: int) -> (
    Seq<(u16, Seq<char>)>,
    B::V,
) {
    let (lines, at, m1) = walked::<B>(
        m,
        start,
        pc,
        n_after,
        n_before + n_after + 257,
        Seq::empty(),
        None,
    );
    match at {
        Some(idx) => (
            lines.subrange(
                if idx < n_before {
                    0
                } else {
                    idx - n_before
                },
                min_int(idx + 1 + n_after, lines.len() as int),
            ),
            m1,
        ),
        None => {
            let (len, text, m2) = disassembled::<B>(m1, pc);
            (seq![(pc, text)], m2)
        },
    }
}

/// Disassembles a window of instructions around `pc`, starting from known
/// instruction boundaries so that its lines are aligned with the instructions.
pub fn disasm_window<B: Bus>(
    bus: &mut B,
    pc: u16,
    boundaries: &InstructionBoundaries,
    n_before: usize,
    n_after: usize,
) -> (out: Vec<DisasmLine>)
    requires
        old(bus).wf(),
        boundaries.wf(),
        n_before + n_after + 257 <= usize::MAX,
    ensures
        final(bus).wf(),
        exists|anchor: u16|
            {
                &&& #[trigger] is_anchor(boundaries@, pc, anchor)
                &&& (lines_view(out@), final(bus)@) == window::<B>(
                    old(bus)@,
                    listing_start(boundaries@, anchor, n_before as nat),
                    pc,
                    n_before as int,
                    n_after as int,
                )
            },
{
    let anchor: u16 = match boundaries.floor(pc) {
        Some(b) => b,
        None => pc,
    };
    assert(is_anchor(boundaries@, pc, anchor));
    let start: u16 = boundaries.start_before(anchor, n_before);
    let limit: usize = n_before + n_after + 257;
    let ghost goal = walked::<B>(
        bus@,
        start,
        pc,
        n_after as int,
        limit as int,
        Seq::empty(),
        None,
    );
    let mut lines: Vec<DisasmLine> = Vec::new();
    let mut cur: u16 = start;
    let mut at: Option<usize> = None;
    let mut done: bool = false;
    assert(lines_view(lines@) =~= Seq::<(u16, Seq<char>)>::empty());
    while !done && lines.len() < limit
        invariant
            bus.wf(),
            lines@.len() <= limit,
            limit == n_before + n_after + 257,
            at matches Some(i) ==> i < lines@.len(),
            done ==> goal == (
                lines_view(lines@),
                match at {
                    Some(i) => Some(i as int),
                    None => None,
                },
                bus@,
            ),
            !done ==> goal == walked::<B>(
                bus@,
                cur,
                pc,
                n_after as int,
                limit as int,
                lines_view(lines@),
                match at {
                    Some(i) => Some(i as int),
                    None => None,
                },
            ),
            !done ==> (at matches Some(i) ==> lines@.len() < i + 1 + n_after),
        decreases limit - lines@.len(),
    {
        let (consumed, text) = disasm_one(bus, cur);
        if cur == pc {
            at = Some(lines.len());
        }
        let ghost before = lines@;
        lines.push((cur, text));
        assert(lines_view(lines@) =~= lines_view(before).push((cur, text@)));
        if cur as u32 + consumed as u32 > 0xFFFF {
            done = true;
        } else {
            cur = cur + consumed;
            if let Some(idx) = at {
                if lines.len() - idx - 1 >= n_after {
                    done = true;
                }
            }
        }
    }
    match at {
        Some(idx) => {
            let from: usize = if idx < n_before {
                0
            } else {
                idx - n_before
            };
            let to: usize = if lines.len() - idx - 1 < n_after {
                lines.len()
            } else {
                idx + 1 + n_after
            };
            let mut out: Vec<DisasmLine> = Vec::new();
            let mut i: usize = from;
            while i < to
                invariant
                    from <= i <= to <= lines@.len(),
                    lines_view(out@) == lines_view(lines@).subrange(from as int, i as int),
                decreases to - i,
            {
                let ghost before = out@;
                let line: DisasmLine = (lines[i].0, lines[i].1.clone());
                out.push(line);
                i = i + 1;
                assert(lines_view(out@) =~= lines_view(before).push((line.0, line.1@)));
                assert(lines_view(out@) =~= lines_view(lines@).subrange(from as int, i as int));
            }
            out
        },
        None => {
            let (len, text) = disasm_one(bus, pc);
            let mut out: Vec<DisasmLine> = Vec::new();
            out.push((pc, text));
            assert(lines_view(out@) =~= seq![(pc, text@)]);
            out
        },
    }
}

} // verus!
