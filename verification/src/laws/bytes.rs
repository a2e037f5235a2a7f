//! Instructions on bytes: what a step leaves in the accumulators, the memory
//! and the flags, in plain arithmetic.

use crate::alu::{
    add8, arith8, binary_result, carry, flag, logic8, nz8, offset, signed8, sub8, unary_flags,
    unary_result, with_flag, Unary, C, H, N, V, Z,
};
use crate::bus::Memory;
use crate::cpu::isa::{binary_of, mode_of, page1, unary_of, Acc, Instr, Mode};
use crate::cpu::machine::Mach;
use crate::cpu::Registers;
use crate::laws::addressing::{byte_of, law_one_flag, word_of};
use crate::laws::arith::law_byte_flags;
use crate::laws::step::{aside, law_execute_aside};
use vstd::prelude::*;

verus! {

/// Whether no interrupt is latched.
pub open spec fn quiet(s: Mach<Memory>) -> bool {
    !s.nmi && !s.firq && !s.irq
}

/// The opcode at PC.
pub open spec fn opcode(s: Mach<Memory>) -> u8 {
    s.m[s.r.pc as int]
}

/// The machine with PC one byte on, at the operand.
pub open spec fn at_operand(s: Mach<Memory>) -> Mach<Memory> {
    Mach { r: Registers { pc: ((s.r.pc + 1) % 65536) as u16, ..s.r }, ..s }
}

/// The address of an operand in memory that `s` stands at: 1 is the direct
/// page, 2 indexed, 3 by address.
pub open spec fn place(s: Mach<Memory>, kind: u8) -> int {
    if kind == 1 {
        256 * s.r.dp + byte_of(s.m, s.r.pc as int)
    } else if kind == 2 {
        s.ea_indexed().0 as int
    } else {
        word_of(s.m, s.r.pc as int)
    }
}

/// The byte that an operand stands for; 0 is the byte itself.
pub open spec fn operand_byte(s: Mach<Memory>, kind: u8) -> int {
    if kind == 0 {
        byte_of(s.m, s.r.pc as int)
    } else {
        byte_of(s.m, place(s, kind))
    }
}

/// The cycles that the addressing of an operand adds.
pub open spec fn addressing_cycles(s: Mach<Memory>, kind: u8) -> int {
    if kind == 2 {
        s.ea_indexed().1 as int
    } else {
        0
    }
}

/// The registers behind an operand, of which an immediate one takes `imm`
/// bytes.
pub open spec fn behind_operand(s: Mach<Memory>, kind: u8, imm: int) -> Registers {
    if kind == 2 {
        s.ea_indexed().3.r
    } else {
        let n = if kind == 0 {
            imm
        } else if kind == 1 {
            1
        } else {
            2
        };
        Registers { pc: ((s.r.pc + n) % 65536) as u16, ..s.r }
    }
}

/// The mode of a kind of operand.
pub open spec fn as_mode(kind: u8) -> Mode {
    if kind == 0 {
        Mode::Imm
    } else if kind == 1 {
        Mode::Direct
    } else if kind == 2 {
        Mode::Indexed
    } else {
        Mode::Extended
    }
}

/// A step with no interrupt latched does what its instruction does.
pub proof fn lemma_quiet_step(s: Mach<Memory>)
    requires
        quiet(s),
    ensures
        ({
            let (prefix, op, instr, t) = s.decode();
            let (used, o, u) = t.execute(instr, s.r.pc);
            let v = s.step(false).1;
            &&& s.step(false).0 == used
            &&& v.r == u.r
            &&& v.m == u.m
            &&& v.frames == u.frames
        }),
{
    let (prefix, op, instr, t) = s.decode();
    law_execute_aside(t, instr, s.r.pc);
    reveal(aside);
    reveal(Mach::service);
}

/// An instruction of the main page is executed at its operand.
pub proof fn lemma_main_step(s: Mach<Memory>)
    requires
        quiet(s),
        opcode(s) != 0x10,
        opcode(s) != 0x11,
    ensures
        ({
            let (used, o, u) = at_operand(s).execute(page1(opcode(s)), s.r.pc);
            let v = s.step(false).1;
            &&& s.step(false).0 == used
            &&& v.r == u.r
            &&& v.m == u.m
            &&& v.frames == u.frames
        }),
{
    lemma_quiet_step(s);
    assert(s.decode().3 == at_operand(s));
}

proof fn lemma_index_keeps_memory(s: Mach<Memory>)
    ensures
        s.ea_indexed().3.m == s.m,
        s.ea_indexed().3.r == (Registers {
            pc: s.ea_indexed().3.r.pc,
            x: s.ea_indexed().3.r.x,
            y: s.ea_indexed().3.r.y,
            u: s.ea_indexed().3.r.u,
            s: s.ea_indexed().3.r.s,
            ..s.r
        }),
        s.ea_indexed().3.frames == s.frames,
        s.ea_indexed().1 <= 8,
{
    reveal(Mach::ea_indexed);
}

pub proof fn lemma_place(s: Mach<Memory>, kind: u8)
    requires
        1 <= kind <= 3,
    ensures
        ({
            let (ea, extra, o, t) = s.ea(as_mode(kind));
            &&& ea == place(s, kind)
            &&& 0 <= place(s, kind) < 65536
            &&& extra == addressing_cycles(s, kind)
            &&& extra <= 8
            &&& t.m == s.m
            &&& t.frames == s.frames
            &&& t.r == behind_operand(s, kind, 0)
            &&& t.r == (Registers { pc: t.r.pc, x: t.r.x, y: t.r.y, u: t.r.u, s: t.r.s, ..s.r })
        }),
{
    lemma_index_keeps_memory(s);
    assert(s.r.pc as int % 65536 == s.r.pc);
    assert(offset(offset(s.r.pc, 1), 1) == (s.r.pc + 2) % 65536);
}

pub proof fn lemma_operand_byte(s: Mach<Memory>, kind: u8)
    requires
        kind <= 3,
    ensures
        ({
            let (v, extra, o, t) = s.operand8(as_mode(kind));
            &&& v == operand_byte(s, kind)
            &&& extra == addressing_cycles(s, kind)
            &&& extra <= 8
            &&& t.m == s.m
            &&& t.r == behind_operand(s, kind, 1)
            &&& t.r == (Registers { pc: t.r.pc, x: t.r.x, y: t.r.y, u: t.r.u, s: t.r.s, ..s.r })
        }),
{
    if kind != 0 {
        lemma_place(s, kind);
    } else {
        assert(s.r.pc as int % 65536 == s.r.pc);
    }
}

/// The accumulator of an opcode from `$80` on: A below `$C0`, else B.
pub open spec fn accumulator(r: Registers, op: u8) -> u8 {
    if op < 0xC0 {
        r.a
    } else {
        r.b
    }
}

/// Behind an instruction on an accumulator only that, the flags and what the
/// operand steps have changed, and no memory.
pub open spec fn accumulator_only(s: Mach<Memory>, t: Mach<Memory>) -> bool {
    let op = opcode(s);
    let r = behind_operand(at_operand(s), op / 16 % 4, 1);
    &&& t.m == s.m
    &&& t.frames == s.frames
    &&& t.r == if op < 0xC0 {
        Registers { a: t.r.a, cc: t.r.cc, ..r }
    } else {
        Registers { b: t.r.b, cc: t.r.cc, ..r }
    }
}

/// The cycles of an instruction with a byte operand: 2 immediate, 4 on the
/// direct page, 4 and the addressing indexed, 5 by address.
pub open spec fn byte_cycles(s: Mach<Memory>) -> int {
    let kind = opcode(s) / 16 % 4;
    if kind == 0 {
        2
    } else if kind == 3 {
        5
    } else {
        4 + addressing_cycles(at_operand(s), kind)
    }
}

proof fn lemma_byte_step(s: Mach<Memory>)
    requires
        quiet(s),
        opcode(s) >= 0x80,
        binary_of(opcode(s) % 16) is Some,
    ensures
        ({
            let op = opcode(s);
            let v = operand_byte(at_operand(s), op / 16 % 4) as u8;
            let t = s.step(false).1;
            let (res, cc) = binary_result(
                binary_of(op % 16)->0,
                s.r.cc,
                accumulator(s.r, op),
                v,
            );
            &&& v == operand_byte(at_operand(s), op / 16 % 4)
            &&& accumulator(t.r, op) == res
            &&& t.r.cc == cc
            &&& accumulator_only(s, t)
            &&& s.step(false).0 == byte_cycles(s)
        }),
{
    let op = opcode(s);
    let kind = op / 16 % 4;
    let at = at_operand(s);
    lemma_main_step(s);
    lemma_operand_byte(at, kind);
    assert(mode_of(op / 16) == as_mode(kind));
    law_execute_aside(at, page1(op), s.r.pc);
    reveal(Mach::execute);
    reveal(Mach::alu);
    lemma_frames_kept(at, kind);
}

proof fn lemma_frames_kept(s: Mach<Memory>, kind: u8)
    requires
        kind <= 3,
    ensures
        s.operand8(as_mode(kind)).3.frames == s.frames,
{
    if kind != 0 {
        lemma_place(s, kind);
    }
}

/// The interrupt masks and the flag of the stacked state.
pub open spec fn masks_kept(before: u8, after: u8) -> bool {
    after & 0xD0 == before & 0xD0
}

proof fn lemma_masks(cc: u8, bit: u8, on: bool)
    requires
        bit & 0xD0 == 0,
    ensures
        masks_kept(cc, with_flag(cc, bit, on)),
{
    assert((cc | bit) & 0xD0 == cc & 0xD0 && (cc & !bit) & 0xD0 == cc & 0xD0) by (bit_vector)
        requires
            bit & 0xD0 == 0,
    ;
}

proof fn lemma_flags_apart()
    ensures
        N & 0xD0 == 0,
        Z & 0xD0 == 0,
        V & 0xD0 == 0,
        C & 0xD0 == 0,
        H & 0xD0 == 0,
        N & C == 0,
        N & H == 0,
        Z & C == 0,
        Z & H == 0,
        V & C == 0,
        V & H == 0,
        N & V == 0,
        Z & V == 0,
        C & V == 0,
        C & H == 0,
        N & Z == 0,
        Z & N == 0,
        V & N == 0,
        V & Z == 0,
        C & N == 0,
        C & Z == 0,
{
    assert(0x08u8 & 0xD0 == 0 && 0x04u8 & 0xD0 == 0 && 0x02u8 & 0xD0 == 0 && 0x01u8 & 0xD0 == 0
        && 0x20u8 & 0xD0 == 0 && 0x08u8 & 0x01 == 0 && 0x08u8 & 0x20 == 0 && 0x04u8 & 0x01 == 0
        && 0x04u8 & 0x20 == 0 && 0x02u8 & 0x01 == 0 && 0x02u8 & 0x20 == 0 && 0x08u8 & 0x02 == 0
        && 0x04u8 & 0x02 == 0 && 0x01u8 & 0x02 == 0 && 0x01u8 & 0x20 == 0 && 0x08u8 & 0x04 == 0
        && 0x04u8 & 0x08 == 0 && 0x02u8 & 0x08 == 0 && 0x02u8 & 0x04 == 0 && 0x01u8 & 0x08 == 0
        && 0x01u8 & 0x04 == 0) by (bit_vector);
}

proof fn lemma_arith_masks(cc: u8, res: u8, c: bool, v: bool, h: bool)
    ensures
        masks_kept(cc, arith8(cc, res, c, v, h)),
{
    lemma_flags_apart();
    let c1 = with_flag(cc, N, res >= 0x80);
    let c2 = with_flag(c1, Z, res == 0);
    let c3 = with_flag(c2, C, c);
    let c4 = with_flag(c3, V, v);
    lemma_masks(cc, N, res >= 0x80);
    lemma_masks(c1, Z, res == 0);
    lemma_masks(c2, C, c);
    lemma_masks(c3, V, v);
    lemma_masks(c4, H, h);
}

/// What the flags say behind a result: N and Z of it.
pub open spec fn tells(cc: u8, res: int) -> bool {
    flag(cc, N) == (res >= 128) && flag(cc, Z) == (res == 0)
}

/// Loads and logic: N and Z of the result, V clear, everything else as it was.
pub proof fn lemma_logic_flags(cc: u8, res: u8)
    ensures
        tells(logic8(cc, res), res as int),
        !flag(logic8(cc, res), V),
        flag(logic8(cc, res), C) == flag(cc, C),
        flag(logic8(cc, res), H) == flag(cc, H),
        masks_kept(cc, logic8(cc, res)),
{
    lemma_flags_apart();
    let c1 = with_flag(cc, N, res >= 0x80);
    let c2 = with_flag(c1, Z, res == 0);
    law_one_flag(cc, N, res >= 0x80, C);
    law_one_flag(cc, N, res >= 0x80, H);
    law_one_flag(c1, Z, res == 0, C);
    law_one_flag(c1, Z, res == 0, H);
    law_one_flag(c1, Z, res == 0, N);
    law_one_flag(c2, V, false, C);
    law_one_flag(c2, V, false, H);
    law_one_flag(c2, V, false, N);
    law_one_flag(c2, V, false, Z);
    lemma_masks(cc, N, res >= 0x80);
    lemma_masks(c1, Z, res == 0);
    lemma_masks(c2, V, false);
}

/// LDA and LDB put their operand into the accumulator.
pub proof fn law_load_byte(s: Mach<Memory>)
    requires
        quiet(s),
        opcode(s) >= 0x80,
        opcode(s) % 16 == 0x6,
    ensures
        ({
            let op = opcode(s);
            let t = s.step(false).1;
            &&& accumulator(t.r, op) == operand_byte(at_operand(s), op / 16 % 4)
            &&& tells(t.r.cc, accumulator(t.r, op) as int)
            &&& !flag(t.r.cc, V)
            &&& flag(t.r.cc, C) == flag(s.r.cc, C)
            &&& flag(t.r.cc, H) == flag(s.r.cc, H)
            &&& masks_kept(s.r.cc, t.r.cc)
            &&& accumulator_only(s, t)
            &&& s.step(false).0 == byte_cycles(s)
        }),
{
    lemma_byte_step(s);
    let op = opcode(s);
    lemma_logic_flags(s.r.cc, operand_byte(at_operand(s), op / 16 % 4) as u8);
}

/// ANDA, BITA, EORA, ORA and those on B: the bits of accumulator and operand
/// together; BIT sets the flags alone.
pub proof fn law_logic_byte(s: Mach<Memory>)
    requires
        quiet(s),
        opcode(s) >= 0x80,
        opcode(s) % 16 == 0x4 || opcode(s) % 16 == 0x5 || opcode(s) % 16 == 0x8 || opcode(s) % 16
            == 0xA,
    ensures
        ({
            let op = opcode(s);
            let t = s.step(false).1;
            let a = accumulator(s.r, op);
            let v = operand_byte(at_operand(s), op / 16 % 4) as u8;
            let bits = if op % 16 == 0x8 {
                a ^ v
            } else if op % 16 == 0xA {
                a | v
            } else {
                a & v
            };
            &&& accumulator(t.r, op) == if op % 16 == 0x5 {
                a
            } else {
                bits
            }
            &&& tells(t.r.cc, bits as int)
            &&& !flag(t.r.cc, V)
            &&& flag(t.r.cc, C) == flag(s.r.cc, C)
            &&& flag(t.r.cc, H) == flag(s.r.cc, H)
            &&& masks_kept(s.r.cc, t.r.cc)
            &&& accumulator_only(s, t)
            &&& s.step(false).0 == byte_cycles(s)
        }),
{
    lemma_byte_step(s);
    let op = opcode(s);
    let a = accumulator(s.r, op);
    let v = operand_byte(at_operand(s), op / 16 % 4) as u8;
    lemma_logic_flags(s.r.cc, a & v);
    lemma_logic_flags(s.r.cc, a ^ v);
    lemma_logic_flags(s.r.cc, a | v);
}

/// ADDA, ADCA and those on B: the sum with the carry where it is asked for.
/// C tells that it does not fit a byte, H that the low digits do not fit a
/// digit, and V that the sum of the numbers with sign is another.
pub proof fn law_add_byte(s: Mach<Memory>)
    requires
        quiet(s),
        opcode(s) >= 0x80,
        opcode(s) % 16 == 0xB || opcode(s) % 16 == 0x9,
    ensures
        ({
            let op = opcode(s);
            let t = s.step(false).1;
            let a = accumulator(s.r, op);
            let v = operand_byte(at_operand(s), op / 16 % 4) as u8;
            let c: int = if op % 16 == 0x9 && flag(s.r.cc, C) {
                1
            } else {
                0
            };
            let res = accumulator(t.r, op);
            &&& res == (a + v + c) % 256
            &&& tells(t.r.cc, res as int)
            &&& flag(t.r.cc, C) == (a + v + c >= 256)
            &&& flag(t.r.cc, H) == (a % 16 + v % 16 + c >= 16)
            &&& flag(t.r.cc, V) == (signed8(res) != signed8(a) + signed8(v) + c)
            &&& masks_kept(s.r.cc, t.r.cc)
            &&& accumulator_only(s, t)
            &&& s.step(false).0 == byte_cycles(s)
        }),
{
    lemma_byte_step(s);
    let op = opcode(s);
    let a = accumulator(s.r, op);
    let v = operand_byte(at_operand(s), op / 16 % 4) as u8;
    let c: int = if op % 16 == 0x9 && flag(s.r.cc, C) {
        1
    } else {
        0
    };
    lemma_add(s.r.cc, a, v, c);
}

pub proof fn lemma_add(cc: u8, a: u8, v: u8, c: int)
    requires
        0 <= c <= 1,
    ensures
        ({
            let (res, after) = add8(cc, a, v, c);
            &&& res == (a + v + c) % 256
            &&& tells(after, res as int)
            &&& flag(after, C) == (a + v + c >= 256)
            &&& flag(after, H) == (a % 16 + v % 16 + c >= 16)
            &&& flag(after, V) == (signed8(res) != signed8(a) + signed8(v) + c)
            &&& masks_kept(cc, after)
        }),
{
    let res = add8(cc, a, v, c).0;
    let s = signed8(a) + signed8(v) + c;
    let h = a as int % 16 + v as int % 16 + c > 15;
    law_byte_flags(cc, res, a + v + c > 255, s < -128 || s > 127, h);
    lemma_arith_masks(cc, res, a + v + c > 255, s < -128 || s > 127, h);
}

/// SUBA, SBCA, CMPA and those on B: the difference, with the borrow where it
/// is asked for; CMP sets the flags alone. C tells that the operand is larger,
/// and V that the difference of the numbers with sign is another.
pub proof fn law_sub_byte(s: Mach<Memory>)
    requires
        quiet(s),
        opcode(s) >= 0x80,
        opcode(s) % 16 <= 0x2,
    ensures
        ({
            let op = opcode(s);
            let t = s.step(false).1;
            let a = accumulator(s.r, op);
            let v = operand_byte(at_operand(s), op / 16 % 4) as u8;
            let c: int = if op % 16 == 0x2 && flag(s.r.cc, C) {
                1
            } else {
                0
            };
            let res = ((a - v - c) % 256) as u8;
            &&& accumulator(t.r, op) == if op % 16 == 0x1 {
                a
            } else {
                res
            }
            &&& tells(t.r.cc, res as int)
            &&& flag(t.r.cc, C) == (a < v + c)
            &&& flag(t.r.cc, H) == (a % 16 < v % 16 + c)
            &&& flag(t.r.cc, V) == (signed8(res) != signed8(a) - signed8(v) - c)
            &&& masks_kept(s.r.cc, t.r.cc)
            &&& accumulator_only(s, t)
            &&& s.step(false).0 == byte_cycles(s)
        }),
{
    lemma_byte_step(s);
    let op = opcode(s);
    let a = accumulator(s.r, op);
    let v = operand_byte(at_operand(s), op / 16 % 4) as u8;
    let c: int = if op % 16 == 0x2 && flag(s.r.cc, C) {
        1
    } else {
        0
    };
    lemma_sub(s.r.cc, a, v, c);
}

pub proof fn lemma_sub(cc: u8, a: u8, v: u8, c: int)
    requires
        0 <= c <= 1,
    ensures
        ({
            let (res, after) = sub8(cc, a, v, c);
            &&& res == (a - v - c) % 256
            &&& tells(after, res as int)
            &&& flag(after, C) == (a < v + c)
            &&& flag(after, H) == (a % 16 < v % 16 + c)
            &&& flag(after, V) == (signed8(res) != signed8(a) - signed8(v) - c)
            &&& masks_kept(cc, after)
        }),
{
    let res = sub8(cc, a, v, c).0;
    let s = signed8(a) - signed8(v) - c;
    let h = a as int % 16 - v as int % 16 - c < 0;
    law_byte_flags(cc, res, a - v - c < 0, s < -128 || s > 127, h);
    lemma_arith_masks(cc, res, a - v - c < 0, s < -128 || s > 127, h);
}

/// STA and STB put the accumulator at the place of the operand, and nothing
/// elsewhere.
pub proof fn law_store_byte(s: Mach<Memory>)
    requires
        quiet(s),
        opcode(s) >= 0x90,
        opcode(s) % 16 == 0x7,
        opcode(s) / 16 % 4 != 0,
    ensures
        ({
            let op = opcode(s);
            let kind = op / 16 % 4;
            let at = at_operand(s);
            let t = s.step(false).1;
            let a = accumulator(s.r, op);
            &&& t.m == s.m.update(place(at, kind), a)
            &&& tells(t.r.cc, a as int)
            &&& !flag(t.r.cc, V)
            &&& flag(t.r.cc, C) == flag(s.r.cc, C)
            &&& flag(t.r.cc, H) == flag(s.r.cc, H)
            &&& masks_kept(s.r.cc, t.r.cc)
            &&& t.r == (Registers { cc: t.r.cc, ..behind_operand(at, kind, 0) })
            &&& t.frames == s.frames
            &&& s.step(false).0 == byte_cycles(s)
        }),
{
    let op = opcode(s);
    let kind = op / 16 % 4;
    let at = at_operand(s);
    lemma_main_step(s);
    lemma_place(at, kind);
    assert(mode_of(op / 16) == as_mode(kind));
    lemma_logic_flags(s.r.cc, accumulator(s.r, op));
    reveal(Mach::execute);
    reveal(Mach::store_acc);
}

/// One of the five flags of results set or cleared, the others as they were.
pub open spec fn only_flag(before: u8, after: u8, bit: u8, on: bool) -> bool {
    &&& flag(after, bit) == on
    &&& bit != N ==> flag(after, N) == flag(before, N)
    &&& bit != Z ==> flag(after, Z) == flag(before, Z)
    &&& bit != V ==> flag(after, V) == flag(before, V)
    &&& bit != C ==> flag(after, C) == flag(before, C)
    &&& bit != H ==> flag(after, H) == flag(before, H)
    &&& masks_kept(before, after)
}

pub proof fn lemma_only_flag(cc: u8, bit: u8, on: bool)
    requires
        bit == N || bit == Z || bit == V || bit == C,
    ensures
        only_flag(cc, with_flag(cc, bit, on), bit, on),
{
    lemma_flags_apart();
    lemma_masks(cc, bit, on);
    law_one_flag(cc, bit, on, H);
    if bit != N {
        law_one_flag(cc, bit, on, N);
    }
    if bit != Z {
        law_one_flag(cc, bit, on, Z);
    }
    if bit != V {
        law_one_flag(cc, bit, on, V);
    }
    if bit != C {
        law_one_flag(cc, bit, on, C);
    }
}

/// What an operation on one byte makes of `v`, by the low digit of its opcode:
/// NEG, COM, LSR, ROR, ASR, ASL, ROL, DEC, INC, TST, CLR.
pub open spec fn makes(lo: u8, cc: u8, v: u8, res: u8, after: u8) -> bool {
    let c: int = if flag(cc, C) {
        1
    } else {
        0
    };
    let kept_c = flag(after, C) == flag(cc, C);
    let kept_v = flag(after, V) == flag(cc, V);
    &&& tells(after, res as int)
    &&& flag(after, H) == flag(cc, H)
    &&& masks_kept(cc, after)
    &&& lo == 0x0 ==> (res + v) % 256 == 0 && flag(after, C) == (v != 0) && flag(after, V) == (v
        == 128)
    &&& lo == 0x3 ==> res + v == 255 && flag(after, C) && !flag(after, V)
    &&& lo == 0x4 ==> 2 * res + (if flag(after, C) {
        1int
    } else {
        0
    }) == v && kept_v
    &&& lo == 0x6 ==> 2 * (res - 128 * c) + (if flag(after, C) {
        1int
    } else {
        0
    }) == v && kept_v
    &&& lo == 0x7 ==> 2 * signed8(res) + (if flag(after, C) {
        1int
    } else {
        0
    }) == signed8(v) && kept_v
    &&& lo == 0x8 ==> res + 256 * (if flag(after, C) {
        1int
    } else {
        0
    }) == 2 * v && flag(after, V) == (signed8(res) != 2 * signed8(v))
    &&& lo == 0x9 ==> res + 256 * (if flag(after, C) {
        1int
    } else {
        0
    }) == 2 * v + c && flag(after, V) == (signed8(res) != 2 * signed8(v) + c)
    &&& lo == 0xA ==> (res + 1) % 256 == v && kept_c && flag(after, V) == (signed8(res) != signed8(
        v,
    ) - 1)
    &&& lo == 0xC ==> (v + 1) % 256 == res && kept_c && flag(after, V) == (signed8(res) != signed8(
        v,
    ) + 1)
    &&& lo == 0xD ==> res == v && kept_c && !flag(after, V)
    &&& lo == 0xF ==> res == 0 && !flag(after, C) && !flag(after, V)
}

/// The flags C and V that an operation on one byte leaves.
spec fn left_c(op: Unary, cc: u8, v: u8) -> bool {
    match op {
        Unary::Neg => v != 0,
        Unary::Com => true,
        Unary::Lsr | Unary::Ror | Unary::Asr => v % 2 == 1,
        Unary::Asl | Unary::Rol => v >= 0x80,
        Unary::Clr => false,
        _ => flag(cc, C),
    }
}

spec fn left_v(op: Unary, cc: u8, v: u8) -> bool {
    let res = unary_result(op, cc, v);
    match op {
        Unary::Neg | Unary::Dec => v == 0x80,
        Unary::Inc => v == 0x7F,
        Unary::Asl | Unary::Rol => (res >= 0x80) != (v >= 0x80),
        Unary::Com | Unary::Tst | Unary::Clr => false,
        _ => flag(cc, V),
    }
}

proof fn lemma_left(op: Unary, cc: u8, v: u8)
    ensures
        ({
            let res = unary_result(op, cc, v);
            let after = unary_flags(op, cc, v);
            &&& tells(after, res as int)
            &&& flag(after, H) == flag(cc, H)
            &&& masks_kept(cc, after)
            &&& flag(after, C) == left_c(op, cc, v)
            &&& flag(after, V) == left_v(op, cc, v)
        }),
{
    let res = unary_result(op, cc, v);
    let c1 = with_flag(cc, N, res >= 0x80);
    let nz = with_flag(c1, Z, res == 0);
    lemma_only_flag(cc, N, res >= 0x80);
    lemma_only_flag(c1, Z, res == 0);
    let (odd, top) = (v % 2 == 1, v >= 0x80);
    match op {
        Unary::Neg => {
            lemma_only_flag(nz, C, v != 0);
            lemma_only_flag(with_flag(nz, C, v != 0), V, v == 0x80);
        },
        Unary::Com => {
            lemma_only_flag(nz, V, false);
            lemma_only_flag(with_flag(nz, V, false), C, true);
        },
        Unary::Lsr | Unary::Ror | Unary::Asr => {
            lemma_only_flag(nz, C, odd);
        },
        Unary::Asl | Unary::Rol => {
            lemma_only_flag(nz, C, top);
            lemma_only_flag(with_flag(nz, C, top), V, (res >= 0x80) != top);
        },
        Unary::Dec => {
            lemma_only_flag(nz, V, v == 0x80);
        },
        Unary::Inc => {
            lemma_only_flag(nz, V, v == 0x7F);
        },
        Unary::Tst => {
            lemma_only_flag(nz, V, false);
        },
        Unary::Clr => {
            lemma_only_flag(nz, V, false);
            lemma_only_flag(with_flag(nz, V, false), C, false);
        },
    }
}

proof fn lemma_shifted(op: Unary, cc: u8, v: u8)
    ensures
        ({
            let c: int = if flag(cc, C) {
                1
            } else {
                0
            };
            let out: int = if left_c(op, cc, v) {
                1
            } else {
                0
            };
            let res = unary_result(op, cc, v);
            &&& op is Lsr ==> 2 * res + out == v
            &&& op is Ror ==> 2 * (res - 128 * c) + out == v
            &&& op is Asr ==> 2 * signed8(res) + out == signed8(v)
            &&& op is Asl ==> res + 256 * out == 2 * v && left_v(op, cc, v) == (signed8(res) != 2
                * signed8(v))
            &&& op is Rol ==> res + 256 * out == 2 * v + c && left_v(op, cc, v) == (signed8(res)
                != 2 * signed8(v) + c)
        }),
{
}

proof fn lemma_makes(lo: u8, cc: u8, v: u8)
    requires
        unary_of(lo) is Some,
    ensures
        makes(
            lo,
            cc,
            v,
            unary_result(unary_of(lo)->0, cc, v),
            unary_flags(unary_of(lo)->0, cc, v),
        ),
{
    let op = unary_of(lo)->0;
    lemma_left(op, cc, v);
    lemma_shifted(op, cc, v);
}

/// Whether the low digit of an opcode in the rows of one-byte operations names
/// one of them.
pub open spec fn names_unary(lo: u8) -> bool {
    lo != 0x1 && lo != 0x2 && lo != 0x5 && lo != 0xB && lo != 0xE
}

/// Operations on an accumulator: `$40` to `$4F` on A, `$50` to `$5F` on B.
pub proof fn law_unary_accumulator(s: Mach<Memory>)
    requires
        quiet(s),
        opcode(s) / 16 == 4 || opcode(s) / 16 == 5,
        names_unary(opcode(s) % 16),
    ensures
        ({
            let op = opcode(s);
            let t = s.step(false).1;
            let next = ((s.r.pc + 1) % 65536) as u16;
            &&& s.step(false).0 == 2
            &&& t.m == s.m
            &&& t.frames == s.frames
            &&& if op < 0x50 {
                &&& makes(op % 16, s.r.cc, s.r.a, t.r.a, t.r.cc)
                &&& t.r == (Registers { a: t.r.a, cc: t.r.cc, pc: next, ..s.r })
            } else {
                &&& makes(op % 16, s.r.cc, s.r.b, t.r.b, t.r.cc)
                &&& t.r == (Registers { b: t.r.b, cc: t.r.cc, pc: next, ..s.r })
            }
        }),
{
    let op = opcode(s);
    lemma_main_step(s);
    lemma_makes(op % 16, s.r.cc, s.r.a);
    lemma_makes(op % 16, s.r.cc, s.r.b);
    reveal(Mach::execute);
    reveal(Mach::accum);
}

/// The kind of operand of the rows `$0x`, `$6x` and `$7x`.
pub open spec fn row_kind(op: u8) -> u8 {
    if op < 0x10 {
        1
    } else if op < 0x70 {
        2
    } else {
        3
    }
}

/// Operations on a byte of memory: on the direct page, indexed and by address.
/// TST leaves the memory alone.
pub proof fn law_unary_memory(s: Mach<Memory>)
    requires
        quiet(s),
        opcode(s) / 16 == 0 || opcode(s) / 16 == 6 || opcode(s) / 16 == 7,
        names_unary(opcode(s) % 16),
        s.m.len() == 65536,
    ensures
        ({
            let op = opcode(s);
            let at = at_operand(s);
            let kind = row_kind(op);
            let t = s.step(false).1;
            let addr = place(at, kind);
            &&& makes(op % 16, s.r.cc, s.m[addr], t.m[addr], t.r.cc)
            &&& t.m == s.m.update(addr, t.m[addr])
            &&& t.r == (Registers { cc: t.r.cc, ..behind_operand(at, kind, 0) })
            &&& t.frames == s.frames
            &&& s.step(false).0 == addressing_cycles(at, kind) + if kind == 3 {
                7int
            } else {
                6
            }
        }),
{
    let op = opcode(s);
    let at = at_operand(s);
    let kind = row_kind(op);
    let addr = place(at, kind);
    lemma_main_step(s);
    lemma_place(at, kind);
    lemma_makes(op % 16, s.r.cc, s.m[addr]);
    lemma_makes(op % 16, s.r.cc, 0);
    reveal(Mach::execute);
    reveal(Mach::mem);
    let t = s.step(false).1;
    assert(t.m =~= s.m.update(addr, t.m[addr]));
}

/// MUL leaves the product of A and B in D, Z tells that it is zero, and C is
/// bit 7 of it. ABX adds B, without sign, to X. SEX fills A with the sign of B.
pub proof fn law_inherent(s: Mach<Memory>)
    requires
        quiet(s),
    ensures
        ({
            let t = s.step(false).1;
            let next = ((s.r.pc + 1) % 65536) as u16;
            &&& opcode(s) == 0x3D ==> {
                &&& 256 * t.r.a + t.r.b == s.r.a * s.r.b
                &&& only_flag(with_flag(s.r.cc, C, t.r.b >= 128), t.r.cc, Z, s.r.a * s.r.b == 0)
                &&& t.r == (Registers { a: t.r.a, b: t.r.b, cc: t.r.cc, pc: next, ..s.r })
                &&& s.step(false).0 == 11
            }
            &&& opcode(s) == 0x3A ==> {
                &&& t.r == (Registers {
                    x: ((s.r.x + s.r.b) % 65536) as u16,
                    pc: next,
                    ..s.r
                })
                &&& s.step(false).0 == 3
            }
            &&& opcode(s) == 0x1D ==> {
                &&& signed8(s.r.b) == crate::alu::signed16((256 * t.r.a + t.r.b) as u16)
                &&& t.r == (Registers { a: t.r.a, cc: t.r.cc, pc: next, ..s.r })
                &&& flag(t.r.cc, N) == (s.r.b >= 128)
                &&& flag(t.r.cc, Z) == (s.r.b == 0)
                &&& s.step(false).0 == 2
            }
            &&& opcode(s) == 0x12 || opcode(s) == 0x13 ==> {
                &&& t.r == (Registers { pc: next, ..s.r })
                &&& s.step(false).0 == 2
            }
            &&& (opcode(s) == 0x3D || opcode(s) == 0x3A || opcode(s) == 0x1D || opcode(s) == 0x12
                || opcode(s) == 0x13) ==> t.m == s.m && t.frames == s.frames
        }),
{
    lemma_main_or_other(s);
    if opcode(s) == 0x3D {
        crate::laws::arith::law_multiply(s.r.cc, s.r.a, s.r.b);
        let (d, cc) = crate::alu::mul_result(s.r.cc, s.r.a, s.r.b);
        lemma_two_flags(s.r.cc, d == 0, crate::alu::low(d) >= 0x80);
    }
    if opcode(s) == 0x1D {
        let a = if s.r.b >= 0x80 {
            0xFFu8
        } else {
            0u8
        };
        let w = crate::alu::word(a, s.r.b);
        let c1 = with_flag(s.r.cc, N, w >= 0x8000);
        let c2 = with_flag(c1, Z, w == 0);
        lemma_only_flag(s.r.cc, N, w >= 0x8000);
        lemma_only_flag(c1, Z, w == 0);
        lemma_only_flag(c2, V, false);
    }
    reveal(Mach::execute);
    reveal(Mach::inherent);
}

proof fn lemma_main_or_other(s: Mach<Memory>)
    requires
        quiet(s),
    ensures
        opcode(s) != 0x10 && opcode(s) != 0x11 ==> {
            let (used, o, u) = at_operand(s).execute(page1(opcode(s)), s.r.pc);
            let v = s.step(false).1;
            &&& s.step(false).0 == used
            &&& v.r == u.r
            &&& v.m == u.m
            &&& v.frames == u.frames
        },
{
    if opcode(s) != 0x10 && opcode(s) != 0x11 {
        lemma_main_step(s);
    }
}

proof fn lemma_two_flags(cc: u8, z: bool, c: bool)
    ensures
        only_flag(with_flag(cc, C, c), with_flag(with_flag(cc, Z, z), C, c), Z, z),
{
    let a = with_flag(cc, Z, z);
    lemma_only_flag(cc, Z, z);
    lemma_only_flag(a, C, c);
    lemma_only_flag(cc, C, c);
}

/// ORCC sets the flags that its operand names, ANDCC clears those that it does
/// not name, and nothing else changes.
pub proof fn law_flag_instructions(s: Mach<Memory>)
    requires
        quiet(s),
        opcode(s) == 0x1A || opcode(s) == 0x1C,
    ensures
        ({
            let t = s.step(false).1;
            let v = byte_of(s.m, s.r.pc + 1) as u8;
            &&& t.r == (Registers {
                cc: if opcode(s) == 0x1A {
                    s.r.cc | v
                } else {
                    s.r.cc & v
                },
                pc: ((s.r.pc + 2) % 65536) as u16,
                ..s.r
            })
            &&& t.m == s.m
            &&& s.step(false).0 == 2
        }),
{
    lemma_main_step(s);
    assert(offset(at_operand(s).r.pc, 1) == (s.r.pc + 2) % 65536);
    reveal(Mach::execute);
    reveal(Mach::with_postbyte);
}

} // verus!
