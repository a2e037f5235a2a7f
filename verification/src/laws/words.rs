//! Instructions on words: loads, stores, comparisons and sums of the 16-bit
//! registers, in plain arithmetic.

use crate::alu::{
    add16, arith16, flag, high, logic16, low, offset, signed16, sub16, with_flag, word, C, H, N, V, Z,
};
use crate::bus::Memory;
use crate::cpu::isa::{mode_of, page1, page2, page3, Instr, Mode};
use crate::cpu::machine::Mach;
use crate::cpu::Registers;
use crate::laws::addressing::{byte_of, word_of};
use crate::laws::arith::law_word_flags;
use crate::laws::bytes::{
    addressing_cycles, as_mode, at_operand, behind_operand, lemma_main_step, lemma_only_flag,
    lemma_place, lemma_quiet_step, masks_kept, opcode, place, quiet,
};
use vstd::prelude::*;

verus! {

/// A 16-bit register; D is A and B together.
#[derive(PartialEq, Eq, Structural)]
pub enum Wide {
    D,
    X,
    Y,
    U,
    S,
}

/// The number that a 16-bit register holds.
pub open spec fn holds(r: Registers, w: Wide) -> int {
    match w {
        Wide::D => 256 * r.a + r.b,
        Wide::X => r.x as int,
        Wide::Y => r.y as int,
        Wide::U => r.u as int,
        Wide::S => r.s as int,
    }
}

/// Registers that differ from `r` in one 16-bit register and the flags at most.
pub open spec fn but_for(r: Registers, w: Wide, after: Registers) -> bool {
    match w {
        Wide::D => after == (Registers { a: after.a, b: after.b, cc: after.cc, ..r }),
        Wide::X => after == (Registers { x: after.x, cc: after.cc, ..r }),
        Wide::Y => after == (Registers { y: after.y, cc: after.cc, ..r }),
        Wide::U => after == (Registers { u: after.u, cc: after.cc, ..r }),
        Wide::S => after == (Registers { s: after.s, cc: after.cc, ..r }),
    }
}

/// The prefix of the instruction at PC, or 0.
pub open spec fn prefix(s: Mach<Memory>) -> u8 {
    if opcode(s) == 0x10 || opcode(s) == 0x11 {
        opcode(s)
    } else {
        0
    }
}

/// The opcode behind the prefix, if there is one.
pub open spec fn code(s: Mach<Memory>) -> u8 {
    if prefix(s) == 0 {
        opcode(s)
    } else {
        opcode(at_operand(s))
    }
}

/// The machine at the operand, behind opcode and prefix.
pub open spec fn at_word(s: Mach<Memory>) -> Mach<Memory> {
    if prefix(s) == 0 {
        at_operand(s)
    } else {
        at_operand(at_operand(s))
    }
}

/// The word that an operand stands for.
pub open spec fn operand_word(s: Mach<Memory>, kind: u8) -> int {
    if kind == 0 {
        word_of(s.m, s.r.pc as int)
    } else {
        word_of(s.m, place(s, kind))
    }
}

pub proof fn lemma_word_step(s: Mach<Memory>)
    requires
        quiet(s),
    ensures
        ({
            let instr = if prefix(s) == 0 {
                page1(code(s))
            } else if prefix(s) == 0x10 {
                page2(code(s))
            } else {
                page3(code(s))
            };
            let (used, o, u) = at_word(s).execute(instr, s.r.pc);
            let v = s.step(false).1;
            &&& s.step(false).0 == used
            &&& v.r == u.r
            &&& v.m == u.m
            &&& v.frames == u.frames
        }),
{
    lemma_quiet_step(s);
    assert(s.decode().3 == at_word(s));
}

proof fn lemma_operand_word(s: Mach<Memory>, kind: u8)
    requires
        kind <= 3,
    ensures
        ({
            let (v, extra, o, t) = s.operand16(as_mode(kind));
            &&& v == operand_word(s, kind)
            &&& extra == addressing_cycles(s, kind)
            &&& extra <= 8
            &&& t.m == s.m
            &&& t.frames == s.frames
            &&& t.r == behind_operand(s, kind, 2)
            &&& t.r == (Registers { pc: t.r.pc, x: t.r.x, y: t.r.y, u: t.r.u, s: t.r.s, ..s.r })
        }),
{
    if kind != 0 {
        lemma_place(s, kind);
        let a = place(s, kind) as u16;
        assert(a as int % 65536 == a);
        assert(offset(a, 1) == (a + 1) % 65536);
    } else {
        assert(s.r.pc as int % 65536 == s.r.pc);
        assert(offset(offset(s.r.pc, 1), 1) == (s.r.pc + 2) % 65536);
    }
}

/// What the flags say behind a word: N and Z of it.
pub open spec fn tells_word(cc: u8, res: int) -> bool {
    flag(cc, N) == (res >= 32768) && flag(cc, Z) == (res == 0)
}

proof fn lemma_logic_word(cc: u8, v: u16)
    ensures
        tells_word(logic16(cc, v), v as int),
        !flag(logic16(cc, v), V),
        flag(logic16(cc, v), C) == flag(cc, C),
        flag(logic16(cc, v), H) == flag(cc, H),
        masks_kept(cc, logic16(cc, v)),
{
    let c1 = with_flag(cc, N, v >= 0x8000);
    let c2 = with_flag(c1, Z, v == 0);
    lemma_only_flag(cc, N, v >= 0x8000);
    lemma_only_flag(c1, Z, v == 0);
    lemma_only_flag(c2, V, false);
}

/// Whether `op` behind `prefix` is LDD, LDX, LDU, LDY or LDS.
pub open spec fn loads(prefix: u8, op: u8, w: Wide) -> bool {
    let row = op / 16;
    &&& row >= 8
    &&& prefix == 0 ==> {
        ||| w == Wide::D && row >= 12 && op % 16 == 12
        ||| w == Wide::X && row < 12 && op % 16 == 14
        ||| w == Wide::U && row >= 12 && op % 16 == 14
    }
    &&& prefix == 0x10 ==> {
        ||| w == Wide::Y && row < 12 && op % 16 == 14
        ||| w == Wide::S && row >= 12 && op % 16 == 14
    }
    &&& prefix != 0x11
}

/// A load of a 16-bit register puts the word of its operand there.
pub proof fn law_load_word(s: Mach<Memory>, w: Wide)
    requires
        quiet(s),
        loads(prefix(s), code(s), w),
    ensures
        ({
            let kind = code(s) / 16 % 4;
            let at = at_word(s);
            let t = s.step(false).1;
            let v = operand_word(at, kind);
            &&& holds(t.r, w) == v
            &&& but_for(behind_operand(at, kind, 2), w, t.r)
            &&& tells_word(t.r.cc, v)
            &&& !flag(t.r.cc, V)
            &&& flag(t.r.cc, C) == flag(s.r.cc, C)
            &&& flag(t.r.cc, H) == flag(s.r.cc, H)
            &&& masks_kept(s.r.cc, t.r.cc)
            &&& t.m == s.m
            &&& t.frames == s.frames
            &&& s.step(false).0 == addressing_cycles(at, kind) + if kind == 0 {
                if prefix(s) == 0 {
                    3int
                } else {
                    4
                }
            } else if kind == 3 {
                6
            } else if kind == 1 && w == Wide::U {
                4
            } else {
                5
            }
        }),
{
    let kind = code(s) / 16 % 4;
    let at = at_word(s);
    lemma_word_step(s);
    lemma_operand_word(at, kind);
    assert(mode_of(code(s) / 16) == as_mode(kind));
    lemma_logic_word(s.r.cc, operand_word(at, kind) as u16);
    reveal(Mach::execute);
    reveal(Mach::load16);
}

/// Whether `op` behind `prefix` is STD, STX, STU, STY or STS.
pub open spec fn stores(prefix: u8, op: u8, w: Wide) -> bool {
    let row = op / 16;
    &&& row >= 8
    &&& row % 4 != 0
    &&& prefix == 0 ==> {
        ||| w == Wide::D && row >= 12 && op % 16 == 13
        ||| w == Wide::X && row < 12 && op % 16 == 15
        ||| w == Wide::U && row >= 12 && op % 16 == 15
    }
    &&& prefix == 0x10 ==> {
        ||| w == Wide::Y && row < 12 && op % 16 == 15
        ||| w == Wide::S && row >= 12 && op % 16 == 15
    }
    &&& prefix != 0x11
}

/// A store of a 16-bit register writes its high byte, then its low byte behind
/// it. The register is stored as it is behind the addressing.
pub proof fn law_store_word(s: Mach<Memory>, w: Wide)
    requires
        quiet(s),
        stores(prefix(s), code(s), w),
    ensures
        ({
            let kind = code(s) / 16 % 4;
            let at = at_word(s);
            let r = behind_operand(at, kind, 0);
            let t = s.step(false).1;
            let v = holds(r, w);
            let addr = place(at, kind);
            &&& t.m == s.m.update(addr, (v / 256) as u8).update(
                (addr + 1) % 65536,
                (v % 256) as u8,
            )
            &&& t.r == (Registers { cc: t.r.cc, ..r })
            &&& tells_word(t.r.cc, v)
            &&& !flag(t.r.cc, V)
            &&& flag(t.r.cc, C) == flag(s.r.cc, C)
            &&& flag(t.r.cc, H) == flag(s.r.cc, H)
            &&& masks_kept(s.r.cc, t.r.cc)
            &&& t.frames == s.frames
            &&& s.step(false).0 == addressing_cycles(at, kind) + if kind == 3 {
                6int
            } else if kind == 1 && w == Wide::U {
                4
            } else {
                5
            }
        }),
{
    let kind = code(s) / 16 % 4;
    let at = at_word(s);
    lemma_word_step(s);
    lemma_place(at, kind);
    assert(mode_of(code(s) / 16) == as_mode(kind));
    lemma_logic_word(s.r.cc, holds(behind_operand(at, kind, 0), w) as u16);
    reveal(Mach::execute);
    reveal(Mach::store16);
}

proof fn lemma_word_masks(cc: u8, res: u16, c: bool, v: bool)
    ensures
        masks_kept(cc, arith16(cc, res, c, v)),
        flag(arith16(cc, res, c, v), H) == flag(cc, H),
{
    let c1 = with_flag(cc, N, res >= 0x8000);
    let c2 = with_flag(c1, Z, res == 0);
    let c3 = with_flag(c2, C, c);
    lemma_only_flag(cc, N, res >= 0x8000);
    lemma_only_flag(c1, Z, res == 0);
    lemma_only_flag(c2, C, c);
    lemma_only_flag(c3, V, v);
}

/// What the flags say behind a difference of words.
pub open spec fn tells_difference(before: u8, cc: u8, a: int, v: int) -> bool {
    let res = (a - v) % 65536;
    &&& tells_word(cc, res)
    &&& flag(cc, C) == (a < v)
    &&& flag(cc, V) == (signed16(res as u16) != signed16(a as u16) - signed16(v as u16))
    &&& flag(cc, H) == flag(before, H)
    &&& masks_kept(before, cc)
}

proof fn lemma_difference(cc: u8, a: u16, v: u16)
    ensures
        sub16(cc, a, v).0 == (a - v) % 65536,
        tells_difference(cc, sub16(cc, a, v).1, a as int, v as int),
{
    let res = sub16(cc, a, v).0;
    let s = signed16(a) - signed16(v);
    law_word_flags(cc, res, a < v, s < -0x8000 || s > 0x7FFF);
    lemma_word_masks(cc, res, a < v, s < -0x8000 || s > 0x7FFF);
}

/// Whether `op` behind `prefix` is CMPX, CMPD, CMPY, CMPU or CMPS.
pub open spec fn compares(prefix: u8, op: u8, w: Wide) -> bool {
    let row = op / 16;
    &&& 8 <= row < 12
    &&& prefix == 0 ==> w == Wide::X && op % 16 == 12
    &&& prefix == 0x10 ==> {
        ||| w == Wide::D && op % 16 == 3
        ||| w == Wide::Y && op % 16 == 12
    }
    &&& prefix == 0x11 ==> {
        ||| w == Wide::U && op % 16 == 3
        ||| w == Wide::S && op % 16 == 12
    }
}

/// A comparison of a 16-bit register sets the flags of the difference and
/// nothing else.
pub proof fn law_compare_word(s: Mach<Memory>, w: Wide)
    requires
        quiet(s),
        compares(prefix(s), code(s), w),
    ensures
        ({
            let kind = code(s) / 16 % 4;
            let at = at_word(s);
            let r = behind_operand(at, kind, 2);
            let t = s.step(false).1;
            &&& t.r == (Registers { cc: t.r.cc, ..r })
            &&& tells_difference(s.r.cc, t.r.cc, holds(r, w), operand_word(at, kind))
            &&& t.m == s.m
            &&& t.frames == s.frames
            &&& s.step(false).0 == addressing_cycles(at, kind) + if w == Wide::X {
                if kind <= 1 {
                    4int
                } else {
                    5
                }
            } else if w == Wide::D {
                if kind == 0 {
                    5
                } else if kind == 3 {
                    8
                } else {
                    7
                }
            } else if kind == 3 {
                6
            } else {
                5
            }
        }),
{
    let kind = code(s) / 16 % 4;
    let at = at_word(s);
    let r = behind_operand(at, kind, 2);
    lemma_word_step(s);
    lemma_operand_word(at, kind);
    assert(mode_of(code(s) / 16) == as_mode(kind));
    lemma_difference(s.r.cc, holds(r, w) as u16, operand_word(at, kind) as u16);
    reveal(Mach::execute);
    reveal(Mach::compare16);
}

/// ADDD and SUBD.
pub proof fn law_sum_word(s: Mach<Memory>)
    requires
        quiet(s),
        opcode(s) >= 0x80,
        opcode(s) % 16 == 3,
    ensures
        ({
            let kind = opcode(s) / 16 % 4;
            let at = at_operand(s);
            let t = s.step(false).1;
            let d = holds(s.r, Wide::D);
            let v = operand_word(at, kind);
            let sum = holds(t.r, Wide::D);
            &&& opcode(s) < 0xC0 ==> sum == (d - v) % 65536 && tells_difference(
                s.r.cc,
                t.r.cc,
                d,
                v,
            )
            &&& opcode(s) >= 0xC0 ==> {
                &&& sum == (d + v) % 65536
                &&& tells_word(t.r.cc, sum)
                &&& flag(t.r.cc, C) == (d + v >= 65536)
                &&& flag(t.r.cc, V) == (signed16(sum as u16) != signed16(d as u16) + signed16(
                    v as u16,
                ))
                &&& flag(t.r.cc, H) == flag(s.r.cc, H)
                &&& masks_kept(s.r.cc, t.r.cc)
            }
            &&& but_for(behind_operand(at, kind, 2), Wide::D, t.r)
            &&& t.m == s.m
            &&& t.frames == s.frames
            &&& s.step(false).0 == addressing_cycles(at, kind) + if kind == 0 {
                4int
            } else if kind == 3 {
                7
            } else {
                6
            }
        }),
{
    let kind = opcode(s) / 16 % 4;
    let at = at_operand(s);
    lemma_sum_step(s);
    let d = holds(s.r, Wide::D) as u16;
    let v = operand_word(at, kind) as u16;
    lemma_difference(s.r.cc, d, v);
    lemma_sum(s.r.cc, d, v);
}

proof fn lemma_sum(cc: u8, d: u16, v: u16)
    ensures
        ({
            let (sum, after) = add16(cc, d, v);
            &&& sum == (d + v) % 65536
            &&& tells_word(after, sum as int)
            &&& flag(after, C) == (d + v >= 65536)
            &&& flag(after, V) == (signed16(sum) != signed16(d) + signed16(v))
            &&& flag(after, H) == flag(cc, H)
            &&& masks_kept(cc, after)
        }),
{
    let res = add16(cc, d, v).0;
    let n = signed16(d) + signed16(v);
    law_word_flags(cc, res, d + v > 0xFFFF, n < -0x8000 || n > 0x7FFF);
    lemma_word_masks(cc, res, d + v > 0xFFFF, n < -0x8000 || n > 0x7FFF);
}

proof fn lemma_sum_step(s: Mach<Memory>)
    requires
        quiet(s),
        opcode(s) >= 0x80,
        opcode(s) % 16 == 3,
    ensures
        ({
            let kind = opcode(s) / 16 % 4;
            let at = at_operand(s);
            let t = s.step(false).1;
            let d = word(s.r.a, s.r.b);
            let v = operand_word(at, kind) as u16;
            let (res, cc) = if opcode(s) < 0xC0 {
                sub16(s.r.cc, d, v)
            } else {
                add16(s.r.cc, d, v)
            };
            &&& 0 <= operand_word(at, kind) < 65536
            &&& t.r.cc == cc
            &&& t.r.a == high(res)
            &&& t.r.b == low(res)
            &&& but_for(behind_operand(at, kind, 2), Wide::D, t.r)
            &&& t.m == s.m
            &&& t.frames == s.frames
            &&& s.step(false).0 == addressing_cycles(at, kind) + if kind == 0 {
                4int
            } else if kind == 3 {
                7
            } else {
                6
            }
        }),
{
    let kind = opcode(s) / 16 % 4;
    let at = at_operand(s);
    lemma_main_step(s);
    lemma_operand_word(at, kind);
    assert(mode_of(opcode(s) / 16) == as_mode(kind));
    reveal(Mach::execute);
    reveal(Mach::arith_d);
}

/// LEAX, LEAY, LEAS and LEAU put the address of their operand into the
/// register; the first two set Z, the others no flag.
pub proof fn law_load_address(s: Mach<Memory>, w: Wide)
    requires
        quiet(s),
        ({
            ||| opcode(s) == 0x30 && w == Wide::X
            ||| opcode(s) == 0x31 && w == Wide::Y
            ||| opcode(s) == 0x32 && w == Wide::S
            ||| opcode(s) == 0x33 && w == Wide::U
        }),
    ensures
        ({
            let (ea, extra, desc, u) = at_operand(s).ea_indexed();
            let t = s.step(false).1;
            &&& holds(t.r, w) == ea
            &&& but_for(u.r, w, t.r)
            &&& w == Wide::X || w == Wide::Y ==> crate::laws::bytes::only_flag(
                s.r.cc,
                t.r.cc,
                Z,
                ea == 0,
            )
            &&& w == Wide::S || w == Wide::U ==> t.r.cc == s.r.cc
            &&& t.m == s.m
            &&& s.step(false).0 == 4 + extra
        }),
{
    lemma_main_step(s);
    let at = at_operand(s);
    lemma_place(at, 2);
    lemma_only_flag(s.r.cc, Z, at.ea_indexed().0 == 0);
    reveal(Mach::execute);
    reveal(Mach::lea);
}

/// The register of a code in EXG and TFR: D, X, Y, U, S, PC from 0 on.
pub open spec fn coded_word(r: Registers, n: u8) -> int {
    if n == 0 {
        256 * r.a + r.b
    } else if n == 1 {
        r.x as int
    } else if n == 2 {
        r.y as int
    } else if n == 3 {
        r.u as int
    } else if n == 4 {
        r.s as int
    } else {
        r.pc as int
    }
}

/// A, B, CC, DP from 8 on.
pub open spec fn coded_byte(r: Registers, n: u8) -> int {
    if n == 8 {
        r.a as int
    } else if n == 9 {
        r.b as int
    } else if n == 10 {
        r.cc as int
    } else {
        r.dp as int
    }
}

/// EXG swaps two registers of one size and TFR copies the first into the
/// second; no other register of that size changes.
pub proof fn law_exchange_and_transfer(s: Mach<Memory>, other: u8)
    requires
        quiet(s),
        opcode(s) == 0x1E || opcode(s) == 0x1F,
    ensures
        ({
            let pb = byte_of(s.m, s.r.pc + 1) as u8;
            let (from, to) = (pb / 16, pb % 16);
            let r = Registers { pc: ((s.r.pc + 2) % 65536) as u16, ..s.r };
            let t = s.step(false).1;
            &&& s.step(false).0 == 6
            &&& t.m == s.m
            &&& from <= 5 && to <= 5 ==> {
                &&& coded_word(t.r, to) == coded_word(r, from)
                &&& opcode(s) == 0x1E ==> coded_word(t.r, from) == coded_word(r, to)
                &&& other <= 5 && other != to && (other != from || opcode(s) == 0x1F)
                    ==> coded_word(t.r, other) == coded_word(r, other)
                &&& t.r.cc == s.r.cc && t.r.dp == s.r.dp
            }
            &&& 8 <= from <= 11 && 8 <= to <= 11 ==> {
                &&& coded_byte(t.r, to) == coded_byte(r, from)
                &&& opcode(s) == 0x1E ==> coded_byte(t.r, from) == coded_byte(r, to)
                &&& 8 <= other <= 11 && other != to && (other != from || opcode(s) == 0x1F)
                    ==> coded_byte(t.r, other) == coded_byte(r, other)
                &&& t.r == (Registers { a: t.r.a, b: t.r.b, cc: t.r.cc, dp: t.r.dp, ..r })
            }
            &&& (from < 8) != (to < 8) ==> t.r == r
        }),
{
    lemma_main_step(s);
    assert(offset(at_operand(s).r.pc, 1) == (s.r.pc + 2) % 65536);
    reveal(Mach::execute);
    reveal(Mach::with_postbyte);
}

} // verus!
