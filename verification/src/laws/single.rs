//! Decimal adjustment, sign extension, and opcodes that are none.

use crate::alu::{
    daa_result, flag, logic16, nz16, nz8, with_flag, word, C, H, N, V, Z,
};
use crate::bus::Memory;
use crate::cpu::isa::{page1, page2, page3};
use crate::cpu::machine::Mach;
use crate::cpu::Registers;
use crate::laws::addressing::{byte_of, law_flag_bits};
use crate::laws::bytes::{
    lemma_main_step, lemma_only_flag, lemma_quiet_step, masks_kept, opcode, quiet, tells,
};
use vstd::prelude::*;

verus! {

/// What DAA adds to A: 6 where the low digit is above 9 or H is set, and 96
/// where the high digit is above 9, or would be with a carry from the low one,
/// or C is set.
pub open spec fn adjustment(a: int, cc: int) -> int {
    let (hi, lo) = (a / 16, a % 16);
    (if lo > 9 || cc / 32 % 2 == 1 {
        6int
    } else {
        0
    }) + (if hi > 9 || hi == 9 && lo > 9 || cc % 2 == 1 {
        96int
    } else {
        0
    })
}

proof fn lemma_adjusted(cc: u8, a: u8)
    ensures
        ({
            let sum = a + adjustment(a as int, cc as int);
            let (r, after) = daa_result(cc, a);
            &&& r == sum % 256
            &&& tells(after, r as int)
            &&& flag(after, C) == (sum > 255 || flag(cc, C))
            &&& flag(after, V) == flag(cc, V)
            &&& flag(after, H) == flag(cc, H)
            &&& masks_kept(cc, after)
        }),
{
    law_flag_bits(cc);
    let (r, after) = daa_result(cc, a);
    let c1 = with_flag(cc, N, r >= 0x80);
    let c2 = with_flag(c1, Z, r == 0);
    let on = a + adjustment(a as int, cc as int) > 255 || flag(cc, C);
    lemma_only_flag(cc, N, r >= 0x80);
    lemma_only_flag(c1, Z, r == 0);
    lemma_only_flag(c2, C, on);
    assert(nz8(cc, r) == c2);
}

/// DAA leaves the adjusted number in A, tells of it in N and Z, and sets C
/// where it went past the byte; a C that was set stays.
pub proof fn law_decimal_adjust(s: Mach<Memory>)
    requires
        quiet(s),
        opcode(s) == 0x19,
    ensures
        ({
            let (used, t) = s.step(false);
            let sum = s.r.a + adjustment(s.r.a as int, s.r.cc as int);
            &&& used == 2
            &&& t.r == (Registers {
                a: (sum % 256) as u8,
                cc: t.r.cc,
                pc: ((s.r.pc + 1) % 65536) as u16,
                ..s.r
            })
            &&& tells(t.r.cc, t.r.a as int)
            &&& flag(t.r.cc, C) == (sum > 255 || flag(s.r.cc, C))
            &&& flag(t.r.cc, V) == flag(s.r.cc, V)
            &&& flag(t.r.cc, H) == flag(s.r.cc, H)
            &&& masks_kept(s.r.cc, t.r.cc)
            &&& t.m == s.m
        }),
{
    lemma_main_step(s);
    lemma_adjusted(s.r.cc, s.r.a);
    reveal(Mach::execute);
    reveal(Mach::inherent);
}

/// SEX tells of the word in N and Z and clears V; C and H stay.
pub proof fn law_sign_extension_flags(s: Mach<Memory>)
    requires
        quiet(s),
        opcode(s) == 0x1D,
    ensures
        ({
            let t = s.step(false).1;
            &&& t.r.a == if s.r.b < 128 {
                0int
            } else {
                255
            }
            &&& flag(t.r.cc, N) == (s.r.b >= 128)
            &&& flag(t.r.cc, Z) == (s.r.b == 0)
            &&& !flag(t.r.cc, V)
            &&& flag(t.r.cc, C) == flag(s.r.cc, C)
            &&& flag(t.r.cc, H) == flag(s.r.cc, H)
            &&& masks_kept(s.r.cc, t.r.cc)
        }),
{
    lemma_main_step(s);
    let a = if s.r.b >= 0x80 {
        0xFFu8
    } else {
        0u8
    };
    let w = word(a, s.r.b);
    let c1 = with_flag(s.r.cc, N, w >= 0x8000);
    let c2 = with_flag(c1, Z, w == 0);
    lemma_only_flag(s.r.cc, N, w >= 0x8000);
    lemma_only_flag(c1, Z, w == 0);
    lemma_only_flag(c2, V, false);
    assert(logic16(s.r.cc, w) == with_flag(nz16(s.r.cc, w), V, false));
    reveal(Mach::execute);
    reveal(Mach::inherent);
}

/// An opcode that is none takes one cycle and is passed over, behind a prefix
/// with the prefix; nothing else changes.
pub proof fn law_no_instruction(s: Mach<Memory>)
    requires
        quiet(s),
    ensures
        ({
            let (used, t) = s.step(false);
            let op = opcode(s);
            let sub = byte_of(s.m, s.r.pc + 1) as u8;
            &&& op != 0x10 && op != 0x11 && page1(op) is Unknown ==> used == 1 && t.r == (Registers {
                pc: ((s.r.pc + 1) % 65536) as u16,
                ..s.r
            }) && t.m == s.m && t.frames == s.frames
            &&& op == 0x10 && page2(sub) is UnknownPrefixed || op == 0x11 && page3(
                sub,
            ) is UnknownPrefixed ==> used == 1 && t.r == (Registers {
                pc: ((s.r.pc + 2) % 65536) as u16,
                ..s.r
            }) && t.m == s.m && t.frames == s.frames
        }),
{
    lemma_quiet_step(s);
    reveal(Mach::execute);
}

} // verus!
