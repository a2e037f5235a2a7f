//! Where a program goes: branches, jumps, calls, returns, interrupts and reset.

use crate::alu::{condition, flag, offset, signed16, signed8, C, F, I, N, V, Z};
use crate::bus::{Bus, Memory};
use crate::cpu::isa::{page1, Instr};
use crate::cpu::machine::{list_bytes, listed, swi_vector, Mach};
use crate::cpu::{calls_at, Registers};
use crate::debug::CallKind;
use crate::laws::addressing::{byte_of, is_signed16, is_signed8, word_of};
use crate::laws::bytes::{
    addressing_cycles, as_mode, at_operand, behind_operand, lemma_main_step, lemma_place, opcode,
    place, quiet,
};
use crate::laws::stack::{
    bytes16, kept_above, lemma_entire_stacked, list_image, part, stacked, stands,
};
use crate::laws::words::{at_word, code, lemma_word_step, prefix};
use vstd::prelude::*;

verus! {

/// Whether a branch with this low digit of its opcode is taken.
pub open spec fn taken(lo: u8, cc: u8) -> bool {
    let (c, z, v, n) = (flag(cc, C), flag(cc, Z), flag(cc, V), flag(cc, N));
    &&& lo == 0x1 ==> false
    &&& lo == 0x2 ==> !c && !z
    &&& lo == 0x3 ==> c || z
    &&& lo == 0x4 ==> !c
    &&& lo == 0x5 ==> c
    &&& lo == 0x6 ==> !z
    &&& lo == 0x7 ==> z
    &&& lo == 0x8 ==> !v
    &&& lo == 0x9 ==> v
    &&& lo == 0xA ==> !n
    &&& lo == 0xB ==> n
    &&& lo == 0xC ==> n == v
    &&& lo == 0xD ==> n != v
    &&& lo == 0xE ==> !z && n == v
    &&& lo == 0xF ==> z || n != v
}

/// Registers that differ from `r` in PC alone, which is at `addr`.
pub open spec fn gone_to(r: Registers, addr: int, after: Registers) -> bool {
    after == (Registers { pc: (addr % 65536) as u16, ..r })
}

/// A short branch goes `n` bytes from the instruction behind it, forwards or
/// backwards, where its condition holds, and else on; it changes nothing but PC.
pub proof fn law_short_branch(s: Mach<Memory>, n: int)
    requires
        quiet(s),
        opcode(s) / 16 == 2,
        is_signed8(n, byte_of(s.m, s.r.pc + 1)),
    ensures
        ({
            let t = s.step(false).1;
            let goes = taken(opcode(s) % 16, s.r.cc);
            &&& gone_to(
                s.r,
                s.r.pc + 2 + if goes {
                    n
                } else {
                    0
                },
                t.r,
            )
            &&& t.m == s.m
            &&& t.frames == s.frames
            &&& s.step(false).0 == if goes {
                3int
            } else {
                2
            }
        }),
{
    lemma_main_step(s);
    lemma_taken(opcode(s) % 16, s.r.cc);
    lemma_branch(s, n);
}

proof fn lemma_taken(lo: u8, cc: u8)
    requires
        lo < 16,
    ensures
        condition(lo, cc) == taken(lo, cc),
{
}

proof fn lemma_branch(s: Mach<Memory>, n: int)
    requires
        opcode(s) / 16 == 2,
        is_signed8(n, byte_of(s.m, s.r.pc + 1)),
    ensures
        ({
            let (used, o, u) = at_operand(s).execute(page1(opcode(s)), s.r.pc);
            let goes = condition(opcode(s) % 16, s.r.cc);
            &&& gone_to(
                s.r,
                s.r.pc + 2 + if goes {
                    n
                } else {
                    0
                },
                u.r,
            )
            &&& u.m == s.m
            &&& u.frames == s.frames
            &&& used == if goes {
                3int
            } else {
                2
            }
        }),
{
    let at = at_operand(s);
    let p = offset(at.r.pc, 1);
    assert(p == (s.r.pc + 2) % 65536);
    assert(n == signed8(byte_of(s.m, s.r.pc + 1) as u8));
    assert(offset(p, n) == (s.r.pc + 2 + n) % 65536);
    assert(page1(opcode(s)) == Instr::Branch { code: opcode(s) % 16 });
    reveal(Mach::execute);
    reveal(Mach::branch);
}

/// The same of the long branches: those behind `$10`, and LBRA.
pub proof fn law_long_branch(s: Mach<Memory>, n: int)
    requires
        quiet(s),
        ({
            ||| prefix(s) == 0x10 && code(s) / 16 == 2 && code(s) != 0x20
            ||| opcode(s) == 0x16
        }),
        is_signed16(n, word_of(s.m, at_word(s).r.pc as int)),
    ensures
        ({
            let t = s.step(false).1;
            let goes = opcode(s) == 0x16 || taken(code(s) % 16, s.r.cc);
            let len: int = if opcode(s) == 0x16 {
                3
            } else {
                4
            };
            &&& gone_to(
                s.r,
                s.r.pc + len + if goes {
                    n
                } else {
                    0
                },
                t.r,
            )
            &&& t.m == s.m
            &&& t.frames == s.frames
            &&& s.step(false).0 == if opcode(s) != 0x16 && goes {
                6int
            } else {
                5
            }
        }),
{
    lemma_word_step(s);
    let at = at_word(s);
    let len: int = if opcode(s) == 0x16 {
        3
    } else {
        4
    };
    lemma_word_offset(s, at, len, n);
    lemma_taken(code(s) % 16, s.r.cc);
    reveal(Mach::execute);
    reveal(Mach::long_branch);
    reveal(Mach::lbra);
}

proof fn lemma_word_offset(s: Mach<Memory>, at: Mach<Memory>, len: int, n: int)
    requires
        at.m == s.m,
        at.r.pc == (s.r.pc + len - 2) % 65536,
        2 <= len <= 4,
        is_signed16(n, word_of(s.m, at.r.pc as int)),
    ensures
        signed16(at.fetch16().0) == n,
        at.fetch16().1.r.pc == (s.r.pc + len) % 65536,
        offset(at.fetch16().1.r.pc, n) == (s.r.pc + len + n) % 65536,
{
    let p = at.r.pc;
    assert(p as int % 65536 == p);
    assert(offset(p, 1) == (p + 1) % 65536);
    assert(at.fetch16().0 == word_of(s.m, p as int));
    assert(offset(offset(p, 1), 1) == (s.r.pc + len) % 65536);
}

/// A subroutine was entered at `target`, with the return address `ret` on the
/// stack and in the frame on top.
pub open spec fn entered(s: Mach<Memory>, r: Registers, target: int, ret: int, t: Mach<Memory>) -> bool {
    let sp = (r.s - 2) % 65536;
    &&& t.r == (Registers { pc: (target % 65536) as u16, s: sp as u16, ..r })
    &&& byte_of(t.m, sp) == ret % 65536 / 256
    &&& byte_of(t.m, sp + 1) == ret % 65536 % 256
    &&& forall|a: u16|
        a != sp && a != (sp + 1) % 65536 ==> #[trigger] t.m[a as int] == s.m[a as int]
    &&& t.frames.len() == s.frames.len() + 1
    &&& t.frames.drop_last() == s.frames
    &&& t.frames.last().return_addr == ret % 65536
    &&& t.frames.last().call_site == s.r.pc
    &&& t.frames.last().target == target % 65536
    &&& t.frames.last().sp_at_call == sp
}

proof fn lemma_entered(s: Mach<Memory>, u: Mach<Memory>, site: u16, target: u16, kind: CallKind)
    requires
        s.m.len() == 65536,
        u.m == s.m,
        u.frames == s.frames,
        site == s.r.pc,
    ensures
        entered(s, u.r, target as int, u.r.pc as int, u.call(site, target, kind)),
        u.call(site, target, kind).frames.last().kind == kind,
{
    let t = u.call(site, target, kind);
    let sp = (u.r.s - 2) % 65536;
    assert(offset(u.r.s, -1) == (sp + 1) % 65536);
    assert(offset(offset(u.r.s, -1), -1) == sp);
    assert(sp % 65536 == sp);
    assert(sp != (sp + 1) % 65536);
    assert(t.frames.drop_last() =~= s.frames);
}

/// BSR puts the address of the instruction behind it on the stack and goes `n`
/// bytes from there.
pub proof fn law_short_call(s: Mach<Memory>, n: int)
    requires
        quiet(s),
        s.m.len() == 65536,
        opcode(s) == 0x8D,
        is_signed8(n, byte_of(s.m, s.r.pc + 1)),
    ensures
        entered(s, s.r, s.r.pc + 2 + n, s.r.pc + 2, s.step(false).1),
        s.step(false).1.frames.last().kind == CallKind::Bsr,
        s.step(false).0 == 7,
{
    lemma_main_step(s);
    let at = at_operand(s);
    reveal(Mach::execute);
    reveal(Mach::bsr);
    let u = at.fetch8().1;
    assert(u.r.pc == (s.r.pc + 2) % 65536);
    assert(n == signed8(byte_of(s.m, s.r.pc + 1) as u8));
    let target = offset(u.r.pc, n);
    assert(target == (s.r.pc + 2 + n) % 65536);
    lemma_called(s, u, target, s.r.pc + 2 + n, s.r.pc + 2, CallKind::Bsr, s.step(false).1);
}

/// LBSR does so with a distance of 16 bits.
pub proof fn law_long_call(s: Mach<Memory>, n: int)
    requires
        quiet(s),
        s.m.len() == 65536,
        opcode(s) == 0x17,
        is_signed16(n, word_of(s.m, at_operand(s).r.pc as int)),
    ensures
        entered(s, s.r, s.r.pc + 3 + n, s.r.pc + 3, s.step(false).1),
        s.step(false).1.frames.last().kind == CallKind::Bsr,
        s.step(false).0 == 9,
{
    lemma_main_step(s);
    let at = at_operand(s);
    reveal(Mach::execute);
    reveal(Mach::lbsr);
    lemma_word_offset(s, at, 3, n);
    let u = at.fetch16().1;
    let target = offset(u.r.pc, n);
    lemma_called(s, u, target, s.r.pc + 3 + n, s.r.pc + 3, CallKind::Bsr, s.step(false).1);
}

/// JSR goes to the place of its operand and puts the address behind the operand
/// on the stack.
pub proof fn law_call(s: Mach<Memory>)
    requires
        quiet(s),
        s.m.len() == 65536,
        opcode(s) == 0x9D || opcode(s) == 0xAD || opcode(s) == 0xBD,
    ensures
        ({
            let at = at_operand(s);
            let kind = opcode(s) / 16 % 4;
            let r = behind_operand(at, kind, 0);
            let t = s.step(false).1;
            &&& entered(s, r, place(at, kind), r.pc as int, t)
            &&& s.step(false).0 == 7 + addressing_cycles(at, kind)
            &&& t.frames.last().kind == CallKind::Jsr
        }),
{
    lemma_main_step(s);
    let at = at_operand(s);
    reveal(Mach::execute);
    reveal(Mach::jsr);
    let kind = opcode(s) / 16 % 4;
    lemma_place(at, kind);
    let (ea, extra, o, u) = at.ea(as_mode(kind));
    lemma_entered(s, u, s.r.pc, ea, CallKind::Jsr);
    lemma_same_entered(
        s,
        u.r,
        place(at, kind),
        u.r.pc as int,
        u.call(s.r.pc, ea, CallKind::Jsr),
        s.step(false).1,
    );
}

proof fn lemma_same_entered(
    s: Mach<Memory>,
    r: Registers,
    target: int,
    ret: int,
    t: Mach<Memory>,
    u: Mach<Memory>,
)
    requires
        entered(s, r, target, ret, t),
        u.r == t.r,
        u.m == t.m,
        u.frames == t.frames,
    ensures
        entered(s, r, target, ret, u),
{
}

proof fn lemma_called(
    s: Mach<Memory>,
    u: Mach<Memory>,
    target: u16,
    plain: int,
    ret: int,
    kind: CallKind,
    t: Mach<Memory>,
)
    requires
        s.m.len() == 65536,
        u.m == s.m,
        u.frames == s.frames,
        u.r == (Registers { pc: u.r.pc, ..s.r }),
        u.r.pc == ret % 65536,
        target == plain % 65536,
        t.r == u.call(s.r.pc, target, kind).r,
        t.m == u.call(s.r.pc, target, kind).m,
        t.frames == u.call(s.r.pc, target, kind).frames,
    ensures
        entered(s, s.r, plain, ret, t),
        t.frames.last().kind == kind,
{
    lemma_entered(s, u, s.r.pc, target, kind);
    let c = u.call(s.r.pc, target, kind);
    lemma_same_entered(s, u.r, target as int, u.r.pc as int, c, t);
    lemma_entered_plain(s, u.r, target as int, plain, ret, t);
}

proof fn lemma_entered_plain(
    s: Mach<Memory>,
    r: Registers,
    target: int,
    plain: int,
    ret: int,
    t: Mach<Memory>,
)
    requires
        entered(s, r, target, r.pc as int, t),
        r == (Registers { pc: r.pc, ..s.r }),
        r.pc == ret % 65536,
        target % 65536 == plain % 65536,
    ensures
        entered(s, s.r, plain, ret, t),
{
    let back = r.pc as int;
    assert(back % 65536 == ret % 65536);
}

/// JMP goes to the place of its operand, and changes nothing but PC and what
/// the operand steps.
pub proof fn law_jump(s: Mach<Memory>)
    requires
        quiet(s),
        opcode(s) == 0x0E || opcode(s) == 0x6E || opcode(s) == 0x7E,
    ensures
        ({
            let at = at_operand(s);
            let kind: u8 = if opcode(s) == 0x0E {
                1
            } else if opcode(s) == 0x6E {
                2
            } else {
                3
            };
            let t = s.step(false).1;
            &&& gone_to(behind_operand(at, kind, 0), place(at, kind), t.r)
            &&& t.m == s.m
            &&& t.frames == s.frames
            &&& s.step(false).0 == 3 + addressing_cycles(at, kind)
        }),
{
    let kind: u8 = if opcode(s) == 0x0E {
        1
    } else if opcode(s) == 0x6E {
        2
    } else {
        3
    };
    lemma_main_step(s);
    lemma_place(at_operand(s), kind);
    reveal(Mach::execute);
    reveal(Mach::jmp);
}

/// RTS goes on at the address on top of the stack and takes it off.
pub proof fn law_return(s: Mach<Memory>)
    requires
        quiet(s),
        opcode(s) == 0x39,
    ensures
        ({
            let t = s.step(false).1;
            &&& t.r == (Registers {
                pc: word_of(s.m, s.r.s as int) as u16,
                s: ((s.r.s + 2) % 65536) as u16,
                ..s.r
            })
            &&& t.m == s.m
            &&& s.step(false).0 == 5
        }),
{
    lemma_main_step(s);
    assert(s.r.s as int % 65536 == s.r.s);
    assert(offset(s.r.s, 1) == (s.r.s + 1) % 65536);
    assert(offset(offset(s.r.s, 1), 1) == (s.r.s + 2) % 65536);
    reveal(Mach::execute);
    reveal(Mach::rts);
}

/// An interrupt stacked every register, as it was behind the instruction `r`,
/// with E set, masked IRQ and FIRQ, and went through the vector at `vector`.
pub open spec fn interrupted_through(s: Mach<Memory>, r: Registers, vector: int, t: Mach<Memory>) -> bool {
    let stacked = Registers { cc: r.cc | 0x80, ..r };
    &&& t.r == (Registers {
        pc: word_of(t.m, vector) as u16,
        s: ((r.s - 12) % 65536) as u16,
        cc: r.cc | 0xD0,
        ..r
    })
    &&& stands(t.m, t.r.s, list_image(0xFF, stacked))
    &&& kept_above(s, t, 12)
    &&& t.frames.len() == s.frames.len() + 1
    &&& t.frames.drop_last() == s.frames
    &&& t.frames.last().return_addr == r.pc
}

proof fn lemma_through(s: Mach<Memory>, e: Mach<Memory>, t: Mach<Memory>, cc: u8, vector: u16, site: u16, kind: CallKind)
    requires
        e.m == s.m,
        e.frames == s.frames,
        e.r.s == s.r.s,
        e.r.cc == cc | 0x80,
        stacked(e, t, list_image(0xFF, e.r)),
        list_image(0xFF, e.r).len() == 12,
    ensures
        ({
            let i = t.vectored(vector, site, e.r.pc, kind);
            &&& interrupted_through(s, Registers { cc: cc, ..e.r }, vector as int, i)
            &&& i.frames.last().kind == kind
        }),
{
    reveal(stacked);
    let i = t.vectored(vector, site, e.r.pc, kind);
    assert((cc | 0x80) | 0x50 == cc | 0xD0) by (bit_vector);
    assert(t.r.s == (e.r.s - 12) % 65536);
    assert(vector as int % 65536 == vector);
    assert(offset(vector, 1) == (vector + 1) % 65536);
    assert(i.frames.drop_last() =~= s.frames);
}

proof fn lemma_interrupted(s: Mach<Memory>, u: Mach<Memory>, vector: u16, site: u16, kind: CallKind)
    requires
        s.m.len() == 65536,
        u.m == s.m,
        u.frames == s.frames,
        u.r.s == s.r.s,
    ensures
        interrupted_through(s, u.r, vector as int, u.interrupted(vector, site, kind)),
        u.interrupted(vector, site, kind).frames.last().kind == kind,
{
    let e = u.cc(u.r.cc | 0x80);
    lemma_entire_stacked(e);
    lemma_through(s, e, e.push_entire(), u.r.cc, vector, site, kind);
    assert(Registers { cc: u.r.cc, ..e.r } == u.r);
}

proof fn lemma_same_interrupted(s: Mach<Memory>, r: Registers, vector: int, t: Mach<Memory>, u: Mach<Memory>)
    requires
        interrupted_through(s, r, vector, t),
        u.r == t.r,
        u.m == t.m,
        u.frames == t.frames,
    ensures
        interrupted_through(s, r, vector, u),
{
}

/// SWI, SWI2 and SWI3 go through the vectors at `$FFFA`, `$FFF4` and `$FFF2`.
pub proof fn law_software_interrupts(s: Mach<Memory>)
    requires
        quiet(s),
        s.m.len() == 65536,
        code(s) == 0x3F,
    ensures
        ({
            let t = s.step(false).1;
            let r = at_word(s).r;
            &&& prefix(s) == 0 ==> interrupted_through(s, r, 0xFFFA, t) && s.step(false).0 == 19
            &&& prefix(s) == 0x10 ==> interrupted_through(s, r, 0xFFF4, t) && s.step(false).0 == 20
            &&& prefix(s) == 0x11 ==> interrupted_through(s, r, 0xFFF2, t) && s.step(false).0 == 20
        }),
{
    lemma_word_step(s);
    let at = at_word(s);
    let n: u8 = if prefix(s) == 0 {
        1
    } else if prefix(s) == 0x10 {
        2
    } else {
        3
    };
    lemma_interrupted(s, at, swi_vector(n), s.r.pc, CallKind::Swi(n));
    reveal(Mach::execute);
    reveal(Mach::swi);
    lemma_same_interrupted(
        s,
        at.r,
        swi_vector(n) as int,
        at.interrupted(swi_vector(n), s.r.pc, CallKind::Swi(n)),
        s.step(false).1,
    );
}

/// NMI goes through the vector at `$FFFC`, whatever is masked; IRQ through that
/// at `$FFF8`, unless masked; both stack every register. Either is latched no
/// longer.
pub proof fn law_hardware_interrupts(s: Mach<Memory>)
    requires
        s.m.len() == 65536,
    ensures
        s.nmi ==> {
            let (used, t) = s.service();
            interrupted_through(s, s.r, 0xFFFC, t) && !t.nmi && t.irq == s.irq && t.firq == s.firq
                && used == 19
        },
        !s.nmi && (!s.firq || flag(s.r.cc, F)) && s.irq && !flag(s.r.cc, I) ==> {
            let (used, t) = s.service();
            interrupted_through(s, s.r, 0xFFF8, t) && !t.irq && t.firq == s.firq && used == 19
        },
        !s.nmi && (!s.firq || flag(s.r.cc, F)) && (!s.irq || flag(s.r.cc, I)) ==> s.service() == (
            0u32,
            s,
        ),
{
    reveal(Mach::service);
    reveal(Mach::service_nmi);
    reveal(Mach::service_irq);
    let nmi = s.interrupted(0xFFFC, s.r.pc, CallKind::Nmi);
    let irq = s.interrupted(0xFFF8, s.r.pc, CallKind::Irq);
    lemma_interrupted(s, s, 0xFFFC, s.r.pc, CallKind::Nmi);
    lemma_interrupted(s, s, 0xFFF8, s.r.pc, CallKind::Irq);
    lemma_interrupt_keeps(s, 0xFFFC, CallKind::Nmi);
    lemma_interrupt_keeps(s, 0xFFF8, CallKind::Irq);
    lemma_same_interrupted(s, s.r, 0xFFFC, nmi, s.service_nmi());
    lemma_same_interrupted(s, s.r, 0xFFF8, irq, s.service_irq());
}

proof fn lemma_interrupt_keeps(s: Mach<Memory>, vector: u16, kind: CallKind)
    requires
        s.m.len() == 65536,
    ensures
        ({
            let i = s.interrupted(vector, s.r.pc, kind);
            i.nmi == s.nmi && i.firq == s.firq && i.irq == s.irq
        }),
{
    let e = s.cc(s.r.cc | 0x80);
    lemma_entire_stacked(e);
    lemma_stacked_keeps(e, e.push_entire(), list_image(0xFF, e.r));
}

proof fn lemma_stacked_keeps(s: Mach<Memory>, t: Mach<Memory>, bytes: Seq<u8>)
    requires
        stacked(s, t, bytes),
    ensures
        t.nmi == s.nmi && t.firq == s.firq && t.irq == s.irq,
{
    reveal(stacked);
}

/// FIRQ, unless masked, stacks PC and CC alone, clears E, masks IRQ and FIRQ
/// and goes through the vector at `$FFF6`.
pub proof fn law_fast_interrupt(s: Mach<Memory>)
    requires
        s.m.len() == 65536,
        !s.nmi,
        s.firq,
        !flag(s.r.cc, F),
    ensures
        ({
            let (used, t) = s.service();
            let sp = (s.r.s - 3) % 65536;
            &&& used == 10
            &&& !t.firq
            &&& t.irq == s.irq
            &&& t.r == (Registers {
                pc: word_of(t.m, 0xFFF6) as u16,
                s: sp as u16,
                cc: (s.r.cc & 0x7F) | 0x50,
                ..s.r
            })
            &&& byte_of(t.m, sp) == s.r.cc
            &&& byte_of(t.m, sp + 1) == s.r.pc / 256
            &&& byte_of(t.m, sp + 2) == s.r.pc % 256
            &&& forall|a: u16|
                a != sp && a != (sp + 1) % 65536 && a != (sp + 2) % 65536
                    ==> #[trigger] t.m[a as int] == s.m[a as int]
            &&& t.frames.len() == s.frames.len() + 1
            &&& t.frames.last().return_addr == s.r.pc
            &&& t.frames.last().kind == CallKind::Firq
        }),
{
    reveal(Mach::service);
    reveal(Mach::service_firq);
    lemma_short_frame(s);
    lemma_fast(s, s.push16(s.r.pc).push8(s.r.cc));
}

/// PC and CC stand below S.
spec fn short_frame(s: Mach<Memory>, t: Mach<Memory>) -> bool {
    let sp = (s.r.s - 3) % 65536;
    &&& t == (Mach { r: Registers { s: sp as u16, ..s.r }, m: t.m, ..s })
    &&& byte_of(t.m, sp) == s.r.cc
    &&& byte_of(t.m, sp + 1) == s.r.pc / 256
    &&& byte_of(t.m, sp + 2) == s.r.pc % 256
    &&& forall|a: u16|
        a != sp && a != (sp + 1) % 65536 && a != (sp + 2) % 65536 ==> #[trigger] t.m[a as int]
            == s.m[a as int]
}

proof fn lemma_short_frame(s: Mach<Memory>)
    requires
        s.m.len() == 65536,
    ensures
        short_frame(s, s.push16(s.r.pc).push8(s.r.cc)),
{
    let sp = (s.r.s - 3) % 65536;
    assert(offset(s.r.s, -1) == (sp + 2) % 65536);
    assert(offset(offset(s.r.s, -1), -1) == (sp + 1) % 65536);
    assert(offset(offset(offset(s.r.s, -1), -1), -1) == sp);
    assert(sp % 65536 == sp);
    assert(sp != (sp + 1) % 65536 && sp != (sp + 2) % 65536 && (sp + 1) % 65536 != (sp + 2)
        % 65536);
}

proof fn lemma_fast(s: Mach<Memory>, t: Mach<Memory>)
    requires
        short_frame(s, t),
    ensures
        ({
            let u = t.cc(t.r.cc & !0x80u8).vectored(0xFFF6, s.r.pc, s.r.pc, CallKind::Firq);
            &&& u.r == (Registers {
                pc: word_of(u.m, 0xFFF6) as u16,
                cc: (s.r.cc & 0x7F) | 0x50,
                s: t.r.s,
                ..s.r
            })
            &&& u.m == t.m
            &&& u.irq == s.irq
            &&& u.frames.len() == s.frames.len() + 1
            &&& u.frames.last().return_addr == s.r.pc
            &&& u.frames.last().kind == CallKind::Firq
        }),
{
    let cc = s.r.cc;
    assert(cc & !0x80u8 == cc & 0x7F) by (bit_vector);
    assert(offset(0xFFF6, 1) == 0xFFF7);
}

/// The lines of a bus are NMI, FIRQ and IRQ, in this order: what they raise is
/// latched beside what was latched before.
pub proof fn law_lines_latched<B: Bus>(s: Mach<B>)
    ensures
        ({
            let (nmi, firq, irq) = B::irq_val(s.m);
            let t = s.poll();
            &&& t.nmi == (s.nmi || nmi)
            &&& t.firq == (s.firq || firq)
            &&& t.irq == (s.irq || irq)
            &&& t.r == s.r
            &&& t.frames == s.frames
        }),
{
}

/// A reset goes through the vector at `$FFFE` with IRQ and FIRQ masked and DP
/// zero, and forgets the frames; everything else stays.
pub proof fn law_reset(s: Mach<Memory>)
    ensures
        s.restarted() == (Mach::<Memory> {
            r: Registers { pc: word_of(s.m, 0xFFFE) as u16, cc: 0x50, dp: 0, ..s.r },
            frames: Seq::empty(),
            ..s
        }),
{
    assert(offset(0xFFFE, 1) == 0xFFFF);
}

/// CWAI clears the flags that its operand does not name, sets E and stacks
/// every register.
pub proof fn law_wait(s: Mach<Memory>)
    requires
        quiet(s),
        s.m.len() == 65536,
        opcode(s) == 0x3C,
    ensures
        ({
            let t = s.step(false).1;
            let cc = (s.r.cc & (byte_of(s.m, s.r.pc + 1) as u8)) | 0x80;
            let r = Registers { cc, pc: ((s.r.pc + 2) % 65536) as u16, ..s.r };
            &&& t.r == (Registers { s: ((s.r.s - 12) % 65536) as u16, ..r })
            &&& stands(t.m, t.r.s, list_image(0xFF, r))
            &&& kept_above(s, t, 12)
            &&& s.step(false).0 == 20
        }),
{
    lemma_main_step(s);
    let at = at_operand(s);
    assert(offset(at.r.pc, 1) == (s.r.pc + 2) % 65536);
    reveal(Mach::execute);
    reveal(Mach::cwai);
    let imm = byte_of(s.m, s.r.pc + 1) as u8;
    let c = at.fetch8().1.cc((s.r.cc & imm) | 0x80);
    lemma_entire_stacked(c);
    lemma_waits(s, c, c.push_entire(), s.step(false).1);
}

proof fn lemma_waits(s: Mach<Memory>, c: Mach<Memory>, t: Mach<Memory>, u: Mach<Memory>)
    requires
        c.m == s.m,
        c.r.s == s.r.s,
        stacked(c, t, list_image(0xFF, c.r)),
        list_image(0xFF, c.r).len() == 12,
        u.r == t.r,
        u.m == t.m,
    ensures
        u.r == (Registers { s: ((s.r.s - 12) % 65536) as u16, ..c.r }),
        stands(u.m, u.r.s, list_image(0xFF, c.r)),
        kept_above(s, u, 12),
{
    reveal(stacked);
    assert(t.r.s == (s.r.s - 12) % 65536);
}

/// The instructions that stepping over takes for calls are those that push a
/// return address and record a frame.
pub proof fn law_calls_recognised(s: Mach<Memory>)
    ensures
        calls_at::<Memory>(s.m, s.r.pc).0 <==> {
            let instr = s.decode().2;
            instr is Bsr || instr is Lbsr || instr is Jsr || instr is Swi
        },
{
}

/// PSHS, PULS, PSHU and PULU push or pull the list in their operand on S or U,
/// in 5 cycles and one for each byte. RTI is `$3B` and DAA `$19`.
pub proof fn law_stack_opcodes(s: Mach<Memory>)
    requires
        quiet(s),
    ensures
        ({
            let pb = byte_of(s.m, s.r.pc + 1) as u8;
            let u = Mach::<Memory> {
                r: Registers { pc: ((s.r.pc + 2) % 65536) as u16, ..s.r },
                ..s
            };
            let (used, t) = s.step(false);
            let n = list_image(pb, s.r).len();
            &&& opcode(s) == 0x34 ==> t.r == u.push_list(pb).r && t.m == u.push_list(pb).m && used
                == 5 + n
            &&& opcode(s) == 0x35 ==> t.r == u.pull_list(pb).r && t.m == u.pull_list(pb).m && used
                == 5 + n
            &&& opcode(s) == 0x36 ==> t.r == u.upush_list(pb).r && t.m == u.upush_list(pb).m
                && used == 5 + n
            &&& opcode(s) == 0x37 ==> t.r == u.upull_list(pb).r && t.m == u.upull_list(pb).m
                && used == 5 + n
            &&& opcode(s) == 0x3B ==> t.r == at_operand(s).rti().2.r && t.m == s.m && used == if flag(
                s.m[s.r.s as int],
                0x80,
            ) {
                15int
            } else {
                12
            }
            &&& opcode(s) == 0x19 ==> {
                let (a, cc) = crate::alu::daa_result(s.r.cc, s.r.a);
                &&& t.r == (Registers { a, cc, pc: ((s.r.pc + 1) % 65536) as u16, ..s.r })
                &&& t.m == s.m
                &&& used == 2
            }
        }),
{
    if opcode(s) != 0x10 && opcode(s) != 0x11 {
        lemma_main_step(s);
        let pb = byte_of(s.m, s.r.pc + 1) as u8;
        let at = at_operand(s);
        assert(offset(at.r.pc, 1) == (s.r.pc + 2) % 65536);
        lemma_list_count(pb, s.r);
        reveal(Mach::execute);
        if opcode(s) == 0x34 || opcode(s) == 0x36 {
            reveal(Mach::psh);
        } else if opcode(s) == 0x35 || opcode(s) == 0x37 {
            reveal(Mach::pul);
        } else if opcode(s) == 0x19 {
            reveal(Mach::inherent);
        } else if opcode(s) == 0x3B {
            lemma_rti_runs(at);
        }
    }
}

proof fn lemma_list_count(pb: u8, r: Registers)
    ensures
        list_bytes(pb) == list_image(pb, r).len(),
        list_image(pb, r).len() <= 12,
{
    let cc = part(flag(pb, 0x01), seq![r.cc]);
    let a = part(flag(pb, 0x02), seq![r.a]);
    let b = part(flag(pb, 0x04), seq![r.b]);
    let dp = part(flag(pb, 0x08), seq![r.dp]);
    let x = part(flag(pb, 0x10), bytes16(r.x));
    let y = part(flag(pb, 0x20), bytes16(r.y));
    let u = part(flag(pb, 0x40), bytes16(r.u));
    let pc = part(flag(pb, 0x80), bytes16(r.pc));
    assert(cc.len() == listed(pb, 0x01, 1) && a.len() == listed(pb, 0x02, 1));
    assert(b.len() == listed(pb, 0x04, 1) && dp.len() == listed(pb, 0x08, 1));
    assert(x.len() == listed(pb, 0x10, 2) && y.len() == listed(pb, 0x20, 2));
    assert(u.len() == listed(pb, 0x40, 2) && pc.len() == listed(pb, 0x80, 2));
    let words = x + (y + (u + pc));
    assert(words.len() == x.len() + y.len() + u.len() + pc.len());
    assert(list_image(pb, r) == cc + (a + (b + (dp + words))));
}

proof fn lemma_rti_runs(s: Mach<Memory>)
    ensures
        s.rti().2.m == s.m,
        s.rti().0 == if flag(s.m[s.r.s as int], 0x80) {
            15int
        } else {
            12
        },
{
    reveal(Mach::rti);
    reveal(Mach::pull_cc);
    let c = s.pull_cc(true);
    let e = flag(c.r.cc, 0x80);
    lemma_pulls_keep_memory(c, e);
    let c1 = c.pull_a(e);
    lemma_pulls_keep_memory(c1, e);
    let c2 = c1.pull_b(e);
    lemma_pulls_keep_memory(c2, e);
    let c3 = c2.pull_dp(e);
    lemma_pulls_keep_memory(c3, e);
    let c4 = c3.pull_x(e);
    lemma_pulls_keep_memory(c4, e);
    let c5 = c4.pull_y(e);
    lemma_pulls_keep_memory(c5, e);
    let c6 = c5.pull_u(e);
    lemma_pulls_keep_memory(c6, true);
}

proof fn lemma_pulls_keep_memory(s: Mach<Memory>, on: bool)
    ensures
        s.pull_a(on).m == s.m,
        s.pull_b(on).m == s.m,
        s.pull_dp(on).m == s.m,
        s.pull_x(on).m == s.m,
        s.pull_y(on).m == s.m,
        s.pull_u(on).m == s.m,
        s.pull_pc(on).m == s.m,
{
    reveal(Mach::pull_a);
    reveal(Mach::pull_b);
    reveal(Mach::pull_dp);
    reveal(Mach::pull_x);
    reveal(Mach::pull_y);
    reveal(Mach::pull_u);
    reveal(Mach::pull_pc);
}

} // verus!
