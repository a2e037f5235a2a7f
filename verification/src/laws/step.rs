//! A step as a whole: what it counts and what it leaves alone.

use crate::alu::{flag, E, F, I};
use crate::bus::Bus;
use crate::cpu::isa::{page1, page2, page3, small_cycles, Instr, Mode};
use crate::cpu::machine::{exchanged, transferred, Mach};
use crate::cpu::Registers;
use crate::debug::{frames_after_return, frames_after_rti, CallFrame};
use vstd::prelude::*;

verus! {

/// Whether nothing but registers, frames and the bus differs.
#[verifier::opaque]
pub open spec fn aside<B: Bus>(s: Mach<B>, t: Mach<B>) -> bool {
    t == (Mach { r: t.r, frames: t.frames, m: t.m, ..s })
}

proof fn lemma_pushes_aside<B: Bus>(s: Mach<B>, on: bool, b: u8, w: u16)
    ensures
        aside(s, s.push8_if(on, b)),
        aside(s, s.push16_if(on, w)),
        aside(s, s.upush8_if(on, b)),
        aside(s, s.upush16_if(on, w)),
{
    reveal(aside);
}

proof fn lemma_aside_on<B: Bus>(s: Mach<B>, t: Mach<B>, u: Mach<B>)
    requires
        aside(s, t),
        aside(t, u),
    ensures
        aside(s, u),
{
    reveal(aside);
}

proof fn lemma_push_list_aside<B: Bus>(s: Mach<B>, pb: u8)
    ensures
        aside(s, s.push_list(pb)),
{
    let r = s.r;
    let s1 = s.push16_if(flag(pb, 0x80), r.pc);
    lemma_pushes_aside(s, flag(pb, 0x80), 0, r.pc);
    let s2 = s1.push16_if(flag(pb, 0x40), r.u);
    lemma_pushes_aside(s1, flag(pb, 0x40), 0, r.u);
    lemma_aside_on(s, s1, s2);
    let s3 = s2.push16_if(flag(pb, 0x20), r.y);
    lemma_pushes_aside(s2, flag(pb, 0x20), 0, r.y);
    lemma_aside_on(s, s2, s3);
    let s4 = s3.push16_if(flag(pb, 0x10), r.x);
    lemma_pushes_aside(s3, flag(pb, 0x10), 0, r.x);
    lemma_aside_on(s, s3, s4);
    let s5 = s4.push8_if(flag(pb, 0x08), r.dp);
    lemma_pushes_aside(s4, flag(pb, 0x08), r.dp, 0);
    lemma_aside_on(s, s4, s5);
    let s6 = s5.push8_if(flag(pb, 0x04), r.b);
    lemma_pushes_aside(s5, flag(pb, 0x04), r.b, 0);
    lemma_aside_on(s, s5, s6);
    let s7 = s6.push8_if(flag(pb, 0x02), r.a);
    lemma_pushes_aside(s6, flag(pb, 0x02), r.a, 0);
    lemma_aside_on(s, s6, s7);
    let s8 = s7.push8_if(flag(pb, 0x01), r.cc);
    lemma_pushes_aside(s7, flag(pb, 0x01), r.cc, 0);
    lemma_aside_on(s, s7, s8);
}

proof fn lemma_upush_list_aside<B: Bus>(s: Mach<B>, pb: u8)
    ensures
        aside(s, s.upush_list(pb)),
{
    let r = s.r;
    let s1 = s.upush16_if(flag(pb, 0x80), r.pc);
    lemma_pushes_aside(s, flag(pb, 0x80), 0, r.pc);
    let s2 = s1.upush16_if(flag(pb, 0x40), r.s);
    lemma_pushes_aside(s1, flag(pb, 0x40), 0, r.s);
    lemma_aside_on(s, s1, s2);
    let s3 = s2.upush16_if(flag(pb, 0x20), r.y);
    lemma_pushes_aside(s2, flag(pb, 0x20), 0, r.y);
    lemma_aside_on(s, s2, s3);
    let s4 = s3.upush16_if(flag(pb, 0x10), r.x);
    lemma_pushes_aside(s3, flag(pb, 0x10), 0, r.x);
    lemma_aside_on(s, s3, s4);
    let s5 = s4.upush8_if(flag(pb, 0x08), r.dp);
    lemma_pushes_aside(s4, flag(pb, 0x08), r.dp, 0);
    lemma_aside_on(s, s4, s5);
    let s6 = s5.upush8_if(flag(pb, 0x04), r.b);
    lemma_pushes_aside(s5, flag(pb, 0x04), r.b, 0);
    lemma_aside_on(s, s5, s6);
    let s7 = s6.upush8_if(flag(pb, 0x02), r.a);
    lemma_pushes_aside(s6, flag(pb, 0x02), r.a, 0);
    lemma_aside_on(s, s6, s7);
    let s8 = s7.upush8_if(flag(pb, 0x01), r.cc);
    lemma_pushes_aside(s7, flag(pb, 0x01), r.cc, 0);
    lemma_aside_on(s, s7, s8);
}

proof fn lemma_pulls_aside<B: Bus>(s: Mach<B>, on: bool)
    ensures
        aside(s, s.pull_cc(on)),
        aside(s, s.pull_a(on)),
        aside(s, s.pull_b(on)),
        aside(s, s.pull_dp(on)),
        aside(s, s.pull_x(on)),
        aside(s, s.pull_y(on)),
        aside(s, s.pull_u(on)),
        aside(s, s.pull_pc(on)),
{
    reveal(aside);
    reveal(Mach::pull_cc);
    reveal(Mach::pull_a);
    reveal(Mach::pull_b);
    reveal(Mach::pull_dp);
    reveal(Mach::pull_x);
    reveal(Mach::pull_y);
    reveal(Mach::pull_u);
    reveal(Mach::pull_pc);
}

proof fn lemma_upulls_aside<B: Bus>(s: Mach<B>, on: bool, code: u8)
    ensures
        aside(s, s.upull_byte(on, code)),
        aside(s, s.upull_word(on, code)),
{
    reveal(aside);
}

proof fn lemma_frames_aside<B: Bus>(s: Mach<B>, frames: Seq<CallFrame>)
    ensures
        aside(s, (Mach { frames, ..s })),
{
    reveal(aside);
}

proof fn lemma_pull_list_aside<B: Bus>(s: Mach<B>, pb: u8)
    ensures
        aside(s, s.pull_list(pb)),
{
    let s1 = s.pull_cc(flag(pb, 0x01));
    lemma_pulls_aside(s, flag(pb, 0x01));
    let s2 = s1.pull_a(flag(pb, 0x02));
    lemma_pulls_aside(s1, flag(pb, 0x02));
    lemma_aside_on(s, s1, s2);
    let s3 = s2.pull_b(flag(pb, 0x04));
    lemma_pulls_aside(s2, flag(pb, 0x04));
    lemma_aside_on(s, s2, s3);
    let s4 = s3.pull_dp(flag(pb, 0x08));
    lemma_pulls_aside(s3, flag(pb, 0x08));
    lemma_aside_on(s, s3, s4);
    let s5 = s4.pull_x(flag(pb, 0x10));
    lemma_pulls_aside(s4, flag(pb, 0x10));
    lemma_aside_on(s, s4, s5);
    let s6 = s5.pull_y(flag(pb, 0x20));
    lemma_pulls_aside(s5, flag(pb, 0x20));
    lemma_aside_on(s, s5, s6);
    let s7 = s6.pull_u(flag(pb, 0x40));
    lemma_pulls_aside(s6, flag(pb, 0x40));
    lemma_aside_on(s, s6, s7);
    let s8 = s7.pull_pc(flag(pb, 0x80));
    lemma_pulls_aside(s7, flag(pb, 0x80));
    lemma_aside_on(s, s7, s8);
    let frames = frames_after_return(s8.frames, s8.r.s);
    lemma_frames_aside(s8, frames);
    lemma_aside_on(s, s8, Mach { frames, ..s8 });
}

proof fn lemma_upull_list_aside<B: Bus>(s: Mach<B>, pb: u8)
    ensures
        aside(s, s.upull_list(pb)),
{
    let s1 = s.upull_byte(flag(pb, 0x01), 0xA);
    lemma_upulls_aside(s, flag(pb, 0x01), 0xA);
    let s2 = s1.upull_byte(flag(pb, 0x02), 0x8);
    lemma_upulls_aside(s1, flag(pb, 0x02), 0x8);
    lemma_aside_on(s, s1, s2);
    let s3 = s2.upull_byte(flag(pb, 0x04), 0x9);
    lemma_upulls_aside(s2, flag(pb, 0x04), 0x9);
    lemma_aside_on(s, s2, s3);
    let s4 = s3.upull_byte(flag(pb, 0x08), 0xB);
    lemma_upulls_aside(s3, flag(pb, 0x08), 0xB);
    lemma_aside_on(s, s3, s4);
    let s5 = s4.upull_word(flag(pb, 0x10), 0x1);
    lemma_upulls_aside(s4, flag(pb, 0x10), 0x1);
    lemma_aside_on(s, s4, s5);
    let s6 = s5.upull_word(flag(pb, 0x20), 0x2);
    lemma_upulls_aside(s5, flag(pb, 0x20), 0x2);
    lemma_aside_on(s, s5, s6);
    let s7 = s6.upull_word(flag(pb, 0x40), 0x4);
    lemma_upulls_aside(s6, flag(pb, 0x40), 0x4);
    lemma_aside_on(s, s6, s7);
    let s8 = s7.upull_word(flag(pb, 0x80), 0x5);
    lemma_upulls_aside(s7, flag(pb, 0x80), 0x5);
    lemma_aside_on(s, s7, s8);
}

proof fn lemma_rti_aside<B: Bus>(s: Mach<B>)
    ensures
        aside(s, s.rti().2),
        s.rti().0 <= 15,
{
    reveal(Mach::rti);
    let s1 = s.pull_cc(true);
    lemma_pulls_aside(s, true);
    let e = flag(s1.r.cc, E);
    let s2 = s1.pull_a(e);
    lemma_pulls_aside(s1, e);
    lemma_aside_on(s, s1, s2);
    let s3 = s2.pull_b(e);
    lemma_pulls_aside(s2, e);
    lemma_aside_on(s, s2, s3);
    let s4 = s3.pull_dp(e);
    lemma_pulls_aside(s3, e);
    lemma_aside_on(s, s3, s4);
    let s5 = s4.pull_x(e);
    lemma_pulls_aside(s4, e);
    lemma_aside_on(s, s4, s5);
    let s6 = s5.pull_y(e);
    lemma_pulls_aside(s5, e);
    lemma_aside_on(s, s5, s6);
    let s7 = s6.pull_u(e);
    lemma_pulls_aside(s6, e);
    lemma_aside_on(s, s6, s7);
    let s8 = s7.pull_pc(true);
    lemma_pulls_aside(s7, true);
    lemma_aside_on(s, s7, s8);
    let frames = frames_after_rti(s8.frames);
    lemma_frames_aside(s8, frames);
    lemma_aside_on(s, s8, Mach { frames, ..s8 });
}

proof fn lemma_index_aside<B: Bus>(s: Mach<B>)
    ensures
        aside(s, s.ea_indexed().3),
        s.ea_indexed().1 <= 8,
{
    reveal(aside);
    reveal(Mach::ea_indexed);
}

proof fn lemma_operand_aside<B: Bus>(s: Mach<B>, mode: Mode)
    ensures
        aside(s, s.ea(mode).3),
        aside(s, s.operand8(mode).3),
        aside(s, s.operand16(mode).3),
        s.ea(mode).1 <= 8,
        s.operand8(mode).1 <= 8,
        s.operand16(mode).1 <= 8,
{
    reveal(aside);
    lemma_index_aside(s);
}

proof fn lemma_operands_aside<B: Bus>(s: Mach<B>, instr: Instr, site: u16)
    requires
        instr is Alu || instr is StoreAcc || instr is Mem || instr is Load16 || instr is Store16,
    ensures
        aside(s, s.execute(instr, site).2),
        small_cycles(instr) ==> s.execute(instr, site).0 <= 20,
{
    reveal(aside);
    reveal(Mach::execute);
    match instr {
        Instr::Alu { op, acc, mode } => {
            reveal(Mach::alu);
            lemma_operand_aside(s, mode);
        },
        Instr::StoreAcc { acc, mode } => {
            reveal(Mach::store_acc);
            lemma_operand_aside(s, mode);
        },
        Instr::Mem { unary, mode } => {
            reveal(Mach::mem);
            lemma_operand_aside(s, mode);
        },
        Instr::Load16 { reg, mode, cycles } => {
            reveal(Mach::load16);
            lemma_operand_aside(s, mode);
        },
        Instr::Store16 { reg, mode, cycles } => {
            reveal(Mach::store16);
            lemma_operand_aside(s, mode);
        },
        _ => {},
    }
}

proof fn lemma_words_aside<B: Bus>(s: Mach<B>, instr: Instr, site: u16)
    requires
        instr is Compare16 || instr is AddD || instr is SubD || instr is Jmp || instr is Jsr,
    ensures
        aside(s, s.execute(instr, site).2),
        small_cycles(instr) ==> s.execute(instr, site).0 <= 20,
{
    reveal(aside);
    reveal(Mach::execute);
    match instr {
        Instr::Compare16 { reg, mode, cycles } => {
            reveal(Mach::compare16);
            lemma_operand_aside(s, mode);
        },
        Instr::AddD { mode, cycles } => {
            reveal(Mach::arith_d);
            lemma_operand_aside(s, mode);
        },
        Instr::SubD { mode, cycles } => {
            reveal(Mach::arith_d);
            lemma_operand_aside(s, mode);
        },
        Instr::Jmp { mode } => {
            reveal(Mach::jmp);
            lemma_operand_aside(s, mode);
        },
        Instr::Jsr { mode } => {
            reveal(Mach::jsr);
            lemma_operand_aside(s, mode);
        },
        _ => {},
    }
}

proof fn lemma_flow_aside<B: Bus>(s: Mach<B>, instr: Instr, site: u16)
    requires
        instr is Branch || instr is LongBranch || instr is Lbra || instr is Bsr || instr is Lbsr || instr is Rts || instr is Swi,
    ensures
        aside(s, s.execute(instr, site).2),
        small_cycles(instr) ==> s.execute(instr, site).0 <= 20,
{
    reveal(aside);
    reveal(Mach::execute);
    match instr {
        Instr::Branch { code } => {
            reveal(Mach::branch);
        },
        Instr::LongBranch { code } => {
            reveal(Mach::long_branch);
        },
        Instr::Lbra => {
            reveal(Mach::lbra);
        },
        Instr::Bsr => {
            reveal(Mach::bsr);
        },
        Instr::Lbsr => {
            reveal(Mach::lbsr);
        },
        Instr::Rts => {
            reveal(Mach::rts);
        },
        Instr::Swi { n } => {
            reveal(Mach::swi);
        },
        _ => {},
    }
}

/// An instruction changes registers, frames and the bus, and nothing else. It
/// takes few cycles.
pub proof fn law_execute_aside<B: Bus>(s: Mach<B>, instr: Instr, site: u16)
    ensures
        aside(s, s.execute(instr, site).2),
        small_cycles(instr) ==> s.execute(instr, site).0 <= 20,
{
    match instr {
        Instr::Alu { op, acc, mode } => lemma_operands_aside(s, instr, site),
        Instr::StoreAcc { acc, mode } => lemma_operands_aside(s, instr, site),
        Instr::Mem { unary, mode } => lemma_operands_aside(s, instr, site),
        Instr::Load16 { reg, mode, cycles } => lemma_operands_aside(s, instr, site),
        Instr::Store16 { reg, mode, cycles } => lemma_operands_aside(s, instr, site),
        Instr::Compare16 { reg, mode, cycles } => lemma_words_aside(s, instr, site),
        Instr::AddD { mode, cycles } => lemma_words_aside(s, instr, site),
        Instr::SubD { mode, cycles } => lemma_words_aside(s, instr, site),
        Instr::Jmp { mode } => lemma_words_aside(s, instr, site),
        Instr::Jsr { mode } => lemma_words_aside(s, instr, site),
        Instr::Branch { code } => lemma_flow_aside(s, instr, site),
        Instr::LongBranch { code } => lemma_flow_aside(s, instr, site),
        Instr::Lbra | Instr::Bsr | Instr::Lbsr | Instr::Rts => lemma_flow_aside(s, instr, site),
        Instr::Swi { n } => lemma_flow_aside(s, instr, site),
        _ => lemma_others_aside(s, instr, site),
    }
}

proof fn lemma_others_aside<B: Bus>(s: Mach<B>, instr: Instr, site: u16)
    requires
        instr is Accum || instr is Lea || instr is Push || instr is Pull || instr is Rti || instr
            is Cwai || instr is Sync || instr is Nop || instr is Abx || instr is Mul || instr is Daa
            || instr is Sex || instr is Exg || instr is Tfr || instr is OrCc || instr is AndCc
            || instr is Unknown || instr is UnknownPrefixed,
    ensures
        aside(s, s.execute(instr, site).2),
        s.execute(instr, site).0 <= 20,
{
    reveal(Mach::execute);
    match instr {
        Instr::Accum { unary, acc } => {
            reveal(aside);
            reveal(Mach::accum);
        },
        Instr::Lea { reg } => {
            reveal(aside);
            reveal(Mach::lea);
            lemma_index_aside(s);
        },
        Instr::Push { user } => {
            reveal(Mach::psh);
            let (pb, t) = s.fetch8();
            lemma_fetch_aside(s);
            lemma_push_list_aside(t, pb);
            lemma_upush_list_aside(t, pb);
            lemma_aside_on(s, t, t.push_list(pb));
            lemma_aside_on(s, t, t.upush_list(pb));
        },
        Instr::Pull { user } => {
            reveal(Mach::pul);
            let (pb, t) = s.fetch8();
            lemma_fetch_aside(s);
            lemma_pull_list_aside(t, pb);
            lemma_upull_list_aside(t, pb);
            lemma_aside_on(s, t, t.pull_list(pb));
            lemma_aside_on(s, t, t.upull_list(pb));
        },
        Instr::Rti => {
            lemma_rti_aside(s);
        },
        Instr::Cwai => {
            reveal(aside);
            reveal(Mach::cwai);
        },
        Instr::Abx | Instr::Mul | Instr::Daa | Instr::Sex => {
            reveal(aside);
            reveal(Mach::inherent);
        },
        Instr::Exg | Instr::Tfr | Instr::OrCc | Instr::AndCc => {
            reveal(aside);
            reveal(Mach::with_postbyte);
        },
        _ => {
            reveal(aside);
        },
    }
}

proof fn lemma_fetch_aside<B: Bus>(s: Mach<B>)
    ensures
        aside(s, s.fetch8().1),
{
    reveal(aside);
}

proof fn lemma_service_cycles<B: Bus>(s: Mach<B>)
    ensures
        s.service().1.cycles == s.cycles,
        s.service().0 <= 19,
{
    reveal(Mach::service);
    reveal(Mach::service_nmi);
    reveal(Mach::service_firq);
    reveal(Mach::service_irq);
}

/// The cycle counter advances by what a step returns, modulo 2 to the 64th.
pub proof fn law_step_counts_cycles<B: Bus>(s: Mach<B>, trace: bool)
    ensures
        s.step(trace).1.cycles == (s.cycles + s.step(trace).0) % 0x1_0000_0000_0000_0000,
{
    let (prefix, op, instr, s1) = s.decode();
    lemma_small_cycles(op);
    law_execute_aside(s1, instr, s.r.pc);
    let (used, o, s2) = s1.execute(instr, s.r.pc);
    let s3 = s2.logged(
        trace,
        crate::cpu::trace::trace_text(s.r.pc, prefix, op, instr, o),
    ).spend(used).poll();
    lemma_service_cycles(s3);
    assert(s2.cycles == s.cycles) by {
        reveal(aside);
    }
}

proof fn lemma_small_cycles(op: u8)
    ensures
        small_cycles(page1(op)),
        small_cycles(page2(op)),
        small_cycles(page3(op)),
{
}

/// Whether two machines differ in their logs only.
#[verifier::opaque]
pub open spec fn but_log<B: Bus>(s: Mach<B>, t: Mach<B>) -> bool {
    t == (Mach { log: t.log, ..s })
}

proof fn lemma_push_but_log<B: Bus>(s: Mach<B>, t: Mach<B>, b: u8, w: u16)
    requires
        but_log(s, t),
    ensures
        but_log(s.push8(b), t.push8(b)),
        but_log(s.push16(w), t.push16(w)),
        s.r == t.r,
{
    reveal(but_log);
}

proof fn lemma_entire_but_log<B: Bus>(s: Mach<B>, t: Mach<B>)
    requires
        but_log(s, t),
    ensures
        but_log(s.push_entire(), t.push_entire()),
{
    let r = s.r;
    let (s1, t1) = (s.push16(r.pc), t.push16(r.pc));
    lemma_push_but_log(s, t, 0, r.pc);
    let (s2, t2) = (s1.push16(r.u), t1.push16(r.u));
    lemma_push_but_log(s1, t1, 0, r.u);
    let (s3, t3) = (s2.push16(r.y), t2.push16(r.y));
    lemma_push_but_log(s2, t2, 0, r.y);
    let (s4, t4) = (s3.push16(r.x), t3.push16(r.x));
    lemma_push_but_log(s3, t3, 0, r.x);
    let (s5, t5) = (s4.push8(r.dp), t4.push8(r.dp));
    lemma_push_but_log(s4, t4, r.dp, 0);
    let (s6, t6) = (s5.push8(r.b), t5.push8(r.b));
    lemma_push_but_log(s5, t5, r.b, 0);
    let (s7, t7) = (s6.push8(r.a), t6.push8(r.a));
    lemma_push_but_log(s6, t6, r.a, 0);
    lemma_push_but_log(s7, t7, r.cc, 0);
}

proof fn lemma_vectored_but_log<B: Bus>(
    s: Mach<B>,
    t: Mach<B>,
    vector: u16,
    site: u16,
    ret: u16,
    kind: crate::debug::CallKind,
)
    requires
        but_log(s, t),
    ensures
        but_log(s.vectored(vector, site, ret, kind), t.vectored(vector, site, ret, kind)),
{
    reveal(but_log);
}

proof fn lemma_interrupted_but_log<B: Bus>(
    s: Mach<B>,
    t: Mach<B>,
    vector: u16,
    site: u16,
    kind: crate::debug::CallKind,
)
    requires
        but_log(s, t),
    ensures
        but_log(s.interrupted(vector, site, kind), t.interrupted(vector, site, kind)),
{
    let (s1, t1) = (s.cc(s.r.cc | 0x80), t.cc(s.r.cc | 0x80));
    assert(but_log(s1, t1) && s.r == t.r) by {
        reveal(but_log);
    }
    lemma_entire_but_log(s1, t1);
    lemma_vectored_but_log(s1.push_entire(), t1.push_entire(), vector, site, s.r.pc, kind);
}

proof fn lemma_service_but_log<B: Bus>(s: Mach<B>, t: Mach<B>)
    requires
        but_log(s, t),
    ensures
        t.service().0 == s.service().0,
        but_log(s.service().1, t.service().1),
{
    reveal(Mach::service);
    assert(s.r == t.r && s.nmi == t.nmi && s.firq == t.firq && s.irq == t.irq) by {
        reveal(but_log);
    }
    if s.nmi {
        lemma_interrupted_but_log(s, t, 0xFFFC, s.r.pc, crate::debug::CallKind::Nmi);
        reveal(Mach::service_nmi);
        reveal(but_log);
    } else if s.firq && !flag(s.r.cc, F) {
        reveal(Mach::service_firq);
        let (s1, t1) = (s.push16(s.r.pc), t.push16(s.r.pc));
        lemma_push_but_log(s, t, 0, s.r.pc);
        let (s2, t2) = (s1.push8(s.r.cc), t1.push8(s.r.cc));
        lemma_push_but_log(s1, t1, s.r.cc, 0);
        let (s3, t3) = (s2.cc(s2.r.cc & !0x80u8), t2.cc(s2.r.cc & !0x80u8));
        assert(but_log(s3, t3) && s2.r == t2.r) by {
            reveal(but_log);
        }
        lemma_vectored_but_log(
            s3,
            t3,
            0xFFF6,
            s.r.pc,
            s.r.pc,
            crate::debug::CallKind::Firq,
        );
        reveal(but_log);
    } else if s.irq && !flag(s.r.cc, I) {
        lemma_interrupted_but_log(s, t, 0xFFF8, s.r.pc, crate::debug::CallKind::Irq);
        reveal(Mach::service_irq);
        reveal(but_log);
    }
}

/// Tracing changes nothing but the log.
pub proof fn law_trace_only_logs<B: Bus>(s: Mach<B>)
    ensures
        s.step(true).0 == s.step(false).0,
        but_log(s.step(false).1, s.step(true).1),
{
    let (prefix, op, instr, s1) = s.decode();
    let (used, o, s2) = s1.execute(instr, s.r.pc);
    let line = crate::cpu::trace::trace_text(s.r.pc, prefix, op, instr, o);
    let quiet = s2.logged(false, line).spend(used).poll();
    let traced = s2.logged(true, line).spend(used).poll();
    assert(but_log(quiet, traced)) by {
        reveal(but_log);
    }
    lemma_service_but_log(quiet, traced);
    reveal(but_log);
}

/// EXG is its own inverse.
pub proof fn law_exchange_twice(r: Registers, pb: u8)
    ensures
        exchanged(exchanged(r, pb), pb) == r,
{
}

/// TFR a second time changes nothing.
pub proof fn law_transfer_twice(r: Registers, pb: u8)
    ensures
        transferred(transferred(r, pb), pb) == transferred(r, pb),
{
}

} // verus!
