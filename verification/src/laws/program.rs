//! Programs: the listing and the CPU agree on where instructions end, and the
//! order of interrupts.

use crate::alu::{flag, offset, signed8, F, I};
use crate::bus::Memory;
use crate::cpu::isa::{page1, page2, page3, Instr, Mode};
use crate::cpu::machine::{IndexDesc, Mach};
use crate::disasm::{
    disassembled, indexed_operand, instruction, long_text, mode_text, operand, short_text, Operand,
};
use crate::laws::step::{aside, law_execute_aside};
use vstd::prelude::*;

verus! {

/// The main opcode page has 33 codes that stand for no instruction, and the two
/// prefixes.
pub proof fn law_reserved_opcodes(op: u8)
    ensures
        page1(op) is Unknown <==> {
            ||| op == 0x01 || op == 0x02 || op == 0x05 || op == 0x0B
            ||| op == 0x10 || op == 0x11 || op == 0x14 || op == 0x15 || op == 0x18 || op == 0x1B
            ||| op == 0x38 || op == 0x3E
            ||| op == 0x41 || op == 0x42 || op == 0x45 || op == 0x4B || op == 0x4E
            ||| op == 0x51 || op == 0x52 || op == 0x55 || op == 0x5B || op == 0x5E
            ||| op == 0x61 || op == 0x62 || op == 0x65 || op == 0x6B
            ||| op == 0x71 || op == 0x72 || op == 0x75 || op == 0x7B
            ||| op == 0x87 || op == 0x8F || op == 0xC7 || op == 0xCD || op == 0xCF
        },
{
}

/// Whether EXG with postbyte `pb` writes PC, or TFR where `one_way` is set.
pub open spec fn moves_pc(pb: u8, one_way: bool) -> bool {
    let src = pb / 16;
    let dst = pb % 16;
    (dst == 5 && src <= 5) || (!one_way && src == 5 && dst <= 5)
}

/// Whether the program goes on with the next instruction behind `instr`; `pb`
/// is the byte behind its opcode.
pub open spec fn goes_on(instr: Instr, pb: u8) -> bool {
    match instr {
        Instr::Alu { op, acc, mode } => true,
        Instr::StoreAcc { acc, mode } => true,
        Instr::Mem { unary, mode } => true,
        Instr::Accum { unary, acc } => true,
        Instr::Load16 { reg, mode, cycles } => true,
        Instr::Store16 { reg, mode, cycles } => true,
        Instr::Compare16 { reg, mode, cycles } => true,
        Instr::AddD { mode, cycles } => true,
        Instr::SubD { mode, cycles } => true,
        Instr::Lea { reg } => true,
        Instr::Push { user } => true,
        Instr::Pull { user } => !flag(pb, 0x80),
        Instr::Cwai | Instr::Sync | Instr::Nop => true,
        Instr::Abx | Instr::Mul | Instr::Daa | Instr::Sex => true,
        Instr::OrCc | Instr::AndCc => true,
        Instr::Exg => !moves_pc(pb, false),
        Instr::Tfr => !moves_pc(pb, true),
        Instr::Unknown | Instr::UnknownPrefixed => true,
        _ => false,
    }
}

/// The number of bytes that the operand at `at` takes.
pub open spec fn operand_len(m: Seq<u8>, at: u16, mode: Mode, wide: bool) -> int {
    match mode {
        Mode::Imm => if wide {
            2
        } else {
            1
        },
        Mode::Direct => 1,
        Mode::Indexed => indexed_operand::<Memory>(m, at).0 as int,
        Mode::Extended => 2,
    }
}

/// The number of bytes of an indexed operand with postbyte `pb`.
pub open spec fn index_bytes(pb: u8) -> int {
    if pb < 0x80 {
        1
    } else if pb % 16 == 0x8 || pb % 16 == 0xC {
        2
    } else if pb % 16 == 0x9 || pb % 16 == 0xD || pb % 16 == 0xF {
        3
    } else {
        1
    }
}

proof fn lemma_index_listed(m: Seq<u8>, pc: u16)
    ensures
        indexed_operand::<Memory>(m, pc).0 == index_bytes(m[pc as int]),
{
}

proof fn lemma_index_at(s: Mach<Memory>)
    ensures
        forall|addr: u16, indirect: bool, extra: u32, desc: IndexDesc|
            #![trigger s.indexed_at(addr, indirect, extra, desc)]
            s.indexed_at(addr, indirect, extra, desc).3.r == s.r && s.indexed_at(
                addr,
                indirect,
                extra,
                desc,
            ).3.frames == s.frames,
{
}

proof fn lemma_index_fetched(s: Mach<Memory>)
    ensures
        s.ea_indexed().3.r.pc == offset(s.r.pc, index_bytes(s.m[s.r.pc as int])),
        s.ea_indexed().3.frames == s.frames,
{
    reveal(Mach::ea_indexed);
    let (pb, t) = s.fetch8();
    lemma_index_at(t);
    lemma_index_at(t.fetch8().1);
    lemma_index_at(t.fetch16().1);
    lemma_offsets(s.r.pc, 1, 1);
    lemma_offsets(s.r.pc, 2, 1);
}

proof fn lemma_indexed_len(s: Mach<Memory>)
    ensures
        s.ea_indexed().3.r.pc == offset(
            s.r.pc,
            indexed_operand::<Memory>(s.m, s.r.pc).0 as int,
        ),
        1 <= indexed_operand::<Memory>(s.m, s.r.pc).0 <= 3,
{
    lemma_index_listed(s.m, s.r.pc);
    lemma_index_fetched(s);
}

proof fn lemma_ea_len(s: Mach<Memory>, mode: Mode)
    requires
        mode != Mode::Imm,
    ensures
        s.ea(mode).3.r.pc == offset(s.r.pc, operand_len(s.m, s.r.pc, mode, true)),
        1 <= operand_len(s.m, s.r.pc, mode, true) <= 3,
        operand_len(s.m, s.r.pc, mode, false) == operand_len(s.m, s.r.pc, mode, true),
{
    if mode == Mode::Indexed {
        lemma_indexed_len(s);
    }
}

proof fn lemma_operand8_len(s: Mach<Memory>, mode: Mode)
    ensures
        s.operand8(mode).3.r.pc == offset(s.r.pc, operand_len(s.m, s.r.pc, mode, false)),
        1 <= operand_len(s.m, s.r.pc, mode, false) <= 3,
{
    if mode != Mode::Imm {
        lemma_ea_len(s, mode);
    }
}

proof fn lemma_operand16_len(s: Mach<Memory>, mode: Mode)
    ensures
        s.operand16(mode).3.r.pc == offset(s.r.pc, operand_len(s.m, s.r.pc, mode, true)),
        1 <= operand_len(s.m, s.r.pc, mode, true) <= 3,
{
    if mode != Mode::Imm {
        lemma_ea_len(s, mode);
    }
}

/// Where the operand of an instruction ends; `s` is the machine behind the
/// opcode.
pub open spec fn operand_end(s: Mach<Memory>, instr: Instr) -> u16 {
    match operand(instr) {
        Operand::Nothing => s.r.pc,
        Operand::Moded { mode, wide } => offset(
            s.r.pc,
            operand_len(s.m, s.r.pc, mode, wide),
        ),
        Operand::Short | Operand::Registers => offset(s.r.pc, 1),
        Operand::Long => offset(s.r.pc, 2),
    }
}

proof fn lemma_runs_on(s: Mach<Memory>, instr: Instr, site: u16)
    requires
        goes_on(instr, s.m[s.r.pc as int]),
        instr matches Instr::Mem { unary, mode } ==> mode != Mode::Imm,
        instr matches Instr::StoreAcc { acc, mode } ==> mode != Mode::Imm,
        instr matches Instr::Store16 { reg, mode, cycles } ==> mode != Mode::Imm,
    ensures
        s.execute(instr, site).2.r.pc == operand_end(s, instr),
{
    reveal(Mach::execute);
    match instr {
        Instr::Alu { op, acc, mode } => {
            reveal(Mach::alu);
            lemma_operand8_len(s, mode);
        },
        Instr::StoreAcc { acc, mode } => {
            reveal(Mach::store_acc);
            lemma_ea_len(s, mode);
        },
        Instr::Mem { unary, mode } => {
            reveal(Mach::mem);
            lemma_ea_len(s, mode);
        },
        Instr::Accum { unary, acc } => {
            reveal(Mach::accum);
        },
        Instr::Load16 { reg, mode, cycles } => {
            reveal(Mach::load16);
            lemma_operand16_len(s, mode);
        },
        Instr::Store16 { reg, mode, cycles } => {
            reveal(Mach::store16);
            lemma_ea_len(s, mode);
        },
        Instr::Compare16 { reg, mode, cycles } => {
            reveal(Mach::compare16);
            lemma_operand16_len(s, mode);
        },
        Instr::AddD { mode, cycles } => {
            reveal(Mach::arith_d);
            lemma_operand16_len(s, mode);
        },
        Instr::SubD { mode, cycles } => {
            reveal(Mach::arith_d);
            lemma_operand16_len(s, mode);
        },
        Instr::Lea { reg } => {
            reveal(Mach::lea);
            lemma_indexed_len(s);
        },
        Instr::Push { user } => {
            reveal(Mach::psh);
            let t = s.fetch8().1;
            lemma_push_keeps_pc(t, s.fetch8().0);
        },
        Instr::Pull { user } => {
            reveal(Mach::pul);
            let t = s.fetch8().1;
            lemma_pull_keeps_pc(t, s.fetch8().0);
            lemma_upull_keeps_pc(t, s.fetch8().0);
        },
        Instr::Cwai => {
            reveal(Mach::cwai);
        },
        Instr::Abx | Instr::Mul | Instr::Daa | Instr::Sex => {
            reveal(Mach::inherent);
        },
        Instr::OrCc | Instr::AndCc | Instr::Exg | Instr::Tfr => {
            reveal(Mach::with_postbyte);
        },
        _ => {},
    }
}

proof fn lemma_push_keeps_pc(s: Mach<Memory>, pb: u8)
    ensures
        s.push_list(pb).r.pc == s.r.pc,
        s.upush_list(pb).r.pc == s.r.pc,
{
    let r = s.r;
    let a = s.push16_if(flag(pb, 0x80), r.pc).push16_if(flag(pb, 0x40), r.u).push16_if(
        flag(pb, 0x20),
        r.y,
    ).push16_if(flag(pb, 0x10), r.x);
    assert(a.r.pc == r.pc);
    assert(s.push_list(pb).r.pc == a.r.pc);
    let b = s.upush16_if(flag(pb, 0x80), r.pc).upush16_if(flag(pb, 0x40), r.s).upush16_if(
        flag(pb, 0x20),
        r.y,
    ).upush16_if(flag(pb, 0x10), r.x);
    assert(b.r.pc == r.pc);
    assert(s.upush_list(pb).r.pc == b.r.pc);
}

proof fn lemma_pulls_keep_pc(s: Mach<Memory>, on: bool)
    ensures
        s.pull_cc(on).r.pc == s.r.pc,
        s.pull_a(on).r.pc == s.r.pc,
        s.pull_b(on).r.pc == s.r.pc,
        s.pull_dp(on).r.pc == s.r.pc,
        s.pull_x(on).r.pc == s.r.pc,
        s.pull_y(on).r.pc == s.r.pc,
        s.pull_u(on).r.pc == s.r.pc,
        s.pull_pc(false) == s,
{
    reveal(Mach::pull_cc);
    reveal(Mach::pull_a);
    reveal(Mach::pull_b);
    reveal(Mach::pull_dp);
    reveal(Mach::pull_x);
    reveal(Mach::pull_y);
    reveal(Mach::pull_u);
    reveal(Mach::pull_pc);
}

proof fn lemma_pull_keeps_pc(s: Mach<Memory>, pb: u8)
    requires
        !flag(pb, 0x80),
    ensures
        s.pull_list(pb).r.pc == s.r.pc,
{
    lemma_pulls_keep_pc(s, flag(pb, 0x01));
    let s1 = s.pull_cc(flag(pb, 0x01));
    lemma_pulls_keep_pc(s1, flag(pb, 0x02));
    let s2 = s1.pull_a(flag(pb, 0x02));
    lemma_pulls_keep_pc(s2, flag(pb, 0x04));
    let s3 = s2.pull_b(flag(pb, 0x04));
    lemma_pulls_keep_pc(s3, flag(pb, 0x08));
    let s4 = s3.pull_dp(flag(pb, 0x08));
    lemma_pulls_keep_pc(s4, flag(pb, 0x10));
    let s5 = s4.pull_x(flag(pb, 0x10));
    lemma_pulls_keep_pc(s5, flag(pb, 0x20));
    let s6 = s5.pull_y(flag(pb, 0x20));
    lemma_pulls_keep_pc(s6, flag(pb, 0x40));
    let s7 = s6.pull_u(flag(pb, 0x40));
    lemma_pulls_keep_pc(s7, false);
}

proof fn lemma_upull_bytes_keep_pc(s: Mach<Memory>, pb: u8)
    ensures
        ({
            let t = s.upull_byte(flag(pb, 0x01), 0xA).upull_byte(flag(pb, 0x02), 0x8).upull_byte(
                flag(pb, 0x04),
                0x9,
            ).upull_byte(flag(pb, 0x08), 0xB);
            t.r.pc == s.r.pc
        }),
{
}

proof fn lemma_upull_keeps_pc(s: Mach<Memory>, pb: u8)
    requires
        !flag(pb, 0x80),
    ensures
        s.upull_list(pb).r.pc == s.r.pc,
{
    lemma_upull_bytes_keep_pc(s, pb);
    let t = s.upull_byte(flag(pb, 0x01), 0xA).upull_byte(flag(pb, 0x02), 0x8).upull_byte(
        flag(pb, 0x04),
        0x9,
    ).upull_byte(flag(pb, 0x08), 0xB);
    lemma_upull_words_keep_pc(t, pb);
}

proof fn lemma_upull_words_keep_pc(s: Mach<Memory>, pb: u8)
    ensures
        s.upull_word(flag(pb, 0x10), 0x1).upull_word(flag(pb, 0x20), 0x2).upull_word(
            flag(pb, 0x40),
            0x4,
        ).r.pc == s.r.pc,
{
}

proof fn lemma_offsets(a: u16, n: int, k: int)
    requires
        0 <= n < 16,
        0 <= k < 16,
    ensures
        offset(offset(a, n), k) == offset(a, n + k),
{
}

proof fn lemma_instruction_len(s: Mach<Memory>, pc: u16, n: u16, instr: Instr)
    requires
        1 <= n <= 2,
        s.r.pc == offset(pc, n as int),
        operand(instr) is Short || operand(instr) is Registers ==> n == 1,
    ensures
        offset(pc, instruction::<Memory>(s.m, pc, n, instr).0 as int) == operand_end(s, instr),
        n <= instruction::<Memory>(s.m, pc, n, instr).0 <= 5,
{
    reveal(mode_text);
    reveal(short_text);
    reveal(long_text);
    match operand(instr) {
        Operand::Moded { mode, wide } => {
            if mode == Mode::Indexed {
                lemma_indexed_len(s);
            }
            lemma_offsets(pc, n as int, operand_len(s.m, s.r.pc, mode, wide));
        },
        Operand::Nothing => {},
        Operand::Long => {
            lemma_offsets(pc, n as int, 2);
        },
        _ => {
            lemma_offsets(pc, n as int, 1);
        },
    }
}

proof fn lemma_decoded(s: Mach<Memory>)
    ensures
        ({
            let (prefix, op, instr, t) = s.decode();
            let len = disassembled::<Memory>(s.m, s.r.pc).0;
            &&& t.m == s.m
            &&& offset(s.r.pc, len as int) == operand_end(t, instr)
            &&& 1 <= len <= 5
            &&& (instr matches Instr::Mem { unary, mode } ==> mode != Mode::Imm)
            &&& (instr matches Instr::StoreAcc { acc, mode } ==> mode != Mode::Imm)
            &&& (instr matches Instr::Store16 { reg, mode, cycles } ==> mode != Mode::Imm)
        }),
{
    reveal(disassembled);
    let (prefix, op, instr, t) = s.decode();
    if prefix == 0 {
        lemma_instruction_len(t, s.r.pc, 1, instr);
    } else {
        lemma_offsets(s.r.pc, 1, 1);
        lemma_instruction_len(t, s.r.pc, 2, instr);
    }
}

proof fn lemma_listed_ends(s: Mach<Memory>)
    requires
        goes_on(s.decode().2, s.m[s.decode().3.r.pc as int]),
    ensures
        s.decode().3.execute(s.decode().2, s.r.pc).2.r.pc == offset(
            s.r.pc,
            disassembled::<Memory>(s.m, s.r.pc).0 as int,
        ),
{
    lemma_decoded(s);
    lemma_runs_on(s.decode().3, s.decode().2, s.r.pc);
}

/// The length in the listing is the number of bytes that the CPU goes past: a
/// step over anything that does not write PC, with no interrupt latched, leaves
/// PC on the next line.
pub proof fn law_listing_follows_cpu(s: Mach<Memory>, trace: bool)
    requires
        goes_on(s.decode().2, s.m[s.decode().3.r.pc as int]),
        !s.nmi && !s.firq && !s.irq,
    ensures
        s.step(trace).1.r.pc == offset(
            s.r.pc,
            disassembled::<Memory>(s.m, s.r.pc).0 as int,
        ),
{
    lemma_listed_ends(s);
    let (prefix, op, instr, t) = s.decode();
    law_execute_aside(t, instr, s.r.pc);
    reveal(aside);
    reveal(Mach::service);
}

/// The return address of a call is the next line of the listing, so that
/// stepping over the call ends behind it.
pub proof fn law_call_returns_to_next_line(s: Mach<Memory>)
    requires
        s.decode().2 is Bsr || s.decode().2 is Lbsr || s.decode().2 is Jsr || s.decode().2 is Swi,
    ensures
        ({
            let t = s.decode().3.execute(s.decode().2, s.r.pc).2;
            let frame = t.frames.last();
            &&& t.frames.len() == s.frames.len() + 1
            &&& frame.call_site == s.r.pc
            &&& frame.target == t.r.pc
            &&& frame.return_addr == offset(
                s.r.pc,
                disassembled::<Memory>(s.m, s.r.pc).0 as int,
            )
        }),
{
    lemma_decoded(s);
    let (prefix, op, instr, t) = s.decode();
    reveal(Mach::execute);
    match instr {
        Instr::Bsr => {
            reveal(Mach::bsr);
        },
        Instr::Lbsr => {
            reveal(Mach::lbsr);
            lemma_offsets(t.r.pc, 1, 1);
        },
        Instr::Jsr { mode } => {
            reveal(Mach::jsr);
            lemma_jsr_mode(op);
            lemma_ea_len(t, mode);
            lemma_ea_keeps_frames(t, mode);
        },
        _ => {
            reveal(Mach::swi);
        },
    }
}

proof fn lemma_jsr_mode(op: u8)
    ensures
        page1(op) matches Instr::Jsr { mode } ==> mode != Mode::Imm,
        !(page2(op) is Jsr),
        !(page3(op) is Jsr),
{
}

proof fn lemma_ea_keeps_frames(s: Mach<Memory>, mode: Mode)
    ensures
        s.ea(mode).3.frames == s.frames,
{
    lemma_index_fetched(s);
}

/// A branch that is not taken goes on with the next line; one that is taken
/// goes to the address that the listing shows.
pub proof fn law_branch_target(s: Mach<Memory>)
    requires
        s.decode().2 is Branch,
    ensures
        ({
            let t = s.decode().3.execute(s.decode().2, s.r.pc).2;
            let next = offset(s.r.pc, 2);
            let shown = offset(s.r.pc, 2 + signed8(s.m[offset(s.r.pc, 1) as int]));
            t.r.pc == if crate::alu::condition(s.decode().2->Branch_code, s.r.cc) {
                shown
            } else {
                next
            }
        }),
{
    reveal(Mach::execute);
    reveal(Mach::branch);
    lemma_offsets(s.r.pc, 1, 1);
}

/// At most one interrupt is taken: NMI before FIRQ before IRQ, and the masks
/// hold back the latter two.
pub proof fn law_interrupt_order(s: Mach<Memory>)
    ensures
        s.nmi ==> s.service() == (19u32, s.service_nmi()),
        !s.nmi && s.firq && !flag(s.r.cc, F) ==> s.service() == (10u32, s.service_firq()),
        !s.nmi && (!s.firq || flag(s.r.cc, F)) && s.irq && !flag(s.r.cc, I) ==> s.service() == (
            19u32,
            s.service_irq(),
        ),
        !s.nmi && (!s.firq || flag(s.r.cc, F)) && (!s.irq || flag(s.r.cc, I)) ==> s.service() == (
            0u32,
            s,
        ),
{
    reveal(Mach::service);
}

} // verus!
