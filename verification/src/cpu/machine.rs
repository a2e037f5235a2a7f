//! The state of CPU and bus together, and what each operation makes of it.

use crate::alu::{
    add16, binary_result, condition, daa_result, flag, high, logic16, logic8, low,
    mul_result, offset, signed16, signed8, sub16, unary_flags, unary_result, with_flag,
    word, Binary, Unary, E, F, I, V, Z,
};
use crate::bus::Bus;
use crate::cpu::isa::{by_mode, page1, page2, page3, Acc, Instr, Mode, Reg16};
use crate::cpu::Registers;
use crate::debug::{frames_after_return, frames_after_rti, CallFrame, CallKind};
use vstd::prelude::*;

verus! {

/// How an indexed operand was written.
#[derive(Clone, Copy, PartialEq, Eq, Structural, Debug)]
pub enum IndexDesc {
    /// `n,R` with a 5-bit offset.
    Offset5 { reg: u8, off: i32 },
    /// `,R`.
    Zero { reg: u8, indirect: bool },
    /// `A,R`, `B,R` or `D,R`, by the accumulator's letter.
    Accumulator { acc: char, reg: u8, indirect: bool },
    /// `n,R` with an 8-bit or 16-bit offset.
    Offset { reg: u8, off: i32, indirect: bool },
    /// `n,PCR`.
    Program { off: i32, indirect: bool },
    /// `,R+` or `,R++`, by the step 1 or 2.
    Increment { reg: u8, by: u8, indirect: bool },
    /// `,-R` or `,--R`, by the step 1 or 2.
    Decrement { reg: u8, by: u8, indirect: bool },
    /// `[n]`.
    Absolute { addr: u16 },
    /// A form that is not assigned.
    Other { reg: u8 },
}

/// The operand of an executed instruction, as a trace shows it.
#[derive(Clone, Copy, PartialEq, Eq, Structural, Debug)]
pub enum Opnd {
    Nothing,
    /// An immediate byte or a direct-page offset.
    Byte(u8),
    /// An immediate word or an address.
    Word(u16),
    /// An indexed operand and its effective address.
    Index(IndexDesc, u16),
    /// A branch offset, the address it leads to, and whether it was followed.
    Relative { raw: u16, target: u16, taken: bool },
}

/// The CPU and the state `m` of the bus it works on.
pub struct Mach<B: Bus> {
    pub r: Registers,
    pub cycles: u64,
    pub nmi: bool,
    pub firq: bool,
    pub irq: bool,
    pub frames: Seq<CallFrame>,
    pub irq_log: bool,
    pub log: Seq<Seq<char>>,
    pub m: B::V,
}

/// The register that an indexed operand names, by its two-bit code.
pub open spec fn index_reg(r: Registers, code: u8) -> u16 {
    match code {
        0 => r.x,
        1 => r.y,
        2 => r.u,
        _ => r.s,
    }
}

pub open spec fn with_index_reg(r: Registers, code: u8, v: u16) -> Registers {
    match code {
        0 => Registers { x: v, ..r },
        1 => Registers { y: v, ..r },
        2 => Registers { u: v, ..r },
        _ => Registers { s: v, ..r },
    }
}

pub open spec fn reg16(r: Registers, reg: Reg16) -> u16 {
    match reg {
        Reg16::D => word(r.a, r.b),
        Reg16::X => r.x,
        Reg16::Y => r.y,
        Reg16::U => r.u,
        Reg16::S => r.s,
    }
}

pub open spec fn with_reg16(r: Registers, reg: Reg16, v: u16) -> Registers {
    match reg {
        Reg16::D => Registers { a: high(v), b: low(v), ..r },
        Reg16::X => Registers { x: v, ..r },
        Reg16::Y => Registers { y: v, ..r },
        Reg16::U => Registers { u: v, ..r },
        Reg16::S => Registers { s: v, ..r },
    }
}

pub open spec fn acc(r: Registers, which: Acc) -> u8 {
    match which {
        Acc::A => r.a,
        Acc::B => r.b,
    }
}

pub open spec fn with_acc(r: Registers, which: Acc, v: u8) -> Registers {
    match which {
        Acc::A => Registers { a: v, ..r },
        Acc::B => Registers { b: v, ..r },
    }
}

/// The 16-bit register of a transfer code: D, X, Y, U, S, PC.
pub open spec fn transfer16(r: Registers, code: u8) -> Option<u16> {
    match code {
        0x0 => Some(word(r.a, r.b)),
        0x1 => Some(r.x),
        0x2 => Some(r.y),
        0x3 => Some(r.u),
        0x4 => Some(r.s),
        0x5 => Some(r.pc),
        _ => None,
    }
}

pub open spec fn with_transfer16(r: Registers, code: u8, v: u16) -> Registers {
    match code {
        0x0 => Registers { a: high(v), b: low(v), ..r },
        0x1 => Registers { x: v, ..r },
        0x2 => Registers { y: v, ..r },
        0x3 => Registers { u: v, ..r },
        0x4 => Registers { s: v, ..r },
        0x5 => Registers { pc: v, ..r },
        _ => r,
    }
}

/// The 8-bit register of a transfer code: A, B, CC, DP.
pub open spec fn transfer8(r: Registers, code: u8) -> Option<u8> {
    match code {
        0x8 => Some(r.a),
        0x9 => Some(r.b),
        0xA => Some(r.cc),
        0xB => Some(r.dp),
        _ => None,
    }
}

pub open spec fn with_transfer8(r: Registers, code: u8, v: u8) -> Registers {
    match code {
        0x8 => Registers { a: v, ..r },
        0x9 => Registers { b: v, ..r },
        0xA => Registers { cc: v, ..r },
        0xB => Registers { dp: v, ..r },
        _ => r,
    }
}

/// The registers after EXG with postbyte `pb`: two registers of one size swap
/// their values; anything else changes nothing.
pub open spec fn exchanged(r: Registers, pb: u8) -> Registers {
    let src = pb / 16;
    let dst = pb % 16;
    if src < 8 && dst < 8 {
        match (transfer16(r, src), transfer16(r, dst)) {
            (Some(vs), Some(vd)) => with_transfer16(with_transfer16(r, src, vd), dst, vs),
            _ => r,
        }
    } else if src >= 8 && dst >= 8 {
        match (transfer8(r, src), transfer8(r, dst)) {
            (Some(vs), Some(vd)) => with_transfer8(with_transfer8(r, src, vd), dst, vs),
            _ => r,
        }
    } else {
        r
    }
}

/// The registers after TFR with postbyte `pb`.
pub open spec fn transferred(r: Registers, pb: u8) -> Registers {
    let src = pb / 16;
    let dst = pb % 16;
    if src < 8 && dst < 8 {
        match transfer16(r, src) {
            Some(vs) => with_transfer16(r, dst, vs),
            None => r,
        }
    } else if src >= 8 && dst >= 8 {
        match transfer8(r, src) {
            Some(vs) => with_transfer8(r, dst, vs),
            None => r,
        }
    } else {
        r
    }
}

/// A 5-bit two's-complement number.
pub open spec fn signed5(v: u8) -> int {
    if v < 16 {
        v as int
    } else {
        v - 32
    }
}

/// `size` where the register list `pb` holds the register of `bit`, else 0.
pub open spec fn listed(pb: u8, bit: u8, size: u32) -> u32 {
    if flag(pb, bit) {
        size
    } else {
        0
    }
}

/// The number of bytes that a register list pushes or pulls: one for each of
/// CC, A, B, DP, two for each of X, Y, U or S, PC.
pub open spec fn list_bytes(pb: u8) -> u32 {
    (listed(pb, 0x01, 1) + listed(pb, 0x02, 1) + listed(pb, 0x04, 1) + listed(pb, 0x08, 1) + listed(
        pb,
        0x10,
        2,
    ) + listed(pb, 0x20, 2) + listed(pb, 0x40, 2) + listed(pb, 0x80, 2)) as u32
}

/// The vector of a software interrupt.
pub open spec fn swi_vector(n: u8) -> u16 {
    match n {
        1 => 0xFFFA,
        2 => 0xFFF4,
        _ => 0xFFF2,
    }
}

impl<B: Bus> Mach<B> {
    pub open spec fn regs(self, r: Registers) -> Self {
        Mach { r, ..self }
    }

    pub open spec fn cc(self, cc: u8) -> Self {
        Mach { r: Registers { cc, ..self.r }, ..self }
    }

    pub open spec fn pc(self, pc: u16) -> Self {
        Mach { r: Registers { pc, ..self.r }, ..self }
    }

    pub open spec fn read8(self, addr: u16) -> (u8, Self) {
        (B::read_val(self.m, addr), Mach { m: B::read_next(self.m, addr), ..self })
    }

    pub open spec fn write8(self, addr: u16, v: u8) -> Self {
        Mach { m: B::write_next(self.m, addr, v), ..self }
    }

    /// Reads the high byte at `addr`, then the low byte behind it.
    pub open spec fn read16(self, addr: u16) -> (u16, Self) {
        let (hi, s1) = self.read8(addr);
        let (lo, s2) = s1.read8(offset(addr, 1));
        (word(hi, lo), s2)
    }

    /// Writes the high byte at `addr`, then the low byte behind it.
    pub open spec fn write16(self, addr: u16, v: u16) -> Self {
        self.write8(addr, high(v)).write8(offset(addr, 1), low(v))
    }

    /// Fetches the byte at PC and steps PC past it.
    pub open spec fn fetch8(self) -> (u8, Self) {
        (
            B::fetch_val(self.m, self.r.pc),
            Mach {
                r: Registers { pc: offset(self.r.pc, 1), ..self.r },
                m: B::fetch_next(self.m, self.r.pc),
                ..self
            },
        )
    }

    pub open spec fn fetch16(self) -> (u16, Self) {
        let (hi, s1) = self.fetch8();
        let (lo, s2) = s1.fetch8();
        (word(hi, lo), s2)
    }

    pub open spec fn push8(self, v: u8) -> Self {
        let s = offset(self.r.s, -1);
        self.regs(Registers { s, ..self.r }).write8(s, v)
    }

    /// Pushes the low byte, then the high byte.
    pub open spec fn push16(self, v: u16) -> Self {
        self.push8(low(v)).push8(high(v))
    }

    pub open spec fn pull8(self) -> (u8, Self) {
        let (v, s1) = self.read8(self.r.s);
        (v, s1.regs(Registers { s: offset(self.r.s, 1), ..self.r }))
    }

    pub open spec fn pull16(self) -> (u16, Self) {
        let (hi, s1) = self.pull8();
        let (lo, s2) = s1.pull8();
        (word(hi, lo), s2)
    }

    pub open spec fn upush8(self, v: u8) -> Self {
        let u = offset(self.r.u, -1);
        self.regs(Registers { u, ..self.r }).write8(u, v)
    }

    pub open spec fn upush16(self, v: u16) -> Self {
        self.upush8(low(v)).upush8(high(v))
    }

    pub open spec fn upull8(self) -> (u8, Self) {
        let (v, s1) = self.read8(self.r.u);
        (v, s1.regs(Registers { u: offset(self.r.u, 1), ..self.r }))
    }

    pub open spec fn upull16(self) -> (u16, Self) {
        let (hi, s1) = self.upull8();
        let (lo, s2) = s1.upull8();
        (word(hi, lo), s2)
    }

    /// The address itself, or the word stored there.
    pub open spec fn through(self, addr: u16, indirect: bool) -> (u16, Self) {
        if indirect {
            self.read16(addr)
        } else {
            (addr, self)
        }
    }

    /// The operand of the indexed forms that go through `addr`: the effective
    /// address, `extra` cycles and three more for an indirection, and how it
    /// was written.
    pub open spec fn indexed_at(
        self,
        addr: u16,
        indirect: bool,
        extra: u32,
        desc: IndexDesc,
    ) -> (u16, u32, IndexDesc, Self) {
        let (ea, s1) = self.through(addr, indirect);
        (
            ea,
            if indirect {
                (extra + 3) as u32
            } else {
                extra
            },
            desc,
            s1,
        )
    }

    /// Decodes an indexed operand: its effective address, the cycles it adds
    /// and how it was written. A step of one byte is never indirect.
    #[verifier::opaque]
    pub open spec fn ea_indexed(self) -> (u16, u32, IndexDesc, Self) {
        let (pb, s) = self.fetch8();
        let reg = (pb / 32) % 4;
        let base = index_reg(s.r, reg);
        let indirect = (pb / 16) % 2 == 1;
        if pb < 0x80 {
            let off = signed5(pb % 32);
            (offset(base, off), 0, IndexDesc::Offset5 { reg, off: off as i32 }, s)
        } else {
            match pb % 16 {
                0x0 => (
                    base,
                    0,
                    IndexDesc::Increment { reg, by: 1, indirect: false },
                    s.regs(with_index_reg(s.r, reg, offset(base, 1))),
                ),
                0x1 => s.regs(with_index_reg(s.r, reg, offset(base, 2))).indexed_at(
                    base,
                    indirect,
                    1,
                    IndexDesc::Increment { reg, by: 2, indirect },
                ),
                0x2 => (
                    offset(base, -1),
                    0,
                    IndexDesc::Decrement { reg, by: 1, indirect: false },
                    s.regs(with_index_reg(s.r, reg, offset(base, -1))),
                ),
                0x3 => s.regs(with_index_reg(s.r, reg, offset(base, -2))).indexed_at(
                    offset(base, -2),
                    indirect,
                    1,
                    IndexDesc::Decrement { reg, by: 2, indirect },
                ),
                0x4 => s.indexed_at(base, indirect, 0, IndexDesc::Zero { reg, indirect }),
                0x5 => s.indexed_at(
                    offset(base, signed8(s.r.b)),
                    indirect,
                    0,
                    IndexDesc::Accumulator { acc: 'B', reg, indirect },
                ),
                0x6 => s.indexed_at(
                    offset(base, signed8(s.r.a)),
                    indirect,
                    0,
                    IndexDesc::Accumulator { acc: 'A', reg, indirect },
                ),
                0x8 => {
                    let (b, s1) = s.fetch8();
                    let off = signed8(b);
                    s1.indexed_at(
                        offset(base, off),
                        indirect,
                        1,
                        IndexDesc::Offset { reg, off: off as i32, indirect },
                    )
                },
                0x9 => {
                    let (w, s1) = s.fetch16();
                    let off = signed16(w);
                    s1.indexed_at(
                        offset(base, off),
                        indirect,
                        2,
                        IndexDesc::Offset { reg, off: off as i32, indirect },
                    )
                },
                0xB => s.indexed_at(
                    offset(base, signed16(word(s.r.a, s.r.b))),
                    indirect,
                    1,
                    IndexDesc::Accumulator { acc: 'D', reg, indirect },
                ),
                0xC => {
                    let (b, s1) = s.fetch8();
                    let off = signed8(b);
                    s1.indexed_at(
                        offset(s1.r.pc, off),
                        indirect,
                        1,
                        IndexDesc::Program { off: off as i32, indirect },
                    )
                },
                0xD => {
                    let (w, s1) = s.fetch16();
                    let off = signed16(w);
                    s1.indexed_at(
                        offset(s1.r.pc, off),
                        indirect,
                        5,
                        IndexDesc::Program { off: off as i32, indirect },
                    )
                },
                0xF => {
                    let (addr, s1) = s.fetch16();
                    s1.indexed_at(addr, true, 2, IndexDesc::Absolute { addr })
                },
                _ => (base, 0, IndexDesc::Other { reg }, s),
            }
        }
    }

    /// The effective address of an operand in memory, the cycles it adds and
    /// the operand as written.
    pub open spec fn ea(self, mode: Mode) -> (u16, u32, Opnd, Self) {
        match mode {
            Mode::Direct => {
                let (zp, s1) = self.fetch8();
                (word(s1.r.dp, zp), 0, Opnd::Byte(zp), s1)
            },
            Mode::Indexed => {
                let (ea, extra, desc, s1) = self.ea_indexed();
                (ea, extra, Opnd::Index(desc, ea), s1)
            },
            _ => {
                let (addr, s1) = self.fetch16();
                (addr, 0, Opnd::Word(addr), s1)
            },
        }
    }

    pub open spec fn operand8(self, mode: Mode) -> (u8, u32, Opnd, Self) {
        if mode == Mode::Imm {
            let (v, s1) = self.fetch8();
            (v, 0, Opnd::Byte(v), s1)
        } else {
            let (addr, extra, o, s1) = self.ea(mode);
            let (v, s2) = s1.read8(addr);
            (v, extra, o, s2)
        }
    }

    pub open spec fn operand16(self, mode: Mode) -> (u16, u32, Opnd, Self) {
        if mode == Mode::Imm {
            let (v, s1) = self.fetch16();
            (v, 0, Opnd::Word(v), s1)
        } else {
            let (addr, extra, o, s1) = self.ea(mode);
            let (v, s2) = s1.read16(addr);
            (v, extra, o, s2)
        }
    }

    #[verifier::opaque]
    pub open spec fn alu(self, op: Binary, which: Acc, mode: Mode) -> (u32, Opnd, Self) {
        let (v, extra, o, s1) = self.operand8(mode);
        let (res, cc) = binary_result(op, s1.r.cc, acc(s1.r, which), v);
        (
            (by_mode(mode, 2, 4, 4, 5) + extra) as u32,
            o,
            s1.regs(with_acc(s1.r, which, res)).cc(cc),
        )
    }

    #[verifier::opaque]
    pub open spec fn store_acc(self, which: Acc, mode: Mode) -> (u32, Opnd, Self) {
        let (addr, extra, o, s1) = self.ea(mode);
        let v = acc(s1.r, which);
        (
            (by_mode(mode, 2, 4, 4, 5) + extra) as u32,
            o,
            s1.write8(addr, v).cc(logic8(s1.r.cc, v)),
        )
    }

    /// TST only reads and CLR only writes; the others read, then write.
    #[verifier::opaque]
    pub open spec fn mem(self, op: Unary, mode: Mode) -> (u32, Opnd, Self) {
        let (addr, extra, o, s1) = self.ea(mode);
        let (v, s2) = if op == Unary::Clr {
            (0u8, s1)
        } else {
            s1.read8(addr)
        };
        let s3 = if op == Unary::Tst {
            s2
        } else {
            s2.write8(addr, unary_result(op, s2.r.cc, v))
        };
        ((by_mode(mode, 6, 6, 6, 7) + extra) as u32, o, s3.cc(unary_flags(op, s2.r.cc, v)))
    }

    #[verifier::opaque]
    pub open spec fn accum(self, op: Unary, which: Acc) -> (u32, Opnd, Self) {
        let v = acc(self.r, which);
        (
            2,
            Opnd::Nothing,
            self.regs(with_acc(self.r, which, unary_result(op, self.r.cc, v))).cc(
                unary_flags(op, self.r.cc, v),
            ),
        )
    }

    #[verifier::opaque]
    pub open spec fn load16(self, reg: Reg16, mode: Mode, cycles: u32) -> (u32, Opnd, Self) {
        let (v, extra, o, s1) = self.operand16(mode);
        ((cycles + extra) as u32, o, s1.regs(with_reg16(s1.r, reg, v)).cc(logic16(s1.r.cc, v)))
    }

    #[verifier::opaque]
    pub open spec fn store16(self, reg: Reg16, mode: Mode, cycles: u32) -> (u32, Opnd, Self) {
        let (addr, extra, o, s1) = self.ea(mode);
        let v = reg16(s1.r, reg);
        ((cycles + extra) as u32, o, s1.write16(addr, v).cc(logic16(s1.r.cc, v)))
    }

    #[verifier::opaque]
    pub open spec fn compare16(self, reg: Reg16, mode: Mode, cycles: u32) -> (u32, Opnd, Self) {
        let (v, extra, o, s1) = self.operand16(mode);
        ((cycles + extra) as u32, o, s1.cc(sub16(s1.r.cc, reg16(s1.r, reg), v).1))
    }

    #[verifier::opaque]
    pub open spec fn arith_d(self, subtract: bool, mode: Mode, cycles: u32) -> (u32, Opnd, Self) {
        let (v, extra, o, s1) = self.operand16(mode);
        let d = word(s1.r.a, s1.r.b);
        let (res, cc) = if subtract {
            sub16(s1.r.cc, d, v)
        } else {
            add16(s1.r.cc, d, v)
        };
        ((cycles + extra) as u32, o, s1.regs(with_reg16(s1.r, Reg16::D, res)).cc(cc))
    }

    #[verifier::opaque]
    pub open spec fn branch(self, code: u8) -> (u32, Opnd, Self) {
        let (b, s1) = self.fetch8();
        let target = offset(s1.r.pc, signed8(b));
        let taken = condition(code, s1.r.cc);
        let o = Opnd::Relative { raw: b as u16, target, taken };
        if taken {
            (3, o, s1.pc(target))
        } else {
            (2, o, s1)
        }
    }

    #[verifier::opaque]
    pub open spec fn long_branch(self, code: u8) -> (u32, Opnd, Self) {
        let (w, s1) = self.fetch16();
        let target = offset(s1.r.pc, signed16(w));
        let taken = condition(code, s1.r.cc);
        let o = Opnd::Relative { raw: w, target, taken };
        if taken {
            (6, o, s1.pc(target))
        } else {
            (5, o, s1)
        }
    }

    #[verifier::opaque]
    pub open spec fn lbra(self) -> (u32, Opnd, Self) {
        let (w, s1) = self.fetch16();
        let target = offset(s1.r.pc, signed16(w));
        (5, Opnd::Relative { raw: w, target, taken: true }, s1.pc(target))
    }

    /// Pushes the return address, goes to `target` and records the frame.
    pub open spec fn call(self, site: u16, target: u16, kind: CallKind) -> Self {
        let ret = self.r.pc;
        let s1 = self.push16(ret).pc(target);
        Mach {
            frames: s1.frames.push(
                CallFrame {
                    return_addr: ret,
                    call_site: site,
                    target,
                    sp_at_call: s1.r.s,
                    kind,
                },
            ),
            ..s1
        }
    }

    #[verifier::opaque]
    pub open spec fn bsr(self, site: u16) -> (u32, Opnd, Self) {
        let (b, s1) = self.fetch8();
        let target = offset(s1.r.pc, signed8(b));
        (
            7,
            Opnd::Relative { raw: b as u16, target, taken: true },
            s1.call(site, target, CallKind::Bsr),
        )
    }

    #[verifier::opaque]
    pub open spec fn lbsr(self, site: u16) -> (u32, Opnd, Self) {
        let (w, s1) = self.fetch16();
        let target = offset(s1.r.pc, signed16(w));
        (
            9,
            Opnd::Relative { raw: w, target, taken: true },
            s1.call(site, target, CallKind::Bsr),
        )
    }

    #[verifier::opaque]
    pub open spec fn jmp(self, mode: Mode) -> (u32, Opnd, Self) {
        let (addr, extra, o, s1) = self.ea(mode);
        ((3 + extra) as u32, o, s1.pc(addr))
    }

    #[verifier::opaque]
    pub open spec fn jsr(self, mode: Mode, site: u16) -> (u32, Opnd, Self) {
        let (addr, extra, o, s1) = self.ea(mode);
        ((7 + extra) as u32, o, s1.call(site, addr, CallKind::Jsr))
    }

    /// LEAX and LEAY set Z; LEAS and LEAU set no flag.
    #[verifier::opaque]
    pub open spec fn lea(self, reg: Reg16) -> (u32, Opnd, Self) {
        let (ea, extra, desc, s1) = self.ea_indexed();
        let s2 = s1.regs(with_reg16(s1.r, reg, ea));
        let s3 = if reg == Reg16::X || reg == Reg16::Y {
            s2.cc(with_flag(s2.r.cc, Z, ea == 0))
        } else {
            s2
        };
        ((4 + extra) as u32, Opnd::Index(desc, ea), s3)
    }

    pub open spec fn push8_if(self, on: bool, v: u8) -> Self {
        if on {
            self.push8(v)
        } else {
            self
        }
    }

    pub open spec fn push16_if(self, on: bool, v: u16) -> Self {
        if on {
            self.push16(v)
        } else {
            self
        }
    }

    pub open spec fn upush8_if(self, on: bool, v: u8) -> Self {
        if on {
            self.upush8(v)
        } else {
            self
        }
    }

    pub open spec fn upush16_if(self, on: bool, v: u16) -> Self {
        if on {
            self.upush16(v)
        } else {
            self
        }
    }

    /// Pushes the listed registers on S: PC first, CC last.
    pub open spec fn push_list(self, pb: u8) -> Self {
        let r = self.r;
        self.push16_if(flag(pb, 0x80), r.pc).push16_if(flag(pb, 0x40), r.u).push16_if(
            flag(pb, 0x20),
            r.y,
        ).push16_if(flag(pb, 0x10), r.x).push8_if(flag(pb, 0x08), r.dp).push8_if(
            flag(pb, 0x04),
            r.b,
        ).push8_if(flag(pb, 0x02), r.a).push8_if(flag(pb, 0x01), r.cc)
    }

    /// Pushes the listed registers on U: PC first, CC last, S in the place of U.
    pub open spec fn upush_list(self, pb: u8) -> Self {
        let r = self.r;
        self.upush16_if(flag(pb, 0x80), r.pc).upush16_if(flag(pb, 0x40), r.s).upush16_if(
            flag(pb, 0x20),
            r.y,
        ).upush16_if(flag(pb, 0x10), r.x).upush8_if(flag(pb, 0x08), r.dp).upush8_if(
            flag(pb, 0x04),
            r.b,
        ).upush8_if(flag(pb, 0x02), r.a).upush8_if(flag(pb, 0x01), r.cc)
    }

    #[verifier::opaque]
    pub open spec fn psh(self, user: bool) -> (u32, Opnd, Self) {
        let (pb, s1) = self.fetch8();
        (
            (5 + list_bytes(pb)) as u32,
            Opnd::Byte(pb),
            if user {
                s1.upush_list(pb)
            } else {
                s1.push_list(pb)
            },
        )
    }

    #[verifier::opaque]
    pub open spec fn pull_cc(self, on: bool) -> Self {
        if on {
            let (v, s) = self.pull8();
            s.cc(v)
        } else {
            self
        }
    }

    #[verifier::opaque]
    pub open spec fn pull_a(self, on: bool) -> Self {
        if on {
            let (v, s) = self.pull8();
            s.regs(Registers { a: v, ..s.r })
        } else {
            self
        }
    }

    #[verifier::opaque]
    pub open spec fn pull_b(self, on: bool) -> Self {
        if on {
            let (v, s) = self.pull8();
            s.regs(Registers { b: v, ..s.r })
        } else {
            self
        }
    }

    #[verifier::opaque]
    pub open spec fn pull_dp(self, on: bool) -> Self {
        if on {
            let (v, s) = self.pull8();
            s.regs(Registers { dp: v, ..s.r })
        } else {
            self
        }
    }

    #[verifier::opaque]
    pub open spec fn pull_x(self, on: bool) -> Self {
        if on {
            let (v, s) = self.pull16();
            s.regs(Registers { x: v, ..s.r })
        } else {
            self
        }
    }

    #[verifier::opaque]
    pub open spec fn pull_y(self, on: bool) -> Self {
        if on {
            let (v, s) = self.pull16();
            s.regs(Registers { y: v, ..s.r })
        } else {
            self
        }
    }

    #[verifier::opaque]
    pub open spec fn pull_u(self, on: bool) -> Self {
        if on {
            let (v, s) = self.pull16();
            s.regs(Registers { u: v, ..s.r })
        } else {
            self
        }
    }

    #[verifier::opaque]
    pub open spec fn pull_pc(self, on: bool) -> Self {
        if on {
            let (v, s) = self.pull16();
            s.pc(v)
        } else {
            self
        }
    }

    /// Pulls the listed registers from S: CC first, PC last. Pulling PC is a
    /// return.
    pub open spec fn pull_list(self, pb: u8) -> Self {
        let s = self.pull_cc(flag(pb, 0x01)).pull_a(flag(pb, 0x02)).pull_b(flag(pb, 0x04)).pull_dp(
            flag(pb, 0x08),
        ).pull_x(flag(pb, 0x10)).pull_y(flag(pb, 0x20)).pull_u(flag(pb, 0x40)).pull_pc(
            flag(pb, 0x80),
        );
        if flag(pb, 0x80) {
            Mach { frames: frames_after_return(s.frames, s.r.s), ..s }
        } else {
            s
        }
    }

    pub open spec fn upull_byte(self, on: bool, code: u8) -> Self {
        if on {
            let (v, s) = self.upull8();
            s.regs(with_transfer8(s.r, code, v))
        } else {
            self
        }
    }

    pub open spec fn upull_word(self, on: bool, code: u8) -> Self {
        if on {
            let (v, s) = self.upull16();
            s.regs(with_transfer16(s.r, code, v))
        } else {
            self
        }
    }

    /// Pulls the listed registers from U: CC, A, B, DP, X, Y, S, PC.
    pub open spec fn upull_list(self, pb: u8) -> Self {
        self.upull_byte(flag(pb, 0x01), 0xA).upull_byte(flag(pb, 0x02), 0x8).upull_byte(
            flag(pb, 0x04),
            0x9,
        ).upull_byte(flag(pb, 0x08), 0xB).upull_word(flag(pb, 0x10), 0x1).upull_word(
            flag(pb, 0x20),
            0x2,
        ).upull_word(flag(pb, 0x40), 0x4).upull_word(flag(pb, 0x80), 0x5)
    }

    #[verifier::opaque]
    pub open spec fn pul(self, user: bool) -> (u32, Opnd, Self) {
        let (pb, s1) = self.fetch8();
        (
            (5 + list_bytes(pb)) as u32,
            Opnd::Byte(pb),
            if user {
                s1.upull_list(pb)
            } else {
                s1.pull_list(pb)
            },
        )
    }

    #[verifier::opaque]
    pub open spec fn rts(self) -> (u32, Opnd, Self) {
        let (ret, s1) = self.pull16();
        let s2 = s1.pc(ret);
        (5, Opnd::Nothing, Mach { frames: frames_after_return(s2.frames, s2.r.s), ..s2 })
    }

    /// Pulls CC and, where its E is set, the registers, then PC.
    #[verifier::opaque]
    pub open spec fn rti(self) -> (u32, Opnd, Self) {
        let s1 = self.pull_cc(true);
        let entire = flag(s1.r.cc, E);
        let s2 = s1.pull_a(entire).pull_b(entire).pull_dp(entire).pull_x(entire).pull_y(
            entire,
        ).pull_u(entire).pull_pc(true);
        (
            if entire {
                15
            } else {
                12
            },
            Opnd::Nothing,
            Mach { frames: frames_after_rti(s2.frames), ..s2 },
        )
    }

    /// Pushes PC, U, Y, X, DP, B, A and CC, in this order.
    pub open spec fn push_entire(self) -> Self {
        let r = self.r;
        self.push16(r.pc).push16(r.u).push16(r.y).push16(r.x).push8(r.dp).push8(r.b).push8(
            r.a,
        ).push8(r.cc)
    }

    /// Masks the interrupts, goes through the vector at `vector` and records
    /// the frame.
    pub open spec fn vectored(self, vector: u16, site: u16, ret: u16, kind: CallKind) -> Self {
        let s1 = self.cc(self.r.cc | 0x50);
        let (target, s2) = s1.read16(vector);
        let s3 = s2.pc(target);
        Mach {
            frames: s3.frames.push(
                CallFrame {
                    return_addr: ret,
                    call_site: site,
                    target,
                    sp_at_call: s3.r.s,
                    kind,
                },
            ),
            ..s3
        }
    }

    /// Stacks the entire state with E set and goes through a vector.
    pub open spec fn interrupted(self, vector: u16, site: u16, kind: CallKind) -> Self {
        self.cc(self.r.cc | 0x80).push_entire().vectored(vector, site, self.r.pc, kind)
    }

    #[verifier::opaque]
    pub open spec fn swi(self, n: u8, site: u16) -> (u32, Opnd, Self) {
        (
            if n == 1 {
                19
            } else {
                20
            },
            Opnd::Nothing,
            self.interrupted(swi_vector(n), site, CallKind::Swi(n)),
        )
    }

    #[verifier::opaque]
    pub open spec fn cwai(self) -> (u32, Opnd, Self) {
        let (imm, s1) = self.fetch8();
        (20, Opnd::Byte(imm), s1.cc((s1.r.cc & imm) | 0x80).push_entire())
    }

    /// ABX, MUL, DAA and SEX.
    #[verifier::opaque]
    pub open spec fn inherent(self, instr: Instr) -> (u32, Opnd, Self) {
        let r = self.r;
        match instr {
            Instr::Abx => (
                3,
                Opnd::Nothing,
                self.regs(Registers { x: offset(r.x, r.b as int), ..r }),
            ),
            Instr::Mul => {
                let (d, cc) = mul_result(r.cc, r.a, r.b);
                (11, Opnd::Nothing, self.regs(with_reg16(r, Reg16::D, d)).cc(cc))
            },
            Instr::Daa => {
                let (a, cc) = daa_result(r.cc, r.a);
                (2, Opnd::Nothing, self.regs(Registers { a, cc, ..r }))
            },
            _ => {
                let a = if r.b >= 0x80 {
                    0xFFu8
                } else {
                    0u8
                };
                (
                    2,
                    Opnd::Nothing,
                    self.regs(Registers { a, cc: logic16(r.cc, word(a, r.b)), ..r }),
                )
            },
        }
    }

    /// ORCC, ANDCC, EXG and TFR.
    #[verifier::opaque]
    pub open spec fn with_postbyte(self, instr: Instr) -> (u32, Opnd, Self) {
        let (b, s1) = self.fetch8();
        match instr {
            Instr::OrCc => (2, Opnd::Byte(b), s1.cc(s1.r.cc | b)),
            Instr::AndCc => (2, Opnd::Byte(b), s1.cc(s1.r.cc & b)),
            Instr::Exg => (6, Opnd::Byte(b), s1.regs(exchanged(s1.r, b))),
            _ => (6, Opnd::Byte(b), s1.regs(transferred(s1.r, b))),
        }
    }

    /// Executes a decoded instruction that began at `site`: the cycles it
    /// takes, its operand and the state it leaves.
    #[verifier::opaque]
    pub open spec fn execute(self, instr: Instr, site: u16) -> (u32, Opnd, Self) {
        match instr {
            Instr::Alu { op, acc, mode } => self.alu(op, acc, mode),
            Instr::StoreAcc { acc, mode } => self.store_acc(acc, mode),
            Instr::Mem { unary, mode } => self.mem(unary, mode),
            Instr::Accum { unary, acc } => self.accum(unary, acc),
            Instr::Load16 { reg, mode, cycles } => self.load16(reg, mode, cycles),
            Instr::Store16 { reg, mode, cycles } => self.store16(reg, mode, cycles),
            Instr::Compare16 { reg, mode, cycles } => self.compare16(reg, mode, cycles),
            Instr::AddD { mode, cycles } => self.arith_d(false, mode, cycles),
            Instr::SubD { mode, cycles } => self.arith_d(true, mode, cycles),
            Instr::Branch { code } => self.branch(code),
            Instr::LongBranch { code } => self.long_branch(code),
            Instr::Lbra => self.lbra(),
            Instr::Bsr => self.bsr(site),
            Instr::Lbsr => self.lbsr(site),
            Instr::Jmp { mode } => self.jmp(mode),
            Instr::Jsr { mode } => self.jsr(mode, site),
            Instr::Lea { reg } => self.lea(reg),
            Instr::Push { user } => self.psh(user),
            Instr::Pull { user } => self.pul(user),
            Instr::Rts => self.rts(),
            Instr::Rti => self.rti(),
            Instr::Swi { n } => self.swi(n, site),
            Instr::Cwai => self.cwai(),
            Instr::Sync | Instr::Nop => (2, Opnd::Nothing, self),
            Instr::Abx | Instr::Mul | Instr::Daa | Instr::Sex => self.inherent(instr),
            Instr::Exg | Instr::Tfr | Instr::OrCc | Instr::AndCc => self.with_postbyte(instr),
            Instr::Unknown | Instr::UnknownPrefixed => (1, Opnd::Nothing, self),
        }
    }

    /// Fetches and decodes: the prefix (0 for none), the opcode behind it and
    /// the instruction.
    pub open spec fn decode(self) -> (u8, u8, Instr, Self) {
        let (op, s1) = self.fetch8();
        if op == 0x10 || op == 0x11 {
            let (sub, s2) = s1.fetch8();
            (
                op,
                sub,
                if op == 0x10 {
                    page2(sub)
                } else {
                    page3(sub)
                },
                s2,
            )
        } else {
            (0, op, page1(op), s1)
        }
    }

    /// Adds up cycles, modulo 2 to the 64th.
    pub open spec fn spend(self, cycles: u32) -> Self {
        Mach { cycles: ((self.cycles + cycles) % 0x1_0000_0000_0000_0000) as u64, ..self }
    }

    pub open spec fn logged(self, on: bool, line: Seq<char>) -> Self {
        if on {
            Mach { log: self.log.push(line), ..self }
        } else {
            self
        }
    }

    /// Goes through the reset vector with the interrupts masked, DP cleared and
    /// no frames.
    pub open spec fn restarted(self) -> Self {
        let (pc, s1) = self.read16(0xFFFE);
        Mach { r: Registers { pc, cc: 0x50, dp: 0, ..self.r }, frames: Seq::empty(), ..s1 }
    }

    /// Polls the interrupt lines of the bus into the pending latches.
    pub open spec fn poll(self) -> Self {
        let (nmi, firq, irq) = B::irq_val(self.m);
        Mach {
            nmi: self.nmi || nmi,
            firq: self.firq || firq,
            irq: self.irq || irq,
            m: B::irq_next(self.m),
            ..self
        }
    }

    #[verifier::opaque]
    pub open spec fn service_nmi(self) -> Self {
        let s1 = self.interrupted(0xFFFC, self.r.pc, CallKind::Nmi);
        (Mach { nmi: false, ..s1 }).logged(
            s1.irq_log,
            irq_line("[irq] NMI: pc=$"@, self.r.pc, s1.r.pc),
        )
    }

    /// Stacks PC and CC, clears E and goes through the vector.
    #[verifier::opaque]
    pub open spec fn service_firq(self) -> Self {
        let s1 = self.push16(self.r.pc).push8(self.r.cc);
        let s2 = s1.cc(s1.r.cc & !0x80u8).vectored(0xFFF6, self.r.pc, self.r.pc, CallKind::Firq);
        (Mach { firq: false, ..s2 }).logged(
            s2.irq_log,
            irq_line("[irq] FIRQ: pc=$"@, self.r.pc, s2.r.pc),
        )
    }

    #[verifier::opaque]
    pub open spec fn service_irq(self) -> Self {
        let s1 = self.interrupted(0xFFF8, self.r.pc, CallKind::Irq);
        (Mach { irq: false, ..s1 }).logged(
            s1.irq_log,
            irq_line("[irq] IRQ: pc=$"@, self.r.pc, s1.r.pc),
        )
    }

    /// Takes the pending interrupt that comes first: NMI, then FIRQ unless F
    /// masks it, then IRQ unless I masks it.
    #[verifier::opaque]
    pub open spec fn service(self) -> (u32, Self) {
        if self.nmi {
            (19, self.service_nmi())
        } else if self.firq && !flag(self.r.cc, F) {
            (10, self.service_firq())
        } else if self.irq && !flag(self.r.cc, I) {
            (19, self.service_irq())
        } else {
            (0, self)
        }
    }

    /// One step: an instruction, then at most one interrupt. Returns the cycles
    /// that both took.
    pub open spec fn step(self, trace: bool) -> (u32, Self) {
        let (prefix, op, instr, s1) = self.decode();
        let (used, o, s2) = s1.execute(instr, self.r.pc);
        let s3 = s2.logged(
            trace,
            crate::cpu::trace::trace_text(self.r.pc, prefix, op, instr, o),
        ).spend(used).poll();
        let (more, s4) = s3.service();
        ((used + more) as u32, s4.spend(more))
    }
}

/// A line of the interrupt log.
pub open spec fn irq_line(head: Seq<char>, pc: u16, target: u16) -> Seq<char> {
    head + crate::text::hex4(pc) + " -> vec=$"@ + crate::text::hex4(target)
}

} // verus!
