//! The MC6809 CPU.

use crate::alu::{
    add16_flags, binary, cond_eval, daa, has_flag, high_byte, logic16_nz_clearv,
    logic8_nz_clearv, low_byte, make_word, multiply, offset_by, put_flag, sub16_flags,
    to_signed16, to_signed8, unary, Binary, Unary, E, F, I, Z,
};
use crate::bus::Bus;
use crate::cpu::isa::{
    decode_page1, decode_page2, decode_page3, pick_by_mode, Acc, Instr, Mode, Reg16,
};
use crate::cpu::machine::{IndexDesc, Mach, Opnd};
use crate::alu::offset;
use crate::debug::{
    condition_passes, first_stop, passed, Breakpoint, BreakpointId, BreakpointSet, CallFrame,
    CallKind, ShadowCallStack,
};
use crate::disasm::{disasm_one, disassembled, rd8};
use crate::text::{push_hex4, push_text};
use vstd::prelude::*;

pub mod isa;
pub mod machine;
pub mod trace;

verus! {

/// The programmer-visible registers. The bits of `cc` are E F H I N Z V C.
#[derive(Clone, Copy)]
pub struct Registers {
    pub a: u8,
    pub b: u8,
    pub x: u16,
    pub y: u16,
    pub u: u16,
    pub s: u16,
    pub pc: u16,
    pub dp: u8,
    pub cc: u8,
}

/// Every register zero.
pub open spec fn zero_registers() -> Registers {
    Registers { a: 0, b: 0, x: 0, y: 0, u: 0, s: 0, pc: 0, dp: 0, cc: 0 }
}

impl Default for Registers {
    fn default() -> (r: Self)
        ensures
            r == zero_registers(),
    {
        Registers { a: 0, b: 0, x: 0, y: 0, u: 0, s: 0, pc: 0, dp: 0, cc: 0 }
    }
}

pub struct Cpu {
    pub r: Registers,
    /// Cycles executed so far, modulo 2 to the 64th.
    pub cycles: u64,
    pub nmi_pending: bool,
    pub firq_pending: bool,
    pub irq_pending: bool,
    /// The calls and interrupts in progress.
    pub shadow_stack: ShadowCallStack,
    /// Execution breakpoints; the run loop asks [`Cpu::check_breakpoint`]
    /// before each step.
    pub breakpoints: BreakpointSet,
    /// Whether interrupt entries are logged.
    pub irq_log: bool,
    /// Trace and log lines that were not taken yet.
    pub log: Vec<String>,
}

impl Cpu {
    /// The CPU together with the state of `bus`.
    pub open spec fn mach<B: Bus>(&self, bus: B) -> Mach<B> {
        Mach {
            r: self.r,
            cycles: self.cycles,
            nmi: self.nmi_pending,
            firq: self.firq_pending,
            irq: self.irq_pending,
            frames: self.shadow_stack@,
            irq_log: self.irq_log,
            log: crate::text::texts(self.log@),
            m: bus@,
        }
    }

    fn bus_read8<B: Bus>(&self, bus: &mut B, addr: u16) -> (v: u8)
        requires
            old(bus).wf(),
        ensures
            final(bus).wf(),
            (v, self.mach(*final(bus))) == self.mach(*old(bus)).read8(addr),
    {
        bus.read8(addr)
    }

    fn bus_write8<B: Bus>(&self, bus: &mut B, addr: u16, v: u8)
        requires
            old(bus).wf(),
        ensures
            final(bus).wf(),
            self.mach(*final(bus)) == self.mach(*old(bus)).write8(addr, v),
    {
        bus.write8(addr, v)
    }

    fn bus_read16<B: Bus>(&self, bus: &mut B, addr: u16) -> (v: u16)
        requires
            old(bus).wf(),
        ensures
            final(bus).wf(),
            (v, self.mach(*final(bus))) == self.mach(*old(bus)).read16(addr),
    {
        let hi: u8 = self.bus_read8(bus, addr);
        let lo: u8 = self.bus_read8(bus, offset_by(addr, 1));
        make_word(hi, lo)
    }

    fn bus_write16<B: Bus>(&self, bus: &mut B, addr: u16, v: u16)
        requires
            old(bus).wf(),
        ensures
            final(bus).wf(),
            self.mach(*final(bus)) == self.mach(*old(bus)).write16(addr, v),
    {
        self.bus_write8(bus, addr, high_byte(v));
        self.bus_write8(bus, offset_by(addr, 1), low_byte(v));
    }

    fn fetch8<B: Bus>(&mut self, bus: &mut B) -> (v: u8)
        requires
            old(bus).wf(),
        ensures
            final(bus).wf(),
            final(self).breakpoints == old(self).breakpoints,
            (v, final(self).mach(*final(bus))) == old(self).mach(*old(bus)).fetch8(),
    {
        let v: u8 = bus.read8_fetch(self.r.pc);
        self.r.pc = offset_by(self.r.pc, 1);
        v
    }

    fn fetch16<B: Bus>(&mut self, bus: &mut B) -> (v: u16)
        requires
            old(bus).wf(),
        ensures
            final(bus).wf(),
            final(self).breakpoints == old(self).breakpoints,
            (v, final(self).mach(*final(bus))) == old(self).mach(*old(bus)).fetch16(),
    {
        let hi: u8 = self.fetch8(bus);
        let lo: u8 = self.fetch8(bus);
        make_word(hi, lo)
    }

    fn push8<B: Bus>(&mut self, bus: &mut B, v: u8)
        requires
            old(bus).wf(),
        ensures
            final(bus).wf(),
            final(self).breakpoints == old(self).breakpoints,
            final(self).mach(*final(bus)) == old(self).mach(*old(bus)).push8(v),
    {
        self.r.s = offset_by(self.r.s, -1);
        bus.write8(self.r.s, v);
    }

    fn push16<B: Bus>(&mut self, bus: &mut B, v: u16)
        requires
            old(bus).wf(),
        ensures
            final(bus).wf(),
            final(self).breakpoints == old(self).breakpoints,
            final(self).mach(*final(bus)) == old(self).mach(*old(bus)).push16(v),
    {
        self.push8(bus, low_byte(v));
        self.push8(bus, high_byte(v));
    }

    fn pull8<B: Bus>(&mut self, bus: &mut B) -> (v: u8)
        requires
            old(bus).wf(),
        ensures
            final(bus).wf(),
            final(self).breakpoints == old(self).breakpoints,
            (v, final(self).mach(*final(bus))) == old(self).mach(*old(bus)).pull8(),
    {
        let v: u8 = bus.read8(self.r.s);
        self.r.s = offset_by(self.r.s, 1);
        v
    }

    fn pull16<B: Bus>(&mut self, bus: &mut B) -> (v: u16)
        requires
            old(bus).wf(),
        ensures
            final(bus).wf(),
            final(self).breakpoints == old(self).breakpoints,
            (v, final(self).mach(*final(bus))) == old(self).mach(*old(bus)).pull16(),
    {
        let hi: u8 = self.pull8(bus);
        let lo: u8 = self.pull8(bus);
        make_word(hi, lo)
    }

    fn upush8<B: Bus>(&mut self, bus: &mut B, v: u8)
        requires
            old(bus).wf(),
        ensures
            final(bus).wf(),
            final(self).breakpoints == old(self).breakpoints,
            final(self).mach(*final(bus)) == old(self).mach(*old(bus)).upush8(v),
    {
        self.r.u = offset_by(self.r.u, -1);
        bus.write8(self.r.u, v);
    }

    fn upush16<B: Bus>(&mut self, bus: &mut B, v: u16)
        requires
            old(bus).wf(),
        ensures
            final(bus).wf(),
            final(self).breakpoints == old(self).breakpoints,
            final(self).mach(*final(bus)) == old(self).mach(*old(bus)).upush16(v),
    {
        self.upush8(bus, low_byte(v));
        self.upush8(bus, high_byte(v));
    }

    fn upull8<B: Bus>(&mut self, bus: &mut B) -> (v: u8)
        requires
            old(bus).wf(),
        ensures
            final(bus).wf(),
            final(self).breakpoints == old(self).breakpoints,
            (v, final(self).mach(*final(bus))) == old(self).mach(*old(bus)).upull8(),
    {
        let v: u8 = bus.read8(self.r.u);
        self.r.u = offset_by(self.r.u, 1);
        v
    }

    fn upull16<B: Bus>(&mut self, bus: &mut B) -> (v: u16)
        requires
            old(bus).wf(),
        ensures
            final(bus).wf(),
            final(self).breakpoints == old(self).breakpoints,
            (v, final(self).mach(*final(bus))) == old(self).mach(*old(bus)).upull16(),
    {
        let hi: u8 = self.upull8(bus);
        let lo: u8 = self.upull8(bus);
        make_word(hi, lo)
    }

    fn get_idx_reg(&self, code: u8) -> (v: u16)
        ensures
            v == crate::cpu::machine::index_reg(self.r, code),
    {
        match code {
            0 => self.r.x,
            1 => self.r.y,
            2 => self.r.u,
            _ => self.r.s,
        }
    }

    fn set_idx_reg(&mut self, code: u8, v: u16)
        ensures
            *final(self) == (Cpu {
                r: crate::cpu::machine::with_index_reg(old(self).r, code, v),
                ..*old(self)
            }),
    {
        match code {
            0 => self.r.x = v,
            1 => self.r.y = v,
            2 => self.r.u = v,
            _ => self.r.s = v,
        }
    }

    fn through<B: Bus>(&self, bus: &mut B, addr: u16, indirect: bool) -> (ea: u16)
        requires
            old(bus).wf(),
        ensures
            final(bus).wf(),
            (ea, self.mach(*final(bus))) == self.mach(*old(bus)).through(addr, indirect),
    {
        if indirect {
            self.bus_read16(bus, addr)
        } else {
            addr
        }
    }

    fn indexed_at<B: Bus>(
        &self,
        bus: &mut B,
        addr: u16,
        indirect: bool,
        extra: u32,
        desc: IndexDesc,
    ) -> (r: (u16, u32, IndexDesc))
        requires
            old(bus).wf(),
            extra <= 5,
        ensures
            final(bus).wf(),
            (r.0, r.1, r.2, self.mach(*final(bus))) == self.mach(*old(bus)).indexed_at(
                addr,
                indirect,
                extra,
                desc,
            ),
            r.1 <= 8,
    {
        let ea: u16 = self.through(bus, addr, indirect);
        if indirect {
            (ea, extra + 3, desc)
        } else {
            (ea, extra, desc)
        }
    }

    /// Decodes an indexed operand: its effective address, the cycles it adds
    /// and how it was written.
    #[verifier::rlimit(60)]
    fn ea_indexed<B: Bus>(&mut self, bus: &mut B) -> (r: (u16, u32, IndexDesc))
        requires
            old(bus).wf(),
        ensures
            final(bus).wf(),
            final(self).breakpoints == old(self).breakpoints,
            (r.0, r.1, r.2, final(self).mach(*final(bus))) == old(self).mach(
                *old(bus),
            ).ea_indexed(),
            r.1 <= 8,
    {
        proof {
            reveal(Mach::ea_indexed);
        }
        let pb: u8 = self.fetch8(bus);
        let reg: u8 = (pb / 32) % 4;
        let base: u16 = self.get_idx_reg(reg);
        let indirect: bool = (pb / 16) % 2 == 1;
        if pb < 0x80 {
            let low5: u8 = pb % 32;
            let off: i32 = if low5 < 16 {
                low5 as i32
            } else {
                low5 as i32 - 32
            };
            return (offset_by(base, off), 0, IndexDesc::Offset5 { reg, off });
        }
        match pb % 16 {
            0x0 => {
                self.set_idx_reg(reg, offset_by(base, 1));
                (base, 0, IndexDesc::Increment { reg, by: 1, indirect: false })
            },
            0x1 => {
                self.set_idx_reg(reg, offset_by(base, 2));
                self.indexed_at(
                    bus,
                    base,
                    indirect,
                    1,
                    IndexDesc::Increment { reg, by: 2, indirect },
                )
            },
            0x2 => {
                let addr: u16 = offset_by(base, -1);
                self.set_idx_reg(reg, addr);
                (addr, 0, IndexDesc::Decrement { reg, by: 1, indirect: false })
            },
            0x3 => {
                let addr: u16 = offset_by(base, -2);
                self.set_idx_reg(reg, addr);
                self.indexed_at(
                    bus,
                    addr,
                    indirect,
                    1,
                    IndexDesc::Decrement { reg, by: 2, indirect },
                )
            },
            0x4 => self.indexed_at(bus, base, indirect, 0, IndexDesc::Zero { reg, indirect }),
            0x5 => {
                let addr: u16 = offset_by(base, to_signed8(self.r.b));
                self.indexed_at(
                    bus,
                    addr,
                    indirect,
                    0,
                    IndexDesc::Accumulator { acc: 'B', reg, indirect },
                )
            },
            0x6 => {
                let addr: u16 = offset_by(base, to_signed8(self.r.a));
                self.indexed_at(
                    bus,
                    addr,
                    indirect,
                    0,
                    IndexDesc::Accumulator { acc: 'A', reg, indirect },
                )
            },
            0x8 => {
                let off: i32 = to_signed8(self.fetch8(bus));
                let addr: u16 = offset_by(base, off);
                self.indexed_at(bus, addr, indirect, 1, IndexDesc::Offset { reg, off, indirect })
            },
            0x9 => {
                let off: i32 = to_signed16(self.fetch16(bus));
                let addr: u16 = offset_by(base, off);
                self.indexed_at(bus, addr, indirect, 2, IndexDesc::Offset { reg, off, indirect })
            },
            0xB => {
                let addr: u16 = offset_by(base, to_signed16(make_word(self.r.a, self.r.b)));
                self.indexed_at(
                    bus,
                    addr,
                    indirect,
                    1,
                    IndexDesc::Accumulator { acc: 'D', reg, indirect },
                )
            },
            0xC => {
                let off: i32 = to_signed8(self.fetch8(bus));
                let addr: u16 = offset_by(self.r.pc, off);
                self.indexed_at(bus, addr, indirect, 1, IndexDesc::Program { off, indirect })
            },
            0xD => {
                let off: i32 = to_signed16(self.fetch16(bus));
                let addr: u16 = offset_by(self.r.pc, off);
                self.indexed_at(bus, addr, indirect, 5, IndexDesc::Program { off, indirect })
            },
            0xF => {
                let addr: u16 = self.fetch16(bus);
                self.indexed_at(bus, addr, true, 2, IndexDesc::Absolute { addr })
            },
            _ => (base, 0, IndexDesc::Other { reg }),
        }
    }

    /// The effective address of an operand in memory, the cycles it adds and
    /// the operand as written.
    fn ea<B: Bus>(&mut self, bus: &mut B, mode: Mode) -> (r: (u16, u32, Opnd))
        requires
            old(bus).wf(),
        ensures
            final(bus).wf(),
            final(self).breakpoints == old(self).breakpoints,
            (r.0, r.1, r.2, final(self).mach(*final(bus))) == old(self).mach(*old(bus)).ea(mode),
            r.1 <= 8,
    {
        match mode {
            Mode::Direct => {
                let zp: u8 = self.fetch8(bus);
                (make_word(self.r.dp, zp), 0, Opnd::Byte(zp))
            },
            Mode::Indexed => {
                let (ea, extra, desc) = self.ea_indexed(bus);
                (ea, extra, Opnd::Index(desc, ea))
            },
            _ => {
                let addr: u16 = self.fetch16(bus);
                (addr, 0, Opnd::Word(addr))
            },
        }
    }

    fn operand8<B: Bus>(&mut self, bus: &mut B, mode: Mode) -> (r: (u8, u32, Opnd))
        requires
            old(bus).wf(),
        ensures
            final(bus).wf(),
            final(self).breakpoints == old(self).breakpoints,
            (r.0, r.1, r.2, final(self).mach(*final(bus))) == old(self).mach(*old(bus)).operand8(
                mode,
            ),
            r.1 <= 8,
    {
        if mode == Mode::Imm {
            let v: u8 = self.fetch8(bus);
            (v, 0, Opnd::Byte(v))
        } else {
            let (addr, extra, o) = self.ea(bus, mode);
            let v: u8 = self.bus_read8(bus, addr);
            (v, extra, o)
        }
    }

    fn operand16<B: Bus>(&mut self, bus: &mut B, mode: Mode) -> (r: (u16, u32, Opnd))
        requires
            old(bus).wf(),
        ensures
            final(bus).wf(),
            final(self).breakpoints == old(self).breakpoints,
            (r.0, r.1, r.2, final(self).mach(*final(bus))) == old(self).mach(*old(bus)).operand16(
                mode,
            ),
            r.1 <= 8,
    {
        if mode == Mode::Imm {
            let v: u16 = self.fetch16(bus);
            (v, 0, Opnd::Word(v))
        } else {
            let (addr, extra, o) = self.ea(bus, mode);
            let v: u16 = self.bus_read16(bus, addr);
            (v, extra, o)
        }
    }

    fn get_acc(&self, which: Acc) -> (v: u8)
        ensures
            v == crate::cpu::machine::acc(self.r, which),
    {
        match which {
            Acc::A => self.r.a,
            Acc::B => self.r.b,
        }
    }

    fn set_acc(&mut self, which: Acc, v: u8)
        ensures
            *final(self) == (Cpu {
                r: crate::cpu::machine::with_acc(old(self).r, which, v),
                ..*old(self)
            }),
    {
        match which {
            Acc::A => self.r.a = v,
            Acc::B => self.r.b = v,
        }
    }

    fn get_reg16(&self, reg: Reg16) -> (v: u16)
        ensures
            v == crate::cpu::machine::reg16(self.r, reg),
    {
        match reg {
            Reg16::D => make_word(self.r.a, self.r.b),
            Reg16::X => self.r.x,
            Reg16::Y => self.r.y,
            Reg16::U => self.r.u,
            Reg16::S => self.r.s,
        }
    }

    fn set_reg16(&mut self, reg: Reg16, v: u16)
        ensures
            *final(self) == (Cpu {
                r: crate::cpu::machine::with_reg16(old(self).r, reg, v),
                ..*old(self)
            }),
    {
        match reg {
            Reg16::D => {
                self.r.a = high_byte(v);
                self.r.b = low_byte(v);
            },
            Reg16::X => self.r.x = v,
            Reg16::Y => self.r.y = v,
            Reg16::U => self.r.u = v,
            Reg16::S => self.r.s = v,
        }
    }

    fn alu<B: Bus>(&mut self, bus: &mut B, op: Binary, which: Acc, mode: Mode) -> (r: (u32, Opnd))
        requires
            old(bus).wf(),
        ensures
            final(bus).wf(),
            final(self).breakpoints == old(self).breakpoints,
            (r.0, r.1, final(self).mach(*final(bus))) == old(self).mach(*old(bus)).alu(
                op,
                which,
                mode,
            ),
            r.0 <= 100,
    {
        proof {
            reveal(Mach::alu);
        }
        let (v, extra, o) = self.operand8(bus, mode);
        let (res, cc) = binary(op, self.r.cc, self.get_acc(which), v);
        self.set_acc(which, res);
        self.r.cc = cc;
        (pick_by_mode(mode, 2, 4, 4, 5) + extra, o)
    }

    fn store_acc<B: Bus>(&mut self, bus: &mut B, which: Acc, mode: Mode) -> (r: (u32, Opnd))
        requires
            old(bus).wf(),
        ensures
            final(bus).wf(),
            final(self).breakpoints == old(self).breakpoints,
            (r.0, r.1, final(self).mach(*final(bus))) == old(self).mach(*old(bus)).store_acc(
                which,
                mode,
            ),
            r.0 <= 100,
    {
        proof {
            reveal(Mach::store_acc);
        }
        let (addr, extra, o) = self.ea(bus, mode);
        let v: u8 = self.get_acc(which);
        self.bus_write8(bus, addr, v);
        self.r.cc = logic8_nz_clearv(self.r.cc, v);
        (pick_by_mode(mode, 2, 4, 4, 5) + extra, o)
    }

    fn mem<B: Bus>(&mut self, bus: &mut B, op: Unary, mode: Mode) -> (r: (u32, Opnd))
        requires
            old(bus).wf(),
        ensures
            final(bus).wf(),
            final(self).breakpoints == old(self).breakpoints,
            (r.0, r.1, final(self).mach(*final(bus))) == old(self).mach(*old(bus)).mem(op, mode),
            r.0 <= 100,
    {
        proof {
            reveal(Mach::mem);
        }
        let (addr, extra, o) = self.ea(bus, mode);
        let v: u8 = if op == Unary::Clr {
            0
        } else {
            self.bus_read8(bus, addr)
        };
        let (res, cc) = unary(op, self.r.cc, v);
        if op != Unary::Tst {
            self.bus_write8(bus, addr, res);
        }
        self.r.cc = cc;
        (pick_by_mode(mode, 6, 6, 6, 7) + extra, o)
    }

    fn accum<B: Bus>(&mut self, bus: &B, op: Unary, which: Acc) -> (r: (u32, Opnd))
        ensures
            final(self).breakpoints == old(self).breakpoints,
            (r.0, r.1, final(self).mach(*bus)) == old(self).mach(*bus).accum(op, which),
            r.0 <= 100,
    {
        proof {
            reveal(Mach::accum);
        }
        let (res, cc) = unary(op, self.r.cc, self.get_acc(which));
        self.set_acc(which, res);
        self.r.cc = cc;
        (2, Opnd::Nothing)
    }

    fn load16<B: Bus>(&mut self, bus: &mut B, reg: Reg16, mode: Mode, cycles: u32) -> (r: (
        u32,
        Opnd,
    ))
        requires
            old(bus).wf(),
            cycles <= 10,
        ensures
            final(bus).wf(),
            final(self).breakpoints == old(self).breakpoints,
            (r.0, r.1, final(self).mach(*final(bus))) == old(self).mach(*old(bus)).load16(
                reg,
                mode,
                cycles,
            ),
            r.0 <= 100,
    {
        proof {
            reveal(Mach::load16);
        }
        let (v, extra, o) = self.operand16(bus, mode);
        let cc: u8 = logic16_nz_clearv(self.r.cc, v);
        self.set_reg16(reg, v);
        self.r.cc = cc;
        (cycles + extra, o)
    }

    fn store16<B: Bus>(&mut self, bus: &mut B, reg: Reg16, mode: Mode, cycles: u32) -> (r: (
        u32,
        Opnd,
    ))
        requires
            old(bus).wf(),
            cycles <= 10,
        ensures
            final(bus).wf(),
            final(self).breakpoints == old(self).breakpoints,
            (r.0, r.1, final(self).mach(*final(bus))) == old(self).mach(*old(bus)).store16(
                reg,
                mode,
                cycles,
            ),
            r.0 <= 100,
    {
        proof {
            reveal(Mach::store16);
        }
        let (addr, extra, o) = self.ea(bus, mode);
        let v: u16 = self.get_reg16(reg);
        self.bus_write16(bus, addr, v);
        self.r.cc = logic16_nz_clearv(self.r.cc, v);
        (cycles + extra, o)
    }

    fn compare16<B: Bus>(&mut self, bus: &mut B, reg: Reg16, mode: Mode, cycles: u32) -> (r: (
        u32,
        Opnd,
    ))
        requires
            old(bus).wf(),
            cycles <= 10,
        ensures
            final(bus).wf(),
            final(self).breakpoints == old(self).breakpoints,
            (r.0, r.1, final(self).mach(*final(bus))) == old(self).mach(*old(bus)).compare16(
                reg,
                mode,
                cycles,
            ),
            r.0 <= 100,
    {
        proof {
            reveal(Mach::compare16);
        }
        let (v, extra, o) = self.operand16(bus, mode);
        self.r.cc = sub16_flags(self.r.cc, self.get_reg16(reg), v).1;
        (cycles + extra, o)
    }

    fn arith_d<B: Bus>(&mut self, bus: &mut B, subtract: bool, mode: Mode, cycles: u32) -> (r: (
        u32,
        Opnd,
    ))
        requires
            old(bus).wf(),
            cycles <= 10,
        ensures
            final(bus).wf(),
            final(self).breakpoints == old(self).breakpoints,
            (r.0, r.1, final(self).mach(*final(bus))) == old(self).mach(*old(bus)).arith_d(
                subtract,
                mode,
                cycles,
            ),
            r.0 <= 100,
    {
        proof {
            reveal(Mach::arith_d);
        }
        let (v, extra, o) = self.operand16(bus, mode);
        let d: u16 = make_word(self.r.a, self.r.b);
        let (res, cc) = if subtract {
            sub16_flags(self.r.cc, d, v)
        } else {
            add16_flags(self.r.cc, d, v)
        };
        self.set_reg16(Reg16::D, res);
        self.r.cc = cc;
        (cycles + extra, o)
    }

    fn branch<B: Bus>(&mut self, bus: &mut B, code: u8) -> (r: (u32, Opnd))
        requires
            old(bus).wf(),
        ensures
            final(bus).wf(),
            final(self).breakpoints == old(self).breakpoints,
            (r.0, r.1, final(self).mach(*final(bus))) == old(self).mach(*old(bus)).branch(code),
            r.0 <= 100,
    {
        proof {
            reveal(Mach::branch);
        }
        let b: u8 = self.fetch8(bus);
        let target: u16 = offset_by(self.r.pc, to_signed8(b));
        let taken: bool = cond_eval(code, self.r.cc);
        let o: Opnd = Opnd::Relative { raw: b as u16, target, taken };
        if taken {
            self.r.pc = target;
            (3, o)
        } else {
            (2, o)
        }
    }

    fn long_branch<B: Bus>(&mut self, bus: &mut B, code: u8) -> (r: (u32, Opnd))
        requires
            old(bus).wf(),
        ensures
            final(bus).wf(),
            final(self).breakpoints == old(self).breakpoints,
            (r.0, r.1, final(self).mach(*final(bus))) == old(self).mach(*old(bus)).long_branch(
                code,
            ),
            r.0 <= 100,
    {
        proof {
            reveal(Mach::long_branch);
        }
        let w: u16 = self.fetch16(bus);
        let target: u16 = offset_by(self.r.pc, to_signed16(w));
        let taken: bool = cond_eval(code, self.r.cc);
        let o: Opnd = Opnd::Relative { raw: w, target, taken };
        if taken {
            self.r.pc = target;
            (6, o)
        } else {
            (5, o)
        }
    }

    fn lbra<B: Bus>(&mut self, bus: &mut B) -> (r: (u32, Opnd))
        requires
            old(bus).wf(),
        ensures
            final(bus).wf(),
            final(self).breakpoints == old(self).breakpoints,
            (r.0, r.1, final(self).mach(*final(bus))) == old(self).mach(*old(bus)).lbra(),
            r.0 <= 100,
    {
        proof {
            reveal(Mach::lbra);
        }
        let w: u16 = self.fetch16(bus);
        let target: u16 = offset_by(self.r.pc, to_signed16(w));
        self.r.pc = target;
        (5, Opnd::Relative { raw: w, target, taken: true })
    }

    /// Pushes the return address, goes to `target` and records the frame.
    fn call<B: Bus>(&mut self, bus: &mut B, site: u16, target: u16, kind: CallKind)
        requires
            old(bus).wf(),
        ensures
            final(bus).wf(),
            final(self).breakpoints == old(self).breakpoints,
            final(self).mach(*final(bus)) == old(self).mach(*old(bus)).call(site, target, kind),
    {
        let ret: u16 = self.r.pc;
        self.push16(bus, ret);
        self.r.pc = target;
        self.shadow_stack.push(
            CallFrame {
                return_addr: ret,
                call_site: site,
                target,
                sp_at_call: self.r.s,
                kind,
            },
        );
    }

    fn bsr<B: Bus>(&mut self, bus: &mut B, site: u16) -> (r: (u32, Opnd))
        requires
            old(bus).wf(),
        ensures
            final(bus).wf(),
            final(self).breakpoints == old(self).breakpoints,
            (r.0, r.1, final(self).mach(*final(bus))) == old(self).mach(*old(bus)).bsr(site),
            r.0 <= 100,
    {
        proof {
            reveal(Mach::bsr);
        }
        let b: u8 = self.fetch8(bus);
        let target: u16 = offset_by(self.r.pc, to_signed8(b));
        self.call(bus, site, target, CallKind::Bsr);
        (7, Opnd::Relative { raw: b as u16, target, taken: true })
    }

    fn lbsr<B: Bus>(&mut self, bus: &mut B, site: u16) -> (r: (u32, Opnd))
        requires
            old(bus).wf(),
        ensures
            final(bus).wf(),
            final(self).breakpoints == old(self).breakpoints,
            (r.0, r.1, final(self).mach(*final(bus))) == old(self).mach(*old(bus)).lbsr(site),
            r.0 <= 100,
    {
        proof {
            reveal(Mach::lbsr);
        }
        let w: u16 = self.fetch16(bus);
        let target: u16 = offset_by(self.r.pc, to_signed16(w));
        self.call(bus, site, target, CallKind::Bsr);
        (9, Opnd::Relative { raw: w, target, taken: true })
    }

    fn jmp<B: Bus>(&mut self, bus: &mut B, mode: Mode) -> (r: (u32, Opnd))
        requires
            old(bus).wf(),
        ensures
            final(bus).wf(),
            final(self).breakpoints == old(self).breakpoints,
            (r.0, r.1, final(self).mach(*final(bus))) == old(self).mach(*old(bus)).jmp(mode),
            r.0 <= 100,
    {
        proof {
            reveal(Mach::jmp);
        }
        let (addr, extra, o) = self.ea(bus, mode);
        self.r.pc = addr;
        (3 + extra, o)
    }

    fn jsr<B: Bus>(&mut self, bus: &mut B, mode: Mode, site: u16) -> (r: (u32, Opnd))
        requires
            old(bus).wf(),
        ensures
            final(bus).wf(),
            final(self).breakpoints == old(self).breakpoints,
            (r.0, r.1, final(self).mach(*final(bus))) == old(self).mach(*old(bus)).jsr(mode, site),
            r.0 <= 100,
    {
        proof {
            reveal(Mach::jsr);
        }
        let (addr, extra, o) = self.ea(bus, mode);
        self.call(bus, site, addr, CallKind::Jsr);
        (7 + extra, o)
    }

    fn lea<B: Bus>(&mut self, bus: &mut B, reg: Reg16) -> (r: (u32, Opnd))
        requires
            old(bus).wf(),
        ensures
            final(bus).wf(),
            final(self).breakpoints == old(self).breakpoints,
            (r.0, r.1, final(self).mach(*final(bus))) == old(self).mach(*old(bus)).lea(reg),
            r.0 <= 100,
    {
        proof {
            reveal(Mach::lea);
        }
        let (ea, extra, desc) = self.ea_indexed(bus);
        self.set_reg16(reg, ea);
        if reg == Reg16::X || reg == Reg16::Y {
            self.r.cc = put_flag(self.r.cc, Z, ea == 0);
        }
        (4 + extra, Opnd::Index(desc, ea))
    }

    fn push8_if<B: Bus>(&mut self, bus: &mut B, on: bool, v: u8)
        requires
            old(bus).wf(),
        ensures
            final(bus).wf(),
            final(self).breakpoints == old(self).breakpoints,
            final(self).mach(*final(bus)) == old(self).mach(*old(bus)).push8_if(on, v),
    {
        if on {
            self.push8(bus, v);
        }
    }

    fn push16_if<B: Bus>(&mut self, bus: &mut B, on: bool, v: u16)
        requires
            old(bus).wf(),
        ensures
            final(bus).wf(),
            final(self).breakpoints == old(self).breakpoints,
            final(self).mach(*final(bus)) == old(self).mach(*old(bus)).push16_if(on, v),
    {
        if on {
            self.push16(bus, v);
        }
    }

    fn upush8_if<B: Bus>(&mut self, bus: &mut B, on: bool, v: u8)
        requires
            old(bus).wf(),
        ensures
            final(bus).wf(),
            final(self).breakpoints == old(self).breakpoints,
            final(self).mach(*final(bus)) == old(self).mach(*old(bus)).upush8_if(on, v),
    {
        if on {
            self.upush8(bus, v);
        }
    }

    fn upush16_if<B: Bus>(&mut self, bus: &mut B, on: bool, v: u16)
        requires
            old(bus).wf(),
        ensures
            final(bus).wf(),
            final(self).breakpoints == old(self).breakpoints,
            final(self).mach(*final(bus)) == old(self).mach(*old(bus)).upush16_if(on, v),
    {
        if on {
            self.upush16(bus, v);
        }
    }

    fn push_list<B: Bus>(&mut self, bus: &mut B, pb: u8)
        requires
            old(bus).wf(),
        ensures
            final(bus).wf(),
            final(self).breakpoints == old(self).breakpoints,
            final(self).mach(*final(bus)) == old(self).mach(*old(bus)).push_list(pb),
    {
        let r: Registers = self.r;
        self.push16_if(bus, has_flag(pb, 0x80), r.pc);
        self.push16_if(bus, has_flag(pb, 0x40), r.u);
        self.push16_if(bus, has_flag(pb, 0x20), r.y);
        self.push16_if(bus, has_flag(pb, 0x10), r.x);
        self.push8_if(bus, has_flag(pb, 0x08), r.dp);
        self.push8_if(bus, has_flag(pb, 0x04), r.b);
        self.push8_if(bus, has_flag(pb, 0x02), r.a);
        self.push8_if(bus, has_flag(pb, 0x01), r.cc);
    }

    fn upush_list<B: Bus>(&mut self, bus: &mut B, pb: u8)
        requires
            old(bus).wf(),
        ensures
            final(bus).wf(),
            final(self).breakpoints == old(self).breakpoints,
            final(self).mach(*final(bus)) == old(self).mach(*old(bus)).upush_list(pb),
    {
        let r: Registers = self.r;
        self.upush16_if(bus, has_flag(pb, 0x80), r.pc);
        self.upush16_if(bus, has_flag(pb, 0x40), r.s);
        self.upush16_if(bus, has_flag(pb, 0x20), r.y);
        self.upush16_if(bus, has_flag(pb, 0x10), r.x);
        self.upush8_if(bus, has_flag(pb, 0x08), r.dp);
        self.upush8_if(bus, has_flag(pb, 0x04), r.b);
        self.upush8_if(bus, has_flag(pb, 0x02), r.a);
        self.upush8_if(bus, has_flag(pb, 0x01), r.cc);
    }

    fn list_part(pb: u8, bit: u8, size: u32) -> (n: u32)
        ensures
            n == crate::cpu::machine::listed(pb, bit, size),
    {
        if has_flag(pb, bit) {
            size
        } else {
            0
        }
    }

    fn list_size(pb: u8) -> (n: u32)
        ensures
            n == crate::cpu::machine::list_bytes(pb),
            n <= 12,
    {
        Self::list_part(pb, 0x01, 1) + Self::list_part(pb, 0x02, 1) + Self::list_part(pb, 0x04, 1)
            + Self::list_part(pb, 0x08, 1) + Self::list_part(pb, 0x10, 2) + Self::list_part(
            pb,
            0x20,
            2,
        ) + Self::list_part(pb, 0x40, 2) + Self::list_part(pb, 0x80, 2)
    }

    fn psh<B: Bus>(&mut self, bus: &mut B, user: bool) -> (r: (u32, Opnd))
        requires
            old(bus).wf(),
        ensures
            final(bus).wf(),
            final(self).breakpoints == old(self).breakpoints,
            (r.0, r.1, final(self).mach(*final(bus))) == old(self).mach(*old(bus)).psh(user),
            r.0 <= 100,
    {
        proof {
            reveal(Mach::psh);
        }
        let pb: u8 = self.fetch8(bus);
        if user {
            self.upush_list(bus, pb);
        } else {
            self.push_list(bus, pb);
        }
        (5 + Self::list_size(pb), Opnd::Byte(pb))
    }

    fn pull_cc<B: Bus>(&mut self, bus: &mut B, on: bool)
        requires
            old(bus).wf(),
        ensures
            final(bus).wf(),
            final(self).breakpoints == old(self).breakpoints,
            final(self).mach(*final(bus)) == old(self).mach(*old(bus)).pull_cc(on),
    {
        proof {
            reveal(Mach::pull_cc);
        }
        if on {
            self.r.cc = self.pull8(bus);
        }
    }

    fn pull_a<B: Bus>(&mut self, bus: &mut B, on: bool)
        requires
            old(bus).wf(),
        ensures
            final(bus).wf(),
            final(self).breakpoints == old(self).breakpoints,
            final(self).mach(*final(bus)) == old(self).mach(*old(bus)).pull_a(on),
    {
        proof {
            reveal(Mach::pull_a);
        }
        if on {
            self.r.a = self.pull8(bus);
        }
    }

    fn pull_b<B: Bus>(&mut self, bus: &mut B, on: bool)
        requires
            old(bus).wf(),
        ensures
            final(bus).wf(),
            final(self).breakpoints == old(self).breakpoints,
            final(self).mach(*final(bus)) == old(self).mach(*old(bus)).pull_b(on),
    {
        proof {
            reveal(Mach::pull_b);
        }
        if on {
            self.r.b = self.pull8(bus);
        }
    }

    fn pull_dp<B: Bus>(&mut self, bus: &mut B, on: bool)
        requires
            old(bus).wf(),
        ensures
            final(bus).wf(),
            final(self).breakpoints == old(self).breakpoints,
            final(self).mach(*final(bus)) == old(self).mach(*old(bus)).pull_dp(on),
    {
        proof {
            reveal(Mach::pull_dp);
        }
        if on {
            self.r.dp = self.pull8(bus);
        }
    }

    fn pull_x<B: Bus>(&mut self, bus: &mut B, on: bool)
        requires
            old(bus).wf(),
        ensures
            final(bus).wf(),
            final(self).breakpoints == old(self).breakpoints,
            final(self).mach(*final(bus)) == old(self).mach(*old(bus)).pull_x(on),
    {
        proof {
            reveal(Mach::pull_x);
        }
        if on {
            self.r.x = self.pull16(bus);
        }
    }

    fn pull_y<B: Bus>(&mut self, bus: &mut B, on: bool)
        requires
            old(bus).wf(),
        ensures
            final(bus).wf(),
            final(self).breakpoints == old(self).breakpoints,
            final(self).mach(*final(bus)) == old(self).mach(*old(bus)).pull_y(on),
    {
        proof {
            reveal(Mach::pull_y);
        }
        if on {
            self.r.y = self.pull16(bus);
        }
    }

    fn pull_u<B: Bus>(&mut self, bus: &mut B, on: bool)
        requires
            old(bus).wf(),
        ensures
            final(bus).wf(),
            final(self).breakpoints == old(self).breakpoints,
            final(self).mach(*final(bus)) == old(self).mach(*old(bus)).pull_u(on),
    {
        proof {
            reveal(Mach::pull_u);
        }
        if on {
            self.r.u = self.pull16(bus);
        }
    }

    fn pull_pc<B: Bus>(&mut self, bus: &mut B, on: bool)
        requires
            old(bus).wf(),
        ensures
            final(bus).wf(),
            final(self).breakpoints == old(self).breakpoints,
            final(self).mach(*final(bus)) == old(self).mach(*old(bus)).pull_pc(on),
    {
        proof {
            reveal(Mach::pull_pc);
        }
        if on {
            self.r.pc = self.pull16(bus);
        }
    }

    fn pull_list<B: Bus>(&mut self, bus: &mut B, pb: u8)
        requires
            old(bus).wf(),
        ensures
            final(bus).wf(),
            final(self).breakpoints == old(self).breakpoints,
            final(self).mach(*final(bus)) == old(self).mach(*old(bus)).pull_list(pb),
    {
        self.pull_cc(bus, has_flag(pb, 0x01));
        self.pull_a(bus, has_flag(pb, 0x02));
        self.pull_b(bus, has_flag(pb, 0x04));
        self.pull_dp(bus, has_flag(pb, 0x08));
        self.pull_x(bus, has_flag(pb, 0x10));
        self.pull_y(bus, has_flag(pb, 0x20));
        self.pull_u(bus, has_flag(pb, 0x40));
        self.pull_pc(bus, has_flag(pb, 0x80));
        if has_flag(pb, 0x80) {
            self.shadow_stack.pop_for_return(self.r.s);
        }
    }

    fn get_reg16_by_code(&self, code: u8) -> (v: Option<u16>)
        ensures
            v == crate::cpu::machine::transfer16(self.r, code),
    {
        match code {
            0x0 => Some(make_word(self.r.a, self.r.b)),
            0x1 => Some(self.r.x),
            0x2 => Some(self.r.y),
            0x3 => Some(self.r.u),
            0x4 => Some(self.r.s),
            0x5 => Some(self.r.pc),
            _ => None,
        }
    }

    fn set_reg16_by_code(&mut self, code: u8, v: u16)
        ensures
            *final(self) == (Cpu {
                r: crate::cpu::machine::with_transfer16(old(self).r, code, v),
                ..*old(self)
            }),
    {
        match code {
            0x0 => {
                self.r.a = high_byte(v);
                self.r.b = low_byte(v);
            },
            0x1 => self.r.x = v,
            0x2 => self.r.y = v,
            0x3 => self.r.u = v,
            0x4 => self.r.s = v,
            0x5 => self.r.pc = v,
            _ => {},
        }
    }

    fn get_reg8_by_code(&self, code: u8) -> (v: Option<u8>)
        ensures
            v == crate::cpu::machine::transfer8(self.r, code),
    {
        match code {
            0x8 => Some(self.r.a),
            0x9 => Some(self.r.b),
            0xA => Some(self.r.cc),
            0xB => Some(self.r.dp),
            _ => None,
        }
    }

    fn set_reg8_by_code(&mut self, code: u8, v: u8)
        ensures
            *final(self) == (Cpu {
                r: crate::cpu::machine::with_transfer8(old(self).r, code, v),
                ..*old(self)
            }),
    {
        match code {
            0x8 => self.r.a = v,
            0x9 => self.r.b = v,
            0xA => self.r.cc = v,
            0xB => self.r.dp = v,
            _ => {},
        }
    }

    fn upull_byte<B: Bus>(&mut self, bus: &mut B, on: bool, code: u8)
        requires
            old(bus).wf(),
        ensures
            final(bus).wf(),
            final(self).breakpoints == old(self).breakpoints,
            final(self).mach(*final(bus)) == old(self).mach(*old(bus)).upull_byte(on, code),
    {
        if on {
            let v: u8 = self.upull8(bus);
            self.set_reg8_by_code(code, v);
        }
    }

    fn upull_word<B: Bus>(&mut self, bus: &mut B, on: bool, code: u8)
        requires
            old(bus).wf(),
        ensures
            final(bus).wf(),
            final(self).breakpoints == old(self).breakpoints,
            final(self).mach(*final(bus)) == old(self).mach(*old(bus)).upull_word(on, code),
    {
        if on {
            let v: u16 = self.upull16(bus);
            self.set_reg16_by_code(code, v);
        }
    }

    fn upull_list<B: Bus>(&mut self, bus: &mut B, pb: u8)
        requires
            old(bus).wf(),
        ensures
            final(bus).wf(),
            final(self).breakpoints == old(self).breakpoints,
            final(self).mach(*final(bus)) == old(self).mach(*old(bus)).upull_list(pb),
    {
        self.upull_byte(bus, has_flag(pb, 0x01), 0xA);
        self.upull_byte(bus, has_flag(pb, 0x02), 0x8);
        self.upull_byte(bus, has_flag(pb, 0x04), 0x9);
        self.upull_byte(bus, has_flag(pb, 0x08), 0xB);
        self.upull_word(bus, has_flag(pb, 0x10), 0x1);
        self.upull_word(bus, has_flag(pb, 0x20), 0x2);
        self.upull_word(bus, has_flag(pb, 0x40), 0x4);
        self.upull_word(bus, has_flag(pb, 0x80), 0x5);
    }

    fn pul<B: Bus>(&mut self, bus: &mut B, user: bool) -> (r: (u32, Opnd))
        requires
            old(bus).wf(),
        ensures
            final(bus).wf(),
            final(self).breakpoints == old(self).breakpoints,
            (r.0, r.1, final(self).mach(*final(bus))) == old(self).mach(*old(bus)).pul(user),
            r.0 <= 100,
    {
        proof {
            reveal(Mach::pul);
        }
        let pb: u8 = self.fetch8(bus);
        if user {
            self.upull_list(bus, pb);
        } else {
            self.pull_list(bus, pb);
        }
        (5 + Self::list_size(pb), Opnd::Byte(pb))
    }

    fn rts<B: Bus>(&mut self, bus: &mut B) -> (r: (u32, Opnd))
        requires
            old(bus).wf(),
        ensures
            final(bus).wf(),
            final(self).breakpoints == old(self).breakpoints,
            (r.0, r.1, final(self).mach(*final(bus))) == old(self).mach(*old(bus)).rts(),
            r.0 <= 100,
    {
        proof {
            reveal(Mach::rts);
        }
        self.r.pc = self.pull16(bus);
        self.shadow_stack.pop_for_return(self.r.s);
        (5, Opnd::Nothing)
    }

    fn rti<B: Bus>(&mut self, bus: &mut B) -> (r: (u32, Opnd))
        requires
            old(bus).wf(),
        ensures
            final(bus).wf(),
            final(self).breakpoints == old(self).breakpoints,
            (r.0, r.1, final(self).mach(*final(bus))) == old(self).mach(*old(bus)).rti(),
            r.0 <= 100,
    {
        proof {
            reveal(Mach::rti);
        }
        self.pull_cc(bus, true);
        let entire: bool = has_flag(self.r.cc, E);
        self.pull_a(bus, entire);
        self.pull_b(bus, entire);
        self.pull_dp(bus, entire);
        self.pull_x(bus, entire);
        self.pull_y(bus, entire);
        self.pull_u(bus, entire);
        self.pull_pc(bus, true);
        self.shadow_stack.pop_for_rti();
        if entire {
            (15, Opnd::Nothing)
        } else {
            (12, Opnd::Nothing)
        }
    }

    fn push_entire<B: Bus>(&mut self, bus: &mut B)
        requires
            old(bus).wf(),
        ensures
            final(bus).wf(),
            final(self).breakpoints == old(self).breakpoints,
            final(self).mach(*final(bus)) == old(self).mach(*old(bus)).push_entire(),
    {
        let r: Registers = self.r;
        self.push16(bus, r.pc);
        self.push16(bus, r.u);
        self.push16(bus, r.y);
        self.push16(bus, r.x);
        self.push8(bus, r.dp);
        self.push8(bus, r.b);
        self.push8(bus, r.a);
        self.push8(bus, r.cc);
    }

    fn vectored<B: Bus>(&mut self, bus: &mut B, vector: u16, site: u16, ret: u16, kind: CallKind)
        requires
            old(bus).wf(),
        ensures
            final(bus).wf(),
            final(self).breakpoints == old(self).breakpoints,
            final(self).mach(*final(bus)) == old(self).mach(*old(bus)).vectored(vector, site, ret, kind),
    {
        self.r.cc = self.r.cc | 0x50;
        let target: u16 = self.bus_read16(bus, vector);
        self.r.pc = target;
        self.shadow_stack.push(
            CallFrame {
                return_addr: ret,
                call_site: site,
                target,
                sp_at_call: self.r.s,
                kind,
            },
        );
    }

    fn interrupted<B: Bus>(&mut self, bus: &mut B, vector: u16, site: u16, kind: CallKind)
        requires
            old(bus).wf(),
        ensures
            final(bus).wf(),
            final(self).breakpoints == old(self).breakpoints,
            final(self).mach(*final(bus)) == old(self).mach(*old(bus)).interrupted(vector, site, kind),
    {
        let ret: u16 = self.r.pc;
        self.r.cc = self.r.cc | 0x80;
        self.push_entire(bus);
        self.vectored(bus, vector, site, ret, kind);
    }

    fn swi<B: Bus>(&mut self, bus: &mut B, n: u8, site: u16) -> (r: (u32, Opnd))
        requires
            old(bus).wf(),
        ensures
            final(bus).wf(),
            final(self).breakpoints == old(self).breakpoints,
            (r.0, r.1, final(self).mach(*final(bus))) == old(self).mach(*old(bus)).swi(n, site),
            r.0 <= 100,
    {
        proof {
            reveal(Mach::swi);
        }
        let vector: u16 = match n {
            1 => 0xFFFA,
            2 => 0xFFF4,
            _ => 0xFFF2,
        };
        self.interrupted(bus, vector, site, CallKind::Swi(n));
        if n == 1 {
            (19, Opnd::Nothing)
        } else {
            (20, Opnd::Nothing)
        }
    }

    fn cwai<B: Bus>(&mut self, bus: &mut B) -> (r: (u32, Opnd))
        requires
            old(bus).wf(),
        ensures
            final(bus).wf(),
            final(self).breakpoints == old(self).breakpoints,
            (r.0, r.1, final(self).mach(*final(bus))) == old(self).mach(*old(bus)).cwai(),
            r.0 <= 100,
    {
        proof {
            reveal(Mach::cwai);
        }
        let imm: u8 = self.fetch8(bus);
        self.r.cc = (self.r.cc & imm) | 0x80;
        self.push_entire(bus);
        (20, Opnd::Byte(imm))
    }

    fn inherent<B: Bus>(&mut self, bus: &B, instr: Instr) -> (r: (u32, Opnd))
        ensures
            final(self).breakpoints == old(self).breakpoints,
            (r.0, r.1, final(self).mach(*bus)) == old(self).mach(*bus).inherent(instr),
            r.0 <= 100,
    {
        proof {
            reveal(Mach::inherent);
        }
        match instr {
            Instr::Abx => {
                self.r.x = offset_by(self.r.x, self.r.b as i32);
                (3, Opnd::Nothing)
            },
            Instr::Mul => {
                let (d, cc) = multiply(self.r.cc, self.r.a, self.r.b);
                self.set_reg16(Reg16::D, d);
                self.r.cc = cc;
                (11, Opnd::Nothing)
            },
            Instr::Daa => {
                let (a, cc) = daa(self.r.cc, self.r.a);
                self.r.a = a;
                self.r.cc = cc;
                (2, Opnd::Nothing)
            },
            _ => {
                self.r.a = if self.r.b >= 0x80 {
                    0xFF
                } else {
                    0
                };
                self.r.cc = logic16_nz_clearv(self.r.cc, make_word(self.r.a, self.r.b));
                (2, Opnd::Nothing)
            },
        }
    }

    fn exchange(&mut self, pb: u8)
        ensures
            *final(self) == (Cpu {
                r: crate::cpu::machine::exchanged(old(self).r, pb),
                ..*old(self)
            }),
    {
        let src: u8 = pb / 16;
        let dst: u8 = pb % 16;
        if src < 8 && dst < 8 {
            if let (Some(vs), Some(vd)) = (
                self.get_reg16_by_code(src),
                self.get_reg16_by_code(dst),
            ) {
                self.set_reg16_by_code(src, vd);
                self.set_reg16_by_code(dst, vs);
            }
        } else if src >= 8 && dst >= 8 {
            if let (Some(vs), Some(vd)) = (self.get_reg8_by_code(src), self.get_reg8_by_code(dst)) {
                self.set_reg8_by_code(src, vd);
                self.set_reg8_by_code(dst, vs);
            }
        }
    }

    fn transfer(&mut self, pb: u8)
        ensures
            *final(self) == (Cpu {
                r: crate::cpu::machine::transferred(old(self).r, pb),
                ..*old(self)
            }),
    {
        let src: u8 = pb / 16;
        let dst: u8 = pb % 16;
        if src < 8 && dst < 8 {
            if let Some(vs) = self.get_reg16_by_code(src) {
                self.set_reg16_by_code(dst, vs);
            }
        } else if src >= 8 && dst >= 8 {
            if let Some(vs) = self.get_reg8_by_code(src) {
                self.set_reg8_by_code(dst, vs);
            }
        }
    }

    fn with_postbyte<B: Bus>(&mut self, bus: &mut B, instr: Instr) -> (r: (u32, Opnd))
        requires
            old(bus).wf(),
        ensures
            final(bus).wf(),
            final(self).breakpoints == old(self).breakpoints,
            (r.0, r.1, final(self).mach(*final(bus))) == old(self).mach(*old(bus)).with_postbyte(instr),
            r.0 <= 100,
    {
        proof {
            reveal(Mach::with_postbyte);
        }
        let b: u8 = self.fetch8(bus);
        match instr {
            Instr::OrCc => {
                self.r.cc = self.r.cc | b;
                (2, Opnd::Byte(b))
            },
            Instr::AndCc => {
                self.r.cc = self.r.cc & b;
                (2, Opnd::Byte(b))
            },
            Instr::Exg => {
                self.exchange(b);
                (6, Opnd::Byte(b))
            },
            _ => {
                self.transfer(b);
                (6, Opnd::Byte(b))
            },
        }
    }

    /// Executes a decoded instruction that began at `site`.
    fn execute<B: Bus>(&mut self, bus: &mut B, instr: Instr, site: u16) -> (r: (u32, Opnd))
        requires
            old(bus).wf(),
            crate::cpu::isa::small_cycles(instr),
        ensures
            final(bus).wf(),
            final(self).breakpoints == old(self).breakpoints,
            (r.0, r.1, final(self).mach(*final(bus))) == old(self).mach(*old(bus)).execute(
                instr,
                site,
            ),
            r.0 <= 100,
    {
        proof {
            reveal(Mach::execute);
        }
        match instr {
            Instr::Alu { op, acc, mode } => self.alu(bus, op, acc, mode),
            Instr::StoreAcc { acc, mode } => self.store_acc(bus, acc, mode),
            Instr::Mem { unary, mode } => self.mem(bus, unary, mode),
            Instr::Accum { unary, acc } => self.accum(bus, unary, acc),
            Instr::Load16 { reg, mode, cycles } => self.load16(bus, reg, mode, cycles),
            Instr::Store16 { reg, mode, cycles } => self.store16(bus, reg, mode, cycles),
            Instr::Compare16 { reg, mode, cycles } => self.compare16(bus, reg, mode, cycles),
            Instr::AddD { mode, cycles } => self.arith_d(bus, false, mode, cycles),
            Instr::SubD { mode, cycles } => self.arith_d(bus, true, mode, cycles),
            Instr::Branch { code } => self.branch(bus, code),
            Instr::LongBranch { code } => self.long_branch(bus, code),
            Instr::Lbra => self.lbra(bus),
            Instr::Bsr => self.bsr(bus, site),
            Instr::Lbsr => self.lbsr(bus, site),
            Instr::Jmp { mode } => self.jmp(bus, mode),
            Instr::Jsr { mode } => self.jsr(bus, mode, site),
            Instr::Lea { reg } => self.lea(bus, reg),
            Instr::Push { user } => self.psh(bus, user),
            Instr::Pull { user } => self.pul(bus, user),
            Instr::Rts => self.rts(bus),
            Instr::Rti => self.rti(bus),
            Instr::Swi { n } => self.swi(bus, n, site),
            Instr::Cwai => self.cwai(bus),
            Instr::Sync | Instr::Nop => (2, Opnd::Nothing),
            Instr::Abx | Instr::Mul | Instr::Daa | Instr::Sex => self.inherent(bus, instr),
            Instr::Exg | Instr::Tfr | Instr::OrCc | Instr::AndCc => self.with_postbyte(bus, instr),
            Instr::Unknown | Instr::UnknownPrefixed => (1, Opnd::Nothing),
        }
    }

    /// Fetches and decodes one instruction.
    fn decode<B: Bus>(&mut self, bus: &mut B) -> (r: (u8, u8, Instr))
        requires
            old(bus).wf(),
        ensures
            final(bus).wf(),
            final(self).breakpoints == old(self).breakpoints,
            (r.0, r.1, r.2, final(self).mach(*final(bus))) == old(self).mach(*old(bus)).decode(),
            crate::cpu::isa::small_cycles(r.2),
    {
        let op: u8 = self.fetch8(bus);
        if op == 0x10 {
            let sub: u8 = self.fetch8(bus);
            (op, sub, decode_page2(sub))
        } else if op == 0x11 {
            let sub: u8 = self.fetch8(bus);
            (op, sub, decode_page3(sub))
        } else {
            (0, op, decode_page1(op))
        }
    }

    /// Puts a line into the log.
    fn emit<B: Bus>(&mut self, bus: &B, line: String)
        ensures
            final(self).breakpoints == old(self).breakpoints,
            final(self).mach(*bus) == old(self).mach(*bus).logged(true, line@),
    {
        let ghost before = self.log@;
        self.log.push(line);
        assert(crate::text::texts(self.log@) =~= crate::text::texts(before).push(line@));
    }

    fn log_irq<B: Bus>(&mut self, bus: &B, head: &str, pc: u16)
        ensures
            final(self).breakpoints == old(self).breakpoints,
            final(self).mach(*bus) == old(self).mach(*bus).logged(
                old(self).irq_log,
                crate::cpu::machine::irq_line(head@, pc, old(self).r.pc),
            ),
    {
        if self.irq_log {
            let mut line: String = String::new();
            push_text(&mut line, head);
            push_hex4(&mut line, pc);
            push_text(&mut line, " -> vec=$");
            push_hex4(&mut line, self.r.pc);
            assert(line@ =~= crate::cpu::machine::irq_line(head@, pc, self.r.pc));
            self.emit(bus, line);
        }
    }

    fn service_nmi<B: Bus>(&mut self, bus: &mut B)
        requires
            old(bus).wf(),
        ensures
            final(bus).wf(),
            final(self).breakpoints == old(self).breakpoints,
            final(self).mach(*final(bus)) == old(self).mach(*old(bus)).service_nmi(),
    {
        proof {
            reveal(Mach::service_nmi);
        }
        let pc: u16 = self.r.pc;
        self.interrupted(bus, 0xFFFC, pc, CallKind::Nmi);
        self.nmi_pending = false;
        self.log_irq(bus, "[irq] NMI: pc=$", pc);
    }

    fn service_irq<B: Bus>(&mut self, bus: &mut B)
        requires
            old(bus).wf(),
        ensures
            final(bus).wf(),
            final(self).breakpoints == old(self).breakpoints,
            final(self).mach(*final(bus)) == old(self).mach(*old(bus)).service_irq(),
    {
        proof {
            reveal(Mach::service_irq);
        }
        let pc: u16 = self.r.pc;
        self.interrupted(bus, 0xFFF8, pc, CallKind::Irq);
        self.irq_pending = false;
        self.log_irq(bus, "[irq] IRQ: pc=$", pc);
    }

    fn service_firq<B: Bus>(&mut self, bus: &mut B)
        requires
            old(bus).wf(),
        ensures
            final(bus).wf(),
            final(self).breakpoints == old(self).breakpoints,
            final(self).mach(*final(bus)) == old(self).mach(*old(bus)).service_firq(),
    {
        proof {
            reveal(Mach::service_firq);
        }
        let pc: u16 = self.r.pc;
        self.push16(bus, pc);
        self.push8(bus, self.r.cc);
        self.r.cc = self.r.cc & !0x80u8;
        self.vectored(bus, 0xFFF6, pc, pc, CallKind::Firq);
        self.firq_pending = false;
        self.log_irq(bus, "[irq] FIRQ: pc=$", pc);
    }

    /// Takes the pending interrupt that comes first; returns its cycles.
    fn service<B: Bus>(&mut self, bus: &mut B) -> (used: u32)
        requires
            old(bus).wf(),
        ensures
            final(bus).wf(),
            final(self).breakpoints == old(self).breakpoints,
            (used, final(self).mach(*final(bus))) == old(self).mach(*old(bus)).service(),
            used <= 19,
    {
        proof {
            reveal(Mach::service);
        }
        if self.nmi_pending {
            self.service_nmi(bus);
            19
        } else if self.firq_pending && !has_flag(self.r.cc, F) {
            self.service_firq(bus);
            10
        } else if self.irq_pending && !has_flag(self.r.cc, I) {
            self.service_irq(bus);
            19
        } else {
            0
        }
    }

    fn spend<B: Bus>(&mut self, bus: &B, used: u32)
        ensures
            final(self).breakpoints == old(self).breakpoints,
            final(self).mach(*bus) == old(self).mach(*bus).spend(used),
    {
        self.cycles = self.cycles.wrapping_add(used as u64);
    }

    fn poll<B: Bus>(&mut self, bus: &mut B)
        requires
            old(bus).wf(),
        ensures
            final(bus).wf(),
            final(self).breakpoints == old(self).breakpoints,
            final(self).mach(*final(bus)) == old(self).mach(*old(bus)).poll(),
    {
        let (nmi, firq, irq) = bus.irq_lines();
        self.nmi_pending = self.nmi_pending || nmi;
        self.firq_pending = self.firq_pending || firq;
        self.irq_pending = self.irq_pending || irq;
    }

    /// Executes one instruction, then takes at most one interrupt. Returns the
    /// cycles that both took. With `trace` a line about the instruction goes
    /// into the log.
    pub fn step<B: Bus>(&mut self, bus: &mut B, trace: bool) -> (used: u32)
        requires
            old(bus).wf(),
        ensures
            final(bus).wf(),
            final(self).breakpoints == old(self).breakpoints,
            (used, final(self).mach(*final(bus))) == old(self).mach(*old(bus)).step(trace),
    {
        let pc0: u16 = self.r.pc;
        let (prefix, op, instr) = self.decode(bus);
        let (used, o) = self.execute(bus, instr, pc0);
        if trace {
            let line: String = crate::cpu::trace::trace_line(pc0, prefix, op, instr, o);
            self.emit(bus, line);
        }
        self.spend(bus, used);
        self.poll(bus);
        let more: u32 = self.service(bus);
        self.spend(bus, more);
        used + more
    }
}

/// Why [`Cpu::step_over`] or [`Cpu::step_out`] stopped. PC is left where
/// execution stopped.
#[must_use]
#[derive(Debug, Clone, Copy, PartialEq, Eq, Structural)]
pub enum StepStop {
    /// PC reached the instruction behind the call, or the return address of
    /// the top frame.
    ReturnTarget,
    /// A breakpoint came first.
    Breakpoint(BreakpointId),
    /// The limit of instructions was used up and PC had not reached the target.
    Limit,
    /// There was no call to step over; the instruction was executed.
    NotACall,
    /// There was no frame to step out of.
    EmptyStack,
}

/// Whether the instruction at `pc` is a call (BSR, LBSR, JSR, SWI, SWI2 or
/// SWI3), and the state of the bus behind the reads.
pub open spec fn calls_at<B: Bus>(m: B::V, pc: u16) -> (bool, B::V) {
    let (op, m1) = rd8::<B>(m, pc);
    if op == 0x8D || op == 0x17 || op == 0x9D || op == 0xAD || op == 0xBD || op == 0x3F {
        (true, m1)
    } else if op == 0x10 || op == 0x11 {
        let (sub, m2) = rd8::<B>(m1, offset(pc, 1));
        (sub == 0x3F, m2)
    } else {
        (false, m1)
    }
}

/// Runs until PC is `target`, a breakpoint stops the program or `limit`
/// instructions, `count` of them executed before, are used up: why it stopped,
/// the machine and the breakpoints.
pub open spec fn run_until<B: Bus>(
    s: Mach<B>,
    bps: Seq<Breakpoint>,
    target: u16,
    count: u32,
    limit: u32,
) -> (StepStop, Mach<B>, Seq<Breakpoint>)
    decreases limit - count,
{
    if s.r.pc == target {
        (StepStop::ReturnTarget, s, bps)
    } else if count >= limit {
        (StepStop::Limit, s, bps)
    } else {
        let (hit, bps1) = checked(bps, s.r.pc, s.r);
        match hit {
            Some(id) => (StepStop::Breakpoint(id), s, bps1),
            None => run_until(s.step(false).1, bps1, target, (count + 1) as u32, limit),
        }
    }
}

/// What a check of the breakpoints at `pc` returns, and the breakpoints behind
/// it.
pub open spec fn checked(bps: Seq<Breakpoint>, pc: u16, regs: Registers) -> (
    Option<BreakpointId>,
    Seq<Breakpoint>,
) {
    (
        first_stop(bps, pc, |b: Breakpoint| condition_passes(b.condition, regs), 0),
        bps.map_values(|b: Breakpoint| passed(b, pc, condition_passes(b.condition, regs))),
    )
}

/// Stepping over the instruction at PC: why it stopped, the machine and the
/// breakpoints.
pub open spec fn stepped_over<B: Bus>(s: Mach<B>, bps: Seq<Breakpoint>, limit: u32) -> (
    StepStop,
    Mach<B>,
    Seq<Breakpoint>,
) {
    let pc = s.r.pc;
    let (call, m1) = calls_at::<B>(s.m, pc);
    let s1 = Mach { m: m1, ..s };
    if call {
        let (len, text, m2) = disassembled::<B>(m1, pc);
        let s2 = Mach { m: m2, ..s1 };
        run_until(s2.step(false).1, bps, offset(pc, len as int), 1, limit)
    } else {
        (StepStop::NotACall, s1.step(false).1, bps)
    }
}

/// Stepping out of the current callee.
pub open spec fn stepped_out<B: Bus>(s: Mach<B>, bps: Seq<Breakpoint>, limit: u32) -> (
    StepStop,
    Mach<B>,
    Seq<Breakpoint>,
) {
    if s.frames.len() == 0 {
        (StepStop::EmptyStack, s, bps)
    } else {
        run_until(s, bps, s.frames.last().return_addr, 0, limit)
    }
}

/// Tells whether the instruction at `pc` is a call.
fn is_call_instruction<B: Bus>(bus: &mut B, pc: u16) -> (call: bool)
    requires
        old(bus).wf(),
    ensures
        final(bus).wf(),
        (call, final(bus)@) == calls_at::<B>(old(bus)@, pc),
{
    let op: u8 = bus.read8(pc);
    match op {
        0x8D | 0x17 | 0x9D | 0xAD | 0xBD | 0x3F => true,
        0x10 | 0x11 => bus.read8(offset_by(pc, 1)) == 0x3F,
        _ => false,
    }
}

impl Cpu {
    /// A CPU with every register and latch clear.
    pub fn new() -> (cpu: Self)
        ensures
            cpu.r == zero_registers(),
            cpu.cycles == 0,
            !cpu.nmi_pending,
            !cpu.firq_pending,
            !cpu.irq_pending,
            cpu.shadow_stack@ == Seq::<CallFrame>::empty(),
            cpu.breakpoints@ == Seq::<Breakpoint>::empty(),
            cpu.breakpoints.next_id() == 1,
            !cpu.irq_log,
            cpu.log@ == Seq::<String>::empty(),
    {
        Cpu {
            r: Registers::default(),
            cycles: 0,
            nmi_pending: false,
            firq_pending: false,
            irq_pending: false,
            shadow_stack: ShadowCallStack::new(),
            breakpoints: BreakpointSet::new(),
            irq_log: false,
            log: Vec::new(),
        }
    }

    /// Asks the breakpoints about a passage of `pc` with the current registers.
    pub fn check_breakpoint(&mut self, pc: u16) -> (hit: Option<BreakpointId>)
        ensures
            (hit, final(self).breakpoints@) == checked(old(self).breakpoints@, pc, old(self).r),
            final(self).breakpoints.next_id() == old(self).breakpoints.next_id(),
            *final(self) == (Cpu { breakpoints: final(self).breakpoints, ..*old(self) }),
    {
        let regs: Registers = self.r;
        self.breakpoints.check(pc, &regs)
    }

    /// Loads PC from the reset vector, masks the interrupts, clears DP and
    /// forgets the frames. The breakpoints stay.
    pub fn reset<B: Bus>(&mut self, bus: &mut B)
        requires
            old(bus).wf(),
        ensures
            final(bus).wf(),
            final(self).breakpoints == old(self).breakpoints,
            final(self).mach(*final(bus)) == old(self).mach(*old(bus)).restarted(),
    {
        let pc: u16 = self.bus_read16(bus, 0xFFFE);
        self.r.pc = pc;
        self.r.cc = 0x50;
        self.r.dp = 0;
        self.shadow_stack.clear();
    }

    pub fn set_pc(&mut self, pc: u16)
        ensures
            *final(self) == (Cpu { r: Registers { pc: pc, ..old(self).r }, ..*old(self) }),
    {
        self.r.pc = pc;
    }

    /// Runs until PC is `target`, a breakpoint stops the program or the limit
    /// is used up.
    fn run_to<B: Bus>(&mut self, bus: &mut B, target: u16, done: u32, limit: u32) -> (stop:
        StepStop)
        requires
            old(bus).wf(),
        ensures
            final(bus).wf(),
            final(self).breakpoints.next_id() == old(self).breakpoints.next_id(),
            (stop, final(self).mach(*final(bus)), final(self).breakpoints@) == run_until(
                old(self).mach(*old(bus)),
                old(self).breakpoints@,
                target,
                done,
                limit,
            ),
    {
        let mut count: u32 = done;
        while self.r.pc != target && count < limit
            invariant
                bus.wf(),
                self.breakpoints.next_id() == old(self).breakpoints.next_id(),
                run_until(
                    old(self).mach(*old(bus)),
                    old(self).breakpoints@,
                    target,
                    done,
                    limit,
                ) == run_until(self.mach(*bus), self.breakpoints@, target, count, limit),
            decreases limit - count,
        {
            let ghost before = *self;
            let hit: Option<BreakpointId> = self.check_breakpoint(self.r.pc);
            assert(self.mach(*bus) == before.mach(*bus));
            if let Some(id) = hit {
                return StepStop::Breakpoint(id);
            }
            let _ = self.step(bus, false);
            count = count + 1;
        }
        if self.r.pc == target {
            StepStop::ReturnTarget
        } else {
            StepStop::Limit
        }
    }

    /// Steps over the instruction at PC: a call is run until PC reaches the
    /// byte behind it, a breakpoint stops the program, or `limit` instructions
    /// are used up. Anything else is executed once.
    pub fn step_over<B: Bus>(&mut self, bus: &mut B, limit: u32) -> (stop: StepStop)
        requires
            old(bus).wf(),
        ensures
            final(bus).wf(),
            final(self).breakpoints.next_id() == old(self).breakpoints.next_id(),
            (stop, final(self).mach(*final(bus)), final(self).breakpoints@) == stepped_over(
                old(self).mach(*old(bus)),
                old(self).breakpoints@,
                limit,
            ),
    {
        let pc0: u16 = self.r.pc;
        if !is_call_instruction(bus, pc0) {
            let _ = self.step(bus, false);
            return StepStop::NotACall;
        }
        let (len, _) = disasm_one(bus, pc0);
        let target: u16 = offset_by(pc0, len as i32);
        let _ = self.step(bus, false);
        self.run_to(bus, target, 1, limit)
    }

    /// Runs until PC is the return address of the top frame, a breakpoint stops
    /// the program, or `limit` instructions are used up.
    pub fn step_out<B: Bus>(&mut self, bus: &mut B, limit: u32) -> (stop: StepStop)
        requires
            old(bus).wf(),
        ensures
            final(bus).wf(),
            final(self).breakpoints.next_id() == old(self).breakpoints.next_id(),
            (stop, final(self).mach(*final(bus)), final(self).breakpoints@) == stepped_out(
                old(self).mach(*old(bus)),
                old(self).breakpoints@,
                limit,
            ),
    {
        let target: u16 = match self.shadow_stack.peek() {
            Some(frame) => frame.return_addr,
            None => {
                return StepStop::EmptyStack;
            },
        };
        self.run_to(bus, target, 0, limit)
    }

    pub fn request_nmi(&mut self)
        ensures
            *final(self) == (Cpu { nmi_pending: true, ..*old(self) }),
    {
        self.nmi_pending = true;
    }

    pub fn request_firq(&mut self)
        ensures
            *final(self) == (Cpu { firq_pending: true, ..*old(self) }),
    {
        self.firq_pending = true;
    }

    pub fn request_irq(&mut self)
        ensures
            *final(self) == (Cpu { irq_pending: true, ..*old(self) }),
    {
        self.irq_pending = true;
    }

    /// The trace and log lines since the last call.
    pub fn take_log(&mut self) -> (lines: Vec<String>)
        ensures
            lines@ == old(self).log@,
            final(self).log@ == Seq::<String>::empty(),
            *final(self) == (Cpu { log: final(self).log, ..*old(self) }),
    {
        let mut lines: Vec<String> = Vec::new();
        std::mem::swap(&mut lines, &mut self.log);
        lines
    }
}

impl Default for Cpu {
    fn default() -> (cpu: Self)
        ensures
            cpu.r == zero_registers(),
            cpu.cycles == 0,
            !cpu.nmi_pending,
            !cpu.firq_pending,
            !cpu.irq_pending,
            cpu.shadow_stack@ == Seq::<CallFrame>::empty(),
            cpu.breakpoints@ == Seq::<Breakpoint>::empty(),
            cpu.breakpoints.next_id() == 1,
            !cpu.irq_log,
            cpu.log@ == Seq::<String>::empty(),
    {
        Cpu::new()
    }
}

/// Switches the log of interrupt entries on or off.
pub fn set_irq_log(cpu: &mut Cpu, on: bool)
    ensures
        *final(cpu) == (Cpu { irq_log: on, ..*old(cpu) }),
{
    cpu.irq_log = on;
}

/// A copy of the registers.
pub fn regs_snapshot(cpu: &Cpu) -> (r: Registers)
    ensures
        r == cpu.r,
{
    cpu.r
}

} // verus!
