//! The MC6829 paging MMU.

use crate::alu::{flag, has_flag, low, offset, offset_by};
use crate::bus::{overlay, write_all, write_slice, Bus};
use crate::text::{digits, hex_char, hex_digit, push_digits, push_text, texts};
use vstd::prelude::*;

verus! {

/// The state of an [`Mc6829`]. The maps and attributes hold 16 pages for each
/// of 8 tasks, task by task.
pub struct MmuState {
    /// Physical memory.
    pub phys: Seq<u8>,
    pub task: u8,
    pub map_user: Seq<u16>,
    pub map_sys: Seq<u16>,
    /// Attributes of a page: bit 0 write-protected, bit 1 read-protected, bit 2
    /// not executable.
    pub attr_user: Seq<u8>,
    pub attr_sys: Seq<u8>,
    pub sys_mode: bool,
    /// Bit 0 enables write protection, bit 1 interrupts on faults, bit 2 read
    /// protection, bit 3 execute protection; bit 4 routes the interrupt to FIRQ.
    pub prot_ctrl: u8,
    /// The faults seen since the last read: bit 0 write, bit 1 read, bit 2
    /// execute.
    pub fault_status: u8,
    pub regs_base: u16,
    pub regs_enable: bool,
    pub log_maps: bool,
    pub log: Seq<Seq<char>>,
}

/// A bus that translates 16 logical pages of 4 KiB through the map of the
/// current task, checks the attributes of the page, and shows its registers in
/// a window of 40 bytes.
pub struct Mc6829 {
    phys: Vec<u8>,
    /// The current task, 0 to 7.
    pub task: u8,
    map_user: [u16; 128],
    map_sys: [u16; 128],
    attr_user: [u8; 128],
    attr_sys: [u8; 128],
    sys_mode: bool,
    prot_ctrl: u8,
    fault_status: u8,
    /// Logical address of the register window.
    pub regs_base: u16,
    regs_enable: bool,
    log_maps: bool,
    log: Vec<String>,
}

impl View for Mc6829 {
    type V = MmuState;

    closed spec fn view(&self) -> MmuState {
        MmuState {
            phys: self.phys@,
            task: self.task,
            map_user: self.map_user@,
            map_sys: self.map_sys@,
            attr_user: self.attr_user@,
            attr_sys: self.attr_sys@,
            sys_mode: self.sys_mode,
            prot_ctrl: self.prot_ctrl,
            fault_status: self.fault_status,
            regs_base: self.regs_base,
            regs_enable: self.regs_enable,
            log_maps: self.log_maps,
            log: texts(self.log@),
        }
    }
}

/// One hexadecimal number without leading zeros.
pub open spec fn hex_short(v: u8) -> Seq<char> {
    if v < 16 {
        seq![hex_digit(v as int)]
    } else {
        seq![hex_digit(v as int / 16), hex_digit(v as int % 16)]
    }
}

/// Frames of an identity map for one task.
pub open spec fn with_identity(map: Seq<u16>, task: int) -> Seq<u16> {
    Seq::new(
        map.len(),
        |i: int|
            if task * 16 <= i < task * 16 + 16 {
                (i - task * 16) as u16
            } else {
                map[i]
            },
    )
}

impl MmuState {
    /// The tables have their sizes and the task is one of the eight.
    pub open spec fn valid(self) -> bool {
        &&& self.task < 8
        &&& self.map_user.len() == 128
        &&& self.map_sys.len() == 128
        &&& self.attr_user.len() == 128
        &&& self.attr_sys.len() == 128
    }

    /// The place of a page of the current task in the tables.
    pub open spec fn slot(self, page: int) -> int {
        self.task * 16 + page
    }

    pub open spec fn map_of(self, sys: bool) -> Seq<u16> {
        if sys {
            self.map_sys
        } else {
            self.map_user
        }
    }

    pub open spec fn attr_of(self, sys: bool) -> Seq<u8> {
        if sys {
            self.attr_sys
        } else {
            self.attr_user
        }
    }

    /// The physical frame of a page in the current mode.
    pub open spec fn frame(self, page: int) -> u16 {
        self.map_of(self.sys_mode)[self.slot(page)]
    }

    /// The attributes of a page in the current mode.
    pub open spec fn attr(self, page: int) -> u8 {
        self.attr_of(self.sys_mode)[self.slot(page)]
    }

    pub open spec fn map_line(self, page: int, frame: u16) -> Seq<char> {
        "[mmu] "@ + (if self.sys_mode {
            "sys"@
        } else {
            "user"@
        }) + " task"@ + digits(self.task as nat) + ": P"@ + seq![hex_digit(page % 16)] + " -> F"@
            + hex_short(low(frame))
    }

    /// Maps a page of the current task and mode.
    pub open spec fn with_frame(self, page: int, frame: u16) -> MmuState {
        let s = if self.sys_mode {
            MmuState { map_sys: self.map_sys.update(self.slot(page), frame), ..self }
        } else {
            MmuState { map_user: self.map_user.update(self.slot(page), frame), ..self }
        };
        if self.log_maps {
            MmuState { log: self.log.push(self.map_line(page, frame)), ..s }
        } else {
            s
        }
    }

    pub open spec fn with_attr(self, page: int, attr: u8) -> MmuState {
        if self.sys_mode {
            MmuState { attr_sys: self.attr_sys.update(self.slot(page), attr), ..self }
        } else {
            MmuState { attr_user: self.attr_user.update(self.slot(page), attr), ..self }
        }
    }

    pub open spec fn with_identity(self) -> MmuState {
        MmuState {
            map_user: with_identity(self.map_user, self.task as int),
            map_sys: with_identity(self.map_sys, self.task as int),
            ..self
        }
    }

    /// The place of `addr` in the register window.
    pub open spec fn window(self, addr: u16) -> u16 {
        offset(addr, -(self.regs_base as int))
    }

    pub open spec fn in_window(self, addr: u16) -> bool {
        self.regs_enable && self.window(addr) < 0x28
    }

    /// A register: `$00` to `$0F` the frames of the current task, `$10` the
    /// task, `$11` the mode, `$12` the protection control, `$13` the faults,
    /// `$18` to `$27` the attributes.
    pub open spec fn reg(self, off: u16) -> u8 {
        if off < 0x10 {
            low(self.frame(off as int))
        } else if off == 0x10 {
            self.task
        } else if off == 0x11 {
            if self.sys_mode {
                1
            } else {
                0
            }
        } else if off == 0x12 {
            self.prot_ctrl
        } else if off == 0x13 {
            self.fault_status
        } else if 0x18 <= off < 0x28 {
            self.attr(off - 0x18)
        } else {
            0xFF
        }
    }

    /// A read of the fault register clears it.
    pub open spec fn reg_read(self, off: u16) -> MmuState {
        if off == 0x13 {
            MmuState { fault_status: 0, ..self }
        } else {
            self
        }
    }

    pub open spec fn reg_write(self, off: u16, data: u8) -> MmuState {
        if off < 0x10 {
            self.with_frame(off as int, data as u16)
        } else if off == 0x10 {
            MmuState { task: data % 8, ..self }
        } else if off == 0x11 {
            MmuState { sys_mode: data % 2 == 1, ..self }
        } else if off == 0x12 {
            MmuState { prot_ctrl: data, ..self }
        } else if 0x18 <= off < 0x28 {
            self.with_attr(off - 0x18, data)
        } else {
            self
        }
    }

    /// The physical address of a logical one, where there is memory.
    pub open spec fn translate(self, addr: u16) -> Option<int> {
        let p = self.frame(addr as int / 4096) * 4096 + addr as int % 4096;
        if p < self.phys.len() {
            Some(p)
        } else {
            None
        }
    }

    /// Whether protection bit `enable` is on and the page of `addr` has
    /// attribute `bit`.
    pub open spec fn guarded(self, addr: u16, enable: u8, bit: u8) -> bool {
        flag(self.prot_ctrl, enable) && flag(self.attr(addr as int / 4096), bit)
    }

    pub open spec fn faulted(self, bit: u8) -> MmuState {
        MmuState { fault_status: self.fault_status | bit, ..self }
    }

    /// The map of a mode for display: the frame's low byte, the attributes
    /// above it.
    pub open spec fn shown(self, sys: bool) -> Seq<u16> {
        Seq::new(
            16,
            |i: int|
                (low(self.map_of(sys)[self.slot(i)]) + 256 * self.attr_of(sys)[self.slot(
                    i,
                )]) as u16,
        )
    }
}

/// A new MMU over `bytes` zero bytes of physical memory: task 0, user mode,
/// page n of task 0 on frame n.
pub open spec fn fresh(bytes: nat, regs_base: u16) -> MmuState {
    let zeros = Seq::new(128, |i: int| 0u16);
    MmuState {
        phys: Seq::new(bytes, |i: int| 0u8),
        task: 0,
        map_user: with_identity(zeros, 0),
        map_sys: with_identity(zeros, 0),
        attr_user: Seq::new(128, |i: int| 0u8),
        attr_sys: Seq::new(128, |i: int| 0u8),
        sys_mode: false,
        prot_ctrl: 0,
        fault_status: 0,
        regs_base,
        regs_enable: true,
        log_maps: false,
        log: Seq::empty(),
    }
}

fn push_hex_short(out: &mut String, v: u8)
    ensures
        final(out)@ == old(out)@ + hex_short(v),
{
    if v >= 16 {
        out.push(hex_char(v / 16));
    }
    out.push(hex_char(v % 16));
    assert(out@ =~= old(out)@ + hex_short(v));
}

impl Mc6829 {
    /// A fresh MMU over `phys_bytes` of physical memory, with its register
    /// window at the logical address `regs_base`.
    pub fn new(phys_bytes: usize, regs_base: u16) -> (m: Self)
        ensures
            m.wf(),
            m@ == fresh(phys_bytes as nat, regs_base),
    {
        let mut phys: Vec<u8> = Vec::new();
        while phys.len() < phys_bytes
            invariant
                phys@.len() <= phys_bytes,
                phys@ == Seq::new(phys@.len(), |i: int| 0u8),
            decreases phys_bytes - phys@.len(),
        {
            let ghost n = phys@.len();
            phys.push(0);
            assert(phys@ =~= Seq::new(n + 1, |i: int| 0u8));
        }
        let mut m = Mc6829 {
            phys,
            task: 0,
            map_user: [0; 128],
            map_sys: [0; 128],
            attr_user: [0; 128],
            attr_sys: [0; 128],
            sys_mode: false,
            prot_ctrl: 0,
            fault_status: 0,
            regs_base,
            regs_enable: true,
            log_maps: false,
            log: Vec::new(),
        };
        assert(m.map_user@ =~= Seq::new(128, |i: int| 0u16));
        assert(m.map_sys@ =~= Seq::new(128, |i: int| 0u16));
        assert(m.attr_user@ =~= Seq::new(128, |i: int| 0u8));
        assert(m.attr_sys@ =~= Seq::new(128, |i: int| 0u8));
        assert(texts(m.log@) =~= Seq::<Seq<char>>::empty());
        m.identity_map_current();
        m
    }

    /// Maps every page of the current task onto the frame of its number, in
    /// both modes.
    pub fn identity_map_current(&mut self)
        requires
            old(self).wf(),
        ensures
            final(self).wf(),
            final(self)@ == old(self)@.with_identity(),
    {
        let base: usize = self.task as usize * 16;
        let ghost user = self.map_user@;
        let ghost sys = self.map_sys@;
        let mut i: usize = 0;
        while i < 16
            invariant
                i <= 16,
                base == self.task * 16,
                self.task < 8,
                *self == (Mc6829 { map_user: self.map_user, map_sys: self.map_sys, ..*old(self) }),
                user == old(self).map_user@,
                sys == old(self).map_sys@,
                forall|j: int|
                    0 <= j < 128 ==> self.map_user@[j] == if base <= j < base + i {
                        (j - base) as u16
                    } else {
                        user[j]
                    },
                forall|j: int|
                    0 <= j < 128 ==> self.map_sys@[j] == if base <= j < base + i {
                        (j - base) as u16
                    } else {
                        sys[j]
                    },
            decreases 16 - i,
        {
            self.map_user[base + i] = i as u16;
            self.map_sys[base + i] = i as u16;
            i = i + 1;
        }
        assert(self.map_user@ =~= with_identity(user, self.task as int));
        assert(self.map_sys@ =~= with_identity(sys, self.task as int));
    }

    /// Selects a task, modulo 8.
    pub fn set_task(&mut self, t: u8)
        requires
            old(self).wf(),
        ensures
            final(self).wf(),
            final(self)@ == (MmuState { task: t % 8, ..old(self)@ }),
    {
        self.task = t % 8;
    }

    /// Switches the log of map changes on or off.
    pub fn set_log_maps(&mut self, on: bool)
        requires
            old(self).wf(),
        ensures
            final(self).wf(),
            final(self)@ == (MmuState { log_maps: on, ..old(self)@ }),
    {
        self.log_maps = on;
    }

    /// Writes the register at place `off` of the window, wherever it is shown.
    pub fn set_register(&mut self, off: u16, data: u8)
        requires
            old(self).wf(),
        ensures
            final(self).wf(),
            final(self)@ == old(self)@.reg_write(off, data),
    {
        if off < 0x10 {
            self.set_map_entry(off as usize, data as u16);
        } else if off == 0x10 {
            self.task = data % 8;
        } else if off == 0x11 {
            self.sys_mode = data % 2 == 1;
        } else if off == 0x12 {
            self.prot_ctrl = data;
        } else if 0x18 <= off && off < 0x28 {
            let at: usize = self.task as usize * 16 + (off - 0x18) as usize;
            if self.sys_mode {
                self.attr_sys[at] = data;
                assert(self.attr_sys@ =~= old(self).attr_sys@.update(at as int, data));
            } else {
                self.attr_user[at] = data;
                assert(self.attr_user@ =~= old(self).attr_user@.update(at as int, data));
            }
        }
    }

    /// Moves the register window to `base` and shows it.
    pub fn move_window(&mut self, base: u16)
        requires
            old(self).wf(),
        ensures
            final(self).wf(),
            final(self)@ == (MmuState { regs_base: base, regs_enable: true, ..old(self)@ }),
    {
        self.regs_base = base;
        self.regs_enable = true;
    }

    /// Takes the register window out of the address space.
    pub fn hide_window(&mut self)
        requires
            old(self).wf(),
        ensures
            final(self).wf(),
            final(self)@ == (MmuState { regs_enable: false, ..old(self)@ }),
    {
        self.regs_enable = false;
    }

    /// The log lines since the last call.
    pub fn take_log(&mut self) -> (lines: Vec<String>)
        requires
            old(self).wf(),
        ensures
            final(self).wf(),
            texts(lines@) == old(self)@.log,
            final(self)@ == (MmuState { log: Seq::empty(), ..old(self)@ }),
    {
        let mut lines: Vec<String> = Vec::new();
        std::mem::swap(&mut lines, &mut self.log);
        assert(texts(self.log@) =~= Seq::<Seq<char>>::empty());
        lines
    }

    fn log_map(&mut self, page: usize, frame: u16)
        requires
            old(self).wf(),
            page < 16,
        ensures
            final(self).wf(),
            final(self)@ == (MmuState {
                log: old(self)@.log.push(old(self)@.map_line(page as int, frame)),
                ..old(self)@
            }),
    {
        let mut line: String = String::new();
        push_text(&mut line, "[mmu] ");
        if self.sys_mode {
            push_text(&mut line, "sys");
        } else {
            push_text(&mut line, "user");
        }
        push_text(&mut line, " task");
        push_digits(&mut line, self.task as u64);
        push_text(&mut line, ": P");
        line.push(hex_char(page as u8));
        push_text(&mut line, " -> F");
        push_hex_short(&mut line, (frame % 256) as u8);
        assert(line@ =~= self@.map_line(page as int, frame));
        let ghost before = self.log@;
        self.log.push(line);
        assert(texts(self.log@) =~= texts(before).push(line@));
    }

    /// Maps a page of the current task and mode onto a frame.
    pub fn set_map_entry(&mut self, page: usize, frame: u16)
        requires
            old(self).wf(),
            page < 16,
        ensures
            final(self).wf(),
            final(self)@ == old(self)@.with_frame(page as int, frame),
    {
        let at: usize = self.task as usize * 16 + page;
        if self.log_maps {
            self.log_map(page, frame);
        }
        if self.sys_mode {
            self.map_sys[at] = frame;
            assert(self.map_sys@ =~= old(self).map_sys@.update(at as int, frame));
        } else {
            self.map_user[at] = frame;
            assert(self.map_user@ =~= old(self).map_user@.update(at as int, frame));
        }
    }

    /// The map of the current task in one of the modes: for each page the low
    /// byte of its frame, with the attributes in the high byte.
    pub fn snapshot_map_for(&self, sys_mode: bool) -> (out: [u16; 16])
        requires
            self.wf(),
        ensures
            out@ == self@.shown(sys_mode),
    {
        let base: usize = self.task as usize * 16;
        let mut out: [u16; 16] = [0; 16];
        let mut i: usize = 0;
        while i < 16
            invariant
                i <= 16,
                base == self.task * 16,
                self.task < 8,
                forall|j: int| 0 <= j < i ==> out@[j] == self@.shown(sys_mode)[j],
            decreases 16 - i,
        {
            let frame: u16 = if sys_mode {
                self.map_sys[base + i]
            } else {
                self.map_user[base + i]
            };
            let attr: u8 = if sys_mode {
                self.attr_sys[base + i]
            } else {
                self.attr_user[base + i]
            };
            out[i] = frame % 256 + attr as u16 * 256;
            i = i + 1;
        }
        assert(out@ =~= self@.shown(sys_mode));
        out
    }

    /// The map in use, the mode and the task.
    pub fn snapshot_current_map(&self) -> (r: ([u16; 16], bool, u8))
        requires
            self.wf(),
        ensures
            r.0@ == self@.shown(self@.sys_mode),
            r.1 == self@.sys_mode,
            r.2 == self@.task,
    {
        (self.snapshot_map_for(self.sys_mode), self.sys_mode, self.task)
    }

    /// The system map, the user map, the mode and the task.
    pub fn snapshot_maps(&self) -> (r: ([u16; 16], [u16; 16], bool, u8))
        requires
            self.wf(),
        ensures
            r.0@ == self@.shown(true),
            r.1@ == self@.shown(false),
            r.2 == self@.sys_mode,
            r.3 == self@.task,
    {
        (self.snapshot_map_for(true), self.snapshot_map_for(false), self.sys_mode, self.task)
    }

    fn window_of(&self, addr: u16) -> (off: u16)
        ensures
            off == self@.window(addr),
    {
        offset_by(addr, -(self.regs_base as i32))
    }

    fn in_regs(&self, addr: u16) -> (r: bool)
        ensures
            r == self@.in_window(addr),
    {
        self.regs_enable && self.window_of(addr) < 0x28
    }

    fn frame_of(&self, page: usize) -> (f: u16)
        requires
            self.wf(),
            page < 16,
        ensures
            f == self@.frame(page as int),
    {
        let at: usize = self.task as usize * 16 + page;
        if self.sys_mode {
            self.map_sys[at]
        } else {
            self.map_user[at]
        }
    }

    fn attr_of(&self, page: usize) -> (a: u8)
        requires
            self.wf(),
            page < 16,
        ensures
            a == self@.attr(page as int),
    {
        let at: usize = self.task as usize * 16 + page;
        if self.sys_mode {
            self.attr_sys[at]
        } else {
            self.attr_user[at]
        }
    }

    fn regs_read(&mut self, addr: u16) -> (v: u8)
        requires
            old(self).wf(),
        ensures
            final(self).wf(),
            v == old(self)@.reg(old(self)@.window(addr)),
            final(self)@ == old(self)@.reg_read(old(self)@.window(addr)),
    {
        let off: u16 = self.window_of(addr);
        if off < 0x10 {
            (self.frame_of(off as usize) % 256) as u8
        } else if off == 0x10 {
            self.task
        } else if off == 0x11 {
            if self.sys_mode {
                1
            } else {
                0
            }
        } else if off == 0x12 {
            self.prot_ctrl
        } else if off == 0x13 {
            let s: u8 = self.fault_status;
            self.fault_status = 0;
            s
        } else if 0x18 <= off && off < 0x28 {
            self.attr_of((off - 0x18) as usize)
        } else {
            0xFF
        }
    }

    fn regs_write(&mut self, addr: u16, data: u8)
        requires
            old(self).wf(),
        ensures
            final(self).wf(),
            final(self)@ == old(self)@.reg_write(old(self)@.window(addr), data),
    {
        let off: u16 = self.window_of(addr);
        self.set_register(off, data);
    }

    fn translate(&self, laddr: u16) -> (p: Option<usize>)
        requires
            self.wf(),
        ensures
            p is Some == self@.translate(laddr) is Some,
            p matches Some(a) ==> Some(a as int) == self@.translate(laddr) && a < self@.phys.len(),
    {
        let frame: usize = self.frame_of((laddr / 4096) as usize) as usize;
        let p: usize = frame * 4096 + (laddr % 4096) as usize;
        if p < self.phys.len() {
            Some(p)
        } else {
            None
        }
    }

    fn guarded(&self, addr: u16, enable: u8, bit: u8) -> (r: bool)
        requires
            self.wf(),
        ensures
            r == self@.guarded(addr, enable, bit),
    {
        has_flag(self.prot_ctrl, enable) && has_flag(self.attr_of((addr / 4096) as usize), bit)
    }

    /// Writes bytes through the map, as the CPU would.
    pub fn store_logical_slice(&mut self, base: u16, bytes: &[u8])
        requires
            old(self).wf(),
        ensures
            final(self).wf(),
            final(self)@ == write_all::<Mc6829>(old(self)@, base, bytes@),
    {
        write_slice(self, base, bytes);
    }

    /// Copies bytes into physical memory; nothing is copied where they do not
    /// fit.
    pub fn store_physical_slice(&mut self, pbase: usize, bytes: &[u8])
        requires
            old(self).wf(),
        ensures
            final(self).wf(),
            final(self)@ == if pbase + bytes@.len() <= old(self)@.phys.len() {
                MmuState { phys: overlay(old(self)@.phys, pbase as int, bytes@), ..old(self)@ }
            } else {
                old(self)@
            },
    {
        let room: usize = self.phys.len();
        if pbase > room || bytes.len() > room - pbase {
            return;
        }
        let ghost before = self.phys@;
        let mut i: usize = 0;
        while i < bytes.len()
            invariant
                i <= bytes@.len(),
                self.phys@.len() == before.len(),
                pbase + bytes@.len() <= before.len(),
                before.len() == room,
                *self == (Mc6829 { phys: self.phys, ..*old(self) }),
                forall|j: int|
                    0 <= j < before.len() ==> self.phys@[j] == if pbase <= j < pbase + i {
                        bytes@[j - pbase]
                    } else {
                        before[j]
                    },
            decreases bytes@.len() - i,
        {
            self.phys[pbase + i] = bytes[i];
            i = i + 1;
        }
        assert(self.phys@ =~= overlay(before, pbase as int, bytes@));
    }

    /// Sets every byte of physical memory to `value`.
    pub fn clear_physical(&mut self, value: u8)
        requires
            old(self).wf(),
        ensures
            final(self).wf(),
            final(self)@ == (MmuState {
                phys: Seq::new(old(self)@.phys.len(), |i: int| value),
                ..old(self)@
            }),
    {
        let mut i: usize = 0;
        while i < self.phys.len()
            invariant
                i <= self.phys@.len(),
                self.phys@.len() == old(self).phys@.len(),
                *self == (Mc6829 { phys: self.phys, ..*old(self) }),
                forall|j: int| 0 <= j < i ==> self.phys@[j] == value,
            decreases self.phys@.len() - i,
        {
            self.phys[i] = value;
            i = i + 1;
        }
        assert(self.phys@ =~= Seq::new(old(self)@.phys.len(), |i: int| value));
    }
}

impl Bus for Mc6829 {
    open spec fn wf(&self) -> bool {
        self@.valid()
    }

    open spec fn read_val(m: MmuState, addr: u16) -> u8 {
        if m.in_window(addr) {
            m.reg(m.window(addr))
        } else {
            match m.translate(addr) {
                Some(p) => if m.guarded(addr, 0x04, 0x02) {
                    0xFF
                } else {
                    m.phys[p]
                },
                None => 0xFF,
            }
        }
    }

    open spec fn read_next(m: MmuState, addr: u16) -> MmuState {
        if m.in_window(addr) {
            m.reg_read(m.window(addr))
        } else if m.translate(addr) is Some && m.guarded(addr, 0x04, 0x02) {
            m.faulted(0x02)
        } else {
            m
        }
    }

    open spec fn fetch_val(m: MmuState, addr: u16) -> u8 {
        if m.in_window(addr) {
            m.reg(m.window(addr))
        } else {
            match m.translate(addr) {
                Some(p) => if m.guarded(addr, 0x08, 0x04) {
                    0x00
                } else {
                    m.phys[p]
                },
                None => 0x00,
            }
        }
    }

    open spec fn fetch_next(m: MmuState, addr: u16) -> MmuState {
        if m.in_window(addr) {
            m.reg_read(m.window(addr))
        } else if m.translate(addr) is Some && m.guarded(addr, 0x08, 0x04) {
            m.faulted(0x04)
        } else {
            m
        }
    }

    open spec fn write_next(m: MmuState, addr: u16, data: u8) -> MmuState {
        if m.in_window(addr) {
            m.reg_write(m.window(addr), data)
        } else {
            match m.translate(addr) {
                Some(p) => if m.guarded(addr, 0x01, 0x01) {
                    m.faulted(0x01)
                } else {
                    MmuState { phys: m.phys.update(p, data), ..m }
                },
                None => m,
            }
        }
    }

    open spec fn irq_val(m: MmuState) -> (bool, bool, bool) {
        let fire = m.fault_status % 8 != 0 && flag(m.prot_ctrl, 0x02);
        if flag(m.prot_ctrl, 0x10) {
            (false, fire, false)
        } else {
            (false, false, fire)
        }
    }

    open spec fn irq_next(m: MmuState) -> MmuState {
        m
    }

    fn read8(&mut self, addr: u16) -> (data: u8) {
        if self.in_regs(addr) {
            return self.regs_read(addr);
        }
        match self.translate(addr) {
            Some(p) => {
                if self.guarded(addr, 0x04, 0x02) {
                    self.fault_status = self.fault_status | 0x02;
                    0xFF
                } else {
                    self.phys[p]
                }
            },
            None => 0xFF,
        }
    }

    fn read8_fetch(&mut self, addr: u16) -> (data: u8) {
        if self.in_regs(addr) {
            return self.regs_read(addr);
        }
        match self.translate(addr) {
            Some(p) => {
                if self.guarded(addr, 0x08, 0x04) {
                    self.fault_status = self.fault_status | 0x04;
                    0x00
                } else {
                    self.phys[p]
                }
            },
            None => 0x00,
        }
    }

    fn write8(&mut self, addr: u16, data: u8) {
        if self.in_regs(addr) {
            self.regs_write(addr, data);
            return;
        }
        if let Some(p) = self.translate(addr) {
            if self.guarded(addr, 0x01, 0x01) {
                self.fault_status = self.fault_status | 0x01;
            } else {
                self.phys[p] = data;
                assert(self.phys@ =~= old(self).phys@.update(p as int, data));
            }
        }
    }

    fn irq_lines(&mut self) -> (lines: (bool, bool, bool)) {
        let fire: bool = self.fault_status % 8 != 0 && has_flag(self.prot_ctrl, 0x02);
        if has_flag(self.prot_ctrl, 0x10) {
            (false, fire, false)
        } else {
            (false, false, fire)
        }
    }
}

} // verus!
