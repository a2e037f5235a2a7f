//! The MMU: registers and memory read back, protection, and tasks that do not
//! see each other.

use crate::alu::flag;
use crate::bus::Bus;
use crate::laws::addressing::law_flag_bits;
use crate::mmu::{fresh, Mc6829, MmuState};
use crate::text::{digits, hex2, hex_digit};
use vstd::prelude::*;

verus! {

/// The interrupt lines of a fault.
pub open spec fn fault_lines(m: MmuState) -> (bool, bool, bool) {
    if flag(m.prot_ctrl, 0x10) {
        (false, flag(m.prot_ctrl, 0x02), false)
    } else {
        (false, false, flag(m.prot_ctrl, 0x02))
    }
}

/// A byte written through the MMU is read back, where there is memory and no
/// protection.
pub proof fn law_mmu_read_back(m: MmuState, addr: u16, data: u8)
    requires
        m.valid(),
        !m.in_window(addr),
        m.translate(addr) is Some,
        !m.guarded(addr, 0x01, 0x01),
        !m.guarded(addr, 0x04, 0x02),
    ensures
        Mc6829::read_val(Mc6829::write_next(m, addr, data), addr) == data,
{
}

/// A write to a write-protected page leaves memory as it is and raises the
/// interrupt, where it is enabled.
pub proof fn law_mmu_write_protect(m: MmuState, addr: u16, data: u8)
    requires
        m.valid(),
        !m.in_window(addr),
        m.translate(addr) is Some,
        m.guarded(addr, 0x01, 0x01),
    ensures
        Mc6829::write_next(m, addr, data).phys == m.phys,
        flag(Mc6829::write_next(m, addr, data).fault_status, 0x01),
        Mc6829::irq_val(Mc6829::write_next(m, addr, data)) == fault_lines(m),
{
    let f = m.fault_status;
    assert((f | 0x01) % 8 != 0 && (f | 0x01) & 0x01 != 0) by (bit_vector);
}

/// A read of a read-protected page sees no memory and raises the interrupt,
/// where it is enabled.
pub proof fn law_mmu_read_protect(m: MmuState, addr: u16)
    requires
        m.valid(),
        !m.in_window(addr),
        m.translate(addr) is Some,
        m.guarded(addr, 0x04, 0x02),
    ensures
        Mc6829::read_val(m, addr) == 0xFF,
        flag(Mc6829::read_next(m, addr).fault_status, 0x02),
        Mc6829::irq_val(Mc6829::read_next(m, addr)) == fault_lines(m),
{
    let f = m.fault_status;
    assert((f | 0x02) % 8 != 0 && (f | 0x02) & 0x02 != 0) by (bit_vector);
}

/// An instruction fetch from a page that is not executable raises the
/// interrupt, where it is enabled.
pub proof fn law_mmu_no_execute(m: MmuState, addr: u16)
    requires
        m.valid(),
        !m.in_window(addr),
        m.translate(addr) is Some,
        m.guarded(addr, 0x08, 0x04),
    ensures
        Mc6829::fetch_val(m, addr) == 0x00,
        flag(Mc6829::fetch_next(m, addr).fault_status, 0x04),
        Mc6829::irq_val(Mc6829::fetch_next(m, addr)) == fault_lines(m),
{
    let f = m.fault_status;
    assert((f | 0x04) % 8 != 0 && (f | 0x04) & 0x04 != 0) by (bit_vector);
}

/// The fault register is cleared by reading it, and with it the interrupt.
pub proof fn law_mmu_fault_acknowledged(m: MmuState)
    ensures
        m.reg_read(0x13).fault_status == 0,
        Mc6829::irq_val(m.reg_read(0x13)) == (false, false, false),
{
}

/// A register that was written is read back: frames, protection control and
/// attributes as they are, the task modulo 8, the mode modulo 2.
pub proof fn law_mmu_register_read_back(m: MmuState, off: u16, data: u8)
    requires
        m.valid(),
        off < 0x28,
    ensures
        off < 0x10 || off == 0x12 || off >= 0x18 ==> m.reg_write(off, data).reg(off) == data,
        off == 0x10 ==> m.reg_write(off, data).reg(off) == data % 8,
        off == 0x11 ==> m.reg_write(off, data).reg(off) == data % 2,
{
}

/// Mapping a page touches no other page, no other task and not the other mode.
pub proof fn law_mmu_map_apart(m: MmuState, page: int, frame: u16, sys: bool, task: int, other: int)
    requires
        m.valid(),
        0 <= page < 16,
        0 <= task < 8,
        0 <= other < 16,
        sys != m.sys_mode || task != m.task || other != page,
    ensures
        m.with_frame(page, frame).map_of(sys)[task * 16 + other] == m.map_of(sys)[task * 16
            + other],
        m.with_frame(page, frame).frame(page) == frame,
        m.with_frame(page, frame).phys == m.phys,
{
}

/// Under an identity map each address with memory behind it stands for itself.
pub proof fn law_mmu_identity(m: MmuState, addr: u16)
    requires
        m.valid(),
        m.phys.len() > addr,
    ensures
        m.with_identity().translate(addr) == Some(addr as int),
{
}

/// The place of a page of the current task in the tables.
pub open spec fn entry(m: MmuState, page: int) -> int {
    16 * m.task + page
}

/// The frame of a page for the current task and mode.
pub open spec fn frame_of(m: MmuState, page: int) -> int {
    if m.sys_mode {
        m.map_sys[entry(m, page)] as int
    } else {
        m.map_user[entry(m, page)] as int
    }
}

/// The attributes of a page for the current task and mode.
pub open spec fn attributes_of(m: MmuState, page: int) -> int {
    if m.sys_mode {
        m.attr_sys[entry(m, page)] as int
    } else {
        m.attr_user[entry(m, page)] as int
    }
}

/// The place in physical memory that an address stands for.
pub open spec fn physical(m: MmuState, addr: int) -> int {
    4096 * frame_of(m, addr / 4096) + addr % 4096
}

/// An access through the MMU goes to the frame of its page. A page is protected
/// against writing by attribute bit 0 where control bit 0 says so, against
/// reading by bit 1 and control bit 2, against execution by bit 2 and control
/// bit 3. A refused access and one without memory behind it change no memory;
/// data then reads as ones, instructions as zeros.
pub proof fn law_mmu_access(m: MmuState, addr: u16, data: u8)
    requires
        m.valid(),
        !m.regs_enable || (addr - m.regs_base) % 65536 >= 40,
    ensures
        ({
            let p = physical(m, addr as int);
            let there = p < m.phys.len();
            let a = attributes_of(m, addr as int / 4096);
            let no_write = m.prot_ctrl % 2 == 1 && a % 2 == 1;
            let no_read = m.prot_ctrl / 4 % 2 == 1 && a / 2 % 2 == 1;
            let no_fetch = m.prot_ctrl / 8 % 2 == 1 && a / 4 % 2 == 1;
            let w = Mc6829::write_next(m, addr, data);
            let r = Mc6829::read_next(m, addr);
            let f = Mc6829::fetch_next(m, addr);
            &&& Mc6829::read_val(m, addr) == if there && !no_read {
                m.phys[p]
            } else {
                255
            }
            &&& Mc6829::fetch_val(m, addr) == if there && !no_fetch {
                m.phys[p]
            } else {
                0
            }
            &&& w.phys == if there && !no_write {
                m.phys.update(p, data)
            } else {
                m.phys
            }
            &&& r == (MmuState { fault_status: r.fault_status, ..m })
            &&& f == (MmuState { fault_status: f.fault_status, ..m })
            &&& w == (MmuState { fault_status: w.fault_status, phys: w.phys, ..m })
            &&& r.fault_status == if there && no_read && m.fault_status / 2 % 2 == 0 {
                m.fault_status + 2
            } else {
                m.fault_status as int
            }
            &&& f.fault_status == if there && no_fetch && m.fault_status / 4 % 2 == 0 {
                m.fault_status + 4
            } else {
                m.fault_status as int
            }
            &&& w.fault_status == if there && no_write && m.fault_status % 2 == 0 {
                m.fault_status + 1
            } else {
                m.fault_status as int
            }
        }),
{
    let c = m.prot_ctrl;
    let a = m.attr(addr as int / 4096);
    let s = m.fault_status;
    law_flag_bits(c);
    law_flag_bits(a);
    assert(m.window(addr) == (addr - m.regs_base) % 65536);
    assert(s | 1 == s - s % 2 + 1 && s | 2 == s - s / 2 % 2 * 2 + 2 && s | 4 == s - s / 4 % 2 * 4
        + 4) by (bit_vector);
}

/// Where the registers of the MMU are shown, they answer in place of memory at
/// 40 addresses from their base on: the frames of the current task, the task,
/// the mode, the protection control, the faults, and from `+$18` on the
/// attributes. Only a read of the faults changes anything: it clears them.
pub proof fn law_mmu_registers(m: MmuState, k: int, data: u8)
    requires
        m.valid(),
        m.regs_enable,
        0 <= k < 40,
    ensures
        ({
            let addr = ((m.regs_base + k) % 65536) as u16;
            let w = Mc6829::write_next(m, addr, data);
            let v = Mc6829::read_val(m, addr);
            &&& Mc6829::fetch_val(m, addr) == v
            &&& Mc6829::fetch_next(m, addr) == Mc6829::read_next(m, addr)
            &&& k < 16 ==> v == frame_of(m, k) % 256
            &&& k == 16 ==> v == m.task
            &&& k == 17 ==> v == if m.sys_mode {
                1int
            } else {
                0
            }
            &&& k == 18 ==> v == m.prot_ctrl
            &&& k == 19 ==> v == m.fault_status
            &&& 20 <= k < 24 ==> v == 255
            &&& k >= 24 ==> v == attributes_of(m, k - 24)
            &&& k != 19 ==> Mc6829::read_next(m, addr) == m
            &&& k == 19 ==> Mc6829::read_next(m, addr) == (MmuState { fault_status: 0, ..m })
            &&& k < 16 ==> frame_of(w, k) == data
            &&& k >= 24 ==> attributes_of(w, k - 24) == data
            &&& k == 16 ==> w == (MmuState { task: data % 8, ..m })
            &&& k == 17 ==> w == (MmuState { sys_mode: data % 2 == 1, ..m })
            &&& k == 18 ==> w == (MmuState { prot_ctrl: data, ..m })
            &&& 19 <= k < 24 ==> w == m
            &&& w.phys == m.phys && w.fault_status == m.fault_status
        }),
{
    let addr = ((m.regs_base + k) % 65536) as u16;
    assert(m.window(addr) == k);
}

/// A write of a frame or of attributes changes one entry of one table: that of
/// the current mode, at the page of the current task.
pub proof fn law_mmu_one_entry(m: MmuState, page: int, data: u8, j: int)
    requires
        m.valid(),
        0 <= page < 16,
        0 <= j < 128,
        m.regs_enable,
    ensures
        ({
            let w = Mc6829::write_next(m, ((m.regs_base + page) % 65536) as u16, data);
            let a = Mc6829::write_next(m, ((m.regs_base + 24 + page) % 65536) as u16, data);
            let here = j == entry(m, page);
            &&& w.map_sys[j] == if here && m.sys_mode {
                data as u16
            } else {
                m.map_sys[j]
            }
            &&& w.map_user[j] == if here && !m.sys_mode {
                data as u16
            } else {
                m.map_user[j]
            }
            &&& w.attr_sys == m.attr_sys && w.attr_user == m.attr_user
            &&& a.attr_sys[j] == if here && m.sys_mode {
                data
            } else {
                m.attr_sys[j]
            }
            &&& a.attr_user[j] == if here && !m.sys_mode {
                data
            } else {
                m.attr_user[j]
            }
            &&& a.map_sys == m.map_sys && a.map_user == m.map_user
            &&& w.valid() && a.valid()
        }),
{
    assert(m.window(((m.regs_base + page) % 65536) as u16) == page);
    assert(m.window(((m.regs_base + 24 + page) % 65536) as u16) == 24 + page);
}

/// A fault interrupts where control bit 1 says so, on FIRQ where bit 4 does and
/// on IRQ otherwise.
pub proof fn law_mmu_line(m: MmuState)
    ensures
        ({
            let on = m.prot_ctrl / 2 % 2 == 1 && (m.fault_status % 2 == 1 || m.fault_status / 2 % 2
                == 1 || m.fault_status / 4 % 2 == 1);
            let firq = m.prot_ctrl / 16 % 2 == 1;
            &&& Mc6829::irq_val(m) == (false, on && firq, on && !firq)
            &&& Mc6829::irq_next(m) == m
        }),
{
    law_flag_bits(m.prot_ctrl);
}

/// A new MMU is in user mode, with task 0 and no protection, and shows its
/// registers; the pages of task 0 are frames 0 to 15 in both modes, and memory
/// is zero.
pub proof fn law_mmu_new(bytes: nat, regs_base: u16, page: int, i: int)
    requires
        0 <= page < 16,
    ensures
        ({
            let m = fresh(bytes, regs_base);
            &&& m.valid()
            &&& m.task == 0 && !m.sys_mode && m.prot_ctrl == 0 && m.fault_status == 0
            &&& m.regs_enable && m.regs_base == regs_base
            &&& m.map_user[page] == page && m.map_sys[page] == page
            &&& m.attr_user[page] == 0 && m.attr_sys[page] == 0
            &&& m.phys.len() == bytes
            &&& 0 <= i < bytes ==> m.phys[i] == 0
        }),
{
}

/// What is shown of a map: the low byte of the frame, and the attributes above
/// it.
pub proof fn law_mmu_shown(m: MmuState, page: int)
    requires
        m.valid(),
        0 <= page < 16,
    ensures
        m.shown(m.sys_mode).len() == 16,
        m.shown(m.sys_mode)[page] == frame_of(m, page) % 256 + 256 * attributes_of(m, page),
        m.shown(true)[page] % 256 == m.map_sys[entry(m, page)] % 256,
        m.shown(false)[page] % 256 == m.map_user[entry(m, page)] % 256,
        m.shown(true)[page] / 256 == m.attr_sys[entry(m, page)],
        m.shown(false)[page] / 256 == m.attr_user[entry(m, page)],
{
}

/// A logged map change says the mode, the task, the page and the frame.
pub proof fn law_mmu_logged(m: MmuState, page: int, frame: u16)
    requires
        m.valid(),
        0 <= page < 16,
    ensures
        ({
            let w = m.with_frame(page, frame);
            let line = "[mmu] "@ + (if m.sys_mode {
                seq!['s', 'y', 's']
            } else {
                seq!['u', 's', 'e', 'r']
            }) + " task"@ + digits(m.task as nat) + ": P"@ + seq![hex_digit(page)] + " -> F"@ + (if frame
                % 256 >= 16 {
                hex2((frame % 256) as u8)
            } else {
                seq![hex_digit(frame as int % 16)]
            });
            w.log == if m.log_maps {
                m.log.push(line)
            } else {
                m.log
            }
        }),
{
    reveal_strlit("sys");
    reveal_strlit("user");
    assert("sys"@ =~= seq!['s', 'y', 's']);
    assert("user"@ =~= seq!['u', 's', 'e', 'r']);
    assert(frame as int % 256 % 16 == frame as int % 16);
}

} // verus!
