//! A GPIO port of up to 32 lines, four registers for each eight lines: `+0`
//! output latch, `+1` input, `+2` direction (1 is output), `+3` control.

use crate::alu::{has_flag, offset, offset_by, flag};
use crate::io::{Attach, Device, Slot, SlotState};
use crate::text::{digits, hex2, hex4, push_digits, push_hex2, push_hex4, push_text, texts};
use vstd::prelude::*;

verus! {

/// The latest state of a GPIO port: whether there is one, its width, its
/// output latch and its directions.
pub struct GpioBroadcast {
    latest: Option<(bool, u8, u32, u32)>,
}

impl View for GpioBroadcast {
    type V = Option<(bool, u8, u32, u32)>;

    closed spec fn view(&self) -> Option<(bool, u8, u32, u32)> {
        self.latest
    }
}

impl GpioBroadcast {
    pub fn new() -> (b: Self)
        ensures
            b@ is None,
    {
        GpioBroadcast { latest: None }
    }
}

impl Default for GpioBroadcast {
    fn default() -> (b: Self)
        ensures
            b@ is None,
    {
        GpioBroadcast::new()
    }
}

/// Publishes a state.
pub fn publish_gpio_broadcast(
    b: &mut GpioBroadcast,
    present: bool,
    bits: u8,
    out: u32,
    dir: u32,
)
    ensures
        final(b)@ == Some((present, bits, out, dir)),
{
    b.latest = Some((present, bits, out, dir));
}

/// The state published since the last call.
pub fn take_gpio_broadcast(b: &mut GpioBroadcast) -> (r: Option<(bool, u8, u32, u32)>)
    ensures
        r == old(b)@,
        final(b)@ is None,
{
    let r: Option<(bool, u8, u32, u32)> = b.latest;
    b.latest = None;
    r
}

/// The state published last, which stays.
pub fn peek_gpio_broadcast(b: &GpioBroadcast) -> (r: Option<(bool, u8, u32, u32)>)
    ensures
        r == b@,
{
    b.latest
}

/// Byte `group` of a 32-bit word, from the low end; 0 past the last.
pub open spec fn byte_at(v: u32, group: int) -> u8 {
    if group == 0 {
        (v % 0x100) as u8
    } else if group == 1 {
        (v / 0x100 % 0x100) as u8
    } else if group == 2 {
        (v / 0x1_0000 % 0x100) as u8
    } else if group == 3 {
        (v / 0x100_0000) as u8
    } else {
        0
    }
}

/// `v` with byte `group` replaced.
pub open spec fn with_byte(v: u32, group: int, b: u8) -> u32 {
    if group == 0 {
        (v - byte_at(v, 0) + b) as u32
    } else if group == 1 {
        (v - byte_at(v, 1) * 0x100 + b * 0x100) as u32
    } else if group == 2 {
        (v - byte_at(v, 2) * 0x1_0000 + b * 0x1_0000) as u32
    } else if group == 3 {
        (v - byte_at(v, 3) * 0x100_0000 + b * 0x100_0000) as u32
    } else {
        v
    }
}

pub fn get_byte(v: u32, group: u16) -> (b: u8)
    ensures
        b == byte_at(v, group as int),
{
    match group {
        0 => (v % 0x100) as u8,
        1 => (v / 0x100 % 0x100) as u8,
        2 => (v / 0x1_0000 % 0x100) as u8,
        3 => (v / 0x100_0000) as u8,
        _ => 0,
    }
}

pub fn put_byte(v: u32, group: u16, b: u8) -> (r: u32)
    ensures
        r == with_byte(v, group as int, b),
{
    let was: u32 = get_byte(v, group) as u32;
    match group {
        0 => v - was + b as u32,
        1 => v - was * 0x100 + b as u32 * 0x100,
        2 => v - was * 0x1_0000 + b as u32 * 0x1_0000,
        3 => v - was * 0x100_0000 + b as u32 * 0x100_0000,
        _ => v,
    }
}

/// The low `bits` bits set.
pub open spec fn line_mask(bits: u8) -> u32 {
    if bits >= 32 {
        0xFFFF_FFFF
    } else {
        ((1u32 << bits) - 1) as u32
    }
}

pub struct GpioDev {
    pub base: u16,
    /// Number of lines.
    pub bits: u8,
    /// Whether writes of the output latch are logged.
    pub log: bool,
    /// The state published by the last write.
    pub broadcast: GpioBroadcast,
    out: u32,
    dir: u32,
    in_mask: u32,
    lines: Vec<String>,
}

/// The state of a [`GpioDev`].
pub struct GpioState {
    pub base: u16,
    pub bits: u8,
    pub log: bool,
    pub broadcast: Option<(bool, u8, u32, u32)>,
    pub out: u32,
    pub dir: u32,
    pub in_mask: u32,
    pub lines: Seq<Seq<char>>,
}

impl View for GpioDev {
    type V = GpioState;

    closed spec fn view(&self) -> GpioState {
        GpioState {
            base: self.base,
            bits: self.bits,
            log: self.log,
            broadcast: self.broadcast@,
            out: self.out,
            dir: self.dir,
            in_mask: self.in_mask,
            lines: texts(self.lines@),
        }
    }
}

/// Switches the log of output writes on or off.
pub fn set_gpio_log(dev: &mut GpioDev, on: bool)
    ensures
        final(dev)@ == (GpioState { log: on, ..old(dev)@ }),
{
    dev.log = on;
}

impl GpioState {
    /// The number of register groups: one for each eight lines, at least one.
    pub open spec fn slots(self) -> int {
        if self.bits == 0 {
            1
        } else {
            (self.bits + 7) / 8
        }
    }

    pub open spec fn off(self, addr: u16) -> u16 {
        offset(addr, -(self.base as int))
    }

    /// The levels of the lines: outputs show the latch, inputs what was set.
    pub open spec fn levels(self) -> u32 {
        ((self.out & self.dir) | (self.in_mask & !self.dir)) & line_mask(self.bits)
    }

    pub open spec fn published(self) -> GpioState {
        GpioState { broadcast: Some((true, self.bits, self.out, self.dir)), ..self }
    }

    pub open spec fn log_line(self, group: int, data: u8) -> Seq<char> {
        "[gpio] OUT @$"@ + hex4(self.base) + "+"@ + digits((group * 4) as nat) + " <= $"@ + hex2(
            data,
        )
    }

    /// The latches cut down to a number of lines.
    pub open spec fn resized(self, base: u16, bits: u8) -> GpioState {
        let b = if bits > 32 {
            32
        } else {
            bits
        };
        let mask = line_mask(b);
        GpioState {
            base,
            bits: b,
            out: self.out & mask,
            dir: self.dir & mask,
            in_mask: self.in_mask & mask,
            ..self
        }
    }
}

/// A new port, all of its lines outputs.
pub open spec fn fresh_gpio(base: u16, bits: u8) -> GpioState {
    GpioState {
        base,
        bits: if bits > 32 {
            32
        } else {
            bits
        },
        log: false,
        broadcast: None,
        out: 0,
        dir: 0xFFFF_FFFF,
        in_mask: 0,
        lines: Seq::empty(),
    }
}

impl GpioDev {
    /// A port of at most 32 lines, all of them outputs.
    pub fn new(base: u16, bits: u8) -> (g: Self)
        ensures
            g@ == fresh_gpio(base, bits),
    {
        let g = GpioDev {
            base,
            bits: if bits > 32 {
                32
            } else {
                bits
            },
            log: false,
            broadcast: GpioBroadcast::new(),
            out: 0,
            dir: 0xFFFF_FFFF,
            in_mask: 0,
            lines: Vec::new(),
        };
        assert(texts(g.lines@) =~= Seq::<Seq<char>>::empty());
        g
    }

    pub(crate) fn off(&self, addr: u16) -> (off: u16)
        ensures
            off == self@.off(addr),
    {
        offset_by(addr, -(self.base as i32))
    }

    /// The output latch, the directions and the number of lines.
    pub fn get_state(&self) -> (r: (u32, u32, u8))
        ensures
            r == (self@.out, self@.dir, self@.bits),
    {
        (self.out, self.dir, self.bits)
    }

    pub fn set_out(&mut self, mask: u32)
        ensures
            final(self)@ == (GpioState { out: mask & line_mask(old(self)@.bits), ..old(self)@ }),
    {
        self.out = mask & Self::mask_for(self.bits);
    }

    pub fn set_dir(&mut self, mask: u32)
        ensures
            final(self)@ == (GpioState { dir: mask & line_mask(old(self)@.bits), ..old(self)@ }),
    {
        self.dir = mask & Self::mask_for(self.bits);
    }

    /// Sets the levels of the input lines.
    pub fn set_inputs(&mut self, mask: u32)
        ensures
            final(self)@ == (GpioState {
                in_mask: mask & line_mask(old(self)@.bits),
                ..old(self)@
            }),
    {
        self.in_mask = mask & Self::mask_for(self.bits);
    }

    /// Moves the port and cuts its latches down to `bits` lines.
    pub fn resize(&mut self, base: u16, bits: u8)
        ensures
            final(self)@ == old(self)@.resized(base, bits),
    {
        let b: u8 = if bits > 32 {
            32
        } else {
            bits
        };
        let mask: u32 = Self::mask_for(b);
        self.base = base;
        self.bits = b;
        self.out = self.out & mask;
        self.dir = self.dir & mask;
        self.in_mask = self.in_mask & mask;
    }

    /// The log lines since the last call.
    pub fn take_lines(&mut self) -> (lines: Vec<String>)
        ensures
            texts(lines@) == old(self)@.lines,
            final(self)@ == (GpioState { lines: Seq::empty(), ..old(self)@ }),
    {
        let mut lines: Vec<String> = Vec::new();
        std::mem::swap(&mut lines, &mut self.lines);
        assert(texts(self.lines@) =~= Seq::<Seq<char>>::empty());
        lines
    }

    fn mask_for(bits: u8) -> (m: u32)
        ensures
            m == line_mask(bits),
    {
        if bits >= 32 {
            0xFFFF_FFFF
        } else {
            assert((1u32 << bits) >= 1u32) by (bit_vector)
                requires
                    bits < 32,
            ;
            (1u32 << bits) - 1
        }
    }

    fn slots(&self) -> (n: u16)
        ensures
            n == self@.slots(),
    {
        if self.bits == 0 {
            1
        } else {
            (self.bits as u16 + 7) / 8
        }
    }

    fn log_out(&mut self, group: u16, data: u8)
        requires
            group < 32,
        ensures
            final(self)@ == (GpioState {
                lines: old(self)@.lines.push(old(self)@.log_line(group as int, data)),
                ..old(self)@
            }),
    {
        let mut line: String = String::new();
        push_text(&mut line, "[gpio] OUT @$");
        push_hex4(&mut line, self.base);
        push_text(&mut line, "+");
        push_digits(&mut line, group as u64 * 4);
        push_text(&mut line, " <= $");
        push_hex2(&mut line, data);
        assert(line@ =~= self@.log_line(group as int, data));
        let ghost before = self.lines@;
        self.lines.push(line);
        assert(texts(self.lines@) =~= texts(before).push(line@));
    }

    fn publish(&mut self)
        ensures
            final(self)@ == old(self)@.published(),
    {
        let bits: u8 = self.bits;
        let out: u32 = self.out;
        let dir: u32 = self.dir;
        publish_gpio_broadcast(&mut self.broadcast, true, bits, out, dir);
    }
}

impl Device for GpioDev {
    open spec fn holds(m: GpioState, addr: u16) -> bool {
        m.off(addr) < m.slots() * 4
    }

    open spec fn read_val(m: GpioState, addr: u16) -> u8 {
        let group = m.off(addr) as int / 4;
        if group >= m.slots() {
            0xFF
        } else {
            match m.off(addr) % 4 {
                0 => byte_at(m.out, group),
                1 => byte_at(m.levels(), group),
                2 => byte_at(m.dir, group),
                _ => 0x00,
            }
        }
    }

    open spec fn read_next(m: GpioState, addr: u16) -> GpioState {
        m
    }

    open spec fn write_next(m: GpioState, addr: u16, data: u8) -> GpioState {
        let group = m.off(addr) as int / 4;
        if group >= m.slots() {
            m
        } else {
            match m.off(addr) % 4 {
                0 => {
                    let s = GpioState {
                        out: with_byte(m.out, group, data) & line_mask(m.bits),
                        ..m
                    };
                    (if s.log {
                        GpioState { lines: s.lines.push(s.log_line(group, data)), ..s }
                    } else {
                        s
                    }).published()
                },
                2 => (GpioState {
                    dir: with_byte(m.dir, group, data) & line_mask(m.bits),
                    ..m
                }).published(),
                3 => if group == 0 && flag(data, 0x01) {
                    GpioState { in_mask: 0, ..m }
                } else {
                    m
                },
                _ => m,
            }
        }
    }

    open spec fn irq_val(m: GpioState) -> (bool, bool, bool) {
        (false, false, false)
    }

    open spec fn irq_next(m: GpioState) -> GpioState {
        m
    }

    fn contains(&self, addr: u16) -> (r: bool) {
        offset_by(addr, -(self.base as i32)) < self.slots() * 4
    }

    fn read8(&mut self, addr: u16) -> (data: u8) {
        let off: u16 = offset_by(addr, -(self.base as i32));
        let group: u16 = off / 4;
        if group >= self.slots() {
            return 0xFF;
        }
        match off % 4 {
            0 => get_byte(self.out, group),
            1 => {
                let mask: u32 = Self::mask_for(self.bits);
                get_byte(((self.out & self.dir) | (self.in_mask & !self.dir)) & mask, group)
            },
            2 => get_byte(self.dir, group),
            _ => 0x00,
        }
    }

    fn write8(&mut self, addr: u16, data: u8) {
        let off: u16 = offset_by(addr, -(self.base as i32));
        let group: u16 = off / 4;
        if group >= self.slots() {
            return;
        }
        match off % 4 {
            0 => {
                self.out = put_byte(self.out, group, data) & Self::mask_for(self.bits);
                if self.log {
                    self.log_out(group, data);
                }
                self.publish();
            },
            2 => {
                self.dir = put_byte(self.dir, group, data) & Self::mask_for(self.bits);
                self.publish();
            },
            3 => {
                if group == 0 && has_flag(data, 0x01) {
                    self.in_mask = 0;
                }
            },
            _ => {},
        }
    }

    fn irq_lines(&mut self) -> (lines: (bool, bool, bool)) {
        (false, false, false)
    }
}

impl<X: Device> Attach<X> for GpioDev {
    open spec fn slotted(m: GpioState) -> SlotState<X::V> {
        SlotState::Gpio(m)
    }

    fn into_slot(self) -> (s: Slot<X>) {
        Slot::Gpio(self)
    }
}

} // verus!
