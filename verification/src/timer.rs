//! A periodic countdown timer.
//!
//! | Offset | Register |
//! |---|---|
//! | `+0` | control and status: bit 0 run, bit 1 interrupt enable, bit 2 FIRQ instead of IRQ, bit 3 pending (read), bit 4 clears pending (write) |
//! | `+1`, `+2` | reload value, high byte first |
//! | `+3`, `+4` | counter, high byte first |
//!
//! A running timer counts one tick at each poll of the interrupt lines.

use crate::alu::{
    flag, has_flag, high, high_byte, low, low_byte, make_word, offset, offset_by, put_flag,
    with_flag, word,
};
use crate::io::{Attach, Device, Slot, SlotState};
use vstd::prelude::*;

verus! {

pub struct TimerDev {
    pub base: u16,
    ctrl: u8,
    reload: u16,
    counter: u16,
    pending: bool,
}

/// The state of a [`TimerDev`].
pub struct TimerState {
    pub base: u16,
    pub ctrl: u8,
    pub reload: u16,
    pub counter: u16,
    pub pending: bool,
}

impl View for TimerDev {
    type V = TimerState;

    closed spec fn view(&self) -> TimerState {
        TimerState {
            base: self.base,
            ctrl: self.ctrl,
            reload: self.reload,
            counter: self.counter,
            pending: self.pending,
        }
    }
}

impl TimerState {
    /// A counter at zero starts from the reload value.
    pub open spec fn loaded(self) -> TimerState {
        TimerState {
            counter: if self.counter == 0 {
                self.reload
            } else {
                self.counter
            },
            ..self
        }
    }

    /// A new reload value, from which a counter at zero starts.
    pub open spec fn reloading(self, val: u16) -> TimerState {
        (TimerState { reload: val, ..self }).loaded()
    }

    pub open spec fn started(self) -> TimerState {
        (TimerState { ctrl: self.ctrl | 0x01, ..self }).loaded()
    }

    /// One bit of the control register set or cleared.
    pub open spec fn switched(self, bit: u8, on: bool) -> TimerState {
        TimerState { ctrl: with_flag(self.ctrl, bit, on), ..self }
    }

    /// One tick: a running timer counts down, and where it is at zero it
    /// becomes pending and starts again from the reload value.
    pub open spec fn ticked(self) -> TimerState {
        if !flag(self.ctrl, 0x01) {
            self
        } else {
            let c = if self.counter > 0 {
                (self.counter - 1) as u16
            } else {
                0
            };
            if c == 0 {
                TimerState { pending: true, counter: self.reload, ..self }
            } else {
                TimerState { counter: c, ..self }
            }
        }
    }

    /// A write of the control register: pending is cleared where bit 4 says so,
    /// bits 0 to 2 are taken over, and a timer that starts with its counter at
    /// zero loads it.
    pub open spec fn controlled(self, data: u8) -> TimerState {
        let s = TimerState {
            pending: self.pending && !flag(data, 0x10),
            ctrl: (self.ctrl & 0x08) | (data & 0x07),
            ..self
        };
        if !flag(self.ctrl, 0x01) && flag(s.ctrl, 0x01) {
            s.loaded()
        } else {
            s
        }
    }
}

/// A new timer, stopped.
pub open spec fn fresh_timer(base: u16) -> TimerState {
    TimerState { base, ctrl: 0, reload: 0, counter: 0, pending: false }
}

impl TimerDev {
    /// A stopped timer with its registers at `base`.
    pub fn new(base: u16) -> (t: Self)
        ensures
            t@ == fresh_timer(base),
    {
        TimerDev { base, ctrl: 0, reload: 0, counter: 0, pending: false }
    }

    fn running(&self) -> (r: bool)
        ensures
            r == flag(self@.ctrl, 0x01),
    {
        has_flag(self.ctrl, 0x01)
    }

    fn irq_en(&self) -> (r: bool)
        ensures
            r == flag(self@.ctrl, 0x02),
    {
        has_flag(self.ctrl, 0x02)
    }

    fn use_firq(&self) -> (r: bool)
        ensures
            r == flag(self@.ctrl, 0x04),
    {
        has_flag(self.ctrl, 0x04)
    }

    fn tick(&mut self)
        ensures
            final(self)@ == old(self)@.ticked(),
    {
        if !self.running() {
            return;
        }
        if self.counter > 0 {
            self.counter = self.counter - 1;
        }
        if self.counter == 0 {
            self.pending = true;
            self.counter = self.reload;
        }
    }

    /// Sets the period; a counter at zero starts from it.
    pub fn set_reload(&mut self, val: u16)
        ensures
            final(self)@ == old(self)@.reloading(val),
    {
        self.reload = val;
        if self.counter == 0 {
            self.counter = val;
        }
    }

    pub fn start(&mut self)
        ensures
            final(self)@ == old(self)@.started(),
    {
        self.ctrl = self.ctrl | 0x01;
        if self.counter == 0 {
            self.counter = self.reload;
        }
    }

    pub fn stop(&mut self)
        ensures
            final(self)@ == old(self)@.switched(0x01, false),
    {
        self.ctrl = put_flag(self.ctrl, 0x01, false);
    }

    pub fn set_irq_enable(&mut self, on: bool)
        ensures
            final(self)@ == old(self)@.switched(0x02, on),
    {
        self.ctrl = put_flag(self.ctrl, 0x02, on);
    }

    /// Routes the interrupt to FIRQ instead of IRQ.
    pub fn set_firq(&mut self, on: bool)
        ensures
            final(self)@ == old(self)@.switched(0x04, on),
    {
        self.ctrl = put_flag(self.ctrl, 0x04, on);
    }

    /// Whether the timer runs, may interrupt, uses FIRQ, and is pending.
    pub fn get_state(&self) -> (r: (bool, bool, bool, bool))
        ensures
            r == (
                flag(self@.ctrl, 0x01),
                flag(self@.ctrl, 0x02),
                flag(self@.ctrl, 0x04),
                self@.pending,
            ),
    {
        (self.running(), self.irq_en(), self.use_firq(), self.pending)
    }

    /// The reload value and the counter.
    pub fn get_info(&self) -> (r: (u16, u16))
        ensures
            r == (self@.reload, self@.counter),
    {
        (self.reload, self.counter)
    }
}

impl Device for TimerDev {
    open spec fn holds(m: TimerState, addr: u16) -> bool {
        offset(addr, -(m.base as int)) < 5
    }

    open spec fn read_val(m: TimerState, addr: u16) -> u8 {
        match offset(addr, -(m.base as int)) {
            0 => if m.pending {
                m.ctrl | 0x08
            } else {
                m.ctrl
            },
            1 => high(m.reload),
            2 => low(m.reload),
            3 => high(m.counter),
            4 => low(m.counter),
            _ => 0xFF,
        }
    }

    open spec fn read_next(m: TimerState, addr: u16) -> TimerState {
        m
    }

    open spec fn write_next(m: TimerState, addr: u16, data: u8) -> TimerState {
        match offset(addr, -(m.base as int)) {
            0 => m.controlled(data),
            1 => TimerState { reload: word(data, low(m.reload)), ..m },
            2 => TimerState { reload: word(high(m.reload), data), ..m },
            3 => TimerState { counter: word(data, low(m.counter)), ..m },
            4 => TimerState { counter: word(high(m.counter), data), ..m },
            _ => m,
        }
    }

    open spec fn irq_val(m: TimerState) -> (bool, bool, bool) {
        let s = m.ticked();
        let on = s.pending && flag(s.ctrl, 0x02);
        if flag(s.ctrl, 0x04) {
            (false, on, false)
        } else {
            (false, false, on)
        }
    }

    open spec fn irq_next(m: TimerState) -> TimerState {
        m.ticked()
    }

    fn contains(&self, addr: u16) -> (r: bool) {
        offset_by(addr, -(self.base as i32)) < 5
    }

    fn read8(&mut self, addr: u16) -> (data: u8) {
        match offset_by(addr, -(self.base as i32)) {
            0 => if self.pending {
                self.ctrl | 0x08
            } else {
                self.ctrl
            },
            1 => high_byte(self.reload),
            2 => low_byte(self.reload),
            3 => high_byte(self.counter),
            4 => low_byte(self.counter),
            _ => 0xFF,
        }
    }

    fn write8(&mut self, addr: u16, data: u8) {
        match offset_by(addr, -(self.base as i32)) {
            0 => {
                if has_flag(data, 0x10) {
                    self.pending = false;
                }
                let was_running: bool = self.running();
                self.ctrl = (self.ctrl & 0x08) | (data & 0x07);
                if !was_running && self.running() && self.counter == 0 {
                    self.counter = self.reload;
                }
            },
            1 => {
                self.reload = make_word(data, low_byte(self.reload));
            },
            2 => {
                self.reload = make_word(high_byte(self.reload), data);
            },
            3 => {
                self.counter = make_word(data, low_byte(self.counter));
            },
            4 => {
                self.counter = make_word(high_byte(self.counter), data);
            },
            _ => {},
        }
    }

    fn irq_lines(&mut self) -> (lines: (bool, bool, bool)) {
        self.tick();
        let on: bool = self.pending && self.irq_en();
        if self.use_firq() {
            (false, on, false)
        } else {
            (false, false, on)
        }
    }
}

impl<X: Device> Attach<X> for TimerDev {
    open spec fn slotted(m: TimerState) -> SlotState<X::V> {
        SlotState::Timer(m)
    }

    fn into_slot(self) -> (s: Slot<X>) {
        Slot::Timer(self)
    }
}

} // verus!
