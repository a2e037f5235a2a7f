//! Console, timer and GPIO.

use crate::alu::flag;
use crate::io::console::{fresh_console, ConsoleState, HostOut, PortState, RX_FIFO_MAX};
use crate::io::gpio::{byte_at, fresh_gpio, line_mask, with_byte, GpioDev, GpioState};
use crate::io::{Device, Mc6850Dev};
use crate::laws::addressing::law_flag_bits;
use crate::laws::tracing::{begins, ends, lemma_parts};
use crate::text::{digits, hex2, hex4};
use crate::timer::{fresh_timer, TimerDev, TimerState};
use vstd::prelude::*;

verus! {

/// The bytes that `n` reads of a console's data register give, and the console
/// behind them.
pub open spec fn typed(s: ConsoleState, n: nat) -> (Seq<u8>, ConsoleState)
    decreases n,
{
    if n == 0 {
        (Seq::empty(), s)
    } else {
        let (d, t) = typed(s, (n - 1) as nat);
        (d.push(t.next_byte()), t.taken())
    }
}

proof fn lemma_fed(s: ConsoleState, bytes: Seq<u8>)
    requires
        !s.in_master_reset,
    ensures
        ({
            let t = s.fed(bytes);
            let room = if s.rx.len() >= RX_FIFO_MAX {
                0
            } else {
                RX_FIFO_MAX - s.rx.len()
            };
            &&& !t.in_master_reset
            &&& t.rx == s.rx + if bytes.len() <= room {
                bytes
            } else {
                bytes.take(room)
            }
            &&& t.rx_overrun == (s.rx_overrun || bytes.len() > room)
            &&& (bytes.len() > 0 && room > 0 ==> t.rdrf)
            &&& t.rie == s.rie
        }),
    decreases bytes.len(),
{
    if bytes.len() == 0 {
        assert(s.rx + bytes =~= s.rx);
        if s.rx.len() >= RX_FIFO_MAX {
            assert(bytes.take(0) =~= bytes);
        }
    } else {
        let front = bytes.drop_last();
        lemma_fed(s, front);
        let t = s.fed(front);
        let room = if s.rx.len() >= RX_FIFO_MAX {
            0
        } else {
            RX_FIFO_MAX - s.rx.len()
        };
        if bytes.len() <= room {
            assert(t.rx.push(bytes.last()) =~= s.rx + bytes);
        } else if front.len() <= room {
            assert(front =~= bytes.take(room));
        } else {
            assert(front.take(room) =~= bytes.take(room));
        }
    }
}

/// The queue of a console outside of a master reset takes as many bytes as it
/// has room for, in order, and never more than 16; a byte too many is an
/// overrun and drops out.
pub proof fn law_console_queue(s: ConsoleState, bytes: Seq<u8>)
    requires
        !s.in_master_reset,
        s.rx.len() <= RX_FIFO_MAX,
    ensures
        s.fed(bytes).rx.len() <= RX_FIFO_MAX,
        s.rx.len() + bytes.len() <= RX_FIFO_MAX ==> s.fed(bytes).rx == s.rx + bytes
            && s.fed(bytes).rx_overrun == s.rx_overrun,
        s.rx.len() + bytes.len() > RX_FIFO_MAX ==> s.fed(bytes).rx == s.rx + bytes.take(
            RX_FIFO_MAX - s.rx.len(),
        ) && s.fed(bytes).rx_overrun,
{
    lemma_fed(s, bytes);
    if s.rx.len() == RX_FIFO_MAX && bytes.len() == 0 {
        assert(s.rx + bytes =~= s.rx);
    }
}

proof fn lemma_typed(s: ConsoleState, n: nat)
    requires
        n <= s.rx.len(),
    ensures
        typed(s, n).0 == s.rx.take(n as int),
        typed(s, n).1.rx == s.rx.skip(n as int),
    decreases n,
{
    if n > 0 {
        lemma_typed(s, (n - 1) as nat);
        let (d, t) = typed(s, (n - 1) as nat);
        assert(s.rx.take(n - 1).push(s.rx[n - 1]) =~= s.rx.take(n as int));
        assert(s.rx.skip(n - 1).drop_first() =~= s.rx.skip(n as int));
    } else {
        assert(s.rx.take(0) =~= Seq::<u8>::empty());
        assert(s.rx.skip(0) =~= s.rx);
    }
}

/// What is fed to an empty console, up to 16 bytes, is read in the same order,
/// and then the receiver is empty.
pub proof fn law_console_reads_back(s: ConsoleState, bytes: Seq<u8>)
    requires
        !s.in_master_reset,
        s.rx.len() == 0,
        bytes.len() <= RX_FIFO_MAX,
    ensures
        typed(s.fed(bytes), bytes.len()).0 == bytes,
        bytes.len() > 0 ==> !typed(s.fed(bytes), bytes.len()).1.rdrf,
{
    lemma_fed(s, bytes);
    let t = s.fed(bytes);
    assert(t.rx =~= bytes);
    lemma_typed(t, bytes.len());
    assert(bytes.take(bytes.len() as int) =~= bytes);
    if bytes.len() > 0 {
        lemma_typed(t, (bytes.len() - 1) as nat);
    }
}

/// Below the watermark received bytes do not interrupt; from it on they do,
/// where the interrupt is enabled.
pub proof fn law_console_watermark(s: ConsoleState)
    requires
        s.rdrf,
        s.irq_countdown == 0,
    ensures
        s.rx.len() < s.rx_wm && !s.tx_irq_enable ==> Mc6850Dev::irq_val(s) == (false, false, false),
        s.rie && s.rx.len() >= s.rx_wm ==> Mc6850Dev::irq_val(s) == (false, false, true),
{
}

/// In a master reset the console neither receives nor sends, until the control
/// register releases it.
pub proof fn law_console_master_reset(s: ConsoleState, addr: u16, data: u8, byte: u8)
    requires
        data % 4 == 3,
    ensures
        s.controlled(data).in_master_reset,
        s.controlled(data).rx.len() == 0,
        s.controlled(data).received(byte) == s.controlled(data),
        s.controlled(data).transmitted(addr, byte) == s.controlled(data),
        forall|release: u8|
            release % 4 != 3 ==> !(#[trigger] s.controlled(data).controlled(
                release,
            )).in_master_reset && s.controlled(data).controlled(release).tdre,
{
}

/// A timer behind `n` ticks.
pub open spec fn ticks(s: TimerState, n: nat) -> TimerState
    decreases n,
{
    if n == 0 {
        s
    } else {
        ticks(s, (n - 1) as nat).ticked()
    }
}

/// A running timer that starts from its reload value becomes pending behind as
/// many ticks as that value says, not before, and starts again.
pub proof fn law_timer_period(s: TimerState, n: nat)
    requires
        flag(s.ctrl, 0x01),
        s.reload > 0,
        s.counter == s.reload,
        !s.pending,
        n <= s.reload,
    ensures
        n < s.reload ==> ticks(s, n) == (TimerState { counter: (s.reload - n) as u16, ..s }),
        n == s.reload ==> ticks(s, n) == (TimerState { pending: true, ..s }),
    decreases n,
{
    if n > 0 {
        law_timer_period(s, (n - 1) as nat);
    }
}

/// A stopped timer does not change, however often it is polled.
pub proof fn law_timer_stopped(s: TimerState, n: nat)
    requires
        !flag(s.ctrl, 0x01),
    ensures
        ticks(s, n) == s,
    decreases n,
{
    if n > 0 {
        law_timer_stopped(s, (n - 1) as nat);
    }
}

/// The interrupt of a timer comes on one line only, FIRQ or IRQ.
pub proof fn law_timer_line(s: TimerState)
    ensures
        !TimerDev::irq_val(s).0,
        !(TimerDev::irq_val(s).1 && TimerDev::irq_val(s).2),
        TimerDev::irq_val(s).1 ==> flag(s.ctrl, 0x04),
        TimerDev::irq_val(s).2 ==> !flag(s.ctrl, 0x04),
{
}

/// No write sets a line beyond the width of the port.
pub proof fn law_gpio_width(g: GpioState, addr: u16, data: u8)
    requires
        g.out & !line_mask(g.bits) == 0,
    ensures
        GpioDev::write_next(g, addr, data).out & !line_mask(g.bits) == 0,
        GpioDev::write_next(g, addr, data).levels() & !line_mask(g.bits) == 0,
        GpioDev::write_next(g, addr, data).bits == g.bits,
{
    let h = GpioDev::write_next(g, addr, data);
    let m = line_mask(g.bits);
    assert(forall|x: u32, k: u32| #[trigger] (x & k) & !k == 0) by (bit_vector);
    assert(h.levels() & !m == 0);
}

/// Lines that are outputs show the latch, lines that are inputs what was set
/// from outside.
pub proof fn law_gpio_levels(g: GpioState)
    ensures
        g.dir == 0xFFFF_FFFF ==> g.levels() == g.out & line_mask(g.bits),
        g.dir == 0 ==> g.levels() == g.in_mask & line_mask(g.bits),
{
    let (o, i, m) = (g.out, g.in_mask, line_mask(g.bits));
    assert(((o & 0xFFFF_FFFF) | (i & !0xFFFF_FFFFu32)) & m == o & m) by (bit_vector);
    assert(((o & 0) | (i & !0u32)) & m == i & m) by (bit_vector);
}

/// What a write of the control register takes over: bit 0 runs the timer, bit 1
/// enables its interrupt, bit 2 routes it to FIRQ, and bit 4 clears what is
/// pending.
pub proof fn law_timer_control(s: TimerState, data: u8)
    requires
        s.ctrl < 8,
    ensures
        ({
            let t = TimerDev::write_next(s, s.base, data);
            &&& t.ctrl == data % 8
            &&& t.pending == (s.pending && data / 16 % 2 == 0)
            &&& t.reload == s.reload
            &&& t.base == s.base
            &&& TimerDev::irq_val(t).1 == (TimerDev::irq_next(t).pending && data / 2 % 2 == 1 && data
                / 4 % 2 == 1)
            &&& TimerDev::irq_val(t).2 == (TimerDev::irq_next(t).pending && data / 2 % 2 == 1 && data
                / 4 % 2 == 0)
        }),
{
    let c = s.ctrl;
    assert((c & 0x08) | (data & 0x07) == data % 8) by (bit_vector)
        requires
            c < 8,
    ;
    law_flag_bits(data);
    law_flag_bits((data % 8) as u8);
}

/// A stopped timer with its counter at zero that a write of the control
/// register starts loads its reload value: it is pending behind as many ticks
/// as that value says, and not before.
pub proof fn law_timer_started(s: TimerState, data: u8, n: nat)
    requires
        s.ctrl < 8,
        s.ctrl % 2 == 0,
        s.counter == 0,
        s.reload > 0,
        !s.pending,
        data % 2 == 1,
        n <= s.reload,
    ensures
        TimerDev::write_next(s, s.base, data).counter == s.reload,
        ticks(TimerDev::write_next(s, s.base, data), n).pending == (n == s.reload),
        n < s.reload ==> ticks(TimerDev::write_next(s, s.base, data), n).counter == s.reload - n,
        n == s.reload ==> ticks(TimerDev::write_next(s, s.base, data), n).counter == s.reload,
{
    law_timer_control(s, data);
    law_flag_bits(s.ctrl);
    let t = TimerDev::write_next(s, s.base, data);
    law_flag_bits(t.ctrl);
    law_timer_period(t, n);
}

/// A counter is loaded at no other write of the control register: not where
/// the timer runs already, not where it is stopped, and not where the counter
/// is not at zero.
pub proof fn law_timer_not_loaded(s: TimerState, data: u8)
    requires
        s.ctrl < 8,
        s.ctrl % 2 == 1 || data % 2 == 0 || s.counter > 0,
    ensures
        TimerDev::write_next(s, s.base, data).counter == s.counter,
{
    law_timer_control(s, data);
    law_flag_bits(s.ctrl);
    law_flag_bits((data % 8) as u8);
}

/// A running timer with `n` in its counter becomes pending behind `n` ticks, and
/// goes on from its reload value.
pub proof fn law_timer_counts(s: TimerState, n: nat)
    requires
        s.ctrl % 2 == 1,
        !s.pending,
        0 < s.counter,
        n <= s.counter,
    ensures
        n < s.counter ==> ticks(s, n) == (TimerState { counter: (s.counter - n) as u16, ..s }),
        n == s.counter ==> ticks(s, n) == (TimerState { pending: true, counter: s.reload, ..s }),
    decreases n,
{
    law_flag_bits(s.ctrl);
    if n > 0 {
        law_timer_counts(s, (n - 1) as nat);
    }
}

/// The registers of a timer read back what was written to them, high byte
/// first; the status shows the control bits and, in bit 3, what is pending.
pub proof fn law_timer_registers(s: TimerState, data: u8)
    requires
        s.ctrl < 8,
    ensures
        ({
            let at = |k: int| ((s.base + k) % 65536) as u16;
            let set = |k: int| TimerDev::write_next(s, at(k), data);
            &&& TimerDev::read_val(s, s.base) == s.ctrl + if s.pending {
                8int
            } else {
                0
            }
            &&& TimerDev::read_val(s, at(1)) == s.reload / 256
            &&& TimerDev::read_val(s, at(2)) == s.reload % 256
            &&& TimerDev::read_val(s, at(3)) == s.counter / 256
            &&& TimerDev::read_val(s, at(4)) == s.counter % 256
            &&& set(1).reload == 256 * data + s.reload % 256 && set(1).counter == s.counter
            &&& set(2).reload == s.reload - s.reload % 256 + data && set(2).counter == s.counter
            &&& set(3).counter == 256 * data + s.counter % 256 && set(3).reload == s.reload
            &&& set(4).counter == s.counter - s.counter % 256 + data && set(4).reload == s.reload
            &&& forall|k: int|
                1 <= k <= 4 ==> #[trigger] set(k).ctrl == s.ctrl && set(k).pending == s.pending
                    && set(k).base == s.base
            &&& forall|k: int|
                0 <= k < 65536 ==> (#[trigger] TimerDev::holds(s, at(k)) <==> k < 5)
            &&& forall|k: int| 0 <= k < 5 ==> #[trigger] TimerDev::read_next(s, at(k)) == s
        }),
{
    let c = s.ctrl;
    assert(c | 0x08 == c + 8) by (bit_vector)
        requires
            c < 8,
    ;
}

/// The setters of a timer do what writes of its control register do.
pub proof fn law_timer_setters(s: TimerState, val: u16)
    requires
        s.ctrl < 8,
    ensures
        s.started().ctrl == s.ctrl - s.ctrl % 2 + 1,
        s.started().counter == if s.counter == 0 {
            s.reload
        } else {
            s.counter
        },
        s.ctrl % 2 == 0 ==> s.started() == TimerDev::write_next(s, s.base, (s.ctrl + 1) as u8),
        s.switched(0x01, false) == TimerDev::write_next(s, s.base, (s.ctrl - s.ctrl % 2) as u8),
        s.ctrl / 2 % 2 == 0 ==> s.switched(0x02, true) == TimerDev::write_next(
            s,
            s.base,
            (s.ctrl + 2) as u8,
        ),
        s.ctrl / 2 % 2 == 1 ==> s.switched(0x02, false) == TimerDev::write_next(
            s,
            s.base,
            (s.ctrl - 2) as u8,
        ),
        s.ctrl / 4 % 2 == 0 ==> s.switched(0x04, true) == TimerDev::write_next(
            s,
            s.base,
            (s.ctrl + 4) as u8,
        ),
        s.ctrl / 4 % 2 == 1 ==> s.switched(0x04, false) == TimerDev::write_next(
            s,
            s.base,
            (s.ctrl - 4) as u8,
        ),
        s.reloading(val).reload == val,
        s.reloading(val).counter == if s.counter == 0 {
            val
        } else {
            s.counter
        },
        s.reloading(val).ctrl == s.ctrl,
        s.reloading(val).pending == s.pending,
{
    let c = s.ctrl;
    assert(c | 1 == c - c % 2 + 1 && c & !1 == c - c % 2 && (c / 2 % 2 == 0 ==> c | 2 == c + 2) && (c
        / 2 % 2 == 1 ==> c & !2 == c - 2) && (c / 4 % 2 == 0 ==> c | 4 == c + 4) && (c / 4 % 2 == 1
        ==> c & !4 == c - 4)) by (bit_vector)
        requires
            c < 8,
    ;
    law_flag_bits(c);
    let off = (c - c % 2) as u8;
    law_timer_control(s, off);
    law_flag_bits(off);
    if c % 2 == 0 {
        let d = (c + 1) as u8;
        law_timer_control(s, d);
        law_flag_bits(d);
    }
    lemma_timer_kept(s, (c | 2) as u8);
    lemma_timer_kept(s, (c & !2) as u8);
    lemma_timer_kept(s, (c | 4) as u8);
    lemma_timer_kept(s, (c & !4) as u8);
}

/// A write of the control register that leaves bit 0 as it is loads nothing.
proof fn lemma_timer_kept(s: TimerState, data: u8)
    requires
        s.ctrl < 8,
    ensures
        data < 8 && data % 2 == s.ctrl % 2 ==> TimerDev::write_next(s, s.base, data) == (
        TimerState { ctrl: data, ..s }),
{
    law_timer_control(s, data);
    law_flag_bits(s.ctrl);
    law_flag_bits(data);
}

/// A new timer is stopped and has nothing pending; no operation leaves the
/// control register with bits above 2.
pub proof fn law_timer_valid(s: TimerState, addr: u16, data: u8, base: u16, on: bool)
    requires
        s.ctrl < 8,
    ensures
        fresh_timer(base).ctrl == 0 && !fresh_timer(base).pending && fresh_timer(base).counter == 0,
        fresh_timer(base).base == base,
        TimerDev::write_next(s, addr, data).ctrl < 8,
        TimerDev::irq_next(s).ctrl == s.ctrl,
        s.started().ctrl < 8,
        s.switched(0x01, on).ctrl < 8,
        s.switched(0x02, on).ctrl < 8,
        s.switched(0x04, on).ctrl < 8,
{
    let c = s.ctrl;
    law_timer_control(s, data);
    assert((c & 0x08) | (data & 0x07) < 8 && c | 1 < 8 && c | 2 < 8 && c | 4 < 8 && c & !1 < 8 && c
        & !2 < 8 && c & !4 < 8) by (bit_vector)
        requires
            c < 8,
    ;
}

/// What a write of the control register of a console takes over: the receive
/// interrupt in bit 7, the transmit interrupt where bits 5 and 6 say so, and a
/// master reset where both low bits are set. A master reset drops what was
/// received; the next other write ends it with the transmitter ready.
pub proof fn law_console_control(c: ConsoleState, v: u8)
    ensures
        ({
            let d = Mc6850Dev::write_next(c, c.base, v);
            &&& d.rie == (v >= 128)
            &&& d.tx_irq_enable == (v / 32 % 4 == 1)
            &&& d.cds == v % 4
            &&& d.in_master_reset == (v % 4 == 3)
            &&& v % 4 == 3 ==> d.rx.len() == 0 && !d.rdrf && !d.tdre && !d.rx_overrun
            &&& v % 4 != 3 && c.in_master_reset ==> d.tdre
            &&& v % 4 != 3 && !c.in_master_reset ==> d.tdre == c.tdre
            &&& v % 4 != 3 ==> d.rx == c.rx && d.rdrf == c.rdrf && d.rx_overrun == c.rx_overrun
            &&& d.base == c.base && d.port == c.port && d.rx_wm == c.rx_wm
            &&& d.irq_hold_cycles == c.irq_hold_cycles && d.irq_countdown == c.irq_countdown
            &&& d.tee_stderr == c.tee_stderr && d.local_echo == c.local_echo
        }),
{
}

spec fn bit(on: bool, value: u8) -> u8 {
    if on {
        value
    } else {
        0
    }
}

/// The status register of a console: bit 0 a byte is there, bit 1 the
/// transmitter is free, bit 5 a byte was lost, bit 7 an interrupt is asked for.
/// To read it changes nothing.
pub proof fn law_console_status(c: ConsoleState)
    ensures
        ({
            let v = Mc6850Dev::read_val(c, c.base);
            &&& v % 2 == 1 <==> c.rdrf
            &&& v / 2 % 2 == 1 <==> c.tdre
            &&& v / 32 % 2 == 1 <==> c.rx_overrun
            &&& v / 128 == 1 <==> ((c.rie && c.rdrf && c.rx.len() >= c.rx_wm) || (c.tx_irq_enable
                && c.tdre))
            &&& v / 4 % 8 == 0 && v / 64 % 2 == 0
            &&& Mc6850Dev::read_next(c, c.base) == c
        }),
{
    let (a, b) = (bit(c.rdrf, 0x01), bit(c.tdre, 0x02));
    let (d, e) = (bit(c.rx_overrun, 0x20), bit(c.irq_level(), 0x80));
    assert(a | b | d | e == a + b + d + e) by (bit_vector)
        requires
            a == 0 || a == 1,
            b == 0 || b == 2,
            d == 0 || d == 0x20,
            e == 0 || e == 0x80,
    ;
}

/// A read of the data register takes the first byte that was received, or 0,
/// and clears the overrun.
pub proof fn law_console_data(c: ConsoleState, addr: u16)
    requires
        addr != c.base,
    ensures
        ({
            let d = Mc6850Dev::read_next(c, addr);
            &&& c.rx.len() > 0 ==> Mc6850Dev::read_val(c, addr) == c.rx[0] && d.rx.len()
                == c.rx.len() - 1
            &&& forall|i: int| 0 <= i < d.rx.len() ==> #[trigger] d.rx[i] == c.rx[i + 1]
            &&& c.rx.len() == 0 ==> Mc6850Dev::read_val(c, addr) == 0 && d.rx == c.rx
            &&& d.rdrf == (c.rx.len() > 1)
            &&& !d.rx_overrun
            &&& !c.local_echo ==> d.port == c.port
            &&& d.tdre == c.tdre && d.rie == c.rie && d.in_master_reset == c.in_master_reset
        }),
{
}

/// A byte for the data register of a console goes to the host and leaves the
/// transmitter free; it changes nothing of what was received.
pub proof fn law_console_sends(c: ConsoleState, addr: u16, data: u8)
    requires
        addr != c.base,
        !c.in_master_reset,
        !c.port.host.log,
        !c.tee_stderr,
    ensures
        ({
            let d = Mc6850Dev::write_next(c, addr, data);
            &&& d.port == c.port.sent(data)
            &&& d.tdre
            &&& d.rx == c.rx && d.rdrf == c.rdrf && d.rx_overrun == c.rx_overrun
            &&& d.rie == c.rie && d.tx_irq_enable == c.tx_irq_enable && !d.in_master_reset
        }),
{
}

/// A console answers at its base and the address behind it, and nowhere else.
pub proof fn law_console_place(c: ConsoleState, k: int)
    requires
        0 <= k < 65536,
    ensures
        Mc6850Dev::holds(c, ((c.base + k) % 65536) as u16) <==> k < 2,
{
}

/// A console behind `n` polls.
pub open spec fn console_polls(c: ConsoleState, n: nat) -> ConsoleState
    decreases n,
{
    if n == 0 {
        c
    } else {
        Mc6850Dev::irq_next(console_polls(c, (n - 1) as nat))
    }
}

/// A console only has the IRQ line. It is raised while an interrupt is asked
/// for, which arms the hold, and for as many polls as the hold says behind that.
pub proof fn law_console_line(c: ConsoleState, n: nat)
    ensures
        !Mc6850Dev::irq_val(c).0 && !Mc6850Dev::irq_val(c).1,
        c.irq_level() ==> Mc6850Dev::irq_val(c).2 && Mc6850Dev::irq_next(c).irq_countdown
            == c.irq_hold_cycles,
        !c.irq_level() && n <= c.irq_countdown ==> console_polls(c, n) == (ConsoleState {
            irq_countdown: (c.irq_countdown - n) as u32,
            ..c
        }),
        !c.irq_level() && n <= c.irq_countdown ==> (Mc6850Dev::irq_val(console_polls(c, n)).2 <==> n
            < c.irq_countdown),
    decreases n,
{
    if n > 0 {
        law_console_line(c, (n - 1) as nat);
    }
}

/// Each eight lines of a port have four registers: the latch, the levels, the
/// directions and the control register, which reads as 0 and, in the first
/// group, clears the inputs where bit 0 is written.
pub proof fn law_gpio_registers(g: GpioState, group: int, data: u8)
    requires
        0 <= group < g.slots(),
        g.bits <= 32,
    ensures
        ({
            let at = |k: int| ((g.base + 4 * group + k) % 65536) as u16;
            let set = |k: int| GpioDev::write_next(g, at(k), data);
            &&& GpioDev::read_val(g, at(0)) == byte_at(g.out, group)
            &&& GpioDev::read_val(g, at(1)) == byte_at(g.levels(), group)
            &&& GpioDev::read_val(g, at(2)) == byte_at(g.dir, group)
            &&& GpioDev::read_val(g, at(3)) == 0
            &&& set(0).out == with_byte(g.out, group, data) & line_mask(g.bits)
            &&& set(0).dir == g.dir && set(0).in_mask == g.in_mask
            &&& set(1) == g
            &&& set(2).dir == with_byte(g.dir, group, data) & line_mask(g.bits)
            &&& set(2).out == g.out && set(2).in_mask == g.in_mask
            &&& set(3).out == g.out && set(3).dir == g.dir
            &&& set(3).in_mask == if group == 0 && data % 2 == 1 {
                0
            } else {
                g.in_mask
            }
            &&& set(0).broadcast == Some((true, g.bits, set(0).out, g.dir))
            &&& set(2).broadcast == Some((true, g.bits, g.out, set(2).dir))
            &&& set(3).broadcast == g.broadcast
            &&& GpioDev::holds(g, at(0)) && GpioDev::holds(g, at(1)) && GpioDev::holds(g, at(2))
            &&& GpioDev::holds(g, at(3))
        }),
{
    law_flag_bits(data);
    lemma_gpio_place(g, group, 0);
    lemma_gpio_place(g, group, 1);
    lemma_gpio_place(g, group, 2);
    lemma_gpio_place(g, group, 3);
}

proof fn lemma_gpio_place(g: GpioState, group: int, k: int)
    requires
        0 <= group < 4,
        0 <= k < 4,
    ensures
        ({
            let off = g.off(((g.base + 4 * group + k) % 65536) as u16);
            off == 4 * group + k && off as int / 4 == group && off % 4 == k
        }),
{
    let a = g.base + 4 * group + k;
    assert((a % 65536 - g.base) % 65536 == 4 * group + k);
}

/// The bytes of a 32-bit word from the low end, and what replacing one does.
pub proof fn law_word_bytes(v: u32, k: int, b: u8)
    requires
        0 <= k < 4,
    ensures
        v == byte_at(v, 0) + 256 * byte_at(v, 1) + 65536 * byte_at(v, 2) + 16777216 * byte_at(v, 3),
        byte_at(with_byte(v, k, b), k) == b,
        forall|j: int|
            0 <= j < 4 && j != k ==> #[trigger] byte_at(with_byte(v, k, b), j) == byte_at(v, j),
{
    let (b0, b1, b2, b3) = (byte_at(v, 0), byte_at(v, 1), byte_at(v, 2), byte_at(v, 3));
    lemma_word_of_bytes(v);
    let w = with_byte(v, k, b);
    if k == 0 {
        lemma_bytes_of_word(w, b, b1, b2, b3);
    } else if k == 1 {
        lemma_bytes_of_word(w, b0, b, b2, b3);
    } else if k == 2 {
        lemma_bytes_of_word(w, b0, b1, b, b3);
    } else {
        lemma_bytes_of_word(w, b0, b1, b2, b);
    }
}

proof fn lemma_word_of_bytes(v: u32)
    ensures
        v == byte_at(v, 0) + 256 * byte_at(v, 1) + 65536 * byte_at(v, 2) + 16777216 * byte_at(v, 3),
{
    let (a, b, c) = (v as int / 256, v as int / 65536, v as int / 16777216);
    assert(a / 256 == b && b / 256 == c);
}

proof fn lemma_bytes_of_word(v: u32, b0: u8, b1: u8, b2: u8, b3: u8)
    requires
        v == b0 + 256 * b1 + 65536 * b2 + 16777216 * b3,
    ensures
        byte_at(v, 0) == b0,
        byte_at(v, 1) == b1,
        byte_at(v, 2) == b2,
        byte_at(v, 3) == b3,
{
    assert(v as int / 16777216 == b3);
    assert(v as int / 65536 == b2 + 256 * b3);
    assert(v as int / 256 == b1 + 256 * (b2 + 256 * b3));
}

/// A new port has all of its lines as outputs, at 0; it never interrupts.
pub proof fn law_gpio_new(base: u16, bits: u8, g: GpioState)
    ensures
        fresh_gpio(base, bits).bits == if bits > 32 {
            32
        } else {
            bits
        },
        fresh_gpio(base, bits).out == 0,
        fresh_gpio(base, bits).dir == 0xFFFF_FFFF,
        fresh_gpio(base, bits).in_mask == 0,
        fresh_gpio(base, bits).base == base,
        GpioDev::irq_val(g) == (false, false, false),
        GpioDev::irq_next(g) == g,
        forall|addr: u16| #[trigger] GpioDev::read_next(g, addr) == g,
{
}

/// Line `k` of a port shows the latch where it is an output, and what was set
/// from outside where it is an input.
pub proof fn law_gpio_line(g: GpioState, k: u32)
    requires
        g.bits <= 32,
        k < g.bits,
    ensures
        (g.levels() >> k) & 1 == if (g.dir >> k) & 1 == 1 {
            (g.out >> k) & 1
        } else {
            (g.in_mask >> k) & 1
        },
{
    let (o, d, i, n) = (g.out, g.dir, g.in_mask, g.bits);
    assert(n < 32 ==> (1u32 << n) >= 1) by (bit_vector);
    let m = line_mask(n);
    assert((m >> k) & 1 == 1) by (bit_vector)
        requires
            k < n,
            n <= 32,
            n == 32 ==> m == 0xFFFF_FFFF,
            n < 32 ==> m == (1u32 << n) - 1,
    ;
    let l = ((o & d) | (i & !d)) & m;
    assert((l >> k) & 1 == if (d >> k) & 1 == 1 {
        (o >> k) & 1
    } else {
        (i >> k) & 1
    }) by (bit_vector)
        requires
            l == ((o & d) | (i & !d)) & m,
            (m >> k) & 1 == 1,
    ;
}

/// Whether byte `b` is the one behind which the output is flushed: the number
/// of the byte is a multiple of the flush interval, or it ends a line and that
/// flushes.
pub open spec fn flush_due(p: PortState, b: u8) -> bool {
    (p.flush_every > 0 && (p.flush_count + 1) % p.flush_every as int == 0) || (p.flush_on_newline && b
        == 10)
}

/// A byte goes to the file first, where there is one, then to the standard
/// output, where that is on; a flush of each follows where one is due.
pub proof fn law_port_byte(p: PortState, b: u8)
    requires
        b < 128,
        p.utf8_need == 0,
        !(p.host.gui_active && p.host.gui_enabled),
        p.flush_count < usize::MAX,
    ensures
        ({
            let none = Seq::<HostOut<Seq<u8>, Seq<char>>>::empty();
            let on = p.host.stdout_enabled || !p.host.gui_active;
            let file = if p.out_file {
                seq![HostOut::File(b)]
            } else {
                none
            };
            let std = if on {
                seq![HostOut::Stdout(seq![b])]
            } else {
                none
            };
            let flush_std = if on && flush_due(p, b) {
                seq![HostOut::FlushStdout]
            } else {
                none
            };
            let flush_file = if p.out_file && flush_due(p, b) {
                seq![HostOut::FlushFile]
            } else {
                none
            };
            &&& p.sent(b).out == p.out + file + std + flush_std + flush_file
            &&& p.sent(b).host == p.host
            &&& p.flush_every > 0 ==> p.sent(b).flush_count == p.flush_count + 1
        }),
{
    reveal(PortState::sent);
    reveal(PortState::to_window);
    reveal(PortState::to_stdout);
    reveal(PortState::flushed);
    let none = Seq::<HostOut<Seq<u8>, Seq<char>>>::empty();
    assert(forall|s: Seq<HostOut<Seq<u8>, Seq<char>>>| #[trigger] (s + none) =~= s);
    assert(forall|s: Seq<HostOut<Seq<u8>, Seq<char>>>, o: HostOut<Seq<u8>, Seq<char>>| #[trigger]
        s.push(o) =~= s + seq![o]);
}

/// With a window, each byte is kept for it, in order; without one, none is.
pub proof fn law_port_window(p: PortState, b: u8)
    ensures
        p.host.gui_active && p.host.gui_enabled ==> p.sent(b).host.gui == p.host.gui.push(b),
        !(p.host.gui_active && p.host.gui_enabled) ==> p.sent(b).host.gui == p.host.gui,
        p.sent(b).host.gui_active == p.host.gui_active,
        p.sent(b).host.stdout_enabled == p.host.stdout_enabled,
{
    reveal(PortState::sent);
    reveal(PortState::to_window);
    reveal(PortState::to_stdout);
    reveal(PortState::flushed);
}

/// A byte that begins a character of two, three or four bytes waits for the
/// others; with the last of them all go out together.
pub proof fn law_port_character(p: PortState, b: u8)
    requires
        p.host.stdout_enabled || !p.host.gui_active,
    ensures
        p.utf8_need == 0 && p.utf8_buf.len() == 0 && 0xC0 <= b < 0xF8 ==> {
            let q = p.to_stdout(b);
            &&& q.out == p.out
            &&& q.utf8_buf == seq![b]
            &&& q.utf8_need == if b < 0xE0 {
                2int
            } else if b < 0xF0 {
                3
            } else {
                4
            }
        },
        p.utf8_need > 0 && p.utf8_buf.len() + 1 < p.utf8_need ==> {
            let q = p.to_stdout(b);
            q.out == p.out && q.utf8_buf == p.utf8_buf.push(b) && q.utf8_need == p.utf8_need
        },
        p.utf8_need > 0 && p.utf8_buf.len() + 1 == p.utf8_need ==> {
            let q = p.to_stdout(b);
            &&& q.out == p.out.push(HostOut::Stdout(p.utf8_buf.push(b)))
            &&& q.utf8_buf.len() == 0 && q.utf8_need == 0
        },
{
    reveal(PortState::to_stdout);
    assert(Seq::<u8>::empty().push(b) =~= seq![b]);
    if p.utf8_buf.len() == 0 {
        assert(p.utf8_buf =~= Seq::<u8>::empty());
    }
}

/// A new console is ready to send, has received nothing, interrupts for
/// nothing, and flushes its output behind each byte.
pub proof fn law_console_new(base: u16)
    ensures
        ({
            let c = fresh_console(base);
            &&& c.base == base
            &&& Mc6850Dev::read_val(c, base) == 2
            &&& c.rx.len() == 0 && c.rx_wm == 1
            &&& Mc6850Dev::irq_val(c) == (false, false, false)
            &&& !c.in_master_reset && !c.local_echo && !c.tee_stderr
            &&& c.port.flush_every == 1 && c.port.out.len() == 0 && c.port.utf8_need == 0
        }),
{
    assert(0u8 | 2 | 0 | 0 == 2) by (bit_vector);
}

/// A port that is moved and resized keeps its latches within the new width, and
/// has at most 32 lines.
pub proof fn law_gpio_resized(g: GpioState, base: u16, bits: u8)
    ensures
        ({
            let h = g.resized(base, bits);
            &&& h.base == base
            &&& h.bits == if bits > 32 {
                32
            } else {
                bits
            }
            &&& h.out == g.out & line_mask(h.bits)
            &&& h.dir == g.dir & line_mask(h.bits)
            &&& h.in_mask == g.in_mask & line_mask(h.bits)
        }),
{
}

/// With the local echo on, a byte that is read is sent too.
pub proof fn law_console_echo(c: ConsoleState, addr: u16)
    requires
        addr != c.base,
    ensures
        Mc6850Dev::read_next(c, addr).port == if c.local_echo {
            c.port.sent(Mc6850Dev::read_val(c, addr))
        } else {
            c.port
        },
{
}

/// Where the console is logged, each byte that arrives adds a line with it.
pub proof fn law_console_arrivals_logged(c: ConsoleState, bytes: Seq<u8>, b: u8)
    ensures
        ({
            let (before, after) = (c.fed(bytes), c.fed(bytes.push(b)));
            &&& before.port.host.log ==> after.port.out == before.port.out.push(
                HostOut::Note("[console-rx] queued $"@ + hex2(b)),
            )
            &&& !before.port.host.log ==> after.port.out == before.port.out
            &&& after.port.host == before.port.host
        }),
{
    assert(bytes.push(b).drop_last() =~= bytes);
}

/// A logged write of an output latch says where the port is, which register was
/// written and what with.
pub proof fn law_gpio_logged(g: GpioState, group: int, data: u8)
    requires
        0 <= group < 4,
    ensures
        ({
            let t = g.log_line(group, data);
            &&& begins(t, "[gpio] OUT @$"@ + hex4(g.base) + "+"@ + digits((4 * group) as nat))
            &&& ends(t, "$"@ + hex2(data))
        }),
{
    reveal_strlit(" <= $");
    reveal_strlit(" <= ");
    reveal_strlit("$");
    let t = g.log_line(group, data);
    let a = "[gpio] OUT @$"@ + hex4(g.base) + "+"@ + digits((4 * group) as nat);
    assert(" <= $"@ =~= " <= "@ + "$"@);
    assert(t =~= a + " <= "@ + ("$"@ + hex2(data)));
    lemma_parts(a, " <= "@, "$"@ + hex2(data));
}

} // verus!
