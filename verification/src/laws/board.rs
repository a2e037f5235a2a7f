//! A bus with devices in front of another bus.

use crate::alu::offset;
use crate::bus::Bus;
use crate::io::{
    console_at, first_at, first_console_at, first_of, has_kind, kind_of, lines_of, watched, without,
    Device, DeviceKind, IoBus, IoState, Slot, SlotState,
};
use vstd::prelude::*;

verus! {

/// Where a device answers, the bus behind it sees neither reads nor writes, and
/// no other device does.
pub proof fn law_device_in_front<B: Bus, X: Device>(m: IoState<B::V, X::V>, addr: u16, data: u8, other: int)
    requires
        first_at::<X>(m.devices, addr, 0) < m.devices.len(),
        0 <= other < m.devices.len(),
        other != first_at::<X>(m.devices, addr, 0),
    ensures
        IoBus::<B, X>::read_next(m, addr).inner == m.inner,
        IoBus::<B, X>::write_next(m, addr, data).inner == m.inner,
        IoBus::<B, X>::read_next(m, addr).devices[other] == m.devices[other],
        IoBus::<B, X>::write_next(m, addr, data).devices[other] == m.devices[other],
{
    lemma_first_at::<X>(m.devices, addr, 0);
}

/// Where no device answers, the devices do not change and the bus behind them
/// does what it does alone.
pub proof fn law_no_device_in_front<B: Bus, X: Device>(m: IoState<B::V, X::V>, addr: u16, data: u8)
    requires
        first_at::<X>(m.devices, addr, 0) >= m.devices.len(),
    ensures
        IoBus::<B, X>::read_val(m, addr) == B::read_val(m.inner, addr),
        IoBus::<B, X>::read_next(m, addr) == (IoState::<B::V, X::V> {
            inner: B::read_next(m.inner, addr),
            ..m
        }),
        IoBus::<B, X>::write_next(m, addr, data).inner == B::write_next(m.inner, addr, data),
        IoBus::<B, X>::write_next(m, addr, data).devices == m.devices,
{
}

proof fn lemma_first_at<X: Device>(devices: Seq<SlotState<X::V>>, addr: u16, i: int)
    requires
        0 <= i <= devices.len(),
    ensures
        ({
            let k = first_at::<X>(devices, addr, i);
            &&& i <= k <= devices.len()
            &&& k < devices.len() ==> Slot::<X>::holds(devices[k], addr)
            &&& forall|j: int| i <= j < k ==> !Slot::<X>::holds(#[trigger] devices[j], addr)
        }),
    decreases devices.len() - i,
{
    if i < devices.len() && !Slot::<X>::holds(devices[i], addr) {
        lemma_first_at::<X>(devices, addr, i + 1);
    }
}

/// Of two devices that answer at an address, the one that was added first takes
/// the access.
pub proof fn law_first_device_answers<X: Device>(devices: Seq<SlotState<X::V>>, addr: u16)
    ensures
        ({
            let k = first_at::<X>(devices, addr, 0);
            &&& 0 <= k <= devices.len()
            &&& k < devices.len() ==> Slot::<X>::holds(devices[k], addr)
            &&& forall|j: int| 0 <= j < k ==> !Slot::<X>::holds(#[trigger] devices[j], addr)
        }),
{
    lemma_first_at::<X>(devices, addr, 0);
}

/// A line of the devices together is raised exactly where one of them raises
/// it.
pub proof fn law_lines_together<X: Device>(devices: Seq<SlotState<X::V>>)
    ensures
        lines_of::<X>(devices).0 <==> exists|i: int|
            0 <= i < devices.len() && (#[trigger] Slot::<X>::irq_val(devices[i])).0,
        lines_of::<X>(devices).1 <==> exists|i: int|
            0 <= i < devices.len() && (#[trigger] Slot::<X>::irq_val(devices[i])).1,
        lines_of::<X>(devices).2 <==> exists|i: int|
            0 <= i < devices.len() && (#[trigger] Slot::<X>::irq_val(devices[i])).2,
{
    lemma_line::<X>(devices, 0);
    lemma_line::<X>(devices, 1);
    lemma_line::<X>(devices, 2);
    assert(forall|i: int| line(#[trigger] Slot::<X>::irq_val(devices[i]), 0) == Slot::<X>::irq_val(devices[i]).0);
}

spec fn line(l: (bool, bool, bool), which: int) -> bool {
    if which == 0 {
        l.0
    } else if which == 1 {
        l.1
    } else {
        l.2
    }
}

proof fn lemma_line<X: Device>(devices: Seq<SlotState<X::V>>, which: int)
    ensures
        line(lines_of::<X>(devices), which) <==> exists|i: int|
            0 <= i < devices.len() && line(#[trigger] Slot::<X>::irq_val(devices[i]), which),
    decreases devices.len(),
{
    if devices.len() > 0 {
        let t = devices.drop_last();
        lemma_line::<X>(t, which);
        let n = devices.len() - 1;
        if line(lines_of::<X>(t), which) {
            let i = choose|i: int| 0 <= i < t.len() && line(#[trigger] Slot::<X>::irq_val(t[i]), which);
            assert(line(Slot::<X>::irq_val(devices[i]), which));
        }
        if line(Slot::<X>::irq_val(devices.last()), which) {
            assert(line(Slot::<X>::irq_val(devices[n]), which));
        }
        if exists|i: int| 0 <= i < devices.len() && line(#[trigger] Slot::<X>::irq_val(devices[i]), which) {
            let i = choose|i: int|
                0 <= i < devices.len() && line(#[trigger] Slot::<X>::irq_val(devices[i]), which);
            if i < n {
                assert(line(Slot::<X>::irq_val(t[i]), which));
            }
        }
    }
}

/// How many devices of a kind there are.
pub open spec fn count_of<W>(devices: Seq<SlotState<W>>, kind: DeviceKind) -> nat
    decreases devices.len(),
{
    if devices.len() == 0 {
        0
    } else {
        count_of(devices.drop_last(), kind) + if kind_of(devices.last()) == kind {
            1nat
        } else {
            0
        }
    }
}

proof fn lemma_count_push<W>(devices: Seq<SlotState<W>>, s: SlotState<W>, kind: DeviceKind)
    ensures
        count_of(devices.push(s), kind) == count_of(devices, kind) + if kind_of(s) == kind {
            1nat
        } else {
            0
        },
{
    assert(devices.push(s).drop_last() =~= devices);
}

proof fn lemma_without<W>(devices: Seq<SlotState<W>>, kind: DeviceKind, but: int, other: DeviceKind)
    ensures
        other != kind ==> count_of(without(devices, kind, but), other) == count_of(devices, other),
        count_of(without(devices, kind, but), kind) == if 0 <= but < devices.len() && kind_of(
            devices[but],
        ) == kind {
            1nat
        } else {
            0
        },
        0 <= but < devices.len() ==> without(devices, kind, but).contains(devices[but]),
    decreases devices.len(),
{
    if devices.len() > 0 {
        let t = devices.drop_last();
        lemma_without(t, kind, but, other);
        let rest = without(t, kind, but);
        let s = devices.last();
        lemma_count_push(rest, s, kind);
        lemma_count_push(rest, s, other);
        if 0 <= but < t.len() {
            let j = choose|j: int| 0 <= j < rest.len() && rest[j] == t[but];
            assert(rest.push(s)[j] == devices[but]);
        }
        if but == devices.len() - 1 {
            assert(rest.push(s)[rest.len() as int] == s);
        }
    }
}

proof fn lemma_first_of<W>(devices: Seq<SlotState<W>>, kind: DeviceKind, i: int)
    requires
        0 <= i <= devices.len(),
    ensures
        ({
            let k = first_of(devices, kind, i);
            &&& i <= k <= devices.len()
            &&& k < devices.len() ==> kind_of(devices[k]) == kind
            &&& forall|j: int| i <= j < k ==> kind_of(#[trigger] devices[j]) != kind
        }),
    decreases devices.len() - i,
{
    if i < devices.len() && kind_of(devices[i]) != kind {
        lemma_first_of(devices, kind, i + 1);
    }
}

proof fn lemma_none_of<W>(devices: Seq<SlotState<W>>, kind: DeviceKind)
    requires
        forall|j: int| 0 <= j < devices.len() ==> kind_of(#[trigger] devices[j]) != kind,
    ensures
        count_of(devices, kind) == 0,
    decreases devices.len(),
{
    if devices.len() > 0 {
        lemma_none_of(devices.drop_last(), kind);
    }
}

proof fn lemma_some_of<W>(devices: Seq<SlotState<W>>, kind: DeviceKind, k: int)
    requires
        0 <= k < devices.len(),
        kind_of(devices[k]) == kind,
    ensures
        count_of(devices, kind) > 0,
    decreases devices.len(),
{
    if k < devices.len() - 1 {
        lemma_some_of(devices.drop_last(), kind, k);
    }
}

/// Whether there is a device of a kind is whether their number is above zero.
pub proof fn law_kind_counted<W>(devices: Seq<SlotState<W>>, kind: DeviceKind)
    ensures
        has_kind(devices, kind) <==> count_of(devices, kind) > 0,
{
    lemma_first_of(devices, kind, 0);
    let k = first_of(devices, kind, 0);
    if k < devices.len() {
        lemma_some_of(devices, kind, k);
    } else {
        lemma_none_of(devices, kind);
    }
}

/// Ensuring a device that is switched off leaves none of its kind; switched on,
/// at least one. Devices of other kinds stay as many as they were.
pub proof fn law_ensured<M, W>(
    m: IoState<M, W>,
    kind: DeviceKind,
    enable: bool,
    fresh: SlotState<W>,
    other: DeviceKind,
)
    requires
        kind_of(fresh) == kind,
        other != kind,
    ensures
        has_kind(m.ensured(kind, enable, fresh).devices, kind) == enable,
        count_of(m.ensured(kind, enable, fresh).devices, other) == count_of(m.devices, other),
{
    law_kind_counted(m.ensured(kind, enable, fresh).devices, kind);
    lemma_without(m.devices, kind, -1, other);
    lemma_count_push(m.devices, fresh, kind);
    lemma_count_push(m.devices, fresh, other);
}

proof fn lemma_first_console<W>(devices: Seq<SlotState<W>>, base: u16, i: int)
    requires
        0 <= i <= devices.len(),
    ensures
        ({
            let k = first_console_at(devices, base, i);
            i <= k <= devices.len() && (k < devices.len() ==> console_at(devices[k], base))
        }),
    decreases devices.len() - i,
{
    if i < devices.len() && !console_at(devices[i], base) {
        lemma_first_console(devices, base, i + 1);
    }
}

/// Behind `ensure_console` there is exactly one console, with its registers
/// where they were asked for, or none. A console that stood there before is
/// still the same, and other devices stay as many as they were.
pub proof fn law_one_console<M, W>(m: IoState<M, W>, enable: bool, base: u16, other: DeviceKind)
    requires
        other != DeviceKind::Console,
    ensures
        ({
            let after = m.console_ensured(enable, base).devices;
            let k = first_console_at(m.devices, base, 0);
            &&& count_of(after, DeviceKind::Console) == if enable {
                1nat
            } else {
                0
            }
            &&& enable ==> exists|i: int|
                0 <= i < after.len() && #[trigger] console_at(after[i], base)
            &&& enable && k < m.devices.len() ==> after.contains(m.devices[k])
            &&& count_of(after, other) == count_of(m.devices, other)
        }),
{
    let after = m.console_ensured(enable, base).devices;
    let k = first_console_at(m.devices, base, 0);
    lemma_first_console(m.devices, base, 0);
    if !enable {
        lemma_without(m.devices, DeviceKind::Console, -1, other);
    } else if k < m.devices.len() {
        lemma_without(m.devices, DeviceKind::Console, k, other);
        let i = choose|i: int| 0 <= i < after.len() && after[i] == m.devices[k];
        assert(console_at(after[i], base));
    } else {
        lemma_without(m.devices, DeviceKind::Console, -1, other);
        let rest = without(m.devices, DeviceKind::Console, -1);
        let fresh = SlotState::Console(crate::io::console::fresh_console(base));
        lemma_count_push(rest, fresh, DeviceKind::Console);
        lemma_count_push(rest, fresh, other);
        assert(console_at(after[rest.len() as int], base));
    }
}

/// The first device in the list that answers at an address takes the access,
/// and only it changes.
pub proof fn law_device_answers<B: Bus, X: Device>(
    m: IoState<B::V, X::V>,
    addr: u16,
    data: u8,
    k: int,
)
    requires
        0 <= k < m.devices.len(),
        Slot::<X>::holds(m.devices[k], addr),
        forall|j: int| 0 <= j < k ==> !Slot::<X>::holds(#[trigger] m.devices[j], addr),
    ensures
        IoBus::<B, X>::read_val(m, addr) == Slot::<X>::read_val(m.devices[k], addr),
        IoBus::<B, X>::read_next(m, addr).devices == m.devices.update(
            k,
            Slot::<X>::read_next(m.devices[k], addr),
        ),
        IoBus::<B, X>::write_next(m, addr, data).devices == m.devices.update(
            k,
            Slot::<X>::write_next(m.devices[k], addr, data),
        ),
        IoBus::<B, X>::fetch_val(m, addr) == IoBus::<B, X>::read_val(m, addr),
        IoBus::<B, X>::fetch_next(m, addr) == IoBus::<B, X>::read_next(m, addr),
{
    lemma_first_at::<X>(m.devices, addr, 0);
    let f = first_at::<X>(m.devices, addr, 0);
    assert(f == k) by {
        if f < k {
            assert(!Slot::<X>::holds(m.devices[f], addr));
        }
    }
}

/// A poll of the board polls every device and the bus behind them; a line is
/// raised where a device or that bus raises it.
pub proof fn law_board_lines<B: Bus, X: Device>(m: IoState<B::V, X::V>, i: int)
    requires
        0 <= i < m.devices.len(),
    ensures
        ({
            let v = IoBus::<B, X>::irq_val(m);
            let (d, b) = (lines_of::<X>(m.devices), B::irq_val(m.inner));
            let t = IoBus::<B, X>::irq_next(m);
            &&& v.0 == (d.0 || b.0) && v.1 == (d.1 || b.1) && v.2 == (d.2 || b.2)
            &&& t.devices.len() == m.devices.len()
            &&& t.devices[i] == Slot::<X>::irq_next(m.devices[i])
            &&& t.inner == B::irq_next(m.inner)
        }),
{
}

/// A write marks the GPIO port as changed where it goes to the first latch or
/// direction register of one, and the watched memory where its address is one of
/// the watched. A mark stays.
pub proof fn law_write_marks<B: Bus, X: Device>(
    m: IoState<B::V, X::V>,
    addr: u16,
    data: u8,
    k: int,
)
    requires
        0 <= k < m.devices.len(),
        Slot::<X>::holds(m.devices[k], addr),
        forall|j: int| 0 <= j < k ==> !Slot::<X>::holds(#[trigger] m.devices[j], addr),
    ensures
        ({
            let w = IoBus::<B, X>::write_next(m, addr, data);
            &&& m.devices[k] matches SlotState::Gpio(g) ==> w.gpio_dirty == (m.gpio_dirty || (addr
                - g.base) % 65536 == 0 || (addr - g.base) % 65536 == 2)
            &&& !(m.devices[k] is Gpio) ==> w.gpio_dirty == m.gpio_dirty
            &&& m.watch_len < 65536 ==> w.mem_dirty == (m.mem_dirty || (addr - m.watch_start) % 65536
                < m.watch_len)
        }),
{
    lemma_first_at::<X>(m.devices, addr, 0);
    let f = first_at::<X>(m.devices, addr, 0);
    assert(f == k) by {
        if f < k {
            assert(!Slot::<X>::holds(m.devices[f], addr));
        }
    }
    if m.watch_len < 65536 {
        lemma_watched(m.watch_start, m.watch_len, addr);
    }
}

proof fn lemma_watched(start: u16, len: usize, addr: u16)
    requires
        len < 65536,
    ensures
        watched(start, len, addr) == ((addr - start) % 65536 < len),
{
    let e = offset(start, len as int);
    assert(len as int % 0x1_0000 == len);
    if start + len < 65536 {
        assert(e == start + len);
    } else {
        assert(e == start + len - 65536);
    }
}

} // verus!
