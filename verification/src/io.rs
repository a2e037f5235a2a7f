//! Peripherals, and the bus that places them in front of another bus.

use crate::alu::{offset, offset_by};
use crate::bus::{in_span, span_holds, Bus};
use crate::timer::{TimerDev, TimerState};
use vstd::prelude::*;

pub mod block;
pub mod console;
pub mod gpio;

pub use crate::io::block::{set_block_log, BlockDev, BlockState};
pub use crate::io::console::{
    console_gui_pending_len, set_console_gui_active, set_console_gui_enabled, set_console_log,
    set_console_repaint_callback, set_console_stdout_enabled, take_console_gui_bytes, ConsoleHost,
    ConsoleState, HostOut, Mc6850Dev,
};
pub use crate::io::gpio::{
    peek_gpio_broadcast, publish_gpio_broadcast, set_gpio_log, take_gpio_broadcast, GpioBroadcast,
    GpioDev, GpioState,
};

verus! {

/// A memory-mapped peripheral. As with a bus, the view of a device is its whole
/// state, and every operation is a function of it.
pub trait Device: View + Sized {
    /// Whether the device answers at `addr`.
    spec fn holds(m: Self::V, addr: u16) -> bool;

    spec fn read_val(m: Self::V, addr: u16) -> u8;

    spec fn read_next(m: Self::V, addr: u16) -> Self::V;

    spec fn write_next(m: Self::V, addr: u16, data: u8) -> Self::V;

    spec fn irq_val(m: Self::V) -> (bool, bool, bool);

    spec fn irq_next(m: Self::V) -> Self::V;

    fn contains(&self, addr: u16) -> (r: bool)
        ensures
            r == Self::holds(self@, addr),
    ;

    fn read8(&mut self, addr: u16) -> (data: u8)
        ensures
            data == Self::read_val(old(self)@, addr),
            final(self)@ == Self::read_next(old(self)@, addr),
    ;

    fn write8(&mut self, addr: u16, data: u8)
        ensures
            final(self)@ == Self::write_next(old(self)@, addr, data),
    ;

    /// Polls the interrupt lines `(nmi, firq, irq)`.
    fn irq_lines(&mut self) -> (lines: (bool, bool, bool))
        ensures
            lines == Self::irq_val(old(self)@),
            final(self)@ == Self::irq_next(old(self)@),
    ;
}

/// A device that can be added to a bus whose devices may be of type `X`, besides
/// those of the library. `X` itself attaches as [`Slot::Other`].
pub trait Attach<X: Device>: Device {
    spec fn slotted(m: Self::V) -> SlotState<X::V>;

    /// The device as an entry of a device list.
    fn into_slot(self) -> (s: Slot<X>)
        ensures
            s@ == Self::slotted(self@),
    ;
}

/// A device that answers nowhere: a bus with only the devices of the library
/// has no others.
pub struct NoDevice;

impl View for NoDevice {
    type V = ();

    open spec fn view(&self) -> () {
        ()
    }
}

impl Device for NoDevice {
    open spec fn holds(m: (), addr: u16) -> bool {
        false
    }

    open spec fn read_val(m: (), addr: u16) -> u8 {
        0
    }

    open spec fn read_next(m: (), addr: u16) -> () {
        m
    }

    open spec fn write_next(m: (), addr: u16, data: u8) -> () {
        m
    }

    open spec fn irq_val(m: ()) -> (bool, bool, bool) {
        (false, false, false)
    }

    open spec fn irq_next(m: ()) -> () {
        m
    }

    fn contains(&self, addr: u16) -> (r: bool) {
        false
    }

    fn read8(&mut self, addr: u16) -> (data: u8) {
        0
    }

    fn write8(&mut self, addr: u16, data: u8) {
    }

    fn irq_lines(&mut self) -> (lines: (bool, bool, bool)) {
        (false, false, false)
    }
}

/// An entry of the device list.
pub enum Slot<X: Device> {
    Console(Mc6850Dev),
    Block(BlockDev),
    Gpio(GpioDev),
    Timer(TimerDev),
    /// A device that the library does not know.
    Other(X),
}

/// The state of a [`Slot`].
pub enum SlotState<W> {
    Console(ConsoleState),
    Block(BlockState),
    Gpio(GpioState),
    Timer(TimerState),
    Other(W),
}

impl<X: Device> View for Slot<X> {
    type V = SlotState<X::V>;

    open spec fn view(&self) -> SlotState<X::V> {
        match *self {
            Slot::Console(d) => SlotState::Console(d@),
            Slot::Block(d) => SlotState::Block(d@),
            Slot::Gpio(d) => SlotState::Gpio(d@),
            Slot::Timer(d) => SlotState::Timer(d@),
            Slot::Other(d) => SlotState::Other(d@),
        }
    }
}

impl<X: Device> Device for Slot<X> {
    open spec fn holds(m: SlotState<X::V>, addr: u16) -> bool {
        match m {
            SlotState::Console(d) => Mc6850Dev::holds(d, addr),
            SlotState::Block(d) => BlockDev::holds(d, addr),
            SlotState::Gpio(d) => GpioDev::holds(d, addr),
            SlotState::Timer(d) => TimerDev::holds(d, addr),
            SlotState::Other(d) => X::holds(d, addr),
        }
    }

    open spec fn read_val(m: SlotState<X::V>, addr: u16) -> u8 {
        match m {
            SlotState::Console(d) => Mc6850Dev::read_val(d, addr),
            SlotState::Block(d) => BlockDev::read_val(d, addr),
            SlotState::Gpio(d) => GpioDev::read_val(d, addr),
            SlotState::Timer(d) => TimerDev::read_val(d, addr),
            SlotState::Other(d) => X::read_val(d, addr),
        }
    }

    open spec fn read_next(m: SlotState<X::V>, addr: u16) -> SlotState<X::V> {
        match m {
            SlotState::Console(d) => SlotState::Console(Mc6850Dev::read_next(d, addr)),
            SlotState::Block(d) => SlotState::Block(BlockDev::read_next(d, addr)),
            SlotState::Gpio(d) => SlotState::Gpio(GpioDev::read_next(d, addr)),
            SlotState::Timer(d) => SlotState::Timer(TimerDev::read_next(d, addr)),
            SlotState::Other(d) => SlotState::Other(X::read_next(d, addr)),
        }
    }

    open spec fn write_next(m: SlotState<X::V>, addr: u16, data: u8) -> SlotState<X::V> {
        match m {
            SlotState::Console(d) => SlotState::Console(Mc6850Dev::write_next(d, addr, data)),
            SlotState::Block(d) => SlotState::Block(BlockDev::write_next(d, addr, data)),
            SlotState::Gpio(d) => SlotState::Gpio(GpioDev::write_next(d, addr, data)),
            SlotState::Timer(d) => SlotState::Timer(TimerDev::write_next(d, addr, data)),
            SlotState::Other(d) => SlotState::Other(X::write_next(d, addr, data)),
        }
    }

    open spec fn irq_val(m: SlotState<X::V>) -> (bool, bool, bool) {
        match m {
            SlotState::Console(d) => Mc6850Dev::irq_val(d),
            SlotState::Block(d) => BlockDev::irq_val(d),
            SlotState::Gpio(d) => GpioDev::irq_val(d),
            SlotState::Timer(d) => TimerDev::irq_val(d),
            SlotState::Other(d) => X::irq_val(d),
        }
    }

    open spec fn irq_next(m: SlotState<X::V>) -> SlotState<X::V> {
        match m {
            SlotState::Console(d) => SlotState::Console(Mc6850Dev::irq_next(d)),
            SlotState::Block(d) => SlotState::Block(BlockDev::irq_next(d)),
            SlotState::Gpio(d) => SlotState::Gpio(GpioDev::irq_next(d)),
            SlotState::Timer(d) => SlotState::Timer(TimerDev::irq_next(d)),
            SlotState::Other(d) => SlotState::Other(X::irq_next(d)),
        }
    }

    fn contains(&self, addr: u16) -> (r: bool) {
        match self {
            Slot::Console(d) => d.contains(addr),
            Slot::Block(d) => d.contains(addr),
            Slot::Gpio(d) => d.contains(addr),
            Slot::Timer(d) => d.contains(addr),
            Slot::Other(d) => d.contains(addr),
        }
    }

    fn read8(&mut self, addr: u16) -> (data: u8) {
        match self {
            Slot::Console(d) => d.read8(addr),
            Slot::Block(d) => d.read8(addr),
            Slot::Gpio(d) => d.read8(addr),
            Slot::Timer(d) => d.read8(addr),
            Slot::Other(d) => d.read8(addr),
        }
    }

    fn write8(&mut self, addr: u16, data: u8) {
        match self {
            Slot::Console(d) => d.write8(addr, data),
            Slot::Block(d) => d.write8(addr, data),
            Slot::Gpio(d) => d.write8(addr, data),
            Slot::Timer(d) => d.write8(addr, data),
            Slot::Other(d) => d.write8(addr, data),
        }
    }

    fn irq_lines(&mut self) -> (lines: (bool, bool, bool)) {
        match self {
            Slot::Console(d) => d.irq_lines(),
            Slot::Block(d) => d.irq_lines(),
            Slot::Gpio(d) => d.irq_lines(),
            Slot::Timer(d) => d.irq_lines(),
            Slot::Other(d) => d.irq_lines(),
        }
    }
}

/// The kinds of devices.
#[derive(Clone, Copy, PartialEq, Eq, Structural, Debug)]
pub enum DeviceKind {
    Console,
    Block,
    Gpio,
    Timer,
    Other,
}

pub open spec fn kind_of<W>(s: SlotState<W>) -> DeviceKind {
    match s {
        SlotState::Console(_) => DeviceKind::Console,
        SlotState::Block(_) => DeviceKind::Block,
        SlotState::Gpio(_) => DeviceKind::Gpio,
        SlotState::Timer(_) => DeviceKind::Timer,
        SlotState::Other(_) => DeviceKind::Other,
    }
}

impl<X: Device> Slot<X> {
    fn kind(&self) -> (k: DeviceKind)
        ensures
            k == kind_of(self@),
    {
        match self {
            Slot::Console(_) => DeviceKind::Console,
            Slot::Block(_) => DeviceKind::Block,
            Slot::Gpio(_) => DeviceKind::Gpio,
            Slot::Timer(_) => DeviceKind::Timer,
            Slot::Other(_) => DeviceKind::Other,
        }
    }

    fn is_console_at(&self, base: u16) -> (r: bool)
        ensures
            r == console_at(self@, base),
    {
        match self {
            Slot::Console(c) => c.base() == base,
            _ => false,
        }
    }
}

pub open spec fn slots<X: Device>(devices: Seq<Slot<X>>) -> Seq<SlotState<X::V>> {
    devices.map_values(|s: Slot<X>| s@)
}

/// The first device from `i` on that answers at `addr`; the length where none
/// does.
pub open spec fn first_at<X: Device>(devices: Seq<SlotState<X::V>>, addr: u16, i: int) -> int
    decreases devices.len() - i,
{
    if i >= devices.len() {
        devices.len() as int
    } else if Slot::<X>::holds(devices[i], addr) {
        i
    } else {
        first_at::<X>(devices, addr, i + 1)
    }
}

/// The first device of a kind from `i` on; the length where there is none.
pub open spec fn first_of<W>(devices: Seq<SlotState<W>>, kind: DeviceKind, i: int) -> int
    decreases devices.len() - i,
{
    if i >= devices.len() {
        devices.len() as int
    } else if kind_of(devices[i]) == kind {
        i
    } else {
        first_of(devices, kind, i + 1)
    }
}

pub open spec fn has_kind<W>(devices: Seq<SlotState<W>>, kind: DeviceKind) -> bool {
    first_of(devices, kind, 0) < devices.len()
}

pub open spec fn console_at<W>(s: SlotState<W>, base: u16) -> bool {
    s matches SlotState::Console(c) && c.base == base
}

/// The first console with its registers at `base` from `i` on.
pub open spec fn first_console_at<W>(devices: Seq<SlotState<W>>, base: u16, i: int) -> int
    decreases devices.len() - i,
{
    if i >= devices.len() {
        devices.len() as int
    } else if console_at(devices[i], base) {
        i
    } else {
        first_console_at(devices, base, i + 1)
    }
}

pub open spec fn dirty_block<W>(s: SlotState<W>) -> bool {
    s matches SlotState::Block(b) && b.dirty
}

/// The first block device from `i` on that has changed.
pub open spec fn first_dirty<W>(devices: Seq<SlotState<W>>, i: int) -> int
    decreases devices.len() - i,
{
    if i >= devices.len() {
        devices.len() as int
    } else if dirty_block(devices[i]) {
        i
    } else {
        first_dirty(devices, i + 1)
    }
}

/// The devices without those of a kind, but for the one at `but`.
pub open spec fn without<W>(devices: Seq<SlotState<W>>, kind: DeviceKind, but: int) -> Seq<SlotState<W>>
    decreases devices.len(),
{
    if devices.len() == 0 {
        devices
    } else {
        let rest = without(devices.drop_last(), kind, but);
        if kind_of(devices.last()) == kind && devices.len() - 1 != but {
            rest
        } else {
            rest.push(devices.last())
        }
    }
}

pub open spec fn or_lines(a: (bool, bool, bool), b: (bool, bool, bool)) -> (bool, bool, bool) {
    (a.0 || b.0, a.1 || b.1, a.2 || b.2)
}

/// The interrupt lines of the devices together.
pub open spec fn lines_of<X: Device>(devices: Seq<SlotState<X::V>>) -> (bool, bool, bool)
    decreases devices.len(),
{
    if devices.len() == 0 {
        (false, false, false)
    } else {
        or_lines(lines_of::<X>(devices.drop_last()), Slot::<X>::irq_val(devices.last()))
    }
}

/// The devices after a poll of each.
pub open spec fn polled<X: Device>(devices: Seq<SlotState<X::V>>) -> Seq<SlotState<X::V>> {
    devices.map_values(|s: SlotState<X::V>| Slot::<X>::irq_next(s))
}

/// Whether a write to `addr` falls into a watch of `len` bytes from `start` on;
/// the end wraps round the top of the address space.
pub open spec fn watched(start: u16, len: usize, addr: u16) -> bool {
    len > 0 && in_span(Some((start, offset(start, (len % 0x1_0000) as int))), addr)
}

/// Whether a write to `addr` changes the first output or direction register of
/// a GPIO port.
pub open spec fn touches_gpio<W>(s: SlotState<W>, addr: u16) -> bool {
    s matches SlotState::Gpio(g) && (g.off(addr) == 0 || g.off(addr) == 2)
}

/// The state of an [`IoBus`] in front of a bus with state `M`; `W` is the state
/// of its other devices.
pub struct IoState<M, W> {
    pub inner: M,
    pub devices: Seq<SlotState<W>>,
    pub gpio_dirty: bool,
    pub watch_start: u16,
    pub watch_len: usize,
    pub mem_dirty: bool,
}

/// A bus with devices in front of another bus. The first device that answers at
/// an address takes the access.
pub struct IoBus<B: Bus, X: Device = NoDevice> {
    inner: B,
    devices: Vec<Slot<X>>,
    gpio_dirty: bool,
    mem_watch_start: u16,
    mem_watch_len: usize,
    mem_dirty: bool,
}

impl<B: Bus, X: Device> View for IoBus<B, X> {
    type V = IoState<B::V, X::V>;

    closed spec fn view(&self) -> IoState<B::V, X::V> {
        IoState {
            inner: self.inner@,
            devices: slots(self.devices@),
            gpio_dirty: self.gpio_dirty,
            watch_start: self.mem_watch_start,
            watch_len: self.mem_watch_len,
            mem_dirty: self.mem_dirty,
        }
    }
}

impl<M, W> IoState<M, W> {
    pub open spec fn with_devices(self, devices: Seq<SlotState<W>>) -> IoState<M, W> {
        IoState { devices, ..self }
    }

    /// Adds or removes a device of a kind.
    pub open spec fn ensured(self, kind: DeviceKind, enable: bool, fresh: SlotState<W>) -> IoState<M, W> {
        if !enable {
            self.with_devices(without(self.devices, kind, -1))
        } else if has_kind(self.devices, kind) {
            self
        } else {
            self.with_devices(self.devices.push(fresh))
        }
    }

    /// Exactly one console, with its registers at `base`, or none.
    pub open spec fn console_ensured(self, enable: bool, base: u16) -> IoState<M, W> {
        let k = first_console_at(self.devices, base, 0);
        if !enable {
            self.with_devices(without(self.devices, DeviceKind::Console, -1))
        } else if k < self.devices.len() {
            self.with_devices(without(self.devices, DeviceKind::Console, k))
        } else {
            self.with_devices(
                without(self.devices, DeviceKind::Console, -1).push(
                    SlotState::Console(crate::io::console::fresh_console(base)),
                ),
            )
        }
    }

    /// A GPIO port that is there is moved and resized.
    pub open spec fn gpio_ensured(self, enable: bool, base: u16, bits: u8) -> IoState<M, W> {
        let k = first_of(self.devices, DeviceKind::Gpio, 0);
        if enable && k < self.devices.len() {
            self.with_devices(
                self.devices.update(
                    k,
                    SlotState::Gpio(self.devices[k]->Gpio_0.resized(base, bits)),
                ),
            )
        } else {
            self.ensured(
                DeviceKind::Gpio,
                enable,
                SlotState::Gpio(crate::io::gpio::fresh_gpio(base, bits)),
            )
        }
    }

    /// The marks that a write leaves, where device `k` answers.
    pub open spec fn marked(self, addr: u16, k: int) -> IoState<M, W> {
        IoState {
            gpio_dirty: self.gpio_dirty || (k < self.devices.len() && touches_gpio(
                self.devices[k],
                addr,
            )),
            mem_dirty: self.mem_dirty || watched(self.watch_start, self.watch_len, addr),
            ..self
        }
    }
}

/// Whether `f` may run on the first console of a device list, where there is one.
pub open spec fn console_callable<W, F: FnOnce(&mut Mc6850Dev)>(
    f: F,
    devices: Seq<SlotState<W>>,
) -> bool {
    let k = first_of(devices, DeviceKind::Console, 0);
    k < devices.len() ==> forall|d: &mut Mc6850Dev|
        devices[k] == SlotState::<W>::Console((*d)@) ==> #[trigger] call_requires(f, (d,))
}

/// Whether `f` may run on the first block device of a device list, where there is one.
pub open spec fn block_callable<W, F: FnOnce(&mut BlockDev)>(
    f: F,
    devices: Seq<SlotState<W>>,
) -> bool {
    let k = first_of(devices, DeviceKind::Block, 0);
    k < devices.len() ==> forall|d: &mut BlockDev|
        devices[k] == SlotState::<W>::Block((*d)@) ==> #[trigger] call_requires(f, (d,))
}

/// Whether `f` may run on the first GPIO port of a device list, where there is one.
pub open spec fn gpio_callable<W, F: FnOnce(&mut GpioDev)>(
    f: F,
    devices: Seq<SlotState<W>>,
) -> bool {
    let k = first_of(devices, DeviceKind::Gpio, 0);
    k < devices.len() ==> forall|d: &mut GpioDev|
        devices[k] == SlotState::<W>::Gpio((*d)@) ==> #[trigger] call_requires(f, (d,))
}

/// Whether `f` may run on the first timer of a device list, where there is one.
pub open spec fn timer_callable<W, F: FnOnce(&mut TimerDev)>(
    f: F,
    devices: Seq<SlotState<W>>,
) -> bool {
    let k = first_of(devices, DeviceKind::Timer, 0);
    k < devices.len() ==> forall|d: &mut TimerDev|
        devices[k] == SlotState::<W>::Timer((*d)@) ==> #[trigger] call_requires(f, (d,))
}

impl<B: Bus> IoBus<B> {
    /// A bus without devices, for those of the library.
    pub fn new(inner: B) -> (io: Self)
        requires
            inner.wf(),
        ensures
            io.wf(),
            io.inner_bus() == inner,
            io@ == (IoState::<B::V, ()> {
                inner: inner@,
                devices: Seq::empty(),
                gpio_dirty: false,
                watch_start: 0,
                watch_len: 0,
                mem_dirty: false,
            }),
    {
        IoBus::for_others(inner)
    }
}

impl<B: Bus, X: Device> IoBus<B, X> {
    pub closed spec fn inner_bus(&self) -> B {
        self.inner
    }

    /// A bus without devices, for those of the library and others of type `X`.
    pub fn for_others(inner: B) -> (io: Self)
        requires
            inner.wf(),
        ensures
            io.wf(),
            io.inner_bus() == inner,
            io@ == (IoState::<B::V, X::V> {
                inner: inner@,
                devices: Seq::empty(),
                gpio_dirty: false,
                watch_start: 0,
                watch_len: 0,
                mem_dirty: false,
            }),
    {
        let io = IoBus {
            inner,
            devices: Vec::new(),
            gpio_dirty: false,
            mem_watch_start: 0,
            mem_watch_len: 0,
            mem_dirty: false,
        };
        assert(slots(io.devices@) =~= Seq::<SlotState<X::V>>::empty());
        io
    }

    /// Adds a device behind those that are there.
    pub fn add_device<D: Attach<X>>(&mut self, dev: D)
        requires
            old(self).wf(),
        ensures
            final(self).wf(),
            final(self).inner_bus() == old(self).inner_bus(),
            final(self)@ == old(self)@.with_devices(old(self)@.devices.push(D::slotted(dev@))),
    {
        let ghost before = self.devices@;
        self.devices.push(dev.into_slot());
        assert(slots(self.devices@) =~= slots(before).push(D::slotted(dev@)));
    }

    fn find(&self, kind: DeviceKind) -> (i: usize)
        ensures
            i == first_of(self@.devices, kind, 0),
            i <= self.devices@.len(),
            i < self.devices@.len() ==> kind_of(self.devices@[i as int]@) == kind,
    {
        let mut i: usize = 0;
        while i < self.devices.len()
            invariant
                i <= self.devices@.len(),
                first_of(self@.devices, kind, 0) == first_of(self@.devices, kind, i as int),
            decreases self.devices@.len() - i,
        {
            if self.devices[i].kind() == kind {
                return i;
            }
            i = i + 1;
        }
        i
    }

    fn find_at(&self, addr: u16) -> (i: usize)
        ensures
            i == first_at::<X>(self@.devices, addr, 0),
            i <= self.devices@.len(),
    {
        let mut i: usize = 0;
        while i < self.devices.len()
            invariant
                i <= self.devices@.len(),
                first_at::<X>(self@.devices, addr, 0) == first_at::<X>(self@.devices, addr, i as int),
            decreases self.devices@.len() - i,
        {
            if self.devices[i].contains(addr) {
                return i;
            }
            i = i + 1;
        }
        i
    }

    fn find_console_at(&self, base: u16) -> (i: usize)
        ensures
            i == first_console_at(self@.devices, base, 0),
            i <= self.devices@.len(),
    {
        let mut i: usize = 0;
        while i < self.devices.len()
            invariant
                i <= self.devices@.len(),
                first_console_at(self@.devices, base, 0) == first_console_at(
                    self@.devices,
                    base,
                    i as int,
                ),
            decreases self.devices@.len() - i,
        {
            if self.devices[i].is_console_at(base) {
                return i;
            }
            i = i + 1;
        }
        i
    }

    /// Removes the devices of a kind, but for the one at `but`.
    fn remove(&mut self, kind: DeviceKind, but: Option<usize>)
        requires
            old(self).wf(),
        ensures
            final(self).wf(),
            final(self).inner_bus() == old(self).inner_bus(),
            final(self)@ == old(self)@.with_devices(
                without(
                    old(self)@.devices,
                    kind,
                    match but {
                        Some(k) => k as int,
                        None => -1,
                    },
                ),
            ),
    {
        let ghost all = slots(self.devices@);
        let ghost b: int = match but {
            Some(k) => k as int,
            None => -1,
        };
        let n: usize = self.devices.len();
        let mut seen: usize = 0;
        let mut i: usize = 0;
        assert(all.skip(0) =~= all);
        while seen < n
            invariant
                n == all.len(),
                i <= seen <= n,
                *self == (IoBus { devices: self.devices, ..*old(self) }),
                self.devices@.len() == i + (n - seen),
                slots(self.devices@).take(i as int) == without(all.take(seen as int), kind, b),
                slots(self.devices@).skip(i as int) == all.skip(seen as int),
                b == match but {
                    Some(k) => k as int,
                    None => -1,
                },
            decreases n - seen,
        {
            let ghost before = slots(self.devices@);
            let keep_this: bool = match but {
                Some(k) => k == seen,
                None => false,
            };
            proof {
                assert(before.skip(i as int)[0] == all.skip(seen as int)[0]);
                assert(before[i as int] == all[seen as int]);
                assert(all.take(seen + 1).drop_last() =~= all.take(seen as int));
            }
            if self.devices[i].kind() == kind && !keep_this {
                let _ = self.devices.remove(i);
                assert(slots(self.devices@) =~= before.remove(i as int));
                assert(slots(self.devices@).take(i as int) =~= before.take(i as int));
            } else {
                assert(before.take(i + 1) =~= before.take(i as int).push(before[i as int]));
                i = i + 1;
            }
            seen = seen + 1;
            proof {
                assert(slots(self.devices@).skip(i as int) =~= all.skip(seen as int)) by {
                    let s = slots(self.devices@).skip(i as int);
                    let t = all.skip(seen as int);
                    assert forall|j: int| 0 <= j < t.len() implies s[j] == t[j] by {
                        let u = all.skip(seen as int - 1);
                        assert(u[j + 1] == t[j]);
                    }
                }
            }
        }
        assert(slots(self.devices@).take(i as int) =~= slots(self.devices@));
        assert(all.take(seen as int) =~= all);
    }

    /// Hands received bytes to the first console, where there is one.
    pub fn feed_console_input(&mut self, bytes: &[u8])
        requires
            old(self).wf(),
        ensures
            final(self).wf(),
            final(self).inner_bus() == old(self).inner_bus(),
            final(self)@ == ({
                let devs = old(self)@.devices;
                let k = first_of(devs, DeviceKind::Console, 0);
                if k < devs.len() {
                    old(self)@.with_devices(
                        devs.update(k, SlotState::Console(devs[k]->Console_0.fed(bytes@))),
                    )
                } else {
                    old(self)@
                }
            }),
    {
        let ghost all = slots(self.devices@);
        let k: usize = self.find(DeviceKind::Console);
        if k < self.devices.len() {
            match &mut self.devices[k] {
                Slot::Console(c) => {
                    c.feed_bytes(bytes);
                },
                _ => {},
            }
            assert(slots(self.devices@) =~= all.update(
                k as int,
                SlotState::Console(all[k as int]->Console_0.fed(bytes@)),
            ));
        }
    }

    /// Runs `f` on the first console; tells whether there is one.
    pub fn with_console_mut<F: FnOnce(&mut Mc6850Dev)>(&mut self, f: F) -> (ran: bool)
        requires
            old(self).wf(),
            console_callable(f, old(self)@.devices),
        ensures
            final(self).wf(),
            final(self).inner_bus() == old(self).inner_bus(),
            ran == has_kind(old(self)@.devices, DeviceKind::Console),
            !has_kind(old(self)@.devices, DeviceKind::Console) ==> final(self)@ == old(self)@,
            has_kind(old(self)@.devices, DeviceKind::Console) ==> exists|d: &mut Mc6850Dev| #[trigger]
                call_ensures(f, (d,), ()) && old(self)@.devices[first_of(
                    old(self)@.devices,
                    DeviceKind::Console,
                    0,
                )] == SlotState::<X::V>::Console((*d)@) && final(self)@ == old(self)@.with_devices(
                    old(self)@.devices.update(
                        first_of(old(self)@.devices, DeviceKind::Console, 0),
                        SlotState::Console((*final(d))@),
                    ),
                ),
    {
        let ghost all = slots(self.devices@);
        let k: usize = self.find(DeviceKind::Console);
        if k < self.devices.len() {
            match &mut self.devices[k] {
                Slot::Console(d) => {
                    f(d);
                },
                _ => {},
            }
            assert(slots(self.devices@) =~= all.update(k as int, self.devices@[k as int]@));
            true
        } else {
            false
        }
    }

    /// Runs `f` on the first console, where there is one.
    pub fn with_console_mut_opt<F: FnOnce(&mut Mc6850Dev)>(&mut self, f: F)
        requires
            old(self).wf(),
            console_callable(f, old(self)@.devices),
        ensures
            final(self).wf(),
            final(self).inner_bus() == old(self).inner_bus(),
            !has_kind(old(self)@.devices, DeviceKind::Console) ==> final(self)@ == old(self)@,
            has_kind(old(self)@.devices, DeviceKind::Console) ==> exists|d: &mut Mc6850Dev| #[trigger]
                call_ensures(f, (d,), ()) && old(self)@.devices[first_of(
                    old(self)@.devices,
                    DeviceKind::Console,
                    0,
                )] == SlotState::<X::V>::Console((*d)@) && final(self)@ == old(self)@.with_devices(
                    old(self)@.devices.update(
                        first_of(old(self)@.devices, DeviceKind::Console, 0),
                        SlotState::Console((*final(d))@),
                    ),
                ),
    {
        let _ = self.with_console_mut(f);
    }

    /// Runs `f` on the first block device; tells whether there is one.
    pub fn with_block_mut<F: FnOnce(&mut BlockDev)>(&mut self, f: F) -> (ran: bool)
        requires
            old(self).wf(),
            block_callable(f, old(self)@.devices),
        ensures
            final(self).wf(),
            final(self).inner_bus() == old(self).inner_bus(),
            ran == has_kind(old(self)@.devices, DeviceKind::Block),
            !has_kind(old(self)@.devices, DeviceKind::Block) ==> final(self)@ == old(self)@,
            has_kind(old(self)@.devices, DeviceKind::Block) ==> exists|d: &mut BlockDev| #[trigger]
                call_ensures(f, (d,), ()) && old(self)@.devices[first_of(
                    old(self)@.devices,
                    DeviceKind::Block,
                    0,
                )] == SlotState::<X::V>::Block((*d)@) && final(self)@ == old(self)@.with_devices(
                    old(self)@.devices.update(
                        first_of(old(self)@.devices, DeviceKind::Block, 0),
                        SlotState::Block((*final(d))@),
                    ),
                ),
    {
        let ghost all = slots(self.devices@);
        let k: usize = self.find(DeviceKind::Block);
        if k < self.devices.len() {
            match &mut self.devices[k] {
                Slot::Block(d) => {
                    f(d);
                },
                _ => {},
            }
            assert(slots(self.devices@) =~= all.update(k as int, self.devices@[k as int]@));
            true
        } else {
            false
        }
    }

    /// Runs `f` on the first block device, where there is one.
    pub fn with_block_mut_opt<F: FnOnce(&mut BlockDev)>(&mut self, f: F)
        requires
            old(self).wf(),
            block_callable(f, old(self)@.devices),
        ensures
            final(self).wf(),
            final(self).inner_bus() == old(self).inner_bus(),
            !has_kind(old(self)@.devices, DeviceKind::Block) ==> final(self)@ == old(self)@,
            has_kind(old(self)@.devices, DeviceKind::Block) ==> exists|d: &mut BlockDev| #[trigger]
                call_ensures(f, (d,), ()) && old(self)@.devices[first_of(
                    old(self)@.devices,
                    DeviceKind::Block,
                    0,
                )] == SlotState::<X::V>::Block((*d)@) && final(self)@ == old(self)@.with_devices(
                    old(self)@.devices.update(
                        first_of(old(self)@.devices, DeviceKind::Block, 0),
                        SlotState::Block((*final(d))@),
                    ),
                ),
    {
        let _ = self.with_block_mut(f);
    }

    /// Runs `f` on the first GPIO port, where there is one.
    pub fn with_gpio_mut<F: FnOnce(&mut GpioDev)>(&mut self, f: F)
        requires
            old(self).wf(),
            gpio_callable(f, old(self)@.devices),
        ensures
            final(self).wf(),
            final(self).inner_bus() == old(self).inner_bus(),
            !has_kind(old(self)@.devices, DeviceKind::Gpio) ==> final(self)@ == old(self)@,
            has_kind(old(self)@.devices, DeviceKind::Gpio) ==> exists|d: &mut GpioDev| #[trigger]
                call_ensures(f, (d,), ()) && old(self)@.devices[first_of(
                    old(self)@.devices,
                    DeviceKind::Gpio,
                    0,
                )] == SlotState::<X::V>::Gpio((*d)@) && final(self)@ == old(self)@.with_devices(
                    old(self)@.devices.update(
                        first_of(old(self)@.devices, DeviceKind::Gpio, 0),
                        SlotState::Gpio((*final(d))@),
                    ),
                ),
    {
        let ghost all = slots(self.devices@);
        let k: usize = self.find(DeviceKind::Gpio);
        if k < self.devices.len() {
            match &mut self.devices[k] {
                Slot::Gpio(d) => {
                    f(d);
                },
                _ => {},
            }
            assert(slots(self.devices@) =~= all.update(k as int, self.devices@[k as int]@));
        }
    }

    /// Runs `f` on the first GPIO port, where there is one.
    pub fn with_gpio_mut_opt<F: FnOnce(&mut GpioDev)>(&mut self, f: F)
        requires
            old(self).wf(),
            gpio_callable(f, old(self)@.devices),
        ensures
            final(self).wf(),
            final(self).inner_bus() == old(self).inner_bus(),
            !has_kind(old(self)@.devices, DeviceKind::Gpio) ==> final(self)@ == old(self)@,
            has_kind(old(self)@.devices, DeviceKind::Gpio) ==> exists|d: &mut GpioDev| #[trigger]
                call_ensures(f, (d,), ()) && old(self)@.devices[first_of(
                    old(self)@.devices,
                    DeviceKind::Gpio,
                    0,
                )] == SlotState::<X::V>::Gpio((*d)@) && final(self)@ == old(self)@.with_devices(
                    old(self)@.devices.update(
                        first_of(old(self)@.devices, DeviceKind::Gpio, 0),
                        SlotState::Gpio((*final(d))@),
                    ),
                ),
    {
        self.with_gpio_mut(f);
    }

    /// Runs `f` on the first timer, where there is one.
    pub fn with_timer_mut<F: FnOnce(&mut TimerDev)>(&mut self, f: F)
        requires
            old(self).wf(),
            timer_callable(f, old(self)@.devices),
        ensures
            final(self).wf(),
            final(self).inner_bus() == old(self).inner_bus(),
            !has_kind(old(self)@.devices, DeviceKind::Timer) ==> final(self)@ == old(self)@,
            has_kind(old(self)@.devices, DeviceKind::Timer) ==> exists|d: &mut TimerDev| #[trigger]
                call_ensures(f, (d,), ()) && old(self)@.devices[first_of(
                    old(self)@.devices,
                    DeviceKind::Timer,
                    0,
                )] == SlotState::<X::V>::Timer((*d)@) && final(self)@ == old(self)@.with_devices(
                    old(self)@.devices.update(
                        first_of(old(self)@.devices, DeviceKind::Timer, 0),
                        SlotState::Timer((*final(d))@),
                    ),
                ),
    {
        let ghost all = slots(self.devices@);
        let k: usize = self.find(DeviceKind::Timer);
        if k < self.devices.len() {
            match &mut self.devices[k] {
                Slot::Timer(d) => {
                    f(d);
                },
                _ => {},
            }
            assert(slots(self.devices@) =~= all.update(k as int, self.devices@[k as int]@));
        }
    }

    /// Runs `f` on the first timer, where there is one.
    pub fn with_timer_mut_opt<F: FnOnce(&mut TimerDev)>(&mut self, f: F)
        requires
            old(self).wf(),
            timer_callable(f, old(self)@.devices),
        ensures
            final(self).wf(),
            final(self).inner_bus() == old(self).inner_bus(),
            !has_kind(old(self)@.devices, DeviceKind::Timer) ==> final(self)@ == old(self)@,
            has_kind(old(self)@.devices, DeviceKind::Timer) ==> exists|d: &mut TimerDev| #[trigger]
                call_ensures(f, (d,), ()) && old(self)@.devices[first_of(
                    old(self)@.devices,
                    DeviceKind::Timer,
                    0,
                )] == SlotState::<X::V>::Timer((*d)@) && final(self)@ == old(self)@.with_devices(
                    old(self)@.devices.update(
                        first_of(old(self)@.devices, DeviceKind::Timer, 0),
                        SlotState::Timer((*final(d))@),
                    ),
                ),
    {
        self.with_timer_mut(f);
    }

    /// The bus behind the devices.
    pub fn inner_any_mut(&mut self) -> (inner: &mut B)
        requires
            old(self).wf(),
        ensures
            *inner == old(self).inner_bus(),
            inner.wf(),
            inner@ == old(self)@.inner,
            final(self).inner_bus() == *final(inner),
            final(inner).wf() ==> final(self).wf(),
            final(self)@ == (IoState { inner: final(inner)@, ..old(self)@ }),
    {
        &mut self.inner
    }

    /// Whether a GPIO port was written since the last call.
    pub fn take_gpio_dirty(&mut self) -> (r: bool)
        requires
            old(self).wf(),
        ensures
            final(self).wf(),
            final(self).inner_bus() == old(self).inner_bus(),
            r == old(self)@.gpio_dirty,
            final(self)@ == (IoState { gpio_dirty: false, ..old(self)@ }),
    {
        let r: bool = self.gpio_dirty;
        self.gpio_dirty = false;
        r
    }

    /// Watches `len` bytes from `start` on for writes; 0 is none.
    pub fn set_mem_watch(&mut self, start: u16, len: usize)
        requires
            old(self).wf(),
        ensures
            final(self).wf(),
            final(self).inner_bus() == old(self).inner_bus(),
            final(self)@ == (IoState { watch_start: start, watch_len: len, ..old(self)@ }),
    {
        self.mem_watch_start = start;
        self.mem_watch_len = len;
    }

    /// Whether watched bytes were written since the last call.
    pub fn take_mem_dirty(&mut self) -> (r: bool)
        requires
            old(self).wf(),
        ensures
            final(self).wf(),
            final(self).inner_bus() == old(self).inner_bus(),
            r == old(self)@.mem_dirty,
            final(self)@ == (IoState { mem_dirty: false, ..old(self)@ }),
    {
        let r: bool = self.mem_dirty;
        self.mem_dirty = false;
        r
    }

    /// Whether a block device has changed; the first that has is marked as
    /// seen.
    pub fn take_block_dirty(&mut self) -> (r: bool)
        requires
            old(self).wf(),
        ensures
            final(self).wf(),
            final(self).inner_bus() == old(self).inner_bus(),
            r == (first_dirty(old(self)@.devices, 0) < old(self)@.devices.len()),
            final(self)@ == ({
                let devs = old(self)@.devices;
                let k = first_dirty(devs, 0);
                if k < devs.len() {
                    old(self)@.with_devices(
                        devs.update(
                            k,
                            SlotState::Block(BlockState { dirty: false, ..devs[k]->Block_0 }),
                        ),
                    )
                } else {
                    old(self)@
                }
            }),
    {
        let ghost all = slots(self.devices@);
        let mut i: usize = 0;
        while i < self.devices.len()
            invariant
                i <= all.len(),
                old(self).wf(),
                *self == (IoBus { devices: self.devices, ..*old(self) }),
                slots(self.devices@) == all,
                all == old(self)@.devices,
                first_dirty(all, 0) == first_dirty(all, i as int),
            decreases all.len() - i,
        {
            let mut hit: bool = false;
            assert(slots(self.devices@)[i as int] == self.devices@[i as int]@);
            match &mut self.devices[i] {
                Slot::Block(b) => {
                    hit = b.take_dirty();
                },
                _ => {},
            }
            if hit {
                assert(slots(self.devices@) =~= all.update(
                    i as int,
                    SlotState::Block(BlockState { dirty: false, ..all[i as int]->Block_0 }),
                ));
                return true;
            }
            assert(slots(self.devices@) =~= all);
            i = i + 1;
        }
        false
    }

    /// Ensures that there is exactly one console, with its registers at `base`,
    /// or none.
    pub fn ensure_console(&mut self, enable: bool, base: u16)
        requires
            old(self).wf(),
        ensures
            final(self).wf(),
            final(self).inner_bus() == old(self).inner_bus(),
            final(self)@ == old(self)@.console_ensured(enable, base),
    {
        if !enable {
            self.remove(DeviceKind::Console, None);
            return;
        }
        let k: usize = self.find_console_at(base);
        if k < self.devices.len() {
            self.remove(DeviceKind::Console, Some(k));
        } else {
            self.remove(DeviceKind::Console, None);
            self.add_device(Mc6850Dev::new(base));
        }
    }

    /// Ensures that there is a block device, new ones with their registers at
    /// `base`, or none.
    pub fn ensure_block(&mut self, enable: bool, base: u16)
        requires
            old(self).wf(),
        ensures
            final(self).wf(),
            final(self).inner_bus() == old(self).inner_bus(),
            final(self)@ == old(self)@.ensured(
                DeviceKind::Block,
                enable,
                SlotState::Block(crate::io::block::fresh_block(base)),
            ),
    {
        if !enable {
            self.remove(DeviceKind::Block, None);
        } else if self.find(DeviceKind::Block) >= self.devices.len() {
            self.add_device(BlockDev::new(base));
        }
    }

    /// Ensures that there is a GPIO port of `bits` lines with its registers at
    /// `base`, or none.
    pub fn ensure_gpio(&mut self, enable: bool, base: u16, bits: u8)
        requires
            old(self).wf(),
        ensures
            final(self).wf(),
            final(self).inner_bus() == old(self).inner_bus(),
            final(self)@ == old(self)@.gpio_ensured(enable, base, bits),
    {
        if !enable {
            self.remove(DeviceKind::Gpio, None);
            return;
        }
        let ghost all = slots(self.devices@);
        let k: usize = self.find(DeviceKind::Gpio);
        if k < self.devices.len() {
            match &mut self.devices[k] {
                Slot::Gpio(g) => {
                    g.resize(base, bits);
                },
                _ => {},
            }
            assert(slots(self.devices@) =~= all.update(
                k as int,
                SlotState::Gpio(all[k as int]->Gpio_0.resized(base, bits)),
            ));
        } else {
            self.add_device(GpioDev::new(base, bits));
        }
    }

    /// Ensures that there is a timer, new ones with their registers at `base`,
    /// or none.
    pub fn ensure_timer(&mut self, enable: bool, base: u16)
        requires
            old(self).wf(),
        ensures
            final(self).wf(),
            final(self).inner_bus() == old(self).inner_bus(),
            final(self)@ == old(self)@.ensured(
                DeviceKind::Timer,
                enable,
                SlotState::Timer(crate::timer::fresh_timer(base)),
            ),
    {
        if !enable {
            self.remove(DeviceKind::Timer, None);
        } else if self.find(DeviceKind::Timer) >= self.devices.len() {
            self.add_device(TimerDev::new(base));
        }
    }
}

impl<B: Bus, X: Device> Bus for IoBus<B, X> {
    closed spec fn wf(&self) -> bool {
        self.inner.wf()
    }

    open spec fn read_val(m: IoState<B::V, X::V>, addr: u16) -> u8 {
        let k = first_at::<X>(m.devices, addr, 0);
        if k < m.devices.len() {
            Slot::<X>::read_val(m.devices[k], addr)
        } else {
            B::read_val(m.inner, addr)
        }
    }

    open spec fn read_next(m: IoState<B::V, X::V>, addr: u16) -> IoState<B::V, X::V> {
        let k = first_at::<X>(m.devices, addr, 0);
        if k < m.devices.len() {
            m.with_devices(m.devices.update(k, Slot::<X>::read_next(m.devices[k], addr)))
        } else {
            IoState { inner: B::read_next(m.inner, addr), ..m }
        }
    }

    open spec fn fetch_val(m: IoState<B::V, X::V>, addr: u16) -> u8 {
        Self::read_val(m, addr)
    }

    open spec fn fetch_next(m: IoState<B::V, X::V>, addr: u16) -> IoState<B::V, X::V> {
        Self::read_next(m, addr)
    }

    open spec fn write_next(m: IoState<B::V, X::V>, addr: u16, data: u8) -> IoState<B::V, X::V> {
        let k = first_at::<X>(m.devices, addr, 0);
        let s = m.marked(addr, k);
        if k < m.devices.len() {
            s.with_devices(m.devices.update(k, Slot::<X>::write_next(m.devices[k], addr, data)))
        } else {
            IoState { inner: B::write_next(m.inner, addr, data), ..s }
        }
    }

    open spec fn irq_val(m: IoState<B::V, X::V>) -> (bool, bool, bool) {
        or_lines(lines_of::<X>(m.devices), B::irq_val(m.inner))
    }

    open spec fn irq_next(m: IoState<B::V, X::V>) -> IoState<B::V, X::V> {
        IoState { inner: B::irq_next(m.inner), devices: polled::<X>(m.devices), ..m }
    }

    fn read8(&mut self, addr: u16) -> (data: u8) {
        let ghost all = slots(self.devices@);
        let k: usize = self.find_at(addr);
        if k < self.devices.len() {
            let data: u8 = self.devices[k].read8(addr);
            assert(slots(self.devices@) =~= all.update(
                k as int,
                Slot::<X>::read_next(all[k as int], addr),
            ));
            data
        } else {
            self.inner.read8(addr)
        }
    }

    fn read8_fetch(&mut self, addr: u16) -> (data: u8) {
        self.read8(addr)
    }

    fn write8(&mut self, addr: u16, data: u8) {
        let ghost all = slots(self.devices@);
        let k: usize = self.find_at(addr);
        if k < self.devices.len() {
            if let Slot::Gpio(g) = &self.devices[k] {
                let off: u16 = g.off(addr);
                if off == 0 || off == 2 {
                    self.gpio_dirty = true;
                }
            }
        }
        if self.mem_watch_len > 0 {
            let end: u16 = offset_by(self.mem_watch_start, (self.mem_watch_len % 0x1_0000) as i32);
            if span_holds(Some((self.mem_watch_start, end)), addr) {
                self.mem_dirty = true;
            }
        }
        if k < self.devices.len() {
            self.devices[k].write8(addr, data);
            assert(slots(self.devices@) =~= all.update(
                k as int,
                Slot::<X>::write_next(all[k as int], addr, data),
            ));
        } else {
            self.inner.write8(addr, data);
        }
    }

    fn irq_lines(&mut self) -> (lines: (bool, bool, bool)) {
        let ghost all = slots(self.devices@);
        let mut nmi: bool = false;
        let mut firq: bool = false;
        let mut irq: bool = false;
        let mut i: usize = 0;
        while i < self.devices.len()
            invariant
                i <= all.len(),
                *self == (IoBus { devices: self.devices, ..*old(self) }),
                self.devices@.len() == all.len(),
                forall|j: int|
                    0 <= j < all.len() ==> (#[trigger] self.devices@[j])@ == if j < i {
                        Slot::<X>::irq_next(all[j])
                    } else {
                        all[j]
                    },
                (nmi, firq, irq) == lines_of::<X>(all.take(i as int)),
            decreases all.len() - i,
        {
            let (n, f, q) = self.devices[i].irq_lines();
            assert(all.take(i + 1).drop_last() =~= all.take(i as int));
            nmi = nmi || n;
            firq = firq || f;
            irq = irq || q;
            i = i + 1;
        }
        assert(all.take(i as int) =~= all);
        assert(slots(self.devices@) =~= polled::<X>(all));
        let (n, f, q) = self.inner.irq_lines();
        (nmi || n, firq || f, irq || q)
    }
}

} // verus!
