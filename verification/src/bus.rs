//! The bus that the CPU reads, writes and fetches through, a flat 64 KiB
//! memory, and a bus that remembers which addresses were written.

use crate::alu::{offset, offset_by};
use crate::sorted::{addr_set, ascending, insert_sorted};
use vstd::prelude::*;

verus! {

/// A 16-bit address space.
///
/// The view of a bus is its whole state, and every operation is a function of
/// that state: the `_val` functions say what an access returns, the `_next`
/// functions what state it leaves. A read may change the state, as that of a
/// device register does.
pub trait Bus: View + Sized {
    /// What the type's own representation has to satisfy.
    spec fn wf(&self) -> bool;

    spec fn read_val(m: Self::V, addr: u16) -> u8;

    spec fn read_next(m: Self::V, addr: u16) -> Self::V;

    spec fn fetch_val(m: Self::V, addr: u16) -> u8;

    spec fn fetch_next(m: Self::V, addr: u16) -> Self::V;

    spec fn write_next(m: Self::V, addr: u16, data: u8) -> Self::V;

    /// The lines `(nmi, firq, irq)` that a poll reports.
    spec fn irq_val(m: Self::V) -> (bool, bool, bool);

    spec fn irq_next(m: Self::V) -> Self::V;

    /// Reads the byte at `addr`.
    fn read8(&mut self, addr: u16) -> (data: u8)
        requires
            old(self).wf(),
        ensures
            final(self).wf(),
            data == Self::read_val(old(self)@, addr),
            final(self)@ == Self::read_next(old(self)@, addr),
    ;

    /// Reads the byte at `addr` as part of an instruction, so that a bus with
    /// execute permissions can tell it from a data read.
    fn read8_fetch(&mut self, addr: u16) -> (data: u8)
        requires
            old(self).wf(),
        ensures
            final(self).wf(),
            data == Self::fetch_val(old(self)@, addr),
            final(self)@ == Self::fetch_next(old(self)@, addr),
    ;

    /// Writes `data` at `addr`.
    fn write8(&mut self, addr: u16, data: u8)
        requires
            old(self).wf(),
        ensures
            final(self).wf(),
            final(self)@ == Self::write_next(old(self)@, addr, data),
    ;

    /// Polls the interrupt lines `(nmi, firq, irq)`.
    fn irq_lines(&mut self) -> (lines: (bool, bool, bool))
        requires
            old(self).wf(),
        ensures
            final(self).wf(),
            lines == Self::irq_val(old(self)@),
            final(self)@ == Self::irq_next(old(self)@),
    ;
}

/// The state behind writes of `bytes` to the addresses from `base` on, in
/// order; the addresses wrap round the top of the address space.
pub open spec fn write_all<B: Bus>(m: B::V, base: u16, bytes: Seq<u8>) -> B::V
    decreases bytes.len(),
{
    if bytes.len() == 0 {
        m
    } else {
        B::write_next(
            write_all::<B>(m, base, bytes.drop_last()),
            offset(base, bytes.len() - 1),
            bytes.last(),
        )
    }
}

/// Writes `bytes` to the addresses from `base` on.
pub fn write_slice<B: Bus>(bus: &mut B, base: u16, bytes: &[u8])
    requires
        old(bus).wf(),
    ensures
        final(bus).wf(),
        final(bus)@ == write_all::<B>(old(bus)@, base, bytes@),
{
    let mut addr: u16 = base;
    let mut i: usize = 0;
    while i < bytes.len()
        invariant
            i <= bytes@.len(),
            bus.wf(),
            addr == offset(base, i as int),
            bus@ == write_all::<B>(old(bus)@, base, bytes@.take(i as int)),
        decreases bytes@.len() - i,
    {
        bus.write8(addr, bytes[i]);
        proof {
            let t = bytes@.take(i + 1);
            assert(t.drop_last() =~= bytes@.take(i as int));
        }
        addr = offset_by(addr, 1);
        i = i + 1;
    }
    assert(bytes@.take(i as int) =~= bytes@);
}

/// Flat 64 KiB of memory; its view is the 65536 bytes in address order.
pub struct Memory {
    data: [u8; 65536],
}

impl View for Memory {
    type V = Seq<u8>;

    closed spec fn view(&self) -> Seq<u8> {
        self.data@
    }
}

/// The bytes of `m` with `bytes` laid over them from `base` on; what would
/// reach past the end of `m` is left out.
pub open spec fn overlay(m: Seq<u8>, base: int, bytes: Seq<u8>) -> Seq<u8> {
    Seq::new(
        m.len(),
        |i: int|
            if base <= i < base + bytes.len() {
                bytes[i - base]
            } else {
                m[i]
            },
    )
}

pub open spec fn min_int(a: int, b: int) -> int {
    if a <= b {
        a
    } else {
        b
    }
}

impl Memory {
    /// Memory with every byte zero.
    pub fn new() -> (mem: Self)
        ensures
            mem.wf(),
            mem@ == Seq::new(65536, |i: int| 0u8),
    {
        let mem = Memory { data: [0; 65536] };
        assert(mem@ =~= Seq::new(65536, |i: int| 0u8));
        mem
    }

    /// Sets every byte to `value`.
    pub fn clear(&mut self, value: u8)
        ensures
            final(self).wf(),
            final(self)@ == Seq::new(65536, |i: int| value),
    {
        let mut i: usize = 0;
        while i < 65536
            invariant
                i <= 65536,
                forall|j: int| 0 <= j < i ==> self.data@[j] == value,
            decreases 65536 - i,
        {
            self.data[i] = value;
            i = i + 1;
        }
        assert(self@ =~= Seq::new(65536, |i: int| value));
    }

    /// Copies `bytes` to `base` and up; bytes past the last address are dropped.
    pub fn load_slice(&mut self, base: u16, bytes: &[u8])
        ensures
            final(self).wf(),
            final(self)@ == overlay(old(self)@, base as int, bytes@),
    {
        let ghost before = self@;
        let start: usize = base as usize;
        let room: usize = 65536 - start;
        let len: usize = if bytes.len() < room {
            bytes.len()
        } else {
            room
        };
        let mut i: usize = 0;
        while i < len
            invariant
                i <= len,
                len <= bytes@.len(),
                start + len <= 65536,
                start == base,
                before.len() == 65536,
                forall|j: int|
                    0 <= j < 65536 ==> self.data@[j] == if start <= j < start + i {
                        bytes@[j - start]
                    } else {
                        before[j]
                    },
            decreases len - i,
        {
            self.data[start + i] = bytes[i];
            i = i + 1;
        }
        assert(self@ =~= overlay(before, base as int, bytes@));
    }

    /// The bytes from `start` on, at most `len` of them, up to the last address.
    pub fn read_slice(&self, start: u16, len: usize) -> (bytes: &[u8])
        requires
            start + len <= usize::MAX,
        ensures
            bytes@ == self@.subrange(start as int, min_int(start + len, 65536)),
    {
        let s: usize = start as usize;
        let e: usize = if s + len < 65536 {
            s + len
        } else {
            65536
        };
        vstd::slice::slice_subrange(self.data.as_slice(), s, e)
    }
}

impl Default for Memory {
    fn default() -> (mem: Self)
        ensures
            mem.wf(),
            mem@ == Seq::new(65536, |i: int| 0u8),
    {
        Memory::new()
    }
}

impl Bus for Memory {
    open spec fn wf(&self) -> bool {
        self@.len() == 65536
    }

    open spec fn read_val(m: Seq<u8>, addr: u16) -> u8 {
        m[addr as int]
    }

    open spec fn read_next(m: Seq<u8>, addr: u16) -> Seq<u8> {
        m
    }

    open spec fn fetch_val(m: Seq<u8>, addr: u16) -> u8 {
        m[addr as int]
    }

    open spec fn fetch_next(m: Seq<u8>, addr: u16) -> Seq<u8> {
        m
    }

    open spec fn write_next(m: Seq<u8>, addr: u16, data: u8) -> Seq<u8> {
        m.update(addr as int, data)
    }

    open spec fn irq_val(m: Seq<u8>) -> (bool, bool, bool) {
        (false, false, false)
    }

    open spec fn irq_next(m: Seq<u8>) -> Seq<u8> {
        m
    }

    fn read8(&mut self, addr: u16) -> (data: u8) {
        self.data[addr as usize]
    }

    fn read8_fetch(&mut self, addr: u16) -> (data: u8) {
        self.read8(addr)
    }

    fn write8(&mut self, addr: u16, data: u8) {
        self.data[addr as usize] = data;
        assert(self@ =~= old(self)@.update(addr as int, data));
    }

    fn irq_lines(&mut self) -> (lines: (bool, bool, bool)) {
        (false, false, false)
    }
}

/// State of a [`WriteTrack`]: the state of the bus inside, the span that is
/// watched, and the watched addresses that were written, in order.
pub struct TrackState<M> {
    pub inner: M,
    pub span: Option<(u16, u16)>,
    pub dirty: Seq<u16>,
}

/// Whether a write to `addr` is recorded under `span`: without a span every
/// write is; a span `(start, end)` holds `start` and not `end`, and one with
/// `start > end` wraps round the top of the address space.
pub open spec fn in_span(span: Option<(u16, u16)>, addr: u16) -> bool {
    match span {
        None => true,
        Some((s, e)) => if s <= e {
            s <= addr < e
        } else {
            addr >= s || addr < e
        },
    }
}

/// Tells whether a write to `addr` falls into `span`.
pub fn span_holds(span: Option<(u16, u16)>, addr: u16) -> (r: bool)
    ensures
        r == in_span(span, addr),
{
    match span {
        None => true,
        Some((s, e)) => if s <= e {
            s <= addr && addr < e
        } else {
            addr >= s || addr < e
        },
    }
}

/// A bus that hands every access on and records which watched addresses were
/// written.
pub struct WriteTrack<B: Bus> {
    inner: B,
    dirty_addrs: Vec<u16>,
    span: Option<(u16, u16)>,
}

impl<B: Bus> View for WriteTrack<B> {
    type V = TrackState<B::V>;

    closed spec fn view(&self) -> TrackState<B::V> {
        TrackState { inner: self.inner@, span: self.span, dirty: self.dirty_addrs@ }
    }
}

impl<B: Bus> WriteTrack<B> {
    pub closed spec fn inner_bus(&self) -> B {
        self.inner
    }

    pub fn new(inner: B, span: Option<(u16, u16)>) -> (track: Self)
        requires
            inner.wf(),
        ensures
            track.wf(),
            track.inner_bus() == inner,
            track@ == (TrackState { inner: inner@, span: span, dirty: Seq::empty() }),
    {
        WriteTrack { inner, dirty_addrs: Vec::new(), span }
    }

    pub fn set_span(&mut self, span: Option<(u16, u16)>)
        requires
            old(self).wf(),
        ensures
            final(self).wf(),
            final(self).inner_bus() == old(self).inner_bus(),
            final(self)@ == (TrackState { span: span, ..old(self)@ }),
    {
        self.span = span;
    }

    /// The addresses recorded since the last call, ascending and each once.
    pub fn take_dirty_addrs(&mut self) -> (out: Vec<u16>)
        requires
            old(self).wf(),
        ensures
            final(self).wf(),
            final(self).inner_bus() == old(self).inner_bus(),
            final(self)@ == (TrackState { dirty: Seq::empty(), ..old(self)@ }),
            ascending(out@),
            addr_set(out@) == addr_set(old(self)@.dirty),
    {
        let ghost dirty = self.dirty_addrs@;
        let mut out: Vec<u16> = Vec::new();
        let mut i: usize = 0;
        assert(addr_set(out@) =~= addr_set(dirty.take(0)));
        while i < self.dirty_addrs.len()
            invariant
                i <= dirty.len(),
                self.dirty_addrs@ == dirty,
                ascending(out@),
                addr_set(out@) == addr_set(dirty.take(i as int)),
            decreases dirty.len() - i,
        {
            insert_sorted(&mut out, self.dirty_addrs[i]);
            proof {
                let t0 = dirty.take(i as int);
                let t1 = dirty.take(i + 1);
                assert(t1 =~= t0.push(dirty[i as int]));
                assert forall|a: u16| t1.contains(a) == (t0.contains(a) || a == dirty[i as int]) by {
                    if t0.contains(a) {
                        let k = choose|k: int| 0 <= k < t0.len() && t0[k] == a;
                        assert(t1[k] == a);
                    }
                    assert(t1[i as int] == dirty[i as int]);
                }
                assert(addr_set(t1) =~= addr_set(t0).insert(dirty[i as int]));
            }
            i = i + 1;
        }
        assert(dirty.take(i as int) =~= dirty);
        self.dirty_addrs.clear();
        out
    }

    /// The bus inside.
    pub fn inner_any_mut(&mut self) -> (inner: &mut B)
        requires
            old(self).wf(),
        ensures
            *inner == old(self).inner_bus(),
            inner.wf(),
            final(self).inner_bus() == *final(inner),
            final(inner).wf() ==> final(self).wf(),
            final(self)@ == (TrackState { inner: final(inner)@, ..old(self)@ }),
    {
        &mut self.inner
    }
}

impl<B: Bus> Bus for WriteTrack<B> {
    closed spec fn wf(&self) -> bool {
        self.inner.wf()
    }

    open spec fn read_val(m: TrackState<B::V>, addr: u16) -> u8 {
        B::read_val(m.inner, addr)
    }

    open spec fn read_next(m: TrackState<B::V>, addr: u16) -> TrackState<B::V> {
        TrackState { inner: B::read_next(m.inner, addr), ..m }
    }

    open spec fn fetch_val(m: TrackState<B::V>, addr: u16) -> u8 {
        B::fetch_val(m.inner, addr)
    }

    open spec fn fetch_next(m: TrackState<B::V>, addr: u16) -> TrackState<B::V> {
        TrackState { inner: B::fetch_next(m.inner, addr), ..m }
    }

    open spec fn write_next(m: TrackState<B::V>, addr: u16, data: u8) -> TrackState<B::V> {
        TrackState {
            inner: B::write_next(m.inner, addr, data),
            dirty: if in_span(m.span, addr) {
                m.dirty.push(addr)
            } else {
                m.dirty
            },
            ..m
        }
    }

    open spec fn irq_val(m: TrackState<B::V>) -> (bool, bool, bool) {
        B::irq_val(m.inner)
    }

    open spec fn irq_next(m: TrackState<B::V>) -> TrackState<B::V> {
        TrackState { inner: B::irq_next(m.inner), ..m }
    }

    fn read8(&mut self, addr: u16) -> (data: u8) {
        self.inner.read8(addr)
    }

    fn read8_fetch(&mut self, addr: u16) -> (data: u8) {
        self.inner.read8_fetch(addr)
    }

    fn write8(&mut self, addr: u16, data: u8) {
        if span_holds(self.span, addr) {
            self.dirty_addrs.push(addr);
        }
        self.inner.write8(addr, data);
    }

    fn irq_lines(&mut self) -> (lines: (bool, bool, bool)) {
        self.inner.irq_lines()
    }
}

} // verus!
