//! Memory and images: a read gives back what was written, however it was
//! written.

use crate::alu::offset;
use crate::bus::{in_span, overlay, write_all, Bus, Memory, TrackState, WriteTrack};
use crate::loader::{overlay_all, range_of, write_blocks};
use vstd::prelude::*;

verus! {

/// A byte that was written is read back, and every other byte stays.
pub proof fn law_memory_read_back(m: Seq<u8>, addr: u16, data: u8, other: u16)
    requires
        m.len() == 65536,
    ensures
        Memory::read_val(Memory::write_next(m, addr, data), addr) == data,
        other != addr ==> Memory::read_val(Memory::write_next(m, addr, data), other)
            == Memory::read_val(m, other),
{
}

/// Writing bytes one by one is the same as laying them over the memory, where
/// they do not reach past its end.
pub proof fn law_write_all_is_overlay(m: Seq<u8>, base: u16, bytes: Seq<u8>)
    requires
        m.len() == 65536,
        base + bytes.len() <= 65536,
    ensures
        write_all::<Memory>(m, base, bytes) == overlay(m, base as int, bytes),
    decreases bytes.len(),
{
    if bytes.len() > 0 {
        let front = bytes.drop_last();
        law_write_all_is_overlay(m, base, front);
        assert(offset(base, bytes.len() - 1) == base + bytes.len() - 1);
        assert(write_all::<Memory>(m, base, bytes) =~= overlay(m, base as int, bytes));
    } else {
        assert(overlay(m, base as int, bytes) =~= m);
    }
}

/// Loading an image through the bus is the same as loading it into the memory,
/// where no block reaches past the end.
pub proof fn law_load_through_bus(m: Seq<u8>, blocks: Seq<(u16, Seq<u8>)>)
    requires
        m.len() == 65536,
        forall|i: int|
            0 <= i < blocks.len() ==> (#[trigger] blocks[i]).0 + blocks[i].1.len() <= 65536,
    ensures
        write_blocks::<Memory>(m, blocks) == overlay_all(m, blocks),
        overlay_all(m, blocks).len() == 65536,
    decreases blocks.len(),
{
    if blocks.len() > 0 {
        let front = blocks.drop_last();
        assert forall|i: int| 0 <= i < front.len() implies (#[trigger] front[i]).0
            + front[i].1.len() <= 65536 by {
            assert(front[i] == blocks[i]);
        }
        law_load_through_bus(m, front);
        let last = blocks[blocks.len() - 1];
        law_write_all_is_overlay(overlay_all(m, front), last.0, last.1);
    }
}

/// What was laid over a memory stands there, up to its end.
pub proof fn law_overlay_read_back(m: Seq<u8>, base: u16, bytes: Seq<u8>, i: int)
    requires
        m.len() == 65536,
        0 <= i < bytes.len(),
        base + i < 65536,
    ensures
        Memory::read_val(overlay(m, base as int, bytes), (base + i) as u16) == bytes[i],
{
}

/// A tracking bus hands every write on and records the watched addresses among
/// those that were written, and nothing else.
pub proof fn law_track_writes<B: Bus>(t: TrackState<B::V>, base: u16, bytes: Seq<u8>)
    ensures
        write_all::<WriteTrack<B>>(t, base, bytes).inner == write_all::<B>(t.inner, base, bytes),
        write_all::<WriteTrack<B>>(t, base, bytes).span == t.span,
        forall|addr: u16| #[trigger]
            write_all::<WriteTrack<B>>(t, base, bytes).dirty.contains(addr) <==> {
                ||| t.dirty.contains(addr)
                ||| in_span(t.span, addr) && written_to(base, bytes.len(), addr)
            },
    decreases bytes.len(),
{
    if bytes.len() > 0 {
        let front = bytes.drop_last();
        law_track_writes::<B>(t, base, front);
        let before = write_all::<WriteTrack<B>>(t, base, front);
        let after = write_all::<WriteTrack<B>>(t, base, bytes);
        let last = offset(base, bytes.len() - 1);
        assert forall|addr: u16| #[trigger] after.dirty.contains(addr) <==> {
            ||| t.dirty.contains(addr)
            ||| in_span(t.span, addr) && written_to(base, bytes.len(), addr)
        } by {
            lemma_written_to_last(base, bytes.len(), addr);
            assert(before.dirty.contains(addr) <==> {
                ||| t.dirty.contains(addr)
                ||| in_span(t.span, addr) && written_to(base, front.len(), addr)
            });
            if in_span(t.span, last) {
                lemma_pushed(before.dirty, last, addr);
            }
        }
    }
}

/// Whether `addr` is one of `len` addresses from `base` on.
pub open spec fn written_to(base: u16, len: nat, addr: u16) -> bool {
    exists|i: int| 0 <= i < len && #[trigger] offset(base, i) == addr
}

proof fn lemma_written_to_last(base: u16, len: nat, addr: u16)
    requires
        len > 0,
    ensures
        written_to(base, len, addr) <==> written_to(base, (len - 1) as nat, addr) || offset(
            base,
            len - 1,
        ) == addr,
{
    if written_to(base, len, addr) {
        let i = choose|i: int| 0 <= i < len && #[trigger] offset(base, i) == addr;
        assert(i == len - 1 || offset(base, i) == addr);
    }
    if written_to(base, (len - 1) as nat, addr) {
        let i = choose|i: int| 0 <= i < len - 1 && #[trigger] offset(base, i) == addr;
        assert(0 <= i < len && offset(base, i) == addr);
    }
}

proof fn lemma_pushed(s: Seq<u16>, last: u16, addr: u16)
    ensures
        s.push(last).contains(addr) <==> s.contains(addr) || addr == last,
{
    let t = s.push(last);
    assert(t[s.len() as int] == last);
    if s.contains(addr) {
        let k = choose|k: int| 0 <= k < s.len() && s[k] == addr;
        assert(t[k] == addr);
    }
    if t.contains(addr) && addr != last {
        let k = choose|k: int| 0 <= k < t.len() && t[k] == addr;
        assert(s[k] == addr);
    }
}

/// A block of bytes takes the addresses from its base up to, and not with, the
/// end of its range, which wraps round the top of the address space.
pub proof fn law_loaded_range(base: u16, len: nat, i: int)
    requires
        0 < len < 65536,
        0 <= i < len,
    ensures
        range_of(base, len).0 == base,
        range_of(base, len).1 == (base + len) % 65536,
        in_span(Some(range_of(base, len)), ((base + i) % 65536) as u16),
        !in_span(Some(range_of(base, len)), ((base + len) % 65536) as u16),
{
    assert(len % 65536 == len);
}

} // verus!
