//! The block device: sectors that were written are read back.

use crate::alu::{flag, offset, with_flag};
use crate::bus::overlay;
use crate::io::block::{grown, zero_sector, BlockDev, BlockState};
use crate::io::gpio::{byte_at, with_byte};
use crate::io::Device;
use crate::laws::addressing::law_flag_bits;
use crate::laws::devices::law_word_bytes;
use crate::laws::tracing::{begins, ends, lemma_parts, shows};
use crate::text::{hex2, hex4};
use vstd::prelude::*;

verus! {

/// The device behind writes of `d` to the data port.
pub open spec fn written(s: BlockState, d: Seq<u8>) -> BlockState
    decreases d.len(),
{
    if d.len() == 0 {
        s
    } else {
        written(s, d.drop_last()).data_write(d.last())
    }
}

/// The bytes that `n` reads of the data port give, and the device behind them.
pub open spec fn read_out(s: BlockState, n: nat) -> (Seq<u8>, BlockState)
    decreases n,
{
    if n == 0 {
        (Seq::empty(), s)
    } else {
        let (d, t) = read_out(s, (n - 1) as nat);
        (d.push(t.data_byte()), t.data_read())
    }
}

/// Whether sector `lba` of the image holds `d`.
pub open spec fn holds_sector(image: Seq<u8>, lba: int, d: Seq<u8>) -> bool {
    lba * 512 + 512 <= image.len() && image.subrange(lba * 512, lba * 512 + 512) == d
}

/// Sector `k` of a run of bytes.
pub open spec fn chunk(d: Seq<u8>, k: int) -> Seq<u8> {
    d.subrange(k * 512, k * 512 + 512)
}

proof fn lemma_written_append(s: BlockState, a: Seq<u8>, b: Seq<u8>)
    ensures
        written(s, a + b) == written(written(s, a), b),
    decreases b.len(),
{
    if b.len() > 0 {
        assert((a + b).drop_last() =~= a + b.drop_last());
        lemma_written_append(s, a, b.drop_last());
    } else {
        assert(a + b =~= a);
    }
}

proof fn lemma_read_append(s: BlockState, m: nat, n: nat)
    ensures
        read_out(s, m + n).0 == read_out(s, m).0 + read_out(read_out(s, m).1, n).0,
        read_out(s, m + n).1 == read_out(read_out(s, m).1, n).1,
    decreases n,
{
    if n > 0 {
        lemma_read_append(s, m, (n - 1) as nat);
        let (d, t) = read_out(s, (m + n - 1) as nat);
        let (e, u) = read_out(read_out(s, m).1, (n - 1) as nat);
        assert(d.push(t.data_byte()) =~= read_out(s, m).0 + e.push(u.data_byte()));
    } else {
        assert(read_out(s, m).0 + Seq::<u8>::empty() =~= read_out(s, m).0);
    }
}

/// A write in progress at the start of a sector, with `left` sectors to go.
pub open spec fn taking(s: BlockState, lba: int, left: int) -> bool {
    &&& s.op_write
    &&& s.buf.len() == 512
    &&& s.buf_idx == 0
    &&& s.lba == lba
    &&& s.xfer_remaining == left * 512
}

proof fn lemma_fill(s: BlockState, c: Seq<u8>, k: nat)
    requires
        s.buf.len() == 512,
        s.buf_idx == 0,
        c.len() == 512,
        k < 512,
    ensures
        ({
            let t = written(s, c.take(k as int));
            &&& t.buf.len() == 512
            &&& forall|i: int| 0 <= i < k ==> t.buf[i] == c[i]
            &&& t == (BlockState {
                buf: t.buf,
                buf_idx: k as usize,
                last_data: t.last_data,
                dirty: t.dirty,
                ..s
            })
        }),
    decreases k,
{
    if k > 0 {
        lemma_fill(s, c, (k - 1) as nat);
        assert(c.take(k as int).drop_last() =~= c.take(k - 1));
    }
}

/// A sector's worth of bytes lands in the image, at its sector.
proof fn lemma_take_sector(s: BlockState, c: Seq<u8>, lba: int, left: int)
    requires
        taking(s, lba, left),
        1 <= left <= 255,
        0 <= lba < 0xFFFF_FFFF,
        lba * 512 + 512 <= usize::MAX,
        c.len() == 512,
    ensures
        written(s, c).image == overlay(grown(s.image, lba * 512 + 512), lba * 512, c),
        left > 1 ==> taking(written(s, c), lba + 1, left - 1),
        written(s, c).sec_cnt == s.sec_cnt,
        written(s, c).buf.len() == 512,
        written(s, c).base == s.base,
{
    lemma_fill(s, c, 511);
    let t = written(s, c.take(511));
    assert(c.drop_last() =~= c.take(511));
    let u = BlockState {
        buf: t.buf.update(511, c[511]),
        buf_idx: 512,
        last_data: c[511],
        dirty: true,
        ..t
    };
    assert(u.buf =~= c);
    assert(written(s, c) == u.filled());
    reveal(BlockState::filled);
    reveal(BlockState::stored);
    assert(u.start() == lba * 512);
}

proof fn lemma_grown_len(image: Seq<u8>, len: int)
    requires
        len >= 0,
    ensures
        grown(image, len).len() >= len,
        grown(image, len).len() >= image.len(),
        forall|i: int| 0 <= i < image.len() ==> #[trigger] grown(image, len)[i] == image[i],
{
}

/// A sector that was stored is there, and those before it stay.
proof fn lemma_stored_sector(image: Seq<u8>, lba: int, c: Seq<u8>, other: int, d: Seq<u8>)
    requires
        0 <= lba,
        c.len() == 512,
        0 <= other < lba ==> holds_sector(image, other, d),
    ensures
        holds_sector(overlay(grown(image, lba * 512 + 512), lba * 512, c), lba, c),
        0 <= other < lba ==> holds_sector(
            overlay(grown(image, lba * 512 + 512), lba * 512, c),
            other,
            d,
        ),
{
    lemma_grown_len(image, lba * 512 + 512);
    let after = overlay(grown(image, lba * 512 + 512), lba * 512, c);
    assert(after.subrange(lba * 512, lba * 512 + 512) =~= c);
    if 0 <= other < lba {
        assert(after.subrange(other * 512, other * 512 + 512) =~= image.subrange(
            other * 512,
            other * 512 + 512,
        ));
    }
}

proof fn lemma_write_run(s: BlockState, d: Seq<u8>, lba: int, left: int, n: int)
    requires
        taking(s, lba, left),
        1 <= n <= left <= 255,
        0 <= lba,
        lba + n <= 0xFFFF_FFFF,
        (lba + n) * 512 <= usize::MAX,
        d.len() == n * 512,
    ensures
        forall|k: int|
            0 <= k < n ==> holds_sector(written(s, d).image, lba + k, #[trigger] chunk(d, k)),
        n < left ==> taking(written(s, d), lba + n, left - n),
        written(s, d).sec_cnt == s.sec_cnt,
        written(s, d).buf.len() == 512,
        written(s, d).base == s.base,
    decreases n,
{
    let front = d.take((n - 1) * 512);
    let last = chunk(d, n - 1);
    assert(d =~= front + last);
    lemma_written_append(s, front, last);
    if n == 1 {
        assert(front =~= Seq::<u8>::empty());
        lemma_take_sector(s, last, lba, left);
        lemma_stored_sector(s.image, lba, last, -1, last);
        assert(chunk(d, 0) == last);
    } else {
        lemma_write_run(s, front, lba, left, n - 1);
        let t = written(s, front);
        lemma_take_sector(t, last, lba + n - 1, left - n + 1);
        assert forall|k: int| 0 <= k < n implies holds_sector(
            written(s, d).image,
            lba + k,
            #[trigger] chunk(d, k),
        ) by {
            if k < n - 1 {
                assert(chunk(d, k) =~= chunk(front, k));
                lemma_stored_sector(t.image, lba + n - 1, last, lba + k, chunk(d, k));
            } else {
                lemma_stored_sector(t.image, lba + n - 1, last, -1, last);
            }
        }
    }
}

/// A read in progress at the start of a sector that is in the buffer, with
/// `left` sectors to go.
pub open spec fn giving(s: BlockState, lba: int, left: int, d: Seq<u8>) -> bool {
    &&& s.op_read
    &&& s.buf == d
    &&& s.buf.len() == 512
    &&& s.buf_idx == 0
    &&& flag(s.status, 0x02)
    &&& !flag(s.status, 0x04)
    &&& s.lba == lba
    &&& s.xfer_remaining == left * 512
}

proof fn lemma_drain(s: BlockState, k: nat)
    requires
        s.buf.len() == 512,
        s.buf_idx == 0,
        flag(s.status, 0x02),
        s.xfer_remaining >= 512,
        k < 512,
    ensures
        ({
            let (d, t) = read_out(s, k);
            &&& d == s.buf.take(k as int)
            &&& t == (BlockState {
                buf_idx: k as usize,
                last_data: t.last_data,
                dirty: t.dirty,
                xfer_remaining: (s.xfer_remaining - k) as usize,
                ..s
            })
        }),
    decreases k,
{
    if k > 0 {
        lemma_drain(s, (k - 1) as nat);
        assert(s.buf.take(k - 1).push(s.buf[k - 1]) =~= s.buf.take(k as int));
    } else {
        assert(s.buf.take(0) =~= Seq::<u8>::empty());
    }
}

proof fn lemma_flag_set(v: u8)
    ensures
        flag(with_flag(v, 0x02, true), 0x02),
{
    assert((v | 0x02) & 0x02 != 0) by (bit_vector);
}

proof fn lemma_flag_clear(v: u8)
    ensures
        !flag(with_flag(v, 0x02, false), 0x02),
        flag(with_flag(v, 0x02, false), 0x04) == flag(v, 0x04),
        !flag(
            with_flag(
                with_flag(with_flag(with_flag(v, 0x04, false), 0x01, true), 0x01, false),
                0x02,
                true,
            ),
            0x04,
        ),
{
    assert((v & !0x02u8) & 0x02 == 0 && (v & !0x02u8) & 0x04 == v & 0x04 && ((((v & !0x04u8)
        | 0x01) & !0x01u8) | 0x02) & 0x04 == 0) by (bit_vector);
}

/// Loading a sector that is in the image.
proof fn lemma_loaded(s: BlockState, d: Seq<u8>)
    requires
        holds_sector(s.image, s.lba as int, d),
        d.len() == 512,
    ensures
        s.loaded().buf == d,
        s.loaded().buf_idx == 0,
        flag(s.loaded().status, 0x02),
        !flag(s.loaded().status, 0x04),
        s.loaded() == (BlockState {
            buf: d,
            buf_idx: 0,
            status: s.loaded().status,
            dirty: s.loaded().dirty,
            ..s
        }),
{
    reveal(BlockState::loaded);
    let a = s.flagged(0x04, false).flagged(0x01, true);
    let t = BlockState { buf: d, ..a };
    let u = (BlockState { buf_idx: 0, ..t }).flagged(0x01, false);
    assert(s.loaded() == u.flagged(0x02, true));
    lemma_flag_set(u.status);
    lemma_flag_clear(s.status);
}

/// A read that is over: no data ready and no error.
pub open spec fn given(s: BlockState) -> bool {
    !flag(s.status, 0x02) && !flag(s.status, 0x04)
}

proof fn lemma_give_sector(s: BlockState, d: Seq<u8>, e: Seq<u8>, lba: int, left: int)
    requires
        giving(s, lba, left, d),
        1 <= left <= 255,
        0 <= lba < 0xFFFF_FFFF,
        left > 1 ==> holds_sector(s.image, lba + 1, e) && e.len() == 512,
    ensures
        read_out(s, 512).0 == d,
        left > 1 ==> giving(read_out(s, 512).1, lba + 1, left - 1, e),
        left == 1 ==> given(read_out(s, 512).1),
        read_out(s, 512).1.image == s.image,
        read_out(s, 512).1.base == s.base,
{
    lemma_drain(s, 511);
    let (front, t) = read_out(s, 511);
    assert(t.data_byte() == d[511]);
    assert(d.take(511).push(d[511]) =~= d);
    let u = BlockState {
        buf_idx: 512,
        last_data: d[511],
        dirty: true,
        xfer_remaining: (left * 512 - 512) as usize,
        ..t
    };
    assert(t.data_read() == u.drained());
    reveal(BlockState::drained);
    if left > 1 {
        lemma_loaded(u.next_sector(), e);
    } else {
        lemma_flag_clear(u.status);
    }
}

proof fn lemma_read_run(s: BlockState, d: Seq<u8>, lba: int, left: int, n: int)
    requires
        1 <= n <= left <= 255,
        0 <= lba,
        lba + left <= 0xFFFF_FFFF,
        d.len() == left * 512,
        giving(s, lba, left, chunk(d, 0)),
        forall|k: int| 0 <= k < left ==> holds_sector(s.image, lba + k, #[trigger] chunk(d, k)),
    ensures
        read_out(s, (n * 512) as nat).0 == d.take(n * 512),
        read_out(s, (n * 512) as nat).1.image == s.image,
        read_out(s, (n * 512) as nat).1.base == s.base,
        n < left ==> giving(read_out(s, (n * 512) as nat).1, lba + n, left - n, chunk(d, n)),
        n == left ==> given(read_out(s, (n * 512) as nat).1),
    decreases n,
{
    if n == 1 {
        assert(chunk(d, 1).len() == 512 || left == 1);
        lemma_give_sector(s, chunk(d, 0), chunk(d, 1), lba, left);
        assert(chunk(d, 0) =~= d.take(512));
    } else {
        lemma_read_run(s, d, lba, left, n - 1);
        let m = ((n - 1) * 512) as nat;
        let t = read_out(s, m).1;
        assert(n < left ==> chunk(d, n).len() == 512);
        lemma_give_sector(t, chunk(d, n - 1), chunk(d, n), lba + n - 1, left - n + 1);
        lemma_read_append(s, m, 512);
        assert(d.take((n - 1) * 512) + chunk(d, n - 1) =~= d.take(n * 512));
    }
}

/// Any number of reads within the transfer.
proof fn lemma_read_part(s: BlockState, d: Seq<u8>, lba: int, left: int, k: int)
    requires
        1 <= left <= 255,
        0 <= lba,
        lba + left <= 0xFFFF_FFFF,
        d.len() == left * 512,
        giving(s, lba, left, chunk(d, 0)),
        forall|k: int| 0 <= k < left ==> holds_sector(s.image, lba + k, #[trigger] chunk(d, k)),
        0 <= k < left * 512,
    ensures
        read_out(s, k as nat).0 == d.take(k),
        flag(read_out(s, k as nat).1.status, 0x02),
        !flag(read_out(s, k as nat).1.status, 0x04),
        read_out(s, k as nat).1.base == s.base,
{
    let q = k / 512;
    let j = k % 512;
    if q == 0 {
        lemma_drain(s, j as nat);
        assert(chunk(d, 0).take(j) =~= d.take(k));
    } else {
        lemma_read_run(s, d, lba, left, q);
        let m = (q * 512) as nat;
        let t = read_out(s, m).1;
        lemma_drain(t, j as nat);
        lemma_read_append(s, m, j as nat);
        assert(m + j == k);
        assert(d.take(q * 512) + chunk(d, q).take(j) =~= d.take(k));
    }
}

/// The device behind writes of a sector count and a sector number to their
/// registers.
pub open spec fn addressed(s: BlockState, lba: u32, n: u8) -> BlockState {
    let a = BlockDev::write_next(s, offset(s.base, 3), n);
    let b = BlockDev::write_next(a, offset(s.base, 4), byte_at(lba, 0));
    let c = BlockDev::write_next(b, offset(s.base, 5), byte_at(lba, 1));
    let d = BlockDev::write_next(c, offset(s.base, 6), byte_at(lba, 2));
    BlockDev::write_next(d, offset(s.base, 7), byte_at(lba, 3))
}

/// The device behind a write of the command register.
pub open spec fn ordered(s: BlockState, cmd: u8) -> BlockState {
    BlockDev::write_next(s, offset(s.base, 2), cmd)
}

/// The device behind writes of `d`, byte by byte, to the data register.
pub open spec fn sent(s: BlockState, d: Seq<u8>) -> BlockState
    decreases d.len(),
{
    if d.len() == 0 {
        s
    } else {
        BlockDev::write_next(sent(s, d.drop_last()), s.base, d.last())
    }
}

/// The bytes that `n` reads of the data register give, and the device behind
/// them.
pub open spec fn received(s: BlockState, n: nat) -> (Seq<u8>, BlockState)
    decreases n,
{
    if n == 0 {
        (Seq::empty(), s)
    } else {
        let (d, t) = received(s, (n - 1) as nat);
        (d.push(BlockDev::read_val(t, s.base)), BlockDev::read_next(t, s.base))
    }
}

/// What a read of the status register gives.
pub open spec fn status_of(s: BlockState) -> u8 {
    BlockDev::read_val(s, offset(s.base, 1))
}

/// The bytes of a word that is put together from bytes.
proof fn lemma_digits(v: u32, c0: int, c1: int, c2: int, c3: int)
    requires
        0 <= c0 < 256,
        0 <= c1 < 256,
        0 <= c2 < 256,
        0 <= c3 < 256,
        v == c0 + 256 * (c1 + 256 * (c2 + 256 * c3)),
    ensures
        byte_at(v, 0) == c0,
        byte_at(v, 1) == c1,
        byte_at(v, 2) == c2,
        byte_at(v, 3) == c3,
{
    let w1 = c1 + 256 * (c2 + 256 * c3);
    let w2 = c2 + 256 * c3;
    assert(v as int / 0x100 == w1 && v as int % 0x100 == c0);
    assert(w1 / 0x100 == w2 && w1 % 0x100 == c1);
    assert(w2 / 0x100 == c3 && w2 % 0x100 == c2);
    assert(v as int / 0x1_0000 == w2);
    assert(v as int / 0x100_0000 == c3);
}

proof fn lemma_put_together(v: u32)
    ensures
        v == byte_at(v, 0) + 256 * (byte_at(v, 1) + 256 * (byte_at(v, 2) + 256 * byte_at(v, 3))),
{
    let w1 = v as int / 0x100;
    let w2 = w1 / 0x100;
    assert(v as int / 0x1_0000 == w2);
    assert(v as int / 0x100_0000 == w2 / 0x100);
}

proof fn lemma_with_byte(v: u32, g: int, b: u8)
    requires
        0 <= g < 4,
    ensures
        forall|h: int|
            0 <= h < 4 ==> #[trigger] byte_at(with_byte(v, g, b), h) == if h == g {
                b
            } else {
                byte_at(v, h)
            },
{
    lemma_put_together(v);
    lemma_digits(
        with_byte(v, g, b),
        if g == 0 {
            b as int
        } else {
            byte_at(v, 0) as int
        },
        if g == 1 {
            b as int
        } else {
            byte_at(v, 1) as int
        },
        if g == 2 {
            b as int
        } else {
            byte_at(v, 2) as int
        },
        if g == 3 {
            b as int
        } else {
            byte_at(v, 3) as int
        },
    );
}

proof fn lemma_same_bytes(v: u32, w: u32)
    requires
        forall|h: int| 0 <= h < 4 ==> #[trigger] byte_at(v, h) == byte_at(w, h),
    ensures
        v == w,
{
    lemma_put_together(v);
    lemma_put_together(w);
}

proof fn lemma_addressed(s: BlockState, lba: u32, n: u8)
    requires
        n >= 1,
    ensures
        addressed(s, lba, n) == (BlockState { lba: lba, sec_cnt: n, ..s }),
{
    let l0 = with_byte(s.lba, 0, byte_at(lba, 0));
    let l1 = with_byte(l0, 1, byte_at(lba, 1));
    let l2 = with_byte(l1, 2, byte_at(lba, 2));
    let l3 = with_byte(l2, 3, byte_at(lba, 3));
    lemma_with_byte(s.lba, 0, byte_at(lba, 0));
    lemma_with_byte(l0, 1, byte_at(lba, 1));
    lemma_with_byte(l1, 2, byte_at(lba, 2));
    lemma_with_byte(l2, 3, byte_at(lba, 3));
    lemma_same_bytes(l3, lba);
    lemma_registers(s);
}

/// The registers stand in a row from the base on.
proof fn lemma_registers(s: BlockState)
    ensures
        forall|k: int|
            0 <= k < 8 ==> #[trigger] offset(offset(s.base, k), -(s.base as int)) == k,
        offset(s.base, -(s.base as int)) == 0,
{
}

proof fn lemma_written_base(s: BlockState, d: Seq<u8>)
    ensures
        written(s, d).base == s.base,
    decreases d.len(),
{
    if d.len() > 0 {
        lemma_written_base(s, d.drop_last());
        reveal(BlockState::filled);
        reveal(BlockState::stored);
    }
}

proof fn lemma_sent(s: BlockState, d: Seq<u8>)
    ensures
        sent(s, d) == written(s, d),
    decreases d.len(),
{
    if d.len() > 0 {
        lemma_sent(s, d.drop_last());
        lemma_written_base(s, d.drop_last());
        lemma_registers(s);
    }
}

proof fn lemma_read_base(s: BlockState, n: nat)
    ensures
        read_out(s, n).1.base == s.base,
    decreases n,
{
    if n > 0 {
        lemma_read_base(s, (n - 1) as nat);
        reveal(BlockState::drained);
        reveal(BlockState::loaded);
    }
}

proof fn lemma_received(s: BlockState, n: nat)
    ensures
        received(s, n) == read_out(s, n),
    decreases n,
{
    if n > 0 {
        lemma_received(s, (n - 1) as nat);
        lemma_read_base(s, (n - 1) as nat);
        lemma_registers(s);
    }
}

proof fn lemma_ordered(s: BlockState, cmd: u8)
    ensures
        ordered(s, cmd) == s.commanded(cmd),
{
    lemma_registers(s);
}

proof fn lemma_write_starts(s: BlockState)
    requires
        s.buf.len() == 512,
        s.buf_idx == 0,
        s.sec_cnt >= 1,
    ensures
        taking(s.commanded(0x02), s.lba as int, s.sec_cnt as int),
        s.commanded(0x02).base == s.base,
{
    reveal(BlockState::writing);
}

proof fn lemma_read_starts(s: BlockState, d: Seq<u8>)
    requires
        s.sec_cnt >= 1,
        holds_sector(s.image, s.lba as int, d),
        d.len() == 512,
    ensures
        giving(s.commanded(0x01), s.lba as int, s.sec_cnt as int, d),
        s.commanded(0x01).image == s.image,
        s.commanded(0x01).base == s.base,
{
    reveal(BlockState::reading);
    let c = BlockState {
        last_cmd: 0x01,
        dirty: s.dirty || s.last_cmd != 0x01,
        lines: if s.log {
            s.lines.push(s.log_line(0x01))
        } else {
            s.lines
        },
        xfer_remaining: s.transfer_bytes(),
        op_read: true,
        op_write: false,
        ..s
    };
    assert(s.commanded(0x01) == c.loaded());
    lemma_loaded(c, d);
}

/// The device behind a write of `d` to `n` sectors from `lba` on, then a read
/// command for as many from there.
pub open spec fn turned_round(s: BlockState, d: Seq<u8>, lba: u32, n: u8) -> BlockState {
    let w = sent(ordered(addressed(s, lba, n), 0x02), d);
    ordered(addressed(w, lba, n), 0x01)
}

proof fn lemma_turned_round(s: BlockState, d: Seq<u8>, lba: u32, n: u8)
    requires
        s.buf.len() == 512,
        s.buf_idx == 0,
        n >= 1,
        lba + n <= 0xFFFF_FFFF,
        (lba + n) * 512 <= usize::MAX,
        d.len() == n * 512,
    ensures
        ({
            let r = turned_round(s, d, lba, n);
            &&& giving(r, lba as int, n as int, chunk(d, 0))
            &&& r.base == s.base
            &&& forall|k: int|
                0 <= k < n ==> holds_sector(r.image, lba + k, #[trigger] chunk(d, k))
        }),
{
    lemma_addressed(s, lba, n);
    let s0 = addressed(s, lba, n);
    lemma_ordered(s0, 0x02);
    lemma_write_starts(s0);
    let a = ordered(s0, 0x02);
    lemma_write_run(a, d, lba as int, n as int, n as int);
    lemma_sent(a, d);
    let w = sent(a, d);
    lemma_addressed(w, lba, n);
    let b = addressed(w, lba, n);
    assert(holds_sector(w.image, lba + 0, chunk(d, 0)));
    lemma_ordered(b, 0x01);
    lemma_read_starts(b, chunk(d, 0));
    let r = ordered(b, 0x01);
    assert forall|k: int| 0 <= k < n implies holds_sector(r.image, lba + k, #[trigger] chunk(d, k))
        by {
        assert(holds_sector(w.image, lba + k, chunk(d, k)));
    }
}

/// Sectors that were written are read back, through the registers: a write of
/// `n` sectors from `lba` on, then a read of as many from there, gives the bytes
/// that were written. The status shows no error, and data ready until the last
/// byte is read and no longer.
///
/// The write starts with an empty buffer; one that is full already, as it is
/// behind a read to the end, would be stored first.
pub proof fn law_disk_read_back(s: BlockState, d: Seq<u8>, lba: u32, n: u8, k: int)
    requires
        s.buf.len() == 512,
        s.buf_idx == 0,
        n >= 1,
        lba + n <= 0xFFFF_FFFF,
        (lba + n) * 512 <= usize::MAX,
        d.len() == n * 512,
        0 <= k <= n * 512,
    ensures
        ({
            let (got, t) = received(turned_round(s, d, lba, n), k as nat);
            &&& got == d.take(k)
            &&& !flag(status_of(t), 0x04)
            &&& flag(status_of(t), 0x02) == (k < n * 512)
        }),
{
    lemma_turned_round(s, d, lba, n);
    let r = turned_round(s, d, lba, n);
    lemma_received(r, k as nat);
    let t = received(r, k as nat).1;
    lemma_registers(t);
    if k < n * 512 {
        lemma_read_part(r, d, lba as int, n as int, k);
    } else {
        lemma_read_run(r, d, lba as int, n as int, n as int);
        assert(d.take(k) =~= d);
    }
}

/// A sector that the image does not hold reads as zeros, with the error bit
/// set.
pub proof fn law_disk_out_of_range(s: BlockState)
    requires
        s.lba * 512 + 512 > s.image.len(),
    ensures
        s.loaded().buf == zero_sector(),
        flag(s.loaded().status, 0x04),
        flag(s.loaded().status, 0x02),
        s.loaded().image == s.image,
{
    reveal(BlockState::loaded);
    let a = s.flagged(0x04, false).flagged(0x01, true);
    let t = (BlockState { buf: zero_sector(), ..a }).flagged(0x04, true);
    let u = (BlockState { buf_idx: 0, ..t }).flagged(0x01, false);
    let v = a.status;
    lemma_flag_set(u.status);
    assert(((((v | 0x04) & !0x01u8) | 0x02) & 0x04) != 0) by (bit_vector);
    assert(s.loaded() == u.flagged(0x02, true));
}

/// The registers of the disk: the status at `+1`, the last command at `+2`, the
/// sector count at `+3`, the sector number from `+4` on, low byte first, and the
/// interrupt control at `+8`, which can only be written. A sector count of 0 is
/// taken for 1.
pub proof fn law_disk_registers(s: BlockState, data: u8, j: int)
    requires
        0 <= j < 4,
    ensures
        ({
            let at = |k: int| ((s.base + k) % 65536) as u16;
            let lba = BlockDev::write_next(s, at(4 + j), data);
            let count = BlockDev::write_next(s, at(3), data);
            let irq = BlockDev::write_next(s, at(8), data);
            &&& BlockDev::read_val(s, at(1)) == s.status
            &&& BlockDev::read_val(s, at(2)) == s.last_cmd
            &&& BlockDev::read_val(s, at(3)) == s.sec_cnt
            &&& BlockDev::read_val(s, at(4 + j)) == byte_at(s.lba, j)
            &&& BlockDev::read_next(s, at(2)) == s && BlockDev::read_next(s, at(3)) == s
            &&& BlockDev::read_next(s, at(4 + j)) == s
            &&& count == (BlockState {
                sec_cnt: if data == 0 {
                    1
                } else {
                    data
                },
                ..s
            })
            &&& byte_at(lba.lba, j) == data
            &&& lba == (BlockState { lba: lba.lba, ..s })
            &&& irq.irq_enable == (data % 2 == 1)
            &&& irq.use_firq == (data / 2 % 2 == 1)
            &&& flag(irq.status, 0x04) == (flag(s.status, 0x04) && data / 4 % 2 == 0)
            &&& flag(irq.status, 0x02) == flag(s.status, 0x02)
            &&& flag(irq.status, 0x01) == flag(s.status, 0x01)
            &&& irq.image == s.image && irq.buf == s.buf && irq.lba == s.lba
            &&& BlockDev::write_next(s, at(1), data) == s
        }),
{
    law_flag_bits(data);
    law_word_bytes(s.lba, j, data);
    lemma_disk_place(s, 1);
    lemma_disk_place(s, 2);
    lemma_disk_place(s, 3);
    lemma_disk_place(s, 4 + j);
    lemma_disk_place(s, 8);
    let v = s.status;
    assert((v & !0x04u8) & 0x04 == 0 && (v & !0x04u8) & 0x02 == v & 0x02 && (v & !0x04u8) & 0x01 == v
        & 0x01) by (bit_vector);
}

proof fn lemma_disk_place(s: BlockState, k: int)
    requires
        0 <= k < 65536,
    ensures
        s.off(((s.base + k) % 65536) as u16) == k,
{
}

/// A read of the status clears the error in it and nothing else.
pub proof fn law_disk_status_read(s: BlockState)
    ensures
        ({
            let t = BlockDev::read_next(s, ((s.base + 1) % 65536) as u16);
            &&& !flag(t.status, 0x04)
            &&& flag(t.status, 0x02) == flag(s.status, 0x02)
            &&& flag(t.status, 0x01) == flag(s.status, 0x01)
            &&& t == (BlockState { status: t.status, dirty: t.dirty, ..s })
        }),
{
    lemma_disk_place(s, 1);
    let v = s.status;
    assert((v & !0x04u8) & 0x04 == 0 && (v & !0x04u8) & 0x02 == v & 0x02 && (v & !0x04u8) & 0x01 == v
        & 0x01) by (bit_vector);
}

/// Commands: 0 does nothing, 1 reads, 2 writes, 255 resets, and any other is an
/// error. Each is remembered, but for a reset.
pub proof fn law_disk_commands(s: BlockState, data: u8)
    ensures
        ({
            let t = BlockDev::write_next(s, ((s.base + 2) % 65536) as u16, data);
            &&& data != 255 ==> t.last_cmd == data
            &&& data == 0 ==> t.status == s.status && t.buf == s.buf && t.op_read == s.op_read
                && t.op_write == s.op_write
            &&& data == 1 ==> t.op_read && !t.op_write && t.buf_idx == 0 && flag(t.status, 0x02)
            &&& data == 2 ==> t.op_write && !t.op_read
            &&& data == 2 && s.buf_idx < 512 ==> !flag(t.status, 0x02) && flag(t.status, 0x01)
            &&& data == 255 ==> t.status == 0 && t.last_cmd == 0 && !t.op_read && !t.op_write
                && t.buf_idx == 0 && t.xfer_remaining == 0 && t.irq_countdown == 0
            &&& 2 < data < 255 ==> flag(t.status, 0x04) && t.op_read == s.op_read && t.op_write
                == s.op_write && t.buf == s.buf && t.buf_idx == s.buf_idx
            &&& data != 2 ==> t.image == s.image
            &&& t.irq_enable == s.irq_enable && t.use_firq == s.use_firq && t.sec_cnt == s.sec_cnt
        }),
{
    lemma_disk_place(s, 2);
    reveal(BlockState::reading);
    reveal(BlockState::writing);
    reveal(BlockState::reset);
    reveal(BlockState::loaded);
    reveal(BlockState::stored);
    assert(forall|v: u8| #[trigger] (v | 0x02) & 0x02 != 0 && (v | 0x04) & 0x04 != 0) by (bit_vector);
    assert(forall|v: u8| #[trigger] (v | 0x04) & 0x04 != 0) by (bit_vector);
    assert(forall|v: u8| #[trigger] ((v & !0x02u8) | 0x01) & 0x02 == 0 && ((v & !0x02u8) | 0x01) & 0x01 != 0)
        by (bit_vector);
}

/// The disk interrupts where that is enabled, on FIRQ or IRQ as it is told:
/// while data is ready or an error stands, and while the hold counts down.
pub proof fn law_disk_line(s: BlockState)
    ensures
        ({
            let v = BlockDev::irq_val(s);
            &&& !v.0 && !(v.1 && v.2)
            &&& s.use_firq ==> !v.2
            &&& !s.use_firq ==> !v.1
            &&& s.irq_enable && (flag(s.status, 0x02) || flag(s.status, 0x04)) ==> v.1 || v.2
            &&& s.irq_countdown > 0 ==> v.1 || v.2
            &&& !s.irq_enable && s.irq_countdown == 0 ==> !v.1 && !v.2
            &&& !flag(s.status, 0x02) && !flag(s.status, 0x04) && s.irq_countdown == 0 ==> !v.1
                && !v.2
            &&& s.irq_enable && (flag(s.status, 0x02) || flag(s.status, 0x04))
                ==> BlockDev::irq_next(s).irq_countdown == s.irq_hold_cycles
            &&& !s.irq_enable && s.irq_countdown > 0 ==> BlockDev::irq_next(s).irq_countdown
                == s.irq_countdown - 1
        }),
{
}

/// The disk answers at eight addresses from its base on.
pub proof fn law_disk_place(s: BlockState, k: int)
    requires
        0 <= k < 65536,
    ensures
        BlockDev::holds(s, ((s.base + k) % 65536) as u16) <==> k < 8,
{
    lemma_disk_place(s, k);
}

/// A transfer that ends arms the hold where the interrupt is enabled; one that
/// goes on does not.
pub proof fn law_disk_hold(s: BlockState)
    ensures
        !(s.op_read && s.xfer_remaining > 0) ==> s.drained().irq_countdown == if s.irq_enable {
            s.irq_hold_cycles
        } else {
            s.irq_countdown
        },
        s.xfer_remaining <= 512 ==> s.filled().irq_countdown == if s.irq_enable {
            s.irq_hold_cycles
        } else {
            s.irq_countdown
        },
        s.xfer_remaining > 512 ==> s.filled().irq_countdown == s.irq_countdown && s.filled().op_write
            == s.op_write,
        s.xfer_remaining <= 512 ==> !s.filled().op_write,
{
    reveal(BlockState::drained);
    reveal(BlockState::filled);
    reveal(BlockState::stored);
}

/// A logged command says the command, the sector and the number of sectors.
pub proof fn law_disk_logged(s: BlockState, data: u8)
    ensures
        ({
            let t = s.log_line(data);
            &&& begins(t, "[block] CMD=$"@ + hex2(data) + " LBA=$"@)
            &&& shows(
                t,
                hex4((s.lba / 0x1_0000) as u16) + hex4((s.lba % 0x1_0000) as u16) + " SECCNT=$"@
                    + hex2(s.sec_cnt),
            )
            &&& ends(
                t,
                if s.irq_enable {
                    " irq="@ + "true"@
                } else {
                    " irq="@ + "false"@
                },
            )
            &&& s.log ==> s.commanded(0).lines == s.lines.push(s.log_line(0))
            &&& !s.log ==> s.commanded(0).lines == s.lines
        }),
{
    let t = s.log_line(data);
    let a = "[block] CMD=$"@ + hex2(data) + " LBA=$"@;
    let b = hex4((s.lba / 0x1_0000) as u16) + hex4((s.lba % 0x1_0000) as u16) + " SECCNT=$"@ + hex2(
        s.sec_cnt,
    );
    let c = if s.irq_enable {
        " irq="@ + "true"@
    } else {
        " irq="@ + "false"@
    };
    assert(t =~= a + b + c);
    lemma_parts(a, b, c);
}

/// Behind the last sector number comes the first.
pub proof fn law_next_sector(s: BlockState)
    ensures
        s.next_sector() == (BlockState {
            lba: ((s.lba + 1) % 0x1_0000_0000) as u32,
            ..s
        }),
{
}

} // verus!
