//! A disk of 512-byte sectors.
//!
//! | Offset | Register |
//! |---|---|
//! | `+0` | data: the sector buffer, byte by byte |
//! | `+1` | status: bit 0 busy, bit 1 data ready, bit 2 error; reading clears the error |
//! | `+2` | command: 0 nothing, 1 read, 2 write, `$FF` reset |
//! | `+3` | sector count |
//! | `+4` to `+7` | sector number, low byte first |
//!
//! The image is held in memory. Sectors that are written can be mirrored to a
//! file by the host.

use crate::alu::{flag, has_flag, offset, offset_by, with_flag, put_flag};
use crate::bus::overlay;
use crate::io::gpio::{byte_at, get_byte, put_byte, with_byte};
use crate::io::{Attach, Device, Slot, SlotState};
use crate::text::{hex2, hex4, push_hex2, push_hex4, push_text, texts};
use vstd::prelude::*;

verus! {

/// Bytes of a sector.
pub const SECTOR: usize = 512;

/// A sector that the host has to write to the backing file at byte `start`;
/// the file has to reach behind it.
pub struct SectorWrite {
    pub start: u64,
    pub bytes: Vec<u8>,
}

/// The contents of a [`SectorWrite`].
pub struct SectorView {
    pub start: u64,
    pub bytes: Seq<u8>,
}

impl View for SectorWrite {
    type V = SectorView;

    open spec fn view(&self) -> SectorView {
        SectorView { start: self.start, bytes: self.bytes@ }
    }
}

pub open spec fn sectors(v: Seq<SectorWrite>) -> Seq<SectorView> {
    v.map_values(|s: SectorWrite| s@)
}

pub struct BlockDev {
    pub base: u16,
    /// Whether commands are logged.
    pub log: bool,
    lba: u32,
    sec_cnt: u8,
    status: u8,
    last_cmd: u8,
    buf: [u8; 512],
    buf_idx: usize,
    image: Vec<u8>,
    backing_path: Option<String>,
    op_read: bool,
    op_write: bool,
    xfer_remaining: usize,
    irq_enable: bool,
    use_firq: bool,
    irq_hold_cycles: u32,
    irq_countdown: u32,
    last_data_byte: u8,
    state_dirty: bool,
    mirror: Vec<SectorWrite>,
    lines: Vec<String>,
}

/// The state of a [`BlockDev`].
pub struct BlockState {
    pub base: u16,
    pub log: bool,
    pub lba: u32,
    pub sec_cnt: u8,
    pub status: u8,
    pub last_cmd: u8,
    /// The sector buffer, 512 bytes.
    pub buf: Seq<u8>,
    /// The place of the next byte in the buffer.
    pub buf_idx: usize,
    pub image: Seq<u8>,
    pub backing: Option<Seq<char>>,
    pub op_read: bool,
    pub op_write: bool,
    /// Bytes of the transfer that are left.
    pub xfer_remaining: usize,
    pub irq_enable: bool,
    pub use_firq: bool,
    pub irq_hold_cycles: u32,
    pub irq_countdown: u32,
    pub last_data: u8,
    /// Whether something that a display shows has changed.
    pub dirty: bool,
    /// Sectors for the backing file.
    pub mirror: Seq<SectorView>,
    pub lines: Seq<Seq<char>>,
}

pub open spec fn path_view(p: Option<String>) -> Option<Seq<char>> {
    match p {
        Some(s) => Some(s@),
        None => None,
    }
}

impl View for BlockDev {
    type V = BlockState;

    closed spec fn view(&self) -> BlockState {
        BlockState {
            base: self.base,
            log: self.log,
            lba: self.lba,
            sec_cnt: self.sec_cnt,
            status: self.status,
            last_cmd: self.last_cmd,
            buf: self.buf@,
            buf_idx: self.buf_idx,
            image: self.image@,
            backing: path_view(self.backing_path),
            op_read: self.op_read,
            op_write: self.op_write,
            xfer_remaining: self.xfer_remaining,
            irq_enable: self.irq_enable,
            use_firq: self.use_firq,
            irq_hold_cycles: self.irq_hold_cycles,
            irq_countdown: self.irq_countdown,
            last_data: self.last_data_byte,
            dirty: self.state_dirty,
            mirror: sectors(self.mirror@),
            lines: texts(self.lines@),
        }
    }
}

pub open spec fn zero_sector() -> Seq<u8> {
    Seq::new(512, |i: int| 0u8)
}

/// `image` with zero bytes behind it up to `len` bytes.
pub open spec fn grown(image: Seq<u8>, len: int) -> Seq<u8> {
    if image.len() < len {
        image + Seq::new((len - image.len()) as nat, |i: int| 0u8)
    } else {
        image
    }
}

/// A difference that does not go below zero.
pub open spec fn less(a: usize, b: usize) -> usize {
    if a < b {
        0
    } else {
        (a - b) as usize
    }
}

impl BlockState {
    /// Sets or clears a status bit; a change is one that a display shows.
    pub open spec fn flagged(self, bit: u8, on: bool) -> BlockState {
        let s = with_flag(self.status, bit, on);
        BlockState { status: s, dirty: self.dirty || s != self.status, ..self }
    }

    /// The place of the current sector in the image.
    pub open spec fn start(self) -> int {
        self.lba * 512
    }

    /// Loads the current sector into the buffer: zeros and an error where the
    /// image does not hold it.
    #[verifier::opaque]
    pub open spec fn loaded(self) -> BlockState {
        let s = self.flagged(0x04, false).flagged(0x01, true);
        let t = if self.start() + 512 <= self.image.len() {
            BlockState { buf: self.image.subrange(self.start(), self.start() + 512), ..s }
        } else {
            (BlockState { buf: zero_sector(), ..s }).flagged(0x04, true)
        };
        (BlockState { buf_idx: 0, ..t }).flagged(0x01, false).flagged(0x02, true)
    }

    /// Stores the buffer as the current sector, growing the image, and hands it
    /// to the mirror where there is a backing file. A sector that no image can
    /// reach is an error.
    #[verifier::opaque]
    pub open spec fn stored(self) -> BlockState {
        let s = self.flagged(0x04, false).flagged(0x01, true);
        let t = if self.start() + 512 <= usize::MAX {
            BlockState {
                image: overlay(grown(self.image, self.start() + 512), self.start(), self.buf),
                mirror: if self.backing is Some {
                    self.mirror.push(SectorView { start: self.start() as u64, bytes: self.buf })
                } else {
                    self.mirror
                },
                ..s
            }
        } else {
            s.flagged(0x04, true)
        };
        BlockState { buf_idx: 0, ..t.flagged(0x01, false) }
    }

    pub open spec fn next_sector(self) -> BlockState {
        BlockState {
            lba: if self.lba == u32::MAX {
                0
            } else {
                (self.lba + 1) as u32
            },
            ..self
        }
    }

    /// A finished transfer arms the interrupt hold.
    pub open spec fn armed(self) -> BlockState {
        if self.irq_enable {
            BlockState { irq_countdown: self.irq_hold_cycles, ..self }
        } else {
            self
        }
    }

    pub open spec fn data_ready(self) -> bool {
        flag(self.status, 0x02) && self.buf_idx < 512
    }

    /// What a read of the data port returns.
    pub open spec fn data_byte(self) -> u8 {
        if self.data_ready() {
            self.buf[self.buf_idx as int]
        } else {
            0
        }
    }

    /// A read of the data port; at the end of the buffer a read goes on with
    /// the next sector, or ends.
    pub open spec fn data_read(self) -> BlockState {
        if self.data_ready() {
            let s = BlockState {
                buf_idx: (self.buf_idx + 1) as usize,
                last_data: self.data_byte(),
                dirty: true,
                xfer_remaining: less(self.xfer_remaining, 1),
                ..self
            };
            if s.buf_idx < 512 {
                s
            } else {
                s.drained()
            }
        } else {
            BlockState { last_data: 0, dirty: true, ..self }
        }
    }

    /// Behind the last byte of the buffer: the next sector, or the end of the
    /// read.
    #[verifier::opaque]
    pub open spec fn drained(self) -> BlockState {
        if self.op_read && self.xfer_remaining > 0 {
            self.next_sector().loaded()
        } else {
            (BlockState { op_read: false, ..self.flagged(0x02, false) }).armed()
        }
    }

    /// A full buffer is stored; the write goes on, or ends.
    #[verifier::opaque]
    pub open spec fn filled(self) -> BlockState {
        let t = self.stored().next_sector();
        let u = BlockState { xfer_remaining: less(t.xfer_remaining, 512), ..t };
        if u.xfer_remaining > 0 {
            BlockState { buf: zero_sector(), buf_idx: 0, ..u }
        } else {
            (BlockState { op_write: false, ..u }).flagged(0x01, false).armed()
        }
    }

    /// A write of the data port; a full buffer is stored while a write is on.
    pub open spec fn data_write(self, data: u8) -> BlockState {
        if self.buf_idx < 512 {
            let s = BlockState {
                buf: self.buf.update(self.buf_idx as int, data),
                buf_idx: (self.buf_idx + 1) as usize,
                last_data: data,
                dirty: true,
                ..self
            };
            if s.op_write && s.buf_idx >= 512 {
                s.filled()
            } else {
                s
            }
        } else {
            self
        }
    }

    pub open spec fn log_line(self, data: u8) -> Seq<char> {
        "[block] CMD=$"@ + hex2(data) + " LBA=$"@ + hex4((self.lba / 0x1_0000) as u16) + hex4(
            (self.lba % 0x1_0000) as u16,
        ) + " SECCNT=$"@ + hex2(self.sec_cnt) + " irq="@ + (if self.irq_enable {
            "true"@
        } else {
            "false"@
        })
    }

    /// The bytes of a transfer of the current sector count.
    pub open spec fn transfer_bytes(self) -> usize {
        if self.sec_cnt == 0 {
            512
        } else {
            (self.sec_cnt * 512) as usize
        }
    }

    /// A write of the command register.
    pub open spec fn commanded(self, data: u8) -> BlockState {
        let s = BlockState {
            last_cmd: data,
            dirty: self.dirty || self.last_cmd != data,
            lines: if self.log {
                self.lines.push(self.log_line(data))
            } else {
                self.lines
            },
            ..self
        };
        if data == 0x00 {
            s
        } else if data == 0x01 {
            s.reading()
        } else if data == 0x02 {
            s.writing()
        } else if data == 0xFF {
            s.reset()
        } else {
            s.flagged(0x04, true)
        }
    }

    /// Starts a read of the current sector count.
    #[verifier::opaque]
    pub open spec fn reading(self) -> BlockState {
        (BlockState {
            xfer_remaining: self.transfer_bytes(),
            op_read: true,
            op_write: false,
            ..self
        }).loaded()
    }

    /// Starts a write of the current sector count, with no data ready; a buffer
    /// that is full already is stored.
    #[verifier::opaque]
    pub open spec fn writing(self) -> BlockState {
        let t = (BlockState {
            xfer_remaining: self.transfer_bytes(),
            op_write: true,
            op_read: false,
            ..self
        }).flagged(0x02, false).flagged(0x01, true);
        if t.buf_idx >= 512 {
            let u = t.stored().next_sector();
            BlockState {
                xfer_remaining: less(u.xfer_remaining, 512),
                buf: zero_sector(),
                buf_idx: 0,
                ..u
            }
        } else {
            t
        }
    }

    /// Drops what is going on.
    #[verifier::opaque]
    pub open spec fn reset(self) -> BlockState {
        BlockState {
            status: 0,
            buf_idx: 0,
            last_cmd: 0,
            op_read: false,
            op_write: false,
            xfer_remaining: 0,
            irq_countdown: 0,
            ..self
        }
    }

    pub open spec fn off(self, addr: u16) -> u16 {
        offset(addr, -(self.base as int))
    }

    /// Whether the device asks for an interrupt: data ready, an error, or a
    /// write that just ended.
    pub open spec fn irq_level(self) -> bool {
        self.irq_enable && (flag(self.status, 0x02) || flag(self.status, 0x04) || (!self.op_write
            && self.last_cmd == 0x02 && self.irq_countdown > 0))
    }

    pub open spec fn polled(self) -> BlockState {
        if self.irq_level() {
            BlockState { irq_countdown: self.irq_hold_cycles, ..self }
        } else if self.irq_countdown > 0 {
            BlockState { irq_countdown: (self.irq_countdown - 1) as u32, ..self }
        } else {
            self
        }
    }
}

/// A new disk with an empty image.
pub open spec fn fresh_block(base: u16) -> BlockState {
    BlockState {
        base,
        log: false,
        lba: 0,
        sec_cnt: 1,
        status: 0,
        last_cmd: 0,
        buf: zero_sector(),
        buf_idx: 0,
        image: Seq::empty(),
        backing: None,
        op_read: false,
        op_write: false,
        xfer_remaining: 0,
        irq_enable: false,
        use_firq: false,
        irq_hold_cycles: 0,
        irq_countdown: 0,
        last_data: 0,
        dirty: true,
        mirror: Seq::empty(),
        lines: Seq::empty(),
    }
}

/// Switches the log of commands on or off.
pub fn set_block_log(dev: &mut BlockDev, on: bool)
    ensures
        final(dev)@ == (BlockState { log: on, ..old(dev)@ }),
{
    dev.log = on;
}

impl BlockDev {
    pub fn new(base: u16) -> (d: Self)
        ensures
            d@ == fresh_block(base),
    {
        let d = BlockDev {
            base,
            log: false,
            lba: 0,
            sec_cnt: 1,
            status: 0,
            last_cmd: 0,
            buf: [0; 512],
            buf_idx: 0,
            image: Vec::new(),
            backing_path: None,
            op_read: false,
            op_write: false,
            xfer_remaining: 0,
            irq_enable: false,
            use_firq: false,
            irq_hold_cycles: 0,
            irq_countdown: 0,
            last_data_byte: 0,
            state_dirty: true,
            mirror: Vec::new(),
            lines: Vec::new(),
        };
        assert(d.buf@ =~= zero_sector());
        assert(sectors(d.mirror@) =~= Seq::<SectorView>::empty());
        assert(texts(d.lines@) =~= Seq::<Seq<char>>::empty());
        d
    }

    /// Names the backing file. `contents` is what it holds, where it could be
    /// read; else the image stays.
    pub fn set_backing_file(&mut self, path: &str, contents: Option<Vec<u8>>)
        ensures
            final(self)@ == (BlockState {
                backing: Some(path@),
                image: match contents {
                    Some(data) => data@,
                    None => old(self)@.image,
                },
                ..old(self)@
            }),
    {
        if let Some(data) = contents {
            self.image = data;
        }
        let mut p: String = String::new();
        push_text(&mut p, path);
        assert(p@ =~= path@);
        self.backing_path = Some(p);
    }

    pub fn backing_file(&self) -> (p: Option<&str>)
        ensures
            p is Some == self@.backing is Some,
            p matches Some(s) ==> Some(s@) == self@.backing,
    {
        match &self.backing_path {
            Some(s) => Some(s.as_str()),
            None => None,
        }
    }

    pub fn set_image(&mut self, data: Vec<u8>)
        ensures
            final(self)@ == (BlockState { image: data@, ..old(self)@ }),
    {
        self.image = data;
    }

    pub fn last_cmd(&self) -> (v: u8)
        ensures
            v == self@.last_cmd,
    {
        self.last_cmd
    }

    pub fn last_data(&self) -> (v: u8)
        ensures
            v == self@.last_data,
    {
        self.last_data_byte
    }

    pub fn status(&self) -> (v: u8)
        ensures
            v == self@.status,
    {
        self.status
    }

    /// Whether something that a display shows has changed since the last call.
    pub fn take_dirty(&mut self) -> (r: bool)
        ensures
            r == old(self)@.dirty,
            final(self)@ == (BlockState { dirty: false, ..old(self)@ }),
    {
        let r: bool = self.state_dirty;
        self.state_dirty = false;
        r
    }

    pub fn set_irq_hold_cycles(&mut self, n: u32)
        ensures
            final(self)@ == (BlockState { irq_hold_cycles: n, ..old(self)@ }),
    {
        self.irq_hold_cycles = n;
    }

    pub fn set_irq_enable(&mut self, on: bool)
        ensures
            final(self)@ == (BlockState { irq_enable: on, ..old(self)@ }),
    {
        self.irq_enable = on;
    }

    pub fn set_firq(&mut self, on: bool)
        ensures
            final(self)@ == (BlockState { use_firq: on, ..old(self)@ }),
    {
        self.use_firq = on;
    }

    /// The sectors for the backing file since the last call.
    pub fn take_mirror(&mut self) -> (writes: Vec<SectorWrite>)
        ensures
            sectors(writes@) == old(self)@.mirror,
            final(self)@ == (BlockState { mirror: Seq::empty(), ..old(self)@ }),
    {
        let mut writes: Vec<SectorWrite> = Vec::new();
        std::mem::swap(&mut writes, &mut self.mirror);
        assert(sectors(self.mirror@) =~= Seq::<SectorView>::empty());
        writes
    }

    /// Tells how the host fared with a sector for the backing file; a failure
    /// is an error of the device.
    pub fn report_mirror(&mut self, ok: bool)
        ensures
            final(self)@ == if ok {
                old(self)@
            } else {
                old(self)@.flagged(0x04, true)
            },
    {
        if !ok {
            self.set_status(0x04, true);
        }
    }

    /// The log lines since the last call.
    pub fn take_lines(&mut self) -> (lines: Vec<String>)
        ensures
            texts(lines@) == old(self)@.lines,
            final(self)@ == (BlockState { lines: Seq::empty(), ..old(self)@ }),
    {
        let mut lines: Vec<String> = Vec::new();
        std::mem::swap(&mut lines, &mut self.lines);
        assert(texts(self.lines@) =~= Seq::<Seq<char>>::empty());
        lines
    }

    fn set_status(&mut self, bit: u8, on: bool)
        ensures
            final(self)@ == old(self)@.flagged(bit, on),
            final(self).buf_idx == old(self).buf_idx,
            final(self).image == old(self).image,
            final(self).lba == old(self).lba,
            final(self).buf == old(self).buf,
    {
        let prev: u8 = self.status;
        self.status = put_flag(self.status, bit, on);
        if self.status != prev {
            self.state_dirty = true;
        }
    }

    fn clear_buf(&mut self)
        ensures
            final(self)@ == (BlockState { buf: zero_sector(), ..old(self)@ }),
    {
        let ghost before = *self;
        let mut i: usize = 0;
        while i < 512
            invariant
                i <= 512,
                *self == (BlockDev { buf: self.buf, ..before }),
                forall|j: int| 0 <= j < i ==> self.buf@[j] == 0,
            decreases 512 - i,
        {
            self.buf[i] = 0;
            i = i + 1;
        }
        assert(self.buf@ =~= zero_sector());
    }

    /// Copies the sector at byte `at` of the image into the buffer.
    fn get_sector(&mut self, at: usize)
        requires
            at + 512 <= old(self)@.image.len(),
        ensures
            final(self)@ == (BlockState {
                buf: old(self)@.image.subrange(at as int, at + 512),
                ..old(self)@
            }),
    {
        let ghost before = *self;
        let len: usize = self.image.len();
        let mut i: usize = 0;
        while i < 512
            invariant
                i <= 512,
                at + 512 <= len,
                len == self.image@.len(),
                *self == (BlockDev { buf: self.buf, ..before }),
                forall|j: int| 0 <= j < i ==> self.buf@[j] == self.image@[at + j],
            decreases 512 - i,
        {
            self.buf[i] = self.image[at + i];
            i = i + 1;
        }
        assert(self.buf@ =~= self.image@.subrange(at as int, at + 512));
    }

    fn read_sector_into_buf(&mut self)
        ensures
            final(self)@ == old(self)@.loaded(),
    {
        reveal(BlockState::loaded);
        let start: u64 = self.lba as u64 * 512;
        self.set_status(0x04, false);
        self.set_status(0x01, true);
        if start + 512 <= self.image.len() as u64 {
            self.get_sector(start as usize);
        } else {
            self.clear_buf();
            self.set_status(0x04, true);
        }
        self.buf_idx = 0;
        self.set_status(0x01, false);
        self.set_status(0x02, true);
    }

    fn write_buf_to_sector(&mut self)
        ensures
            final(self)@ == old(self)@.stored(),
    {
        reveal(BlockState::stored);
        let start: u64 = self.lba as u64 * 512;
        self.set_status(0x04, false);
        self.set_status(0x01, true);
        if start + 512 <= usize::MAX as u64 {
            self.put_sector(start as usize);
        } else {
            self.set_status(0x04, true);
        }
        self.set_status(0x01, false);
        self.buf_idx = 0;
    }

    /// Writes the buffer into the image at byte `at` and hands it to the mirror.
    fn put_sector(&mut self, at: usize)
        requires
            at + 512 <= usize::MAX,
        ensures
            final(self)@ == (BlockState {
                image: overlay(grown(old(self)@.image, at + 512), at as int, old(self)@.buf),
                mirror: if old(self)@.backing is Some {
                    old(self)@.mirror.push(
                        SectorView { start: at as u64, bytes: old(self)@.buf },
                    )
                } else {
                    old(self)@.mirror
                },
                ..old(self)@
            }),
    {
        let ghost before = *self;
        let ghost image0 = self.image@;
        while self.image.len() < at + 512
            invariant
                at + 512 <= usize::MAX,
                *self == (BlockDev { image: self.image, ..before }),
                self.image@.len() >= image0.len(),
                self.image@.len() > image0.len() ==> self.image@.len() <= at + 512,
                self.image@ == grown(image0, self.image@.len() as int),
            decreases at + 512 - self.image@.len(),
        {
            let ghost n = self.image@.len();
            self.image.push(0);
            assert(self.image@ =~= grown(image0, n as int + 1));
        }
        let ghost image1 = self.image@;
        assert(image1 =~= grown(image0, at + 512));
        let mut i: usize = 0;
        while i < 512
            invariant
                i <= 512,
                at + 512 <= image1.len(),
                at + 512 <= usize::MAX,
                *self == (BlockDev { image: self.image, ..before }),
                self.image@.len() == image1.len(),
                forall|j: int|
                    0 <= j < image1.len() ==> self.image@[j] == if at <= j < at + i {
                        self.buf@[j - at]
                    } else {
                        image1[j]
                    },
            decreases 512 - i,
        {
            self.image[at + i] = self.buf[i];
            i = i + 1;
        }
        assert(self.image@ =~= overlay(image1, at as int, self.buf@));
        if self.backing_path.is_some() {
            let mut bytes: Vec<u8> = Vec::new();
            let mut k: usize = 0;
            while k < 512
                invariant
                    k <= 512,
                    bytes@ == self.buf@.subrange(0, k as int),
                decreases 512 - k,
            {
                bytes.push(self.buf[k]);
                k = k + 1;
                assert(bytes@ =~= self.buf@.subrange(0, k as int));
            }
            assert(bytes@ =~= self.buf@);
            let ghost mirror0 = self.mirror@;
            let write: SectorWrite = SectorWrite { start: at as u64, bytes };
            self.mirror.push(write);
            assert(sectors(self.mirror@) =~= sectors(mirror0).push(write@));
        }
    }

    fn advance(&mut self)
        ensures
            final(self)@ == old(self)@.next_sector(),
    {
        self.lba = self.lba.wrapping_add(1);
    }

    fn arm(&mut self)
        ensures
            final(self)@ == old(self)@.armed(),
    {
        if self.irq_enable {
            self.irq_countdown = self.irq_hold_cycles;
        }
    }

    fn read_data(&mut self) -> (b: u8)
        ensures
            b == old(self)@.data_byte(),
            final(self)@ == old(self)@.data_read(),
    {
        if has_flag(self.status, 0x02) && self.buf_idx < 512 {
            let b: u8 = self.buf[self.buf_idx];
            self.buf_idx = self.buf_idx + 1;
            self.last_data_byte = b;
            self.state_dirty = true;
            self.xfer_remaining = self.xfer_remaining.saturating_sub(1);
            if self.buf_idx >= 512 {
                self.drain();
            }
            b
        } else {
            self.last_data_byte = 0;
            self.state_dirty = true;
            0
        }
    }

    fn write_data(&mut self, data: u8)
        ensures
            final(self)@ == old(self)@.data_write(data),
    {
        if self.buf_idx < 512 {
            let at: usize = self.buf_idx;
            self.buf[at] = data;
            assert(self.buf@ =~= old(self)@.buf.update(at as int, data));
            self.buf_idx = at + 1;
            self.last_data_byte = data;
            self.state_dirty = true;
            if self.op_write && self.buf_idx >= 512 {
                self.fill();
            }
        }
    }

    fn drain(&mut self)
        ensures
            final(self)@ == old(self)@.drained(),
    {
        reveal(BlockState::drained);
        if self.op_read && self.xfer_remaining > 0 {
            self.advance();
            self.read_sector_into_buf();
        } else {
            self.set_status(0x02, false);
            self.op_read = false;
            self.arm();
        }
    }

    fn fill(&mut self)
        ensures
            final(self)@ == old(self)@.filled(),
    {
        reveal(BlockState::filled);
        self.write_buf_to_sector();
        self.advance();
        self.xfer_remaining = self.xfer_remaining.saturating_sub(512);
        if self.xfer_remaining > 0 {
            self.clear_buf();
            self.buf_idx = 0;
        } else {
            self.op_write = false;
            self.set_status(0x01, false);
            self.arm();
        }
    }

    fn log_command(&mut self, data: u8)
        ensures
            final(self)@ == (BlockState {
                lines: if old(self)@.log {
                    old(self)@.lines.push(old(self)@.log_line(data))
                } else {
                    old(self)@.lines
                },
                ..old(self)@
            }),
    {
        if self.log {
            let mut line: String = String::new();
            push_text(&mut line, "[block] CMD=$");
            push_hex2(&mut line, data);
            push_text(&mut line, " LBA=$");
            push_hex4(&mut line, (self.lba / 0x1_0000) as u16);
            push_hex4(&mut line, (self.lba % 0x1_0000) as u16);
            push_text(&mut line, " SECCNT=$");
            push_hex2(&mut line, self.sec_cnt);
            push_text(&mut line, " irq=");
            if self.irq_enable {
                push_text(&mut line, "true");
            } else {
                push_text(&mut line, "false");
            }
            assert(line@ =~= self@.log_line(data));
            let ghost before = self.lines@;
            self.lines.push(line);
            assert(texts(self.lines@) =~= texts(before).push(line@));
        }
    }

    fn transfer_bytes(&self) -> (n: usize)
        ensures
            n == self@.transfer_bytes(),
    {
        if self.sec_cnt == 0 {
            512
        } else {
            self.sec_cnt as usize * 512
        }
    }

    fn command(&mut self, data: u8)
        ensures
            final(self)@ == old(self)@.commanded(data),
    {
        self.log_command(data);
        if self.last_cmd != data {
            self.last_cmd = data;
            self.state_dirty = true;
        }
        if data == 0x00 {
        } else if data == 0x01 {
            self.start_read();
        } else if data == 0x02 {
            self.start_write();
        } else if data == 0xFF {
            self.reset();
        } else {
            self.set_status(0x04, true);
        }
    }

    fn start_read(&mut self)
        ensures
            final(self)@ == old(self)@.reading(),
    {
        reveal(BlockState::reading);
        self.xfer_remaining = self.transfer_bytes();
        self.op_read = true;
        self.op_write = false;
        self.read_sector_into_buf();
    }

    fn start_write(&mut self)
        ensures
            final(self)@ == old(self)@.writing(),
    {
        reveal(BlockState::writing);
        self.xfer_remaining = self.transfer_bytes();
        self.op_write = true;
        self.op_read = false;
        self.set_status(0x02, false);
        self.set_status(0x01, true);
        if self.buf_idx >= 512 {
            self.write_buf_to_sector();
            self.advance();
            self.xfer_remaining = self.xfer_remaining.saturating_sub(512);
            self.clear_buf();
            self.buf_idx = 0;
        }
    }

    fn reset(&mut self)
        ensures
            final(self)@ == old(self)@.reset(),
    {
        reveal(BlockState::reset);
        self.status = 0;
        self.buf_idx = 0;
        self.last_cmd = 0;
        self.op_read = false;
        self.op_write = false;
        self.xfer_remaining = 0;
        self.irq_countdown = 0;
    }
}

impl Device for BlockDev {
    open spec fn holds(m: BlockState, addr: u16) -> bool {
        m.off(addr) < 8
    }

    open spec fn read_val(m: BlockState, addr: u16) -> u8 {
        let off = m.off(addr);
        if off == 0 {
            m.data_byte()
        } else if off == 1 {
            m.status
        } else if off == 2 {
            m.last_cmd
        } else if off == 3 {
            m.sec_cnt
        } else if off < 8 {
            byte_at(m.lba, off - 4)
        } else {
            0xFF
        }
    }

    open spec fn read_next(m: BlockState, addr: u16) -> BlockState {
        let off = m.off(addr);
        if off == 0 {
            m.data_read()
        } else if off == 1 {
            m.flagged(0x04, false)
        } else {
            m
        }
    }

    open spec fn write_next(m: BlockState, addr: u16, data: u8) -> BlockState {
        let off = m.off(addr);
        if off == 0 {
            m.data_write(data)
        } else if off == 1 {
            m
        } else if off == 2 {
            m.commanded(data)
        } else if off == 3 {
            BlockState {
                sec_cnt: if data == 0 {
                    1
                } else {
                    data
                },
                ..m
            }
        } else if off < 8 {
            BlockState { lba: with_byte(m.lba, off - 4, data), ..m }
        } else if off == 8 {
            let s = BlockState {
                irq_enable: flag(data, 0x01),
                use_firq: flag(data, 0x02),
                ..m
            };
            if flag(data, 0x04) {
                s.flagged(0x04, false)
            } else {
                s
            }
        } else {
            m
        }
    }

    open spec fn irq_val(m: BlockState) -> (bool, bool, bool) {
        let on = m.irq_level() || m.irq_countdown > 0;
        if m.use_firq {
            (false, on, false)
        } else {
            (false, false, on)
        }
    }

    open spec fn irq_next(m: BlockState) -> BlockState {
        m.polled()
    }

    fn contains(&self, addr: u16) -> (r: bool) {
        offset_by(addr, -(self.base as i32)) < 8
    }

    fn read8(&mut self, addr: u16) -> (data: u8) {
        let off: u16 = offset_by(addr, -(self.base as i32));
        if off == 0 {
            self.read_data()
        } else if off == 1 {
            let s: u8 = self.status;
            self.set_status(0x04, false);
            s
        } else if off == 2 {
            self.last_cmd
        } else if off == 3 {
            self.sec_cnt
        } else if off < 8 {
            get_byte(self.lba, off - 4)
        } else {
            0xFF
        }
    }

    fn write8(&mut self, addr: u16, data: u8) {
        let off: u16 = offset_by(addr, -(self.base as i32));
        if off == 0 {
            self.write_data(data);
        } else if off == 1 {
        } else if off == 2 {
            self.command(data);
        } else if off == 3 {
            self.sec_cnt = if data == 0 {
                1
            } else {
                data
            };
        } else if off < 8 {
            self.lba = put_byte(self.lba, off - 4, data);
        } else if off == 8 {
            self.irq_enable = has_flag(data, 0x01);
            self.use_firq = has_flag(data, 0x02);
            if has_flag(data, 0x04) {
                self.set_status(0x04, false);
            }
        }
    }

    fn irq_lines(&mut self) -> (lines: (bool, bool, bool)) {
        let drdy: bool = has_flag(self.status, 0x02);
        let err: bool = has_flag(self.status, 0x04);
        let done: bool = !self.op_write && self.last_cmd == 0x02 && self.irq_countdown > 0;
        let mut on: bool = self.irq_enable && (drdy || err || done);
        if on {
            self.irq_countdown = self.irq_hold_cycles;
        } else if self.irq_countdown > 0 {
            self.irq_countdown = self.irq_countdown - 1;
            on = true;
        }
        if self.use_firq {
            (false, on, false)
        } else {
            (false, false, on)
        }
    }
}

impl<X: Device> Attach<X> for BlockDev {
    open spec fn slotted(m: BlockState) -> SlotState<X::V> {
        SlotState::Block(m)
    }

    fn into_slot(self) -> (s: Slot<X>) {
        Slot::Block(self)
    }
}

} // verus!
