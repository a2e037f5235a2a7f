//! Program images: raw binaries and Motorola S-records.

use crate::alu::{offset, offset_by};
use crate::bus::{overlay, write_all, write_slice, Bus, Memory};
use crate::text::{
    digits, lines_of, parts, push_digits, push_text, read_unsigned, slice_of, split_lines,
    text_of, trim, trimmed, unsigned,
};
use vstd::prelude::*;
use vstd::string::StrSliceExecFns;
use vstd::utf8::encode_utf8;

verus! {

#[derive(Clone, Copy)]
pub enum ImageFormat {
    Binary,
    Srec,
}

/// What a load has put where: ranges `(start, end)` without their ends, and
/// the entry point that the image names.
pub struct LoadedImage {
    pub loaded_ranges: Vec<(u16, u16)>,
    pub entry: Option<u16>,
}

/// An image that is not loaded yet.
#[derive(Clone, Debug)]
pub struct ParsedImage {
    pub blocks: Vec<(u16, Vec<u8>)>,
    pub loaded_ranges: Vec<(u16, u16)>,
    pub entry: Option<u16>,
}

/// The contents of a list of blocks.
pub open spec fn blocks_view(v: Seq<(u16, Vec<u8>)>) -> Seq<(u16, Seq<u8>)> {
    v.map_values(|b: (u16, Vec<u8>)| (b.0, b.1@))
}

/// The range of `len` bytes from `base` on; its end wraps round the top of the
/// address space.
pub open spec fn range_of(base: u16, len: nat) -> (u16, u16) {
    (base, offset(base, (len % 0x1_0000) as int))
}

pub open spec fn ranges_of(blocks: Seq<(u16, Seq<u8>)>) -> Seq<(u16, u16)> {
    blocks.map_values(|b: (u16, Seq<u8>)| range_of(b.0, b.1.len()))
}

fn make_range(base: u16, len: usize) -> (r: (u16, u16))
    ensures
        r == range_of(base, len as nat),
{
    (base, offset_by(base, (len % 0x1_0000) as i32))
}

fn one_range(base: u16, len: usize) -> (v: Vec<(u16, u16)>)
    ensures
        v@ == seq![range_of(base, len as nat)],
{
    let mut v: Vec<(u16, u16)> = Vec::new();
    v.push(make_range(base, len));
    assert(v@ =~= seq![range_of(base, len as nat)]);
    v
}

/// An image of one block.
pub fn parse_binary(base: u16, data: &[u8]) -> (image: ParsedImage)
    ensures
        blocks_view(image.blocks@) == seq![(base, data@)],
        image.loaded_ranges@ == seq![range_of(base, data@.len())],
        image.entry is None,
{
    let mut bytes: Vec<u8> = Vec::new();
    bytes.extend_from_slice(data);
    assert(bytes@ =~= data@);
    let mut blocks: Vec<(u16, Vec<u8>)> = Vec::new();
    blocks.push((base, bytes));
    assert(blocks_view(blocks@) =~= seq![(base, data@)]);
    ParsedImage { blocks, loaded_ranges: one_range(base, data.len()), entry: None }
}

/// The bytes of a text in UTF-8, each as a character.
pub open spec fn cells(s: Seq<char>) -> Seq<char> {
    encode_utf8(s).map_values(|b: u8| b as char)
}

fn cells_of(v: &Vec<char>) -> (out: Vec<char>)
    ensures
        out@ == cells(v@),
{
    let s: String = text_of(v);
    let bytes: Vec<u8> = s.as_str().as_bytes_vec();
    let mut out: Vec<char> = Vec::new();
    let mut i: usize = 0;
    while i < bytes.len()
        invariant
            i <= bytes@.len(),
            out@ == bytes@.take(i as int).map_values(|b: u8| b as char),
        decreases bytes@.len() - i,
    {
        out.push(bytes[i] as char);
        i = i + 1;
        assert(out@ =~= bytes@.take(i as int).map_values(|b: u8| b as char));
    }
    assert(bytes@.take(i as int) =~= bytes@);
    out
}

/// The hexadecimal number in `b[i..j]`.
pub open spec fn hex_at(b: Seq<char>, i: int, j: int, max: int) -> Option<int> {
    unsigned(b.subrange(i, j), 16, max)
}

fn read_hex(b: &Vec<char>, i: usize, j: usize, max: u64) -> (r: Option<u64>)
    requires
        i <= j <= b@.len(),
    ensures
        r is Some == hex_at(b@, i as int, j as int, max as int) is Some,
        r matches Some(n) ==> n == hex_at(b@, i as int, j as int, max as int)->0,
{
    let part: Vec<char> = slice_of(b, i, j);
    read_unsigned(&part, 16, max)
}

/// `n` bytes of two digits each from `i` on; `None` where one is malformed.
pub open spec fn bytes_at(b: Seq<char>, i: int, n: nat) -> Option<Seq<u8>>
    decreases n,
{
    if n == 0 {
        Some(Seq::empty())
    } else {
        match (
            bytes_at(b, i, (n - 1) as nat),
            hex_at(b, i + 2 * (n - 1), i + 2 * (n - 1) + 2, 255),
        ) {
            (Some(front), Some(v)) => Some(front.push(v as u8)),
            _ => None,
        }
    }
}

proof fn lemma_bytes_stop(b: Seq<char>, i: int, n: nat, m: nat)
    requires
        n <= m,
        bytes_at(b, i, n) is None,
    ensures
        bytes_at(b, i, m) is None,
    decreases m,
{
    if n < m {
        lemma_bytes_stop(b, i, n, (m - 1) as nat);
    }
}

fn read_bytes(b: &Vec<char>, i: usize, n: usize) -> (r: Option<Vec<u8>>)
    requires
        n <= 255,
        i + 2 * n <= b@.len(),
    ensures
        r is Some == bytes_at(b@, i as int, n as nat) is Some,
        r matches Some(v) ==> Some(v@) == bytes_at(b@, i as int, n as nat) && v@.len() == n,
{
    let mut v: Vec<u8> = Vec::new();
    let len: usize = b.len();
    let mut k: usize = 0;
    assert(v@ =~= Seq::<u8>::empty());
    while k < n
        invariant
            k <= n <= 255,
            len == b@.len(),
            i + 2 * n <= len,
            v@.len() == k,
            bytes_at(b@, i as int, k as nat) == Some(v@),
        decreases n - k,
    {
        match read_hex(b, i + 2 * k, i + 2 * k + 2, 255) {
            Some(x) => {
                v.push(x as u8);
                k = k + 1;
            },
            None => {
                proof {
                    assert(bytes_at(b@, i as int, (k + 1) as nat) is None);
                    lemma_bytes_stop(b@, i as int, (k + 1) as nat, n as nat);
                }
                return None;
            },
        }
    }
    Some(v)
}

/// What a line of an S-record file stands for. `B` holds bytes, `T` text.
pub enum Record<B, T> {
    /// Nothing to load.
    Skip,
    /// Bytes for an address.
    Block(u16, B),
    /// The entry point; `None` where it is malformed.
    Entry(Option<u16>),
    /// A malformed line.
    Bad(T),
}

/// The contents of a record.
pub open spec fn record_view(r: Record<Vec<u8>, String>) -> Record<Seq<u8>, Seq<char>> {
    match r {
        Record::Skip => Record::Skip,
        Record::Block(a, v) => Record::Block(a, v@),
        Record::Entry(e) => Record::Entry(e),
        Record::Bad(t) => Record::Bad(t@),
    }
}

/// A data record with an address of `width` bytes, whose low 16 bits count:
/// count, address, data and a checksum, which is not looked at.
pub open spec fn data_record(b: Seq<char>, count: int, width: int) -> Record<Seq<u8>, Seq<char>> {
    if b.len() < 4 + count * 2 {
        Record::Bad("too short for count"@)
    } else if count < width + 1 {
        Record::Bad(
            (if width == 2 {
                "invalid S1 count "@
            } else if width == 3 {
                "invalid S2 count "@
            } else {
                "invalid S3 count "@
            }) + digits(count as nat),
        )
    } else {
        match hex_at(b, 4, 4 + 2 * width, 0xFFFF_FFFF) {
            None => Record::Bad("bad addr"@),
            Some(a) => match bytes_at(b, 4 + 2 * width, (count - width - 1) as nat) {
                None => Record::Bad("bad data"@),
                Some(v) => Record::Block((a % 0x1_0000) as u16, v),
            },
        }
    }
}

/// The low 16 bits of the address in `b[4..to]`.
pub open spec fn entry_at(b: Seq<char>, to: int) -> Option<u16> {
    match hex_at(b, 4, to, 0xFFFF_FFFF) {
        Some(e) => Some((e % 0x1_0000) as u16),
        None => None,
    }
}

fn read_entry(b: &Vec<char>, to: usize) -> (r: Option<u16>)
    requires
        4 <= to <= b@.len(),
    ensures
        r == entry_at(b@, to as int),
{
    match read_hex(b, 4, to, 0xFFFF_FFFF) {
        Some(e) => Some((e % 0x1_0000) as u16),
        None => None,
    }
}

/// The record on a line.
pub open spec fn record(line: Seq<char>) -> Record<Seq<u8>, Seq<char>> {
    let t = trimmed(line);
    let b = cells(t);
    if t.len() == 0 {
        Record::Skip
    } else if t[0] != 'S' {
        Record::Bad("Not an S-record"@)
    } else if b.len() < 4 {
        Record::Bad("too short"@)
    } else {
        match hex_at(b, 2, 4, 255) {
            None => Record::Bad("bad count"@),
            Some(count) => if b[1] == '1' {
                data_record(b, count, 2)
            } else if b[1] == '2' {
                data_record(b, count, 3)
            } else if b[1] == '3' {
                data_record(b, count, 4)
            } else if b[1] == '9' && b.len() >= 8 {
                Record::Entry(entry_at(b, 8))
            } else if b[1] == '8' && b.len() >= 10 {
                Record::Entry(entry_at(b, 10))
            } else if b[1] == '7' && b.len() >= 12 {
                Record::Entry(entry_at(b, 12))
            } else {
                Record::Skip
            },
        }
    }
}

fn bad(text: &str) -> (r: Record<Vec<u8>, String>)
    ensures
        record_view(r) == Record::<Seq<u8>, Seq<char>>::Bad(text@),
{
    let mut s: String = String::new();
    push_text(&mut s, text);
    assert(s@ =~= text@);
    Record::Bad(s)
}

fn read_data_record(b: &Vec<char>, count: usize, width: usize) -> (r: Record<Vec<u8>, String>)
    requires
        count <= 255,
        2 <= width <= 4,
        b@.len() >= 4,
    ensures
        record_view(r) == data_record(b@, count as int, width as int),
{
    if b.len() < 4 + count * 2 {
        return bad("too short for count");
    }
    if count < width + 1 {
        let mut s: String = String::new();
        if width == 2 {
            push_text(&mut s, "invalid S1 count ");
        } else if width == 3 {
            push_text(&mut s, "invalid S2 count ");
        } else {
            push_text(&mut s, "invalid S3 count ");
        }
        push_digits(&mut s, count as u64);
        assert(record_view(Record::Bad(s)) == data_record(b@, count as int, width as int)) by {
            assert(s@ =~= (if width == 2 {
                "invalid S1 count "@
            } else if width == 3 {
                "invalid S2 count "@
            } else {
                "invalid S3 count "@
            }) + digits(count as nat));
        }
        return Record::Bad(s);
    }
    match read_hex(b, 4, 4 + 2 * width, 0xFFFF_FFFF) {
        None => bad("bad addr"),
        Some(a) => {
            match read_bytes(b, 4 + 2 * width, count - width - 1) {
                None => bad("bad data"),
                Some(v) => Record::Block((a % 0x1_0000) as u16, v),
            }
        },
    }
}

/// Reads the record on a line.
pub fn read_record(line: &Vec<char>) -> (r: Record<Vec<u8>, String>)
    ensures
        record_view(r) == record(line@),
{
    let t: Vec<char> = trim(line);
    if t.len() == 0 {
        return Record::Skip;
    }
    if t[0] != 'S' {
        return bad("Not an S-record");
    }
    let b: Vec<char> = cells_of(&t);
    if b.len() < 4 {
        return bad("too short");
    }
    match read_hex(&b, 2, 4, 255) {
        None => bad("bad count"),
        Some(count) => {
            if b[1] == '1' {
                read_data_record(&b, count as usize, 2)
            } else if b[1] == '2' {
                read_data_record(&b, count as usize, 3)
            } else if b[1] == '3' {
                read_data_record(&b, count as usize, 4)
            } else if b[1] == '9' && b.len() >= 8 {
                Record::Entry(read_entry(&b, 8))
            } else if b[1] == '8' && b.len() >= 10 {
                Record::Entry(read_entry(&b, 10))
            } else if b[1] == '7' && b.len() >= 12 {
                Record::Entry(read_entry(&b, 12))
            } else {
                Record::Skip
            }
        },
    }
}

/// What an S-record file holds up to its first malformed line, and the message
/// for that line.
pub struct Srec {
    pub blocks: Seq<(u16, Seq<u8>)>,
    pub entry: Option<u16>,
    pub error: Option<Seq<char>>,
}

/// The contents of the lines from `i` on, behind what was found before them.
pub open spec fn srec_from(
    lines: Seq<Seq<char>>,
    i: int,
    blocks: Seq<(u16, Seq<u8>)>,
    entry: Option<u16>,
) -> Srec
    decreases lines.len() - i,
{
    if i >= lines.len() {
        Srec { blocks, entry, error: None }
    } else {
        match record(lines[i]) {
            Record::Skip => srec_from(lines, i + 1, blocks, entry),
            Record::Block(a, v) => srec_from(lines, i + 1, blocks.push((a, v)), entry),
            Record::Entry(e) => srec_from(lines, i + 1, blocks, e),
            Record::Bad(t) => Srec {
                blocks,
                entry,
                error: Some("Line "@ + digits((i + 1) as nat) + ": "@ + t),
            },
        }
    }
}

/// The contents of an S-record file.
pub open spec fn srec(text: Seq<char>) -> Srec {
    srec_from(lines_of(text), 0, Seq::empty(), None)
}

fn scan(s: &str) -> (r: (Vec<(u16, Vec<u8>)>, Option<u16>, Option<String>))
    ensures
        srec(s@) == (Srec {
            blocks: blocks_view(r.0@),
            entry: r.1,
            error: match r.2 {
                Some(e) => Some(e@),
                None => None,
            },
        }),
{
    let lines: Vec<Vec<char>> = split_lines(s);
    let ghost all = lines_of(s@);
    let mut blocks: Vec<(u16, Vec<u8>)> = Vec::new();
    let mut entry: Option<u16> = None;
    let mut i: usize = 0;
    assert(blocks_view(blocks@) =~= Seq::<(u16, Seq<u8>)>::empty());
    while i < lines.len()
        invariant
            i <= lines@.len(),
            parts(lines@) == all,
            all == lines_of(s@),
            srec(s@) == srec_from(all, i as int, blocks_view(blocks@), entry),
        decreases lines@.len() - i,
    {
        assert(parts(lines@)[i as int] == lines@[i as int]@);
        match read_record(&lines[i]) {
            Record::Skip => {},
            Record::Block(a, v) => {
                let ghost before = blocks_view(blocks@);
                blocks.push((a, v));
                assert(blocks_view(blocks@) =~= before.push((a, v@)));
            },
            Record::Entry(e) => {
                entry = e;
            },
            Record::Bad(t) => {
                let mut e: String = String::new();
                push_text(&mut e, "Line ");
                push_digits(&mut e, i as u64 + 1);
                push_text(&mut e, ": ");
                push_text(&mut e, t.as_str());
                assert(e@ =~= "Line "@ + digits((i + 1) as nat) + ": "@ + t@);
                return (blocks, entry, Some(e));
            },
        }
        i = i + 1;
    }
    (blocks, entry, None)
}

fn ranges(blocks: &Vec<(u16, Vec<u8>)>) -> (v: Vec<(u16, u16)>)
    ensures
        v@ == ranges_of(blocks_view(blocks@)),
{
    let mut v: Vec<(u16, u16)> = Vec::new();
    let mut i: usize = 0;
    while i < blocks.len()
        invariant
            i <= blocks@.len(),
            v@ == ranges_of(blocks_view(blocks@)).take(i as int),
        decreases blocks@.len() - i,
    {
        v.push(make_range(blocks[i].0, blocks[i].1.len()));
        i = i + 1;
        assert(v@ =~= ranges_of(blocks_view(blocks@)).take(i as int));
    }
    assert(v@ =~= ranges_of(blocks_view(blocks@)));
    v
}

/// Reads an S-record file.
pub fn parse_srec(s: &str) -> (r: Result<ParsedImage, String>)
    ensures
        match r {
            Ok(image) => srec(s@) == (Srec {
                blocks: blocks_view(image.blocks@),
                entry: image.entry,
                error: None,
            }) && image.loaded_ranges@ == ranges_of(srec(s@).blocks),
            Err(e) => srec(s@).error == Some(e@),
        },
{
    let (blocks, entry, error) = scan(s);
    match error {
        Some(e) => Err(e),
        None => {
            let loaded_ranges: Vec<(u16, u16)> = ranges(&blocks);
            Ok(ParsedImage { blocks, loaded_ranges, entry })
        },
    }
}

/// Loads a binary into a memory; bytes past the last address are dropped.
pub fn load_binary(mem: &mut Memory, base: u16, data: &[u8]) -> (image: LoadedImage)
    ensures
        final(mem).wf(),
        final(mem)@ == overlay(old(mem)@, base as int, data@),
        image.loaded_ranges@ == seq![range_of(base, data@.len())],
        image.entry is None,
{
    mem.load_slice(base, data);
    LoadedImage { loaded_ranges: one_range(base, data.len()), entry: None }
}

/// Writes a binary to a bus; the addresses wrap round the top of the address
/// space.
pub fn load_binary_bus<B: Bus>(bus: &mut B, base: u16, data: &[u8]) -> (image: LoadedImage)
    requires
        old(bus).wf(),
    ensures
        final(bus).wf(),
        final(bus)@ == write_all::<B>(old(bus)@, base, data@),
        image.loaded_ranges@ == seq![range_of(base, data@.len())],
        image.entry is None,
{
    write_slice(bus, base, data);
    LoadedImage { loaded_ranges: one_range(base, data.len()), entry: None }
}

/// The memory behind loads of blocks.
pub open spec fn overlay_all(m: Seq<u8>, blocks: Seq<(u16, Seq<u8>)>) -> Seq<u8>
    decreases blocks.len(),
{
    if blocks.len() == 0 {
        m
    } else {
        overlay(overlay_all(m, blocks.drop_last()), blocks.last().0 as int, blocks.last().1)
    }
}

/// The bus behind writes of blocks.
pub open spec fn write_blocks<B: Bus>(m: B::V, blocks: Seq<(u16, Seq<u8>)>) -> B::V
    decreases blocks.len(),
{
    if blocks.len() == 0 {
        m
    } else {
        write_all::<B>(
            write_blocks::<B>(m, blocks.drop_last()),
            blocks.last().0,
            blocks.last().1,
        )
    }
}

/// Loads an S-record file into a memory. A file with a malformed line loads
/// nothing.
pub fn load_srec(mem: &mut Memory, s: &str) -> (r: Result<LoadedImage, String>)
    requires
        old(mem).wf(),
    ensures
        final(mem).wf(),
        match r {
            Ok(image) => {
                &&& srec(s@).error is None
                &&& final(mem)@ == overlay_all(old(mem)@, srec(s@).blocks)
                &&& image.entry == srec(s@).entry
                &&& image.loaded_ranges@ == ranges_of(srec(s@).blocks)
            },
            Err(e) => srec(s@).error == Some(e@) && final(mem)@ == old(mem)@,
        },
{
    let (blocks, entry, error) = scan(s);
    if let Some(e) = error {
        return Err(e);
    }
    let ghost all = blocks_view(blocks@);
    let mut i: usize = 0;
    assert(all.take(0) =~= Seq::<(u16, Seq<u8>)>::empty());
    while i < blocks.len()
        invariant
            i <= blocks@.len(),
            all == blocks_view(blocks@),
            mem.wf(),
            mem@ == overlay_all(old(mem)@, all.take(i as int)),
        decreases blocks@.len() - i,
    {
        assert(all.take(i + 1).drop_last() =~= all.take(i as int));
        mem.load_slice(blocks[i].0, blocks[i].1.as_slice());
        i = i + 1;
    }
    assert(all.take(i as int) =~= all);
    Ok(LoadedImage { loaded_ranges: ranges(&blocks), entry })
}

/// Writes an S-record file to a bus. Of a file with a malformed line nothing is
/// written.
pub fn load_srec_bus<B: Bus>(bus: &mut B, s: &str) -> (r: Result<LoadedImage, String>)
    requires
        old(bus).wf(),
    ensures
        final(bus).wf(),
        match r {
            Ok(image) => {
                &&& srec(s@).error is None
                &&& final(bus)@ == write_blocks::<B>(old(bus)@, srec(s@).blocks)
                &&& image.entry == srec(s@).entry
                &&& image.loaded_ranges@ == ranges_of(srec(s@).blocks)
            },
            Err(e) => srec(s@).error == Some(e@) && final(bus)@ == old(bus)@,
        },
{
    let (blocks, entry, error) = scan(s);
    if let Some(e) = error {
        return Err(e);
    }
    let ghost all = blocks_view(blocks@);
    let mut i: usize = 0;
    assert(all.take(0) =~= Seq::<(u16, Seq<u8>)>::empty());
    while i < blocks.len()
        invariant
            i <= blocks@.len(),
            all == blocks_view(blocks@),
            bus.wf(),
            bus@ == write_blocks::<B>(old(bus)@, all.take(i as int)),
        decreases blocks@.len() - i,
    {
        assert(all.take(i + 1).drop_last() =~= all.take(i as int));
        write_slice(bus, blocks[i].0, blocks[i].1.as_slice());
        i = i + 1;
    }
    assert(all.take(i as int) =~= all);
    Ok(LoadedImage { loaded_ranges: ranges(&blocks), entry })
}

} // verus!
