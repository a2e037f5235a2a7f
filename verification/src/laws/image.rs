//! S-records: a well-formed record is read as what it holds.

use crate::laws::listing::law_hex_numbers;
use crate::laws::numbers::lemma_hex4_number;
use crate::laws::scripts::{about_line, lemma_about_line};
use crate::loader::{bytes_at, cells, data_record, record, srec_from, Record};
use crate::text::{
    all_digits, digit_value, hex2, hex4, hex_digit, is_white, number, skip_white,
    skip_white_back, trimmed, unsigned,
};
use vstd::prelude::*;
use vstd::utf8::{is_ascii_chars, is_ascii_chars_encode_utf8};

verus! {

/// Bytes as pairs of hexadecimal digits.
pub open spec fn hex_bytes(data: Seq<u8>) -> Seq<char> {
    Seq::new(
        2 * data.len(),
        |i: int|
            if i % 2 == 0 {
                hex_digit(data[i / 2] as int / 16)
            } else {
                hex_digit(data[i / 2] as int % 16)
            },
    )
}

/// An S1 record with `data` for `addr`, and any byte as checksum.
pub open spec fn s1_line(addr: u16, data: Seq<u8>, sum: u8) -> Seq<char> {
    seq!['S', '1'] + hex2((data.len() + 3) as u8) + hex4(addr) + hex_bytes(data) + hex2(sum)
}

/// An S9 record with the entry point `addr`.
pub open spec fn s9_line(addr: u16, sum: u8) -> Seq<char> {
    seq!['S', '9', '0', '3'] + hex4(addr) + hex2(sum)
}

/// Whether a character is an upper-case hexadecimal digit or an `S`.
spec fn plain(c: char) -> bool {
    48 <= c as int <= 57 || 65 <= c as int <= 70 || c == 'S'
}

proof fn lemma_digit(n: int)
    requires
        0 <= n < 16,
    ensures
        plain(hex_digit(n)),
        digit_value(hex_digit(n)) == n,
        hex_digit(n) != '+',
{
}

proof fn lemma_hex2(s: Seq<char>, v: u8)
    requires
        s == hex2(v),
    ensures
        unsigned(s, 16, 255) == Some(v as int),
{
    lemma_digit(v as int / 16);
    lemma_digit(v as int % 16);
    reveal_with_fuel(number, 3);
    assert(s.drop_last() =~= seq![hex_digit(v as int / 16)]);
    assert(s.drop_last().drop_last() =~= Seq::<char>::empty());
    assert(all_digits(s, 16));
}

proof fn lemma_hex4(s: Seq<char>, v: u16)
    requires
        s == hex4(v),
    ensures
        unsigned(s, 16, 0xFFFF_FFFF) == Some(v as int),
{
    lemma_hex4_number(v);
}

proof fn lemma_plain_hex_bytes(data: Seq<u8>)
    ensures
        forall|i: int| 0 <= i < 2 * data.len() ==> plain(#[trigger] hex_bytes(data)[i]),
{
    assert forall|i: int| 0 <= i < 2 * data.len() implies plain(#[trigger] hex_bytes(data)[i]) by {
        lemma_digit(data[i / 2] as int / 16);
        lemma_digit(data[i / 2] as int % 16);
    }
}

/// A line of plain characters is read as it stands.
proof fn lemma_plain_line(s: Seq<char>)
    requires
        s.len() > 0,
        forall|i: int| 0 <= i < s.len() ==> plain(#[trigger] s[i]),
    ensures
        trimmed(s) == s,
        cells(s) == s,
{
    assert(!is_white(s[0]));
    assert(!is_white(s[s.len() - 1]));
    assert(skip_white(s, 0) == 0);
    assert(skip_white_back(s, 0, s.len() as int) == s.len());
    assert(s.subrange(0, s.len() as int) =~= s);
    assert(is_ascii_chars(s));
    is_ascii_chars_encode_utf8(s);
    assert(cells(s) =~= s);
}

proof fn lemma_bytes(b: Seq<char>, at: int, data: Seq<u8>, n: nat)
    requires
        0 <= at,
        n <= data.len(),
        at + 2 * data.len() <= b.len(),
        b.subrange(at, at + 2 * data.len()) == hex_bytes(data),
    ensures
        bytes_at(b, at, n) == Some(data.take(n as int)),
    decreases n,
{
    if n > 0 {
        let k = n - 1;
        lemma_bytes(b, at, data, k as nat);
        let h = hex_bytes(data);
        let part = b.subrange(at + 2 * k, at + 2 * k + 2);
        assert(h[2 * k] == b[at + 2 * k]);
        assert(h[2 * k + 1] == b[at + 2 * k + 1]);
        assert(2 * k % 2 == 0 && 2 * k / 2 == k && (2 * k + 1) % 2 == 1 && (2 * k + 1) / 2 == k);
        assert(part =~= hex2(data[k]));
        lemma_hex2(part, data[k]);
        assert(data.take(k).push(data[k]) =~= data.take(n as int));
    } else {
        assert(data.take(0) =~= Seq::<u8>::empty());
    }
}

proof fn lemma_s1_plain(addr: u16, data: Seq<u8>, sum: u8)
    requires
        data.len() <= 252,
    ensures
        ({
            let s = s1_line(addr, data, sum);
            &&& s.len() == 10 + 2 * data.len()
            &&& forall|i: int| 0 <= i < s.len() ==> plain(#[trigger] s[i])
            &&& s[0] == 'S'
            &&& s[1] == '1'
            &&& s.subrange(2, 4) == hex2((data.len() + 3) as u8)
            &&& s.subrange(4, 8) == hex4(addr)
            &&& s.subrange(8, 8 + 2 * data.len() as int) == hex_bytes(data)
        }),
{
    let s = s1_line(addr, data, sum);
    let count = (data.len() + 3) as u8;
    assert(s.subrange(2, 4) =~= hex2(count));
    assert(s.subrange(4, 8) =~= hex4(addr));
    assert(s.subrange(8, 8 + 2 * data.len() as int) =~= hex_bytes(data));
    lemma_plain_hex_bytes(data);
    lemma_digit(count as int / 16);
    lemma_digit(count as int % 16);
    lemma_digit(sum as int / 16);
    lemma_digit(sum as int % 16);
    lemma_digit(addr as int / 4096);
    lemma_digit(addr as int / 256 % 16);
    lemma_digit(addr as int / 16 % 16);
    lemma_digit(addr as int % 16);
    assert forall|i: int| 0 <= i < s.len() implies plain(#[trigger] s[i]) by {
        if i < 2 {
        } else if i < 4 {
            assert(s[i] == hex2(count)[i - 2]);
        } else if i < 8 {
            assert(s[i] == hex4(addr)[i - 4]);
        } else if i < 8 + 2 * data.len() {
            assert(s[i] == hex_bytes(data)[i - 8]);
        } else {
            assert(s[i] == hex2(sum)[i - 8 - 2 * data.len()]);
        }
    }
}

proof fn lemma_data(s: Seq<char>, addr: u16, data: Seq<u8>)
    requires
        data.len() <= 252,
        s.len() == 10 + 2 * data.len(),
        s.subrange(4, 8) == hex4(addr),
        s.subrange(8, 8 + 2 * data.len() as int) == hex_bytes(data),
    ensures
        data_record(s, data.len() as int + 3, 2) == Record::<Seq<u8>, Seq<char>>::Block(addr, data),
{
    lemma_hex4(s.subrange(4, 8), addr);
    lemma_bytes(s, 8, data, data.len());
    assert(data.take(data.len() as int) =~= data);
}

proof fn lemma_record(s: Seq<char>, count: u8)
    requires
        s.len() >= 4,
        trimmed(s) == s,
        cells(s) == s,
        s[0] == 'S',
        s[1] == '1',
        s.subrange(2, 4) == hex2(count),
    ensures
        record(s) == data_record(s, count as int, 2),
{
    lemma_hex2(s.subrange(2, 4), count);
}

/// An S1 record is read as the bytes that it holds for its address. Its
/// checksum is not looked at.
pub proof fn law_s1_record(addr: u16, data: Seq<u8>, sum: u8)
    requires
        data.len() <= 252,
    ensures
        record(s1_line(addr, data, sum)) == Record::<Seq<u8>, Seq<char>>::Block(addr, data),
{
    let s = s1_line(addr, data, sum);
    lemma_s1_plain(addr, data, sum);
    lemma_plain_line(s);
    lemma_record(s, (data.len() + 3) as u8);
    lemma_data(s, addr, data);
}

/// An S9 record names the entry point.
pub proof fn law_s9_record(addr: u16, sum: u8)
    ensures
        record(s9_line(addr, sum)) == Record::<Seq<u8>, Seq<char>>::Entry(Some(addr)),
{
    let s = s9_line(addr, sum);
    lemma_digit(sum as int / 16);
    lemma_digit(sum as int % 16);
    lemma_digit(addr as int / 4096);
    lemma_digit(addr as int / 256 % 16);
    lemma_digit(addr as int / 16 % 16);
    lemma_digit(addr as int % 16);
    lemma_plain_line(s);
    assert(s.subrange(2, 4) =~= hex2(3));
    assert(s.subrange(4, 8) =~= hex4(addr));
    lemma_hex2(s.subrange(2, 4), 3);
    lemma_hex4(s.subrange(4, 8), addr);
}

/// The S1 records of a list of blocks.
pub open spec fn s1_lines(blocks: Seq<(u16, Seq<u8>)>) -> Seq<Seq<char>> {
    blocks.map_values(|b: (u16, Seq<u8>)| s1_line(b.0, b.1, 0))
}

proof fn lemma_blocks_back(
    lines: Seq<Seq<char>>,
    blocks: Seq<(u16, Seq<u8>)>,
    i: int,
)
    requires
        0 <= i <= blocks.len(),
        lines == s1_lines(blocks),
        forall|k: int| 0 <= k < blocks.len() ==> (#[trigger] blocks[k]).1.len() <= 252,
    ensures
        ({
            let r = srec_from(lines, i, blocks.take(i), None);
            r.blocks == blocks && r.entry is None && r.error is None
        }),
    decreases blocks.len() - i,
{
    if i < blocks.len() {
        law_s1_record(blocks[i].0, blocks[i].1, 0);
        assert(lines[i] == s1_line(blocks[i].0, blocks[i].1, 0));
        assert(blocks.take(i).push((blocks[i].0, blocks[i].1)) =~= blocks.take(i + 1));
        lemma_blocks_back(lines, blocks, i + 1);
    } else {
        assert(blocks.take(i) =~= blocks);
    }
}

/// A file of S1 records is read as its blocks, in order.
pub proof fn law_s1_file(blocks: Seq<(u16, Seq<u8>)>)
    requires
        forall|k: int| 0 <= k < blocks.len() ==> (#[trigger] blocks[k]).1.len() <= 252,
    ensures
        ({
            let r = srec_from(s1_lines(blocks), 0, Seq::empty(), None);
            r.blocks == blocks && r.entry is None && r.error is None
        }),
{
    lemma_blocks_back(s1_lines(blocks), blocks, 0);
    assert(blocks.take(0) =~= Seq::<(u16, Seq<u8>)>::empty());
}

/// A data record with more address digits in front of the four that count.
pub open spec fn wide_line(
    kind: char,
    high: Seq<char>,
    addr: u16,
    data: Seq<u8>,
    sum: u8,
) -> Seq<char> {
    seq!['S', kind] + hex2((data.len() + 3 + high.len() / 2) as u8) + high + hex4(addr) + hex_bytes(
        data,
    ) + hex2(sum)
}

proof fn lemma_plain_hex4(v: u16)
    ensures
        hex4(v).len() == 4,
        forall|i: int| 0 <= i < 4 ==> plain(#[trigger] hex4(v)[i]) && digit_value(hex4(v)[i]) < 16,
        hex4(v)[0] != '+',
{
    lemma_digit(v as int / 4096);
    lemma_digit(v as int / 256 % 16);
    lemma_digit(v as int / 16 % 16);
    lemma_digit(v as int % 16);
}

proof fn lemma_plain_hex2(v: u8)
    ensures
        hex2(v).len() == 2,
        forall|i: int| 0 <= i < 2 ==> plain(#[trigger] hex2(v)[i]) && digit_value(hex2(v)[i]) < 16,
        hex2(v)[0] != '+',
{
    lemma_digit(v as int / 16);
    lemma_digit(v as int % 16);
}

/// Four digits more multiply what stands in front of them by 65536.
proof fn lemma_number_joined(high: Seq<char>, addr: u16)
    ensures
        number(high + hex4(addr), 16) == number(high, 16) * 65536 + addr,
{
    let h = hex4(addr);
    let s = high + h;
    lemma_digit(addr as int / 4096);
    lemma_digit(addr as int / 256 % 16);
    lemma_digit(addr as int / 16 % 16);
    lemma_digit(addr as int % 16);
    let s1 = s.drop_last();
    let s2 = s1.drop_last();
    let s3 = s2.drop_last();
    assert(s3.drop_last() =~= high);
    assert(s.last() == h[3] && s1.last() == h[2] && s2.last() == h[1] && s3.last() == h[0]);
    let (d0, d1) = (addr as int / 4096, addr as int / 256 % 16);
    let (d2, d3) = (addr as int / 16 % 16, addr as int % 16);
    let n = number(high, 16);
    assert(number(s3, 16) == n * 16 + d0);
    assert(number(s2, 16) == (n * 16 + d0) * 16 + d1);
    assert(number(s1, 16) == ((n * 16 + d0) * 16 + d1) * 16 + d2);
    assert(number(s, 16) == (((n * 16 + d0) * 16 + d1) * 16 + d2) * 16 + d3);
    assert(d0 * 4096 + d1 * 256 + d2 * 16 + d3 == addr) by {
        assert(addr as int / 16 == addr as int / 256 * 16 + d2);
        assert(addr as int / 256 == d0 * 16 + d1);
    }
}

proof fn lemma_address(s: Seq<char>, from: int, high: Seq<char>, addr: u16)
    requires
        high.len() == 2 || high.len() == 4,
        forall|i: int| 0 <= i < high.len() ==> digit_value(#[trigger] high[i]) < 16,
        high[0] != '+',
        number(high, 16) <= 0xFFFF,
        0 <= from,
        from + high.len() + 4 <= s.len(),
        s.subrange(from, from + high.len() + 4) == high + hex4(addr),
    ensures
        unsigned(s.subrange(from, from + high.len() + 4), 16, 0xFFFF_FFFF) == Some(
            number(high, 16) * 65536 + addr,
        ),
{
    let t = s.subrange(from, from + high.len() + 4);
    lemma_plain_hex4(addr);
    lemma_number_joined(high, addr);
    assert(all_digits(t, 16)) by {
        assert forall|i: int| 0 <= i < t.len() implies digit_value(#[trigger] t[i]) < 16 by {
            if i >= high.len() {
                assert(t[i] == hex4(addr)[i - high.len()]);
            } else {
                assert(t[i] == high[i]);
            }
        }
    }
    assert(t[0] == high[0]);
}

/// The parts of such a line and their places.
spec fn wide_parts(s: Seq<char>, high: Seq<char>, addr: u16, data: Seq<u8>) -> bool {
    let w = high.len() as int;
    &&& s.len() == 10 + w + 2 * data.len()
    &&& s[0] == 'S'
    &&& s.subrange(2, 4) == hex2((data.len() + 3 + high.len() / 2) as u8)
    &&& s.subrange(4, 8 + w) == high + hex4(addr)
    &&& s.subrange(8 + w, 8 + w + 2 * data.len() as int) == hex_bytes(data)
}

proof fn lemma_wide_parts(kind: char, high: Seq<char>, addr: u16, data: Seq<u8>, sum: u8)
    requires
        high.len() == 2 || high.len() == 4,
        data.len() <= 250,
    ensures
        wide_parts(wide_line(kind, high, addr, data, sum), high, addr, data),
        wide_line(kind, high, addr, data, sum)[1] == kind,
{
    let s = wide_line(kind, high, addr, data, sum);
    let w = high.len() as int;
    let count = (data.len() + 3 + high.len() / 2) as u8;
    assert(s.subrange(2, 4) =~= hex2(count));
    assert(s.subrange(4, 8 + w) =~= high + hex4(addr));
    assert(s.subrange(8 + w, 8 + w + 2 * data.len() as int) =~= hex_bytes(data));
}

proof fn lemma_wide_plain(kind: char, high: Seq<char>, addr: u16, data: Seq<u8>, sum: u8)
    requires
        kind == '2' || kind == '3',
        high.len() == 2 || high.len() == 4,
        forall|i: int| 0 <= i < high.len() ==> plain(#[trigger] high[i]),
    ensures
        ({
            let s = wide_line(kind, high, addr, data, sum);
            forall|i: int| 0 <= i < s.len() ==> plain(#[trigger] s[i])
        }),
{
    let s = wide_line(kind, high, addr, data, sum);
    let w = high.len() as int;
    let count = (data.len() + 3 + high.len() / 2) as u8;
    lemma_plain_hex_bytes(data);
    lemma_plain_hex2(count);
    lemma_plain_hex2(sum);
    lemma_plain_hex4(addr);
    assert forall|i: int| 0 <= i < s.len() implies plain(#[trigger] s[i]) by {
        if i < 2 {
        } else if i < 4 {
            assert(s[i] == hex2(count)[i - 2]);
        } else if i < 4 + w {
            assert(s[i] == high[i - 4]);
        } else if i < 8 + w {
            assert(s[i] == hex4(addr)[i - 4 - w]);
        } else if i < 8 + w + 2 * data.len() {
            assert(s[i] == hex_bytes(data)[i - 8 - w]);
        } else {
            assert(s[i] == hex2(sum)[i - 8 - w - 2 * data.len()]);
        }
    }
}

proof fn lemma_wide_data(s: Seq<char>, high: Seq<char>, addr: u16, data: Seq<u8>)
    requires
        high.len() == 2 || high.len() == 4,
        forall|i: int| 0 <= i < high.len() ==> digit_value(#[trigger] high[i]) < 16,
        high[0] != '+',
        number(high, 16) <= 0xFFFF,
        data.len() <= 250,
        wide_parts(s, high, addr, data),
    ensures
        data_record(s, data.len() + 3 + high.len() as int / 2, 2 + high.len() as int / 2) == Record::<
            Seq<u8>,
            Seq<char>,
        >::Block(addr, data),
{
    let w = high.len() as int;
    lemma_address(s, 4, high, addr);
    lemma_bytes(s, 8 + w, data, data.len());
    assert(data.take(data.len() as int) =~= data);
    assert((number(high, 16) * 65536 + addr) % 65536 == addr);
    assert(4 + 2 * (2 + w / 2) == 8 + w);
}

proof fn lemma_wide_kind(s: Seq<char>, count: u8, width: int)
    requires
        s.len() >= 4,
        trimmed(s) == s,
        cells(s) == s,
        s[0] == 'S',
        s[1] == '2' && width == 3 || s[1] == '3' && width == 4,
        s.subrange(2, 4) == hex2(count),
    ensures
        record(s) == data_record(s, count as int, width),
{
    lemma_hex2(s.subrange(2, 4), count);
}

proof fn lemma_wide_line(kind: char, high: Seq<char>, addr: u16, data: Seq<u8>, sum: u8)
    requires
        kind == '2' && high.len() == 2 || kind == '3' && high.len() == 4,
        forall|i: int|
            0 <= i < high.len() ==> plain(#[trigger] high[i]) && digit_value(high[i]) < 16,
        high[0] != '+',
        number(high, 16) <= 0xFFFF,
        data.len() <= 250,
    ensures
        record(wide_line(kind, high, addr, data, sum)) == Record::<Seq<u8>, Seq<char>>::Block(
            addr,
            data,
        ),
{
    let s = wide_line(kind, high, addr, data, sum);
    lemma_wide_parts(kind, high, addr, data, sum);
    lemma_wide_plain(kind, high, addr, data, sum);
    lemma_plain_line(s);
    lemma_wide_data(s, high, addr, data);
    lemma_wide_kind(s, (data.len() + 3 + high.len() / 2) as u8, 2 + high.len() as int / 2);
}

/// An S2 record has a third address byte and an S3 record two more, in front of
/// the two that count.
pub proof fn law_wide_records(bank: u8, upper: u16, addr: u16, data: Seq<u8>, sum: u8)
    requires
        data.len() <= 250,
    ensures
        record(wide_line('2', hex2(bank), addr, data, sum)) == Record::<
            Seq<u8>,
            Seq<char>,
        >::Block(addr, data),
        record(wide_line('3', hex4(upper), addr, data, sum)) == Record::<
            Seq<u8>,
            Seq<char>,
        >::Block(addr, data),
{
    lemma_plain_hex2(bank);
    lemma_plain_hex4(upper);
    law_hex_numbers(bank, upper);
    lemma_wide_line('2', hex2(bank), addr, data, sum);
    lemma_wide_line('3', hex4(upper), addr, data, sum);
}

/// An S8 and an S7 record name the entry point as an S9 record does, with more
/// address bytes.
pub proof fn law_wide_entries(bank: u8, upper: u16, addr: u16, sum: u8)
    ensures
        record(seq!['S', '8', '0', '4'] + hex2(bank) + hex4(addr) + hex2(sum)) == Record::<
            Seq<u8>,
            Seq<char>,
        >::Entry(Some(addr)),
        record(seq!['S', '7', '0', '5'] + hex4(upper) + hex4(addr) + hex2(sum)) == Record::<
            Seq<u8>,
            Seq<char>,
        >::Entry(Some(addr)),
{
    law_hex_numbers(bank, upper);
    lemma_plain_hex2(bank);
    lemma_plain_hex4(upper);
    lemma_wide_entry('8', 4, hex2(bank), addr, sum);
    lemma_wide_entry('7', 5, hex4(upper), addr, sum);
    assert(seq!['S', '8'] + hex2(4) + hex2(bank) + hex4(addr) + hex2(sum) =~= seq!['S', '8', '0', '4']
        + hex2(bank) + hex4(addr) + hex2(sum));
    assert(seq!['S', '7'] + hex2(5) + hex4(upper) + hex4(addr) + hex2(sum) =~= seq![
        'S',
        '7',
        '0',
        '5',
    ] + hex4(upper) + hex4(addr) + hex2(sum));
}

proof fn lemma_wide_entry(kind: char, count: u8, high: Seq<char>, addr: u16, sum: u8)
    requires
        kind == '8' || kind == '7',
        high.len() == (if kind == '8' {
            2int
        } else {
            4
        }),
        forall|i: int|
            0 <= i < high.len() ==> plain(#[trigger] high[i]) && digit_value(high[i]) < 16,
        high[0] != '+',
        number(high, 16) <= 0xFFFF,
    ensures
        record(seq!['S', kind] + hex2(count) + high + hex4(addr) + hex2(sum)) == Record::<
            Seq<u8>,
            Seq<char>,
        >::Entry(Some(addr)),
{
    let s = seq!['S', kind] + hex2(count) + high + hex4(addr) + hex2(sum);
    let w = high.len() as int;
    assert(s.len() == 10 + w);
    assert(s[0] == 'S' && s[1] == kind);
    assert(s.subrange(2, 4) =~= hex2(count));
    assert(s.subrange(4, 8 + w) =~= high + hex4(addr));
    lemma_plain_hex2(count);
    lemma_plain_hex2(sum);
    lemma_plain_hex4(addr);
    assert forall|i: int| 0 <= i < s.len() implies plain(#[trigger] s[i]) by {
        if i < 2 {
        } else if i < 4 {
            assert(s[i] == hex2(count)[i - 2]);
        } else if i < 4 + w {
            assert(s[i] == high[i - 4]);
        } else if i < 8 + w {
            assert(s[i] == hex4(addr)[i - 4 - w]);
        } else {
            assert(s[i] == hex2(sum)[i - 8 - w]);
        }
    }
    lemma_plain_line(s);
    lemma_hex2(s.subrange(2, 4), count);
    lemma_address(s, 4, high, addr);
    assert((number(high, 16) * 65536 + addr) % 65536 == addr);
}

/// What makes a line malformed: it does not begin with `S`, is too short for a
/// count, or says a count that is none, that is more than the line holds, or
/// that has no room for address and checksum. A blank line and a record of
/// another kind hold nothing.
pub proof fn law_malformed_records(line: Seq<char>)
    ensures
        ({
            let t = trimmed(line);
            let b = cells(t);
            let n = unsigned(b.subrange(2, 4), 16, 255);
            let width = if b[1] == '1' {
                2int
            } else if b[1] == '2' {
                3
            } else {
                4
            };
            let data = b[1] == '1' || b[1] == '2' || b[1] == '3';
            &&& t.len() == 0 ==> record(line) is Skip
            &&& t.len() > 0 && t[0] != 'S' ==> record(line) is Bad
            &&& t.len() > 0 && b.len() < 4 ==> record(line) is Bad
            &&& t.len() > 0 && n is None ==> record(line) is Bad
            &&& t.len() > 0 && data && n is Some && b.len() < 4 + 2 * n->0 ==> record(line) is Bad
            &&& t.len() > 0 && data && n is Some && n->0 < width + 1 ==> record(line) is Bad
            &&& t.len() > 0 && t[0] == 'S' && b.len() >= 4 && n is Some && (b[1] == '0' || b[1] == '5')
                ==> record(line) is Skip
        }),
{
}

/// A file is read without an error exactly where no line of it is malformed.
pub proof fn law_file_errors(
    lines: Seq<Seq<char>>,
    i: int,
    blocks: Seq<(u16, Seq<u8>)>,
    entry: Option<u16>,
)
    requires
        0 <= i <= lines.len(),
    ensures
        srec_from(lines, i, blocks, entry).error is None <==> forall|k: int|
            i <= k < lines.len() ==> !(#[trigger] record(lines[k]) is Bad),
    decreases lines.len() - i,
{
    if i < lines.len() {
        match record(lines[i]) {
            Record::Skip => law_file_errors(lines, i + 1, blocks, entry),
            Record::Block(a, v) => law_file_errors(lines, i + 1, blocks.push((a, v)), entry),
            Record::Entry(e) => law_file_errors(lines, i + 1, blocks, e),
            Record::Bad(t) => {},
        }
    }
}

/// A line at the end of a file adds its block, or takes the place of the entry
/// point, and leaves what stands before it as it is.
pub proof fn law_last_line(
    lines: Seq<Seq<char>>,
    last: Seq<char>,
    i: int,
    blocks: Seq<(u16, Seq<u8>)>,
    entry: Option<u16>,
)
    requires
        0 <= i <= lines.len(),
        srec_from(lines, i, blocks, entry).error is None,
    ensures
        ({
            let before = srec_from(lines, i, blocks, entry);
            let after = srec_from(lines.push(last), i, blocks, entry);
            &&& record(last) is Skip ==> after == before
            &&& record(last) matches Record::Block(a, v) ==> after.blocks == before.blocks.push((a, v))
                && after.entry == before.entry
            &&& record(last) matches Record::Entry(e) ==> after.entry == e && after.blocks
                == before.blocks
            &&& record(last) is Bad ==> after.error is Some
        }),
    decreases lines.len() - i,
{
    let all = lines.push(last);
    if i < lines.len() {
        assert(all[i] == lines[i]);
        match record(lines[i]) {
            Record::Skip => law_last_line(lines, last, i + 1, blocks, entry),
            Record::Block(a, v) => law_last_line(lines, last, i + 1, blocks.push((a, v)), entry),
            Record::Entry(e) => law_last_line(lines, last, i + 1, blocks, e),
            Record::Bad(t) => {},
        }
    } else {
        assert(all[i] == last);
        reveal_with_fuel(srec_from, 2);
    }
}

/// The first malformed line of a file ends it; the message says which line it
/// is, counted from 1, and what is wrong with it.
pub proof fn law_malformed_line(
    lines: Seq<Seq<char>>,
    i: int,
    k: int,
    blocks: Seq<(u16, Seq<u8>)>,
    entry: Option<u16>,
)
    requires
        0 <= i <= k < lines.len(),
        record(lines[k]) is Bad,
        forall|j: int| i <= j < k ==> !(#[trigger] record(lines[j]) is Bad),
    ensures
        ({
            let t = srec_from(lines, i, blocks, entry).error;
            t is Some && about_line(t->0, (k + 1) as nat, record(lines[k])->Bad_0)
        }),
    decreases k - i,
{
    if i < k {
        match record(lines[i]) {
            Record::Skip => law_malformed_line(lines, i + 1, k, blocks, entry),
            Record::Block(a, v) => law_malformed_line(lines, i + 1, k, blocks.push((a, v)), entry),
            Record::Entry(e) => law_malformed_line(lines, i + 1, k, blocks, e),
            Record::Bad(t) => {},
        }
    } else {
        lemma_about_line((k + 1) as nat, Seq::empty(), record(lines[k])->Bad_0);
    }
}

} // verus!
