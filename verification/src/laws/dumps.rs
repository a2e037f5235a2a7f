//! What the debugger shows of registers and memory.

use crate::alu::offset;
use crate::bus::{Bus, Memory};
use crate::cpu::Registers;
use crate::debug::{
    dumped, dumped_bytes, flags_text, printable, read_row, registers_text, row_bytes, row_text,
};
use crate::laws::addressing::law_flag_bits;
use crate::text::{hex2, hex4};
use vstd::prelude::*;

verus! {

/// The flags are shown from E down to C: a letter where the bit is set, a dash
/// where it is not.
pub proof fn law_flags_shown(cc: u8)
    ensures
        ({
            let show = |on: bool, c: char|
                if on {
                    c
                } else {
                    '-'
                };
            flags_text(cc) == seq![
                show(cc / 128 == 1, 'E'),
                show(cc / 64 % 2 == 1, 'F'),
                show(cc / 32 % 2 == 1, 'H'),
                show(cc / 16 % 2 == 1, 'I'),
                show(cc / 8 % 2 == 1, 'N'),
                show(cc / 4 % 2 == 1, 'Z'),
                show(cc / 2 % 2 == 1, 'V'),
                show(cc % 2 == 1, 'C'),
            ]
        }),
{
    law_flag_bits(cc);
    reveal_strlit("E");
    reveal_strlit("F");
    reveal_strlit("H");
    reveal_strlit("I");
    reveal_strlit("N");
    reveal_strlit("Z");
    reveal_strlit("V");
    reveal_strlit("C");
    reveal_strlit("-");
}

/// Each register stands behind its name, bytes with two digits and words with
/// four.
pub proof fn law_registers_shown(r: Registers)
    ensures
        ({
            let t = registers_text(r);
            &&& t.subrange(0, 4) == seq!['A', ':'] + hex2(r.a)
            &&& t.subrange(4, 9) == seq![' ', 'B', ':'] + hex2(r.b)
            &&& t.subrange(9, 16) == seq![' ', 'X', ':'] + hex4(r.x)
            &&& t.subrange(16, 23) == seq![' ', 'Y', ':'] + hex4(r.y)
            &&& t.subrange(23, 30) == seq![' ', 'U', ':'] + hex4(r.u)
            &&& t.subrange(30, 37) == seq![' ', 'S', ':'] + hex4(r.s)
            &&& t.subrange(37, 45) == seq![' ', 'P', 'C', ':'] + hex4(r.pc)
            &&& t.subrange(45, 51) == seq![' ', 'D', 'P', ':'] + hex2(r.dp)
            &&& t.subrange(51, 57) == seq![' ', 'C', 'C', ':'] + hex2(r.cc)
            &&& t.subrange(t.len() - 8, t.len() as int) == flags_text(r.cc)
        }),
{
    law_flags_shown(r.cc);
    reveal_strlit("A:");
    reveal_strlit(" B:");
    reveal_strlit(" X:");
    reveal_strlit(" Y:");
    reveal_strlit(" U:");
    reveal_strlit(" S:");
    reveal_strlit(" PC:");
    reveal_strlit(" DP:");
    reveal_strlit(" CC:");
    reveal_strlit(" (E F H I N Z V C) = ");
    let p = seq![
        "A:"@ + hex2(r.a),
        " B:"@ + hex2(r.b),
        " X:"@ + hex4(r.x),
        " Y:"@ + hex4(r.y),
        " U:"@ + hex4(r.u),
        " S:"@ + hex4(r.s),
        " PC:"@ + hex4(r.pc),
        " DP:"@ + hex2(r.dp),
        " CC:"@ + hex2(r.cc),
        " (E F H I N Z V C) = "@ + flags_text(r.cc),
    ];
    let p1 = p[0] + p[1];
    let p2 = p1 + p[2];
    let p3 = p2 + p[3];
    let p4 = p3 + p[4];
    let p5 = p4 + p[5];
    let p6 = p5 + p[6];
    let p7 = p6 + p[7];
    let p8 = p7 + p[8];
    lemma_joined(p[0], " B:"@, hex2(r.b));
    lemma_joined(p1, " X:"@, hex4(r.x));
    lemma_joined(p2, " Y:"@, hex4(r.y));
    lemma_joined(p3, " U:"@, hex4(r.u));
    lemma_joined(p4, " S:"@, hex4(r.s));
    lemma_joined(p5, " PC:"@, hex4(r.pc));
    lemma_joined(p6, " DP:"@, hex2(r.dp));
    lemma_joined(p7, " CC:"@, hex2(r.cc));
    lemma_joined(p8, " (E F H I N Z V C) = "@, flags_text(r.cc));
    lemma_registers(p, registers_text(r));
    assert("A:"@ =~= seq!['A', ':']);
    assert(" B:"@ =~= seq![' ', 'B', ':']);
    assert(" X:"@ =~= seq![' ', 'X', ':']);
    assert(" Y:"@ =~= seq![' ', 'Y', ':']);
    assert(" U:"@ =~= seq![' ', 'U', ':']);
    assert(" S:"@ =~= seq![' ', 'S', ':']);
    assert(" PC:"@ =~= seq![' ', 'P', 'C', ':']);
    assert(" DP:"@ =~= seq![' ', 'D', 'P', ':']);
    assert(" CC:"@ =~= seq![' ', 'C', 'C', ':']);
    let t = registers_text(r);
    let last = " (E F H I N Z V C) = "@ + flags_text(r.cc);
    assert(t.subrange(57, 86) == last);
    assert(t.subrange(78, 86) =~= t.subrange(57, 86).subrange(21, 29));
    assert(last.subrange(21, 29) =~= flags_text(r.cc));
}

proof fn lemma_joined(a: Seq<char>, b: Seq<char>, c: Seq<char>)
    ensures
        a + b + c == a + (b + c),
{
    assert(a + b + c =~= a + (b + c));
}

proof fn lemma_registers(p: Seq<Seq<char>>, t: Seq<char>)
    requires
        p.len() == 10,
        p[0].len() == 4,
        p[1].len() == 5,
        p[2].len() == 7,
        p[3].len() == 7,
        p[4].len() == 7,
        p[5].len() == 7,
        p[6].len() == 8,
        p[7].len() == 6,
        p[8].len() == 6,
        p[9].len() == 29,
        t == p[0] + p[1] + p[2] + p[3] + p[4] + p[5] + p[6] + p[7] + p[8] + p[9],
    ensures
        t.len() == 86,
        t.subrange(0, 4) == p[0],
        t.subrange(4, 9) == p[1],
        t.subrange(9, 16) == p[2],
        t.subrange(16, 23) == p[3],
        t.subrange(23, 30) == p[4],
        t.subrange(30, 37) == p[5],
        t.subrange(37, 45) == p[6],
        t.subrange(45, 51) == p[7],
        t.subrange(51, 57) == p[8],
        t.subrange(57, 86) == p[9],
{
    assert(t.subrange(0, 4) =~= p[0]);
    assert(t.subrange(4, 9) =~= p[1]);
    assert(t.subrange(9, 16) =~= p[2]);
    assert(t.subrange(16, 23) =~= p[3]);
    assert(t.subrange(23, 30) =~= p[4]);
    assert(t.subrange(30, 37) =~= p[5]);
    assert(t.subrange(37, 45) =~= p[6]);
    assert(t.subrange(45, 51) =~= p[7]);
    assert(t.subrange(51, 57) =~= p[8]);
    assert(t.subrange(57, 86) =~= p[9]);
}

/// A printable ASCII character shows as itself, any other byte as a dot.
pub proof fn law_printable(b: u8)
    ensures
        32 <= b < 127 ==> printable(b) as int == b,
        b < 32 || b >= 127 ==> printable(b) == '.',
{
}

proof fn lemma_row_bytes(bytes: Seq<u8>, i: int)
    requires
        0 <= i < bytes.len(),
    ensures
        row_bytes(bytes).len() == 3 * bytes.len(),
        row_bytes(bytes)[3 * i] == ' ',
        row_bytes(bytes).subrange(3 * i + 1, 3 * i + 3) == hex2(bytes[i]),
    decreases bytes.len(),
{
    reveal_strlit(" ");
    let front = bytes.drop_last();
    if front.len() == 0 {
        assert(row_bytes(front) =~= Seq::<char>::empty());
    } else {
        lemma_row_bytes(
            front,
            if i < front.len() {
                i
            } else {
                0
            },
        );
    }
    let t = row_bytes(bytes);
    assert(t == row_bytes(front) + " "@ + hex2(bytes.last()));
    if i < front.len() {
        assert(t.subrange(3 * i + 1, 3 * i + 3) =~= row_bytes(front).subrange(
            3 * i + 1,
            3 * i + 3,
        ));
    } else {
        assert(t.subrange(3 * i + 1, 3 * i + 3) =~= hex2(bytes.last()));
    }
}

/// A line of a dump: the address, and each byte behind a blank, with two
/// digits; the characters follow at the same place in every line.
pub proof fn law_dump_row(addr: u16, bytes: Seq<u8>, i: int)
    requires
        0 <= i < bytes.len() <= 16,
    ensures
        ({
            let plain = row_text(addr, bytes, false);
            let full = row_text(addr, bytes, true);
            &&& plain.len() == 5 + 3 * bytes.len()
            &&& plain.subrange(0, 5) == hex4(addr).push(':')
            &&& plain[5 + 3 * i] == ' '
            &&& plain.subrange(6 + 3 * i, 8 + 3 * i) == hex2(bytes[i])
            &&& full.len() == 57 + bytes.len()
            &&& full.subrange(0, 5 + 3 * bytes.len() as int) == plain
            &&& full[55] == '|' && full[56 + bytes.len() as int] == '|'
            &&& full[56 + i] == printable(bytes[i])
        }),
{
    reveal_strlit(":");
    reveal_strlit("  |");
    reveal_strlit("|");
    lemma_row_bytes(bytes, i);
    let plain = row_text(addr, bytes, false);
    let full = row_text(addr, bytes, true);
    let b = row_bytes(bytes);
    assert(plain == hex4(addr) + ":"@ + b);
    assert(plain.subrange(0, 5) =~= hex4(addr).push(':'));
    assert(plain[5 + 3 * i] == b[3 * i]);
    assert(plain.subrange(6 + 3 * i, 8 + 3 * i) =~= b.subrange(3 * i + 1, 3 * i + 3));
    assert(full.subrange(0, 5 + 3 * bytes.len() as int) =~= plain);
}

/// `n` bytes of memory from an address on, round the top of the address space.
pub open spec fn memory_row(m: Seq<u8>, addr: int, n: int) -> Seq<u8> {
    Seq::new(n as nat, |j: int| m[(addr + j) % 65536])
}

proof fn lemma_read_row(m: Seq<u8>, addr: u16, n: int, k: int)
    requires
        0 <= k <= n,
        m.len() == 65536,
    ensures
        read_row::<Memory>(m, addr, n, memory_row(m, addr as int, k)) == (
            memory_row(m, addr as int, n),
            m,
        ),
    decreases n - k,
{
    let acc = memory_row(m, addr as int, k);
    if k < n {
        let at = offset(addr, k);
        assert(at == (addr + k) % 65536);
        assert(acc.push(Memory::read_val(m, at)) =~= memory_row(m, addr as int, k + 1));
        lemma_read_row(m, addr, n, k + 1);
    }
}

/// The first line of a dump, and those behind it.
proof fn lemma_dump_row(m: Seq<u8>, addr: u16, left: int, ascii: bool)
    requires
        m.len() == 65536,
        left > 0,
    ensures
        ({
            let n = if left < 16 {
                left
            } else {
                16
            };
            let (rest, t) = dumped::<Memory>(m, offset(addr, n), left - n, ascii);
            dumped::<Memory>(m, addr, left, ascii) == (
                seq![row_text(addr, memory_row(m, addr as int, n), ascii)] + rest,
                t,
            )
        }),
{
    let n = if left < 16 {
        left
    } else {
        16
    };
    lemma_read_row(m, addr, n, 0);
    assert(memory_row(m, addr as int, 0) =~= Seq::<u8>::empty());
}

proof fn lemma_rows_apart(addr: u16, i: int)
    requires
        i >= 1,
    ensures
        (offset(addr, 16) + 16 * (i - 1)) % 65536 == (addr + 16 * i) % 65536,
{
}

/// A dump has a line for each sixteen bytes, and one for the rest; it goes on
/// from line to line, round the top of the address space, and changes no
/// memory.
pub proof fn law_dump_lines(m: Seq<u8>, addr: u16, left: int, ascii: bool, i: int)
    requires
        m.len() == 65536,
        0 <= i,
        16 * i < left,
    ensures
        ({
            let (lines, t) = dumped::<Memory>(m, addr, left, ascii);
            let n = if left - 16 * i < 16 {
                left - 16 * i
            } else {
                16
            };
            let from = ((addr + 16 * i) % 65536) as u16;
            &&& t == m
            &&& lines.len() == (left + 15) / 16
            &&& lines[i] == row_text(from, memory_row(m, from as int, n), ascii)
        }),
    decreases left,
{
    lemma_dump_row(m, addr, left, ascii);
    if left > 16 {
        let j = if i > 0 {
            i - 1
        } else {
            0
        };
        let next = offset(addr, 16);
        law_dump_lines(m, next, left - 16, ascii, j);
        let rest = dumped::<Memory>(m, next, left - 16, ascii).0;
        let lines = dumped::<Memory>(m, addr, left, ascii).0;
        if i > 0 {
            lemma_rows_apart(addr, i);
            assert(lines[i] == rest[i - 1]);
        }
    } else {
        let n = if left < 16 {
            left
        } else {
            16
        };
        assert(dumped::<Memory>(m, offset(addr, n), 0, ascii) == (Seq::<Seq<char>>::empty(), m));
    }
}

/// A dump of given bytes has the same lines, without the characters.
pub proof fn law_dump_of_bytes(addr: int, bytes: Seq<u8>, i: int)
    requires
        0 <= addr,
        addr + bytes.len() <= 65536,
        0 <= i,
        16 * i < bytes.len(),
    ensures
        ({
            let lines = dumped_bytes(addr, bytes);
            let end = if bytes.len() - 16 * i < 16 {
                bytes.len() as int
            } else {
                16 * i + 16
            };
            &&& lines.len() == (bytes.len() + 15) / 16
            &&& lines[i] == row_text((addr + 16 * i) as u16, bytes.subrange(16 * i, end), false)
        }),
    decreases bytes.len(),
{
    let n = if bytes.len() < 16 {
        bytes.len() as int
    } else {
        16
    };
    let rest = dumped_bytes(addr + n, bytes.skip(n));
    if bytes.len() > 16 {
        law_dump_of_bytes(
            addr + 16,
            bytes.skip(16),
            if i > 0 {
                i - 1
            } else {
                0
            },
        );
    } else {
        assert(rest =~= Seq::<Seq<char>>::empty());
    }
    let lines = dumped_bytes(addr, bytes);
    assert(lines == seq![row_text(addr as u16, bytes.take(n), false)] + rest);
    if i == 0 {
        assert(bytes.take(n) =~= bytes.subrange(0, n));
    } else {
        let end = if bytes.len() - 16 * i < 16 {
            bytes.len() as int
        } else {
            16 * i + 16
        };
        assert(lines[i] == rest[i - 1]);
        assert(bytes.skip(16).subrange(16 * (i - 1), end - 16) =~= bytes.subrange(16 * i, end));
    }
}

} // verus!
