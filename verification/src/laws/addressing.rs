//! Where operands stand: addresses in plain arithmetic on the bytes of the
//! program and the registers.

use crate::alu::{flag, high, low, offset, signed16, signed8, with_flag, word, C, E, F, H, I, N, V, Z};
use crate::bus::Memory;
use crate::cpu::isa::Mode;
use crate::cpu::machine::{index_reg, signed5, with_index_reg, IndexDesc, Mach};
use crate::cpu::Registers;
use vstd::prelude::*;

verus! {

/// The byte of a memory at an address, which wraps round.
pub open spec fn byte_of(m: Seq<u8>, addr: int) -> int {
    m[addr % 65536] as int
}

/// The word of a memory at an address, high byte first.
pub open spec fn word_of(m: Seq<u8>, addr: int) -> int {
    256 * byte_of(m, addr) + byte_of(m, addr + 1)
}

/// Whether `n` is the two's-complement number that a byte stands for.
pub open spec fn is_signed8(n: int, byte: int) -> bool {
    -128 <= n <= 127 && (n - byte) % 256 == 0
}

/// Whether `n` is the two's-complement number that a word stands for.
pub open spec fn is_signed16(n: int, w: int) -> bool {
    -32768 <= n <= 32767 && (n - w) % 65536 == 0
}

/// Whether `n` is the two's-complement number in the low five bits of a byte.
pub open spec fn is_signed5(n: int, byte: int) -> bool {
    -16 <= n <= 15 && (n - byte) % 32 == 0
}

/// A byte, a word and its halves, and an address a distance away, in plain
/// arithmetic; numbers with sign are those of two's complement.
pub proof fn law_bytes_and_words(hi: u8, lo: u8, w: u16, d: int)
    ensures
        word(hi, lo) == 256 * hi + lo,
        w == 256 * high(w) + low(w),
        offset(w, d) == (w + d) % 65536,
        is_signed8(signed8(lo), lo as int),
        is_signed16(signed16(w), w as int),
        signed8(lo) < 0 <==> lo >= 128,
        signed16(w) < 0 <==> w >= 32768,
{
}

/// The flags are the bits of the condition codes, from the carry in bit 0 on:
/// C, V, Z, N, I, H, F, E.
pub proof fn law_flag_bits(cc: u8)
    ensures
        flag(cc, C) == (cc % 2 == 1),
        flag(cc, V) == (cc / 2 % 2 == 1),
        flag(cc, Z) == (cc / 4 % 2 == 1),
        flag(cc, N) == (cc / 8 % 2 == 1),
        flag(cc, I) == (cc / 16 % 2 == 1),
        flag(cc, H) == (cc / 32 % 2 == 1),
        flag(cc, F) == (cc / 64 % 2 == 1),
        flag(cc, E) == (cc / 128 % 2 == 1),
{
    assert((cc & 0x01 != 0) == (cc % 2 == 1) && (cc & 0x02 != 0) == (cc / 2 % 2 == 1) && (cc & 0x04
        != 0) == (cc / 4 % 2 == 1) && (cc & 0x08 != 0) == (cc / 8 % 2 == 1) && (cc & 0x10 != 0) == (
    cc / 16 % 2 == 1) && (cc & 0x20 != 0) == (cc / 32 % 2 == 1) && (cc & 0x40 != 0) == (cc / 64 % 2
        == 1) && (cc & 0x80 != 0) == (cc / 128 % 2 == 1)) by (bit_vector);
}

/// Setting or clearing a flag changes that bit of the condition codes and no
/// other.
pub proof fn law_one_flag(cc: u8, bit: u8, on: bool, other: u8)
    requires
        bit != 0,
        bit & other == 0,
    ensures
        flag(with_flag(cc, bit, on), bit) == on,
        flag(with_flag(cc, bit, on), other) == flag(cc, other),
        with_flag(cc, bit, on) & !bit == cc & !bit,
{
    assert((cc | bit) & bit != 0 && (cc & !bit) & bit == 0) by (bit_vector)
        requires
            bit != 0,
    ;
    assert((cc | bit) & other == cc & other && (cc & !bit) & other == cc & other && (cc | bit)
        & !bit == cc & !bit && (cc & !bit) & !bit == cc & !bit) by (bit_vector)
        requires
            bit & other == 0,
    ;
}

/// The register that a postbyte names in its bits 5 and 6: X, Y, U, S.
pub open spec fn named_register(r: Registers, pb: int) -> int {
    if pb / 32 % 4 == 0 {
        r.x as int
    } else if pb / 32 % 4 == 1 {
        r.y as int
    } else if pb / 32 % 4 == 2 {
        r.u as int
    } else {
        r.s as int
    }
}

/// Registers that differ from `r` in PC alone, which is `n` further.
pub open spec fn moved_on(r: Registers, n: int, after: Registers) -> bool {
    after == (Registers { pc: after.pc, ..r }) && after.pc == (r.pc + n) % 65536
}

/// What an indexed operand comes to: its address, that of a pointer to it where
/// `indirect`, and the cycles that it adds.
pub open spec fn comes_to(
    s: Mach<Memory>,
    addr: int,
    indirect: bool,
    cycles: int,
    bytes: int,
) -> bool {
    let (ea, extra, desc, t) = s.ea_indexed();
    &&& ea == if indirect {
        word_of(s.m, addr)
    } else {
        addr % 65536
    }
    &&& extra == cycles + if indirect {
        3int
    } else {
        0
    }
    &&& moved_on(s.r, bytes, t.r)
    &&& t.m == s.m
}

proof fn lemma_word(s: Mach<Memory>, a: u16)
    ensures
        s.read16(a) == (word_of(s.m, a as int) as u16, s),
        0 <= word_of(s.m, a as int) < 65536,
{
    assert(a as int % 65536 == a);
    assert(offset(a, 1) == (a + 1) % 65536);
}

proof fn lemma_wrapped(m: Seq<u8>, a: int)
    ensures
        word_of(m, a % 65536) == word_of(m, a),
{
    assert((a + 1) % 65536 == (a % 65536 + 1) % 65536);
}

proof fn lemma_indexed_at(s: Mach<Memory>, addr: int, indirect: bool, extra: u32, desc: IndexDesc)
    requires
        extra < 10,
    ensures
        ({
            let (ea, cycles, d, t) = s.indexed_at((addr % 65536) as u16, indirect, extra, desc);
            &&& t == s
            &&& ea == if indirect {
                word_of(s.m, addr)
            } else {
                addr % 65536
            }
            &&& cycles == extra + if indirect {
                3int
            } else {
                0
            }
        }),
{
    lemma_word(s, (addr % 65536) as u16);
    lemma_wrapped(s.m, addr);
}

proof fn lemma_signed(n: int, b: u8, w: u16)
    ensures
        is_signed8(n, b as int) ==> n == signed8(b),
        is_signed16(n, w as int) ==> n == signed16(w),
{
}

proof fn lemma_signed5(n: int, pb: u8)
    requires
        pb < 128,
        is_signed5(n, pb as int),
    ensures
        n == signed5(pb % 32),
{
}

proof fn lemma_form_5_bit(s: Mach<Memory>)
    requires
        s.m[s.r.pc as int] < 128,
    ensures
        ({
            let pb = s.m[s.r.pc as int];
            let (ea, extra, desc, t) = s.ea_indexed();
            &&& ea == offset(index_reg(s.r, pb / 32 % 4), signed5(pb % 32))
            &&& extra == 0
            &&& t == s.fetch8().1
        }),
{
    reveal(Mach::ea_indexed);
}

/// An indexed operand with a 5-bit offset stands that far from the register,
/// backwards where the offset is negative. `s` stands at the postbyte.
pub proof fn law_indexed_5_bit(s: Mach<Memory>, n: int)
    requires
        s.m[s.r.pc as int] < 128,
        is_signed5(n, s.m[s.r.pc as int] as int),
    ensures
        comes_to(s, named_register(s.r, s.m[s.r.pc as int] as int) + n, false, 0, 1),
{
    lemma_form_5_bit(s);
    lemma_signed5(n, s.m[s.r.pc as int]);
    lemma_places(s.r.pc);
}

proof fn lemma_forms_8_bit(s: Mach<Memory>)
    requires
        s.m[s.r.pc as int] >= 128,
        s.m[s.r.pc as int] % 16 == 8 || s.m[s.r.pc as int] % 16 == 12,
    ensures
        ({
            let pb = s.m[s.r.pc as int];
            let (b, t) = s.fetch8().1.fetch8();
            let base = if pb % 16 == 8 {
                named_register(s.r, pb as int)
            } else {
                t.r.pc as int
            };
            let at = t.indexed_at(
                ((base + signed8(b)) % 65536) as u16,
                pb / 16 % 2 == 1,
                1,
                s.ea_indexed().2,
            );
            s.ea_indexed() == at
        }),
{
    reveal(Mach::ea_indexed);
}

proof fn lemma_places(pc: u16)
    ensures
        offset(pc, 1) == (pc + 1) % 65536,
        offset(offset(pc, 1), 1) == (pc + 2) % 65536,
        offset(offset(offset(pc, 1), 1), 1) == (pc + 3) % 65536,
{
}

/// An indexed operand with an 8-bit offset: the byte behind the postbyte is a
/// number with sign, which is added to the register, or to the address behind
/// the operand in the forms relative to PC.
pub proof fn law_indexed_8_bit(s: Mach<Memory>, n: int)
    requires
        s.m[s.r.pc as int] >= 128,
        s.m[s.r.pc as int] % 16 == 8 || s.m[s.r.pc as int] % 16 == 12,
        is_signed8(n, byte_of(s.m, s.r.pc + 1)),
    ensures
        ({
            let pb = s.m[s.r.pc as int] as int;
            let base = if pb % 16 == 8 {
                named_register(s.r, pb)
            } else {
                s.r.pc + 2
            };
            comes_to(s, base + n, pb / 16 % 2 == 1, 1, 2)
        }),
{
    let pb = s.m[s.r.pc as int];
    let (b, t) = s.fetch8().1.fetch8();
    lemma_forms_8_bit(s);
    lemma_places(s.r.pc);
    lemma_signed(n, b, 0);
    let desc = s.ea_indexed().2;
    if pb % 16 == 8 {
        lemma_indexed_at(t, named_register(s.r, pb as int) + n, pb / 16 % 2 == 1, 1, desc);
    } else {
        lemma_indexed_at(t, s.r.pc + 2 + n, pb / 16 % 2 == 1, 1, desc);
        assert((t.r.pc + n) % 65536 == (s.r.pc + 2 + n) % 65536);
    }
}

proof fn lemma_forms_16_bit(s: Mach<Memory>)
    requires
        s.m[s.r.pc as int] >= 128,
        s.m[s.r.pc as int] % 16 == 9 || s.m[s.r.pc as int] % 16 == 13,
    ensures
        ({
            let pb = s.m[s.r.pc as int];
            let (w, t) = s.fetch8().1.fetch16();
            let base = if pb % 16 == 9 {
                named_register(s.r, pb as int)
            } else {
                t.r.pc as int
            };
            let at = t.indexed_at(
                ((base + signed16(w)) % 65536) as u16,
                pb / 16 % 2 == 1,
                if pb % 16 == 9 {
                    2
                } else {
                    5
                },
                s.ea_indexed().2,
            );
            s.ea_indexed() == at
        }),
{
    reveal(Mach::ea_indexed);
}

/// The same with a 16-bit offset.
pub proof fn law_indexed_16_bit(s: Mach<Memory>, n: int)
    requires
        s.m[s.r.pc as int] >= 128,
        s.m[s.r.pc as int] % 16 == 9 || s.m[s.r.pc as int] % 16 == 13,
        is_signed16(n, word_of(s.m, s.r.pc + 1)),
    ensures
        ({
            let pb = s.m[s.r.pc as int] as int;
            if pb % 16 == 9 {
                comes_to(s, named_register(s.r, pb) + n, pb / 16 % 2 == 1, 2, 3)
            } else {
                comes_to(s, s.r.pc + 3 + n, pb / 16 % 2 == 1, 5, 3)
            }
        }),
{
    let pb = s.m[s.r.pc as int];
    let (w, t) = s.fetch8().1.fetch16();
    lemma_forms_16_bit(s);
    lemma_places(s.r.pc);
    assert(w == word_of(s.m, s.r.pc + 1));
    lemma_signed(n, 0, w);
    let desc = s.ea_indexed().2;
    if pb % 16 == 9 {
        lemma_indexed_at(t, named_register(s.r, pb as int) + n, pb / 16 % 2 == 1, 2, desc);
    } else {
        lemma_indexed_at(t, s.r.pc + 3 + n, pb / 16 % 2 == 1, 5, desc);
        assert((t.r.pc + n) % 65536 == (s.r.pc + 3 + n) % 65536);
    }
}

proof fn lemma_form_accumulator(s: Mach<Memory>)
    requires
        s.m[s.r.pc as int] >= 128,
    ensures
        ({
            let pb = s.m[s.r.pc as int];
            let f = s.fetch8().1;
            let base = index_reg(f.r, pb / 32 % 4);
            let i = pb / 16 % 2 == 1;
            let desc = s.ea_indexed().2;
            let (a, b) = (signed8(s.r.a), signed8(s.r.b));
            let d = signed16(word(s.r.a, s.r.b));
            &&& pb % 16 == 4 ==> s.ea_indexed() == f.indexed_at(base, i, 0, desc)
            &&& pb % 16 == 5 ==> s.ea_indexed() == f.indexed_at(offset(base, b), i, 0, desc)
            &&& pb % 16 == 6 ==> s.ea_indexed() == f.indexed_at(offset(base, a), i, 0, desc)
            &&& pb % 16 == 11 ==> s.ea_indexed() == f.indexed_at(offset(base, d), i, 1, desc)
        }),
{
    reveal(Mach::ea_indexed);
}

proof fn lemma_forms_accumulator(s: Mach<Memory>, n: int)
    requires
        s.m[s.r.pc as int] >= 128,
        ({
            let form = s.m[s.r.pc as int] % 16;
            ||| form == 5 && n == signed8(s.r.b)
            ||| form == 6 && n == signed8(s.r.a)
            ||| form == 11 && n == signed16(word(s.r.a, s.r.b))
            ||| form == 4 && n == 0
        }),
    ensures
        ({
            let pb = s.m[s.r.pc as int];
            let at = s.fetch8().1.indexed_at(
                offset(index_reg(s.r, pb / 32 % 4), n),
                pb / 16 % 2 == 1,
                if pb % 16 == 11 {
                    1
                } else {
                    0
                },
                s.ea_indexed().2,
            );
            s.ea_indexed() == at
        }),
{
    lemma_form_accumulator(s);
    let pb = s.m[s.r.pc as int];
    assert(offset(index_reg(s.r, pb / 32 % 4), 0) == index_reg(s.r, pb / 32 % 4));
}

/// An indexed operand with an accumulator as offset: B or A, a byte with sign,
/// or D, a word with sign; and without any offset.
pub proof fn law_indexed_accumulator(s: Mach<Memory>, n: int)
    requires
        s.m[s.r.pc as int] >= 128,
        ({
            let form = s.m[s.r.pc as int] % 16;
            ||| form == 5 && is_signed8(n, s.r.b as int)
            ||| form == 6 && is_signed8(n, s.r.a as int)
            ||| form == 11 && is_signed16(n, 256 * s.r.a + s.r.b)
            ||| form == 4 && n == 0
        }),
    ensures
        ({
            let pb = s.m[s.r.pc as int] as int;
            comes_to(
                s,
                named_register(s.r, pb) + n,
                pb / 16 % 2 == 1,
                if pb % 16 == 11 {
                    1
                } else {
                    0
                },
                1,
            )
        }),
{
    let pb = s.m[s.r.pc as int];
    lemma_signed(n, s.r.a, word(s.r.a, s.r.b));
    lemma_signed(n, s.r.b, 0);
    lemma_forms_accumulator(s, n);
    lemma_register_steps(s.r, pb, offset(s.r.pc, 1), 0);
    lemma_places(s.r.pc);
    lemma_indexed_at(
        s.fetch8().1,
        named_register(s.r, pb as int) + n,
        pb / 16 % 2 == 1,
        if pb % 16 == 11 {
            1
        } else {
            0
        },
        s.ea_indexed().2,
    );
}

/// An operand through a pointer at a fixed address.
pub proof fn law_indexed_pointer(s: Mach<Memory>)
    requires
        s.m[s.r.pc as int] >= 128,
        s.m[s.r.pc as int] % 16 == 15,
    ensures
        comes_to(s, word_of(s.m, s.r.pc + 1), true, 2, 3),
{
    reveal(Mach::ea_indexed);
    let t = s.fetch8().1;
    let w = t.fetch16().0;
    lemma_word(t.fetch16().1, w);
    lemma_places(s.r.pc);
    assert(w == word_of(s.m, s.r.pc + 1));
}

/// The register that a postbyte names is `v` behind the operand, PC is on, and
/// all others are as they were.
pub open spec fn register_steps(r: Registers, pb: int, v: int, after: Registers) -> bool {
    &&& after.pc == (r.pc + 1) % 65536
    &&& named_register(after, pb) == v % 65536
    &&& after == (Registers { pc: after.pc, x: after.x, y: after.y, u: after.u, s: after.s, ..r })
    &&& pb / 32 % 4 != 0 ==> after.x == r.x
    &&& pb / 32 % 4 != 1 ==> after.y == r.y
    &&& pb / 32 % 4 != 2 ==> after.u == r.u
    &&& pb / 32 % 4 != 3 ==> after.s == r.s
}

/// Operands that step the register: behind the operand by 1 or 2, or before it
/// by 1 or 2. Those of 2 can go through a pointer.
pub proof fn law_indexed_steps(s: Mach<Memory>)
    requires
        s.m[s.r.pc as int] >= 128,
        s.m[s.r.pc as int] % 16 < 4,
    ensures
        ({
            let pb = s.m[s.r.pc as int] as int;
            let base = named_register(s.r, pb);
            let by: int = if pb % 2 == 0 {
                1
            } else {
                2
            };
            let down = pb % 16 >= 2;
            let at = if down {
                base - by
            } else {
                base
            };
            let indirect = pb / 16 % 2 == 1 && by == 2;
            let (ea, extra, desc, t) = s.ea_indexed();
            &&& ea == if indirect {
                word_of(s.m, at)
            } else {
                at % 65536
            }
            &&& extra == by - 1 + if indirect {
                3int
            } else {
                0
            }
            &&& register_steps(
                s.r,
                pb,
                if down {
                    base - by
                } else {
                    base + by
                },
                t.r,
            )
            &&& t.m == s.m
        }),
{
    let pb = s.m[s.r.pc as int] as int;
    let base = named_register(s.r, pb);
    let desc = s.ea_indexed().2;
    lemma_forms_steps(s);
    lemma_places(s.r.pc);
    let t = s.ea_indexed().3;
    lemma_indexed_at(t, base, pb / 16 % 2 == 1, 1, desc);
    lemma_indexed_at(t, base - 2, pb / 16 % 2 == 1, 1, desc);
}

proof fn lemma_form_steps(s: Mach<Memory>)
    requires
        s.m[s.r.pc as int] >= 128,
        s.m[s.r.pc as int] % 16 < 4,
    ensures
        ({
            let pb = s.m[s.r.pc as int];
            let code = pb / 32 % 4;
            let f = s.fetch8().1;
            let base = index_reg(f.r, code);
            let up1 = f.regs(with_index_reg(f.r, code, offset(base, 1)));
            let up2 = f.regs(with_index_reg(f.r, code, offset(base, 2)));
            let down1 = f.regs(with_index_reg(f.r, code, offset(base, -1)));
            let down2 = f.regs(with_index_reg(f.r, code, offset(base, -2)));
            let (ea, extra, desc, t) = s.ea_indexed();
            let i = pb / 16 % 2 == 1;
            &&& pb % 16 == 0 ==> ea == base && extra == 0 && t == up1
            &&& pb % 16 == 1 ==> s.ea_indexed() == up2.indexed_at(base, i, 1, desc)
            &&& pb % 16 == 2 ==> ea == offset(base, -1) && extra == 0 && t == down1
            &&& pb % 16 == 3 ==> s.ea_indexed() == down2.indexed_at(offset(base, -2), i, 1, desc)
        }),
{
    reveal(Mach::ea_indexed);
}

proof fn lemma_register_steps(r: Registers, pb: u8, pc: u16, v: int)
    requires
        pc == (r.pc + 1) % 65536,
    ensures
        register_steps(
            r,
            pb as int,
            v,
            with_index_reg(Registers { pc: pc, ..r }, pb / 32 % 4, (v % 65536) as u16),
        ),
        index_reg(r, pb / 32 % 4) == named_register(r, pb as int),
{
}

proof fn lemma_indexed_at_keeps(s: Mach<Memory>, addr: u16, indirect: bool, desc: IndexDesc)
    ensures
        s.indexed_at(addr, indirect, 1, desc).3 == s,
{
}

proof fn lemma_forms_steps(s: Mach<Memory>)
    requires
        s.m[s.r.pc as int] >= 128,
        s.m[s.r.pc as int] % 16 < 4,
    ensures
        ({
            let pb = s.m[s.r.pc as int];
            let base = named_register(s.r, pb as int);
            let by: int = if pb % 2 == 0 {
                1
            } else {
                2
            };
            let down = pb % 16 >= 2;
            let (ea, extra, desc, t) = s.ea_indexed();
            let at = (if down {
                (base - by) % 65536
            } else {
                base % 65536
            }) as u16;
            &&& t.m == s.m
            &&& register_steps(
                s.r,
                pb as int,
                if down {
                    base - by
                } else {
                    base + by
                },
                t.r,
            )
            &&& by == 1 ==> ea == at && extra == 0
            &&& by == 2 ==> (ea, extra, desc, t) == t.indexed_at(at, pb / 16 % 2 == 1, 1, desc)
        }),
{
    let pb = s.m[s.r.pc as int];
    let code = pb / 32 % 4;
    let f = s.fetch8().1;
    let base = index_reg(f.r, code);
    let desc = s.ea_indexed().2;
    let i = pb / 16 % 2 == 1;
    lemma_form_steps(s);
    lemma_places(s.r.pc);
    let pc = f.r.pc;
    lemma_register_steps(s.r, pb, pc, base + 1);
    lemma_register_steps(s.r, pb, pc, base + 2);
    lemma_register_steps(s.r, pb, pc, base - 1);
    lemma_register_steps(s.r, pb, pc, base - 2);
    lemma_indexed_at_keeps(f.regs(with_index_reg(f.r, code, offset(base, 2))), base, i, desc);
    lemma_indexed_at_keeps(
        f.regs(with_index_reg(f.r, code, offset(base, -2))),
        offset(base, -2),
        i,
        desc,
    );
}

/// The other ways to name a byte of memory: on the direct page, and by its
/// address.
pub proof fn law_direct_and_extended(s: Mach<Memory>)
    ensures
        ({
            let (ea, extra, o, t) = s.ea(Mode::Direct);
            &&& ea == 256 * s.r.dp + s.m[s.r.pc as int]
            &&& extra == 0
            &&& moved_on(s.r, 1, t.r)
            &&& t.m == s.m
        }),
        ({
            let (ea, extra, o, t) = s.ea(Mode::Extended);
            &&& ea == word_of(s.m, s.r.pc as int)
            &&& extra == 0
            &&& moved_on(s.r, 2, t.r)
            &&& t.m == s.m
        }),
        s.ea(Mode::Indexed).0 == s.ea_indexed().0,
        s.ea(Mode::Indexed).1 == s.ea_indexed().1,
        s.ea(Mode::Indexed).3 == s.ea_indexed().3,
{
    assert(s.r.pc as int % 65536 == s.r.pc);
}

} // verus!
