//! Condition-code flags, byte and word arithmetic.

use vstd::prelude::*;

verus! {

/// Entire state was stacked.
pub const E: u8 = 0x80;

/// FIRQ masked.
pub const F: u8 = 0x40;

/// Half carry.
pub const H: u8 = 0x20;

/// IRQ masked.
pub const I: u8 = 0x10;

/// Negative.
pub const N: u8 = 0x08;

/// Zero.
pub const Z: u8 = 0x04;

/// Overflow.
pub const V: u8 = 0x02;

/// Carry, or borrow after a subtraction.
pub const C: u8 = 0x01;

/// Whether a flag is set in `cc`.
pub open spec fn flag(cc: u8, bit: u8) -> bool {
    cc & bit != 0
}

/// `cc` with one flag set or cleared and the others kept.
pub open spec fn with_flag(cc: u8, bit: u8, on: bool) -> u8 {
    if on {
        cc | bit
    } else {
        cc & !bit
    }
}

pub fn has_flag(cc: u8, bit: u8) -> (r: bool)
    ensures
        r == flag(cc, bit),
{
    cc & bit != 0
}

pub fn put_flag(cc: u8, bit: u8, on: bool) -> (r: u8)
    ensures
        r == with_flag(cc, bit, on),
{
    if on {
        cc | bit
    } else {
        cc & !bit
    }
}

/// The word with high byte `hi` and low byte `lo`.
pub open spec fn word(hi: u8, lo: u8) -> u16 {
    (hi * 256 + lo) as u16
}

pub open spec fn high(v: u16) -> u8 {
    (v / 256) as u8
}

pub open spec fn low(v: u16) -> u8 {
    (v % 256) as u8
}

/// A byte as a two's-complement number.
pub open spec fn signed8(v: u8) -> int {
    if v < 0x80 {
        v as int
    } else {
        v - 0x100
    }
}

/// A word as a two's-complement number.
pub open spec fn signed16(v: u16) -> int {
    if v < 0x8000 {
        v as int
    } else {
        v - 0x10000
    }
}

/// The address `d` bytes away from `base`, in the 16-bit address space.
pub open spec fn offset(base: u16, d: int) -> u16 {
    ((base + d) % 0x10000) as u16
}

pub fn make_word(hi: u8, lo: u8) -> (v: u16)
    ensures
        v == word(hi, lo),
{
    hi as u16 * 256 + lo as u16
}

pub fn high_byte(v: u16) -> (b: u8)
    ensures
        b == high(v),
{
    (v / 256) as u8
}

pub fn low_byte(v: u16) -> (b: u8)
    ensures
        b == low(v),
{
    (v % 256) as u8
}

pub fn to_signed8(v: u8) -> (d: i32)
    ensures
        d == signed8(v),
{
    if v < 0x80 {
        v as i32
    } else {
        v as i32 - 0x100
    }
}

pub fn to_signed16(v: u16) -> (d: i32)
    ensures
        d == signed16(v),
{
    if v < 0x8000 {
        v as i32
    } else {
        v as i32 - 0x10000
    }
}

pub fn offset_by(base: u16, d: i32) -> (a: u16)
    requires
        -0x10000 <= d <= 0x10000,
    ensures
        a == offset(base, d as int),
{
    let t: i32 = base as i32 + d;
    if t < 0 {
        (t + 0x10000) as u16
    } else if t >= 0x10000 {
        if t >= 0x20000 {
            (t - 0x20000) as u16
        } else {
            (t - 0x10000) as u16
        }
    } else {
        t as u16
    }
}

/// N and Z after a byte result.
pub open spec fn nz8(cc: u8, v: u8) -> u8 {
    with_flag(with_flag(cc, N, v >= 0x80), Z, v == 0)
}

/// N and Z after a word result.
pub open spec fn nz16(cc: u8, v: u16) -> u8 {
    with_flag(with_flag(cc, N, v >= 0x8000), Z, v == 0)
}

/// N and Z after a byte result, with V cleared: loads, stores and logic.
pub open spec fn logic8(cc: u8, v: u8) -> u8 {
    with_flag(nz8(cc, v), V, false)
}

/// N and Z after a word result, with V cleared: loads and stores.
pub open spec fn logic16(cc: u8, v: u16) -> u8 {
    with_flag(nz16(cc, v), V, false)
}

pub fn set_nz8(cc: u8, v: u8) -> (r: u8)
    ensures
        r == nz8(cc, v),
{
    put_flag(put_flag(cc, N, v >= 0x80), Z, v == 0)
}

pub fn set_nz16(cc: u8, v: u16) -> (r: u8)
    ensures
        r == nz16(cc, v),
{
    put_flag(put_flag(cc, N, v >= 0x8000), Z, v == 0)
}

pub fn logic8_nz_clearv(cc: u8, v: u8) -> (r: u8)
    ensures
        r == logic8(cc, v),
{
    put_flag(set_nz8(cc, v), V, false)
}

pub fn logic16_nz_clearv(cc: u8, v: u16) -> (r: u8)
    ensures
        r == logic16(cc, v),
{
    put_flag(set_nz16(cc, v), V, false)
}

/// The carry flag as a number.
pub open spec fn carry(cc: u8) -> int {
    if flag(cc, C) {
        1
    } else {
        0
    }
}

/// `cc` after an addition or subtraction of bytes with result `res`.
pub open spec fn arith8(cc: u8, res: u8, c: bool, v: bool, h: bool) -> u8 {
    with_flag(with_flag(with_flag(nz8(cc, res), C, c), V, v), H, h)
}

/// `cc` after an addition or subtraction of words with result `res`.
pub open spec fn arith16(cc: u8, res: u16, c: bool, v: bool) -> u8 {
    with_flag(with_flag(nz16(cc, res), C, c), V, v)
}

/// `a + b + cin` on bytes: the result, and the flags N Z V C H.
///
/// C is the carry out of bit 7, H that out of bit 3, and V tells that the sum
/// of the two's-complement operands does not fit in a byte.
pub open spec fn add8(cc: u8, a: u8, b: u8, cin: int) -> (u8, u8) {
    let res = ((a + b + cin) % 256) as u8;
    let s = signed8(a) + signed8(b) + cin;
    (
        res,
        arith8(
            cc,
            res,
            a + b + cin > 255,
            s < -128 || s > 127,
            a as int % 16 + b as int % 16 + cin > 15,
        ),
    )
}

/// `a - b - bin` on bytes: the result, and the flags N Z V C H.
///
/// C is the borrow into bit 7, H that into bit 3, and V tells that the
/// difference of the two's-complement operands does not fit in a byte.
pub open spec fn sub8(cc: u8, a: u8, b: u8, bin: int) -> (u8, u8) {
    let res = ((a - b - bin) % 256) as u8;
    let s = signed8(a) - signed8(b) - bin;
    (
        res,
        arith8(
            cc,
            res,
            a - b - bin < 0,
            s < -128 || s > 127,
            a as int % 16 - b as int % 16 - bin < 0,
        ),
    )
}

/// `a + b` on words: the result, and the flags N Z V C.
pub open spec fn add16(cc: u8, a: u16, b: u16) -> (u16, u8) {
    let res = ((a + b) % 0x10000) as u16;
    let s = signed16(a) + signed16(b);
    (res, arith16(cc, res, a + b > 0xFFFF, s < -0x8000 || s > 0x7FFF))
}

/// `a - b` on words: the result, and the flags N Z V C.
pub open spec fn sub16(cc: u8, a: u16, b: u16) -> (u16, u8) {
    let res = ((a - b) % 0x10000) as u16;
    let s = signed16(a) - signed16(b);
    (res, arith16(cc, res, a < b, s < -0x8000 || s > 0x7FFF))
}

fn set_arith8(cc: u8, res: u8, c: bool, v: bool, h: bool) -> (r: u8)
    ensures
        r == arith8(cc, res, c, v, h),
{
    put_flag(put_flag(put_flag(set_nz8(cc, res), C, c), V, v), H, h)
}

fn set_arith16(cc: u8, res: u16, c: bool, v: bool) -> (r: u8)
    ensures
        r == arith16(cc, res, c, v),
{
    put_flag(put_flag(set_nz16(cc, res), C, c), V, v)
}

fn carry_in(cc: u8) -> (n: u8)
    ensures
        n == carry(cc),
{
    if has_flag(cc, C) {
        1
    } else {
        0
    }
}

fn add8_core(cc: u8, a: u8, b: u8, cin: u8) -> (r: (u8, u8))
    requires
        cin <= 1,
    ensures
        r == add8(cc, a, b, cin as int),
{
    let sum: i32 = a as i32 + b as i32 + cin as i32;
    let res: u8 = (sum % 256) as u8;
    let s: i32 = to_signed8(a) + to_signed8(b) + cin as i32;
    let half: u8 = a % 16 + b % 16 + cin;
    (res, set_arith8(cc, res, sum > 255, s < -128 || s > 127, half > 15))
}

fn sub8_core(cc: u8, a: u8, b: u8, bin: u8) -> (r: (u8, u8))
    requires
        bin <= 1,
    ensures
        r == sub8(cc, a, b, bin as int),
{
    let diff: i32 = a as i32 - b as i32 - bin as i32;
    let res: u8 = if diff < 0 {
        (diff + 256) as u8
    } else {
        diff as u8
    };
    let s: i32 = to_signed8(a) - to_signed8(b) - bin as i32;
    let half: i32 = (a % 16) as i32 - (b % 16) as i32 - bin as i32;
    (res, set_arith8(cc, res, diff < 0, s < -128 || s > 127, half < 0))
}

/// ADD: `a + b`.
pub fn add8_flags(cc: u8, a: u8, b: u8) -> (r: (u8, u8))
    ensures
        r == add8(cc, a, b, 0),
{
    add8_core(cc, a, b, 0)
}

/// ADC: `a + b` and the carry.
pub fn adc8_flags(cc: u8, a: u8, b: u8) -> (r: (u8, u8))
    ensures
        r == add8(cc, a, b, carry(cc)),
{
    add8_core(cc, a, b, carry_in(cc))
}

/// SUB and CMP: `a - b`.
pub fn sub8_flags(cc: u8, a: u8, b: u8) -> (r: (u8, u8))
    ensures
        r == sub8(cc, a, b, 0),
{
    sub8_core(cc, a, b, 0)
}

/// SBC: `a - b` and the carry, which counts as the borrow.
pub fn sbc8_flags(cc: u8, a: u8, b: u8) -> (r: (u8, u8))
    ensures
        r == sub8(cc, a, b, carry(cc)),
{
    sub8_core(cc, a, b, carry_in(cc))
}

pub fn add16_flags(cc: u8, a: u16, b: u16) -> (r: (u16, u8))
    ensures
        r == add16(cc, a, b),
{
    let sum: i32 = a as i32 + b as i32;
    let res: u16 = (sum % 0x10000) as u16;
    let s: i32 = to_signed16(a) + to_signed16(b);
    (res, set_arith16(cc, res, sum > 0xFFFF, s < -0x8000 || s > 0x7FFF))
}

pub fn sub16_flags(cc: u8, a: u16, b: u16) -> (r: (u16, u8))
    ensures
        r == sub16(cc, a, b),
{
    let diff: i32 = a as i32 - b as i32;
    let res: u16 = if diff < 0 {
        (diff + 0x10000) as u16
    } else {
        diff as u16
    };
    let s: i32 = to_signed16(a) - to_signed16(b);
    (res, set_arith16(cc, res, a < b, s < -0x8000 || s > 0x7FFF))
}

/// Operations on one byte.
#[derive(Clone, Copy, PartialEq, Eq, Structural, Debug)]
pub enum Unary {
    Neg,
    Com,
    Lsr,
    Ror,
    Asr,
    Asl,
    Rol,
    Dec,
    Inc,
    Tst,
    Clr,
}

/// The byte that a unary operation yields.
pub open spec fn unary_result(op: Unary, cc: u8, v: u8) -> u8 {
    match op {
        Unary::Neg => ((-(v as int)) % 256) as u8,
        Unary::Com => (255 - v) as u8,
        Unary::Lsr => v / 2,
        Unary::Ror => (v as int / 2 + 128 * carry(cc)) as u8,
        Unary::Asr => (v as int / 2 + if v >= 0x80 {
            128int
        } else {
            0
        }) as u8,
        Unary::Asl => ((2 * v) % 256) as u8,
        Unary::Rol => ((2 * v + carry(cc)) % 256) as u8,
        Unary::Dec => ((v - 1) % 256) as u8,
        Unary::Inc => ((v + 1) % 256) as u8,
        Unary::Tst => v,
        Unary::Clr => 0,
    }
}

/// The flags after a unary operation on `v`.
pub open spec fn unary_flags(op: Unary, cc: u8, v: u8) -> u8 {
    let res = unary_result(op, cc, v);
    let nz = nz8(cc, res);
    match op {
        Unary::Neg => with_flag(with_flag(nz, C, v != 0), V, v == 0x80),
        Unary::Com => with_flag(with_flag(nz, V, false), C, true),
        Unary::Lsr | Unary::Ror | Unary::Asr => with_flag(nz, C, v % 2 == 1),
        Unary::Asl | Unary::Rol => with_flag(
            with_flag(nz, C, v >= 0x80),
            V,
            (res >= 0x80) != (v >= 0x80),
        ),
        Unary::Dec => with_flag(nz, V, v == 0x80),
        Unary::Inc => with_flag(nz, V, v == 0x7F),
        Unary::Tst => with_flag(nz, V, false),
        Unary::Clr => with_flag(with_flag(nz, V, false), C, false),
    }
}

fn unary_value(op: Unary, cc: u8, v: u8) -> (res: u8)
    ensures
        res == unary_result(op, cc, v),
{
    let cin: u8 = carry_in(cc);
    let top: bool = v >= 0x80;
    match op {
        Unary::Neg => if v == 0 {
            0
        } else {
            255 - v + 1
        },
        Unary::Com => 255 - v,
        Unary::Lsr => v / 2,
        Unary::Ror => v / 2 + 128 * cin,
        Unary::Asr => if top {
            v / 2 + 128
        } else {
            v / 2
        },
        Unary::Asl => if top {
            (v - 128) * 2
        } else {
            v * 2
        },
        Unary::Rol => if top {
            (v - 128) * 2 + cin
        } else {
            v * 2 + cin
        },
        Unary::Dec => if v == 0 {
            255
        } else {
            v - 1
        },
        Unary::Inc => if v == 255 {
            0
        } else {
            v + 1
        },
        Unary::Tst => v,
        Unary::Clr => 0,
    }
}

/// Applies a unary operation: the result and the flags.
pub fn unary(op: Unary, cc: u8, v: u8) -> (r: (u8, u8))
    ensures
        r == (unary_result(op, cc, v), unary_flags(op, cc, v)),
{
    let top: bool = v >= 0x80;
    let res: u8 = unary_value(op, cc, v);
    let nz: u8 = set_nz8(cc, res);
    let flags: u8 = match op {
        Unary::Neg => put_flag(put_flag(nz, C, v != 0), V, v == 0x80),
        Unary::Com => put_flag(put_flag(nz, V, false), C, true),
        Unary::Lsr | Unary::Ror | Unary::Asr => put_flag(nz, C, v % 2 == 1),
        Unary::Asl | Unary::Rol => put_flag(put_flag(nz, C, top), V, (res >= 0x80) != top),
        Unary::Dec => put_flag(nz, V, v == 0x80),
        Unary::Inc => put_flag(nz, V, v == 0x7F),
        Unary::Tst => put_flag(nz, V, false),
        Unary::Clr => put_flag(put_flag(nz, V, false), C, false),
    };
    (res, flags)
}

/// Operations of an accumulator with a byte.
#[derive(Clone, Copy, PartialEq, Eq, Structural, Debug)]
pub enum Binary {
    Sub,
    Compare,
    Sbc,
    And,
    Bit,
    Ld,
    Eor,
    Adc,
    Or,
    Add,
}

/// What the accumulator `a` and the flags become under an operation with `v`.
pub open spec fn binary_result(op: Binary, cc: u8, a: u8, v: u8) -> (u8, u8) {
    match op {
        Binary::Sub => sub8(cc, a, v, 0),
        Binary::Compare => (a, sub8(cc, a, v, 0).1),
        Binary::Sbc => sub8(cc, a, v, carry(cc)),
        Binary::And => (a & v, logic8(cc, a & v)),
        Binary::Bit => (a, logic8(cc, a & v)),
        Binary::Ld => (v, logic8(cc, v)),
        Binary::Eor => (a ^ v, logic8(cc, a ^ v)),
        Binary::Adc => add8(cc, a, v, carry(cc)),
        Binary::Or => (a | v, logic8(cc, a | v)),
        Binary::Add => add8(cc, a, v, 0),
    }
}

/// Applies a binary operation: the new accumulator and the flags.
pub fn binary(op: Binary, cc: u8, a: u8, v: u8) -> (r: (u8, u8))
    ensures
        r == binary_result(op, cc, a, v),
{
    match op {
        Binary::Sub => sub8_flags(cc, a, v),
        Binary::Compare => (a, sub8_flags(cc, a, v).1),
        Binary::Sbc => sbc8_flags(cc, a, v),
        Binary::And => (a & v, logic8_nz_clearv(cc, a & v)),
        Binary::Bit => (a, logic8_nz_clearv(cc, a & v)),
        Binary::Ld => (v, logic8_nz_clearv(cc, v)),
        Binary::Eor => (a ^ v, logic8_nz_clearv(cc, a ^ v)),
        Binary::Adc => adc8_flags(cc, a, v),
        Binary::Or => (a | v, logic8_nz_clearv(cc, a | v)),
        Binary::Add => add8_flags(cc, a, v),
    }
}

/// DAA: the decimal-adjusted accumulator and the flags.
///
/// 6 is added where H is set or the low digit is above 9; `$60` where C is set,
/// the high digit is above 9, or it is 9 and the low digit is above 9. C is set
/// by a carry out of the byte and never cleared.
pub open spec fn daa_result(cc: u8, a: u8) -> (u8, u8) {
    let lo = a as int % 16;
    let hi = a as int / 16;
    let fix = (if flag(cc, H) || lo > 9 {
        6int
    } else {
        0
    }) + (if flag(cc, C) || hi > 9 || (hi >= 9 && lo > 9) {
        0x60int
    } else {
        0
    });
    let res = ((a + fix) % 256) as u8;
    (res, with_flag(nz8(cc, res), C, flag(cc, C) || a + fix > 255))
}

pub fn daa(cc: u8, a: u8) -> (r: (u8, u8))
    ensures
        r == daa_result(cc, a),
{
    let c: bool = has_flag(cc, C);
    let lo: u8 = a % 16;
    let hi: u8 = a / 16;
    let mut sum: u16 = a as u16;
    if has_flag(cc, H) || lo > 9 {
        sum = sum + 6;
    }
    if c || hi > 9 || (hi >= 9 && lo > 9) {
        sum = sum + 0x60;
    }
    let res: u8 = (sum % 256) as u8;
    (res, put_flag(set_nz8(cc, res), C, c || sum > 255))
}

/// MUL: the unsigned product of the accumulators, and the flags Z and C, where
/// C is bit 7 of the product.
pub open spec fn mul_result(cc: u8, a: u8, b: u8) -> (u16, u8) {
    let d = (a * b) as u16;
    (d, with_flag(with_flag(cc, Z, d == 0), C, low(d) >= 0x80))
}

pub fn multiply(cc: u8, a: u8, b: u8) -> (r: (u16, u8))
    ensures
        r == mul_result(cc, a, b),
{
    assert(0 <= a * b <= 0xFFFF) by (nonlinear_arith)
        requires
            0 <= a <= 255,
            0 <= b <= 255,
    ;
    let d: u16 = a as u16 * b as u16;
    (d, put_flag(put_flag(cc, Z, d == 0), C, low_byte(d) >= 0x80))
}

/// The branch condition of an opcode whose low digit is `code`.
pub open spec fn condition(code: u8, cc: u8) -> bool {
    let c = flag(cc, C);
    let z = flag(cc, Z);
    let v = flag(cc, V);
    let n = flag(cc, N);
    match code {
        0x0 => true,
        0x1 => false,
        0x2 => !(c || z),
        0x3 => c || z,
        0x4 => !c,
        0x5 => c,
        0x6 => !z,
        0x7 => z,
        0x8 => !v,
        0x9 => v,
        0xA => !n,
        0xB => n,
        0xC => n == v,
        0xD => n != v,
        0xE => !z && n == v,
        _ => z || n != v,
    }
}

pub fn cond_eval(code: u8, cc: u8) -> (r: bool)
    ensures
        r == condition(code, cc),
{
    let c: bool = has_flag(cc, C);
    let z: bool = has_flag(cc, Z);
    let v: bool = has_flag(cc, V);
    let n: bool = has_flag(cc, N);
    match code {
        0x0 => true,
        0x1 => false,
        0x2 => !(c || z),
        0x3 => c || z,
        0x4 => !c,
        0x5 => c,
        0x6 => !z,
        0x7 => z,
        0x8 => !v,
        0x9 => v,
        0xA => !n,
        0xB => n,
        0xC => n == v,
        0xD => n != v,
        0xE => !z && n == v,
        _ => z || n != v,
    }
}

} // verus!
