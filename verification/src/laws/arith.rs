//! Arithmetic: what the flags of a comparison say, decimal addition, and
//! operations that undo each other.

use crate::alu::{
    add16, add8, arith16, arith8, condition, daa_result, flag, high, low, mul_result, nz8,
    sub16, sub8, unary_flags, unary_result, with_flag, word, Unary, C, H, N, V, Z,
};
use vstd::prelude::*;

verus! {

proof fn lemma_with_flag(cc: u8, bit: u8, on: bool, other: u8)
    requires
        bit != 0,
        bit & other == 0,
    ensures
        flag(with_flag(cc, bit, on), bit) == on,
        flag(with_flag(cc, bit, on), other) == flag(cc, other),
{
    assert((cc | bit) & bit != 0 && (cc & !bit) & bit == 0) by (bit_vector)
        requires
            bit != 0,
    ;
    assert((cc | bit) & other == cc & other && (cc & !bit) & other == cc & other) by (bit_vector)
        requires
            bit & other == 0,
    ;
}

proof fn lemma_apart()
    ensures
        N & Z == 0,
        N & C == 0,
        N & V == 0,
        N & H == 0,
        Z & N == 0,
        Z & C == 0,
        Z & V == 0,
        C & N == 0,
        C & Z == 0,
        C & V == 0,
        C & H == 0,
        V & N == 0,
        V & Z == 0,
        V & C == 0,
        V & H == 0,
        H & N == 0,
        H & Z == 0,
        H & C == 0,
        H & V == 0,
{
    assert(0x08u8 & 0x04 == 0 && 0x08u8 & 0x01 == 0 && 0x08u8 & 0x02 == 0 && 0x08u8 & 0x20 == 0
        && 0x04u8 & 0x08 == 0 && 0x04u8 & 0x01 == 0 && 0x04u8 & 0x02 == 0 && 0x01u8 & 0x08 == 0
        && 0x01u8 & 0x04 == 0 && 0x01u8 & 0x02 == 0 && 0x01u8 & 0x20 == 0 && 0x02u8 & 0x08 == 0
        && 0x02u8 & 0x04 == 0 && 0x02u8 & 0x01 == 0 && 0x02u8 & 0x20 == 0 && 0x20u8 & 0x08 == 0
        && 0x20u8 & 0x04 == 0 && 0x20u8 & 0x01 == 0 && 0x20u8 & 0x02 == 0) by (bit_vector);
}

proof fn lemma_four(cc: u8, n: bool, z: bool, c: bool, v: bool)
    ensures
        ({
            let r = with_flag(with_flag(with_flag(with_flag(cc, N, n), Z, z), C, c), V, v);
            flag(r, N) == n && flag(r, Z) == z && flag(r, C) == c && flag(r, V) == v
        }),
{
    lemma_apart();
    let c1 = with_flag(cc, N, n);
    let c2 = with_flag(c1, Z, z);
    let c3 = with_flag(c2, C, c);
    lemma_with_flag(cc, N, n, Z);
    lemma_with_flag(c1, Z, z, N);
    lemma_with_flag(c2, C, c, N);
    lemma_with_flag(c2, C, c, Z);
    lemma_with_flag(c3, V, v, N);
    lemma_with_flag(c3, V, v, Z);
    lemma_with_flag(c3, V, v, C);
}

/// The flags of byte arithmetic are those that it names.
pub proof fn law_byte_flags(cc: u8, res: u8, c: bool, v: bool, h: bool)
    ensures
        ({
            let r = arith8(cc, res, c, v, h);
            &&& flag(r, N) == (res >= 0x80)
            &&& flag(r, Z) == (res == 0)
            &&& flag(r, C) == c
            &&& flag(r, V) == v
            &&& flag(r, H) == h
        }),
{
    lemma_apart();
    lemma_four(cc, res >= 0x80, res == 0, c, v);
    let r = with_flag(with_flag(nz8(cc, res), C, c), V, v);
    lemma_with_flag(r, H, h, N);
    lemma_with_flag(r, H, h, Z);
    lemma_with_flag(r, H, h, C);
    lemma_with_flag(r, H, h, V);
}

/// The flags of word arithmetic are those that it names.
pub proof fn law_word_flags(cc: u8, res: u16, c: bool, v: bool)
    ensures
        ({
            let r = arith16(cc, res, c, v);
            &&& flag(r, N) == (res >= 0x8000)
            &&& flag(r, Z) == (res == 0)
            &&& flag(r, C) == c
            &&& flag(r, V) == v
        }),
{
    lemma_four(cc, res >= 0x8000, res == 0, c, v);
}

/// After a comparison of two bytes the branches decide as their names say: BHI,
/// BLS, BHS, BLO, BNE and BEQ on the numbers without sign, BGE, BLT, BGT and
/// BLE on those with sign.
pub proof fn law_branch_on_bytes(cc: u8, a: u8, b: u8)
    ensures
        ({
            let r = sub8(cc, a, b, 0).1;
            let (x, y) = (crate::alu::signed8(a), crate::alu::signed8(b));
            &&& condition(0x2, r) == (a > b)
            &&& condition(0x3, r) == (a <= b)
            &&& condition(0x4, r) == (a >= b)
            &&& condition(0x5, r) == (a < b)
            &&& condition(0x6, r) == (a != b)
            &&& condition(0x7, r) == (a == b)
            &&& condition(0xC, r) == (x >= y)
            &&& condition(0xD, r) == (x < y)
            &&& condition(0xE, r) == (x > y)
            &&& condition(0xF, r) == (x <= y)
        }),
{
    let res = ((a - b) % 256) as u8;
    let s = crate::alu::signed8(a) - crate::alu::signed8(b);
    law_byte_flags(
        cc,
        res,
        a - b < 0,
        s < -128 || s > 127,
        a as int % 16 - b as int % 16 < 0,
    );
}

/// The same after a comparison of two words.
pub proof fn law_branch_on_words(cc: u8, a: u16, b: u16)
    ensures
        ({
            let r = sub16(cc, a, b).1;
            let (x, y) = (crate::alu::signed16(a), crate::alu::signed16(b));
            &&& condition(0x2, r) == (a > b)
            &&& condition(0x3, r) == (a <= b)
            &&& condition(0x4, r) == (a >= b)
            &&& condition(0x5, r) == (a < b)
            &&& condition(0x6, r) == (a != b)
            &&& condition(0x7, r) == (a == b)
            &&& condition(0xC, r) == (x >= y)
            &&& condition(0xD, r) == (x < y)
            &&& condition(0xE, r) == (x > y)
            &&& condition(0xF, r) == (x <= y)
        }),
{
    let res = ((a - b) % 0x10000) as u16;
    let s = crate::alu::signed16(a) - crate::alu::signed16(b);
    law_word_flags(cc, res, a < b, s < -0x8000 || s > 0x7FFF);
}

/// Each branch with an odd code decides against the one before it.
pub proof fn law_branches_in_pairs(code: u8, cc: u8)
    requires
        code < 16,
        code % 2 == 0,
    ensures
        condition((code + 1) as u8, cc) == !condition(code, cc),
{
}

/// Whether both digits of a byte are decimal.
pub open spec fn is_decimal(v: u8) -> bool {
    v % 16 <= 9 && v / 16 <= 9
}

/// The number that two decimal digits spell.
pub open spec fn decimal_value(v: u8) -> int {
    (v as int / 16) * 10 + v as int % 16
}

/// What DAA adds to a sum of decimal digits, of which `t` is the sum of the low
/// digits with the carry and `u` that of the high ones.
proof fn lemma_fix(t: int, u: int, sum: int, c: bool, h: bool)
    requires
        0 <= t <= 19,
        0 <= u <= 18,
        c == (16 * u + t > 255),
        h == (t > 15),
        sum == (16 * u + t) % 256,
    ensures
        (h || sum % 16 > 9) == (t > 9),
        (c || sum / 16 > 9 || (sum / 16 >= 9 && sum % 16 > 9)) == (10 * u + t > 99),
{
    let n = 16 * u + t;
    if c {
        assert(sum == n - 256);
    } else {
        assert(sum == n);
    }
    if h {
        assert(sum % 16 == t - 16);
    } else {
        assert(sum % 16 == t);
    }
}

/// The digits behind that addition.
proof fn lemma_digits(t: int, u: int, sum: int, c: bool)
    requires
        0 <= t <= 19,
        0 <= u <= 18,
        c == (16 * u + t > 255),
        sum == (16 * u + t) % 256,
    ensures
        ({
            let fixed = sum + (if t > 9 {
                6int
            } else {
                0
            }) + (if 10 * u + t > 99 {
                0x60int
            } else {
                0
            });
            let res = fixed % 256;
            let total = 10 * u + t;
            &&& res / 16 == total / 10 % 10
            &&& res % 16 == total % 10
            &&& (c || fixed > 255) == (total > 99)
        }),
{
    let n = 16 * u + t;
    let total = 10 * u + t;
    let up: int = if t > 9 {
        1
    } else {
        0
    };
    let over: int = if total > 99 {
        1
    } else {
        0
    };
    let lo = t - 10 * up;
    let hi = u + up - 10 * over;
    assert(0 <= lo <= 9 && 0 <= hi <= 9);
    assert(total == 100 * over + 10 * hi + lo);
    let fixed = sum + 6 * up + 0x60 * over;
    let shifted: int = if c {
        256
    } else {
        0
    };
    assert(sum == n - shifted);
    assert(fixed == 16 * hi + lo + 256 * over - shifted);
    let res = fixed % 256;
    assert(res == 16 * hi + lo);
}

proof fn lemma_adjusted(flags: u8, sum: u8, t: int, u: int)
    requires
        0 <= t <= 19,
        0 <= u <= 18,
        flag(flags, C) == (16 * u + t > 255),
        flag(flags, H) == (t > 15),
        sum == (16 * u + t) % 256,
    ensures
        ({
            let (res, after) = daa_result(flags, sum);
            let total = 10 * u + t;
            &&& res as int / 16 == total / 10 % 10
            &&& res as int % 16 == total % 10
            &&& flag(after, C) == (total > 99)
        }),
{
    lemma_fix(t, u, sum as int, flag(flags, C), flag(flags, H));
    lemma_digits(t, u, sum as int, flag(flags, C));
    let (res, after) = daa_result(flags, sum);
    lemma_apart();
    lemma_with_flag(nz8(flags, res), C, 10 * u + t > 99, V);
}

proof fn lemma_decimal(res: u8, total: int)
    requires
        0 <= total <= 199,
        res as int / 16 == total / 10 % 10,
        res as int % 16 == total % 10,
    ensures
        is_decimal(res),
        decimal_value(res) == total % 100,
{
}

/// A byte sum of decimal digits and a carry, adjusted by DAA, is the decimal
/// sum, and the carry goes on to the next two digits.
pub proof fn law_decimal_addition(cc: u8, a: u8, b: u8, cin: int)
    requires
        is_decimal(a),
        is_decimal(b),
        0 <= cin <= 1,
    ensures
        ({
            let (sum, flags) = add8(cc, a, b, cin);
            let (res, after) = daa_result(flags, sum);
            let total = decimal_value(a) + decimal_value(b) + cin;
            &&& is_decimal(res)
            &&& decimal_value(res) == total % 100
            &&& flag(after, C) == (total >= 100)
        }),
{
    let (sum, flags) = add8(cc, a, b, cin);
    let t: int = a as int % 16 + b as int % 16 + cin;
    let u: int = a as int / 16 + b as int / 16;
    assert(a + b + cin == 16 * u + t);
    assert(10 * u + t == decimal_value(a) + decimal_value(b) + cin);
    assert(flag(flags, C) == (16 * u + t > 255) && flag(flags, H) == (t > 15)) by {
        let s = crate::alu::signed8(a) + crate::alu::signed8(b) + cin;
        law_byte_flags(cc, sum, a + b + cin > 255, s < -128 || s > 127, t > 15);
    }
    lemma_adjusted(flags, sum, t, u);
    lemma_decimal(daa_result(flags, sum).0, 10 * u + t);
}

/// COM and NEG undo themselves, INC and DEC each other.
pub proof fn law_unary_undone(cc: u8, c1: u8, v: u8)
    ensures
        unary_result(Unary::Com, c1, unary_result(Unary::Com, cc, v)) == v,
        unary_result(Unary::Neg, c1, unary_result(Unary::Neg, cc, v)) == v,
        unary_result(Unary::Inc, c1, unary_result(Unary::Dec, cc, v)) == v,
        unary_result(Unary::Dec, c1, unary_result(Unary::Inc, cc, v)) == v,
{
}

/// A rotation through the carry is undone by the opposite one.
pub proof fn law_rotation_undone(cc: u8, v: u8)
    ensures
        unary_result(
            Unary::Ror,
            unary_flags(Unary::Rol, cc, v),
            unary_result(Unary::Rol, cc, v),
        ) == v,
        unary_result(
            Unary::Rol,
            unary_flags(Unary::Ror, cc, v),
            unary_result(Unary::Ror, cc, v),
        ) == v,
{
    lemma_apart();
    let l = unary_result(Unary::Rol, cc, v);
    lemma_with_flag(
        with_flag(nz8(cc, l), C, v >= 0x80),
        V,
        (l >= 0x80) != (v >= 0x80),
        C,
    );
    lemma_with_flag(nz8(cc, l), C, v >= 0x80, V);
    let r = unary_result(Unary::Ror, cc, v);
    lemma_with_flag(with_flag(nz8(cc, r), C, v % 2 == 1), V, false, C);
    lemma_with_flag(nz8(cc, r), C, v % 2 == 1, V);
}

/// What is added is taken away by the subtraction, on bytes and on words.
pub proof fn law_add_then_sub(cc: u8, c1: u8, a: u8, b: u8, x: u16, y: u16)
    ensures
        sub8(c1, add8(cc, a, b, 0).0, b, 0).0 == a,
        sub16(c1, add16(cc, x, y).0, y).0 == x,
{
}

/// NEG gives the result and the flags N, Z, V and C of a subtraction from zero.
pub proof fn law_neg_is_subtraction(cc: u8, v: u8)
    ensures
        unary_result(Unary::Neg, cc, v) == sub8(cc, 0, v, 0).0,
        flag(unary_flags(Unary::Neg, cc, v), C) == flag(sub8(cc, 0, v, 0).1, C),
        flag(unary_flags(Unary::Neg, cc, v), V) == flag(sub8(cc, 0, v, 0).1, V),
        flag(unary_flags(Unary::Neg, cc, v), N) == flag(sub8(cc, 0, v, 0).1, N),
        flag(unary_flags(Unary::Neg, cc, v), Z) == flag(sub8(cc, 0, v, 0).1, Z),
{
    let res = unary_result(Unary::Neg, cc, v);
    lemma_four(cc, res >= 0x80, res == 0, v != 0, v == 0x80);
    let s = -crate::alu::signed8(v);
    law_byte_flags(cc, res, -(v as int) < 0, s < -128 || s > 127, -(v as int % 16) < 0);
}

/// MUL leaves the product of A and B in D.
pub proof fn law_multiply(cc: u8, a: u8, b: u8)
    ensures
        mul_result(cc, a, b).0 == a * b,
        word(high(mul_result(cc, a, b).0), low(mul_result(cc, a, b).0)) == a * b,
{
    assert(0 <= a * b <= 0xFFFF) by (nonlinear_arith)
        requires
            0 <= a <= 255,
            0 <= b <= 255,
    ;
}

} // verus!
