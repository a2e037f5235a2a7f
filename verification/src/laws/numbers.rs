//! Numbers in configurations and scripts: hexadecimal behind `0x`, and in some
//! places behind `$`, else decimal.

use crate::text::{
    all_digits, digit_value, digits, hex4, hex_digit, hex_or_dec, number, number_of, unsigned,
};
use vstd::prelude::*;

verus! {

proof fn lemma_digits(n: nat)
    ensures
        digits(n).len() > 0,
        all_digits(digits(n), 10),
        number(digits(n), 10) == n,
        forall|i: int| 0 <= i < digits(n).len() ==> 48 <= (#[trigger] digits(n)[i]) as int <= 57,
    decreases n,
{
    let s = digits(n);
    if n < 10 {
        assert(s.drop_last() =~= Seq::<char>::empty());
        assert(number(Seq::<char>::empty(), 10) == 0);
    } else {
        lemma_digits(n / 10);
        assert(s.drop_last() =~= digits(n / 10));
        assert(digit_value(s.last()) == n % 10);
    }
}

/// A decimal number is read back from its digits, where it is not above the
/// limit.
pub proof fn law_decimal_read_back(n: nat, max: int)
    ensures
        hex_or_dec(digits(n), max) == if n <= max {
            Some(n as int)
        } else {
            None
        },
        number_of(digits(n), max) == hex_or_dec(digits(n), max),
{
    lemma_digits(n);
    let s = digits(n);
    assert(s[0] != '+' && s[0] != '$');
    if s.len() >= 2 {
        assert(s[1] != 'x' && s[1] != 'X');
    }
}

/// The number that four hexadecimal digits stand for.
pub proof fn lemma_hex4_number(v: u16)
    ensures
        all_digits(hex4(v), 16),
        number(hex4(v), 16) == v,
        hex4(v)[0] != '+',
{
    let (a, b, c, d) = (
        v as int / 4096,
        v as int / 256 % 16,
        v as int / 16 % 16,
        v as int % 16,
    );
    let s = hex4(v);
    let s3 = seq![hex_digit(a), hex_digit(b), hex_digit(c)];
    let s2 = seq![hex_digit(a), hex_digit(b)];
    let s1 = seq![hex_digit(a)];
    assert(s.drop_last() =~= s3);
    assert(s3.drop_last() =~= s2);
    assert(s2.drop_last() =~= s1);
    assert(s1.drop_last() =~= Seq::<char>::empty());
    assert(number(Seq::<char>::empty(), 16) == 0);
    assert(number(s1, 16) == a);
    assert(number(s2, 16) == 16 * a + b);
    assert(number(s3, 16) == 256 * a + 16 * b + c);
    assert(number(s, 16) == 4096 * a + 256 * b + 16 * c + d);
}

/// A hexadecimal number is read back from its digits behind `0x`, `0X` and,
/// where that is allowed, `$`, if it is not above the limit.
pub proof fn law_hex_read_back(v: u16, max: int)
    ensures
        ({
            let read = if v <= max {
                Some(v as int)
            } else {
                None
            };
            &&& hex_or_dec(seq!['0', 'x'] + hex4(v), max) == read
            &&& hex_or_dec(seq!['0', 'X'] + hex4(v), max) == read
            &&& hex_or_dec(seq!['$'] + hex4(v), max) is None
            &&& number_of(seq!['0', 'x'] + hex4(v), max) == read
            &&& number_of(seq!['0', 'X'] + hex4(v), max) == read
            &&& number_of(seq!['$'] + hex4(v), max) == read
        }),
{
    lemma_hex4_number(v);
    assert((seq!['0', 'x'] + hex4(v)).skip(2) =~= hex4(v));
    assert((seq!['0', 'X'] + hex4(v)).skip(2) =~= hex4(v));
    let dollar = seq!['$'] + hex4(v);
    assert(dollar.skip(1) =~= hex4(v));
    assert(dollar[0] == '$' && digit_value('$') >= 10);
    assert(unsigned(hex4(v), 16, max) == if v <= max {
        Some(v as int)
    } else {
        None
    });
}

} // verus!
