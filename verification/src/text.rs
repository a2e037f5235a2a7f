//! Text building: characters, hexadecimal and decimal numbers.

use vstd::prelude::*;
use vstd::std_specs::iter::IteratorSpec;
use vstd::string::StringExecFns;

verus! {

/// `String::push` appends one character at the end of the text.
pub assume_specification[ String::push ](s: &mut String, c: char)
    ensures
        final(s)@ == old(s)@.push(c),
;

/// The upper-case hexadecimal digit of a value below 16.
pub open spec fn hex_digit(n: int) -> char {
    if n < 10 {
        (n + 48) as char
    } else {
        (n + 55) as char
    }
}

/// Two upper-case hexadecimal digits.
pub open spec fn hex2(v: u8) -> Seq<char> {
    seq![hex_digit(v as int / 16), hex_digit(v as int % 16)]
}

/// Four upper-case hexadecimal digits.
pub open spec fn hex4(v: u16) -> Seq<char> {
    seq![
        hex_digit(v as int / 4096),
        hex_digit(v as int / 256 % 16),
        hex_digit(v as int / 16 % 16),
        hex_digit(v as int % 16),
    ]
}

/// The decimal digits of a natural number, without leading zeros.
pub open spec fn digits(n: nat) -> Seq<char>
    decreases n,
{
    if n < 10 {
        seq![(n + 48) as char]
    } else {
        digits(n / 10).push((n % 10 + 48) as char)
    }
}

/// A decimal number with `-` in front where it is negative.
pub open spec fn decimal(n: int) -> Seq<char> {
    if n < 0 {
        seq!['-'] + digits((-n) as nat)
    } else {
        digits(n as nat)
    }
}

pub fn hex_char(n: u8) -> (c: char)
    requires
        n < 16,
    ensures
        c == hex_digit(n as int),
{
    if n < 10 {
        (n + 48) as char
    } else {
        (n + 55) as char
    }
}

pub fn push_hex2(out: &mut String, v: u8)
    ensures
        final(out)@ == old(out)@ + hex2(v),
{
    out.push(hex_char(v / 16));
    out.push(hex_char(v % 16));
    assert(out@ =~= old(out)@ + hex2(v));
}

pub fn push_hex4(out: &mut String, v: u16)
    ensures
        final(out)@ == old(out)@ + hex4(v),
{
    out.push(hex_char((v / 4096) as u8));
    out.push(hex_char((v / 256 % 16) as u8));
    out.push(hex_char((v / 16 % 16) as u8));
    out.push(hex_char((v % 16) as u8));
    assert(out@ =~= old(out)@ + hex4(v));
}

pub fn push_digits(out: &mut String, n: u64)
    ensures
        final(out)@ == old(out)@ + digits(n as nat),
    decreases n,
{
    if n < 10 {
        out.push((n as u8 + 48) as char);
        assert(out@ =~= old(out)@ + digits(n as nat));
    } else {
        push_digits(out, n / 10);
        out.push(((n % 10) as u8 + 48) as char);
        assert(out@ =~= old(out)@ + digits(n as nat));
    }
}

pub fn push_decimal(out: &mut String, n: i32)
    ensures
        final(out)@ == old(out)@ + decimal(n as int),
{
    if n < 0 {
        out.push('-');
        push_digits(out, (-(n as i64)) as u64);
        assert(out@ =~= old(out)@ + decimal(n as int));
    } else {
        push_digits(out, n as u64);
    }
}

pub fn push_text(out: &mut String, s: &str)
    ensures
        final(out)@ == old(out)@ + s@,
{
    out.append(s);
}

/// The contents of a list of texts.
pub open spec fn texts(v: Seq<String>) -> Seq<Seq<char>> {
    v.map_values(|s: String| s@)
}

/// The characters of a text.
pub fn chars_of(s: &str) -> (v: Vec<char>)
    ensures
        v@ == s@,
{
    let mut out: Vec<char> = Vec::new();
    let mut it = s.chars();
    loop
        invariant_except_break
            out@ + it.remaining() == s@,
            it.obeys_prophetic_iter_laws(),
            it.decrease() is Some,
        ensures
            out@ == s@,
        decreases it.decrease()->0,
    {
        let ghost rest = it.remaining();
        match it.next() {
            Some(c) => {
                let ghost before = out@;
                out.push(c);
                assert(out@ + rest.drop_first() =~= before + rest);
            },
            None => {
                assert(out@ + rest =~= out@);
                break;
            },
        }
    }
    out
}

/// A text made of the given characters.
pub fn text_of(v: &Vec<char>) -> (s: String)
    ensures
        s@ == v@,
{
    let mut out: String = String::new();
    push_chars(&mut out, v);
    assert(out@ =~= v@);
    out
}

pub fn push_chars(out: &mut String, v: &Vec<char>)
    ensures
        final(out)@ == old(out)@ + v@,
{
    let mut i: usize = 0;
    while i < v.len()
        invariant
            i <= v@.len(),
            out@ == old(out)@ + v@.take(i as int),
        decreases v@.len() - i,
    {
        out.push(v[i]);
        assert(out@ =~= old(out)@ + v@.take(i + 1));
        i = i + 1;
    }
    assert(v@.take(i as int) =~= v@);
}

/// A part of a character list.
pub fn slice_of(v: &Vec<char>, from: usize, to: usize) -> (part: Vec<char>)
    requires
        from <= to <= v@.len(),
    ensures
        part@ == v@.subrange(from as int, to as int),
{
    let mut out: Vec<char> = Vec::new();
    let mut i: usize = from;
    while i < to
        invariant
            from <= i <= to <= v@.len(),
            out@ == v@.subrange(from as int, i as int),
        decreases to - i,
    {
        out.push(v[i]);
        i = i + 1;
        assert(out@ =~= v@.subrange(from as int, i as int));
    }
    out
}

/// Whether a character list spells `lit`.
pub fn spells(v: &Vec<char>, lit: &str) -> (r: bool)
    ensures
        r == (v@ == lit@),
{
    let w: Vec<char> = chars_of(lit);
    if v.len() != w.len() {
        return false;
    }
    let mut i: usize = 0;
    while i < v.len()
        invariant
            i <= v@.len(),
            v@.len() == w@.len(),
            w@ == lit@,
            forall|j: int| 0 <= j < i ==> v@[j] == w@[j],
        decreases v@.len() - i,
    {
        if v[i] != w[i] {
            return false;
        }
        i = i + 1;
    }
    assert(v@ =~= w@);
    true
}

/// White space: the characters with the Unicode property White_Space.
pub open spec fn is_white(c: char) -> bool {
    let n = c as u32;
    ||| 0x9 <= n <= 0xD
    ||| n == 0x20
    ||| n == 0x85
    ||| n == 0xA0
    ||| n == 0x1680
    ||| 0x2000 <= n <= 0x200A
    ||| n == 0x2028
    ||| n == 0x2029
    ||| n == 0x202F
    ||| n == 0x205F
    ||| n == 0x3000
}

pub fn white(c: char) -> (r: bool)
    ensures
        r == is_white(c),
{
    let n: u32 = c as u32;
    (0x9 <= n && n <= 0xD) || n == 0x20 || n == 0x85 || n == 0xA0 || n == 0x1680 || (0x2000 <= n
        && n <= 0x200A) || n == 0x2028 || n == 0x2029 || n == 0x202F || n == 0x205F || n == 0x3000
}

/// The first place from `i` on that holds no white space.
pub open spec fn skip_white(s: Seq<char>, i: int) -> int
    decreases s.len() - i,
{
    if 0 <= i < s.len() && is_white(s[i]) {
        skip_white(s, i + 1)
    } else {
        i
    }
}

/// The place behind the last character of `s[from..to]` that is no white space.
pub open spec fn skip_white_back(s: Seq<char>, from: int, to: int) -> int
    decreases to - from,
{
    if from < to && is_white(s[to - 1]) {
        skip_white_back(s, from, to - 1)
    } else {
        to
    }
}

/// `s` without the white space at both ends.
pub open spec fn trimmed(s: Seq<char>) -> Seq<char> {
    let from = skip_white(s, 0);
    s.subrange(from, skip_white_back(s, from, s.len() as int))
}

pub fn trim_start_at(v: &Vec<char>, i: usize) -> (r: usize)
    requires
        i <= v@.len(),
    ensures
        r == skip_white(v@, i as int),
        i <= r <= v@.len(),
{
    let mut k: usize = i;
    while k < v.len() && white(v[k])
        invariant
            i <= k <= v@.len(),
            skip_white(v@, i as int) == skip_white(v@, k as int),
        decreases v@.len() - k,
    {
        k = k + 1;
    }
    k
}

pub fn trim(v: &Vec<char>) -> (part: Vec<char>)
    ensures
        part@ == trimmed(v@),
{
    let from: usize = trim_start_at(v, 0);
    let mut to: usize = v.len();
    while from < to && white(v[to - 1])
        invariant
            from <= to <= v@.len(),
            skip_white_back(v@, from as int, v@.len() as int) == skip_white_back(
                v@,
                from as int,
                to as int,
            ),
        decreases to - from,
    {
        to = to - 1;
    }
    slice_of(v, from, to)
}

/// The value of a digit in a base up to 16, of either case; 99 for any other
/// character.
pub open spec fn digit_value(c: char) -> int {
    let n = c as int;
    if 48 <= n <= 57 {
        n - 48
    } else if 65 <= n <= 70 {
        n - 55
    } else if 97 <= n <= 102 {
        n - 87
    } else {
        99
    }
}

pub fn digit_of(c: char) -> (d: u64)
    ensures
        d == digit_value(c),
{
    let n: u32 = c as u32;
    if 48 <= n && n <= 57 {
        (n - 48) as u64
    } else if 65 <= n && n <= 70 {
        (n - 55) as u64
    } else if 97 <= n && n <= 102 {
        (n - 87) as u64
    } else {
        99
    }
}

/// Whether every character is a digit of the base.
pub open spec fn all_digits(s: Seq<char>, radix: int) -> bool {
    forall|i: int| 0 <= i < s.len() ==> digit_value(#[trigger] s[i]) < radix
}

/// The number that a list of digits stands for.
pub open spec fn number(s: Seq<char>, radix: int) -> int
    decreases s.len(),
{
    if s.len() == 0 {
        0
    } else {
        number(s.drop_last(), radix) * radix + digit_value(s.last())
    }
}

proof fn lemma_number_grows(s: Seq<char>, radix: int, k: int)
    requires
        2 <= radix,
        0 <= k <= s.len(),
    ensures
        0 <= number(s.take(k), radix) <= number(s, radix),
    decreases s.len() - k, k,
{
    if k < s.len() {
        let t = s.take(k + 1);
        assert(t.drop_last() =~= s.take(k));
        lemma_number_nonneg(s.take(k), radix);
        let n = number(s.take(k), radix);
        assert(n <= n * radix) by (nonlinear_arith)
            requires
                0 <= n,
                2 <= radix,
        ;
        lemma_number_grows(s, radix, k + 1);
    } else {
        assert(s.take(k) =~= s);
        lemma_number_nonneg(s, radix);
    }
}

/// Digits stand for no negative number.
pub proof fn lemma_number_nonneg(s: Seq<char>, radix: int)
    requires
        2 <= radix,
    ensures
        0 <= number(s, radix),
    decreases s.len(),
{
    if s.len() > 0 {
        lemma_number_nonneg(s.drop_last(), radix);
        let n = number(s.drop_last(), radix);
        assert(0 <= n * radix) by (nonlinear_arith)
            requires
                0 <= n,
                2 <= radix,
        ;
    }
}

/// Reads the digits of `v[from..to]`; `None` where the number is above `max`.
pub fn read_number(v: &Vec<char>, from: usize, to: usize, radix: u64, max: u64) -> (r: Option<u64>)
    requires
        from <= to <= v@.len(),
        2 <= radix <= 16,
        all_digits(v@.subrange(from as int, to as int), radix as int),
    ensures
        r == if number(v@.subrange(from as int, to as int), radix as int) <= max {
            Some(number(v@.subrange(from as int, to as int), radix as int) as u64)
        } else {
            None
        },
{
    let ghost s = v@.subrange(from as int, to as int);
    let mut acc: u64 = 0;
    let mut i: usize = from;
    while i < to
        invariant
            from <= i <= to <= v@.len(),
            s == v@.subrange(from as int, to as int),
            2 <= radix <= 16,
            all_digits(s, radix as int),
            acc == number(s.take(i - from), radix as int),
            acc <= max,
        decreases to - i,
    {
        let d: u64 = digit_of(v[i]);
        assert(s[i - from] == v@[i as int]);
        assert(d < radix);
        assert(0 <= acc * radix <= 0xFFFF_FFFF_FFFF_FFFF * 16) by (nonlinear_arith)
            requires
                0 <= acc <= 0xFFFF_FFFF_FFFF_FFFF,
                0 <= radix <= 16,
        ;
        let wide: u128 = acc as u128 * radix as u128 + d as u128;
        proof {
            let k = i - from;
            assert(s.take(k + 1).drop_last() =~= s.take(k));
            assert(s.take(k + 1).last() == v@[i as int]);
            assert(wide == number(s.take(k + 1), radix as int));
            lemma_number_grows(s, radix as int, k + 1);
        }
        if wide > max as u128 {
            return None;
        }
        acc = wide as u64;
        i = i + 1;
    }
    assert(s.take(i - from) =~= s);
    Some(acc)
}

/// The place behind the digits that stand from `i` on.
pub open spec fn digits_end(s: Seq<char>, i: int, radix: int) -> int
    decreases s.len() - i,
{
    if 0 <= i < s.len() && digit_value(s[i]) < radix {
        digits_end(s, i + 1, radix)
    } else {
        i
    }
}

pub proof fn lemma_digits_end(s: Seq<char>, i: int, radix: int)
    requires
        0 <= i <= s.len(),
    ensures
        i <= digits_end(s, i, radix) <= s.len(),
        all_digits(s.subrange(i, digits_end(s, i, radix)), radix),
    decreases s.len() - i,
{
    if i < s.len() && digit_value(s[i]) < radix {
        lemma_digits_end(s, i + 1, radix);
        let e = digits_end(s, i, radix);
        let t = s.subrange(i, e);
        let u = s.subrange(i + 1, e);
        assert forall|k: int| 0 <= k < t.len() implies digit_value(#[trigger] t[k]) < radix by {
            if k > 0 {
                assert(t[k] == u[k - 1]);
            }
        }
    }
}

pub fn find_digits_end(v: &Vec<char>, i: usize, radix: u64) -> (e: usize)
    requires
        i <= v@.len(),
    ensures
        e == digits_end(v@, i as int, radix as int),
        i <= e <= v@.len(),
        all_digits(v@.subrange(i as int, e as int), radix as int),
{
    let mut k: usize = i;
    while k < v.len() && digit_of(v[k]) < radix
        invariant
            i <= k <= v@.len(),
            digits_end(v@, i as int, radix as int) == digits_end(v@, k as int, radix as int),
        decreases v@.len() - k,
    {
        k = k + 1;
    }
    proof {
        lemma_digits_end(v@, i as int, radix as int);
    }
    k
}

/// An ASCII letter in lower case; any other character itself.
pub open spec fn ascii_lower(c: char) -> char {
    if 65 <= c as int <= 90 {
        (c as int + 32) as char
    } else {
        c
    }
}

pub fn to_ascii_lower(c: char) -> (r: char)
    ensures
        r == ascii_lower(c),
{
    if 65 <= c as u32 && c as u32 <= 90 {
        ((c as u32 as u8) + 32) as char
    } else {
        c
    }
}

/// Whether a text holds ASCII characters only.
pub open spec fn ascii(s: Seq<char>) -> bool {
    forall|i: int| 0 <= i < s.len() ==> (#[trigger] s[i]) as int <= 127
}

/// What `str::to_lowercase` makes of a text.
pub uninterp spec fn lowercase_of(s: Seq<char>) -> Seq<char>;

/// A text in lower case. Beyond ASCII this goes by Unicode.
pub open spec fn lowered(s: Seq<char>) -> Seq<char> {
    if ascii(s) {
        s.map_values(|c: char| ascii_lower(c))
    } else {
        lowercase_of(s)
    }
}

/// Calls `str::to_lowercase`: the letters of an ASCII text become lower case
/// and all else stays; of any other text the result is a function of the text.
#[verifier::external_body]
fn lowercase(s: &str) -> (r: String)
    ensures
        ascii(s@) ==> r@ == s@.map_values(|c: char| ascii_lower(c)),
        !ascii(s@) ==> r@ == lowercase_of(s@),
{
    s.to_lowercase()
}

/// The characters of a text in lower case.
pub fn lower_text(s: &str) -> (v: Vec<char>)
    ensures
        v@ == lowered(s@),
{
    let low: String = lowercase(s);
    chars_of(low.as_str())
}

/// A list of characters in lower case.
pub fn lower_chars(v: &Vec<char>) -> (r: Vec<char>)
    ensures
        r@ == lowered(v@),
{
    let s: String = text_of(v);
    lower_text(s.as_str())
}

/// The contents of a list of character lists.
pub open spec fn parts(v: Seq<Vec<char>>) -> Seq<Seq<char>> {
    v.map_values(|w: Vec<char>| w@)
}

/// The first place of `c` from `i` on; the length where there is none.
pub open spec fn find_from(s: Seq<char>, c: char, i: int) -> int
    decreases s.len() - i,
{
    if i >= s.len() {
        s.len() as int
    } else if s[i] == c {
        i
    } else {
        find_from(s, c, i + 1)
    }
}

pub proof fn lemma_find_from(s: Seq<char>, c: char, i: int)
    requires
        0 <= i <= s.len(),
    ensures
        i <= find_from(s, c, i) <= s.len(),
        find_from(s, c, i) < s.len() ==> s[find_from(s, c, i)] == c,
        forall|k: int| i <= k < find_from(s, c, i) ==> s[k] != c,
    decreases s.len() - i,
{
    if i < s.len() && s[i] != c {
        lemma_find_from(s, c, i + 1);
    }
}

pub fn find_char(v: &Vec<char>, c: char, i: usize) -> (r: usize)
    requires
        i <= v@.len(),
    ensures
        r == find_from(v@, c, i as int),
        i <= r <= v@.len(),
{
    let mut k: usize = i;
    while k < v.len() && v[k] != c
        invariant
            i <= k <= v@.len(),
            find_from(v@, c, i as int) == find_from(v@, c, k as int),
        decreases v@.len() - k,
    {
        k = k + 1;
    }
    k
}

/// A line that ends before place `e`: a carriage return in front of the newline
/// at `e` is not part of it.
pub open spec fn line_at(s: Seq<char>, i: int, e: int) -> Seq<char> {
    if i < e < s.len() && s[e - 1] == '\r' {
        s.subrange(i, e - 1)
    } else {
        s.subrange(i, e)
    }
}

/// The lines of a text from `i` on. A newline ends a line, alone or behind a
/// carriage return; at the end of the text it may be left out.
pub open spec fn lines_from(s: Seq<char>, i: int) -> Seq<Seq<char>>
    decreases s.len() + 1 - i,
{
    if i < 0 || i >= s.len() {
        Seq::empty()
    } else {
        proof {
            lemma_find_from(s, '\n', i);
        }
        let e = find_from(s, '\n', i);
        seq![line_at(s, i, e)] + lines_from(s, e + 1)
    }
}

pub open spec fn lines_of(s: Seq<char>) -> Seq<Seq<char>> {
    lines_from(s, 0)
}

/// The lines of a text.
pub fn split_lines(s: &str) -> (out: Vec<Vec<char>>)
    ensures
        parts(out@) == lines_of(s@),
{
    let v: Vec<char> = chars_of(s);
    let mut out: Vec<Vec<char>> = Vec::new();
    let mut i: usize = 0;
    assert(parts(out@) + lines_from(v@, 0) =~= lines_of(s@));
    while i < v.len()
        invariant
            v@ == s@,
            i <= v@.len() + 1,
            parts(out@) + lines_from(v@, i as int) == lines_of(s@),
        decreases v@.len() + 1 - i,
    {
        let e: usize = find_char(&v, '\n', i);
        let cut: bool = i < e && e < v.len() && v[e - 1] == '\r';
        let line: Vec<char> = slice_of(
            &v,
            i,
            if cut {
                e - 1
            } else {
                e
            },
        );
        let ghost before = parts(out@);
        out.push(line);
        proof {
            assert(parts(out@) =~= before.push(line@));
            assert(parts(out@) + lines_from(v@, e + 1) =~= before + (seq![line@] + lines_from(
                v@,
                e + 1,
            )));
        }
        if e >= v.len() {
            assert(lines_from(v@, e + 1) =~= Seq::<Seq<char>>::empty());
            assert(parts(out@) =~= lines_of(s@));
            return out;
        }
        i = e + 1;
    }
    assert(parts(out@) =~= lines_of(s@));
    out
}

/// The place of the first white space from `i` on.
pub open spec fn word_end(s: Seq<char>, i: int) -> int
    decreases s.len() - i,
{
    if 0 <= i < s.len() && !is_white(s[i]) {
        word_end(s, i + 1)
    } else {
        i
    }
}

pub proof fn lemma_skip_white(s: Seq<char>, i: int)
    requires
        0 <= i <= s.len(),
    ensures
        i <= skip_white(s, i) <= s.len(),
        skip_white(s, i) < s.len() ==> !is_white(s[skip_white(s, i)]),
    decreases s.len() - i,
{
    if i < s.len() && is_white(s[i]) {
        lemma_skip_white(s, i + 1);
    }
}

pub proof fn lemma_word_end(s: Seq<char>, i: int)
    requires
        0 <= i <= s.len(),
    ensures
        i <= word_end(s, i) <= s.len(),
        i < s.len() && !is_white(s[i]) ==> i < word_end(s, i),
    decreases s.len() - i,
{
    if i < s.len() && !is_white(s[i]) {
        lemma_word_end(s, i + 1);
    }
}

/// The words of a text from `i` on: what stands between white space.
pub open spec fn words_from(s: Seq<char>, i: int) -> Seq<Seq<char>>
    decreases s.len() - i,
{
    let a = skip_white(s, i);
    if i < 0 || i > s.len() || a >= s.len() {
        Seq::empty()
    } else {
        proof {
            lemma_skip_white(s, i);
            lemma_word_end(s, a);
        }
        let b = word_end(s, a);
        seq![s.subrange(a, b)] + words_from(s, b)
    }
}

pub open spec fn words_of(s: Seq<char>) -> Seq<Seq<char>> {
    words_from(s, 0)
}

/// The words of a text; none is empty.
pub fn split_words(v: &Vec<char>) -> (out: Vec<Vec<char>>)
    ensures
        parts(out@) == words_of(v@),
        forall|k: int| 0 <= k < out@.len() ==> (#[trigger] out@[k])@.len() > 0,
{
    let mut out: Vec<Vec<char>> = Vec::new();
    let mut i: usize = 0;
    assert(parts(out@) + words_from(v@, 0) =~= words_of(v@));
    loop
        invariant
            i <= v@.len(),
            parts(out@) + words_from(v@, i as int) == words_of(v@),
            forall|k: int| 0 <= k < out@.len() ==> (#[trigger] out@[k])@.len() > 0,
        decreases v@.len() - i,
    {
        let a: usize = trim_start_at(v, i);
        proof {
            lemma_skip_white(v@, i as int);
        }
        if a >= v.len() {
            assert(parts(out@) =~= words_of(v@));
            return out;
        }
        let mut b: usize = a;
        while b < v.len() && !white(v[b])
            invariant
                a <= b <= v@.len(),
                word_end(v@, a as int) == word_end(v@, b as int),
            decreases v@.len() - b,
        {
            b = b + 1;
        }
        proof {
            lemma_word_end(v@, a as int);
        }
        let word: Vec<char> = slice_of(v, a, b);
        let ghost before = parts(out@);
        out.push(word);
        proof {
            assert(parts(out@) =~= before.push(word@));
            assert(parts(out@) + words_from(v@, b as int) =~= before + (seq![word@] + words_from(
                v@,
                b as int,
            )));
        }
        i = b;
    }
}

/// An unsigned number of digits, with an optional `+` in front; `None` where it
/// is malformed or above `max`.
pub open spec fn unsigned(s: Seq<char>, radix: int, max: int) -> Option<int> {
    let body = if s.len() > 0 && s[0] == '+' {
        s.drop_first()
    } else {
        s
    };
    if body.len() > 0 && all_digits(body, radix) && number(body, radix) <= max {
        Some(number(body, radix))
    } else {
        None
    }
}

/// Reads an unsigned number up to `max`.
pub fn read_unsigned(v: &Vec<char>, radix: u64, max: u64) -> (r: Option<u64>)
    requires
        2 <= radix <= 16,
    ensures
        r is Some == unsigned(v@, radix as int, max as int) is Some,
        r matches Some(n) ==> n == unsigned(v@, radix as int, max as int)->0,
{
    let from: usize = if v.len() > 0 && v[0] == '+' {
        1
    } else {
        0
    };
    let ghost body = if v@.len() > 0 && v@[0] == '+' {
        v@.drop_first()
    } else {
        v@
    };
    assert(body =~= v@.subrange(from as int, v@.len() as int));
    if from >= v.len() {
        return None;
    }
    let end: usize = find_digits_end(v, from, radix);
    if end < v.len() {
        proof {
            lemma_digits_stop(v@, from as int, radix as int);
            assert(body[end - from] == v@[end as int]);
        }
        return None;
    }
    proof {
        lemma_number_nonneg(body, radix as int);
    }
    read_number(v, from, end, radix, max)
}

proof fn lemma_digits_stop(s: Seq<char>, i: int, radix: int)
    requires
        0 <= i <= s.len(),
    ensures
        digits_end(s, i, radix) < s.len() ==> digit_value(s[digits_end(s, i, radix)]) >= radix,
    decreases s.len() - i,
{
    if i < s.len() && digit_value(s[i]) < radix {
        lemma_digits_stop(s, i + 1, radix);
    }
}

/// A number: hexadecimal behind `0x` or `0X`, else decimal.
pub open spec fn hex_or_dec(s: Seq<char>, max: int) -> Option<int> {
    if s.len() >= 2 && s[0] == '0' && (s[1] == 'x' || s[1] == 'X') {
        unsigned(s.skip(2), 16, max)
    } else {
        unsigned(s, 10, max)
    }
}

/// Reads a number up to `max`.
pub fn parse_hex_or_dec(v: &Vec<char>, max: u64) -> (r: Option<u64>)
    ensures
        r is Some == hex_or_dec(v@, max as int) is Some,
        r matches Some(n) ==> n == hex_or_dec(v@, max as int)->0 && n <= max,
{
    if v.len() >= 2 && v[0] == '0' && (v[1] == 'x' || v[1] == 'X') {
        let rest: Vec<char> = slice_of(v, 2, v.len());
        assert(rest@ =~= v@.skip(2));
        read_unsigned(&rest, 16, max)
    } else {
        read_unsigned(v, 10, max)
    }
}

/// A number that may also be hexadecimal behind `$`.
pub open spec fn number_of(s: Seq<char>, max: int) -> Option<int> {
    if s.len() >= 1 && s[0] == '$' {
        unsigned(s.skip(1), 16, max)
    } else {
        hex_or_dec(s, max)
    }
}

/// Reads a number up to `max`, hexadecimal behind `$` too.
pub fn parse_number(v: &Vec<char>, max: u64) -> (r: Option<u64>)
    ensures
        r is Some == number_of(v@, max as int) is Some,
        r matches Some(n) ==> n == number_of(v@, max as int)->0 && n <= max,
{
    if v.len() >= 1 && v[0] == '$' {
        let rest: Vec<char> = slice_of(v, 1, v.len());
        assert(rest@ =~= v@.skip(1));
        read_unsigned(&rest, 16, max)
    } else {
        parse_hex_or_dec(v, max)
    }
}

} // verus!
