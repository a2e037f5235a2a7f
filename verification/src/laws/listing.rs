//! Listings: the names of the instructions and the text of their operands.

use crate::alu::{condition, flag, offset, signed16, signed8, C, N, V, Z};
use crate::bus::Memory;
use crate::cpu::isa::{page1, page2, page3, Mode};
use crate::cpu::trace::{branch_name, index_name};
use crate::disasm::{
    disassembled, indexed_operand, long_text, mnemonic, mode_text, offset_text, relative_text,
    short_text, signed_text, transfer_name, transfer_text,
};
use crate::laws::addressing::{byte_of, is_signed16, is_signed5, is_signed8, word_of};
use crate::text::{digit_value, digits, hex2, hex4, hex_digit, number};
use vstd::prelude::*;

verus! {

/// Hexadecimal digits are those of 0 to 9 and A to F; small letters are read as
/// well, and nothing else is a digit.
pub proof fn law_hex_digits(n: int, c: char)
    requires
        0 <= n < 16,
    ensures
        hex_digit(n) == "0123456789ABCDEF"@[n],
        digit_value("0123456789ABCDEF"@[n]) == n,
        digit_value("0123456789abcdef"@[n]) == n,
        digit_value(c) < 16 ==> exists|k: int|
            0 <= k < 16 && (c == "0123456789ABCDEF"@[k] || c == "0123456789abcdef"@[k]),
{
    reveal_strlit("0123456789ABCDEF");
    reveal_strlit("0123456789abcdef");
    let v = digit_value(c);
    if v < 16 {
        assert(c == "0123456789ABCDEF"@[v] || c == "0123456789abcdef"@[v]);
    }
}

/// Two digits spell a byte and four a word.
pub proof fn law_hex_numbers(b: u8, w: u16)
    ensures
        hex2(b).len() == 2,
        number(hex2(b), 16) == b,
        hex4(w).len() == 4,
        number(hex4(w), 16) == w,
{
    crate::laws::numbers::lemma_hex4_number(w);
    let s = hex2(b);
    let s1 = seq![hex_digit(b as int / 16)];
    assert(s.drop_last() =~= s1);
    assert(s1.drop_last() =~= Seq::<char>::empty());
    assert(number(Seq::<char>::empty(), 16) == 0);
    assert(number(s1, 16) == b as int / 16);
}

/// The name of a branch says on which flags it is taken: BEQ where Z is set and
/// BNE where it is not, and so on for all sixteen.
pub proof fn law_branch_names(code: u8, cc: u8)
    requires
        code < 16,
    ensures
        ({
            let name = branch_name(code);
            let goes = condition(code, cc);
            let (c, z, v, n) = (flag(cc, C), flag(cc, Z), flag(cc, V), flag(cc, N));
            &&& name == "BRA"@ ==> goes
            &&& name == "BRN"@ ==> !goes
            &&& name == "BHI"@ ==> goes == (!c && !z)
            &&& name == "BLS"@ ==> goes == (c || z)
            &&& name == "BCC"@ ==> goes == !c
            &&& name == "BCS"@ ==> goes == c
            &&& name == "BNE"@ ==> goes == !z
            &&& name == "BEQ"@ ==> goes == z
            &&& name == "BVC"@ ==> goes == !v
            &&& name == "BVS"@ ==> goes == v
            &&& name == "BPL"@ ==> goes == !n
            &&& name == "BMI"@ ==> goes == n
            &&& name == "BGE"@ ==> goes == (n == v)
            &&& name == "BLT"@ ==> goes == (n != v)
            &&& name == "BGT"@ ==> goes == (!z && n == v)
            &&& name == "BLE"@ ==> goes == (z || n != v)
            &&& {
                ||| name == "BRA"@ || name == "BRN"@ || name == "BHI"@ || name == "BLS"@
                ||| name == "BCC"@ || name == "BCS"@ || name == "BNE"@ || name == "BEQ"@
                ||| name == "BVC"@ || name == "BVS"@ || name == "BPL"@ || name == "BMI"@
                ||| name == "BGE"@ || name == "BLT"@ || name == "BGT"@ || name == "BLE"@
            }
        }),
{
    reveal_names();
}

proof fn reveal_names()
    ensures
        "BRA"@ == seq!['B', 'R', 'A'],
        "BRN"@ == seq!['B', 'R', 'N'],
        "BHI"@ == seq!['B', 'H', 'I'],
        "BLS"@ == seq!['B', 'L', 'S'],
        "BCC"@ == seq!['B', 'C', 'C'],
        "BCS"@ == seq!['B', 'C', 'S'],
        "BNE"@ == seq!['B', 'N', 'E'],
        "BEQ"@ == seq!['B', 'E', 'Q'],
        "BVC"@ == seq!['B', 'V', 'C'],
        "BVS"@ == seq!['B', 'V', 'S'],
        "BPL"@ == seq!['B', 'P', 'L'],
        "BMI"@ == seq!['B', 'M', 'I'],
        "BGE"@ == seq!['B', 'G', 'E'],
        "BLT"@ == seq!['B', 'L', 'T'],
        "BGT"@ == seq!['B', 'G', 'T'],
        "BLE"@ == seq!['B', 'L', 'E'],
{
    reveal_strlit("BRA");
    reveal_strlit("BRN");
    reveal_strlit("BHI");
    reveal_strlit("BLS");
    reveal_strlit("BCC");
    reveal_strlit("BCS");
    reveal_strlit("BNE");
    reveal_strlit("BEQ");
    reveal_strlit("BVC");
    reveal_strlit("BVS");
    reveal_strlit("BPL");
    reveal_strlit("BMI");
    reveal_strlit("BGE");
    reveal_strlit("BLT");
    reveal_strlit("BGT");
    reveal_strlit("BLE");
    assert("BRA"@ =~= seq!['B', 'R', 'A']);
    assert("BRN"@ =~= seq!['B', 'R', 'N']);
    assert("BHI"@ =~= seq!['B', 'H', 'I']);
    assert("BLS"@ =~= seq!['B', 'L', 'S']);
    assert("BCC"@ =~= seq!['B', 'C', 'C']);
    assert("BCS"@ =~= seq!['B', 'C', 'S']);
    assert("BNE"@ =~= seq!['B', 'N', 'E']);
    assert("BEQ"@ =~= seq!['B', 'E', 'Q']);
    assert("BVC"@ =~= seq!['B', 'V', 'C']);
    assert("BVS"@ =~= seq!['B', 'V', 'S']);
    assert("BPL"@ =~= seq!['B', 'P', 'L']);
    assert("BMI"@ =~= seq!['B', 'M', 'I']);
    assert("BGE"@ =~= seq!['B', 'G', 'E']);
    assert("BLT"@ =~= seq!['B', 'L', 'T']);
    assert("BGT"@ =~= seq!['B', 'G', 'T']);
    assert("BLE"@ =~= seq!['B', 'L', 'E']);
}

/// The names in the rows of one-byte operations, by the low digit.
pub open spec fn one_byte_name(lo: u8) -> Seq<char> {
    if lo == 0x0 {
        "NEG"@
    } else if lo == 0x3 {
        "COM"@
    } else if lo == 0x4 {
        "LSR"@
    } else if lo == 0x6 {
        "ROR"@
    } else if lo == 0x7 {
        "ASR"@
    } else if lo == 0x8 {
        "ASL"@
    } else if lo == 0x9 {
        "ROL"@
    } else if lo == 0xA {
        "DEC"@
    } else if lo == 0xC {
        "INC"@
    } else if lo == 0xD {
        "TST"@
    } else if lo == 0xE {
        "JMP"@
    } else {
        "CLR"@
    }
}

/// The names of the operations of accumulator A, by the low digit.
pub open spec fn name_on_a(lo: u8) -> Seq<char> {
    if lo == 0x0 {
        "SUBA"@
    } else if lo == 0x1 {
        "CMPA"@
    } else if lo == 0x2 {
        "SBCA"@
    } else if lo == 0x4 {
        "ANDA"@
    } else if lo == 0x5 {
        "BITA"@
    } else if lo == 0x6 {
        "LDA"@
    } else if lo == 0x7 {
        "STA"@
    } else if lo == 0x8 {
        "EORA"@
    } else if lo == 0x9 {
        "ADCA"@
    } else if lo == 0xA {
        "ORA"@
    } else {
        "ADDA"@
    }
}

/// The names of the operations of accumulator B, by the low digit.
pub open spec fn name_on_b(lo: u8) -> Seq<char> {
    if lo == 0x0 {
        "SUBB"@
    } else if lo == 0x1 {
        "CMPB"@
    } else if lo == 0x2 {
        "SBCB"@
    } else if lo == 0x4 {
        "ANDB"@
    } else if lo == 0x5 {
        "BITB"@
    } else if lo == 0x6 {
        "LDB"@
    } else if lo == 0x7 {
        "STB"@
    } else if lo == 0x8 {
        "EORB"@
    } else if lo == 0x9 {
        "ADCB"@
    } else if lo == 0xA {
        "ORB"@
    } else {
        "ADDB"@
    }
}

/// The opcodes of bytes carry the names of what they do.
pub proof fn law_byte_names(op: u8)
    requires
        !(page1(op) is Unknown),
    ensures
        ({
            let (row, lo) = (op / 16, op % 16);
            let name = mnemonic(page1(op));
            &&& row == 0 || row == 6 || row == 7 ==> name == one_byte_name(lo)
            &&& row == 4 ==> name == one_byte_name(lo) + "A"@
            &&& row == 5 ==> name == one_byte_name(lo) + "B"@
            &&& 8 <= row < 12 && lo <= 0xB && lo != 3 ==> name == name_on_a(lo)
            &&& row >= 12 && lo <= 0xB && lo != 3 ==> name == name_on_b(lo)
            &&& row == 2 ==> name == branch_name(lo)
        }),
{
}

/// Those of words and of single codes too.
pub proof fn law_word_names(op: u8)
    ensures
        ({
            let (row, lo) = (op / 16, op % 16);
            let name = mnemonic(page1(op));
            &&& 8 <= row < 12 && lo == 0x3 ==> name == "SUBD"@
            &&& row >= 12 && lo == 0x3 ==> name == "ADDD"@
            &&& 8 <= row < 12 && lo == 0xC ==> name == "CMPX"@
            &&& row >= 12 && lo == 0xC ==> name == "LDD"@
            &&& row > 12 && lo == 0xD ==> name == "STD"@
            &&& op == 0x8D ==> name == "BSR"@
            &&& 8 < row < 12 && lo == 0xD ==> name == "JSR"@
            &&& 8 <= row < 12 && lo == 0xE ==> name == "LDX"@
            &&& row >= 12 && lo == 0xE ==> name == "LDU"@
            &&& 8 < row < 12 && lo == 0xF ==> name == "STX"@
            &&& row > 12 && lo == 0xF ==> name == "STU"@
            &&& op == 0x12 ==> name == "NOP"@
            &&& op == 0x13 ==> name == "SYNC"@
            &&& op == 0x16 ==> name == "LBRA"@
            &&& op == 0x17 ==> name == "LBSR"@
            &&& op == 0x19 ==> name == "DAA"@
            &&& op == 0x1A ==> name == "ORCC"@
            &&& op == 0x1C ==> name == "ANDCC"@
            &&& op == 0x1D ==> name == "SEX"@
            &&& op == 0x1E ==> name == "EXG"@
            &&& op == 0x1F ==> name == "TFR"@
            &&& op == 0x30 ==> name == "LEAX"@
            &&& op == 0x31 ==> name == "LEAY"@
            &&& op == 0x32 ==> name == "LEAS"@
            &&& op == 0x33 ==> name == "LEAU"@
            &&& op == 0x34 ==> name == "PSHS"@
            &&& op == 0x35 ==> name == "PULS"@
            &&& op == 0x36 ==> name == "PSHU"@
            &&& op == 0x37 ==> name == "PULU"@
            &&& op == 0x39 ==> name == "RTS"@
            &&& op == 0x3A ==> name == "ABX"@
            &&& op == 0x3B ==> name == "RTI"@
            &&& op == 0x3C ==> name == "CWAI"@
            &&& op == 0x3D ==> name == "MUL"@
            &&& op == 0x3F ==> name == "SWI"@
        }),
{
    lemma_register_names();
}

proof fn lemma_register_names()
    ensures
        "CMP"@ + "X"@ == "CMPX"@,
        "CMP"@ + "D"@ == "CMPD"@,
        "CMP"@ + "Y"@ == "CMPY"@,
        "CMP"@ + "U"@ == "CMPU"@,
        "CMP"@ + "S"@ == "CMPS"@,
        "LD"@ + "D"@ == "LDD"@,
        "LD"@ + "X"@ == "LDX"@,
        "LD"@ + "Y"@ == "LDY"@,
        "LD"@ + "U"@ == "LDU"@,
        "LD"@ + "S"@ == "LDS"@,
        "ST"@ + "D"@ == "STD"@,
        "ST"@ + "X"@ == "STX"@,
        "ST"@ + "Y"@ == "STY"@,
        "ST"@ + "U"@ == "STU"@,
        "ST"@ + "S"@ == "STS"@,
        "LEA"@ + "X"@ == "LEAX"@,
        "LEA"@ + "Y"@ == "LEAY"@,
        "LEA"@ + "S"@ == "LEAS"@,
        "LEA"@ + "U"@ == "LEAU"@,
{
    reveal_strlit("D");
    reveal_strlit("X");
    reveal_strlit("Y");
    reveal_strlit("U");
    reveal_strlit("S");
    reveal_strlit("CMP");
    reveal_strlit("LD");
    reveal_strlit("ST");
    reveal_strlit("LEA");
    reveal_strlit("CMPX");
    reveal_strlit("CMPD");
    reveal_strlit("CMPY");
    reveal_strlit("CMPU");
    reveal_strlit("CMPS");
    reveal_strlit("LDD");
    reveal_strlit("LDX");
    reveal_strlit("LDY");
    reveal_strlit("LDU");
    reveal_strlit("LDS");
    reveal_strlit("STD");
    reveal_strlit("STX");
    reveal_strlit("STY");
    reveal_strlit("STU");
    reveal_strlit("STS");
    reveal_strlit("LEAX");
    reveal_strlit("LEAY");
    reveal_strlit("LEAS");
    reveal_strlit("LEAU");
    assert("CMP"@ + "X"@ =~= "CMPX"@);
    assert("CMP"@ + "D"@ =~= "CMPD"@);
    assert("CMP"@ + "Y"@ =~= "CMPY"@);
    assert("CMP"@ + "U"@ =~= "CMPU"@);
    assert("CMP"@ + "S"@ =~= "CMPS"@);
    assert("LD"@ + "D"@ =~= "LDD"@);
    assert("LD"@ + "X"@ =~= "LDX"@);
    assert("LD"@ + "Y"@ =~= "LDY"@);
    assert("LD"@ + "U"@ =~= "LDU"@);
    assert("LD"@ + "S"@ =~= "LDS"@);
    assert("ST"@ + "D"@ =~= "STD"@);
    assert("ST"@ + "X"@ =~= "STX"@);
    assert("ST"@ + "Y"@ =~= "STY"@);
    assert("ST"@ + "U"@ =~= "STU"@);
    assert("ST"@ + "S"@ =~= "STS"@);
    assert("LEA"@ + "X"@ =~= "LEAX"@);
    assert("LEA"@ + "Y"@ =~= "LEAY"@);
    assert("LEA"@ + "S"@ =~= "LEAS"@);
    assert("LEA"@ + "U"@ =~= "LEAU"@);
}

/// The codes behind the prefixes `$10` and `$11`.
pub proof fn law_prefixed_names(op: u8)
    ensures
        ({
            let (row, lo) = (op / 16, op % 16);
            let (two, three) = (mnemonic(page2(op)), mnemonic(page3(op)));
            &&& row == 2 && lo != 0 ==> two == seq!['L'] + branch_name(lo)
            &&& op == 0x3F ==> two == "SWI2"@ && three == "SWI3"@
            &&& 8 <= row < 12 && lo == 0x3 ==> two == "CMPD"@ && three == "CMPU"@
            &&& 8 <= row < 12 && lo == 0xC ==> two == "CMPY"@ && three == "CMPS"@
            &&& 8 <= row < 12 && lo == 0xE ==> two == "LDY"@
            &&& row >= 12 && lo == 0xE ==> two == "LDS"@
            &&& 8 < row < 12 && lo == 0xF ==> two == "STY"@
            &&& row > 12 && lo == 0xF ==> two == "STS"@
        }),
{
    lemma_register_names();
    reveal_strlit("L");
    assert("L"@ =~= seq!['L']);
}

/// An operand behind the name, by mode: `#$` and the byte or word, `<$` and the
/// byte on the direct page, `$` and the address.
pub proof fn law_operand_text(m: Seq<u8>, pc: u16, n: u16, name: Seq<char>, wide: bool)
    requires
        1 <= n <= 2,
    ensures
        ({
            let b = byte_of(m, pc + n) as u8;
            let w = word_of(m, pc + n) as u16;
            let imm = mode_text::<Memory>(m, pc, n, name, Mode::Imm, wide);
            let dir = mode_text::<Memory>(m, pc, n, name, Mode::Direct, wide);
            let ext = mode_text::<Memory>(m, pc, n, name, Mode::Extended, wide);
            let ind = mode_text::<Memory>(m, pc, n, name, Mode::Indexed, wide);
            let op = indexed_operand::<Memory>(m, ((pc + n) % 65536) as u16);
            &&& wide ==> imm.0 == n + 2 && imm.1 == name + seq![' ', '#', '$'] + hex4(w)
            &&& !wide ==> imm.0 == n + 1 && imm.1 == name + seq![' ', '#', '$'] + hex2(b)
            &&& dir.0 == n + 1 && dir.1 == name + seq![' ', '<', '$'] + hex2(b)
            &&& ext.0 == n + 2 && ext.1 == name + seq![' ', '$'] + hex4(w)
            &&& ind.0 == n + op.0 && ind.1 == name + seq![' '] + op.1
        }),
{
    reveal(mode_text);
    reveal_strlit(" #");
    reveal_strlit(" <");
    reveal_strlit(" ");
    reveal_strlit("$");
    let at = offset(pc, n as int);
    assert(at == (pc + n) % 65536);
    assert(offset(at, 1) == (pc + n + 1) % 65536);
    let b = byte_of(m, pc + n) as u8;
    let w = word_of(m, pc + n) as u16;
    assert(name + " #"@ + ("$"@ + hex4(w)) =~= name + seq![' ', '#', '$'] + hex4(w));
    assert(name + " #"@ + ("$"@ + hex2(b)) =~= name + seq![' ', '#', '$'] + hex2(b));
    assert(name + " <"@ + ("$"@ + hex2(b)) =~= name + seq![' ', '<', '$'] + hex2(b));
    assert(name + " "@ + ("$"@ + hex4(w)) =~= name + seq![' ', '$'] + hex4(w));
    assert(" "@ =~= seq![' ']);
}

/// The sign of a number and its digits.
pub open spec fn with_sign(n: int) -> Seq<char> {
    if n < 0 {
        seq!['-'] + digits((-n) as nat)
    } else {
        seq!['+'] + digits(n as nat)
    }
}

/// A branch shows its distance with sign and the address it leads to: that many
/// bytes from the instruction behind it.
pub proof fn law_branch_text(m: Seq<u8>, pc: u16, name: Seq<char>, k: u16, n: int)
    requires
        1 <= k <= 2,
    ensures
        is_signed8(n, byte_of(m, pc + 1)) ==> short_text::<Memory>(m, pc, name).1 == name + seq![' ']
            + with_sign(n) + seq![' ', '-', '>', ' ', '$'] + hex4(((pc + 2 + n) % 65536) as u16),
        is_signed16(n, word_of(m, pc + k)) ==> long_text::<Memory>(m, pc, k, name).1 == name + seq![
            ' ',
        ] + with_sign(n) + seq![' ', '-', '>', ' ', '$'] + hex4(
            ((pc + k + 2 + n) % 65536) as u16,
        ),
{
    if is_signed8(n, byte_of(m, pc + 1)) {
        lemma_short(m, pc, name, n);
    }
    if is_signed16(n, word_of(m, pc + k)) {
        lemma_long(m, pc, name, k, n);
    }
}

proof fn lemma_relative(name: Seq<char>, n: int, target: u16)
    ensures
        relative_text(name, n, target) == name + seq![' '] + with_sign(n) + seq![
            ' ',
            '-',
            '>',
            ' ',
            '$',
        ] + hex4(target),
{
    reveal_strlit(" ");
    reveal_strlit("-");
    reveal_strlit("+");
    reveal_strlit(" -> ");
    reveal_strlit("$");
    assert("-"@ =~= seq!['-']);
    assert("+"@ =~= seq!['+']);
    assert(" "@ =~= seq![' ']);
    let h = hex4(target);
    let d = with_sign(n);
    assert(signed_text(n) == d);
    assert(name + " "@ + d + " -> "@ + ("$"@ + h) =~= name + seq![' '] + d + seq![
        ' ',
        '-',
        '>',
        ' ',
        '$',
    ] + h);
}

proof fn lemma_short(m: Seq<u8>, pc: u16, name: Seq<char>, n: int)
    requires
        is_signed8(n, byte_of(m, pc + 1)),
    ensures
        short_text::<Memory>(m, pc, name).1 == name + seq![' '] + with_sign(n) + seq![
            ' ',
            '-',
            '>',
            ' ',
            '$',
        ] + hex4(((pc + 2 + n) % 65536) as u16),
{
    reveal(short_text);
    let b = byte_of(m, pc + 1) as u8;
    assert(offset(pc, 1) == (pc + 1) % 65536);
    assert(n == signed8(b));
    lemma_relative(name, n, ((pc + 2 + n) % 65536) as u16);
}

proof fn lemma_long(m: Seq<u8>, pc: u16, name: Seq<char>, k: u16, n: int)
    requires
        1 <= k <= 2,
        is_signed16(n, word_of(m, pc + k)),
    ensures
        long_text::<Memory>(m, pc, k, name).1 == name + seq![' '] + with_sign(n) + seq![
            ' ',
            '-',
            '>',
            ' ',
            '$',
        ] + hex4(((pc + k + 2 + n) % 65536) as u16),
{
    reveal(long_text);
    let at = offset(pc, k as int);
    assert(offset(at, 1) == (pc + k + 1) % 65536);
    let w = word_of(m, pc + k) as u16;
    assert(n == signed16(w));
    lemma_relative(name, n, ((pc + k + 2 + n) % 65536) as u16);
}

/// The letter of an index register, by bits 5 and 6 of the postbyte.
pub open spec fn index_letter(pb: int) -> char {
    if pb / 32 % 4 == 0 {
        'X'
    } else if pb / 32 % 4 == 1 {
        'Y'
    } else if pb / 32 % 4 == 2 {
        'U'
    } else {
        'S'
    }
}

/// A text in brackets, where an operand is indirect.
pub open spec fn in_brackets(indirect: bool, s: Seq<char>) -> Seq<char> {
    if indirect {
        seq!['['] + s + seq![']']
    } else {
        s
    }
}

/// An offset, if it is not zero, a comma and the register.
pub open spec fn offset_and(n: int, reg: Seq<char>) -> Seq<char> {
    if n == 0 {
        seq![','] + reg
    } else {
        with_sign(n) + seq![','] + reg
    }
}

proof fn lemma_index_letter(pb: u8)
    ensures
        index_name(pb / 32 % 4) == seq![index_letter(pb as int)],
{
    reveal_strlit("X");
    reveal_strlit("Y");
    reveal_strlit("U");
    reveal_strlit("S");
    assert("X"@ =~= seq!['X']);
    assert("Y"@ =~= seq!['Y']);
    assert("U"@ =~= seq!['U']);
    assert("S"@ =~= seq!['S']);
}

proof fn lemma_signs()
    ensures
        "["@ == seq!['['],
        "]"@ == seq![']'],
        ","@ == seq![','],
        "+"@ == seq!['+'],
        "-"@ == seq!['-'],
        "++"@ == seq!['+', '+'],
        ",-"@ == seq![',', '-'],
        ",--"@ == seq![',', '-', '-'],
        "A,"@ == seq!['A', ','],
        "B,"@ == seq!['B', ','],
        "D,"@ == seq!['D', ','],
        "PC"@ == seq!['P', 'C'],
        "$"@ == seq!['$'],
        "(?)"@ == seq!['(', '?', ')'],
{
    reveal_strlit("[");
    reveal_strlit("]");
    reveal_strlit(",");
    reveal_strlit("+");
    reveal_strlit("-");
    reveal_strlit("++");
    reveal_strlit(",-");
    reveal_strlit(",--");
    reveal_strlit("A,");
    reveal_strlit("B,");
    reveal_strlit("D,");
    reveal_strlit("PC");
    reveal_strlit("$");
    reveal_strlit("(?)");
    assert("["@ =~= seq!['[']);
    assert("]"@ =~= seq![']']);
    assert(","@ =~= seq![',']);
    assert("+"@ =~= seq!['+']);
    assert("-"@ =~= seq!['-']);
    assert("++"@ =~= seq!['+', '+']);
    assert(",-"@ =~= seq![',', '-']);
    assert(",--"@ =~= seq![',', '-', '-']);
    assert("A,"@ =~= seq!['A', ',']);
    assert("B,"@ =~= seq!['B', ',']);
    assert("D,"@ =~= seq!['D', ',']);
    assert("PC"@ =~= seq!['P', 'C']);
    assert("$"@ =~= seq!['$']);
    assert("(?)"@ =~= seq!['(', '?', ')']);
}

/// An indexed operand with a 5-bit offset.
pub proof fn law_index_5_bit(m: Seq<u8>, pc: u16, n: int)
    requires
        m[pc as int] < 128,
        is_signed5(n, m[pc as int] as int),
    ensures
        indexed_operand::<Memory>(m, pc).0 == 1,
        indexed_operand::<Memory>(m, pc).1 == offset_and(
            n,
            seq![index_letter(m[pc as int] as int)],
        ),
{
    let pb = m[pc as int];
    lemma_index_letter(pb);
    lemma_low_bits(n, pb);
    lemma_offset_text(n, index_name(pb / 32 % 4), false);
}

proof fn lemma_low_bits(n: int, pb: u8)
    requires
        pb < 128,
        is_signed5(n, pb as int),
    ensures
        n == crate::cpu::machine::signed5(pb % 32),
{
}

/// An indexed operand with an offset of one or two bytes behind the postbyte,
/// from the register or, in the forms 12 and 13, from PC.
pub proof fn law_index_offsets(m: Seq<u8>, pc: u16, n: int)
    requires
        m[pc as int] >= 128,
        ({
            let form = m[pc as int] % 16;
            ||| (form == 8 || form == 12) && is_signed8(n, byte_of(m, pc + 1))
            ||| (form == 9 || form == 13) && is_signed16(n, word_of(m, pc + 1))
        }),
    ensures
        ({
            let pb = m[pc as int];
            let (len, text, after) = indexed_operand::<Memory>(m, pc);
            let reg = if pb % 16 >= 12 {
                seq!['P', 'C']
            } else {
                seq![index_letter(pb as int)]
            };
            &&& len == if pb % 16 == 8 || pb % 16 == 12 {
                2int
            } else {
                3
            }
            &&& text == in_brackets(pb / 16 % 2 == 1, offset_and(n, reg))
        }),
{
    let pb = m[pc as int];
    let base = index_name(pb / 32 % 4);
    let i = pb / 16 % 2 == 1;
    lemma_constant_forms(m, pc);
    lemma_index_letter(pb);
    lemma_signs();
    lemma_offset_text(n, base, i);
    lemma_offset_text(n, "PC"@, i);
    lemma_values(m, pc, n);
}

proof fn lemma_values(m: Seq<u8>, pc: u16, n: int)
    ensures
        is_signed8(n, byte_of(m, pc + 1)) ==> n == signed8(byte_of(m, pc + 1) as u8),
        is_signed16(n, word_of(m, pc + 1)) ==> n == signed16(word_of(m, pc + 1) as u16),
{
}

proof fn lemma_offset_text(n: int, base: Seq<char>, indirect: bool)
    ensures
        offset_text(n, base, indirect) == in_brackets(indirect, offset_and(n, base)),
{
    lemma_signs();
}

proof fn lemma_constant_forms(m: Seq<u8>, pc: u16)
    requires
        m[pc as int] >= 128,
    ensures
        ({
            let pb = m[pc as int];
            let (len, text, after) = indexed_operand::<Memory>(m, pc);
            let base = index_name(pb / 32 % 4);
            let i = pb / 16 % 2 == 1;
            let n8 = signed8(byte_of(m, pc + 1) as u8);
            let n16 = signed16(word_of(m, pc + 1) as u16);
            &&& pb % 16 == 8 ==> len == 2 && text == offset_text(n8, base, i)
            &&& pb % 16 == 12 ==> len == 2 && text == offset_text(n8, "PC"@, i)
            &&& pb % 16 == 9 ==> len == 3 && text == offset_text(n16, base, i)
            &&& pb % 16 == 13 ==> len == 3 && text == offset_text(n16, "PC"@, i)
        }),
{
    assert(offset(pc, 1) == (pc + 1) % 65536);
    assert(offset(offset(pc, 1), 1) == (pc + 1 + 1) % 65536);
}

/// Indexed operands without a constant.
pub proof fn law_index_forms(m: Seq<u8>, pc: u16)
    ensures
        ({
            let pb = byte_of(m, pc as int);
            let text = indexed_operand::<Memory>(m, pc).1;
            let len = indexed_operand::<Memory>(m, pc).0;
            let reg = index_letter(pb);
            let i = pb / 16 % 2 == 1;
            let form = pb % 16;
            pb >= 128 ==> {
                &&& form == 0 && !i ==> text == seq![',', reg, '+'] && len == 1
                &&& form == 1 ==> text == in_brackets(i, seq![',', reg, '+', '+']) && len == 1
                &&& form == 2 && !i ==> text == seq![',', '-', reg] && len == 1
                &&& form == 3 ==> text == in_brackets(i, seq![',', '-', '-', reg]) && len == 1
                &&& form == 4 ==> text == in_brackets(i, seq![',', reg]) && len == 1
                &&& form == 5 ==> text == in_brackets(i, seq!['B', ',', reg]) && len == 1
                &&& form == 6 ==> text == in_brackets(i, seq!['A', ',', reg]) && len == 1
                &&& form == 11 ==> text == in_brackets(i, seq!['D', ',', reg]) && len == 1
                &&& form == 15 ==> text == seq!['[', '$'] + hex4(word_of(m, pc + 1) as u16) + seq![
                    ']',
                ] && len == 3
            }
        }),
{
    lemma_signs();
    let pb = m[pc as int];
    lemma_index_letter(pb);
    assert(pc as int % 65536 == pc);
    assert(offset(pc, 1) == (pc + 1) % 65536);
    assert(offset(offset(pc, 1), 1) == (pc + 2) % 65536);
    let reg = index_letter(pb as int);
    let r = seq![reg];
    assert(","@ + r + "+"@ =~= seq![',', reg, '+']);
    assert(","@ + r + "++"@ =~= seq![',', reg, '+', '+']);
    assert(",-"@ + r =~= seq![',', '-', reg]);
    assert(",--"@ + r =~= seq![',', '-', '-', reg]);
    assert(","@ + r =~= seq![',', reg]);
    assert("B,"@ + r =~= seq!['B', ',', reg]);
    assert("A,"@ + r =~= seq!['A', ',', reg]);
    assert("D,"@ + r =~= seq!['D', ',', reg]);
    let h = hex4(word_of(m, pc + 1) as u16);
    assert("["@ + ("$"@ + h) + "]"@ =~= seq!['[', '$'] + h + seq![']']);
}

/// What a line shows behind the name, by opcode: the modes of the rows, the
/// branches, the lists and the pairs of registers.
pub proof fn law_lines(m: Seq<u8>, pc: u16)
    requires
        !(page1(m[pc as int]) is Unknown),
    ensures
        ({
            let op = m[pc as int];
            let (row, lo) = (op / 16, op % 16);
            let name = mnemonic(page1(op));
            let line = disassembled::<Memory>(m, pc);
            let mode = if row == 0 || row % 4 == 1 {
                Mode::Direct
            } else if row == 6 || row % 4 == 2 {
                Mode::Indexed
            } else if row == 7 || row % 4 == 3 {
                Mode::Extended
            } else {
                Mode::Imm
            };
            let wide = lo == 3 || lo >= 12;
            &&& row == 0 || row == 6 || row == 7 ==> line == mode_text::<Memory>(
                m,
                pc,
                1,
                name,
                mode,
                lo == 14,
            )
            &&& row >= 8 && op != 0x8D ==> line == mode_text::<Memory>(m, pc, 1, name, mode, wide)
            &&& row == 2 || op == 0x8D ==> line == short_text::<Memory>(m, pc, name)
            &&& op == 0x16 || op == 0x17 ==> line == long_text::<Memory>(m, pc, 1, name)
            &&& 0x30 <= op <= 0x33 ==> line == mode_text::<Memory>(
                m,
                pc,
                1,
                name,
                Mode::Indexed,
                true,
            )
            &&& 0x34 <= op <= 0x37 || op == 0x1A || op == 0x1C || op == 0x3C ==> line
                == mode_text::<Memory>(m, pc, 1, name, Mode::Imm, false)
            &&& op == 0x1E || op == 0x1F ==> line.0 == 2 && line.1 == transfer_text(
                name,
                byte_of(m, pc + 1) as u8,
            )
            &&& row == 4 || row == 5 || op == 0x12 || op == 0x13 || op == 0x19 || op == 0x1D || op
                == 0x39 || op == 0x3A || op == 0x3B || op == 0x3D || op == 0x3F ==> line.0 == 1
                && line.1 == name
        }),
{
    reveal(disassembled);
}

/// Behind a prefix: long branches, words in the modes of the rows, and SWI.
pub proof fn law_prefixed_lines(m: Seq<u8>, pc: u16)
    requires
        m[pc as int] == 0x10 || m[pc as int] == 0x11,
    ensures
        ({
            let op = byte_of(m, pc + 1) as u8;
            let (row, lo) = (op / 16, op % 16);
            let two = m[pc as int] == 0x10;
            let instr = if two {
                page2(op)
            } else {
                page3(op)
            };
            let name = mnemonic(instr);
            let line = disassembled::<Memory>(m, pc);
            let mode = if row % 4 == 0 {
                Mode::Imm
            } else if row % 4 == 1 {
                Mode::Direct
            } else if row % 4 == 2 {
                Mode::Indexed
            } else {
                Mode::Extended
            };
            &&& two && row == 2 && lo != 0 ==> line == long_text::<Memory>(m, pc, 2, name)
            &&& op == 0x3F ==> line.0 == 2 && line.1 == name
            &&& row >= 8 && !(instr is UnknownPrefixed) ==> line == mode_text::<Memory>(
                m,
                pc,
                2,
                name,
                mode,
                true,
            )
        }),
{
    reveal(disassembled);
    assert(offset(pc, 1) == (pc + 1) % 65536);
}

/// What is no instruction is shown as the constant it is, in hexadecimal.
pub proof fn law_constants(m: Seq<u8>, pc: u16)
    ensures
        ({
            let op = m[pc as int];
            let sub = byte_of(m, pc + 1) as u8;
            let line = disassembled::<Memory>(m, pc);
            let fcb = seq!['F', 'C', 'B', ' ', '$'];
            &&& op != 0x10 && op != 0x11 && page1(op) is Unknown ==> line.0 == 1 && line.1 == fcb
                + hex2(op)
            &&& (op == 0x10 && page2(sub) is UnknownPrefixed) || (op == 0x11 && page3(
                sub,
            ) is UnknownPrefixed) ==> line.0 == 2 && line.1 == fcb + hex2(op) + seq![',', ' ', '$']
                + hex2(sub)
        }),
{
    reveal(disassembled);
    reveal_strlit("FCB $");
    reveal_strlit(", $");
    assert("FCB $"@ =~= seq!['F', 'C', 'B', ' ', '$']);
    assert(", $"@ =~= seq![',', ' ', '$']);
    assert(offset(pc, 1) == (pc + 1) % 65536);
}

/// The name of a register by its code in EXG and TFR.
pub open spec fn coded_name(code: u8) -> Seq<char> {
    if code == 0 {
        seq!['D']
    } else if code == 1 {
        seq!['X']
    } else if code == 2 {
        seq!['Y']
    } else if code == 3 {
        seq!['U']
    } else if code == 4 {
        seq!['S']
    } else if code == 5 {
        seq!['P', 'C']
    } else if code == 8 {
        seq!['A']
    } else if code == 9 {
        seq!['B']
    } else if code == 10 {
        seq!['C', 'C']
    } else {
        seq!['D', 'P']
    }
}

/// EXG and TFR show the two registers, the first of which is in the high digit
/// of the postbyte.
pub proof fn law_register_pairs(name: Seq<char>, pb: u8)
    requires
        (pb / 16 <= 5 && pb % 16 <= 5) || (8 <= pb / 16 <= 11 && 8 <= pb % 16 <= 11),
    ensures
        transfer_text(name, pb) == name + seq![' '] + coded_name(pb / 16) + seq![','] + coded_name(
            pb % 16,
        ),
{
    reveal(transfer_text);
    lemma_coded(pb / 16);
    lemma_coded(pb % 16);
    reveal_strlit(" ");
    reveal_strlit(",");
    assert(" "@ =~= seq![' ']);
    assert(","@ =~= seq![',']);
}

proof fn lemma_coded(code: u8)
    requires
        code <= 5 || 8 <= code <= 11,
    ensures
        transfer_name(code) == Some(coded_name(code)),
{
    reveal_strlit("D");
    reveal_strlit("X");
    reveal_strlit("Y");
    reveal_strlit("U");
    reveal_strlit("S");
    reveal_strlit("PC");
    reveal_strlit("A");
    reveal_strlit("B");
    reveal_strlit("CC");
    reveal_strlit("DP");
    assert(transfer_name(code)->0 =~= coded_name(code));
}

} // verus!
