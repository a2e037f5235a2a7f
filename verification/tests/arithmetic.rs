use em6809_core::alu::{
    add16_flags, add8_flags, adc8_flags, binary, cond_eval, daa, multiply, sbc8_flags, sub16_flags,
    sub8_flags, unary, Binary, Unary,
};
use em6809_core::bus::{Bus, Memory};
use em6809_core::cpu::Cpu;

const C: u8 = 0x01;
const V: u8 = 0x02;
const Z: u8 = 0x04;
const N: u8 = 0x08;
const H: u8 = 0x20;

#[test]
fn addition_sets_carry_overflow_and_half_carry() {
    assert_eq!(add8_flags(0, 0x7F, 0x01), (0x80, N | V | H));
    assert_eq!(add8_flags(0, 0xFF, 0x01), (0x00, Z | C | H));
    assert_eq!(add8_flags(0xD0, 0x10, 0x20), (0x30, 0xD0));
    assert_eq!(adc8_flags(C, 0x10, 0x20), (0x31, 0));
    assert_eq!(add16_flags(0, 0x7FFF, 0x0001), (0x8000, N | V));
    assert_eq!(add16_flags(H, 0xFFFF, 0x0001), (0x0000, H | Z | C));
}

#[test]
fn subtraction_sets_borrow_and_overflow() {
    assert_eq!(sub8_flags(0, 0x00, 0x01), (0xFF, N | C | H));
    assert_eq!(sub8_flags(0, 0x80, 0x01), (0x7F, V | H));
    assert_eq!(sbc8_flags(C, 0x05, 0x03), (0x01, 0));
    assert_eq!(sub16_flags(0, 0x0000, 0x0001), (0xFFFF, N | C));
    assert_eq!(sub16_flags(0, 0x8000, 0x0001), (0x7FFF, V));
}

#[test]
fn branches_after_a_comparison_decide_as_named() {
    let pairs: [(u8, u8); 6] = [(1, 2), (2, 1), (5, 5), (0x80, 0x7F), (0x7F, 0x80), (0xFF, 0x00)];
    for (a, b) in pairs {
        let cc = sub8_flags(0, a, b).1;
        assert_eq!(cond_eval(0x2, cc), a > b);
        assert_eq!(cond_eval(0x3, cc), a <= b);
        assert_eq!(cond_eval(0x4, cc), a >= b);
        assert_eq!(cond_eval(0x5, cc), a < b);
        assert_eq!(cond_eval(0x6, cc), a != b);
        assert_eq!(cond_eval(0x7, cc), a == b);
        let (x, y) = (a as i8, b as i8);
        assert_eq!(cond_eval(0xC, cc), x >= y);
        assert_eq!(cond_eval(0xD, cc), x < y);
        assert_eq!(cond_eval(0xE, cc), x > y);
        assert_eq!(cond_eval(0xF, cc), x <= y);
    }
    let words: [(u16, u16); 3] = [(0x8000, 0x7FFF), (3, 3), (0x0001, 0xFFFF)];
    for (a, b) in words {
        let cc = sub16_flags(0, a, b).1;
        assert_eq!(cond_eval(0x2, cc), a > b);
        assert_eq!(cond_eval(0xC, cc), a as i16 >= b as i16);
    }
}

#[test]
fn each_odd_branch_is_the_opposite_of_the_one_before() {
    for cc in [0x00, 0x01, 0x02, 0x04, 0x08, 0x0A, 0x0F] {
        for code in [0u8, 2, 4, 6, 8, 10, 12, 14] {
            assert_eq!(cond_eval(code + 1, cc), !cond_eval(code, cc));
        }
    }
}

#[test]
fn decimal_addition_is_adjusted() {
    let bcd: [(u8, u8, u8, bool); 5] = [
        (0x19, 0x28, 0x47, false),
        (0x99, 0x01, 0x00, true),
        (0x55, 0x55, 0x10, true),
        (0x08, 0x08, 0x16, false),
        (0x90, 0x90, 0x80, true),
    ];
    for (a, b, sum, carry) in bcd {
        let (r, cc) = add8_flags(0, a, b);
        let (d, cc) = daa(cc, r);
        assert_eq!(d, sum);
        assert_eq!(cc & C != 0, carry);
    }
}

#[test]
fn daa_keeps_a_carry_that_was_set() {
    assert_eq!(daa(C, 0x00), (0x60, C));
    assert_eq!(daa(0, 0x9A), (0x00, Z | C));
}

#[test]
fn unary_operations_and_their_flags() {
    assert_eq!(unary(Unary::Neg, 0, 0x80), (0x80, N | V | C));
    assert_eq!(unary(Unary::Neg, C, 0x00), (0x00, Z));
    assert_eq!(unary(Unary::Com, 0, 0x0F), (0xF0, N | C));
    assert_eq!(unary(Unary::Lsr, 0, 0x01), (0x00, Z | C));
    assert_eq!(unary(Unary::Ror, C, 0x02), (0x81, N));
    assert_eq!(unary(Unary::Ror, V, 0x01), (0x00, Z | V | C));
    assert_eq!(unary(Unary::Lsr, V, 0x04), (0x02, V));
    assert_eq!(unary(Unary::Asr, 0, 0x81), (0xC0, N | C));
    assert_eq!(unary(Unary::Asl, 0, 0xC0), (0x80, N | C));
    assert_eq!(unary(Unary::Asl, 0, 0x40), (0x80, N | V));
    assert_eq!(unary(Unary::Rol, C, 0x80), (0x01, V | C));
    assert_eq!(unary(Unary::Dec, C, 0x80), (0x7F, V | C));
    assert_eq!(unary(Unary::Inc, 0, 0x7F), (0x80, N | V));
    assert_eq!(unary(Unary::Tst, V, 0x00), (0x00, Z));
    assert_eq!(unary(Unary::Clr, N | V | C, 0x55), (0x00, Z));
}

#[test]
fn operations_that_undo_each_other() {
    for v in [0x00u8, 0x01, 0x7F, 0x80, 0xA5, 0xFF] {
        assert_eq!(unary(Unary::Com, 0, unary(Unary::Com, 0, v).0).0, v);
        assert_eq!(unary(Unary::Neg, 0, unary(Unary::Neg, 0, v).0).0, v);
        assert_eq!(unary(Unary::Inc, 0, unary(Unary::Dec, 0, v).0).0, v);
        for cc in [0u8, C] {
            let (l, f) = unary(Unary::Rol, cc, v);
            assert_eq!(unary(Unary::Ror, f, l).0, v);
        }
        assert_eq!(sub8_flags(0, add8_flags(0, v, 0x3C).0, 0x3C).0, v);
    }
}

#[test]
fn logic_clears_overflow_and_keeps_carry() {
    assert_eq!(binary(Binary::And, V | C, 0xF0, 0x0F), (0x00, Z | C));
    assert_eq!(binary(Binary::Bit, 0, 0xF0, 0x80), (0xF0, N));
    assert_eq!(binary(Binary::Eor, 0, 0xFF, 0x0F), (0xF0, N));
    assert_eq!(binary(Binary::Or, 0, 0x00, 0x00), (0x00, Z));
    assert_eq!(binary(Binary::Ld, V, 0x12, 0x34), (0x34, 0));
    assert_eq!(binary(Binary::Compare, 0, 0x10, 0x10), (0x10, Z));
    assert_eq!(binary(Binary::Sbc, C, 0x10, 0x0F), (0x00, Z | H));
    assert_eq!(binary(Binary::Adc, C, 0x10, 0x0E), (0x1F, 0));
}

#[test]
fn multiplication_puts_bit_seven_into_carry() {
    assert_eq!(multiply(0, 0xFF, 0xFF), (0xFE01, 0));
    assert_eq!(multiply(0, 0x10, 0x08), (0x0080, C));
    assert_eq!(multiply(N, 0x00, 0x55), (0x0000, N | Z));
}

#[test]
fn a_program_adds_decimal_numbers() {
    // LDA #$58, ADDA #$67, DAA
    let mut mem = Memory::new();
    mem.load_slice(0x0100, &[0x86, 0x58, 0x8B, 0x67, 0x19]);
    let mut cpu = Cpu::new();
    cpu.set_pc(0x0100);
    for _ in 0..3 {
        cpu.step(&mut mem, false);
    }
    assert_eq!(cpu.r.a, 0x25);
    assert_ne!(cpu.r.cc & C, 0);
    assert_eq!(mem.read8(0x0104), 0x19);
}
