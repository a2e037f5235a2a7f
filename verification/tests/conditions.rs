use em6809_core::cpu::Registers;
use em6809_core::debug::cond::evaluate;
use em6809_core::debug::CondError;

fn regs() -> Registers {
    let mut r = Registers::default();
    r.a = 0x12;
    r.b = 0x34;
    r.x = 0x1000;
    r.y = 0x2000;
    r.u = 0x3000;
    r.s = 0x4000;
    r.pc = 0xE000;
    r.dp = 0x05;
    r.cc = 0x50;
    r
}

fn holds(s: &str) -> bool {
    evaluate(s, &regs()).unwrap()
}

fn fails(s: &str) -> CondError {
    evaluate(s, &regs()).unwrap_err()
}

#[test]
fn every_register_can_be_named_in_either_case() {
    assert!(holds("a == 0x12 && B == $34 && d == 0x1234"));
    assert!(holds("X == 4096 && y == 8192 && u == $3000 && S == $4000"));
    assert!(holds("PC == 0xE000 && dp == 5 && CC == 80"));
}

#[test]
fn comparisons_and_logic() {
    assert!(holds("a < b"));
    assert!(holds("a <= 18 && b >= 52"));
    assert!(!holds("a > b"));
    assert!(holds("a != b"));
    assert!(holds("a > b || x > 0"));
    assert!(!holds("!(a < b)"));
    assert!(holds("!!a"));
}

#[test]
fn arithmetic_binds_tighter_than_bits_and_bits_than_comparisons() {
    assert!(holds("1 + 2 * 3 == 7"));
    assert!(holds("(1 + 2) * 3 == 9"));
    assert!(holds("7 / 2 == 3"));
    assert!(holds("0 - 7 / 2 == -3"));
    assert!(holds("cc & $40 == $40"));
    assert!(holds("1 | 2 + 4 == 7"));
    assert!(holds("6 ^ 3 & 1 == 7"));
    assert!(holds("5 ^ 5 == 0"));
    assert!(holds("-1 < 0"));
}

#[test]
fn zero_is_false_and_any_other_number_true() {
    assert!(!holds("0"));
    assert!(holds("2"));
    assert!(holds("-1"));
}

#[test]
fn characters_that_begin_no_token() {
    assert_eq!(fails("a == @"), CondError::UnknownChar('@'));
    assert_eq!(fails("a = 1"), CondError::UnknownChar('='));
    assert_eq!(fails("a = 1").to_string(), "unknown character '='");
    assert_eq!(fails("\u{20AC}"), CondError::UnknownChar('\u{20AC}'));
    assert_eq!(fails("a == \u{E9}").to_string(), "unknown character '\u{E9}'");
    assert_eq!(fails("\u{1F600}"), CondError::UnknownChar('\u{1F600}'));
}

#[test]
fn malformed_conditions() {
    assert_eq!(fails(""), CondError::Parse("empty expression".to_string()));
    assert_eq!(
        fails("a =="),
        CondError::Parse("expected number, register, or '(' but got None".to_string())
    );
    assert_eq!(
        fails("a == )"),
        CondError::Parse("expected number, register, or '(' but got Some(RParen)".to_string())
    );
    assert_eq!(
        fails("$").to_string(),
        "parse error: expected hex digits after '$'"
    );
    assert_eq!(
        fails("0x").to_string(),
        "parse error: expected hex digits after '0x'"
    );
    assert_eq!(
        fails("99999999999999999999").to_string(),
        "parse error: number too large to fit in target type"
    );
    assert!(matches!(fails("foo == 1"), CondError::Parse(_)));
    assert!(matches!(fails("(a"), CondError::Parse(_)));
    assert!(matches!(fails("a b"), CondError::Parse(_)));
}

#[test]
fn a_division_by_zero_has_no_value() {
    assert_eq!(fails("1 / (a - a)"), CondError::DivideByZero);
    assert_eq!(fails("1 / 0").to_string(), "divide by zero");
    assert_eq!(
        CondError::Unsupported("x".to_string()).to_string(),
        "unsupported: x"
    );
}
