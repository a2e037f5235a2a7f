//! The expression language of breakpoint conditions.
//!
//! ```text
//! expr     := or_expr
//! or_expr  := and_expr ( "||" and_expr )*
//! and_expr := not_expr ( "&&" not_expr )*
//! not_expr := "!" not_expr | rel_expr
//! rel_expr := bor_expr ( ("==" | "!=" | "<" | "<=" | ">" | ">=") bor_expr )?
//! bor_expr := xor_expr ( "|" xor_expr )*
//! xor_expr := band_expr ( "^" band_expr )*
//! band_expr := add_expr ( "&" add_expr )*
//! add_expr := mul_expr ( ("+" | "-") mul_expr )*
//! mul_expr := unary ( ("*" | "/") unary )*
//! unary    := "-" unary | atom
//! atom     := number | register | "(" expr ")"
//! number   := decimal | "0x" hex | "$" hex
//! register := a|b|d|x|y|u|s|pc|dp|cc, in either case
//! ```
//!
//! Truth values are the numbers 0 and 1; a condition holds when its value is
//! not zero. Arithmetic is that of 64-bit two's-complement numbers.

use crate::alu::{make_word, word};
use crate::cpu::Registers;
use crate::text::{
    all_digits, ascii_lower, chars_of, digits, digits_end, find_digits_end, lemma_digits_end,
    lemma_number_nonneg, number, push_chars, push_digits, push_text, read_number, spells,
    to_ascii_lower,
};
use vstd::prelude::*;

verus! {

/// Why a condition has no value.
#[derive(Debug, Clone, PartialEq, Eq)]
pub enum CondError {
    /// A character that begins no token.
    UnknownChar(char),
    /// The tokens do not fit the grammar.
    Parse(String),
    /// A division by zero.
    DivideByZero,
    /// Reserved for accessors that the language does not have.
    Unsupported(String),
}

/// The contents of a [`CondError`].
pub enum CondErrorView {
    UnknownChar(char),
    Parse(Seq<char>),
    DivideByZero,
    Unsupported(Seq<char>),
}

impl View for CondError {
    type V = CondErrorView;

    open spec fn view(&self) -> CondErrorView {
        match *self {
            CondError::UnknownChar(c) => CondErrorView::UnknownChar(c),
            CondError::Parse(s) => CondErrorView::Parse(s@),
            CondError::DivideByZero => CondErrorView::DivideByZero,
            CondError::Unsupported(s) => CondErrorView::Unsupported(s@),
        }
    }
}

/// What the message of an error says.
pub open spec fn error_text(e: CondErrorView) -> Seq<char> {
    match e {
        CondErrorView::UnknownChar(c) => "unknown character '"@ + seq![c] + "'"@,
        CondErrorView::Parse(s) => "parse error: "@ + s,
        CondErrorView::DivideByZero => "divide by zero"@,
        CondErrorView::Unsupported(s) => "unsupported: "@ + s,
    }
}

impl CondError {
    /// The message to show.
    pub fn to_string(&self) -> (s: String)
        ensures
            s@ == error_text(self@),
    {
        let mut out: String = String::new();
        match self {
            CondError::UnknownChar(c) => {
                push_text(&mut out, "unknown character '");
                out.push(*c);
                push_text(&mut out, "'");
            },
            CondError::Parse(s) => {
                push_text(&mut out, "parse error: ");
                push_text(&mut out, s.as_str());
            },
            CondError::DivideByZero => {
                push_text(&mut out, "divide by zero");
            },
            CondError::Unsupported(s) => {
                push_text(&mut out, "unsupported: ");
                push_text(&mut out, s.as_str());
            },
        }
        assert(out@ =~= error_text(self@));
        out
    }
}

/// A token; `T` holds the letters of an identifier.
pub enum Tok<T> {
    Num(i64),
    Ident(T),
    Eq,
    Ne,
    Lt,
    Le,
    Gt,
    Ge,
    AndAnd,
    OrOr,
    Amp,
    Pipe,
    Caret,
    Bang,
    Plus,
    Minus,
    Star,
    Slash,
    LParen,
    RParen,
}

/// The contents of a token.
pub open spec fn tok_view(t: Tok<Vec<char>>) -> Tok<Seq<char>> {
    match t {
        Tok::Num(n) => Tok::Num(n),
        Tok::Ident(s) => Tok::Ident(s@),
        Tok::Eq => Tok::Eq,
        Tok::Ne => Tok::Ne,
        Tok::Lt => Tok::Lt,
        Tok::Le => Tok::Le,
        Tok::Gt => Tok::Gt,
        Tok::Ge => Tok::Ge,
        Tok::AndAnd => Tok::AndAnd,
        Tok::OrOr => Tok::OrOr,
        Tok::Amp => Tok::Amp,
        Tok::Pipe => Tok::Pipe,
        Tok::Caret => Tok::Caret,
        Tok::Bang => Tok::Bang,
        Tok::Plus => Tok::Plus,
        Tok::Minus => Tok::Minus,
        Tok::Star => Tok::Star,
        Tok::Slash => Tok::Slash,
        Tok::LParen => Tok::LParen,
        Tok::RParen => Tok::RParen,
    }
}

pub open spec fn toks_view(v: Seq<Tok<Vec<char>>>) -> Seq<Tok<Seq<char>>> {
    v.map_values(|t: Tok<Vec<char>>| tok_view(t))
}

/// What stands at one place of a condition.
pub enum Lexeme<T> {
    /// White space, up to the given place.
    Space(int),
    /// A token, up to the given place.
    Token(T, int),
    /// No token.
    Fail(CondErrorView),
}

pub open spec fn is_blank(c: char) -> bool {
    9 <= c as int <= 13 || c as int == 32
}

pub open spec fn is_letter(c: char) -> bool {
    65 <= c as int <= 90 || 97 <= c as int <= 122 || c as int == 95
}

pub open spec fn is_decimal(c: char) -> bool {
    48 <= c as int <= 57
}

/// The place behind the letters, digits and underscores from `i` on.
pub open spec fn ident_end(s: Seq<char>, i: int) -> int
    decreases s.len() - i,
{
    if 0 <= i < s.len() && (is_letter(s[i]) || is_decimal(s[i])) {
        ident_end(s, i + 1)
    } else {
        i
    }
}

/// A number of digits from `from` to `to`, which must fit in 63 bits.
pub open spec fn number_lexeme(s: Seq<char>, from: int, to: int, radix: int) -> Lexeme<Tok<Seq<char>>> {
    let n = number(s.subrange(from, to), radix);
    if n <= i64::MAX {
        Lexeme::Token(Tok::Num(n as i64), to)
    } else {
        Lexeme::Fail(CondErrorView::Parse("number too large to fit in target type"@))
    }
}

/// The two-character token at `i`.
pub open spec fn pair_token(c: char, d: char) -> Option<Tok<Seq<char>>> {
    if c == '=' && d == '=' {
        Some(Tok::Eq)
    } else if c == '!' && d == '=' {
        Some(Tok::Ne)
    } else if c == '<' && d == '=' {
        Some(Tok::Le)
    } else if c == '>' && d == '=' {
        Some(Tok::Ge)
    } else if c == '&' && d == '&' {
        Some(Tok::AndAnd)
    } else if c == '|' && d == '|' {
        Some(Tok::OrOr)
    } else {
        None
    }
}

pub open spec fn single_token(c: char) -> Option<Tok<Seq<char>>> {
    match c {
        '<' => Some(Tok::Lt),
        '>' => Some(Tok::Gt),
        '&' => Some(Tok::Amp),
        '|' => Some(Tok::Pipe),
        '^' => Some(Tok::Caret),
        '!' => Some(Tok::Bang),
        '+' => Some(Tok::Plus),
        '-' => Some(Tok::Minus),
        '*' => Some(Tok::Star),
        '/' => Some(Tok::Slash),
        '(' => Some(Tok::LParen),
        ')' => Some(Tok::RParen),
        _ => None,
    }
}

/// What stands at place `i`.
pub open spec fn lexeme(s: Seq<char>, i: int) -> Lexeme<Tok<Seq<char>>> {
    let c = s[i];
    if is_blank(c) {
        Lexeme::Space(i + 1)
    } else if c == '$' {
        let e = digits_end(s, i + 1, 16);
        if e == i + 1 {
            Lexeme::Fail(CondErrorView::Parse("expected hex digits after '$'"@))
        } else {
            number_lexeme(s, i + 1, e, 16)
        }
    } else if c == '0' && i + 1 < s.len() && s[i + 1] == 'x' {
        let e = digits_end(s, i + 2, 16);
        if e == i + 2 {
            Lexeme::Fail(CondErrorView::Parse("expected hex digits after '0x'"@))
        } else {
            number_lexeme(s, i + 2, e, 16)
        }
    } else if is_decimal(c) {
        number_lexeme(s, i, digits_end(s, i, 10), 10)
    } else if is_letter(c) {
        let e = ident_end(s, i);
        Lexeme::Token(Tok::Ident(s.subrange(i, e).map_values(|c: char| ascii_lower(c))), e)
    } else if i + 1 < s.len() && pair_token(c, s[i + 1]) is Some {
        Lexeme::Token(pair_token(c, s[i + 1])->0, i + 2)
    } else {
        match single_token(c) {
            Some(t) => Lexeme::Token(t, i + 1),
            None => Lexeme::Fail(CondErrorView::UnknownChar(c)),
        }
    }
}

pub proof fn lemma_ident_end(s: Seq<char>, i: int)
    requires
        0 <= i <= s.len(),
    ensures
        i <= ident_end(s, i) <= s.len(),
    decreases s.len() - i,
{
    if i < s.len() && (is_letter(s[i]) || is_decimal(s[i])) {
        lemma_ident_end(s, i + 1);
    }
}

/// A token or white space takes at least one character.
pub proof fn lemma_lexeme_advances(s: Seq<char>, i: int)
    requires
        0 <= i < s.len(),
    ensures
        match lexeme(s, i) {
            Lexeme::Space(j) => i < j <= s.len(),
            Lexeme::Token(t, j) => i < j <= s.len(),
            Lexeme::Fail(e) => true,
        },
{
    lemma_digits_end(s, i + 1, 16);
    if i + 2 <= s.len() {
        lemma_digits_end(s, i + 2, 16);
    }
    lemma_digits_end(s, i + 1, 10);
    lemma_ident_end(s, i + 1);
}

/// The tokens of `s` from place `i` on, behind the tokens `acc`.
pub open spec fn tokens(s: Seq<char>, i: int, acc: Seq<Tok<Seq<char>>>) -> Result<
    Seq<Tok<Seq<char>>>,
    CondErrorView,
>
    decreases s.len() - i,
{
    if 0 <= i < s.len() {
        proof {
            lemma_lexeme_advances(s, i);
        }
        match lexeme(s, i) {
            Lexeme::Space(j) => tokens(s, j, acc),
            Lexeme::Token(t, j) => tokens(s, j, acc.push(t)),
            Lexeme::Fail(e) => Err(e),
        }
    } else {
        Ok(acc)
    }
}

/// A register that a condition can name.
#[derive(Clone, Copy, PartialEq, Eq, Structural, Debug)]
pub enum Reg {
    A,
    B,
    D,
    X,
    Y,
    U,
    S,
    Pc,
    Dp,
    Cc,
}

pub open spec fn reg_named(name: Seq<char>) -> Option<Reg> {
    if name == "a"@ {
        Some(Reg::A)
    } else if name == "b"@ {
        Some(Reg::B)
    } else if name == "d"@ {
        Some(Reg::D)
    } else if name == "x"@ {
        Some(Reg::X)
    } else if name == "y"@ {
        Some(Reg::Y)
    } else if name == "u"@ {
        Some(Reg::U)
    } else if name == "s"@ {
        Some(Reg::S)
    } else if name == "pc"@ {
        Some(Reg::Pc)
    } else if name == "dp"@ {
        Some(Reg::Dp)
    } else if name == "cc"@ {
        Some(Reg::Cc)
    } else {
        None
    }
}

pub open spec fn reg_contents(r: Reg, regs: Registers) -> i64 {
    match r {
        Reg::A => regs.a as i64,
        Reg::B => regs.b as i64,
        Reg::D => word(regs.a, regs.b) as i64,
        Reg::X => regs.x as i64,
        Reg::Y => regs.y as i64,
        Reg::U => regs.u as i64,
        Reg::S => regs.s as i64,
        Reg::Pc => regs.pc as i64,
        Reg::Dp => regs.dp as i64,
        Reg::Cc => regs.cc as i64,
    }
}

#[derive(Clone, Copy, PartialEq, Eq, Structural, Debug)]
pub enum BinOp {
    Add,
    Sub,
    Mul,
    Div,
    Eq,
    Ne,
    Lt,
    Le,
    Gt,
    Ge,
    And,
    Or,
    BitAnd,
    BitOr,
    BitXor,
}

/// A parsed condition.
pub enum Expr {
    Num(i64),
    Reg(Reg),
    Neg(Box<Expr>),
    Not(Box<Expr>),
    Bin(BinOp, Box<Expr>, Box<Expr>),
}

/// The name of a token that begins no operand, as an error shows it.
pub open spec fn tok_name(t: Tok<Seq<char>>) -> Seq<char> {
    match t {
        Tok::Eq => "Eq"@,
        Tok::Ne => "Ne"@,
        Tok::Lt => "Lt"@,
        Tok::Le => "Le"@,
        Tok::Gt => "Gt"@,
        Tok::Ge => "Ge"@,
        Tok::AndAnd => "AndAnd"@,
        Tok::OrOr => "OrOr"@,
        Tok::Amp => "Amp"@,
        Tok::Pipe => "Pipe"@,
        Tok::Caret => "Caret"@,
        Tok::Bang => "Bang"@,
        Tok::Plus => "Plus"@,
        Tok::Minus => "Minus"@,
        Tok::Star => "Star"@,
        Tok::Slash => "Slash"@,
        Tok::LParen => "LParen"@,
        Tok::RParen => "RParen"@,
        _ => Seq::<char>::empty(),
    }
}

pub open spec fn operand_error(toks: Seq<Tok<Seq<char>>>, pos: int) -> CondErrorView {
    CondErrorView::Parse(
        "expected number, register, or '(' but got "@ + (if pos < toks.len() {
            "Some("@ + tok_name(toks[pos]) + ")"@
        } else {
            "None"@
        }),
    )
}

/// What a rule of the grammar makes of the tokens from some place on: the
/// expression and the place behind it, or an error.
pub type Parsed = Result<(Expr, int), CondErrorView>;

pub open spec fn bin(op: BinOp, a: Expr, b: Expr) -> Expr {
    Expr::Bin(op, Box::new(a), Box::new(b))
}

/// A parse that went past `pos` and not past the last token.
pub open spec fn ahead(r: Parsed, pos: int, len: nat) -> bool {
    r matches Ok((_, p)) && pos < p <= len
}

pub open spec fn parse_or(toks: Seq<Tok<Seq<char>>>, pos: int) -> Parsed
    decreases toks.len() - pos, 12int,
{
    let r = parse_and(toks, pos);
    if ahead(r, pos, toks.len()) {
        parse_or_rest(toks, r->Ok_0.0, r->Ok_0.1)
    } else {
        r
    }
}

pub open spec fn parse_or_rest(toks: Seq<Tok<Seq<char>>>, lhs: Expr, pos: int) -> Parsed
    decreases toks.len() - pos, 0int,
{
    if 0 <= pos < toks.len() && toks[pos] is OrOr {
        let r = parse_and(toks, pos + 1);
        if ahead(r, pos + 1, toks.len()) {
            parse_or_rest(toks, bin(BinOp::Or, lhs, r->Ok_0.0), r->Ok_0.1)
        } else {
            r
        }
    } else {
        Ok((lhs, pos))
    }
}

pub open spec fn parse_and(toks: Seq<Tok<Seq<char>>>, pos: int) -> Parsed
    decreases toks.len() - pos, 10int,
{
    let r = parse_not(toks, pos);
    if ahead(r, pos, toks.len()) {
        parse_and_rest(toks, r->Ok_0.0, r->Ok_0.1)
    } else {
        r
    }
}

pub open spec fn parse_and_rest(toks: Seq<Tok<Seq<char>>>, lhs: Expr, pos: int) -> Parsed
    decreases toks.len() - pos, 0int,
{
    if 0 <= pos < toks.len() && toks[pos] is AndAnd {
        let r = parse_not(toks, pos + 1);
        if ahead(r, pos + 1, toks.len()) {
            parse_and_rest(toks, bin(BinOp::And, lhs, r->Ok_0.0), r->Ok_0.1)
        } else {
            r
        }
    } else {
        Ok((lhs, pos))
    }
}

pub open spec fn parse_not(toks: Seq<Tok<Seq<char>>>, pos: int) -> Parsed
    decreases toks.len() - pos, 9int,
{
    if 0 <= pos < toks.len() && toks[pos] is Bang {
        match parse_not(toks, pos + 1) {
            Ok((e, p)) => Ok((Expr::Not(Box::new(e)), p)),
            Err(e) => Err(e),
        }
    } else {
        parse_rel(toks, pos)
    }
}

/// The comparison that a token stands for.
pub open spec fn relation(t: Tok<Seq<char>>) -> Option<BinOp> {
    match t {
        Tok::Eq => Some(BinOp::Eq),
        Tok::Ne => Some(BinOp::Ne),
        Tok::Lt => Some(BinOp::Lt),
        Tok::Le => Some(BinOp::Le),
        Tok::Gt => Some(BinOp::Gt),
        Tok::Ge => Some(BinOp::Ge),
        _ => None,
    }
}

pub open spec fn sum_op(t: Tok<Seq<char>>) -> Option<BinOp> {
    match t {
        Tok::Plus => Some(BinOp::Add),
        Tok::Minus => Some(BinOp::Sub),
        _ => None,
    }
}

pub open spec fn product_op(t: Tok<Seq<char>>) -> Option<BinOp> {
    match t {
        Tok::Star => Some(BinOp::Mul),
        Tok::Slash => Some(BinOp::Div),
        _ => None,
    }
}

pub open spec fn parse_rel(toks: Seq<Tok<Seq<char>>>, pos: int) -> Parsed
    decreases toks.len() - pos, 8int,
{
    let r = parse_bor(toks, pos);
    if ahead(r, pos, toks.len()) {
        let (lhs, p) = r->Ok_0;
        if p < toks.len() && relation(toks[p]) is Some {
            match parse_bor(toks, p + 1) {
                Ok((rhs, q)) => Ok((bin(relation(toks[p])->0, lhs, rhs), q)),
                Err(e) => Err(e),
            }
        } else {
            Ok((lhs, p))
        }
    } else {
        r
    }
}

pub open spec fn parse_bor(toks: Seq<Tok<Seq<char>>>, pos: int) -> Parsed
    decreases toks.len() - pos, 7int,
{
    let r = parse_xor(toks, pos);
    if ahead(r, pos, toks.len()) {
        parse_bor_rest(toks, r->Ok_0.0, r->Ok_0.1)
    } else {
        r
    }
}

pub open spec fn parse_bor_rest(toks: Seq<Tok<Seq<char>>>, lhs: Expr, pos: int) -> Parsed
    decreases toks.len() - pos, 0int,
{
    if 0 <= pos < toks.len() && toks[pos] is Pipe {
        let r = parse_xor(toks, pos + 1);
        if ahead(r, pos + 1, toks.len()) {
            parse_bor_rest(toks, bin(BinOp::BitOr, lhs, r->Ok_0.0), r->Ok_0.1)
        } else {
            r
        }
    } else {
        Ok((lhs, pos))
    }
}

pub open spec fn parse_xor(toks: Seq<Tok<Seq<char>>>, pos: int) -> Parsed
    decreases toks.len() - pos, 6int,
{
    let r = parse_band(toks, pos);
    if ahead(r, pos, toks.len()) {
        parse_xor_rest(toks, r->Ok_0.0, r->Ok_0.1)
    } else {
        r
    }
}

pub open spec fn parse_xor_rest(toks: Seq<Tok<Seq<char>>>, lhs: Expr, pos: int) -> Parsed
    decreases toks.len() - pos, 0int,
{
    if 0 <= pos < toks.len() && toks[pos] is Caret {
        let r = parse_band(toks, pos + 1);
        if ahead(r, pos + 1, toks.len()) {
            parse_xor_rest(toks, bin(BinOp::BitXor, lhs, r->Ok_0.0), r->Ok_0.1)
        } else {
            r
        }
    } else {
        Ok((lhs, pos))
    }
}

pub open spec fn parse_band(toks: Seq<Tok<Seq<char>>>, pos: int) -> Parsed
    decreases toks.len() - pos, 5int,
{
    let r = parse_add(toks, pos);
    if ahead(r, pos, toks.len()) {
        parse_band_rest(toks, r->Ok_0.0, r->Ok_0.1)
    } else {
        r
    }
}

pub open spec fn parse_band_rest(toks: Seq<Tok<Seq<char>>>, lhs: Expr, pos: int) -> Parsed
    decreases toks.len() - pos, 0int,
{
    if 0 <= pos < toks.len() && toks[pos] is Amp {
        let r = parse_add(toks, pos + 1);
        if ahead(r, pos + 1, toks.len()) {
            parse_band_rest(toks, bin(BinOp::BitAnd, lhs, r->Ok_0.0), r->Ok_0.1)
        } else {
            r
        }
    } else {
        Ok((lhs, pos))
    }
}

pub open spec fn parse_add(toks: Seq<Tok<Seq<char>>>, pos: int) -> Parsed
    decreases toks.len() - pos, 4int,
{
    let r = parse_mul(toks, pos);
    if ahead(r, pos, toks.len()) {
        parse_add_rest(toks, r->Ok_0.0, r->Ok_0.1)
    } else {
        r
    }
}

pub open spec fn parse_add_rest(toks: Seq<Tok<Seq<char>>>, lhs: Expr, pos: int) -> Parsed
    decreases toks.len() - pos, 0int,
{
    if 0 <= pos < toks.len() && sum_op(toks[pos]) is Some {
        let r = parse_mul(toks, pos + 1);
        if ahead(r, pos + 1, toks.len()) {
            parse_add_rest(toks, bin(sum_op(toks[pos])->0, lhs, r->Ok_0.0), r->Ok_0.1)
        } else {
            r
        }
    } else {
        Ok((lhs, pos))
    }
}

pub open spec fn parse_mul(toks: Seq<Tok<Seq<char>>>, pos: int) -> Parsed
    decreases toks.len() - pos, 3int,
{
    let r = parse_unary(toks, pos);
    if ahead(r, pos, toks.len()) {
        parse_mul_rest(toks, r->Ok_0.0, r->Ok_0.1)
    } else {
        r
    }
}

pub open spec fn parse_mul_rest(toks: Seq<Tok<Seq<char>>>, lhs: Expr, pos: int) -> Parsed
    decreases toks.len() - pos, 0int,
{
    if 0 <= pos < toks.len() && product_op(toks[pos]) is Some {
        let r = parse_unary(toks, pos + 1);
        if ahead(r, pos + 1, toks.len()) {
            parse_mul_rest(toks, bin(product_op(toks[pos])->0, lhs, r->Ok_0.0), r->Ok_0.1)
        } else {
            r
        }
    } else {
        Ok((lhs, pos))
    }
}

pub open spec fn parse_unary(toks: Seq<Tok<Seq<char>>>, pos: int) -> Parsed
    decreases toks.len() - pos, 2int,
{
    if 0 <= pos < toks.len() && toks[pos] is Minus {
        match parse_unary(toks, pos + 1) {
            Ok((e, p)) => Ok((Expr::Neg(Box::new(e)), p)),
            Err(e) => Err(e),
        }
    } else {
        parse_atom(toks, pos)
    }
}

pub open spec fn parse_atom(toks: Seq<Tok<Seq<char>>>, pos: int) -> Parsed
    decreases toks.len() - pos, 1int,
{
    if 0 <= pos < toks.len() {
        match toks[pos] {
            Tok::Num(n) => Ok((Expr::Num(n), pos + 1)),
            Tok::Ident(name) => match reg_named(name) {
                Some(r) => Ok((Expr::Reg(r), pos + 1)),
                None => Err(CondErrorView::Parse("unknown identifier '"@ + name + "'"@)),
            },
            Tok::LParen => match parse_or(toks, pos + 1) {
                Ok((e, p)) => if 0 <= p < toks.len() && toks[p] is RParen {
                    Ok((e, p + 1))
                } else {
                    Err(CondErrorView::Parse("expected ')'"@))
                },
                Err(e) => Err(e),
            },
            _ => Err(operand_error(toks, pos)),
        }
    } else {
        Err(operand_error(toks, pos))
    }
}

/// The expression that a condition spells.
pub open spec fn parsed(s: Seq<char>) -> Result<Expr, CondErrorView> {
    match tokens(s, 0, Seq::empty()) {
        Err(e) => Err(e),
        Ok(toks) => if toks.len() == 0 {
            Err(CondErrorView::Parse("empty expression"@))
        } else {
            match parse_or(toks, 0) {
                Err(e) => Err(e),
                Ok((e, p)) => if p == toks.len() {
                    Ok(e)
                } else {
                    Err(
                        CondErrorView::Parse(
                            "trailing tokens after expression at position "@ + digits(p as nat),
                        ),
                    )
                },
            }
        },
    }
}

pub open spec fn truth(b: bool) -> i64 {
    if b {
        1
    } else {
        0
    }
}

/// The value of an expression. Both operands of a binary operation are
/// evaluated, the left one first.
pub open spec fn value_of(e: Expr, regs: Registers) -> Result<i64, CondErrorView>
    decreases e,
{
    match e {
        Expr::Num(n) => Ok(n),
        Expr::Reg(r) => Ok(reg_contents(r, regs)),
        Expr::Neg(x) => match value_of(*x, regs) {
            Ok(v) => Ok(0i64.wrapping_sub(v)),
            Err(e) => Err(e),
        },
        Expr::Not(x) => match value_of(*x, regs) {
            Ok(v) => Ok(truth(v == 0)),
            Err(e) => Err(e),
        },
        Expr::Bin(op, a, b) => match value_of(*a, regs) {
            Err(e) => Err(e),
            Ok(av) => match value_of(*b, regs) {
                Err(e) => Err(e),
                Ok(bv) => apply(op, av, bv),
            },
        },
    }
}

/// The result of a binary operation.
pub open spec fn apply(op: BinOp, av: i64, bv: i64) -> Result<i64, CondErrorView> {
    match op {
        BinOp::Add => Ok(av.wrapping_add(bv)),
        BinOp::Sub => Ok(av.wrapping_sub(bv)),
        BinOp::Mul => Ok(av.wrapping_mul(bv)),
        BinOp::Div => if bv == 0 {
            Err(CondErrorView::DivideByZero)
        } else {
            match av.checked_div(bv) {
                Some(q) => Ok(q),
                None => Ok(i64::MIN),
            }
        },
        BinOp::Eq => Ok(truth(av == bv)),
        BinOp::Ne => Ok(truth(av != bv)),
        BinOp::Lt => Ok(truth(av < bv)),
        BinOp::Le => Ok(truth(av <= bv)),
        BinOp::Gt => Ok(truth(av > bv)),
        BinOp::Ge => Ok(truth(av >= bv)),
        BinOp::And => Ok(truth(av != 0 && bv != 0)),
        BinOp::Or => Ok(truth(av != 0 || bv != 0)),
        BinOp::BitAnd => Ok(av & bv),
        BinOp::BitOr => Ok(av | bv),
        BinOp::BitXor => Ok(av ^ bv),
    }
}

/// Whether a condition holds.
pub open spec fn holds(s: Seq<char>, regs: Registers) -> Result<bool, CondErrorView> {
    match parsed(s) {
        Err(e) => Err(e),
        Ok(e) => match value_of(e, regs) {
            Err(e) => Err(e),
            Ok(v) => Ok(v != 0),
        },
    }
}

/// The contents of an outcome.
pub open spec fn outcome<T>(r: Result<T, CondError>) -> Result<T, CondErrorView> {
    match r {
        Ok(v) => Ok(v),
        Err(e) => Err(e@),
    }
}

fn parse_error(msg: &str) -> (e: CondError)
    ensures
        e@ == CondErrorView::Parse(msg@),
{
    let mut out: String = String::new();
    push_text(&mut out, msg);
    assert(out@ =~= msg@);
    CondError::Parse(out)
}

/// One place of a condition, read.
enum Lexed {
    Space(usize),
    Token(Tok<Vec<char>>, usize),
    Fail(CondError),
}

spec fn lexed_view(l: Lexed) -> Lexeme<Tok<Seq<char>>> {
    match l {
        Lexed::Space(j) => Lexeme::Space(j as int),
        Lexed::Token(t, j) => Lexeme::Token(tok_view(t), j as int),
        Lexed::Fail(e) => Lexeme::Fail(e@),
    }
}

fn read_lexeme_number(v: &Vec<char>, from: usize, to: usize, radix: u64) -> (l: Lexed)
    requires
        from <= to <= v@.len(),
        2 <= radix <= 16,
        all_digits(v@.subrange(from as int, to as int), radix as int),
    ensures
        lexed_view(l) == number_lexeme(v@, from as int, to as int, radix as int),
{
    proof {
        lemma_number_nonneg(v@.subrange(from as int, to as int), radix as int);
    }
    match read_number(v, from, to, radix, 0x7FFF_FFFF_FFFF_FFFF) {
        Some(n) => Lexed::Token(Tok::Num(n as i64), to),
        None => Lexed::Fail(parse_error("number too large to fit in target type")),
    }
}

fn blank(c: char) -> (r: bool)
    ensures
        r == is_blank(c),
{
    let n: u32 = c as u32;
    (9 <= n && n <= 13) || n == 32
}

fn letter(c: char) -> (r: bool)
    ensures
        r == is_letter(c),
{
    let n: u32 = c as u32;
    (65 <= n && n <= 90) || (97 <= n && n <= 122) || n == 95
}

fn decimal_digit(c: char) -> (r: bool)
    ensures
        r == is_decimal(c),
{
    let n: u32 = c as u32;
    48 <= n && n <= 57
}

fn read_ident(v: &Vec<char>, i: usize) -> (l: Lexed)
    requires
        i < v@.len(),
    ensures
        lexed_view(l) == Lexeme::Token(
            Tok::Ident(
                v@.subrange(i as int, ident_end(v@, i as int)).map_values(
                    |c: char| ascii_lower(c),
                ),
            ),
            ident_end(v@, i as int),
        ),
{
    let mut name: Vec<char> = Vec::new();
    let mut k: usize = i;
    while k < v.len() && (letter(v[k]) || decimal_digit(v[k]))
        invariant
            i <= k <= v@.len(),
            ident_end(v@, i as int) == ident_end(v@, k as int),
            name@ == v@.subrange(i as int, k as int).map_values(|c: char| ascii_lower(c)),
        decreases v@.len() - k,
    {
        name.push(to_ascii_lower(v[k]));
        k = k + 1;
        assert(name@ =~= v@.subrange(i as int, k as int).map_values(|c: char| ascii_lower(c)));
    }
    Lexed::Token(Tok::Ident(name), k)
}

fn read_pair(c: char, d: char) -> (t: Option<Tok<Vec<char>>>)
    ensures
        t is Some == pair_token(c, d) is Some,
        t is Some ==> tok_view(t->0) == pair_token(c, d)->0,
{
    if c == '=' && d == '=' {
        Some(Tok::Eq)
    } else if c == '!' && d == '=' {
        Some(Tok::Ne)
    } else if c == '<' && d == '=' {
        Some(Tok::Le)
    } else if c == '>' && d == '=' {
        Some(Tok::Ge)
    } else if c == '&' && d == '&' {
        Some(Tok::AndAnd)
    } else if c == '|' && d == '|' {
        Some(Tok::OrOr)
    } else {
        None
    }
}

fn read_single(c: char, j: usize) -> (l: Lexed)
    ensures
        lexed_view(l) == match single_token(c) {
            Some(t) => Lexeme::Token(t, j as int),
            None => Lexeme::Fail(CondErrorView::UnknownChar(c)),
        },
{
    match c {
        '<' => Lexed::Token(Tok::Lt, j),
        '>' => Lexed::Token(Tok::Gt, j),
        '&' => Lexed::Token(Tok::Amp, j),
        '|' => Lexed::Token(Tok::Pipe, j),
        '^' => Lexed::Token(Tok::Caret, j),
        '!' => Lexed::Token(Tok::Bang, j),
        '+' => Lexed::Token(Tok::Plus, j),
        '-' => Lexed::Token(Tok::Minus, j),
        '*' => Lexed::Token(Tok::Star, j),
        '/' => Lexed::Token(Tok::Slash, j),
        '(' => Lexed::Token(Tok::LParen, j),
        ')' => Lexed::Token(Tok::RParen, j),
        _ => Lexed::Fail(CondError::UnknownChar(c)),
    }
}

fn read_lexeme(v: &Vec<char>, i: usize) -> (l: Lexed)
    requires
        i < v@.len(),
    ensures
        lexed_view(l) == lexeme(v@, i as int),
{
    let len: usize = v.len();
    let c: char = v[i];
    if blank(c) {
        return Lexed::Space(i + 1);
    }
    if c == '$' {
        let e: usize = find_digits_end(v, i + 1, 16);
        if e == i + 1 {
            return Lexed::Fail(parse_error("expected hex digits after '$'"));
        }
        return read_lexeme_number(v, i + 1, e, 16);
    }
    if c == '0' && i + 1 < len && v[i + 1] == 'x' {
        let e: usize = find_digits_end(v, i + 2, 16);
        if e == i + 2 {
            return Lexed::Fail(parse_error("expected hex digits after '0x'"));
        }
        return read_lexeme_number(v, i + 2, e, 16);
    }
    if decimal_digit(c) {
        let e: usize = find_digits_end(v, i, 10);
        return read_lexeme_number(v, i, e, 10);
    }
    if letter(c) {
        return read_ident(v, i);
    }
    if i + 1 < len {
        if let Some(t) = read_pair(c, v[i + 1]) {
            return Lexed::Token(t, i + 2);
        }
    }
    read_single(c, i + 1)
}

/// Splits a condition into tokens.
fn tokenize(v: &Vec<char>) -> (r: Result<Vec<Tok<Vec<char>>>, CondError>)
    ensures
        match r {
            Ok(toks) => tokens(v@, 0, Seq::empty()) == Ok::<_, CondErrorView>(toks_view(toks@)),
            Err(e) => tokens(v@, 0, Seq::empty()) == Err::<Seq<Tok<Seq<char>>>, _>(e@),
        },
{
    let mut out: Vec<Tok<Vec<char>>> = Vec::new();
    let mut i: usize = 0;
    assert(toks_view(out@) =~= Seq::<Tok<Seq<char>>>::empty());
    while i < v.len()
        invariant
            i <= v@.len(),
            tokens(v@, 0, Seq::empty()) == tokens(v@, i as int, toks_view(out@)),
        decreases v@.len() - i,
    {
        proof {
            lemma_lexeme_advances(v@, i as int);
        }
        match read_lexeme(v, i) {
            Lexed::Space(j) => {
                i = j;
            },
            Lexed::Token(t, j) => {
                let ghost before = out@;
                let ghost tv = tok_view(t);
                out.push(t);
                assert(toks_view(out@) =~= toks_view(before).push(tv));
                i = j;
            },
            Lexed::Fail(e) => {
                return Err(e);
            },
        }
    }
    Ok(out)
}

fn reg_from_ident(name: &Vec<char>) -> (r: Option<Reg>)
    ensures
        r == reg_named(name@),
{
    if spells(name, "a") {
        Some(Reg::A)
    } else if spells(name, "b") {
        Some(Reg::B)
    } else if spells(name, "d") {
        Some(Reg::D)
    } else if spells(name, "x") {
        Some(Reg::X)
    } else if spells(name, "y") {
        Some(Reg::Y)
    } else if spells(name, "u") {
        Some(Reg::U)
    } else if spells(name, "s") {
        Some(Reg::S)
    } else if spells(name, "pc") {
        Some(Reg::Pc)
    } else if spells(name, "dp") {
        Some(Reg::Dp)
    } else if spells(name, "cc") {
        Some(Reg::Cc)
    } else {
        None
    }
}

fn reg_value(r: Reg, regs: &Registers) -> (v: i64)
    ensures
        v == reg_contents(r, *regs),
{
    match r {
        Reg::A => regs.a as i64,
        Reg::B => regs.b as i64,
        Reg::D => make_word(regs.a, regs.b) as i64,
        Reg::X => regs.x as i64,
        Reg::Y => regs.y as i64,
        Reg::U => regs.u as i64,
        Reg::S => regs.s as i64,
        Reg::Pc => regs.pc as i64,
        Reg::Dp => regs.dp as i64,
        Reg::Cc => regs.cc as i64,
    }
}

fn tok_str(t: &Tok<Vec<char>>) -> (s: &'static str)
    ensures
        s@ == tok_name(tok_view(*t)),
{
    proof {
        reveal_strlit("");
    }
    assert(""@ =~= Seq::<char>::empty());
    match t {
        Tok::Eq => "Eq",
        Tok::Ne => "Ne",
        Tok::Lt => "Lt",
        Tok::Le => "Le",
        Tok::Gt => "Gt",
        Tok::Ge => "Ge",
        Tok::AndAnd => "AndAnd",
        Tok::OrOr => "OrOr",
        Tok::Amp => "Amp",
        Tok::Pipe => "Pipe",
        Tok::Caret => "Caret",
        Tok::Bang => "Bang",
        Tok::Plus => "Plus",
        Tok::Minus => "Minus",
        Tok::Star => "Star",
        Tok::Slash => "Slash",
        Tok::LParen => "LParen",
        Tok::RParen => "RParen",
        _ => "",
    }
}

fn make_operand_error(toks: &Vec<Tok<Vec<char>>>, pos: usize) -> (e: CondError)
    ensures
        e@ == operand_error(toks_view(toks@), pos as int),
{
    let mut out: String = String::new();
    push_text(&mut out, "expected number, register, or '(' but got ");
    if pos < toks.len() {
        push_text(&mut out, "Some(");
        push_text(&mut out, tok_str(&toks[pos]));
        push_text(&mut out, ")");
    } else {
        push_text(&mut out, "None");
    }
    assert(CondErrorView::Parse(out@) == operand_error(toks_view(toks@), pos as int)) by {
        assert(out@ =~= operand_error(toks_view(toks@), pos as int)->Parse_0);
    }
    CondError::Parse(out)
}

/// What an executable rule returns, compared with the grammar.
spec fn agrees(r: Result<(Expr, usize), CondError>, p: Parsed, pos: int, len: nat) -> bool {
    match r {
        Ok((e, q)) => p == Ok::<(Expr, int), CondErrorView>((e, q as int)) && pos < q <= len,
        Err(e) => p == Err::<(Expr, int), CondErrorView>(e@),
    }
}

/// The parser: rules applied to a list of tokens.
struct Parser<'a> {
    toks: &'a Vec<Tok<Vec<char>>>,
}

impl<'a> Parser<'a> {
    spec fn v(self) -> Seq<Tok<Seq<char>>> {
        toks_view(self.toks@)
    }

    fn rule_or(&self, pos: usize) -> (r: Result<(Expr, usize), CondError>)
        requires
            pos <= self.toks@.len(),
        ensures
            agrees(r, parse_or(self.v(), pos as int), pos as int, self.toks@.len()),
        decreases self.toks@.len() - pos, 12int,
    {
        let (mut lhs, mut p) = match self.rule_and(pos) {
            Ok(ok) => ok,
            Err(e) => {
                return Err(e);
            },
        };
        while p < self.toks.len() && matches!(self.toks[p], Tok::OrOr)
            invariant
                pos < p <= self.toks@.len(),
                parse_or(self.v(), pos as int) == parse_or_rest(self.v(), lhs, p as int),
            decreases self.toks@.len() - p,
        {
            match self.rule_and(p + 1) {
                Ok((rhs, q)) => {
                    lhs = Expr::Bin(BinOp::Or, Box::new(lhs), Box::new(rhs));
                    p = q;
                },
                Err(e) => {
                    return Err(e);
                },
            }
        }
        Ok((lhs, p))
    }

    fn rule_and(&self, pos: usize) -> (r: Result<(Expr, usize), CondError>)
        requires
            pos <= self.toks@.len(),
        ensures
            agrees(r, parse_and(self.v(), pos as int), pos as int, self.toks@.len()),
        decreases self.toks@.len() - pos, 10int,
    {
        let (mut lhs, mut p) = match self.rule_not(pos) {
            Ok(ok) => ok,
            Err(e) => {
                return Err(e);
            },
        };
        while p < self.toks.len() && matches!(self.toks[p], Tok::AndAnd)
            invariant
                pos < p <= self.toks@.len(),
                parse_and(self.v(), pos as int) == parse_and_rest(self.v(), lhs, p as int),
            decreases self.toks@.len() - p,
        {
            match self.rule_not(p + 1) {
                Ok((rhs, q)) => {
                    lhs = Expr::Bin(BinOp::And, Box::new(lhs), Box::new(rhs));
                    p = q;
                },
                Err(e) => {
                    return Err(e);
                },
            }
        }
        Ok((lhs, p))
    }

    fn rule_not(&self, pos: usize) -> (r: Result<(Expr, usize), CondError>)
        requires
            pos <= self.toks@.len(),
        ensures
            agrees(r, parse_not(self.v(), pos as int), pos as int, self.toks@.len()),
        decreases self.toks@.len() - pos, 9int,
    {
        if pos < self.toks.len() && matches!(self.toks[pos], Tok::Bang) {
            match self.rule_not(pos + 1) {
                Ok((e, p)) => Ok((Expr::Not(Box::new(e)), p)),
                Err(e) => Err(e),
            }
        } else {
            self.rule_rel(pos)
        }
    }

    fn relation_at(&self, p: usize) -> (op: Option<BinOp>)
        ensures
            op is Some ==> p < usize::MAX,
            op == if p < self.toks@.len() {
                relation(self.v()[p as int])
            } else {
                None
            },
    {
        if p >= self.toks.len() {
            return None;
        }
        match &self.toks[p] {
            Tok::Eq => Some(BinOp::Eq),
            Tok::Ne => Some(BinOp::Ne),
            Tok::Lt => Some(BinOp::Lt),
            Tok::Le => Some(BinOp::Le),
            Tok::Gt => Some(BinOp::Gt),
            Tok::Ge => Some(BinOp::Ge),
            _ => None,
        }
    }

    fn sum_at(&self, p: usize) -> (op: Option<BinOp>)
        ensures
            op is Some ==> p < usize::MAX,
            op == if p < self.toks@.len() {
                sum_op(self.v()[p as int])
            } else {
                None
            },
    {
        if p >= self.toks.len() {
            return None;
        }
        match &self.toks[p] {
            Tok::Plus => Some(BinOp::Add),
            Tok::Minus => Some(BinOp::Sub),
            _ => None,
        }
    }

    fn product_at(&self, p: usize) -> (op: Option<BinOp>)
        ensures
            op is Some ==> p < usize::MAX,
            op == if p < self.toks@.len() {
                product_op(self.v()[p as int])
            } else {
                None
            },
    {
        if p >= self.toks.len() {
            return None;
        }
        match &self.toks[p] {
            Tok::Star => Some(BinOp::Mul),
            Tok::Slash => Some(BinOp::Div),
            _ => None,
        }
    }

    fn rule_rel(&self, pos: usize) -> (r: Result<(Expr, usize), CondError>)
        requires
            pos <= self.toks@.len(),
        ensures
            agrees(r, parse_rel(self.v(), pos as int), pos as int, self.toks@.len()),
        decreases self.toks@.len() - pos, 8int,
    {
        let (lhs, p) = match self.rule_bor(pos) {
            Ok(ok) => ok,
            Err(e) => {
                return Err(e);
            },
        };
        match self.relation_at(p) {
            Some(op) => match self.rule_bor(p + 1) {
                Ok((rhs, q)) => Ok((Expr::Bin(op, Box::new(lhs), Box::new(rhs)), q)),
                Err(e) => Err(e),
            },
            None => Ok((lhs, p)),
        }
    }

    fn rule_bor(&self, pos: usize) -> (r: Result<(Expr, usize), CondError>)
        requires
            pos <= self.toks@.len(),
        ensures
            agrees(r, parse_bor(self.v(), pos as int), pos as int, self.toks@.len()),
        decreases self.toks@.len() - pos, 7int,
    {
        let (mut lhs, mut p) = match self.rule_xor(pos) {
            Ok(ok) => ok,
            Err(e) => {
                return Err(e);
            },
        };
        while p < self.toks.len() && matches!(self.toks[p], Tok::Pipe)
            invariant
                pos < p <= self.toks@.len(),
                parse_bor(self.v(), pos as int) == parse_bor_rest(self.v(), lhs, p as int),
            decreases self.toks@.len() - p,
        {
            match self.rule_xor(p + 1) {
                Ok((rhs, q)) => {
                    lhs = Expr::Bin(BinOp::BitOr, Box::new(lhs), Box::new(rhs));
                    p = q;
                },
                Err(e) => {
                    return Err(e);
                },
            }
        }
        Ok((lhs, p))
    }

    fn rule_xor(&self, pos: usize) -> (r: Result<(Expr, usize), CondError>)
        requires
            pos <= self.toks@.len(),
        ensures
            agrees(r, parse_xor(self.v(), pos as int), pos as int, self.toks@.len()),
        decreases self.toks@.len() - pos, 6int,
    {
        let (mut lhs, mut p) = match self.rule_band(pos) {
            Ok(ok) => ok,
            Err(e) => {
                return Err(e);
            },
        };
        while p < self.toks.len() && matches!(self.toks[p], Tok::Caret)
            invariant
                pos < p <= self.toks@.len(),
                parse_xor(self.v(), pos as int) == parse_xor_rest(self.v(), lhs, p as int),
            decreases self.toks@.len() - p,
        {
            match self.rule_band(p + 1) {
                Ok((rhs, q)) => {
                    lhs = Expr::Bin(BinOp::BitXor, Box::new(lhs), Box::new(rhs));
                    p = q;
                },
                Err(e) => {
                    return Err(e);
                },
            }
        }
        Ok((lhs, p))
    }

    fn rule_band(&self, pos: usize) -> (r: Result<(Expr, usize), CondError>)
        requires
            pos <= self.toks@.len(),
        ensures
            agrees(r, parse_band(self.v(), pos as int), pos as int, self.toks@.len()),
        decreases self.toks@.len() - pos, 5int,
    {
        let (mut lhs, mut p) = match self.rule_add(pos) {
            Ok(ok) => ok,
            Err(e) => {
                return Err(e);
            },
        };
        while p < self.toks.len() && matches!(self.toks[p], Tok::Amp)
            invariant
                pos < p <= self.toks@.len(),
                parse_band(self.v(), pos as int) == parse_band_rest(self.v(), lhs, p as int),
            decreases self.toks@.len() - p,
        {
            match self.rule_add(p + 1) {
                Ok((rhs, q)) => {
                    lhs = Expr::Bin(BinOp::BitAnd, Box::new(lhs), Box::new(rhs));
                    p = q;
                },
                Err(e) => {
                    return Err(e);
                },
            }
        }
        Ok((lhs, p))
    }

    fn rule_add(&self, pos: usize) -> (r: Result<(Expr, usize), CondError>)
        requires
            pos <= self.toks@.len(),
        ensures
            agrees(r, parse_add(self.v(), pos as int), pos as int, self.toks@.len()),
        decreases self.toks@.len() - pos, 4int,
    {
        let (mut lhs, mut p) = match self.rule_mul(pos) {
            Ok(ok) => ok,
            Err(e) => {
                return Err(e);
            },
        };
        loop
            invariant
                pos < p <= self.toks@.len(),
                parse_add(self.v(), pos as int) == parse_add_rest(self.v(), lhs, p as int),
            decreases self.toks@.len() - p,
        {
            match self.sum_at(p) {
                Some(op) => match self.rule_mul(p + 1) {
                    Ok((rhs, q)) => {
                        lhs = Expr::Bin(op, Box::new(lhs), Box::new(rhs));
                        p = q;
                    },
                    Err(e) => {
                        return Err(e);
                    },
                },
                None => {
                    return Ok((lhs, p));
                },
            }
        }
    }

    fn rule_mul(&self, pos: usize) -> (r: Result<(Expr, usize), CondError>)
        requires
            pos <= self.toks@.len(),
        ensures
            agrees(r, parse_mul(self.v(), pos as int), pos as int, self.toks@.len()),
        decreases self.toks@.len() - pos, 3int,
    {
        let (mut lhs, mut p) = match self.rule_unary(pos) {
            Ok(ok) => ok,
            Err(e) => {
                return Err(e);
            },
        };
        loop
            invariant
                pos < p <= self.toks@.len(),
                parse_mul(self.v(), pos as int) == parse_mul_rest(self.v(), lhs, p as int),
            decreases self.toks@.len() - p,
        {
            match self.product_at(p) {
                Some(op) => match self.rule_unary(p + 1) {
                    Ok((rhs, q)) => {
                        lhs = Expr::Bin(op, Box::new(lhs), Box::new(rhs));
                        p = q;
                    },
                    Err(e) => {
                        return Err(e);
                    },
                },
                None => {
                    return Ok((lhs, p));
                },
            }
        }
    }

    fn rule_unary(&self, pos: usize) -> (r: Result<(Expr, usize), CondError>)
        requires
            pos <= self.toks@.len(),
        ensures
            agrees(r, parse_unary(self.v(), pos as int), pos as int, self.toks@.len()),
        decreases self.toks@.len() - pos, 2int,
    {
        if pos < self.toks.len() && matches!(self.toks[pos], Tok::Minus) {
            match self.rule_unary(pos + 1) {
                Ok((e, p)) => Ok((Expr::Neg(Box::new(e)), p)),
                Err(e) => Err(e),
            }
        } else {
            self.rule_atom(pos)
        }
    }

    fn rule_atom(&self, pos: usize) -> (r: Result<(Expr, usize), CondError>)
        requires
            pos <= self.toks@.len(),
        ensures
            agrees(r, parse_atom(self.v(), pos as int), pos as int, self.toks@.len()),
        decreases self.toks@.len() - pos, 1int,
    {
        if pos >= self.toks.len() {
            return Err(make_operand_error(self.toks, pos));
        }
        match &self.toks[pos] {
            Tok::Num(n) => Ok((Expr::Num(*n), pos + 1)),
            Tok::Ident(name) => match reg_from_ident(name) {
                Some(r) => Ok((Expr::Reg(r), pos + 1)),
                None => {
                    let mut out: String = String::new();
                    push_text(&mut out, "unknown identifier '");
                    push_chars(&mut out, name);
                    push_text(&mut out, "'");
                    assert(out@ =~= "unknown identifier '"@ + name@ + "'"@);
                    Err(CondError::Parse(out))
                },
            },
            Tok::LParen => match self.rule_or(pos + 1) {
                Ok((e, p)) => if p < self.toks.len() && matches!(self.toks[p], Tok::RParen) {
                    Ok((e, p + 1))
                } else {
                    Err(parse_error("expected ')'"))
                },
                Err(e) => Err(e),
            },
            _ => Err(make_operand_error(self.toks, pos)),
        }
    }
}

fn parse(v: &Vec<char>) -> (r: Result<Expr, CondError>)
    ensures
        outcome(r) == parsed(v@),
{
    let toks: Vec<Tok<Vec<char>>> = match tokenize(v) {
        Ok(toks) => toks,
        Err(e) => {
            return Err(e);
        },
    };
    if toks.len() == 0 {
        return Err(parse_error("empty expression"));
    }
    let parser: Parser = Parser { toks: &toks };
    match parser.rule_or(0) {
        Ok((e, p)) => if p == toks.len() {
            Ok(e)
        } else {
            let mut out: String = String::new();
            push_text(&mut out, "trailing tokens after expression at position ");
            push_digits(&mut out, p as u64);
            assert(out@ =~= "trailing tokens after expression at position "@ + digits(p as nat));
            Err(CondError::Parse(out))
        },
        Err(e) => Err(e),
    }
}

fn truth_value(b: bool) -> (v: i64)
    ensures
        v == truth(b),
{
    if b {
        1
    } else {
        0
    }
}

fn eval(e: &Expr, regs: &Registers) -> (r: Result<i64, CondError>)
    ensures
        outcome(r) == value_of(*e, *regs),
    decreases *e,
{
    match e {
        Expr::Num(n) => Ok(*n),
        Expr::Reg(r) => Ok(reg_value(*r, regs)),
        Expr::Neg(x) => match eval(x, regs) {
            Ok(v) => Ok(0i64.wrapping_sub(v)),
            Err(e) => Err(e),
        },
        Expr::Not(x) => match eval(x, regs) {
            Ok(v) => Ok(truth_value(v == 0)),
            Err(e) => Err(e),
        },
        Expr::Bin(op, a, b) => {
            let av: i64 = match eval(a, regs) {
                Ok(v) => v,
                Err(e) => {
                    return Err(e);
                },
            };
            let bv: i64 = match eval(b, regs) {
                Ok(v) => v,
                Err(e) => {
                    return Err(e);
                },
            };
            apply_op(*op, av, bv)
        },
    }
}

fn apply_op(op: BinOp, av: i64, bv: i64) -> (r: Result<i64, CondError>)
    ensures
        outcome(r) == apply(op, av, bv),
{
    match op {
        BinOp::Add => Ok(av.wrapping_add(bv)),
        BinOp::Sub => Ok(av.wrapping_sub(bv)),
        BinOp::Mul => Ok(av.wrapping_mul(bv)),
        BinOp::Div => {
            if bv == 0 {
                return Err(CondError::DivideByZero);
            }
            match av.checked_div(bv) {
                Some(q) => Ok(q),
                None => Ok(i64::MIN),
            }
        },
        BinOp::Eq => Ok(truth_value(av == bv)),
        BinOp::Ne => Ok(truth_value(av != bv)),
        BinOp::Lt => Ok(truth_value(av < bv)),
        BinOp::Le => Ok(truth_value(av <= bv)),
        BinOp::Gt => Ok(truth_value(av > bv)),
        BinOp::Ge => Ok(truth_value(av >= bv)),
        BinOp::And => Ok(truth_value(av != 0 && bv != 0)),
        BinOp::Or => Ok(truth_value(av != 0 || bv != 0)),
        BinOp::BitAnd => Ok(av & bv),
        BinOp::BitOr => Ok(av | bv),
        BinOp::BitXor => Ok(av ^ bv),
    }
}

/// Evaluates a condition given as characters.
pub fn evaluate_chars(v: &Vec<char>, regs: &Registers) -> (r: Result<bool, CondError>)
    ensures
        outcome(r) == holds(v@, *regs),
{
    match parse(v) {
        Err(e) => Err(e),
        Ok(ast) => match eval(&ast, regs) {
            Err(e) => Err(e),
            Ok(v) => Ok(v != 0),
        },
    }
}

/// Parses and evaluates a condition against `regs`. An empty or blank text is
/// an error; [`crate::debug::BreakpointSet::check`] takes such a condition for
/// none.
pub fn evaluate(s: &str, regs: &Registers) -> (r: Result<bool, CondError>)
    ensures
        outcome(r) == holds(s@, *regs),
{
    let v: Vec<char> = chars_of(s);
    evaluate_chars(&v, regs)
}

} // verus!
