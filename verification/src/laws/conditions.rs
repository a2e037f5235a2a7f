//! Conditions: what operators, registers and numbers mean, and how tightly
//! operators bind.

use crate::cpu::Registers;
use crate::debug::cond::{
    apply, bin, error_text, holds, lexeme, pair_token, parse_add, parse_add_rest, parse_and, parse_and_rest,
    parse_atom, parse_band, parse_band_rest, parse_bor, parse_bor_rest, parse_mul, parse_mul_rest,
    parse_not, parse_or, parse_or_rest, parse_rel, parse_unary, parse_xor, parse_xor_rest, parsed,
    reg_contents, reg_named, relation, single_token, value_of, BinOp, CondErrorView, Expr, Lexeme,
    Parsed, Tok,
};
use crate::laws::tracing::{begins, ends, lemma_parts, shows};
use crate::text::{digit_value, digits_end, number};
use vstd::prelude::*;

verus! {

/// The value of an operation that has one.
pub open spec fn result(op: BinOp, a: i64, b: i64) -> i64 {
    apply(op, a, b)->Ok_0
}

/// Comparisons yield 1 or 0. Of less, equal and greater exactly one holds; each
/// other comparison is one of them or the opposite of one.
pub proof fn law_comparisons(a: i64, b: i64)
    ensures
        forall|op: BinOp|
            op is Eq || op is Ne || op is Lt || op is Le || op is Gt || op is Ge
                ==> #[trigger] apply(op, a, b) is Ok && (result(op, a, b) == 0 || result(op, a, b)
                == 1),
        result(BinOp::Lt, a, b) == 1 <==> b - a > 0,
        result(BinOp::Gt, a, b) == result(BinOp::Lt, b, a),
        result(BinOp::Eq, a, b) == 1 <==> b - a == 0,
        result(BinOp::Lt, a, b) + result(BinOp::Eq, a, b) + result(BinOp::Gt, a, b) == 1,
        result(BinOp::Le, a, b) == result(BinOp::Lt, a, b) + result(BinOp::Eq, a, b),
        result(BinOp::Ge, a, b) == result(BinOp::Gt, a, b) + result(BinOp::Eq, a, b),
        result(BinOp::Ge, a, b) + result(BinOp::Lt, a, b) == 1,
        result(BinOp::Le, a, b) + result(BinOp::Gt, a, b) == 1,
        result(BinOp::Ne, a, b) + result(BinOp::Eq, a, b) == 1,
{
}

/// Sums, differences and products are those of the integers, modulo 2 to the
/// 64th.
pub proof fn law_sums(a: i64, b: i64)
    ensures
        apply(BinOp::Add, a, b) is Ok,
        apply(BinOp::Sub, a, b) is Ok,
        apply(BinOp::Mul, a, b) is Ok,
        i64::MIN <= a + b <= i64::MAX ==> result(BinOp::Add, a, b) == a + b,
        a + b > i64::MAX ==> result(BinOp::Add, a, b) == a + b - 0x1_0000_0000_0000_0000,
        a + b < i64::MIN ==> result(BinOp::Add, a, b) == a + b + 0x1_0000_0000_0000_0000,
        i64::MIN <= a - b <= i64::MAX ==> result(BinOp::Sub, a, b) == a - b,
        a - b > i64::MAX ==> result(BinOp::Sub, a, b) == a - b - 0x1_0000_0000_0000_0000,
        a - b < i64::MIN ==> result(BinOp::Sub, a, b) == a - b + 0x1_0000_0000_0000_0000,
        i64::MIN <= a * b <= i64::MAX ==> result(BinOp::Mul, a, b) == a * b,
{
}

/// A quotient is cut off towards zero; a division by zero is an error, and the
/// one quotient that does not fit wraps.
pub proof fn law_quotients(a: i64, b: i64)
    ensures
        b == 0 ==> apply(BinOp::Div, a, b) == Err::<i64, CondErrorView>(
            CondErrorView::DivideByZero,
        ),
        b != 0 ==> apply(BinOp::Div, a, b) is Ok,
        a >= 0 && b > 0 ==> result(BinOp::Div, a, b) == a as int / b as int,
        a >= 0 && b < 0 ==> result(BinOp::Div, a, b) == -(a as int / -(b as int)),
        a < 0 && b > 0 ==> result(BinOp::Div, a, b) == -(-(a as int) / b as int),
        a < 0 && b < -1 ==> result(BinOp::Div, a, b) == -(a as int) / -(b as int),
        a == i64::MIN && b == -1 ==> result(BinOp::Div, a, b) == i64::MIN,
        a > i64::MIN && b == -1 ==> result(BinOp::Div, a, b) == -(a as int),
{
    let (x, y) = (a as int, b as int);
    if x < 0 && y < -1 {
        let (m, n) = (-x, -y);
        assert(0 <= m / n <= 0x4000_0000_0000_0000) by (nonlinear_arith)
            requires
                0 < m <= 0x8000_0000_0000_0000,
                n >= 2,
        ;
    }
}

/// `&&` and `||` take any number but zero for true and yield 1 or 0; `&`, `|`
/// and `^` work on the bits.
pub proof fn law_logic(a: i64, b: i64)
    ensures
        apply(BinOp::And, a, b) == Ok::<i64, CondErrorView>(
            if a == 0 || b == 0 {
                0
            } else {
                1
            },
        ),
        apply(BinOp::Or, a, b) == Ok::<i64, CondErrorView>(
            if a == 0 && b == 0 {
                0
            } else {
                1
            },
        ),
        apply(BinOp::BitAnd, a, b) == Ok::<i64, CondErrorView>(a & b),
        apply(BinOp::BitOr, a, b) == Ok::<i64, CondErrorView>(a | b),
        apply(BinOp::BitXor, a, b) == Ok::<i64, CondErrorView>(a ^ b),
{
}

/// `!` turns zero into 1 and anything else into 0; `-` is the difference from
/// zero. An error in an operand is the error of the whole, the left one first.
pub proof fn law_errors_and_signs(x: Expr, y: Expr, op: BinOp, regs: Registers)
    ensures
        value_of(x, regs) matches Ok(v) ==> {
            &&& value_of(Expr::Not(Box::new(x)), regs) == Ok::<i64, CondErrorView>(
                if v == 0 {
                    1
                } else {
                    0
                },
            )
            &&& value_of(Expr::Neg(Box::new(x)), regs) == apply(BinOp::Sub, 0, v)
        },
        value_of(x, regs) matches Err(e) ==> {
            &&& value_of(Expr::Not(Box::new(x)), regs) == Err::<i64, CondErrorView>(e)
            &&& value_of(Expr::Neg(Box::new(x)), regs) == Err::<i64, CondErrorView>(e)
            &&& value_of(Expr::Bin(op, Box::new(x), Box::new(y)), regs) == Err::<
                i64,
                CondErrorView,
            >(e)
        },
        (value_of(x, regs), value_of(y, regs)) matches (Ok(v), Ok(w)) ==> value_of(
            Expr::Bin(op, Box::new(x), Box::new(y)),
            regs,
        ) == apply(op, v, w),
        (value_of(x, regs), value_of(y, regs)) matches (Ok(v), Err(e)) ==> value_of(
            Expr::Bin(op, Box::new(x), Box::new(y)),
            regs,
        ) == Err::<i64, CondErrorView>(e),
{
}

/// What a register stands for in a condition.
pub open spec fn named(name: Seq<char>, regs: Registers) -> int {
    reg_contents(reg_named(name)->0, regs) as int
}

/// The names of registers stand for their contents, without sign; `d` is A and
/// B together.
pub proof fn law_register_names(regs: Registers)
    ensures
        reg_named("a"@) is Some && named("a"@, regs) == regs.a,
        reg_named("b"@) is Some && named("b"@, regs) == regs.b,
        reg_named("d"@) is Some && named("d"@, regs) == 256 * regs.a + regs.b,
        reg_named("x"@) is Some && named("x"@, regs) == regs.x,
        reg_named("y"@) is Some && named("y"@, regs) == regs.y,
        reg_named("u"@) is Some && named("u"@, regs) == regs.u,
        reg_named("s"@) is Some && named("s"@, regs) == regs.s,
        reg_named("pc"@) is Some && named("pc"@, regs) == regs.pc,
        reg_named("dp"@) is Some && named("dp"@, regs) == regs.dp,
        reg_named("cc"@) is Some && named("cc"@, regs) == regs.cc,
{
    reveal_strlit("a");
    reveal_strlit("b");
    reveal_strlit("d");
    reveal_strlit("x");
    reveal_strlit("y");
    reveal_strlit("u");
    reveal_strlit("s");
    reveal_strlit("pc");
    reveal_strlit("dp");
    reveal_strlit("cc");
    assert("a"@[0] == 'a' && "b"@[0] == 'b' && "d"@[0] == 'd' && "x"@[0] == 'x' && "y"@[0] == 'y'
        && "u"@[0] == 'u' && "s"@[0] == 's');
    assert("pc"@[0] == 'p' && "dp"@[0] == 'd' && "cc"@[0] == 'c');
    assert("d"@.len() == 1 && "dp"@.len() == 2);
}

/// The comparisons as they are written.
pub proof fn law_comparison_signs(a: i64, b: i64)
    ensures
        ({
            let two = |c: char, d: char| relation(pair_token(c, d)->0)->0;
            let one = |c: char| relation(single_token(c)->0)->0;
            &&& result(two('=', '='), a, b) == 1 <==> a == b
            &&& result(two('!', '='), a, b) == 1 <==> a != b
            &&& result(two('<', '='), a, b) == 1 <==> a <= b
            &&& result(two('>', '='), a, b) == 1 <==> a >= b
            &&& result(one('<'), a, b) == 1 <==> a < b
            &&& result(one('>'), a, b) == 1 <==> a > b
        }),
{
}

/// The operation that a token asks for between two operands.
pub open spec fn operator(t: Tok<Seq<char>>) -> BinOp {
    match t {
        Tok::Star => BinOp::Mul,
        Tok::Slash => BinOp::Div,
        Tok::Plus => BinOp::Add,
        Tok::Minus => BinOp::Sub,
        Tok::Amp => BinOp::BitAnd,
        Tok::Caret => BinOp::BitXor,
        Tok::Pipe => BinOp::BitOr,
        Tok::Eq => BinOp::Eq,
        Tok::Ne => BinOp::Ne,
        Tok::Lt => BinOp::Lt,
        Tok::Le => BinOp::Le,
        Tok::Gt => BinOp::Gt,
        Tok::Ge => BinOp::Ge,
        Tok::AndAnd => BinOp::And,
        _ => BinOp::Or,
    }
}

/// How loosely an operator binds: products, sums, `&`, `^`, `|`, comparisons,
/// `&&`, `||`. Between comparisons and `&&` stands `!`.
pub open spec fn tier(t: Tok<Seq<char>>) -> int {
    match t {
        Tok::Star | Tok::Slash => 1,
        Tok::Plus | Tok::Minus => 2,
        Tok::Amp => 3,
        Tok::Caret => 4,
        Tok::Pipe => 5,
        Tok::Eq | Tok::Ne | Tok::Lt | Tok::Le | Tok::Gt | Tok::Ge => 6,
        Tok::AndAnd => 8,
        Tok::OrOr => 9,
        _ => 0,
    }
}

/// The rule of the grammar for operators up to a tier.
spec fn rule(k: int, toks: Seq<Tok<Seq<char>>>, pos: int) -> Parsed {
    if k == 0 {
        parse_unary(toks, pos)
    } else if k == 1 {
        parse_mul(toks, pos)
    } else if k == 2 {
        parse_add(toks, pos)
    } else if k == 3 {
        parse_band(toks, pos)
    } else if k == 4 {
        parse_xor(toks, pos)
    } else if k == 5 {
        parse_bor(toks, pos)
    } else if k == 6 {
        parse_rel(toks, pos)
    } else if k == 7 {
        parse_not(toks, pos)
    } else if k == 8 {
        parse_and(toks, pos)
    } else {
        parse_or(toks, pos)
    }
}

/// An expression that no operator of the tier follows.
proof fn lemma_alone(k: int, toks: Seq<Tok<Seq<char>>>, pos: int, e: Expr, p: int)
    requires
        1 <= k <= 9,
        0 <= pos < p <= toks.len(),
        rule(k - 1, toks, pos) == Ok::<(Expr, int), CondErrorView>((e, p)),
        p < toks.len() ==> tier(toks[p]) != k,
        k == 7 ==> !(toks[pos] is Bang),
    ensures
        rule(k, toks, pos) == Ok::<(Expr, int), CondErrorView>((e, p)),
{
    let r: Parsed = Ok((e, p));
    if k == 1 {
        assert(parse_mul_rest(toks, e, p) == r);
    } else if k == 2 {
        assert(parse_add_rest(toks, e, p) == r);
    } else if k == 3 {
        assert(parse_band_rest(toks, e, p) == r);
    } else if k == 4 {
        assert(parse_xor_rest(toks, e, p) == r);
    } else if k == 5 {
        assert(parse_bor_rest(toks, e, p) == r);
    } else if k == 8 {
        assert(parse_and_rest(toks, e, p) == r);
    } else if k == 9 {
        assert(parse_or_rest(toks, e, p) == r);
    }
}

proof fn lemma_alone_to(j: int, k: int, toks: Seq<Tok<Seq<char>>>, pos: int, e: Expr, p: int)
    requires
        0 <= j <= k <= 9,
        0 <= pos < p <= toks.len(),
        rule(j, toks, pos) == Ok::<(Expr, int), CondErrorView>((e, p)),
        p < toks.len() ==> !(j < tier(toks[p]) <= k),
        j < 7 <= k ==> !(toks[pos] is Bang),
    ensures
        rule(k, toks, pos) == Ok::<(Expr, int), CondErrorView>((e, p)),
    decreases k - j,
{
    if j < k {
        lemma_alone(j + 1, toks, pos, e, p);
        lemma_alone_to(j + 1, k, toks, pos, e, p);
    }
}

/// The operators of a tier from place `p` on, behind an operand `x`.
spec fn rest(k: int, toks: Seq<Tok<Seq<char>>>, x: Expr, p: int) -> Parsed {
    if k == 1 {
        parse_mul_rest(toks, x, p)
    } else if k == 2 {
        parse_add_rest(toks, x, p)
    } else if k == 3 {
        parse_band_rest(toks, x, p)
    } else if k == 4 {
        parse_xor_rest(toks, x, p)
    } else if k == 5 {
        parse_bor_rest(toks, x, p)
    } else if k == 8 {
        parse_and_rest(toks, x, p)
    } else {
        parse_or_rest(toks, x, p)
    }
}

proof fn lemma_rest(k: int, toks: Seq<Tok<Seq<char>>>, x: Expr, p: int, y: Expr, q: int)
    requires
        1 <= k <= 9,
        k != 6 && k != 7,
        0 <= p < toks.len(),
        tier(toks[p]) == k,
        p + 1 < q <= toks.len(),
        rule(k - 1, toks, p + 1) == Ok::<(Expr, int), CondErrorView>((y, q)),
    ensures
        rest(k, toks, x, p) == rest(k, toks, bin(operator(toks[p]), x, y), q),
{
}

proof fn lemma_begins(k: int, toks: Seq<Tok<Seq<char>>>, pos: int, x: Expr, p: int)
    requires
        1 <= k <= 9,
        k != 6 && k != 7,
        0 <= pos < p <= toks.len(),
        rule(k - 1, toks, pos) == Ok::<(Expr, int), CondErrorView>((x, p)),
    ensures
        rule(k, toks, pos) == rest(k, toks, x, p),
{
}

proof fn lemma_ends(k: int, toks: Seq<Tok<Seq<char>>>, x: Expr, p: int)
    requires
        1 <= k <= 9,
        k != 6 && k != 7,
        0 <= p <= toks.len(),
        p < toks.len() ==> tier(toks[p]) != k,
    ensures
        rest(k, toks, x, p) == Ok::<(Expr, int), CondErrorView>((x, p)),
{
}

/// Two operands with an operator of the tier between them.
proof fn lemma_two(
    k: int,
    toks: Seq<Tok<Seq<char>>>,
    pos: int,
    x: Expr,
    p: int,
    y: Expr,
    q: int,
)
    requires
        1 <= k <= 9,
        k != 7,
        0 <= pos < p,
        p + 1 < q <= toks.len(),
        tier(toks[p]) == k,
        rule(k - 1, toks, pos) == Ok::<(Expr, int), CondErrorView>((x, p)),
        rule(k - 1, toks, p + 1) == Ok::<(Expr, int), CondErrorView>((y, q)),
        q < toks.len() && k != 6 ==> tier(toks[q]) != k,
    ensures
        rule(k, toks, pos) == Ok::<(Expr, int), CondErrorView>((bin(operator(toks[p]), x, y), q)),
{
    if k != 6 {
        lemma_begins(k, toks, pos, x, p);
        lemma_rest(k, toks, x, p, y, q);
        lemma_ends(k, toks, bin(operator(toks[p]), x, y), q);
    }
}

/// A number by itself, as an operand of any operator of a tier above `k`.
proof fn lemma_number(k: int, toks: Seq<Tok<Seq<char>>>, pos: int, n: i64)
    requires
        0 <= k <= 9,
        0 <= pos < toks.len(),
        toks[pos] == Tok::<Seq<char>>::Num(n),
        pos + 1 < toks.len() ==> !(1 <= tier(toks[pos + 1]) <= k),
    ensures
        rule(k, toks, pos) == Ok::<(Expr, int), CondErrorView>((Expr::Num(n), pos + 1)),
{
    assert(parse_atom(toks, pos) == Ok::<(Expr, int), CondErrorView>((Expr::Num(n), pos + 1)));
    assert(parse_unary(toks, pos) == parse_atom(toks, pos));
    lemma_alone_to(0, k, toks, pos, Expr::Num(n), pos + 1);
}

/// Of two operators the tighter one is applied first; operators that bind
/// alike are applied from left to right; comparisons cannot be chained.
pub proof fn law_precedence(a: i64, b: i64, c: i64, s: Tok<Seq<char>>, t: Tok<Seq<char>>)
    requires
        tier(s) > 0,
        tier(t) > 0,
    ensures
        ({
            let toks = seq![Tok::Num(a), s, Tok::Num(b), t, Tok::Num(c)];
            let (x, y, z) = (Expr::Num(a), Expr::Num(b), Expr::Num(c));
            parse_or(toks, 0) == Ok::<(Expr, int), CondErrorView>(
                if tier(t) < tier(s) {
                    (bin(operator(s), x, bin(operator(t), y, z)), 5)
                } else if tier(s) == 6 && tier(t) == 6 {
                    (bin(operator(s), x, y), 3)
                } else {
                    (bin(operator(t), bin(operator(s), x, y), z), 5)
                },
            )
        }),
{
    let toks = seq![Tok::Num(a), s, Tok::Num(b), t, Tok::Num(c)];
    let (x, y, z) = (Expr::Num(a), Expr::Num(b), Expr::Num(c));
    let (j, k) = (tier(s), tier(t));
    assert(toks[0] == Tok::<Seq<char>>::Num(a) && toks[1] == s && toks[2] == Tok::<Seq<char>>::Num(b)
        && toks[3] == t && toks[4] == Tok::<Seq<char>>::Num(c));
    lemma_number(j - 1, toks, 0, a);
    if k < j {
        lemma_number(k - 1, toks, 2, b);
        lemma_number(k - 1, toks, 4, c);
        lemma_two(k, toks, 2, y, 3, z, 5);
        let w = bin(operator(t), y, z);
        lemma_alone_to(k, j - 1, toks, 2, w, 5);
        lemma_two(j, toks, 0, x, 1, w, 5);
        lemma_alone_to(j, 9, toks, 0, bin(operator(s), x, w), 5);
    } else if j == 6 && k == 6 {
        lemma_number(5, toks, 2, b);
        lemma_two(6, toks, 0, x, 1, y, 3);
        lemma_alone_to(6, 9, toks, 0, bin(operator(s), x, y), 3);
    } else if j == k {
        lemma_number(j - 1, toks, 2, b);
        lemma_number(j - 1, toks, 4, c);
        let w = bin(operator(s), x, y);
        lemma_begins(j, toks, 0, x, 1);
        lemma_rest(j, toks, x, 1, y, 3);
        lemma_rest(j, toks, w, 3, z, 5);
        lemma_ends(j, toks, bin(operator(t), w, z), 5);
        lemma_alone_to(j, 9, toks, 0, bin(operator(t), w, z), 5);
    } else {
        lemma_number(j - 1, toks, 2, b);
        lemma_number(k - 1, toks, 4, c);
        lemma_two(j, toks, 0, x, 1, y, 3);
        let w = bin(operator(s), x, y);
        lemma_alone_to(j, k - 1, toks, 0, w, 3);
        lemma_two(k, toks, 0, w, 3, z, 5);
        lemma_alone_to(k, 9, toks, 0, bin(operator(t), w, z), 5);
    }
}

/// A minus sign belongs to the operand behind it; `!` to everything behind it
/// up to the next `&&` or `||`.
pub proof fn law_signs(a: i64, b: i64, s: Tok<Seq<char>>)
    requires
        tier(s) > 0,
    ensures
        parse_or(seq![Tok::Minus, Tok::Num(a), s, Tok::Num(b)], 0) == Ok::<
            (Expr, int),
            CondErrorView,
        >((bin(operator(s), Expr::Neg(Box::new(Expr::Num(a))), Expr::Num(b)), 4)),
        parse_or(seq![Tok::Bang, Tok::Num(a), s, Tok::Num(b)], 0) == Ok::<
            (Expr, int),
            CondErrorView,
        >(
            (
                if tier(s) < 7 {
                    Expr::Not(Box::new(bin(operator(s), Expr::Num(a), Expr::Num(b))))
                } else {
                    bin(operator(s), Expr::Not(Box::new(Expr::Num(a))), Expr::Num(b))
                },
                4,
            ),
        ),
{
    let (x, y) = (Expr::Num(a), Expr::Num(b));
    let j = tier(s);
    let toks = seq![Tok::Minus, Tok::Num(a), s, Tok::Num(b)];
    assert(toks[0] is Minus && toks[1] == Tok::<Seq<char>>::Num(a) && toks[2] == s && toks[3]
        == Tok::<Seq<char>>::Num(b));
    let neg = Expr::Neg(Box::new(x));
    lemma_number(0, toks, 1, a);
    assert(parse_unary(toks, 0) == Ok::<(Expr, int), CondErrorView>((neg, 2)));
    lemma_alone_to(0, j - 1, toks, 0, neg, 2);
    lemma_number(j - 1, toks, 3, b);
    lemma_two(j, toks, 0, neg, 2, y, 4);
    lemma_alone_to(j, 9, toks, 0, bin(operator(s), neg, y), 4);
    let toks = seq![Tok::Bang, Tok::Num(a), s, Tok::Num(b)];
    assert(toks[0] is Bang && toks[1] == Tok::<Seq<char>>::Num(a) && toks[2] == s && toks[3]
        == Tok::<Seq<char>>::Num(b));
    lemma_number(j - 1, toks, 3, b);
    if j < 7 {
        let w = bin(operator(s), x, y);
        lemma_number(j - 1, toks, 1, a);
        lemma_two(j, toks, 1, x, 2, y, 4);
        lemma_alone_to(j, 7, toks, 1, w, 4);
        let not = Expr::Not(Box::new(w));
        assert(parse_not(toks, 0) == Ok::<(Expr, int), CondErrorView>((not, 4)));
        lemma_alone_to(7, 9, toks, 0, not, 4);
    } else {
        let not = Expr::Not(Box::new(x));
        lemma_number(7, toks, 1, a);
        assert(parse_not(toks, 0) == Ok::<(Expr, int), CondErrorView>((not, 2)));
        lemma_alone_to(7, j - 1, toks, 0, not, 2);
        lemma_two(j, toks, 0, not, 2, y, 4);
        lemma_alone_to(j, 9, toks, 0, bin(operator(s), not, y), 4);
    }
}

/// What stands in parentheses is one operand, whatever the operators around
/// it.
pub proof fn law_parentheses(a: i64, b: i64, c: i64, s: Tok<Seq<char>>, t: Tok<Seq<char>>)
    requires
        tier(s) > 0,
        tier(t) > 0,
    ensures
        parse_or(
            seq![
                Tok::Num(a),
                s,
                Tok::LParen,
                Tok::Num(b),
                t,
                Tok::Num(c),
                Tok::RParen,
            ],
            0,
        ) == Ok::<(Expr, int), CondErrorView>(
            (bin(operator(s), Expr::Num(a), bin(operator(t), Expr::Num(b), Expr::Num(c))), 7),
        ),
{
    let toks = seq![Tok::Num(a), s, Tok::LParen, Tok::Num(b), t, Tok::Num(c), Tok::RParen];
    let (x, y, z) = (Expr::Num(a), Expr::Num(b), Expr::Num(c));
    let (j, k) = (tier(s), tier(t));
    assert(toks[0] == Tok::<Seq<char>>::Num(a) && toks[1] == s && toks[2] is LParen && toks[3]
        == Tok::<Seq<char>>::Num(b) && toks[4] == t && toks[5] == Tok::<Seq<char>>::Num(c)
        && toks[6] is RParen);
    let w = bin(operator(t), y, z);
    lemma_number(k - 1, toks, 3, b);
    lemma_number(k - 1, toks, 5, c);
    lemma_two(k, toks, 3, y, 4, z, 6);
    lemma_alone_to(k, 9, toks, 3, w, 6);
    assert(parse_atom(toks, 2) == Ok::<(Expr, int), CondErrorView>((w, 7)));
    assert(parse_unary(toks, 2) == parse_atom(toks, 2));
    lemma_alone_to(0, j - 1, toks, 2, w, 7);
    lemma_number(j - 1, toks, 0, a);
    lemma_two(j, toks, 0, x, 1, w, 7);
    lemma_alone_to(j, 9, toks, 0, bin(operator(s), x, w), 7);
}

/// The other operators as they are written.
pub proof fn law_operator_signs()
    ensures
        ({
            let one = |c: char| single_token(c)->0;
            &&& operator(one('+')) is Add && operator(one('-')) is Sub
            &&& operator(one('*')) is Mul && operator(one('/')) is Div
            &&& operator(one('&')) is BitAnd && operator(one('|')) is BitOr && operator(one('^')) is BitXor
            &&& operator(pair_token('&', '&')->0) is And && operator(pair_token('|', '|')->0) is Or
            &&& one('!') is Bang && one('(') is LParen && one(')') is RParen
        }),
{
}

/// A character that belongs to no token is named in the error.
pub proof fn law_unknown_character(c: char, s: Seq<char>, i: int)
    requires
        0 <= i < s.len(),
        s[i] == c,
        c == '#' || c == '%' || c == '?' || c == '@' || c == '~' || c == '.' || c == ',' || c == ':',
    ensures
        lexeme(s, i) == Lexeme::<Tok<Seq<char>>>::Fail(CondErrorView::UnknownChar(c)),
{
}

/// Numbers are hexadecimal behind `$` or `0x` and decimal otherwise, and take
/// as many digits as there are.
pub proof fn law_numbers(s: Seq<char>, ds: Seq<char>, i: int, radix: int)
    requires
        radix == 10 || radix == 16,
        ds.len() > 0,
        0 <= i,
        i + ds.len() <= s.len(),
        s.subrange(i, i + ds.len()) == ds,
        forall|k: int| 0 <= k < ds.len() ==> digit_value(#[trigger] ds[k]) < radix,
        i + ds.len() < s.len() ==> digit_value(s[i + ds.len() as int]) >= radix,
        number(ds, radix) <= i64::MAX,
    ensures
        ({
            let found = Lexeme::Token(
                Tok::<Seq<char>>::Num(number(ds, radix) as i64),
                i + ds.len(),
            );
            &&& radix == 16 && i >= 1 && s[i - 1] == '$' ==> lexeme(s, i - 1) == found
            &&& radix == 16 && i >= 2 && s[i - 2] == '0' && s[i - 1] == 'x' ==> lexeme(s, i - 2)
                == found
            &&& radix == 10 && !(ds[0] == '0' && i + 1 < s.len() && s[i + 1] == 'x') ==> lexeme(s, i)
                == found
        }),
{
    assert forall|k: int| i <= k < i + ds.len() implies digit_value(#[trigger] s[k]) < radix by {
        assert(s[k] == ds[k - i]);
    }
    assert(s[i] == ds[0]);
    lemma_digits(s, i, i + ds.len(), radix);
}

proof fn lemma_digits(s: Seq<char>, i: int, e: int, radix: int)
    requires
        0 <= i <= e <= s.len(),
        forall|k: int| i <= k < e ==> digit_value(#[trigger] s[k]) < radix,
        e < s.len() ==> digit_value(s[e]) >= radix,
    ensures
        digits_end(s, i, radix) == e,
    decreases e - i,
{
    if i < e {
        lemma_digits(s, i + 1, e, radix);
    }
}

/// A condition holds where its value is not zero, and fails with the error of
/// its value.
pub proof fn law_condition(s: Seq<char>, regs: Registers)
    ensures
        holds(s, regs) == Ok::<bool, CondErrorView>(true) <==> (parsed(s) matches Ok(e) && value_of(
            e,
            regs,
        ) matches Ok(v) && v != 0),
        holds(s, regs) == Ok::<bool, CondErrorView>(false) <==> (parsed(s) matches Ok(e) && value_of(
            e,
            regs,
        ) == Ok::<i64, CondErrorView>(0)),
{
}

/// The message of an error says what kind it is and what was found.
pub proof fn law_error_messages(c: char, t: Seq<char>)
    ensures
        begins(error_text(CondErrorView::Parse(t)), "parse error: "@),
        ends(error_text(CondErrorView::Parse(t)), t),
        begins(error_text(CondErrorView::Unsupported(t)), "unsupported: "@),
        ends(error_text(CondErrorView::Unsupported(t)), t),
        error_text(CondErrorView::DivideByZero) == "divide by zero"@,
        begins(error_text(CondErrorView::UnknownChar(c)), "unknown character"@),
        shows(error_text(CondErrorView::UnknownChar(c)), seq![c]),
{
    reveal_strlit("unknown character '");
    reveal_strlit("unknown character");
    lemma_parts("parse error: "@, t, Seq::empty());
    lemma_parts("unsupported: "@, t, Seq::empty());
    lemma_parts("unknown character '"@, seq![c], "'"@);
    let u = error_text(CondErrorView::UnknownChar(c));
    assert(u.subrange(0, "unknown character"@.len() as int) =~= "unknown character"@);
}

/// A name that is no register is an error, and the message says the name; a
/// token that begins no operand, and a missing operand, are errors too.
pub proof fn law_no_operand(toks: Seq<Tok<Seq<char>>>, pos: int)
    requires
        0 <= pos <= toks.len(),
    ensures
        pos < toks.len() && toks[pos] is Ident && reg_named(toks[pos]->Ident_0) is None ==> (
        parse_atom(toks, pos) matches Err(CondErrorView::Parse(t)) && shows(t, toks[pos]->Ident_0)),
        pos < toks.len() && toks[pos] is Ident && reg_named(toks[pos]->Ident_0) is Some ==> parse_atom(
            toks,
            pos,
        ) == Ok::<(Expr, int), CondErrorView>(
            (Expr::Reg(reg_named(toks[pos]->Ident_0)->0), pos + 1),
        ),
        pos < toks.len() && (tier(toks[pos]) > 0 || toks[pos] is RParen || toks[pos] is Bang)
            ==> parse_atom(toks, pos) is Err,
        pos == toks.len() ==> parse_atom(toks, pos) is Err,
{
    if pos < toks.len() {
        match toks[pos] {
            Tok::Ident(name) => {
                lemma_parts("unknown identifier '"@, name, "'"@);
            },
            _ => {},
        }
    }
}

} // verus!
