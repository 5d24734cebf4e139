use vstd::prelude::*;

use crate::lexer::{continues_literal, is_digit, literal_run, scan, tokens_from};
use crate::parser::{apply, ErrorKind, binary, climb, expression, parse_text, primary, Step};
use crate::token::{prec_of, Expr, OperPrec, Tok};

verus! {

/// A token that acts as a binary operator.
pub open spec fn is_operator(t: Tok) -> bool {
    prec_of(t) != OperPrec::DefaultZero
}

/// A number followed by more tokens is a primary expression on its own.
proof fn lemma_number(x: Seq<char>, rest: Seq<Tok>)
    requires
        rest.len() >= 1,
    ensures
        primary(seq![Tok::Number(x)] + rest) == Step::Ok((Expr::Number(x), rest)),
{
    let ts = seq![Tok::Number(x)] + rest;
    assert(ts.drop_first() =~= rest);
}

/// An expression that opens with a number goes on with the operations that
/// follow it.
proof fn lemma_number_expression(x: Seq<char>, rest: Seq<Tok>, prec: OperPrec)
    requires
        rest.len() >= 1,
    ensures
        expression(seq![Tok::Number(x)] + rest, prec) == climb(Expr::Number(x), rest, prec),
{
    lemma_number(x, rest);
}

/// Folding stops at a token that binds no more tightly than `prec`.
proof fn lemma_stop(e: Expr, ts: Seq<Tok>, prec: OperPrec)
    requires
        ts.len() >= 1,
        prec_of(ts[0]).rank() <= prec.rank(),
    ensures
        climb(e, ts, prec) == Step::Ok((e, ts)),
{
}

/// An operator that binds more tightly than `prec` takes the expression
/// parsed at its own level as its right operand, and folding goes on after it.
proof fn lemma_fold(e: Expr, op: Tok, rest: Seq<Tok>, prec: OperPrec, right: Expr, after: Seq<Tok>)
    requires
        is_operator(op),
        prec.rank() < prec_of(op).rank(),
        rest.len() >= 1,
        expression(rest, prec_of(op)) == Step::Ok((right, after)),
        after.len() < rest.len(),
    ensures
        climb(e, seq![op] + rest, prec) == climb(apply(op, e, right), after, prec),
{
    let ts = seq![op] + rest;
    assert(ts.drop_first() =~= rest);
    assert(ts[0] == op);
    assert(binary(e, ts) == Step::Ok((apply(op, e, right), after)));
}

/// Of two operators in a row, one that binds more tightly than the first
/// takes the number between them: `x o1 y o2 z` is `x o1 (y o2 z)`, as
/// `3+4*2` is `3+(4*2)` and `2*3^2` is `2*(3^2)`.
pub proof fn lemma_tighter_operator_binds_first(
    x: Seq<char>,
    y: Seq<char>,
    z: Seq<char>,
    o1: Tok,
    o2: Tok,
)
    requires
        is_operator(o1),
        is_operator(o2),
        prec_of(o1).rank() < prec_of(o2).rank(),
    ensures
        expression(
            seq![Tok::Number(x), o1, Tok::Number(y), o2, Tok::Number(z), Tok::Eof],
            OperPrec::DefaultZero,
        ) == Step::Ok(
            (
                apply(o1, Expr::Number(x), apply(o2, Expr::Number(y), Expr::Number(z))),
                seq![Tok::Eof],
            ),
        ),
{
    let level1 = prec_of(o1);
    let level2 = prec_of(o2);
    let t5 = seq![Tok::Eof];
    let t4 = seq![Tok::Number(z)] + t5;
    let t3 = seq![o2] + t4;
    let t2 = seq![Tok::Number(y)] + t3;
    let t1 = seq![o1] + t2;
    let t0 = seq![Tok::Number(x)] + t1;
    assert(t0 =~= seq![Tok::Number(x), o1, Tok::Number(y), o2, Tok::Number(z), Tok::Eof]);
    let yz = apply(o2, Expr::Number(y), Expr::Number(z));
    lemma_number_expression(z, t5, level2);
    lemma_stop(Expr::Number(z), t5, level2);
    lemma_fold(Expr::Number(y), o2, t4, level1, Expr::Number(z), t5);
    lemma_stop(yz, t5, level1);
    lemma_number_expression(y, t3, level1);
    lemma_fold(Expr::Number(x), o1, t2, OperPrec::DefaultZero, yz, t5);
    lemma_stop(apply(o1, Expr::Number(x), yz), t5, OperPrec::DefaultZero);
    lemma_number_expression(x, t1, OperPrec::DefaultZero);
}

/// Of two operators in a row, one that binds no more tightly than the first
/// comes after it: `x o1 y o2 z` is `(x o1 y) o2 z`. Since a right operand is
/// parsed at its operator's own level, this holds for operators of one level
/// too, `^` included: `8-3-2` is `(8-3)-2` and `2^3^2` is `(2^3)^2`.
pub proof fn lemma_operators_of_no_greater_strength_group_left(
    x: Seq<char>,
    y: Seq<char>,
    z: Seq<char>,
    o1: Tok,
    o2: Tok,
)
    requires
        is_operator(o1),
        is_operator(o2),
        prec_of(o2).rank() <= prec_of(o1).rank(),
    ensures
        expression(
            seq![Tok::Number(x), o1, Tok::Number(y), o2, Tok::Number(z), Tok::Eof],
            OperPrec::DefaultZero,
        ) == Step::Ok(
            (
                apply(o2, apply(o1, Expr::Number(x), Expr::Number(y)), Expr::Number(z)),
                seq![Tok::Eof],
            ),
        ),
{
    let level1 = prec_of(o1);
    let level2 = prec_of(o2);
    let zero = OperPrec::DefaultZero;
    let t5 = seq![Tok::Eof];
    let t4 = seq![Tok::Number(z)] + t5;
    let t3 = seq![o2] + t4;
    let t2 = seq![Tok::Number(y)] + t3;
    let t1 = seq![o1] + t2;
    let t0 = seq![Tok::Number(x)] + t1;
    assert(t0 =~= seq![Tok::Number(x), o1, Tok::Number(y), o2, Tok::Number(z), Tok::Eof]);
    let xy = apply(o1, Expr::Number(x), Expr::Number(y));
    lemma_number_expression(y, t3, level1);
    lemma_stop(Expr::Number(y), t3, level1);
    lemma_number_expression(z, t5, level2);
    lemma_stop(Expr::Number(z), t5, level2);
    lemma_fold(Expr::Number(x), o1, t2, zero, Expr::Number(y), t3);
    lemma_fold(xy, o2, t4, zero, Expr::Number(z), t5);
    lemma_stop(apply(o2, xy, Expr::Number(z)), t5, zero);
    lemma_number_expression(x, t1, zero);
}

/// A leading minus negates the number right after it, and the operator that
/// follows takes the negation as its left operand: `-x o y` is `(-x) o y`, as
/// `-5+3` is `(-5)+3` and `-2^2` is `(-2)^2`.
pub proof fn lemma_negation_binds_tightest(x: Seq<char>, y: Seq<char>, o: Tok)
    requires
        is_operator(o),
    ensures
        expression(
            seq![Tok::Subtract, Tok::Number(x), o, Tok::Number(y), Tok::Eof],
            OperPrec::DefaultZero,
        ) == Step::Ok(
            (apply(o, Expr::Neg(Box::new(Expr::Number(x))), Expr::Number(y)), seq![Tok::Eof]),
        ),
{
    let zero = OperPrec::DefaultZero;
    let t4 = seq![Tok::Eof];
    let t3 = seq![Tok::Number(y)] + t4;
    let t2 = seq![o] + t3;
    let t1 = seq![Tok::Number(x)] + t2;
    let t0 = seq![Tok::Subtract] + t1;
    assert(t0 =~= seq![Tok::Subtract, Tok::Number(x), o, Tok::Number(y), Tok::Eof]);
    assert(t0.drop_first() =~= t1);
    let neg = Expr::Neg(Box::new(Expr::Number(x)));
    lemma_number_expression(x, t2, OperPrec::Negative);
    lemma_stop(Expr::Number(x), t2, OperPrec::Negative);
    assert(primary(t0) == Step::Ok((neg, t2)));
    lemma_number_expression(y, t4, prec_of(o));
    lemma_stop(Expr::Number(y), t4, prec_of(o));
    lemma_fold(neg, o, t3, zero, Expr::Number(y), t4);
    lemma_stop(apply(o, neg, Expr::Number(y)), t4, zero);
}

/// Two parenthesised expressions side by side are multiplied: `(x)(y)` is
/// `x*y`.
pub proof fn lemma_adjacent_parentheses_multiply(x: Seq<char>, y: Seq<char>)
    ensures
        expression(
            seq![
                Tok::LParen,
                Tok::Number(x),
                Tok::RParen,
                Tok::LParen,
                Tok::Number(y),
                Tok::RParen,
                Tok::Eof,
            ],
            OperPrec::DefaultZero,
        ) == Step::Ok(
            (
                Expr::Mul(Box::new(Expr::Number(x)), Box::new(Expr::Number(y))),
                seq![Tok::Eof],
            ),
        ),
{
    let zero = OperPrec::DefaultZero;
    let t6 = seq![Tok::Eof];
    let t5 = seq![Tok::RParen] + t6;
    let t4 = seq![Tok::Number(y)] + t5;
    let t3 = seq![Tok::LParen] + t4;
    let t2 = seq![Tok::RParen] + t3;
    let t1 = seq![Tok::Number(x)] + t2;
    let t0 = seq![Tok::LParen] + t1;
    assert(t0 =~= seq![
        Tok::LParen,
        Tok::Number(x),
        Tok::RParen,
        Tok::LParen,
        Tok::Number(y),
        Tok::RParen,
        Tok::Eof,
    ]);
    assert(t0.drop_first() =~= t1);
    assert(t2.drop_first() =~= t3);
    assert(t3.drop_first() =~= t4);
    assert(t5.drop_first() =~= t6);
    lemma_number_expression(y, t5, zero);
    lemma_stop(Expr::Number(y), t5, zero);
    assert(primary(t3) == Step::Ok((Expr::Number(y), t6)));
    lemma_stop(Expr::Number(y), t6, OperPrec::MulDiv);
    assert(expression(t3, OperPrec::MulDiv) == Step::Ok((Expr::Number(y), t6)));
    lemma_number_expression(x, t2, zero);
    lemma_stop(Expr::Number(x), t2, zero);
    let product = Expr::Mul(Box::new(Expr::Number(x)), Box::new(Expr::Number(y)));
    assert(primary(t0) == Step::Ok((product, t6)));
    lemma_stop(product, t6, zero);
}

/// The text of a numeric literal: a digit, then digits and points.
pub open spec fn is_literal(x: Seq<char>) -> bool {
    &&& x.len() >= 1
    &&& is_digit(x[0])
    &&& forall|k: int| 0 <= k < x.len() ==> continues_literal(#[trigger] x[k])
}

/// The character that stands for a binary operator.
pub open spec fn operator_char(t: Tok) -> char {
    match t {
        Tok::Add => '+',
        Tok::Subtract => '-',
        Tok::Multiply => '*',
        Tok::Divide => '/',
        _ => '^',
    }
}

/// Inside a literal that ends at `end`, the run from `k` reaches `end`.
proof fn lemma_run_to(s: Seq<char>, k: int, end: int)
    requires
        0 <= k <= end <= s.len(),
        forall|m: int| k <= m < end ==> continues_literal(#[trigger] s[m]),
        end == s.len() || !continues_literal(s[end]),
    ensures
        literal_run(s, k) == end - k,
    decreases end - k,
{
    if k < end {
        lemma_run_to(s, k + 1, end);
    }
}

/// A literal at `i` that nothing continues scans as one number.
proof fn lemma_scan_literal(s: Seq<char>, x: Seq<char>, i: int)
    requires
        is_literal(x),
        0 <= i,
        i + x.len() <= s.len(),
        s.subrange(i, i + x.len()) == x,
        i + x.len() == s.len() || !continues_literal(s[i + x.len()]),
    ensures
        scan(s, i) == Some((Tok::Number(x), i + x.len())),
{
    let end = i + x.len();
    assert forall|m: int| i + 1 <= m < end implies continues_literal(#[trigger] s[m]) by {
        assert(s[m] == x[m - i]);
    }
    assert(s[i] == x[0]);
    lemma_run_to(s, i + 1, end);
}

/// The tokens of the text `x o1 y o2 z`.
proof fn lemma_chain_tokens(x: Seq<char>, y: Seq<char>, z: Seq<char>, o1: Tok, o2: Tok)
    requires
        is_literal(x),
        is_literal(y),
        is_literal(z),
        is_operator(o1),
        is_operator(o2),
    ensures
        tokens_from(x + seq![operator_char(o1)] + y + seq![operator_char(o2)] + z, 0)
            == seq![Tok::Number(x), o1, Tok::Number(y), o2, Tok::Number(z), Tok::Eof],
{
    let s = x + seq![operator_char(o1)] + y + seq![operator_char(o2)] + z;
    let a = x.len() as int;
    let b = a + 1 + y.len();
    let c = b + 1 + z.len();
    assert(s.subrange(0, a) =~= x);
    assert(s.subrange(a + 1, b) =~= y);
    assert(s.subrange(b + 1, c) =~= z);
    assert(s[a] == operator_char(o1));
    assert(s[b] == operator_char(o2));
    lemma_scan_literal(s, x, 0);
    lemma_scan_literal(s, y, a + 1);
    lemma_scan_literal(s, z, b + 1);
    assert(tokens_from(s, c) == seq![Tok::Eof]);
    assert(tokens_from(s, b + 1) =~= seq![Tok::Number(z), Tok::Eof]);
    assert(scan(s, b) == Some((o2, b + 1)));
    assert(tokens_from(s, b) =~= seq![o2, Tok::Number(z), Tok::Eof]);
    assert(tokens_from(s, a + 1) =~= seq![Tok::Number(y), o2, Tok::Number(z), Tok::Eof]);
    assert(scan(s, a) == Some((o1, a + 1)));
    assert(tokens_from(s, a) =~= seq![o1, Tok::Number(y), o2, Tok::Number(z), Tok::Eof]);
    assert(tokens_from(s, 0) =~= seq![
        Tok::Number(x),
        o1,
        Tok::Number(y),
        o2,
        Tok::Number(z),
        Tok::Eof,
    ]);
}

/// What `parse` gives for the text `x o1 y o2 z` of three literals and two
/// operators, where `o2` binds more tightly than `o1`: `x o1 (y o2 z)`.
pub proof fn lemma_parse_tighter_operator_binds_first(
    x: Seq<char>,
    y: Seq<char>,
    z: Seq<char>,
    o1: Tok,
    o2: Tok,
)
    requires
        is_literal(x),
        is_literal(y),
        is_literal(z),
        is_operator(o1),
        is_operator(o2),
        prec_of(o1).rank() < prec_of(o2).rank(),
    ensures
        parse_text(x + seq![operator_char(o1)] + y + seq![operator_char(o2)] + z) == Ok::<
            Expr,
            ErrorKind,
        >(apply(o1, Expr::Number(x), apply(o2, Expr::Number(y), Expr::Number(z)))),
{
    lemma_chain_tokens(x, y, z, o1, o2);
    lemma_tighter_operator_binds_first(x, y, z, o1, o2);
}

/// What `parse` gives for the text `x o1 y o2 z` of three literals and two
/// operators, where `o2` binds no more tightly than `o1`: `(x o1 y) o2 z`.
pub proof fn lemma_parse_operators_of_no_greater_strength_group_left(
    x: Seq<char>,
    y: Seq<char>,
    z: Seq<char>,
    o1: Tok,
    o2: Tok,
)
    requires
        is_literal(x),
        is_literal(y),
        is_literal(z),
        is_operator(o1),
        is_operator(o2),
        prec_of(o2).rank() <= prec_of(o1).rank(),
    ensures
        parse_text(x + seq![operator_char(o1)] + y + seq![operator_char(o2)] + z) == Ok::<
            Expr,
            ErrorKind,
        >(apply(o2, apply(o1, Expr::Number(x), Expr::Number(y)), Expr::Number(z))),
{
    lemma_chain_tokens(x, y, z, o1, o2);
    lemma_operators_of_no_greater_strength_group_left(x, y, z, o1, o2);
}

/// What `parse` gives for the text `-x o y`: `(-x) o y`.
pub proof fn lemma_parse_negation_binds_tightest(x: Seq<char>, y: Seq<char>, o: Tok)
    requires
        is_literal(x),
        is_literal(y),
        is_operator(o),
    ensures
        parse_text(seq!['-'] + x + seq![operator_char(o)] + y) == Ok::<Expr, ErrorKind>(
            apply(o, Expr::Neg(Box::new(Expr::Number(x))), Expr::Number(y)),
        ),
{
    let s = seq!['-'] + x + seq![operator_char(o)] + y;
    let a = 1 + x.len() as int;
    let b = a + 1 + y.len();
    assert(s.subrange(1, a) =~= x);
    assert(s.subrange(a + 1, b) =~= y);
    assert(s[a] == operator_char(o));
    lemma_scan_literal(s, x, 1);
    lemma_scan_literal(s, y, a + 1);
    assert(tokens_from(s, b) == seq![Tok::Eof]);
    assert(tokens_from(s, a + 1) =~= seq![Tok::Number(y), Tok::Eof]);
    assert(scan(s, a) == Some((o, a + 1)));
    assert(tokens_from(s, a) =~= seq![o, Tok::Number(y), Tok::Eof]);
    assert(tokens_from(s, 1) =~= seq![Tok::Number(x), o, Tok::Number(y), Tok::Eof]);
    assert(tokens_from(s, 0) =~= seq![Tok::Subtract, Tok::Number(x), o, Tok::Number(y), Tok::Eof]);
    lemma_negation_binds_tightest(x, y, o);
}

/// What `parse` gives for the text `(x)(y)`: `x*y`.
pub proof fn lemma_parse_adjacent_parentheses_multiply(x: Seq<char>, y: Seq<char>)
    requires
        is_literal(x),
        is_literal(y),
    ensures
        parse_text(seq!['('] + x + seq![')', '('] + y + seq![')']) == Ok::<Expr, ErrorKind>(
            Expr::Mul(Box::new(Expr::Number(x)), Box::new(Expr::Number(y))),
        ),
{
    let s = seq!['('] + x + seq![')', '('] + y + seq![')'];
    let a = 1 + x.len() as int;
    let b = a + 2 + y.len();
    assert(s.subrange(1, a) =~= x);
    assert(s.subrange(a + 2, b) =~= y);
    assert(s[a] == ')' && s[a + 1] == '(' && s[b] == ')');
    assert(s.len() == b + 1);
    lemma_scan_literal(s, x, 1);
    lemma_scan_literal(s, y, a + 2);
    assert(tokens_from(s, b + 1) == seq![Tok::Eof]);
    assert(tokens_from(s, b) =~= seq![Tok::RParen, Tok::Eof]);
    assert(tokens_from(s, a + 2) =~= seq![Tok::Number(y), Tok::RParen, Tok::Eof]);
    assert(tokens_from(s, a + 1) =~= seq![Tok::LParen, Tok::Number(y), Tok::RParen, Tok::Eof]);
    assert(tokens_from(s, a) =~= seq![
        Tok::RParen,
        Tok::LParen,
        Tok::Number(y),
        Tok::RParen,
        Tok::Eof,
    ]);
    assert(tokens_from(s, 1) =~= seq![
        Tok::Number(x),
        Tok::RParen,
        Tok::LParen,
        Tok::Number(y),
        Tok::RParen,
        Tok::Eof,
    ]);
    assert(tokens_from(s, 0) =~= seq![
        Tok::LParen,
        Tok::Number(x),
        Tok::RParen,
        Tok::LParen,
        Tok::Number(y),
        Tok::RParen,
        Tok::Eof,
    ]);
    lemma_adjacent_parentheses_multiply(x, y);
}

} // verus!
