//! How the parser groups operands: which operators bind tighter, and
//! left associativity.
use vstd::prelude::*;

use crate::ast::{SpecExpr, SpecMathExpr};
use crate::common::{Value, bool_text};
use crate::decimal::{all_digits, digits_value, is_digit, parse_i32_spec};
use crate::error::Error;
use crate::lexer::{Parenthesis, SpecToken, parse_word};
use crate::pattern::{is_ident_char, is_identifier, is_plain_number};
use crate::roundtrip::{lemma_parse_unary_tokens, math_tokens};
use crate::parser::{
    BinaryOp, binary_of, binary_operator, precedence, spec_binary_loop, spec_math_loop, spec_parse_attrib,
    spec_parse_binary, spec_parse_expr, spec_parse_math, spec_parse_primary, spec_parse_unary, token_at,
};

verus! {

/// A token that is an operand by itself: a literal or a variable name.
pub open spec fn is_atom(t: SpecToken) -> bool {
    t is Val || t is Var
}

/// The expression an operand token stands for.
pub open spec fn atom_expr(t: SpecToken) -> SpecMathExpr {
    match t {
        SpecToken::Val(v) => SpecMathExpr::Val(v),
        SpecToken::Var(n) => SpecMathExpr::Var(n),
        _ => SpecMathExpr::Val(crate::common::Value::Bool(false)),
    }
}

/// The tokens of `x o1 y o2 z`.
pub open spec fn three_operands(x: SpecToken, o1: BinaryOp, y: SpecToken, o2: BinaryOp, z: SpecToken) -> Seq<
    SpecToken,
> {
    seq![x, SpecToken::Op(binary_operator(o1)), y, SpecToken::Op(binary_operator(o2)), z]
}

pub open spec fn bin(op: BinaryOp, l: SpecMathExpr, r: SpecMathExpr) -> SpecMathExpr {
    SpecMathExpr::BinOp(op, Box::new(l), Box::new(r))
}

/// `(x o1 y) o2 z`
pub open spec fn grouped_left(x: SpecToken, o1: BinaryOp, y: SpecToken, o2: BinaryOp, z: SpecToken) -> SpecExpr {
    SpecExpr::Math(bin(o2, bin(o1, atom_expr(x), atom_expr(y)), atom_expr(z)))
}

/// `x o1 (y o2 z)`
pub open spec fn grouped_right(x: SpecToken, o1: BinaryOp, y: SpecToken, o2: BinaryOp, z: SpecToken) -> SpecExpr {
    SpecExpr::Math(bin(o1, atom_expr(x), bin(o2, atom_expr(y), atom_expr(z))))
}

proof fn lemma_atom(ts: Seq<SpecToken>, pos: int)
    requires
        0 <= pos < ts.len(),
        is_atom(ts[pos]),
    ensures
        spec_parse_unary(ts, pos) == (Ok::<SpecMathExpr, Error>(atom_expr(ts[pos])), pos + 1),
{
    assert(token_at(ts, pos) == Some(ts[pos]));
    assert(spec_parse_primary(ts, pos) == (Ok::<SpecMathExpr, Error>(atom_expr(ts[pos])), pos + 1));
}

/// `x o1 y o2 z` groups to the right exactly when `o2` has the higher
/// precedence.
#[verifier::rlimit(40)]
proof fn lemma_three_operands(x: SpecToken, o1: BinaryOp, y: SpecToken, o2: BinaryOp, z: SpecToken)
    requires
        is_atom(x),
        is_atom(y),
        is_atom(z),
    ensures
        spec_parse_expr(three_operands(x, o1, y, o2, z), 0).0 == Ok::<SpecExpr, Error>(
            if precedence(o2) > precedence(o1) {
                grouped_right(x, o1, y, o2, z)
            } else {
                grouped_left(x, o1, y, o2, z)
            },
        ),
{
    let ts = three_operands(x, o1, y, o2, z);
    let (ex, ey, ez) = (atom_expr(x), atom_expr(y), atom_expr(z));
    assert(ts[0] == x && ts[2] == y && ts[4] == z);
    lemma_atom(ts, 0);
    lemma_atom(ts, 2);
    lemma_atom(ts, 4);
    assert(token_at(ts, 1) == Some(SpecToken::Op(binary_operator(o1))));
    assert(token_at(ts, 3) == Some(SpecToken::Op(binary_operator(o2))));
    assert(token_at(ts, 5) == None::<SpecToken>);
    assert(binary_of(binary_operator(o1)) == Ok::<BinaryOp, Error>(o1));
    assert(binary_of(binary_operator(o2)) == Ok::<BinaryOp, Error>(o2));
    assert(spec_binary_loop(ts, o2, ez, 5) == (Ok::<SpecMathExpr, Error>(ez), 5int));
    assert(spec_parse_binary(ts, ey, o2, 4) == (Ok::<SpecMathExpr, Error>(bin(o2, ey, ez)), 5int));
    if precedence(o2) > precedence(o1) {
        let r = bin(o2, ey, ez);
        assert(spec_binary_loop(ts, o1, r, 5) == (Ok::<SpecMathExpr, Error>(r), 5int));
        assert(spec_binary_loop(ts, o1, ey, 3) == (Ok::<SpecMathExpr, Error>(r), 5int));
        assert(spec_parse_binary(ts, ex, o1, 2) == (Ok::<SpecMathExpr, Error>(bin(o1, ex, r)), 5int));
        assert(spec_math_loop(ts, bin(o1, ex, r), 5) == (Ok::<SpecMathExpr, Error>(bin(o1, ex, r)), 5int));
        assert(spec_math_loop(ts, ex, 1) == (Ok::<SpecMathExpr, Error>(bin(o1, ex, r)), 5int));
    } else {
        let l = bin(o1, ex, ey);
        assert(spec_binary_loop(ts, o1, ey, 3) == (Ok::<SpecMathExpr, Error>(ey), 3int));
        assert(spec_parse_binary(ts, ex, o1, 2) == (Ok::<SpecMathExpr, Error>(l), 3int));
        assert(spec_parse_binary(ts, l, o2, 4) == (Ok::<SpecMathExpr, Error>(bin(o2, l, ez)), 5int));
        assert(spec_math_loop(ts, bin(o2, l, ez), 5) == (Ok::<SpecMathExpr, Error>(bin(o2, l, ez)), 5int));
        assert(spec_math_loop(ts, l, 3) == (Ok::<SpecMathExpr, Error>(bin(o2, l, ez)), 5int));
        assert(spec_math_loop(ts, ex, 1) == (Ok::<SpecMathExpr, Error>(bin(o2, l, ez)), 5int));
    }
    assert(spec_parse_attrib(ts, 0).0 == Err::<SpecExpr, Error>(Error::NotAssign));
}

pub open spec fn is_additive(op: BinaryOp) -> bool {
    op is Plus || op is Minus
}

pub open spec fn is_multiplicative(op: BinaryOp) -> bool {
    op is Mull || op is Div
}

pub open spec fn is_arithmetic(op: BinaryOp) -> bool {
    is_additive(op) || is_multiplicative(op)
}

pub open spec fn is_ordering(op: BinaryOp) -> bool {
    op is Less || op is LessEq || op is Greater || op is GreaterEq
}

pub open spec fn is_equality(op: BinaryOp) -> bool {
    op is Equal || op is NotEqual
}

pub open spec fn is_comparison(op: BinaryOp) -> bool {
    is_ordering(op) || is_equality(op)
}

/// Where `tight` binds tighter than `loose`, `a loose b tight c` is
/// `a loose (b tight c)` and `a tight b loose c` is `(a tight b) loose c`.
proof fn lemma_tighter(tight: BinaryOp, loose: BinaryOp, x: SpecToken, y: SpecToken, z: SpecToken)
    requires
        is_atom(x),
        is_atom(y),
        is_atom(z),
        precedence(tight) > precedence(loose),
    ensures
        spec_parse_expr(three_operands(x, loose, y, tight, z), 0).0 == Ok::<SpecExpr, Error>(
            grouped_right(x, loose, y, tight, z),
        ),
        spec_parse_expr(three_operands(x, tight, y, loose, z), 0).0 == Ok::<SpecExpr, Error>(
            grouped_left(x, tight, y, loose, z),
        ),
{
    lemma_three_operands(x, loose, y, tight, z);
    lemma_three_operands(x, tight, y, loose, z);
}

/// Arithmetic binds tighter than every comparison: `a + b == c` is
/// `(a + b) == c` and `a == b * c` is `a == (b * c)`.
pub proof fn law_arithmetic_binds_tighter_than_comparison(
    ar: BinaryOp,
    cmp: BinaryOp,
    x: SpecToken,
    y: SpecToken,
    z: SpecToken,
)
    requires
        is_arithmetic(ar),
        is_comparison(cmp),
        is_atom(x),
        is_atom(y),
        is_atom(z),
    ensures
        spec_parse_expr(three_operands(x, ar, y, cmp, z), 0).0 == Ok::<SpecExpr, Error>(
            SpecExpr::Math(bin(cmp, bin(ar, atom_expr(x), atom_expr(y)), atom_expr(z))),
        ),
        spec_parse_expr(three_operands(x, cmp, y, ar, z), 0).0 == Ok::<SpecExpr, Error>(
            SpecExpr::Math(bin(cmp, atom_expr(x), bin(ar, atom_expr(y), atom_expr(z)))),
        ),
{
    lemma_tighter(ar, cmp, x, y, z);
}

/// `*` and `/` bind tighter than `+` and `-`: `a + b * c` is `a + (b * c)`
/// and `a / b - c` is `(a / b) - c`.
pub proof fn law_product_binds_tighter_than_sum(
    mul: BinaryOp,
    add: BinaryOp,
    x: SpecToken,
    y: SpecToken,
    z: SpecToken,
)
    requires
        is_multiplicative(mul),
        is_additive(add),
        is_atom(x),
        is_atom(y),
        is_atom(z),
    ensures
        spec_parse_expr(three_operands(x, add, y, mul, z), 0).0 == Ok::<SpecExpr, Error>(
            SpecExpr::Math(bin(add, atom_expr(x), bin(mul, atom_expr(y), atom_expr(z)))),
        ),
        spec_parse_expr(three_operands(x, mul, y, add, z), 0).0 == Ok::<SpecExpr, Error>(
            SpecExpr::Math(bin(add, bin(mul, atom_expr(x), atom_expr(y)), atom_expr(z))),
        ),
{
    lemma_tighter(mul, add, x, y, z);
}

/// `<`, `<=`, `>`, `>=` bind tighter than `==` and `!=`: `a < b == c` is
/// `(a < b) == c`.
pub proof fn law_ordering_binds_tighter_than_equality(
    ord: BinaryOp,
    eq: BinaryOp,
    x: SpecToken,
    y: SpecToken,
    z: SpecToken,
)
    requires
        is_ordering(ord),
        is_equality(eq),
        is_atom(x),
        is_atom(y),
        is_atom(z),
    ensures
        spec_parse_expr(three_operands(x, eq, y, ord, z), 0).0 == Ok::<SpecExpr, Error>(
            SpecExpr::Math(bin(eq, atom_expr(x), bin(ord, atom_expr(y), atom_expr(z)))),
        ),
        spec_parse_expr(three_operands(x, ord, y, eq, z), 0).0 == Ok::<SpecExpr, Error>(
            SpecExpr::Math(bin(eq, bin(ord, atom_expr(x), atom_expr(y)), atom_expr(z))),
        ),
{
    lemma_tighter(ord, eq, x, y, z);
}

/// Comparisons bind tighter than `&` and `|`, and `&` binds tighter than
/// `|`: `a == b & c` is `(a == b) & c` and `a | b & c` is `a | (b & c)`.
pub proof fn law_logic_binds_loosest(
    cmp: BinaryOp,
    x: SpecToken,
    y: SpecToken,
    z: SpecToken,
)
    requires
        is_comparison(cmp),
        is_atom(x),
        is_atom(y),
        is_atom(z),
    ensures
        spec_parse_expr(three_operands(x, cmp, y, BinaryOp::And, z), 0).0 == Ok::<SpecExpr, Error>(
            SpecExpr::Math(bin(BinaryOp::And, bin(cmp, atom_expr(x), atom_expr(y)), atom_expr(z))),
        ),
        spec_parse_expr(three_operands(x, BinaryOp::Or, y, cmp, z), 0).0 == Ok::<SpecExpr, Error>(
            SpecExpr::Math(bin(BinaryOp::Or, atom_expr(x), bin(cmp, atom_expr(y), atom_expr(z)))),
        ),
        spec_parse_expr(three_operands(x, BinaryOp::Or, y, BinaryOp::And, z), 0).0 == Ok::<SpecExpr, Error>(
            SpecExpr::Math(bin(BinaryOp::Or, atom_expr(x), bin(BinaryOp::And, atom_expr(y), atom_expr(z)))),
        ),
        spec_parse_expr(three_operands(x, BinaryOp::And, y, BinaryOp::Or, z), 0).0 == Ok::<SpecExpr, Error>(
            SpecExpr::Math(bin(BinaryOp::Or, bin(BinaryOp::And, atom_expr(x), atom_expr(y)), atom_expr(z))),
        ),
{
    lemma_tighter(cmp, BinaryOp::And, x, y, z);
    lemma_tighter(cmp, BinaryOp::Or, x, y, z);
    lemma_tighter(BinaryOp::And, BinaryOp::Or, x, y, z);
}

/// Operators of one level group to the left: `a - b + c` is `(a - b) + c`,
/// `a / b * c` is `(a / b) * c`, `a < b > c` is `(a < b) > c`.
pub proof fn law_left_associative(o1: BinaryOp, o2: BinaryOp, x: SpecToken, y: SpecToken, z: SpecToken)
    requires
        (is_additive(o1) && is_additive(o2)) || (is_multiplicative(o1) && is_multiplicative(o2)) || (
        is_ordering(o1) && is_ordering(o2)) || (is_equality(o1) && is_equality(o2)) || (o1 == o2),
        is_atom(x),
        is_atom(y),
        is_atom(z),
    ensures
        spec_parse_expr(three_operands(x, o1, y, o2, z), 0).0 == Ok::<SpecExpr, Error>(
            SpecExpr::Math(bin(o2, bin(o1, atom_expr(x), atom_expr(y)), atom_expr(z))),
        ),
{
    lemma_three_operands(x, o1, y, o2, z);
}

/// A word of digits reads as its number where that fits in an `i32`; a
/// number written without leading zero that does not fit is
/// `ValOutOfBounds`; `true` and `false` are booleans; other names are
/// variables; a word with a char that no name, number or sign has is
/// `ParseToken`.
pub proof fn law_word_meaning(w: Seq<char>)
    ensures
        w.len() > 0 && all_digits(w) && digits_value(w) <= i32::MAX ==> parse_word(w) == Ok::<SpecToken, Error>(
            SpecToken::Val(Value::Int(digits_value(w) as i32)),
        ),
        is_plain_number(w) && digits_value(w) > i32::MAX ==> parse_word(w) == Err::<SpecToken, Error>(
            Error::ValOutOfBounds,
        ),
        w == seq!['t', 'r', 'u', 'e'] ==> parse_word(w) == Ok::<SpecToken, Error>(SpecToken::Val(Value::Bool(true))),
        w == seq!['f', 'a', 'l', 's', 'e'] ==> parse_word(w) == Ok::<SpecToken, Error>(
            SpecToken::Val(Value::Bool(false)),
        ),
        is_identifier(w) && w != seq!['t', 'r', 'u', 'e'] && w != seq!['f', 'a', 'l', 's', 'e'] ==> parse_word(w)
            == Ok::<SpecToken, Error>(SpecToken::Var(w)),
        (exists|i: int| 0 <= i < w.len() && !is_ident_char(#[trigger] w[i]) && w[i] != '+' && w[i] != '-')
            ==> parse_word(w) == Err::<SpecToken, Error>(Error::ParseToken),
{
    if w.len() > 0 && all_digits(w) {
        assert(!is_identifier(w)) by {
            assert(is_digit(w[0]));
        }
        assert(w != bool_text(true) && w != bool_text(false)) by {
            assert(is_digit(w[0]));
        }
        if w[0] != '-' && w[0] != '+' {
            assert(is_digit(w[0]));
        }
    }
    if is_plain_number(w) {
        assert(all_digits(w)) by {
            assert forall|i: int| 0 <= i < w.len() implies #[trigger] is_digit(w[i]) by {
                if i > 0 {
                    assert(is_digit(w[i]));
                }
            }
        }
        assert(!is_identifier(w));
        assert(w != bool_text(true) && w != bool_text(false)) by {
            assert(is_digit(w[0]));
        }
    }
    if exists|i: int| 0 <= i < w.len() && !is_ident_char(#[trigger] w[i]) && w[i] != '+' && w[i] != '-' {
        let i = choose|i: int| 0 <= i < w.len() && !is_ident_char(#[trigger] w[i]) && w[i] != '+' && w[i] != '-';
        assert(!is_identifier(w)) by {
            if i == 0 {
            } else {
                assert(!is_ident_char(w[i]));
            }
        }
        assert(w != bool_text(true) && w != bool_text(false)) by {
            if w == bool_text(true) {
                assert(w[i] == bool_text(true)[i]);
            }
            if w == bool_text(false) {
                assert(w[i] == bool_text(false)[i]);
            }
        }
        assert(parse_i32_spec(w) is None) by {
            if w.len() > 0 && w[0] == '-' {
                let ds = w.drop_first();
                assert(i > 0);
                assert(ds[i - 1] == w[i]);
                assert(!is_digit(ds[i - 1]));
            } else if w.len() > 0 && w[0] == '+' {
                let ds = w.drop_first();
                assert(i > 0);
                assert(ds[i - 1] == w[i]);
                assert(!is_digit(ds[i - 1]));
            } else {
                assert(!is_digit(w[i]));
            }
        }
        assert(!is_plain_number(w)) by {
            if i > 0 {
                assert(!is_digit(w[i]));
            }
        }
    }
}

proof fn lemma_trailing_operator(e: SpecMathExpr, op: BinaryOp)
    ensures
        spec_parse_expr(math_tokens(e) + seq![SpecToken::Op(binary_operator(op))], 0).0 == Err::<SpecExpr, Error>(
            Error::ParseToken,
        ),
{
    let o = binary_operator(op);
    let mt = math_tokens(e);
    let n = mt.len() as int;
    let ts = mt + seq![SpecToken::Op(o)];
    assert(ts.subrange(0, n) =~= mt);
    lemma_parse_unary_tokens(e, ts, 0);
    assert(token_at(ts, n) == Some(SpecToken::Op(o)));
    assert(binary_of(o) == Ok::<BinaryOp, Error>(op));
    assert(token_at(ts, n + 1) == None::<SpecToken>);
    assert(spec_parse_unary(ts, n + 1).0 == Err::<SpecMathExpr, Error>(Error::ParseToken));
    assert(spec_parse_binary(ts, e, op, n + 1).0 == Err::<SpecMathExpr, Error>(Error::ParseToken));
    assert(spec_math_loop(ts, e, n).0 == Err::<SpecMathExpr, Error>(Error::ParseToken));
    assert(spec_parse_math(ts, 0).0 == Err::<SpecMathExpr, Error>(Error::ParseToken));
    assert(n >= 1) by {
        match e {
            SpecMathExpr::UnaryOp(_, _) => {},
            SpecMathExpr::BinOp(_, _, _) => {},
            _ => {},
        }
    }
    assert(spec_parse_attrib(ts, 0).0 == Err::<SpecExpr, Error>(Error::NotAssign)) by {
        if let SpecMathExpr::Var(x) = e {
            assert(n == 1);
            assert(token_at(ts, 1) == Some(SpecToken::Op(o)));
        }
    }
}

proof fn lemma_unclosed_parenthesis(e: SpecMathExpr)
    ensures
        spec_parse_expr(seq![SpecToken::Par(Parenthesis::Open)] + math_tokens(e), 0).0 == Err::<SpecExpr, Error>(
            Error::UnexpectedToken,
        ),
{
    let mt = math_tokens(e);
    let n = mt.len() as int;
    let us = seq![SpecToken::Par(Parenthesis::Open)] + mt;
    assert(us.subrange(1, 1 + n) =~= mt);
    lemma_parse_unary_tokens(e, us, 1);
    assert(token_at(us, 1 + n) == None::<SpecToken>);
    assert(spec_math_loop(us, e, 1 + n) == (Ok::<SpecMathExpr, Error>(e), 1 + n));
    assert(spec_parse_math(us, 1) == (Ok::<SpecMathExpr, Error>(e), 1 + n));
    assert(token_at(us, 0) == Some(SpecToken::Par(Parenthesis::Open)));
    assert(spec_parse_primary(us, 0).0 == Err::<SpecMathExpr, Error>(Error::UnexpectedToken));
    assert(spec_parse_unary(us, 0).0 == Err::<SpecMathExpr, Error>(Error::UnexpectedToken));
    assert(spec_parse_math(us, 0).0 == Err::<SpecMathExpr, Error>(Error::UnexpectedToken));
    assert(spec_parse_attrib(us, 0).0 == Err::<SpecExpr, Error>(Error::NotAssign));
}

/// An empty line is `UnexpectedToken`; an expression followed by a binary
/// operator and nothing else is `ParseToken`; an opening parenthesis whose
/// expression is not closed is `UnexpectedToken`.
pub proof fn law_parse_errors(e: SpecMathExpr, op: BinaryOp)
    ensures
        spec_parse_expr(Seq::empty(), 0).0 == Err::<SpecExpr, Error>(Error::UnexpectedToken),
        spec_parse_expr(math_tokens(e) + seq![SpecToken::Op(binary_operator(op))], 0).0 == Err::<SpecExpr, Error>(
            Error::ParseToken,
        ),
        spec_parse_expr(seq![SpecToken::Par(Parenthesis::Open)] + math_tokens(e), 0).0 == Err::<SpecExpr, Error>(
            Error::UnexpectedToken,
        ),
{
    lemma_trailing_operator(e, op);
    lemma_unclosed_parenthesis(e);
}

} // verus!
