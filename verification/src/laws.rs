//! Algebraic laws of the operators and of evaluation.
use vstd::prelude::*;

use crate::ast::{SpecExpr, SpecMathExpr, eval_expr, eval_math};
use crate::common::Value;
use crate::error::Error;
use crate::parser::{BinaryOp, UnaryOp, binary_apply, truncated_div, unary_apply};

verus! {

/// Whether an operator takes operands of the types of `v1` and `v2`:
/// arithmetic and comparisons take two integers, `&` and `|` two booleans.
pub open spec fn operands_fit(op: BinaryOp, v1: Value, v2: Value) -> bool {
    match op {
        BinaryOp::And | BinaryOp::Or => v1 is Bool && v2 is Bool,
        _ => v1 is Int && v2 is Int,
    }
}

/// A binary operation fails with `TypeMismatch` exactly when its operands
/// are not of the types the operator takes.
pub proof fn law_binary_type_mismatch(op: BinaryOp, v1: Value, v2: Value)
    ensures
        (binary_apply(op, v1, v2) == Err::<Value, Error>(Error::TypeMismatch)) <==> !operands_fit(op, v1, v2),
{
}

/// `!` fails with `TypeMismatch` exactly on integers.
pub proof fn law_not_type_mismatch(v: Value)
    ensures
        (unary_apply(UnaryOp::Not, v) == Err::<Value, Error>(Error::TypeMismatch)) <==> v is Int,
{
}

/// Negating an integer twice gives it back, where the first negation does
/// not overflow (that is, for every integer but the least).
pub proof fn law_double_negation(v: i32)
    requires
        v != i32::MIN,
    ensures
        unary_apply(UnaryOp::Minus, Value::Int(v)) == Ok::<Value, Error>(Value::Int(-v as i32)),
        unary_apply(UnaryOp::Minus, Value::Int((-v) as i32)) == Ok::<Value, Error>(Value::Int(v)),
{
}

/// `!` applied twice to a boolean gives it back; `!false` is `true` and
/// `!true` is `false`.
pub proof fn law_not_not(b: bool)
    ensures
        unary_apply(UnaryOp::Not, Value::Bool(b)) == Ok::<Value, Error>(Value::Bool(!b)),
        unary_apply(UnaryOp::Not, Value::Bool(!b)) == Ok::<Value, Error>(Value::Bool(b)),
{
}

/// `+`, `*`, `==`, `!=`, `&` and `|` are commutative on all values, errors
/// included.
pub proof fn law_commutative(v1: Value, v2: Value)
    ensures
        binary_apply(BinaryOp::Plus, v1, v2) == binary_apply(BinaryOp::Plus, v2, v1),
        binary_apply(BinaryOp::Mull, v1, v2) == binary_apply(BinaryOp::Mull, v2, v1),
        binary_apply(BinaryOp::Equal, v1, v2) == binary_apply(BinaryOp::Equal, v2, v1),
        binary_apply(BinaryOp::NotEqual, v1, v2) == binary_apply(BinaryOp::NotEqual, v2, v1),
        binary_apply(BinaryOp::And, v1, v2) == binary_apply(BinaryOp::And, v2, v1),
        binary_apply(BinaryOp::Or, v1, v2) == binary_apply(BinaryOp::Or, v2, v1),
{
    if let (Value::Int(a), Value::Int(b)) = (v1, v2) {
        assert(a * b == b * a) by (nonlinear_arith);
    }
}

/// `+` is associative where neither grouping overflows on the way.
pub proof fn law_plus_associative(a: i32, b: i32, c: i32)
    requires
        i32::MIN <= a + b <= i32::MAX,
        i32::MIN <= b + c <= i32::MAX,
    ensures
        binary_apply(BinaryOp::Plus, Value::Int((a + b) as i32), Value::Int(c)) == binary_apply(
            BinaryOp::Plus,
            Value::Int(a),
            Value::Int((b + c) as i32),
        ),
{
}

/// `*` is associative where neither grouping overflows on the way.
pub proof fn law_mull_associative(a: i32, b: i32, c: i32)
    requires
        i32::MIN <= a * b <= i32::MAX,
        i32::MIN <= b * c <= i32::MAX,
    ensures
        binary_apply(BinaryOp::Mull, Value::Int((a * b) as i32), Value::Int(c)) == binary_apply(
            BinaryOp::Mull,
            Value::Int(a),
            Value::Int((b * c) as i32),
        ),
{
    assert((a * b) * c == a * (b * c)) by (nonlinear_arith);
}

/// `*` distributes over `+` where the partial results do not overflow.
pub proof fn law_distributive(a: i32, b: i32, c: i32)
    requires
        i32::MIN <= b + c <= i32::MAX,
        i32::MIN <= a * b <= i32::MAX,
        i32::MIN <= a * c <= i32::MAX,
    ensures
        binary_apply(BinaryOp::Mull, Value::Int(a), Value::Int((b + c) as i32)) == binary_apply(
            BinaryOp::Plus,
            Value::Int((a * b) as i32),
            Value::Int((a * c) as i32),
        ),
{
    assert(a * (b + c) == a * b + a * c) by (nonlinear_arith);
}

/// `0` is the identity of `+` on either side.
pub proof fn law_plus_identity(a: i32)
    ensures
        binary_apply(BinaryOp::Plus, Value::Int(a), Value::Int(0)) == Ok::<Value, Error>(Value::Int(a)),
        binary_apply(BinaryOp::Plus, Value::Int(0), Value::Int(a)) == Ok::<Value, Error>(Value::Int(a)),
{
}

/// An integer minus itself is `0`; a non-zero integer divided by itself is `1`.
pub proof fn law_self_cancel(a: i32)
    ensures
        binary_apply(BinaryOp::Minus, Value::Int(a), Value::Int(a)) == Ok::<Value, Error>(Value::Int(0)),
        a != 0 ==> binary_apply(BinaryOp::Div, Value::Int(a), Value::Int(a)) == Ok::<Value, Error>(
            Value::Int(1),
        ),
{
    if a > 0 {
        assert(a / a == 1) by (nonlinear_arith)
            requires
                a > 0,
        ;
    } else if a < 0 {
        assert((-a) / (-a) == 1) by (nonlinear_arith)
            requires
                a < 0,
        ;
    }
}

/// Comparing an integer with itself: `<=`, `>=` and `==` hold; `<`, `>`
/// and `!=` do not.
pub proof fn law_compare_self(a: i32)
    ensures
        binary_apply(BinaryOp::LessEq, Value::Int(a), Value::Int(a)) == Ok::<Value, Error>(Value::Bool(true)),
        binary_apply(BinaryOp::GreaterEq, Value::Int(a), Value::Int(a)) == Ok::<Value, Error>(
            Value::Bool(true),
        ),
        binary_apply(BinaryOp::Equal, Value::Int(a), Value::Int(a)) == Ok::<Value, Error>(Value::Bool(true)),
        binary_apply(BinaryOp::Less, Value::Int(a), Value::Int(a)) == Ok::<Value, Error>(Value::Bool(false)),
        binary_apply(BinaryOp::Greater, Value::Int(a), Value::Int(a)) == Ok::<Value, Error>(
            Value::Bool(false),
        ),
        binary_apply(BinaryOp::NotEqual, Value::Int(a), Value::Int(a)) == Ok::<Value, Error>(
            Value::Bool(false),
        ),
{
}

/// `a <= b` is `b >= a`, and `a > b` is `b < a`.
pub proof fn law_compare_mirror(a: i32, b: i32)
    ensures
        binary_apply(BinaryOp::LessEq, Value::Int(a), Value::Int(b)) == binary_apply(
            BinaryOp::GreaterEq,
            Value::Int(b),
            Value::Int(a),
        ),
        binary_apply(BinaryOp::Greater, Value::Int(a), Value::Int(b)) == binary_apply(
            BinaryOp::Less,
            Value::Int(b),
            Value::Int(a),
        ),
{
}

/// `<=` is transitive.
pub proof fn law_less_eq_transitive(a: i32, b: i32, c: i32)
    requires
        binary_apply(BinaryOp::LessEq, Value::Int(a), Value::Int(b)) == Ok::<Value, Error>(Value::Bool(true)),
        binary_apply(BinaryOp::LessEq, Value::Int(b), Value::Int(c)) == Ok::<Value, Error>(Value::Bool(true)),
    ensures
        binary_apply(BinaryOp::LessEq, Value::Int(a), Value::Int(c)) == Ok::<Value, Error>(Value::Bool(true)),
{
}

/// `true` is the identity of `&` and `false` that of `|`; both are idempotent.
pub proof fn law_logic_identity(a: bool)
    ensures
        binary_apply(BinaryOp::And, Value::Bool(true), Value::Bool(a)) == Ok::<Value, Error>(Value::Bool(a)),
        binary_apply(BinaryOp::Or, Value::Bool(false), Value::Bool(a)) == Ok::<Value, Error>(Value::Bool(a)),
        binary_apply(BinaryOp::And, Value::Bool(a), Value::Bool(a)) == Ok::<Value, Error>(Value::Bool(a)),
        binary_apply(BinaryOp::Or, Value::Bool(a), Value::Bool(a)) == Ok::<Value, Error>(Value::Bool(a)),
{
}

/// De Morgan: `!(a & b)` is `!a | !b`, and `!(a | b)` is `!a & !b`.
pub proof fn law_de_morgan(a: bool, b: bool)
    ensures
        unary_apply(UnaryOp::Not, Value::Bool(a && b)) == binary_apply(
            BinaryOp::Or,
            Value::Bool(!a),
            Value::Bool(!b),
        ),
        unary_apply(UnaryOp::Not, Value::Bool(a || b)) == binary_apply(
            BinaryOp::And,
            Value::Bool(!a),
            Value::Bool(!b),
        ),
{
}

/// An assignment gives the value of its expression and binds the name to
/// it; where the expression fails, the assignment fails with the same error
/// and the bindings stay as they were.
pub proof fn law_assignment_updates_state(name: Seq<char>, m: SpecMathExpr, env: Map<Seq<char>, Value>)
    ensures
        ({
            let (r, after) = eval_expr(SpecExpr::Assign(name, m), env);
            match eval_math(m, env) {
                Ok(v) => r == Ok::<Value, Error>(v) && after.contains_key(name) && after[name] == v,
                Err(e) => r == Err::<Value, Error>(e) && after == env,
            }
        }),
{
}

/// Evaluating an arithmetic expression leaves the bindings as they were.
pub proof fn law_math_keeps_state(m: SpecMathExpr, env: Map<Seq<char>, Value>)
    ensures
        eval_expr(SpecExpr::Math(m), env).1 == env,
{
}

/// The comparison operators on integers answer the mathematical
/// comparison of their operands.
pub proof fn law_integer_comparisons(a: i32, b: i32)
    ensures
        binary_apply(BinaryOp::Less, Value::Int(a), Value::Int(b)) == Ok::<Value, Error>(Value::Bool(a < b)),
        binary_apply(BinaryOp::LessEq, Value::Int(a), Value::Int(b)) == Ok::<Value, Error>(Value::Bool(a <= b)),
        binary_apply(BinaryOp::Greater, Value::Int(a), Value::Int(b)) == Ok::<Value, Error>(Value::Bool(a > b)),
        binary_apply(BinaryOp::GreaterEq, Value::Int(a), Value::Int(b)) == Ok::<Value, Error>(
            Value::Bool(a >= b),
        ),
        binary_apply(BinaryOp::Equal, Value::Int(a), Value::Int(b)) == Ok::<Value, Error>(Value::Bool(a == b)),
        binary_apply(BinaryOp::NotEqual, Value::Int(a), Value::Int(b)) == Ok::<Value, Error>(
            Value::Bool(a != b),
        ),
{
}

/// `<` is asymmetric: `a < b` and `b < a` are never both true.
pub proof fn law_less_asymmetric(a: i32, b: i32)
    ensures
        !(binary_apply(BinaryOp::Less, Value::Int(a), Value::Int(b)) == Ok::<Value, Error>(Value::Bool(true))
            && binary_apply(BinaryOp::Less, Value::Int(b), Value::Int(a)) == Ok::<Value, Error>(
            Value::Bool(true),
        )),
{
}

/// `&` and `|` on booleans are conjunction and disjunction.
pub proof fn law_boolean_connectives(a: bool, b: bool)
    ensures
        binary_apply(BinaryOp::And, Value::Bool(a), Value::Bool(b)) == Ok::<Value, Error>(Value::Bool(a && b)),
        binary_apply(BinaryOp::Or, Value::Bool(a), Value::Bool(b)) == Ok::<Value, Error>(Value::Bool(a || b)),
{
}

/// `+`, `-` and `*` on integers give the mathematical result where it fits
/// in an `i32`, and `Overflow` where it does not.
pub proof fn law_integer_arithmetic(a: i32, b: i32)
    ensures
        i32::MIN <= a + b <= i32::MAX ==> binary_apply(BinaryOp::Plus, Value::Int(a), Value::Int(b))
            == Ok::<Value, Error>(Value::Int((a + b) as i32)),
        !(i32::MIN <= a + b <= i32::MAX) ==> binary_apply(BinaryOp::Plus, Value::Int(a), Value::Int(b))
            == Err::<Value, Error>(Error::Overflow),
        i32::MIN <= a - b <= i32::MAX ==> binary_apply(BinaryOp::Minus, Value::Int(a), Value::Int(b))
            == Ok::<Value, Error>(Value::Int((a - b) as i32)),
        !(i32::MIN <= a - b <= i32::MAX) ==> binary_apply(BinaryOp::Minus, Value::Int(a), Value::Int(b))
            == Err::<Value, Error>(Error::Overflow),
        i32::MIN <= a * b <= i32::MAX ==> binary_apply(BinaryOp::Mull, Value::Int(a), Value::Int(b))
            == Ok::<Value, Error>(Value::Int((a * b) as i32)),
        !(i32::MIN <= a * b <= i32::MAX) ==> binary_apply(BinaryOp::Mull, Value::Int(a), Value::Int(b))
            == Err::<Value, Error>(Error::Overflow),
{
}

/// Subtraction undoes addition: `(a - b) + b` is `a` where `a - b` fits.
pub proof fn law_minus_then_plus(a: i32, b: i32)
    requires
        i32::MIN <= a - b <= i32::MAX,
    ensures
        binary_apply(BinaryOp::Minus, Value::Int(a), Value::Int(b)) == Ok::<Value, Error>(
            Value::Int((a - b) as i32),
        ),
        binary_apply(BinaryOp::Plus, Value::Int((a - b) as i32), Value::Int(b)) == Ok::<Value, Error>(
            Value::Int(a),
        ),
{
}

/// Division by zero fails with `DivisionByZero`; `i32::MIN / -1` fails with
/// `Overflow`; otherwise `a / b` is the quotient `q` rounded toward zero:
/// the remainder `a - q * b` is smaller than `b` in size and has the sign
/// of `a` (or is zero).
pub proof fn law_integer_division(a: i32, b: i32)
    ensures
        b == 0 ==> binary_apply(BinaryOp::Div, Value::Int(a), Value::Int(b)) == Err::<Value, Error>(
            Error::DivisionByZero,
        ),
        a == i32::MIN && b == -1 ==> binary_apply(BinaryOp::Div, Value::Int(a), Value::Int(b)) == Err::<
            Value,
            Error,
        >(Error::Overflow),
        b != 0 && !(a == i32::MIN && b == -1) ==> (binary_apply(
            BinaryOp::Div,
            Value::Int(a),
            Value::Int(b),
        ) matches Ok(Value::Int(q)) && ({
            let r = a - q * b;
            &&& (b > 0 ==> -b < r < b)
            &&& (b < 0 ==> b < r < -b)
            &&& (a >= 0 ==> r >= 0)
            &&& (a <= 0 ==> r <= 0)
        })),
{
    if b != 0 && !(a == i32::MIN && b == -1) {
        let x: int = if a >= 0 { a as int } else { -(a as int) };
        let y: int = if b > 0 { b as int } else { -(b as int) };
        let q0 = x / y;
        assert(0 <= x - q0 * y < y && q0 >= 0) by (nonlinear_arith)
            requires
                y > 0,
                x >= 0,
                q0 == x / y,
        ;
        assert(q0 <= x) by (nonlinear_arith)
            requires
                y >= 1,
                x >= 0,
                0 <= x - q0 * y,
                q0 >= 0,
        ;
        let t = truncated_div(a as int, b as int);
        if a >= 0 && b > 0 {
            assert(t == q0);
        } else if a < 0 && b < 0 {
            assert(t == q0);
            assert(a - t * b == -(x - q0 * y)) by (nonlinear_arith)
                requires
                    a == -x,
                    b == -y,
                    t == q0,
            ;
        } else if a < 0 {
            assert(t == -q0);
            assert(a - t * b == -(x - q0 * y)) by (nonlinear_arith)
                requires
                    a == -x,
                    b == y,
                    t == -q0,
            ;
        } else {
            assert(t == -q0);
            assert(a - t * b == x - q0 * y) by (nonlinear_arith)
                requires
                    a == x,
                    b == -y,
                    t == -q0,
            ;
        }
        assert(i32::MIN <= t <= i32::MAX) by {
            if a == i32::MIN && y >= 2 {
                assert(q0 * 2 <= x) by (nonlinear_arith)
                    requires
                        y >= 2,
                        q0 >= 0,
                        q0 * y <= x,
                ;
            }
        }
    }
}

/// `-` on integers is negation, failing with `Overflow` only on the least
/// `i32`; `!` on booleans is negation.
pub proof fn law_unary_operators(n: i32, b: bool)
    ensures
        n != i32::MIN ==> unary_apply(UnaryOp::Minus, Value::Int(n)) == Ok::<Value, Error>(
            Value::Int((-n) as i32),
        ),
        unary_apply(UnaryOp::Minus, Value::Int(i32::MIN)) == Err::<Value, Error>(Error::Overflow),
        unary_apply(UnaryOp::Not, Value::Bool(b)) == Ok::<Value, Error>(Value::Bool(!b)),
{
}

/// Evaluation goes through operators: a unary operation applies its
/// operator to the value of its operand, and a binary operation applies
/// its operator to the values of its operands (left one first); the first
/// failure is the result.
pub proof fn law_eval_compositional(
    uop: UnaryOp,
    bop: BinaryOp,
    e: SpecMathExpr,
    l: SpecMathExpr,
    r: SpecMathExpr,
    env: Map<Seq<char>, Value>,
)
    ensures
        eval_math(SpecMathExpr::UnaryOp(uop, Box::new(e)), env) == match eval_math(e, env) {
            Ok(v) => unary_apply(uop, v),
            Err(x) => Err(x),
        },
        eval_math(SpecMathExpr::BinOp(bop, Box::new(l), Box::new(r)), env) == match eval_math(l, env) {
            Ok(v1) => match eval_math(r, env) {
                Ok(v2) => binary_apply(bop, v1, v2),
                Err(x) => Err(x),
            },
            Err(x) => Err(x),
        },
        eval_math(SpecMathExpr::Val(Value::Int(0)), env) == Ok::<Value, Error>(Value::Int(0)),
{
}

/// A literal evaluates to itself; a variable to its binding, or
/// `UndeclaredVar` where it has none.
pub proof fn law_eval_leaves(v: Value, n: Seq<char>, env: Map<Seq<char>, Value>)
    ensures
        eval_math(SpecMathExpr::Val(v), env) == Ok::<Value, Error>(v),
        env.contains_key(n) ==> eval_math(SpecMathExpr::Var(n), env) == Ok::<Value, Error>(env[n]),
        !env.contains_key(n) ==> eval_math(SpecMathExpr::Var(n), env) == Err::<Value, Error>(
            Error::UndeclaredVar,
        ),
{
}

/// Negating a negated expression gives back its integer value, where that
/// value is not the least `i32`.
pub proof fn law_eval_double_negation(e: SpecMathExpr, env: Map<Seq<char>, Value>, n: i32)
    requires
        eval_math(e, env) == Ok::<Value, Error>(Value::Int(n)),
        n != i32::MIN,
    ensures
        eval_math(
            SpecMathExpr::UnaryOp(
                UnaryOp::Minus,
                Box::new(SpecMathExpr::UnaryOp(UnaryOp::Minus, Box::new(e))),
            ),
            env,
        ) == Ok::<Value, Error>(Value::Int(n)),
        eval_math(SpecMathExpr::UnaryOp(UnaryOp::Minus, Box::new(e)), env) == Ok::<Value, Error>(
            Value::Int((-n) as i32),
        ),
{
}

} // verus!
