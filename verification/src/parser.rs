//! Operators of the language and the precedence-climbing parser.
use vstd::prelude::*;

use crate::ast::{Expr, MathExpr, SpecExpr, SpecMathExpr};
use crate::common::Value;
use crate::error::Error;
use crate::lexer::{Operator, Parenthesis, SpecToken, Token, operator_text, tokens_view};

verus! {

/// An operator applied to one operand.
#[derive(Debug, Hash, Eq, PartialEq, Structural, Clone, Copy)]
pub enum UnaryOp {
    Not,
    Minus,
}

/// An operator applied to two operands.
#[derive(Debug, Hash, Eq, PartialEq, Structural, Clone, Copy)]
pub enum BinaryOp {
    // Arithmetic
    Plus,
    Minus,
    Mull,
    Div,
    // Comparison
    Less,
    LessEq,
    Greater,
    GreaterEq,
    Equal,
    NotEqual,
    // Logical operators
    And,
    Or,
}

/// The unary operator an operator token stands for.
pub open spec fn unary_of(o: Operator) -> Result<UnaryOp, Error> {
    match o {
        Operator::Minus => Ok(UnaryOp::Minus),
        Operator::Not => Ok(UnaryOp::Not),
        _ => Err(Error::InvalidUnaryOp),
    }
}

/// The binary operator an operator token stands for.
pub open spec fn binary_of(o: Operator) -> Result<BinaryOp, Error> {
    match o {
        Operator::Plus => Ok(BinaryOp::Plus),
        Operator::Minus => Ok(BinaryOp::Minus),
        Operator::Mull => Ok(BinaryOp::Mull),
        Operator::Div => Ok(BinaryOp::Div),
        Operator::Less => Ok(BinaryOp::Less),
        Operator::LessEq => Ok(BinaryOp::LessEq),
        Operator::Greater => Ok(BinaryOp::Greater),
        Operator::GreaterEq => Ok(BinaryOp::GreaterEq),
        Operator::Equal => Ok(BinaryOp::Equal),
        Operator::NotEqual => Ok(BinaryOp::NotEqual),
        Operator::And => Ok(BinaryOp::And),
        Operator::Or => Ok(BinaryOp::Or),
        _ => Err(Error::InvalidBinOp),
    }
}

/// The operator token of a unary operator.
pub open spec fn unary_operator(op: UnaryOp) -> Operator {
    match op {
        UnaryOp::Not => Operator::Not,
        UnaryOp::Minus => Operator::Minus,
    }
}

/// The operator token of a binary operator.
pub open spec fn binary_operator(op: BinaryOp) -> Operator {
    match op {
        BinaryOp::Plus => Operator::Plus,
        BinaryOp::Minus => Operator::Minus,
        BinaryOp::Mull => Operator::Mull,
        BinaryOp::Div => Operator::Div,
        BinaryOp::Less => Operator::Less,
        BinaryOp::LessEq => Operator::LessEq,
        BinaryOp::Greater => Operator::Greater,
        BinaryOp::GreaterEq => Operator::GreaterEq,
        BinaryOp::Equal => Operator::Equal,
        BinaryOp::NotEqual => Operator::NotEqual,
        BinaryOp::And => Operator::And,
        BinaryOp::Or => Operator::Or,
    }
}

/// How tightly a binary operator binds: a higher number binds tighter.
pub open spec fn precedence(op: BinaryOp) -> int {
    match op {
        BinaryOp::Or => 0,
        BinaryOp::And => 1,
        BinaryOp::Equal | BinaryOp::NotEqual => 2,
        BinaryOp::Less | BinaryOp::Greater | BinaryOp::LessEq | BinaryOp::GreaterEq => 3,
        BinaryOp::Plus | BinaryOp::Minus => 4,
        BinaryOp::Mull | BinaryOp::Div => 5,
    }
}

/// An integer result, or `Overflow` where it does not fit in an `i32`.
pub open spec fn int_result(x: int) -> Result<Value, Error> {
    if i32::MIN <= x && x <= i32::MAX {
        Ok(Value::Int(x as i32))
    } else {
        Err(Error::Overflow)
    }
}

/// Integer division rounding toward zero.
pub open spec fn truncated_div(a: int, b: int) -> int {
    if a >= 0 && b > 0 {
        a / b
    } else if a < 0 && b < 0 {
        (-a) / (-b)
    } else if a < 0 {
        -((-a) / b)
    } else {
        -(a / (-b))
    }
}

/// What a unary operator makes of a value.
pub open spec fn unary_apply(op: UnaryOp, v: Value) -> Result<Value, Error> {
    match (op, v) {
        (UnaryOp::Minus, Value::Int(n)) => int_result(-n),
        (UnaryOp::Minus, Value::Bool(b)) => Ok(Value::Bool(!b)),
        (UnaryOp::Not, Value::Bool(b)) => Ok(Value::Bool(!b)),
        (UnaryOp::Not, Value::Int(_)) => Err(Error::TypeMismatch),
    }
}

/// What a binary operator makes of two values.
pub open spec fn binary_apply(op: BinaryOp, v1: Value, v2: Value) -> Result<Value, Error> {
    match (v1, v2) {
        (Value::Int(a), Value::Int(b)) => match op {
            BinaryOp::Plus => int_result(a + b),
            BinaryOp::Minus => int_result(a - b),
            BinaryOp::Mull => int_result(a * b),
            BinaryOp::Div => if b == 0 {
                Err(Error::DivisionByZero)
            } else {
                int_result(truncated_div(a as int, b as int))
            },
            BinaryOp::Less => Ok(Value::Bool(a < b)),
            BinaryOp::LessEq => Ok(Value::Bool(a <= b)),
            BinaryOp::Greater => Ok(Value::Bool(a > b)),
            BinaryOp::GreaterEq => Ok(Value::Bool(a >= b)),
            BinaryOp::Equal => Ok(Value::Bool(a == b)),
            BinaryOp::NotEqual => Ok(Value::Bool(a != b)),
            BinaryOp::And | BinaryOp::Or => Err(Error::TypeMismatch),
        },
        (Value::Bool(a), Value::Bool(b)) => match op {
            BinaryOp::And => Ok(Value::Bool(a && b)),
            BinaryOp::Or => Ok(Value::Bool(a || b)),
            _ => Err(Error::TypeMismatch),
        },
        _ => Err(Error::TypeMismatch),
    }
}

impl UnaryOp {
    /// The unary operator an operator token stands for; `InvalidUnaryOp`
    /// for the others.
    pub fn try_from(token: Operator) -> (r: Result<UnaryOp, Error>)
        ensures
            r == unary_of(token),
    {
        match token {
            Operator::Minus => Ok(UnaryOp::Minus),
            Operator::Not => Ok(UnaryOp::Not),
            _ => Err(Error::InvalidUnaryOp),
        }
    }

    /// The operator token of this operator.
    pub fn operator(&self) -> (r: Operator)
        ensures
            r == unary_operator(*self),
    {
        match self {
            UnaryOp::Not => Operator::Not,
            UnaryOp::Minus => Operator::Minus,
        }
    }

    /// The text of this operator.
    pub fn to_string(&self) -> (r: String)
        ensures
            r@ == operator_text(unary_operator(*self)),
    {
        self.operator().to_string()
    }

    /// Applies the operator: `-` negates integers (with `Overflow` on the
    /// least `i32`) and booleans, `!` negates booleans.
    pub fn apply(&self, val: Value) -> (r: Result<Value, Error>)
        ensures
            r == unary_apply(*self, val),
    {
        match (self, val) {
            (UnaryOp::Minus, Value::Int(v)) => {
                if v == i32::MIN {
                    Err(Error::Overflow)
                } else {
                    Ok(Value::Int(-v))
                }
            },
            (UnaryOp::Minus, Value::Bool(v)) => Ok(Value::Bool(!v)),
            (UnaryOp::Not, Value::Bool(v)) => Ok(Value::Bool(!v)),
            _ => Err(Error::TypeMismatch),
        }
    }
}

impl BinaryOp {
    /// The binary operator an operator token stands for; `InvalidBinOp`
    /// for the others.
    pub fn try_from(token: Operator) -> (r: Result<BinaryOp, Error>)
        ensures
            r == binary_of(token),
    {
        match token {
            Operator::Plus => Ok(BinaryOp::Plus),
            Operator::Minus => Ok(BinaryOp::Minus),
            Operator::Mull => Ok(BinaryOp::Mull),
            Operator::Div => Ok(BinaryOp::Div),
            Operator::Less => Ok(BinaryOp::Less),
            Operator::LessEq => Ok(BinaryOp::LessEq),
            Operator::Greater => Ok(BinaryOp::Greater),
            Operator::GreaterEq => Ok(BinaryOp::GreaterEq),
            Operator::Equal => Ok(BinaryOp::Equal),
            Operator::NotEqual => Ok(BinaryOp::NotEqual),
            Operator::And => Ok(BinaryOp::And),
            Operator::Or => Ok(BinaryOp::Or),
            _ => Err(Error::InvalidBinOp),
        }
    }

    /// The operator token of this operator.
    pub fn operator(&self) -> (r: Operator)
        ensures
            r == binary_operator(*self),
    {
        match self {
            BinaryOp::Plus => Operator::Plus,
            BinaryOp::Minus => Operator::Minus,
            BinaryOp::Mull => Operator::Mull,
            BinaryOp::Div => Operator::Div,
            BinaryOp::Less => Operator::Less,
            BinaryOp::LessEq => Operator::LessEq,
            BinaryOp::Greater => Operator::Greater,
            BinaryOp::GreaterEq => Operator::GreaterEq,
            BinaryOp::Equal => Operator::Equal,
            BinaryOp::NotEqual => Operator::NotEqual,
            BinaryOp::And => Operator::And,
            BinaryOp::Or => Operator::Or,
        }
    }

    /// The text of this operator.
    pub fn to_string(&self) -> (r: String)
        ensures
            r@ == operator_text(binary_operator(*self)),
    {
        self.operator().to_string()
    }

    /// How tightly the operator binds: a higher number binds tighter.
    pub fn get_precedence(&self) -> (r: i32)
        ensures
            r == precedence(*self),
    {
        match self {
            BinaryOp::Or => 0,
            BinaryOp::And => 1,
            BinaryOp::Equal => 2,
            BinaryOp::NotEqual => 2,
            BinaryOp::Less => 3,
            BinaryOp::Greater => 3,
            BinaryOp::LessEq => 3,
            BinaryOp::GreaterEq => 3,
            BinaryOp::Plus => 4,
            BinaryOp::Minus => 4,
            BinaryOp::Mull => 5,
            BinaryOp::Div => 5,
        }
    }

    /// Applies the operator: arithmetic and comparisons on integers, `&`
    /// and `|` on booleans; `Overflow` where the result does not fit,
    /// `DivisionByZero` for a zero divisor, `TypeMismatch` for other operand
    /// types.
    pub fn apply(&self, val1: Value, val2: Value) -> (r: Result<Value, Error>)
        ensures
            r == binary_apply(*self, val1, val2),
    {
        match (self, val1, val2) {
            (BinaryOp::Plus, Value::Int(a), Value::Int(b)) => match a.checked_add(b) {
                Some(n) => Ok(Value::Int(n)),
                None => Err(Error::Overflow),
            },
            (BinaryOp::Minus, Value::Int(a), Value::Int(b)) => match a.checked_sub(b) {
                Some(n) => Ok(Value::Int(n)),
                None => Err(Error::Overflow),
            },
            (BinaryOp::Mull, Value::Int(a), Value::Int(b)) => match a.checked_mul(b) {
                Some(n) => Ok(Value::Int(n)),
                None => Err(Error::Overflow),
            },
            (BinaryOp::Div, Value::Int(a), Value::Int(b)) => {
                if b == 0 {
                    Err(Error::DivisionByZero)
                } else {
                    match a.checked_div(b) {
                        Some(n) => Ok(Value::Int(n)),
                        None => Err(Error::Overflow),
                    }
                }
            },
            (BinaryOp::Less, Value::Int(a), Value::Int(b)) => Ok(Value::Bool(a < b)),
            (BinaryOp::LessEq, Value::Int(a), Value::Int(b)) => Ok(Value::Bool(a <= b)),
            (BinaryOp::Greater, Value::Int(a), Value::Int(b)) => Ok(Value::Bool(a > b)),
            (BinaryOp::GreaterEq, Value::Int(a), Value::Int(b)) => Ok(Value::Bool(a >= b)),
            (BinaryOp::Equal, Value::Int(a), Value::Int(b)) => Ok(Value::Bool(a == b)),
            (BinaryOp::NotEqual, Value::Int(a), Value::Int(b)) => Ok(Value::Bool(a != b)),
            (BinaryOp::Or, Value::Bool(a), Value::Bool(b)) => Ok(Value::Bool(a || b)),
            (BinaryOp::And, Value::Bool(a), Value::Bool(b)) => Ok(Value::Bool(a && b)),
            _ => Err(Error::TypeMismatch),
        }
    }
}

/// The token at `pos`, if there is one.
pub open spec fn token_at(ts: Seq<SpecToken>, pos: int) -> Option<SpecToken> {
    if 0 <= pos < ts.len() {
        Some(ts[pos])
    } else {
        None
    }
}

/// Where the cursor stands after taking the token at `pos`, if any.
pub open spec fn after_consume(ts: Seq<SpecToken>, pos: int) -> int {
    if 0 <= pos < ts.len() {
        pos + 1
    } else {
        pos
    }
}

pub open spec fn token_option_view(t: Option<Token>) -> Option<SpecToken> {
    match t {
        Some(t) => Some(t@),
        None => None,
    }
}

pub open spec fn math_result_view(r: Result<MathExpr, Error>) -> Result<SpecMathExpr, Error> {
    match r {
        Ok(e) => Ok(e@),
        Err(e) => Err(e),
    }
}

pub open spec fn expr_result_view(r: Result<Expr, Error>) -> Result<SpecExpr, Error> {
    match r {
        Ok(e) => Ok(e@),
        Err(e) => Err(e),
    }
}

/// A parsed operand: a value, a variable, or an expression in parentheses.
/// Each parse function gives its outcome and where the cursor stands after.
pub open spec fn spec_parse_primary(ts: Seq<SpecToken>, pos: int) -> (
    Result<SpecMathExpr, Error>,
    int,
)
    decreases ts.len() - pos, 2int,
{
    match token_at(ts, pos) {
        None => (Err(Error::UnexpectedToken), pos),
        Some(SpecToken::Val(v)) => (Ok(SpecMathExpr::Val(v)), pos + 1),
        Some(SpecToken::Var(n)) => (Ok(SpecMathExpr::Var(n)), pos + 1),
        Some(SpecToken::Par(Parenthesis::Open)) => {
            let inner = spec_parse_math(ts, pos + 1);
            if token_at(ts, inner.1) == Some(SpecToken::Par(Parenthesis::Closed)) {
                (inner.0, inner.1 + 1)
            } else {
                (Err(Error::UnexpectedToken), after_consume(ts, inner.1))
            }
        },
        Some(_) => (Err(Error::UnexpectedToken), pos + 1),
    }
}

/// An operand preceded by any number of unary operators.
pub open spec fn spec_parse_unary(ts: Seq<SpecToken>, pos: int) -> (
    Result<SpecMathExpr, Error>,
    int,
)
    decreases ts.len() - pos, 3int,
{
    match token_at(ts, pos) {
        None => (Err(Error::ParseToken), pos),
        Some(SpecToken::Op(o)) => match unary_of(o) {
            Ok(u) => {
                let inner = spec_parse_unary(ts, pos + 1);
                (
                    match inner.0 {
                        Ok(e) => Ok(SpecMathExpr::UnaryOp(u, Box::new(e))),
                        Err(e) => Err(e),
                    },
                    inner.1,
                )
            },
            Err(_) => spec_parse_primary(ts, pos),
        },
        Some(_) => spec_parse_primary(ts, pos),
    }
}

/// The right operand of `op` (whose left operand is `left`, and whose
/// operator token was just taken): the next operand together with every
/// following operator that binds tighter than `op`.
pub open spec fn spec_parse_binary(ts: Seq<SpecToken>, left: SpecMathExpr, op: BinaryOp, pos: int) -> (
    Result<SpecMathExpr, Error>,
    int,
)
    decreases ts.len() - pos, 5int,
{
    let first = spec_parse_unary(ts, pos);
    match first.0 {
        Err(e) => (Err(e), first.1),
        Ok(right) => if pos <= first.1 <= ts.len() {
            let rest = spec_binary_loop(ts, op, right, first.1);
            (
                match rest.0 {
                    Ok(r) => Ok(SpecMathExpr::BinOp(op, Box::new(left), Box::new(r))),
                    Err(e) => Err(e),
                },
                rest.1,
            )
        } else {
            (Err(Error::UnexpectedToken), first.1)
        },
    }
}

/// Extends the right operand `right` of `op` while the next operator binds
/// tighter than `op`.
pub open spec fn spec_binary_loop(ts: Seq<SpecToken>, op: BinaryOp, right: SpecMathExpr, p: int) -> (
    Result<SpecMathExpr, Error>,
    int,
)
    decreases ts.len() - p, 1int,
{
    match token_at(ts, p) {
        Some(SpecToken::Op(o)) => match binary_of(o) {
            Ok(next) => if precedence(next) > precedence(op) {
                let step = spec_parse_binary(ts, right, next, p + 1);
                match step.0 {
                    Ok(r2) => if p < step.1 <= ts.len() {
                        spec_binary_loop(ts, op, r2, step.1)
                    } else {
                        (Err(Error::UnexpectedToken), step.1)
                    },
                    Err(e) => (Err(e), step.1),
                }
            } else {
                (Ok(right), p)
            },
            Err(_) => (Err(Error::UnexpectedToken), p),
        },
        _ => (Ok(right), p),
    }
}

/// An arithmetic expression: operands joined by binary operators.
pub open spec fn spec_parse_math(ts: Seq<SpecToken>, pos: int) -> (
    Result<SpecMathExpr, Error>,
    int,
)
    decreases ts.len() - pos, 4int,
{
    let first = spec_parse_unary(ts, pos);
    match first.0 {
        Err(e) => (Err(e), first.1),
        Ok(left) => if pos <= first.1 <= ts.len() {
            spec_math_loop(ts, left, first.1)
        } else {
            (Err(Error::UnexpectedToken), first.1)
        },
    }
}

/// Joins `left` with each following binary operator and its right operand.
pub open spec fn spec_math_loop(ts: Seq<SpecToken>, left: SpecMathExpr, p: int) -> (
    Result<SpecMathExpr, Error>,
    int,
)
    decreases ts.len() - p, 1int,
{
    match token_at(ts, p) {
        Some(SpecToken::Op(o)) => match binary_of(o) {
            Ok(b) => {
                let step = spec_parse_binary(ts, left, b, p + 1);
                match step.0 {
                    Ok(l2) => if p < step.1 <= ts.len() {
                        spec_math_loop(ts, l2, step.1)
                    } else {
                        (Err(Error::UnexpectedToken), step.1)
                    },
                    Err(e) => (Err(e), step.1),
                }
            },
            Err(_) => (Err(Error::UnexpectedToken), p),
        },
        _ => (Ok(left), p),
    }
}

/// An assignment `name = expression`; `NotAssign` where the tokens do not
/// start with a name and `=`.
pub open spec fn spec_parse_attrib(ts: Seq<SpecToken>, pos: int) -> (Result<SpecExpr, Error>, int) {
    match token_at(ts, pos) {
        None => (Err(Error::UnexpectedToken), pos),
        Some(SpecToken::Var(name)) => match token_at(ts, pos + 1) {
            None => (Err(Error::NotAssign), pos + 1),
            Some(SpecToken::Op(Operator::Assign)) => {
                let m = spec_parse_math(ts, pos + 2);
                (
                    match m.0 {
                        Ok(e) => Ok(SpecExpr::Assign(name, e)),
                        Err(e) => Err(e),
                    },
                    m.1,
                )
            },
            Some(_) => (Err(Error::NotAssign), pos + 2),
        },
        Some(_) => (Err(Error::NotAssign), pos + 1),
    }
}

/// A line: an assignment, or else, read again from the first token, an
/// arithmetic expression.
pub open spec fn spec_parse_expr(ts: Seq<SpecToken>, pos: int) -> (Result<SpecExpr, Error>, int) {
    let a = spec_parse_attrib(ts, pos);
    match a.0 {
        Err(Error::NotAssign) => {
            let m = spec_parse_math(ts, 0);
            (
                match m.0 {
                    Ok(e) => Ok(SpecExpr::Math(e)),
                    Err(e) => Err(e),
                },
                m.1,
            )
        },
        _ => a,
    }
}

/// Each parse function leaves the cursor between where it started and the
/// end of the tokens; so the bounds that the definitions test before
/// going on always hold, and their other branches are never taken.
/// This one is for `spec_parse_primary`.
pub proof fn lemma_primary_bounds(ts: Seq<SpecToken>, pos: int)
    requires
        0 <= pos <= ts.len(),
    ensures
        pos <= spec_parse_primary(ts, pos).1 <= ts.len(),
    decreases ts.len() - pos, 2int,
{
    if let Some(SpecToken::Par(Parenthesis::Open)) = token_at(ts, pos) {
        lemma_math_bounds(ts, pos + 1);
    }
}

/// `spec_parse_unary` stays within the tokens.
pub proof fn lemma_unary_bounds(ts: Seq<SpecToken>, pos: int)
    requires
        0 <= pos <= ts.len(),
    ensures
        pos <= spec_parse_unary(ts, pos).1 <= ts.len(),
    decreases ts.len() - pos, 3int,
{
    lemma_primary_bounds(ts, pos);
    if let Some(SpecToken::Op(o)) = token_at(ts, pos) {
        if unary_of(o) is Ok {
            lemma_unary_bounds(ts, pos + 1);
        }
    }
}

/// `spec_parse_binary` stays within the tokens, and so does the operand it
/// reads first.
pub proof fn lemma_binary_bounds(ts: Seq<SpecToken>, left: SpecMathExpr, op: BinaryOp, pos: int)
    requires
        0 <= pos <= ts.len(),
    ensures
        pos <= spec_parse_binary(ts, left, op, pos).1 <= ts.len(),
        ({
            let first = spec_parse_unary(ts, pos);
            first.0 is Ok ==> pos <= first.1 <= ts.len()
        }),
    decreases ts.len() - pos, 5int,
{
    lemma_unary_bounds(ts, pos);
    let first = spec_parse_unary(ts, pos);
    if let Ok(right) = first.0 {
        lemma_binary_loop_bounds(ts, op, right, first.1);
    }
}

/// `spec_binary_loop` stays within the tokens.
pub proof fn lemma_binary_loop_bounds(ts: Seq<SpecToken>, op: BinaryOp, right: SpecMathExpr, p: int)
    requires
        0 <= p <= ts.len(),
    ensures
        p <= spec_binary_loop(ts, op, right, p).1 <= ts.len(),
    decreases ts.len() - p, 1int,
{
    if let Some(SpecToken::Op(o)) = token_at(ts, p) {
        if let Ok(next) = binary_of(o) {
            if precedence(next) > precedence(op) {
                lemma_binary_bounds(ts, right, next, p + 1);
                let step = spec_parse_binary(ts, right, next, p + 1);
                if let Ok(r2) = step.0 {
                    lemma_binary_loop_bounds(ts, op, r2, step.1);
                }
            }
        }
    }
}

/// `spec_parse_math` stays within the tokens.
pub proof fn lemma_math_bounds(ts: Seq<SpecToken>, pos: int)
    requires
        0 <= pos <= ts.len(),
    ensures
        pos <= spec_parse_math(ts, pos).1 <= ts.len(),
    decreases ts.len() - pos, 4int,
{
    lemma_unary_bounds(ts, pos);
    let first = spec_parse_unary(ts, pos);
    if let Ok(left) = first.0 {
        lemma_math_loop_bounds(ts, left, first.1);
    }
}

/// `spec_math_loop` stays within the tokens.
pub proof fn lemma_math_loop_bounds(ts: Seq<SpecToken>, left: SpecMathExpr, p: int)
    requires
        0 <= p <= ts.len(),
    ensures
        p <= spec_math_loop(ts, left, p).1 <= ts.len(),
    decreases ts.len() - p, 1int,
{
    if let Some(SpecToken::Op(o)) = token_at(ts, p) {
        if let Ok(b) = binary_of(o) {
            lemma_binary_bounds(ts, left, b, p + 1);
            let step = spec_parse_binary(ts, left, b, p + 1);
            if let Ok(l2) = step.0 {
                lemma_math_loop_bounds(ts, l2, step.1);
            }
        }
    }
}

/// A cursor over a sequence of tokens.
pub struct Parser {
    tokens: Vec<Token>,
    cursor: usize,
}

impl Parser {
    /// The tokens being parsed.
    pub closed spec fn token_seq(&self) -> Seq<SpecToken> {
        tokens_view(self.tokens@)
    }

    /// Where the cursor stands.
    pub closed spec fn position(&self) -> int {
        self.cursor as int
    }

    /// The cursor stands on a token or just after the last one.
    pub closed spec fn wf(&self) -> bool {
        self.cursor <= self.tokens.len()
    }

    pub fn new(tokens: Vec<Token>) -> (p: Parser)
        ensures
            p.wf(),
            p.token_seq() == tokens_view(tokens@),
            p.position() == 0,
    {
        Parser { tokens, cursor: 0 }
    }

    fn reset(&mut self)
        ensures
            final(self).tokens == old(self).tokens,
            final(self).cursor == 0,
    {
        self.cursor = 0;
    }

    fn consume(&mut self) -> (r: Option<Token>)
        requires
            old(self).wf(),
        ensures
            final(self).wf(),
            final(self).tokens == old(self).tokens,
            final(self).cursor == after_consume(old(self).token_seq(), old(self).cursor as int),
            token_option_view(r) == token_at(old(self).token_seq(), old(self).cursor as int),
    {
        if self.cursor >= self.tokens.len() {
            return None;
        }
        let res = self.tokens[self.cursor].clone();
        self.cursor += 1;
        Some(res)
    }

    fn current(&self) -> (r: Option<Token>)
        requires
            self.wf(),
        ensures
            token_option_view(r) == token_at(self.token_seq(), self.cursor as int),
    {
        if self.cursor < self.tokens.len() {
            Some(self.tokens[self.cursor].clone())
        } else {
            None
        }
    }

    fn parse_primary(&mut self) -> (r: Result<MathExpr, Error>)
        requires
            old(self).wf(),
        ensures
            final(self).wf(),
            final(self).tokens == old(self).tokens,
            old(self).cursor <= final(self).cursor,
            (math_result_view(r), final(self).cursor as int) == spec_parse_primary(
                old(self).token_seq(),
                old(self).cursor as int,
            ),
        decreases old(self).tokens@.len() - old(self).cursor, 2int,
    {
        let token = match self.consume() {
            Some(t) => t,
            None => return Err(Error::UnexpectedToken),
        };
        match token {
            Token::Val(v) => Ok(MathExpr::Val(v)),
            Token::Var(var) => Ok(MathExpr::Var(var)),
            Token::Par(Parenthesis::Open) => {
                let expr = self.parse_math_expr();
                match self.consume() {
                    Some(Token::Par(Parenthesis::Closed)) => expr,
                    _ => Err(Error::UnexpectedToken),
                }
            },
            _ => Err(Error::UnexpectedToken),
        }
    }

    fn parse_unary(&mut self) -> (r: Result<MathExpr, Error>)
        requires
            old(self).wf(),
        ensures
            final(self).wf(),
            final(self).tokens == old(self).tokens,
            old(self).cursor <= final(self).cursor,
            (math_result_view(r), final(self).cursor as int) == spec_parse_unary(
                old(self).token_seq(),
                old(self).cursor as int,
            ),
        decreases old(self).tokens@.len() - old(self).cursor, 3int,
    {
        match self.current() {
            Some(Token::Op(op)) => match UnaryOp::try_from(op) {
                Ok(un_op) => {
                    self.consume();
                    return match self.parse_unary() {
                        Ok(e) => Ok(MathExpr::UnaryOp(un_op, Box::new(e))),
                        Err(e) => Err(e),
                    };
                },
                Err(_) => {},
            },
            _ => {},
        }
        match self.current() {
            None => Err(Error::ParseToken),
            Some(_) => self.parse_primary(),
        }
    }

    fn parse_binary(&mut self, left: MathExpr, op: BinaryOp) -> (r: Result<MathExpr, Error>)
        requires
            old(self).wf(),
        ensures
            final(self).wf(),
            final(self).tokens == old(self).tokens,
            old(self).cursor <= final(self).cursor,
            (math_result_view(r), final(self).cursor as int) == spec_parse_binary(
                old(self).token_seq(),
                left@,
                op,
                old(self).cursor as int,
            ),
        decreases old(self).tokens@.len() - old(self).cursor, 5int,
    {
        let ghost ts = self.token_seq();
        let ghost c0 = self.cursor as int;
        let ghost target = spec_parse_binary(ts, left@, op, c0);
        let mut right = match self.parse_unary() {
            Ok(e) => e,
            Err(e) => return Err(e),
        };
        loop
            invariant
                self.wf(),
                self.token_seq() == ts,
                self.tokens == old(self).tokens,
                c0 == old(self).cursor,
                c0 <= self.cursor,
                ts == old(self).token_seq(),
                ts.len() == self.tokens@.len(),
                target == spec_parse_binary(ts, left@, op, c0),
                target == ({
                    let rest = spec_binary_loop(ts, op, right@, self.cursor as int);
                    (
                        match rest.0 {
                            Ok(r) => Ok(SpecMathExpr::BinOp(op, Box::new(left@), Box::new(r))),
                            Err(e) => Err(e),
                        },
                        rest.1,
                    )
                }),
            decreases self.tokens@.len() - self.cursor,
        {
            match self.current() {
                Some(Token::Op(next_op)) => match BinaryOp::try_from(next_op) {
                    Ok(next) => {
                        if next.get_precedence() > op.get_precedence() {
                            self.consume();
                            right = match self.parse_binary(right, next) {
                                Ok(e) => e,
                                Err(e) => return Err(e),
                            };
                        } else {
                            return Ok(MathExpr::BinOp(op, Box::new(left), Box::new(right)));
                        }
                    },
                    Err(_) => return Err(Error::UnexpectedToken),
                },
                _ => return Ok(MathExpr::BinOp(op, Box::new(left), Box::new(right))),
            }
        }
    }

    fn parse_math_expr(&mut self) -> (r: Result<MathExpr, Error>)
        requires
            old(self).wf(),
        ensures
            final(self).wf(),
            final(self).tokens == old(self).tokens,
            old(self).cursor <= final(self).cursor,
            (math_result_view(r), final(self).cursor as int) == spec_parse_math(
                old(self).token_seq(),
                old(self).cursor as int,
            ),
        decreases old(self).tokens@.len() - old(self).cursor, 4int,
    {
        let ghost ts = self.token_seq();
        let ghost c0 = self.cursor as int;
        let ghost target = spec_parse_math(ts, c0);
        let mut left = match self.parse_unary() {
            Ok(e) => e,
            Err(e) => return Err(e),
        };
        loop
            invariant
                self.wf(),
                self.token_seq() == ts,
                self.tokens == old(self).tokens,
                c0 == old(self).cursor,
                c0 <= self.cursor,
                ts == old(self).token_seq(),
                ts.len() == self.tokens@.len(),
                target == spec_parse_math(ts, c0),
                target == spec_math_loop(ts, left@, self.cursor as int),
            decreases self.tokens@.len() - self.cursor,
        {
            match self.current() {
                Some(Token::Op(op)) => match BinaryOp::try_from(op) {
                    Ok(bin_op) => {
                        self.consume();
                        left = match self.parse_binary(left, bin_op) {
                            Ok(e) => e,
                            Err(e) => return Err(e),
                        };
                    },
                    Err(_) => return Err(Error::UnexpectedToken),
                },
                _ => return Ok(left),
            }
        }
    }

    fn parse_attrib(&mut self) -> (r: Result<Expr, Error>)
        requires
            old(self).wf(),
        ensures
            final(self).wf(),
            final(self).tokens == old(self).tokens,
            (expr_result_view(r), final(self).cursor as int) == spec_parse_attrib(
                old(self).token_seq(),
                old(self).cursor as int,
            ),
    {
        let left = match self.consume() {
            Some(t) => t,
            None => return Err(Error::UnexpectedToken),
        };
        match left {
            Token::Var(var) => {
                let next = match self.consume() {
                    Some(t) => t,
                    None => return Err(Error::NotAssign),
                };
                match next {
                    Token::Op(Operator::Assign) => {},
                    _ => return Err(Error::NotAssign),
                }
                match self.parse_math_expr() {
                    Ok(e) => Ok(Expr::Assign(var, e)),
                    Err(e) => Err(e),
                }
            },
            _ => Err(Error::NotAssign),
        }
    }

    /// Parses one line: an assignment `name = expression`, or else an
    /// arithmetic expression read from the first token.
    pub fn parse_expr(&mut self) -> (r: Result<Expr, Error>)
        requires
            old(self).wf(),
        ensures
            final(self).wf(),
            final(self).token_seq() == old(self).token_seq(),
            (expr_result_view(r), final(self).position()) == spec_parse_expr(
                old(self).token_seq(),
                old(self).position(),
            ),
    {
        match self.parse_attrib() {
            Err(Error::NotAssign) => {
                self.reset();
                match self.parse_math_expr() {
                    Ok(m) => Ok(Expr::Math(m)),
                    Err(e) => Err(e),
                }
            },
            other => other,
        }
    }
}

} // verus!
