//! Expressions of the language and their evaluation.
use vstd::prelude::*;

use crate::common::{Value, bool_text, push_bool};
use crate::decimal::{i32_text, push_i32};
use crate::error::Error;
use crate::lexer::operator_text;
use crate::parser::{BinaryOp, UnaryOp, binary_apply, binary_operator, unary_apply, unary_operator};
use crate::state::ProgramState;

verus! {

/// A line: an arithmetic expression, or an assignment of one to a name.
#[derive(Debug, PartialEq)]
pub enum Expr {
    Math(MathExpr),
    Assign(String, MathExpr),
}

/// An arithmetic or boolean expression.
#[derive(Debug, PartialEq)]
pub enum MathExpr {
    Val(Value),
    Var(String),
    BinOp(BinaryOp, Box<MathExpr>, Box<MathExpr>),
    UnaryOp(UnaryOp, Box<MathExpr>),
}

/// An arithmetic expression as a mathematical value.
pub enum SpecMathExpr {
    Val(Value),
    Var(Seq<char>),
    BinOp(BinaryOp, Box<SpecMathExpr>, Box<SpecMathExpr>),
    UnaryOp(UnaryOp, Box<SpecMathExpr>),
}

/// A line of the language as a mathematical value.
pub enum SpecExpr {
    Math(SpecMathExpr),
    Assign(Seq<char>, SpecMathExpr),
}

pub open spec fn math_view(e: MathExpr) -> SpecMathExpr
    decreases e,
{
    match e {
        MathExpr::Val(v) => SpecMathExpr::Val(v),
        MathExpr::Var(n) => SpecMathExpr::Var(n@),
        MathExpr::BinOp(op, l, r) => SpecMathExpr::BinOp(
            op,
            Box::new(math_view(*l)),
            Box::new(math_view(*r)),
        ),
        MathExpr::UnaryOp(op, e) => SpecMathExpr::UnaryOp(op, Box::new(math_view(*e))),
    }
}

impl View for MathExpr {
    type V = SpecMathExpr;

    open spec fn view(&self) -> SpecMathExpr {
        math_view(*self)
    }
}

impl View for Expr {
    type V = SpecExpr;

    open spec fn view(&self) -> SpecExpr {
        match self {
            Expr::Math(m) => SpecExpr::Math(m@),
            Expr::Assign(n, m) => SpecExpr::Assign(n@, m@),
        }
    }
}

/// The value of an arithmetic expression under the given bindings: operands
/// are evaluated left to right and the first error stops the evaluation.
pub open spec fn eval_math(e: SpecMathExpr, env: Map<Seq<char>, Value>) -> Result<Value, Error>
    decreases e,
{
    match e {
        SpecMathExpr::Val(v) => Ok(v),
        SpecMathExpr::Var(n) => if env.contains_key(n) {
            Ok(env[n])
        } else {
            Err(Error::UndeclaredVar)
        },
        SpecMathExpr::BinOp(op, l, r) => match eval_math(*l, env) {
            Ok(v1) => match eval_math(*r, env) {
                Ok(v2) => binary_apply(op, v1, v2),
                Err(err) => Err(err),
            },
            Err(err) => Err(err),
        },
        SpecMathExpr::UnaryOp(op, inner) => match eval_math(*inner, env) {
            Ok(v) => unary_apply(op, v),
            Err(err) => Err(err),
        },
    }
}

/// The value of a line and the bindings after it: an assignment binds the
/// name to the value of its expression where that has one.
pub open spec fn eval_expr(e: SpecExpr, env: Map<Seq<char>, Value>) -> (
    Result<Value, Error>,
    Map<Seq<char>, Value>,
) {
    match e {
        SpecExpr::Math(m) => (eval_math(m, env), env),
        SpecExpr::Assign(n, m) => match eval_math(m, env) {
            Ok(v) => (Ok(v), env.insert(n, v)),
            Err(err) => (Err(err), env),
        },
    }
}

/// The text of a literal value.
pub open spec fn literal_text(v: Value) -> Seq<char> {
    match v {
        Value::Int(n) => i32_text(n),
        Value::Bool(b) => bool_text(b),
    }
}

/// The text an arithmetic expression is shown with: binary operations in
/// parentheses, with a space on each side of the operator.
pub open spec fn math_text(e: SpecMathExpr) -> Seq<char>
    decreases e,
{
    match e {
        SpecMathExpr::Val(v) => literal_text(v),
        SpecMathExpr::Var(n) => n,
        SpecMathExpr::UnaryOp(op, inner) => operator_text(unary_operator(op)) + math_text(*inner),
        SpecMathExpr::BinOp(op, l, r) => seq!['('] + math_text(*l) + seq![' '] + operator_text(
            binary_operator(op),
        ) + seq![' '] + math_text(*r) + seq![')'],
    }
}

/// The text a line is shown with.
pub open spec fn expr_text(e: SpecExpr) -> Seq<char> {
    match e {
        SpecExpr::Math(m) => math_text(m),
        SpecExpr::Assign(n, m) => n + seq![' ', '=', ' '] + math_text(m),
    }
}

/// Appends the text of a literal value.
fn push_literal(out: &mut String, v: Value)
    ensures
        final(out)@ == old(out)@ + literal_text(v),
{
    match v {
        Value::Int(n) => push_i32(out, n),
        Value::Bool(b) => push_bool(out, b),
    }
}

impl MathExpr {
    /// The value of the expression under the bindings of `pgm_state`.
    pub fn eval(&self, pgm_state: &ProgramState) -> (r: Result<Value, Error>)
        requires
            pgm_state.wf(),
        ensures
            r == eval_math(self@, pgm_state@),
        decreases self,
    {
        match self {
            MathExpr::Val(val) => Ok(*val),
            MathExpr::Var(var) => match pgm_state.get(var) {
                Some(v) => Ok(v),
                None => Err(Error::UndeclaredVar),
            },
            MathExpr::BinOp(op, e1, e2) => {
                let v1 = match e1.eval(pgm_state) {
                    Ok(v) => v,
                    Err(e) => return Err(e),
                };
                let v2 = match e2.eval(pgm_state) {
                    Ok(v) => v,
                    Err(e) => return Err(e),
                };
                op.apply(v1, v2)
            },
            MathExpr::UnaryOp(op, e) => match e.eval(pgm_state) {
                Ok(v) => op.apply(v),
                Err(err) => Err(err),
            },
        }
    }

    fn push_text(&self, out: &mut String)
        ensures
            final(out)@ == old(out)@ + math_text(self@),
        decreases self,
    {
        match self {
            MathExpr::Val(val) => push_literal(out, *val),
            MathExpr::Var(var) => out.append(var.as_str()),
            MathExpr::UnaryOp(op, e) => {
                out.append(op.operator().as_str());
                e.push_text(out);
                assert(final(out)@ =~= old(out)@ + math_text(self@));
            },
            MathExpr::BinOp(op, left, right) => {
                let open = "(";
                let space = " ";
                let close = ")";
                proof {
                    reveal_strlit("(");
                    reveal_strlit(" ");
                    reveal_strlit(")");
                }
                out.append(open);
                left.push_text(out);
                out.append(space);
                out.append(op.operator().as_str());
                out.append(space);
                right.push_text(out);
                out.append(close);
                assert(final(out)@ =~= old(out)@ + math_text(self@));
            },
        }
    }

    /// The text of the expression, which the lexer and parser read back.
    pub fn to_string(&self) -> (r: String)
        ensures
            r@ == math_text(self@),
    {
        let mut out = String::new();
        self.push_text(&mut out);
        assert(out@ =~= math_text(self@));
        out
    }
}

impl Expr {
    /// Evaluates the line; an assignment that succeeds binds its name.
    pub fn eval(self, pgm_state: &mut ProgramState) -> (r: Result<Value, Error>)
        requires
            old(pgm_state).wf(),
        ensures
            final(pgm_state).wf(),
            (r, final(pgm_state)@) == eval_expr(self@, old(pgm_state)@),
    {
        match self {
            Expr::Math(m_expr) => m_expr.eval(pgm_state),
            Expr::Assign(var, m_expr) => {
                let right = match m_expr.eval(pgm_state) {
                    Ok(v) => v,
                    Err(e) => return Err(e),
                };
                pgm_state.insert(var, right);
                Ok(right)
            },
        }
    }

    /// The text of the line, which the lexer and parser read back.
    pub fn to_string(&self) -> (r: String)
        ensures
            r@ == expr_text(self@),
    {
        match self {
            Expr::Math(m) => m.to_string(),
            Expr::Assign(var, m) => {
                let eq = " = ";
                proof {
                    reveal_strlit(" = ");
                }
                let mut out = String::from_str(var.as_str());
                out.append(eq);
                m.push_text(&mut out);
                assert(out@ =~= expr_text(self@));
                out
            },
        }
    }
}

} // verus!
