use quick_maths::ast::{Expr, MathExpr};
use quick_maths::common::Value;
use quick_maths::error::Error;
use quick_maths::lexer::{tokenize, Operator};
use quick_maths::parser::{BinaryOp, Parser, UnaryOp};

fn parse(s: &str) -> Result<Expr, Error> {
    let ts = tokenize(s).unwrap();
    Parser::new(ts).parse_expr()
}

fn val(n: i32) -> Box<MathExpr> {
    Box::new(MathExpr::Val(Value::Int(n)))
}

fn var(s: &str) -> Box<MathExpr> {
    Box::new(MathExpr::Var(s.to_string()))
}

#[test]
fn precedence_of_mull_over_plus() {
    let e = parse("1 + 2 * 3 - 4").unwrap();
    let expected = Expr::Math(MathExpr::BinOp(
        BinaryOp::Minus,
        Box::new(MathExpr::BinOp(
            BinaryOp::Plus,
            val(1),
            Box::new(MathExpr::BinOp(BinaryOp::Mull, val(2), val(3))),
        )),
        val(4),
    ));
    assert_eq!(e, expected);
}

#[test]
fn left_associative_chain() {
    let e = parse("8 / 4 / 2").unwrap();
    let expected = Expr::Math(MathExpr::BinOp(
        BinaryOp::Div,
        Box::new(MathExpr::BinOp(BinaryOp::Div, val(8), val(4))),
        val(2),
    ));
    assert_eq!(e, expected);
}

#[test]
fn assignment_and_unary() {
    let e = parse("x = -(a + 1)").unwrap();
    let expected = Expr::Assign(
        "x".to_string(),
        MathExpr::UnaryOp(
            UnaryOp::Minus,
            Box::new(MathExpr::BinOp(BinaryOp::Plus, var("a"), val(1))),
        ),
    );
    assert_eq!(e, expected);
}

#[test]
fn single_variable_is_an_expression() {
    assert_eq!(parse("x").unwrap(), Expr::Math(MathExpr::Var("x".to_string())));
    assert_eq!(parse("x == 3").unwrap(), Expr::Math(MathExpr::BinOp(BinaryOp::Equal, var("x"), val(3))));
}

#[test]
fn parse_errors() {
    assert_eq!(parse(""), Err(Error::UnexpectedToken));
    assert_eq!(parse("(1 + 2"), Err(Error::UnexpectedToken));
    assert_eq!(parse("1 +"), Err(Error::ParseToken));
    assert_eq!(parse("1 ! 2"), Err(Error::UnexpectedToken));
    assert_eq!(parse("x = )"), Err(Error::UnexpectedToken));
    assert_eq!(parse("* 2"), Err(Error::UnexpectedToken));
}

#[test]
fn operator_conversions() {
    assert_eq!(UnaryOp::try_from(Operator::Minus), Ok(UnaryOp::Minus));
    assert_eq!(UnaryOp::try_from(Operator::Not), Ok(UnaryOp::Not));
    assert_eq!(UnaryOp::try_from(Operator::Plus), Err(Error::InvalidUnaryOp));
    assert_eq!(BinaryOp::try_from(Operator::GreaterEq), Ok(BinaryOp::GreaterEq));
    assert_eq!(BinaryOp::try_from(Operator::Not), Err(Error::InvalidBinOp));
    assert_eq!(BinaryOp::try_from(Operator::Assign), Err(Error::InvalidBinOp));
}

#[test]
fn precedences() {
    assert_eq!(BinaryOp::Or.get_precedence(), 0);
    assert_eq!(BinaryOp::And.get_precedence(), 1);
    assert_eq!(BinaryOp::NotEqual.get_precedence(), 2);
    assert_eq!(BinaryOp::LessEq.get_precedence(), 3);
    assert_eq!(BinaryOp::Minus.get_precedence(), 4);
    assert_eq!(BinaryOp::Div.get_precedence(), 5);
}

#[test]
fn apply_operators() {
    assert_eq!(BinaryOp::Plus.apply(Value::Int(2), Value::Int(3)), Ok(Value::Int(5)));
    assert_eq!(BinaryOp::Div.apply(Value::Int(-7), Value::Int(2)), Ok(Value::Int(-3)));
    assert_eq!(BinaryOp::Div.apply(Value::Int(7), Value::Int(0)), Err(Error::DivisionByZero));
    assert_eq!(BinaryOp::Div.apply(Value::Int(i32::MIN), Value::Int(-1)), Err(Error::Overflow));
    assert_eq!(BinaryOp::Mull.apply(Value::Int(65536), Value::Int(65536)), Err(Error::Overflow));
    assert_eq!(BinaryOp::Minus.apply(Value::Int(i32::MIN), Value::Int(1)), Err(Error::Overflow));
    assert_eq!(BinaryOp::Plus.apply(Value::Int(1), Value::Bool(true)), Err(Error::TypeMismatch));
    assert_eq!(BinaryOp::And.apply(Value::Bool(true), Value::Int(1)), Err(Error::TypeMismatch));
    assert_eq!(BinaryOp::Greater.apply(Value::Int(1), Value::Bool(true)), Err(Error::TypeMismatch));
    assert_eq!(BinaryOp::Equal.apply(Value::Bool(true), Value::Bool(true)), Err(Error::TypeMismatch));
    assert_eq!(BinaryOp::Or.apply(Value::Bool(false), Value::Bool(true)), Ok(Value::Bool(true)));
    assert_eq!(UnaryOp::Minus.apply(Value::Int(5)), Ok(Value::Int(-5)));
    assert_eq!(UnaryOp::Minus.apply(Value::Int(i32::MIN)), Err(Error::Overflow));
    assert_eq!(UnaryOp::Minus.apply(Value::Bool(true)), Ok(Value::Bool(false)));
    assert_eq!(UnaryOp::Not.apply(Value::Bool(false)), Ok(Value::Bool(true)));
    assert_eq!(UnaryOp::Not.apply(Value::Int(3)), Err(Error::TypeMismatch));
}

#[test]
fn text_round_trip() {
    let e = Expr::Assign(
        "result".to_string(),
        MathExpr::BinOp(
            BinaryOp::LessEq,
            Box::new(MathExpr::UnaryOp(UnaryOp::Not, var("counter"))),
            Box::new(MathExpr::BinOp(
                BinaryOp::Mull,
                Box::new(MathExpr::UnaryOp(UnaryOp::Minus, val(0))),
                Box::new(MathExpr::Val(Value::Bool(true))),
            )),
        ),
    );
    let text = e.to_string();
    assert_eq!(text, "result = (!counter <= (-0 * true))");
    let back = parse(&format!("{}\n", text)).unwrap();
    assert_eq!(back, e);
}
