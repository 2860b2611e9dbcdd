use quick_maths::decimal::parse_i32;
use quick_maths::common::Value;
use quick_maths::error::Error;
use quick_maths::lexer::{tokenize, Operator, Parenthesis, Token};

fn var(s: &str) -> Token {
    Token::Var(s.to_string())
}

#[test]
fn tokenize_assignment() {
    let ts = tokenize("x = 12 + y\n").unwrap();
    assert_eq!(
        ts,
        vec![
            var("x"),
            Token::Op(Operator::Assign),
            Token::Val(Value::Int(12)),
            Token::Op(Operator::Plus),
            var("y"),
        ]
    );
}

#[test]
fn tokenize_without_spaces() {
    let ts = tokenize("(a+3)*-b").unwrap();
    assert_eq!(
        ts,
        vec![
            Token::Par(Parenthesis::Open),
            var("a"),
            Token::Op(Operator::Plus),
            Token::Val(Value::Int(3)),
            Token::Par(Parenthesis::Closed),
            Token::Op(Operator::Mull),
            Token::Op(Operator::Minus),
            var("b"),
        ]
    );
}

#[test]
fn tokenize_two_char_operators() {
    let ts = tokenize("1<=2 3>=4 5==6 7!=8 !x").unwrap();
    assert_eq!(
        ts,
        vec![
            Token::Val(Value::Int(1)),
            Token::Op(Operator::LessEq),
            Token::Val(Value::Int(2)),
            Token::Val(Value::Int(3)),
            Token::Op(Operator::GreaterEq),
            Token::Val(Value::Int(4)),
            Token::Val(Value::Int(5)),
            Token::Op(Operator::Equal),
            Token::Val(Value::Int(6)),
            Token::Val(Value::Int(7)),
            Token::Op(Operator::NotEqual),
            Token::Val(Value::Int(8)),
            Token::Op(Operator::Not),
            var("x"),
        ]
    );
}

#[test]
fn tokenize_booleans_and_names() {
    let ts = tokenize("true & False | false_").unwrap();
    assert_eq!(
        ts,
        vec![
            Token::Val(Value::Bool(true)),
            Token::Op(Operator::And),
            var("False"),
            Token::Op(Operator::Or),
            var("false_"),
        ]
    );
}

#[test]
fn tokenize_empty_and_blank() {
    assert_eq!(tokenize("").unwrap(), vec![]);
    assert_eq!(tokenize("  \r\n").unwrap(), vec![]);
}

#[test]
fn tokenize_leading_zeros_and_limits() {
    assert_eq!(tokenize("007").unwrap(), vec![Token::Val(Value::Int(7))]);
    assert_eq!(tokenize("2147483647").unwrap(), vec![Token::Val(Value::Int(i32::MAX))]);
}

#[test]
fn tokenize_value_out_of_bounds() {
    assert_eq!(tokenize("2147483648"), Err(Error::ValOutOfBounds));
    assert_eq!(tokenize("1 + 99999999999"), Err(Error::ValOutOfBounds));
}

#[test]
fn tokenize_parse_token_errors() {
    // a leading zero is not a plain number, so an oversized one is no number at all
    assert_eq!(tokenize("099999999999"), Err(Error::ParseToken));
    assert_eq!(tokenize("1a"), Err(Error::ParseToken));
    assert_eq!(tokenize("a$b"), Err(Error::ParseToken));
    assert_eq!(tokenize("5 $"), Err(Error::ParseToken));
}

#[test]
fn operator_and_parenthesis_from_str() {
    assert_eq!(Operator::from_str("<="), Ok(Operator::LessEq));
    assert_eq!(Operator::from_str("=="), Ok(Operator::Equal));
    assert_eq!(Operator::from_str("="), Ok(Operator::Assign));
    assert_eq!(Operator::from_str("!"), Ok(Operator::Not));
    assert_eq!(Operator::from_str("=>"), Err(Error::ParseToken));
    assert_eq!(Parenthesis::from_str("("), Ok(Parenthesis::Open));
    assert_eq!(Parenthesis::from_str(")"), Ok(Parenthesis::Closed));
    assert_eq!(Parenthesis::from_str("["), Err(Error::ParseToken));
}

#[test]
fn token_text() {
    assert_eq!(Token::Val(Value::Int(-5)).to_string(), "int::-5");
    assert_eq!(Token::Val(Value::Bool(false)).to_string(), "bool::false");
    assert_eq!(var("abc").to_string(), "abc");
    assert_eq!(Token::Op(Operator::NotEqual).to_string(), "!=");
    assert_eq!(Token::Par(Parenthesis::Closed).to_string(), ")");
}

#[test]
fn value_text() {
    assert_eq!(Value::Int(0).to_string(), "int::0");
    assert_eq!(Value::Int(i32::MIN).to_string(), "int::-2147483648");
    assert_eq!(Value::Int(1234).to_string(), "int::1234");
    assert_eq!(Value::Bool(true).to_string(), "bool::true");
}

#[test]
fn decimal_parse() {
    assert_eq!(parse_i32("-2147483648"), Some(i32::MIN));
    assert_eq!(parse_i32("+17"), Some(17));
    assert_eq!(parse_i32("-"), None);
    assert_eq!(parse_i32("+"), None);
    assert_eq!(parse_i32(""), None);
    assert_eq!(parse_i32("2147483648"), None);
    assert_eq!(parse_i32("12x"), None);
}
