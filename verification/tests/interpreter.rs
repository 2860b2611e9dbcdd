use quick_maths::ast::{Expr, MathExpr};
use quick_maths::common::Value;
use quick_maths::error::Error;
use quick_maths::interpreter::Interpreter;
use quick_maths::parser::{BinaryOp, UnaryOp};
use quick_maths::state::ProgramState;

fn run(s: &str) -> Result<Value, Error> {
    Interpreter::new().run(s)
}

#[test]
fn arithmetic_lines() {
    assert_eq!(run("1 + 2 * 3\n"), Ok(Value::Int(7)));
    assert_eq!(run("(1 + 2) * 3\n"), Ok(Value::Int(9)));
    assert_eq!(run("-7 / 2\n"), Ok(Value::Int(-3)));
    assert_eq!(run("3 * (4 + 5)\n"), run("3 * 4 + 3 * 5\n"));
    assert_eq!(run("12 - 12\n"), Ok(Value::Int(0)));
    assert_eq!(run("-9 / -9\n"), Ok(Value::Int(1)));
}

#[test]
fn comparison_and_logic_lines() {
    assert_eq!(run("5 <= 5\n"), Ok(Value::Bool(true)));
    assert_eq!(run("5 >= 6\n"), Ok(Value::Bool(false)));
    assert_eq!(run("3 != 3\n"), Ok(Value::Bool(false)));
    assert_eq!(run("2 > 1 & 1 < 2\n"), Ok(Value::Bool(true)));
    assert_eq!(run("!false\n"), Ok(Value::Bool(true)));
    assert_eq!(run("!true\n"), Ok(Value::Bool(false)));
    assert_eq!(run("!!true\n"), Ok(Value::Bool(true)));
    assert_eq!(run("!(true & false)\n"), run("!true | !false\n"));
    assert_eq!(run("!(true | false)\n"), run("!true & !false\n"));
    assert_eq!(run("false | true\n"), Ok(Value::Bool(true)));
}

#[test]
fn variables_persist() {
    let mut interp = Interpreter::new();
    assert_eq!(interp.run("x = 4\n"), Ok(Value::Int(4)));
    assert_eq!(interp.run("y = x * x\n"), Ok(Value::Int(16)));
    assert_eq!(interp.run("x = y - x\n"), Ok(Value::Int(12)));
    assert_eq!(interp.run("x + y\n"), Ok(Value::Int(28)));
    assert_eq!(interp.run("z\n"), Err(Error::UndeclaredVar));
}

#[test]
fn failed_assignment_keeps_state() {
    let mut interp = Interpreter::new();
    assert_eq!(interp.run("x = 1\n"), Ok(Value::Int(1)));
    assert_eq!(interp.run("x = 1 / 0\n"), Err(Error::DivisionByZero));
    assert_eq!(interp.run("x\n"), Ok(Value::Int(1)));
}

#[test]
fn run_errors() {
    assert_eq!(run("2147483647 + 1\n"), Err(Error::Overflow));
    assert_eq!(run("-2147483648\n"), Err(Error::ValOutOfBounds));
    assert_eq!(run("1 / 0\n"), Err(Error::DivisionByZero));
    assert_eq!(run("3 + true\n"), Err(Error::TypeMismatch));
    assert_eq!(run("#\n"), Err(Error::ParseToken));
    assert_eq!(run("(1\n"), Err(Error::UnexpectedToken));
    assert_eq!(run("q + 1\n"), Err(Error::UndeclaredVar));
}

#[test]
fn garbage_does_not_panic() {
    for s in ["", "((((", "))", "= = =", "!=!=", "x = = 3", "1 2 3", "\u{e9}\u{1F600}", "-", "a =", "(-)"] {
        let _ = run(s);
    }
}

#[test]
fn eval_with_state() {
    let mut st = ProgramState::new();
    st.insert("b".to_string(), Value::Bool(true));
    let bad = MathExpr::BinOp(
        BinaryOp::Minus,
        Box::new(MathExpr::Val(Value::Int(3))),
        Box::new(MathExpr::Var("b".to_string())),
    );
    assert_eq!(bad.eval(&st), Err(Error::TypeMismatch));
    let neg = MathExpr::UnaryOp(
        UnaryOp::Minus,
        Box::new(MathExpr::UnaryOp(UnaryOp::Minus, Box::new(MathExpr::Val(Value::Int(41))))),
    );
    assert_eq!(neg.eval(&st), Ok(Value::Int(41)));
    let assign = Expr::Assign("b".to_string(), MathExpr::Val(Value::Int(2)));
    assert_eq!(assign.eval(&mut st), Ok(Value::Int(2)));
    assert_eq!(st.get(&"b".to_string()), Some(Value::Int(2)));
    assert_eq!(st.get(&"c".to_string()), None);
}

#[test]
fn signed_literals_and_infix_lines() {
    assert_eq!(run("-5\n"), Ok(Value::Int(-5)));
    assert_eq!(run("-2147483647\n"), Ok(Value::Int(-2147483647)));
    assert_eq!(run("-7 + 3\n"), run("3 + -7\n"));
    assert_eq!(run("-7 + 3\n"), Ok(Value::Int(-4)));
    assert_eq!(run("(2 + -3) + 4\n"), run("2 + (-3 + 4)\n"));
    assert_eq!(run("(6 * -7) * 2\n"), run("6 * (-7 * 2)\n"));
    assert_eq!(run("-4 + 0\n"), Ok(Value::Int(-4)));
    assert_eq!(run("0 + -4\n"), Ok(Value::Int(-4)));
    assert_eq!(run("-3 <= 2\n"), run("2 >= -3\n"));
    assert_eq!(run("-3 > 2\n"), run("2 < -3\n"));
    assert_eq!(run("--8\n"), Ok(Value::Int(8)));
    assert_eq!(run("true & false\n"), run("false & true\n"));
    assert_eq!(run("true & true\n"), Ok(Value::Bool(true)));
    assert_eq!(run("false | false\n"), Ok(Value::Bool(false)));
}

#[test]
fn assignment_round_trip_through_text() {
    let e = Expr::Assign(
        "a".to_string(),
        MathExpr::BinOp(
            BinaryOp::Or,
            Box::new(MathExpr::Val(Value::Bool(false))),
            Box::new(MathExpr::UnaryOp(UnaryOp::Not, Box::new(MathExpr::Val(Value::Bool(false))))),
        ),
    );
    let mut interp = Interpreter::new();
    assert_eq!(interp.run(&format!("{}\n", e.to_string())), Ok(Value::Bool(true)));
    assert_eq!(interp.run("a\n"), Ok(Value::Bool(true)));
}
