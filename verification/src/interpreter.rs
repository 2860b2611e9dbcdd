//! Reading, parsing and evaluating lines against a persistent program state.
use vstd::prelude::*;

use crate::ast::eval_expr;
use crate::common::Value;
use crate::error::Error;
use crate::lexer::{lex, tokenize};
use crate::parser::{Parser, spec_parse_expr};
use crate::state::ProgramState;

verus! {

/// What running one line gives, and the bindings after it: the first error
/// of lexing, parsing or evaluating, or the value of the line.
pub open spec fn run_spec(env: Map<Seq<char>, Value>, text: Seq<char>) -> (
    Result<Value, Error>,
    Map<Seq<char>, Value>,
) {
    match lex(text) {
        Err(e) => (Err(e), env),
        Ok(ts) => match spec_parse_expr(ts, 0).0 {
            Err(e) => (Err(e), env),
            Ok(expr) => eval_expr(expr, env),
        },
    }
}

/// Runs lines one after the other; assignments persist between lines.
pub struct Interpreter {
    pgm_state: ProgramState,
}

impl View for Interpreter {
    type V = Map<Seq<char>, Value>;

    closed spec fn view(&self) -> Map<Seq<char>, Value> {
        self.pgm_state@
    }
}

impl Interpreter {
    pub closed spec fn wf(&self) -> bool {
        self.pgm_state.wf()
    }

    /// An interpreter in which no variable is bound yet.
    pub fn new() -> (r: Self)
        ensures
            r.wf(),
            r@ == Map::<Seq<char>, Value>::empty(),
    {
        Interpreter { pgm_state: ProgramState::new() }
    }

    /// Runs one line: tokenizes, parses and evaluates it, keeping the
    /// bindings that an assignment makes.
    pub fn run(&mut self, instr: &str) -> (r: Result<Value, Error>)
        requires
            old(self).wf(),
        ensures
            final(self).wf(),
            (r, final(self)@) == run_spec(old(self)@, instr@),
    {
        let tokens = match tokenize(instr) {
            Ok(t) => t,
            Err(e) => return Err(e),
        };
        let mut parser: Parser = Parser::new(tokens);
        let expr = match parser.parse_expr() {
            Ok(e) => e,
            Err(e) => return Err(e),
        };
        expr.eval(&mut self.pgm_state)
    }
}

} // verus!
