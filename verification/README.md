# quick_maths

A small language of integer arithmetic, comparisons and boolean logic, with
variables that persist between lines, verified with Verus.

- `src/lexer.rs`: tokens and `tokenize`, specified by `lex`.
- `src/parser.rs`: operators, their semantics (`unary_apply`, `binary_apply`),
  and the precedence-climbing `Parser`, specified by `spec_parse_*`.
- `src/ast.rs`: expressions, their evaluation (`eval_math`, `eval_expr`) and text.
- `src/state.rs`: the variable bindings, viewed as a map.
- `src/interpreter.rs`: one line from text to value (`run_spec`).
- `src/roundtrip.rs`: the text of an expression reads back as that expression.
- `src/laws.rs`: algebraic laws of the operators.
- `src/decimal.rs`, `src/text.rs`, `src/pattern.rs`: number text, string
  comparison, and matching through the `regex` crate.
- `app/main.rs`: the interactive shell.
