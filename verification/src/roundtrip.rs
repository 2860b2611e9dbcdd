//! The text of an expression reads back as the same expression.
use vstd::prelude::*;

use crate::ast::{SpecExpr, SpecMathExpr, eval_expr, eval_math, expr_text, math_text};
use crate::common::{Value, bool_text};
use crate::decimal::{decimal, i32_text, is_digit, lemma_i32_text_parses};
use crate::error::Error;
use crate::interpreter::run_spec;
use crate::lexer::{
    Operator, Parenthesis, SpecToken, char_token, glued_len, glued_token, is_separator, lemma_prepend_prepend,
    lex, lex_from, operator_text, parse_word, prepend, takes_equals, with_equals, word_tokens,
};
use crate::parser::{
    BinaryOp, UnaryOp, binary_of, binary_operator, spec_binary_loop, spec_math_loop, spec_parse_binary,
    spec_parse_expr, spec_parse_math, spec_parse_primary, spec_parse_unary, spec_parse_attrib, token_at,
    unary_of, unary_operator,
};
use crate::pattern::{is_ident_char, is_ident_start, is_identifier};

verus! {

/// A char that belongs to the word in which it stands.
pub open spec fn is_word_char(c: char) -> bool {
    !is_separator(c) && char_token(c) is None
}

/// Whether the lexer reads `s` (or what may follow it) at a token boundary.
pub open spec fn at_boundary(s: Seq<char>) -> bool {
    s.len() == 0 || is_separator(s[0]) || char_token(s[0]) is Some
}

/// A name that the lexer reads as a variable.
pub open spec fn is_variable_name(n: Seq<char>) -> bool {
    is_identifier(n) && n != bool_text(true) && n != bool_text(false)
}

/// An expression that its text stands for unambiguously: integer literals
/// are not negative (the text of a negative one reads as a negation) and
/// names are variable names.
pub open spec fn well_formed_math(e: SpecMathExpr) -> bool
    decreases e,
{
    match e {
        SpecMathExpr::Val(Value::Int(n)) => n >= 0,
        SpecMathExpr::Val(Value::Bool(_)) => true,
        SpecMathExpr::Var(n) => is_variable_name(n),
        SpecMathExpr::UnaryOp(_, inner) => well_formed_math(*inner),
        SpecMathExpr::BinOp(_, l, r) => well_formed_math(*l) && well_formed_math(*r),
    }
}

pub open spec fn well_formed_expr(e: SpecExpr) -> bool {
    match e {
        SpecExpr::Math(m) => well_formed_math(m),
        SpecExpr::Assign(n, m) => is_variable_name(n) && well_formed_math(m),
    }
}

/// The tokens an arithmetic expression's text is made of.
pub open spec fn math_tokens(e: SpecMathExpr) -> Seq<SpecToken>
    decreases e,
{
    match e {
        SpecMathExpr::Val(v) => seq![SpecToken::Val(v)],
        SpecMathExpr::Var(n) => seq![SpecToken::Var(n)],
        SpecMathExpr::UnaryOp(op, inner) => seq![SpecToken::Op(unary_operator(op))] + math_tokens(*inner),
        SpecMathExpr::BinOp(op, l, r) => seq![SpecToken::Par(Parenthesis::Open)] + math_tokens(*l) + seq![
            SpecToken::Op(binary_operator(op)),
        ] + math_tokens(*r) + seq![SpecToken::Par(Parenthesis::Closed)],
    }
}

/// The tokens a line's text is made of.
pub open spec fn expr_tokens(e: SpecExpr) -> Seq<SpecToken> {
    match e {
        SpecExpr::Math(m) => math_tokens(m),
        SpecExpr::Assign(n, m) => seq![SpecToken::Var(n), SpecToken::Op(Operator::Assign)] + math_tokens(m),
    }
}

proof fn lemma_prepend_empty(r: Result<Seq<SpecToken>, Error>)
    ensures
        prepend(Seq::empty(), r) == r,
{
    if let Ok(x) = r {
        assert(Seq::<SpecToken>::empty() + x =~= x);
    }
}

/// Word chars are gathered into the pending word.
proof fn lemma_lex_word(w: Seq<char>, rest: Seq<char>, p: Seq<char>)
    requires
        forall|i: int| 0 <= i < w.len() ==> #[trigger] is_word_char(w[i]),
    ensures
        lex_from(w + rest, p) == lex_from(rest, p + w),
    decreases w.len(),
{
    if w.len() == 0 {
        assert(w + rest =~= rest);
        assert(p + w =~= p);
    } else {
        let s = w + rest;
        assert(s[0] == w[0]);
        assert(is_word_char(w[0]));
        assert(s.drop_first() =~= w.drop_first() + rest);
        assert forall|i: int| 0 <= i < w.drop_first().len() implies #[trigger] is_word_char(
            w.drop_first()[i],
        ) by {
            assert(w.drop_first()[i] == w[i + 1]);
        }
        lemma_lex_word(w.drop_first(), rest, p.push(w[0]));
        assert(p.push(w[0]) + w.drop_first() =~= p + w);
    }
}

/// At a token boundary the pending word is closed first.
proof fn lemma_lex_boundary(rest: Seq<char>, w: Seq<char>)
    requires
        at_boundary(rest),
    ensures
        lex_from(rest, w) == match word_tokens(w) {
            Ok(ws) => prepend(ws, lex_from(rest, Seq::empty())),
            Err(e) => Err(e),
        },
{
    let empty = Seq::<char>::empty();
    assert(word_tokens(empty) == Ok::<Seq<SpecToken>, Error>(Seq::empty()));
    if rest.len() == 0 {
        if let Ok(ws) = word_tokens(w) {
            assert(ws + Seq::<SpecToken>::empty() =~= ws);
        }
    } else if is_separator(rest[0]) {
        if let Ok(ws) = word_tokens(w) {
            lemma_prepend_empty(lex_from(rest.drop_first(), empty));
        }
    } else {
        let t = char_token(rest[0]).unwrap();
        if let Ok(ws) = word_tokens(w) {
            let l = lex_from(rest.skip(glued_len(t, rest)), empty);
            let g = glued_token(t, rest);
            assert(Seq::<SpecToken>::empty().push(g) =~= seq![g]);
            lemma_prepend_prepend(ws, seq![g], l);
            assert(ws + seq![g] =~= ws.push(g));
        }
    }
}

/// A char standing for a token, not glued to what follows.
proof fn lemma_lex_single(c: char, rest: Seq<char>)
    requires
        char_token(c) is Some,
        !takes_equals(char_token(c).unwrap(), seq![c] + rest),
    ensures
        lex_from(seq![c] + rest, Seq::empty()) == prepend(seq![char_token(c).unwrap()], lex_from(rest, Seq::empty())),
{
    let s = seq![c] + rest;
    let t = char_token(c).unwrap();
    assert(s[0] == c);
    assert(s.skip(1) =~= rest);
    assert(word_tokens(Seq::<char>::empty()) == Ok::<Seq<SpecToken>, Error>(Seq::empty()));
    assert(Seq::<SpecToken>::empty().push(t) =~= seq![t]);
}

/// A separator stands for nothing.
proof fn lemma_lex_separator(c: char, rest: Seq<char>)
    requires
        is_separator(c),
    ensures
        lex_from(seq![c] + rest, Seq::empty()) == lex_from(rest, Seq::empty()),
{
    let s = seq![c] + rest;
    assert(s[0] == c);
    assert(s.drop_first() =~= rest);
    assert(word_tokens(Seq::<char>::empty()) == Ok::<Seq<SpecToken>, Error>(Seq::empty()));
    lemma_prepend_empty(lex_from(rest, Seq::empty()));
}

/// The text of a binary operator, followed by a space, reads as its token.
proof fn lemma_lex_binary_operator(op: BinaryOp, rest: Seq<char>)
    ensures
        lex_from(operator_text(binary_operator(op)) + seq![' '] + rest, Seq::empty()) == prepend(
            seq![SpecToken::Op(binary_operator(op))],
            lex_from(seq![' '] + rest, Seq::empty()),
        ),
{
    let o = binary_operator(op);
    let txt = operator_text(o);
    let s = txt + seq![' '] + rest;
    let after = seq![' '] + rest;
    if txt.len() == 1 {
        assert(s =~= seq![txt[0]] + after);
        lemma_lex_single(txt[0], after);
    } else {
        assert(txt.len() == 2);
        let t = char_token(txt[0]).unwrap();
        assert(s[0] == txt[0] && s[1] == txt[1]);
        assert(takes_equals(t, s));
        assert(glued_token(t, s) == SpecToken::Op(o));
        assert(s.skip(2) =~= after);
        assert(word_tokens(Seq::<char>::empty()) == Ok::<Seq<SpecToken>, Error>(Seq::empty()));
        assert(Seq::<SpecToken>::empty().push(SpecToken::Op(o)) =~= seq![SpecToken::Op(o)]);
    }
}

/// Facts about the first char of an expression's text.
proof fn lemma_math_text_start(e: SpecMathExpr)
    requires
        well_formed_math(e),
    ensures
        math_text(e).len() > 0,
        math_text(e)[0] != '=',
{
    match e {
        SpecMathExpr::Val(Value::Int(n)) => {
            lemma_i32_text_parses(n);
            assert(is_digit(i32_text(n)[0]));
        },
        SpecMathExpr::Val(Value::Bool(b)) => {},
        SpecMathExpr::Var(n) => {},
        SpecMathExpr::UnaryOp(op, inner) => {},
        SpecMathExpr::BinOp(op, l, r) => {},
    }
}

/// A literal or a variable name is a word that reads as its token.
proof fn lemma_lex_leaf(e: SpecMathExpr, rest: Seq<char>)
    requires
        well_formed_math(e),
        e is Val || e is Var,
        at_boundary(rest),
    ensures
        lex_from(math_text(e) + rest, Seq::empty()) == prepend(math_tokens(e), lex_from(rest, Seq::empty())),
{
    let w = math_text(e);
    let tok = math_tokens(e)[0];
    assert(math_tokens(e) =~= seq![tok]);
    match e {
        SpecMathExpr::Val(Value::Int(n)) => {
            lemma_i32_text_parses(n);
            assert(is_digit(w[0]));
            assert(w != bool_text(true) && w != bool_text(false)) by {
                assert(bool_text(true)[0] == 't');
                assert(bool_text(false)[0] == 'f');
            }
            assert(!is_identifier(w));
            assert(parse_word(w) == Ok::<SpecToken, Error>(tok));
            assert forall|i: int| 0 <= i < w.len() implies #[trigger] is_word_char(w[i]) by {
                assert(is_digit(w[i]));
            }
        },
        SpecMathExpr::Val(Value::Bool(b)) => {
            assert(parse_word(w) == Ok::<SpecToken, Error>(tok));
            assert forall|i: int| 0 <= i < w.len() implies #[trigger] is_word_char(w[i]) by {
                if b {
                    assert(w =~= seq!['t', 'r', 'u', 'e']);
                } else {
                    assert(w =~= seq!['f', 'a', 'l', 's', 'e']);
                }
            }
        },
        SpecMathExpr::Var(n) => {
            assert(parse_word(w) == Ok::<SpecToken, Error>(tok));
            assert forall|i: int| 0 <= i < w.len() implies #[trigger] is_word_char(w[i]) by {
                if i == 0 {
                    assert(is_ident_start(w[0]));
                } else {
                    assert(is_ident_char(w[i]));
                }
            }
        },
        _ => {},
    }
    lemma_lex_word(w, rest, Seq::empty());
    assert(Seq::<char>::empty() + w =~= w);
    lemma_lex_boundary(rest, w);
    assert(word_tokens(w) == Ok::<Seq<SpecToken>, Error>(seq![tok]));
}

/// The text of a binary operation reads as its tokens, given that the text
/// of each operand does.
proof fn lemma_lex_binop(op: BinaryOp, l: SpecMathExpr, r: SpecMathExpr, rest: Seq<char>)
    requires
        ({
            let l_rest = seq![' '] + (operator_text(binary_operator(op)) + seq![' '] + (math_text(r)
                + (seq![')'] + rest)));
            lex_from(math_text(l) + l_rest, Seq::empty()) == prepend(
                math_tokens(l),
                lex_from(l_rest, Seq::empty()),
            )
        }),
        lex_from(math_text(r) + (seq![')'] + rest), Seq::empty()) == prepend(
            math_tokens(r),
            lex_from(seq![')'] + rest, Seq::empty()),
        ),
    ensures
        ({
            let e = SpecMathExpr::BinOp(op, Box::new(l), Box::new(r));
            lex_from(math_text(e) + rest, Seq::empty()) == prepend(math_tokens(e), lex_from(rest, Seq::empty()))
        }),
{
    let empty = Seq::<char>::empty();
    let e = SpecMathExpr::BinOp(op, Box::new(l), Box::new(r));
    let o = binary_operator(op);
    let close_rest = seq![')'] + rest;
    let r_rest = math_text(r) + close_rest;
    let op_rest = operator_text(o) + seq![' '] + r_rest;
    let l_rest = seq![' '] + op_rest;
    let s = math_text(e) + rest;
    assert(s =~= seq!['('] + (math_text(l) + l_rest));
    assert(l_rest =~= seq![' '] + (operator_text(o) + seq![' '] + (math_text(r) + close_rest)));
    lemma_lex_single('(', math_text(l) + l_rest);
    lemma_lex_separator(' ', op_rest);
    lemma_lex_binary_operator(op, r_rest);
    lemma_lex_separator(' ', r_rest);
    lemma_lex_single(')', rest);
    let lr = lex_from(rest, empty);
    let t_open = seq![SpecToken::Par(Parenthesis::Open)];
    let t_op = seq![SpecToken::Op(o)];
    let t_close = seq![SpecToken::Par(Parenthesis::Closed)];
    assert(lex_from(close_rest, empty) == prepend(t_close, lr));
    assert(lex_from(r_rest, empty) == prepend(math_tokens(r), prepend(t_close, lr)));
    lemma_prepend_prepend(math_tokens(r), t_close, lr);
    assert(lex_from(op_rest, empty) == prepend(t_op, prepend(math_tokens(r) + t_close, lr)));
    lemma_prepend_prepend(t_op, math_tokens(r) + t_close, lr);
    assert(lex_from(l_rest, empty) == prepend(t_op + (math_tokens(r) + t_close), lr));
    lemma_prepend_prepend(math_tokens(l), t_op + (math_tokens(r) + t_close), lr);
    lemma_prepend_prepend(t_open, math_tokens(l) + (t_op + (math_tokens(r) + t_close)), lr);
    assert(t_open + (math_tokens(l) + (t_op + (math_tokens(r) + t_close))) =~= math_tokens(e));
}

/// The text of an expression, followed by anything that starts at a token
/// boundary, reads as the expression's tokens followed by the rest's.
pub proof fn lemma_lex_math_text(e: SpecMathExpr, rest: Seq<char>)
    requires
        well_formed_math(e),
        at_boundary(rest),
    ensures
        lex_from(math_text(e) + rest, Seq::empty()) == prepend(math_tokens(e), lex_from(rest, Seq::empty())),
    decreases e,
{
    let empty = Seq::<char>::empty();
    match e {
        SpecMathExpr::Val(_) => {
            lemma_lex_leaf(e, rest);
        },
        SpecMathExpr::Var(_) => {
            lemma_lex_leaf(e, rest);
        },
        SpecMathExpr::UnaryOp(op, inner) => {
            let o = unary_operator(op);
            let c = operator_text(o)[0];
            let tail = math_text(*inner) + rest;
            assert(operator_text(o) =~= seq![c]);
            assert(math_text(e) + rest =~= seq![c] + tail);
            lemma_math_text_start(*inner);
            assert((seq![c] + tail)[1] == math_text(*inner)[0]);
            lemma_lex_single(c, tail);
            lemma_lex_math_text(*inner, rest);
            lemma_prepend_prepend(seq![SpecToken::Op(o)], math_tokens(*inner), lex_from(rest, empty));
        },
        SpecMathExpr::BinOp(op, l, r) => {
            let close_rest = seq![')'] + rest;
            let l_rest = seq![' '] + (operator_text(binary_operator(op)) + seq![' '] + (math_text(*r)
                + close_rest));
            assert(l_rest[0] == ' ');
            assert(close_rest[0] == ')');
            lemma_lex_math_text(*l, l_rest);
            lemma_lex_math_text(*r, close_rest);
            lemma_lex_binop(op, *l, *r, rest);
        },
    }
}

/// `ts` holds `toks` from `pos` on.
pub open spec fn tokens_at(ts: Seq<SpecToken>, pos: int, toks: Seq<SpecToken>) -> bool {
    &&& 0 <= pos
    &&& pos + toks.len() <= ts.len()
    &&& ts.subrange(pos, pos + toks.len()) == toks
}

proof fn lemma_tokens_at_part(
    ts: Seq<SpecToken>,
    pos: int,
    whole: Seq<SpecToken>,
    off: int,
    part: Seq<SpecToken>,
)
    requires
        tokens_at(ts, pos, whole),
        0 <= off,
        off + part.len() <= whole.len(),
        whole.subrange(off, off + part.len()) == part,
    ensures
        tokens_at(ts, pos + off, part),
        forall|i: int| 0 <= i < part.len() ==> ts[pos + off + i] == part[i],
{
    assert forall|i: int| 0 <= i < part.len() implies ts[pos + off + i] == part[i] by {
        assert(ts.subrange(pos, pos + whole.len())[off + i] == whole[off + i]);
        assert(whole.subrange(off, off + part.len())[i] == whole[off + i]);
    }
    assert(ts.subrange(pos + off, pos + off + part.len()) =~= part);
}

/// An operand read at the start of an expression's tokens is the whole
/// expression (the text of a binary operation is in parentheses).
pub proof fn lemma_parse_unary_tokens(e: SpecMathExpr, ts: Seq<SpecToken>, pos: int)
    requires
        tokens_at(ts, pos, math_tokens(e)),
    ensures
        spec_parse_unary(ts, pos) == (Ok::<SpecMathExpr, Error>(e), pos + math_tokens(e).len()),
    decreases e,
{
    let toks = math_tokens(e);
    lemma_tokens_at_part(ts, pos, toks, 0, toks);
    assert(toks.subrange(0, toks.len() as int) =~= toks);
    match e {
        SpecMathExpr::Val(v) => {
            assert(ts[pos] == toks[0]);
            assert(token_at(ts, pos) == Some(SpecToken::Val(v)));
            assert(spec_parse_primary(ts, pos) == (Ok::<SpecMathExpr, Error>(e), pos + 1));
            assert(spec_parse_unary(ts, pos) == spec_parse_primary(ts, pos));
        },
        SpecMathExpr::Var(n) => {
            assert(ts[pos] == toks[0]);
            assert(token_at(ts, pos) == Some(SpecToken::Var(n)));
            assert(spec_parse_primary(ts, pos) == (Ok::<SpecMathExpr, Error>(e), pos + 1));
            assert(spec_parse_unary(ts, pos) == spec_parse_primary(ts, pos));
        },
        SpecMathExpr::UnaryOp(op, inner) => {
            assert(ts[pos] == toks[0]);
            assert(unary_of(unary_operator(op)) == Ok::<UnaryOp, Error>(op));
            let it = math_tokens(*inner);
            let n = it.len() as int;
            assert(toks.subrange(1, 1 + n) =~= it);
            lemma_tokens_at_part(ts, pos, toks, 1, it);
            lemma_parse_unary_tokens(*inner, ts, pos + 1);
        },
        SpecMathExpr::BinOp(op, l, r) => {
            let lt = math_tokens(*l);
            let rt = math_tokens(*r);
            let ln = lt.len() as int;
            let rn = rt.len() as int;
            let p1 = pos + 1 + ln;
            let p2 = p1 + 1 + rn;
            assert(toks.len() == ln + rn + 3);
            assert(ts[pos] == toks[0]);
            assert(toks.subrange(1, 1 + ln) =~= lt);
            lemma_tokens_at_part(ts, pos, toks, 1, lt);
            assert(toks.subrange(2 + ln, 2 + ln + rn) =~= rt);
            lemma_tokens_at_part(ts, pos, toks, 2 + ln, rt);
            assert(ts[p1] == toks[1 + ln]);
            assert(ts[p2] == toks[2 + ln + rn]);
            assert(toks[1 + ln] == SpecToken::Op(binary_operator(op)));
            assert(toks[2 + ln + rn] == SpecToken::Par(Parenthesis::Closed));
            lemma_parse_unary_tokens(*l, ts, pos + 1);
            lemma_parse_unary_tokens(*r, ts, p1 + 1);
            assert(binary_of(binary_operator(op)) == Ok::<BinaryOp, Error>(op));
            assert(spec_binary_loop(ts, op, *r, p2) == (Ok::<SpecMathExpr, Error>(*r), p2));
            assert(spec_parse_binary(ts, *l, op, p1 + 1) == (Ok::<SpecMathExpr, Error>(e), p2));
            assert(spec_math_loop(ts, e, p2) == (Ok::<SpecMathExpr, Error>(e), p2));
            assert(spec_math_loop(ts, *l, p1) == (Ok::<SpecMathExpr, Error>(e), p2));
            assert(spec_parse_math(ts, pos + 1) == (Ok::<SpecMathExpr, Error>(e), p2));
            assert(spec_parse_primary(ts, pos) == (Ok::<SpecMathExpr, Error>(e), p2 + 1));
        },
    }
}

/// An arithmetic expression read from exactly its tokens is itself.
pub proof fn lemma_parse_math_tokens(e: SpecMathExpr, ts: Seq<SpecToken>, pos: int)
    requires
        tokens_at(ts, pos, math_tokens(e)),
        pos + math_tokens(e).len() == ts.len(),
    ensures
        spec_parse_math(ts, pos) == (Ok::<SpecMathExpr, Error>(e), ts.len() as int),
{
    lemma_parse_unary_tokens(e, ts, pos);
}

/// A line read from exactly its tokens is itself.
pub proof fn lemma_parse_expr_tokens(e: SpecExpr)
    ensures
        spec_parse_expr(expr_tokens(e), 0).0 == Ok::<SpecExpr, Error>(e),
{
    let ts = expr_tokens(e);
    match e {
        SpecExpr::Math(m) => {
            assert(ts.subrange(0, ts.len() as int) =~= ts);
            lemma_parse_math_tokens(m, ts, 0);
            lemma_tokens_at_part(ts, 0, ts, 0, ts);
            assert(spec_parse_attrib(ts, 0).0 == Err::<SpecExpr, Error>(Error::NotAssign));
        },
        SpecExpr::Assign(n, m) => {
            let mt = math_tokens(m);
            assert(ts.subrange(2, ts.len() as int) =~= mt);
            assert(ts.subrange(0, ts.len() as int) =~= ts);
            lemma_tokens_at_part(ts, 0, ts, 2, mt);
            lemma_parse_math_tokens(m, ts, 2);
            assert(ts[0] == SpecToken::Var(n));
            assert(ts[1] == SpecToken::Op(Operator::Assign));
        },
    }
}

/// The text of a line, followed by anything that starts at a token
/// boundary, reads as the line's tokens followed by the rest's.
pub proof fn lemma_lex_expr_text(e: SpecExpr, rest: Seq<char>)
    requires
        well_formed_expr(e),
        at_boundary(rest),
    ensures
        lex_from(expr_text(e) + rest, Seq::empty()) == prepend(expr_tokens(e), lex_from(rest, Seq::empty())),
{
    let empty = Seq::<char>::empty();
    match e {
        SpecExpr::Math(m) => {
            lemma_lex_math_text(m, rest);
        },
        SpecExpr::Assign(n, m) => {
            let m_rest = math_text(m) + rest;
            let after_eq = seq![' '] + m_rest;
            let eq_rest = seq!['='] + after_eq;
            let name_rest = seq![' '] + eq_rest;
            assert(expr_text(e) + rest =~= math_text(SpecMathExpr::Var(n)) + name_rest);
            assert(name_rest[0] == ' ');
            lemma_lex_leaf(SpecMathExpr::Var(n), name_rest);
            lemma_lex_separator(' ', eq_rest);
            assert(eq_rest[1] == ' ');
            lemma_lex_single('=', after_eq);
            lemma_lex_separator(' ', m_rest);
            lemma_lex_math_text(m, rest);
            let lr = lex_from(rest, empty);
            let t_var = seq![SpecToken::Var(n)];
            let t_eq = seq![SpecToken::Op(Operator::Assign)];
            assert(math_tokens(SpecMathExpr::Var(n)) == t_var);
            lemma_prepend_prepend(t_eq, math_tokens(m), lr);
            lemma_prepend_prepend(t_var, t_eq + math_tokens(m), lr);
            assert(t_var + (t_eq + math_tokens(m)) =~= expr_tokens(e));
        },
    }
}

/// Round trip of text: the text of a well-formed line, ended by a newline
/// as the shell reads it, lexes into the line's tokens and parses back into
/// the same line.
pub proof fn law_text_round_trip(e: SpecExpr)
    requires
        well_formed_expr(e),
    ensures
        lex(expr_text(e) + seq!['\n']) == Ok::<Seq<SpecToken>, Error>(expr_tokens(e)),
        spec_parse_expr(expr_tokens(e), 0).0 == Ok::<SpecExpr, Error>(e),
{
    let nl = seq!['\n'];
    lemma_lex_expr_text(e, nl);
    assert(nl =~= seq!['\n'] + Seq::<char>::empty());
    lemma_lex_separator('\n', Seq::empty());
    assert(lex_from(Seq::<char>::empty(), Seq::empty()) == Ok::<Seq<SpecToken>, Error>(Seq::empty()));
    assert(expr_tokens(e) + Seq::<SpecToken>::empty() =~= expr_tokens(e));
    lemma_parse_expr_tokens(e);
}

/// Running the text of a well-formed line evaluates that line.
pub proof fn law_run_text(env: Map<Seq<char>, Value>, e: SpecExpr)
    requires
        well_formed_expr(e),
    ensures
        run_spec(env, expr_text(e) + seq!['\n']) == eval_expr(e, env),
{
    law_text_round_trip(e);
}

/// The expression whose text is the decimal text of `a`: a negative
/// number reads as the negation of its absolute value.
pub open spec fn signed_literal(a: i32) -> SpecMathExpr {
    if a < 0 {
        SpecMathExpr::UnaryOp(UnaryOp::Minus, Box::new(SpecMathExpr::Val(Value::Int((-a) as i32))))
    } else {
        SpecMathExpr::Val(Value::Int(a))
    }
}

/// A line that joins two expressions with a binary operator, with a space
/// on each side of the operator and no parentheses around them.
pub open spec fn infix_line(op: BinaryOp, l: SpecMathExpr, r: SpecMathExpr) -> Seq<char> {
    math_text(l) + seq![' '] + operator_text(binary_operator(op)) + seq![' '] + math_text(r) + seq!['\n']
}

/// The decimal text of any integer but the least is the text of an
/// expression whose value is that integer.
pub proof fn law_signed_literal(a: i32, env: Map<Seq<char>, Value>)
    requires
        a > i32::MIN,
    ensures
        well_formed_math(signed_literal(a)),
        math_text(signed_literal(a)) == i32_text(a),
        eval_math(signed_literal(a), env) == Ok::<Value, Error>(Value::Int(a)),
{
    if a < 0 {
        let m = (-a) as i32;
        assert(m as int == -(a as int));
        assert(m > 0);
        let inner = SpecMathExpr::Val(Value::Int(m));
        assert(well_formed_math(inner));
        assert(math_text(inner) == decimal(m as nat));
        assert(m as nat == (-a) as nat);
        assert(math_text(signed_literal(a)) =~= seq!['-'] + decimal(m as nat));
        assert(eval_math(inner, env) == Ok::<Value, Error>(Value::Int(m)));
    }
}

/// The tokens of `l op r` without parentheses.
pub open spec fn infix_tokens(op: BinaryOp, l: SpecMathExpr, r: SpecMathExpr) -> Seq<SpecToken> {
    math_tokens(l) + seq![SpecToken::Op(binary_operator(op))] + math_tokens(r)
}

proof fn lemma_lex_infix_line(op: BinaryOp, l: SpecMathExpr, r: SpecMathExpr)
    requires
        well_formed_math(l),
        well_formed_math(r),
    ensures
        lex(infix_line(op, l, r)) == Ok::<Seq<SpecToken>, Error>(infix_tokens(op, l, r)),
{
    let empty = Seq::<char>::empty();
    let o = binary_operator(op);
    let nl = seq!['\n'];
    let r_rest = math_text(r) + nl;
    let op_rest = operator_text(o) + seq![' '] + r_rest;
    let l_rest = seq![' '] + op_rest;
    assert(infix_line(op, l, r) =~= math_text(l) + l_rest);
    assert(l_rest[0] == ' ');
    lemma_lex_math_text(l, l_rest);
    lemma_lex_separator(' ', op_rest);
    lemma_lex_binary_operator(op, r_rest);
    lemma_lex_separator(' ', r_rest);
    lemma_lex_math_text(r, nl);
    assert(nl =~= seq!['\n'] + empty);
    lemma_lex_separator('\n', empty);
    assert(lex_from(empty, empty) == Ok::<Seq<SpecToken>, Error>(Seq::empty()));
    let lt = math_tokens(l);
    let rt = math_tokens(r);
    let t_op = seq![SpecToken::Op(o)];
    assert(rt + Seq::<SpecToken>::empty() =~= rt);
    lemma_prepend_prepend(t_op, rt, Ok(Seq::empty()));
    lemma_prepend_prepend(lt, t_op + rt, Ok(Seq::empty()));
    assert(lt + (t_op + rt) + Seq::<SpecToken>::empty() =~= infix_tokens(op, l, r));
}

#[verifier::rlimit(60)]
proof fn lemma_parse_infix_tokens(op: BinaryOp, l: SpecMathExpr, r: SpecMathExpr)
    ensures
        spec_parse_expr(infix_tokens(op, l, r), 0).0 == Ok::<SpecExpr, Error>(
            SpecExpr::Math(SpecMathExpr::BinOp(op, Box::new(l), Box::new(r))),
        ),
{
    let e = SpecMathExpr::BinOp(op, Box::new(l), Box::new(r));
    let o = binary_operator(op);
    let lt = math_tokens(l);
    let rt = math_tokens(r);
    let ts = infix_tokens(op, l, r);
    let ln = lt.len() as int;
    let rn = rt.len() as int;
    let end = ts.len() as int;
    assert(ts.subrange(0, end) =~= ts);
    assert(ts.subrange(0, ln) =~= lt);
    lemma_tokens_at_part(ts, 0, ts, 0, lt);
    assert(ts.subrange(ln + 1, ln + 1 + rn) =~= rt);
    lemma_tokens_at_part(ts, 0, ts, ln + 1, rt);
    lemma_parse_unary_tokens(l, ts, 0);
    lemma_parse_unary_tokens(r, ts, ln + 1);
    assert(ts[ln] == SpecToken::Op(o));
    assert(binary_of(o) == Ok::<BinaryOp, Error>(op));
    assert(spec_binary_loop(ts, op, r, end) == (Ok::<SpecMathExpr, Error>(r), end));
    assert(spec_parse_binary(ts, l, op, ln + 1) == (Ok::<SpecMathExpr, Error>(e), end));
    assert(spec_math_loop(ts, e, end) == (Ok::<SpecMathExpr, Error>(e), end));
    assert(spec_math_loop(ts, l, ln) == (Ok::<SpecMathExpr, Error>(e), end));
    assert(spec_parse_math(ts, 0) == (Ok::<SpecMathExpr, Error>(e), end));
    lemma_tokens_at_part(ts, 0, ts, 0, ts);
    assert(spec_parse_attrib(ts, 0).0 == Err::<SpecExpr, Error>(Error::NotAssign)) by {
        if let SpecMathExpr::Var(n) = l {
            assert(ln == 1);
            assert(token_at(ts, 1) == Some(SpecToken::Op(o)));
        }
    }
}

/// Running `l op r` (two well-formed expressions joined by an operator,
/// as the shell reads a line) evaluates `op` on them, and keeps the
/// bindings. With `signed_literal`, this covers lines such as `-3 + 4`,
/// `(1 + 2) * 3` or `!a | !b`.
pub proof fn law_run_infix_line(env: Map<Seq<char>, Value>, op: BinaryOp, l: SpecMathExpr, r: SpecMathExpr)
    requires
        well_formed_math(l),
        well_formed_math(r),
    ensures
        run_spec(env, infix_line(op, l, r)) == (
            eval_math(SpecMathExpr::BinOp(op, Box::new(l), Box::new(r)), env),
            env,
        ),
{
    lemma_lex_infix_line(op, l, r);
    lemma_parse_infix_tokens(op, l, r);
}

/// A separator at the end of the text changes no token.
pub proof fn lemma_lex_trailing_separator(s: Seq<char>, w: Seq<char>, c: char)
    requires
        is_separator(c),
    ensures
        lex_from(s.push(c), w) == lex_from(s, w),
    decreases s.len(),
{
    let empty = Seq::<char>::empty();
    let sc = s.push(c);
    if s.len() == 0 {
        assert(sc[0] == c);
        assert(sc.drop_first() =~= empty);
        assert(word_tokens(empty) == Ok::<Seq<SpecToken>, Error>(Seq::empty()));
        assert(lex_from(empty, empty) == Ok::<Seq<SpecToken>, Error>(Seq::empty()));
        assert(s =~= empty);
        assert(lex_from(s, w) == word_tokens(w));
        if let Ok(ws) = word_tokens(w) {
            assert(ws + Seq::<SpecToken>::empty() =~= ws);
        }
    } else {
        assert(sc[0] == s[0]);
        if is_separator(s[0]) {
            assert(sc.drop_first() =~= s.drop_first().push(c));
            lemma_lex_trailing_separator(s.drop_first(), empty, c);
        } else {
            match char_token(s[0]) {
                None => {
                    assert(sc.drop_first() =~= s.drop_first().push(c));
                    lemma_lex_trailing_separator(s.drop_first(), w.push(s[0]), c);
                },
                Some(t) => {
                    if s.len() > 1 {
                        assert(sc[1] == s[1]);
                    } else {
                        assert(sc[1] == c);
                    }
                    assert(takes_equals(t, sc) == takes_equals(t, s));
                    assert(glued_token(t, sc) == glued_token(t, s));
                    let n = glued_len(t, s);
                    assert(glued_len(t, sc) == n);
                    assert(n <= s.len());
                    assert(sc.skip(n) =~= s.skip(n).push(c));
                    lemma_lex_trailing_separator(s.skip(n), empty, c);
                },
            }
        }
    }
}

/// A trailing newline changes nothing about running a line: what a line
/// gives depends on its tokens alone, and the last word is read up to the
/// end of the text whether or not a newline ends it.
pub proof fn law_run_trailing_newline(env: Map<Seq<char>, Value>, t: Seq<char>)
    ensures
        lex(t + seq!['\n']) == lex(t),
        run_spec(env, t + seq!['\n']) == run_spec(env, t),
{
    assert(t + seq!['\n'] =~= t.push('\n'));
    lemma_lex_trailing_separator(t, Seq::empty(), '\n');
}

/// The round trip of text holds for a line without the newline too.
pub proof fn law_text_round_trip_without_newline(env: Map<Seq<char>, Value>, e: SpecExpr)
    requires
        well_formed_expr(e),
    ensures
        lex(expr_text(e)) == Ok::<Seq<SpecToken>, Error>(expr_tokens(e)),
        run_spec(env, expr_text(e)) == eval_expr(e, env),
{
    law_text_round_trip(e);
    law_run_trailing_newline(env, expr_text(e));
}

/// Every char other than a space, a newline, a carriage return, a
/// parenthesis or one of `+ - * / < > & | ! =` belongs to the word in
/// which it stands.
pub proof fn law_lex_word_chars(c: char, rest: Seq<char>, w: Seq<char>)
    requires
        c != ' ' && c != '\n' && c != '\r' && c != '(' && c != ')' && c != '+' && c != '-' && c != '*' && c
            != '/' && c != '<' && c != '>' && c != '&' && c != '|' && c != '!' && c != '=',
    ensures
        lex_from(seq![c] + rest, w) == lex_from(rest, w.push(c)),
{
    let s = seq![c] + rest;
    assert(s[0] == c);
    assert(s.drop_first() =~= rest);
}

/// A space, a newline or a carriage return ends the pending word and stands
/// for no token.
pub proof fn law_lex_separators(c: char, rest: Seq<char>, w: Seq<char>)
    requires
        c == ' ' || c == '\n' || c == '\r',
    ensures
        lex_from(seq![c] + rest, w) == match word_tokens(w) {
            Ok(ws) => prepend(ws, lex(rest)),
            Err(e) => Err(e),
        },
{
    let s = seq![c] + rest;
    assert(s[0] == c);
    assert(s.drop_first() =~= rest);
}

/// The operator and parenthesis chars: each stands for its token, and
/// `<`, `>`, `!`, `=` followed by `=` stand for `<=`, `>=`, `!=`, `==`.
pub proof fn law_lex_operator_chars(rest: Seq<char>)
    requires
        rest.len() == 0 || rest[0] != '=',
    ensures
        lex(seq!['('] + rest) == prepend(seq![SpecToken::Par(Parenthesis::Open)], lex(rest)),
        lex(seq![')'] + rest) == prepend(seq![SpecToken::Par(Parenthesis::Closed)], lex(rest)),
        lex(seq!['+'] + rest) == prepend(seq![SpecToken::Op(Operator::Plus)], lex(rest)),
        lex(seq!['-'] + rest) == prepend(seq![SpecToken::Op(Operator::Minus)], lex(rest)),
        lex(seq!['*'] + rest) == prepend(seq![SpecToken::Op(Operator::Mull)], lex(rest)),
        lex(seq!['/'] + rest) == prepend(seq![SpecToken::Op(Operator::Div)], lex(rest)),
        lex(seq!['<'] + rest) == prepend(seq![SpecToken::Op(Operator::Less)], lex(rest)),
        lex(seq!['>'] + rest) == prepend(seq![SpecToken::Op(Operator::Greater)], lex(rest)),
        lex(seq!['&'] + rest) == prepend(seq![SpecToken::Op(Operator::And)], lex(rest)),
        lex(seq!['|'] + rest) == prepend(seq![SpecToken::Op(Operator::Or)], lex(rest)),
        lex(seq!['!'] + rest) == prepend(seq![SpecToken::Op(Operator::Not)], lex(rest)),
        lex(seq!['='] + rest) == prepend(seq![SpecToken::Op(Operator::Assign)], lex(rest)),
        lex(seq!['<', '='] + rest) == prepend(seq![SpecToken::Op(Operator::LessEq)], lex(rest)),
        lex(seq!['>', '='] + rest) == prepend(seq![SpecToken::Op(Operator::GreaterEq)], lex(rest)),
        lex(seq!['!', '='] + rest) == prepend(seq![SpecToken::Op(Operator::NotEqual)], lex(rest)),
        lex(seq!['=', '='] + rest) == prepend(seq![SpecToken::Op(Operator::Equal)], lex(rest)),
{
    lemma_single_char('(', rest);
    lemma_single_char(')', rest);
    lemma_single_char('+', rest);
    lemma_single_char('-', rest);
    lemma_single_char('*', rest);
    lemma_single_char('/', rest);
    lemma_single_char('<', rest);
    lemma_single_char('>', rest);
    lemma_single_char('&', rest);
    lemma_single_char('|', rest);
    lemma_single_char('!', rest);
    lemma_single_char('=', rest);
    lemma_double_char('<', rest);
    lemma_double_char('>', rest);
    lemma_double_char('!', rest);
    lemma_double_char('=', rest);
}

proof fn lemma_single_char(c: char, rest: Seq<char>)
    requires
        char_token(c) is Some,
        rest.len() == 0 || rest[0] != '=',
    ensures
        lex(seq![c] + rest) == prepend(seq![char_token(c).unwrap()], lex(rest)),
{
    let s = seq![c] + rest;
    if rest.len() > 0 {
        assert(s[1] == rest[0]);
    }
    lemma_lex_single(c, rest);
}

proof fn lemma_double_char(c: char, rest: Seq<char>)
    requires
        char_token(c) is Some,
        char_token(c).unwrap() matches SpecToken::Op(o) && with_equals(o) is Some,
    ensures
        lex(seq![c, '='] + rest) == prepend(
            seq![SpecToken::Op(with_equals(char_token(c).unwrap()->Op_0).unwrap())],
            lex(rest),
        ),
{
    let s = seq![c, '='] + rest;
    let t = char_token(c).unwrap();
    assert(s[0] == c && s[1] == '=');
    assert(takes_equals(t, s));
    assert(s.skip(2) =~= rest);
    assert(word_tokens(Seq::<char>::empty()) == Ok::<Seq<SpecToken>, Error>(Seq::empty()));
    assert(Seq::<SpecToken>::empty().push(glued_token(t, s)) =~= seq![glued_token(t, s)]);
}

} // verus!
