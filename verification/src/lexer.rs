//! Turning a line of text into tokens.
use vstd::prelude::*;

use crate::common::{Value, bool_text, value_display};
use crate::decimal::{parse_i32, parse_i32_spec};
use crate::error::Error;
use crate::pattern::{
    IDENT_PATTERN, PLAIN_NUMBER_PATTERN, is_identifier, is_plain_number, regex_is_match,
};
use crate::text::str_equals;

verus! {

/// An operator token.
#[derive(Debug, Hash, Eq, PartialEq, Structural, Clone, Copy)]
pub enum Operator {
    // Arithmetic
    Plus,
    Minus,
    Mull,
    Div,
    // Comparison
    Less,
    LessEq,
    Greater,
    GreaterEq,
    Equal,
    NotEqual,
    // Logical operators
    And,
    Or,
    Not,
    // Assignment operator
    Assign,
}

/// A parenthesis token.
#[derive(Debug, Hash, Eq, PartialEq, Structural, Clone, Copy)]
pub enum Parenthesis {
    Open,
    Closed,
}

/// A token of a line: a literal, a variable name, an operator or a parenthesis.
#[derive(Debug, Hash, Eq, PartialEq)]
pub enum Token {
    Val(Value),
    Var(String),
    Op(Operator),
    Par(Parenthesis),
}

/// A token as a mathematical value: a variable name is its chars.
pub enum SpecToken {
    Val(Value),
    Var(Seq<char>),
    Op(Operator),
    Par(Parenthesis),
}

impl View for Token {
    type V = SpecToken;

    open spec fn view(&self) -> SpecToken {
        match self {
            Token::Val(v) => SpecToken::Val(*v),
            Token::Var(s) => SpecToken::Var(s@),
            Token::Op(o) => SpecToken::Op(*o),
            Token::Par(p) => SpecToken::Par(*p),
        }
    }
}

impl Clone for Token {
    fn clone(&self) -> (r: Self)
        ensures
            r == *self,
    {
        match self {
            Token::Val(v) => Token::Val(*v),
            Token::Var(s) => Token::Var(s.clone()),
            Token::Op(o) => Token::Op(*o),
            Token::Par(p) => Token::Par(*p),
        }
    }
}

pub open spec fn tokens_view(ts: Seq<Token>) -> Seq<SpecToken> {
    ts.map_values(|t: Token| t@)
}

/// The text of an operator.
pub open spec fn operator_text(o: Operator) -> Seq<char> {
    match o {
        Operator::Plus => seq!['+'],
        Operator::Minus => seq!['-'],
        Operator::Mull => seq!['*'],
        Operator::Div => seq!['/'],
        Operator::Less => seq!['<'],
        Operator::LessEq => seq!['<', '='],
        Operator::Greater => seq!['>'],
        Operator::GreaterEq => seq!['>', '='],
        Operator::Equal => seq!['=', '='],
        Operator::NotEqual => seq!['!', '='],
        Operator::And => seq!['&'],
        Operator::Or => seq!['|'],
        Operator::Not => seq!['!'],
        Operator::Assign => seq!['='],
    }
}

/// The operator whose text `s` is.
pub open spec fn operator_from_text(s: Seq<char>) -> Result<Operator, Error> {
    if s == operator_text(Operator::Plus) {
        Ok(Operator::Plus)
    } else if s == operator_text(Operator::Minus) {
        Ok(Operator::Minus)
    } else if s == operator_text(Operator::Mull) {
        Ok(Operator::Mull)
    } else if s == operator_text(Operator::Div) {
        Ok(Operator::Div)
    } else if s == operator_text(Operator::Less) {
        Ok(Operator::Less)
    } else if s == operator_text(Operator::LessEq) {
        Ok(Operator::LessEq)
    } else if s == operator_text(Operator::Greater) {
        Ok(Operator::Greater)
    } else if s == operator_text(Operator::GreaterEq) {
        Ok(Operator::GreaterEq)
    } else if s == operator_text(Operator::Equal) {
        Ok(Operator::Equal)
    } else if s == operator_text(Operator::NotEqual) {
        Ok(Operator::NotEqual)
    } else if s == operator_text(Operator::And) {
        Ok(Operator::And)
    } else if s == operator_text(Operator::Or) {
        Ok(Operator::Or)
    } else if s == operator_text(Operator::Not) {
        Ok(Operator::Not)
    } else if s == operator_text(Operator::Assign) {
        Ok(Operator::Assign)
    } else {
        Err(Error::ParseToken)
    }
}

/// The text of a parenthesis.
pub open spec fn parenthesis_text(p: Parenthesis) -> Seq<char> {
    match p {
        Parenthesis::Open => seq!['('],
        Parenthesis::Closed => seq![')'],
    }
}

/// The text a token is shown with.
pub open spec fn token_text(t: SpecToken) -> Seq<char> {
    match t {
        SpecToken::Val(v) => value_display(v),
        SpecToken::Var(name) => name,
        SpecToken::Op(o) => operator_text(o),
        SpecToken::Par(p) => parenthesis_text(p),
    }
}

impl Operator {
    /// The literal text of the operator.
    pub fn as_str(&self) -> (r: &'static str)
        ensures
            r@ == operator_text(*self),
    {
        match self {
            Operator::Plus => {
                proof {
                    reveal_strlit("+");
                }
                "+"
            },
            Operator::Minus => {
                proof {
                    reveal_strlit("-");
                }
                "-"
            },
            Operator::Mull => {
                proof {
                    reveal_strlit("*");
                }
                "*"
            },
            Operator::Div => {
                proof {
                    reveal_strlit("/");
                }
                "/"
            },
            Operator::Less => {
                proof {
                    reveal_strlit("<");
                }
                "<"
            },
            Operator::LessEq => {
                proof {
                    reveal_strlit("<=");
                }
                "<="
            },
            Operator::Greater => {
                proof {
                    reveal_strlit(">");
                }
                ">"
            },
            Operator::GreaterEq => {
                proof {
                    reveal_strlit(">=");
                }
                ">="
            },
            Operator::Equal => {
                proof {
                    reveal_strlit("==");
                }
                "=="
            },
            Operator::NotEqual => {
                proof {
                    reveal_strlit("!=");
                }
                "!="
            },
            Operator::And => {
                proof {
                    reveal_strlit("&");
                }
                "&"
            },
            Operator::Or => {
                proof {
                    reveal_strlit("|");
                }
                "|"
            },
            Operator::Not => {
                proof {
                    reveal_strlit("!");
                }
                "!"
            },
            Operator::Assign => {
                proof {
                    reveal_strlit("=");
                }
                "="
            },
        }
    }

    /// The text an operator is shown with.
    pub fn to_string(&self) -> (r: String)
        ensures
            r@ == operator_text(*self),
    {
        String::from_str(self.as_str())
    }

    /// Reads an operator from its text; `ParseToken` for any other text.
    pub fn from_str(s: &str) -> (r: Result<Operator, Error>)
        ensures
            r == operator_from_text(s@),
    {
        if str_equals(s, Operator::Plus.as_str()) {
            Ok(Operator::Plus)
        } else if str_equals(s, Operator::Minus.as_str()) {
            Ok(Operator::Minus)
        } else if str_equals(s, Operator::Mull.as_str()) {
            Ok(Operator::Mull)
        } else if str_equals(s, Operator::Div.as_str()) {
            Ok(Operator::Div)
        } else if str_equals(s, Operator::Less.as_str()) {
            Ok(Operator::Less)
        } else if str_equals(s, Operator::LessEq.as_str()) {
            Ok(Operator::LessEq)
        } else if str_equals(s, Operator::Greater.as_str()) {
            Ok(Operator::Greater)
        } else if str_equals(s, Operator::GreaterEq.as_str()) {
            Ok(Operator::GreaterEq)
        } else if str_equals(s, Operator::Equal.as_str()) {
            Ok(Operator::Equal)
        } else if str_equals(s, Operator::NotEqual.as_str()) {
            Ok(Operator::NotEqual)
        } else if str_equals(s, Operator::And.as_str()) {
            Ok(Operator::And)
        } else if str_equals(s, Operator::Or.as_str()) {
            Ok(Operator::Or)
        } else if str_equals(s, Operator::Not.as_str()) {
            Ok(Operator::Not)
        } else if str_equals(s, Operator::Assign.as_str()) {
            Ok(Operator::Assign)
        } else {
            Err(Error::ParseToken)
        }
    }
}

impl Parenthesis {
    /// The literal text of the parenthesis.
    pub fn as_str(&self) -> (r: &'static str)
        ensures
            r@ == parenthesis_text(*self),
    {
        match self {
            Parenthesis::Open => {
                proof {
                    reveal_strlit("(");
                }
                "("
            },
            Parenthesis::Closed => {
                proof {
                    reveal_strlit(")");
                }
                ")"
            },
        }
    }

    /// Reads a parenthesis from its text; `ParseToken` for any other text.
    pub fn from_str(s: &str) -> (r: Result<Parenthesis, Error>)
        ensures
            r == (if s@ == parenthesis_text(Parenthesis::Open) {
                Ok(Parenthesis::Open)
            } else if s@ == parenthesis_text(Parenthesis::Closed) {
                Ok(Parenthesis::Closed)
            } else {
                Err(Error::ParseToken)
            }),
    {
        if str_equals(s, Parenthesis::Open.as_str()) {
            Ok(Parenthesis::Open)
        } else if str_equals(s, Parenthesis::Closed.as_str()) {
            Ok(Parenthesis::Closed)
        } else {
            Err(Error::ParseToken)
        }
    }
}

/// Chars that end a word and stand for no token.
pub open spec fn is_separator(c: char) -> bool {
    c == ' ' || c == '\n' || c == '\r'
}

/// The token that a char stands for by itself, where it stands for one.
pub open spec fn char_token(c: char) -> Option<SpecToken> {
    if c == '(' {
        Some(SpecToken::Par(Parenthesis::Open))
    } else if c == ')' {
        Some(SpecToken::Par(Parenthesis::Closed))
    } else if c == '+' {
        Some(SpecToken::Op(Operator::Plus))
    } else if c == '-' {
        Some(SpecToken::Op(Operator::Minus))
    } else if c == '*' {
        Some(SpecToken::Op(Operator::Mull))
    } else if c == '/' {
        Some(SpecToken::Op(Operator::Div))
    } else if c == '<' {
        Some(SpecToken::Op(Operator::Less))
    } else if c == '>' {
        Some(SpecToken::Op(Operator::Greater))
    } else if c == '&' {
        Some(SpecToken::Op(Operator::And))
    } else if c == '|' {
        Some(SpecToken::Op(Operator::Or))
    } else if c == '!' {
        Some(SpecToken::Op(Operator::Not))
    } else if c == '=' {
        Some(SpecToken::Op(Operator::Assign))
    } else {
        None
    }
}

/// The operator that a one-char operator becomes when `=` follows it.
pub open spec fn with_equals(o: Operator) -> Option<Operator> {
    match o {
        Operator::Less => Some(Operator::LessEq),
        Operator::Greater => Some(Operator::GreaterEq),
        Operator::Not => Some(Operator::NotEqual),
        Operator::Assign => Some(Operator::Equal),
        _ => None,
    }
}

/// Whether the token char `s[0]`, standing for `t`, takes the `=` after it.
pub open spec fn takes_equals(t: SpecToken, s: Seq<char>) -> bool {
    &&& t matches SpecToken::Op(o)
    &&& with_equals(o) is Some
    &&& s.len() > 1
    &&& s[1] == '='
}

/// The token read at the start of `s`, whose first char stands for `t`.
pub open spec fn glued_token(t: SpecToken, s: Seq<char>) -> SpecToken {
    if takes_equals(t, s) {
        SpecToken::Op(with_equals(t->Op_0).unwrap())
    } else {
        t
    }
}

/// How many chars that token takes.
pub open spec fn glued_len(t: SpecToken, s: Seq<char>) -> int {
    if takes_equals(t, s) {
        2
    } else {
        1
    }
}

/// The token that a word (a run of chars between token boundaries) is.
pub open spec fn parse_word(w: Seq<char>) -> Result<SpecToken, Error> {
    if w == bool_text(true) {
        Ok(SpecToken::Val(Value::Bool(true)))
    } else if w == bool_text(false) {
        Ok(SpecToken::Val(Value::Bool(false)))
    } else if is_identifier(w) {
        Ok(SpecToken::Var(w))
    } else {
        match parse_i32_spec(w) {
            Some(n) => Ok(SpecToken::Val(Value::Int(n))),
            None => if is_plain_number(w) {
                Err(Error::ValOutOfBounds)
            } else {
                Err(Error::ParseToken)
            },
        }
    }
}

/// The tokens of a pending word: none for an empty one.
pub open spec fn word_tokens(w: Seq<char>) -> Result<Seq<SpecToken>, Error> {
    if w.len() == 0 {
        Ok(Seq::empty())
    } else {
        match parse_word(w) {
            Ok(t) => Ok(seq![t]),
            Err(e) => Err(e),
        }
    }
}

/// `ts` followed by the tokens of `r`, or the error of `r`.
pub open spec fn prepend(ts: Seq<SpecToken>, r: Result<Seq<SpecToken>, Error>) -> Result<
    Seq<SpecToken>,
    Error,
> {
    match r {
        Ok(rest) => Ok(ts + rest),
        Err(e) => Err(e),
    }
}

/// The tokens of `s`, where `word` holds the chars read since the last
/// token boundary. Chars that are neither separators nor token chars
/// belong to the word in which they stand.
pub open spec fn lex_from(s: Seq<char>, word: Seq<char>) -> Result<Seq<SpecToken>, Error>
    decreases s.len(),
{
    if s.len() == 0 {
        word_tokens(word)
    } else if is_separator(s[0]) {
        match word_tokens(word) {
            Ok(ws) => prepend(ws, lex_from(s.drop_first(), Seq::empty())),
            Err(e) => Err(e),
        }
    } else {
        match char_token(s[0]) {
            None => lex_from(s.drop_first(), word.push(s[0])),
            Some(t) => match word_tokens(word) {
                Ok(ws) => prepend(
                    ws.push(glued_token(t, s)),
                    lex_from(s.skip(glued_len(t, s)), Seq::empty()),
                ),
                Err(e) => Err(e),
            },
        }
    }
}

/// The tokens of a line of text.
pub open spec fn lex(s: Seq<char>) -> Result<Seq<SpecToken>, Error> {
    lex_from(s, Seq::empty())
}

pub proof fn lemma_prepend_prepend(a: Seq<SpecToken>, b: Seq<SpecToken>, r: Result<Seq<SpecToken>, Error>)
    ensures
        prepend(a, prepend(b, r)) == prepend(a + b, r),
{
    if let Ok(x) = r {
        assert(a + (b + x) =~= (a + b) + x);
    }
}

/// A char that is a separator or stands for a token.
enum ValidChar {
    TokenChar(Token),
    Sep,
}

impl ValidChar {
    fn from_char(c: char) -> (r: Result<Self, Error>)
        ensures
            is_separator(c) ==> r matches Ok(ValidChar::Sep),
            !is_separator(c) ==> match r {
                Ok(ValidChar::TokenChar(t)) => char_token(c) == Some(t@),
                Ok(ValidChar::Sep) => false,
                Err(e) => char_token(c) is None && e == Error::ParseToken,
            },
    {
        if c == ' ' || c == '\n' || c == '\r' {
            return Ok(ValidChar::Sep);
        }
        match Token::parse_char(c) {
            Ok(t) => Ok(ValidChar::TokenChar(t)),
            Err(e) => Err(e),
        }
    }
}

impl Token {
    /// The token a single char stands for; `ParseToken` where it stands for none.
    fn parse_char(c: char) -> (r: Result<Token, Error>)
        ensures
            match r {
                Ok(t) => char_token(c) == Some(t@),
                Err(e) => char_token(c) is None && e == Error::ParseToken,
            },
    {
        if c == '(' {
            Ok(Token::Par(Parenthesis::Open))
        } else if c == ')' {
            Ok(Token::Par(Parenthesis::Closed))
        } else if c == '+' {
            Ok(Token::Op(Operator::Plus))
        } else if c == '-' {
            Ok(Token::Op(Operator::Minus))
        } else if c == '*' {
            Ok(Token::Op(Operator::Mull))
        } else if c == '/' {
            Ok(Token::Op(Operator::Div))
        } else if c == '<' {
            Ok(Token::Op(Operator::Less))
        } else if c == '>' {
            Ok(Token::Op(Operator::Greater))
        } else if c == '&' {
            Ok(Token::Op(Operator::And))
        } else if c == '|' {
            Ok(Token::Op(Operator::Or))
        } else if c == '!' {
            Ok(Token::Op(Operator::Not))
        } else if c == '=' {
            Ok(Token::Op(Operator::Assign))
        } else {
            Err(Error::ParseToken)
        }
    }

    /// The token a word is: a boolean, a variable name, or a number.
    fn parse_str(s: &str) -> (r: Result<Token, Error>)
        ensures
            match r {
                Ok(t) => parse_word(s@) == Ok::<SpecToken, Error>(t@),
                Err(e) => parse_word(s@) == Err::<SpecToken, Error>(e),
            },
    {
        let t = "true";
        let f = "false";
        proof {
            reveal_strlit("true");
            reveal_strlit("false");
        }
        assert(t@ =~= bool_text(true));
        assert(f@ =~= bool_text(false));
        if str_equals(s, t) {
            return Ok(Token::Val(Value::Bool(true)));
        }
        if str_equals(s, f) {
            return Ok(Token::Val(Value::Bool(false)));
        }
        match regex_is_match(IDENT_PATTERN, s) {
            Some(true) => {
                return Ok(Token::Var(String::from_str(s)));
            },
            _ => {},
        }
        match parse_i32(s) {
            Some(n) => Ok(Token::Val(Value::Int(n))),
            None => match regex_is_match(PLAIN_NUMBER_PATTERN, s) {
                Some(true) => Err(Error::ValOutOfBounds),
                _ => Err(Error::ParseToken),
            },
        }
    }

    /// The text a token is shown with.
    pub fn to_string(&self) -> (r: String)
        ensures
            r@ == token_text(self@),
    {
        match self {
            Token::Val(v) => v.to_string(),
            Token::Var(name) => name.clone(),
            Token::Op(o) => o.to_string(),
            Token::Par(p) => String::from_str(p.as_str()),
        }
    }
}

/// The token that starts at `s[i]`, a token char standing for `t`, and how
/// many chars it takes.
fn glue(s: &str, n: usize, i: usize, t: Token) -> (r: (Token, usize))
    requires
        n == s@.len(),
        i < n,
        char_token(s@[i as int]) == Some(t@),
    ensures
        r.0@ == glued_token(t@, s@.skip(i as int)),
        r.1 == glued_len(t@, s@.skip(i as int)),
{
    let ghost rest = s@.skip(i as int);
    if i + 1 < n {
        let next = s.get_char(i + 1);
        assert(rest[1] == next);
        if next == '=' {
            match t {
                Token::Op(Operator::Less) => return (Token::Op(Operator::LessEq), 2),
                Token::Op(Operator::Greater) => return (Token::Op(Operator::GreaterEq), 2),
                Token::Op(Operator::Not) => return (Token::Op(Operator::NotEqual), 2),
                Token::Op(Operator::Assign) => return (Token::Op(Operator::Equal), 2),
                _ => {},
            }
        }
    }
    (t, 1)
}

/// Splits a line of text into tokens.
pub fn tokenize(s: &str) -> (r: Result<Vec<Token>, Error>)
    ensures
        match r {
            Ok(ts) => lex(s@) == Ok::<Seq<SpecToken>, Error>(tokens_view(ts@)),
            Err(e) => lex(s@) == Err::<Seq<SpecToken>, Error>(e),
        },
{
    let n = s.unicode_len();
    let mut tokens: Vec<Token> = Vec::new();
    let mut start: usize = 0;
    let mut i: usize = 0;
    assert(s@.skip(0) =~= s@);
    assert(s@.subrange(0, 0) =~= Seq::<char>::empty());
    assert(tokens_view(tokens@) =~= Seq::<SpecToken>::empty());
    while i < n
        invariant
            start <= i <= n,
            n == s@.len(),
            lex(s@) == prepend(tokens_view(tokens@), lex_from(s@.skip(i as int), s@.subrange(start as int, i as int))),
        decreases n - i,
    {
        let ghost rest = s@.skip(i as int);
        let ghost word = s@.subrange(start as int, i as int);
        let ghost before = tokens_view(tokens@);
        let c = s.get_char(i);
        assert(rest[0] == c);
        assert(rest.drop_first() =~= s@.skip(i + 1));
        match ValidChar::from_char(c) {
            Ok(ValidChar::Sep) => {
                if start < i {
                    let w = s.substring_char(start, i);
                    match Token::parse_str(w) {
                        Ok(t) => {
                            tokens.push(t);
                            proof {
                                lemma_prepend_prepend(before, seq![t@], lex_from(s@.skip(i + 1), Seq::empty()));
                                assert(tokens_view(tokens@) =~= before + seq![t@]);
                            }
                        },
                        Err(e) => {
                            return Err(e);
                        },
                    }
                } else {
                    assert(word =~= Seq::<char>::empty());
                    assert(before + Seq::<SpecToken>::empty() =~= before);
                    proof {
                        lemma_prepend_prepend(before, Seq::empty(), lex_from(s@.skip(i + 1), Seq::empty()));
                    }
                }
                i = i + 1;
                start = i;
                assert(s@.subrange(start as int, i as int) =~= Seq::<char>::empty());
            },
            Ok(ValidChar::TokenChar(t)) => {
                let (tok, len) = glue(s, n, i, t);
                assert(rest.skip(len as int) =~= s@.skip(i + len));
                let ghost after = lex_from(s@.skip(i + len), Seq::empty());
                if start < i {
                    let w = s.substring_char(start, i);
                    match Token::parse_str(w) {
                        Ok(wt) => {
                            proof {
                                lemma_prepend_prepend(before, seq![wt@].push(tok@), after);
                                assert(before + seq![wt@].push(tok@) =~= before.push(wt@).push(tok@));
                            }
                            tokens.push(wt);
                            tokens.push(tok);
                            assert(tokens_view(tokens@) =~= before.push(wt@).push(tok@));
                        },
                        Err(e) => {
                            return Err(e);
                        },
                    }
                } else {
                    assert(word =~= Seq::<char>::empty());
                    proof {
                        lemma_prepend_prepend(before, Seq::<SpecToken>::empty().push(tok@), after);
                        assert(before + Seq::<SpecToken>::empty().push(tok@) =~= before.push(tok@));
                    }
                    tokens.push(tok);
                    assert(tokens_view(tokens@) =~= before.push(tok@));
                }
                i = i + len;
                start = i;
                assert(s@.subrange(start as int, i as int) =~= Seq::<char>::empty());
            },
            Err(_) => {
                assert(word.push(c) =~= s@.subrange(start as int, i + 1));
                i = i + 1;
            },
        }
    }
    assert(s@.skip(n as int) =~= Seq::<char>::empty());
    let ghost before = tokens_view(tokens@);
    if start < n {
        let w = s.substring_char(start, n);
        match Token::parse_str(w) {
            Ok(t) => {
                tokens.push(t);
                assert(tokens_view(tokens@) =~= before + seq![t@]);
            },
            Err(e) => {
                return Err(e);
            },
        }
    } else {
        assert(s@.subrange(start as int, n as int) =~= Seq::<char>::empty());
        assert(before + Seq::<SpecToken>::empty() =~= before);
    }
    Ok(tokens)
}

} // verus!
