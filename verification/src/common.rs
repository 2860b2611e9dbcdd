use vstd::prelude::*;

use crate::decimal::{i32_text, push_i32};

verus! {

/// A value of the language: a 32-bit integer or a boolean.
#[derive(Debug, Hash, Eq, PartialEq, Structural, Clone, Copy)]
pub enum Value {
    Int(i32),
    Bool(bool),
}

/// The text of a boolean literal.
pub open spec fn bool_text(b: bool) -> Seq<char> {
    if b {
        seq!['t', 'r', 'u', 'e']
    } else {
        seq!['f', 'a', 'l', 's', 'e']
    }
}

/// How the shell shows a value: `int::<n>` or `bool::<b>`.
pub open spec fn value_display(v: Value) -> Seq<char> {
    match v {
        Value::Int(n) => seq!['i', 'n', 't', ':', ':'] + i32_text(n),
        Value::Bool(b) => seq!['b', 'o', 'o', 'l', ':', ':'] + bool_text(b),
    }
}

/// Appends the literal text of a boolean.
pub fn push_bool(out: &mut String, b: bool)
    ensures
        final(out)@ == old(out)@ + bool_text(b),
{
    if b {
        let t = "true";
        proof {
            reveal_strlit("true");
        }
        out.append(t);
    } else {
        let f = "false";
        proof {
            reveal_strlit("false");
        }
        out.append(f);
    }
}

impl Value {
    /// The text the interactive shell prints for a value.
    pub fn to_string(&self) -> (r: String)
        ensures
            r@ == value_display(*self),
    {
        match self {
            Value::Int(n) => {
                let p = "int::";
                proof {
                    reveal_strlit("int::");
                }
                let mut s = String::from_str(p);
                push_i32(&mut s, *n);
                s
            },
            Value::Bool(b) => {
                let p = "bool::";
                proof {
                    reveal_strlit("bool::");
                }
                let mut s = String::from_str(p);
                push_bool(&mut s, *b);
                s
            },
        }
    }
}

} // verus!
