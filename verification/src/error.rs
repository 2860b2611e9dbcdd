use vstd::prelude::*;

verus! {

/// Everything that can go wrong while lexing, parsing or evaluating.
#[derive(Debug, Clone, Copy, PartialEq, Eq, Structural)]
pub enum Error {
    Overflow,
    DivisionByZero,
    ParseToken,
    UnexpectedToken,
    ValOutOfBounds,
    NotAssign,
    UndeclaredVar,
    InvalidBinOp,
    InvalidUnaryOp,
    TypeMismatch,
}

} // verus!
