use vstd::prelude::*;

verus! {

/// The ways in which reading or evaluating a program fails.
#[derive(Debug, Clone, Copy, PartialEq, Eq, Structural)]
pub enum LispError {
    /// Unbalanced parentheses, an empty program, or tokens after a complete expression.
    ParseError,
    /// A name that no frame of the chain binds.
    UnboundSymbol,
    /// An application with nothing in it: `()`.
    EmptyApplication,
    /// A special form with the wrong number or shape of operands.
    BadSpecialForm,
    /// A value of the wrong variant for the operation.
    TypeMismatch,
    /// A function called with the wrong number of arguments.
    ArityMismatch,
    DivisionByZero,
    /// `list-ref` past the end or below zero, `car` or `cdr` of the empty list.
    IndexOutOfBounds,
    /// Evaluation nested deeper than the interpreter allows.
    RecursionLimit,
    /// A closure whose captured frame is not in the environment it is called in.
    InvalidFrame,
}

impl LispError {
    /// A short description of the error, for diagnostics.
    pub fn message(&self) -> &'static str {
        match self {
            LispError::ParseError => "could not parse the expression",
            LispError::UnboundSymbol => "symbol is not bound in any frame",
            LispError::EmptyApplication => "cannot apply an empty list",
            LispError::BadSpecialForm => "malformed special form",
            LispError::TypeMismatch => "value of the wrong type",
            LispError::ArityMismatch => "wrong number of arguments",
            LispError::DivisionByZero => "division by zero",
            LispError::IndexOutOfBounds => "index out of bounds",
            LispError::RecursionLimit => "evaluation nested too deeply",
            LispError::InvalidFrame => "closure refers to a frame of another environment",
        }
    }
}

} // verus!
