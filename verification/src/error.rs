//! Errors raised while parsing or evaluating a script.

use vstd::prelude::*;

verus! {

/// Why a script could not be turned into an [`AST`](crate::AST).
#[derive(Clone, Copy, Debug, PartialEq, Eq, Structural)]
pub enum ParseError {
    /// A character that starts no token.
    UnknownCharacter(char),
    /// A string literal without its closing quote.
    UnterminatedString,
    /// An integer literal that does not fit in an `i64`.
    MalformedNumber,
    /// The tokens do not form a script (or, where one was asked for, an expression).
    SyntaxError,
}

/// The two ways integer arithmetic fails.
#[derive(Clone, Copy, Debug, PartialEq, Eq, Structural)]
pub enum ArithmeticError {
    /// The result does not fit in an `i64`.
    Overflow,
    /// A division or remainder by zero.
    DivisionByZero,
}

/// An error raised while running a script or a function call.
#[derive(Clone, Debug, PartialEq, Eq)]
pub enum EvalAltResult {
    /// The script did not parse.
    ErrorParsing(ParseError),
    /// A variable was read or assigned that is not in scope.
    ErrorVariableNotFound(String),
    /// A constant was assigned to.
    ErrorAssignmentToConstant(String),
    /// No function of that name takes arguments of those types.
    ErrorFunctionNotFound(String),
    /// Integer arithmetic failed.
    ErrorArithmetic(ArithmeticError),
    /// An operand had the wrong type: (expected type, actual type).
    ErrorMismatchDataType(String, String),
    /// The result cannot be cast into the requested type: (requested type, actual type).
    ErrorMismatchOutputType(String, String),
    /// Script functions called one another too deeply.
    ErrorStackOverflow,
}

/// The mathematical model of an [`EvalAltResult`].
pub ghost enum EvalError {
    Parsing(ParseError),
    VariableNotFound(Seq<char>),
    AssignmentToConstant(Seq<char>),
    FunctionNotFound(Seq<char>),
    Arithmetic(ArithmeticError),
    MismatchDataType(Seq<char>, Seq<char>),
    MismatchOutputType(Seq<char>, Seq<char>),
    StackOverflow,
}

impl View for EvalAltResult {
    type V = EvalError;

    open spec fn view(&self) -> EvalError {
        match self {
            EvalAltResult::ErrorParsing(e) => EvalError::Parsing(*e),
            EvalAltResult::ErrorVariableNotFound(s) => EvalError::VariableNotFound(s@),
            EvalAltResult::ErrorAssignmentToConstant(s) => EvalError::AssignmentToConstant(s@),
            EvalAltResult::ErrorFunctionNotFound(s) => EvalError::FunctionNotFound(s@),
            EvalAltResult::ErrorArithmetic(e) => EvalError::Arithmetic(*e),
            EvalAltResult::ErrorMismatchDataType(a, b) => EvalError::MismatchDataType(a@, b@),
            EvalAltResult::ErrorMismatchOutputType(a, b) => EvalError::MismatchOutputType(a@, b@),
            EvalAltResult::ErrorStackOverflow => EvalError::StackOverflow,
        }
    }
}

} // verus!
