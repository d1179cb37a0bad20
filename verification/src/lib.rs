//! A small embedded scripting engine: scripts are lexed, parsed into an
//! [`AST`], and evaluated against a [`Scope`] of variables.

pub mod api;
pub mod ast;
pub mod engine;
pub mod error;
pub mod eval;
pub mod func;
pub mod grammar;
pub mod laws;
pub mod op_laws;
pub mod ops;
pub mod parser;
pub mod scope;
pub mod text;
pub mod token;
pub mod value;

pub use api::eval::eval;
pub use ast::AST;
pub use engine::Engine;
pub use error::{ArithmeticError, EvalAltResult, EvalError, ParseError};
pub use scope::{AccessMode, Scope};
pub use value::{Dynamic, Value, Variant};
