//! The engine, and compiling scripts into ASTs.

use vstd::prelude::*;
use crate::ast::{Expr, Stmt, AST};
use crate::error::{EvalAltResult, EvalError, ParseError};
use crate::eval::GlobalRuntimeState;
use crate::ops::same_result;
use crate::scope::{constants_of, entries_of, Entry, Scope, ScopeEntry};
use crate::parser::{
    lemma_stmts_spans, parse_expression, parse_global_expr, parse_script, parse_stmts,
};
use crate::text::chars_of;
use crate::token::{lemma_lex_spans, lex, lex_spec, Token};
use crate::value::{type_name_of, Dynamic, Value, Variant};

verus! {

/// The statements of a script, and whether the last ends in `;`; or why
/// the script does not parse.
pub open spec fn compile_spec(cs: Seq<char>) -> Result<(Seq<Stmt>, bool), ParseError> {
    match lex_spec(cs) {
        Err(e) => Err(e),
        Ok(t) => match parse_script(t) {
            Some(r) => Ok(r),
            None => Err(ParseError::SyntaxError),
        },
    }
}

/// The expression that a whole script is, or why it is none.
pub open spec fn compile_expression_spec(cs: Seq<char>) -> Result<Expr, ParseError> {
    match lex_spec(cs) {
        Err(e) => Err(e),
        Ok(t) => match parse_expression(t) {
            Some(e) => Ok(e),
            None => Err(ParseError::SyntaxError),
        },
    }
}

/// A cast of a script's value into `T`: the value itself where its type is
/// `T`'s, else a mismatch of the requested and the actual type.
pub open spec fn cast_spec<T: Variant>(v: Value, r: Result<T, EvalAltResult>) -> bool {
    if T::accepts(v) {
        r matches Ok(x) && T::value_of(x) == v
    } else {
        r matches Err(e) && e@ == EvalError::MismatchOutputType(T::type_name_spec(), type_name_of(v))
    }
}

/// A script's result cast into `T`; an error stays as it is.
pub open spec fn result_as<T: Variant>(s: Result<Value, EvalError>, r: Result<T, EvalAltResult>) -> bool {
    match s {
        Ok(v) => cast_spec(v, r),
        Err(e) => r matches Err(x) && x@ == e,
    }
}

/// Casts a result into `T`, as `result_as` says.
pub fn cast_result<T: Variant>(r: Result<Dynamic, EvalAltResult>) -> (out: Result<T, EvalAltResult>)
    ensures
        forall|s: Result<Value, EvalError>| same_result(r, s) ==> result_as(s, out),
{
    match r {
        Err(e) => Err(e),
        Ok(v) => {
            let actual = v.type_name_str();
            match T::try_cast(v) {
                Some(x) => Ok(x),
                None => Err(EvalAltResult::ErrorMismatchOutputType(T::type_name_string(), actual)),
            }
        },
    }
}

/// The engine that compiles and runs scripts.
pub struct Engine {}

impl Engine {
    /// A new engine.
    pub fn new() -> (e: Engine) {
        Engine {  }
    }

    /// A fresh state for running a script: no source name, and no scripts
    /// whose functions can be called.
    pub fn new_global_runtime_state<'a>(&self) -> (g: GlobalRuntimeState<'a>)
        ensures
            g.source is None,
            g.lib@ == Seq::<&'a AST>::empty(),
    {
        GlobalRuntimeState { source: None, lib: Vec::new() }
    }

    /// Splits a script's characters into tokens.
    pub fn lex(&self, cs: &Vec<char>) -> (r: Result<Vec<Token>, ParseError>)
        ensures
            match r {
                Ok(t) => lex_spec(cs@) == Ok::<Seq<Token>, ParseError>(t@),
                Err(e) => lex_spec(cs@) == Err::<Seq<Token>, ParseError>(e),
            },
    {
        lex(cs)
    }

    /// Compiles a script into an AST whose functions see the given
    /// constants.
    fn compile_raw(&self, constants: Vec<ScopeEntry>, script: &str) -> (r: Result<AST, ParseError>)
        ensures
            match compile_spec(script@) {
                Ok((ss, term)) => r matches Ok(a) && a.text_spec() == script@ && a.statements_spec() == ss
                    && a.terminated_spec() == term && a.source_spec() is None
                    && a.constants_spec() == entries_of(constants@),
                Err(e) => r matches Err(x) && x == e,
            },
    {
        let cs = chars_of(script);
        let toks = match self.lex(&cs) {
            Ok(t) => t,
            Err(e) => {
                return Err(e);
            },
        };
        let n = cs.len();
        proof {
            lemma_lex_spans(cs@, 0);
            lemma_stmts_spans(toks@, 0, n as int);
        }
        match parse_stmts(&toks) {
            Some((stmts, term)) => Ok(AST::new(String::from_str(script), cs, stmts, term, constants)),
            None => Err(ParseError::SyntaxError),
        }
    }

    /// Compiles a script into an AST, as `compile_spec` says; its functions
    /// see no constants.
    pub fn compile(&self, script: &str) -> (r: Result<AST, ParseError>)
        ensures
            match compile_spec(script@) {
                Ok((ss, term)) => r matches Ok(a) && a.text_spec() == script@ && a.statements_spec() == ss
                    && a.terminated_spec() == term && a.source_spec() is None
                    && a.constants_spec() == Seq::<Entry>::empty(),
                Err(e) => r matches Err(x) && x == e,
            },
    {
        let none: Vec<ScopeEntry> = Vec::new();
        assert(entries_of(none@) =~= Seq::<Entry>::empty());
        self.compile_raw(none, script)
    }

    /// Compiles a script into an AST, as `compile_spec` says; its functions
    /// see the constants of the scope, as they are now.
    pub fn compile_with_scope(&self, scope: &Scope, script: &str) -> (r: Result<AST, ParseError>)
        ensures
            match compile_spec(script@) {
                Ok((ss, term)) => r matches Ok(a) && a.text_spec() == script@ && a.statements_spec() == ss
                    && a.terminated_spec() == term && a.source_spec() is None
                    && a.constants_spec() == constants_of(scope@),
                Err(e) => r matches Err(x) && x == e,
            },
    {
        self.compile_raw(scope.constants(), script)
    }

    /// Compiles a script that is one expression into an AST of that
    /// expression, as `compile_expression_spec` says.
    pub fn compile_expression(&self, script: &str) -> (r: Result<AST, ParseError>)
        ensures
            match compile_expression_spec(script@) {
                Ok(e) => r matches Ok(a) && a.text_spec() == script@ && a.statements_spec() == seq![Stmt::Expr(e)]
                    && !a.terminated_spec() && a.source_spec() is None
                    && a.constants_spec() == Seq::<Entry>::empty(),
                Err(e) => r matches Err(x) && x == e,
            },
    {
        let none: Vec<ScopeEntry> = Vec::new();
        assert(entries_of(none@) =~= Seq::<Entry>::empty());
        self.compile_expression_raw(none, script)
    }

    /// Compiles a script that is one expression into an AST of that
    /// expression, as `compile_expression_spec` says; its functions see the
    /// constants of the scope, as they are now.
    pub fn compile_expression_with_scope(&self, scope: &Scope, script: &str) -> (r: Result<AST, ParseError>)
        ensures
            match compile_expression_spec(script@) {
                Ok(e) => r matches Ok(a) && a.text_spec() == script@ && a.statements_spec() == seq![Stmt::Expr(e)]
                    && !a.terminated_spec() && a.source_spec() is None
                    && a.constants_spec() == constants_of(scope@),
                Err(e) => r matches Err(x) && x == e,
            },
    {
        self.compile_expression_raw(scope.constants(), script)
    }

    /// Compiles a script that is one expression into an AST of that
    /// expression, whose functions see the given constants.
    fn compile_expression_raw(&self, constants: Vec<ScopeEntry>, script: &str) -> (r: Result<AST, ParseError>)
        ensures
            match compile_expression_spec(script@) {
                Ok(e) => r matches Ok(a) && a.text_spec() == script@ && a.statements_spec() == seq![Stmt::Expr(e)]
                    && !a.terminated_spec() && a.source_spec() is None
                    && a.constants_spec() == entries_of(constants@),
                Err(e) => r matches Err(x) && x == e,
            },
    {
        let cs = chars_of(script);
        let toks = match self.lex(&cs) {
            Ok(t) => t,
            Err(e) => {
                return Err(e);
            },
        };
        let n = cs.len();
        proof {
            lemma_lex_spans(cs@, 0);
            crate::parser::lemma_expr_spans(toks@, 0, 1, n as int);
        }
        match parse_global_expr(&toks) {
            Some(e) => {
                let mut stmts: Vec<Stmt> = Vec::new();
                stmts.push(Stmt::Expr(e));
                Ok(AST::new(String::from_str(script), cs, stmts, false, constants))
            },
            None => Err(ParseError::SyntaxError),
        }
    }
}

} // verus!
