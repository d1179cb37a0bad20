//! Evaluating scripts, expressions, ASTs, operators and function calls.

use vstd::prelude::*;
use crate::ast::{stmt_spans_ok, Stmt, AST};
use crate::engine::{cast_result, compile_expression_spec, compile_spec, result_as, Engine};
use crate::error::{EvalAltResult, EvalError};
use crate::eval::{
    eval_expr_spec, eval_global_statements, exec_stmt_spec, lib_of, libs_of, run_ast, run_from, run_statements, FnLib,
    GlobalRuntimeState,
};
use crate::func::{call_native, call_native_exec, values_of};
use crate::ops::same_result;
use crate::scope::{constants_of, push_entry_spec, AccessMode, Entry, Scope};
use crate::ast::clone_option_string;
use crate::value::{Dynamic, Value, Variant};

verus! {

/// The functions that a script offers when it is compiled with a scope:
/// its own, which see the constants of the scope.
pub open spec fn script_lib(text: Seq<char>, ss: Seq<Stmt>, scope: Seq<Entry>) -> FnLib {
    FnLib { text, statements: ss, constants: constants_of(scope) }
}

/// The scope after running a script, and its value (or why it failed).
pub open spec fn eval_script_spec(text: Seq<char>, scope: Seq<Entry>) -> (Seq<Entry>, Result<Value, EvalError>) {
    match compile_spec(text) {
        Err(e) => (scope, Err(EvalError::Parsing(e))),
        Ok((ss, _)) => run_ast(script_lib(text, ss, scope), scope),
    }
}

/// The value of a script that is one expression (or why it failed).
pub open spec fn eval_expression_spec(text: Seq<char>, scope: Seq<Entry>) -> Result<Value, EvalError> {
    match compile_expression_spec(text) {
        Err(e) => Err(EvalError::Parsing(e)),
        Ok(e) => eval_expr_spec(seq![script_lib(text, seq![Stmt::Expr(e)], scope)], text, 0, scope, e),
    }
}

/// Running one expression statement gives the expression's value and
/// leaves the scope as it was.
pub proof fn lemma_run_expression(libs: Seq<FnLib>, text: Seq<char>, scope: Seq<Entry>, e: crate::ast::Expr)
    ensures
        run_statements(libs, text, scope, seq![Stmt::Expr(e)]) == (scope, eval_expr_spec(libs, text, 0, scope, e)),
{
    let ss = seq![Stmt::Expr(e)];
    assert(exec_stmt_spec(libs, text, scope, ss[0]) == (scope, eval_expr_spec(libs, text, 0, scope, e)));
    if let Ok(v) = eval_expr_spec(libs, text, 0, scope, e) {
        assert(run_from(libs, text, scope, ss, 1, v) == (scope, Ok::<Value, EvalError>(v)));
    }
}

impl Engine {
    /// Evaluates a script in a new scope, and casts its value into `T`.
    pub fn eval<T: Variant>(&self, script: &str) -> (r: Result<T, EvalAltResult>)
        ensures
            result_as(eval_script_spec(script@, Seq::empty()).1, r),
    {
        let mut scope = Scope::new();
        self.eval_with_scope(&mut scope, script)
    }

    /// Evaluates a script in a scope, which keeps what the script does to
    /// it, and casts its value into `T`.
    pub fn eval_with_scope<T: Variant>(&self, scope: &mut Scope, script: &str) -> (r: Result<T, EvalAltResult>)
        ensures
            final(scope)@ == eval_script_spec(script@, old(scope)@).0,
            result_as(eval_script_spec(script@, old(scope)@).1, r),
    {
        let ast = match self.compile_with_scope(scope, script) {
            Ok(a) => a,
            Err(e) => {
                return Err(EvalAltResult::ErrorParsing(e));
            },
        };
        self.eval_ast_with_scope(scope, &ast)
    }

    /// Evaluates a script that is one expression in a new scope, and casts
    /// its value into `T`.
    pub fn eval_expression<T: Variant>(&self, script: &str) -> (r: Result<T, EvalAltResult>)
        ensures
            result_as(eval_expression_spec(script@, Seq::empty()), r),
    {
        let mut scope = Scope::new();
        self.eval_expression_with_scope(&mut scope, script)
    }

    /// Evaluates a script that is one expression in a scope, and casts its
    /// value into `T`. An expression leaves the scope as it was.
    pub fn eval_expression_with_scope<T: Variant>(&self, scope: &mut Scope, script: &str) -> (r: Result<T, EvalAltResult>)
        ensures
            final(scope)@ == old(scope)@,
            result_as(eval_expression_spec(script@, old(scope)@), r),
    {
        let ast = match self.compile_expression_with_scope(scope, script) {
            Ok(a) => a,
            Err(e) => {
                return Err(EvalAltResult::ErrorParsing(e));
            },
        };
        proof {
            if let Ok(e) = compile_expression_spec(script@) {
                lemma_run_expression(seq![lib_of(&ast)], script@, scope@, e);
            }
        }
        self.eval_ast_with_scope(scope, &ast)
    }

    /// Evaluates an AST in a new scope, and casts its value into `T`.
    pub fn eval_ast<T: Variant>(&self, ast: &AST) -> (r: Result<T, EvalAltResult>)
        ensures
            result_as(run_ast(lib_of(ast), Seq::empty()).1, r),
    {
        let mut scope = Scope::new();
        self.eval_ast_with_scope(&mut scope, ast)
    }

    /// Evaluates an AST in a scope, which keeps what the script does to it,
    /// and casts its value into `T`.
    pub fn eval_ast_with_scope<T: Variant>(&self, scope: &mut Scope, ast: &AST) -> (r: Result<T, EvalAltResult>)
        ensures
            final(scope)@ == run_ast(lib_of(ast), old(scope)@).0,
            result_as(run_ast(lib_of(ast), old(scope)@).1, r),
    {
        let mut global = self.new_global_runtime_state();
        let result = self.eval_ast_with_scope_raw(&mut global, scope, ast);
        proof {
            assert(libs_of(Seq::<&AST>::empty()).push(lib_of(ast)) =~= seq![lib_of(ast)]);
        }
        cast_result::<T>(result)
    }

    /// Runs an AST's statements with its source name in `global` and its
    /// functions added to those of the scripts there; `global` is given back
    /// as it was. The result is the value of the last statement.
    pub(crate) fn eval_ast_with_scope_raw<'a>(&self, global: &mut GlobalRuntimeState<'a>, scope: &mut Scope, ast: &'a AST) -> (r: Result<Dynamic, EvalAltResult>)
        ensures
            final(global).source == old(global).source,
            final(global).lib@ == old(global).lib@,
            final(scope)@ == run_statements(
                libs_of(old(global).lib@).push(lib_of(ast)),
                ast.text_spec(),
                old(scope)@,
                ast.statements_spec(),
            ).0,
            same_result(
                r,
                run_statements(libs_of(old(global).lib@).push(lib_of(ast)), ast.text_spec(), old(scope)@, ast.statements_spec()).1,
            ),
    {
        let mut orig_source = clone_option_string(ast.source_raw());
        std::mem::swap(&mut global.source, &mut orig_source);
        let orig_lib_len = global.lib.len();
        global.lib.push(ast);
        proof {
            assert(libs_of(global.lib@) =~= libs_of(old(global).lib@).push(lib_of(ast)));
        }
        let r = eval_global_statements(global, scope, ast);
        global.lib.truncate(orig_lib_len);
        std::mem::swap(&mut global.source, &mut orig_source);
        proof {
            assert(global.lib@ =~= old(global).lib@);
        }
        r
    }

    /// Declares, ahead of running it, the variable that a `let` or `const`
    /// statement defines, with the value `()`; other statements declare none.
    fn two_pass(&self, scope: &mut Scope, text: &str, stmt: &Stmt)
        requires
            stmt_spans_ok(*stmt, text@.len() as int),
        ensures
            match *stmt {
                Stmt::Var(a, b, _, _) => final(scope)@ == push_entry_spec(
                    old(scope)@,
                    text@.subrange(a as int, b as int),
                    AccessMode::ReadWrite,
                    Value::Unit,
                ),
                _ => final(scope)@ == old(scope)@,
            },
    {
        match stmt {
            Stmt::Var(a, b, _, _) => {
                let value = Dynamic::UNIT;
                scope.push_entry(String::from_str(text.substring_char(*a, *b)), AccessMode::ReadWrite, value);
            },
            _ => {},
        }
    }

    /// Applies a binary operator, by its name, to two values, and casts the
    /// result into `T`.
    pub fn eval_binary_op<T: Variant>(&self, op: &str, lhs: Dynamic, rhs: Dynamic) -> (r: Result<T, EvalAltResult>)
        ensures
            result_as(call_native(op@, seq![lhs@, rhs@]).1, r),
    {
        let mut args: Vec<Dynamic> = Vec::new();
        args.push(lhs);
        args.push(rhs);
        assert(values_of(args@) =~= seq![lhs@, rhs@]);
        let result = self.eval_fn_call_with_arguments(op, &mut args, false, false);
        cast_result::<T>(result)
    }

    /// Calls a function by name; with `this_ptr`, the object of the call is
    /// its first argument, and takes what the function stores into it.
    pub fn eval_fn_call<T: Variant>(&self, fn_name: &str, this_ptr: Option<&mut Dynamic>, args: Vec<Dynamic>) -> (r: Result<T, EvalAltResult>)
        ensures
            match this_ptr {
                Some(p) => {
                    let call = call_native(fn_name@, seq![(*p)@] + values_of(args@));
                    &&& (*final(p))@ == call.0[0]
                    &&& result_as(call.1, r)
                },
                None => result_as(call_native(fn_name@, values_of(args@)).1, r),
            },
    {
        let mut arg_values = args;
        match this_ptr {
            Some(p) => {
                let ghost args_v = values_of(arg_values@);
                arg_values.insert(0, p.flatten_clone());
                assert(values_of(arg_values@) =~= seq![(*p)@] + args_v);
                let result = self.eval_fn_call_with_arguments(fn_name, &mut arg_values, true, true);
                assert(arg_values@[0]@ == values_of(arg_values@)[0]);
                *p = arg_values[0].flatten_clone();
                cast_result::<T>(result)
            },
            None => {
                let result = self.eval_fn_call_with_arguments(fn_name, &mut arg_values, false, false);
                cast_result::<T>(result)
            },
        }
    }

    /// Calls a function by name on arguments, in a fresh state. Where
    /// `is_ref_mut`, what the function stores into its first argument stays
    /// there; else the arguments are given back as they were. Where
    /// `is_method_call`, the first argument is the object of the call, and a
    /// script function would be sought with one parameter fewer; a fresh
    /// state holds no scripts, so the call goes to the standard functions.
    pub fn eval_fn_call_with_arguments(&self, fn_name: &str, args: &mut Vec<Dynamic>, is_ref_mut: bool, is_method_call: bool) -> (r: Result<Dynamic, EvalAltResult>)
        requires
            is_method_call ==> old(args)@.len() >= 1,
        ensures
            final(args)@.len() == old(args)@.len(),
            values_of(final(args)@) == if is_ref_mut {
                call_native(fn_name@, values_of(old(args)@)).0
            } else {
                values_of(old(args)@)
            },
            same_result(r, call_native(fn_name@, values_of(old(args)@)).1),
    {
        if is_ref_mut {
            call_native_exec(fn_name, args)
        } else {
            let mut copy: Vec<Dynamic> = Vec::new();
            let mut i: usize = 0;
            while i < args.len()
                invariant
                    i <= args@.len(),
                    args@ == old(args)@,
                    copy@.len() == i,
                    forall|j: int| 0 <= j < i ==> (#[trigger] copy@[j])@ == args@[j]@,
                decreases args@.len() - i,
            {
                copy.push(args[i].flatten_clone());
                i = i + 1;
            }
            assert(values_of(copy@) =~= values_of(args@));
            call_native_exec(fn_name, &mut copy)
        }
    }
}

/// Evaluates a script in a new engine and scope, and casts its value into `T`.
pub fn eval<T: Variant>(script: &str) -> (r: Result<T, EvalAltResult>)
    ensures
        result_as(eval_script_spec(script@, Seq::empty()).1, r),
{
    Engine::new().eval(script)
}

} // verus!
