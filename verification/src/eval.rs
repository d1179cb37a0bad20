//! Evaluation of expressions and statements against a scope.

use vstd::prelude::*;
use crate::ast::{args_spans_ok, expr_spans_ok, params_spans_ok, stmt_spans_ok, stmts_spans_ok, Args, BinaryOperator, Expr, Params, Stmt, AST};
use crate::error::{EvalAltResult, EvalError};
use crate::ops::{binary_op, binary_op_exec, same_result, unary_op, unary_op_exec};
use crate::scope::{entries_of, find_last, lemma_find_last, push_entry_spec, value_of_var, AccessMode, Entry, Scope, ScopeEntry};
use crate::func::{call_native, call_native_exec, values_of};
use crate::text::str_matches_range;
use crate::value::{type_name_of, Dynamic, Value};

verus! {

/// How deeply script functions may call one another.
pub const MAX_CALL_LEVELS: usize = 64;

/// The number of parameters.
pub open spec fn params_len(ps: Params) -> nat
    decreases ps,
{
    match ps {
        Params::Nil => 0,
        Params::Cons(_, _, rest) => 1 + params_len(*rest),
    }
}

/// The scope of a call: `scope`, then each parameter as a variable holding
/// its argument (from `vals[i]` on).
pub open spec fn bind_params(text: Seq<char>, scope: Seq<Entry>, ps: Params, vals: Seq<Value>, i: int) -> Seq<Entry>
    decreases ps,
{
    match ps {
        Params::Nil => scope,
        Params::Cons(a, b, rest) => bind_params(
            text,
            push_entry_spec(scope, text.subrange(a as int, b as int), AccessMode::ReadWrite, vals[i]),
            *rest,
            vals,
            i + 1,
        ),
    }
}

/// Whether a statement defines a function of that name with that many
/// parameters.
pub open spec fn defines(text: Seq<char>, s: Stmt, name: Seq<char>, arity: nat) -> bool {
    match s {
        Stmt::FnDef(a, b, ps, _) => text.subrange(a as int, b as int) == name && params_len(ps) == arity,
        _ => false,
    }
}

/// What a script offers to calls of its functions: its text, its
/// statements, and the constants that its functions see.
pub struct FnLib {
    pub text: Seq<char>,
    pub statements: Seq<Stmt>,
    pub constants: Seq<Entry>,
}

/// The functions that an AST offers.
pub open spec fn lib_of(ast: &AST) -> FnLib {
    FnLib { text: ast.text_spec(), statements: ast.statements_spec(), constants: ast.constants_spec() }
}

/// The functions that each of a list of ASTs offers.
pub open spec fn libs_of(asts: Seq<&AST>) -> Seq<FnLib> {
    asts.map_values(|a: &AST| lib_of(a))
}

/// The last of the first `j` statements of a script that defines the function.
pub open spec fn find_in(lib: FnLib, name: Seq<char>, arity: nat, j: int) -> Option<int>
    decreases j,
{
    if j <= 0 {
        None
    } else if defines(lib.text, lib.statements[j - 1], name, arity) {
        Some(j - 1)
    } else {
        find_in(lib, name, arity, j - 1)
    }
}

/// Where the function is defined among the first `i` libraries, the last
/// first: the library and the statement.
pub open spec fn find_fn_in(libs: Seq<FnLib>, name: Seq<char>, arity: nat, i: int) -> Option<(int, int)>
    decreases i,
{
    if i <= 0 {
        None
    } else {
        match find_in(libs[i - 1], name, arity, libs[i - 1].statements.len() as int) {
            Some(j) => Some((i - 1, j)),
            None => find_fn_in(libs, name, arity, i - 1),
        }
    }
}

/// A definition that `find_in` finds is one of the first `j` statements,
/// and defines the function.
pub proof fn lemma_find_in(lib: FnLib, name: Seq<char>, arity: nat, j: int)
    ensures
        find_in(lib, name, arity, j) matches Some(k) ==> 0 <= k < j && defines(lib.text, lib.statements[k], name, arity),
    decreases j,
{
    if j > 0 {
        lemma_find_in(lib, name, arity, j - 1);
    }
}

/// A definition that `find_fn_in` finds is a statement of one of the first
/// `i` libraries, and defines the function.
pub proof fn lemma_find_fn_in(libs: Seq<FnLib>, name: Seq<char>, arity: nat, i: int)
    requires
        i <= libs.len(),
    ensures
        find_fn_in(libs, name, arity, i) matches Some((li, si)) ==> {
            &&& 0 <= li < i
            &&& 0 <= si < libs[li].statements.len()
            &&& defines(libs[li].text, libs[li].statements[si], name, arity)
        },
    decreases i,
{
    if i > 0 {
        lemma_find_in(libs[i - 1], name, arity, libs[i - 1].statements.len() as int);
        lemma_find_fn_in(libs, name, arity, i - 1);
    }
}

/// Where the script function of that name and number of parameters is
/// defined: the last definition in the last library that has one.
pub open spec fn find_fn(libs: Seq<FnLib>, name: Seq<char>, arity: nat) -> Option<(int, int)> {
    find_fn_in(libs, name, arity, libs.len() as int)
}

/// The value of an expression in a scope; `text` holds the characters that
/// names and strings refer to, `libs` the scripts whose functions can be
/// called, and `depth` how deeply functions are already calling one another.
/// A call runs the body of a script function in a scope of the constants of
/// its script and its parameters; where there is none, a function of the
/// standard library.
pub open spec fn eval_expr_spec(libs: Seq<FnLib>, text: Seq<char>, depth: nat, scope: Seq<Entry>, e: Expr) -> Result<Value, EvalError>
    decreases MAX_CALL_LEVELS - depth, e,
{
    match e {
        Expr::IntConst(n) => Ok(Value::Int(n)),
        Expr::BoolConst(b) => Ok(Value::Bool(b)),
        Expr::StringConst(a, b) => Ok(Value::Str(text.subrange(a as int, b as int))),
        Expr::Unit => Ok(Value::Unit),
        Expr::Variable(a, b) => match value_of_var(scope, text.subrange(a as int, b as int)) {
            Some(v) => Ok(v),
            None => Err(EvalError::VariableNotFound(text.subrange(a as int, b as int))),
        },
        Expr::Paren(x) => eval_expr_spec(libs, text, depth, scope, *x),
        Expr::Unary(op, x) => match eval_expr_spec(libs, text, depth, scope, *x) {
            Ok(v) => unary_op(op, v),
            Err(err) => Err(err),
        },
        Expr::Binary(op, l, r) => match eval_expr_spec(libs, text, depth, scope, *l) {
            Err(err) => Err(err),
            Ok(lv) => if op == BinaryOperator::And || op == BinaryOperator::Or {
                match lv {
                    Value::Bool(b) => if (op == BinaryOperator::And && !b) || (op == BinaryOperator::Or && b) {
                        Ok(Value::Bool(b))
                    } else {
                        match eval_expr_spec(libs, text, depth, scope, *r) {
                            Ok(Value::Bool(c)) => Ok(Value::Bool(c)),
                            Ok(rv) => Err(EvalError::MismatchDataType("bool"@, type_name_of(rv))),
                            Err(err) => Err(err),
                        }
                    },
                    _ => Err(EvalError::MismatchDataType("bool"@, type_name_of(lv))),
                }
            } else {
                match eval_expr_spec(libs, text, depth, scope, *r) {
                    Ok(rv) => binary_op(op, lv, rv),
                    Err(err) => Err(err),
                }
            },
        },
        Expr::FnCall(a, b, args) => match eval_args_spec(libs, text, depth, scope, *args) {
            Err(err) => Err(err),
            Ok(vals) => {
                let name = text.subrange(a as int, b as int);
                match find_fn(libs, name, vals.len()) {
                    Some((li, si)) => if depth >= MAX_CALL_LEVELS {
                        Err(EvalError::StackOverflow)
                    } else {
                        match libs[li].statements[si] {
                            Stmt::FnDef(_, _, ps, body) => eval_expr_spec(
                                libs,
                                libs[li].text,
                                depth + 1,
                                bind_params(libs[li].text, libs[li].constants, ps, vals, 0),
                                body,
                            ),
                            _ => Err(EvalError::FunctionNotFound(name)),
                        }
                    },
                    None => call_native(name, vals).1,
                }
            },
        },
    }
}

/// The values of the arguments of a call, from the left.
pub open spec fn eval_args_spec(libs: Seq<FnLib>, text: Seq<char>, depth: nat, scope: Seq<Entry>, args: Args) -> Result<Seq<Value>, EvalError>
    decreases MAX_CALL_LEVELS - depth, args,
{
    match args {
        Args::Nil => Ok(Seq::empty()),
        Args::Cons(e, rest) => match eval_expr_spec(libs, text, depth, scope, *e) {
            Err(err) => Err(err),
            Ok(v) => match eval_args_spec(libs, text, depth, scope, *rest) {
                Err(err) => Err(err),
                Ok(vs) => Ok(seq![v] + vs),
            },
        },
    }
}

/// The scope after a statement, and the statement's value. A function
/// definition does nothing when it is run.
pub open spec fn exec_stmt_spec(libs: Seq<FnLib>, text: Seq<char>, scope: Seq<Entry>, s: Stmt) -> (Seq<Entry>, Result<Value, EvalError>) {
    match s {
        Stmt::Var(a, b, access, init) => {
            let v = match init {
                Some(e) => eval_expr_spec(libs, text, 0, scope, e),
                None => Ok(Value::Unit),
            };
            match v {
                Ok(v) => (push_entry_spec(scope, text.subrange(a as int, b as int), access, v), Ok(Value::Unit)),
                Err(err) => (scope, Err(err)),
            }
        },
        Stmt::Assignment(a, b, op, e) => {
            let name = text.subrange(a as int, b as int);
            match eval_expr_spec(libs, text, 0, scope, e) {
                Err(err) => (scope, Err(err)),
                Ok(rv) => match find_last(scope, name) {
                    None => (scope, Err(EvalError::VariableNotFound(name))),
                    Some(i) => if scope[i].access == AccessMode::ReadOnly {
                        (scope, Err(EvalError::AssignmentToConstant(name)))
                    } else {
                        let nv = match op {
                            None => Ok(rv),
                            Some(op) => binary_op(op, scope[i].value, rv),
                        };
                        match nv {
                            Ok(v) => (
                                scope.update(i, Entry { name: scope[i].name, access: scope[i].access, value: v }),
                                Ok(Value::Unit),
                            ),
                            Err(err) => (scope, Err(err)),
                        }
                    },
                },
            }
        },
        Stmt::Expr(e) => (scope, eval_expr_spec(libs, text, 0, scope, e)),
        Stmt::FnDef(_, _, _, _) => (scope, Ok(Value::Unit)),
    }
}

/// Runs the statements from index `i`, with `last` the value of the last
/// statement run before; stops at the first error. A function definition
/// leaves `last` as it is. Returns the scope after them and the value of
/// the last statement run.
pub open spec fn run_from(libs: Seq<FnLib>, text: Seq<char>, scope: Seq<Entry>, ss: Seq<Stmt>, i: int, last: Value) -> (Seq<Entry>, Result<Value, EvalError>)
    decreases ss.len() - i,
{
    if i < 0 || i >= ss.len() {
        (scope, Ok(last))
    } else if ss[i] is FnDef {
        run_from(libs, text, scope, ss, i + 1, last)
    } else {
        let (s1, r) = exec_stmt_spec(libs, text, scope, ss[i]);
        match r {
            Err(err) => (s1, Err(err)),
            Ok(v) => run_from(libs, text, s1, ss, i + 1, v),
        }
    }
}

/// The scope after running statements, and the value of the last that is
/// not a function definition (`()` where there is none).
pub open spec fn run_statements(libs: Seq<FnLib>, text: Seq<char>, scope: Seq<Entry>, ss: Seq<Stmt>) -> (Seq<Entry>, Result<Value, EvalError>) {
    run_from(libs, text, scope, ss, 0, Value::Unit)
}

/// The scope after running the statements of a script with its own
/// functions, and the value of the last.
pub open spec fn run_ast(lib: FnLib, scope: Seq<Entry>) -> (Seq<Entry>, Result<Value, EvalError>) {
    run_statements(seq![lib], lib.text, scope, lib.statements)
}

/// What the engine keeps while it runs a script.
pub struct GlobalRuntimeState<'a> {
    /// The name of where the running script came from.
    pub source: Option<String>,
    /// The scripts whose functions can be called.
    pub lib: Vec<&'a AST>,
}

fn copy_entries(v: &Vec<ScopeEntry>) -> (r: Vec<ScopeEntry>)
    ensures
        entries_of(r@) == entries_of(v@),
{
    let mut r: Vec<ScopeEntry> = Vec::new();
    let mut i: usize = 0;
    while i < v.len()
        invariant
            i <= v@.len(),
            r@.len() == i,
            forall|j: int| 0 <= j < i ==> (#[trigger] r@[j])@ == v@[j]@,
        decreases v@.len() - i,
    {
        r.push(v[i].copy());
        i = i + 1;
    }
    assert(entries_of(r@) =~= entries_of(v@));
    r
}

fn params_len_is(ps: &Params, n: usize) -> (b: bool)
    ensures
        b == (params_len(*ps) == n),
    decreases ps,
{
    match ps {
        Params::Nil => n == 0,
        Params::Cons(_, _, rest) => n > 0 && params_len_is(rest, n - 1),
    }
}

fn bind_params_exec(scope: &mut Scope, text: &str, ps: &Params, vals: &Vec<Dynamic>, i: usize)
    requires
        params_spans_ok(*ps, text@.len() as int),
        i + params_len(*ps) <= vals@.len(),
    ensures
        final(scope)@ == bind_params(text@, old(scope)@, *ps, values_of(vals@), i as int),
    decreases ps,
{
    match ps {
        Params::Nil => {},
        Params::Cons(a, b, rest) => {
            scope.push_entry(String::from_str(text.substring_char(*a, *b)), AccessMode::ReadWrite, vals[i].flatten_clone());
            assert(params_len(*ps) == 1 + params_len(**rest));
            let n = vals.len();
            assert(i < n);
            bind_params_exec(scope, text, rest, vals, i + 1);
        },
    }
}

fn defines_exec(ast: &AST, j: usize, name: &str, arity: usize) -> (b: bool)
    requires
        j < ast.statements_spec().len(),
    ensures
        b == defines(ast.text_spec(), ast.statements_spec()[j as int], name@, arity as nat),
{
    let cs = ast.chars();
    let ss = ast.statements();
    assert(stmt_spans_ok(ss@[j as int], cs@.len() as int));
    match &ss[j] {
        Stmt::FnDef(a, b, ps, _) => str_matches_range(name, cs, *a, *b) && params_len_is(ps, arity),
        _ => false,
    }
}

/// Where the script function of that name and number of parameters is
/// defined, as `find_fn` says.
pub fn find_fn_exec(global: &GlobalRuntimeState, name: &str, arity: usize) -> (r: Option<(usize, usize)>)
    ensures
        match r {
            Some((i, j)) => find_fn(libs_of(global.lib@), name@, arity as nat) == Some((i as int, j as int)),
            None => find_fn(libs_of(global.lib@), name@, arity as nat) is None,
        },
{
    let libs = &global.lib;
    let mut i = libs.len();
    while i > 0
        invariant
            libs@ == global.lib@,
            i <= libs@.len(),
            find_fn(libs_of(libs@), name@, arity as nat) == find_fn_in(libs_of(libs@), name@, arity as nat, i as int),
        decreases i,
    {
        let ast: &AST = libs[i - 1];
        assert(libs_of(libs@)[i - 1] == lib_of(ast));
        let mut j = ast.statements().len();
        while j > 0
            invariant
                libs@ == global.lib@,
                0 < i <= libs@.len(),
                ast == libs@[i - 1],
                libs_of(libs@)[i - 1] == lib_of(ast),
                find_fn(libs_of(libs@), name@, arity as nat) == find_fn_in(libs_of(libs@), name@, arity as nat, i as int),
                j <= ast.statements_spec().len(),
                find_in(lib_of(ast), name@, arity as nat, ast.statements_spec().len() as int) == find_in(lib_of(ast), name@, arity as nat, j as int),
            decreases j,
        {
            if defines_exec(ast, j - 1, name, arity) {
                assert(find_in(lib_of(ast), name@, arity as nat, j as int) == Some(j - 1));
                assert(find_fn_in(libs_of(libs@), name@, arity as nat, i as int) == Some(((i - 1) as int, (j - 1) as int)));
                return Some((i - 1, j - 1));
            }
            j = j - 1;
        }
        i = i - 1;
    }
    None
}

/// Evaluates an expression, as `eval_expr_spec` says, with the functions of
/// the scripts in `global`.
pub fn eval_expr(global: &GlobalRuntimeState, depth: usize, cs: &Vec<char>, text: &str, scope: &Scope, e: &Expr) -> (r: Result<Dynamic, EvalAltResult>)
    requires
        cs@ == text@,
        expr_spans_ok(*e, cs@.len() as int),
        depth <= MAX_CALL_LEVELS,
    ensures
        same_result(r, eval_expr_spec(libs_of(global.lib@), cs@, depth as nat, scope@, *e)),
    decreases MAX_CALL_LEVELS - depth, e,
{
    match e {
        Expr::IntConst(n) => Ok(Dynamic::Int(*n)),
        Expr::BoolConst(b) => Ok(Dynamic::Bool(*b)),
        Expr::StringConst(a, b) => Ok(Dynamic::Str(String::from_str(text.substring_char(*a, *b)))),
        Expr::Unit => Ok(Dynamic::Unit),
        Expr::Variable(a, b) => {
            proof {
                lemma_find_last(scope@, cs@.subrange(*a as int, *b as int));
            }
            match scope.search_range(cs, *a, *b) {
                Some(i) => Ok(scope.get_entry(i).value.flatten_clone()),
                None => Err(EvalAltResult::ErrorVariableNotFound(String::from_str(text.substring_char(*a, *b)))),
            }
        },
        Expr::Paren(x) => eval_expr(global, depth, cs, text, scope, x),
        Expr::Unary(op, x) => match eval_expr(global, depth, cs, text, scope, x) {
            Ok(v) => unary_op_exec(*op, &v),
            Err(err) => Err(err),
        },
        Expr::Binary(op, l, r) => {
            let lv = match eval_expr(global, depth, cs, text, scope, l) {
                Ok(v) => v,
                Err(err) => {
                    return Err(err);
                },
            };
            if *op == BinaryOperator::And || *op == BinaryOperator::Or {
                match lv {
                    Dynamic::Bool(b) => {
                        if (*op == BinaryOperator::And && !b) || (*op == BinaryOperator::Or && b) {
                            Ok(Dynamic::Bool(b))
                        } else {
                            match eval_expr(global, depth, cs, text, scope, r) {
                                Ok(Dynamic::Bool(c)) => Ok(Dynamic::Bool(c)),
                                Ok(rv) => Err(
                                    EvalAltResult::ErrorMismatchDataType(String::from_str("bool"), rv.type_name_str()),
                                ),
                                Err(err) => Err(err),
                            }
                        }
                    },
                    _ => Err(EvalAltResult::ErrorMismatchDataType(String::from_str("bool"), lv.type_name_str())),
                }
            } else {
                match eval_expr(global, depth, cs, text, scope, r) {
                    Ok(rv) => binary_op_exec(*op, &lv, &rv),
                    Err(err) => Err(err),
                }
            }
        },
        Expr::FnCall(a, b, args) => {
            let vals = match eval_args(global, depth, cs, text, scope, args) {
                Ok(v) => v,
                Err(err) => {
                    return Err(err);
                },
            };
            let name = String::from_str(text.substring_char(*a, *b));
            match find_fn_exec(global, name.as_str(), vals.len()) {
                Some((li, si)) => {
                    proof {
                        lemma_find_fn_in(libs_of(global.lib@), name@, vals@.len(), global.lib@.len() as int);
                        assert(libs_of(global.lib@)[li as int] == lib_of(global.lib@[li as int]));
                    }
                    if depth >= MAX_CALL_LEVELS {
                        return Err(EvalAltResult::ErrorStackOverflow);
                    }
                    let lib_ast: &AST = global.lib[li];
                    let fcs = lib_ast.chars();
                    let ftext = lib_ast.text();
                    let stmts = lib_ast.statements();
                    assert(stmt_spans_ok(stmts@[si as int], fcs@.len() as int));
                    match &stmts[si] {
                        Stmt::FnDef(_, _, ps, body) => {
                            let mut fscope = Scope::from_entries(copy_entries(lib_ast.constants()));
                            bind_params_exec(&mut fscope, ftext, ps, &vals, 0);
                            eval_expr(global, depth + 1, fcs, ftext, &fscope, body)
                        },
                        _ => Err(EvalAltResult::ErrorFunctionNotFound(name)),
                    }
                },
                None => {
                    let mut vs = vals;
                    call_native_exec(name.as_str(), &mut vs)
                },
            }
        },
    }
}

/// Evaluates the arguments of a call from the left, as `eval_args_spec` says.
pub fn eval_args(global: &GlobalRuntimeState, depth: usize, cs: &Vec<char>, text: &str, scope: &Scope, args: &Args) -> (r: Result<Vec<Dynamic>, EvalAltResult>)
    requires
        cs@ == text@,
        args_spans_ok(*args, cs@.len() as int),
        depth <= MAX_CALL_LEVELS,
    ensures
        match r {
            Ok(v) => eval_args_spec(libs_of(global.lib@), cs@, depth as nat, scope@, *args) == Ok::<Seq<Value>, EvalError>(values_of(v@)),
            Err(e) => eval_args_spec(libs_of(global.lib@), cs@, depth as nat, scope@, *args) == Err::<Seq<Value>, EvalError>(e@),
        },
    decreases MAX_CALL_LEVELS - depth, args,
{
    match args {
        Args::Nil => {
            let v: Vec<Dynamic> = Vec::new();
            assert(values_of(v@) =~= Seq::<Value>::empty());
            Ok(v)
        },
        Args::Cons(e, rest) => {
            let first = match eval_expr(global, depth, cs, text, scope, e) {
                Ok(v) => v,
                Err(err) => {
                    return Err(err);
                },
            };
            let mut vs = match eval_args(global, depth, cs, text, scope, rest) {
                Ok(v) => v,
                Err(err) => {
                    return Err(err);
                },
            };
            let ghost rest_v = values_of(vs@);
            let ghost fv = first@;
            vs.insert(0, first);
            assert(values_of(vs@) =~= seq![fv] + rest_v);
            Ok(vs)
        },
    }
}

/// Runs a statement, as `exec_stmt_spec` says.
pub fn exec_stmt(global: &GlobalRuntimeState, cs: &Vec<char>, text: &str, scope: &mut Scope, s: &Stmt) -> (r: Result<Dynamic, EvalAltResult>)
    requires
        cs@ == text@,
        stmt_spans_ok(*s, cs@.len() as int),
    ensures
        final(scope)@ == exec_stmt_spec(libs_of(global.lib@), cs@, old(scope)@, *s).0,
        same_result(r, exec_stmt_spec(libs_of(global.lib@), cs@, old(scope)@, *s).1),
{
    match s {
        Stmt::Var(a, b, access, init) => {
            let v = match init {
                Some(e) => match eval_expr(global, 0, cs, text, scope, e) {
                    Ok(v) => v,
                    Err(err) => {
                        return Err(err);
                    },
                },
                None => Dynamic::Unit,
            };
            scope.push_entry(String::from_str(text.substring_char(*a, *b)), *access, v);
            Ok(Dynamic::Unit)
        },
        Stmt::Assignment(a, b, op, e) => {
            let rv = match eval_expr(global, 0, cs, text, scope, e) {
                Ok(v) => v,
                Err(err) => {
                    return Err(err);
                },
            };
            proof {
                lemma_find_last(scope@, cs@.subrange(*a as int, *b as int));
            }
            match scope.search_range(cs, *a, *b) {
                None => Err(EvalAltResult::ErrorVariableNotFound(String::from_str(text.substring_char(*a, *b)))),
                Some(i) => {
                    let entry = scope.get_entry(i);
                    if entry.access == AccessMode::ReadOnly {
                        return Err(
                            EvalAltResult::ErrorAssignmentToConstant(String::from_str(text.substring_char(*a, *b))),
                        );
                    }
                    let nv = match op {
                        None => rv,
                        Some(op) => match binary_op_exec(*op, &entry.value, &rv) {
                            Ok(v) => v,
                            Err(err) => {
                                return Err(err);
                            },
                        },
                    };
                    scope.set_value_at(i, nv);
                    Ok(Dynamic::Unit)
                },
            }
        },
        Stmt::Expr(e) => eval_expr(global, 0, cs, text, scope, e),
        Stmt::FnDef(_, _, _, _) => Ok(Dynamic::Unit),
    }
}

/// Runs the statements of a script in order, as `run_statements` says, with
/// the functions of the scripts in `global`.
pub fn eval_global_statements(global: &GlobalRuntimeState, scope: &mut Scope, ast: &AST) -> (r: Result<Dynamic, EvalAltResult>)
    ensures
        final(scope)@ == run_statements(libs_of(global.lib@), ast.text_spec(), old(scope)@, ast.statements_spec()).0,
        same_result(r, run_statements(libs_of(global.lib@), ast.text_spec(), old(scope)@, ast.statements_spec()).1),
{
    let cs = ast.chars();
    let text = ast.text();
    let ss = ast.statements();
    let n = ss.len();
    let mut last = Dynamic::Unit;
    let mut i: usize = 0;
    while i < n
        invariant
            n == ss@.len(),
            i <= n,
            cs@ == text@,
            cs@ == ast.text_spec(),
            ss@ == ast.statements_spec(),
            stmts_spans_ok(ss@, cs@.len() as int),
            run_statements(libs_of(global.lib@), ast.text_spec(), old(scope)@, ss@) == run_from(libs_of(global.lib@), cs@, scope@, ss@, i as int, last@),
        decreases n - i,
    {
        assert(stmt_spans_ok(ss@[i as int], cs@.len() as int));
        if let Stmt::FnDef(..) = &ss[i] {
        } else {
            match exec_stmt(global, cs, text, scope, &ss[i]) {
                Ok(v) => {
                    last = v;
                },
                Err(err) => {
                    return Err(err);
                },
            }
        }
        i = i + 1;
    }
    Ok(last)
}

} // verus!
