//! Properties that relate the operations of the engine to one another.

use vstd::prelude::*;
use crate::api::eval::{eval_expression_spec, eval_script_spec, lemma_run_expression, script_lib};
use crate::ast::{Args, BinaryOperator, Expr, Params, Stmt};
use crate::engine::{compile_expression_spec, compile_spec, result_as};
use crate::error::{EvalAltResult, EvalError};
use crate::eval::{
    bind_params, eval_args_spec, eval_expr_spec, exec_stmt_spec, params_len, run_ast, run_from, run_statements, FnLib,
};
use crate::func::{call_native, symbol_of};
use crate::grammar::{law_parse_expression_is_inverse_of_printing, law_parse_script_is_inverse_of_printing, print_stmts, wf_script, print_stmt};
use crate::ops::binary_op;
use crate::scope::{constants_of, without_name, find_last, push_entry_spec, value_of_var, AccessMode, Entry};
use crate::token::{lex_spec, Token};
use crate::value::{Dynamic, Value};

verus! {

/// Calling `==` on two values tells whether they are equal, and `!=`
/// whether they differ, whatever their types.
pub proof fn law_equality_operator(a: Value, b: Value)
    ensures
        call_native("=="@, seq![a, b]) == (seq![a, b], Ok::<Value, EvalError>(Value::Bool(a == b))),
        call_native("!="@, seq![a, b]) == (seq![a, b], Ok::<Value, EvalError>(Value::Bool(a != b))),
{
    reveal_strlit("==");
    reveal_strlit("!=");
    assert(symbol_of("=="@) == Some(Token::EqualsTo));
    assert(symbol_of("!="@) == Some(Token::NotEqualsTo));
    match (a, b) {
        (Value::Str(x), Value::Str(y)) => {
            if x == y {
                assert(a == b);
            }
        },
        _ => {},
    }
}

/// The name of the compound assignment of an operator.
pub open spec fn compound_assign_name(op: BinaryOperator) -> Seq<char> {
    match op {
        BinaryOperator::Plus => "+="@,
        BinaryOperator::Minus => "-="@,
        BinaryOperator::Multiply => "*="@,
        BinaryOperator::Divide => "/="@,
        BinaryOperator::Modulo => "%="@,
        _ => "="@,
    }
}

/// Calling an arithmetic operator by its name computes the operator; calling
/// its compound assignment `op=` stores that result into the first argument
/// and returns `()`, and on an error leaves the arguments as they were.
pub proof fn law_compound_assignment(op: BinaryOperator, a: Value, b: Value)
    requires
        op == BinaryOperator::Plus || op == BinaryOperator::Minus || op == BinaryOperator::Multiply
            || op == BinaryOperator::Divide || op == BinaryOperator::Modulo,
    ensures
        call_native(crate::ops::binary_op_name(op), seq![a, b]) == (seq![a, b], binary_op(op, a, b)),
        call_native(compound_assign_name(op), seq![a, b]) == match binary_op(op, a, b) {
            Ok(v) => (seq![v, b], Ok::<Value, EvalError>(Value::Unit)),
            Err(e) => (seq![a, b], Err::<Value, EvalError>(e)),
        },
{
    reveal_strlit("+");
    reveal_strlit("-");
    reveal_strlit("*");
    reveal_strlit("/");
    reveal_strlit("%");
    reveal_strlit("+=");
    reveal_strlit("-=");
    reveal_strlit("*=");
    reveal_strlit("/=");
    reveal_strlit("%=");
    if let Ok(v) = binary_op(op, a, b) {
        assert(seq![a, b].update(0, v) =~= seq![v, b]);
    }
}

/// After pushing a variable, reading its name gives its value, and reading
/// any other name gives what it gave before.
pub proof fn law_push_then_read(s: Seq<Entry>, name: Seq<char>, access: AccessMode, v: Value, other: Seq<char>)
    ensures
        value_of_var(push_entry_spec(s, name, access, v), name) == Some(v),
        other != name ==> value_of_var(push_entry_spec(s, name, access, v), other) == value_of_var(s, other),
{
    let s2 = push_entry_spec(s, name, access, v);
    assert(s2.drop_last() =~= s);
    crate::scope::lemma_find_last(s, other);
    if let Some(i) = find_last(s, other) {
        assert(s2[i] == s[i]);
    }
}

proof fn lemma_run_from_shift(libs: Seq<FnLib>, text: Seq<char>, scope: Seq<Entry>, s1: Seq<Stmt>, s2: Seq<Stmt>, j: int, last: Value)
    requires
        0 <= j <= s2.len(),
    ensures
        run_from(libs, text, scope, s1 + s2, s1.len() + j, last) == run_from(libs, text, scope, s2, j, last),
    decreases s2.len() - j,
{
    if j < s2.len() {
        assert((s1 + s2)[s1.len() + j] == s2[j]);
        if s2[j] is FnDef {
            lemma_run_from_shift(libs, text, scope, s1, s2, j + 1, last);
        } else {
            let (sc1, r) = exec_stmt_spec(libs, text, scope, s2[j]);
            if let Ok(v) = r {
                lemma_run_from_shift(libs, text, sc1, s1, s2, j + 1, v);
            }
        }
    }
}

proof fn lemma_run_from_last(libs: Seq<FnLib>, text: Seq<char>, scope: Seq<Entry>, ss: Seq<Stmt>, i: int, last1: Value, last2: Value)
    requires
        0 <= i,
        exists|k: int| i <= k < ss.len() && !(ss[k] is FnDef),
    ensures
        run_from(libs, text, scope, ss, i, last1) == run_from(libs, text, scope, ss, i, last2),
    decreases ss.len() - i,
{
    if ss[i] is FnDef {
        let k = choose|k: int| i <= k < ss.len() && !(ss[k] is FnDef);
        assert(k != i);
        lemma_run_from_last(libs, text, scope, ss, i + 1, last1, last2);
    }
}

proof fn lemma_run_from_concat(libs: Seq<FnLib>, text: Seq<char>, scope: Seq<Entry>, s1: Seq<Stmt>, s2: Seq<Stmt>, i: int, last: Value)
    requires
        0 <= i <= s1.len(),
        exists|k: int| 0 <= k < s2.len() && !(s2[k] is FnDef),
    ensures
        run_from(libs, text, scope, s1 + s2, i, last) == match run_from(libs, text, scope, s1, i, last) {
            (sc1, Ok(_)) => run_from(libs, text, sc1, s2, 0, Value::Unit),
            (sc1, Err(e)) => (sc1, Err(e)),
        },
    decreases s1.len() - i,
{
    if i == s1.len() {
        lemma_run_from_shift(libs, text, scope, s1, s2, 0, last);
        lemma_run_from_last(libs, text, scope, s2, 0, last, Value::Unit);
    } else {
        assert((s1 + s2)[i] == s1[i]);
        if s1[i] is FnDef {
            lemma_run_from_concat(libs, text, scope, s1, s2, i + 1, last);
        } else {
            let (sc1, r) = exec_stmt_spec(libs, text, scope, s1[i]);
            if let Ok(v) = r {
                lemma_run_from_concat(libs, text, sc1, s1, s2, i + 1, v);
            }
        }
    }
}

/// Running statements one after another, with the same functions at hand,
/// is running the first part, then, if it did not fail, the second part in
/// the scope the first left, where the second part runs at least one
/// statement that is not a function definition.
pub proof fn law_run_sequence(libs: Seq<FnLib>, text: Seq<char>, scope: Seq<Entry>, s1: Seq<Stmt>, s2: Seq<Stmt>)
    requires
        exists|k: int| 0 <= k < s2.len() && !(s2[k] is FnDef),
    ensures
        run_statements(libs, text, scope, s1 + s2) == match run_statements(libs, text, scope, s1) {
            (sc1, Ok(_)) => run_statements(libs, text, sc1, s2),
            (sc1, Err(e)) => (sc1, Err(e)),
        },
{
    lemma_run_from_concat(libs, text, scope, s1, s2, 0, Value::Unit);
}

/// A call gives the same result in any two scopes in which its arguments
/// have the same values: a function sees only its arguments (and a script
/// function the constants of its script), never the variables of the
/// caller.
pub proof fn law_call_ignores_caller_scope(
    libs: Seq<FnLib>,
    text: Seq<char>,
    depth: nat,
    s1: Seq<Entry>,
    s2: Seq<Entry>,
    a: usize,
    b: usize,
    args: Args,
)
    requires
        eval_args_spec(libs, text, depth, s1, args) == eval_args_spec(libs, text, depth, s2, args),
    ensures
        eval_expr_spec(libs, text, depth, s1, Expr::FnCall(a, b, Box::new(args))) == eval_expr_spec(
            libs,
            text,
            depth,
            s2,
            Expr::FnCall(a, b, Box::new(args)),
        ),
{
}

proof fn lemma_without_name(c: Seq<Entry>, n: Seq<char>, m: Seq<char>)
    ensures
        value_of_var(without_name(c, n), m) == if m == n { None } else { value_of_var(c, m) },
    decreases c.len(),
{
    if c.len() > 0 {
        let rest = c.drop_last();
        lemma_without_name(rest, n, m);
        let w = without_name(rest, n);
        if c.last().name != n {
            assert(w.push(c.last()).drop_last() =~= w);
            if c.last().name != m {
                crate::scope::lemma_find_last(w, m);
                if let Some(k) = find_last(w, m) {
                    assert(w.push(c.last())[k] == w[k]);
                }
                crate::scope::lemma_find_last(rest, m);
                if let Some(k) = find_last(rest, m) {
                    assert(c[k] == rest[k]);
                }
            }
        } else if m != n {
            crate::scope::lemma_find_last(rest, m);
            if let Some(k) = find_last(rest, m) {
                assert(c[k] == rest[k]);
            }
        }
    }
}

/// A script's functions see a name of the scope it was compiled with
/// exactly where the last variable of that name is a constant, and then
/// with the constant's value; a later variable of the same name hides it.
pub proof fn law_functions_see_scope_constants(scope: Seq<Entry>, name: Seq<char>)
    ensures
        value_of_var(constants_of(scope), name) == match find_last(scope, name) {
            Some(i) => if scope[i].access == AccessMode::ReadOnly {
                Some(scope[i].value)
            } else {
                None
            },
            None => None,
        },
    decreases scope.len(),
{
    if scope.len() > 0 {
        let rest = scope.drop_last();
        let c = constants_of(rest);
        law_functions_see_scope_constants(rest, name);
        crate::scope::lemma_find_last(rest, name);
        if let Some(k) = find_last(rest, name) {
            assert(scope[k] == rest[k]);
        }
        if scope.last().access == AccessMode::ReadOnly {
            assert(constants_of(scope) == c.push(scope.last()));
            assert(c.push(scope.last()).drop_last() =~= c);
            crate::scope::lemma_find_last(c, name);
            if let Some(k) = find_last(c, name) {
                assert(c.push(scope.last())[k] == c[k]);
            }
        } else {
            assert(constants_of(scope) == without_name(c, scope.last().name));
            lemma_without_name(c, scope.last().name, name);
        }
    }
}

/// Compiling a script and running its AST is running the script; a script
/// that does not compile fails with the parse error and leaves the scope
/// as it was.
pub proof fn law_compile_then_run(text: Seq<char>, scope: Seq<Entry>)
    ensures
        compile_spec(text) matches Ok((ss, _)) ==> run_ast(script_lib(text, ss, scope), scope) == eval_script_spec(text, scope),
        compile_spec(text) matches Err(e) ==> eval_script_spec(text, scope) == (scope, Err::<Value, EvalError>(EvalError::Parsing(e))),
{
}

/// A script that is one expression gives the same value as a script and as
/// an expression, and leaves the scope as it was.
pub proof fn law_expression_is_script(text: Seq<char>, scope: Seq<Entry>)
    ensures
        compile_expression_spec(text) is Ok ==> eval_script_spec(text, scope) == (scope, eval_expression_spec(text, scope)),
{
    if let Ok(e) = compile_expression_spec(text) {
        let t = lex_spec(text)->Ok_0;
        law_parse_expression_is_inverse_of_printing(t, e);
        let ss = seq![Stmt::Expr(e)];
        assert(print_stmts(ss, false) == print_stmt(ss[0]));
        assert(wf_script(ss, false));
        law_parse_script_is_inverse_of_printing(t, ss, false);
        lemma_run_expression(seq![script_lib(text, ss, scope)], text, scope, e);
    }
}

/// Casting into `Dynamic` never fails: the value comes out as it is.
pub proof fn law_dynamic_cast_keeps_value(s: Result<Value, EvalError>, r: Result<Dynamic, EvalAltResult>)
    requires
        result_as(s, r),
    ensures
        s matches Ok(v) ==> r matches Ok(d) && d@ == v,
        s matches Err(e) ==> r matches Err(x) && x@ == e,
{
}

/// `after` keeps every variable of `before`, with its name and access, and
/// the value of every constant; it may have more variables.
pub open spec fn keeps_variables(before: Seq<Entry>, after: Seq<Entry>) -> bool {
    &&& after.len() >= before.len()
    &&& forall|i: int| 0 <= i < before.len() ==> {
        &&& (#[trigger] after[i]).name == before[i].name
        &&& after[i].access == before[i].access
        &&& (before[i].access == AccessMode::ReadOnly ==> after[i].value == before[i].value)
    }
}

proof fn lemma_stmt_keeps_variables(libs: Seq<FnLib>, text: Seq<char>, scope: Seq<Entry>, s: Stmt)
    ensures
        keeps_variables(scope, exec_stmt_spec(libs, text, scope, s).0),
{
    let after = exec_stmt_spec(libs, text, scope, s).0;
    match s {
        Stmt::Var(a, b, access, init) => {
            assert forall|i: int| 0 <= i < scope.len() implies (#[trigger] after[i]) == scope[i] by {
                if after.len() > scope.len() {
                    assert(after[i] == scope[i]);
                }
            }
        },
        Stmt::Assignment(a, b, op, e) => {
            crate::scope::lemma_find_last(scope, text.subrange(a as int, b as int));
        },
        _ => {},
    }
}

proof fn lemma_run_from_keeps_variables(libs: Seq<FnLib>, text: Seq<char>, scope: Seq<Entry>, ss: Seq<Stmt>, i: int, last: Value)
    ensures
        keeps_variables(scope, run_from(libs, text, scope, ss, i, last).0),
    decreases ss.len() - i,
{
    if 0 <= i < ss.len() {
        if ss[i] is FnDef {
            lemma_run_from_keeps_variables(libs, text, scope, ss, i + 1, last);
        } else {
            let (sc1, r) = exec_stmt_spec(libs, text, scope, ss[i]);
            lemma_stmt_keeps_variables(libs, text, scope, ss[i]);
            if let Ok(v) = r {
                lemma_run_from_keeps_variables(libs, text, sc1, ss, i + 1, v);
            }
        }
    }
}

/// A script never removes a variable of the scope, nor changes its name or
/// whether it is a constant, nor the value of a constant; it can only add
/// variables after the ones there were, and change values of variables.
pub proof fn law_script_keeps_variables(text: Seq<char>, scope: Seq<Entry>)
    ensures
        keeps_variables(scope, eval_script_spec(text, scope).0),
{
    if let Ok((ss, _)) = compile_spec(text) {
        lemma_run_from_keeps_variables(seq![script_lib(text, ss, scope)], text, scope, ss, 0, Value::Unit);
    }
}

/// An assignment `name = e` to a writable variable stores the value of `e`
/// into the last variable of that name; a compound one `name op= e` stores
/// there what calling `op=` with the variable's old value as first argument
/// and the value of `e` as second stores into its first argument, that is
/// `old op value`; on an error nothing changes. So `x -= 3` on `x = 10`
/// leaves `7`: the variable is the left operand.
pub proof fn law_assignment_statement(
    libs: Seq<FnLib>,
    text: Seq<char>,
    scope: Seq<Entry>,
    a: usize,
    b: usize,
    op: Option<BinaryOperator>,
    e: Expr,
)
    requires
        find_last(scope, text.subrange(a as int, b as int)) matches Some(i) && scope[i].access == AccessMode::ReadWrite,
        eval_expr_spec(libs, text, 0, scope, e) is Ok,
        op matches Some(o) ==> (o == BinaryOperator::Plus || o == BinaryOperator::Minus || o == BinaryOperator::Multiply
            || o == BinaryOperator::Divide || o == BinaryOperator::Modulo),
    ensures
        ({
            let i = find_last(scope, text.subrange(a as int, b as int))->Some_0;
            let old_v = scope[i].value;
            let v = eval_expr_spec(libs, text, 0, scope, e)->Ok_0;
            let r = exec_stmt_spec(libs, text, scope, Stmt::Assignment(a, b, op, e));
            &&& op is None ==> r == (scope.update(i, Entry { value: v, ..scope[i] }), Ok::<Value, EvalError>(Value::Unit))
            &&& op matches Some(o) ==> {
                let call = call_native(compound_assign_name(o), seq![old_v, v]);
                r == match call.1 {
                    Ok(_) => (scope.update(i, Entry { value: call.0[0], ..scope[i] }), Ok::<Value, EvalError>(Value::Unit)),
                    Err(err) => (scope, Err::<Value, EvalError>(err)),
                }
            }
            &&& (op == Some(BinaryOperator::Minus) && old_v is Int && v is Int && i64::MIN <= old_v->Int_0 - v->Int_0
                <= i64::MAX) ==> r.0[i].value == Value::Int((old_v->Int_0 - v->Int_0) as i64)
            &&& (op == Some(BinaryOperator::Plus) && old_v is Int && v is Int && i64::MIN <= old_v->Int_0 + v->Int_0
                <= i64::MAX) ==> r.0[i].value == Value::Int((old_v->Int_0 + v->Int_0) as i64)
        }),
{
    let name = text.subrange(a as int, b as int);
    crate::scope::lemma_find_last(scope, name);
    let i = find_last(scope, name)->Some_0;
    let v = eval_expr_spec(libs, text, 0, scope, e)->Ok_0;
    if let Some(o) = op {
        law_compound_assignment(o, scope[i].value, v);
    }
}

/// The name of the `k`-th parameter.
pub open spec fn param_name(text: Seq<char>, ps: Params, k: int) -> Seq<char>
    decreases ps,
{
    match ps {
        Params::Nil => Seq::empty(),
        Params::Cons(a, b, rest) => if k == 0 {
            text.subrange(a as int, b as int)
        } else {
            param_name(text, *rest, k - 1)
        },
    }
}

/// Whether the parameters have pairwise different names.
pub open spec fn distinct_params(text: Seq<char>, ps: Params) -> bool {
    forall|j: int, k: int|
        0 <= j < params_len(ps) && 0 <= k < params_len(ps) && j != k ==> param_name(text, ps, j) != param_name(
            text,
            ps,
            k,
        )
}

proof fn lemma_bind_other_name(text: Seq<char>, scope: Seq<Entry>, ps: Params, vals: Seq<Value>, i: int, n: Seq<char>)
    requires
        forall|k: int| 0 <= k < params_len(ps) ==> param_name(text, ps, k) != n,
    ensures
        value_of_var(bind_params(text, scope, ps, vals, i), n) == value_of_var(scope, n),
    decreases ps,
{
    if let Params::Cons(a, b, rest) = ps {
        assert forall|k: int| 0 <= k < params_len(*rest) implies param_name(text, *rest, k) != n by {
            assert(param_name(text, ps, k + 1) == param_name(text, *rest, k));
        }
        assert(param_name(text, ps, 0) != n);
        let s2 = push_entry_spec(scope, text.subrange(a as int, b as int), AccessMode::ReadWrite, vals[i]);
        lemma_bind_other_name(text, s2, *rest, vals, i + 1, n);
        law_push_then_read(scope, text.subrange(a as int, b as int), AccessMode::ReadWrite, vals[i], n);
    }
}

proof fn lemma_bind_params_from(text: Seq<char>, scope: Seq<Entry>, ps: Params, vals: Seq<Value>, i: int, k: int)
    requires
        distinct_params(text, ps),
        0 <= k < params_len(ps),
    ensures
        value_of_var(bind_params(text, scope, ps, vals, i), param_name(text, ps, k)) == Some(vals[i + k]),
    decreases ps,
{
    if let Params::Cons(a, b, rest) = ps {
        let n0 = text.subrange(a as int, b as int);
        let s2 = push_entry_spec(scope, n0, AccessMode::ReadWrite, vals[i]);
        assert forall|j: int| 0 <= j < params_len(*rest) implies #[trigger] param_name(text, *rest, j) == param_name(
            text,
            ps,
            j + 1,
        ) by {}
        if k == 0 {
            assert forall|j: int| 0 <= j < params_len(*rest) implies param_name(text, *rest, j) != n0 by {
                assert(param_name(text, ps, j + 1) != param_name(text, ps, 0));
            }
            lemma_bind_other_name(text, s2, *rest, vals, i + 1, n0);
            law_push_then_read(scope, n0, AccessMode::ReadWrite, vals[i], n0);
        } else {
            assert(distinct_params(text, *rest)) by {
                assert forall|j: int, m: int|
                    0 <= j < params_len(*rest) && 0 <= m < params_len(*rest) && j != m implies param_name(
                    text,
                    *rest,
                    j,
                ) != param_name(text, *rest, m) by {
                    assert(param_name(text, ps, j + 1) != param_name(text, ps, m + 1));
                }
            }
            lemma_bind_params_from(text, s2, *rest, vals, i + 1, k - 1);
        }
    }
}

/// In the scope in which a script function's body runs, each parameter
/// (where their names differ) holds the argument in the same position: the
/// `k`-th parameter the `k`-th argument.
pub proof fn law_parameters_hold_arguments(text: Seq<char>, consts: Seq<Entry>, ps: Params, vals: Seq<Value>, k: int)
    requires
        distinct_params(text, ps),
        0 <= k < params_len(ps),
    ensures
        value_of_var(bind_params(text, consts, ps, vals, 0), param_name(text, ps, k)) == Some(vals[k]),
{
    lemma_bind_params_from(text, consts, ps, vals, 0, k);
}

/// The number of arguments of a call.
pub open spec fn args_len(args: Args) -> nat
    decreases args,
{
    match args {
        Args::Nil => 0,
        Args::Cons(_, rest) => 1 + args_len(*rest),
    }
}

/// The `k`-th argument of a call.
pub open spec fn arg_at(args: Args, k: int) -> Expr
    decreases args,
{
    match args {
        Args::Nil => Expr::Unit,
        Args::Cons(e, rest) => if k == 0 {
            *e
        } else {
            arg_at(*rest, k - 1)
        },
    }
}

/// The values of the arguments of a call are, in order, the values of the
/// argument expressions: the `k`-th value is that of the `k`-th argument.
pub proof fn law_arguments_in_order(libs: Seq<FnLib>, text: Seq<char>, depth: nat, scope: Seq<Entry>, args: Args)
    ensures
        eval_args_spec(libs, text, depth, scope, args) matches Ok(vals) ==> {
            &&& vals.len() == args_len(args)
            &&& forall|k: int| 0 <= k < vals.len() ==> eval_expr_spec(libs, text, depth, scope, #[trigger] arg_at(args, k))
                == Ok::<Value, EvalError>(vals[k])
        },
    decreases args,
{
    if let Args::Cons(e, rest) = args {
        law_arguments_in_order(libs, text, depth, scope, *rest);
        if let Ok(vals) = eval_args_spec(libs, text, depth, scope, args) {
            let tail = eval_args_spec(libs, text, depth, scope, *rest)->Ok_0;
            assert(vals == seq![vals[0]] + tail);
            assert forall|k: int| 0 <= k < vals.len() implies eval_expr_spec(libs, text, depth, scope, #[trigger] arg_at(args, k))
                == Ok::<Value, EvalError>(vals[k]) by {
                if k > 0 {
                    assert(arg_at(args, k) == arg_at(*rest, k - 1));
                    assert(vals[k] == tail[k - 1]);
                }
            }
        }
    }
}

/// `&&` and `||` look at their right operand only where the left one does
/// not decide: `false && r` is `false` and `true || r` is `true` whatever
/// `r` is, even where `r` would fail; otherwise the result is the right
/// operand's boolean.
pub proof fn law_short_circuit(libs: Seq<FnLib>, text: Seq<char>, depth: nat, scope: Seq<Entry>, l: Expr, r: Expr, b: bool)
    requires
        eval_expr_spec(libs, text, depth, scope, l) == Ok::<Value, EvalError>(Value::Bool(b)),
    ensures
        !b ==> eval_expr_spec(libs, text, depth, scope, Expr::Binary(BinaryOperator::And, Box::new(l), Box::new(r)))
            == Ok::<Value, EvalError>(Value::Bool(false)),
        b ==> eval_expr_spec(libs, text, depth, scope, Expr::Binary(BinaryOperator::Or, Box::new(l), Box::new(r)))
            == Ok::<Value, EvalError>(Value::Bool(true)),
        forall|c: bool|
            eval_expr_spec(libs, text, depth, scope, r) == Ok::<Value, EvalError>(Value::Bool(c)) ==> {
                &&& b ==> eval_expr_spec(libs, text, depth, scope, Expr::Binary(BinaryOperator::And, Box::new(l), Box::new(r)))
                    == Ok::<Value, EvalError>(Value::Bool(c))
                &&& !b ==> eval_expr_spec(libs, text, depth, scope, Expr::Binary(BinaryOperator::Or, Box::new(l), Box::new(r)))
                    == Ok::<Value, EvalError>(Value::Bool(c))
            },
{
}

/// An operator expression applies the operator to the values of its
/// operands, the left one as the left operand; the left operand is
/// evaluated first, so its error is the one reported; parentheses change
/// nothing; a variable gives the value of the last variable of that name.
pub proof fn law_operator_expressions(
    libs: Seq<FnLib>,
    text: Seq<char>,
    depth: nat,
    scope: Seq<Entry>,
    op: BinaryOperator,
    uop: crate::ast::UnaryOperator,
    l: Expr,
    r: Expr,
    a: usize,
    b: usize,
)
    requires
        op != BinaryOperator::And && op != BinaryOperator::Or,
    ensures
        ({
            let e = Expr::Binary(op, Box::new(l), Box::new(r));
            &&& (eval_expr_spec(libs, text, depth, scope, l) is Ok && eval_expr_spec(libs, text, depth, scope, r) is Ok)
                ==> eval_expr_spec(libs, text, depth, scope, e) == binary_op(
                op,
                eval_expr_spec(libs, text, depth, scope, l)->Ok_0,
                eval_expr_spec(libs, text, depth, scope, r)->Ok_0,
            )
            &&& eval_expr_spec(libs, text, depth, scope, l) is Err ==> eval_expr_spec(libs, text, depth, scope, e)
                == eval_expr_spec(libs, text, depth, scope, l)
        }),
        eval_expr_spec(libs, text, depth, scope, l) matches Ok(v) ==> eval_expr_spec(
            libs,
            text,
            depth,
            scope,
            Expr::Unary(uop, Box::new(l)),
        ) == crate::ops::unary_op(uop, v),
        eval_expr_spec(libs, text, depth, scope, Expr::Paren(Box::new(l))) == eval_expr_spec(libs, text, depth, scope, l),
        value_of_var(scope, text.subrange(a as int, b as int)) matches Some(v) ==> eval_expr_spec(
            libs,
            text,
            depth,
            scope,
            Expr::Variable(a, b),
        ) == Ok::<Value, EvalError>(v),
{
}

} // verus!
