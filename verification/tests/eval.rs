use rhai::{ArithmeticError, Dynamic, Engine, EvalAltResult, ParseError, Scope};

fn s(x: &str) -> String {
    x.to_string()
}

#[test]
fn eval_adds() {
    let engine = Engine::new();
    assert_eq!(engine.eval::<i64>("40 + 2").unwrap(), 42);
}

#[test]
fn eval_free_function() {
    let result: i64 = rhai::eval("40 + 2").unwrap();
    assert_eq!(result, 42);
}

#[test]
fn eval_with_scope_keeps_changes() {
    let engine = Engine::new();
    let mut scope = Scope::new();
    scope.push("x", Dynamic::Int(40));
    assert_eq!(engine.eval_with_scope::<i64>(&mut scope, "x += 2; x").unwrap(), 42);
    assert_eq!(engine.eval_with_scope::<i64>(&mut scope, "x += 2; x").unwrap(), 44);
    assert_eq!(scope.get_value::<i64>("x").expect("variable x should exist"), 44);
}

#[test]
fn eval_expression_adds() {
    let engine = Engine::new();
    assert_eq!(engine.eval_expression::<i64>("40 + 2").unwrap(), 42);
}

#[test]
fn eval_expression_with_scope_reads_variable() {
    let engine = Engine::new();
    let mut scope = Scope::new();
    scope.push("x", Dynamic::Int(40));
    assert_eq!(engine.eval_expression_with_scope::<i64>(&mut scope, "x + 2").unwrap(), 42);
    assert_eq!(scope.len(), 1);
}

#[test]
fn eval_ast_of_compiled_script() {
    let engine = Engine::new();
    let ast = engine.compile("40 + 2").unwrap();
    assert_eq!(engine.eval_ast::<i64>(&ast).unwrap(), 42);
}

#[test]
fn eval_ast_with_scope_twice() {
    let engine = Engine::new();
    let mut scope = Scope::new();
    scope.push("x", Dynamic::Int(40));
    let ast = engine.compile("x += 2; x").unwrap();
    assert_eq!(engine.eval_ast_with_scope::<i64>(&mut scope, &ast).unwrap(), 42);
    assert_eq!(engine.eval_ast_with_scope::<i64>(&mut scope, &ast).unwrap(), 44);
    assert_eq!(scope.get_value::<i64>("x").expect("variable x should exist"), 44);
}

#[test]
fn eval_binary_op_different_types_are_not_equal() {
    let engine = Engine::new();
    let result = engine.eval_binary_op::<bool>("==", Dynamic::Str(s("abc")), Dynamic::Int(123)).unwrap();
    assert!(!result);
}

#[test]
fn eval_binary_op_arithmetic_and_comparison() {
    let engine = Engine::new();
    assert_eq!(engine.eval_binary_op::<i64>("*", Dynamic::Int(6), Dynamic::Int(7)).unwrap(), 42);
    assert!(engine.eval_binary_op::<bool>("<", Dynamic::Int(1), Dynamic::Int(2)).unwrap());
    assert!(engine.eval_binary_op::<bool>("!=", Dynamic::Str(s("a")), Dynamic::Int(1)).unwrap());
    assert_eq!(
        engine.eval_binary_op::<String>("+", Dynamic::Str(s("ab")), Dynamic::Str(s("cd"))).unwrap(),
        "abcd"
    );
}

#[test]
fn eval_binary_op_unknown_operator() {
    let engine = Engine::new();
    assert_eq!(
        engine.eval_binary_op::<bool>("&&", Dynamic::Bool(true), Dynamic::Bool(true)),
        Err(EvalAltResult::ErrorFunctionNotFound(s("&&")))
    );
    assert_eq!(
        engine.eval_binary_op::<i64>("plus", Dynamic::Int(1), Dynamic::Int(2)),
        Err(EvalAltResult::ErrorFunctionNotFound(s("plus")))
    );
    assert_eq!(
        engine.eval_binary_op::<i64>("-", Dynamic::Bool(true), Dynamic::Int(2)),
        Err(EvalAltResult::ErrorFunctionNotFound(s("-")))
    );
}

#[test]
fn eval_fn_call_with_object_stores_into_it() {
    let engine = Engine::new();
    let mut x = Dynamic::Int(40);
    let r = engine.eval_fn_call::<()>("+=", Some(&mut x), vec![Dynamic::Int(2)]);
    assert_eq!(r, Ok(()));
    assert_eq!(x, Dynamic::Int(42));
    let r = engine.eval_fn_call::<i64>("-", Some(&mut x), vec![Dynamic::Int(2)]);
    assert_eq!(r, Ok(40));
    assert_eq!(x, Dynamic::Int(42));
}

#[test]
fn eval_fn_call_without_object() {
    let engine = Engine::new();
    assert_eq!(engine.eval_fn_call::<i64>("-", None, vec![Dynamic::Int(5)]), Ok(-5));
    assert_eq!(engine.eval_fn_call::<bool>("!", None, vec![Dynamic::Bool(true)]), Ok(false));
    assert_eq!(
        engine.eval_fn_call::<i64>("+", None, vec![Dynamic::Int(1), Dynamic::Int(2), Dynamic::Int(3)]),
        Err(EvalAltResult::ErrorFunctionNotFound(s("+")))
    );
}

#[test]
fn eval_fn_call_with_arguments_copies_unless_by_reference() {
    let engine = Engine::new();
    let mut args = vec![Dynamic::Int(1), Dynamic::Int(2)];
    assert_eq!(engine.eval_fn_call_with_arguments("+=", &mut args, false, false), Ok(Dynamic::Unit));
    assert_eq!(args, vec![Dynamic::Int(1), Dynamic::Int(2)]);
    assert_eq!(engine.eval_fn_call_with_arguments("+=", &mut args, true, true), Ok(Dynamic::Unit));
    assert_eq!(args, vec![Dynamic::Int(3), Dynamic::Int(2)]);
}

#[test]
fn precedence_and_grouping() {
    let engine = Engine::new();
    assert_eq!(engine.eval::<i64>("2 + 3 * 4").unwrap(), 14);
    assert_eq!(engine.eval::<i64>("(2 + 3) * 4").unwrap(), 20);
    assert_eq!(engine.eval::<i64>("10 - 4 - 3").unwrap(), 3);
    assert_eq!(engine.eval::<i64>("100 / 10 / 5").unwrap(), 2);
    assert_eq!(engine.eval::<i64>("-7 % 3").unwrap(), -1);
    assert_eq!(engine.eval::<i64>("- -3").unwrap(), 3);
    assert!(engine.eval::<bool>("1 + 1 == 2 && !(3 < 2)").unwrap());
    assert!(engine.eval::<bool>("false || 2 >= 2").unwrap());
}

#[test]
fn statements_and_variables() {
    let engine = Engine::new();
    assert_eq!(engine.eval::<i64>("let x = 5; let y = x * 2; y - x").unwrap(), 5);
    assert_eq!(engine.eval::<i64>("let x = 1; let x = x + 1; x").unwrap(), 2);
    assert_eq!(engine.eval::<()>("let x = 1;").unwrap(), ());
    assert_eq!(engine.eval::<()>("").unwrap(), ());
    assert_eq!(engine.eval::<i64>("40 + 2;").unwrap(), 42);
    assert_eq!(engine.eval::<()>("let x; x").unwrap(), ());
    assert_eq!(engine.eval::<String>("let s = \"ab\"; s + \"c\"").unwrap(), "abc");
    assert_eq!(engine.eval::<()>("()").unwrap(), ());
}

#[test]
fn let_statements_stay_in_scope() {
    let engine = Engine::new();
    let mut scope = Scope::new();
    engine.eval_with_scope::<()>(&mut scope, "let a = 3; const b = 4;").unwrap();
    assert_eq!(scope.len(), 2);
    assert_eq!(scope.get_value::<i64>("a"), Some(3));
    assert_eq!(scope.get_value::<i64>("b"), Some(4));
    assert_eq!(scope.get_value::<bool>("a"), None);
    assert_eq!(scope.get_value::<i64>("c"), None);
}

#[test]
fn short_circuit_skips_right_operand() {
    let engine = Engine::new();
    assert!(!engine.eval::<bool>("false && missing").unwrap());
    assert!(engine.eval::<bool>("true || missing").unwrap());
    assert_eq!(engine.eval::<bool>("true && missing"), Err(EvalAltResult::ErrorVariableNotFound(s("missing"))));
}

#[test]
fn runtime_errors() {
    let engine = Engine::new();
    assert_eq!(engine.eval::<i64>("y + 1"), Err(EvalAltResult::ErrorVariableNotFound(s("y"))));
    assert_eq!(engine.eval::<i64>("z = 1"), Err(EvalAltResult::ErrorVariableNotFound(s("z"))));
    assert_eq!(
        engine.eval::<()>("const c = 1; c = 2"),
        Err(EvalAltResult::ErrorAssignmentToConstant(s("c")))
    );
    assert_eq!(
        engine.eval::<i64>("9223372036854775807 + 1"),
        Err(EvalAltResult::ErrorArithmetic(ArithmeticError::Overflow))
    );
    assert_eq!(engine.eval::<i64>("1 / 0"), Err(EvalAltResult::ErrorArithmetic(ArithmeticError::DivisionByZero)));
    assert_eq!(engine.eval::<i64>("1 % 0"), Err(EvalAltResult::ErrorArithmetic(ArithmeticError::DivisionByZero)));
    assert_eq!(
        engine.eval::<i64>("-9223372036854775807 - 1 - 1"),
        Err(EvalAltResult::ErrorArithmetic(ArithmeticError::Overflow))
    );
    assert_eq!(engine.eval::<bool>("1 && true"), Err(EvalAltResult::ErrorMismatchDataType(s("bool"), s("i64"))));
    assert_eq!(engine.eval::<bool>("true && 1"), Err(EvalAltResult::ErrorMismatchDataType(s("bool"), s("i64"))));
    assert_eq!(engine.eval::<bool>("!1"), Err(EvalAltResult::ErrorFunctionNotFound(s("!"))));
    assert_eq!(engine.eval::<i64>("true + 1"), Err(EvalAltResult::ErrorFunctionNotFound(s("+"))));
}

#[test]
fn scope_kept_up_to_a_runtime_error() {
    let engine = Engine::new();
    let mut scope = Scope::new();
    let r = engine.eval_with_scope::<i64>(&mut scope, "let a = 1; a = a + 1; b");
    assert_eq!(r, Err(EvalAltResult::ErrorVariableNotFound(s("b"))));
    assert_eq!(scope.get_value::<i64>("a"), Some(2));
}

#[test]
fn output_type_mismatch() {
    let engine = Engine::new();
    assert_eq!(engine.eval::<bool>("40 + 2"), Err(EvalAltResult::ErrorMismatchOutputType(s("bool"), s("i64"))));
    assert_eq!(engine.eval::<i64>("\"x\""), Err(EvalAltResult::ErrorMismatchOutputType(s("i64"), s("string"))));
    assert_eq!(engine.eval::<Dynamic>("1 == 1"), Ok(Dynamic::Bool(true)));
}

#[test]
fn parse_errors() {
    let engine = Engine::new();
    assert_eq!(engine.eval::<i64>("1 $ 2"), Err(EvalAltResult::ErrorParsing(ParseError::UnknownCharacter('$'))));
    assert_eq!(engine.eval::<String>("\"abc"), Err(EvalAltResult::ErrorParsing(ParseError::UnterminatedString)));
    assert_eq!(
        engine.eval::<i64>("9223372036854775808"),
        Err(EvalAltResult::ErrorParsing(ParseError::MalformedNumber))
    );
    assert_eq!(engine.eval::<i64>("1 2"), Err(EvalAltResult::ErrorParsing(ParseError::SyntaxError)));
    assert_eq!(engine.eval::<i64>("(1 + 2"), Err(EvalAltResult::ErrorParsing(ParseError::SyntaxError)));
    assert_eq!(engine.eval::<i64>(";"), Err(EvalAltResult::ErrorParsing(ParseError::SyntaxError)));
    assert_eq!(engine.eval::<()>("const c;"), Err(EvalAltResult::ErrorParsing(ParseError::SyntaxError)));
    assert!(engine.compile("1 +").is_err());
}

#[test]
fn eval_expression_rejects_statements() {
    let engine = Engine::new();
    let mut scope = Scope::new();
    scope.push("x", Dynamic::Int(1));
    assert_eq!(
        engine.eval_expression_with_scope::<i64>(&mut scope, "x = 2"),
        Err(EvalAltResult::ErrorParsing(ParseError::SyntaxError))
    );
    assert_eq!(engine.eval_expression::<i64>("1; 2"), Err(EvalAltResult::ErrorParsing(ParseError::SyntaxError)));
    assert_eq!(engine.eval_expression::<i64>(""), Err(EvalAltResult::ErrorParsing(ParseError::SyntaxError)));
    assert_eq!(scope.get_value::<i64>("x"), Some(1));
}

#[test]
fn ast_source_is_kept() {
    let engine = Engine::new();
    let mut ast = engine.compile("1").unwrap();
    assert_eq!(ast.source_raw(), &None);
    ast.set_source("main");
    assert_eq!(ast.source_raw(), &Some(s("main")));
    assert_eq!(engine.eval_ast::<i64>(&ast).unwrap(), 1);
}

#[test]
fn scope_constants_and_shadowing() {
    let engine = Engine::new();
    let mut scope = Scope::new();
    scope.push_constant("k", Dynamic::Int(1));
    assert_eq!(
        engine.eval_with_scope::<()>(&mut scope, "k += 1"),
        Err(EvalAltResult::ErrorAssignmentToConstant(s("k")))
    );
    scope.push("k", Dynamic::Int(5));
    assert_eq!(engine.eval_with_scope::<i64>(&mut scope, "k += 1; k").unwrap(), 6);
    assert!(scope.contains("k"));
    assert!(!scope.contains("q"));
}

#[test]
fn string_comparisons() {
    let engine = Engine::new();
    assert!(engine.eval::<bool>("\"abc\" < \"abd\"").unwrap());
    assert!(engine.eval::<bool>("\"ab\" < \"abc\"").unwrap());
    assert!(!engine.eval::<bool>("\"b\" < \"abc\"").unwrap());
    assert!(engine.eval::<bool>("\"b\" > \"abc\"").unwrap());
    assert!(engine.eval::<bool>("\"x\" <= \"x\" && \"x\" >= \"x\"").unwrap());
    assert!(!engine.eval::<bool>("\"x\" > \"x\"").unwrap());
    assert!(!engine.eval::<bool>("\"1\" < 2").unwrap());
    assert_eq!(engine.eval::<bool>("true < false"), Err(EvalAltResult::ErrorFunctionNotFound(s("<"))));
}

#[test]
fn eval_fn_call_standard_functions() {
    let engine = Engine::new();
    let mut text = Dynamic::Str(s("abc"));
    assert_eq!(engine.eval_fn_call::<i64>("len", Some(&mut text), vec![]), Ok(3));
    assert_eq!(text, Dynamic::Str(s("abc")));
    assert_eq!(engine.eval_fn_call::<i64>("abs", None, vec![Dynamic::Int(-5)]), Ok(5));
    assert_eq!(engine.eval_fn_call::<i64>("abs", None, vec![Dynamic::Int(7)]), Ok(7));
    assert_eq!(
        engine.eval_fn_call::<bool>("abs", None, vec![Dynamic::Int(-5)]),
        Err(EvalAltResult::ErrorMismatchOutputType(s("bool"), s("i64")))
    );
    assert_eq!(
        engine.eval_fn_call::<i64>("abs", None, vec![Dynamic::Int(i64::MIN)]),
        Err(EvalAltResult::ErrorArithmetic(ArithmeticError::Overflow))
    );
    assert_eq!(
        engine.eval_fn_call::<i64>("len", None, vec![Dynamic::Int(1)]),
        Err(EvalAltResult::ErrorFunctionNotFound(s("len")))
    );
    let mut args = vec![Dynamic::Str(s("hello"))];
    assert_eq!(engine.eval_fn_call_with_arguments("len", &mut args, true, true), Ok(Dynamic::Int(5)));
}

#[test]
fn standard_functions_in_scripts() {
    let engine = Engine::new();
    assert_eq!(engine.eval::<i64>("len(\"abcd\") + abs(-2)").unwrap(), 6);
    assert_eq!(engine.eval::<String>("\"abc\" + 1").unwrap(), "abc1");
    assert_eq!(engine.eval::<String>("\"x\" + true + ()").unwrap(), "xtrue");
    assert_eq!(engine.eval::<i64>("nothing(1)"), Err(EvalAltResult::ErrorFunctionNotFound(s("nothing"))));
}

#[test]
fn scope_constants_reach_script_functions() {
    let engine = Engine::new();
    let mut scope = Scope::new();
    scope.push_constant("X", Dynamic::Int(40));
    assert_eq!(engine.eval_with_scope::<i64>(&mut scope, "fn f() { X } f()").unwrap(), 40);
    assert_eq!(engine.eval_with_scope::<i64>(&mut scope, "fn f() { X + 2 } f()").unwrap(), 42);
    let mut scope = Scope::new();
    scope.push("y", Dynamic::Int(1));
    assert_eq!(
        engine.eval_with_scope::<i64>(&mut scope, "fn f() { y } f()"),
        Err(EvalAltResult::ErrorVariableNotFound(s("y")))
    );
}

#[test]
fn script_functions_with_parameters() {
    let engine = Engine::new();
    assert_eq!(engine.eval::<i64>("fn add(a, b) { a + b } add(1, 2)").unwrap(), 3);
    assert_eq!(engine.eval::<i64>("let r = twice(21); fn twice(x) { x * 2 } r").unwrap(), 42);
    assert_eq!(engine.eval::<i64>("fn f(x) { x } fn f(x, y) { x + y } f(1) + f(2, 3)").unwrap(), 6);
    assert_eq!(engine.eval::<i64>("fn f() { 1 } fn f() { 2 } f()").unwrap(), 2);
    assert_eq!(engine.eval::<i64>("fn f(x) { x } f()"), Err(EvalAltResult::ErrorFunctionNotFound(s("f"))));
    assert_eq!(engine.eval::<i64>("let a = 5; fn g(a) { a + 1 } g(1) + a").unwrap(), 7);
    assert_eq!(engine.eval::<()>("fn f() { 1 }").unwrap(), ());
    assert_eq!(engine.eval::<i64>("fn fact(n) { n } fact(fact(3))").unwrap(), 3);
}

#[test]
fn script_function_calls_are_limited_in_depth() {
    let engine = Engine::new();
    assert_eq!(engine.eval::<i64>("fn f(x) { f(x) } f(1)"), Err(EvalAltResult::ErrorStackOverflow));
}

#[test]
fn script_function_syntax_errors() {
    let engine = Engine::new();
    assert_eq!(engine.eval::<i64>("fn f( { 1 } f()"), Err(EvalAltResult::ErrorParsing(ParseError::SyntaxError)));
    assert_eq!(engine.eval::<i64>("fn f() { 1 }; f()"), Err(EvalAltResult::ErrorParsing(ParseError::SyntaxError)));
    assert_eq!(engine.eval::<i64>("f(1,)"), Err(EvalAltResult::ErrorParsing(ParseError::SyntaxError)));
}

#[test]
fn compile_with_scope_keeps_constants_for_functions() {
    let engine = Engine::new();
    let mut scope = Scope::new();
    scope.push_constant("K", Dynamic::Int(7));
    let ast = engine.compile_with_scope(&scope, "fn k() { K } k()").unwrap();
    assert_eq!(engine.eval_ast::<i64>(&ast).unwrap(), 7);
    let plain = engine.compile("fn k() { K } k()").unwrap();
    assert_eq!(engine.eval_ast::<i64>(&plain), Err(EvalAltResult::ErrorVariableNotFound(s("K"))));
}

#[test]
fn eval_fn_call_pushes_onto_array_in_place() {
    let engine = Engine::new();
    let mut a = Dynamic::Array(vec![Dynamic::Int(1), Dynamic::Int(2)]);
    assert_eq!(engine.eval_fn_call::<()>("push", Some(&mut a), vec![Dynamic::Int(3)]), Ok(()));
    assert_eq!(a, Dynamic::Array(vec![Dynamic::Int(1), Dynamic::Int(2), Dynamic::Int(3)]));
    assert_eq!(engine.eval_fn_call::<i64>("len", Some(&mut a), vec![]), Ok(3));
    let mut n = Dynamic::Int(1);
    assert_eq!(
        engine.eval_fn_call::<()>("push", Some(&mut n), vec![Dynamic::Int(3)]),
        Err(EvalAltResult::ErrorFunctionNotFound(s("push")))
    );
    assert_eq!(n, Dynamic::Int(1));
}

#[test]
fn arrays_in_scripts() {
    let engine = Engine::new();
    let mut scope = Scope::new();
    scope.push("a", Dynamic::Array(vec![Dynamic::Int(1), Dynamic::Int(2)]));
    scope.push("b", Dynamic::Array(vec![Dynamic::Int(1), Dynamic::Int(2)]));
    assert!(engine.eval_with_scope::<bool>(&mut scope, "a == b").unwrap());
    assert!(!engine.eval_with_scope::<bool>(&mut scope, "a != b").unwrap());
    assert!(!engine.eval_with_scope::<bool>(&mut scope, "a == 1").unwrap());
    assert_eq!(engine.eval_with_scope::<i64>(&mut scope, "len(a + b)").unwrap(), 4);
    assert_eq!(
        engine.eval_with_scope::<Vec<Dynamic>>(&mut scope, "a + b").unwrap(),
        vec![Dynamic::Int(1), Dynamic::Int(2), Dynamic::Int(1), Dynamic::Int(2)]
    );
    assert_eq!(engine.eval_with_scope::<bool>(&mut scope, "a < b"), Err(EvalAltResult::ErrorFunctionNotFound(s("<"))));
    assert_eq!(
        engine.eval_with_scope::<i64>(&mut scope, "a"),
        Err(EvalAltResult::ErrorMismatchOutputType(s("i64"), s("array")))
    );
    assert_eq!(
        engine.eval_binary_op::<bool>("==", Dynamic::Array(vec![Dynamic::Int(1)]), Dynamic::Array(vec![Dynamic::Int(2)])),
        Ok(false)
    );
}
