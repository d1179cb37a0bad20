use rhai::ast::{Args, BinaryOperator, Expr, Params, Stmt};
use rhai::parser::{parse_global_expr, parse_stmts};
use rhai::text::chars_of;
use rhai::token::{lex, Token};
use rhai::{Dynamic, Engine, EvalAltResult, ParseError, Scope};

fn s(x: &str) -> String {
    x.to_string()
}

fn tokens(src: &str) -> Vec<Token> {
    lex(&chars_of(src)).unwrap()
}

#[test]
fn equality_operator_tells_equal_values() {
    let engine = Engine::new();
    assert!(engine.eval_binary_op::<bool>("==", Dynamic::Str(s("a")), Dynamic::Str(s("a"))).unwrap());
    assert!(!engine.eval_binary_op::<bool>("==", Dynamic::Str(s("a")), Dynamic::Str(s("b"))).unwrap());
    assert!(!engine.eval_binary_op::<bool>("!=", Dynamic::Int(1), Dynamic::Int(1)).unwrap());
    assert!(engine.eval_binary_op::<bool>("==", Dynamic::Unit, Dynamic::Unit).unwrap());
    assert!(!engine.eval_binary_op::<bool>("==", Dynamic::Bool(true), Dynamic::Unit).unwrap());
}

#[test]
fn compound_assignment_matches_operator() {
    let engine = Engine::new();
    let d = engine.eval_binary_op::<i64>("-", Dynamic::Int(10), Dynamic::Int(3)).unwrap();
    let mut x = Dynamic::Int(10);
    assert_eq!(engine.eval_fn_call::<()>("-=", Some(&mut x), vec![Dynamic::Int(3)]), Ok(()));
    assert_eq!(x, Dynamic::Int(d));
    let mut y = Dynamic::Int(1);
    assert_eq!(
        engine.eval_fn_call::<()>("/=", Some(&mut y), vec![Dynamic::Int(0)]),
        Err(EvalAltResult::ErrorArithmetic(rhai::ArithmeticError::DivisionByZero))
    );
    assert_eq!(y, Dynamic::Int(1));
}

#[test]
fn push_then_read() {
    let mut scope = Scope::new();
    scope.push("x", Dynamic::Int(1));
    scope.push("y", Dynamic::Int(2));
    assert_eq!(scope.get_value::<i64>("y"), Some(2));
    assert_eq!(scope.get_value::<i64>("x"), Some(1));
    scope.push("x", Dynamic::Str(s("new")));
    assert_eq!(scope.get_value::<String>("x"), Some(s("new")));
}

#[test]
fn running_in_sequence() {
    let engine = Engine::new();
    let whole = engine.eval::<i64>("let a = 1; a + 1").unwrap();
    let mut scope = Scope::new();
    engine.eval_with_scope::<()>(&mut scope, "let a = 1").unwrap();
    let parts = engine.eval_with_scope::<i64>(&mut scope, "a + 1").unwrap();
    assert_eq!(whole, parts);
}

#[test]
fn compile_then_run_is_eval() {
    let engine = Engine::new();
    let script = "let a = 6; let b = 7; a * b";
    let ast = engine.compile(script).unwrap();
    assert_eq!(engine.eval_ast::<i64>(&ast), engine.eval::<i64>(script));
    assert_eq!(engine.compile("1 +").err(), Some(ParseError::SyntaxError));
}

#[test]
fn expression_is_script() {
    let engine = Engine::new();
    assert_eq!(engine.eval_expression::<i64>("(1 + 2) * 3"), engine.eval::<i64>("(1 + 2) * 3"));
    assert_eq!(engine.eval_expression::<bool>("1 < 2 || x"), engine.eval::<bool>("1 < 2 || x"));
}

#[test]
fn dynamic_cast_keeps_value() {
    let engine = Engine::new();
    assert_eq!(engine.eval::<Dynamic>("\"s\""), Ok(Dynamic::Str(s("s"))));
    assert_eq!(engine.eval::<Dynamic>("let q = 1;"), Ok(Dynamic::Unit));
}

#[test]
fn lexer_tokens() {
    assert_eq!(
        tokens("let x1 = 12 + \"ab\";"),
        vec![
            Token::Let,
            Token::Ident(4, 6),
            Token::Equals,
            Token::IntLit(12),
            Token::Plus,
            Token::StrLit(15, 17),
            Token::SemiColon
        ]
    );
    assert_eq!(
        tokens("a<=b>=c==d!=e&&f||g+=1-=2*=3/=4%=5"),
        vec![
            Token::Ident(0, 1),
            Token::LessThanEqualsTo,
            Token::Ident(3, 4),
            Token::GreaterThanEqualsTo,
            Token::Ident(6, 7),
            Token::EqualsTo,
            Token::Ident(9, 10),
            Token::NotEqualsTo,
            Token::Ident(12, 13),
            Token::And,
            Token::Ident(15, 16),
            Token::Or,
            Token::Ident(18, 19),
            Token::PlusAssign,
            Token::IntLit(1),
            Token::MinusAssign,
            Token::IntLit(2),
            Token::MultiplyAssign,
            Token::IntLit(3),
            Token::DivideAssign,
            Token::IntLit(4),
            Token::ModuloAssign,
            Token::IntLit(5)
        ]
    );
    assert_eq!(tokens(" true\tfalse\nconst "), vec![Token::True, Token::False, Token::Const]);
    assert_eq!(lex(&chars_of("a & b")), Err(ParseError::UnknownCharacter('&')));
}

#[test]
fn operators_group_to_the_left() {
    let e = parse_global_expr(&tokens("1 - 2 - 3")).unwrap();
    match e {
        Expr::Binary(BinaryOperator::Minus, l, r) => {
            assert!(matches!(*r, Expr::IntConst(3)));
            match *l {
                Expr::Binary(BinaryOperator::Minus, a, b) => {
                    assert!(matches!(*a, Expr::IntConst(1)));
                    assert!(matches!(*b, Expr::IntConst(2)));
                }
                _ => panic!("left operand should be 1 - 2"),
            }
        }
        _ => panic!("expected a subtraction"),
    }
}

#[test]
fn tighter_operators_bind_first() {
    let e = parse_global_expr(&tokens("1 + 2 * 3 == 7")).unwrap();
    match e {
        Expr::Binary(BinaryOperator::EqualsTo, l, _) => match *l {
            Expr::Binary(BinaryOperator::Plus, _, r) => {
                assert!(matches!(*r, Expr::Binary(BinaryOperator::Multiply, _, _)));
            }
            _ => panic!("expected an addition"),
        },
        _ => panic!("expected a comparison"),
    }
}

#[test]
fn statements_parse_with_separators() {
    let (stmts, term) = parse_stmts(&tokens("let a = 1; a += 2; a;")).unwrap();
    assert_eq!(stmts.len(), 3);
    assert!(term);
    let (stmts, term) = parse_stmts(&tokens("a")).unwrap();
    assert_eq!(stmts.len(), 1);
    assert!(!term);
    assert!(parse_stmts(&tokens("a;;")).is_none());
    assert!(parse_stmts(&tokens("let 1 = 2")).is_none());
}

#[test]
fn script_keeps_variables_and_constants() {
    let engine = Engine::new();
    let mut scope = Scope::new();
    scope.push_constant("k", Dynamic::Int(7));
    scope.push("v", Dynamic::Int(1));
    let r = engine.eval_with_scope::<()>(&mut scope, "v = 2; let w = 3; k = 0");
    assert_eq!(r, Err(EvalAltResult::ErrorAssignmentToConstant(s("k"))));
    assert_eq!(scope.len(), 3);
    assert_eq!(scope.get_value::<i64>("k"), Some(7));
    assert_eq!(scope.get_value::<i64>("v"), Some(2));
    assert_eq!(scope.get_value::<i64>("w"), Some(3));
}

#[test]
fn functions_and_calls_parse() {
    let (stmts, term) = parse_stmts(&tokens("fn add(a, b) { a + b } add(1, 2)")).unwrap();
    assert_eq!(stmts.len(), 2);
    assert!(!term);
    match &stmts[0] {
        Stmt::FnDef(_, _, Params::Cons(_, _, rest), Expr::Binary(BinaryOperator::Plus, _, _)) => {
            assert!(matches!(**rest, Params::Cons(_, _, _)));
        }
        _ => panic!("expected a function definition"),
    }
    match &stmts[1] {
        Stmt::Expr(Expr::FnCall(_, _, args)) => match &**args {
            Args::Cons(first, rest) => {
                assert!(matches!(**first, Expr::IntConst(1)));
                assert!(matches!(**rest, Args::Cons(_, _)));
            }
            Args::Nil => panic!("expected arguments"),
        },
        _ => panic!("expected a call"),
    }
    let (stmts, _) = parse_stmts(&tokens("fn f() { 1 }")).unwrap();
    assert!(matches!(&stmts[0], Stmt::FnDef(_, _, Params::Nil, Expr::IntConst(1))));
    assert!(parse_stmts(&tokens("fn f() { 1 };")).is_none());
    assert!(parse_global_expr(&tokens("f()")).is_some());
    assert!(parse_global_expr(&tokens("f(,)")).is_none());
}

#[test]
fn call_ignores_caller_scope() {
    let engine = Engine::new();
    let script = "fn g(x) { x * 2 } g(n)";
    let mut one = Scope::new();
    one.push("n", Dynamic::Int(4));
    one.push("x", Dynamic::Int(100));
    let mut two = Scope::new();
    two.push("n", Dynamic::Int(4));
    assert_eq!(engine.eval_with_scope::<i64>(&mut one, script).unwrap(), 8);
    assert_eq!(engine.eval_with_scope::<i64>(&mut two, script).unwrap(), 8);
}

#[test]
fn functions_see_only_unhidden_scope_constants() {
    let engine = Engine::new();
    let mut scope = Scope::new();
    scope.push_constant("X", Dynamic::Int(1));
    assert_eq!(engine.eval_with_scope::<i64>(&mut scope, "fn f() { X } f()").unwrap(), 1);
    scope.push_constant("X", Dynamic::Int(3));
    assert_eq!(engine.eval_with_scope::<i64>(&mut scope, "fn f() { X } f()").unwrap(), 3);
    scope.push("X", Dynamic::Int(2));
    assert_eq!(
        engine.eval_with_scope::<i64>(&mut scope, "fn f() { X } f()"),
        Err(EvalAltResult::ErrorVariableNotFound(s("X")))
    );
    assert_eq!(engine.eval_with_scope::<i64>(&mut scope, "fn f(X) { X } f(5)").unwrap(), 5);
}
