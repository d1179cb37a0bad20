//! Functions that can be called by name: the operators, and the
//! functions of the standard library.

use vstd::prelude::*;
use crate::ast::{BinaryOperator, UnaryOperator};
use crate::error::{ArithmeticError, EvalAltResult, EvalError};
use crate::ops::{binary_op, binary_op_exec, same_result, unary_op, unary_op_exec};
use crate::parser::{assign_op_of, binary_op_of};
use crate::text::{chars_of, str_eq};
use crate::token::{operator_at, operator_exec, Token};
use crate::value::{lemma_array_elems, push_elem, Dynamic, Value};

verus! {

/// The models of a list of values.
pub open spec fn values_of(v: Seq<Dynamic>) -> Seq<Value> {
    v.map_values(|d: Dynamic| d@)
}

/// The operator token that a function name spells, if it spells exactly one.
pub open spec fn symbol_of(name: Seq<char>) -> Option<Token> {
    match operator_at(name, 0) {
        Some((t, n)) => if n == name.len() {
            Some(t)
        } else {
            None
        },
        None => None,
    }
}

/// Calls a function of the standard library by its name: `len` of a
/// string (its number of characters) or of an array (its number of
/// elements); `abs` of an integer, which fails on `i64::MIN`; `push` of a
/// value onto an array, which stores the longer array into the first
/// argument and returns `()`. Returns the arguments after the call and the
/// result.
pub open spec fn call_named(name: Seq<char>, args: Seq<Value>) -> (Seq<Value>, Result<Value, EvalError>) {
    let not_found = (args, Err(EvalError::FunctionNotFound(name)));
    if name == "len"@ && args.len() == 1 {
        match args[0] {
            Value::Str(s) => if s.len() <= i64::MAX {
                (args, Ok(Value::Int(s.len() as i64)))
            } else {
                (args, Err(EvalError::Arithmetic(ArithmeticError::Overflow)))
            },
            Value::Array(xs) => if xs.len() <= i64::MAX {
                (args, Ok(Value::Int(xs.len() as i64)))
            } else {
                (args, Err(EvalError::Arithmetic(ArithmeticError::Overflow)))
            },
            _ => not_found,
        }
    } else if name == "push"@ && args.len() == 2 {
        match args[0] {
            Value::Array(xs) => (args.update(0, Value::Array(xs.push(args[1]))), Ok(Value::Unit)),
            _ => not_found,
        }
    } else if name == "abs"@ && args.len() == 1 {
        match args[0] {
            Value::Int(x) => if x == i64::MIN {
                (args, Err(EvalError::Arithmetic(ArithmeticError::Overflow)))
            } else {
                (args, Ok(Value::Int(if x < 0 { (-x) as i64 } else { x })))
            },
            _ => not_found,
        }
    } else {
        not_found
    }
}

fn call_named_exec(name: &str, args: &mut Vec<Dynamic>) -> (r: Result<Dynamic, EvalAltResult>)
    ensures
        final(args)@.len() == old(args)@.len(),
        values_of(final(args)@) == call_named(name@, values_of(old(args)@)).0,
        same_result(r, call_named(name@, values_of(old(args)@)).1),
{
    let not_found = EvalAltResult::ErrorFunctionNotFound(String::from_str(name));
    let is_len = str_eq(name, "len");
    let is_abs = str_eq(name, "abs");
    let is_push = str_eq(name, "push");
    proof {
        reveal_strlit("len");
        reveal_strlit("abs");
        reveal_strlit("push");
    }
    if is_len && args.len() == 1 {
        match &args[0] {
            Dynamic::Str(s) => {
                let n = s.as_str().unicode_len();
                if n as u64 <= i64::MAX as u64 {
                    Ok(Dynamic::Int(n as i64))
                } else {
                    Err(EvalAltResult::ErrorArithmetic(ArithmeticError::Overflow))
                }
            },
            Dynamic::Array(v) => {
                proof {
                    lemma_array_elems(*v);
                }
                let n = v.len();
                if n as u64 <= i64::MAX as u64 {
                    Ok(Dynamic::Int(n as i64))
                } else {
                    Err(EvalAltResult::ErrorArithmetic(ArithmeticError::Overflow))
                }
            },
            _ => Err(not_found),
        }
    } else if is_push && args.len() == 2 {
        let longer = match &args[0] {
            Dynamic::Array(v) => push_elem(v, &args[1]),
            _ => {
                return Err(not_found);
            },
        };
        args.set(0, Dynamic::Array(longer));
        assert(values_of(args@) =~= values_of(old(args)@).update(0, args@[0]@));
        Ok(Dynamic::Unit)
    } else if is_abs && args.len() == 1 {
        match &args[0] {
            Dynamic::Int(x) => if *x == i64::MIN {
                Err(EvalAltResult::ErrorArithmetic(ArithmeticError::Overflow))
            } else if *x < 0 {
                Ok(Dynamic::Int(-*x))
            } else {
                Ok(Dynamic::Int(*x))
            },
            _ => Err(not_found),
        }
    } else {
        Err(not_found)
    }
}

/// Calls the function of that name: a binary operator (not `&&` or `||`,
/// which are no functions) on two arguments; a compound assignment `op=` on
/// two arguments, which stores into the first and returns `()`; `-` or `!`
/// on one argument. Returns the arguments after the call and the result.
pub open spec fn call_native(name: Seq<char>, args: Seq<Value>) -> (Seq<Value>, Result<Value, EvalError>) {
    let not_found = (args, Err(EvalError::FunctionNotFound(name)));
    match symbol_of(name) {
        None => call_named(name, args),
        Some(tok) => if args.len() == 2 {
            match binary_op_of(tok) {
                Some(op) => if op == BinaryOperator::And || op == BinaryOperator::Or {
                    not_found
                } else {
                    (args, binary_op(op, args[0], args[1]))
                },
                None => match assign_op_of(tok) {
                    Some(Some(op)) => match binary_op(op, args[0], args[1]) {
                        Ok(v) => (args.update(0, v), Ok(Value::Unit)),
                        Err(e) => (args, Err(e)),
                    },
                    _ => not_found,
                },
            }
        } else if args.len() == 1 {
            if tok == Token::Minus {
                (args, unary_op(UnaryOperator::Negate, args[0]))
            } else if tok == Token::Bang {
                (args, unary_op(UnaryOperator::Not, args[0]))
            } else {
                not_found
            }
        } else {
            not_found
        },
    }
}

fn symbol_exec(name: &str) -> (r: Option<Token>)
    ensures
        r == symbol_of(name@),
{
    let cs = chars_of(name);
    if cs.len() == 0 {
        return None;
    }
    match operator_exec(&cs, 0) {
        Some((t, n)) => if n == cs.len() {
            Some(t)
        } else {
            None
        },
        None => None,
    }
}

/// Calls the function of that name on the arguments, as `call_native` says.
pub fn call_native_exec(name: &str, args: &mut Vec<Dynamic>) -> (r: Result<Dynamic, EvalAltResult>)
    ensures
        final(args)@.len() == old(args)@.len(),
        values_of(final(args)@) == call_native(name@, values_of(old(args)@)).0,
        same_result(r, call_native(name@, values_of(old(args)@)).1),
{
    let not_found = EvalAltResult::ErrorFunctionNotFound(String::from_str(name));
    let n = args.len();
    match symbol_exec(name) {
        None => call_named_exec(name, args),
        Some(tok) => {
            if n == 2 {
                match crate::parser::binary_op_exec(tok) {
                    Some(op) => {
                        if op == BinaryOperator::And || op == BinaryOperator::Or {
                            Err(not_found)
                        } else {
                            binary_op_exec(op, &args[0], &args[1])
                        }
                    },
                    None => match crate::parser::assign_op_exec(tok) {
                        Some(Some(op)) => match binary_op_exec(op, &args[0], &args[1]) {
                            Ok(v) => {
                                args.set(0, v);
                                assert(values_of(args@) =~= values_of(old(args)@).update(0, args@[0]@));
                                Ok(Dynamic::Unit)
                            },
                            Err(e) => Err(e),
                        },
                        _ => Err(not_found),
                    },
                }
            } else if n == 1 {
                if tok == Token::Minus {
                    unary_op_exec(UnaryOperator::Negate, &args[0])
                } else if tok == Token::Bang {
                    unary_op_exec(UnaryOperator::Not, &args[0])
                } else {
                    Err(not_found)
                }
            } else {
                Err(not_found)
            }
        },
    }
}

} // verus!
