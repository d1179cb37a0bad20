//! Operators on values, and the functions that can be called by name.

use vstd::prelude::*;
use crate::ast::{BinaryOperator, UnaryOperator};
use crate::error::{ArithmeticError, EvalAltResult, EvalError};
use crate::text::{chars_less, int_chars, int_string, str_less};
use crate::value::{concat_elems, Dynamic, Value};

verus! {

/// Whether an exec result is the result that a spec gives.
pub open spec fn same_result(r: Result<Dynamic, EvalAltResult>, s: Result<Value, EvalError>) -> bool {
    match r {
        Ok(v) => s == Ok::<Value, EvalError>(v@),
        Err(e) => s == Err::<Value, EvalError>(e@),
    }
}

/// The name under which a binary operator is called as a function.
pub open spec fn binary_op_name(op: BinaryOperator) -> Seq<char> {
    match op {
        BinaryOperator::Plus => "+"@,
        BinaryOperator::Minus => "-"@,
        BinaryOperator::Multiply => "*"@,
        BinaryOperator::Divide => "/"@,
        BinaryOperator::Modulo => "%"@,
        BinaryOperator::EqualsTo => "=="@,
        BinaryOperator::NotEqualsTo => "!="@,
        BinaryOperator::LessThan => "<"@,
        BinaryOperator::LessThanEqualsTo => "<="@,
        BinaryOperator::GreaterThan => ">"@,
        BinaryOperator::GreaterThanEqualsTo => ">="@,
        BinaryOperator::And => "&&"@,
        BinaryOperator::Or => "||"@,
    }
}

/// The name under which a unary operator is called as a function.
pub open spec fn unary_op_name(op: UnaryOperator) -> Seq<char> {
    match op {
        UnaryOperator::Negate => "-"@,
        UnaryOperator::Not => "!"@,
    }
}

pub open spec fn not_found(op: BinaryOperator) -> Result<Value, EvalError> {
    Err(EvalError::FunctionNotFound(binary_op_name(op)))
}

/// A binary operator on two integers: arithmetic that fails on overflow and
/// on division by zero, and comparisons.
pub open spec fn int_binary_op(op: BinaryOperator, a: i64, b: i64) -> Result<Value, EvalError> {
    let overflow = Err(EvalError::Arithmetic(ArithmeticError::Overflow));
    let by_zero = Err(EvalError::Arithmetic(ArithmeticError::DivisionByZero));
    match op {
        BinaryOperator::Plus => match a.checked_add(b) {
            Some(r) => Ok(Value::Int(r)),
            None => overflow,
        },
        BinaryOperator::Minus => match a.checked_sub(b) {
            Some(r) => Ok(Value::Int(r)),
            None => overflow,
        },
        BinaryOperator::Multiply => match a.checked_mul(b) {
            Some(r) => Ok(Value::Int(r)),
            None => overflow,
        },
        BinaryOperator::Divide => if b == 0 {
            by_zero
        } else {
            match a.checked_div(b) {
                Some(r) => Ok(Value::Int(r)),
                None => overflow,
            }
        },
        BinaryOperator::Modulo => if b == 0 {
            by_zero
        } else {
            match a.checked_rem(b) {
                Some(r) => Ok(Value::Int(r)),
                None => overflow,
            }
        },
        BinaryOperator::EqualsTo => Ok(Value::Bool(a == b)),
        BinaryOperator::NotEqualsTo => Ok(Value::Bool(a != b)),
        BinaryOperator::LessThan => Ok(Value::Bool(a < b)),
        BinaryOperator::LessThanEqualsTo => Ok(Value::Bool(a <= b)),
        BinaryOperator::GreaterThan => Ok(Value::Bool(a > b)),
        BinaryOperator::GreaterThanEqualsTo => Ok(Value::Bool(a >= b)),
        _ => not_found(op),
    }
}

/// A binary operator on two values. Integers take all of them but `&&`
/// and `||`; strings are joined by `+` and compared by their characters,
/// and `+` joins a string and the text of any other value;
/// arrays are joined by `+` and compared for equality, element by element;
/// booleans and `()` are compared for equality. Values of two different
/// types are never equal, and never less or greater than each other; no
/// other operator takes them.
pub open spec fn binary_op(op: BinaryOperator, a: Value, b: Value) -> Result<Value, EvalError> {
    match (a, b) {
        (Value::Int(x), Value::Int(y)) => int_binary_op(op, x, y),
        (Value::Bool(x), Value::Bool(y)) => match op {
            BinaryOperator::EqualsTo => Ok(Value::Bool(x == y)),
            BinaryOperator::NotEqualsTo => Ok(Value::Bool(x != y)),
            _ => not_found(op),
        },
        (Value::Str(x), Value::Str(y)) => match op {
            BinaryOperator::Plus => Ok(Value::Str(x + y)),
            BinaryOperator::EqualsTo => Ok(Value::Bool(x == y)),
            BinaryOperator::NotEqualsTo => Ok(Value::Bool(x != y)),
            BinaryOperator::LessThan => Ok(Value::Bool(chars_less(x, y))),
            BinaryOperator::LessThanEqualsTo => Ok(Value::Bool(chars_less(x, y) || x == y)),
            BinaryOperator::GreaterThan => Ok(Value::Bool(chars_less(y, x))),
            BinaryOperator::GreaterThanEqualsTo => Ok(Value::Bool(chars_less(y, x) || x == y)),
            _ => not_found(op),
        },
        (Value::Array(x), Value::Array(y)) => match op {
            BinaryOperator::Plus => Ok(Value::Array(x + y)),
            BinaryOperator::EqualsTo => Ok(Value::Bool(x == y)),
            BinaryOperator::NotEqualsTo => Ok(Value::Bool(x != y)),
            _ => not_found(op),
        },
        (Value::Unit, Value::Unit) => match op {
            BinaryOperator::EqualsTo => Ok(Value::Bool(true)),
            BinaryOperator::NotEqualsTo => Ok(Value::Bool(false)),
            _ => not_found(op),
        },
        _ => match op {
            BinaryOperator::Plus => match (a, b) {
                (Value::Str(x), _) => match value_text(b) {
                    Some(u) => Ok(Value::Str(x + u)),
                    None => not_found(op),
                },
                (_, Value::Str(y)) => match value_text(a) {
                    Some(u) => Ok(Value::Str(u + y)),
                    None => not_found(op),
                },
                _ => not_found(op),
            },
            BinaryOperator::EqualsTo | BinaryOperator::LessThan | BinaryOperator::LessThanEqualsTo
            | BinaryOperator::GreaterThan | BinaryOperator::GreaterThanEqualsTo => Ok(Value::Bool(false)),
            BinaryOperator::NotEqualsTo => Ok(Value::Bool(true)),
            _ => not_found(op),
        },
    }
}

/// The text that a value adds when it is joined to a string with `+`:
/// the decimal digits of an integer, `true` or `false`, nothing for `()`.
pub open spec fn value_text(v: Value) -> Option<Seq<char>> {
    match v {
        Value::Int(n) => Some(int_chars(n as int)),
        Value::Bool(b) => Some(if b { "true"@ } else { "false"@ }),
        Value::Unit => Some(Seq::empty()),
        Value::Str(s) => Some(s),
        Value::Array(_) => None,
    }
}

/// The text of a value, as `value_text` says.
pub fn value_text_exec(v: &Dynamic) -> (r: Option<String>)
    ensures
        match value_text(v@) {
            Some(u) => r matches Some(s) && s@ == u,
            None => r is None,
        },
{
    match v {
        Dynamic::Int(n) => Some(int_string(*n)),
        Dynamic::Bool(b) => Some(if *b { String::from_str("true") } else { String::from_str("false") }),
        Dynamic::Unit => Some(String::new()),
        Dynamic::Str(s) => Some(s.clone()),
        Dynamic::Array(_) => None,
    }
}

/// A unary operator on a value.
pub open spec fn unary_op(op: UnaryOperator, v: Value) -> Result<Value, EvalError> {
    match (op, v) {
        (UnaryOperator::Negate, Value::Int(x)) => if x == i64::MIN {
            Err(EvalError::Arithmetic(ArithmeticError::Overflow))
        } else {
            Ok(Value::Int((-x) as i64))
        },
        (UnaryOperator::Not, Value::Bool(b)) => Ok(Value::Bool(!b)),
        _ => Err(EvalError::FunctionNotFound(unary_op_name(op))),
    }
}

pub fn binary_op_name_exec(op: BinaryOperator) -> (s: String)
    ensures
        s@ == binary_op_name(op),
{
    match op {
        BinaryOperator::Plus => String::from_str("+"),
        BinaryOperator::Minus => String::from_str("-"),
        BinaryOperator::Multiply => String::from_str("*"),
        BinaryOperator::Divide => String::from_str("/"),
        BinaryOperator::Modulo => String::from_str("%"),
        BinaryOperator::EqualsTo => String::from_str("=="),
        BinaryOperator::NotEqualsTo => String::from_str("!="),
        BinaryOperator::LessThan => String::from_str("<"),
        BinaryOperator::LessThanEqualsTo => String::from_str("<="),
        BinaryOperator::GreaterThan => String::from_str(">"),
        BinaryOperator::GreaterThanEqualsTo => String::from_str(">="),
        BinaryOperator::And => String::from_str("&&"),
        BinaryOperator::Or => String::from_str("||"),
    }
}

fn not_found_exec(op: BinaryOperator) -> (r: Result<Dynamic, EvalAltResult>)
    ensures
        same_result(r, not_found(op)),
{
    Err(EvalAltResult::ErrorFunctionNotFound(binary_op_name_exec(op)))
}

fn int_binary_op_exec(op: BinaryOperator, a: i64, b: i64) -> (r: Result<Dynamic, EvalAltResult>)
    ensures
        same_result(r, int_binary_op(op, a, b)),
{
    let overflow = EvalAltResult::ErrorArithmetic(ArithmeticError::Overflow);
    let by_zero = EvalAltResult::ErrorArithmetic(ArithmeticError::DivisionByZero);
    match op {
        BinaryOperator::Plus => match a.checked_add(b) {
            Some(r) => Ok(Dynamic::Int(r)),
            None => Err(overflow),
        },
        BinaryOperator::Minus => match a.checked_sub(b) {
            Some(r) => Ok(Dynamic::Int(r)),
            None => Err(overflow),
        },
        BinaryOperator::Multiply => match a.checked_mul(b) {
            Some(r) => Ok(Dynamic::Int(r)),
            None => Err(overflow),
        },
        BinaryOperator::Divide => if b == 0 {
            Err(by_zero)
        } else {
            match a.checked_div(b) {
                Some(r) => Ok(Dynamic::Int(r)),
                None => Err(overflow),
            }
        },
        BinaryOperator::Modulo => if b == 0 {
            Err(by_zero)
        } else {
            match a.checked_rem(b) {
                Some(r) => Ok(Dynamic::Int(r)),
                None => Err(overflow),
            }
        },
        BinaryOperator::EqualsTo => Ok(Dynamic::Bool(a == b)),
        BinaryOperator::NotEqualsTo => Ok(Dynamic::Bool(a != b)),
        BinaryOperator::LessThan => Ok(Dynamic::Bool(a < b)),
        BinaryOperator::LessThanEqualsTo => Ok(Dynamic::Bool(a <= b)),
        BinaryOperator::GreaterThan => Ok(Dynamic::Bool(a > b)),
        BinaryOperator::GreaterThanEqualsTo => Ok(Dynamic::Bool(a >= b)),
        _ => not_found_exec(op),
    }
}

/// Applies a binary operator to two values, as `binary_op` says.
pub fn binary_op_exec(op: BinaryOperator, a: &Dynamic, b: &Dynamic) -> (r: Result<Dynamic, EvalAltResult>)
    ensures
        same_result(r, binary_op(op, a@, b@)),
{
    match (a, b) {
        (Dynamic::Int(x), Dynamic::Int(y)) => int_binary_op_exec(op, *x, *y),
        (Dynamic::Bool(x), Dynamic::Bool(y)) => match op {
            BinaryOperator::EqualsTo => Ok(Dynamic::Bool(*x == *y)),
            BinaryOperator::NotEqualsTo => Ok(Dynamic::Bool(*x != *y)),
            _ => not_found_exec(op),
        },
        (Dynamic::Str(x), Dynamic::Str(y)) => match op {
            BinaryOperator::Plus => Ok(Dynamic::Str(x.clone().concat(y.as_str()))),
            BinaryOperator::EqualsTo => Ok(Dynamic::Bool(*x == *y)),
            BinaryOperator::NotEqualsTo => Ok(Dynamic::Bool(!(*x == *y))),
            BinaryOperator::LessThan => Ok(Dynamic::Bool(str_less(x.as_str(), y.as_str()))),
            BinaryOperator::LessThanEqualsTo => Ok(Dynamic::Bool(str_less(x.as_str(), y.as_str()) || *x == *y)),
            BinaryOperator::GreaterThan => Ok(Dynamic::Bool(str_less(y.as_str(), x.as_str()))),
            BinaryOperator::GreaterThanEqualsTo => Ok(Dynamic::Bool(str_less(y.as_str(), x.as_str()) || *x == *y)),
            _ => not_found_exec(op),
        },
        (Dynamic::Array(x), Dynamic::Array(y)) => match op {
            BinaryOperator::Plus => Ok(Dynamic::Array(concat_elems(x, y))),
            BinaryOperator::EqualsTo => Ok(Dynamic::Bool(a.equals(b))),
            BinaryOperator::NotEqualsTo => Ok(Dynamic::Bool(!a.equals(b))),
            _ => not_found_exec(op),
        },
        (Dynamic::Unit, Dynamic::Unit) => match op {
            BinaryOperator::EqualsTo => Ok(Dynamic::Bool(true)),
            BinaryOperator::NotEqualsTo => Ok(Dynamic::Bool(false)),
            _ => not_found_exec(op),
        },
        _ => match op {
            BinaryOperator::Plus => match (a, b) {
                (Dynamic::Str(x), _) => match value_text_exec(b) {
                    Some(u) => Ok(Dynamic::Str(x.clone().concat(u.as_str()))),
                    None => not_found_exec(op),
                },
                (_, Dynamic::Str(y)) => match value_text_exec(a) {
                    Some(u) => Ok(Dynamic::Str(u.concat(y.as_str()))),
                    None => not_found_exec(op),
                },
                _ => not_found_exec(op),
            },
            BinaryOperator::EqualsTo | BinaryOperator::LessThan | BinaryOperator::LessThanEqualsTo
            | BinaryOperator::GreaterThan | BinaryOperator::GreaterThanEqualsTo => Ok(Dynamic::Bool(false)),
            BinaryOperator::NotEqualsTo => Ok(Dynamic::Bool(true)),
            _ => not_found_exec(op),
        },
    }
}

/// Applies a unary operator to a value, as `unary_op` says.
pub fn unary_op_exec(op: UnaryOperator, v: &Dynamic) -> (r: Result<Dynamic, EvalAltResult>)
    ensures
        same_result(r, unary_op(op, v@)),
{
    match (op, v) {
        (UnaryOperator::Negate, Dynamic::Int(x)) => if *x == i64::MIN {
            Err(EvalAltResult::ErrorArithmetic(ArithmeticError::Overflow))
        } else {
            Ok(Dynamic::Int(-*x))
        },
        (UnaryOperator::Not, Dynamic::Bool(b)) => Ok(Dynamic::Bool(!*b)),
        (UnaryOperator::Negate, _) => Err(EvalAltResult::ErrorFunctionNotFound(String::from_str("-"))),
        (UnaryOperator::Not, _) => Err(EvalAltResult::ErrorFunctionNotFound(String::from_str("!"))),
    }
}

} // verus!
