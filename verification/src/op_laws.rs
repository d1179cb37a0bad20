//! What the operators and the standard functions compute, stated in terms
//! of integers, sequences and decimal notation.

use vstd::prelude::*;
use crate::ast::{BinaryOperator, UnaryOperator};
use crate::error::{ArithmeticError, EvalError};
use crate::func::call_native;
use crate::ops::{binary_op, binary_op_name, unary_op, unary_op_name, value_text};
use crate::text::{chars_less, digit_char, int_chars, nat_chars};
use crate::value::Value;

verus! {

/// The number that a character stands for as a decimal digit.
pub open spec fn digit_value(c: char) -> int {
    (c as u32) as int - 48
}

/// Whether every character is one of `0` to `9`.
pub open spec fn all_digits(s: Seq<char>) -> bool {
    forall|k: int| 0 <= k < s.len() ==> 0 <= #[trigger] digit_value(s[k]) <= 9
}

/// The number that a sequence of decimal digits denotes, the most
/// significant first.
pub open spec fn decimal_value(s: Seq<char>) -> int
    decreases s.len(),
{
    if s.len() == 0 {
        0
    } else {
        decimal_value(s.drop_last()) * 10 + digit_value(s.last())
    }
}

/// Whether a text is the decimal notation of `n`: digits without a leading
/// zero, after a `-` where `n` is negative.
pub open spec fn is_decimal_of(t: Seq<char>, n: int) -> bool {
    let digits = if n < 0 { t.drop_first() } else { t };
    &&& (n < 0 ==> t.len() > 0 && t[0] == '-')
    &&& digits.len() > 0
    &&& all_digits(digits)
    &&& (digits.len() > 1 ==> digits[0] != '0')
    &&& decimal_value(digits) == if n < 0 { -n } else { n }
}

proof fn lemma_digit_char(d: int)
    requires
        0 <= d <= 9,
    ensures
        digit_value(digit_char(d)) == d,
        d != 0 ==> digit_char(d) != '0',
{
}

proof fn lemma_nat_chars(m: nat)
    ensures
        nat_chars(m).len() > 0,
        all_digits(nat_chars(m)),
        nat_chars(m).len() > 1 ==> nat_chars(m)[0] != '0',
        m >= 10 ==> nat_chars(m).len() > 1,
        decimal_value(nat_chars(m)) == m,
    decreases m,
{
    let s = nat_chars(m);
    if m < 10 {
        lemma_digit_char(m as int);
        assert(s.drop_last() =~= Seq::<char>::empty());
        assert(decimal_value(s.drop_last()) == 0);
        assert(s.len() == 1);
    } else {
        let hi = nat_chars(m / 10);
        lemma_nat_chars(m / 10);
        lemma_digit_char((m % 10) as int);
        assert(s.drop_last() =~= hi);
        assert(s.last() == digit_char((m % 10) as int));
        assert forall|k: int| 0 <= k < s.len() implies 0 <= #[trigger] digit_value(s[k]) <= 9 by {
            if k < hi.len() {
                assert(s[k] == hi[k]);
            }
        }
        assert(s[0] == hi[0]);
        if m / 10 < 10 {
            assert(m / 10 != 0);
            lemma_digit_char((m / 10) as int);
            assert(hi == seq![digit_char((m / 10) as int)]);
        }
        assert(m == (m / 10) * 10 + m % 10);
        assert(decimal_value(s) == decimal_value(hi) * 10 + digit_value(s.last()));
    }
}

/// The text that an integer adds to a string is its decimal notation.
pub proof fn law_integer_text_is_decimal(n: i64)
    ensures
        value_text(Value::Int(n)) matches Some(t) && is_decimal_of(t, n as int),
{
    let t = int_chars(n as int);
    if n < 0 {
        lemma_nat_chars((-n) as nat);
        assert(t.drop_first() =~= nat_chars((-n) as nat));
    } else {
        lemma_nat_chars(n as nat);
    }
}

/// `+` of a string and an integer keeps the string's characters first and
/// appends the decimal notation of the integer; with the integer first, the
/// notation comes first.
pub proof fn law_string_plus_integer(x: Seq<char>, n: i64)
    ensures
        binary_op(BinaryOperator::Plus, Value::Str(x), Value::Int(n)) matches Ok(Value::Str(r)) && r.take(
            x.len() as int,
        ) == x && is_decimal_of(r.skip(x.len() as int), n as int),
        binary_op(BinaryOperator::Plus, Value::Int(n), Value::Str(x)) matches Ok(Value::Str(r)) && r.skip(
            r.len() - x.len(),
        ) == x && r.len() >= x.len() && is_decimal_of(r.take(r.len() - x.len()), n as int),
{
    law_integer_text_is_decimal(n);
    let t = int_chars(n as int);
    assert((x + t).take(x.len() as int) =~= x);
    assert((x + t).skip(x.len() as int) =~= t);
    assert((t + x).skip(t.len() as int) =~= x);
    assert((t + x).take(t.len() as int) =~= t);
}

/// `+`, `-` and `*` on integers compute the sum, difference and product,
/// and fail with an overflow exactly where it does not fit in an `i64`.
pub proof fn law_integer_arithmetic(a: i64, b: i64)
    ensures
        binary_op(BinaryOperator::Plus, Value::Int(a), Value::Int(b)) == if i64::MIN <= a + b <= i64::MAX {
            Ok(Value::Int((a + b) as i64))
        } else {
            Err(EvalError::Arithmetic(ArithmeticError::Overflow))
        },
        binary_op(BinaryOperator::Minus, Value::Int(a), Value::Int(b)) == if i64::MIN <= a - b <= i64::MAX {
            Ok(Value::Int((a - b) as i64))
        } else {
            Err(EvalError::Arithmetic(ArithmeticError::Overflow))
        },
        binary_op(BinaryOperator::Multiply, Value::Int(a), Value::Int(b)) == if i64::MIN <= a * b <= i64::MAX {
            Ok(Value::Int((a * b) as i64))
        } else {
            Err(EvalError::Arithmetic(ArithmeticError::Overflow))
        },
{
}

/// `/` and `%` on integers: division by zero fails; otherwise, but for the
/// one quotient that overflows, the quotient rounds toward zero and the
/// remainder has the sign of the dividend and is smaller than the divisor.
pub proof fn law_integer_division(a: i64, b: i64)
    ensures
        b == 0 ==> binary_op(BinaryOperator::Divide, Value::Int(a), Value::Int(b)) == Err::<Value, EvalError>(
            EvalError::Arithmetic(ArithmeticError::DivisionByZero),
        ),
        b == 0 ==> binary_op(BinaryOperator::Modulo, Value::Int(a), Value::Int(b)) == Err::<Value, EvalError>(
            EvalError::Arithmetic(ArithmeticError::DivisionByZero),
        ),
        b != 0 && !(a == i64::MIN && b == -1) ==> (binary_op(BinaryOperator::Divide, Value::Int(a), Value::Int(b)) matches Ok(
            Value::Int(q),
        ) && binary_op(BinaryOperator::Modulo, Value::Int(a), Value::Int(b)) matches Ok(Value::Int(r)) && a == q * b + r
            && (if r < 0 { -r } else { r as int }) < (if b < 0 { -b } else { b as int }) && (r == 0 || (r < 0) == (a < 0))),
        a == i64::MIN && b == -1 ==> binary_op(BinaryOperator::Divide, Value::Int(a), Value::Int(b)) == Err::<
            Value,
            EvalError,
        >(EvalError::Arithmetic(ArithmeticError::Overflow)),
{
    let x = a as int;
    let d = b as int;
    if b != 0 && !(a == i64::MIN && b == -1) && x != 0 {
        if x > 0 && d > 0 {
            lemma_div_pos(x, d);
            assert(a.checked_div(b) == Some((x / d) as i64));
            assert(a.checked_rem(b) == Some((x % d) as i64));
        } else if x < 0 && d < 0 {
            lemma_div_pos(-x, -d);
            let q = (-x) / (-d);
            let r = (-x) % (-d);
            assert(x == q * d + (-r)) by (nonlinear_arith)
                requires
                    -x == q * (-d) + r,
            ;
            assert(q <= -x) by (nonlinear_arith)
                requires
                    -x == q * (-d) + r,
                    -d >= 1,
                    r >= 0,
                    q >= 0,
            ;
            if d == -1 {
                assert(q == -x);
            } else {
                assert(q * 2 <= -x) by (nonlinear_arith)
                    requires
                        -x == q * (-d) + r,
                        -d >= 2,
                        r >= 0,
                        q >= 0,
                ;
            }
            assert(a.checked_div(b) == Some(q as i64));
            assert(a.checked_rem(b) == Some((r * -1) as i64));
        } else if x < 0 {
            lemma_div_pos(-x, d);
            let q = (-x) / d;
            let r = (-x) % d;
            assert(x == (q * -1) * d + (r * -1)) by (nonlinear_arith)
                requires
                    -x == q * d + r,
            ;
            assert(a.checked_div(b) == Some((q * -1) as i64));
            assert(a.checked_rem(b) == Some((r * -1) as i64));
        } else {
            lemma_div_pos(x, -d);
            let q = x / (-d);
            let r = x % (-d);
            assert(x == (q * -1) * d + r) by (nonlinear_arith)
                requires
                    x == q * (-d) + r,
            ;
            assert(q <= x) by (nonlinear_arith)
                requires
                    x == q * (-d) + r,
                    -d >= 1,
                    r >= 0,
                    q >= 0,
            ;
            assert(a.checked_div(b) == Some((q * -1) as i64));
            assert(a.checked_rem(b) == Some(r as i64));
        }
    }
}

proof fn lemma_div_pos(x: int, d: int)
    requires
        x > 0,
        d > 0,
    ensures
        x == (x / d) * d + x % d,
        0 <= x % d < d,
        0 <= x / d <= x,
{
    vstd::arithmetic::div_mod::lemma_fundamental_div_mod(x, d);
    vstd::arithmetic::div_mod::lemma_mod_pos_bound(x, d);
    vstd::arithmetic::div_mod::lemma_div_pos_is_pos(x, d);
    vstd::arithmetic::div_mod::lemma_div_is_ordered_by_denominator(x, 1, d);
    vstd::arithmetic::div_mod::lemma_div_basics(x);
    assert(x == d * (x / d) + x % d);
    assert(d * (x / d) == (x / d) * d) by (nonlinear_arith);
}

/// The comparisons of two integers are those of the numbers.
pub proof fn law_integer_comparisons(a: i64, b: i64)
    ensures
        binary_op(BinaryOperator::EqualsTo, Value::Int(a), Value::Int(b)) == Ok::<Value, EvalError>(Value::Bool(a == b)),
        binary_op(BinaryOperator::NotEqualsTo, Value::Int(a), Value::Int(b)) == Ok::<Value, EvalError>(Value::Bool(a != b)),
        binary_op(BinaryOperator::LessThan, Value::Int(a), Value::Int(b)) == Ok::<Value, EvalError>(Value::Bool(a < b)),
        binary_op(BinaryOperator::LessThanEqualsTo, Value::Int(a), Value::Int(b)) == Ok::<Value, EvalError>(
            Value::Bool(a <= b),
        ),
        binary_op(BinaryOperator::GreaterThan, Value::Int(a), Value::Int(b)) == Ok::<Value, EvalError>(Value::Bool(a > b)),
        binary_op(BinaryOperator::GreaterThanEqualsTo, Value::Int(a), Value::Int(b)) == Ok::<Value, EvalError>(
            Value::Bool(a >= b),
        ),
{
}

/// The comparisons agree with one another on any two values that can be
/// ordered: `<=` is `<` or `==`, `>` is `<` with the operands swapped,
/// `>=` is `>` or `==`, `!=` is not `==`; and a value is never less than
/// itself but always at most itself.
pub proof fn law_comparisons_agree(v: Value, w: Value)
    ensures
        binary_op(BinaryOperator::LessThan, v, w) matches Ok(Value::Bool(lt)) ==> {
            &&& binary_op(BinaryOperator::EqualsTo, v, w) matches Ok(Value::Bool(eq))
            &&& binary_op(BinaryOperator::LessThanEqualsTo, v, w) == Ok::<Value, EvalError>(Value::Bool(lt || eq))
            &&& binary_op(BinaryOperator::GreaterThan, w, v) == Ok::<Value, EvalError>(Value::Bool(lt))
            &&& binary_op(BinaryOperator::GreaterThanEqualsTo, w, v) == Ok::<Value, EvalError>(Value::Bool(lt || eq))
        },
        binary_op(BinaryOperator::EqualsTo, v, w) matches Ok(Value::Bool(eq)) ==> binary_op(
            BinaryOperator::NotEqualsTo,
            v,
            w,
        ) == Ok::<Value, EvalError>(Value::Bool(!eq)),
        binary_op(BinaryOperator::LessThan, v, v) matches Ok(Value::Bool(lt)) ==> !lt && binary_op(
            BinaryOperator::LessThanEqualsTo,
            v,
            v,
        ) == Ok::<Value, EvalError>(Value::Bool(true)),
{
    if let (Value::Str(x), Value::Str(y)) = (v, w) {
        lemma_chars_less_irreflexive(x);
    }
    if let Value::Str(x) = v {
        lemma_chars_less_irreflexive(x);
    }
}

proof fn lemma_chars_less_irreflexive(x: Seq<char>)
    ensures
        !crate::text::chars_less(x, x),
    decreases x.len(),
{
    if x.len() > 0 {
        lemma_chars_less_irreflexive(x.drop_first());
    }
}

/// `+` of two strings keeps the first one's characters first, then the
/// second's; so does `+` of two arrays with their elements.
pub proof fn law_joining_keeps_order(x: Seq<char>, y: Seq<char>, xs: Seq<Value>, ys: Seq<Value>)
    ensures
        binary_op(BinaryOperator::Plus, Value::Str(x), Value::Str(y)) matches Ok(Value::Str(r)) && r.len() == x.len()
            + y.len() && r.take(x.len() as int) == x && r.skip(x.len() as int) == y,
        binary_op(BinaryOperator::Plus, Value::Array(xs), Value::Array(ys)) matches Ok(Value::Array(r)) && r.len()
            == xs.len() + ys.len() && r.take(xs.len() as int) == xs && r.skip(xs.len() as int) == ys,
{
    assert((x + y).take(x.len() as int) =~= x);
    assert((x + y).skip(x.len() as int) =~= y);
    assert((xs + ys).take(xs.len() as int) =~= xs);
    assert((xs + ys).skip(xs.len() as int) =~= ys);
}

/// `-` negates an integer (failing on `i64::MIN`, whose negation does not
/// fit) and `!` negates a boolean.
pub proof fn law_unary_operators(n: i64, b: bool)
    ensures
        unary_op(UnaryOperator::Negate, Value::Int(n)) == if n == i64::MIN {
            Err(EvalError::Arithmetic(ArithmeticError::Overflow))
        } else {
            Ok::<Value, EvalError>(Value::Int((-n) as i64))
        },
        unary_op(UnaryOperator::Negate, Value::Int(n)) matches Ok(Value::Int(m)) ==> m + n == 0,
        unary_op(UnaryOperator::Not, Value::Bool(b)) == Ok::<Value, EvalError>(Value::Bool(!b)),
{
}

/// The standard functions: `len` counts the characters of a string or the
/// elements of an array; `abs` gives the magnitude of an integer (failing
/// on `i64::MIN`); `push` stores into its first argument the array with the
/// second argument added at its end, and returns `()`.
pub proof fn law_standard_functions(s: Seq<char>, xs: Seq<Value>, n: i64, v: Value)
    requires
        s.len() <= i64::MAX,
        xs.len() <= i64::MAX,
    ensures
        call_native("len"@, seq![Value::Str(s)]) == (seq![Value::Str(s)], Ok::<Value, EvalError>(Value::Int(s.len() as i64))),
        call_native("len"@, seq![Value::Array(xs)]) == (
            seq![Value::Array(xs)],
            Ok::<Value, EvalError>(Value::Int(xs.len() as i64)),
        ),
        n != i64::MIN ==> (call_native("abs"@, seq![Value::Int(n)]) matches (_, Ok(Value::Int(m))) && m >= 0 && (m
            == n || m + n == 0)),
        call_native("push"@, seq![Value::Array(xs), v]).1 == Ok::<Value, EvalError>(Value::Unit),
        call_native("push"@, seq![Value::Array(xs), v]).0.len() == 2,
        call_native("push"@, seq![Value::Array(xs), v]).0[1] == v,
        call_native("push"@, seq![Value::Array(xs), v]).0[0] is Array,
        call_native("push"@, seq![Value::Array(xs), v]).0[0]->Array_0.len() == xs.len() + 1,
        call_native("push"@, seq![Value::Array(xs), v]).0[0]->Array_0.take(xs.len() as int) == xs,
        call_native("push"@, seq![Value::Array(xs), v]).0[0]->Array_0[xs.len() as int] == v,
{
    reveal_strlit("len");
    reveal_strlit("abs");
    reveal_strlit("push");
    assert(xs.push(v).take(xs.len() as int) =~= xs);
}

/// `<` on strings is the lexicographic order of their characters: a proper
/// prefix comes first; otherwise the first position where they differ
/// decides, by the characters' code points; and of two strings exactly one
/// of `x < y`, `x == y`, `y < x` holds.
pub proof fn law_string_order(x: Seq<char>, y: Seq<char>)
    ensures
        x.len() < y.len() && y.take(x.len() as int) == x ==> chars_less(x, y),
        forall|k: int|
            0 <= k < x.len() && k < y.len() && x.take(k) == y.take(k) && x[k] != y[k] ==> (chars_less(x, y) <==> (
            #[trigger] x[k]) < y[k]),
        (chars_less(x, y) as int) + ((x == y) as int) + (chars_less(y, x) as int) == 1,
        binary_op(BinaryOperator::LessThan, Value::Str(x), Value::Str(y)) == Ok::<Value, EvalError>(
            Value::Bool(chars_less(x, y)),
        ),
    decreases x.len(),
{
    if x.len() > 0 && y.len() > 0 {
        law_string_order(x.drop_first(), y.drop_first());
        if x.len() < y.len() && y.take(x.len() as int) == x {
            assert(y.drop_first().take(x.len() - 1) =~= x.drop_first());
        }
        assert forall|k: int|
            0 <= k < x.len() && k < y.len() && x.take(k) == y.take(k) && x[k] != y[k] implies (chars_less(x, y) <==> (
            #[trigger] x[k]) < y[k]) by {
            if k > 0 {
                assert(x.take(k)[0] == y.take(k)[0]);
                assert(x.drop_first().take(k - 1) =~= x.take(k).drop_first());
                assert(y.drop_first().take(k - 1) =~= y.take(k).drop_first());
                assert(x.drop_first()[k - 1] == x[k]);
                assert(y.drop_first()[k - 1] == y[k]);
            }
        }
        if x[0] == y[0] && x.drop_first() == y.drop_first() {
            assert(x.len() == y.len());
            assert forall|i: int| 0 <= i < x.len() implies x[i] == y[i] by {
                if i > 0 {
                    assert(x[i] == x.drop_first()[i - 1]);
                    assert(y[i] == y.drop_first()[i - 1]);
                }
            }
            assert(x =~= y);
        }
    } else if x.len() == 0 && y.len() == 0 {
        assert(x =~= y);
    }
}

/// The operators called by their names compute what they compute in an
/// expression and leave the arguments as they were; `&&` and `||` are no
/// functions.
pub proof fn law_operators_by_name(op: BinaryOperator, uop: UnaryOperator, a: Value, b: Value)
    ensures
        op != BinaryOperator::And && op != BinaryOperator::Or ==> call_native(binary_op_name(op), seq![a, b]) == (
            seq![a, b],
            binary_op(op, a, b),
        ),
        call_native(unary_op_name(uop), seq![a]) == (seq![a], unary_op(uop, a)),
{
    reveal_strlit("+");
    reveal_strlit("-");
    reveal_strlit("*");
    reveal_strlit("/");
    reveal_strlit("%");
    reveal_strlit("==");
    reveal_strlit("!=");
    reveal_strlit("<");
    reveal_strlit("<=");
    reveal_strlit(">");
    reveal_strlit(">=");
    reveal_strlit("!");
}

/// `+` of a string and a boolean appends `true` or `false`; `()` appends
/// nothing.
pub proof fn law_string_plus_other(x: Seq<char>, b: bool)
    ensures
        binary_op(BinaryOperator::Plus, Value::Str(x), Value::Bool(b)) == Ok::<Value, EvalError>(
            Value::Str(x + if b { seq!['t', 'r', 'u', 'e'] } else { seq!['f', 'a', 'l', 's', 'e'] }),
        ),
        binary_op(BinaryOperator::Plus, Value::Str(x), Value::Unit) == Ok::<Value, EvalError>(Value::Str(x)),
{
    reveal_strlit("true");
    reveal_strlit("false");
    assert("true"@ =~= seq!['t', 'r', 'u', 'e']);
    assert("false"@ =~= seq!['f', 'a', 'l', 's', 'e']);
    assert(x + Seq::<char>::empty() =~= x);
}

} // verus!
