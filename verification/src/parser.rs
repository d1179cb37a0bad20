//! The parser: from tokens to statements and expressions.
//!
//! Binary operators bind by six levels of precedence, from `||` (loosest)
//! to `*`, `/` and `%` (tightest), and group to the left; `-` and `!` in
//! front of an operand bind tighter than any binary operator.

use vstd::prelude::*;
use crate::ast::{Args, BinaryOperator, Expr, Params, Stmt, UnaryOperator};
use crate::scope::AccessMode;
use crate::ast::{args_spans_ok, expr_spans_ok, params_spans_ok, stmt_spans_ok, stmts_spans_ok};
use crate::token::{token_span_ok, tokens_spans_ok, Token};

verus! {

/// The level of a binary operator: 1 binds loosest, 6 tightest.
pub open spec fn precedence(op: BinaryOperator) -> int {
    match op {
        BinaryOperator::Or => 1,
        BinaryOperator::And => 2,
        BinaryOperator::EqualsTo | BinaryOperator::NotEqualsTo => 3,
        BinaryOperator::LessThan | BinaryOperator::LessThanEqualsTo | BinaryOperator::GreaterThan
        | BinaryOperator::GreaterThanEqualsTo => 4,
        BinaryOperator::Plus | BinaryOperator::Minus => 5,
        BinaryOperator::Multiply | BinaryOperator::Divide | BinaryOperator::Modulo => 6,
    }
}

/// The binary operator that a token stands for, if any.
pub open spec fn binary_op_of(t: Token) -> Option<BinaryOperator> {
    match t {
        Token::Plus => Some(BinaryOperator::Plus),
        Token::Minus => Some(BinaryOperator::Minus),
        Token::Multiply => Some(BinaryOperator::Multiply),
        Token::Divide => Some(BinaryOperator::Divide),
        Token::Modulo => Some(BinaryOperator::Modulo),
        Token::EqualsTo => Some(BinaryOperator::EqualsTo),
        Token::NotEqualsTo => Some(BinaryOperator::NotEqualsTo),
        Token::LessThan => Some(BinaryOperator::LessThan),
        Token::LessThanEqualsTo => Some(BinaryOperator::LessThanEqualsTo),
        Token::GreaterThan => Some(BinaryOperator::GreaterThan),
        Token::GreaterThanEqualsTo => Some(BinaryOperator::GreaterThanEqualsTo),
        Token::And => Some(BinaryOperator::And),
        Token::Or => Some(BinaryOperator::Or),
        _ => None,
    }
}

/// For an assignment token, the operator of the compound assignment
/// (`None` for a plain `=`); `None` for any other token.
pub open spec fn assign_op_of(t: Token) -> Option<Option<BinaryOperator>> {
    match t {
        Token::Equals => Some(None),
        Token::PlusAssign => Some(Some(BinaryOperator::Plus)),
        Token::MinusAssign => Some(Some(BinaryOperator::Minus)),
        Token::MultiplyAssign => Some(Some(BinaryOperator::Multiply)),
        Token::DivideAssign => Some(Some(BinaryOperator::Divide)),
        Token::ModuloAssign => Some(Some(BinaryOperator::Modulo)),
        _ => None,
    }
}

/// Parses, from `pos`, an expression whose operators bind at `level` or
/// tighter (level 7: an operand); returns it and the position after it.
pub open spec fn parse_expr_at(t: Seq<Token>, pos: int, level: int) -> Option<(Expr, int)>
    decreases t.len() - pos, 8 - level,
{
    if pos < 0 || pos > t.len() || level < 1 || level > 7 {
        None
    } else if level == 7 {
        if pos == t.len() {
            None
        } else {
            match t[pos] {
                Token::IntLit(n) => Some((Expr::IntConst(n), pos + 1)),
                Token::True => Some((Expr::BoolConst(true), pos + 1)),
                Token::False => Some((Expr::BoolConst(false), pos + 1)),
                Token::StrLit(a, b) => Some((Expr::StringConst(a, b), pos + 1)),
                Token::Ident(a, b) => if pos + 1 < t.len() && t[pos + 1] == Token::LeftParen {
                    match parse_args(t, pos + 2, true) {
                        Some((args, p)) => Some((Expr::FnCall(a, b, Box::new(args)), p)),
                        None => None,
                    }
                } else {
                    Some((Expr::Variable(a, b), pos + 1))
                },
                Token::Minus => match parse_expr_at(t, pos + 1, 7) {
                    Some((e, p)) => Some((Expr::Unary(UnaryOperator::Negate, Box::new(e)), p)),
                    None => None,
                },
                Token::Bang => match parse_expr_at(t, pos + 1, 7) {
                    Some((e, p)) => Some((Expr::Unary(UnaryOperator::Not, Box::new(e)), p)),
                    None => None,
                },
                Token::LeftParen => if pos + 1 < t.len() && t[pos + 1] == Token::RightParen {
                    Some((Expr::Unit, pos + 2))
                } else {
                    match parse_expr_at(t, pos + 1, 1) {
                        Some((e, p)) => if 0 <= p < t.len() && t[p] == Token::RightParen {
                            Some((Expr::Paren(Box::new(e)), p + 1))
                        } else {
                            None
                        },
                        None => None,
                    }
                },
                _ => None,
            }
        }
    } else {
        match parse_expr_at(t, pos, level + 1) {
            Some((lhs, p)) => if pos <= p <= t.len() {
                parse_tail(t, level, lhs, p)
            } else {
                None
            },
            None => None,
        }
    }
}

/// Parses the arguments of a call from `pos`, up to and with the closing
/// `)`: expressions separated by `,` (none at all where `first`).
pub open spec fn parse_args(t: Seq<Token>, pos: int, first: bool) -> Option<(Args, int)>
    decreases t.len() - pos, 8int,
{
    if pos < 0 || pos >= t.len() {
        None
    } else if first && t[pos] == Token::RightParen {
        Some((Args::Nil, pos + 1))
    } else {
        match parse_expr_at(t, pos, 1) {
            Some((e, p)) => if !(pos < p < t.len()) {
                None
            } else if t[p] == Token::RightParen {
                Some((Args::Cons(Box::new(e), Box::new(Args::Nil)), p + 1))
            } else if t[p] == Token::Comma {
                match parse_args(t, p + 1, false) {
                    Some((rest, q)) => Some((Args::Cons(Box::new(e), Box::new(rest)), q)),
                    None => None,
                }
            } else {
                None
            },
            None => None,
        }
    }
}

/// Parses the parameters of a function from `pos`, up to and with the
/// closing `)`: names separated by `,` (none at all where `first`).
pub open spec fn parse_params(t: Seq<Token>, pos: int, first: bool) -> Option<(Params, int)>
    decreases t.len() - pos,
{
    if pos < 0 || pos >= t.len() {
        None
    } else if first && t[pos] == Token::RightParen {
        Some((Params::Nil, pos + 1))
    } else if t[pos] is Ident && pos + 1 < t.len() {
        let a = t[pos]->Ident_0;
        let b = t[pos]->Ident_1;
        if t[pos + 1] == Token::RightParen {
            Some((Params::Cons(a, b, Box::new(Params::Nil)), pos + 2))
        } else if t[pos + 1] == Token::Comma {
            match parse_params(t, pos + 2, false) {
                Some((rest, q)) => Some((Params::Cons(a, b, Box::new(rest)), q)),
                None => None,
            }
        } else {
            None
        }
    } else {
        None
    }
}

/// Extends `lhs` with the operators of `level` (and their right operands)
/// that follow from `pos`, grouping to the left.
pub open spec fn parse_tail(t: Seq<Token>, level: int, lhs: Expr, pos: int) -> Option<(Expr, int)>
    decreases t.len() - pos, 0int,
{
    if pos < 0 || pos > t.len() || level < 1 || level > 6 {
        None
    } else if pos < t.len() && binary_op_of(t[pos]) is Some && precedence(binary_op_of(t[pos])->0) == level {
        let op = binary_op_of(t[pos])->0;
        match parse_expr_at(t, pos + 1, level + 1) {
            Some((rhs, p)) => if pos < p <= t.len() {
                parse_tail(t, level, Expr::Binary(op, Box::new(lhs), Box::new(rhs)), p)
            } else {
                None
            },
            None => None,
        }
    } else {
        Some((lhs, pos))
    }
}

/// Parses one statement from `pos`; returns it and the position after it.
pub open spec fn parse_statement(t: Seq<Token>, pos: int) -> Option<(Stmt, int)> {
    if pos < 0 || pos >= t.len() {
        None
    } else if t[pos] == Token::Fn {
        if pos + 2 < t.len() && t[pos + 1] is Ident && t[pos + 2] == Token::LeftParen {
            match parse_params(t, pos + 3, true) {
                Some((ps, q)) => if 0 <= q < t.len() && t[q] == Token::LeftBrace {
                    match parse_expr_at(t, q + 1, 1) {
                        Some((body, r)) => if 0 <= r < t.len() && t[r] == Token::RightBrace {
                            Some((Stmt::FnDef(t[pos + 1]->Ident_0, t[pos + 1]->Ident_1, ps, body), r + 1))
                        } else {
                            None
                        },
                        None => None,
                    }
                } else {
                    None
                },
                None => None,
            }
        } else {
            None
        }
    } else if t[pos] == Token::Let || t[pos] == Token::Const {
        let access = if t[pos] == Token::Let { AccessMode::ReadWrite } else { AccessMode::ReadOnly };
        if pos + 1 < t.len() && t[pos + 1] is Ident {
            let a = t[pos + 1]->Ident_0;
            let b = t[pos + 1]->Ident_1;
            if pos + 2 < t.len() && t[pos + 2] == Token::Equals {
                match parse_expr_at(t, pos + 3, 1) {
                    Some((e, p)) => Some((Stmt::Var(a, b, access, Some(e)), p)),
                    None => None,
                }
            } else if t[pos] == Token::Let {
                Some((Stmt::Var(a, b, access, None), pos + 2))
            } else {
                None
            }
        } else {
            None
        }
    } else if t[pos] is Ident && pos + 1 < t.len() && assign_op_of(t[pos + 1]) is Some {
        match parse_expr_at(t, pos + 2, 1) {
            Some((e, p)) => Some(
                (Stmt::Assignment(t[pos]->Ident_0, t[pos]->Ident_1, assign_op_of(t[pos + 1])->0, e), p),
            ),
            None => None,
        }
    } else {
        match parse_expr_at(t, pos, 1) {
            Some((e, p)) => Some((Stmt::Expr(e), p)),
            None => None,
        }
    }
}

/// Parses statements from `pos` to the end: each is followed by `;`, which
/// the last may omit; a function definition is followed by no `;`.
/// Returns them, and whether the last had its `;`.
pub open spec fn parse_statements(t: Seq<Token>, pos: int) -> Option<(Seq<Stmt>, bool)>
    decreases t.len() - pos,
{
    if pos < 0 || pos > t.len() {
        None
    } else if pos == t.len() {
        Some((seq![], false))
    } else {
        match parse_statement(t, pos) {
            Some((s, p)) => if !(pos < p <= t.len()) {
                None
            } else if p == t.len() {
                Some((seq![s], false))
            } else if s is FnDef {
                match parse_statements(t, p) {
                    Some((ss, term)) => Some((seq![s] + ss, term)),
                    None => None,
                }
            } else if t[p] == Token::SemiColon {
                if p + 1 == t.len() {
                    Some((seq![s], true))
                } else {
                    match parse_statements(t, p + 1) {
                        Some((ss, term)) => Some((seq![s] + ss, term)),
                        None => None,
                    }
                }
            } else {
                None
            },
            None => None,
        }
    }
}

/// The statements of a whole script, and whether the last ends in `;`.
pub open spec fn parse_script(t: Seq<Token>) -> Option<(Seq<Stmt>, bool)> {
    parse_statements(t, 0)
}

/// The expression that all of the tokens form, if they form one.
pub open spec fn parse_expression(t: Seq<Token>) -> Option<Expr> {
    match parse_expr_at(t, 0, 1) {
        Some((e, p)) => if p == t.len() {
            Some(e)
        } else {
            None
        },
        None => None,
    }
}

fn precedence_exec(op: BinaryOperator) -> (r: u8)
    ensures
        r as int == precedence(op),
{
    match op {
        BinaryOperator::Or => 1,
        BinaryOperator::And => 2,
        BinaryOperator::EqualsTo | BinaryOperator::NotEqualsTo => 3,
        BinaryOperator::LessThan | BinaryOperator::LessThanEqualsTo | BinaryOperator::GreaterThan
        | BinaryOperator::GreaterThanEqualsTo => 4,
        BinaryOperator::Plus | BinaryOperator::Minus => 5,
        BinaryOperator::Multiply | BinaryOperator::Divide | BinaryOperator::Modulo => 6,
    }
}

pub(crate) fn binary_op_exec(t: Token) -> (r: Option<BinaryOperator>)
    ensures
        r == binary_op_of(t),
{
    match t {
        Token::Plus => Some(BinaryOperator::Plus),
        Token::Minus => Some(BinaryOperator::Minus),
        Token::Multiply => Some(BinaryOperator::Multiply),
        Token::Divide => Some(BinaryOperator::Divide),
        Token::Modulo => Some(BinaryOperator::Modulo),
        Token::EqualsTo => Some(BinaryOperator::EqualsTo),
        Token::NotEqualsTo => Some(BinaryOperator::NotEqualsTo),
        Token::LessThan => Some(BinaryOperator::LessThan),
        Token::LessThanEqualsTo => Some(BinaryOperator::LessThanEqualsTo),
        Token::GreaterThan => Some(BinaryOperator::GreaterThan),
        Token::GreaterThanEqualsTo => Some(BinaryOperator::GreaterThanEqualsTo),
        Token::And => Some(BinaryOperator::And),
        Token::Or => Some(BinaryOperator::Or),
        _ => None,
    }
}

pub(crate) fn assign_op_exec(t: Token) -> (r: Option<Option<BinaryOperator>>)
    ensures
        r == assign_op_of(t),
{
    match t {
        Token::Equals => Some(None),
        Token::PlusAssign => Some(Some(BinaryOperator::Plus)),
        Token::MinusAssign => Some(Some(BinaryOperator::Minus)),
        Token::MultiplyAssign => Some(Some(BinaryOperator::Multiply)),
        Token::DivideAssign => Some(Some(BinaryOperator::Divide)),
        Token::ModuloAssign => Some(Some(BinaryOperator::Modulo)),
        _ => None,
    }
}

/// The relation between an exec parse result and its spec.
pub open spec fn same_parse<A>(r: Option<(A, usize)>, s: Option<(A, int)>) -> bool {
    match r {
        Some((e, p)) => s == Some((e, p as int)),
        None => s is None,
    }
}

/// Parses an expression at `level` from `pos`, as `parse_expr_at` says.
pub fn parse_expr(t: &Vec<Token>, pos: usize, level: u8) -> (r: Option<(Expr, usize)>)
    requires
        pos <= t@.len(),
        1 <= level <= 7,
    ensures
        same_parse(r, parse_expr_at(t@, pos as int, level as int)),
    decreases t@.len() - pos, 8 - level,
{
    if level == 7 {
        if pos == t.len() {
            return None;
        }
        match t[pos] {
            Token::IntLit(n) => Some((Expr::IntConst(n), pos + 1)),
            Token::True => Some((Expr::BoolConst(true), pos + 1)),
            Token::False => Some((Expr::BoolConst(false), pos + 1)),
            Token::StrLit(a, b) => Some((Expr::StringConst(a, b), pos + 1)),
            Token::Ident(a, b) => {
                if pos + 1 < t.len() && t[pos + 1] == Token::LeftParen {
                    match parse_call_args(t, pos + 2, true) {
                        Some((args, p)) => Some((Expr::FnCall(a, b, Box::new(args)), p)),
                        None => None,
                    }
                } else {
                    Some((Expr::Variable(a, b), pos + 1))
                }
            },
            Token::Minus => match parse_expr(t, pos + 1, 7) {
                Some((e, p)) => Some((Expr::Unary(UnaryOperator::Negate, Box::new(e)), p)),
                None => None,
            },
            Token::Bang => match parse_expr(t, pos + 1, 7) {
                Some((e, p)) => Some((Expr::Unary(UnaryOperator::Not, Box::new(e)), p)),
                None => None,
            },
            Token::LeftParen => {
                if pos + 1 < t.len() && t[pos + 1] == Token::RightParen {
                    Some((Expr::Unit, pos + 2))
                } else {
                    match parse_expr(t, pos + 1, 1) {
                        Some((e, p)) => if p < t.len() && t[p] == Token::RightParen {
                            Some((Expr::Paren(Box::new(e)), p + 1))
                        } else {
                            None
                        },
                        None => None,
                    }
                }
            },
            _ => None,
        }
    } else {
        let (mut lhs, mut p) = match parse_expr(t, pos, level + 1) {
            Some((e, p)) => (e, p),
            None => {
                return None;
            },
        };
        if !(pos <= p && p <= t.len()) {
            return None;
        }
        while p < t.len()
            invariant
                pos <= p <= t@.len(),
                1 <= level <= 6,
                parse_expr_at(t@, pos as int, level as int) == parse_tail(t@, level as int, lhs, p as int),
            ensures
                pos <= p <= t@.len(),
                parse_expr_at(t@, pos as int, level as int) == parse_tail(t@, level as int, lhs, p as int),
                parse_tail(t@, level as int, lhs, p as int) == Some((lhs, p as int)),
            decreases t@.len() - p,
        {
            let op = match binary_op_exec(t[p]) {
                Some(op) => op,
                None => {
                    break;
                },
            };
            if precedence_exec(op) != level {
                break;
            }
            match parse_expr(t, p + 1, level + 1) {
                Some((rhs, q)) => {
                    if !(p < q && q <= t.len()) {
                        return None;
                    }
                    lhs = Expr::Binary(op, Box::new(lhs), Box::new(rhs));
                    p = q;
                },
                None => {
                    return None;
                },
            }
        }
        Some((lhs, p))
    }
}

/// Parses the arguments of a call, as `parse_args` says.
pub fn parse_call_args(t: &Vec<Token>, pos: usize, first: bool) -> (r: Option<(Args, usize)>)
    requires
        pos <= t@.len(),
    ensures
        same_parse(r, parse_args(t@, pos as int, first)),
    decreases t@.len() - pos, 8int,
{
    if pos >= t.len() {
        return None;
    }
    if first && t[pos] == Token::RightParen {
        return Some((Args::Nil, pos + 1));
    }
    match parse_expr(t, pos, 1) {
        Some((e, p)) => {
            if !(pos < p && p < t.len()) {
                None
            } else if t[p] == Token::RightParen {
                Some((Args::Cons(Box::new(e), Box::new(Args::Nil)), p + 1))
            } else if t[p] == Token::Comma {
                match parse_call_args(t, p + 1, false) {
                    Some((rest, q)) => Some((Args::Cons(Box::new(e), Box::new(rest)), q)),
                    None => None,
                }
            } else {
                None
            }
        },
        None => None,
    }
}

/// Parses the parameters of a function, as `parse_params` says.
pub fn parse_fn_params(t: &Vec<Token>, pos: usize, first: bool) -> (r: Option<(Params, usize)>)
    requires
        pos <= t@.len(),
    ensures
        same_parse(r, parse_params(t@, pos as int, first)),
    decreases t@.len() - pos,
{
    if pos >= t.len() {
        return None;
    }
    if first && t[pos] == Token::RightParen {
        return Some((Params::Nil, pos + 1));
    }
    if pos + 1 < t.len() {
        if let Token::Ident(a, b) = t[pos] {
            if t[pos + 1] == Token::RightParen {
                return Some((Params::Cons(a, b, Box::new(Params::Nil)), pos + 2));
            } else if t[pos + 1] == Token::Comma {
                return match parse_fn_params(t, pos + 2, false) {
                    Some((rest, q)) => Some((Params::Cons(a, b, Box::new(rest)), q)),
                    None => None,
                };
            }
        }
    }
    None
}

/// Parses one statement from `pos`, as `parse_statement` says.
pub fn parse_stmt(t: &Vec<Token>, pos: usize) -> (r: Option<(Stmt, usize)>)
    requires
        pos < t@.len(),
    ensures
        same_parse(r, parse_statement(t@, pos as int)),
{
    let n = t.len();
    if t[pos] == Token::Fn {
        if n - pos > 2 && t[pos + 2] == Token::LeftParen {
            if let Token::Ident(a, b) = t[pos + 1] {
                return match parse_fn_params(t, pos + 3, true) {
                    Some((ps, q)) => {
                        if q < n && t[q] == Token::LeftBrace {
                            match parse_expr(t, q + 1, 1) {
                                Some((body, r)) => if r < n && t[r] == Token::RightBrace {
                                    Some((Stmt::FnDef(a, b, ps, body), r + 1))
                                } else {
                                    None
                                },
                                None => None,
                            }
                        } else {
                            None
                        }
                    },
                    None => None,
                };
            }
        }
        None
    } else if t[pos] == Token::Let || t[pos] == Token::Const {
        let access = if t[pos] == Token::Let { AccessMode::ReadWrite } else { AccessMode::ReadOnly };
        if pos + 1 < n {
            if let Token::Ident(a, b) = t[pos + 1] {
                if pos + 2 < n && t[pos + 2] == Token::Equals {
                    return match parse_expr(t, pos + 3, 1) {
                        Some((e, p)) => Some((Stmt::Var(a, b, access, Some(e)), p)),
                        None => None,
                    };
                } else if t[pos] == Token::Let {
                    return Some((Stmt::Var(a, b, access, None), pos + 2));
                } else {
                    return None;
                }
            }
        }
        None
    } else {
        if pos + 1 < n {
            if let Token::Ident(a, b) = t[pos] {
                if let Some(op) = assign_op_exec(t[pos + 1]) {
                    return match parse_expr(t, pos + 2, 1) {
                        Some((e, p)) => Some((Stmt::Assignment(a, b, op, e), p)),
                        None => None,
                    };
                }
            }
        }
        match parse_expr(t, pos, 1) {
            Some((e, p)) => Some((Stmt::Expr(e), p)),
            None => None,
        }
    }
}

/// `prefix` before the statements of `r`.
pub open spec fn glue(prefix: Seq<Stmt>, r: Option<(Seq<Stmt>, bool)>) -> Option<(Seq<Stmt>, bool)> {
    match r {
        Some((ss, term)) => Some((prefix + ss, term)),
        None => None,
    }
}

/// Parses the statements of a whole script, as `parse_script` says.
pub fn parse_stmts(t: &Vec<Token>) -> (r: Option<(Vec<Stmt>, bool)>)
    ensures
        match r {
            Some((ss, term)) => parse_script(t@) == Some((ss@, term)),
            None => parse_script(t@) is None,
        },
{
    let n = t.len();
    let mut stmts: Vec<Stmt> = Vec::new();
    if n == 0 {
        assert(stmts@ =~= seq![]);
        return Some((stmts, false));
    }
    let mut pos: usize = 0;
    assert(glue(stmts@, parse_statements(t@, 0)) == parse_statements(t@, 0)) by {
        if let Some((ss, term)) = parse_statements(t@, 0) {
            assert(stmts@ + ss =~= ss);
        }
    }
    loop
        invariant
            n == t@.len(),
            pos < n,
            parse_script(t@) == glue(stmts@, parse_statements(t@, pos as int)),
        decreases n - pos,
    {
        let ghost old_stmts = stmts@;
        match parse_stmt(t, pos) {
            None => {
                return None;
            },
            Some((s, p)) => {
                if !(pos < p && p <= n) {
                    return None;
                }
                let ghost sv = s;
                stmts.push(s);
                assert(stmts@ =~= old_stmts + seq![sv]);
                if p == n {
                    return Some((stmts, false));
                }
                if let Stmt::FnDef(..) = stmts[stmts.len() - 1] {
                    proof {
                        if let Some((ss, term)) = parse_statements(t@, p as int) {
                            assert(old_stmts + (seq![sv] + ss) =~= stmts@ + ss);
                        }
                    }
                    pos = p;
                    continue;
                }
                if t[p] != Token::SemiColon {
                    return None;
                }
                if p + 1 == n {
                    return Some((stmts, true));
                }
                proof {
                    if let Some((ss, term)) = parse_statements(t@, p + 1) {
                        assert(old_stmts + (seq![sv] + ss) =~= stmts@ + ss);
                    }
                }
                pos = p + 1;
            },
        }
    }
}

/// Parses all of the tokens as one expression, as `parse_expression` says.
pub fn parse_global_expr(t: &Vec<Token>) -> (r: Option<Expr>)
    ensures
        r == parse_expression(t@),
{
    match parse_expr(t, 0, 1) {
        Some((e, p)) => if p == t.len() {
            Some(e)
        } else {
            None
        },
        None => None,
    }
}

/// An expression parsed from tokens refers only to characters that the
/// tokens refer to, and takes at least one token.
pub proof fn lemma_expr_spans(t: Seq<Token>, pos: int, level: int, n: int)
    requires
        tokens_spans_ok(t, n),
    ensures
        parse_expr_at(t, pos, level) matches Some((e, p)) ==> expr_spans_ok(e, n) && pos < p <= t.len(),
    decreases t.len() - pos, 8 - level,
{
    if 0 <= pos <= t.len() && 1 <= level <= 7 {
        if level == 7 {
            if pos < t.len() {
                assert(token_span_ok(t[pos], n));
                match t[pos] {
                    Token::Minus => lemma_expr_spans(t, pos + 1, 7, n),
                    Token::Bang => lemma_expr_spans(t, pos + 1, 7, n),
                    Token::LeftParen => lemma_expr_spans(t, pos + 1, 1, n),
                    Token::Ident(_, _) => if pos + 1 < t.len() {
                        lemma_args_spans(t, pos + 2, true, n);
                    },
                    _ => {},
                }
            }
        } else {
            lemma_expr_spans(t, pos, level + 1, n);
            if let Some((lhs, p)) = parse_expr_at(t, pos, level + 1) {
                if pos <= p <= t.len() {
                    lemma_tail_spans(t, level, lhs, p, n);
                }
            }
        }
    }
}

/// As `lemma_expr_spans`, for the arguments of a call.
pub proof fn lemma_args_spans(t: Seq<Token>, pos: int, first: bool, n: int)
    requires
        tokens_spans_ok(t, n),
    ensures
        parse_args(t, pos, first) matches Some((args, p)) ==> args_spans_ok(args, n) && pos < p <= t.len(),
    decreases t.len() - pos, 8int,
{
    if 0 <= pos < t.len() {
        lemma_expr_spans(t, pos, 1, n);
        assert(args_spans_ok(Args::Nil, n));
        if let Some((e, p)) = parse_expr_at(t, pos, 1) {
            if pos < p < t.len() {
                lemma_args_spans(t, p + 1, false, n);
            }
        }
    }
}

/// As `lemma_expr_spans`, for the parameters of a function.
pub proof fn lemma_params_spans(t: Seq<Token>, pos: int, first: bool, n: int)
    requires
        tokens_spans_ok(t, n),
    ensures
        parse_params(t, pos, first) matches Some((ps, p)) ==> params_spans_ok(ps, n) && pos < p <= t.len(),
    decreases t.len() - pos,
{
    if 0 <= pos < t.len() {
        assert(token_span_ok(t[pos], n));
        assert(params_spans_ok(Params::Nil, n));
        if pos + 1 < t.len() {
            lemma_params_spans(t, pos + 2, false, n);
        }
    }
}

/// As `lemma_expr_spans`, for the operators that follow an operand.
pub proof fn lemma_tail_spans(t: Seq<Token>, level: int, lhs: Expr, pos: int, n: int)
    requires
        tokens_spans_ok(t, n),
        expr_spans_ok(lhs, n),
    ensures
        parse_tail(t, level, lhs, pos) matches Some((e, p)) ==> expr_spans_ok(e, n) && pos <= p <= t.len(),
    decreases t.len() - pos, 0int,
{
    if 0 <= pos <= t.len() && 1 <= level <= 6 {
        if pos < t.len() && binary_op_of(t[pos]) is Some && precedence(binary_op_of(t[pos])->0) == level {
            let op = binary_op_of(t[pos])->0;
            lemma_expr_spans(t, pos + 1, level + 1, n);
            if let Some((rhs, p)) = parse_expr_at(t, pos + 1, level + 1) {
                if pos < p <= t.len() {
                    lemma_tail_spans(t, level, Expr::Binary(op, Box::new(lhs), Box::new(rhs)), p, n);
                }
            }
        }
    }
}

/// As `lemma_expr_spans`, for a statement.
pub proof fn lemma_stmt_spans(t: Seq<Token>, pos: int, n: int)
    requires
        tokens_spans_ok(t, n),
    ensures
        parse_statement(t, pos) matches Some((s, p)) ==> stmt_spans_ok(s, n) && pos < p <= t.len(),
{
    if 0 <= pos < t.len() {
        assert(token_span_ok(t[pos], n));
        if pos + 1 < t.len() {
            assert(token_span_ok(t[pos + 1], n));
        }
        lemma_expr_spans(t, pos + 3, 1, n);
        lemma_expr_spans(t, pos + 2, 1, n);
        lemma_expr_spans(t, pos, 1, n);
        lemma_params_spans(t, pos + 3, true, n);
        if let Some((ps, q)) = parse_params(t, pos + 3, true) {
            lemma_expr_spans(t, q + 1, 1, n);
        }
    }
}

/// As `lemma_expr_spans`, for the statements of a script.
pub proof fn lemma_stmts_spans(t: Seq<Token>, pos: int, n: int)
    requires
        tokens_spans_ok(t, n),
    ensures
        parse_statements(t, pos) matches Some((ss, _)) ==> stmts_spans_ok(ss, n),
    decreases t.len() - pos,
{
    if 0 <= pos < t.len() {
        lemma_stmt_spans(t, pos, n);
        if let Some((s, p)) = parse_statement(t, pos) {
            let next = if s is FnDef { p } else { p + 1 };
            if pos < p < t.len() && (s is FnDef || t[p] == Token::SemiColon) && next < t.len() {
                lemma_stmts_spans(t, next, n);
                if let Some((ss, term)) = parse_statements(t, next) {
                    let all = seq![s] + ss;
                    assert forall|i: int| 0 <= i < all.len() implies stmt_spans_ok(#[trigger] all[i], n) by {
                        if i > 0 {
                            assert(all[i] == ss[i - 1]);
                        }
                    }
                }
            }
        }
    }
}

} // verus!
