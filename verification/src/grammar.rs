//! The grammar of scripts, stated by printing: a syntax tree that respects
//! the precedence of operators prints to exactly one token sequence, and
//! the parser gives back exactly that tree for it.

use vstd::prelude::*;
use crate::ast::{Args, BinaryOperator, Expr, Params, Stmt, UnaryOperator};
use crate::parser::{
    assign_op_of, binary_op_of, parse_args, parse_expr_at, parse_params, parse_script, parse_statement,
    parse_statements, parse_tail, precedence,
};
use crate::scope::AccessMode;
use crate::token::Token;

verus! {

/// The token of a binary operator.
pub open spec fn binary_op_token(op: BinaryOperator) -> Token {
    match op {
        BinaryOperator::Plus => Token::Plus,
        BinaryOperator::Minus => Token::Minus,
        BinaryOperator::Multiply => Token::Multiply,
        BinaryOperator::Divide => Token::Divide,
        BinaryOperator::Modulo => Token::Modulo,
        BinaryOperator::EqualsTo => Token::EqualsTo,
        BinaryOperator::NotEqualsTo => Token::NotEqualsTo,
        BinaryOperator::LessThan => Token::LessThan,
        BinaryOperator::LessThanEqualsTo => Token::LessThanEqualsTo,
        BinaryOperator::GreaterThan => Token::GreaterThan,
        BinaryOperator::GreaterThanEqualsTo => Token::GreaterThanEqualsTo,
        BinaryOperator::And => Token::And,
        BinaryOperator::Or => Token::Or,
    }
}

/// The token of an assignment: `=`, or `op=` for a compound one.
pub open spec fn assign_token(op: Option<BinaryOperator>) -> Token {
    match op {
        None => Token::Equals,
        Some(BinaryOperator::Plus) => Token::PlusAssign,
        Some(BinaryOperator::Minus) => Token::MinusAssign,
        Some(BinaryOperator::Multiply) => Token::MultiplyAssign,
        Some(BinaryOperator::Divide) => Token::DivideAssign,
        Some(BinaryOperator::Modulo) => Token::ModuloAssign,
        Some(_) => Token::Equals,
    }
}

/// The tokens that an expression is written with.
pub open spec fn print_expr(e: Expr) -> Seq<Token>
    decreases e,
{
    match e {
        Expr::IntConst(n) => seq![Token::IntLit(n)],
        Expr::BoolConst(b) => if b { seq![Token::True] } else { seq![Token::False] },
        Expr::StringConst(a, b) => seq![Token::StrLit(a, b)],
        Expr::Unit => seq![Token::LeftParen, Token::RightParen],
        Expr::Variable(a, b) => seq![Token::Ident(a, b)],
        Expr::Unary(UnaryOperator::Negate, x) => seq![Token::Minus] + print_expr(*x),
        Expr::Unary(UnaryOperator::Not, x) => seq![Token::Bang] + print_expr(*x),
        Expr::Binary(op, l, r) => print_expr(*l) + seq![binary_op_token(op)] + print_expr(*r),
        Expr::Paren(x) => seq![Token::LeftParen] + print_expr(*x) + seq![Token::RightParen],
        Expr::FnCall(a, b, args) => seq![Token::Ident(a, b), Token::LeftParen] + print_args(*args),
    }
}

/// The tokens of the arguments of a call after its `(`: the arguments
/// separated by `,`, and the closing `)`.
pub open spec fn print_args(args: Args) -> Seq<Token>
    decreases args,
{
    match args {
        Args::Nil => seq![Token::RightParen],
        Args::Cons(e, rest) => match *rest {
            Args::Nil => print_expr(*e) + seq![Token::RightParen],
            _ => print_expr(*e) + seq![Token::Comma] + print_args(*rest),
        },
    }
}

/// The tokens of the parameters of a function after its `(`: the names
/// separated by `,`, and the closing `)`.
pub open spec fn print_params(ps: Params) -> Seq<Token>
    decreases ps,
{
    match ps {
        Params::Nil => seq![Token::RightParen],
        Params::Cons(a, b, rest) => match *rest {
            Params::Nil => seq![Token::Ident(a, b), Token::RightParen],
            _ => seq![Token::Ident(a, b), Token::Comma] + print_params(*rest),
        },
    }
}

/// How loosely an expression binds: the precedence of its operator, or 7
/// for an operand.
pub open spec fn expr_level(e: Expr) -> int {
    match e {
        Expr::Binary(op, _, _) => precedence(op),
        _ => 7,
    }
}

/// Whether an expression respects precedence: an operand of a binary
/// operator binds at least as tightly (on the right, strictly more tightly)
/// as the operator, and the operand of a unary operator is an operand.
pub open spec fn wf_expr(e: Expr) -> bool
    decreases e,
{
    match e {
        Expr::Unary(_, x) => wf_expr(*x) && expr_level(*x) == 7,
        Expr::Binary(op, l, r) => wf_expr(*l) && wf_expr(*r) && expr_level(*l) >= precedence(op)
            && expr_level(*r) > precedence(op),
        Expr::Paren(x) => wf_expr(*x),
        Expr::FnCall(_, _, args) => wf_args(*args),
        _ => true,
    }
}

/// Whether each argument of a call respects precedence.
pub open spec fn wf_args(args: Args) -> bool
    decreases args,
{
    match args {
        Args::Nil => true,
        Args::Cons(e, rest) => wf_expr(*e) && wf_args(*rest),
    }
}

/// The tokens that a statement is written with.
pub open spec fn print_stmt(s: Stmt) -> Seq<Token> {
    match s {
        Stmt::Var(a, b, access, init) => {
            let kw = if access == AccessMode::ReadWrite { Token::Let } else { Token::Const };
            match init {
                Some(e) => seq![kw, Token::Ident(a, b), Token::Equals] + print_expr(e),
                None => seq![kw, Token::Ident(a, b)],
            }
        },
        Stmt::Assignment(a, b, op, e) => seq![Token::Ident(a, b), assign_token(op)] + print_expr(e),
        Stmt::Expr(e) => print_expr(e),
        Stmt::FnDef(a, b, ps, body) => seq![Token::Fn, Token::Ident(a, b), Token::LeftParen] + print_params(ps)
            + seq![Token::LeftBrace] + print_expr(body) + seq![Token::RightBrace],
    }
}

/// What follows a statement in a script: `;`, but nothing after a function
/// definition.
pub open spec fn print_sep(s: Stmt) -> Seq<Token> {
    if s is FnDef {
        seq![]
    } else {
        seq![Token::SemiColon]
    }
}

/// Whether a statement can be written: its expression respects precedence,
/// a constant has a value, and a compound assignment is one of `+=`, `-=`,
/// `*=`, `/=`, `%=`.
pub open spec fn wf_stmt(s: Stmt) -> bool {
    match s {
        Stmt::Var(_, _, access, init) => match init {
            Some(e) => wf_expr(e),
            None => access == AccessMode::ReadWrite,
        },
        Stmt::Assignment(_, _, op, e) => wf_expr(e) && (op matches Some(o) ==> (o == BinaryOperator::Plus
            || o == BinaryOperator::Minus || o == BinaryOperator::Multiply || o == BinaryOperator::Divide
            || o == BinaryOperator::Modulo)),
        Stmt::Expr(e) => wf_expr(e),
        Stmt::FnDef(_, _, _, body) => wf_expr(body),
    }
}

/// The tokens of statements, each followed by what `print_sep` says but the
/// last, which is followed by `;` where `terminated`.
pub open spec fn print_stmts(ss: Seq<Stmt>, terminated: bool) -> Seq<Token>
    decreases ss.len(),
{
    if ss.len() == 0 {
        seq![]
    } else if ss.len() == 1 {
        if terminated {
            print_stmt(ss[0]) + seq![Token::SemiColon]
        } else {
            print_stmt(ss[0])
        }
    } else {
        print_stmt(ss[0]) + print_sep(ss[0]) + print_stmts(ss.drop_first(), terminated)
    }
}

/// Whether statements can be written as a script: each can, and neither an
/// empty script nor one that ends in a function definition has a last `;`.
pub open spec fn wf_script(ss: Seq<Stmt>, terminated: bool) -> bool {
    &&& forall|i: int| 0 <= i < ss.len() ==> wf_stmt(#[trigger] ss[i])
    &&& (ss.len() == 0 ==> !terminated)
    &&& (ss.len() > 0 && terminated ==> !(ss.last() is FnDef))
}

/// No `(` stands at `p`: what ends there is not the name of a call.
pub open spec fn no_call_at(t: Seq<Token>, p: int) -> bool {
    p < 0 || p >= t.len() || t[p] != Token::LeftParen
}

/// No binary operator of precedence `k` or tighter stands at `p`.
pub open spec fn stops_at(t: Seq<Token>, p: int, k: int) -> bool {
    p >= t.len() || !(binary_op_of(t[p]) is Some && precedence(binary_op_of(t[p])->0) >= k)
}

/// `binary_op_token` and `binary_op_of` undo each other.
pub proof fn lemma_binary_op_token(t: Token, op: BinaryOperator)
    ensures
        binary_op_of(t) == Some(op) ==> binary_op_token(op) == t,
        binary_op_of(binary_op_token(op)) == Some(op),
        1 <= precedence(op) <= 6,
{
}

/// What an expression parsed from `pos` is: the tokens it was parsed from
/// print it, it respects precedence, it binds at the level asked for, and
/// no operator of that level or tighter follows it.
pub proof fn lemma_expr_sound(t: Seq<Token>, pos: int, k: int)
    ensures
        parse_expr_at(t, pos, k) matches Some((e, p)) ==> {
            &&& 0 <= pos < p <= t.len()
            &&& t.subrange(pos, p) == print_expr(e)
            &&& wf_expr(e)
            &&& expr_level(e) >= k
            &&& stops_at(t, p, k)
        },
    decreases t.len() - pos, 8 - k,
{
    if 0 <= pos <= t.len() && 1 <= k <= 7 {
        if k == 7 {
            if pos < t.len() {
                match t[pos] {
                    Token::Minus => {
                        lemma_expr_sound(t, pos + 1, 7);
                        if let Some((x, p)) = parse_expr_at(t, pos + 1, 7) {
                            assert(t.subrange(pos, p) =~= seq![Token::Minus] + t.subrange(pos + 1, p));
                        }
                    },
                    Token::Bang => {
                        lemma_expr_sound(t, pos + 1, 7);
                        if let Some((x, p)) = parse_expr_at(t, pos + 1, 7) {
                            assert(t.subrange(pos, p) =~= seq![Token::Bang] + t.subrange(pos + 1, p));
                        }
                    },
                    Token::Ident(a, b) => {
                        if pos + 1 < t.len() && t[pos + 1] == Token::LeftParen {
                            lemma_args_sound(t, pos + 2, true);
                            if let Some((args, p)) = parse_args(t, pos + 2, true) {
                                assert(t.subrange(pos, p) =~= seq![t[pos], t[pos + 1]] + t.subrange(pos + 2, p));
                            }
                        } else {
                            assert(t.subrange(pos, pos + 1) =~= seq![t[pos]]);
                        }
                    },
                    Token::LeftParen => {
                        if pos + 1 < t.len() && t[pos + 1] == Token::RightParen {
                            assert(t.subrange(pos, pos + 2) =~= seq![Token::LeftParen, Token::RightParen]);
                        } else {
                            lemma_expr_sound(t, pos + 1, 1);
                            if let Some((x, p)) = parse_expr_at(t, pos + 1, 1) {
                                if 0 <= p < t.len() && t[p] == Token::RightParen {
                                    assert(t.subrange(pos, p + 1) =~= seq![Token::LeftParen] + t.subrange(pos + 1, p)
                                        + seq![Token::RightParen]);
                                }
                            }
                        }
                    },
                    _ => {
                        assert(t.subrange(pos, pos + 1) =~= seq![t[pos]]);
                    },
                }
                if let Some((e, p)) = parse_expr_at(t, pos, k) {
                    if p < t.len() && binary_op_of(t[p]) is Some {
                        lemma_binary_op_token(t[p], binary_op_of(t[p])->0);
                    }
                }
            }
        } else {
            lemma_expr_sound(t, pos, k + 1);
            if let Some((lhs, p)) = parse_expr_at(t, pos, k + 1) {
                if pos <= p <= t.len() {
                    lemma_tail_sound(t, k, lhs, pos, p);
                }
            }
        }
    }
}

/// What arguments parsed from `pos` are: the tokens they were parsed from
/// print them, each respects precedence, and there is at least one where
/// the list may not be empty.
pub proof fn lemma_args_sound(t: Seq<Token>, pos: int, first: bool)
    ensures
        parse_args(t, pos, first) matches Some((args, p)) ==> {
            &&& 0 <= pos < p <= t.len()
            &&& t.subrange(pos, p) == print_args(args)
            &&& wf_args(args)
            &&& (!first ==> args is Cons)
        },
    decreases t.len() - pos, 8int,
{
    if 0 <= pos < t.len() {
        if first && t[pos] == Token::RightParen {
            assert(t.subrange(pos, pos + 1) =~= seq![Token::RightParen]);
        } else {
            lemma_expr_sound(t, pos, 1);
            if let Some((e, p)) = parse_expr_at(t, pos, 1) {
                if pos < p < t.len() {
                    if t[p] == Token::RightParen {
                        let args = Args::Cons(Box::new(e), Box::new(Args::Nil));
                        assert(print_args(args) == print_expr(e) + seq![Token::RightParen]);
                        assert(t.subrange(pos, p + 1) =~= t.subrange(pos, p) + seq![Token::RightParen]);
                        assert(wf_args(Args::Nil));
                    } else if t[p] == Token::Comma {
                        lemma_args_sound(t, p + 1, false);
                        if let Some((rest, q)) = parse_args(t, p + 1, false) {
                            let args = Args::Cons(Box::new(e), Box::new(rest));
                            assert(print_args(args) == print_expr(e) + seq![Token::Comma] + print_args(rest));
                            assert(t.subrange(pos, q) =~= t.subrange(pos, p) + seq![Token::Comma] + t.subrange(p + 1, q));

                        }
                    }
                }
            }
        }
    }
}

/// Parameters parsed from `pos` are printed by the tokens they were parsed
/// from, and there is at least one where the list may not be empty.
pub proof fn lemma_params_sound(t: Seq<Token>, pos: int, first: bool)
    ensures
        parse_params(t, pos, first) matches Some((ps, p)) ==> {
            &&& 0 <= pos < p <= t.len()
            &&& t.subrange(pos, p) == print_params(ps)
            &&& (!first ==> ps is Cons)
        },
    decreases t.len() - pos,
{
    if 0 <= pos < t.len() {
        if first && t[pos] == Token::RightParen {
            assert(t.subrange(pos, pos + 1) =~= seq![Token::RightParen]);
        } else if t[pos] is Ident && pos + 1 < t.len() {
            if t[pos + 1] == Token::RightParen {
                assert(t.subrange(pos, pos + 2) =~= seq![t[pos], Token::RightParen]);
            } else if t[pos + 1] == Token::Comma {
                lemma_params_sound(t, pos + 2, false);
                if let Some((rest, q)) = parse_params(t, pos + 2, false) {
                    assert(t.subrange(pos, q) =~= seq![t[pos], Token::Comma] + t.subrange(pos + 2, q));
                }
            }
        }
    }
}

/// As `lemma_expr_sound`, for the operators that follow a left operand
/// printed by `t[q0..pos]`.
pub proof fn lemma_tail_sound(t: Seq<Token>, k: int, lhs: Expr, q0: int, pos: int)
    requires
        1 <= k <= 6,
        0 <= q0 < pos <= t.len(),
        t.subrange(q0, pos) == print_expr(lhs),
        wf_expr(lhs),
        expr_level(lhs) >= k,
        stops_at(t, pos, k + 1),
    ensures
        parse_tail(t, k, lhs, pos) matches Some((e, p)) ==> {
            &&& pos <= p <= t.len()
            &&& t.subrange(q0, p) == print_expr(e)
            &&& wf_expr(e)
            &&& expr_level(e) >= k
            &&& stops_at(t, p, k)
        },
    decreases t.len() - pos, 0int,
{
    if pos < t.len() && binary_op_of(t[pos]) is Some && precedence(binary_op_of(t[pos])->0) == k {
        let op = binary_op_of(t[pos])->0;
        lemma_binary_op_token(t[pos], op);
        lemma_expr_sound(t, pos + 1, k + 1);
        if let Some((rhs, p)) = parse_expr_at(t, pos + 1, k + 1) {
            if pos < p <= t.len() {
                let e2 = Expr::Binary(op, Box::new(lhs), Box::new(rhs));
                assert(t.subrange(q0, p) =~= t.subrange(q0, pos) + seq![t[pos]] + t.subrange(pos + 1, p));
                lemma_tail_sound(t, k, e2, q0, p);
            }
        }
    } else if pos < t.len() && binary_op_of(t[pos]) is Some {
        lemma_binary_op_token(t[pos], binary_op_of(t[pos])->0);
    }
}

/// The number of nodes of an expression.
pub open spec fn expr_size(e: Expr) -> nat
    decreases e,
{
    match e {
        Expr::Unary(_, x) => 1 + expr_size(*x),
        Expr::Binary(_, l, r) => 1 + expr_size(*l) + expr_size(*r),
        Expr::Paren(x) => 1 + expr_size(*x),
        Expr::FnCall(_, _, args) => 1 + args_size(*args),
        _ => 1,
    }
}

/// The number of nodes of the arguments of a call.
pub open spec fn args_size(args: Args) -> nat
    decreases args,
{
    match args {
        Args::Nil => 0,
        Args::Cons(e, rest) => 1 + expr_size(*e) + args_size(*rest),
    }
}

/// The first operand of the chain of level-`k` operators at the top of `e`.
pub open spec fn leftmost(e: Expr, k: int) -> Expr
    decreases e,
{
    match e {
        Expr::Binary(op, l, _) => if precedence(op) == k {
            leftmost(*l, k)
        } else {
            e
        },
        _ => e,
    }
}

/// The tokens `t[pos..]` begin with `s`.
pub open spec fn prints_at(t: Seq<Token>, pos: int, s: Seq<Token>) -> bool {
    &&& 0 <= pos
    &&& pos + s.len() <= t.len()
    &&& t.subrange(pos, pos + s.len()) == s
}

/// A token that can begin an expression.
pub open spec fn starts_operand(t: Token) -> bool {
    match t {
        Token::IntLit(_) | Token::True | Token::False | Token::StrLit(_, _) | Token::Ident(_, _)
        | Token::LeftParen | Token::Minus | Token::Bang => true,
        _ => false,
    }
}

proof fn lemma_prints_sub(t: Seq<Token>, pos: int, s: Seq<Token>, i: int, j: int)
    requires
        prints_at(t, pos, s),
        0 <= i <= j <= s.len(),
    ensures
        prints_at(t, pos + i, s.subrange(i, j)),
        forall|m: int| i <= m < j ==> t[pos + m] == s[m],
{
    assert(t.subrange(pos + i, pos + j) =~= s.subrange(i, j)) by {
        assert forall|m: int| 0 <= m < j - i implies t.subrange(pos + i, pos + j)[m] == s.subrange(i, j)[m] by {
            assert(t.subrange(pos, pos + s.len())[i + m] == s[i + m]);
        }
    }
    assert forall|m: int| i <= m < j implies t[pos + m] == s[m] by {
        assert(t.subrange(pos, pos + s.len())[m] == s[m]);
    }
}

/// An expression prints to at least one token, and the first can begin an
/// expression.
pub proof fn lemma_print_first(e: Expr)
    ensures
        print_expr(e).len() >= 1,
        starts_operand(print_expr(e)[0]),
    decreases e,
{
    match e {
        Expr::Binary(op, l, r) => {
            lemma_print_first(*l);
            assert(print_expr(e)[0] == print_expr(*l)[0]);
        },
        Expr::Unary(_, x) => {
            lemma_print_first(*x);
        },
        Expr::Paren(x) => {
            lemma_print_first(*x);
        },
        Expr::FnCall(a, b, args) => {
            assert(print_expr(e)[0] == Token::Ident(a, b));
        },
        _ => {},
    }
}

/// What `leftmost` is: an operand that binds tighter than `k`, printed at
/// the start of `e` and followed there by an operator of level `k`.
pub proof fn lemma_leftmost(e: Expr, k: int)
    requires
        1 <= k <= 6,
        wf_expr(e),
        expr_level(e) >= k,
    ensures
        wf_expr(leftmost(e, k)),
        expr_level(leftmost(e, k)) > k,
        print_expr(leftmost(e, k)).len() <= print_expr(e).len(),
        print_expr(e).subrange(0, print_expr(leftmost(e, k)).len() as int) == print_expr(leftmost(e, k)),
        expr_size(leftmost(e, k)) <= expr_size(e),
        expr_level(e) > k ==> leftmost(e, k) == e,
        expr_level(e) == k ==> {
            &&& print_expr(leftmost(e, k)).len() < print_expr(e).len()
            &&& binary_op_of(print_expr(e)[print_expr(leftmost(e, k)).len() as int]) is Some
            &&& precedence(binary_op_of(print_expr(e)[print_expr(leftmost(e, k)).len() as int])->0) == k
            &&& expr_size(leftmost(e, k)) < expr_size(e)
        },
    decreases e,
{
    let a0 = leftmost(e, k);
    if let Expr::Binary(op, l, r) = e {
        if precedence(op) == k {
            lemma_leftmost(*l, k);
            let pl = print_expr(*l);
            let pa = print_expr(a0);
            let pe = print_expr(e);
            lemma_binary_op_token(binary_op_token(op), op);
            assert(pe.subrange(0, pa.len() as int) =~= pl.subrange(0, pa.len() as int));
            if expr_level(*l) == k {
                assert(pe[pa.len() as int] == pl[pa.len() as int]);
            } else {
                assert(pe[pa.len() as int] == binary_op_token(op));
            }
        } else {
            assert(print_expr(e).subrange(0, print_expr(e).len() as int) =~= print_expr(e));
        }
    } else {
        assert(print_expr(e).subrange(0, print_expr(e).len() as int) =~= print_expr(e));
    }
}

/// The parser finds every expression that respects precedence: where
/// `t[pos..]` begins with the tokens of `e`, and no operator of level `k`
/// or tighter follows them, parsing at level `k` gives `e` back.
pub proof fn lemma_expr_complete(t: Seq<Token>, pos: int, e: Expr, k: int)
    requires
        1 <= k <= 7,
        wf_expr(e),
        expr_level(e) >= k,
        prints_at(t, pos, print_expr(e)),
        stops_at(t, pos + print_expr(e).len(), k),
        no_call_at(t, pos + print_expr(e).len()),
    ensures
        parse_expr_at(t, pos, k) == Some((e, pos + print_expr(e).len())),
    decreases expr_size(e), 8 - k, 1int,
{
    let pe = print_expr(e);
    let end = pos + pe.len();
    lemma_print_first(e);
    lemma_prints_sub(t, pos, pe, 0, pe.len() as int);
    if k == 7 {
        assert(t[pos] == pe[0]);
        match e {
            Expr::Unit => {
                assert(t[pos + 1] == pe[1]);
                assert(parse_expr_at(t, pos, k) == Some((e, end)));
            },
            Expr::Unary(op, x) => {
                let px = print_expr(*x);
                assert(pe.subrange(1, pe.len() as int) =~= px);
                lemma_prints_sub(t, pos, pe, 1, pe.len() as int);
                if pos + 1 + px.len() < t.len() && binary_op_of(t[pos + 1 + px.len()]) is Some {
                    lemma_binary_op_token(t[pos + 1 + px.len()], binary_op_of(t[pos + 1 + px.len()])->0);
                }
                lemma_expr_complete(t, pos + 1, *x, 7);
                assert(parse_expr_at(t, pos, k) == Some((e, end)));
            },
            Expr::Paren(x) => {
                let px = print_expr(*x);
                lemma_print_first(*x);
                assert(pe.subrange(1, pe.len() - 1) =~= px);
                lemma_prints_sub(t, pos, pe, 1, pe.len() - 1);
                assert(t[pos + 1] == px[0]);
                assert(t[pos + pe.len() - 1] == pe[pe.len() - 1]);
                assert(pe[pe.len() - 1] == Token::RightParen);
                lemma_expr_complete(t, pos + 1, *x, 1);
                assert(parse_expr_at(t, pos, k) == Some((e, end)));
            },
            Expr::FnCall(a, b, args) => {
                let pa = print_args(*args);
                assert(pe.subrange(2, pe.len() as int) =~= pa);
                lemma_prints_sub(t, pos, pe, 2, pe.len() as int);
                assert(t[pos + 1] == pe[1]);
                lemma_args_complete(t, pos + 2, *args);
                assert(parse_expr_at(t, pos, k) == Some((e, end)));
            },
            Expr::Variable(a, b) => {
                assert(parse_expr_at(t, pos, k) == Some((e, end)));
            },
            _ => {
                assert(parse_expr_at(t, pos, k) == Some((e, end)));
            },
        }
    } else if expr_level(e) > k {
        lemma_expr_complete(t, pos, e, k + 1);
        if end < t.len() && binary_op_of(t[end]) is Some {
            lemma_binary_op_token(t[end], binary_op_of(t[end])->0);
        }
        assert(parse_tail(t, k, e, end) == Some((e, end)));
        assert(parse_expr_at(t, pos, k) == Some((e, end)));
    } else {
        let a0 = leftmost(e, k);
        lemma_leftmost(e, k);
        let pa = print_expr(a0);
        lemma_prints_sub(t, pos, pe, 0, pa.len() as int);
        assert(t[pos + pa.len()] == pe[pa.len() as int]);
        lemma_binary_op_token(pe[pa.len() as int], binary_op_of(pe[pa.len() as int])->0);
        lemma_expr_complete(t, pos, a0, k + 1);
        lemma_tail_complete(t, pos, e, k);
        if end < t.len() && binary_op_of(t[end]) is Some {
            lemma_binary_op_token(t[end], binary_op_of(t[end])->0);
        }
    }
}

/// The operators of level `k` that follow the first operand of `e` are
/// parsed into `e`: the tail from that operand reaches `e` at its end.
pub proof fn lemma_tail_complete(t: Seq<Token>, pos: int, e: Expr, k: int)
    requires
        1 <= k <= 6,
        wf_expr(e),
        expr_level(e) >= k,
        prints_at(t, pos, print_expr(e)),
        stops_at(t, pos + print_expr(e).len(), k + 1),
        no_call_at(t, pos + print_expr(e).len()),
    ensures
        parse_tail(t, k, leftmost(e, k), pos + print_expr(leftmost(e, k)).len())
            == parse_tail(t, k, e, pos + print_expr(e).len()),
    decreases expr_size(e), 8 - k, 0int,
{
    if expr_level(e) == k {
        if let Expr::Binary(op, l, r) = e {
            let pe = print_expr(e);
            let pl = print_expr(*l);
            let pr = print_expr(*r);
            let end_l = pos + pl.len();
            lemma_binary_op_token(binary_op_token(op), op);
            assert(pe.subrange(0, pl.len() as int) =~= pl);
            assert(pe.subrange(pl.len() + 1int, pe.len() as int) =~= pr);
            lemma_prints_sub(t, pos, pe, 0, pl.len() as int);
            lemma_prints_sub(t, pos, pe, pl.len() + 1int, pe.len() as int);
            lemma_prints_sub(t, pos, pe, pl.len() as int, pl.len() + 1int);
            assert(pe[pl.len() as int] == binary_op_token(op));
            assert(t[end_l] == binary_op_token(op));
            lemma_tail_complete(t, pos, *l, k);
            lemma_expr_complete(t, end_l + 1, *r, k + 1);
            assert(Expr::Binary(op, Box::new(*l), Box::new(*r)) == e);
        }
    }
}

/// The parser finds the arguments of every call that respects precedence:
/// where `t[pos..]` begins with their tokens, parsing arguments there gives
/// them back, and so it does where the list may not be empty but is not.
pub proof fn lemma_args_complete(t: Seq<Token>, pos: int, args: Args)
    requires
        wf_args(args),
        prints_at(t, pos, print_args(args)),
    ensures
        parse_args(t, pos, true) == Some((args, pos + print_args(args).len())),
        args is Cons ==> parse_args(t, pos, false) == Some((args, pos + print_args(args).len())),
    decreases args_size(args), 0int, 0int,
{
    let pa = print_args(args);
    lemma_prints_sub(t, pos, pa, 0, pa.len() as int);
    match args {
        Args::Nil => {
            assert(t[pos] == pa[0]);
        },
        Args::Cons(e, rest) => {
            let pe = print_expr(*e);
            lemma_print_first(*e);
            assert(pa.subrange(0, pe.len() as int) =~= pe);
            lemma_prints_sub(t, pos, pa, 0, pe.len() as int);
            assert(t[pos] == pe[0]);
            assert(t[pos + pe.len()] == pa[pe.len() as int]);
            lemma_expr_complete(t, pos, *e, 1);
            match *rest {
                Args::Nil => {},
                _ => {
                    let pr = print_args(*rest);
                    let n = pe.len() as int;
                    assert(pa.subrange(n + 1, pa.len() as int) =~= pr);
                    lemma_prints_sub(t, pos, pa, n + 1, pa.len() as int);
                    lemma_args_complete(t, pos + pe.len() + 1, *rest);
                },
            }
        },
    }
}

/// The parser finds every list of parameters: where `t[pos..]` begins with
/// their tokens, parsing parameters there gives them back, and so it does
/// where the list may not be empty but is not.
pub proof fn lemma_params_complete(t: Seq<Token>, pos: int, ps: Params)
    requires
        prints_at(t, pos, print_params(ps)),
    ensures
        parse_params(t, pos, true) == Some((ps, pos + print_params(ps).len())),
        ps is Cons ==> parse_params(t, pos, false) == Some((ps, pos + print_params(ps).len())),
    decreases ps,
{
    let pp = print_params(ps);
    lemma_prints_sub(t, pos, pp, 0, pp.len() as int);
    match ps {
        Params::Nil => {
            assert(t[pos] == pp[0]);
        },
        Params::Cons(a, b, rest) => {
            assert(t[pos] == pp[0]);
            assert(t[pos + 1] == pp[1]);
            match *rest {
                Params::Nil => {},
                _ => {
                    let pr = print_params(*rest);
                    assert(pp.subrange(2, pp.len() as int) =~= pr);
                    lemma_prints_sub(t, pos, pp, 2, pp.len() as int);
                    lemma_params_complete(t, pos + 2, *rest);
                },
            }
        },
    }
}

/// A token that can stand inside an expression: no assignment, no `let`,
/// `const` or `;`.
pub open spec fn expr_token(t: Token) -> bool {
    &&& assign_op_of(t) is None
    &&& t != Token::Let
    &&& t != Token::Const
    &&& t != Token::SemiColon
    &&& t != Token::Fn
}

/// An expression is written with expression tokens only.
pub proof fn lemma_print_tokens(e: Expr)
    ensures
        forall|i: int| 0 <= i < print_expr(e).len() ==> expr_token(#[trigger] print_expr(e)[i]),
    decreases e,
{
    let pe = print_expr(e);
    match e {
        Expr::Unary(op, x) => {
            lemma_print_tokens(*x);
            assert forall|i: int| 0 <= i < pe.len() implies expr_token(#[trigger] pe[i]) by {
                if i > 0 {
                    assert(pe[i] == print_expr(*x)[i - 1]);
                }
            }
        },
        Expr::Binary(op, l, r) => {
            lemma_print_tokens(*l);
            lemma_print_tokens(*r);
            let pl = print_expr(*l);
            assert forall|i: int| 0 <= i < pe.len() implies expr_token(#[trigger] pe[i]) by {
                if i < pl.len() {
                    assert(pe[i] == pl[i]);
                } else if i > pl.len() {
                    assert(pe[i] == print_expr(*r)[i - pl.len() - 1]);
                }
            }
        },
        Expr::Paren(x) => {
            lemma_print_tokens(*x);
            assert forall|i: int| 0 <= i < pe.len() implies expr_token(#[trigger] pe[i]) by {
                if 0 < i < pe.len() - 1 {
                    assert(pe[i] == print_expr(*x)[i - 1]);
                }
            }
        },
        Expr::FnCall(a, b, args) => {
            lemma_print_args_tokens(*args);
            assert forall|i: int| 0 <= i < pe.len() implies expr_token(#[trigger] pe[i]) by {
                if i >= 2 {
                    assert(pe[i] == print_args(*args)[i - 2]);
                }
            }
        },
        _ => {},
    }
}

/// The arguments of a call are written with expression tokens only.
pub proof fn lemma_print_args_tokens(args: Args)
    ensures
        forall|i: int| 0 <= i < print_args(args).len() ==> expr_token(#[trigger] print_args(args)[i]),
    decreases args,
{
    let pa = print_args(args);
    if let Args::Cons(e, rest) = args {
        lemma_print_tokens(*e);
        let pe = print_expr(*e);
        match *rest {
            Args::Nil => {
                assert forall|i: int| 0 <= i < pa.len() implies expr_token(#[trigger] pa[i]) by {
                    if i < pe.len() {
                        assert(pa[i] == pe[i]);
                    }
                }
            },
            _ => {
                lemma_print_args_tokens(*rest);
                assert forall|i: int| 0 <= i < pa.len() implies expr_token(#[trigger] pa[i]) by {
                    if i < pe.len() {
                        assert(pa[i] == pe[i]);
                    } else if i > pe.len() {
                        assert(pa[i] == print_args(*rest)[i - pe.len() - 1]);
                    }
                }
            },
        }
    }
}

proof fn lemma_assign_token(op: Option<BinaryOperator>, t: Token)
    ensures
        assign_op_of(t) == Some(op) ==> assign_token(op) == t,
        (op matches Some(o) ==> (o == BinaryOperator::Plus || o == BinaryOperator::Minus
            || o == BinaryOperator::Multiply || o == BinaryOperator::Divide || o == BinaryOperator::Modulo))
            ==> assign_op_of(assign_token(op)) == Some(op),
        assign_op_of(t) matches Some(Some(o)) ==> (o == BinaryOperator::Plus || o == BinaryOperator::Minus
            || o == BinaryOperator::Multiply || o == BinaryOperator::Divide || o == BinaryOperator::Modulo),
{
}

/// A statement parsed from `pos` is printed by the tokens it was parsed
/// from, and can be written.
pub proof fn lemma_stmt_sound(t: Seq<Token>, pos: int)
    ensures
        parse_statement(t, pos) matches Some((s, p)) ==> {
            &&& 0 <= pos < p <= t.len()
            &&& t.subrange(pos, p) == print_stmt(s)
            &&& wf_stmt(s)
        },
{
    if 0 <= pos < t.len() {
        if t[pos] == Token::Fn {
            if pos + 2 < t.len() && t[pos + 1] is Ident && t[pos + 2] == Token::LeftParen {
                lemma_params_sound(t, pos + 3, true);
                if let Some((ps, q)) = parse_params(t, pos + 3, true) {
                    if 0 <= q < t.len() && t[q] == Token::LeftBrace {
                        lemma_expr_sound(t, q + 1, 1);
                        if let Some((body, r)) = parse_expr_at(t, q + 1, 1) {
                            if 0 <= r < t.len() && t[r] == Token::RightBrace {
                                assert(t.subrange(pos, r + 1) =~= seq![t[pos], t[pos + 1], t[pos + 2]]
                                    + t.subrange(pos + 3, q) + seq![Token::LeftBrace] + t.subrange(q + 1, r)
                                    + seq![Token::RightBrace]);
                            }
                        }
                    }
                }
            }
        } else if t[pos] == Token::Let || t[pos] == Token::Const {
            if pos + 1 < t.len() && t[pos + 1] is Ident {
                if pos + 2 < t.len() && t[pos + 2] == Token::Equals {
                    lemma_expr_sound(t, pos + 3, 1);
                    if let Some((e, p)) = parse_expr_at(t, pos + 3, 1) {
                        assert(t.subrange(pos, p) =~= seq![t[pos], t[pos + 1], t[pos + 2]] + t.subrange(pos + 3, p));
                    }
                } else {
                    assert(t.subrange(pos, pos + 2) =~= seq![t[pos], t[pos + 1]]);
                }
            }
        } else if t[pos] is Ident && pos + 1 < t.len() && assign_op_of(t[pos + 1]) is Some {
            lemma_assign_token(assign_op_of(t[pos + 1])->0, t[pos + 1]);
            lemma_expr_sound(t, pos + 2, 1);
            if let Some((e, p)) = parse_expr_at(t, pos + 2, 1) {
                assert(t.subrange(pos, p) =~= seq![t[pos], t[pos + 1]] + t.subrange(pos + 2, p));
            }
        } else {
            lemma_expr_sound(t, pos, 1);
        }
    }
}

/// The parser finds every statement that can be written, when it is a
/// function definition, or a `;` or the end follows it.
pub proof fn lemma_stmt_complete(t: Seq<Token>, pos: int, s: Stmt)
    requires
        wf_stmt(s),
        prints_at(t, pos, print_stmt(s)),
        s is FnDef || pos + print_stmt(s).len() == t.len() || t[pos + print_stmt(s).len()] == Token::SemiColon,
    ensures
        parse_statement(t, pos) == Some((s, pos + print_stmt(s).len())),
{
    let ps = print_stmt(s);
    let end = pos + ps.len();
    lemma_prints_sub(t, pos, ps, 0, ps.len() as int);
    match s {
        Stmt::Var(a, b, access, init) => {
            assert(t[pos] == ps[0]);
            assert(t[pos + 1] == ps[1]);
            if let Some(e) = init {
                let pe = print_expr(e);
                assert(t[pos + 2] == ps[2]);
                assert(ps.subrange(3, ps.len() as int) =~= pe);
                lemma_prints_sub(t, pos, ps, 3, ps.len() as int);
                lemma_expr_complete(t, pos + 3, e, 1);
            }
        },
        Stmt::Assignment(a, b, op, e) => {
            let pe = print_expr(e);
            assert(t[pos] == ps[0]);
            assert(t[pos + 1] == ps[1]);
            lemma_assign_token(op, t[pos + 1]);
            assert(ps.subrange(2, ps.len() as int) =~= pe);
            lemma_prints_sub(t, pos, ps, 2, ps.len() as int);
            lemma_expr_complete(t, pos + 2, e, 1);
        },
        Stmt::Expr(e) => {
            lemma_print_first(e);
            lemma_print_tokens(e);
            assert(t[pos] == ps[0]);
            assert(expr_token(ps[0]));
            if pos + 1 < t.len() {
                if ps.len() > 1 {
                    assert(t[pos + 1] == ps[1]);
                    assert(expr_token(ps[1]));
                }
            }
            lemma_expr_complete(t, pos, e, 1);
        },
        Stmt::FnDef(a, b, prm, body) => {
            let pp = print_params(prm);
            let pb = print_expr(body);
            let q = 3 + pp.len() as int;
            let nb = pb.len() as int;
            assert(t[pos] == ps[0]);
            assert(t[pos + 1] == ps[1]);
            assert(t[pos + 2] == ps[2]);
            assert(ps.subrange(3, q) =~= pp);
            lemma_prints_sub(t, pos, ps, 3, q);
            lemma_params_complete(t, pos + 3, prm);
            assert(t[pos + q] == ps[q]);
            assert(ps.subrange(q + 1, q + 1 + nb) =~= pb);
            lemma_prints_sub(t, pos, ps, q + 1, q + 1 + nb);
            assert(t[pos + q + 1 + nb] == ps[q + 1 + nb]);
            lemma_expr_complete(t, pos + q + 1, body, 1);
        },
    }
}

/// A statement prints to at least one token.
pub proof fn lemma_print_stmt_nonempty(s: Stmt)
    ensures
        print_stmt(s).len() >= 1,
{
    match s {
        Stmt::Expr(e) => lemma_print_first(e),
        Stmt::Assignment(_, _, _, e) => {},
        Stmt::Var(_, _, _, _) => {},
        Stmt::FnDef(_, _, _, _) => {},
    }
}

/// Statements parsed from `pos` print to the rest of the tokens, and can be
/// written as a script.
pub proof fn lemma_stmts_sound(t: Seq<Token>, pos: int)
    ensures
        parse_statements(t, pos) matches Some((ss, term)) ==> {
            &&& t.subrange(pos, t.len() as int) == print_stmts(ss, term)
            &&& wf_script(ss, term)
        },
    decreases t.len() - pos,
{
    if 0 <= pos <= t.len() {
        if pos == t.len() {
            assert(t.subrange(pos, t.len() as int) =~= seq![]);
        } else {
            lemma_stmt_sound(t, pos);
            if let Some((s, p)) = parse_statement(t, pos) {
                if pos < p <= t.len() && p < t.len() {
                    if s is FnDef || t[p] == Token::SemiColon {
                        let next = if s is FnDef { p } else { p + 1 };
                        if next == t.len() {
                            assert(t.subrange(pos, t.len() as int) =~= t.subrange(pos, p) + seq![Token::SemiColon]);
                        } else {
                            lemma_stmts_sound(t, next);
                            if let Some((ss, term)) = parse_statements(t, next) {
                                let all = seq![s] + ss;
                                assert(all.drop_first() =~= ss);
                                if ss.len() == 0 {
                                    assert(t.subrange(next, t.len() as int).len() > 0);
                                }
                                assert(all.last() == ss.last());
                                assert(t.subrange(pos, t.len() as int) =~= t.subrange(pos, p) + print_sep(s)
                                    + t.subrange(next, t.len() as int));
                                assert forall|i: int| 0 <= i < all.len() implies wf_stmt(#[trigger] all[i]) by {
                                    if i > 0 {
                                        assert(all[i] == ss[i - 1]);
                                    }
                                }
                            }
                        }
                    }
                }
            }
        }
    }
}

/// Statements of a script that is not empty print to at least one token.
pub proof fn lemma_print_stmts_nonempty(ss: Seq<Stmt>, term: bool)
    ensures
        ss.len() >= 1 ==> print_stmts(ss, term).len() >= 1,
{
    if ss.len() >= 1 {
        lemma_print_stmt_nonempty(ss[0]);
    }
}

/// The parser finds every script that can be written.
pub proof fn lemma_stmts_complete(t: Seq<Token>, pos: int, ss: Seq<Stmt>, term: bool)
    requires
        wf_script(ss, term),
        0 <= pos <= t.len(),
        t.subrange(pos, t.len() as int) == print_stmts(ss, term),
    ensures
        parse_statements(t, pos) == Some((ss, term)),
    decreases ss.len(),
{
    let rest = t.subrange(pos, t.len() as int);
    if ss.len() == 0 {
        assert(rest.len() == 0);
        assert(ss =~= seq![]);
    } else {
        let s0 = ss[0];
        let p0 = print_stmt(s0);
        lemma_print_stmt_nonempty(s0);
        assert(wf_stmt(ss[0]));
        let end = pos + p0.len();
        if ss.len() == 1 {
            assert(rest.subrange(0, p0.len() as int) =~= p0);
            lemma_prints_sub(t, pos, rest, 0, p0.len() as int);
            if term {
                assert(ss.last() == s0);
                assert(rest[p0.len() as int] == Token::SemiColon);
                lemma_prints_sub(t, pos, rest, 0, rest.len() as int);
            }
            lemma_stmt_complete(t, pos, s0);
            assert(ss =~= seq![s0]);
        } else {
            let tail = ss.drop_first();
            let pt = print_stmts(tail, term);
            let sep = print_sep(s0);
            let next = end + sep.len();
            lemma_print_stmts_nonempty(tail, term);
            assert(rest.subrange(0, p0.len() as int) =~= p0);
            lemma_prints_sub(t, pos, rest, 0, rest.len() as int);
            if !(s0 is FnDef) {
                assert(rest[p0.len() as int] == Token::SemiColon);
            }
            lemma_prints_sub(t, pos, rest, 0, p0.len() as int);
            lemma_stmt_complete(t, pos, s0);
            assert(t.subrange(next, t.len() as int) =~= pt) by {
                assert(rest.subrange(p0.len() + sep.len() as int, rest.len() as int) =~= pt);
            }
            assert(wf_script(tail, term)) by {
                assert forall|i: int| 0 <= i < tail.len() implies wf_stmt(#[trigger] tail[i]) by {
                    assert(tail[i] == ss[i + 1]);
                }
                assert(tail.last() == ss.last());
            }
            lemma_stmts_complete(t, next, tail, term);
            assert(seq![s0] + tail =~= ss);
        }
    }
}

/// Parsing a script gives back exactly the statements that print to it:
/// for every token sequence, `parse_script` succeeds if and only if the
/// tokens are the printing of statements that can be written, and then it
/// returns those statements.
pub proof fn law_parse_script_is_inverse_of_printing(t: Seq<Token>, ss: Seq<Stmt>, term: bool)
    ensures
        parse_script(t) == Some((ss, term)) <==> (wf_script(ss, term) && print_stmts(ss, term) == t),
{
    lemma_stmts_sound(t, 0);
    assert(t.subrange(0, t.len() as int) =~= t);
    if wf_script(ss, term) && print_stmts(ss, term) == t {
        lemma_stmts_complete(t, 0, ss, term);
    }
}

/// The grammar is unambiguous: two scripts that can be written and print
/// to the same tokens are the same.
pub proof fn law_printing_is_injective(ss1: Seq<Stmt>, term1: bool, ss2: Seq<Stmt>, term2: bool)
    requires
        wf_script(ss1, term1),
        wf_script(ss2, term2),
        print_stmts(ss1, term1) == print_stmts(ss2, term2),
    ensures
        ss1 == ss2,
        term1 == term2,
{
    law_parse_script_is_inverse_of_printing(print_stmts(ss1, term1), ss1, term1);
    law_parse_script_is_inverse_of_printing(print_stmts(ss1, term1), ss2, term2);
}

/// Parsing a whole expression gives back exactly the expression that
/// prints to the tokens, where one respecting precedence does.
pub proof fn law_parse_expression_is_inverse_of_printing(t: Seq<Token>, e: Expr)
    ensures
        crate::parser::parse_expression(t) == Some(e) <==> (wf_expr(e) && print_expr(e) == t),
{
    lemma_expr_sound(t, 0, 1);
    if let Some((e2, p)) = parse_expr_at(t, 0, 1) {
        if p == t.len() {
            assert(t.subrange(0, p) =~= t);
        }
    }
    if wf_expr(e) && print_expr(e) == t {
        assert(t.subrange(0, t.len() as int) =~= t);
        lemma_expr_complete(t, 0, e, 1);
    }
}

} // verus!
