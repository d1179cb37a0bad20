//! The syntax tree of a script.

use vstd::prelude::*;
use crate::scope::{entries_of, AccessMode, Entry, ScopeEntry};

verus! {

/// An operator between two operands.
#[derive(Clone, Copy, Debug, PartialEq, Eq, Structural)]
pub enum BinaryOperator {
    Plus,
    Minus,
    Multiply,
    Divide,
    Modulo,
    EqualsTo,
    NotEqualsTo,
    LessThan,
    LessThanEqualsTo,
    GreaterThan,
    GreaterThanEqualsTo,
    /// `&&`, which evaluates its right operand only when needed.
    And,
    /// `||`, which evaluates its right operand only when needed.
    Or,
}

/// An operator in front of its operand.
#[derive(Clone, Copy, Debug, PartialEq, Eq, Structural)]
pub enum UnaryOperator {
    Negate,
    Not,
}

/// An expression. Strings and names are ranges `[start, end)` of the
/// script's characters.
#[derive(Debug)]
pub enum Expr {
    IntConst(i64),
    BoolConst(bool),
    StringConst(usize, usize),
    /// `()`.
    Unit,
    Variable(usize, usize),
    Unary(UnaryOperator, Box<Expr>),
    Binary(BinaryOperator, Box<Expr>, Box<Expr>),
    /// An expression in parentheses.
    Paren(Box<Expr>),
    /// A call `name(args)`: the range of the name, and the arguments.
    FnCall(usize, usize, Box<Args>),
}

/// The arguments of a call, as a list.
#[derive(Debug)]
pub enum Args {
    Nil,
    Cons(Box<Expr>, Box<Args>),
}

/// A statement.
#[derive(Debug)]
pub enum Stmt {
    /// `let name = init`, `let name` or `const name = init`: the range of the
    /// name, whether it is a constant, and the initial value.
    Var(usize, usize, AccessMode, Option<Expr>),
    /// `name = value` or `name op= value`: the range of the name, the operator
    /// of a compound assignment, and the value.
    Assignment(usize, usize, Option<BinaryOperator>, Expr),
    /// An expression whose value is the statement's value.
    Expr(Expr),
    /// `fn name(params) { body }`: the range of the name, the ranges of the
    /// parameters, and the body.
    FnDef(usize, usize, Params, Expr),
}

/// The parameters of a function, as a list of ranges of names.
#[derive(Debug)]
pub enum Params {
    Nil,
    Cons(usize, usize, Box<Params>),
}

/// Whether every range of characters in an expression lies within `n` characters.
pub open spec fn expr_spans_ok(e: Expr, n: int) -> bool
    decreases e,
{
    match e {
        Expr::StringConst(a, b) => a <= b <= n,
        Expr::Variable(a, b) => a <= b <= n,
        Expr::Unary(_, x) => expr_spans_ok(*x, n),
        Expr::Binary(_, l, r) => expr_spans_ok(*l, n) && expr_spans_ok(*r, n),
        Expr::Paren(x) => expr_spans_ok(*x, n),
        Expr::FnCall(a, b, args) => a <= b <= n && args_spans_ok(*args, n),
        _ => true,
    }
}

/// Whether every range of characters in arguments lies within `n` characters.
pub open spec fn args_spans_ok(args: Args, n: int) -> bool
    decreases args,
{
    match args {
        Args::Nil => true,
        Args::Cons(e, rest) => expr_spans_ok(*e, n) && args_spans_ok(*rest, n),
    }
}

/// Whether the range of every parameter lies within `n` characters.
pub open spec fn params_spans_ok(ps: Params, n: int) -> bool
    decreases ps,
{
    match ps {
        Params::Nil => true,
        Params::Cons(a, b, rest) => a <= b <= n && params_spans_ok(*rest, n),
    }
}

/// Whether every range of characters in a statement lies within `n` characters.
pub open spec fn stmt_spans_ok(s: Stmt, n: int) -> bool {
    match s {
        Stmt::Var(a, b, _, init) => a <= b <= n && (init matches Some(e) ==> expr_spans_ok(e, n)),
        Stmt::Assignment(a, b, _, e) => a <= b <= n && expr_spans_ok(e, n),
        Stmt::Expr(e) => expr_spans_ok(e, n),
        Stmt::FnDef(a, b, ps, body) => a <= b <= n && params_spans_ok(ps, n) && expr_spans_ok(body, n),
    }
}

/// Whether every range of characters in statements lies within `n` characters.
pub open spec fn stmts_spans_ok(s: Seq<Stmt>, n: int) -> bool {
    forall|i: int| 0 <= i < s.len() ==> stmt_spans_ok(#[trigger] s[i], n)
}

/// A compiled script: its text, its statements, and an optional name of
/// where it came from.
pub struct AST {
    text: String,
    chars: Vec<char>,
    statements: Vec<Stmt>,
    terminated: bool,
    source: Option<String>,
    constants: Vec<ScopeEntry>,
}

/// A copy of an optional string.
pub fn clone_option_string(o: &Option<String>) -> (r: Option<String>)
    ensures
        r == *o,
{
    match o {
        Some(s) => Some(s.clone()),
        None => None,
    }
}

impl AST {
    #[verifier::type_invariant]
    spec fn well_formed(self) -> bool {
        &&& self.chars@ == self.text@
        &&& stmts_spans_ok(self.statements@, self.text@.len() as int)
    }

    /// The characters of the script.
    pub closed spec fn text_spec(&self) -> Seq<char> {
        self.text@
    }

    /// The statements of the script.
    pub closed spec fn statements_spec(&self) -> Seq<Stmt> {
        self.statements@
    }

    /// Whether the last statement ends in `;`.
    pub closed spec fn terminated_spec(&self) -> bool {
        self.terminated
    }

    /// The name of where the script came from.
    pub closed spec fn source_spec(&self) -> Option<String> {
        self.source
    }

    /// The constants that the script's functions see: those of the scope
    /// that it was compiled with.
    pub closed spec fn constants_spec(&self) -> Seq<Entry> {
        entries_of(self.constants@)
    }

    /// The constants that the script's functions see.
    pub fn constants(&self) -> (c: &Vec<ScopeEntry>)
        ensures
            entries_of(c@) == self.constants_spec(),
    {
        &self.constants
    }

    /// An AST of a script's text and statements, with no source name, whose
    /// functions see the given constants.
    pub fn new(text: String, chars: Vec<char>, statements: Vec<Stmt>, terminated: bool, constants: Vec<ScopeEntry>) -> (a: AST)
        requires
            chars@ == text@,
            stmts_spans_ok(statements@, text@.len() as int),
        ensures
            a.text_spec() == text@,
            a.statements_spec() == statements@,
            a.terminated_spec() == terminated,
            a.source_spec() is None,
            a.constants_spec() == entries_of(constants@),
    {
        AST { text, chars, statements, terminated, source: None, constants }
    }

    /// The characters of the script, as a vector.
    pub fn chars(&self) -> (c: &Vec<char>)
        ensures
            c@ == self.text_spec(),
            stmts_spans_ok(self.statements_spec(), c@.len() as int),
    {
        proof {
            use_type_invariant(self);
        }
        &self.chars
    }

    /// The text of the script.
    pub fn text(&self) -> (t: &str)
        ensures
            t@ == self.text_spec(),
    {
        self.text.as_str()
    }

    /// The statements of the script.
    pub fn statements(&self) -> (s: &Vec<Stmt>)
        ensures
            s@ == self.statements_spec(),
    {
        &self.statements
    }

    /// The name of where the script came from.
    pub fn source_raw(&self) -> (s: &Option<String>)
        ensures
            *s == self.source_spec(),
    {
        &self.source
    }

    /// Names where the script came from.
    pub fn set_source(&mut self, source: &str)
        ensures
            final(self).text_spec() == old(self).text_spec(),
            final(self).statements_spec() == old(self).statements_spec(),
            final(self).terminated_spec() == old(self).terminated_spec(),
            final(self).constants_spec() == old(self).constants_spec(),
            final(self).source_spec() matches Some(s) && s@ == source@,
    {
        proof {
            use_type_invariant(&*self);
        }
        self.source = Some(String::from_str(source));
    }
}

} // verus!
