//! Tokens and the lexer that turns a script's characters into them.

use vstd::prelude::*;
use crate::error::ParseError;

verus! {

/// A token of a script. Literals and names refer to the script's characters
/// by a range `[start, end)` of character indices.
#[derive(Clone, Copy, Debug, PartialEq, Eq, Structural)]
pub enum Token {
    IntLit(i64),
    /// The characters between the two quotes.
    StrLit(usize, usize),
    Ident(usize, usize),
    True,
    False,
    Let,
    Const,
    Plus,
    Minus,
    Multiply,
    Divide,
    Modulo,
    EqualsTo,
    NotEqualsTo,
    LessThan,
    LessThanEqualsTo,
    GreaterThan,
    GreaterThanEqualsTo,
    And,
    Or,
    Bang,
    Equals,
    PlusAssign,
    MinusAssign,
    MultiplyAssign,
    DivideAssign,
    ModuloAssign,
    LeftParen,
    RightParen,
    SemiColon,
    Fn,
    LeftBrace,
    RightBrace,
    Comma,
}

pub open spec fn is_space(c: char) -> bool {
    c == ' ' || c == '\t' || c == '\n' || c == '\r'
}

pub open spec fn is_digit(c: char) -> bool {
    '0' <= c && c <= '9'
}

pub open spec fn is_ident_start(c: char) -> bool {
    ('a' <= c && c <= 'z') || ('A' <= c && c <= 'Z') || c == '_'
}

pub open spec fn is_ident_char(c: char) -> bool {
    is_ident_start(c) || is_digit(c)
}

/// The end of the run of digits that starts at `i`.
pub open spec fn digits_end(cs: Seq<char>, i: int) -> int
    decreases cs.len() - i,
{
    if 0 <= i < cs.len() && is_digit(cs[i]) {
        digits_end(cs, i + 1)
    } else {
        i
    }
}

/// The end of the run of name characters that starts at `i`.
pub open spec fn ident_end(cs: Seq<char>, i: int) -> int
    decreases cs.len() - i,
{
    if 0 <= i < cs.len() && is_ident_char(cs[i]) {
        ident_end(cs, i + 1)
    } else {
        i
    }
}

/// The index of the first quote at or after `i`.
pub open spec fn quote_at_or_after(cs: Seq<char>, i: int) -> Option<int>
    decreases cs.len() - i,
{
    if i < 0 || i >= cs.len() {
        None
    } else if cs[i] == '"' {
        Some(i)
    } else {
        quote_at_or_after(cs, i + 1)
    }
}

pub open spec fn digit_value(c: char) -> int {
    (c as int) - ('0' as int)
}

/// The number that the decimal digits `cs[i..j]` spell.
pub open spec fn digits_value(cs: Seq<char>, i: int, j: int) -> int
    decreases j - i,
{
    if j <= i {
        0
    } else {
        digits_value(cs, i, j - 1) * 10 + digit_value(cs[j - 1])
    }
}

/// The keyword that a word spells, if any.
pub open spec fn keyword(w: Seq<char>) -> Option<Token> {
    if w == "let"@ {
        Some(Token::Let)
    } else if w == "const"@ {
        Some(Token::Const)
    } else if w == "true"@ {
        Some(Token::True)
    } else if w == "false"@ {
        Some(Token::False)
    } else if w == "fn"@ {
        Some(Token::Fn)
    } else {
        None
    }
}

/// The operator spelled by two characters, if any.
pub open spec fn two_char_op(c: char, d: char) -> Option<Token> {
    if d == '=' {
        if c == '=' {
            Some(Token::EqualsTo)
        } else if c == '!' {
            Some(Token::NotEqualsTo)
        } else if c == '<' {
            Some(Token::LessThanEqualsTo)
        } else if c == '>' {
            Some(Token::GreaterThanEqualsTo)
        } else if c == '+' {
            Some(Token::PlusAssign)
        } else if c == '-' {
            Some(Token::MinusAssign)
        } else if c == '*' {
            Some(Token::MultiplyAssign)
        } else if c == '/' {
            Some(Token::DivideAssign)
        } else if c == '%' {
            Some(Token::ModuloAssign)
        } else {
            None
        }
    } else if c == '&' && d == '&' {
        Some(Token::And)
    } else if c == '|' && d == '|' {
        Some(Token::Or)
    } else {
        None
    }
}

/// The operator or punctuation spelled by one character, if any.
pub open spec fn one_char_op(c: char) -> Option<Token> {
    if c == '+' {
        Some(Token::Plus)
    } else if c == '-' {
        Some(Token::Minus)
    } else if c == '*' {
        Some(Token::Multiply)
    } else if c == '/' {
        Some(Token::Divide)
    } else if c == '%' {
        Some(Token::Modulo)
    } else if c == '<' {
        Some(Token::LessThan)
    } else if c == '>' {
        Some(Token::GreaterThan)
    } else if c == '!' {
        Some(Token::Bang)
    } else if c == '=' {
        Some(Token::Equals)
    } else if c == '(' {
        Some(Token::LeftParen)
    } else if c == ')' {
        Some(Token::RightParen)
    } else if c == ';' {
        Some(Token::SemiColon)
    } else if c == '{' {
        Some(Token::LeftBrace)
    } else if c == '}' {
        Some(Token::RightBrace)
    } else if c == ',' {
        Some(Token::Comma)
    } else {
        None
    }
}

/// The operator at `i`, longest first, and its length in characters.
pub open spec fn operator_at(cs: Seq<char>, i: int) -> Option<(Token, int)> {
    if 0 <= i && i + 1 < cs.len() && two_char_op(cs[i], cs[i + 1]) is Some {
        Some((two_char_op(cs[i], cs[i + 1])->0, 2))
    } else if 0 <= i < cs.len() && one_char_op(cs[i]) is Some {
        Some((one_char_op(cs[i])->0, 1))
    } else {
        None
    }
}

/// `t` followed by the tokens of `rest`, or the error of `rest`.
pub open spec fn prepend(t: Seq<Token>, rest: Result<Seq<Token>, ParseError>) -> Result<Seq<Token>, ParseError> {
    match rest {
        Ok(s) => Ok(t + s),
        Err(e) => Err(e),
    }
}

pub proof fn lemma_digits_end(cs: Seq<char>, i: int)
    requires
        0 <= i <= cs.len(),
    ensures
        i <= digits_end(cs, i) <= cs.len(),
        forall|k: int| i <= k < digits_end(cs, i) ==> is_digit(#[trigger] cs[k]),
        digits_end(cs, i) < cs.len() ==> !is_digit(cs[digits_end(cs, i)]),
    decreases cs.len() - i,
{
    if i < cs.len() && is_digit(cs[i]) {
        lemma_digits_end(cs, i + 1);
    }
}

pub proof fn lemma_ident_end(cs: Seq<char>, i: int)
    requires
        0 <= i <= cs.len(),
    ensures
        i <= ident_end(cs, i) <= cs.len(),
        forall|k: int| i <= k < ident_end(cs, i) ==> is_ident_char(#[trigger] cs[k]),
        ident_end(cs, i) < cs.len() ==> !is_ident_char(cs[ident_end(cs, i)]),
    decreases cs.len() - i,
{
    if i < cs.len() && is_ident_char(cs[i]) {
        lemma_ident_end(cs, i + 1);
    }
}

pub proof fn lemma_quote(cs: Seq<char>, i: int)
    requires
        0 <= i <= cs.len(),
    ensures
        quote_at_or_after(cs, i) matches Some(j) ==> i <= j < cs.len() && cs[j] == '"',
        forall|k: int| i <= k < cs.len() && (quote_at_or_after(cs, i) matches Some(j) ==> k < j)
            ==> #[trigger] cs[k] != '"',
    decreases cs.len() - i,
{
    if i < cs.len() && cs[i] != '"' {
        lemma_quote(cs, i + 1);
    }
}

/// The tokens of `cs[i..]`: blanks are skipped, and each token is the
/// longest that starts where it does.
pub open spec fn lex_from(cs: Seq<char>, i: int) -> Result<Seq<Token>, ParseError>
    decreases cs.len() - i,
{
    if i < 0 || i >= cs.len() {
        Ok(seq![])
    } else {
        let c = cs[i];
        if is_space(c) {
            lex_from(cs, i + 1)
        } else if is_digit(c) {
            let j = digits_end(cs, i);
            proof {
                lemma_digits_end(cs, i);
            }
            if digits_value(cs, i, j) > i64::MAX {
                Err(ParseError::MalformedNumber)
            } else {
                prepend(seq![Token::IntLit(digits_value(cs, i, j) as i64)], lex_from(cs, j))
            }
        } else if is_ident_start(c) {
            let j = ident_end(cs, i);
            proof {
                lemma_ident_end(cs, i);
            }
            let t = match keyword(cs.subrange(i, j)) {
                Some(k) => k,
                None => Token::Ident(i as usize, j as usize),
            };
            prepend(seq![t], lex_from(cs, j))
        } else if c == '"' {
            proof {
                lemma_quote(cs, i + 1);
            }
            match quote_at_or_after(cs, i + 1) {
                Some(j) => prepend(seq![Token::StrLit((i + 1) as usize, j as usize)], lex_from(cs, j + 1)),
                None => Err(ParseError::UnterminatedString),
            }
        } else {
            match operator_at(cs, i) {
                Some((t, n)) => prepend(seq![t], lex_from(cs, i + n)),
                None => Err(ParseError::UnknownCharacter(c)),
            }
        }
    }
}

/// The tokens of a whole script.
pub open spec fn lex_spec(cs: Seq<char>) -> Result<Seq<Token>, ParseError> {
    lex_from(cs, 0)
}

pub proof fn lemma_prepend_assoc(a: Seq<Token>, b: Seq<Token>, r: Result<Seq<Token>, ParseError>)
    ensures
        prepend(a, prepend(b, r)) == prepend(a + b, r),
{
    if let Ok(s) = r {
        assert(a + (b + s) =~= (a + b) + s);
    }
}

pub proof fn lemma_digits_value_nonneg(cs: Seq<char>, i: int, j: int)
    requires
        0 <= i,
        j <= cs.len(),
        forall|m: int| i <= m < j ==> is_digit(#[trigger] cs[m]),
    ensures
        0 <= digits_value(cs, i, j),
    decreases j - i,
{
    if j > i {
        lemma_digits_value_nonneg(cs, i, j - 1);
        assert(is_digit(cs[j - 1]));
    }
}

/// Monotony of `digits_value` in the end index.
pub proof fn lemma_digits_value_grows(cs: Seq<char>, i: int, k: int, j: int)
    requires
        i <= k <= j <= cs.len(),
        0 <= i,
        forall|m: int| i <= m < j ==> is_digit(#[trigger] cs[m]),
    ensures
        0 <= digits_value(cs, i, k) <= digits_value(cs, i, j),
    decreases j - k,
{
    lemma_digits_value_nonneg(cs, i, k);
    if j > k {
        lemma_digits_value_grows(cs, i, k, j - 1);
        lemma_digits_value_nonneg(cs, i, j - 1);
        assert(is_digit(cs[j - 1]));
    }
}

fn is_space_exec(c: char) -> (b: bool)
    ensures
        b == is_space(c),
{
    c == ' ' || c == '\t' || c == '\n' || c == '\r'
}

fn is_digit_exec(c: char) -> (b: bool)
    ensures
        b == is_digit(c),
{
    '0' <= c && c <= '9'
}

fn is_ident_start_exec(c: char) -> (b: bool)
    ensures
        b == is_ident_start(c),
{
    ('a' <= c && c <= 'z') || ('A' <= c && c <= 'Z') || c == '_'
}

fn is_ident_char_exec(c: char) -> (b: bool)
    ensures
        b == is_ident_char(c),
{
    is_ident_start_exec(c) || is_digit_exec(c)
}

fn scan_digits(cs: &Vec<char>, i: usize) -> (j: usize)
    requires
        i <= cs@.len(),
    ensures
        j == digits_end(cs@, i as int),
{
    let mut j = i;
    while j < cs.len() && is_digit_exec(cs[j])
        invariant
            i <= j <= cs@.len(),
            digits_end(cs@, i as int) == digits_end(cs@, j as int),
        decreases cs@.len() - j,
    {
        j = j + 1;
    }
    j
}

fn scan_ident(cs: &Vec<char>, i: usize) -> (j: usize)
    requires
        i <= cs@.len(),
    ensures
        j == ident_end(cs@, i as int),
{
    let mut j = i;
    while j < cs.len() && is_ident_char_exec(cs[j])
        invariant
            i <= j <= cs@.len(),
            ident_end(cs@, i as int) == ident_end(cs@, j as int),
        decreases cs@.len() - j,
    {
        j = j + 1;
    }
    j
}

fn find_quote(cs: &Vec<char>, i: usize) -> (r: Option<usize>)
    requires
        i <= cs@.len(),
    ensures
        match r {
            Some(j) => quote_at_or_after(cs@, i as int) == Some(j as int),
            None => quote_at_or_after(cs@, i as int) is None,
        },
{
    let mut j = i;
    while j < cs.len()
        invariant
            i <= j <= cs@.len(),
            quote_at_or_after(cs@, i as int) == quote_at_or_after(cs@, j as int),
        decreases cs@.len() - j,
    {
        if cs[j] == '"' {
            return Some(j);
        }
        j = j + 1;
    }
    None
}

/// The value of the digits `cs[i..j]`, or `None` where it exceeds `i64::MAX`.
fn number_value(cs: &Vec<char>, i: usize, j: usize) -> (r: Option<i64>)
    requires
        i <= j <= cs@.len(),
        forall|m: int| i <= m < j ==> is_digit(#[trigger] cs@[m]),
    ensures
        match r {
            Some(v) => v as int == digits_value(cs@, i as int, j as int),
            None => digits_value(cs@, i as int, j as int) > i64::MAX,
        },
{
    let mut v: i64 = 0;
    let mut k = i;
    while k < j
        invariant
            i <= k <= j <= cs@.len(),
            forall|m: int| i <= m < j ==> is_digit(#[trigger] cs@[m]),
            v as int == digits_value(cs@, i as int, k as int),
        decreases j - k,
    {
        let c = cs[k];
        assert(is_digit(cs@[k as int]));
        let d = (c as u32 - '0' as u32) as i64;
        assert(d == digit_value(c));
        match v.checked_mul(10) {
            Some(v10) => match v10.checked_add(d) {
                Some(w) => {
                    v = w;
                },
                None => {
                    proof {
                        lemma_digits_value_grows(cs@, i as int, k + 1, j as int);
                    }
                    return None;
                },
            },
            None => {
                proof {
                    lemma_digits_value_grows(cs@, i as int, k + 1, j as int);
                }
                return None;
            },
        }
        k = k + 1;
    }
    Some(v)
}

fn keyword_exec(cs: &Vec<char>, i: usize, j: usize) -> (r: Option<Token>)
    requires
        i <= j <= cs@.len(),
    ensures
        r == keyword(cs@.subrange(i as int, j as int)),
{
    let ghost w = cs@.subrange(i as int, j as int);
    proof {
        reveal_strlit("let");
        reveal_strlit("const");
        reveal_strlit("true");
        reveal_strlit("false");
        reveal_strlit("fn");
    }
    let n = j - i;
    let is_let = n == 3 && cs[i] == 'l' && cs[i + 1] == 'e' && cs[i + 2] == 't';
    assert(is_let == (w == "let"@)) by {
        reveal_strlit("let");
        assert("let"@.len() == 3);
        if w == "let"@ {
            assert(w.len() == 3);
            assert(w[0] == 'l' && w[1] == 'e' && w[2] == 't');
        }
        if is_let {
            assert(w =~= "let"@);
        }
    }
    let is_const = n == 5 && cs[i] == 'c' && cs[i + 1] == 'o' && cs[i + 2] == 'n' && cs[i + 3] == 's'
        && cs[i + 4] == 't';
    assert(is_const == (w == "const"@)) by {
        reveal_strlit("const");
        assert("const"@.len() == 5);
        if w == "const"@ {
            assert(w.len() == 5);
            assert(w[0] == 'c' && w[1] == 'o' && w[2] == 'n' && w[3] == 's' && w[4] == 't');
        }
        if is_const {
            assert(w =~= "const"@);
        }
    }
    let is_true = n == 4 && cs[i] == 't' && cs[i + 1] == 'r' && cs[i + 2] == 'u' && cs[i + 3] == 'e';
    assert(is_true == (w == "true"@)) by {
        reveal_strlit("true");
        assert("true"@.len() == 4);
        if w == "true"@ {
            assert(w.len() == 4);
            assert(w[0] == 't' && w[1] == 'r' && w[2] == 'u' && w[3] == 'e');
        }
        if is_true {
            assert(w =~= "true"@);
        }
    }
    let is_false = n == 5 && cs[i] == 'f' && cs[i + 1] == 'a' && cs[i + 2] == 'l' && cs[i + 3] == 's'
        && cs[i + 4] == 'e';
    assert(is_false == (w == "false"@)) by {
        reveal_strlit("false");
        assert("false"@.len() == 5);
        if w == "false"@ {
            assert(w.len() == 5);
            assert(w[0] == 'f' && w[1] == 'a' && w[2] == 'l' && w[3] == 's' && w[4] == 'e');
        }
        if is_false {
            assert(w =~= "false"@);
        }
    }
    let is_fn = n == 2 && cs[i] == 'f' && cs[i + 1] == 'n';
    assert(is_fn == (w == "fn"@)) by {
        reveal_strlit("fn");
        assert("fn"@.len() == 2);
        if w == "fn"@ {
            assert(w.len() == 2);
            assert(w[0] == 'f' && w[1] == 'n');
        }
        if is_fn {
            assert(w =~= "fn"@);
        }
    }
    if is_let {
        Some(Token::Let)
    } else if is_const {
        Some(Token::Const)
    } else if is_true {
        Some(Token::True)
    } else if is_false {
        Some(Token::False)
    } else if is_fn {
        Some(Token::Fn)
    } else {
        None
    }
}

fn two_char_op_exec(c: char, d: char) -> (r: Option<Token>)
    ensures
        r == two_char_op(c, d),
{
    if d == '=' {
        if c == '=' {
            Some(Token::EqualsTo)
        } else if c == '!' {
            Some(Token::NotEqualsTo)
        } else if c == '<' {
            Some(Token::LessThanEqualsTo)
        } else if c == '>' {
            Some(Token::GreaterThanEqualsTo)
        } else if c == '+' {
            Some(Token::PlusAssign)
        } else if c == '-' {
            Some(Token::MinusAssign)
        } else if c == '*' {
            Some(Token::MultiplyAssign)
        } else if c == '/' {
            Some(Token::DivideAssign)
        } else if c == '%' {
            Some(Token::ModuloAssign)
        } else {
            None
        }
    } else if c == '&' && d == '&' {
        Some(Token::And)
    } else if c == '|' && d == '|' {
        Some(Token::Or)
    } else {
        None
    }
}

fn one_char_op_exec(c: char) -> (r: Option<Token>)
    ensures
        r == one_char_op(c),
{
    if c == '+' {
        Some(Token::Plus)
    } else if c == '-' {
        Some(Token::Minus)
    } else if c == '*' {
        Some(Token::Multiply)
    } else if c == '/' {
        Some(Token::Divide)
    } else if c == '%' {
        Some(Token::Modulo)
    } else if c == '<' {
        Some(Token::LessThan)
    } else if c == '>' {
        Some(Token::GreaterThan)
    } else if c == '!' {
        Some(Token::Bang)
    } else if c == '=' {
        Some(Token::Equals)
    } else if c == '(' {
        Some(Token::LeftParen)
    } else if c == ')' {
        Some(Token::RightParen)
    } else if c == ';' {
        Some(Token::SemiColon)
    } else if c == '{' {
        Some(Token::LeftBrace)
    } else if c == '}' {
        Some(Token::RightBrace)
    } else if c == ',' {
        Some(Token::Comma)
    } else {
        None
    }
}

/// The operator at `i` and its length, longest first.
pub fn operator_exec(cs: &Vec<char>, i: usize) -> (r: Option<(Token, usize)>)
    requires
        i < cs@.len(),
    ensures
        match r {
            Some((t, n)) => operator_at(cs@, i as int) == Some((t, n as int)),
            None => operator_at(cs@, i as int) is None,
        },
{
    if i < cs.len() - 1 {
        if let Some(t) = two_char_op_exec(cs[i], cs[i + 1]) {
            return Some((t, 2));
        }
    }
    match one_char_op_exec(cs[i]) {
        Some(t) => Some((t, 1)),
        None => None,
    }
}

/// Splits a script's characters into tokens, as `lex_spec` says.
pub fn lex(cs: &Vec<char>) -> (r: Result<Vec<Token>, ParseError>)
    ensures
        match r {
            Ok(t) => lex_spec(cs@) == Ok::<Seq<Token>, ParseError>(t@),
            Err(e) => lex_spec(cs@) == Err::<Seq<Token>, ParseError>(e),
        },
{
    let n = cs.len();
    let mut toks: Vec<Token> = Vec::new();
    let mut i: usize = 0;
    assert(prepend(toks@, lex_from(cs@, 0)) == lex_from(cs@, 0)) by {
        if let Ok(s) = lex_from(cs@, 0) {
            assert(toks@ + s =~= s);
        }
    }
    while i < n
        invariant
            n == cs@.len(),
            i <= n,
            lex_spec(cs@) == prepend(toks@, lex_from(cs@, i as int)),
        decreases n - i,
    {
        let c = cs[i];
        let ghost old_toks = toks@;
        if is_space_exec(c) {
            assert(lex_from(cs@, i as int) == lex_from(cs@, i + 1));
            i = i + 1;
        } else if is_digit_exec(c) {
            let j = scan_digits(cs, i);
            proof {
                lemma_digits_end(cs@, i as int);
                lemma_digits_end(cs@, i + 1);
            }
            match number_value(cs, i, j) {
                None => {
                    return Err(ParseError::MalformedNumber);
                },
                Some(v) => {
                    assert(lex_from(cs@, i as int) == prepend(seq![Token::IntLit(v)], lex_from(cs@, j as int)));
                    toks.push(Token::IntLit(v));
                    assert(toks@ =~= old_toks + seq![Token::IntLit(v)]);
                    proof {
                        lemma_prepend_assoc(old_toks, seq![Token::IntLit(v)], lex_from(cs@, j as int));
                    }
                    i = j;
                },
            }
        } else if is_ident_start_exec(c) {
            let j = scan_ident(cs, i);
            proof {
                lemma_ident_end(cs@, i as int);
                lemma_ident_end(cs@, i + 1);
            }
            let t = match keyword_exec(cs, i, j) {
                Some(k) => k,
                None => Token::Ident(i, j),
            };
            assert(lex_from(cs@, i as int) == prepend(seq![t], lex_from(cs@, j as int)));
            toks.push(t);
            assert(toks@ =~= old_toks + seq![t]);
            proof {
                lemma_prepend_assoc(old_toks, seq![t], lex_from(cs@, j as int));
            }
            i = j;
        } else if c == '"' {
            match find_quote(cs, i + 1) {
                Some(j) => {
                    proof {
                        lemma_quote(cs@, i + 1);
                    }
                    assert(lex_from(cs@, i as int) == prepend(seq![Token::StrLit((i + 1) as usize, j)], lex_from(cs@, j + 1)));
                    toks.push(Token::StrLit(i + 1, j));
                    assert(toks@ =~= old_toks + seq![Token::StrLit((i + 1) as usize, j)]);
                    proof {
                        lemma_prepend_assoc(old_toks, seq![Token::StrLit((i + 1) as usize, j)], lex_from(cs@, j + 1));
                    }
                    i = j + 1;
                },
                None => {
                    return Err(ParseError::UnterminatedString);
                },
            }
        } else {
            match operator_exec(cs, i) {
                Some((t, m)) => {
                    assert(lex_from(cs@, i as int) == prepend(seq![t], lex_from(cs@, i + m)));
                    toks.push(t);
                    assert(toks@ =~= old_toks + seq![t]);
                    proof {
                        lemma_prepend_assoc(old_toks, seq![t], lex_from(cs@, i + m));
                    }
                    i = i + m;
                },
                None => {
                    return Err(ParseError::UnknownCharacter(c));
                },
            }
        }
    }
    assert(toks@ + seq![] =~= toks@);
    Ok(toks)
}

/// Whether a token's range of characters, if it has one, lies within `n` characters.
pub open spec fn token_span_ok(t: Token, n: int) -> bool {
    match t {
        Token::StrLit(a, b) => a <= b <= n,
        Token::Ident(a, b) => a <= b <= n,
        _ => true,
    }
}

/// Whether the ranges of characters of all tokens lie within `n` characters.
pub open spec fn tokens_spans_ok(t: Seq<Token>, n: int) -> bool {
    forall|i: int| 0 <= i < t.len() ==> token_span_ok(#[trigger] t[i], n)
}

proof fn lemma_prepend_spans(tok: Token, rest: Result<Seq<Token>, ParseError>, n: int)
    requires
        token_span_ok(tok, n),
        rest matches Ok(r) ==> tokens_spans_ok(r, n),
    ensures
        prepend(seq![tok], rest) matches Ok(r) ==> tokens_spans_ok(r, n),
{
    if let Ok(r) = rest {
        let all = seq![tok] + r;
        assert forall|i: int| 0 <= i < all.len() implies token_span_ok(#[trigger] all[i], n) by {
            if i > 0 {
                assert(all[i] == r[i - 1]);
            }
        }
    }
}

/// The tokens of a script refer only to characters of the script.
pub proof fn lemma_lex_spans(cs: Seq<char>, i: int)
    requires
        0 <= i,
        cs.len() <= usize::MAX,
    ensures
        lex_from(cs, i) matches Ok(t) ==> tokens_spans_ok(t, cs.len() as int),
    decreases cs.len() - i,
{
    if i < cs.len() {
        let c = cs[i];
        if is_space(c) {
            lemma_lex_spans(cs, i + 1);
        } else if is_digit(c) {
            lemma_digits_end(cs, i);
            lemma_digits_end(cs, i + 1);
            let j = digits_end(cs, i);
            lemma_lex_spans(cs, j);
            if digits_value(cs, i, j) <= i64::MAX {
                lemma_prepend_spans(Token::IntLit(digits_value(cs, i, j) as i64), lex_from(cs, j), cs.len() as int);
            }
        } else if is_ident_start(c) {
            lemma_ident_end(cs, i);
            lemma_ident_end(cs, i + 1);
            let j = ident_end(cs, i);
            lemma_lex_spans(cs, j);
            let t = match keyword(cs.subrange(i, j)) {
                Some(k) => k,
                None => Token::Ident(i as usize, j as usize),
            };
            lemma_prepend_spans(t, lex_from(cs, j), cs.len() as int);
        } else if c == '"' {
            lemma_quote(cs, i + 1);
            if let Some(j) = quote_at_or_after(cs, i + 1) {
                lemma_lex_spans(cs, j + 1);
                lemma_prepend_spans(Token::StrLit((i + 1) as usize, j as usize), lex_from(cs, j + 1), cs.len() as int);
            }
        } else {
            if let Some((t, n)) = operator_at(cs, i) {
                lemma_lex_spans(cs, i + n);
                lemma_prepend_spans(t, lex_from(cs, i + n), cs.len() as int);
            }
        }
    }
}

} // verus!
