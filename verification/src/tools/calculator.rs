//! The `calculator` tool: arithmetic expressions (`+ - * / %`, `^`
//! right-associative, postfix `!` on integers 0-20, parentheses, unary
//! minus). Here stand the tokenizer and the parser, which keep each number
//! as its literal text; evaluating the tree is floating point and stands
//! outside this library.
use vstd::prelude::*;

use crate::text::{chars_slice_to_string, push_char, str_chars, to_owned};
use crate::tool::{ToolMeta, ToolSource};

verus! {

/// The tool's description.
pub const CALCULATOR_DESCRIPTION: &'static str = "Evaluate an arithmetic expression and return the result. Syntax: numbers (integers or decimals), operators + - * / % (add, subtract, multiply, divide, modulo), ^ for exponentiation (right-associative, e.g. 2^3^2 = 512), ! for postfix factorial (integers 0-20 only, e.g. 5! = 120), parentheses for grouping, and unary minus (e.g. -3 + 5). Examples: \"2 ^ 7.2\", \"3 + 4 * 2 / (1-5)^2\", \"5!\".";

/// The largest operand of `!` whose factorial fits in a `u64`.
pub const MAX_FACTORIAL_OPERAND: u64 = 20;

// ------------------------------------------------------------ tokens

/// A token of an expression; a number keeps its literal text.
#[derive(Debug, Clone)]
pub enum Token {
    Number(String),
    Plus,
    Minus,
    Multiply,
    Divide,
    Modulo,
    Caret,
    Factorial,
    LeftParen,
    RightParen,
}

/// A token as a mathematical value.
pub enum Tok {
    Num(Seq<char>),
    Plus,
    Minus,
    Mul,
    Div,
    Rem,
    Caret,
    Bang,
    LParen,
    RParen,
}

/// The value of a token.
pub open spec fn tok_of(t: Token) -> Tok {
    match t {
        Token::Number(s) => Tok::Num(s@),
        Token::Plus => Tok::Plus,
        Token::Minus => Tok::Minus,
        Token::Multiply => Tok::Mul,
        Token::Divide => Tok::Div,
        Token::Modulo => Tok::Rem,
        Token::Caret => Tok::Caret,
        Token::Factorial => Tok::Bang,
        Token::LeftParen => Tok::LParen,
        Token::RightParen => Tok::RParen,
    }
}

/// The values of some tokens.
pub open spec fn toks_of(ts: Seq<Token>) -> Seq<Tok> {
    Seq::new(ts.len(), |i: int| tok_of(ts[i]))
}

/// Why an expression does not parse.
#[derive(Debug, Clone, Copy, PartialEq, Eq, Structural)]
pub enum SyntaxError {
    /// A character that starts no token, or a number literal that is not
    /// one (its first character).
    InvalidToken(char),
    /// A `(` without its `)`.
    MismatchedParentheses,
    /// The expression ends where an operand is needed, or has tokens left
    /// over.
    UnexpectedEndOfInput,
}

impl SyntaxError {
    /// The error's message.
    pub fn message(self) -> (r: String)
        ensures
            r@ == match self {
                SyntaxError::InvalidToken(c) => "Invalid token: '"@ + seq![c] + "'"@,
                SyntaxError::MismatchedParentheses => "Mismatched parentheses"@,
                SyntaxError::UnexpectedEndOfInput => "Unexpected end of input"@,
            },
    {
        match self {
            SyntaxError::InvalidToken(c) => {
                let mut m = to_owned("Invalid token: '");
                push_char(&mut m, c);
                m.append("'");
                m
            },
            SyntaxError::MismatchedParentheses => to_owned("Mismatched parentheses"),
            SyntaxError::UnexpectedEndOfInput => to_owned("Unexpected end of input"),
        }
    }
}

/// The operator token a character stands for.
pub open spec fn op_tok(c: char) -> Option<Tok> {
    if c == '+' {
        Some(Tok::Plus)
    } else if c == '-' {
        Some(Tok::Minus)
    } else if c == '*' {
        Some(Tok::Mul)
    } else if c == '/' {
        Some(Tok::Div)
    } else if c == '%' {
        Some(Tok::Rem)
    } else if c == '^' {
        Some(Tok::Caret)
    } else if c == '!' {
        Some(Tok::Bang)
    } else if c == '(' {
        Some(Tok::LParen)
    } else if c == ')' {
        Some(Tok::RParen)
    } else {
        None
    }
}

/// A character of a number literal: an ASCII digit or a dot.
pub open spec fn is_num_char(c: char) -> bool {
    ('0' <= c && c <= '9') || c == '.'
}

/// The end of the run of number characters that starts at `i`.
pub open spec fn num_end(s: Seq<char>, i: int) -> int
    decreases s.len() - i,
{
    if 0 <= i < s.len() && is_num_char(s[i]) {
        num_end(s, i + 1)
    } else {
        i
    }
}

/// How many times `c` occurs in `s`.
pub open spec fn count_char(s: Seq<char>, c: char) -> nat
    decreases s.len(),
{
    if s.len() == 0 {
        0
    } else {
        count_char(s.drop_last(), c) + if s.last() == c {
            1nat
        } else {
            0nat
        }
    }
}

/// A run of digits and dots is a number when it holds a digit and at most
/// one dot: `5`, `1.5`, `1.` and `.5` are numbers, `.` and `1.2.3` are not.
pub open spec fn is_number_literal(s: Seq<char>) -> bool {
    count_char(s, '.') <= 1 && count_char(s, '.') < s.len()
}

/// The run of number characters at `i` ends after `i`, inside `s`.
pub proof fn lemma_num_end(s: Seq<char>, i: int)
    requires
        0 <= i < s.len(),
        is_num_char(s[i]),
    ensures
        i < num_end(s, i) <= s.len(),
    decreases s.len() - i,
{
    assert(num_end(s, i) == num_end(s, i + 1));
    if i + 1 < s.len() && is_num_char(s[i + 1]) {
        lemma_num_end(s, i + 1);
    } else {
        assert(num_end(s, i + 1) == i + 1);
    }
}

/// A token put in front of a tokenization.
pub open spec fn prepend(t: Tok, r: Result<Seq<Tok>, char>) -> Result<Seq<Tok>, char> {
    match r {
        Ok(ts) => Ok(seq![t] + ts),
        Err(c) => Err(c),
    }
}

/// Tokens put in front of a tokenization.
pub open spec fn prepend_all(a: Seq<Tok>, r: Result<Seq<Tok>, char>) -> Result<Seq<Tok>, char> {
    match r {
        Ok(ts) => Ok(a + ts),
        Err(c) => Err(c),
    }
}

/// The tokens of `s` from position `i`: spaces are skipped, operators and
/// parentheses are one token each, a run of digits and dots is one number;
/// anything else, or a run that is no number, is refused with its first
/// character.
pub open spec fn tokens_from(s: Seq<char>, i: int) -> Result<Seq<Tok>, char>
    decreases s.len() - i,
{
    if i < 0 || i >= s.len() {
        Ok(Seq::empty())
    } else {
        let c = s[i];
        if c == ' ' {
            tokens_from(s, i + 1)
        } else if op_tok(c) is Some {
            prepend(op_tok(c).unwrap(), tokens_from(s, i + 1))
        } else if is_num_char(c) {
            proof {
                lemma_num_end(s, i);
            }
            let e = num_end(s, i);
            if is_number_literal(s.subrange(i, e)) {
                prepend(Tok::Num(s.subrange(i, e)), tokens_from(s, e))
            } else {
                Err(c)
            }
        } else {
            Err(c)
        }
    }
}

fn op_token(c: char) -> (r: Option<Token>)
    ensures
        match op_tok(c) {
            Some(t) => r is Some && tok_of(r.unwrap()) == t,
            None => r is None,
        },
{
    if c == '+' {
        Some(Token::Plus)
    } else if c == '-' {
        Some(Token::Minus)
    } else if c == '*' {
        Some(Token::Multiply)
    } else if c == '/' {
        Some(Token::Divide)
    } else if c == '%' {
        Some(Token::Modulo)
    } else if c == '^' {
        Some(Token::Caret)
    } else if c == '!' {
        Some(Token::Factorial)
    } else if c == '(' {
        Some(Token::LeftParen)
    } else if c == ')' {
        Some(Token::RightParen)
    } else {
        None
    }
}

/// Split an expression into tokens (see [`tokens_from`]).
pub fn tokenize(input: &str) -> (r: Result<Vec<Token>, SyntaxError>)
    ensures
        match tokens_from(input@, 0) {
            Ok(ts) => r matches Ok(v) && toks_of(v@) == ts,
            Err(c) => r == Err::<Vec<Token>, SyntaxError>(SyntaxError::InvalidToken(c)),
        },
{
    let s = str_chars(input);
    let mut out: Vec<Token> = Vec::new();
    let mut i: usize = 0;
    proof {
        assert(toks_of(out@) + Seq::<Tok>::empty() =~= toks_of(out@));
        assert(prepend_all(Seq::empty(), tokens_from(s@, 0)) == tokens_from(s@, 0)) by {
            match tokens_from(s@, 0) {
                Ok(ts) => {
                    assert(Seq::<Tok>::empty() + ts =~= ts);
                },
                Err(_) => {},
            }
        }
        assert(toks_of(out@) =~= Seq::<Tok>::empty());
    }
    while i < s.len()
        invariant
            s@ == input@,
            0 <= i <= s@.len(),
            tokens_from(s@, 0) == prepend_all(toks_of(out@), tokens_from(s@, i as int)),
        decreases s.len() - i,
    {
        let c = s[i];
        let ghost a = toks_of(out@);
        if c == ' ' {
            i += 1;
        } else if let Some(t) = op_token(c) {
            proof {
                let rest = tokens_from(s@, i + 1);
                assert(tokens_from(s@, i as int) == prepend(tok_of(t), rest));
                match rest {
                    Ok(ts) => {
                        assert(a + (seq![tok_of(t)] + ts) =~= a.push(tok_of(t)) + ts);
                    },
                    Err(_) => {},
                }
            }
            out.push(t);
            proof {
                assert(toks_of(out@) =~= a.push(tok_of(t)));
            }
            i += 1;
        } else if ('0' <= c && c <= '9') || c == '.' {
            let mut e: usize = i;
            let mut dots: usize = 0;
            proof {
                assert(s@.subrange(i as int, i as int) =~= Seq::<char>::empty());
            }
            while e < s.len() && (('0' <= s[e] && s[e] <= '9') || s[e] == '.')
                invariant
                    0 <= i <= e <= s@.len(),
                    num_end(s@, e as int) == num_end(s@, i as int),
                    dots == count_char(s@.subrange(i as int, e as int), '.'),
                    dots <= e - i,
                decreases s.len() - e,
            {
                proof {
                    assert(s@.subrange(i as int, e + 1).drop_last() =~= s@.subrange(i as int, e as int));
                }
                if s[e] == '.' {
                    dots += 1;
                }
                e += 1;
            }
            proof {
                lemma_num_end(s@, i as int);
            }
            if dots <= 1 && dots < e - i {
                let lit = chars_slice_to_string(&s, i, e);
                let t = Token::Number(lit);
                proof {
                    let rest = tokens_from(s@, e as int);
                    assert(tokens_from(s@, i as int) == prepend(tok_of(t), rest));
                    match rest {
                        Ok(ts) => {
                            assert(a + (seq![tok_of(t)] + ts) =~= a.push(tok_of(t)) + ts);
                        },
                        Err(_) => {},
                    }
                }
                out.push(t);
                proof {
                    assert(toks_of(out@) =~= a.push(tok_of(t)));
                }
                i = e;
            } else {
                return Err(SyntaxError::InvalidToken(c));
            }
        } else {
            return Err(SyntaxError::InvalidToken(c));
        }
    }
    proof {
        assert(toks_of(out@) + Seq::<Tok>::empty() =~= toks_of(out@));
    }
    Ok(out)
}

// ------------------------------------------------------------ parsing

/// An expression tree; a number keeps its literal text.
#[derive(Debug)]
pub enum Expr {
    Number(String),
    Add(Box<Expr>, Box<Expr>),
    Subtract(Box<Expr>, Box<Expr>),
    Multiply(Box<Expr>, Box<Expr>),
    Divide(Box<Expr>, Box<Expr>),
    Modulo(Box<Expr>, Box<Expr>),
    Exponent(Box<Expr>, Box<Expr>),
    Factorial(Box<Expr>),
    Negate(Box<Expr>),
}

/// An expression tree as a mathematical value.
pub enum Ast {
    Num(Seq<char>),
    Add(Box<Ast>, Box<Ast>),
    Sub(Box<Ast>, Box<Ast>),
    Mul(Box<Ast>, Box<Ast>),
    Div(Box<Ast>, Box<Ast>),
    Rem(Box<Ast>, Box<Ast>),
    Pow(Box<Ast>, Box<Ast>),
    Fact(Box<Ast>),
    Neg(Box<Ast>),
}

/// The value of a tree.
pub open spec fn ast_of(e: Expr) -> Ast
    decreases e,
{
    match e {
        Expr::Number(s) => Ast::Num(s@),
        Expr::Add(l, r) => Ast::Add(Box::new(ast_of(*l)), Box::new(ast_of(*r))),
        Expr::Subtract(l, r) => Ast::Sub(Box::new(ast_of(*l)), Box::new(ast_of(*r))),
        Expr::Multiply(l, r) => Ast::Mul(Box::new(ast_of(*l)), Box::new(ast_of(*r))),
        Expr::Divide(l, r) => Ast::Div(Box::new(ast_of(*l)), Box::new(ast_of(*r))),
        Expr::Modulo(l, r) => Ast::Rem(Box::new(ast_of(*l)), Box::new(ast_of(*r))),
        Expr::Exponent(l, r) => Ast::Pow(Box::new(ast_of(*l)), Box::new(ast_of(*r))),
        Expr::Factorial(x) => Ast::Fact(Box::new(ast_of(*x))),
        Expr::Negate(x) => Ast::Neg(Box::new(ast_of(*x))),
    }
}

/// A parse result: the tree and the position after it.
pub type Parsed = Result<(Ast, int), SyntaxError>;

/// The tree of a binary operator token.
pub open spec fn binop(t: Tok, l: Ast, r: Ast) -> Ast {
    match t {
        Tok::Plus => Ast::Add(Box::new(l), Box::new(r)),
        Tok::Minus => Ast::Sub(Box::new(l), Box::new(r)),
        Tok::Mul => Ast::Mul(Box::new(l), Box::new(r)),
        Tok::Div => Ast::Div(Box::new(l), Box::new(r)),
        Tok::Rem => Ast::Rem(Box::new(l), Box::new(r)),
        _ => Ast::Pow(Box::new(l), Box::new(r)),
    }
}

/// An additive operator.
pub open spec fn is_additive(t: Tok) -> bool {
    t is Plus || t is Minus
}

/// A multiplicative operator.
pub open spec fn is_multiplicative(t: Tok) -> bool {
    t is Mul || t is Div || t is Rem
}

/// expression := term (('+' | '-') term)*, left-associative.
pub open spec fn p_expr(t: Seq<Tok>, i: int) -> Parsed
    decreases t.len() - i, 9int,
{
    if i < 0 || i > t.len() {
        Err(SyntaxError::UnexpectedEndOfInput)
    } else {
        match p_term(t, i) {
            Ok((l, j)) => if i < j <= t.len() {
                expr_tail(t, l, j)
            } else {
                Err(SyntaxError::UnexpectedEndOfInput)
            },
            Err(x) => Err(x),
        }
    }
}

/// The additive operators after a first term.
pub open spec fn expr_tail(t: Seq<Tok>, left: Ast, j: int) -> Parsed
    decreases t.len() - j, 8int,
{
    if 0 <= j < t.len() && is_additive(t[j]) {
        match p_term(t, j + 1) {
            Ok((r, k)) => if j + 1 < k <= t.len() {
                expr_tail(t, binop(t[j], left, r), k)
            } else {
                Err(SyntaxError::UnexpectedEndOfInput)
            },
            Err(x) => Err(x),
        }
    } else {
        Ok((left, j))
    }
}

/// term := power (('*' | '/' | '%') power)*, left-associative.
pub open spec fn p_term(t: Seq<Tok>, i: int) -> Parsed
    decreases t.len() - i, 7int,
{
    if i < 0 || i > t.len() {
        Err(SyntaxError::UnexpectedEndOfInput)
    } else {
        match p_pow(t, i) {
            Ok((l, j)) => if i < j <= t.len() {
                term_tail(t, l, j)
            } else {
                Err(SyntaxError::UnexpectedEndOfInput)
            },
            Err(x) => Err(x),
        }
    }
}

/// The multiplicative operators after a first power.
pub open spec fn term_tail(t: Seq<Tok>, left: Ast, j: int) -> Parsed
    decreases t.len() - j, 6int,
{
    if 0 <= j < t.len() && is_multiplicative(t[j]) {
        match p_pow(t, j + 1) {
            Ok((r, k)) => if j + 1 < k <= t.len() {
                term_tail(t, binop(t[j], left, r), k)
            } else {
                Err(SyntaxError::UnexpectedEndOfInput)
            },
            Err(x) => Err(x),
        }
    } else {
        Ok((left, j))
    }
}

/// power := factor ('^' power)*, right-associative.
pub open spec fn p_pow(t: Seq<Tok>, i: int) -> Parsed
    decreases t.len() - i, 5int,
{
    if i < 0 || i > t.len() {
        Err(SyntaxError::UnexpectedEndOfInput)
    } else {
        match p_factor(t, i) {
            Ok((l, j)) => if i < j <= t.len() {
                pow_tail(t, l, j)
            } else {
                Err(SyntaxError::UnexpectedEndOfInput)
            },
            Err(x) => Err(x),
        }
    }
}

/// The `^` operators after a first factor.
pub open spec fn pow_tail(t: Seq<Tok>, left: Ast, j: int) -> Parsed
    decreases t.len() - j, 4int,
{
    if 0 <= j < t.len() && t[j] is Caret {
        match p_pow(t, j + 1) {
            Ok((r, k)) => if j + 1 < k <= t.len() {
                pow_tail(t, Ast::Pow(Box::new(left), Box::new(r)), k)
            } else {
                Err(SyntaxError::UnexpectedEndOfInput)
            },
            Err(x) => Err(x),
        }
    } else {
        Ok((left, j))
    }
}

/// factor := operand '!'*.
pub open spec fn p_factor(t: Seq<Tok>, i: int) -> Parsed
    decreases t.len() - i, 3int,
{
    if i < 0 || i > t.len() {
        Err(SyntaxError::UnexpectedEndOfInput)
    } else {
        match p_operand(t, i) {
            Ok((e, j)) => if i < j <= t.len() {
                fact_tail(t, e, j)
            } else {
                Err(SyntaxError::UnexpectedEndOfInput)
            },
            Err(x) => Err(x),
        }
    }
}

/// The postfix `!` operators after an operand.
pub open spec fn fact_tail(t: Seq<Tok>, e: Ast, j: int) -> Parsed
    decreases t.len() - j, 2int,
{
    if 0 <= j < t.len() && t[j] is Bang {
        fact_tail(t, Ast::Fact(Box::new(e)), j + 1)
    } else {
        Ok((e, j))
    }
}

/// operand := number | '(' expression ')' | '-' operand.
pub open spec fn p_operand(t: Seq<Tok>, i: int) -> Parsed
    decreases t.len() - i, 1int,
{
    if i < 0 || i >= t.len() {
        Err(SyntaxError::UnexpectedEndOfInput)
    } else {
        match t[i] {
            Tok::Num(n) => Ok((Ast::Num(n), i + 1)),
            Tok::LParen => match p_expr(t, i + 1) {
                Ok((e, j)) => if 0 <= j < t.len() && t[j] is RParen {
                    Ok((e, j + 1))
                } else {
                    Err(SyntaxError::MismatchedParentheses)
                },
                Err(x) => Err(x),
            },
            Tok::Minus => match p_operand(t, i + 1) {
                Ok((e, j)) => Ok((Ast::Neg(Box::new(e)), j)),
                Err(x) => Err(x),
            },
            _ => Err(SyntaxError::UnexpectedEndOfInput),
        }
    }
}

/// The tree of a whole token sequence: one expression that uses every
/// token.
pub open spec fn parse_spec(t: Seq<Tok>) -> Result<Ast, SyntaxError> {
    match p_expr(t, 0) {
        Ok((e, j)) => if j == t.len() {
            Ok(e)
        } else {
            Err(SyntaxError::UnexpectedEndOfInput)
        },
        Err(x) => Err(x),
    }
}

/// An exec parse result agrees with a spec one.
pub open spec fn parsed_as(r: Result<(Expr, usize), SyntaxError>, p: Parsed, i: int, n: int) -> bool {
    match p {
        Ok((a, j)) => r is Ok && ast_of(r->Ok_0.0) == a && r->Ok_0.1 == j && i < j <= n,
        Err(x) => r == Err::<(Expr, usize), SyntaxError>(x),
    }
}

fn token_kind(t: &Token) -> (r: u8)
    ensures
        r == match tok_of(*t) {
            Tok::Plus => 1u8,
            Tok::Minus => 2u8,
            Tok::Mul => 3u8,
            Tok::Div => 4u8,
            Tok::Rem => 5u8,
            Tok::Caret => 6u8,
            Tok::Bang => 7u8,
            Tok::LParen => 8u8,
            Tok::RParen => 9u8,
            Tok::Num(_) => 0u8,
        },
{
    match t {
        Token::Number(_) => 0,
        Token::Plus => 1,
        Token::Minus => 2,
        Token::Multiply => 3,
        Token::Divide => 4,
        Token::Modulo => 5,
        Token::Caret => 6,
        Token::Factorial => 7,
        Token::LeftParen => 8,
        Token::RightParen => 9,
    }
}

fn combine(kind: u8, l: Expr, r: Expr) -> (e: Expr)
    requires
        1 <= kind <= 6,
    ensures
        ast_of(e) == binop(
            if kind == 1 {
                Tok::Plus
            } else if kind == 2 {
                Tok::Minus
            } else if kind == 3 {
                Tok::Mul
            } else if kind == 4 {
                Tok::Div
            } else if kind == 5 {
                Tok::Rem
            } else {
                Tok::Caret
            },
            ast_of(l),
            ast_of(r),
        ),
{
    if kind == 1 {
        Expr::Add(Box::new(l), Box::new(r))
    } else if kind == 2 {
        Expr::Subtract(Box::new(l), Box::new(r))
    } else if kind == 3 {
        Expr::Multiply(Box::new(l), Box::new(r))
    } else if kind == 4 {
        Expr::Divide(Box::new(l), Box::new(r))
    } else if kind == 5 {
        Expr::Modulo(Box::new(l), Box::new(r))
    } else {
        Expr::Exponent(Box::new(l), Box::new(r))
    }
}

fn parse_expression(tokens: &Vec<Token>, i: usize) -> (r: Result<(Expr, usize), SyntaxError>)
    requires
        i <= tokens@.len(),
    ensures
        parsed_as(r, p_expr(toks_of(tokens@), i as int), i as int, tokens@.len() as int),
    decreases tokens@.len() - i, 9int,
{
    let ghost t = toks_of(tokens@);
    let (mut left, mut j) = match parse_term(tokens, i) {
        Ok(p) => p,
        Err(x) => return Err(x),
    };
    while j < tokens.len() && (token_kind(&tokens[j]) == 1 || token_kind(&tokens[j]) == 2)
        invariant
            t == toks_of(tokens@),
            i < j <= tokens@.len(),
            p_expr(t, i as int) == expr_tail(t, ast_of(left), j as int),
        decreases tokens@.len() - j,
    {
        let kind = token_kind(&tokens[j]);
        let (right, k) = match parse_term(tokens, j + 1) {
            Ok(p) => p,
            Err(x) => return Err(x),
        };
        left = combine(kind, left, right);
        j = k;
    }
    Ok((left, j))
}

fn parse_term(tokens: &Vec<Token>, i: usize) -> (r: Result<(Expr, usize), SyntaxError>)
    requires
        i <= tokens@.len(),
    ensures
        parsed_as(r, p_term(toks_of(tokens@), i as int), i as int, tokens@.len() as int),
    decreases tokens@.len() - i, 7int,
{
    let ghost t = toks_of(tokens@);
    let (mut left, mut j) = match parse_power(tokens, i) {
        Ok(p) => p,
        Err(x) => return Err(x),
    };
    while j < tokens.len() && (token_kind(&tokens[j]) == 3 || token_kind(&tokens[j]) == 4 || token_kind(
        &tokens[j],
    ) == 5)
        invariant
            t == toks_of(tokens@),
            i < j <= tokens@.len(),
            p_term(t, i as int) == term_tail(t, ast_of(left), j as int),
        decreases tokens@.len() - j,
    {
        let kind = token_kind(&tokens[j]);
        let (right, k) = match parse_power(tokens, j + 1) {
            Ok(p) => p,
            Err(x) => return Err(x),
        };
        left = combine(kind, left, right);
        j = k;
    }
    Ok((left, j))
}

fn parse_power(tokens: &Vec<Token>, i: usize) -> (r: Result<(Expr, usize), SyntaxError>)
    requires
        i <= tokens@.len(),
    ensures
        parsed_as(r, p_pow(toks_of(tokens@), i as int), i as int, tokens@.len() as int),
    decreases tokens@.len() - i, 5int,
{
    let ghost t = toks_of(tokens@);
    let (mut left, mut j) = match parse_factor(tokens, i) {
        Ok(p) => p,
        Err(x) => return Err(x),
    };
    while j < tokens.len() && token_kind(&tokens[j]) == 6
        invariant
            t == toks_of(tokens@),
            i < j <= tokens@.len(),
            p_pow(t, i as int) == pow_tail(t, ast_of(left), j as int),
        decreases tokens@.len() - j,
    {
        let (right, k) = match parse_power(tokens, j + 1) {
            Ok(p) => p,
            Err(x) => return Err(x),
        };
        left = combine(6, left, right);
        j = k;
    }
    Ok((left, j))
}

fn parse_factor(tokens: &Vec<Token>, i: usize) -> (r: Result<(Expr, usize), SyntaxError>)
    requires
        i <= tokens@.len(),
    ensures
        parsed_as(r, p_factor(toks_of(tokens@), i as int), i as int, tokens@.len() as int),
    decreases tokens@.len() - i, 3int,
{
    let ghost t = toks_of(tokens@);
    let (mut e, mut j) = match parse_operand(tokens, i) {
        Ok(p) => p,
        Err(x) => return Err(x),
    };
    while j < tokens.len() && token_kind(&tokens[j]) == 7
        invariant
            t == toks_of(tokens@),
            i < j <= tokens@.len(),
            p_factor(t, i as int) == fact_tail(t, ast_of(e), j as int),
        decreases tokens@.len() - j,
    {
        e = Expr::Factorial(Box::new(e));
        j = j + 1;
    }
    Ok((e, j))
}

fn parse_operand(tokens: &Vec<Token>, i: usize) -> (r: Result<(Expr, usize), SyntaxError>)
    requires
        i <= tokens@.len(),
    ensures
        parsed_as(r, p_operand(toks_of(tokens@), i as int), i as int, tokens@.len() as int),
    decreases tokens@.len() - i, 1int,
{
    if i >= tokens.len() {
        return Err(SyntaxError::UnexpectedEndOfInput);
    }
    let kind = token_kind(&tokens[i]);
    if kind == 0 {
        match &tokens[i] {
            Token::Number(n) => Ok((Expr::Number(n.clone()), i + 1)),
            _ => Err(SyntaxError::UnexpectedEndOfInput),
        }
    } else if kind == 8 {
        let (e, j) = match parse_expression(tokens, i + 1) {
            Ok(p) => p,
            Err(x) => return Err(x),
        };
        if j < tokens.len() && token_kind(&tokens[j]) == 9 {
            Ok((e, j + 1))
        } else {
            Err(SyntaxError::MismatchedParentheses)
        }
    } else if kind == 2 {
        let (e, j) = match parse_operand(tokens, i + 1) {
            Ok(p) => p,
            Err(x) => return Err(x),
        };
        Ok((Expr::Negate(Box::new(e)), j))
    } else {
        Err(SyntaxError::UnexpectedEndOfInput)
    }
}

/// Parse tokens into one expression that uses them all (see
/// [`parse_spec`]).
pub fn parse(tokens: &Vec<Token>) -> (r: Result<Expr, SyntaxError>)
    ensures
        match parse_spec(toks_of(tokens@)) {
            Ok(a) => r matches Ok(e) && ast_of(e) == a,
            Err(x) => r == Err::<Expr, SyntaxError>(x),
        },
{
    match parse_expression(tokens, 0) {
        Ok((e, j)) => {
            if j == tokens.len() {
                Ok(e)
            } else {
                Err(SyntaxError::UnexpectedEndOfInput)
            }
        },
        Err(x) => Err(x),
    }
}

/// The tree of an expression's text: its tokens, parsed.
pub fn parse_expression_text(input: &str) -> (r: Result<Expr, SyntaxError>)
    ensures
        match tokens_from(input@, 0) {
            Err(c) => r == Err::<Expr, SyntaxError>(SyntaxError::InvalidToken(c)),
            Ok(ts) => match parse_spec(ts) {
                Ok(a) => r matches Ok(e) && ast_of(e) == a,
                Err(x) => r == Err::<Expr, SyntaxError>(x),
            },
        },
{
    let tokens = match tokenize(input) {
        Ok(ts) => ts,
        Err(x) => return Err(x),
    };
    parse(&tokens)
}

/// `n!`.
pub open spec fn factorial_spec(n: nat) -> nat
    decreases n,
{
    if n == 0 {
        1
    } else {
        n * factorial_spec((n - 1) as nat)
    }
}

proof fn lemma_factorial_monotone(n: nat)
    requires
        n <= 20,
    ensures
        factorial_spec(n) <= factorial_spec(20),
        factorial_spec(n) >= 1,
    decreases 20 - n,
{
    lemma_factorial_positive(n);
    if n < 20 {
        lemma_factorial_monotone(n + 1);
        assert(factorial_spec(n + 1) == (n + 1) * factorial_spec(n));
        assert((n + 1) * factorial_spec(n) >= factorial_spec(n)) by (nonlinear_arith)
            requires
                factorial_spec(n) >= 1,
        ;
    }
}

proof fn lemma_factorial_positive(n: nat)
    ensures
        factorial_spec(n) >= 1,
    decreases n,
{
    if n > 0 {
        lemma_factorial_positive((n - 1) as nat);
        assert(n * factorial_spec((n - 1) as nat) >= 1) by (nonlinear_arith)
            requires
                n >= 1,
                factorial_spec((n - 1) as nat) >= 1,
        ;
    }
}

/// `n!` for the operands whose factorial fits in a `u64` (0 to 20).
pub fn factorial(n: u64) -> (r: u64)
    requires
        n <= MAX_FACTORIAL_OPERAND,
    ensures
        r == factorial_spec(n as nat),
    decreases n,
{
    proof {
        assert(factorial_spec(20) == 2432902008176640000) by {
            assert(factorial_spec(0) == 1);
            assert(factorial_spec(1) == 1);
            assert(factorial_spec(2) == 2);
            assert(factorial_spec(3) == 6);
            assert(factorial_spec(4) == 24);
            assert(factorial_spec(5) == 120);
            assert(factorial_spec(6) == 720);
            assert(factorial_spec(7) == 5040);
            assert(factorial_spec(8) == 40320);
            assert(factorial_spec(9) == 362880);
            assert(factorial_spec(10) == 3628800);
            assert(factorial_spec(11) == 39916800);
            assert(factorial_spec(12) == 479001600);
            assert(factorial_spec(13) == 6227020800);
            assert(factorial_spec(14) == 87178291200);
            assert(factorial_spec(15) == 1307674368000);
            assert(factorial_spec(16) == 20922789888000);
            assert(factorial_spec(17) == 355687428096000);
            assert(factorial_spec(18) == 6402373705728000);
            assert(factorial_spec(19) == 121645100408832000);
            assert(factorial_spec(20) == 2432902008176640000);
        }
        lemma_factorial_monotone(n as nat);
    }
    if n == 0 {
        1
    } else {
        let f = factorial(n - 1);
        n * f
    }
}

/// The arithmetic tool.
#[derive(Debug, Clone, Copy)]
pub struct Calculator;

impl Calculator {
    /// The tool's name.
    pub fn name(&self) -> (r: &'static str)
        ensures
            r@ == "calculator"@,
    {
        "calculator"
    }

    /// The tool's description.
    pub fn description(&self) -> (r: &'static str)
        ensures
            r@ == CALCULATOR_DESCRIPTION@,
    {
        CALCULATOR_DESCRIPTION
    }

    /// What the registry knows of the tool.
    pub fn meta(&self) -> (r: ToolMeta)
        ensures
            r.name@ == "calculator"@,
            r.source == ToolSource::Builtin,
            r.mcp_server is None,
            r.read_only,
    {
        ToolMeta { name: to_owned("calculator"), source: ToolSource::Builtin, mcp_server: None, read_only: true }
    }
}


/// A number token followed by something that neither applies `!` nor `^`
/// to it is a whole power: the number alone, ending right after it.
proof fn lemma_number_power(t: Seq<Tok>, i: int, n: Seq<char>)
    requires
        0 <= i < t.len(),
        t[i] == Tok::Num(n),
        i + 1 < t.len() ==> !(t[i + 1] is Bang) && !(t[i + 1] is Caret),
    ensures
        p_pow(t, i) == Ok::<(Ast, int), SyntaxError>((Ast::Num(n), i + 1)),
{
    assert(p_operand(t, i) == Ok::<(Ast, int), SyntaxError>((Ast::Num(n), i + 1)));
    assert(fact_tail(t, Ast::Num(n), i + 1) == Ok::<(Ast, int), SyntaxError>((Ast::Num(n), i + 1)));
    assert(p_factor(t, i) == Ok::<(Ast, int), SyntaxError>((Ast::Num(n), i + 1)));
    assert(pow_tail(t, Ast::Num(n), i + 1) == Ok::<(Ast, int), SyntaxError>((Ast::Num(n), i + 1)));
}

/// The tokens `a op1 b op2 c`.
pub open spec fn three_numbers(a: Seq<char>, op1: Tok, b: Seq<char>, op2: Tok, c: Seq<char>) -> Seq<Tok> {
    seq![Tok::Num(a), op1, Tok::Num(b), op2, Tok::Num(c)]
}

/// Precedence: `*`, `/` and `%` bind tighter than `+` and `-`, so for any
/// numbers `a`, `b`, `c`, `a + b % c` is `a + (b % c)`, `a - b * c` is
/// `a - (b * c)`, and so on; and a tighter operator first groups on the
/// left: `a % b + c` is `(a % b) + c`.
pub proof fn law_multiplicative_binds_tighter(a: Seq<char>, b: Seq<char>, c: Seq<char>)
    ensures
        parse_spec(three_numbers(a, Tok::Plus, b, Tok::Rem, c)) == Ok::<Ast, SyntaxError>(
            Ast::Add(Box::new(Ast::Num(a)), Box::new(Ast::Rem(Box::new(Ast::Num(b)), Box::new(Ast::Num(c))))),
        ),
        parse_spec(three_numbers(a, Tok::Minus, b, Tok::Rem, c)) == Ok::<Ast, SyntaxError>(
            Ast::Sub(Box::new(Ast::Num(a)), Box::new(Ast::Rem(Box::new(Ast::Num(b)), Box::new(Ast::Num(c))))),
        ),
        parse_spec(three_numbers(a, Tok::Plus, b, Tok::Mul, c)) == Ok::<Ast, SyntaxError>(
            Ast::Add(Box::new(Ast::Num(a)), Box::new(Ast::Mul(Box::new(Ast::Num(b)), Box::new(Ast::Num(c))))),
        ),
        parse_spec(three_numbers(a, Tok::Minus, b, Tok::Div, c)) == Ok::<Ast, SyntaxError>(
            Ast::Sub(Box::new(Ast::Num(a)), Box::new(Ast::Div(Box::new(Ast::Num(b)), Box::new(Ast::Num(c))))),
        ),
        parse_spec(three_numbers(a, Tok::Rem, b, Tok::Plus, c)) == Ok::<Ast, SyntaxError>(
            Ast::Add(Box::new(Ast::Rem(Box::new(Ast::Num(a)), Box::new(Ast::Num(b)))), Box::new(Ast::Num(c))),
        ),
        parse_spec(three_numbers(a, Tok::Mul, b, Tok::Rem, c)) == Ok::<Ast, SyntaxError>(
            Ast::Rem(Box::new(Ast::Mul(Box::new(Ast::Num(a)), Box::new(Ast::Num(b)))), Box::new(Ast::Num(c))),
        ),
{
    lemma_low_then_high(a, Tok::Plus, b, Tok::Rem, c);
    lemma_low_then_high(a, Tok::Minus, b, Tok::Rem, c);
    lemma_low_then_high(a, Tok::Plus, b, Tok::Mul, c);
    lemma_low_then_high(a, Tok::Minus, b, Tok::Div, c);
    lemma_high_then_low(a, Tok::Rem, b, Tok::Plus, c);
    lemma_high_then_high(a, Tok::Mul, b, Tok::Rem, c);
}

proof fn lemma_low_then_high(a: Seq<char>, op1: Tok, b: Seq<char>, op2: Tok, c: Seq<char>)
    requires
        op1 is Plus || op1 is Minus,
        op2 is Mul || op2 is Div || op2 is Rem,
    ensures
        parse_spec(three_numbers(a, op1, b, op2, c)) == Ok::<Ast, SyntaxError>(
            binop(op1, Ast::Num(a), binop(op2, Ast::Num(b), Ast::Num(c))),
        ),
{
    let t = three_numbers(a, op1, b, op2, c);
    lemma_number_power(t, 0, a);
    lemma_number_power(t, 2, b);
    lemma_number_power(t, 4, c);
    assert(term_tail(t, Ast::Num(a), 1) == Ok::<(Ast, int), SyntaxError>((Ast::Num(a), 1)));
    assert(p_term(t, 0) == Ok::<(Ast, int), SyntaxError>((Ast::Num(a), 1)));
    let bc = binop(op2, Ast::Num(b), Ast::Num(c));
    assert(term_tail(t, bc, 5) == Ok::<(Ast, int), SyntaxError>((bc, 5)));
    assert(term_tail(t, Ast::Num(b), 3) == Ok::<(Ast, int), SyntaxError>((bc, 5)));
    assert(p_term(t, 2) == Ok::<(Ast, int), SyntaxError>((bc, 5)));
    let whole = binop(op1, Ast::Num(a), bc);
    assert(expr_tail(t, whole, 5) == Ok::<(Ast, int), SyntaxError>((whole, 5)));
    assert(expr_tail(t, Ast::Num(a), 1) == Ok::<(Ast, int), SyntaxError>((whole, 5)));
    assert(p_expr(t, 0) == Ok::<(Ast, int), SyntaxError>((whole, 5)));
}

proof fn lemma_high_then_low(a: Seq<char>, op1: Tok, b: Seq<char>, op2: Tok, c: Seq<char>)
    requires
        op1 is Mul || op1 is Div || op1 is Rem,
        op2 is Plus || op2 is Minus,
    ensures
        parse_spec(three_numbers(a, op1, b, op2, c)) == Ok::<Ast, SyntaxError>(
            binop(op2, binop(op1, Ast::Num(a), Ast::Num(b)), Ast::Num(c)),
        ),
{
    let t = three_numbers(a, op1, b, op2, c);
    lemma_number_power(t, 0, a);
    lemma_number_power(t, 2, b);
    lemma_number_power(t, 4, c);
    let ab = binop(op1, Ast::Num(a), Ast::Num(b));
    assert(term_tail(t, ab, 3) == Ok::<(Ast, int), SyntaxError>((ab, 3)));
    assert(term_tail(t, Ast::Num(a), 1) == Ok::<(Ast, int), SyntaxError>((ab, 3)));
    assert(p_term(t, 0) == Ok::<(Ast, int), SyntaxError>((ab, 3)));
    assert(term_tail(t, Ast::Num(c), 5) == Ok::<(Ast, int), SyntaxError>((Ast::Num(c), 5)));
    assert(p_term(t, 4) == Ok::<(Ast, int), SyntaxError>((Ast::Num(c), 5)));
    let whole = binop(op2, ab, Ast::Num(c));
    assert(expr_tail(t, whole, 5) == Ok::<(Ast, int), SyntaxError>((whole, 5)));
    assert(expr_tail(t, ab, 3) == Ok::<(Ast, int), SyntaxError>((whole, 5)));
    assert(p_expr(t, 0) == Ok::<(Ast, int), SyntaxError>((whole, 5)));
}

proof fn lemma_high_then_high(a: Seq<char>, op1: Tok, b: Seq<char>, op2: Tok, c: Seq<char>)
    requires
        op1 is Mul || op1 is Div || op1 is Rem,
        op2 is Mul || op2 is Div || op2 is Rem,
    ensures
        parse_spec(three_numbers(a, op1, b, op2, c)) == Ok::<Ast, SyntaxError>(
            binop(op2, binop(op1, Ast::Num(a), Ast::Num(b)), Ast::Num(c)),
        ),
{
    let t = three_numbers(a, op1, b, op2, c);
    lemma_number_power(t, 0, a);
    lemma_number_power(t, 2, b);
    lemma_number_power(t, 4, c);
    let ab = binop(op1, Ast::Num(a), Ast::Num(b));
    let whole = binop(op2, ab, Ast::Num(c));
    assert(term_tail(t, whole, 5) == Ok::<(Ast, int), SyntaxError>((whole, 5)));
    assert(term_tail(t, ab, 3) == Ok::<(Ast, int), SyntaxError>((whole, 5)));
    assert(term_tail(t, Ast::Num(a), 1) == Ok::<(Ast, int), SyntaxError>((whole, 5)));
    assert(p_term(t, 0) == Ok::<(Ast, int), SyntaxError>((whole, 5)));
    assert(expr_tail(t, whole, 5) == Ok::<(Ast, int), SyntaxError>((whole, 5)));
    assert(p_expr(t, 0) == Ok::<(Ast, int), SyntaxError>((whole, 5)));
}

/// Operators of one level group to the left, and `^` groups to the right
/// and binds tighter than `*`: for any numbers `a`, `b`, `c`, `a - b + c`
/// is `(a - b) + c`, `a - b - c` is `(a - b) - c`, `a ^ b ^ c` is
/// `a ^ (b ^ c)`, and `a * b ^ c` is `a * (b ^ c)`.
pub proof fn law_grouping(a: Seq<char>, b: Seq<char>, c: Seq<char>)
    ensures
        parse_spec(three_numbers(a, Tok::Minus, b, Tok::Plus, c)) == Ok::<Ast, SyntaxError>(
            Ast::Add(Box::new(Ast::Sub(Box::new(Ast::Num(a)), Box::new(Ast::Num(b)))), Box::new(Ast::Num(c))),
        ),
        parse_spec(three_numbers(a, Tok::Minus, b, Tok::Minus, c)) == Ok::<Ast, SyntaxError>(
            Ast::Sub(Box::new(Ast::Sub(Box::new(Ast::Num(a)), Box::new(Ast::Num(b)))), Box::new(Ast::Num(c))),
        ),
        parse_spec(three_numbers(a, Tok::Caret, b, Tok::Caret, c)) == Ok::<Ast, SyntaxError>(
            Ast::Pow(Box::new(Ast::Num(a)), Box::new(Ast::Pow(Box::new(Ast::Num(b)), Box::new(Ast::Num(c))))),
        ),
        parse_spec(three_numbers(a, Tok::Mul, b, Tok::Caret, c)) == Ok::<Ast, SyntaxError>(
            Ast::Mul(Box::new(Ast::Num(a)), Box::new(Ast::Pow(Box::new(Ast::Num(b)), Box::new(Ast::Num(c))))),
        ),
{
    lemma_low_then_low(a, Tok::Minus, b, Tok::Plus, c);
    lemma_low_then_low(a, Tok::Minus, b, Tok::Minus, c);
    lemma_power_chain(a, b, c);
    lemma_mul_then_power(a, b, c);
}

proof fn lemma_low_then_low(a: Seq<char>, op1: Tok, b: Seq<char>, op2: Tok, c: Seq<char>)
    requires
        op1 is Plus || op1 is Minus,
        op2 is Plus || op2 is Minus,
    ensures
        parse_spec(three_numbers(a, op1, b, op2, c)) == Ok::<Ast, SyntaxError>(
            binop(op2, binop(op1, Ast::Num(a), Ast::Num(b)), Ast::Num(c)),
        ),
{
    let t = three_numbers(a, op1, b, op2, c);
    lemma_number_power(t, 0, a);
    lemma_number_power(t, 2, b);
    lemma_number_power(t, 4, c);
    assert(term_tail(t, Ast::Num(a), 1) == Ok::<(Ast, int), SyntaxError>((Ast::Num(a), 1)));
    assert(p_term(t, 0) == Ok::<(Ast, int), SyntaxError>((Ast::Num(a), 1)));
    assert(term_tail(t, Ast::Num(b), 3) == Ok::<(Ast, int), SyntaxError>((Ast::Num(b), 3)));
    assert(p_term(t, 2) == Ok::<(Ast, int), SyntaxError>((Ast::Num(b), 3)));
    assert(term_tail(t, Ast::Num(c), 5) == Ok::<(Ast, int), SyntaxError>((Ast::Num(c), 5)));
    assert(p_term(t, 4) == Ok::<(Ast, int), SyntaxError>((Ast::Num(c), 5)));
    let ab = binop(op1, Ast::Num(a), Ast::Num(b));
    let whole = binop(op2, ab, Ast::Num(c));
    assert(expr_tail(t, whole, 5) == Ok::<(Ast, int), SyntaxError>((whole, 5)));
    assert(expr_tail(t, ab, 3) == Ok::<(Ast, int), SyntaxError>((whole, 5)));
    assert(expr_tail(t, Ast::Num(a), 1) == Ok::<(Ast, int), SyntaxError>((whole, 5)));
    assert(p_expr(t, 0) == Ok::<(Ast, int), SyntaxError>((whole, 5)));
}

/// A number followed by `^` is a whole factor: the number alone.
proof fn lemma_number_factor(t: Seq<Tok>, i: int, n: Seq<char>)
    requires
        0 <= i < t.len(),
        t[i] == Tok::Num(n),
        i + 1 < t.len() ==> !(t[i + 1] is Bang),
    ensures
        p_factor(t, i) == Ok::<(Ast, int), SyntaxError>((Ast::Num(n), i + 1)),
{
    assert(p_operand(t, i) == Ok::<(Ast, int), SyntaxError>((Ast::Num(n), i + 1)));
    assert(fact_tail(t, Ast::Num(n), i + 1) == Ok::<(Ast, int), SyntaxError>((Ast::Num(n), i + 1)));
}

proof fn lemma_power_chain(a: Seq<char>, b: Seq<char>, c: Seq<char>)
    ensures
        parse_spec(three_numbers(a, Tok::Caret, b, Tok::Caret, c)) == Ok::<Ast, SyntaxError>(
            Ast::Pow(Box::new(Ast::Num(a)), Box::new(Ast::Pow(Box::new(Ast::Num(b)), Box::new(Ast::Num(c))))),
        ),
{
    let t = three_numbers(a, Tok::Caret, b, Tok::Caret, c);
    lemma_number_power(t, 4, c);
    lemma_number_factor(t, 2, b);
    lemma_number_factor(t, 0, a);
    let bc = Ast::Pow(Box::new(Ast::Num(b)), Box::new(Ast::Num(c)));
    assert(pow_tail(t, bc, 5) == Ok::<(Ast, int), SyntaxError>((bc, 5)));
    assert(pow_tail(t, Ast::Num(b), 3) == Ok::<(Ast, int), SyntaxError>((bc, 5)));
    assert(p_pow(t, 2) == Ok::<(Ast, int), SyntaxError>((bc, 5)));
    let whole = Ast::Pow(Box::new(Ast::Num(a)), Box::new(bc));
    assert(pow_tail(t, whole, 5) == Ok::<(Ast, int), SyntaxError>((whole, 5)));
    assert(pow_tail(t, Ast::Num(a), 1) == Ok::<(Ast, int), SyntaxError>((whole, 5)));
    assert(p_pow(t, 0) == Ok::<(Ast, int), SyntaxError>((whole, 5)));
    assert(term_tail(t, whole, 5) == Ok::<(Ast, int), SyntaxError>((whole, 5)));
    assert(p_term(t, 0) == Ok::<(Ast, int), SyntaxError>((whole, 5)));
    assert(expr_tail(t, whole, 5) == Ok::<(Ast, int), SyntaxError>((whole, 5)));
    assert(p_expr(t, 0) == Ok::<(Ast, int), SyntaxError>((whole, 5)));
}

proof fn lemma_mul_then_power(a: Seq<char>, b: Seq<char>, c: Seq<char>)
    ensures
        parse_spec(three_numbers(a, Tok::Mul, b, Tok::Caret, c)) == Ok::<Ast, SyntaxError>(
            Ast::Mul(Box::new(Ast::Num(a)), Box::new(Ast::Pow(Box::new(Ast::Num(b)), Box::new(Ast::Num(c))))),
        ),
{
    let t = three_numbers(a, Tok::Mul, b, Tok::Caret, c);
    lemma_number_power(t, 0, a);
    lemma_number_power(t, 4, c);
    lemma_number_factor(t, 2, b);
    let bc = Ast::Pow(Box::new(Ast::Num(b)), Box::new(Ast::Num(c)));
    assert(pow_tail(t, bc, 5) == Ok::<(Ast, int), SyntaxError>((bc, 5)));
    assert(pow_tail(t, Ast::Num(b), 3) == Ok::<(Ast, int), SyntaxError>((bc, 5)));
    assert(p_pow(t, 2) == Ok::<(Ast, int), SyntaxError>((bc, 5)));
    let whole = Ast::Mul(Box::new(Ast::Num(a)), Box::new(bc));
    assert(term_tail(t, whole, 5) == Ok::<(Ast, int), SyntaxError>((whole, 5)));
    assert(term_tail(t, Ast::Num(a), 1) == Ok::<(Ast, int), SyntaxError>((whole, 5)));
    assert(p_term(t, 0) == Ok::<(Ast, int), SyntaxError>((whole, 5)));
    assert(expr_tail(t, whole, 5) == Ok::<(Ast, int), SyntaxError>((whole, 5)));
    assert(p_expr(t, 0) == Ok::<(Ast, int), SyntaxError>((whole, 5)));
}

} // verus!
