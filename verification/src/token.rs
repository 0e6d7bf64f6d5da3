//! Tokens produced by the lexer and consumed by the parser.

use vstd::prelude::*;

verus! {

/// A byte range in the source text.
pub type Span = std::ops::Range<usize>;

/// A lexical token. `Float` holds the IEEE-754 bits of the literal, so the
/// type can derive `Eq` and `Hash`.
#[derive(Debug, Clone, PartialEq, Eq, Hash)]
pub enum Token {
    // --- Literals ---
    Int(i64),
    Float(u64),
    Str(String),
    True,
    False,
    // --- Keywords ---
    Fn,
    Async,
    Match,
    Let,
    In,
    If,
    Then,
    Else,
    Type,
    Use,
    When,
    // --- Identifiers ---
    Ident(String),
    TypeIdent(String),
    // --- Operators ---
    PipeRight,
    PipeLeft,
    Compose,
    DoubleColon,
    Arrow,
    BindArrow,
    FatArrow,
    EqEq,
    Neq,
    Leq,
    Geq,
    And,
    Or,
    DotDot,
    Dot,
    Eq,
    Plus,
    Minus,
    Star,
    Slash,
    Percent,
    Lt,
    Gt,
    Bang,
    BackSlash,
    Pipe,
    Comma,
    Colon,
    // --- Delimiters ---
    LParen,
    RParen,
    LBrack,
    RBrack,
    LBrace,
    RBrace,
    // --- Layout (produced by the layout pass) ---
    Newline,
    Indent,
    Dedent,
    // --- Raw newline, consumed by the layout pass ---
    RawNewline,
    // --- Comment, dropped by the layout pass ---
    Comment,
}


/// A number naming the token's variant, ignoring its payload.
#[verifier::opaque]
pub open spec fn tok_code(t: Token) -> int {
    match t {
        Token::Int(_) => 0,
        Token::Float(_) => 1,
        Token::Str(_) => 2,
        Token::True => 3,
        Token::False => 4,
        Token::Fn => 5,
        Token::Async => 6,
        Token::Match => 7,
        Token::Let => 8,
        Token::In => 9,
        Token::If => 10,
        Token::Then => 11,
        Token::Else => 12,
        Token::Type => 13,
        Token::Use => 14,
        Token::When => 15,
        Token::Ident(_) => 16,
        Token::TypeIdent(_) => 17,
        Token::PipeRight => 18,
        Token::PipeLeft => 19,
        Token::Compose => 20,
        Token::DoubleColon => 21,
        Token::Arrow => 22,
        Token::BindArrow => 23,
        Token::FatArrow => 24,
        Token::EqEq => 25,
        Token::Neq => 26,
        Token::Leq => 27,
        Token::Geq => 28,
        Token::And => 29,
        Token::Or => 30,
        Token::DotDot => 31,
        Token::Dot => 32,
        Token::Eq => 33,
        Token::Plus => 34,
        Token::Minus => 35,
        Token::Star => 36,
        Token::Slash => 37,
        Token::Percent => 38,
        Token::Lt => 39,
        Token::Gt => 40,
        Token::Bang => 41,
        Token::BackSlash => 42,
        Token::Pipe => 43,
        Token::Comma => 44,
        Token::Colon => 45,
        Token::LParen => 46,
        Token::RParen => 47,
        Token::LBrack => 48,
        Token::RBrack => 49,
        Token::LBrace => 50,
        Token::RBrace => 51,
        Token::Newline => 52,
        Token::Indent => 53,
        Token::Dedent => 54,
        Token::RawNewline => 55,
        Token::Comment => 56,
    }
}

/// The variant number of a token, as in `tok_code`.
pub fn token_code(t: &Token) -> (r: u8)
    ensures
        r as int == tok_code(*t),
{
    reveal(tok_code);
    match t {
        Token::Int(_) => 0,
        Token::Float(_) => 1,
        Token::Str(_) => 2,
        Token::True => 3,
        Token::False => 4,
        Token::Fn => 5,
        Token::Async => 6,
        Token::Match => 7,
        Token::Let => 8,
        Token::In => 9,
        Token::If => 10,
        Token::Then => 11,
        Token::Else => 12,
        Token::Type => 13,
        Token::Use => 14,
        Token::When => 15,
        Token::Ident(_) => 16,
        Token::TypeIdent(_) => 17,
        Token::PipeRight => 18,
        Token::PipeLeft => 19,
        Token::Compose => 20,
        Token::DoubleColon => 21,
        Token::Arrow => 22,
        Token::BindArrow => 23,
        Token::FatArrow => 24,
        Token::EqEq => 25,
        Token::Neq => 26,
        Token::Leq => 27,
        Token::Geq => 28,
        Token::And => 29,
        Token::Or => 30,
        Token::DotDot => 31,
        Token::Dot => 32,
        Token::Eq => 33,
        Token::Plus => 34,
        Token::Minus => 35,
        Token::Star => 36,
        Token::Slash => 37,
        Token::Percent => 38,
        Token::Lt => 39,
        Token::Gt => 40,
        Token::Bang => 41,
        Token::BackSlash => 42,
        Token::Pipe => 43,
        Token::Comma => 44,
        Token::Colon => 45,
        Token::LParen => 46,
        Token::RParen => 47,
        Token::LBrack => 48,
        Token::RBrack => 49,
        Token::LBrace => 50,
        Token::RBrace => 51,
        Token::Newline => 52,
        Token::Indent => 53,
        Token::Dedent => 54,
        Token::RawNewline => 55,
        Token::Comment => 56,
    }
}

/// Whether two tokens are of the same variant.
pub fn same_kind(a: &Token, b: &Token) -> (r: bool)
    ensures
        r == (tok_code(*a) == tok_code(*b)),
{
    token_code(a) == token_code(b)
}

/// Copies a span.
pub fn copy_span(s: &Span) -> (r: Span)
    ensures
        r == *s,
{
    std::ops::Range { start: s.start, end: s.end }
}

impl Token {
    /// A copy of the token, equal to it.
    pub fn duplicate(&self) -> (r: Token)
        ensures
            r == *self,
    {
        match self {
            Token::Int(n) => Token::Int(*n),
            Token::Float(b) => Token::Float(*b),
            Token::Str(s) => Token::Str(s.clone()),
            Token::Ident(s) => Token::Ident(s.clone()),
            Token::TypeIdent(s) => Token::TypeIdent(s.clone()),
            Token::True => Token::True,
            Token::False => Token::False,
            Token::Fn => Token::Fn,
            Token::Async => Token::Async,
            Token::Match => Token::Match,
            Token::Let => Token::Let,
            Token::In => Token::In,
            Token::If => Token::If,
            Token::Then => Token::Then,
            Token::Else => Token::Else,
            Token::Type => Token::Type,
            Token::Use => Token::Use,
            Token::When => Token::When,
            Token::PipeRight => Token::PipeRight,
            Token::PipeLeft => Token::PipeLeft,
            Token::Compose => Token::Compose,
            Token::DoubleColon => Token::DoubleColon,
            Token::Arrow => Token::Arrow,
            Token::BindArrow => Token::BindArrow,
            Token::FatArrow => Token::FatArrow,
            Token::EqEq => Token::EqEq,
            Token::Neq => Token::Neq,
            Token::Leq => Token::Leq,
            Token::Geq => Token::Geq,
            Token::And => Token::And,
            Token::Or => Token::Or,
            Token::DotDot => Token::DotDot,
            Token::Dot => Token::Dot,
            Token::Eq => Token::Eq,
            Token::Plus => Token::Plus,
            Token::Minus => Token::Minus,
            Token::Star => Token::Star,
            Token::Slash => Token::Slash,
            Token::Percent => Token::Percent,
            Token::Lt => Token::Lt,
            Token::Gt => Token::Gt,
            Token::Bang => Token::Bang,
            Token::BackSlash => Token::BackSlash,
            Token::Pipe => Token::Pipe,
            Token::Comma => Token::Comma,
            Token::Colon => Token::Colon,
            Token::LParen => Token::LParen,
            Token::RParen => Token::RParen,
            Token::LBrack => Token::LBrack,
            Token::RBrack => Token::RBrack,
            Token::LBrace => Token::LBrace,
            Token::RBrace => Token::RBrace,
            Token::Newline => Token::Newline,
            Token::Indent => Token::Indent,
            Token::Dedent => Token::Dedent,
            Token::RawNewline => Token::RawNewline,
            Token::Comment => Token::Comment,
        }
    }
}

} // verus!
