//! Lexical tokens, their kinds, and the binding precedence of each token.
//!
//! Tokens arrive from the host's lexer as an ordered, finite sequence that
//! the parser consumes left to right; `Token::Eof` is the end marker, and
//! `Token::Error` stands for a piece of text the lexer could not classify.

use vstd::prelude::*;

verus! {

/// A classified lexical unit: keyword, identifier, literal, operator,
/// punctuation, or the end-of-input marker.
#[derive(Debug, Clone, PartialEq)]
pub enum Token {
    Let,
    Fn,
    If,
    Elif,
    Else,
    Loop,
    Return,
    Continue,
    Break,
    Identifier(String),
    True,
    False,
    Number(i64),
    String(String),
    LeftParen,
    RightParen,
    LeftBrace,
    RightBrace,
    LeftBracket,
    RightBracket,
    Plus,
    Minus,
    Asterisk,
    Slash,
    Percent,
    Assign,
    Equals,
    NotEquals,
    LessThan,
    GreaterThan,
    LessThanOrEquals,
    GreaterThanOrEquals,
    And,
    Or,
    Comma,
    Colon,
    Bang,
    Dot,
    Eof,
    Error,
}

/// The kind of a token: the variant without its payload. The parser
/// dispatches on kinds, so two identifier tokens with different names
/// have the same kind.
#[derive(Debug, Clone, Copy, PartialEq, Eq, Structural)]
pub enum TokenKind {
    Let,
    Fn,
    If,
    Elif,
    Else,
    Loop,
    Return,
    Continue,
    Break,
    Identifier,
    True,
    False,
    Number,
    String,
    LeftParen,
    RightParen,
    LeftBrace,
    RightBrace,
    LeftBracket,
    RightBracket,
    Plus,
    Minus,
    Asterisk,
    Slash,
    Percent,
    Assign,
    Equals,
    NotEquals,
    LessThan,
    GreaterThan,
    LessThanOrEquals,
    GreaterThanOrEquals,
    And,
    Or,
    Comma,
    Colon,
    Bang,
    Dot,
    Eof,
    Error,
}

/// The kind of `t`, as a spec-level function.
pub open spec fn spec_kind(t: Token) -> TokenKind {
    match t {
        Token::Let => TokenKind::Let,
        Token::Fn => TokenKind::Fn,
        Token::If => TokenKind::If,
        Token::Elif => TokenKind::Elif,
        Token::Else => TokenKind::Else,
        Token::Loop => TokenKind::Loop,
        Token::Return => TokenKind::Return,
        Token::Continue => TokenKind::Continue,
        Token::Break => TokenKind::Break,
        Token::Identifier(_) => TokenKind::Identifier,
        Token::True => TokenKind::True,
        Token::False => TokenKind::False,
        Token::Number(_) => TokenKind::Number,
        Token::String(_) => TokenKind::String,
        Token::LeftParen => TokenKind::LeftParen,
        Token::RightParen => TokenKind::RightParen,
        Token::LeftBrace => TokenKind::LeftBrace,
        Token::RightBrace => TokenKind::RightBrace,
        Token::LeftBracket => TokenKind::LeftBracket,
        Token::RightBracket => TokenKind::RightBracket,
        Token::Plus => TokenKind::Plus,
        Token::Minus => TokenKind::Minus,
        Token::Asterisk => TokenKind::Asterisk,
        Token::Slash => TokenKind::Slash,
        Token::Percent => TokenKind::Percent,
        Token::Assign => TokenKind::Assign,
        Token::Equals => TokenKind::Equals,
        Token::NotEquals => TokenKind::NotEquals,
        Token::LessThan => TokenKind::LessThan,
        Token::GreaterThan => TokenKind::GreaterThan,
        Token::LessThanOrEquals => TokenKind::LessThanOrEquals,
        Token::GreaterThanOrEquals => TokenKind::GreaterThanOrEquals,
        Token::And => TokenKind::And,
        Token::Or => TokenKind::Or,
        Token::Comma => TokenKind::Comma,
        Token::Colon => TokenKind::Colon,
        Token::Bang => TokenKind::Bang,
        Token::Dot => TokenKind::Dot,
        Token::Eof => TokenKind::Eof,
        Token::Error => TokenKind::Error,
    }
}

impl Token {
    /// The kind of this token.
    pub fn kind(&self) -> (k: TokenKind)
        ensures
            k == spec_kind(*self),
    {
        match self {
            Token::Let => TokenKind::Let,
            Token::Fn => TokenKind::Fn,
            Token::If => TokenKind::If,
            Token::Elif => TokenKind::Elif,
            Token::Else => TokenKind::Else,
            Token::Loop => TokenKind::Loop,
            Token::Return => TokenKind::Return,
            Token::Continue => TokenKind::Continue,
            Token::Break => TokenKind::Break,
            Token::Identifier(_) => TokenKind::Identifier,
            Token::True => TokenKind::True,
            Token::False => TokenKind::False,
            Token::Number(_) => TokenKind::Number,
            Token::String(_) => TokenKind::String,
            Token::LeftParen => TokenKind::LeftParen,
            Token::RightParen => TokenKind::RightParen,
            Token::LeftBrace => TokenKind::LeftBrace,
            Token::RightBrace => TokenKind::RightBrace,
            Token::LeftBracket => TokenKind::LeftBracket,
            Token::RightBracket => TokenKind::RightBracket,
            Token::Plus => TokenKind::Plus,
            Token::Minus => TokenKind::Minus,
            Token::Asterisk => TokenKind::Asterisk,
            Token::Slash => TokenKind::Slash,
            Token::Percent => TokenKind::Percent,
            Token::Assign => TokenKind::Assign,
            Token::Equals => TokenKind::Equals,
            Token::NotEquals => TokenKind::NotEquals,
            Token::LessThan => TokenKind::LessThan,
            Token::GreaterThan => TokenKind::GreaterThan,
            Token::LessThanOrEquals => TokenKind::LessThanOrEquals,
            Token::GreaterThanOrEquals => TokenKind::GreaterThanOrEquals,
            Token::And => TokenKind::And,
            Token::Or => TokenKind::Or,
            Token::Comma => TokenKind::Comma,
            Token::Colon => TokenKind::Colon,
            Token::Bang => TokenKind::Bang,
            Token::Dot => TokenKind::Dot,
            Token::Eof => TokenKind::Eof,
            Token::Error => TokenKind::Error,
        }
    }

    /// A copy of this token that is equal to it, payload included.
    pub fn duplicate(&self) -> (r: Token)
        ensures
            r == *self,
    {
        match self {
            Token::Let => Token::Let,
            Token::Fn => Token::Fn,
            Token::If => Token::If,
            Token::Elif => Token::Elif,
            Token::Else => Token::Else,
            Token::Loop => Token::Loop,
            Token::Return => Token::Return,
            Token::Continue => Token::Continue,
            Token::Break => Token::Break,
            Token::Identifier(s) => Token::Identifier(s.clone()),
            Token::True => Token::True,
            Token::False => Token::False,
            Token::Number(n) => Token::Number(*n),
            Token::String(s) => Token::String(s.clone()),
            Token::LeftParen => Token::LeftParen,
            Token::RightParen => Token::RightParen,
            Token::LeftBrace => Token::LeftBrace,
            Token::RightBrace => Token::RightBrace,
            Token::LeftBracket => Token::LeftBracket,
            Token::RightBracket => Token::RightBracket,
            Token::Plus => Token::Plus,
            Token::Minus => Token::Minus,
            Token::Asterisk => Token::Asterisk,
            Token::Slash => Token::Slash,
            Token::Percent => Token::Percent,
            Token::Assign => Token::Assign,
            Token::Equals => Token::Equals,
            Token::NotEquals => Token::NotEquals,
            Token::LessThan => Token::LessThan,
            Token::GreaterThan => Token::GreaterThan,
            Token::LessThanOrEquals => Token::LessThanOrEquals,
            Token::GreaterThanOrEquals => Token::GreaterThanOrEquals,
            Token::And => Token::And,
            Token::Or => Token::Or,
            Token::Comma => Token::Comma,
            Token::Colon => Token::Colon,
            Token::Bang => Token::Bang,
            Token::Dot => Token::Dot,
            Token::Eof => Token::Eof,
            Token::Error => Token::Error,
        }
    }
}

/// Binding precedence of an infix or postfix position, loosest to tightest.
#[derive(Debug, Clone, Copy, PartialEq, Eq, Structural)]
pub enum Precedence {
    Lowest,
    Statement,
    Assign,
    AndOr,
    LessThanGreaterThan,
    Equals,
    Sum,
    Product,
    Prefix,
    Call,
}

/// The numeric level of a precedence tier; a larger level binds tighter.
pub open spec fn spec_level(p: Precedence) -> int {
    match p {
        Precedence::Lowest => 0,
        Precedence::Statement => 1,
        Precedence::Assign => 2,
        Precedence::AndOr => 3,
        Precedence::LessThanGreaterThan => 4,
        Precedence::Equals => 5,
        Precedence::Sum => 6,
        Precedence::Product => 7,
        Precedence::Prefix => 8,
        Precedence::Call => 9,
    }
}

/// The precedence tier of the token kind `k` when it stands in infix or
/// postfix position; kinds that cannot continue an expression get `Lowest`.
pub open spec fn spec_precedence(k: TokenKind) -> Precedence {
    match k {
        TokenKind::Asterisk | TokenKind::Slash | TokenKind::Percent => Precedence::Product,
        TokenKind::Plus | TokenKind::Minus => Precedence::Sum,
        TokenKind::LeftParen | TokenKind::Dot | TokenKind::LeftBracket => Precedence::Call,
        TokenKind::LessThan
        | TokenKind::GreaterThan
        | TokenKind::LessThanOrEquals
        | TokenKind::GreaterThanOrEquals => Precedence::LessThanGreaterThan,
        TokenKind::Equals | TokenKind::NotEquals => Precedence::Equals,
        TokenKind::And | TokenKind::Or => Precedence::AndOr,
        TokenKind::Assign => Precedence::Assign,
        TokenKind::LeftBrace => Precedence::Statement,
        _ => Precedence::Lowest,
    }
}

impl Precedence {
    /// The numeric level of this tier.
    pub fn level(&self) -> (n: u8)
        ensures
            n as int == spec_level(*self),
    {
        match self {
            Precedence::Lowest => 0,
            Precedence::Statement => 1,
            Precedence::Assign => 2,
            Precedence::AndOr => 3,
            Precedence::LessThanGreaterThan => 4,
            Precedence::Equals => 5,
            Precedence::Sum => 6,
            Precedence::Product => 7,
            Precedence::Prefix => 8,
            Precedence::Call => 9,
        }
    }

    /// True when this tier binds strictly less tightly than `other`.
    pub fn binds_less_than(&self, other: Precedence) -> (r: bool)
        ensures
            r == (spec_level(*self) < spec_level(other)),
    {
        self.level() < other.level()
    }

    /// The precedence tier of `token` in infix or postfix position.
    pub fn token(token: &Token) -> (p: Precedence)
        ensures
            p == spec_precedence(spec_kind(*token)),
    {
        Self::of_kind(token.kind())
    }

    /// The precedence tier of the token kind `k`.
    pub fn of_kind(k: TokenKind) -> (p: Precedence)
        ensures
            p == spec_precedence(k),
    {
        match k {
            TokenKind::Asterisk | TokenKind::Slash | TokenKind::Percent => Precedence::Product,
            TokenKind::Plus | TokenKind::Minus => Precedence::Sum,
            TokenKind::LeftParen | TokenKind::Dot | TokenKind::LeftBracket => Precedence::Call,
            TokenKind::LessThan
            | TokenKind::GreaterThan
            | TokenKind::LessThanOrEquals
            | TokenKind::GreaterThanOrEquals => Precedence::LessThanGreaterThan,
            TokenKind::Equals | TokenKind::NotEquals => Precedence::Equals,
            TokenKind::And | TokenKind::Or => Precedence::AndOr,
            TokenKind::Assign => Precedence::Assign,
            TokenKind::LeftBrace => Precedence::Statement,
            _ => Precedence::Lowest,
        }
    }
}

} // verus!
