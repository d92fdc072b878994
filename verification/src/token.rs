use vstd::prelude::*;

verus! {

/// The lexical category of a token. Categories with variable content
/// (malformed lexemes, identifiers, number, string and character literals)
/// carry the raw text they were derived from; keywords and symbols carry
/// nothing.
#[derive(Debug, Clone, PartialEq, Eq)]
pub enum TokenKind {
    Invalid(String),
    Identifier(String),
    // Values
    Number(String),
    String(String),
    Char(String),
    // Keywords
    Fn,
    Mut,
    If,
    Else,
    Elif,
    For,
    In,
    While,
    // Symbols
    LeftCurly,
    RightCurly,
    LeftParen,
    RightParen,
    LeftBracket,
    RightBracket,
    Colon,
    // Boolean operators
    Not,
    And,
    Or,
    Equals,
    NotEquals,
    LowerThan,
    LowerEquals,
    GreaterThan,
    GreaterEquals,
    // Bitwise operators
    BitNot,
    BitAnd,
    BitOr,
    BitXor,
    // Assignment and arithmetic operators
    Declaratation,
    Assignment,
    Plus,
    Minus,
    Times,
    DividedBy,
    Modulus,
}

/// The mathematical model of a `TokenKind`: the same categories, with every
/// text payload abstracted to the sequence of characters it holds.
pub enum SpecTokenKind {
    Invalid(Seq<char>),
    Identifier(Seq<char>),
    Number(Seq<char>),
    String(Seq<char>),
    Char(Seq<char>),
    Fn,
    Mut,
    If,
    Else,
    Elif,
    For,
    In,
    While,
    LeftCurly,
    RightCurly,
    LeftParen,
    RightParen,
    LeftBracket,
    RightBracket,
    Colon,
    Not,
    And,
    Or,
    Equals,
    NotEquals,
    LowerThan,
    LowerEquals,
    GreaterThan,
    GreaterEquals,
    BitNot,
    BitAnd,
    BitOr,
    BitXor,
    Declaratation,
    Assignment,
    Plus,
    Minus,
    Times,
    DividedBy,
    Modulus,
}

impl View for TokenKind {
    type V = SpecTokenKind;

    open spec fn view(&self) -> SpecTokenKind {
        match self {
            TokenKind::Invalid(t) => SpecTokenKind::Invalid(t@),
            TokenKind::Identifier(t) => SpecTokenKind::Identifier(t@),
            TokenKind::Number(t) => SpecTokenKind::Number(t@),
            TokenKind::String(t) => SpecTokenKind::String(t@),
            TokenKind::Char(t) => SpecTokenKind::Char(t@),
            TokenKind::Fn => SpecTokenKind::Fn,
            TokenKind::Mut => SpecTokenKind::Mut,
            TokenKind::If => SpecTokenKind::If,
            TokenKind::Else => SpecTokenKind::Else,
            TokenKind::Elif => SpecTokenKind::Elif,
            TokenKind::For => SpecTokenKind::For,
            TokenKind::In => SpecTokenKind::In,
            TokenKind::While => SpecTokenKind::While,
            TokenKind::LeftCurly => SpecTokenKind::LeftCurly,
            TokenKind::RightCurly => SpecTokenKind::RightCurly,
            TokenKind::LeftParen => SpecTokenKind::LeftParen,
            TokenKind::RightParen => SpecTokenKind::RightParen,
            TokenKind::LeftBracket => SpecTokenKind::LeftBracket,
            TokenKind::RightBracket => SpecTokenKind::RightBracket,
            TokenKind::Colon => SpecTokenKind::Colon,
            TokenKind::Not => SpecTokenKind::Not,
            TokenKind::And => SpecTokenKind::And,
            TokenKind::Or => SpecTokenKind::Or,
            TokenKind::Equals => SpecTokenKind::Equals,
            TokenKind::NotEquals => SpecTokenKind::NotEquals,
            TokenKind::LowerThan => SpecTokenKind::LowerThan,
            TokenKind::LowerEquals => SpecTokenKind::LowerEquals,
            TokenKind::GreaterThan => SpecTokenKind::GreaterThan,
            TokenKind::GreaterEquals => SpecTokenKind::GreaterEquals,
            TokenKind::BitNot => SpecTokenKind::BitNot,
            TokenKind::BitAnd => SpecTokenKind::BitAnd,
            TokenKind::BitOr => SpecTokenKind::BitOr,
            TokenKind::BitXor => SpecTokenKind::BitXor,
            TokenKind::Declaratation => SpecTokenKind::Declaratation,
            TokenKind::Assignment => SpecTokenKind::Assignment,
            TokenKind::Plus => SpecTokenKind::Plus,
            TokenKind::Minus => SpecTokenKind::Minus,
            TokenKind::Times => SpecTokenKind::Times,
            TokenKind::DividedBy => SpecTokenKind::DividedBy,
            TokenKind::Modulus => SpecTokenKind::Modulus,
        }
    }
}

/// Positional metadata of a token: the name of the source unit it came from,
/// and the 1-based line and column of the token's first character.
#[derive(Debug, Clone, PartialEq, Eq)]
pub struct TokenContext {
    pub source_file: String,
    pub line: usize,
    pub column: usize,
}

/// The mathematical model of a `TokenContext`.
pub struct SpecTokenContext {
    pub source_file: Seq<char>,
    pub line: int,
    pub column: int,
}

impl View for TokenContext {
    type V = SpecTokenContext;

    open spec fn view(&self) -> SpecTokenContext {
        SpecTokenContext {
            source_file: self.source_file@,
            line: self.line as int,
            column: self.column as int,
        }
    }
}

/// A classified, positioned unit of lexical meaning extracted from source
/// text. A token is immutable once produced.
#[derive(Debug, Clone, PartialEq, Eq)]
pub struct Token {
    pub kind: TokenKind,
    pub context: TokenContext,
}

/// The mathematical model of a `Token`.
pub struct SpecToken {
    pub kind: SpecTokenKind,
    pub context: SpecTokenContext,
}

impl View for Token {
    type V = SpecToken;

    open spec fn view(&self) -> SpecToken {
        SpecToken { kind: self.kind@, context: self.context@ }
    }
}

} // verus!
