//! Tokens: what the scanner emits, and the mathematical values that stand for them.

use vstd::prelude::*;

verus! {

/// Coarse classification of a token. Carries no data.
#[derive(Debug, Clone, Copy, PartialEq, Eq, Structural)]
pub enum TokenCategory {
    Keyword,
    Identifier,
    Number,
    Literal,
    Separator,
    Operation,
}

/// The kind of a token, with its payload where it has one.
///
/// `DecimalNumber` carries the literal's source text (a minus sign, digits, and exactly one
/// `.`); turning that text into a binary floating-point value is left to the caller.
#[derive(Debug, Clone, PartialEq, Eq)]
pub enum TokenType {
    // Keywords
    Func,
    If,
    While,
    For,
    Var,
    // Operations
    Plus,
    Minus,
    Divide,
    Multiply,
    Mod,
    Power,
    PlusPlus,
    MinusMinus,
    Equals,
    EqualsEquals,
    LessThan,
    MoreThan,
    LessThanEquals,
    MoreThanEquals,
    PlusEquals,
    MinusEquals,
    DivideEquals,
    MultiplyEquals,
    // Separators
    Comma,
    Colon,
    OpeningBracket,
    ClosingBracket,
    OpeningSquareBracket,
    ClosingSquareBracket,
    Tab,
    // Identifier
    Identifier(String),
    // Literals
    IntNumber(i32),
    DecimalNumber(String),
    Char(String),
    String(String),
}

/// A scanned token: its kind and its category.
#[derive(Debug, Clone, PartialEq, Eq)]
pub struct Token {
    pub token_type: TokenType,
    pub token_category: TokenCategory,
}

/// The mathematical value of a [`TokenType`]: text is a sequence of characters, an integer
/// is an `int`.
pub ghost enum TokenKind {
    Func,
    If,
    While,
    For,
    Var,
    Plus,
    Minus,
    Divide,
    Multiply,
    Mod,
    Power,
    PlusPlus,
    MinusMinus,
    Equals,
    EqualsEquals,
    LessThan,
    MoreThan,
    LessThanEquals,
    MoreThanEquals,
    PlusEquals,
    MinusEquals,
    DivideEquals,
    MultiplyEquals,
    Comma,
    Colon,
    OpeningBracket,
    ClosingBracket,
    OpeningSquareBracket,
    ClosingSquareBracket,
    Tab,
    Identifier(Seq<char>),
    IntNumber(int),
    DecimalNumber(Seq<char>),
    Char(Seq<char>),
    String(Seq<char>),
}

/// The mathematical value of a [`Token`].
pub ghost struct TokenView {
    pub kind: TokenKind,
    pub category: TokenCategory,
}

impl View for TokenType {
    type V = TokenKind;

    open spec fn view(&self) -> TokenKind {
        match self {
            TokenType::Func => TokenKind::Func,
            TokenType::If => TokenKind::If,
            TokenType::While => TokenKind::While,
            TokenType::For => TokenKind::For,
            TokenType::Var => TokenKind::Var,
            TokenType::Plus => TokenKind::Plus,
            TokenType::Minus => TokenKind::Minus,
            TokenType::Divide => TokenKind::Divide,
            TokenType::Multiply => TokenKind::Multiply,
            TokenType::Mod => TokenKind::Mod,
            TokenType::Power => TokenKind::Power,
            TokenType::PlusPlus => TokenKind::PlusPlus,
            TokenType::MinusMinus => TokenKind::MinusMinus,
            TokenType::Equals => TokenKind::Equals,
            TokenType::EqualsEquals => TokenKind::EqualsEquals,
            TokenType::LessThan => TokenKind::LessThan,
            TokenType::MoreThan => TokenKind::MoreThan,
            TokenType::LessThanEquals => TokenKind::LessThanEquals,
            TokenType::MoreThanEquals => TokenKind::MoreThanEquals,
            TokenType::PlusEquals => TokenKind::PlusEquals,
            TokenType::MinusEquals => TokenKind::MinusEquals,
            TokenType::DivideEquals => TokenKind::DivideEquals,
            TokenType::MultiplyEquals => TokenKind::MultiplyEquals,
            TokenType::Comma => TokenKind::Comma,
            TokenType::Colon => TokenKind::Colon,
            TokenType::OpeningBracket => TokenKind::OpeningBracket,
            TokenType::ClosingBracket => TokenKind::ClosingBracket,
            TokenType::OpeningSquareBracket => TokenKind::OpeningSquareBracket,
            TokenType::ClosingSquareBracket => TokenKind::ClosingSquareBracket,
            TokenType::Tab => TokenKind::Tab,
            TokenType::Identifier(text) => TokenKind::Identifier(text@),
            TokenType::IntNumber(value) => TokenKind::IntNumber(*value as int),
            TokenType::DecimalNumber(text) => TokenKind::DecimalNumber(text@),
            TokenType::Char(text) => TokenKind::Char(text@),
            TokenType::String(text) => TokenKind::String(text@),
        }
    }
}

impl View for Token {
    type V = TokenView;

    open spec fn view(&self) -> TokenView {
        TokenView { kind: self.token_type@, category: self.token_category }
    }
}

/// The category that belongs to each kind of token.
pub open spec fn category_of(kind: TokenKind) -> TokenCategory {
    match kind {
        TokenKind::Func | TokenKind::If | TokenKind::While | TokenKind::For | TokenKind::Var =>
            TokenCategory::Keyword,
        TokenKind::Identifier(_) => TokenCategory::Identifier,
        TokenKind::IntNumber(_) | TokenKind::DecimalNumber(_) => TokenCategory::Number,
        TokenKind::Char(_) | TokenKind::String(_) => TokenCategory::Literal,
        TokenKind::Comma
        | TokenKind::Colon
        | TokenKind::OpeningBracket
        | TokenKind::ClosingBracket
        | TokenKind::OpeningSquareBracket
        | TokenKind::ClosingSquareBracket
        | TokenKind::Tab => TokenCategory::Separator,
        _ => TokenCategory::Operation,
    }
}

} // verus!
