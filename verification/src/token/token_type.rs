//! The kinds of token.
use vstd::prelude::*;
use crate::value::ValueType;

verus! {

/// The kind of a token. `TokenError` carries the message of a lexical error.
#[derive(Debug, PartialEq, Eq, Hash)]
pub enum TokenType {
    TokenLeftParen,
    TokenRightParen,
    TokenLeftBrace,
    TokenRightBrace,
    TokenComma,
    TokenMinus,
    TokenDot,
    TokenPlus,
    TokenSemicolon,
    TokenSlash,
    TokenStar,
    TokenPower,
    TokenStringStart,
    TokenStringEnd,
    TokenInterpolationStart,
    TokenInterpolationEnd,
    TokenBang,
    TokenBangEqual,
    TokenEqual,
    TokenEqualEqual,
    TokenGreater,
    TokenGreaterEqual,
    TokenLess,
    TokenLessEqual,
    TokenDeclaration,
    TokenIdentifier,
    TokenString,
    TokenNumber,
    TokenAnd,
    TokenClass,
    TokenElse,
    TokenFalse,
    TokenFor,
    TokenFn,
    TokenIf,
    TokenNull,
    TokenOr,
    TokenPrint,
    TokenReturn,
    TokenThis,
    TokenTrue,
    TokenLet,
    TokenMutable,
    TokenWhile,
    TokenExprEnd,
    TokenError(String),
    TokenEof,
}

/// A `TokenType` with the message of an error as a sequence of characters.
pub enum TokenTypeView {
    TokenLeftParen,
    TokenRightParen,
    TokenLeftBrace,
    TokenRightBrace,
    TokenComma,
    TokenMinus,
    TokenDot,
    TokenPlus,
    TokenSemicolon,
    TokenSlash,
    TokenStar,
    TokenPower,
    TokenStringStart,
    TokenStringEnd,
    TokenInterpolationStart,
    TokenInterpolationEnd,
    TokenBang,
    TokenBangEqual,
    TokenEqual,
    TokenEqualEqual,
    TokenGreater,
    TokenGreaterEqual,
    TokenLess,
    TokenLessEqual,
    TokenDeclaration,
    TokenIdentifier,
    TokenString,
    TokenNumber,
    TokenAnd,
    TokenClass,
    TokenElse,
    TokenFalse,
    TokenFor,
    TokenFn,
    TokenIf,
    TokenNull,
    TokenOr,
    TokenPrint,
    TokenReturn,
    TokenThis,
    TokenTrue,
    TokenLet,
    TokenMutable,
    TokenWhile,
    TokenExprEnd,
    TokenError(Seq<char>),
    TokenEof,
}

impl View for TokenType {
    type V = TokenTypeView;

    open spec fn view(&self) -> TokenTypeView {
        match self {
            TokenType::TokenLeftParen => TokenTypeView::TokenLeftParen,
            TokenType::TokenRightParen => TokenTypeView::TokenRightParen,
            TokenType::TokenLeftBrace => TokenTypeView::TokenLeftBrace,
            TokenType::TokenRightBrace => TokenTypeView::TokenRightBrace,
            TokenType::TokenComma => TokenTypeView::TokenComma,
            TokenType::TokenMinus => TokenTypeView::TokenMinus,
            TokenType::TokenDot => TokenTypeView::TokenDot,
            TokenType::TokenPlus => TokenTypeView::TokenPlus,
            TokenType::TokenSemicolon => TokenTypeView::TokenSemicolon,
            TokenType::TokenSlash => TokenTypeView::TokenSlash,
            TokenType::TokenStar => TokenTypeView::TokenStar,
            TokenType::TokenPower => TokenTypeView::TokenPower,
            TokenType::TokenStringStart => TokenTypeView::TokenStringStart,
            TokenType::TokenStringEnd => TokenTypeView::TokenStringEnd,
            TokenType::TokenInterpolationStart => TokenTypeView::TokenInterpolationStart,
            TokenType::TokenInterpolationEnd => TokenTypeView::TokenInterpolationEnd,
            TokenType::TokenBang => TokenTypeView::TokenBang,
            TokenType::TokenBangEqual => TokenTypeView::TokenBangEqual,
            TokenType::TokenEqual => TokenTypeView::TokenEqual,
            TokenType::TokenEqualEqual => TokenTypeView::TokenEqualEqual,
            TokenType::TokenGreater => TokenTypeView::TokenGreater,
            TokenType::TokenGreaterEqual => TokenTypeView::TokenGreaterEqual,
            TokenType::TokenLess => TokenTypeView::TokenLess,
            TokenType::TokenLessEqual => TokenTypeView::TokenLessEqual,
            TokenType::TokenDeclaration => TokenTypeView::TokenDeclaration,
            TokenType::TokenIdentifier => TokenTypeView::TokenIdentifier,
            TokenType::TokenString => TokenTypeView::TokenString,
            TokenType::TokenNumber => TokenTypeView::TokenNumber,
            TokenType::TokenAnd => TokenTypeView::TokenAnd,
            TokenType::TokenClass => TokenTypeView::TokenClass,
            TokenType::TokenElse => TokenTypeView::TokenElse,
            TokenType::TokenFalse => TokenTypeView::TokenFalse,
            TokenType::TokenFor => TokenTypeView::TokenFor,
            TokenType::TokenFn => TokenTypeView::TokenFn,
            TokenType::TokenIf => TokenTypeView::TokenIf,
            TokenType::TokenNull => TokenTypeView::TokenNull,
            TokenType::TokenOr => TokenTypeView::TokenOr,
            TokenType::TokenPrint => TokenTypeView::TokenPrint,
            TokenType::TokenReturn => TokenTypeView::TokenReturn,
            TokenType::TokenThis => TokenTypeView::TokenThis,
            TokenType::TokenTrue => TokenTypeView::TokenTrue,
            TokenType::TokenLet => TokenTypeView::TokenLet,
            TokenType::TokenMutable => TokenTypeView::TokenMutable,
            TokenType::TokenWhile => TokenTypeView::TokenWhile,
            TokenType::TokenExprEnd => TokenTypeView::TokenExprEnd,
            TokenType::TokenError(m) => TokenTypeView::TokenError(m@),
            TokenType::TokenEof => TokenTypeView::TokenEof,
        }
    }
}

impl Clone for TokenType {
    fn clone(&self) -> (r: Self)
        ensures
            r == *self,
    {
        match self {
            TokenType::TokenLeftParen => TokenType::TokenLeftParen,
            TokenType::TokenRightParen => TokenType::TokenRightParen,
            TokenType::TokenLeftBrace => TokenType::TokenLeftBrace,
            TokenType::TokenRightBrace => TokenType::TokenRightBrace,
            TokenType::TokenComma => TokenType::TokenComma,
            TokenType::TokenMinus => TokenType::TokenMinus,
            TokenType::TokenDot => TokenType::TokenDot,
            TokenType::TokenPlus => TokenType::TokenPlus,
            TokenType::TokenSemicolon => TokenType::TokenSemicolon,
            TokenType::TokenSlash => TokenType::TokenSlash,
            TokenType::TokenStar => TokenType::TokenStar,
            TokenType::TokenPower => TokenType::TokenPower,
            TokenType::TokenStringStart => TokenType::TokenStringStart,
            TokenType::TokenStringEnd => TokenType::TokenStringEnd,
            TokenType::TokenInterpolationStart => TokenType::TokenInterpolationStart,
            TokenType::TokenInterpolationEnd => TokenType::TokenInterpolationEnd,
            TokenType::TokenBang => TokenType::TokenBang,
            TokenType::TokenBangEqual => TokenType::TokenBangEqual,
            TokenType::TokenEqual => TokenType::TokenEqual,
            TokenType::TokenEqualEqual => TokenType::TokenEqualEqual,
            TokenType::TokenGreater => TokenType::TokenGreater,
            TokenType::TokenGreaterEqual => TokenType::TokenGreaterEqual,
            TokenType::TokenLess => TokenType::TokenLess,
            TokenType::TokenLessEqual => TokenType::TokenLessEqual,
            TokenType::TokenDeclaration => TokenType::TokenDeclaration,
            TokenType::TokenIdentifier => TokenType::TokenIdentifier,
            TokenType::TokenString => TokenType::TokenString,
            TokenType::TokenNumber => TokenType::TokenNumber,
            TokenType::TokenAnd => TokenType::TokenAnd,
            TokenType::TokenClass => TokenType::TokenClass,
            TokenType::TokenElse => TokenType::TokenElse,
            TokenType::TokenFalse => TokenType::TokenFalse,
            TokenType::TokenFor => TokenType::TokenFor,
            TokenType::TokenFn => TokenType::TokenFn,
            TokenType::TokenIf => TokenType::TokenIf,
            TokenType::TokenNull => TokenType::TokenNull,
            TokenType::TokenOr => TokenType::TokenOr,
            TokenType::TokenPrint => TokenType::TokenPrint,
            TokenType::TokenReturn => TokenType::TokenReturn,
            TokenType::TokenThis => TokenType::TokenThis,
            TokenType::TokenTrue => TokenType::TokenTrue,
            TokenType::TokenLet => TokenType::TokenLet,
            TokenType::TokenMutable => TokenType::TokenMutable,
            TokenType::TokenWhile => TokenType::TokenWhile,
            TokenType::TokenExprEnd => TokenType::TokenExprEnd,
            TokenType::TokenError(m) => TokenType::TokenError(m.clone()),
            TokenType::TokenEof => TokenType::TokenEof,
        }
    }
}

impl TokenTypeView {
    /// The place of the kind in the list of kinds.
    pub open spec fn ordinal(self) -> int {
        match self {
            TokenTypeView::TokenLeftParen => 0,
            TokenTypeView::TokenRightParen => 1,
            TokenTypeView::TokenLeftBrace => 2,
            TokenTypeView::TokenRightBrace => 3,
            TokenTypeView::TokenComma => 4,
            TokenTypeView::TokenMinus => 5,
            TokenTypeView::TokenDot => 6,
            TokenTypeView::TokenPlus => 7,
            TokenTypeView::TokenSemicolon => 8,
            TokenTypeView::TokenSlash => 9,
            TokenTypeView::TokenStar => 10,
            TokenTypeView::TokenPower => 11,
            TokenTypeView::TokenStringStart => 12,
            TokenTypeView::TokenStringEnd => 13,
            TokenTypeView::TokenInterpolationStart => 14,
            TokenTypeView::TokenInterpolationEnd => 15,
            TokenTypeView::TokenBang => 16,
            TokenTypeView::TokenBangEqual => 17,
            TokenTypeView::TokenEqual => 18,
            TokenTypeView::TokenEqualEqual => 19,
            TokenTypeView::TokenGreater => 20,
            TokenTypeView::TokenGreaterEqual => 21,
            TokenTypeView::TokenLess => 22,
            TokenTypeView::TokenLessEqual => 23,
            TokenTypeView::TokenDeclaration => 24,
            TokenTypeView::TokenIdentifier => 25,
            TokenTypeView::TokenString => 26,
            TokenTypeView::TokenNumber => 27,
            TokenTypeView::TokenAnd => 28,
            TokenTypeView::TokenClass => 29,
            TokenTypeView::TokenElse => 30,
            TokenTypeView::TokenFalse => 31,
            TokenTypeView::TokenFor => 32,
            TokenTypeView::TokenFn => 33,
            TokenTypeView::TokenIf => 34,
            TokenTypeView::TokenNull => 35,
            TokenTypeView::TokenOr => 36,
            TokenTypeView::TokenPrint => 37,
            TokenTypeView::TokenReturn => 38,
            TokenTypeView::TokenThis => 39,
            TokenTypeView::TokenTrue => 40,
            TokenTypeView::TokenLet => 41,
            TokenTypeView::TokenMutable => 42,
            TokenTypeView::TokenWhile => 43,
            TokenTypeView::TokenExprEnd => 44,
            TokenTypeView::TokenError(_) => 45,
            TokenTypeView::TokenEof => 46,
        }
    }

    /// The name of the kind, as diagnostics write it.
    pub open spec fn name(self) -> Seq<char> {
        match self {
            TokenTypeView::TokenLeftParen => "left parenthesis"@,
            TokenTypeView::TokenRightParen => "right parenthesis"@,
            TokenTypeView::TokenLeftBrace => "left curly brace"@,
            TokenTypeView::TokenRightBrace => "right curly brace"@,
            TokenTypeView::TokenComma => "comma"@,
            TokenTypeView::TokenMinus => "minus"@,
            TokenTypeView::TokenDot => "dot"@,
            TokenTypeView::TokenPlus => "plus"@,
            TokenTypeView::TokenSemicolon => "semicolon"@,
            TokenTypeView::TokenSlash => "divide"@,
            TokenTypeView::TokenStar => "multiply"@,
            TokenTypeView::TokenPower => "power"@,
            TokenTypeView::TokenStringStart => "string start"@,
            TokenTypeView::TokenStringEnd => "string end"@,
            TokenTypeView::TokenInterpolationStart => "interpolation start"@,
            TokenTypeView::TokenInterpolationEnd => "interpolation end"@,
            TokenTypeView::TokenBang => "not"@,
            TokenTypeView::TokenBangEqual => "not equal"@,
            TokenTypeView::TokenEqual => "equal"@,
            TokenTypeView::TokenEqualEqual => "equal equal"@,
            TokenTypeView::TokenGreater => "greater than"@,
            TokenTypeView::TokenGreaterEqual => "greater than or equal"@,
            TokenTypeView::TokenLess => "less than"@,
            TokenTypeView::TokenLessEqual => "less than or equal"@,
            TokenTypeView::TokenDeclaration => "declaration"@,
            TokenTypeView::TokenIdentifier => "identifier"@,
            TokenTypeView::TokenString => "string literal"@,
            TokenTypeView::TokenNumber => "number literal"@,
            TokenTypeView::TokenAnd => "and"@,
            TokenTypeView::TokenClass => "class"@,
            TokenTypeView::TokenElse => "else"@,
            TokenTypeView::TokenFalse => "false"@,
            TokenTypeView::TokenFor => "for"@,
            TokenTypeView::TokenFn => "function"@,
            TokenTypeView::TokenIf => "if"@,
            TokenTypeView::TokenNull => "null"@,
            TokenTypeView::TokenOr => "or"@,
            TokenTypeView::TokenPrint => "print"@,
            TokenTypeView::TokenReturn => "return"@,
            TokenTypeView::TokenThis => "this"@,
            TokenTypeView::TokenTrue => "true"@,
            TokenTypeView::TokenLet => "let"@,
            TokenTypeView::TokenMutable => "mutable"@,
            TokenTypeView::TokenWhile => "while"@,
            TokenTypeView::TokenExprEnd => "end of expression"@,
            TokenTypeView::TokenError(_) => "error"@,
            TokenTypeView::TokenEof => "end of file"@,
        }
    }

    /// The type that the kind declares when it stands before a variable:
    /// `let` leaves the type to be inferred, and no other kind names a type.
    pub open spec fn declared_type(self) -> ValueType {
        match self {
            TokenTypeView::TokenLet => ValueType::Dynamic,
            _ => ValueType::Empty,
        }
    }
}

impl TokenType {
    /// The place of the kind in the list of kinds.
    pub fn ordinal(&self) -> (n: u8)
        ensures
            n == self@.ordinal(),
    {
        match self {
            TokenType::TokenLeftParen => 0,
            TokenType::TokenRightParen => 1,
            TokenType::TokenLeftBrace => 2,
            TokenType::TokenRightBrace => 3,
            TokenType::TokenComma => 4,
            TokenType::TokenMinus => 5,
            TokenType::TokenDot => 6,
            TokenType::TokenPlus => 7,
            TokenType::TokenSemicolon => 8,
            TokenType::TokenSlash => 9,
            TokenType::TokenStar => 10,
            TokenType::TokenPower => 11,
            TokenType::TokenStringStart => 12,
            TokenType::TokenStringEnd => 13,
            TokenType::TokenInterpolationStart => 14,
            TokenType::TokenInterpolationEnd => 15,
            TokenType::TokenBang => 16,
            TokenType::TokenBangEqual => 17,
            TokenType::TokenEqual => 18,
            TokenType::TokenEqualEqual => 19,
            TokenType::TokenGreater => 20,
            TokenType::TokenGreaterEqual => 21,
            TokenType::TokenLess => 22,
            TokenType::TokenLessEqual => 23,
            TokenType::TokenDeclaration => 24,
            TokenType::TokenIdentifier => 25,
            TokenType::TokenString => 26,
            TokenType::TokenNumber => 27,
            TokenType::TokenAnd => 28,
            TokenType::TokenClass => 29,
            TokenType::TokenElse => 30,
            TokenType::TokenFalse => 31,
            TokenType::TokenFor => 32,
            TokenType::TokenFn => 33,
            TokenType::TokenIf => 34,
            TokenType::TokenNull => 35,
            TokenType::TokenOr => 36,
            TokenType::TokenPrint => 37,
            TokenType::TokenReturn => 38,
            TokenType::TokenThis => 39,
            TokenType::TokenTrue => 40,
            TokenType::TokenLet => 41,
            TokenType::TokenMutable => 42,
            TokenType::TokenWhile => 43,
            TokenType::TokenExprEnd => 44,
            TokenType::TokenError(_) => 45,
            TokenType::TokenEof => 46,
        }
    }

    /// Whether two kinds are the same; two errors are the same if their
    /// messages are.
    pub fn same(&self, other: &TokenType) -> (r: bool)
        ensures
            r == (self@ == other@),
    {
        match (self, other) {
            (TokenType::TokenError(a), TokenType::TokenError(b)) => *a == *b,
            _ => self.ordinal() == other.ordinal(),
        }
    }

    /// The name of the kind, as diagnostics write it.
    pub fn as_str(&self) -> (name: &'static str)
        ensures
            name@ == self@.name(),
    {
        match self {
            TokenType::TokenLeftParen => "left parenthesis",
            TokenType::TokenRightParen => "right parenthesis",
            TokenType::TokenLeftBrace => "left curly brace",
            TokenType::TokenRightBrace => "right curly brace",
            TokenType::TokenComma => "comma",
            TokenType::TokenMinus => "minus",
            TokenType::TokenDot => "dot",
            TokenType::TokenPlus => "plus",
            TokenType::TokenSemicolon => "semicolon",
            TokenType::TokenSlash => "divide",
            TokenType::TokenStar => "multiply",
            TokenType::TokenPower => "power",
            TokenType::TokenStringStart => "string start",
            TokenType::TokenStringEnd => "string end",
            TokenType::TokenInterpolationStart => "interpolation start",
            TokenType::TokenInterpolationEnd => "interpolation end",
            TokenType::TokenBang => "not",
            TokenType::TokenBangEqual => "not equal",
            TokenType::TokenEqual => "equal",
            TokenType::TokenEqualEqual => "equal equal",
            TokenType::TokenGreater => "greater than",
            TokenType::TokenGreaterEqual => "greater than or equal",
            TokenType::TokenLess => "less than",
            TokenType::TokenLessEqual => "less than or equal",
            TokenType::TokenDeclaration => "declaration",
            TokenType::TokenIdentifier => "identifier",
            TokenType::TokenString => "string literal",
            TokenType::TokenNumber => "number literal",
            TokenType::TokenAnd => "and",
            TokenType::TokenClass => "class",
            TokenType::TokenElse => "else",
            TokenType::TokenFalse => "false",
            TokenType::TokenFor => "for",
            TokenType::TokenFn => "function",
            TokenType::TokenIf => "if",
            TokenType::TokenNull => "null",
            TokenType::TokenOr => "or",
            TokenType::TokenPrint => "print",
            TokenType::TokenReturn => "return",
            TokenType::TokenThis => "this",
            TokenType::TokenTrue => "true",
            TokenType::TokenLet => "let",
            TokenType::TokenMutable => "mutable",
            TokenType::TokenWhile => "while",
            TokenType::TokenExprEnd => "end of expression",
            TokenType::TokenError(_) => "error",
            TokenType::TokenEof => "end of file",
        }
    }

    /// The type that the kind declares when it stands before a variable.
    pub fn parse_to_type(&self) -> (value_type: ValueType)
        ensures
            value_type == self@.declared_type(),
    {
        match self {
            TokenType::TokenLet => ValueType::Dynamic,
            _ => ValueType::Empty,
        }
    }
}

} // verus!
