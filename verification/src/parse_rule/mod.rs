//! The table that says, for each kind of token, how an expression that
//! begins with it is compiled, how one that goes on with it is compiled, and
//! how strongly it binds.
use vstd::prelude::*;
use crate::precedence::Precedence;
use crate::token::token_type::{TokenType, TokenTypeView};

verus! {

/// A way to compile a part of an expression: one of the compiler's handlers.
#[derive(Debug, Clone, Copy, PartialEq, Eq, Structural)]
pub enum ParseFn {
    Grouping,
    Unary,
    Binary,
    Number,
    String,
    Interpolate,
    Literal,
    Variable,
    TypeKeyword,
    ParseNext,
    Empty,
}

/// The entry of the table for a kind of token.
#[derive(Debug, Clone, Copy, PartialEq, Eq, Structural)]
pub struct ParseRule {
    /// The handler for an expression that begins with the token.
    pub prefix: Option<ParseFn>,
    /// The handler for an expression that goes on with the token.
    pub infix: Option<ParseFn>,
    /// How strongly the token binds as an operator between two operands.
    pub precedence: Precedence,
}

/// The table. A kind that it does not list, `TokenError` among them, has no
/// handler and binds nothing.
pub open spec fn rule_of(kind: TokenTypeView) -> ParseRule {
    match kind {
        TokenTypeView::TokenLeftParen => ParseRule {
            prefix: Some(ParseFn::Grouping),
            infix: None,
            precedence: Precedence::PrecNone,
        },
        TokenTypeView::TokenMinus => ParseRule {
            prefix: Some(ParseFn::Unary),
            infix: Some(ParseFn::Binary),
            precedence: Precedence::PrecTerm,
        },
        TokenTypeView::TokenPlus => ParseRule {
            prefix: None,
            infix: Some(ParseFn::Binary),
            precedence: Precedence::PrecTerm,
        },
        TokenTypeView::TokenSlash
        | TokenTypeView::TokenStar
        | TokenTypeView::TokenPower => ParseRule {
            prefix: None,
            infix: Some(ParseFn::Binary),
            precedence: Precedence::PrecFactor,
        },
        TokenTypeView::TokenBang => ParseRule {
            prefix: Some(ParseFn::Unary),
            infix: None,
            precedence: Precedence::PrecNone,
        },
        TokenTypeView::TokenBangEqual | TokenTypeView::TokenEqualEqual => ParseRule {
            prefix: None,
            infix: Some(ParseFn::Binary),
            precedence: Precedence::PrecEquality,
        },
        TokenTypeView::TokenGreater
        | TokenTypeView::TokenGreaterEqual
        | TokenTypeView::TokenLess
        | TokenTypeView::TokenLessEqual => ParseRule {
            prefix: None,
            infix: Some(ParseFn::Binary),
            precedence: Precedence::PrecComparison,
        },
        TokenTypeView::TokenIdentifier => ParseRule {
            prefix: Some(ParseFn::Variable),
            infix: None,
            precedence: Precedence::PrecNone,
        },
        TokenTypeView::TokenString | TokenTypeView::TokenStringStart => ParseRule {
            prefix: Some(ParseFn::String),
            infix: None,
            precedence: Precedence::PrecNone,
        },
        TokenTypeView::TokenStringEnd => ParseRule {
            prefix: Some(ParseFn::Empty),
            infix: None,
            precedence: Precedence::PrecNone,
        },
        TokenTypeView::TokenInterpolationStart => ParseRule {
            prefix: Some(ParseFn::Interpolate),
            infix: None,
            precedence: Precedence::PrecNone,
        },
        TokenTypeView::TokenNumber => ParseRule {
            prefix: Some(ParseFn::Number),
            infix: None,
            precedence: Precedence::PrecNone,
        },
        TokenTypeView::TokenFalse
        | TokenTypeView::TokenTrue
        | TokenTypeView::TokenNull => ParseRule {
            prefix: Some(ParseFn::Literal),
            infix: None,
            precedence: Precedence::PrecNone,
        },
        TokenTypeView::TokenLet => ParseRule {
            prefix: Some(ParseFn::TypeKeyword),
            infix: None,
            precedence: Precedence::PrecNone,
        },
        TokenTypeView::TokenMutable => ParseRule {
            prefix: Some(ParseFn::ParseNext),
            infix: None,
            precedence: Precedence::PrecNone,
        },
        _ => ParseRule { prefix: None, infix: None, precedence: Precedence::PrecNone },
    }
}

impl ParseRule {
    pub fn new(prefix: Option<ParseFn>, infix: Option<ParseFn>, precedence: Precedence) -> (rule:
        Self)
        ensures
            rule == (ParseRule { prefix, infix, precedence }),
    {
        Self { prefix, infix, precedence }
    }

    pub fn get_prefix(&self) -> (prefix: Option<ParseFn>)
        ensures
            prefix == self.prefix,
    {
        self.prefix
    }

    pub fn get_infix(&self) -> (infix: Option<ParseFn>)
        ensures
            infix == self.infix,
    {
        self.infix
    }

    pub fn get_precedence(&self) -> (precedence: &Precedence)
        ensures
            *precedence == self.precedence,
    {
        &self.precedence
    }
}

/// Looks a kind of token up in the table.
pub fn get_rule(token_type: &TokenType) -> (rule: ParseRule)
    ensures
        rule == rule_of(token_type@),
{
    match token_type {
        TokenType::TokenLeftParen => ParseRule::new(
            Some(ParseFn::Grouping),
            None,
            Precedence::PrecNone,
        ),
        TokenType::TokenMinus => ParseRule::new(
            Some(ParseFn::Unary),
            Some(ParseFn::Binary),
            Precedence::PrecTerm,
        ),
        TokenType::TokenPlus => ParseRule::new(None, Some(ParseFn::Binary), Precedence::PrecTerm),
        TokenType::TokenSlash | TokenType::TokenStar | TokenType::TokenPower => ParseRule::new(
            None,
            Some(ParseFn::Binary),
            Precedence::PrecFactor,
        ),
        TokenType::TokenBang => ParseRule::new(Some(ParseFn::Unary), None, Precedence::PrecNone),
        TokenType::TokenBangEqual | TokenType::TokenEqualEqual => ParseRule::new(
            None,
            Some(ParseFn::Binary),
            Precedence::PrecEquality,
        ),
        TokenType::TokenGreater
        | TokenType::TokenGreaterEqual
        | TokenType::TokenLess
        | TokenType::TokenLessEqual => ParseRule::new(
            None,
            Some(ParseFn::Binary),
            Precedence::PrecComparison,
        ),
        TokenType::TokenIdentifier => ParseRule::new(
            Some(ParseFn::Variable),
            None,
            Precedence::PrecNone,
        ),
        TokenType::TokenString | TokenType::TokenStringStart => ParseRule::new(
            Some(ParseFn::String),
            None,
            Precedence::PrecNone,
        ),
        TokenType::TokenStringEnd => ParseRule::new(
            Some(ParseFn::Empty),
            None,
            Precedence::PrecNone,
        ),
        TokenType::TokenInterpolationStart => ParseRule::new(
            Some(ParseFn::Interpolate),
            None,
            Precedence::PrecNone,
        ),
        TokenType::TokenNumber => ParseRule::new(
            Some(ParseFn::Number),
            None,
            Precedence::PrecNone,
        ),
        TokenType::TokenFalse | TokenType::TokenTrue | TokenType::TokenNull => ParseRule::new(
            Some(ParseFn::Literal),
            None,
            Precedence::PrecNone,
        ),
        TokenType::TokenLet => ParseRule::new(
            Some(ParseFn::TypeKeyword),
            None,
            Precedence::PrecNone,
        ),
        TokenType::TokenMutable => ParseRule::new(
            Some(ParseFn::ParseNext),
            None,
            Precedence::PrecNone,
        ),
        _ => ParseRule::new(None, None, Precedence::PrecNone),
    }
}

/// The end of the source begins no expression and binds nothing, and a token
/// that binds something is not the end of the source.
pub proof fn lemma_rule_of_eof(kind: TokenTypeView)
    ensures
        rule_of(TokenTypeView::TokenEof).prefix is None,
        rule_of(TokenTypeView::TokenEof).precedence == Precedence::PrecNone,
        rule_of(kind).precedence != Precedence::PrecNone ==> kind != TokenTypeView::TokenEof,
        rule_of(kind).prefix is Some ==> kind != TokenTypeView::TokenEof,
{
}

} // verus!
