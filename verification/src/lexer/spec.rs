//! What the scanner computes, as functions of the bytes of the source.
use vstd::prelude::*;
use vstd::utf8::{encode_utf8, is_char_boundary, is_continuation_byte, valid_utf8};
use crate::token::{TokenView, span_is_text};
use crate::token::token_type::TokenTypeView;
use crate::unicode::{char_at, is_letter, width_at};

verus! {

/// The byte at a position of the source, and 0 where the source has none.
pub open spec fn byte_at(source: Seq<u8>, p: int) -> u8 {
    if 0 <= p < source.len() {
        source[p]
    } else {
        0
    }
}

/// Whether the byte is a decimal digit.
pub open spec fn is_digit_byte(b: u8) -> bool {
    '0' as u8 <= b <= '9' as u8
}

/// Whether the character that begins at a position may stand in a name: a
/// letter or an underscore.
pub open spec fn letter_at(source: Seq<u8>, p: int) -> bool {
    is_letter(char_at(source, p))
}

/// Blank text from a position on: how many bytes of it there are, and how
/// many newlines it holds. Blank are spaces, tabs, carriage returns and
/// newlines, and a comment from `//` up to the end of its line; `in_comment`
/// says that the position is within such a comment.
pub open spec fn blank(source: Seq<u8>, p: int, in_comment: bool) -> (nat, nat)
    decreases source.len() - p, (if in_comment { 1nat } else { 0nat }),
{
    if p < 0 || p >= source.len() {
        (0, 0)
    } else if in_comment {
        if source[p] == '\n' as u8 {
            blank(source, p, false)
        } else {
            let rest = blank(source, p + 1, true);
            (rest.0 + 1, rest.1)
        }
    } else if source[p] == ' ' as u8 || source[p] == '\r' as u8 || source[p] == '\t' as u8 {
        let rest = blank(source, p + 1, false);
        (rest.0 + 1, rest.1)
    } else if source[p] == '\n' as u8 {
        let rest = blank(source, p + 1, false);
        (rest.0 + 1, rest.1 + 1)
    } else if source[p] == '/' as u8 && byte_at(source, p + 1) == '/' as u8 {
        let rest = blank(source, p + 1, true);
        (rest.0 + 1, rest.1)
    } else {
        (0, 0)
    }
}

/// The rest of a block comment from a position within it, at a depth of
/// nesting of at least 1: how many bytes it takes, how many newlines are
/// counted in it, and whether it is closed before the source ends. At each
/// position a `/*` opens a deeper comment and then a `*/` closes one; when
/// neither closes the last one, one more byte is passed over.
pub open spec fn comment(source: Seq<u8>, p: int, depth: nat) -> (nat, nat, bool)
    decreases source.len() - p,
{
    if p < 0 || p >= source.len() {
        (0, 0, false)
    } else {
        let newline: nat = if source[p] == '\n' as u8 {
            1
        } else {
            0
        };
        let opens = source[p] == '/' as u8 && byte_at(source, p + 1) == '*' as u8;
        let opened = if opens {
            p + 2
        } else {
            p
        };
        let closes = byte_at(source, opened) == '*' as u8 && byte_at(source, opened + 1)
            == '/' as u8;
        let closed = if closes {
            opened + 2
        } else {
            opened
        };
        let deeper = depth + (if opens { 1int } else { 0int }) - (if closes { 1int } else { 0int });
        if deeper <= 0 {
            ((closed - p) as nat, newline, true)
        } else {
            let onward = if closed < source.len() {
                closed + 1
            } else {
                closed
            };
            let rest = comment(source, onward, deeper as nat);
            ((onward - p + rest.0) as nat, newline + rest.1, rest.2)
        }
    }
}

/// How many bytes of blank text stand from a position on.
pub open spec fn blank_len(source: Seq<u8>, p: int) -> nat {
    blank(source, p, false).0
}

/// How many bytes the rest of a block comment takes from a position just
/// after its `/*`.
pub open spec fn comment_len(source: Seq<u8>, p: int, depth: nat) -> nat {
    comment(source, p, depth).0
}

/// How a piece of string text ends.
#[derive(Debug, Clone, Copy, PartialEq, Eq, Structural)]
pub enum TextEnd {
    /// Before a closing quote or before a brace that opens or closes an
    /// interpolation.
    Text,
    /// After a `}` that follows a `}`.
    Unmatched,
    /// At the end of the source.
    Unterminated,
}

/// A piece of string text from a position on: how many bytes it takes, how
/// many newlines it holds, and how it ends. It ends before a `"` that no
/// backslash precedes, and before a `{` or a `}` that stands alone, that is,
/// with no brace of the same kind before or after it.
pub open spec fn text(source: Seq<u8>, p: int) -> (nat, nat, TextEnd)
    decreases source.len() - p,
{
    let c = byte_at(source, p);
    let next = byte_at(source, p + 1);
    let previous = byte_at(source, p - 1);
    if c == '"' as u8 && previous != '\\' as u8 {
        (0, 0, TextEnd::Text)
    } else if c == '{' as u8 && next != '{' as u8 && previous != '{' as u8 {
        (0, 0, TextEnd::Text)
    } else if c == '}' as u8 && next != '}' as u8 && previous != '}' as u8 {
        (0, 0, TextEnd::Text)
    } else if c == '}' as u8 && previous == '}' as u8 {
        (1, 0, TextEnd::Unmatched)
    } else if p < 0 || p >= source.len() {
        (0, 0, TextEnd::Unterminated)
    } else {
        let rest = text(source, p + 1);
        (rest.0 + 1, rest.1 + (if c == '\n' as u8 { 1nat } else { 0nat }), rest.2)
    }
}

/// How many digits stand from a position on.
pub open spec fn digits_run(source: Seq<u8>, p: int) -> nat
    decreases source.len() - p,
{
    if 0 <= p < source.len() && is_digit_byte(source[p]) {
        digits_run(source, p + 1) + 1
    } else {
        0
    }
}

/// How many bytes the rest of a number takes from a position on: digits,
/// and then, if a point and a digit follow, the point and digits.
pub open spec fn number_run(source: Seq<u8>, p: int) -> nat {
    let whole = digits_run(source, p);
    if byte_at(source, p + whole) == '.' as u8 && is_digit_byte(byte_at(source, p + whole + 1)) {
        whole + 1 + digits_run(source, p + whole + 1)
    } else {
        whole
    }
}

/// How many bytes of a name stand from a position on: characters that may
/// stand in a name, and digits.
pub open spec fn word_run(source: Seq<u8>, p: int) -> nat
    decreases source.len() - p,
{
    if 0 <= p < source.len() && (letter_at(source, p) || is_digit_byte(source[p])) {
        proof {
            lemma_width_bound(source, p);
        }
        word_run(source, p + width_at(source, p)) + width_at(source, p) as nat
    } else {
        0
    }
}

/// The kind of a word: that of the keyword if the whole word is one, and
/// `TokenIdentifier` if not.
pub open spec fn word_kind(word: Seq<u8>) -> TokenTypeView {
    if word == encode_utf8("and"@) {
        TokenTypeView::TokenAnd
    } else if word == encode_utf8("class"@) {
        TokenTypeView::TokenClass
    } else if word == encode_utf8("else"@) {
        TokenTypeView::TokenElse
    } else if word == encode_utf8("false"@) {
        TokenTypeView::TokenFalse
    } else if word == encode_utf8("for"@) {
        TokenTypeView::TokenFor
    } else if word == encode_utf8("fn"@) {
        TokenTypeView::TokenFn
    } else if word == encode_utf8("if"@) {
        TokenTypeView::TokenIf
    } else if word == encode_utf8("let"@) {
        TokenTypeView::TokenLet
    } else if word == encode_utf8("mut"@) {
        TokenTypeView::TokenMutable
    } else if word == encode_utf8("null"@) {
        TokenTypeView::TokenNull
    } else if word == encode_utf8("or"@) {
        TokenTypeView::TokenOr
    } else if word == encode_utf8("print"@) {
        TokenTypeView::TokenPrint
    } else if word == encode_utf8("return"@) {
        TokenTypeView::TokenReturn
    } else if word == encode_utf8("this"@) {
        TokenTypeView::TokenThis
    } else if word == encode_utf8("true"@) {
        TokenTypeView::TokenTrue
    } else if word == encode_utf8("while"@) {
        TokenTypeView::TokenWhile
    } else {
        TokenTypeView::TokenIdentifier
    }
}

/// How far a declaration has come: whether the token scanned last is `let`
/// or `mut`, or the name right after one of them, or neither.
#[derive(Debug, Clone, Copy, PartialEq, Eq, Structural)]
pub enum Declaring {
    /// The token scanned last is neither.
    No,
    /// The token scanned last is `let` or `mut`.
    Marked,
    /// The token scanned last is the name right after `let` or `mut`.
    Named,
}

/// The kind of a token as the scanner hands it out: a `=` right after the
/// name that follows `let` or `mut` is the declaration operator, and every
/// other token keeps its kind.
pub open spec fn handed_kind(kind: TokenTypeView, declaring: Declaring) -> TokenTypeView {
    if kind == TokenTypeView::TokenEqual && declaring == Declaring::Named {
        TokenTypeView::TokenDeclaration
    } else {
        kind
    }
}

/// How far a declaration has come after a token of a kind.
pub open spec fn declaring_after(kind: TokenTypeView, declaring: Declaring) -> Declaring {
    match kind {
        TokenTypeView::TokenLet | TokenTypeView::TokenMutable => Declaring::Marked,
        TokenTypeView::TokenIdentifier => if declaring == Declaring::Marked {
            Declaring::Named
        } else {
            Declaring::No
        },
        _ => Declaring::No,
    }
}

/// The number that stands for a stage of a declaration.
pub open spec fn stage_number(declaring: Declaring) -> int {
    match declaring {
        Declaring::No => 0,
        Declaring::Marked => 1,
        Declaring::Named => 2,
    }
}

/// The stage of a declaration that a number stands for.
pub open spec fn stage(n: int) -> Declaring {
    if n == 1 {
        Declaring::Marked
    } else if n == 2 {
        Declaring::Named
    } else {
        Declaring::No
    }
}

/// The state of a scanner.
pub struct LexerView {
    /// The bytes of the source.
    pub source: Seq<u8>,
    /// Where the token that is being scanned begins.
    pub start: int,
    /// The next byte to read.
    pub current: int,
    /// The line of the next byte to read.
    pub line: int,
    /// How many string literals are open.
    pub string_count: int,
    /// How many interpolations are open.
    pub interpolation_count: int,
    /// How far a declaration has come: 0 where the token scanned last is
    /// neither `let` nor `mut` nor the name right after one of them, 1 where
    /// it is `let` or `mut`, 2 where it is that name.
    pub declaring: int,
}

/// The message of the error about a `}` without its `{`.
pub open spec fn unmatched_message() -> Seq<char> {
    "Unmatched '}'. To escape use '}}'"@
}

impl LexerView {
    /// The scanner at the start of a source.
    pub open spec fn initial(source: Seq<u8>) -> LexerView {
        LexerView {
            source,
            start: 0,
            current: 0,
            line: 1,
            string_count: 0,
            interpolation_count: 0,
            declaring: 0,
        }
    }

    /// The positions lie in the source in order, and the counters have not
    /// counted more than there were bytes to count.
    pub open spec fn wf(self) -> bool {
        &&& 0 <= self.start <= self.current <= self.source.len()
        &&& self.source.len() < usize::MAX
        &&& 1 <= self.line <= self.current + 1
        &&& 0 <= self.string_count <= self.current
        &&& 0 <= self.interpolation_count <= self.current
    }

    /// The source is well-formed UTF-8 and the scanner stands between two
    /// characters, not within one.
    pub open spec fn aligned(self) -> bool {
        valid_utf8(self.source) && is_char_boundary(self.source, self.current)
    }

    /// The token of a kind that spans from `start` to `current`.
    pub open spec fn token(self, kind: TokenTypeView) -> TokenView {
        TokenView {
            kind,
            start: self.start as usize,
            length: (self.current - self.start) as usize,
            line: self.line as usize,
        }
    }

    /// The scanner after `n` more bytes.
    pub open spec fn advanced(self, n: int) -> LexerView {
        LexerView { current: self.current + n, ..self }
    }

    /// Whether the scanner stands in the text of a string literal, not in an
    /// expression: some literal is open and the open interpolations are not
    /// as many as the open literals.
    pub open spec fn in_text(self) -> bool {
        self.string_count > 0 && self.string_count != self.interpolation_count
    }

    /// Whether a `{` that opens an interpolation stands at `current`.
    pub open spec fn at_interpolation_start(self) -> bool {
        byte_at(self.source, self.current) == '{' as u8 && byte_at(self.source, self.current + 1)
            != '{' as u8 && byte_at(self.source, self.current - 1) != '{' as u8
    }

    /// Whether a `}` that closes an interpolation stands at `current`.
    pub open spec fn at_interpolation_end(self) -> bool {
        byte_at(self.source, self.current) == '}' as u8 && byte_at(self.source, self.current + 1)
            != '}' as u8 && byte_at(self.source, self.current - 1) != '}' as u8
    }

    /// The scanner where the next token begins: after the blank text, if it
    /// stands in an expression.
    pub open spec fn at_token(self) -> LexerView {
        if self.string_count == self.interpolation_count {
            LexerView {
                start: self.current + blank_len(self.source, self.current),
                current: self.current + blank_len(self.source, self.current),
                line: self.line + blank(self.source, self.current, false).1,
                ..self
            }
        } else {
            LexerView { start: self.current, ..self }
        }
    }

    /// A piece of string text, from `current` on.
    pub open spec fn string(self) -> (TokenView, LexerView) {
        let run = text(self.source, self.current);
        let after = LexerView { current: self.current + run.0, line: self.line + run.1, ..self };
        match run.2 {
            TextEnd::Text => (after.token(TokenTypeView::TokenString), after),
            TextEnd::Unmatched => (
                after.token(TokenTypeView::TokenError(unmatched_message())),
                after,
            ),
            TextEnd::Unterminated => (
                after.token(TokenTypeView::TokenError("Unterminated string"@)),
                after,
            ),
        }
    }

    /// The token for a `{` that has just been read.
    pub open spec fn left_brace(self) -> (TokenView, LexerView) {
        if self.string_count > 0 && byte_at(self.source, self.current) != '{' as u8 {
            let opened = LexerView {
                interpolation_count: self.interpolation_count + 1,
                ..self
            };
            (opened.token(TokenTypeView::TokenInterpolationStart), opened)
        } else {
            (self.token(TokenTypeView::TokenLeftBrace), self)
        }
    }

    /// The token for a `}` that has just been read.
    pub open spec fn right_brace(self) -> (TokenView, LexerView) {
        if self.interpolation_count > 0 {
            if self.string_count > self.interpolation_count && byte_at(self.source, self.current)
                == '}' as u8 {
                let escaped = self.advanced(1);
                (escaped.token(TokenTypeView::TokenRightBrace), escaped)
            } else if self.string_count == self.interpolation_count {
                let closed = LexerView {
                    interpolation_count: self.interpolation_count - 1,
                    ..self
                };
                (closed.token(TokenTypeView::TokenInterpolationEnd), closed)
            } else {
                (self.token(TokenTypeView::TokenRightBrace), self)
            }
        } else if self.string_count > self.interpolation_count {
            (self.token(TokenTypeView::TokenError(unmatched_message())), self)
        } else {
            (self.token(TokenTypeView::TokenRightBrace), self)
        }
    }

    /// The token for a `"` that has just been read: it opens a literal in an
    /// expression and closes one in string text.
    pub open spec fn quote(self) -> (TokenView, LexerView) {
        if self.string_count == 0 || self.string_count == self.interpolation_count {
            let opened = LexerView { string_count: self.string_count + 1, ..self };
            (opened.token(TokenTypeView::TokenStringStart), opened)
        } else {
            let closed = LexerView { string_count: self.string_count - 1, ..self };
            (closed.token(TokenTypeView::TokenStringEnd), closed)
        }
    }

    /// The token of one or two bytes whose first byte has just been read:
    /// the double kind if `=` follows, and then that byte is read too.
    pub open spec fn with_equal(self, single: TokenTypeView, double: TokenTypeView) -> (
        TokenView,
        LexerView,
    ) {
        if byte_at(self.source, self.current) == '=' as u8 {
            (self.advanced(1).token(double), self.advanced(1))
        } else {
            (self.token(single), self)
        }
    }

    /// The token that begins with the byte `c`, which has just been read and
    /// is no digit, begins no name and no block comment.
    pub open spec fn punctuation(self, c: u8) -> (TokenView, LexerView) {
        if c == '(' as u8 {
            (self.token(TokenTypeView::TokenLeftParen), self)
        } else if c == ')' as u8 {
            (self.token(TokenTypeView::TokenRightParen), self)
        } else if c == '{' as u8 {
            self.left_brace()
        } else if c == '}' as u8 {
            self.right_brace()
        } else if c == ';' as u8 {
            (self.token(TokenTypeView::TokenSemicolon), self)
        } else if c == ',' as u8 {
            (self.token(TokenTypeView::TokenComma), self)
        } else if c == '.' as u8 {
            (self.token(TokenTypeView::TokenDot), self)
        } else if c == '-' as u8 {
            (self.token(TokenTypeView::TokenMinus), self)
        } else if c == '+' as u8 {
            (self.token(TokenTypeView::TokenPlus), self)
        } else if c == '/' as u8 {
            (self.token(TokenTypeView::TokenSlash), self)
        } else if c == '*' as u8 {
            (self.token(TokenTypeView::TokenStar), self)
        } else if c == '^' as u8 {
            (self.token(TokenTypeView::TokenPower), self)
        } else if c == '!' as u8 {
            self.with_equal(TokenTypeView::TokenBang, TokenTypeView::TokenBangEqual)
        } else if c == '=' as u8 {
            self.with_equal(TokenTypeView::TokenEqual, TokenTypeView::TokenEqualEqual)
        } else if c == '<' as u8 {
            self.with_equal(TokenTypeView::TokenLess, TokenTypeView::TokenLessEqual)
        } else if c == '>' as u8 {
            self.with_equal(TokenTypeView::TokenGreater, TokenTypeView::TokenGreaterEqual)
        } else if c == '"' as u8 {
            self.quote()
        } else {
            (self.token(TokenTypeView::TokenError("Invalid character"@)), self)
        }
    }

    /// The next token and the scanner after it. At the end of the source the
    /// token is `TokenEof`, again and again. In string text the token is a
    /// piece of text; elsewhere it is a number, a name or keyword, or
    /// punctuation, and a block comment is passed over. A block comment that
    /// the source does not close is an error. A `=` right after the name
    /// that follows `let` or `mut` is the declaration operator.
    pub open spec fn scan(self) -> (TokenView, LexerView) {
        scan(self)
    }
}

/// The next token of a scanner and the scanner after it.
pub open spec fn scan(lexer: LexerView) -> (TokenView, LexerView) {
    let found = plain(lexer);
    (
        TokenView { kind: handed_kind(found.0.kind, stage(lexer.declaring)), ..found.0 },
        LexerView {
            declaring: stage_number(declaring_after(found.0.kind, stage(lexer.declaring))),
            ..found.1
        },
    )
}

/// The next token by its text alone, with `=` as `TokenEqual` wherever it
/// stands, and the scanner after it.
pub open spec fn plain(lexer: LexerView) -> (TokenView, LexerView)
    decreases lexer.source.len() - lexer.current,
    via plain_decreases
{
    let s = lexer.at_token();
    let c = byte_at(s.source, s.current);
    if s.current >= s.source.len() {
        (s.token(TokenTypeView::TokenEof), s)
    } else if s.in_text() && !s.at_interpolation_start() && !s.at_interpolation_end() && c
        != '"' as u8 {
        s.string()
    } else {
        let a = s.advanced(width_at(s.source, s.current));
        if is_digit_byte(c) {
            let end = a.advanced(number_run(a.source, a.current) as int);
            (end.token(TokenTypeView::TokenNumber), end)
        } else if letter_at(s.source, s.current) {
            let end = a.advanced(word_run(a.source, a.current) as int);
            (end.token(word_kind(end.source.subrange(end.start, end.current))), end)
        } else if c == '/' as u8 && byte_at(a.source, a.current) == '*' as u8 {
            let body = comment(a.source, a.current + 1, 1);
            let after = LexerView { current: a.current + 1 + body.0, line: a.line + body.1, ..a };
            if body.2 {
                plain(after)
            } else {
                (after.token(TokenTypeView::TokenError("Unterminated block comment"@)), after)
            }
        } else {
            a.punctuation(c)
        }
    }
}

#[via_fn]
proof fn plain_decreases(lexer: LexerView) {
    let s = lexer.at_token();
    let a = s.advanced(width_at(s.source, s.current));
    lemma_width_bound(s.source, s.current);
    if 0 <= a.current + 1 <= a.source.len() {
        lemma_comment_bound(a.source, a.current + 1, 1);
    }
}

/// A character takes at least one byte and no more than the source has.
pub proof fn lemma_width_bound(source: Seq<u8>, p: int)
    ensures
        1 <= width_at(source, p) <= 4,
        0 <= p < source.len() ==> p + width_at(source, p) <= source.len(),
{
    if crate::unicode::char_begins_at(source, p) {
        let rest = source.skip(p);
        assert(vstd::utf8::valid_leading_and_continuation_bytes_first_codepoint(rest));
    }
}

/// The rest of a block comment ends within the source and has no more
/// newlines than bytes; in well-formed UTF-8 it ends between two characters.
pub proof fn lemma_comment_bound(source: Seq<u8>, p: int, depth: nat)
    requires
        0 <= p <= source.len(),
        depth >= 1,
    ensures
        p + comment(source, p, depth).0 <= source.len(),
        comment(source, p, depth).1 <= comment(source, p, depth).0,
        valid_utf8(source) ==> is_char_boundary(source, p + comment(source, p, depth).0),
    decreases source.len() - p,
{
    if valid_utf8(source) {
        lemma_end_boundary(source);
    }
    if p < source.len() {
        let opens = source[p] == '/' as u8 && byte_at(source, p + 1) == '*' as u8;
        let opened = if opens {
            p + 2
        } else {
            p
        };
        let closes = byte_at(source, opened) == '*' as u8 && byte_at(source, opened + 1)
            == '/' as u8;
        let closed = if closes {
            opened + 2
        } else {
            opened
        };
        let deeper = depth + (if opens { 1int } else { 0int }) - (if closes { 1int } else { 0int });
        if deeper <= 0 {
            if valid_utf8(source) {
                lemma_ascii_boundary(source, opened + 1);
            }
        } else {
            let onward = if closed < source.len() {
                closed + 1
            } else {
                closed
            };
            lemma_comment_bound(source, onward, deeper as nat);
        }
    }
}

/// Blank text ends within the source and has no more newlines than bytes.
pub proof fn lemma_blank_bound(source: Seq<u8>, p: int, in_comment: bool)
    requires
        0 <= p <= source.len(),
    ensures
        p + blank(source, p, in_comment).0 <= source.len(),
        blank(source, p, in_comment).1 <= blank(source, p, in_comment).0,
    decreases source.len() - p, (if in_comment { 1nat } else { 0nat }),
{
    if p < source.len() {
        if in_comment {
            if source[p] == '\n' as u8 {
                lemma_blank_bound(source, p, false);
            } else {
                lemma_blank_bound(source, p + 1, true);
            }
        } else if source[p] == ' ' as u8 || source[p] == '\r' as u8 || source[p] == '\t' as u8 {
            lemma_blank_bound(source, p + 1, false);
        } else if source[p] == '\n' as u8 {
            lemma_blank_bound(source, p + 1, false);
        } else if source[p] == '/' as u8 && byte_at(source, p + 1) == '/' as u8 {
            lemma_blank_bound(source, p + 1, true);
        }
    }
}

/// A piece of string text ends within the source and has no more newlines
/// than bytes; it takes at least one byte unless it ends at once.
pub proof fn lemma_text_bound(source: Seq<u8>, p: int)
    requires
        0 <= p <= source.len(),
    ensures
        p + text(source, p).0 <= source.len(),
        text(source, p).1 <= text(source, p).0,
    decreases source.len() - p,
{
    let c = byte_at(source, p);
    let next = byte_at(source, p + 1);
    let previous = byte_at(source, p - 1);
    if c == '"' as u8 && previous != '\\' as u8 {
    } else if c == '{' as u8 && next != '{' as u8 && previous != '{' as u8 {
    } else if c == '}' as u8 && next != '}' as u8 && previous != '}' as u8 {
    } else if c == '}' as u8 && previous == '}' as u8 {
    } else if p < source.len() {
        lemma_text_bound(source, p + 1);
    }
}

/// A run of digits ends within the source.
pub proof fn lemma_digits_bound(source: Seq<u8>, p: int)
    requires
        0 <= p <= source.len(),
    ensures
        p + digits_run(source, p) <= source.len(),
    decreases source.len() - p,
{
    if p < source.len() && is_digit_byte(source[p]) {
        lemma_digits_bound(source, p + 1);
    }
}

/// The rest of a number ends within the source.
pub proof fn lemma_number_bound(source: Seq<u8>, p: int)
    requires
        0 <= p <= source.len(),
    ensures
        p + number_run(source, p) <= source.len(),
{
    lemma_digits_bound(source, p);
    let whole = digits_run(source, p);
    if byte_at(source, p + whole) == '.' as u8 && is_digit_byte(byte_at(source, p + whole + 1)) {
        lemma_digits_bound(source, p + whole + 1);
    }
}

/// The rest of a name ends within the source.
pub proof fn lemma_word_bound(source: Seq<u8>, p: int)
    requires
        0 <= p <= source.len(),
    ensures
        p + word_run(source, p) <= source.len(),
    decreases source.len() - p,
{
    lemma_width_bound(source, p);
    if p < source.len() && (letter_at(source, p) || is_digit_byte(source[p])) {
        lemma_word_bound(source, p + width_at(source, p));
    }
}

/// A scanner that is well formed stays so from token to token, over the same
/// source, and never goes back; every token but `TokenEof` takes at least
/// one byte, and `TokenEof` comes at the end of the source and nowhere else.
pub proof fn lemma_scan(lexer: LexerView)
    requires
        lexer.wf(),
    ensures
        scan(lexer).1.wf(),
        scan(lexer).1.source == lexer.source,
        scan(lexer).1.current >= lexer.current,
        scan(lexer).0.kind != TokenTypeView::TokenEof ==> scan(lexer).1.current > lexer.current,
        scan(lexer).0.kind == TokenTypeView::TokenEof ==> scan(lexer).1.current
            == lexer.source.len(),
        scan(lexer).0.start + scan(lexer).0.length == scan(lexer).1.current,
        scan(lexer).0.start >= lexer.current,
{
    lemma_plain(lexer);
}

/// See `lemma_scan`.
proof fn lemma_plain(lexer: LexerView)
    requires
        lexer.wf(),
    ensures
        plain(lexer).1.wf(),
        plain(lexer).1.source == lexer.source,
        plain(lexer).1.current >= lexer.current,
        plain(lexer).0.kind != TokenTypeView::TokenEof ==> plain(lexer).1.current > lexer.current,
        plain(lexer).0.kind == TokenTypeView::TokenEof ==> plain(lexer).1.current
            == lexer.source.len(),
        plain(lexer).0.start + plain(lexer).0.length == plain(lexer).1.current,
        plain(lexer).0.start >= lexer.current,
    decreases lexer.source.len() - lexer.current,
{
    lemma_blank_bound(lexer.source, lexer.current, false);
    let s = lexer.at_token();
    let c = byte_at(s.source, s.current);
    if s.current >= s.source.len() {
    } else if s.in_text() && !s.at_interpolation_start() && !s.at_interpolation_end() && c
        != '"' as u8 {
        lemma_text_bound(s.source, s.current);
    } else {
        lemma_width_bound(s.source, s.current);
        let a = s.advanced(width_at(s.source, s.current));
        if is_digit_byte(c) {
            lemma_number_bound(a.source, a.current);
        } else if letter_at(s.source, s.current) {
            lemma_word_bound(a.source, a.current);
        } else if c == '/' as u8 && byte_at(a.source, a.current) == '*' as u8 {
            lemma_comment_bound(a.source, a.current + 1, 1);
            let body = comment(a.source, a.current + 1, 1);
            let after = LexerView { current: a.current + 1 + body.0, line: a.line + body.1, ..a };
            if body.2 {
                lemma_plain(after);
            }
        } else {
        }
    }
}

/// The tokens from a scanner on, up to the first `TokenEof` and with it: for
/// each the name of its kind and its text.
pub open spec fn listing(lexer: LexerView) -> Seq<(Seq<char>, Seq<char>)>
    decreases lexer.source.len() - lexer.current,
    when lexer.wf()
{
    let scanned = scan(lexer);
    let entry = (
        scanned.0.kind.name(),
        crate::token::lexeme(lexer.source, scanned.0.start as int, scanned.0.length as int),
    );
    if scanned.0.kind == TokenTypeView::TokenEof {
        seq![entry]
    } else {
        proof {
            lemma_scan(lexer);
        }
        seq![entry] + listing(scanned.1)
    }
}

/// The scanner after the first `TokenEof` from it on.
pub open spec fn after_listing(lexer: LexerView) -> LexerView
    decreases lexer.source.len() - lexer.current,
    when lexer.wf()
{
    let scanned = scan(lexer);
    if scanned.0.kind == TokenTypeView::TokenEof {
        scanned.1
    } else {
        proof {
            lemma_scan(lexer);
        }
        after_listing(scanned.1)
    }
}

/// After the end of the source was reached, every further token is
/// `TokenEof` again, the same one, and the scanner stays as it is.
pub proof fn lemma_eof_again(lexer: LexerView)
    requires
        lexer.wf(),
        scan(lexer).0.kind == TokenTypeView::TokenEof,
    ensures
        scan(scan(lexer).1) == scan(lexer),
{
    lemma_plain_eof_again(lexer);
    lemma_plain_ignores_declaring(plain(lexer).1, 0);
}

/// What is scanned by the text alone does not depend on how far a
/// declaration has come, and leaves that as it is.
proof fn lemma_plain_ignores_declaring(lexer: LexerView, declaring: int)
    ensures
        plain(LexerView { declaring, ..lexer }).0 == plain(lexer).0,
        plain(LexerView { declaring, ..lexer }).1 == (LexerView { declaring, ..plain(lexer).1 }),
        plain(lexer).1.declaring == lexer.declaring,
    decreases lexer.source.len() - lexer.current,
{
    let s = lexer.at_token();
    let c = byte_at(s.source, s.current);
    if s.current >= s.source.len() {
    } else if s.in_text() && !s.at_interpolation_start() && !s.at_interpolation_end() && c
        != '"' as u8 {
    } else {
        lemma_width_bound(s.source, s.current);
        let a = s.advanced(width_at(s.source, s.current));
        if is_digit_byte(c) {
        } else if letter_at(s.source, s.current) {
        } else if c == '/' as u8 && byte_at(a.source, a.current) == '*' as u8 {
            let body = comment(a.source, a.current + 1, 1);
            let after = LexerView { current: a.current + 1 + body.0, line: a.line + body.1, ..a };
            if body.2 && 0 <= a.current + 1 <= a.source.len() {
                lemma_comment_bound(a.source, a.current + 1, 1);
                lemma_plain_ignores_declaring(after, declaring);
            }
        } else {
        }
    }
}

/// See `lemma_eof_again`.
proof fn lemma_plain_eof_again(lexer: LexerView)
    requires
        lexer.wf(),
        plain(lexer).0.kind == TokenTypeView::TokenEof,
    ensures
        plain(plain(lexer).1) == plain(lexer),
    decreases lexer.source.len() - lexer.current,
{
    lemma_blank_bound(lexer.source, lexer.current, false);
    let s = lexer.at_token();
    let c = byte_at(s.source, s.current);
    if s.current >= s.source.len() {
        assert(s.at_token() == s);
    } else if s.in_text() && !s.at_interpolation_start() && !s.at_interpolation_end() && c
        != '"' as u8 {
    } else {
        lemma_width_bound(s.source, s.current);
        let a = s.advanced(width_at(s.source, s.current));
        if is_digit_byte(c) {
        } else if letter_at(s.source, s.current) {
            lemma_word_kind_is_no_end(a.advanced(word_run(a.source, a.current) as int));
        } else if c == '/' as u8 && byte_at(a.source, a.current) == '*' as u8 {
            lemma_comment_bound(a.source, a.current + 1, 1);
            let body = comment(a.source, a.current + 1, 1);
            let after = LexerView { current: a.current + 1 + body.0, line: a.line + body.1, ..a };
            if body.2 {
                lemma_plain_eof_again(after);
            }
        } else {
        }
    }
}

/// A word is a keyword or a name, never the end of the source.
proof fn lemma_word_kind_is_no_end(lexer: LexerView)
    ensures
        word_kind(lexer.source.subrange(lexer.start, lexer.current))
            != TokenTypeView::TokenEof,
{
}

/// In well-formed UTF-8 a byte below 128 is a character of its own: a
/// character begins at it and the next one, or the end, comes right after.
pub proof fn lemma_ascii_boundary(source: Seq<u8>, p: int)
    requires
        valid_utf8(source),
        0 <= p < source.len(),
        source[p] < 0x80,
    ensures
        is_char_boundary(source, p),
        is_char_boundary(source, p + 1),
        width_at(source, p) == 1,
{
    vstd::utf8::is_char_boundary_iff_not_is_continuation_byte(source, p);
    lemma_next_boundary(source, p);
    assert(source.skip(p)[0] == source[p]);
}

/// In well-formed UTF-8 a character begins at every place between two
/// characters but the end, and the place after it is such a place again.
pub proof fn lemma_next_boundary(source: Seq<u8>, p: int)
    requires
        valid_utf8(source),
        0 <= p < source.len(),
        is_char_boundary(source, p),
    ensures
        crate::unicode::char_begins_at(source, p),
        is_char_boundary(source, p + width_at(source, p)),
        p + width_at(source, p) <= source.len(),
{
    let rest = source.skip(p);
    assert(rest =~= source.subrange(p, source.len() as int));
    vstd::utf8::valid_utf8_split(source, p);
    assert(vstd::utf8::valid_first_scalar(rest));
    assert(vstd::utf8::valid_leading_and_continuation_bytes_first_codepoint(rest));
    let w = vstd::utf8::length_of_first_scalar(rest);
    let q = p + w;
    if q == source.len() {
        vstd::utf8::is_char_boundary_start_end_of_seq(source);
    } else {
        let after = vstd::utf8::pop_first_scalar(rest);
        assert(valid_utf8(after));
        assert(after.len() > 0);
        assert(vstd::utf8::valid_first_scalar(after));
        assert(vstd::utf8::valid_leading_and_continuation_bytes_first_codepoint(after));
        assert(after[0] == source[q]);
        assert(!is_continuation_byte(source[q]));
        vstd::utf8::is_char_boundary_iff_not_is_continuation_byte(source, q);
    }
}

/// The end of the source is a place between characters.
proof fn lemma_end_boundary(source: Seq<u8>)
    requires
        valid_utf8(source),
    ensures
        is_char_boundary(source, source.len() as int),
        is_char_boundary(source, 0),
{
    vstd::utf8::is_char_boundary_start_end_of_seq(source);
}

/// Blank text ends between two characters.
proof fn lemma_blank_aligned(source: Seq<u8>, p: int, in_comment: bool)
    requires
        valid_utf8(source),
        0 <= p <= source.len(),
        in_comment || is_char_boundary(source, p),
    ensures
        is_char_boundary(source, p + blank(source, p, in_comment).0),
    decreases source.len() - p, (if in_comment { 1nat } else { 0nat }),
{
    lemma_end_boundary(source);
    if p < source.len() {
        if in_comment {
            if source[p] == '\n' as u8 {
                lemma_ascii_boundary(source, p);
                lemma_blank_aligned(source, p, false);
            } else {
                lemma_blank_aligned(source, p + 1, true);
            }
        } else if source[p] == ' ' as u8 || source[p] == '\r' as u8 || source[p] == '\t' as u8
            || source[p] == '\n' as u8 {
            lemma_ascii_boundary(source, p);
            lemma_blank_aligned(source, p + 1, false);
        } else if source[p] == '/' as u8 && byte_at(source, p + 1) == '/' as u8 {
            lemma_blank_aligned(source, p + 1, true);
        }
    }
}

/// A piece of string text ends between two characters.
proof fn lemma_text_aligned(source: Seq<u8>, p: int)
    requires
        valid_utf8(source),
        0 <= p <= source.len(),
    ensures
        is_char_boundary(source, p + text(source, p).0),
    decreases source.len() - p,
{
    lemma_end_boundary(source);
    let c = byte_at(source, p);
    let next = byte_at(source, p + 1);
    let previous = byte_at(source, p - 1);
    if p < source.len() && (c == '"' as u8 || c == '{' as u8 || c == '}' as u8) {
        lemma_ascii_boundary(source, p);
    }
    if c == '"' as u8 && previous != '\\' as u8 {
    } else if c == '{' as u8 && next != '{' as u8 && previous != '{' as u8 {
    } else if c == '}' as u8 && next != '}' as u8 && previous != '}' as u8 {
    } else if c == '}' as u8 && previous == '}' as u8 {
    } else if p < source.len() {
        lemma_text_aligned(source, p + 1);
    }
}

/// A run of digits from between two characters ends between two characters.
proof fn lemma_digits_aligned(source: Seq<u8>, p: int)
    requires
        valid_utf8(source),
        0 <= p <= source.len(),
        is_char_boundary(source, p),
    ensures
        is_char_boundary(source, p + digits_run(source, p)),
    decreases source.len() - p,
{
    if p < source.len() && is_digit_byte(source[p]) {
        lemma_ascii_boundary(source, p);
        lemma_digits_aligned(source, p + 1);
    }
}

/// The rest of a number from between two characters ends between two
/// characters.
proof fn lemma_number_aligned(source: Seq<u8>, p: int)
    requires
        valid_utf8(source),
        0 <= p <= source.len(),
        is_char_boundary(source, p),
    ensures
        is_char_boundary(source, p + number_run(source, p)),
{
    lemma_digits_aligned(source, p);
    lemma_digits_bound(source, p);
    let whole = digits_run(source, p);
    if byte_at(source, p + whole) == '.' as u8 && is_digit_byte(byte_at(source, p + whole + 1)) {
        lemma_ascii_boundary(source, p + whole);
        lemma_digits_aligned(source, p + whole + 1);
    }
}

/// The rest of a name from between two characters ends between two
/// characters.
proof fn lemma_word_aligned(source: Seq<u8>, p: int)
    requires
        valid_utf8(source),
        0 <= p <= source.len(),
        is_char_boundary(source, p),
    ensures
        is_char_boundary(source, p + word_run(source, p)),
    decreases source.len() - p,
{
    lemma_width_bound(source, p);
    if p < source.len() && (letter_at(source, p) || is_digit_byte(source[p])) {
        lemma_next_boundary(source, p);
        lemma_word_aligned(source, p + width_at(source, p));
    }
}

/// Over well-formed UTF-8 a scanner that stands between two characters
/// stands between two characters after every token, and the span of every
/// token is text: it cuts no character in two.
pub proof fn lemma_scan_aligned(lexer: LexerView)
    requires
        lexer.wf(),
        lexer.aligned(),
    ensures
        scan(lexer).1.aligned(),
        span_is_text(
            lexer.source,
            scan(lexer).0.start as int,
            scan(lexer).0.length as int,
        ),
{
    lemma_plain_aligned(lexer);
}

/// See `lemma_scan_aligned`.
proof fn lemma_plain_aligned(lexer: LexerView)
    requires
        lexer.wf(),
        lexer.aligned(),
    ensures
        plain(lexer).1.aligned(),
        span_is_text(
            lexer.source,
            plain(lexer).0.start as int,
            plain(lexer).0.length as int,
        ),
    decreases lexer.source.len() - lexer.current,
{
    lemma_plain(lexer);
    lemma_blank_bound(lexer.source, lexer.current, false);
    lemma_blank_aligned(lexer.source, lexer.current, false);
    lemma_end_boundary(lexer.source);
    let s = lexer.at_token();
    let c = byte_at(s.source, s.current);
    if s.current >= s.source.len() {
    } else if s.in_text() && !s.at_interpolation_start() && !s.at_interpolation_end() && c
        != '"' as u8 {
        lemma_text_bound(s.source, s.current);
        lemma_text_aligned(s.source, s.current);
    } else {
        lemma_width_bound(s.source, s.current);
        lemma_next_boundary(s.source, s.current);
        let a = s.advanced(width_at(s.source, s.current));
        if is_digit_byte(c) {
            lemma_number_bound(a.source, a.current);
            lemma_number_aligned(a.source, a.current);
        } else if letter_at(s.source, s.current) {
            lemma_word_bound(a.source, a.current);
            lemma_word_aligned(a.source, a.current);
        } else if c == '/' as u8 && byte_at(a.source, a.current) == '*' as u8 {
            lemma_comment_bound(a.source, a.current + 1, 1);
            let body = comment(a.source, a.current + 1, 1);
            let after = LexerView { current: a.current + 1 + body.0, line: a.line + body.1, ..a };
            if body.2 {
                lemma_plain_aligned(after);
                lemma_plain(after);
            }
        } else {
            if a.current < a.source.len() && (byte_at(a.source, a.current) == '=' as u8
                || byte_at(a.source, a.current) == '}' as u8) {
                lemma_ascii_boundary(a.source, a.current);
            }
        }
    }
}

/// What is scanned by the text alone leaves a well-formed scanner well
/// formed.
pub proof fn lemma_plain_keeps(lexer: LexerView)
    requires
        lexer.wf(),
    ensures
        plain(lexer).1.wf(),
{
    lemma_plain(lexer);
}

} // verus!
