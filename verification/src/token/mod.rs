//! Tokens: a kind, a span of bytes of the source, and a line.
use vstd::prelude::*;
use vstd::string::*;
use vstd::utf8::{decode_utf8, is_char_boundary, valid_utf8};
use self::token_type::{TokenType, TokenTypeView};

pub mod token_type;

verus! {

/// A token. It does not hold its text: the text is the span of the source
/// that begins at byte `start` and is `length` bytes long.
#[derive(Debug, PartialEq, Eq)]
pub struct Token {
    token_type: TokenType,
    start: usize,
    length: usize,
    line: usize,
}

/// What a token holds.
pub struct TokenView {
    pub kind: TokenTypeView,
    pub start: usize,
    pub length: usize,
    pub line: usize,
}

impl View for Token {
    type V = TokenView;

    closed spec fn view(&self) -> TokenView {
        TokenView {
            kind: self.token_type@,
            start: self.start,
            length: self.length,
            line: self.line,
        }
    }
}

impl Clone for Token {
    fn clone(&self) -> (r: Self)
        ensures
            r == *self,
    {
        Token {
            token_type: self.token_type.clone(),
            start: self.start,
            length: self.length,
            line: self.line,
        }
    }
}

/// Whether a span lies within the bytes and cuts no character in two.
pub open spec fn span_is_text(bytes: Seq<u8>, start: int, length: int) -> bool {
    &&& 0 <= start
    &&& 0 <= length
    &&& start + length <= bytes.len()
    &&& is_char_boundary(bytes, start)
    &&& is_char_boundary(bytes, start + length)
}

/// The text of a span of the source: the characters that its bytes encode,
/// and no text where the span is not within the source or cuts a character.
pub open spec fn lexeme(bytes: Seq<u8>, start: int, length: int) -> Seq<char> {
    if span_is_text(bytes, start, length) {
        decode_utf8(bytes.subrange(start, start + length))
    } else {
        Seq::empty()
    }
}

/// The text of a span of a string slice.
pub fn slice_text(source: &str, start: usize, length: usize) -> (text: String)
    ensures
        text@ == lexeme(source.spec_bytes(), start as int, length as int),
{
    broadcast use vstd::utf8::group_utf8_lib;

    let len = source.as_bytes().len();
    if start > len || length > len - start {
        return String::new();
    }
    if !source.is_char_boundary(start) || !source.is_char_boundary(start + length) {
        return String::new();
    }
    let ghost bytes = source.spec_bytes();
    let (_, tail) = source.split_at(start);
    assert(tail.spec_bytes() == bytes.subrange(start as int, bytes.len() as int));
    assert(is_char_boundary(tail.spec_bytes(), length as int)) by {
        lemma_boundary_of_tail(bytes, start as int, length as int);
    }
    let (text, _) = tail.split_at(length);
    assert(text.spec_bytes() =~= bytes.subrange(start as int, start + length));
    String::from_str(text)
}

/// A boundary of the whole is a boundary of what follows an earlier boundary.
proof fn lemma_boundary_of_tail(bytes: Seq<u8>, start: int, length: int)
    requires
        valid_utf8(bytes),
        0 <= start,
        0 <= length,
        start + length <= bytes.len(),
        is_char_boundary(bytes, start),
        is_char_boundary(bytes, start + length),
    ensures
        is_char_boundary(bytes.subrange(start, bytes.len() as int), length),
{
    let tail = bytes.subrange(start, bytes.len() as int);
    vstd::utf8::valid_utf8_split(bytes, start);
    if length == tail.len() {
        vstd::utf8::is_char_boundary_start_end_of_seq(tail);
    } else {
        vstd::utf8::is_char_boundary_iff_not_is_continuation_byte(tail, length);
        vstd::utf8::is_char_boundary_iff_not_is_continuation_byte(bytes, start + length);
        assert(tail[length] == bytes[start + length]);
    }
}

impl Token {
    pub fn new(token_type: TokenType, start: usize, length: usize, line: usize) -> (token: Self)
        ensures
            token@ == (TokenView { kind: token_type@, start, length, line }),
    {
        Self { token_type, start, length, line }
    }

    /// Whether the token is of the given kind.
    pub fn is(&self, token_type: TokenType) -> (r: bool)
        ensures
            r == (self@.kind == token_type@),
    {
        self.token_type.same(&token_type)
    }

    pub fn get_start(&self) -> (start: usize)
        ensures
            start == self@.start,
    {
        self.start
    }

    pub fn get_length(&self) -> (length: usize)
        ensures
            length == self@.length,
    {
        self.length
    }

    pub fn get_line(&self) -> (line: usize)
        ensures
            line == self@.line,
    {
        self.line
    }

    pub fn get_token_type(&self) -> (token_type: &TokenType)
        ensures
            token_type@ == self@.kind,
    {
        &self.token_type
    }

    /// The text of the token in the source that it was scanned from.
    pub fn get_lexeme(&self, source: &str) -> (text: String)
        ensures
            text@ == lexeme(source.spec_bytes(), self@.start as int, self@.length as int),
    {
        slice_text(source, self.start, self.length)
    }
}

} // verus!
