//! The scanner: it turns the bytes of a source into tokens, one at a call.
use vstd::prelude::*;
use vstd::string::*;
use vstd::utf8::encode_utf8;
use crate::token::Token;
use crate::token::token_type::{TokenType, TokenTypeView};
use crate::unicode::{decode_at, letter, width_at};
use self::spec::{
    Declaring, LexerView, after_listing, blank, byte_at, comment, digits_run, is_digit_byte,
    lemma_plain_keeps, lemma_scan, lemma_scan_aligned, lemma_width_bound, letter_at, listing,
    number_run, plain, stage_number, text, word_kind, word_run,
};

pub mod spec;

verus! {

/// A scanner over a source.
#[derive(Debug)]
pub struct Lexer<'a> {
    source: &'a str,
    start: usize,
    current: usize,
    line: usize,
    string_count: usize,
    interpolation_count: usize,
    declaring: Declaring,
}

impl<'a> View for Lexer<'a> {
    type V = LexerView;

    closed spec fn view(&self) -> LexerView {
        LexerView {
            source: self.source.spec_bytes(),
            start: self.start as int,
            current: self.current as int,
            line: self.line as int,
            string_count: self.string_count as int,
            interpolation_count: self.interpolation_count as int,
            declaring: stage_number(self.declaring),
        }
    }
}

/// Whether the byte is a decimal digit.
pub fn digit_byte(b: u8) -> (r: bool)
    ensures
        r == is_digit_byte(b),
{
    '0' as u8 <= b && b <= '9' as u8
}

impl<'a> Lexer<'a> {
    /// The positions of the scanner lie in its source in order. `new` gives
    /// such a scanner and `scan_token` keeps it so.
    pub open spec fn wf(&self) -> bool {
        self@.wf()
    }

    /// A scanner at the start of a source.
    pub fn new(source: &'a str) -> (lexer: Self)
        requires
            source.spec_bytes().len() < usize::MAX,
        ensures
            lexer@ == LexerView::initial(source.spec_bytes()),
            lexer.wf(),
            lexer@.aligned(),
    {
        proof {
            vstd::utf8::encode_utf8_valid_utf8(source@);
            vstd::utf8::is_char_boundary_start_end_of_seq(source.spec_bytes());
        }
        Self {
            current: 0,
            start: 0,
            line: 1,
            source,
            string_count: 0,
            interpolation_count: 0,
            declaring: Declaring::No,
        }
    }

    /// The source that is scanned.
    pub fn get_source(&self) -> (source: &'a str)
        ensures
            source.spec_bytes() == self@.source,
    {
        self.source
    }

    fn is_at_end(&self) -> (r: bool)
        ensures
            r == (self@.current >= self@.source.len()),
    {
        self.current >= self.source.as_bytes().len()
    }

    fn make_token(&self, token_type: TokenType) -> (token: Token)
        requires
            self.wf(),
        ensures
            token@ == self@.token(token_type@),
    {
        Token::new(token_type, self.start, self.current - self.start, self.line)
    }

    fn error_token(&self, msg: &str) -> (token: Token)
        requires
            self.wf(),
        ensures
            token@ == self@.token(TokenTypeView::TokenError(msg@)),
    {
        Token::new(
            TokenType::TokenError(String::from_str(msg)),
            self.start,
            self.current - self.start,
            self.line,
        )
    }

    /// The byte at a position, and 0 where the source has none.
    fn byte(&self, p: usize) -> (b: u8)
        ensures
            b == byte_at(self@.source, p as int),
    {
        let bytes = self.source.as_bytes();
        if p < bytes.len() {
            bytes[p]
        } else {
            0
        }
    }

    fn peek(&self) -> (b: u8)
        ensures
            b == byte_at(self@.source, self@.current),
    {
        self.byte(self.current)
    }

    fn peek_next(&self) -> (b: u8)
        requires
            self.wf(),
        ensures
            b == byte_at(self@.source, self@.current + 1),
    {
        self.byte(self.current + 1)
    }

    fn peek_previous(&self) -> (b: u8)
        ensures
            b == byte_at(self@.source, self@.current - 1),
    {
        if self.current == 0 {
            0
        } else {
            self.byte(self.current - 1)
        }
    }

    fn is_letter(&self, p: usize) -> (r: bool)
        ensures
            r == letter_at(self@.source, p as int),
    {
        let (c, _) = decode_at(self.source.as_bytes(), p);
        letter(c)
    }

    /// Passes over one character.
    fn advance(&mut self)
        requires
            old(self).wf(),
            old(self)@.current < old(self)@.source.len(),
        ensures
            final(self)@ == old(self)@.advanced(width_at(old(self)@.source, old(self)@.current)),
            final(self).wf(),
            final(self)@.current > old(self)@.current,
    {
        let (_, width) = decode_at(self.source.as_bytes(), self.current);
        self.current = self.current + width;
    }

    fn match_char(&mut self, expected: u8) -> (r: bool)
        requires
            old(self).wf(),
            expected != 0,
        ensures
            r == (byte_at(old(self)@.source, old(self)@.current) == expected),
            final(self)@ == (if r {
                old(self)@.advanced(1)
            } else {
                old(self)@
            }),
            final(self).wf(),
    {
        if self.peek() == expected {
            self.current = self.current + 1;
            true
        } else {
            false
        }
    }

    fn skip_whitespace(&mut self)
        requires
            old(self).wf(),
        ensures
            final(self)@ == (LexerView {
                current: old(self)@.current + blank(old(self)@.source, old(self)@.current, false).0,
                line: old(self)@.line + blank(old(self)@.source, old(self)@.current, false).1,
                ..old(self)@
            }),
            final(self).wf(),
    {
        let bytes = self.source.as_bytes();
        let len = bytes.len();
        let mut in_comment = false;
        let ghost first = self.current as int;
        let ghost first_line = self.line as int;
        let ghost whole = blank(bytes@, first, false);
        loop
            invariant
                bytes@ == self@.source,
                len == bytes@.len(),
                self.wf(),
                first <= self.current,
                self@ == (LexerView {
                    current: self.current as int,
                    line: self.line as int,
                    ..old(self)@
                }),
                whole == blank(old(self)@.source, first, false),
                whole.0 == self.current - first + blank(bytes@, self.current as int, in_comment).0,
                whole.1 == self.line - first_line + blank(
                    bytes@,
                    self.current as int,
                    in_comment,
                ).1,
                first_line == old(self)@.line,
                first == old(self)@.current,
            ensures
                self.wf(),
                self@ == (LexerView {
                    current: first + whole.0,
                    line: first_line + whole.1,
                    ..old(self)@
                }),
            decreases len - self.current, (if in_comment { 1nat } else { 0nat }),
        {
            if self.current >= len {
                break;
            }
            let b = bytes[self.current];
            if in_comment {
                if b == '\n' as u8 {
                    in_comment = false;
                } else {
                    self.current = self.current + 1;
                }
            } else if b == ' ' as u8 || b == '\r' as u8 || b == '\t' as u8 {
                self.current = self.current + 1;
            } else if b == '\n' as u8 {
                self.line = self.line + 1;
                self.current = self.current + 1;
            } else if b == '/' as u8 && self.peek_next() == '/' as u8 {
                in_comment = true;
                self.current = self.current + 1;
            } else {
                break;
            }
        }
    }

    /// Passes over the rest of a block comment and says whether the source
    /// closes it.
    fn scan_comment_block(&mut self) -> (closed: bool)
        requires
            old(self).wf(),
            old(self)@.current >= 2,
        ensures
            final(self)@ == (LexerView {
                current: old(self)@.current + comment(old(self)@.source, old(self)@.current, 1).0,
                line: old(self)@.line + comment(old(self)@.source, old(self)@.current, 1).1,
                ..old(self)@
            }),
            closed == comment(old(self)@.source, old(self)@.current, 1).2,
            final(self).wf(),
    {
        let bytes = self.source.as_bytes();
        let len = bytes.len();
        let mut depth: usize = 1;
        let ghost first = self.current as int;
        let ghost first_line = self.line as int;
        let ghost whole = comment(bytes@, first, 1);
        loop
            invariant
                bytes@ == self@.source,
                len == bytes@.len(),
                self.wf(),
                first <= self.current,
                1 <= depth <= self.current,
                self@ == (LexerView {
                    current: self.current as int,
                    line: self.line as int,
                    ..old(self)@
                }),
                first_line == old(self)@.line,
                first == old(self)@.current,
                whole == comment(old(self)@.source, first, 1),
                whole.0 == self.current - first + comment(
                    bytes@,
                    self.current as int,
                    depth as nat,
                ).0,
                whole.1 == self.line - first_line + comment(
                    bytes@,
                    self.current as int,
                    depth as nat,
                ).1,
                whole.2 == comment(bytes@, self.current as int, depth as nat).2,
            decreases len - self.current,
        {
            if self.current >= len {
                return false;
            }
            if bytes[self.current] == '\n' as u8 {
                self.line = self.line + 1;
            }
            if self.peek() == '/' as u8 && self.peek_next() == '*' as u8 {
                depth = depth + 1;
                self.current = self.current + 2;
            }
            if self.peek() == '*' as u8 && self.peek_next() == '/' as u8 {
                depth = depth - 1;
                self.current = self.current + 2;
            }
            if depth == 0 {
                return true;
            }
            if self.current < len {
                self.current = self.current + 1;
            }
        }
    }

    fn is_interpolation_start(&self) -> (r: bool)
        requires
            self.wf(),
        ensures
            r == self@.at_interpolation_start(),
    {
        self.peek() == '{' as u8 && !(self.peek_next() == '{' as u8) && !(self.peek_previous()
            == '{' as u8)
    }

    fn is_interpolation_end(&self) -> (r: bool)
        requires
            self.wf(),
        ensures
            r == self@.at_interpolation_end(),
    {
        self.peek() == '}' as u8 && !(self.peek_next() == '}' as u8) && !(self.peek_previous()
            == '}' as u8)
    }

    fn string(&mut self) -> (token: Token)
        requires
            old(self).wf(),
        ensures
            (token@, final(self)@) == old(self)@.string(),
            final(self).wf(),
    {
        let ghost first = self.current as int;
        let ghost first_line = self.line as int;
        let ghost whole = text(self@.source, first);
        loop
            invariant
                self.wf(),
                first <= self.current,
                self@ == (LexerView {
                    current: self.current as int,
                    line: self.line as int,
                    ..old(self)@
                }),
                first_line == old(self)@.line,
                first == old(self)@.current,
                whole == text(old(self)@.source, first),
                whole.0 == self.current - first + text(self@.source, self.current as int).0,
                whole.1 == self.line - first_line + text(self@.source, self.current as int).1,
                whole.2 == text(self@.source, self.current as int).2,
            decreases self@.source.len() - self.current,
        {
            let c = self.peek();
            if c == '"' as u8 && !(self.peek_previous() == '\\' as u8) {
                return self.make_token(TokenType::TokenString);
            }
            if c == '{' as u8 && !(self.peek_next() == '{' as u8) && !(self.peek_previous()
                == '{' as u8) {
                return self.make_token(TokenType::TokenString);
            }
            if c == '}' as u8 && !(self.peek_next() == '}' as u8) && !(self.peek_previous()
                == '}' as u8) {
                return self.make_token(TokenType::TokenString);
            }
            if c == '}' as u8 && self.peek_previous() == '}' as u8 {
                self.current = self.current + 1;
                return self.error_token("Unmatched '}'. To escape use '}}'");
            }
            if self.is_at_end() {
                return self.error_token("Unterminated string");
            }
            if c == '\n' as u8 {
                self.line = self.line + 1;
            }
            self.current = self.current + 1;
        }
    }

    /// Passes over the digits at `current`.
    fn digits(&mut self)
        requires
            old(self).wf(),
        ensures
            final(self)@ == old(self)@.advanced(
                digits_run(old(self)@.source, old(self)@.current) as int,
            ),
            final(self).wf(),
    {
        let ghost first = self.current as int;
        loop
            invariant
                self.wf(),
                first <= self.current,
                first == old(self)@.current,
                self@ == (LexerView { current: self.current as int, ..old(self)@ }),
                digits_run(old(self)@.source, first) == self.current - first + digits_run(
                    self@.source,
                    self.current as int,
                ),
            ensures
                self.wf(),
                self@ == old(self)@.advanced(digits_run(old(self)@.source, first) as int),
            decreases self@.source.len() - self.current,
        {
            if self.is_at_end() || !digit_byte(self.peek()) {
                break;
            }
            self.current = self.current + 1;
        }
    }

    fn number(&mut self) -> (token: Token)
        requires
            old(self).wf(),
        ensures
            final(self)@ == old(self)@.advanced(
                number_run(old(self)@.source, old(self)@.current) as int,
            ),
            token@ == final(self)@.token(TokenTypeView::TokenNumber),
            final(self).wf(),
    {
        self.digits();
        if self.peek() == '.' as u8 && digit_byte(self.peek_next()) {
            self.current = self.current + 1;
            self.digits();
        }
        self.make_token(TokenType::TokenNumber)
    }

    fn identifier(&mut self) -> (token: Token)
        requires
            old(self).wf(),
        ensures
            final(self)@ == old(self)@.advanced(
                word_run(old(self)@.source, old(self)@.current) as int,
            ),
            token@ == final(self)@.token(
                word_kind(final(self)@.source.subrange(final(self)@.start, final(self)@.current)),
            ),
            final(self).wf(),
    {
        let ghost first = self.current as int;
        loop
            invariant
                self.wf(),
                first <= self.current,
                first == old(self)@.current,
                self@ == (LexerView { current: self.current as int, ..old(self)@ }),
                word_run(old(self)@.source, first) == self.current - first + word_run(
                    self@.source,
                    self.current as int,
                ),
            ensures
                self.wf(),
                self@ == old(self)@.advanced(word_run(old(self)@.source, first) as int),
            decreases self@.source.len() - self.current,
        {
            if self.is_at_end() {
                break;
            }
            if !self.is_letter(self.current) && !digit_byte(self.peek()) {
                break;
            }
            proof {
                lemma_width_bound(self@.source, self@.current);
            }
            self.advance();
        }
        self.make_token(self.identifier_type())
    }

    /// Whether the bytes from `start` to `current` are those of a word.
    fn check_keyword(&self, word: &str) -> (r: bool)
        requires
            self.wf(),
        ensures
            r == (self@.source.subrange(self@.start, self@.current) == encode_utf8(word@)),
    {
        let bytes = self.source.as_bytes();
        let other = word.as_bytes();
        let length = self.current - self.start;
        let ghost lexeme = bytes@.subrange(self.start as int, self.current as int);
        if other.len() != length {
            return false;
        }
        let mut i: usize = 0;
        while i < length
            invariant
                i <= length,
                length == self.current - self.start,
                self.wf(),
                bytes@ == self@.source,
                other@ == encode_utf8(word@),
                other@.len() == length,
                lexeme == bytes@.subrange(self.start as int, self.current as int),
                forall|j: int| 0 <= j < i ==> lexeme[j] == other@[j],
            decreases length - i,
        {
            if bytes[self.start + i] != other[i] {
                assert(lexeme[i as int] != other@[i as int]);
                return false;
            }
            i += 1;
        }
        assert(lexeme =~= other@);
        true
    }

    fn identifier_type(&self) -> (token_type: TokenType)
        requires
            self.wf(),
        ensures
            token_type@ == word_kind(self@.source.subrange(self@.start, self@.current)),
    {
        let ghost word = self@.source.subrange(self@.start, self@.current);
        if self.check_keyword("and") {
            TokenType::TokenAnd
        } else if self.check_keyword("class") {
            TokenType::TokenClass
        } else if self.check_keyword("else") {
            TokenType::TokenElse
        } else if self.check_keyword("false") {
            TokenType::TokenFalse
        } else if self.check_keyword("for") {
            TokenType::TokenFor
        } else if self.check_keyword("fn") {
            TokenType::TokenFn
        } else {
            if self.check_keyword("if") {
                TokenType::TokenIf
            } else if self.check_keyword("let") {
                TokenType::TokenLet
            } else if self.check_keyword("mut") {
                TokenType::TokenMutable
            } else if self.check_keyword("null") {
                TokenType::TokenNull
            } else if self.check_keyword("or") {
                TokenType::TokenOr
            } else if self.check_keyword("print") {
                TokenType::TokenPrint
            } else if self.check_keyword("return") {
                TokenType::TokenReturn
            } else if self.check_keyword("this") {
                TokenType::TokenThis
            } else if self.check_keyword("true") {
                TokenType::TokenTrue
            } else if self.check_keyword("while") {
                TokenType::TokenWhile
            } else {
                TokenType::TokenIdentifier
            }
        }
    }

    fn with_equal(&mut self, single: TokenType, double: TokenType) -> (token: Token)
        requires
            old(self).wf(),
        ensures
            (token@, final(self)@) == old(self)@.with_equal(single@, double@),
            final(self).wf(),
    {
        if self.match_char('=' as u8) {
            self.make_token(double)
        } else {
            self.make_token(single)
        }
    }

    fn left_brace(&mut self) -> (token: Token)
        requires
            old(self).wf(),
            old(self)@.current >= 1,
            old(self)@.interpolation_count < old(self)@.current,
        ensures
            (token@, final(self)@) == old(self)@.left_brace(),
            final(self).wf(),
    {
        if self.string_count > 0 && !(self.peek() == '{' as u8) {
            self.interpolation_count = self.interpolation_count + 1;
            return self.make_token(TokenType::TokenInterpolationStart);
        }
        self.make_token(TokenType::TokenLeftBrace)
    }

    fn right_brace(&mut self) -> (token: Token)
        requires
            old(self).wf(),
        ensures
            (token@, final(self)@) == old(self)@.right_brace(),
            final(self).wf(),
    {
        if self.interpolation_count > 0 {
            if self.string_count > self.interpolation_count && self.peek() == '}' as u8 {
                self.current = self.current + 1;
                return self.make_token(TokenType::TokenRightBrace);
            } else if self.string_count == self.interpolation_count {
                self.interpolation_count = self.interpolation_count - 1;
                return self.make_token(TokenType::TokenInterpolationEnd);
            }
        } else if self.string_count > self.interpolation_count {
            return self.error_token("Unmatched '}'. To escape use '}}'");
        }
        self.make_token(TokenType::TokenRightBrace)
    }

    fn quote(&mut self) -> (token: Token)
        requires
            old(self).wf(),
            old(self)@.string_count < old(self)@.current,
        ensures
            (token@, final(self)@) == old(self)@.quote(),
            final(self).wf(),
    {
        if self.string_count == 0 || self.string_count == self.interpolation_count {
            self.string_count = self.string_count + 1;
            self.make_token(TokenType::TokenStringStart)
        } else {
            self.string_count = self.string_count - 1;
            self.make_token(TokenType::TokenStringEnd)
        }
    }

    fn punctuation(&mut self, c: u8) -> (token: Token)
        requires
            old(self).wf(),
            old(self)@.string_count < old(self)@.current,
            old(self)@.interpolation_count < old(self)@.current,
        ensures
            (token@, final(self)@) == old(self)@.punctuation(c),
            final(self).wf(),
    {
        if c == '(' as u8 {
            self.make_token(TokenType::TokenLeftParen)
        } else if c == ')' as u8 {
            self.make_token(TokenType::TokenRightParen)
        } else if c == '{' as u8 {
            self.left_brace()
        } else if c == '}' as u8 {
            self.right_brace()
        } else if c == ';' as u8 {
            self.make_token(TokenType::TokenSemicolon)
        } else if c == ',' as u8 {
            self.make_token(TokenType::TokenComma)
        } else if c == '.' as u8 {
            self.make_token(TokenType::TokenDot)
        } else if c == '-' as u8 {
            self.make_token(TokenType::TokenMinus)
        } else if c == '+' as u8 {
            self.make_token(TokenType::TokenPlus)
        } else if c == '/' as u8 {
            self.make_token(TokenType::TokenSlash)
        } else if c == '*' as u8 {
            self.make_token(TokenType::TokenStar)
        } else if c == '^' as u8 {
            self.make_token(TokenType::TokenPower)
        } else if c == '!' as u8 {
            self.with_equal(TokenType::TokenBang, TokenType::TokenBangEqual)
        } else if c == '=' as u8 {
            self.with_equal(TokenType::TokenEqual, TokenType::TokenEqualEqual)
        } else if c == '<' as u8 {
            self.with_equal(TokenType::TokenLess, TokenType::TokenLessEqual)
        } else if c == '>' as u8 {
            self.with_equal(TokenType::TokenGreater, TokenType::TokenGreaterEqual)
        } else if c == '"' as u8 {
            self.quote()
        } else {
            self.error_token("Invalid character")
        }
    }

    /// Scans the rest of the source: the names of the kinds of its tokens,
    /// and their texts, up to the end of the source and with it.
    pub fn get_token_names_and_lexemes_vec(&mut self) -> (r: (Vec<String>, Vec<String>))
        requires
            old(self).wf(),
        ensures
            r.0@.len() == listing(old(self)@).len(),
            r.1@.len() == listing(old(self)@).len(),
            forall|i: int|
                0 <= i < listing(old(self)@).len() ==> (#[trigger] r.0@[i])@ == listing(
                    old(self)@,
                )[i].0,
            forall|i: int|
                0 <= i < listing(old(self)@).len() ==> (#[trigger] r.1@[i])@ == listing(
                    old(self)@,
                )[i].1,
            final(self)@ == after_listing(old(self)@),
            final(self).wf(),
    {
        let mut token_names: Vec<String> = Vec::new();
        let mut token_lexemes: Vec<String> = Vec::new();
        let ghost whole = listing(self@);
        let ghost done: Seq<(Seq<char>, Seq<char>)> = Seq::empty();
        assert(done + whole =~= whole);
        loop
            invariant_except_break
                done + listing(self@) == whole,
                after_listing(self@) == after_listing(old(self)@),
            invariant
                self.wf(),
                old(self).wf(),
                whole == listing(old(self)@),
                token_names@.len() == done.len(),
                token_lexemes@.len() == done.len(),
                forall|i: int| 0 <= i < done.len() ==> (#[trigger] token_names@[i])@ == done[i].0,
                forall|i: int|
                    0 <= i < done.len() ==> (#[trigger] token_lexemes@[i])@ == done[i].1,
            ensures
                done == whole,
                self@ == after_listing(old(self)@),
            decreases self@.source.len() - self@.current,
        {
            proof {
                lemma_scan(self@);
            }
            let ghost before = self@;
            let token = self.scan_token();
            let token_name = String::from_str(token.get_token_type().as_str());
            let lexeme = token.get_lexeme(self.source);
            let ghost entry = (token_name@, lexeme@);
            token_names.push(token_name);
            token_lexemes.push(lexeme);
            let ghost earlier = done;
            proof {
                done = done.push(entry);
            }
            if token.is(TokenType::TokenEof) {
                assert(listing(before) =~= seq![entry]);
                assert(earlier + seq![entry] =~= done);
                break;
            }
            assert(listing(before) =~= seq![entry] + listing(self@));
            assert(done + listing(self@) =~= earlier + listing(before));
        }
        (token_names, token_lexemes)
    }

    /// Scans the next token. The span of the token is text of the source.
    pub fn scan_token(&mut self) -> (token: Token)
        requires
            old(self).wf(),
        ensures
            (token@, final(self)@) == old(self)@.scan(),
            final(self).wf(),
            old(self)@.aligned() ==> final(self)@.aligned() && crate::token::span_is_text(
                old(self)@.source,
                token@.start as int,
                token@.length as int,
            ),
    {
        proof {
            lemma_scan(self@);
            if self@.aligned() {
                lemma_scan_aligned(self@);
            }
        }
        let before = self.declaring;
        let token = self.scan_plain();
        let declares = match token.get_token_type() {
            TokenType::TokenEqual => before == Declaring::Named,
            _ => false,
        };
        self.declaring = match token.get_token_type() {
            TokenType::TokenLet | TokenType::TokenMutable => Declaring::Marked,
            TokenType::TokenIdentifier => if before == Declaring::Marked {
                Declaring::Named
            } else {
                Declaring::No
            },
            _ => Declaring::No,
        };
        if declares {
            Token::new(
                TokenType::TokenDeclaration,
                token.get_start(),
                token.get_length(),
                token.get_line(),
            )
        } else {
            token
        }
    }

    /// Scans the next token by its text alone.
    fn scan_plain(&mut self) -> (token: Token)
        requires
            old(self).wf(),
        ensures
            (token@, final(self)@) == plain(old(self)@),
            final(self).wf(),
        decreases old(self)@.source.len() - old(self)@.current,
    {
        proof {
            lemma_plain_keeps(self@);
        }
        if self.string_count == self.interpolation_count {
            self.skip_whitespace();
        }
        self.start = self.current;
        assert(self@ == old(self)@.at_token());

        if self.is_at_end() {
            return self.make_token(TokenType::TokenEof);
        }
        let c = self.peek();
        if self.string_count > 0 && self.string_count != self.interpolation_count
            && !self.is_interpolation_start() && !self.is_interpolation_end() && !(c == '"' as u8) {
            return self.string();
        }
        let letter = self.is_letter(self.current);
        proof {
            lemma_width_bound(self@.source, self@.current);
        }
        self.advance();

        if digit_byte(c) {
            return self.number();
        } else if letter {
            return self.identifier();
        }
        if c == '/' as u8 && self.peek() == '*' as u8 {
            self.current = self.current + 1;
            if self.scan_comment_block() {
                return self.scan_plain();
            }
            return self.error_token("Unterminated block comment");
        }
        self.punctuation(c)
    }
}

} // verus!
