//! The parser's bookkeeping: the token at hand and the one before it, and
//! the errors found so far.
use vstd::prelude::*;
use vstd::string::*;
use crate::lexer::Lexer;
use crate::lexer::spec::{LexerView, lemma_scan, lemma_scan_aligned, scan};
use crate::text::concat;
use crate::token::{Token, TokenView, span_is_text};
use crate::token::token_type::{TokenType, TokenTypeView};

verus! {

/// The report of an error in the source, with the line of the token at
/// which it was found, where there was one.
#[derive(Debug, PartialEq, Eq)]
pub struct Diagnostic {
    pub line: Option<usize>,
    pub message: String,
}

/// A `Diagnostic` with its message as a sequence of characters.
pub struct DiagnosticView {
    pub line: Option<usize>,
    pub message: Seq<char>,
}

impl View for Diagnostic {
    type V = DiagnosticView;

    open spec fn view(&self) -> DiagnosticView {
        DiagnosticView { line: self.line, message: self.message@ }
    }
}

impl Clone for Diagnostic {
    fn clone(&self) -> (r: Self)
        ensures
            r == *self,
    {
        Diagnostic { line: self.line, message: self.message.clone() }
    }
}

/// The views of a list of diagnostics, in order.
pub open spec fn diagnostic_views(list: Seq<Diagnostic>) -> Seq<DiagnosticView> {
    list.map_values(|d: Diagnostic| d@)
}

/// The view of a token that may be missing.
pub open spec fn token_view(token: Option<Token>) -> Option<TokenView> {
    match token {
        Some(t) => Some(t@),
        None => None,
    }
}

/// The view of a kind that may be missing.
pub open spec fn kind_view(kind: Option<TokenType>) -> Option<TokenTypeView> {
    match kind {
        Some(k) => Some(k@),
        None => None,
    }
}

/// The line of a token that may be missing.
pub open spec fn line_of(token: Option<TokenView>) -> Option<usize> {
    match token {
        Some(t) => Some(t.line),
        None => None,
    }
}

/// Whether the span of a token, if there is one, is text of the source.
pub open spec fn token_is_text(source: Seq<u8>, token: Option<TokenView>) -> bool {
    match token {
        Some(t) => span_is_text(source, t.start as int, t.length as int),
        None => true,
    }
}

/// The state of a parser.
pub struct ParserView {
    /// The scanner, which stands after the current token.
    pub lexer: LexerView,
    /// The token at hand, which has not been consumed.
    pub current: Option<TokenView>,
    /// The token that was consumed last.
    pub previous: Option<TokenView>,
    /// The kind of the token that was consumed before `previous`.
    pub double_previous_type: Option<TokenTypeView>,
    /// A token kept for a later report.
    pub saved_token: Option<TokenView>,
    /// Whether an error was reported.
    pub had_error: bool,
    /// Whether reports are held back until the parser has synchronized.
    pub panic_mode: bool,
    /// Whether the expression at hand may declare or assign a variable.
    pub can_declare: bool,
    /// The errors reported so far.
    pub diagnostics: Seq<DiagnosticView>,
}

impl ParserView {
    /// The scanner is well formed, there is a current token and it is no
    /// error, and it is `TokenEof` only at the end of the source.
    pub open spec fn wf(self) -> bool {
        &&& self.lexer.wf()
        &&& self.current is Some
        &&& !(self.current->0.kind is TokenError)
        &&& (self.current->0.kind == TokenTypeView::TokenEof ==> self.lexer.current
            == self.lexer.source.len())
    }

    /// The source is well-formed UTF-8, the scanner stands between two
    /// characters, and the spans of the tokens at hand are text.
    pub open spec fn aligned(self) -> bool {
        &&& self.lexer.aligned()
        &&& token_is_text(self.lexer.source, self.current)
        &&& token_is_text(self.lexer.source, self.previous)
    }

    /// The kind of the current token.
    pub open spec fn current_kind(self) -> TokenTypeView
        recommends
            self.current is Some,
    {
        self.current->0.kind
    }

    /// The kind of the token consumed last, if one was consumed.
    pub open spec fn previous_kind(self) -> Option<TokenTypeView> {
        match self.previous {
            Some(t) => Some(t.kind),
            None => None,
        }
    }

    /// Whether the current token is the end of the source.
    pub open spec fn at_end(self) -> bool {
        self.current is Some && self.current->0.kind == TokenTypeView::TokenEof
    }

    /// How much is left to parse: twice the bytes that the scanner has not
    /// read, and one more while the current token is not the end.
    pub open spec fn measure(self) -> int {
        2 * (self.lexer.source.len() - self.lexer.current) + (if self.at_end() {
            0int
        } else {
            1int
        })
    }

    /// The parser after a report with a message and a line. In panic mode
    /// nothing is reported; else the report is added and panic mode begins.
    pub open spec fn reported(self, line: Option<usize>, message: Seq<char>) -> ParserView {
        if self.panic_mode {
            self
        } else {
            ParserView {
                had_error: true,
                panic_mode: true,
                diagnostics: self.diagnostics.push(DiagnosticView { line, message }),
                ..self
            }
        }
    }

    /// The parser after a report at the current token.
    pub open spec fn report_error(self, message: Seq<char>) -> ParserView {
        self.reported(line_of(self.current), message)
    }

    /// The parser after a report at the saved token: the message ends with
    /// the name of that token's kind.
    pub open spec fn report_error_at_saved_token(self, message: Seq<char>) -> ParserView {
        match self.saved_token {
            Some(token) => self.reported(Some(token.line), message + token.kind.name()),
            None => self.reported(None, message),
        }
    }

    /// The parser after it has scanned up to the next token that is no
    /// error: that token is the current one, and each error token on the way
    /// is reported with its message and line.
    pub open spec fn pull(self) -> ParserView
        decreases self.lexer.source.len() - self.lexer.current,
        when self.lexer.wf()
    {
        let scanned = scan(self.lexer);
        let next = ParserView { lexer: scanned.1, current: Some(scanned.0), ..self };
        match scanned.0.kind {
            TokenTypeView::TokenError(message) => {
                proof {
                    lemma_scan(self.lexer);
                }
                next.report_error(message).pull()
            },
            _ => next,
        }
    }

    /// The parser after it has consumed the current token: that token is the
    /// previous one now, and the next token that is no error is the current.
    pub open spec fn advance(self) -> ParserView {
        ParserView {
            double_previous_type: match self.previous {
                Some(t) => Some(t.kind),
                None => self.double_previous_type,
            },
            previous: self.current,
            current: None,
            ..self
        }.pull()
    }

    /// The message of `consume` for a token that is not there.
    pub open spec fn expected(what: Seq<char>) -> Seq<char> {
        "Expected "@ + what + " but got "@
    }

    /// The parser after it has consumed the current token if that is of the
    /// given kind; if it is of another kind the error is reported and the
    /// token stays.
    pub open spec fn consume(self, kind: TokenTypeView, what: Seq<char>) -> ParserView {
        if self.current is Some && self.current->0.kind == kind {
            self.advance()
        } else {
            self.report_error(Self::expected(what))
        }
    }

    /// The parser at the start of a source: its current token is the first
    /// token of the source that is no error.
    pub open spec fn initial(source: Seq<u8>) -> ParserView {
        ParserView {
            lexer: LexerView::initial(source),
            current: None,
            previous: None,
            double_previous_type: None,
            saved_token: None,
            had_error: false,
            panic_mode: false,
            can_declare: true,
            diagnostics: Seq::empty(),
        }.pull()
    }
}

/// Scanning up to the next token that is no error leaves a well-formed
/// parser over the same source and changes nothing but the scanner, the
/// current token and the reports.
pub proof fn lemma_pull(parser: ParserView)
    requires
        parser.lexer.wf(),
    ensures
        parser.pull().wf(),
        parser.pull().lexer.source == parser.lexer.source,
        parser.pull().lexer.current >= parser.lexer.current,
        !parser.pull().at_end() ==> parser.pull().lexer.current > parser.lexer.current,
        parser.pull().previous == parser.previous,
        parser.pull().double_previous_type == parser.double_previous_type,
        parser.pull().saved_token == parser.saved_token,
        parser.pull().can_declare == parser.can_declare,
        parser.had_error ==> parser.pull().had_error,
        parser.lexer.aligned() && token_is_text(parser.lexer.source, parser.previous)
            ==> parser.pull().aligned(),
    decreases parser.lexer.source.len() - parser.lexer.current,
{
    lemma_scan(parser.lexer);
    if parser.lexer.aligned() {
        lemma_scan_aligned(parser.lexer);
    }
    let scanned = scan(parser.lexer);
    let next = ParserView { lexer: scanned.1, current: Some(scanned.0), ..parser };
    match scanned.0.kind {
        TokenTypeView::TokenError(message) => {
            lemma_pull(next.report_error(message));
        },
        _ => {},
    }
}

/// Consuming a token leaves a well-formed parser over the same source. What
/// is left to parse never grows; it shrinks unless the token consumed was
/// the end of the source.
pub proof fn lemma_advance(parser: ParserView)
    requires
        parser.wf(),
    ensures
        parser.advance().wf(),
        parser.advance().lexer.source == parser.lexer.source,
        parser.advance().previous == parser.current,
        parser.advance().measure() <= parser.measure(),
        !parser.at_end() ==> parser.advance().measure() < parser.measure(),
        parser.advance().saved_token == parser.saved_token,
        parser.advance().can_declare == parser.can_declare,
        parser.had_error ==> parser.advance().had_error,
        parser.aligned() ==> parser.advance().aligned(),
{
    let shifted = ParserView {
        double_previous_type: match parser.previous {
            Some(t) => Some(t.kind),
            None => parser.double_previous_type,
        },
        previous: parser.current,
        current: None,
        ..parser
    };
    lemma_pull(shifted);
}

/// A report changes nothing but the flags and the list of reports.
pub proof fn lemma_reported(parser: ParserView, line: Option<usize>, message: Seq<char>)
    ensures
        parser.reported(line, message).wf() == parser.wf(),
        parser.reported(line, message).measure() == parser.measure(),
        parser.reported(line, message).lexer == parser.lexer,
        parser.reported(line, message).current == parser.current,
        parser.reported(line, message).previous == parser.previous,
        parser.had_error || !parser.panic_mode ==> parser.reported(line, message).had_error,
{
}

/// A parser over a scanner.
#[derive(Debug)]
pub struct Parser<'a> {
    lexer: Lexer<'a>,
    current: Option<Token>,
    previous: Option<Token>,
    double_previous_type: Option<TokenType>,
    saved_token: Option<Token>,
    had_error: bool,
    panic_mode: bool,
    can_declare: bool,
    diagnostics: Vec<Diagnostic>,
}

impl<'a> View for Parser<'a> {
    type V = ParserView;

    closed spec fn view(&self) -> ParserView {
        ParserView {
            lexer: self.lexer@,
            current: token_view(self.current),
            previous: token_view(self.previous),
            double_previous_type: kind_view(self.double_previous_type),
            saved_token: token_view(self.saved_token),
            had_error: self.had_error,
            panic_mode: self.panic_mode,
            can_declare: self.can_declare,
            diagnostics: diagnostic_views(self.diagnostics@),
        }
    }
}

impl<'a> Parser<'a> {
    /// The parser is well formed, as `ParserView::wf` says. `new` gives such
    /// a parser and every method keeps it so.
    pub open spec fn wf(&self) -> bool {
        self@.wf()
    }

    /// A parser at the start of a source.
    pub fn new(source: &'a str) -> (parser: Self)
        requires
            source.spec_bytes().len() < usize::MAX,
        ensures
            parser@ == ParserView::initial(source.spec_bytes()),
            parser.wf(),
            parser@.aligned(),
    {
        let lexer = Lexer::new(source);
        let mut parser = Self {
            lexer,
            current: None,
            previous: None,
            saved_token: None,
            double_previous_type: None,
            had_error: false,
            panic_mode: false,
            can_declare: true,
            diagnostics: Vec::new(),
        };
        assert(parser@.diagnostics =~= Seq::empty());
        proof {
            lemma_pull(parser@);
        }
        parser.pull();
        parser
    }

    /// The source that is parsed.
    pub fn get_source(&self) -> (source: &'a str)
        ensures
            source.spec_bytes() == self@.lexer.source,
    {
        self.lexer.get_source()
    }

    pub fn set_saved_token(&mut self, token: Token)
        ensures
            final(self)@ == (ParserView { saved_token: Some(token@), ..old(self)@ }),
    {
        self.saved_token = Some(token);
    }

    /// Forgets the saved token.
    pub fn clear_saved_token(&mut self)
        ensures
            final(self)@ == (ParserView { saved_token: None, ..old(self)@ }),
    {
        self.saved_token = None;
    }

    pub fn get_double_previous_type(&self) -> (kind: &Option<TokenType>)
        ensures
            kind_view(*kind) == self@.double_previous_type,
    {
        &self.double_previous_type
    }

    pub fn set_can_declare(&mut self, can_declare: bool)
        ensures
            final(self)@ == (ParserView { can_declare, ..old(self)@ }),
    {
        self.can_declare = can_declare;
    }

    pub fn get_can_declare(&self) -> (can_declare: bool)
        ensures
            can_declare == self@.can_declare,
    {
        self.can_declare
    }

    pub fn get_previous(&self) -> (token: &Option<Token>)
        ensures
            token_view(*token) == self@.previous,
    {
        &self.previous
    }

    pub fn get_current(&self) -> (token: &Option<Token>)
        ensures
            token_view(*token) == self@.current,
    {
        &self.current
    }

    pub fn get_had_error(&self) -> (had_error: bool)
        ensures
            had_error == self@.had_error,
    {
        self.had_error
    }

    pub fn get_panic_mode(&self) -> (panic_mode: bool)
        ensures
            panic_mode == self@.panic_mode,
    {
        self.panic_mode
    }

    pub fn set_panic_mode(&mut self, mode: bool)
        ensures
            final(self)@ == (ParserView { panic_mode: mode, ..old(self)@ }),
    {
        self.panic_mode = mode;
    }

    /// The errors reported so far.
    pub fn get_diagnostics(&self) -> (list: &Vec<Diagnostic>)
        ensures
            diagnostic_views(list@) == self@.diagnostics,
    {
        &self.diagnostics
    }

    /// Hands over the errors reported so far.
    pub fn take_diagnostics(&mut self) -> (list: Vec<Diagnostic>)
        ensures
            diagnostic_views(list@) == old(self)@.diagnostics,
            final(self)@ == (ParserView { diagnostics: Seq::empty(), ..old(self)@ }),
    {
        let mut list: Vec<Diagnostic> = Vec::new();
        std::mem::swap(&mut list, &mut self.diagnostics);
        assert(self@.diagnostics =~= Seq::empty());
        list
    }

    /// Whether the current token is of a kind.
    pub fn check(&self, token_type: &TokenType) -> (r: bool)
        ensures
            r == (self@.current is Some && self@.current->0.kind == token_type@),
    {
        match &self.current {
            Some(token) => token.get_token_type().same(token_type),
            None => false,
        }
    }

    fn report(&mut self, line: Option<usize>, message: String)
        ensures
            final(self)@ == old(self)@.reported(line, message@),
    {
        if self.panic_mode {
            return;
        }
        self.had_error = true;
        self.panic_mode = true;
        self.diagnostics.push(Diagnostic { line, message });
        assert(self@.diagnostics =~= old(self)@.diagnostics.push(
            DiagnosticView { line, message: message@ },
        ));
    }

    /// Reports an error at the current token, unless the parser is in panic
    /// mode.
    pub fn report_error(&mut self, msg: &String)
        ensures
            final(self)@ == old(self)@.report_error(msg@),
    {
        let line = match &self.current {
            Some(token) => Some(token.get_line()),
            None => None,
        };
        self.report(line, msg.clone());
    }

    /// Reports an error at the saved token, unless the parser is in panic
    /// mode.
    pub fn report_error_at_saved_token(&mut self, msg: &String)
        ensures
            final(self)@ == old(self)@.report_error_at_saved_token(msg@),
    {
        let found = match &self.saved_token {
            Some(token) => Some((token.get_line(), token.get_token_type().as_str())),
            None => None,
        };
        match found {
            Some((line, name)) => self.report(Some(line), concat(msg.as_str(), name)),
            None => self.report(None, msg.clone()),
        }
    }

    fn pull(&mut self)
        requires
            old(self)@.lexer.wf(),
        ensures
            final(self)@ == old(self)@.pull(),
    {
        loop
            invariant
                self@.lexer.wf(),
                self@.pull() == old(self)@.pull(),
            decreases self@.lexer.source.len() - self@.lexer.current,
        {
            proof {
                lemma_scan(self@.lexer);
            }
            let token = self.lexer.scan_token();
            let message = match token.get_token_type() {
                TokenType::TokenError(msg) => Some(msg.clone()),
                _ => None,
            };
            self.current = Some(token);
            match message {
                Some(msg) => {
                    self.report_error(&msg);
                },
                None => {
                    return;
                },
            }
        }
    }

    /// Consumes the current token.
    pub fn advance(&mut self)
        requires
            old(self).wf(),
        ensures
            final(self)@ == old(self)@.advance(),
            final(self).wf(),
            final(self)@.lexer.source == old(self)@.lexer.source,
            final(self)@.measure() <= old(self)@.measure(),
            !old(self)@.at_end() ==> final(self)@.measure() < old(self)@.measure(),
            final(self)@.previous == old(self)@.current,
            old(self)@.aligned() ==> final(self)@.aligned(),
    {
        proof {
            lemma_advance(self@);
        }
        if let Some(previous) = &self.previous {
            self.double_previous_type = Some(previous.get_token_type().clone());
        }
        self.previous = self.current.take();
        self.pull();
    }

    /// Consumes the current token if it is of the given kind, and reports an
    /// error if it is not.
    pub fn consume(&mut self, token_type: TokenType, msg: &str)
        requires
            old(self).wf(),
        ensures
            final(self)@ == old(self)@.consume(token_type@, msg@),
            final(self).wf(),
            final(self)@.lexer.source == old(self)@.lexer.source,
            final(self)@.measure() <= old(self)@.measure(),
            old(self)@.aligned() ==> final(self)@.aligned(),
    {
        if self.check(&token_type) {
            self.advance();
        } else {
            let mut message = concat("Expected ", msg);
            message.append(" but got ");
            self.report_error(&message);
        }
    }
}

} // verus!
