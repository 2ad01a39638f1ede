//! The compiler: from a source to a chunk of bytecode, in one pass.
use vstd::prelude::*;
use vstd::string::*;
use crate::chunk::Chunk;
use crate::float::{FloatMemo, FloatTask};
use crate::opcodes::OpCode;
use crate::parser::{Diagnostic, Parser, diagnostic_views};
use crate::token::token_type::TokenType;
use self::spec::{CompileFailedView, CompilerView, compile as compile_spec};

pub mod laws;
pub mod spec;

mod core_methods;
mod helper_methods;

verus! {

/// Why a source gave no chunk.
#[derive(Debug, PartialEq, Eq)]
pub enum CompileFailed {
    /// The source has errors: these.
    Syntax(Vec<Diagnostic>),
    /// A number literal is to be read as a float and the memo lacks its
    /// value: the host is to read it and compile again.
    Float(FloatTask),
}

impl View for CompileFailed {
    type V = CompileFailedView;

    open spec fn view(&self) -> CompileFailedView {
        match self {
            CompileFailed::Syntax(list) => CompileFailedView::Syntax(diagnostic_views(list@)),
            CompileFailed::Float(task) => CompileFailedView::Float(task@),
        }
    }
}

/// A compiler over a source, with the chunk that it writes.
#[derive(Debug)]
pub struct Compiler<'a> {
    parser: Parser<'a>,
    compiling_chunk: Chunk,
    pending: Option<FloatTask>,
}

impl<'a> View for Compiler<'a> {
    type V = CompilerView;

    closed spec fn view(&self) -> CompilerView {
        CompilerView {
            parser: self.parser@,
            chunk: self.compiling_chunk@,
            pending: match self.pending {
                Some(task) => Some(task@),
                None => None,
            },
        }
    }
}

impl<'a> Compiler<'a> {
    /// The parser and the chunk are well formed. `new` gives such a compiler
    /// and every method keeps it so.
    pub open spec fn wf(&self) -> bool {
        self@.wf()
    }

    /// What every method keeps: the compiler stays well formed, over the
    /// same source, and has no more left to parse than before; and the
    /// spans of its tokens stay text of the source.
    pub open spec fn kept(&self, before: &Self) -> bool {
        &&& self.wf()
        &&& self@.source() == before@.source()
        &&& self@.measure() <= before@.measure()
        &&& (before@.parser.aligned() ==> self@.parser.aligned())
    }

    /// A compiler at the start of a source, to write to a chunk.
    pub fn new(source: &'a str, chunk: Chunk) -> (compiler: Self)
        requires
            source.spec_bytes().len() < usize::MAX,
            chunk.wf(),
        ensures
            compiler@ == (CompilerView {
                chunk: chunk@,
                ..CompilerView::initial(source.spec_bytes())
            }),
            compiler.wf(),
            compiler@.parser.aligned(),
    {
        let parser = Parser::new(source);
        Self { parser, compiling_chunk: chunk, pending: None }
    }

    /// Compiles the whole source and says whether it has errors.
    pub fn compile(&mut self, memo: &FloatMemo) -> (had_error: bool)
        requires
            old(self).wf(),
        ensures
            final(self)@ == old(self)@.compile(memo@),
            had_error == final(self)@.parser.had_error,
            final(self).wf(),
    {
        loop
            invariant_except_break
                self@.declarations(memo@) == old(self)@.declarations(memo@),
            invariant
                self.wf(),
                old(self).wf(),
            ensures
                self@ == old(self)@.declarations(memo@),
            decreases self@.measure(),
        {
            let ghost before = self@;
            if self.is_match(&TokenType::TokenEof) {
                assert(self@ == before.declarations(memo@));
                break;
            }
            self.declaration(memo);
            assert(self@.follows(before));
            assert(before.declarations(memo@) == self@.declarations(memo@));
        }
        self.consume(TokenType::TokenEof, "Expected end of expression");
        self.end_compiler();
        self.parser.get_had_error()
    }

    /// Writes the instruction that ends the chunk.
    pub fn end_compiler(&mut self)
        requires
            old(self).wf(),
        ensures
            final(self)@ == old(self)@.emit_byte(OpCode::OpReturn.byte()),
            final(self).kept(old(self)),
    {
        self.emit_return();
    }

    /// What the compilation gave: the chunk, or why there is none.
    pub fn finish(self) -> (r: Result<Chunk, CompileFailed>)
        ensures
            match self@.outcome() {
                Ok(chunk) => r is Ok && r->Ok_0@ == chunk,
                Err(failed) => r is Err && r->Err_0@ == failed,
            },
            self.wf() && r is Ok ==> r->Ok_0.wf(),
    {
        let mut compiler = self;
        match compiler.pending {
            Some(task) => Err(CompileFailed::Float(task)),
            None => if compiler.parser.get_had_error() {
                Err(CompileFailed::Syntax(compiler.parser.take_diagnostics()))
            } else {
                Ok(compiler.compiling_chunk)
            },
        }
    }
}

/// Compiles a source to a chunk. Number literals that are floats get their
/// values from the memo; where the memo lacks one, the result is the task of
/// reading it.
pub fn compile(source: &str, memo: &FloatMemo) -> (r: Result<Chunk, CompileFailed>)
    requires
        source.spec_bytes().len() < usize::MAX,
    ensures
        match compile_spec(source.spec_bytes(), memo@) {
            Ok(chunk) => r is Ok && r->Ok_0@ == chunk,
            Err(failed) => r is Err && r->Err_0@ == failed,
        },
        r is Ok ==> r->Ok_0.wf(),
{
    let mut compiler = Compiler::new(source, Chunk::new());
    compiler.compile(memo);
    compiler.finish()
}

} // verus!
