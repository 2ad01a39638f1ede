//! A scanner, a single-pass compiler to bytecode, and a stack machine for a
//! small dynamically typed scripting language.
//!
//! A source is scanned on demand ([`lexer`]), parsed by precedence climbing
//! and compiled to a [`chunk`] as it is parsed ([`parser`], [`compiler`],
//! [`parse_rule`]), and the chunk is executed by the machine ([`vm`]). The
//! language has expressions over numbers, strings, booleans and `null`,
//! strings with interpolated expressions, `print`, and global variables.
//! A variable is declared with `let` or `mut` before its name and `=` after
//! it, as in `let x = 1` and `mut n = 0`; only one declared with `mut` can
//! be assigned again.
//!
//! Every function states what it computes, over the bytes of the source and
//! over views of the values, and is proved to compute it. Two things are not
//! done here and are left to the host, which gets them described and hands
//! the results in:
//!
//! - Arithmetic on binary64 floats. A float is held as its bit pattern, and
//!   an operation on floats is a [`float::FloatTask`]. A function that needs
//!   the result of a task reads it from the [`float::FloatMemo`] that it is
//!   given; where the memo has none, the function says which task is to be
//!   done and changes nothing, so that it can be called again with the
//!   answer.
//! - Printing. What a program prints, and every report of an error, is
//!   gathered as [`vm::Output`] and taken by the host.
//!
//! The compiler writes the short form of the instruction that pushes a
//! constant, and more than 256 constants in one chunk are an error of the
//! source. The machine reads the long form as well, with an index of three
//! bytes, from chunks that were assembled in another way.
pub mod arith;
pub mod chunk;
pub mod compiler;
pub mod float;
pub mod globals;
pub mod lexer;
pub mod number;
pub mod opcodes;
pub mod parse_rule;
pub mod parser;
pub mod precedence;
pub mod text;
pub mod token;
pub mod unicode;
pub mod util;
pub mod value;
pub mod vm;
