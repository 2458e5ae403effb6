//! The lexical core of a small language front-end.
//!
//! - [`base::pos`]: byte positions, spans over them, and values tagged with a
//!   span.
//! - [`parser::string_literal`]: decoding of the escape sequences in the inner
//!   text of a string literal, with failures placed at a byte offset.
//! - [`parser::escape`]: what decoding means, as a function on bytes, and the
//!   laws that hold of it.
//! - [`parser::error`]: classified errors, the failures of the parsing engine,
//!   and the located error that stands for each.
//! - [`ast`]: the nodes of the syntax tree that hold decoded text.

pub mod ast;
pub mod base;
pub mod parser;
