//! Decoding of string literals and the errors of one parse attempt.

pub mod encoding;
pub mod error;
pub mod escape;
pub mod string_literal;
