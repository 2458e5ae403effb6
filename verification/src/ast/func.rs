//! Function definitions.

use vstd::prelude::*;

verus! {

/// The body of a function: a block of the language, held as a `B`, or the
/// name of a native implementation, as decoded from a string literal.
#[derive(Debug)]
pub enum FuncBody<B> {
    Block(B),
    Native(String),
}

/// A function definition.
#[derive(Debug)]
pub struct FuncDef<B> {
    pub ident: String,
    pub ret_type: Option<String>,
    pub body: FuncBody<B>,
}

} // verus!
