//! Nodes of the syntax tree.

mod func;

pub use func::FuncBody;
pub use func::FuncDef;
