use vstd::prelude::*;

pub mod span;
pub mod token;
pub mod ast;
pub mod error;
pub mod text;
pub mod lexer;
pub mod parser;
pub mod scope;
pub mod typechecker;
pub mod compiler;
pub mod render;

verus! {

} // verus!
