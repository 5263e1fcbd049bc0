use vstd::prelude::*;

pub mod text;
pub mod dict;
pub mod lexer;
pub mod parser;
pub mod translations;
pub mod validator;
pub mod transpiler;
pub mod runner;
pub mod utils;
pub mod imports;

verus! {
} // verus!
