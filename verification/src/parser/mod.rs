pub mod ast;
pub mod builtin;
pub mod decl;
pub mod enums;
pub mod expression;
pub mod expressions;
pub mod function_def;
pub mod helper;
pub mod if_expr;
pub mod list;
pub mod loops;
pub mod match_expr;
pub mod method;
pub mod object;
pub mod op_expr;
pub mod parse_identifier;
pub mod stream;
pub mod structs;
pub mod template;
pub mod types;
pub mod union;

use vstd::prelude::*;
use crate::lexer::Token;
use crate::parser::ast::Program;
use crate::parser::expression::{all_blank, block_parsed, first_nonblank, is_literal_token, parse_expression_block};
use crate::parser::stream::TokenStream;
use crate::translations::parser_errors::ParserError;

verus! {

/// A parser over a program's tokens.
#[derive(Debug)]
pub struct Parser<'a> {
    pub tokens: &'a Vec<Token>,
}

impl<'a> Parser<'a> {
    /// A parser for the given tokens (`new`).
    pub fn new(tokens: &'a Vec<Token>) -> (p: Self)
        ensures
            p.tokens == tokens,
    {
        Self { tokens }
    }

    /// Parses the whole token list into a program (`parse`): the
    /// expressions of the top-level block, in order, each read where the
    /// tokens between statements before it end (`block_parsed`).
    pub fn parse(&mut self) -> (r: Result<Program, ParserError>)
        ensures
            final(self).tokens == old(self).tokens,
            all_blank(old(self).tokens@, 0) ==> (r matches Ok(p) && p.expressions@.len() == 0),
            ({
                let f = first_nonblank(old(self).tokens@, 0);
                f < old(self).tokens@.len() && is_literal_token(old(self).tokens@[f])
            }) ==> r matches Err(ParserError::LiteralAtTopLevel),
            r matches Ok(p) ==> block_parsed(old(self).tokens@, 0, p.expressions@),
    {
        let mut tokens = TokenStream::new(self.tokens);
        let ast = match parse_expression_block(&mut tokens) {
            Ok(v) => v,
            Err(e) => return Err(e),
        };
        Ok(Program { expressions: ast })
    }
}

} // verus!
