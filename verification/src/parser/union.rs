//! Union type definitions.
use vstd::prelude::*;
use crate::lexer::{Token, clone_token, clone_opt_token};
use crate::parser::ast::{Expr, MethodType, Type};
use crate::parser::helper::{expect_token, skip_newlines};
use crate::parser::method::parse_method;
use crate::parser::stream::{TokenStream, moved_on};
use crate::parser::types::parse_type;
use crate::translations::parser_errors::ParserError;

verus! {

/// Reads a union type after its keyword (`parse_union_type`): a name, a
/// line break, then an indented block of `field: type` lines and methods.
#[verifier::loop_isolation(false)]
pub fn parse_union_type(tokens: &mut TokenStream) -> (r: Result<Expr, ParserError>)
    requires
        old(tokens).wf(),
    ensures
        moved_on(*old(tokens), *final(tokens)),
        r is Ok ==> old(tokens).pos < final(tokens).pos,
        !(old(tokens).peek_spec() matches Some(Token::Identifier(_)))
            ==> r == Err::<Expr, ParserError>(ParserError::UnionNameNotFound(old(tokens).peek_spec())),
        r matches Ok(e) ==> e matches Expr::UnionType { name, transpiled_name: None, .. }
            && old(tokens).peek_spec() matches Some(Token::Identifier(n)) && name == n,
    decreases old(tokens).remaining(), 0int,
{
    let name = match tokens.next() {
        Some(Token::Identifier(name)) => name.clone(),
        other => return Err(ParserError::UnionNameNotFound(clone_opt_token(other))),
    };
    expect_token(tokens, Token::Newline)?;
    let mut fields: Vec<(String, Type)> = Vec::new();
    let mut methods: Vec<MethodType> = Vec::new();
    expect_token(tokens, Token::Indent)?;
    loop
        invariant
            moved_on(*old(tokens), *tokens),
            old(tokens).pos < tokens.pos,
        decreases tokens.remaining(),
    {
        match tokens.peek() {
            None => break,
            Some(Token::Identifier(field_name)) => {
                let field_name = field_name.clone();
                tokens.next();
                expect_token(tokens, Token::Colon)?;
                let field_type = parse_type(tokens)?;
                fields.push((field_name, field_type));
                skip_newlines(tokens)?;
            },
            Some(Token::Method) => {
                let (m_name, m_params, m_body, m_ret) = parse_method(tokens)?;
                methods.push(MethodType {
                    name: m_name,
                    params: m_params,
                    body: m_body,
                    return_type: m_ret,
                    transpiled_name: None,
                    is_allocator: false,
                });
                skip_newlines(tokens)?;
            },
            Some(Token::Dedent) => {
                tokens.next();
                break;
            },
            Some(Token::Eof) => break,
            Some(other) => {
                return Err(ParserError::UnionUnknownToken(clone_token(other)));
            },
        }
    }
    Ok(Expr::UnionType { name, transpiled_name: None, fields, methods })
}

} // verus!
