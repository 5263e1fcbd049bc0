//! Methods inside struct and union types.
use vstd::prelude::*;
use crate::lexer::{Token, clone_opt_token, token_same};
use crate::parser::ast::{Expr, Parameter, Type};
use crate::parser::expression::{parse_single_expr, single_expr_error};
use crate::parser::function_def::{tok_at, is_token_at};
use crate::parser::helper::body_scan;
use crate::parser::stream::{TokenStream, moved_on};
use crate::translations::parser_errors::ParserError;

verus! {

/// Reads the next token, which must be `expected`; the error names the
/// expected and the found token.
fn expect_method_token(tokens: &mut TokenStream, expected: Token) -> (r: Result<(), ParserError>)
    requires
        old(tokens).wf(),
    ensures
        moved_on(*old(tokens), *final(tokens)),
        final(tokens).pos == if old(tokens).pos < old(tokens).tokens@.len() {
            old(tokens).pos + 1
        } else {
            old(tokens).pos as int
        },
        r is Ok <==> (old(tokens).peek_spec() matches Some(t) && token_same(t, expected)),
        r is Err ==> r == Err::<(), ParserError>(ParserError::OtherError(expected, old(tokens).peek_spec())),
{
    crate::parser::helper::expect_token(tokens, expected)
}

/// The head of a method from position `i` on: the `method` keyword, a
/// name, `()`, a line break and an indent; the position of the body, or
/// the error reading the head gives.
pub open spec fn method_head_spec(toks: Seq<Token>, i: int) -> Result<int, ParserError> {
    if !is_token_at(toks, i, Token::Method) {
        Err(ParserError::OtherError(Token::Method, tok_at(toks, i)))
    } else {
        match tok_at(toks, i + 1) {
            Some(Token::Identifier(_)) => if !is_token_at(toks, i + 2, Token::LParen) {
                Err(ParserError::OtherError(Token::LParen, tok_at(toks, i + 2)))
            } else if !is_token_at(toks, i + 3, Token::RParen) {
                Err(ParserError::OtherError(Token::RParen, tok_at(toks, i + 3)))
            } else if !is_token_at(toks, i + 4, Token::Newline) {
                Err(ParserError::OtherError(Token::Newline, tok_at(toks, i + 4)))
            } else if !is_token_at(toks, i + 5, Token::Indent) {
                Err(ParserError::OtherError(Token::Indent, tok_at(toks, i + 5)))
            } else {
                Ok(i + 6)
            },
            other => Err(ParserError::MethodName(other)),
        }
    }
}

/// Reads a method (`parse_method`): the `method` keyword, a name, `()`, a
/// line break, an indented body up to the end of the block. The method gets
/// the single parameter `self` and no return type.
#[verifier::loop_isolation(false)]
pub fn parse_method(tokens: &mut TokenStream)
    -> (r: Result<(String, Vec<Parameter>, Vec<Expr>, Option<Type>), ParserError>)
    requires
        old(tokens).wf(),
    ensures
        moved_on(*old(tokens), *final(tokens)),
        r is Ok ==> old(tokens).pos < final(tokens).pos,
        r matches Ok((name, params, body, ret)) ==>
            (params@.len() == 1 && params@[0].name@ == "self"@ && params@[0].typ@ == crate::parser::ast::TypeV::Any
            && !params@[0].is_mutable && !params@[0].is_pointer && ret is None
            && (old(tokens).at(old(tokens).pos + 1) matches Some(Token::Identifier(n)) && name == n)),
        match method_head_spec(old(tokens).tokens@, old(tokens).pos as int) {
            Err(e) => r == Err::<(String, Vec<Parameter>, Vec<Expr>, Option<Type>), ParserError>(e),
            Ok(b) => {
                &&& body_scan(old(tokens).tokens@, b) matches (j, true) ==>
                    (r matches Ok((_, _, body, _)) && body@.len() == 0 && final(tokens).pos == j)
                &&& body_scan(old(tokens).tokens@, b) matches (j, false) ==> {
                    &&& single_expr_error(Some(old(tokens).tokens@[j])) matches Some(e)
                        ==> r == Err::<(String, Vec<Parameter>, Vec<Expr>, Option<Type>), ParserError>(e)
                    &&& r matches Ok((_, _, body, _)) ==> body@.len() >= 1
                }
            },
        },
    decreases old(tokens).remaining(), 0int,
{
    let ghost toks = old(tokens).tokens@;
    let ghost p0 = old(tokens).pos as int;
    match expect_method_token(tokens, Token::Method) {
        Ok(_) => {},
        Err(e) => return Err(e),
    }
    let name = match tokens.next() {
        Some(Token::Identifier(n)) => n.clone(),
        other => return Err(ParserError::MethodName(clone_opt_token(other))),
    };
    match expect_method_token(tokens, Token::LParen) {
        Ok(_) => {},
        Err(e) => return Err(e),
    }
    match expect_method_token(tokens, Token::RParen) {
        Ok(_) => {},
        Err(e) => return Err(e),
    }
    let return_type: Option<Type> = None;
    match expect_method_token(tokens, Token::Newline) {
        Ok(_) => {},
        Err(e) => return Err(e),
    }
    match expect_method_token(tokens, Token::Indent) {
        Ok(_) => {},
        Err(e) => return Err(e),
    }
    assert(tokens.pos == p0 + 6);
    let mut body: Vec<Expr> = Vec::new();
    loop
        invariant
            moved_on(*old(tokens), *tokens),
            old(tokens).pos < tokens.pos,
            toks == tokens.tokens@,
            method_head_spec(toks, p0) == Ok::<int, ParserError>(p0 + 6),
            body@.len() == 0 ==> body_scan(toks, p0 + 6) == body_scan(toks, tokens.pos as int),
            body@.len() > 0 ==> !body_scan(toks, p0 + 6).1
                && 0 <= body_scan(toks, p0 + 6).0 < toks.len()
                && single_expr_error(Some(toks[body_scan(toks, p0 + 6).0])) is None,
        decreases tokens.remaining(),
    {
        match tokens.peek() {
            None => break,
            Some(Token::Dedent) => {
                tokens.next();
                break;
            },
            Some(Token::Newline) => {
                tokens.next();
            },
            Some(Token::Eof) => break,
            Some(_) => {
                let ghost p = tokens.pos;
                let expr = match parse_single_expr(tokens) {
                    Ok(e) => e,
                    Err(e) => return Err(e),
                };
                body.push(expr);
                loop
                    invariant
                        moved_on(*old(tokens), *tokens),
                        old(tokens).pos < tokens.pos,
                        p < tokens.pos,
                    decreases tokens.remaining(),
                {
                    match tokens.peek() {
                        Some(Token::Semicolon) | Some(Token::Newline) => {
                            tokens.next();
                        },
                        _ => break,
                    }
                }
            },
        }
    }
    proof { reveal_strlit("self"); }
    let params = vec![Parameter {
        name: String::from_str("self"),
        typ: Type::Any,
        is_mutable: false,
        is_pointer: false,
    }];
    Ok((name, params, body, return_type))
}

} // verus!
