//! Loops over lists.
use vstd::prelude::*;
use crate::lexer::{Token, clone_opt_token};
use crate::parser::ast::Expr;
use crate::parser::expression::{parse_single_expr, single_expr_error, simple_operand_at, operand_value};
use crate::parser::function_def::{tok_at, is_token_at};
use crate::parser::helper::body_scan;
use crate::parser::helper::expect_token;
use crate::parser::stream::{TokenStream, moved_on};
use crate::translations::parser_errors::ParserError;

verus! {

/// The head of a loop from position `i` on, where it follows from the
/// tokens: the variable's name and the position of the body, or the error
/// reading the head gives; `None` where the list iterated is more than a
/// literal.
pub open spec fn loop_head_spec(toks: Seq<Token>, i: int) -> Option<Result<(Seq<char>, int), ParserError>> {
    if !is_token_at(toks, i, Token::Loop) {
        Some(Err(ParserError::OtherError(Token::Loop, tok_at(toks, i))))
    } else if single_expr_error(tok_at(toks, i + 1)) is Some {
        Some(Err(single_expr_error(tok_at(toks, i + 1))->Some_0))
    } else if !simple_operand_at(toks, i + 1) {
        None
    } else if !is_token_at(toks, i + 2, Token::In) {
        Some(Err(ParserError::OtherError(Token::In, tok_at(toks, i + 2))))
    } else {
        match tok_at(toks, i + 3) {
            Some(Token::Identifier(n)) => if !is_token_at(toks, i + 4, Token::Newline) {
                Some(Err(ParserError::OtherError(Token::Newline, tok_at(toks, i + 4))))
            } else if !is_token_at(toks, i + 5, Token::Indent) {
                Some(Err(ParserError::OtherError(Token::Indent, tok_at(toks, i + 5))))
            } else {
                Some(Ok((n@, i + 6)))
            },
            other => Some(Err(ParserError::VariableName(other))),
        }
    }
}

/// Reads a loop (`parse_loop`): the loop keyword, the list iterated, `in`,
/// the variable name, a line break and the indented body.
#[verifier::loop_isolation(false)]
pub fn parse_loop(tokens: &mut TokenStream) -> (r: Result<Expr, ParserError>)
    requires
        old(tokens).wf(),
    ensures
        moved_on(*old(tokens), *final(tokens)),
        r is Ok ==> old(tokens).pos < final(tokens).pos,
        !(old(tokens).peek_spec() matches Some(Token::Loop)) ==> r is Err,
        r matches Ok(e) ==> e is Loop,
        match loop_head_spec(old(tokens).tokens@, old(tokens).pos as int) {
            Some(Err(e)) => r == Err::<Expr, ParserError>(e),
            Some(Ok((n, b))) => {
                &&& body_scan(old(tokens).tokens@, b) matches (j, true) ==> {
                    &&& r matches Ok(Expr::Loop { var_name, iterable, body }) && var_name@ == n
                        && *iterable == operand_value(old(tokens).tokens@, old(tokens).pos + 1) && body@.len() == 0
                    &&& final(tokens).pos == j
                }
                &&& body_scan(old(tokens).tokens@, b) matches (j, false) ==> {
                    &&& single_expr_error(Some(old(tokens).tokens@[j])) matches Some(e) ==> r == Err::<Expr, ParserError>(e)
                    &&& r matches Ok(Expr::Loop { body, .. }) ==> body@.len() >= 1
                }
            },
            None => true,
        },
    decreases old(tokens).remaining(), 0int,
{
    let ghost toks = old(tokens).tokens@;
    let ghost p0 = old(tokens).pos as int;
    match expect_token(tokens, Token::Loop) {
        Ok(_) => {},
        Err(e) => return Err(e),
    }
    let iterable = match parse_single_expr(tokens) {
        Ok(e) => e,
        Err(e) => return Err(e),
    };
    let ghost simple = simple_operand_at(toks, p0 + 1);
    match expect_token(tokens, Token::In) {
        Ok(_) => {},
        Err(e) => return Err(e),
    }
    let var_name = match tokens.next() {
        Some(Token::Identifier(name)) => name.clone(),
        other => return Err(ParserError::VariableName(clone_opt_token(other))),
    };
    match expect_token(tokens, Token::Newline) {
        Ok(_) => {},
        Err(e) => return Err(e),
    }
    match expect_token(tokens, Token::Indent) {
        Ok(_) => {},
        Err(e) => return Err(e),
    }
    let ghost b0 = tokens.pos as int;
    assert(simple ==> b0 == p0 + 6);
    let mut body: Vec<Expr> = Vec::new();
    loop
        invariant
            moved_on(*old(tokens), *tokens),
            old(tokens).pos < tokens.pos,
            toks == tokens.tokens@,
            simple ==> b0 == p0 + 6 && iterable == operand_value(toks, p0 + 1)
                && loop_head_spec(toks, p0) == Some(Ok::<(Seq<char>, int), ParserError>((var_name@, p0 + 6))),
            body@.len() == 0 ==> body_scan(toks, b0) == body_scan(toks, tokens.pos as int),
            body@.len() > 0 ==> !body_scan(toks, b0).1
                && 0 <= body_scan(toks, b0).0 < toks.len()
                && single_expr_error(Some(toks[body_scan(toks, b0).0])) is None,
        decreases tokens.remaining(),
    {
        match tokens.peek() {
            None => break,
            Some(Token::Dedent) => {
                tokens.next();
                break;
            },
            Some(Token::Newline) => {
                tokens.next();
            },
            Some(Token::Eof) => break,
            Some(_) => {
                let ghost p = tokens.pos;
                let expr = match parse_single_expr(tokens) {
                    Ok(e) => e,
                    Err(e) => return Err(e),
                };
                body.push(expr);
                loop
                    invariant
                        moved_on(*old(tokens), *tokens),
                        old(tokens).pos < tokens.pos,
                        p < tokens.pos,
                    decreases tokens.remaining(),
                {
                    match tokens.peek() {
                        Some(Token::Semicolon) | Some(Token::Newline) => {
                            tokens.next();
                        },
                        _ => break,
                    }
                }
            },
        }
    }
    Ok(Expr::Loop { var_name, iterable: Box::new(iterable), body })
}

} // verus!
