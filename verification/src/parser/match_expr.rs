//! `match` expressions.
use vstd::prelude::*;
use crate::lexer::{Token, clone_token, clone_opt_token, token_same};
use crate::parser::ast::Expr;
use crate::parser::expression::{parse_expression, parse_single_expr, single_expr_error, simple_operand_at,
    operand_value};
use crate::parser::function_def::{tok_at, is_token_at};
use crate::parser::helper::expect_token;
use crate::parser::stream::{TokenStream, moved_on};
use crate::translations::parser_errors::ParserError;

verus! {

/// The head of a `match` from position `i` on, where it follows from the
/// tokens: the position of its arms, or the error reading the head gives;
/// `None` where the value matched is more than a literal.
pub open spec fn match_head_spec(toks: Seq<Token>, i: int) -> Option<Result<int, ParserError>> {
    if single_expr_error(tok_at(toks, i)) is Some {
        Some(Err(single_expr_error(tok_at(toks, i))->Some_0))
    } else if !simple_operand_at(toks, i) {
        None
    } else if !(tok_at(toks, i + 1) matches Some(Token::Newline)) {
        Some(Err(ParserError::MatchError(tok_at(toks, i + 1))))
    } else if !is_token_at(toks, i + 2, Token::Indent) {
        Some(Err(ParserError::OtherError(Token::Indent, tok_at(toks, i + 2))))
    } else {
        Some(Ok(i + 3))
    }
}

/// Reading the arms of a `match` from position `i` over line breaks alone:
/// the position where they end at a dedent (after it), the end marker or
/// the end of the input (kind 0), where the first arm starts (kind 1), or
/// where a token no arm starts with stands (kind 2).
pub open spec fn arm_scan(toks: Seq<Token>, i: int) -> (int, int)
    decreases toks.len() - i,
{
    if i < 0 || i >= toks.len() {
        (i, 0)
    } else {
        match toks[i] {
            Token::Dedent => (i + 1, 0),
            Token::Newline => arm_scan(toks, i + 1),
            Token::Eof => (i, 0),
            Token::StringLiteral(_) | Token::Number(_) | Token::Underscore | Token::Identifier(_) => (i, 1),
            _ => (i, 2),
        }
    }
}

/// Reads a `match` after its keyword (`parse_match`): the value matched, a
/// line break, then an indented block of `pattern => expression` lines.
#[verifier::loop_isolation(false)]
pub fn parse_match(tokens: &mut TokenStream) -> (r: Result<Expr, ParserError>)
    requires
        old(tokens).wf(),
    ensures
        moved_on(*old(tokens), *final(tokens)),
        r is Ok ==> old(tokens).pos < final(tokens).pos,
        r matches Ok(e) ==> e matches Expr::Match { arms, .. }
            && forall|k: int| 0 <= k < arms@.len() ==> (#[trigger] arms@[k]).1@.len() == 1,
        match match_head_spec(old(tokens).tokens@, old(tokens).pos as int) {
            Some(Err(e)) => r == Err::<Expr, ParserError>(e),
            Some(Ok(b)) => {
                let (j, kind) = arm_scan(old(tokens).tokens@, b);
                &&& kind == 0 ==> {
                    &&& r matches Ok(Expr::Match { target, arms })
                        && *target == operand_value(old(tokens).tokens@, old(tokens).pos as int) && arms@.len() == 0
                    &&& final(tokens).pos == j
                }
                &&& kind == 2 ==> r == Err::<Expr, ParserError>(ParserError::MatchUnknownToken(old(tokens).tokens@[j]))
                &&& kind == 1 ==> {
                    &&& simple_operand_at(old(tokens).tokens@, j) && !is_token_at(old(tokens).tokens@, j + 1, Token::Arrow)
                        ==> r == Err::<Expr, ParserError>(ParserError::OtherError(Token::Arrow, tok_at(old(tokens).tokens@, j + 1)))
                    &&& r matches Ok(Expr::Match { arms, .. }) ==> arms@.len() >= 1
                }
            },
            None => true,
        },
    decreases old(tokens).remaining(), 4int,
{
    let ghost toks = old(tokens).tokens@;
    let ghost p0 = old(tokens).pos as int;
    let target = Box::new(match parse_single_expr(tokens) {
        Ok(e) => e,
        Err(e) => return Err(e),
    });
    let ghost simple = simple_operand_at(toks, p0);
    match tokens.peek() {
        Some(Token::Newline) => {
            tokens.next();
        },
        other => {
            return Err(ParserError::MatchError(clone_opt_token(other)));
        },
    }
    let mut arms: Vec<(Expr, Vec<Expr>)> = Vec::new();
    match expect_token(tokens, Token::Indent) {
        Ok(_) => {},
        Err(e) => return Err(e),
    }
    let ghost b0 = tokens.pos as int;
    loop
        invariant
            moved_on(*old(tokens), *tokens),
            old(tokens).pos < tokens.pos,
            forall|k: int| 0 <= k < arms@.len() ==> (#[trigger] arms@[k]).1@.len() == 1,
            toks == tokens.tokens@,
            simple ==> b0 == p0 + 3 && *target == operand_value(toks, p0)
                && match_head_spec(toks, p0) == Some(Ok::<int, ParserError>(p0 + 3)),
            arms@.len() == 0 ==> arm_scan(toks, b0) == arm_scan(toks, tokens.pos as int),
            arms@.len() > 0 ==> arm_scan(toks, b0).1 == 1 && !(simple_operand_at(toks, arm_scan(toks, b0).0)
                && !is_token_at(toks, arm_scan(toks, b0).0 + 1, Token::Arrow)),
        decreases tokens.remaining(),
    {
        match tokens.peek() {
            None => break,
            Some(Token::StringLiteral(_)) | Some(Token::Number(_)) | Some(Token::Underscore)
            | Some(Token::Identifier(_)) => {
                let pattern = match parse_single_expr(tokens) {
                    Ok(e) => e,
                    Err(e) => return Err(e),
                };
                match expect_token(tokens, Token::Arrow) {
                    Ok(_) => {},
                    Err(e) => return Err(e),
                }
                let expr = match parse_expression(tokens) {
                    Ok(e) => e,
                    Err(e) => return Err(e),
                };
                arms.push((pattern, vec![expr]));
                match expect_token(tokens, Token::Newline) {
                    Ok(_) => {},
                    Err(e) => return Err(e),
                }
            },
            Some(Token::Dedent) => {
                tokens.next();
                break;
            },
            Some(Token::Newline) => {
                tokens.next();
            },
            Some(Token::Eof) => break,
            Some(unexpected) => {
                return Err(ParserError::MatchUnknownToken(clone_token(unexpected)));
            },
        }
    }
    Ok(Expr::Match { target, arms })
}

} // verus!
