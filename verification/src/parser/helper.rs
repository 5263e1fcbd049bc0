//! Small steps shared by the parsing functions.
use vstd::prelude::*;
use crate::lexer::{Token, token_same, token_eq, clone_token, clone_opt_token};
use crate::parser::stream::TokenStream;
use crate::translations::parser_errors::ParserError;

verus! {

/// Whether a token is a line break.
pub open spec fn is_newline(t: Token) -> bool {
    t is Newline
}

/// The first position at or after `i` whose token is not a line break.
pub open spec fn skip_newlines_spec(toks: Seq<Token>, i: int) -> int
    decreases toks.len() - i,
{
    if 0 <= i < toks.len() && is_newline(toks[i]) {
        skip_newlines_spec(toks, i + 1)
    } else {
        i
    }
}

/// Steps over line breaks.
pub fn skip_newlines(tokens: &mut TokenStream) -> (r: Result<(), ParserError>)
    requires
        old(tokens).wf(),
    ensures
        r is Ok,
        final(tokens).wf(),
        final(tokens).tokens == old(tokens).tokens,
        final(tokens).pos == skip_newlines_spec(old(tokens).tokens@, old(tokens).pos as int),
        old(tokens).pos <= final(tokens).pos,
{
    let ghost start = tokens.pos as int;
    while matches!(tokens.peek(), Some(Token::Newline))
        invariant
            tokens.wf(),
            tokens.tokens == old(tokens).tokens,
            start <= tokens.pos,
            skip_newlines_spec(tokens.tokens@, start) == skip_newlines_spec(tokens.tokens@, tokens.pos as int),
        decreases tokens.remaining(),
    {
        tokens.next();
    }
    Ok(())
}

/// Reads the next token, which must be `expected`.
pub fn expect_token(tokens: &mut TokenStream, expected: Token) -> (r: Result<(), ParserError>)
    requires
        old(tokens).wf(),
    ensures
        final(tokens).wf(),
        final(tokens).tokens == old(tokens).tokens,
        final(tokens).pos == if old(tokens).pos < old(tokens).tokens@.len() {
            old(tokens).pos + 1
        } else {
            old(tokens).pos as int
        },
        r is Ok <==> (old(tokens).peek_spec() matches Some(t) && token_same(t, expected)),
        r is Err ==> r == Err::<(), ParserError>(ParserError::OtherError(expected, old(tokens).peek_spec())),
{
    match tokens.next() {
        Some(t) if token_eq(t, &expected) => Ok(()),
        other => Err(ParserError::OtherError(expected, clone_opt_token(other))),
    }
}

/// Reading a body from position `i` over line breaks alone: the position
/// where it ends at a dedent (after it), the end marker or the end of the
/// input (`true`), or where its first expression starts (`false`).
pub open spec fn body_scan(toks: Seq<Token>, i: int) -> (int, bool)
    decreases toks.len() - i,
{
    if i < 0 || i >= toks.len() {
        (i, true)
    } else {
        match toks[i] {
            Token::Dedent => (i + 1, true),
            Token::Newline => body_scan(toks, i + 1),
            Token::Eof => (i, true),
            _ => (i, false),
        }
    }
}

} // verus!


verus! {

use crate::parser::ast::{Expr, Type};
use crate::parser::expression::parse_single_expr;
use crate::parser::stream::{parsed, moved_on};

/// The expression a literal token stands for, before any `.` after it.
pub open spec fn literal_head(t: Token, e: Expr) -> bool {
    match t {
        Token::StringLiteral(s) => e matches Expr::String(x, false) && x == s,
        Token::Number(n) => e == Expr::Number(n),
        Token::Float(f) => e == Expr::Float(f),
        _ => false,
    }
}

/// Reads a literal `token` and the `.field` and `.method(args)` accesses
/// after it (`literals_parse`).
#[verifier::loop_isolation(false)]
pub fn literals_parse(token: &Token, tokens: &mut TokenStream) -> (r: Result<Expr, ParserError>)
    requires
        old(tokens).wf(),
    ensures
        moved_on(*old(tokens), *final(tokens)),
        !(token is StringLiteral || token is Number || token is Float)
            ==> r == Err::<Expr, ParserError>(ParserError::LiteralNotFound(*token)),
        (token is StringLiteral || token is Number || token is Float)
            && !(old(tokens).peek_spec() matches Some(Token::Dot))
            ==> (r matches Ok(e) && literal_head(*token, e) && final(tokens).pos == old(tokens).pos),
    decreases old(tokens).remaining(), 0int,
{
    let mut expr = match token {
        Token::StringLiteral(s) => Expr::String(s.clone(), false),
        Token::Number(num) => Expr::Number(*num),
        Token::Float(num) => Expr::Float(*num),
        _ => return Err(ParserError::LiteralNotFound(clone_token(token))),
    };
    loop
        invariant
            moved_on(*old(tokens), *tokens),
            !(old(tokens).peek_spec() matches Some(Token::Dot))
                ==> literal_head(*token, expr) && tokens.pos == old(tokens).pos,
        decreases tokens.remaining(),
    {
        match tokens.peek() {
            Some(Token::Dot) => {},
            _ => break,
        }
        tokens.next();
        let field_or_method = match tokens.next() {
            Some(Token::Identifier(name)) => name.clone(),
            other => {
                return Err(ParserError::OperatorError('.', clone_opt_token(other)));
            },
        };
        match tokens.peek() {
            Some(Token::LParen) => {
                let ghost p = tokens.pos;
                tokens.next();
                let mut args: Vec<Expr> = Vec::new();
                loop
                    invariant
                        moved_on(*old(tokens), *tokens),
                        old(tokens).pos < tokens.pos,
                        p < tokens.pos,
                    decreases tokens.remaining(),
                {
                    match tokens.peek() {
                        None => break,
                        Some(Token::RParen) => {
                            tokens.next();
                            break;
                        },
                        Some(Token::Comma) => {
                            tokens.next();
                        },
                        Some(_) => {
                            let arg = parse_single_expr(tokens)?;
                            args.push(arg);
                        },
                    }
                }
                expr = Expr::Call {
                    target: Some(Box::new(expr)),
                    name: field_or_method,
                    args,
                    returned_type: Some(Type::Any),
                    is_allocator: false,
                    transpiled_name: None,
                };
            },
            _ => {
                expr = Expr::Index {
                    target: Box::new(expr),
                    index: Box::new(Expr::String(field_or_method, false)),
                    target_type: Type::Any,
                };
            },
        }
    }
    Ok(expr)
}

} // verus!
