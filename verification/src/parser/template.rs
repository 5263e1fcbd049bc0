//! Template strings: literal pieces and `{expression}` pieces up to the
//! closing backtick.
use vstd::prelude::*;
use crate::lexer::{Token, clone_token};
use crate::parser::ast::{Expr, TemplateChunk};
use crate::parser::expression::parse_expression;
use crate::parser::stream::{TokenStream, moved_on};
use crate::translations::parser_errors::ParserError;

verus! {

/// Reads the pieces of a template string after its opening backtick, up to
/// and including the closing one (`parse_template_string_expr`).
pub fn parse_template_string_expr(tokens: &mut TokenStream) -> (r: Result<Expr, ParserError>)
    requires
        old(tokens).wf(),
    ensures
        moved_on(*old(tokens), *final(tokens)),
        r is Ok ==> old(tokens).pos < final(tokens).pos,
        r matches Ok(e) ==> e is TemplateString,
        old(tokens).peek_spec() is None ==> r == Err::<Expr, ParserError>(ParserError::Eof),
        old(tokens).peek_spec() matches Some(Token::Backtick)
            ==> r matches Ok(Expr::TemplateString(chunks)) && chunks@.len() == 0
                && final(tokens).pos == old(tokens).pos + 1,
    decreases old(tokens).remaining(), 0int,
{
    let mut chunks: Vec<TemplateChunk> = Vec::new();
    loop
        invariant_except_break
            old(tokens).peek_spec() matches Some(Token::Backtick) ==> tokens.pos == old(tokens).pos,
        invariant
            moved_on(*old(tokens), *tokens),
            tokens.pos == old(tokens).pos ==> chunks@.len() == 0,
        ensures
            moved_on(*old(tokens), *tokens),
            tokens.pos < tokens.tokens@.len(),
            old(tokens).peek_spec() matches Some(Token::Backtick) ==> chunks@.len() == 0
                && tokens.pos == old(tokens).pos,
        decreases tokens.remaining(),
    {
        let token = match tokens.peek() {
            Some(t) => t,
            None => return Err(ParserError::Eof),
        };
        match token {
            Token::StringLiteral(s) => {
                chunks.push(TemplateChunk::Literal(s.clone()));
                tokens.next();
            },
            Token::InterpolationStart => {
                let ghost p = tokens.pos;
                tokens.next();
                loop
                    invariant
                        moved_on(*old(tokens), *tokens),
                        old(tokens).pos < tokens.pos,
                        p < tokens.pos,
                        old(tokens).peek_spec() matches Some(Token::Backtick) ==> false,
                    decreases tokens.remaining(),
                {
                    match tokens.peek() {
                        Some(Token::InterpolationEnd) => {
                            tokens.next();
                            break;
                        },
                        Some(_) => {
                            let e = parse_expression(tokens)?;
                            chunks.push(TemplateChunk::Expr(Box::new(e)));
                        },
                        None => {
                            return Err(ParserError::Eof);
                        },
                    }
                }
            },
            Token::Backtick => {
                break;
            },
            other => {
                return Err(ParserError::TemplateTokenNotFound(clone_token(other)));
            },
        }
    }
    tokens.next();
    Ok(Expr::TemplateString(chunks))
}

} // verus!
