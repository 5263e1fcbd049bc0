//! Struct values: `Name { field: value, ... }`.
use vstd::prelude::*;
use crate::lexer::Token;
use crate::parser::ast::Expr;
use crate::parser::expression::{operand_value, parse_single_expr, simple_operand_at, single_expr_error};
use crate::parser::function_def::tok_at;
use crate::parser::stream::{TokenStream, moved_on};
use crate::translations::parser_errors::ParserError;

verus! {

/// Whether the first field starting at `j` is a name, a colon and a
/// single literal.
pub open spec fn first_field_simple(toks: Seq<Token>, j: int) -> bool {
    &&& tok_at(toks, j) matches Some(Token::Identifier(_))
    &&& tok_at(toks, j + 1) matches Some(Token::Colon)
    &&& simple_operand_at(toks, j + 2)
}

/// What the fields of a struct value named `name` starting at `j` give,
/// where the tokens decide it, with `end` the position after them: no
/// field before `}`; one field `f: literal` before `}`; the errors of a
/// missing field name, a missing colon, the value's first token, and of
/// what follows the first value.
pub open spec fn struct_init_outcome(name: String, toks: Seq<Token>, j: int, r: Result<Expr, ParserError>,
    end: int) -> bool {
    match tok_at(toks, j) {
        Some(Token::RBrace) => r matches Ok(Expr::StructInit { name: n, transpiled_name: None, args })
            && n == name && args@.len() == 0 && end == j + 1,
        None => r matches Ok(Expr::StructInit { name: n, transpiled_name: None, args })
            && n == name && args@.len() == 0,
        Some(Token::Identifier(f)) => {
            &&& !(tok_at(toks, j + 1) matches Some(Token::Colon))
                ==> r == Err::<Expr, ParserError>(ParserError::StructInitColonError)
            &&& tok_at(toks, j + 1) matches Some(Token::Colon) ==> {
                &&& single_expr_error(tok_at(toks, j + 2)) matches Some(e) ==> r == Err::<Expr, ParserError>(e)
                &&& simple_operand_at(toks, j + 2) ==> {
                    &&& tok_at(toks, j + 3) matches Some(Token::RBrace) ==> {
                        &&& r matches Ok(Expr::StructInit { name: n, transpiled_name: None, args })
                            && n == name && args@.len() == 1 && args@[0].0 == f
                            && args@[0].1 == operand_value(toks, j + 2)
                        &&& end == j + 4
                    }
                    &&& !(tok_at(toks, j + 3) matches Some(Token::RBrace) || tok_at(toks, j + 3) matches Some(Token::Comma))
                        ==> r == Err::<Expr, ParserError>(ParserError::StructInitError)
                }
            }
        },
        Some(_) => r == Err::<Expr, ParserError>(ParserError::StructInitError),
    }
}

/// Reads the `field: value` pairs of a struct value after its `{`, up to the
/// `}` (`parse_structs_init`).
pub fn parse_structs_init(tokens: &mut TokenStream, name: String) -> (r: Result<Expr, ParserError>)
    requires
        old(tokens).wf(),
    ensures
        moved_on(*old(tokens), *final(tokens)),
        r matches Ok(e) ==> e matches Expr::StructInit { name: n, transpiled_name: None, .. } && n == name,
        old(tokens).peek_spec() matches Some(Token::RBrace) ==> r matches Ok(Expr::StructInit { args, .. })
            && args@.len() == 0 && final(tokens).pos == old(tokens).pos + 1,
        struct_init_outcome(name, old(tokens).tokens@, old(tokens).pos as int, r, final(tokens).pos as int),
    decreases old(tokens).remaining(), 0int,
{
    let ghost toks = old(tokens).tokens@;
    let ghost p0 = old(tokens).pos as int;
    let mut args: Vec<(String, Expr)> = Vec::new();
    loop
        invariant_except_break
            old(tokens).peek_spec() matches Some(Token::RBrace) ==> tokens.pos == old(tokens).pos,
            (first_field_simple(toks, p0) && (tok_at(toks, p0 + 3) matches Some(Token::RBrace))) ==> tokens.pos <= p0 + 3,
            tokens.pos == p0 || tokens.pos >= p0 + 3,
        invariant
            moved_on(*old(tokens), *tokens),
            toks == tokens.tokens@,
            tokens.pos == old(tokens).pos ==> args@.len() == 0,
            p0 == old(tokens).pos,
            tokens.pos > p0 && !(tok_at(toks, p0) matches Some(Token::RBrace))
                ==> (tok_at(toks, p0) matches Some(Token::Identifier(_)))
                && (tok_at(toks, p0 + 1) matches Some(Token::Colon))
                && single_expr_error(tok_at(toks, p0 + 2)) is None
                && (simple_operand_at(toks, p0 + 2) && !(tok_at(toks, p0 + 3) matches Some(Token::RBrace))
                    ==> (tok_at(toks, p0 + 3) matches Some(Token::Comma))),
            tokens.pos == p0 + 3 && first_field_simple(toks, p0) ==> args@.len() == 1
                && args@[0].0 == toks[p0]->Identifier_0 && args@[0].1 == operand_value(toks, p0 + 2),
        ensures
            moved_on(*old(tokens), *tokens),
            old(tokens).peek_spec() matches Some(Token::RBrace) ==> args@.len() == 0
                && tokens.pos == old(tokens).pos + 1,
            tok_at(toks, p0) is None ==> args@.len() == 0,
            (tok_at(toks, p0) matches Some(Token::Identifier(_))) ==> (tok_at(toks, p0 + 1) matches Some(Token::Colon))
                && single_expr_error(tok_at(toks, p0 + 2)) is None
                && (simple_operand_at(toks, p0 + 2) && !(tok_at(toks, p0 + 3) matches Some(Token::RBrace))
                    ==> (tok_at(toks, p0 + 3) matches Some(Token::Comma))),
            !(tok_at(toks, p0) matches Some(Token::Identifier(_))) ==> tok_at(toks, p0) is None
                || (tok_at(toks, p0) matches Some(Token::RBrace)),
            (first_field_simple(toks, p0) && (tok_at(toks, p0 + 3) matches Some(Token::RBrace))) ==> args@.len() == 1
                && args@[0].0 == toks[p0]->Identifier_0 && args@[0].1 == operand_value(toks, p0 + 2)
                && tokens.pos == p0 + 4,
        decreases tokens.remaining(),
    {
        match tokens.peek() {
            Some(Token::RBrace) => {
                tokens.next();
                break;
            },
            None => break,
            _ => {},
        }
        let arg_name = match tokens.next() {
            Some(Token::Identifier(s)) => s.clone(),
            _ => return Err(ParserError::StructInitError),
        };
        match tokens.next() {
            Some(Token::Colon) => {},
            _ => return Err(ParserError::StructInitColonError),
        }
        let arg_value = match parse_single_expr(tokens) {
            Ok(v) => v,
            Err(e) => return Err(e),
        };
        args.push((arg_name, arg_value));
        match tokens.peek() {
            Some(Token::Comma) => {
                tokens.next();
            },
            Some(Token::RBrace) => {},
            _ => return Err(ParserError::StructInitError),
        }
    }
    Ok(Expr::StructInit { name, transpiled_name: None, args })
}

} // verus!
