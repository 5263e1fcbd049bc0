//! Variable and constant declarations.
use vstd::prelude::*;
use crate::lexer::{Token, clone_opt_token};
use crate::parser::ast::{Expr, Type};
use crate::parser::expression::{parse_expression, single_expr_error, simple_operand_at, operand_value,
    operator_at, single_operand_end};
use crate::parser::function_def::tok_at;
use crate::parser::stream::{TokenStream, parsed};
use crate::parser::structs::parse_structs_init;
use crate::parser::types::parse_type;
use crate::text::str_eq;
use crate::translations::parser_errors::ParserError;

verus! {

/// What a declaration without a type from position `i` gives, where the
/// tokens decide it: the error of a missing `=`, the error of the value's
/// first token, or, for a literal value, the declaration itself (and the
/// position `end` after it).
pub open spec fn decl_outcome(toks: Seq<Token>, i: int, is_mutable: bool, r: Result<Expr, ParserError>, end: int) -> bool {
    (tok_at(toks, i) is Some && toks[i] is Identifier && !(tok_at(toks, i + 1) matches Some(Token::Colon))) ==> {
        let n = toks[i]->Identifier_0;
        let eq = tok_at(toks, i + 1) matches Some(Token::Operator(op)) && op@ == "="@;
        &&& !eq ==> r == Err::<Expr, ParserError>(ParserError::OperatorError('=', tok_at(toks, i + 1)))
        &&& eq && !(tok_at(toks, i + 2) matches Some(Token::LBrace)) ==> {
            &&& single_expr_error(tok_at(toks, i + 2)) matches Some(e) ==> r == Err::<Expr, ParserError>(e)
            &&& simple_operand_at(toks, i + 2) && !operator_at(toks, i + 4, 0) ==> {
                &&& r == Ok::<Expr, ParserError>(Expr::Decl { name: n, transpiled_name: None, typ: None, is_mutable,
                    is_primitive: false, value: Box::new(operand_value(toks, i + 2)) })
                &&& end == single_operand_end(toks, i + 2)
            }
        }
    }
}

/// Reads a declaration after its keyword (`parse_decl`): a name, an optional
/// `: type`, `=`, and the value; a `{` after `=` starts the fields of a value
/// of the annotated struct type.
pub fn parse_decl(tokens: &mut TokenStream, is_mutable: bool) -> (r: Result<Expr, ParserError>)
    requires
        old(tokens).wf(),
    ensures
        parsed(*old(tokens), *final(tokens), r),
        !(old(tokens).peek_spec() matches Some(Token::Identifier(_)))
            ==> r == Err::<Expr, ParserError>(ParserError::VariableName(old(tokens).peek_spec())),
        r matches Ok(e) ==> (e matches Expr::Decl { name, transpiled_name: None, is_mutable: m, .. }
            && m == is_mutable
            && (old(tokens).peek_spec() matches Some(Token::Identifier(n)) && name@ == n@)),
        decl_outcome(old(tokens).tokens@, old(tokens).pos as int, is_mutable, r, final(tokens).pos as int),
    decreases old(tokens).remaining(), 0int,
{
    let name = match tokens.next() {
        Some(Token::Identifier(name)) => name.clone(),
        other => return Err(ParserError::VariableName(clone_opt_token(other))),
    };
    let typ = match tokens.peek() {
        Some(Token::Colon) => {
            tokens.next();
            Some(parse_type(tokens)?)
        },
        _ => None,
    };
    let eq_tok = tokens.next();
    let is_eq = match eq_tok {
        Some(Token::Operator(op)) => str_eq(op.as_str(), "="),
        _ => false,
    };
    if !is_eq {
        return Err(ParserError::OperatorError('=', clone_opt_token(eq_tok)));
    }
    let value_expr = match tokens.peek() {
        Some(Token::LBrace) => {
            match &typ {
                Some(Type::User(n, _)) => {
                    tokens.next();
                    parse_structs_init(tokens, n.clone())?
                },
                _ => return Err(ParserError::ObjectTypeNotFound),
            }
        },
        _ => match parse_expression(tokens) {
            Ok(v) => v,
            Err(e) => return Err(e),
        },
    };
    Ok(Expr::Decl {
        name,
        transpiled_name: None,
        typ,
        is_mutable,
        is_primitive: false,
        value: Box::new(value_expr),
    })
}

} // verus!
