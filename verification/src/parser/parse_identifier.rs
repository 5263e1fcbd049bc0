//! What follows a name: an index, a call, an assignment, a field or method,
//! or the fields of a struct value.
use vstd::prelude::*;
use crate::lexer::Token;
use crate::parser::ast::{Expr, Type};
use crate::parser::expression::{parse_expression, parse_single_expr, single_expr_error, simple_operand_at,
    operand_value, operator_at, single_operand_end};
use crate::parser::function_def::tok_at;
use crate::parser::stream::{TokenStream, moved_on};
use crate::parser::structs::{parse_structs_init, struct_init_outcome};
use crate::text::str_eq;
use crate::translations::parser_errors::{Construct, ParserError};

verus! {

/// The kind of expression the name `s` gives with the token after it.
pub open spec fn identifier_result(s: String, next: Option<Token>, r: Result<Expr, ParserError>) -> bool {
    let var = Expr::VariableRef { name: s, transpiled_name: None, symbol: None };
    match next {
        None => r == Err::<Expr, ParserError>(ParserError::Eof),
        Some(Token::ListStart) => r is Ok ==> (r matches Ok(Expr::Index { target, .. }) && *target == var),
        Some(Token::LParen) => r is Ok ==> (r matches Ok(Expr::Call { target: None, name, transpiled_name: None, .. })
            && name == s),
        Some(Token::Operator(op)) => if op@ == "="@ {
            r is Ok ==> (r matches Ok(Expr::Assignment { name, symbol: None, .. }) && name == s)
        } else {
            r == Ok::<Expr, ParserError>(var)
        },
        Some(Token::Dot) => match r {
            Ok(Expr::Call { target: Some(t), .. }) => *t == var,
            Ok(Expr::Index { target: t, .. }) => *t == var,
            Ok(_) => false,
            Err(_) => true,
        },
        Some(Token::LBrace) => r is Ok ==> (r matches Ok(Expr::StructInit { name, .. }) && name == s),
        Some(_) => r == Ok::<Expr, ParserError>(var),
    }
}

/// What follows the name `s` at position `i` gives, where the tokens
/// decide it: a field `.f` (not called), a call without arguments, an
/// index or an assignment by a literal, a struct value as
/// `struct_init_outcome` says, or the errors of a missing field name, of
/// the index's or the first argument's or the assigned value's first token,
/// and of a missing `]`; `end` is the position after it.
pub open spec fn identifier_follow(s: String, toks: Seq<Token>, i: int, r: Result<Expr, ParserError>, end: int) -> bool {
    let var = Expr::VariableRef { name: s, transpiled_name: None, symbol: None };
    match tok_at(toks, i) {
        Some(Token::Dot) => match tok_at(toks, i + 1) {
            Some(Token::Identifier(f)) => !(tok_at(toks, i + 2) matches Some(Token::LParen)) ==> {
                &&& r == Ok::<Expr, ParserError>(Expr::Index {
                    target: Box::new(var), index: Box::new(Expr::String(f, false)), target_type: Type::Any })
                &&& end == i + 2
            },
            _ => r == Err::<Expr, ParserError>(ParserError::FieldOrMethodName),
        },
        Some(Token::LParen) => {
            &&& tok_at(toks, i + 1) matches Some(Token::RParen) ==> {
                &&& r matches Ok(Expr::Call { target: None, name, args, returned_type: None, is_allocator: false,
                    transpiled_name: None }) && name == s && args@.len() == 0
                &&& end == i + 2
            }
            &&& !(tok_at(toks, i + 1) matches Some(Token::RParen)) && tok_at(toks, i + 1) is Some
                && single_expr_error(tok_at(toks, i + 1)) is Some
                ==> r == Err::<Expr, ParserError>(single_expr_error(tok_at(toks, i + 1))->Some_0)
        },
        Some(Token::ListStart) => {
            &&& single_expr_error(tok_at(toks, i + 1)) matches Some(e)
                ==> r == Err::<Expr, ParserError>(ParserError::InContext(Construct::Index, Box::new(e)))
            &&& simple_operand_at(toks, i + 1) ==> if tok_at(toks, i + 2) matches Some(Token::ListEnd) {
                &&& r == Ok::<Expr, ParserError>(Expr::Index {
                    target: Box::new(var), index: Box::new(operand_value(toks, i + 1)), target_type: Type::Any })
                &&& end == i + 3
            } else {
                r == Err::<Expr, ParserError>(ParserError::ArrayEndError(tok_at(toks, i + 2)))
            }
        },
        Some(Token::Operator(op)) => op@ == "="@ ==> {
            &&& single_expr_error(tok_at(toks, i + 1)) matches Some(e) ==> r == Err::<Expr, ParserError>(e)
            &&& simple_operand_at(toks, i + 1) && !operator_at(toks, i + 3, 0) ==> {
                &&& r == Ok::<Expr, ParserError>(Expr::Assignment {
                    name: s, value: Box::new(operand_value(toks, i + 1)), symbol: None })
                &&& end == single_operand_end(toks, i + 1)
            }
        },
        Some(Token::LBrace) => struct_init_outcome(s, toks, i + 1, r, end),
        _ => true,
    }
}

/// Reads what follows the name `s` (`parse_identifier`).
#[verifier::loop_isolation(false)]
pub fn parse_identifier(tokens: &mut TokenStream, s: String) -> (r: Result<Expr, ParserError>)
    requires
        old(tokens).wf(),
    ensures
        moved_on(*old(tokens), *final(tokens)),
        identifier_result(s, old(tokens).peek_spec(), r),
        (r is Ok && (old(tokens).peek_spec() matches Some(Token::ListStart))) ==> old(tokens).pos < final(tokens).pos,
        identifier_follow(s, old(tokens).tokens@, old(tokens).pos as int, r, final(tokens).pos as int),
    decreases old(tokens).remaining(), 0int,
{
    let ghost s0 = s;
    let expr = Expr::VariableRef { name: s, transpiled_name: None, symbol: None };
    match tokens.peek() {
        Some(Token::ListStart) => {
            tokens.next();
            let index_expr = match parse_single_expr(tokens) {
                Ok(e) => e,
                Err(e) => return Err(ParserError::InContext(Construct::Index, Box::new(e))),
            };
            match tokens.next() {
                Some(Token::ListEnd) => Ok(Expr::Index {
                    target: Box::new(expr),
                    index: Box::new(index_expr),
                    target_type: Type::Any,
                }),
                other => Err(ParserError::ArrayEndError(crate::lexer::clone_opt_token(other))),
            }
        },
        Some(Token::LParen) => {
            tokens.next();
            let mut args: Vec<Expr> = Vec::new();
            loop
                invariant
                    moved_on(*old(tokens), *tokens),
                    old(tokens).pos < tokens.pos,
                    args@.len() == 0 ==> tokens.pos == old(tokens).pos + 1,
                    args@.len() > 0 ==> single_expr_error(tok_at(old(tokens).tokens@, old(tokens).pos + 1)) is None
                        && !(tok_at(old(tokens).tokens@, old(tokens).pos + 1) matches Some(Token::RParen)),
                decreases tokens.remaining(),
            {
                match tokens.peek() {
                    Some(Token::RParen) => {
                        tokens.next();
                        break;
                    },
                    None => break,
                    _ => {
                        let arg = match parse_expression(tokens) {
                            Ok(a) => a,
                            Err(e) => return Err(e),
                        };
                        args.push(arg);
                        match tokens.peek() {
                            Some(Token::Comma) => {
                                tokens.next();
                            },
                            Some(Token::RParen) => {},
                            other => {
                                return Err(ParserError::ArgsError(crate::lexer::clone_opt_token(other)));
                            },
                        }
                    },
                }
            }
            let name = match expr {
                Expr::VariableRef { name, .. } => name,
                _ => String::new(),
            };
            Ok(Expr::Call {
                target: None,
                name,
                args,
                returned_type: None,
                is_allocator: false,
                transpiled_name: None,
            })
        },
        Some(Token::Operator(op)) => {
            if str_eq(op.as_str(), "=") {
                tokens.next();
                let value = match parse_expression(tokens) {
                    Ok(v) => v,
                    Err(e) => return Err(e),
                };
                let name = match expr {
                    Expr::VariableRef { name, .. } => name,
                    _ => String::new(),
                };
                Ok(Expr::Assignment { name, value: Box::new(value), symbol: None })
            } else {
                Ok(expr)
            }
        },
        Some(Token::Dot) => {
            tokens.next();
            let field_or_method = match tokens.next() {
                Some(Token::Identifier(name)) => name.clone(),
                _ => return Err(ParserError::FieldOrMethodName),
            };
            match tokens.peek() {
                Some(Token::LParen) => {
                    tokens.next();
                    let mut args: Vec<Expr> = Vec::new();
                    loop
                        invariant
                            moved_on(*old(tokens), *tokens),
                            old(tokens).pos < tokens.pos,
                        decreases tokens.remaining(),
                    {
                        match tokens.peek() {
                            None => break,
                            Some(Token::RParen) => {
                                tokens.next();
                                break;
                            },
                            Some(Token::Comma) => {
                                tokens.next();
                            },
                            Some(_) => {
                                let arg = parse_single_expr(tokens)?;
                                args.push(arg);
                            },
                        }
                    }
                    Ok(Expr::Call {
                        target: Some(Box::new(expr)),
                        name: field_or_method,
                        args,
                        returned_type: Some(Type::Any),
                        is_allocator: false,
                        transpiled_name: None,
                    })
                },
                _ => Ok(Expr::Index {
                    target: Box::new(expr),
                    index: Box::new(Expr::String(field_or_method, false)),
                    target_type: Type::Any,
                }),
            }
        },
        Some(Token::LBrace) => {
            tokens.next();
            let name = match expr {
                Expr::VariableRef { name, .. } => name,
                _ => String::new(),
            };
            parse_structs_init(tokens, name)
        },
        Some(_) => Ok(expr),
        None => Err(ParserError::Eof),
    }
}

} // verus!
