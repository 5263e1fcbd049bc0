//! Function definitions.
use vstd::prelude::*;
use crate::lexer::{Token, clone_opt_token, token_same};
use crate::parser::ast::{Expr, Parameter, Type, TypeV};
use crate::parser::expression::{parse_expression, single_expr_error, simple_operand_at, operand_value, operator_at};
use crate::parser::helper::body_scan;
use crate::parser::helper::expect_token;
use crate::parser::stream::{TokenStream, moved_on};
use crate::parser::types::{parse_type, parse_type_spec};
use crate::translations::parser_errors::ParserError;

verus! {

/// The token at position `i`, if any.
pub open spec fn tok_at(toks: Seq<Token>, i: int) -> Option<Token> {
    if 0 <= i < toks.len() { Some(toks[i]) } else { None }
}

/// Whether the token at `i` is `expected`.
pub open spec fn is_token_at(toks: Seq<Token>, i: int, expected: Token) -> bool {
    tok_at(toks, i) matches Some(t) && token_same(t, expected)
}

/// A parameter as written: its name, its type and whether it is mutable.
pub open spec fn param_view(p: Parameter) -> (Seq<char>, TypeV, bool) {
    (p.name@, p.typ@, p.is_mutable)
}

/// The parameters of a list, as written.
pub open spec fn params_view(ps: Seq<Parameter>) -> Seq<(Seq<char>, TypeV, bool)> {
    ps.map_values(|p: Parameter| param_view(p))
}

/// A type annotation that reads, ends past where it starts.
pub proof fn lemma_type_spec_advances(toks: Seq<Token>, i: int)
    ensures
        parse_type_spec(toks, i) matches Ok((_, j)) ==> i < j <= toks.len(),
    decreases toks.len() - i,
{
    if 0 <= i && i + 2 <= toks.len() && toks[i] is Array {
        lemma_type_spec_advances(toks, i + 2);
    }
}

/// The parameter list from position `i` on, after the parameters `acc`
/// already read: the parameters and the position where the list stops
/// (its `)`, or the end of the tokens).
pub open spec fn params_spec(toks: Seq<Token>, i: int, acc: Seq<(Seq<char>, TypeV, bool)>)
    -> Result<(Seq<(Seq<char>, TypeV, bool)>, int), ParserError>
    decreases toks.len() - i,
{
    if i < 0 || i >= toks.len() {
        Ok((acc, i))
    } else {
        match toks[i] {
            Token::Comma => params_spec(toks, i + 1, acc),
            Token::RParen => Ok((acc, i)),
            Token::ConstantDecl | Token::MutableDecl | Token::Identifier(_) => {
                let m = toks[i] is MutableDecl;
                let j = if toks[i] is Identifier { i } else { i + 1 };
                match tok_at(toks, j) {
                    Some(Token::Identifier(s)) => match tok_at(toks, j + 1) {
                        Some(Token::Comma) => params_spec(toks, j + 2, acc.push((s@, TypeV::Any, m))),
                        Some(Token::Colon) => {
                            proof { lemma_type_spec_advances(toks, j + 2); }
                            match parse_type_spec(toks, j + 2) {
                                Err(e) => Err(e),
                                Ok((t, l)) => params_spec(toks, l, acc.push((s@, t, m))),
                            }
                        },
                        Some(Token::RParen) => Ok((acc.push((s@, TypeV::Any, m)), j + 1)),
                        other => Err(ParserError::ParamError(other)),
                    },
                    other => Err(ParserError::ParamNameNotFound(other)),
                }
            },
            t => Err(ParserError::ParamError(Some(t))),
        }
    }
}

/// The head of a function definition from position `i` on: its name, its
/// parameters, its return type and the position of its body; or the error
/// reading it gives.
pub open spec fn function_head_spec(toks: Seq<Token>, i: int)
    -> Result<(Seq<char>, Seq<(Seq<char>, TypeV, bool)>, TypeV, int), ParserError>
{
    match tok_at(toks, i) {
        Some(Token::Identifier(n)) => if !is_token_at(toks, i + 1, Token::LParen) {
            Err(ParserError::OtherError(Token::LParen, tok_at(toks, i + 1)))
        } else {
            match params_spec(toks, i + 2, Seq::empty()) {
                Err(e) => Err(e),
                Ok((ps, j)) => if !is_token_at(toks, j, Token::RParen) {
                    Err(ParserError::OtherError(Token::RParen, tok_at(toks, j)))
                } else if !is_token_at(toks, j + 1, Token::Colon) {
                    Err(ParserError::OtherError(Token::Colon, tok_at(toks, j + 1)))
                } else {
                    match parse_type_spec(toks, j + 2) {
                        Err(e) => Err(e),
                        Ok((rt, k)) => if !is_token_at(toks, k, Token::Newline) {
                            Err(ParserError::OtherError(Token::Newline, tok_at(toks, k)))
                        } else if !is_token_at(toks, k + 1, Token::Indent) {
                            Err(ParserError::OtherError(Token::Indent, tok_at(toks, k + 1)))
                        } else {
                            Ok((n@, ps, rt, k + 2))
                        },
                    }
                },
            }
        },
        other => Err(ParserError::FunctionName(other)),
    }
}

/// Reads a function definition after its keyword (`parse_function_def`): a
/// name, the parameters in `( )` (each may be marked mutable or constant
/// and may have `: type`, else it has type `Any`), `:` and the return
/// type, a line break, and the indented body.
#[verifier::loop_isolation(false)]
pub fn parse_function_def(tokens: &mut TokenStream) -> (r: Result<Expr, ParserError>)
    requires
        old(tokens).wf(),
    ensures
        moved_on(*old(tokens), *final(tokens)),
        r is Ok ==> old(tokens).pos < final(tokens).pos,
        !(old(tokens).peek_spec() matches Some(Token::Identifier(_)))
            ==> r == Err::<Expr, ParserError>(ParserError::FunctionName(old(tokens).peek_spec())),
        r matches Ok(e) ==> e matches Expr::FunctionDef { name, transpiled_name: None, return_type: Some(_),
            is_allocator: false, params, .. }
            && old(tokens).peek_spec() matches Some(Token::Identifier(n)) && name == n
            && forall|k: int| 0 <= k < params@.len() ==> !(#[trigger] params@[k]).is_pointer,
        match function_head_spec(old(tokens).tokens@, old(tokens).pos as int) {
            Err(e) => r == Err::<Expr, ParserError>(e),
            Ok((n, ps, rt, k)) => {
                &&& body_scan(old(tokens).tokens@, k) matches (j, true) ==> {
                    &&& r matches Ok(Expr::FunctionDef { name, params, body, return_type: Some(t), .. })
                        && name@ == n && params_view(params@) == ps && t@ == rt && body@.len() == 0
                    &&& final(tokens).pos == j
                }
                &&& body_scan(old(tokens).tokens@, k) matches (j, false) ==> {
                    &&& single_expr_error(Some(old(tokens).tokens@[j])) matches Some(e) ==> r == Err::<Expr, ParserError>(e)
                    &&& r matches Ok(Expr::FunctionDef { body, .. }) ==> body@.len() >= 1
                        && (simple_operand_at(old(tokens).tokens@, j) && !operator_at(old(tokens).tokens@, j + 2, 0)
                            ==> body@[0] == operand_value(old(tokens).tokens@, j))
                }
                &&& r matches Ok(Expr::FunctionDef { name, params, return_type: Some(t), .. }) ==>
                    name@ == n && params_view(params@) == ps && t@ == rt
            },
        },
    decreases old(tokens).remaining(), 0int,
{
    let ghost toks = old(tokens).tokens@;
    let ghost i0 = old(tokens).pos as int;
    let name = match tokens.next() {
        Some(Token::Identifier(name)) => name.clone(),
        other => return Err(ParserError::FunctionName(clone_opt_token(other))),
    };
    expect_token(tokens, Token::LParen)?;
    let mut params: Vec<Parameter> = Vec::new();
    assert(params_view(params@) =~= Seq::<(Seq<char>, TypeV, bool)>::empty());
    loop
        invariant
            moved_on(*old(tokens), *tokens),
            old(tokens).pos < tokens.pos,
            forall|k: int| 0 <= k < params@.len() ==> !(#[trigger] params@[k]).is_pointer,
            toks == tokens.tokens@,
            params_spec(toks, i0 + 2, Seq::empty()) == params_spec(toks, tokens.pos as int, params_view(params@)),
        decreases tokens.remaining(),
    {
        let ghost p0 = tokens.pos as int;
        match tokens.peek() {
            None => break,
            Some(Token::ConstantDecl) | Some(Token::MutableDecl) | Some(Token::Identifier(_)) => {
                let is_mutable = match tokens.peek() {
                    Some(Token::MutableDecl) => {
                        tokens.next();
                        true
                    },
                    Some(Token::ConstantDecl) => {
                        tokens.next();
                        false
                    },
                    _ => false,
                };
                let ghost j = tokens.pos as int;
                let param_name = match tokens.next() {
                    Some(Token::Identifier(s)) => s.clone(),
                    other => return Err(ParserError::ParamNameNotFound(clone_opt_token(other))),
                };
                let mut param_type = Type::Any;
                let mut last = false;
                match tokens.peek() {
                    Some(Token::Comma) => {
                        tokens.next();
                    },
                    Some(Token::Colon) => {
                        tokens.next();
                        proof { lemma_type_spec_advances(toks, j + 2); }
                        param_type = match parse_type(tokens) {
                            Ok(t) => t,
                            Err(e) => return Err(e),
                        };
                    },
                    Some(Token::RParen) => {
                        last = true;
                    },
                    other => {
                        return Err(ParserError::ParamError(clone_opt_token(other)));
                    },
                }
                let ghost before = params@;
                let param = Parameter { name: param_name, typ: param_type, is_mutable, is_pointer: false };
                params.push(param);
                assert(params_view(params@) =~= params_view(before).push(param_view(param)));
                if last {
                    break;
                }
            },
            Some(Token::Comma) => {
                tokens.next();
            },
            Some(Token::RParen) => break,
            other => {
                return Err(ParserError::ParamError(clone_opt_token(other)));
            },
        }
    }
    assert(params_spec(toks, i0 + 2, Seq::empty()) == Ok::<(Seq<(Seq<char>, TypeV, bool)>, int), ParserError>(
        (params_view(params@), tokens.pos as int)));
    match expect_token(tokens, Token::RParen) {
        Ok(_) => {},
        Err(e) => return Err(e),
    }
    match expect_token(tokens, Token::Colon) {
        Ok(_) => {},
        Err(e) => return Err(e),
    }
    let return_type = Some(match parse_type(tokens) {
        Ok(t) => t,
        Err(e) => return Err(e),
    });
    match expect_token(tokens, Token::Newline) {
        Ok(_) => {},
        Err(e) => return Err(e),
    }
    match expect_token(tokens, Token::Indent) {
        Ok(_) => {},
        Err(e) => return Err(e),
    }
    let ghost k0 = tokens.pos as int;
    let mut body: Vec<Expr> = Vec::new();
    loop
        invariant
            moved_on(*old(tokens), *tokens),
            old(tokens).pos < tokens.pos,
            toks == tokens.tokens@,
            body@.len() == 0 ==> body_scan(toks, k0) == body_scan(toks, tokens.pos as int),
            body@.len() > 0 ==> !body_scan(toks, k0).1
                && 0 <= body_scan(toks, k0).0 < toks.len()
                && single_expr_error(Some(toks[body_scan(toks, k0).0])) is None
                && (simple_operand_at(toks, body_scan(toks, k0).0) && !operator_at(toks, body_scan(toks, k0).0 + 2, 0)
                    ==> body@[0] == operand_value(toks, body_scan(toks, k0).0)),
        decreases tokens.remaining(),
    {
        match tokens.peek() {
            None => break,
            Some(Token::Dedent) => {
                tokens.next();
                break;
            },
            Some(Token::Newline) => {
                tokens.next();
            },
            Some(Token::Eof) => break,
            Some(_) => {
                let expr = match parse_expression(tokens) {
                    Ok(e) => e,
                    Err(e) => return Err(e),
                };
                body.push(expr);
            },
        }
    }
    Ok(Expr::FunctionDef {
        name,
        transpiled_name: None,
        params,
        body,
        return_type,
        is_allocator: false,
    })
}

} // verus!
