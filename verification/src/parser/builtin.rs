//! Calls of the built-in functions.
use vstd::prelude::*;
use crate::lexer::{Token, clone_token};
use crate::parser::ast::{BuiltInFunction, Expr, Type, TypeV};
use crate::parser::expression::parse_expression;
use crate::parser::stream::{TokenStream, parsed, moved_on};
use crate::translations::parser_errors::ParserError;

verus! {

/// The built-in function a keyword names, with the type its call gives.
pub open spec fn builtin_of(t: Token) -> Option<(BuiltInFunction, TypeV)> {
    match t {
        Token::Print => Some((BuiltInFunction::Print, TypeV::Void)),
        Token::Input => Some((BuiltInFunction::Input, TypeV::String)),
        Token::Len => Some((BuiltInFunction::Len, TypeV::Integer)),
        Token::NumberFn => Some((BuiltInFunction::Number, TypeV::Integer)),
        Token::Sum => Some((BuiltInFunction::Sum, TypeV::Integer)),
        Token::RangeFn => Some((BuiltInFunction::Range, TypeV::Array(Box::new(TypeV::Integer)))),
        Token::LastWord => Some((BuiltInFunction::LastWord, TypeV::String)),
        Token::Sqrt => Some((BuiltInFunction::Sqrt, TypeV::Float)),
        Token::Timer => Some((BuiltInFunction::Timer, TypeV::Integer)),
        Token::Max => Some((BuiltInFunction::Max, TypeV::Float)),
        Token::Zig => Some((BuiltInFunction::Zig, TypeV::Void)),
        Token::Min => Some((BuiltInFunction::Min, TypeV::Float)),
        Token::Mod => Some((BuiltInFunction::Mod, TypeV::Integer)),
        Token::Round => Some((BuiltInFunction::Round, TypeV::Float)),
        Token::Floor => Some((BuiltInFunction::Floor, TypeV::Float)),
        Token::Ceil => Some((BuiltInFunction::Ceil, TypeV::Float)),
        Token::StrLower => Some((BuiltInFunction::StrLower, TypeV::String)),
        Token::Allocator => Some((BuiltInFunction::Allocator, TypeV::Void)),
        Token::StrUpper => Some((BuiltInFunction::StrUpper, TypeV::String)),
        Token::Trim => Some((BuiltInFunction::Trim, TypeV::String)),
        Token::StrReverse => Some((BuiltInFunction::StrReverse, TypeV::String)),
        Token::ConvertString => Some((BuiltInFunction::ConvertString, TypeV::String)),
        _ => None,
    }
}

/// Reads the arguments of a built-in call after its keyword `token`
/// (`parse_builtin`). Without a `(` next, the call has no arguments.
#[verifier::loop_isolation(false)]
pub fn parse_builtin(tokens: &mut TokenStream, token: &Token) -> (r: Result<Expr, ParserError>)
    requires
        old(tokens).wf(),
    ensures
        moved_on(*old(tokens), *final(tokens)),
        builtin_of(*token) is None ==> r == Err::<Expr, ParserError>(ParserError::UnknownFunction(*token)),
        r matches Ok(e) ==> builtin_of(*token) matches Some((f, t))
            && e matches Expr::BuiltInCall { function, args, return_type }
            && function == f && return_type@ == t
            && (!(old(tokens).peek_spec() matches Some(Token::LParen)) ==> args@.len() == 0
                && final(tokens).pos == old(tokens).pos),
    decreases old(tokens).remaining(), 0int,
{
    let (function, return_type) = match token {
        Token::Print => (BuiltInFunction::Print, Type::Void),
        Token::Input => (BuiltInFunction::Input, Type::String),
        Token::Len => (BuiltInFunction::Len, Type::Integer),
        Token::NumberFn => (BuiltInFunction::Number, Type::Integer),
        Token::Sum => (BuiltInFunction::Sum, Type::Integer),
        Token::RangeFn => (BuiltInFunction::Range, Type::Array(Box::new(Type::Integer))),
        Token::LastWord => (BuiltInFunction::LastWord, Type::String),
        Token::Sqrt => (BuiltInFunction::Sqrt, Type::Float),
        Token::Timer => (BuiltInFunction::Timer, Type::Integer),
        Token::Max => (BuiltInFunction::Max, Type::Float),
        Token::Zig => (BuiltInFunction::Zig, Type::Void),
        Token::Min => (BuiltInFunction::Min, Type::Float),
        Token::Mod => (BuiltInFunction::Mod, Type::Integer),
        Token::Round => (BuiltInFunction::Round, Type::Float),
        Token::Floor => (BuiltInFunction::Floor, Type::Float),
        Token::Ceil => (BuiltInFunction::Ceil, Type::Float),
        Token::StrLower => (BuiltInFunction::StrLower, Type::String),
        Token::Allocator => (BuiltInFunction::Allocator, Type::Void),
        Token::StrUpper => (BuiltInFunction::StrUpper, Type::String),
        Token::Trim => (BuiltInFunction::Trim, Type::String),
        Token::StrReverse => (BuiltInFunction::StrReverse, Type::String),
        Token::ConvertString => (BuiltInFunction::ConvertString, Type::String),
        other => return Err(ParserError::UnknownFunction(clone_token(other))),
    };
    proof { reveal_with_fuel(crate::parser::ast::type_view, 2); }
    assert(builtin_of(*token) == Some((function, return_type@)));
    let mut args: Vec<Expr> = Vec::new();
    if let Some(Token::LParen) = tokens.peek() {
        tokens.next();
        loop
            invariant
                moved_on(*old(tokens), *tokens),
                old(tokens).pos < tokens.pos,
            decreases tokens.remaining(),
        {
            match tokens.peek() {
                None => break,
                Some(Token::RParen) => {
                    tokens.next();
                    break;
                },
                Some(Token::Comma) => {
                    tokens.next();
                },
                Some(_) => {
                    let expr = parse_expression(tokens)?;
                    args.push(expr);
                },
            }
        }
    }
    Ok(Expr::BuiltInCall { function, args, return_type })
}

} // verus!
