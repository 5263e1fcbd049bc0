//! Type annotations.
use vstd::prelude::*;
use crate::lexer::{Token, clone_opt_token};
use crate::parser::ast::{Type, TypeV};
use crate::parser::stream::TokenStream;
use crate::text::str_eq;
use crate::translations::parser_errors::ParserError;

verus! {

/// The type named by a single type keyword (not `Array`, not a name).
pub open spec fn keyword_type(t: Token) -> Option<TypeV> {
    match t {
        Token::IntegerType => Some(TypeV::Integer),
        Token::BigIntegerType => Some(TypeV::BigInteger),
        Token::LowIntegerType => Some(TypeV::LowInteger),
        Token::BoolType => Some(TypeV::Bool),
        Token::NaturalType => Some(TypeV::Natural),
        Token::StringType => Some(TypeV::String),
        Token::CharType => Some(TypeV::Char),
        Token::Void => Some(TypeV::Void),
        Token::FloatType => Some(TypeV::Float),
        Token::ZigConstString => Some(TypeV::LiteralConstString),
        Token::ZigString => Some(TypeV::LiteralString),
        Token::ZigConstArray => Some(TypeV::ZigConstArray),
        Token::ZigArray => Some(TypeV::ZigArray),
        Token::ZigNatural => Some(TypeV::ZigNatural),
        Token::ZigFloat => Some(TypeV::ZigFloat),
        Token::ZigInteger => Some(TypeV::ZigInteger),
        Token::Value => Some(TypeV::User("ValueEnum"@, "ValueEnum"@)),
        _ => None,
    }
}

/// Whether `t` is the operator `op`.
pub open spec fn is_operator(t: Option<Token>, op: Seq<char>) -> bool {
    t matches Some(Token::Operator(s)) && s@ == op
}

/// The type annotation starting at `i`, and the position after it.
pub open spec fn parse_type_spec(toks: Seq<Token>, i: int) -> Result<(TypeV, int), ParserError>
    decreases toks.len() - i,
{
    if i < 0 || i >= toks.len() {
        Err(ParserError::TypeNotFound)
    } else {
        match toks[i] {
            Token::Identifier(name) => Ok((TypeV::User(name@, name@), i + 1)),
            Token::Array => {
                let open = if i + 1 < toks.len() { Some(toks[i + 1]) } else { None };
                if !is_operator(open, "<"@) {
                    Err(ParserError::ArrayError('<', open))
                } else {
                    match parse_type_spec(toks, i + 2) {
                        Err(e) => Err(e),
                        Ok((inner, j)) => {
                            let close = if 0 <= j < toks.len() { Some(toks[j]) } else { None };
                            if !is_operator(close, ">"@) {
                                Err(ParserError::ArrayError('>', close))
                            } else {
                                Ok((TypeV::Array(Box::new(inner)), j + 1))
                            }
                        },
                    }
                }
            },
            t => match keyword_type(t) {
                Some(k) => Ok((k, i + 1)),
                None => Err(ParserError::TypeNotFound),
            },
        }
    }
}

/// Each type keyword reads as its own type, and the annotation ends just
/// after it: the decimal keyword as the decimal type, the whole-number
/// keywords as their whole-number types, and so on; a name reads as the
/// user type of that name.
pub proof fn lemma_type_keywords(toks: Seq<Token>, i: int)
    requires
        0 <= i < toks.len(),
    ensures
        toks[i] is IntegerType ==> parse_type_spec(toks, i) == Ok::<(TypeV, int), ParserError>((TypeV::Integer, i + 1)),
        toks[i] is BigIntegerType ==> parse_type_spec(toks, i) == Ok::<(TypeV, int), ParserError>((TypeV::BigInteger, i + 1)),
        toks[i] is LowIntegerType ==> parse_type_spec(toks, i) == Ok::<(TypeV, int), ParserError>((TypeV::LowInteger, i + 1)),
        toks[i] is BoolType ==> parse_type_spec(toks, i) == Ok::<(TypeV, int), ParserError>((TypeV::Bool, i + 1)),
        toks[i] is NaturalType ==> parse_type_spec(toks, i) == Ok::<(TypeV, int), ParserError>((TypeV::Natural, i + 1)),
        toks[i] is StringType ==> parse_type_spec(toks, i) == Ok::<(TypeV, int), ParserError>((TypeV::String, i + 1)),
        toks[i] is CharType ==> parse_type_spec(toks, i) == Ok::<(TypeV, int), ParserError>((TypeV::Char, i + 1)),
        toks[i] is Void ==> parse_type_spec(toks, i) == Ok::<(TypeV, int), ParserError>((TypeV::Void, i + 1)),
        toks[i] is FloatType ==> parse_type_spec(toks, i) == Ok::<(TypeV, int), ParserError>((TypeV::Float, i + 1)),
        toks[i] is ZigConstString ==> parse_type_spec(toks, i) == Ok::<(TypeV, int), ParserError>((TypeV::LiteralConstString, i + 1)),
        toks[i] is ZigString ==> parse_type_spec(toks, i) == Ok::<(TypeV, int), ParserError>((TypeV::LiteralString, i + 1)),
        toks[i] is ZigConstArray ==> parse_type_spec(toks, i) == Ok::<(TypeV, int), ParserError>((TypeV::ZigConstArray, i + 1)),
        toks[i] is ZigArray ==> parse_type_spec(toks, i) == Ok::<(TypeV, int), ParserError>((TypeV::ZigArray, i + 1)),
        toks[i] is ZigNatural ==> parse_type_spec(toks, i) == Ok::<(TypeV, int), ParserError>((TypeV::ZigNatural, i + 1)),
        toks[i] is ZigFloat ==> parse_type_spec(toks, i) == Ok::<(TypeV, int), ParserError>((TypeV::ZigFloat, i + 1)),
        toks[i] is ZigInteger ==> parse_type_spec(toks, i) == Ok::<(TypeV, int), ParserError>((TypeV::ZigInteger, i + 1)),
        toks[i] is Value ==> parse_type_spec(toks, i)
            == Ok::<(TypeV, int), ParserError>((TypeV::User("ValueEnum"@, "ValueEnum"@), i + 1)),
        toks[i] matches Token::Identifier(n) ==> parse_type_spec(toks, i)
            == Ok::<(TypeV, int), ParserError>((TypeV::User(n@, n@), i + 1)),
{
}

/// A list type reads as `Array` `<` a type `>`: the list of the type read
/// between the brackets, ending after the `>`; without the `<` or the `>`
/// the annotation is refused with the token found in its place.
pub proof fn lemma_list_type(toks: Seq<Token>, i: int, inner: TypeV, k: int)
    requires
        0 <= i,
        i + 1 < toks.len(),
        toks[i] is Array,
    ensures
        !is_operator(Some(toks[i + 1]), "<"@) ==> parse_type_spec(toks, i)
            == Err::<(TypeV, int), ParserError>(ParserError::ArrayError('<', Some(toks[i + 1]))),
        is_operator(Some(toks[i + 1]), "<"@) && parse_type_spec(toks, i + 2) == Ok::<(TypeV, int), ParserError>((inner, k))
            && 0 <= k < toks.len() && is_operator(Some(toks[k]), ">"@)
            ==> parse_type_spec(toks, i) == Ok::<(TypeV, int), ParserError>((TypeV::Array(Box::new(inner)), k + 1)),
        is_operator(Some(toks[i + 1]), "<"@) && parse_type_spec(toks, i + 2) == Ok::<(TypeV, int), ParserError>((inner, k))
            && 0 <= k < toks.len() && !is_operator(Some(toks[k]), ">"@)
            ==> parse_type_spec(toks, i) == Err::<(TypeV, int), ParserError>(ParserError::ArrayError('>', Some(toks[k]))),
{
}

/// No two different type keywords read as the same type: a type read from
/// one token that is not a name tells which keyword it was.
pub proof fn lemma_type_keywords_distinct(s: Seq<Token>, i: int, t: Seq<Token>, j: int, ty: TypeV)
    requires
        0 <= i < s.len(),
        0 <= j < t.len(),
        !(s[i] is Identifier),
        !(t[j] is Identifier),
        parse_type_spec(s, i) == Ok::<(TypeV, int), ParserError>((ty, i + 1)),
        parse_type_spec(t, j) == Ok::<(TypeV, int), ParserError>((ty, j + 1)),
    ensures
        s[i] == t[j],
{
    assert(!(s[i] is Array)) by {
        if s[i] is Array {
            if let Ok((inner, k)) = parse_type_spec(s, i + 2) {
                lemma_type_spec_advances(s, i + 2);
            }
        }
    }
    assert(!(t[j] is Array)) by {
        if t[j] is Array {
            if let Ok((inner, k)) = parse_type_spec(t, j + 2) {
                lemma_type_spec_advances(t, j + 2);
            }
        }
    }
    assert(keyword_type(s[i]) == Some(ty) && keyword_type(t[j]) == Some(ty));
}

/// A type annotation that is read ends after where it starts.
pub proof fn lemma_type_spec_advances(toks: Seq<Token>, i: int)
    ensures
        parse_type_spec(toks, i) matches Ok((_, k)) ==> k > i,
    decreases toks.len() - i,
{
    if 0 <= i && i + 2 <= toks.len() && toks[i] is Array {
        lemma_type_spec_advances(toks, i + 2);
    }
}

fn operator_is(t: Option<&Token>, op: &str) -> (b: bool)
    ensures
        b == is_operator(match t { Some(x) => Some(*x), None => None }, op@),
{
    match t {
        Some(Token::Operator(s)) => str_eq(s.as_str(), op),
        _ => false,
    }
}

/// Reads a type annotation (`parse_type`).
pub fn parse_type(tokens: &mut TokenStream) -> (r: Result<Type, ParserError>)
    requires
        old(tokens).wf(),
    ensures
        final(tokens).wf(),
        old(tokens).advanced_to(*final(tokens)),
        match r {
            Ok(t) => parse_type_spec(old(tokens).tokens@, old(tokens).pos as int)
                == Ok::<(TypeV, int), ParserError>((t@, final(tokens).pos as int)),
            Err(e) => parse_type_spec(old(tokens).tokens@, old(tokens).pos as int)
                == Err::<(TypeV, int), ParserError>(e),
        },
    decreases old(tokens).remaining(),
{
    let token = match tokens.next() {
        Some(t) => t,
        None => return Err(ParserError::TypeNotFound),
    };
    let typ = match token {
        Token::Identifier(name) => Type::User(name.clone(), name.clone()),
        Token::IntegerType => Type::Integer,
        Token::BigIntegerType => Type::BigInteger,
        Token::LowIntegerType => Type::LowInteger,
        Token::BoolType => Type::Bool,
        Token::NaturalType => Type::Natural,
        Token::StringType => Type::String,
        Token::CharType => Type::Char,
        Token::Void => Type::Void,
        Token::FloatType => Type::Float,
        Token::ZigConstString => Type::LiteralConstString,
        Token::ZigString => Type::LiteralString,
        Token::ZigConstArray => Type::ZigConstArray,
        Token::ZigArray => Type::ZigArray,
        Token::ZigNatural => Type::ZigNatural,
        Token::ZigFloat => Type::ZigFloat,
        Token::ZigInteger => Type::ZigInteger,
        Token::Value => {
            let n = String::from_str("ValueEnum");
            proof { reveal_strlit("ValueEnum"); }
            Type::User(n.clone(), n)
        },
        Token::Array => {
            let open = tokens.next();
            if !operator_is(open, "<") {
                return Err(ParserError::ArrayError('<', clone_opt_token(open)));
            }
            let inner_type = parse_type(tokens)?;
            let close = tokens.next();
            if !operator_is(close, ">") {
                return Err(ParserError::ArrayError('>', clone_opt_token(close)));
            }
            Type::Array(Box::new(inner_type))
        },
        _ => return Err(ParserError::TypeNotFound),
    };
    Ok(typ)
}

} // verus!
