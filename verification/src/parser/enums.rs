//! Enum declarations.
use vstd::prelude::*;
use crate::lexer::{Token, clone_token, clone_opt_token};
use crate::parser::ast::{EnumDecl, Expr};
use crate::parser::stream::TokenStream;
use crate::translations::parser_errors::ParserError;

verus! {

/// The token at `i`, if any.
pub open spec fn tok_at(toks: Seq<Token>, i: int) -> Option<Token> {
    if 0 <= i < toks.len() { Some(toks[i]) } else { None }
}

/// The variants listed from position `i` on, and the position after the list.
pub open spec fn enum_body_spec(toks: Seq<Token>, i: int) -> Result<(Seq<Seq<char>>, int), ParserError>
    decreases toks.len() - i,
{
    if i < 0 || i >= toks.len() {
        Err(ParserError::Eof)
    } else {
        match toks[i] {
            Token::Indent | Token::Newline => enum_body_spec(toks, i + 1),
            Token::Identifier(v) => match enum_body_spec(toks, i + 1) {
                Ok((vs, j)) => Ok((seq![v@] + vs, j)),
                Err(e) => Err(e),
            },
            Token::Dedent | Token::End => Ok((Seq::empty(), i + 1)),
            Token::Eof => Ok((Seq::empty(), i)),
            t => Err(ParserError::EnumVariantNotFound(t)),
        }
    }
}

/// The enum declaration whose keyword is at `i`: its name, its variants and
/// the position after it.
pub open spec fn parse_enum_decl_spec(toks: Seq<Token>, i: int)
    -> Result<(Seq<char>, Seq<Seq<char>>, int), ParserError>
{
    let j = if i < toks.len() { i + 1 } else { i };
    match tok_at(toks, j) {
        Some(Token::Identifier(name)) => match tok_at(toks, j + 1) {
            Some(Token::Newline) => match enum_body_spec(toks, j + 2) {
                Ok((vs, k)) => Ok((name@, vs, k)),
                Err(e) => Err(e),
            },
            other => Err(ParserError::EnumNewlineError(other)),
        },
        other => Err(ParserError::UnionIdentifierNotFound(other)),
    }
}

/// Reads an enum declaration (`parse_enum_decl`): a token that is skipped,
/// the name, a line break, then the variant names up to the end of the block.
pub fn parse_enum_decl(tokens: &mut TokenStream) -> (r: Result<Expr, ParserError>)
    requires
        old(tokens).wf(),
    ensures
        final(tokens).wf(),
        old(tokens).advanced_to(*final(tokens)),
        match (r, parse_enum_decl_spec(old(tokens).tokens@, old(tokens).pos as int)) {
            (Ok(Expr::EnumDecl(d)), Ok((name, vs, k))) =>
                d.name@ == name && d.variants@.map_values(|v: String| v@) == vs
                    && final(tokens).pos == k,
            (Err(e), Err(e2)) => e == e2,
            _ => false,
        },
{
    let ghost toks = tokens.tokens@;
    tokens.next();
    let ghost j = tokens.pos as int;
    let name = match tokens.next() {
        Some(Token::Identifier(name)) => name.clone(),
        other => {
            return Err(ParserError::UnionIdentifierNotFound(clone_opt_token(other)));
        },
    };
    match tokens.next() {
        Some(Token::Newline) => {},
        other => {
            return Err(ParserError::EnumNewlineError(clone_opt_token(other)));
        },
    }
    let ghost start = tokens.pos as int;
    assert(start == j + 2);
    let mut variants: Vec<String> = Vec::new();
    loop
        invariant_except_break
            match enum_body_spec(toks, start) {
                Ok((vs, k)) => match enum_body_spec(toks, tokens.pos as int) {
                    Ok((rest, k2)) => vs == variants@.map_values(|v: String| v@) + rest && k2 == k,
                    Err(_) => false,
                },
                Err(e) => enum_body_spec(toks, tokens.pos as int) == Err::<(Seq<Seq<char>>, int), ParserError>(e),
            },
        invariant
            tokens.wf(),
            tokens.tokens == old(tokens).tokens,
            toks == tokens.tokens@,
            start <= tokens.pos,
            old(tokens).pos <= start,
            parse_enum_decl_spec(toks, old(tokens).pos as int) == match enum_body_spec(toks, start) {
                Ok((vs, k)) => Ok::<(Seq<char>, Seq<Seq<char>>, int), ParserError>((name@, vs, k)),
                Err(e) => Err(e),
            },
        ensures
            tokens.wf(),
            tokens.tokens == old(tokens).tokens,
            enum_body_spec(toks, start) matches Ok((vs, k))
                && vs == variants@.map_values(|v: String| v@) && k == tokens.pos,
        decreases tokens.remaining(),
    {
        let ghost p = tokens.pos as int;
        match tokens.peek() {
            Some(Token::Indent) => {
                tokens.next();
            },
            Some(Token::Identifier(var)) => {
                let ghost before = variants@;
                variants.push(var.clone());
                tokens.next();
                proof {
                    assert(variants@.map_values(|v: String| v@) =~= before.map_values(|v: String| v@) + seq![var@]);
                    if let Ok((rest, k2)) = enum_body_spec(toks, p) {
                        let (rest2, _) = enum_body_spec(toks, p + 1).unwrap();
                        assert(rest == seq![var@] + rest2);
                        assert(before.map_values(|v: String| v@) + rest =~= variants@.map_values(|v: String| v@) + rest2);
                    }
                }
            },
            Some(Token::Newline) => {
                tokens.next();
            },
            Some(Token::Dedent) | Some(Token::End) => {
                tokens.next();
                proof {
                    let (rest, k2) = enum_body_spec(toks, p).unwrap();
                    assert(rest =~= Seq::<Seq<char>>::empty());
                    assert(variants@.map_values(|v: String| v@) + rest =~= variants@.map_values(|v: String| v@));
                }
                break;
            },
            Some(Token::Eof) => {
                proof {
                    let (rest, k2) = enum_body_spec(toks, p).unwrap();
                    assert(variants@.map_values(|v: String| v@) + rest =~= variants@.map_values(|v: String| v@));
                }
                break;
            },
            Some(tok) => {
                let e = ParserError::EnumVariantNotFound(clone_token(tok));
                proof {
                    assert(enum_body_spec(toks, p) == Err::<(Seq<Seq<char>>, int), ParserError>(e));
                    assert(parse_enum_decl_spec(toks, old(tokens).pos as int)
                        == Err::<(Seq<char>, Seq<Seq<char>>, int), ParserError>(e));
                }
                return Err(e);
            },
            None => {
                proof {
                    assert(enum_body_spec(toks, p) == Err::<(Seq<Seq<char>>, int), ParserError>(ParserError::Eof));
                    assert(parse_enum_decl_spec(toks, old(tokens).pos as int)
                        == Err::<(Seq<char>, Seq<Seq<char>>, int), ParserError>(ParserError::Eof));
                }
                return Err(ParserError::Eof);
            },
        }
    }
    Ok(Expr::EnumDecl(EnumDecl { name, variants }))
}

} // verus!
