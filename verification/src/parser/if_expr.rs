//! Conditionals.
use vstd::prelude::*;
use crate::lexer::Token;
use crate::parser::ast::Expr;
use crate::parser::expression::{parse_expression, single_expr_error, simple_operand_at, operand_value,
    operator_at, single_operand_end};
use crate::parser::op_expr::parse_binary_op_expr;
use crate::parser::stream::{TokenStream, moved_on};
use crate::translations::parser_errors::ParserError;

verus! {

/// What a condition with a block from position `i` gives, where that
/// follows from the tokens: an error of the condition's first token, an
/// error of the block's first expression, or, for a literal condition and
/// an empty block with no `else` after it, the conditional itself (with
/// the position `end` after it); `is_if` tells a conditional from an
/// `else if` part.
pub open spec fn conditional_outcome(toks: Seq<Token>, i: int, r: Result<Expr, ParserError>, end: int,
    is_if: bool) -> bool {
    let first = if 0 <= i < toks.len() { Some(toks[i]) } else { None };
    let c = single_operand_end(toks, i);
    &&& single_expr_error(first) matches Some(e) ==> r == Err::<Expr, ParserError>(e)
    &&& (simple_operand_at(toks, i) && !operator_at(toks, i + 2, 0)) ==> {
        &&& block_scan(toks, c, 0) matches (j, false) ==>
            (single_expr_error(Some(toks[j])) matches Some(e) ==> r == Err::<Expr, ParserError>(e))
        &&& block_scan(toks, c, 0) matches (j, true) ==>
            (is_if ==> (!(0 <= j < toks.len() && (toks[j] is ElseIf || toks[j] is Else)) ==> {
                &&& r matches Ok(Expr::If { condition, then_branch, else_branch })
                    && *condition == operand_value(toks, i) && then_branch@.len() == 0 && else_branch@.len() == 0
                &&& end == j
            }))
            && (!is_if ==> {
                &&& r matches Ok(Expr::ElseIf { condition, then_branch })
                    && *condition == operand_value(toks, i) && then_branch@.len() == 0
                &&& end == j
            })
    }
}

/// Reads a conditional after its keyword (`parse_if_expr`): the condition,
/// the block, and an `else if` or `else` part when one follows.
pub fn parse_if_expr(tokens: &mut TokenStream) -> (r: Result<Expr, ParserError>)
    requires
        old(tokens).wf(),
    ensures
        moved_on(*old(tokens), *final(tokens)),
        r is Ok ==> old(tokens).pos < final(tokens).pos,
        r matches Ok(e) ==> e matches Expr::If { else_branch, .. } && else_branch@.len() <= 1
            && (else_branch@.len() == 1 ==> else_branch@[0] is ElseIf || else_branch@[0] is Else),
        conditional_outcome(old(tokens).tokens@, old(tokens).pos as int, r, final(tokens).pos as int, true),
    decreases old(tokens).remaining(), 4int,
{
    let condition = match parse_binary_op_expr(tokens, 0) {
        Ok(e) => e,
        Err(e) => return Err(e),
    };
    let then_branch = match parse_block(tokens) {
        Ok(b) => b,
        Err(e) => return Err(e),
    };
    let else_branch = match tokens.peek() {
        Some(Token::ElseIf) => {
            tokens.next();
            vec![parse_else_if_expr(tokens)?]
        },
        Some(Token::Else) => {
            tokens.next();
            vec![parse_else_expr(tokens)?]
        },
        _ => Vec::new(),
    };
    Ok(Expr::If { condition: Box::new(condition), then_branch, else_branch })
}

/// The position after the token at `i`, if there is one.
pub open spec fn skip_one(toks: Seq<Token>, i: int) -> int {
    if i < toks.len() { i + 1 } else { i }
}

/// Reads an `else if` part (`parse_else_if_expr`): a token that is
/// skipped, the condition and the block.
pub fn parse_else_if_expr(tokens: &mut TokenStream) -> (r: Result<Expr, ParserError>)
    requires
        old(tokens).wf(),
    ensures
        moved_on(*old(tokens), *final(tokens)),
        r is Ok ==> old(tokens).pos < final(tokens).pos,
        r matches Ok(e) ==> e is ElseIf,
        conditional_outcome(old(tokens).tokens@, skip_one(old(tokens).tokens@, old(tokens).pos as int), r,
            final(tokens).pos as int, false),
    decreases old(tokens).remaining(), 4int,
{
    tokens.next();
    let condition = match parse_binary_op_expr(tokens, 0) {
        Ok(e) => e,
        Err(e) => return Err(e),
    };
    let then_branch = match parse_block(tokens) {
        Ok(b) => b,
        Err(e) => return Err(e),
    };
    Ok(Expr::ElseIf { condition: Box::new(condition), then_branch })
}

/// Reads an `else` part (`parse_else_expr`): a token that is skipped and
/// the block.
pub fn parse_else_expr(tokens: &mut TokenStream) -> (r: Result<Expr, ParserError>)
    requires
        old(tokens).wf(),
    ensures
        moved_on(*old(tokens), *final(tokens)),
        r matches Ok(e) ==> e is Else,
        old(tokens).pos < old(tokens).tokens@.len() ==> old(tokens).pos < final(tokens).pos,
    decreases old(tokens).remaining(), 6int,
{
    tokens.next();
    let then_branch = parse_block(tokens)?;
    Ok(Expr::Else { then_branch })
}

/// Reading a block from position `i` at indentation depth `level` over
/// line breaks, indents and dedents alone: the position where the block
/// ends (`true`), or where its first expression starts (`false`).
pub open spec fn block_scan(toks: Seq<Token>, i: int, level: int) -> (int, bool)
    decreases toks.len() - i,
{
    if i < 0 || i >= toks.len() {
        (i, true)
    } else {
        match toks[i] {
            Token::Indent => block_scan(toks, i + 1, level + 1),
            Token::Dedent => if level <= 1 { (i + 1, true) } else { block_scan(toks, i + 1, level - 1) },
            Token::Newline => block_scan(toks, i + 1, 0),
            Token::Eof => (i, true),
            _ => (i, false),
        }
    }
}

/// Reads the expressions of an indented block (`parse_block`): it ends at
/// the dedent that closes it (after a line break only one dedent is
/// needed), or at the end of the input.
#[verifier::loop_isolation(false)]
fn parse_block(tokens: &mut TokenStream) -> (r: Result<Vec<Expr>, ParserError>)
    requires
        old(tokens).wf(),
    ensures
        moved_on(*old(tokens), *final(tokens)),
        block_scan(old(tokens).tokens@, old(tokens).pos as int, 0) matches (j, true) ==>
            (r matches Ok(b) && b@.len() == 0 && final(tokens).pos == j),
        block_scan(old(tokens).tokens@, old(tokens).pos as int, 0) matches (j, false) ==> {
            &&& single_expr_error(Some(old(tokens).tokens@[j])) matches Some(e) ==> r == Err::<Vec<Expr>, ParserError>(e)
            &&& r matches Ok(b) ==> b@.len() >= 1
        },
    decreases old(tokens).remaining(), 5int,
{
    let ghost toks = old(tokens).tokens@;
    let ghost p0 = old(tokens).pos as int;
    let mut block: Vec<Expr> = Vec::new();
    let mut indent_level: usize = 0;
    loop
        invariant
            moved_on(*old(tokens), *tokens),
            indent_level <= tokens.pos - old(tokens).pos,
            toks == tokens.tokens@,
            block@.len() == 0 ==> block_scan(toks, p0, 0) == block_scan(toks, tokens.pos as int, indent_level as int),
            block@.len() > 0 ==> !block_scan(toks, p0, 0).1
                && 0 <= block_scan(toks, p0, 0).0 < toks.len()
                && single_expr_error(Some(toks[block_scan(toks, p0, 0).0])) is None,
        decreases tokens.remaining(),
    {
        match tokens.peek() {
            None => break,
            Some(Token::Indent) => {
                tokens.next();
                assert(indent_level < tokens.pos - old(tokens).pos);
                indent_level = indent_level + 1;
            },
            Some(Token::Dedent) => {
                tokens.next();
                if indent_level <= 1 {
                    break;
                }
                indent_level = indent_level - 1;
            },
            Some(Token::Newline) => {
                indent_level = 0;
                tokens.next();
            },
            Some(Token::Eof) => break,
            Some(_) => {
                assert(block_scan(toks, tokens.pos as int, indent_level as int) == (tokens.pos as int, false));
                let expr = match parse_expression(tokens) {
                    Ok(e) => e,
                    Err(e) => return Err(e),
                };
                block.push(expr);
            },
        }
    }
    Ok(block)
}

} // verus!
