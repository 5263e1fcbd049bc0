//! Expressions: the entry points of the parser.
use vstd::prelude::*;
use crate::lexer::{Token, clone_token};
use crate::parser::ast::Expr;
use crate::parser::builtin::{parse_builtin, builtin_of};
use crate::parser::decl::{parse_decl, decl_outcome};
use crate::parser::enums::parse_enum_decl;
use crate::parser::function_def::{parse_function_def, tok_at, function_head_spec, params_view};
use crate::parser::helper::body_scan;
use crate::parser::helper::{literals_parse, literal_head};
use crate::parser::if_expr::{parse_else_expr, parse_else_if_expr, parse_if_expr, conditional_outcome, skip_one};
use crate::parser::list::parse_list;
use crate::parser::loops::{parse_loop, loop_head_spec};
use crate::parser::match_expr::{parse_match, match_head_spec, arm_scan};
use crate::parser::object::parse_struct_def;
use crate::parser::op_expr::{operator_pair_at, operator_pair_value, parse_binary_op_expr};
use crate::parser::parse_identifier::{parse_identifier, identifier_result};
use crate::parser::stream::{TokenStream, parsed, moved_on};
use crate::parser::template::parse_template_string_expr;
use crate::parser::union::parse_union_type;
use crate::text::str_eq;
use crate::translations::parser_errors::{Construct, ParserError};

verus! {

/// `r` with one layer of construct context taken off its error.
pub open spec fn without_context(r: Result<Expr, ParserError>) -> Result<Expr, ParserError> {
    match r {
        Err(ParserError::InContext(_, e)) => Err(*e),
        _ => r,
    }
}

/// The kind of expression a parse starting with tokens `first` and
/// `second` gives, when it succeeds; and the error it gives for tokens no
/// expression starts with.
pub open spec fn single_expr_result(first: Option<Token>, second: Option<Token>, r: Result<Expr, ParserError>) -> bool {
    match first {
        None => r == Err::<Expr, ParserError>(ParserError::Eof),
        Some(t) => match t {
            Token::True => r == Ok::<Expr, ParserError>(Expr::Bool(true)),
            Token::False => r == Ok::<Expr, ParserError>(Expr::Bool(false)),
            Token::ListStart => r matches Ok(Expr::List(_)),
            Token::Backtick => r is Ok ==> r matches Ok(Expr::TemplateString(_)),
            Token::Object => r is Ok ==> r matches Ok(Expr::StructDef { .. }),
            Token::Enum => r is Ok ==> r matches Ok(Expr::EnumDecl(_)),
            Token::ConstantDecl => r is Ok ==> r matches Ok(Expr::Decl { is_mutable: false, .. }),
            Token::MutableDecl => r is Ok ==> r matches Ok(Expr::Decl { is_mutable: true, .. }),
            Token::Return => r is Ok ==> r matches Ok(Expr::Return(_)),
            Token::Match => r is Ok ==> r matches Ok(Expr::Match { .. }),
            Token::FunctionDef => r is Ok ==> r matches Ok(Expr::FunctionDef { .. }),
            Token::Loop => r is Ok ==> r matches Ok(Expr::Loop { .. }),
            Token::Type => r is Ok ==> r matches Ok(Expr::UnionType { .. }),
            Token::Conditional => r is Ok ==> r matches Ok(Expr::If { .. }),
            Token::ElseIf => r is Ok ==> r matches Ok(Expr::ElseIf { .. }),
            Token::Else => r is Ok ==> r matches Ok(Expr::Else { .. }),
            Token::Operator(op) => if op@ == "-"@ {
                r is Ok ==> (r matches Ok(Expr::UnaryOp { op: o, .. }) && o@ == "-"@)
            } else {
                r == Err::<Expr, ParserError>(ParserError::UnknownToken(t))
            },
            Token::Eof | Token::Semicolon | Token::Newline =>
                r == Err::<Expr, ParserError>(ParserError::UnexpectedToken(t)),
            Token::StringLiteral(_) | Token::Number(_) | Token::Float(_) =>
                !(second matches Some(Token::Dot)) ==> (r matches Ok(e) && literal_head(t, e)),
            Token::Identifier(s) => {
                &&& identifier_result(s, second, without_context(r))
                &&& r is Err ==> r matches Err(ParserError::InContext(Construct::Identifier, _))
            },
            Token::This => exists|s: String| s@ == "self"@ && identifier_result(s, second, r),
            _ => if builtin_of(t) is Some && !(t is Allocator) {
                r is Ok ==> (r matches Ok(Expr::BuiltInCall { function, .. })
                    && function == builtin_of(t).unwrap().0)
            } else {
                r == Err::<Expr, ParserError>(ParserError::UnknownToken(t))
            },
        },
    }
}

/// The error reading an operand gives from its first token alone, for the
/// tokens no operand starts with (and for the end of the input).
pub open spec fn single_expr_error(first: Option<Token>) -> Option<ParserError> {
    match first {
        None => Some(ParserError::Eof),
        Some(t) => match t {
            Token::Eof | Token::Semicolon | Token::Newline => Some(ParserError::UnexpectedToken(t)),
            Token::Operator(op) => if op@ == "-"@ { None } else { Some(ParserError::UnknownToken(t)) },
            Token::True | Token::False | Token::ListStart | Token::Backtick | Token::Object | Token::Enum
            | Token::ConstantDecl | Token::MutableDecl | Token::Return | Token::Match | Token::FunctionDef
            | Token::Loop | Token::Type | Token::Conditional | Token::ElseIf | Token::Else
            | Token::StringLiteral(_) | Token::Number(_) | Token::Float(_) | Token::Identifier(_)
            | Token::This => None,
            _ => if builtin_of(t) is Some && !(t is Allocator) { None } else { Some(ParserError::UnknownToken(t)) },
        },
    }
}

/// The value of a literal operand: a text, a number, a decimal or a truth
/// value.
pub open spec fn simple_literal(t: Token) -> Option<Expr> {
    match t {
        Token::Number(n) => Some(Expr::Number(n)),
        Token::StringLiteral(s) => Some(Expr::String(s, false)),
        Token::Float(f) => Some(Expr::Float(f)),
        Token::True => Some(Expr::Bool(true)),
        Token::False => Some(Expr::Bool(false)),
        _ => None,
    }
}

/// Whether the token at `i` is a literal operand with no `.` after it.
pub open spec fn simple_operand_at(toks: Seq<Token>, i: int) -> bool {
    &&& 0 <= i < toks.len()
    &&& simple_literal(toks[i]) is Some
    &&& !(i + 1 < toks.len() && toks[i + 1] is Dot)
}

/// The literal operand at `i` (meaningful where `simple_operand_at`).
pub open spec fn operand_value(toks: Seq<Token>, i: int) -> Expr {
    simple_literal(toks[i])->Some_0
}

/// Whether the token at `i` is an operator other than `.` binding at least
/// as strongly as `min_prec`.
pub open spec fn operator_at(toks: Seq<Token>, i: int, min_prec: u8) -> bool {
    &&& 0 <= i < toks.len()
    &&& toks[i] matches Token::Operator(op) && op@ != "."@
        && crate::parser::op_expr::precedence_spec(op@) >= min_prec
}

/// The position after an expression that is a single literal operand at
/// `i`: the token after the operand and the one after that are skipped.
pub open spec fn single_operand_end(toks: Seq<Token>, i: int) -> int {
    if i + 3 <= toks.len() { i + 3 } else { toks.len() as int }
}

/// What a keyword construct starting at position `i` gives, where the
/// tokens decide it, as the functions reading the construct say (their
/// errors given in the construct's context), with `end` the position after
/// it.
pub open spec fn keyword_outcome(toks: Seq<Token>, i: int, r: Result<Expr, ParserError>, end: int) -> bool {
    match tok_at(toks, i) {
        Some(Token::Return) => {
            &&& single_expr_error(tok_at(toks, i + 1)) matches Some(e)
                ==> r == Err::<Expr, ParserError>(ParserError::InContext(Construct::Return, Box::new(e)))
            &&& simple_operand_at(toks, i + 1) && !operator_at(toks, i + 3, 0) ==> {
                &&& r == Ok::<Expr, ParserError>(Expr::Return(Box::new(operand_value(toks, i + 1))))
                &&& end == single_operand_end(toks, i + 1)
            }
        },
        Some(Token::ConstantDecl) => decl_outcome(toks, i + 1, false, r, end),
        Some(Token::MutableDecl) => decl_outcome(toks, i + 1, true, r, end),
        Some(Token::Conditional) => conditional_outcome(toks, i + 1, without_context(r), end, true),
        Some(Token::ElseIf) => conditional_outcome(toks, skip_one(toks, i + 1), without_context(r), end, false),
        Some(Token::Loop) => match loop_head_spec(toks, i + 1) {
            Some(Err(e)) => r == Err::<Expr, ParserError>(ParserError::InContext(Construct::Loop, Box::new(e))),
            Some(Ok((n, b))) => body_scan(toks, b) matches (j, true) ==> {
                &&& r matches Ok(Expr::Loop { var_name, iterable, body }) && var_name@ == n
                    && *iterable == operand_value(toks, i + 2) && body@.len() == 0
                &&& end == j
            },
            None => true,
        },
        Some(Token::Match) => match match_head_spec(toks, i + 1) {
            Some(Err(e)) => r == Err::<Expr, ParserError>(ParserError::InContext(Construct::Match, Box::new(e))),
            Some(Ok(b)) => arm_scan(toks, b).1 == 0 ==> {
                &&& r matches Ok(Expr::Match { target, arms })
                    && *target == operand_value(toks, i + 1) && arms@.len() == 0
                &&& end == arm_scan(toks, b).0
            },
            None => true,
        },
        Some(Token::FunctionDef) => match function_head_spec(toks, i + 1) {
            Err(e) => r == Err::<Expr, ParserError>(ParserError::InContext(Construct::Function, Box::new(e))),
            Ok((n, ps, rt, k)) => body_scan(toks, k) matches (j, true) ==> {
                &&& r matches Ok(Expr::FunctionDef { name, params, body, return_type: Some(t), .. })
                    && name@ == n && params_view(params@) == ps && t@ == rt && body@.len() == 0
                &&& end == j
            },
        },
        _ => true,
    }
}

/// Whether every token from position `i` on is a line break, `;`, an
/// indent or the end marker.
pub open spec fn all_blank(toks: Seq<Token>, i: int) -> bool {
    forall|k: int| i <= k < toks.len() ==>
        (#[trigger] toks[k] is Newline || toks[k] is Semicolon || toks[k] is Indent || toks[k] is Eof)
}

/// Whether a token is skipped between statements on its own: a line
/// break, `;`, an indent or the end marker.
pub open spec fn is_blank(t: Token) -> bool {
    t is Newline || t is Semicolon || t is Indent || t is Eof
}

/// Whether a token is a text, number or decimal literal.
pub open spec fn is_literal_token(t: Token) -> bool {
    t is StringLiteral || t is Number || t is Float
}

/// The position of the first token at or after `i` that is not blank, or
/// the length when there is none.
pub open spec fn first_nonblank(toks: Seq<Token>, i: int) -> int
    decreases toks.len() - i,
{
    if i >= toks.len() {
        toks.len() as int
    } else if is_blank(toks[i]) {
        first_nonblank(toks, i + 1)
    } else {
        i
    }
}

/// `first_nonblank` lies between its start and the length.
proof fn lemma_first_nonblank_bounds(toks: Seq<Token>, i: int)
    requires
        0 <= i <= toks.len(),
    ensures
        i <= first_nonblank(toks, i) <= toks.len(),
    decreases toks.len() - i,
{
    if i < toks.len() && is_blank(toks[i]) {
        lemma_first_nonblank_bounds(toks, i + 1);
    }
}

/// The position where the tokens between statements from `i` on end: line
/// breaks, `;`, indents and the end marker are skipped one each, an import
/// with the three tokens after it.
pub open spec fn skip_from(toks: Seq<Token>, i: int) -> int
    decreases toks.len() - i,
{
    if i < 0 || i >= toks.len() {
        toks.len() as int
    } else if is_blank(toks[i]) {
        skip_from(toks, i + 1)
    } else if toks[i] is Import {
        skip_from(toks, if i + 4 <= toks.len() { i + 4 } else { toks.len() as int })
    } else {
        i
    }
}

/// What reading one expression from position `p` gives, as
/// `parse_expression` says: `r`, ending at `q`.
pub open spec fn expression_parse(toks: Seq<Token>, p: int, r: Result<Expr, ParserError>, q: int) -> bool {
    &&& p <= q <= toks.len()
    &&& r is Ok ==> p < q
    &&& single_expr_error(tok_at(toks, p)) matches Some(e) ==> r == Err::<Expr, ParserError>(e)
    &&& simple_operand_at(toks, p) && !operator_at(toks, p + 2, 0) ==> {
        &&& r == Ok::<Expr, ParserError>(operand_value(toks, p))
        &&& q == single_operand_end(toks, p)
    }
    &&& operator_pair_at(toks, p, 0) ==> {
        &&& r == Ok::<Expr, ParserError>(operator_pair_value(toks, p))
        &&& q == (if p + 5 <= toks.len() { p + 5 } else { toks.len() as int })
    }
}

/// Whether `stmts` are the statements of a block read from position `i`
/// to the end of the tokens: statement `k` is read from `starts[k]` to
/// `ends[k]` as `expression_parse` says, it starts where the tokens between
/// statements after the previous one (or `i`) end, and after the last
/// statement only such tokens are left.
pub open spec fn block_trace(toks: Seq<Token>, i: int, stmts: Seq<Expr>, starts: Seq<int>, ends: Seq<int>) -> bool {
    &&& starts.len() == stmts.len()
    &&& ends.len() == stmts.len()
    &&& forall|k: int| 0 <= k < stmts.len() ==> #[trigger] starts[k]
        == skip_from(toks, if k == 0 { i } else { ends[k - 1] })
    &&& forall|k: int| 0 <= k < stmts.len() ==> expression_parse(toks, starts[k],
        Ok::<Expr, ParserError>(#[trigger] stmts[k]), ends[k])
}

/// Whether `stmts` are the statements read from position `i` to the end,
/// as `block_trace` says for some positions.
pub open spec fn block_parsed(toks: Seq<Token>, i: int, stmts: Seq<Expr>) -> bool {
    exists|starts: Seq<int>, ends: Seq<int>| #[trigger] block_trace(toks, i, stmts, starts, ends)
        && skip_from(toks, trace_end(i, ends)) == toks.len()
}

/// The position after the last statement of a traced block (`i` when it
/// has none).
pub open spec fn trace_end(i: int, ends: Seq<int>) -> int {
    if ends.len() == 0 { i } else { ends.last() }
}

/// Reads the expressions of a block until the tokens run out
/// (`parse_expression_block`). Line breaks, `;` and indentation between
/// them are skipped, an import line skips its four tokens, and a literal
/// standing alone is refused.
#[verifier::loop_isolation(false)]
pub fn parse_expression_block(tokens: &mut TokenStream) -> (r: Result<Vec<Expr>, ParserError>)
    requires
        old(tokens).wf(),
    ensures
        moved_on(*old(tokens), *final(tokens)),
        r is Ok ==> final(tokens).pos == final(tokens).tokens@.len(),
        all_blank(old(tokens).tokens@, old(tokens).pos as int) ==> (r matches Ok(v) && v@.len() == 0),
        ({
            let f = first_nonblank(old(tokens).tokens@, old(tokens).pos as int);
            f < old(tokens).tokens@.len() && is_literal_token(old(tokens).tokens@[f])
        }) ==> r == Err::<Vec<Expr>, ParserError>(ParserError::LiteralAtTopLevel),
        r matches Ok(v) ==> block_parsed(old(tokens).tokens@, old(tokens).pos as int, v@),
{
    let ghost f = first_nonblank(old(tokens).tokens@, old(tokens).pos as int);
    let ghost toks = old(tokens).tokens@;
    let ghost p0 = old(tokens).pos as int;
    let ghost mut starts: Seq<int> = Seq::empty();
    let ghost mut ends: Seq<int> = Seq::empty();
    proof {
        lemma_first_nonblank_bounds(old(tokens).tokens@, old(tokens).pos as int);
    }
    let mut ast: Vec<Expr> = Vec::new();
    loop
        invariant
            moved_on(*old(tokens), *tokens),
            all_blank(old(tokens).tokens@, old(tokens).pos as int) ==>
                ast@.len() == 0 && all_blank(tokens.tokens@, tokens.pos as int),
            f == first_nonblank(old(tokens).tokens@, old(tokens).pos as int),
            tokens.pos <= f ==> first_nonblank(tokens.tokens@, tokens.pos as int) == f,
            tokens.pos > f ==> !is_literal_token(tokens.tokens@[f]),
            f <= tokens.tokens@.len(),
            toks == tokens.tokens@,
            p0 == old(tokens).pos,
            block_trace(toks, p0, ast@, starts, ends),
            skip_from(toks, tokens.pos as int) == skip_from(toks, trace_end(p0, ends)),
        decreases tokens.remaining(),
    {
        let ghost q0 = tokens.pos;
        match tokens.peek() {
            None => {
                assert(tokens.pos == tokens.tokens@.len());
                break;
            },
            Some(Token::Newline) | Some(Token::Semicolon) | Some(Token::Indent) => {
                tokens.next();
            },
            Some(Token::Import) => {
                tokens.nth(3);
                assert(tokens.pos > q0);
            },
            Some(Token::StringLiteral(_)) | Some(Token::Number(_)) | Some(Token::Float(_)) => {
                return Err(ParserError::LiteralAtTopLevel);
            },
            Some(Token::Eof) => {
                tokens.next();
            },
            Some(_) => {
                let ghost p = tokens.pos;
                let expr = parse_expression(tokens)?;
                let ghost e = tokens.pos as int;
                proof {
                    let nstarts = starts.push(p as int);
                    let nends = ends.push(e);
                    let nast = ast@.push(expr);
                    assert(skip_from(toks, p as int) == p);
                    assert forall|k: int| 0 <= k < nast.len() implies #[trigger] nstarts[k]
                        == skip_from(toks, if k == 0 { p0 } else { nends[k - 1] }) by {
                        if k < ast@.len() {
                            assert(nstarts[k] == starts[k]);
                            if k > 0 {
                                assert(nends[k - 1] == ends[k - 1]);
                            }
                        } else {
                            if k > 0 {
                                assert(nends[k - 1] == ends[k - 1]);
                            }
                        }
                    }
                    assert forall|k: int| 0 <= k < nast.len() implies expression_parse(toks, nstarts[k],
                        Ok::<Expr, ParserError>(#[trigger] nast[k]), nends[k]) by {
                        if k < ast@.len() {
                            assert(nast[k] == ast@[k]);
                        }
                    }
                    starts = nstarts;
                    ends = nends;
                }
                ast.push(expr);
                loop
                    invariant
                        moved_on(*old(tokens), *tokens),
                        p < tokens.pos,
                        toks == tokens.tokens@,
                        e <= tokens.pos,
                        skip_from(toks, tokens.pos as int) == skip_from(toks, e),
                    decreases tokens.remaining(),
                {
                    match tokens.peek() {
                        Some(Token::Semicolon) | Some(Token::Newline) => {
                            tokens.next();
                        },
                        _ => break,
                    }
                }
            },
        }
    }
    proof {
        assert(skip_from(toks, tokens.pos as int) == toks.len());
        assert(block_trace(old(tokens).tokens@, old(tokens).pos as int, ast@, starts, ends));
        assert(skip_from(old(tokens).tokens@, trace_end(old(tokens).pos as int, ends)) == old(tokens).tokens@.len());
        assert(block_parsed(old(tokens).tokens@, old(tokens).pos as int, ast@));
    }
    Ok(ast)
}

/// Reads one expression (`parse_expression`).
pub fn parse_expression(tokens: &mut TokenStream) -> (r: Result<Expr, ParserError>)
    requires
        old(tokens).wf(),
    ensures
        parsed(*old(tokens), *final(tokens), r),
        single_expr_error(old(tokens).peek_spec()) matches Some(e) ==> r == Err::<Expr, ParserError>(e),
        simple_operand_at(old(tokens).tokens@, old(tokens).pos as int)
            && !operator_at(old(tokens).tokens@, old(tokens).pos + 2, 0) ==> {
            &&& r == Ok::<Expr, ParserError>(operand_value(old(tokens).tokens@, old(tokens).pos as int))
            &&& final(tokens).pos == single_operand_end(old(tokens).tokens@, old(tokens).pos as int)
        },
        expression_parse(old(tokens).tokens@, old(tokens).pos as int, r, final(tokens).pos as int),
    decreases old(tokens).remaining(), 3int,
{
    let r = parse_binary_op_expr(tokens, 0);
    proof {
        assert(tok_at(old(tokens).tokens@, old(tokens).pos as int) == old(tokens).peek_spec());
    }
    r
}

fn in_context(c: Construct, r: Result<Expr, ParserError>) -> (out: Result<Expr, ParserError>)
    ensures
        match r {
            Ok(e) => out == Ok::<Expr, ParserError>(e),
            Err(e) => out == Err::<Expr, ParserError>(ParserError::InContext(c, Box::new(e))),
        },
{
    match r {
        Ok(e) => Ok(e),
        Err(e) => Err(ParserError::InContext(c, Box::new(e))),
    }
}

/// Reads one operand: a literal, a name with what follows it, a keyword
/// construct or a built-in call (`parse_single_expr`).
pub fn parse_single_expr(tokens: &mut TokenStream) -> (r: Result<Expr, ParserError>)
    requires
        old(tokens).wf(),
    ensures
        parsed(*old(tokens), *final(tokens), r),
        single_expr_result(old(tokens).peek_spec(), old(tokens).at(old(tokens).pos + 1), r),
        single_expr_error(old(tokens).peek_spec()) matches Some(e) ==> r == Err::<Expr, ParserError>(e),
        simple_operand_at(old(tokens).tokens@, old(tokens).pos as int) ==> {
            &&& r == Ok::<Expr, ParserError>(operand_value(old(tokens).tokens@, old(tokens).pos as int))
            &&& final(tokens).pos == old(tokens).pos + 1
        },
        keyword_outcome(old(tokens).tokens@, old(tokens).pos as int, r, final(tokens).pos as int),
    decreases old(tokens).remaining(), 1int,
{
    let token = match tokens.next() {
        Some(t) => t,
        None => return Err(ParserError::Eof),
    };
    match token {
        Token::StringLiteral(_) => literals_parse(token, tokens),
        Token::True => Ok(Expr::Bool(true)),
        Token::False => Ok(Expr::Bool(false)),
        Token::Float(_) => literals_parse(token, tokens),
        Token::Backtick => in_context(Construct::Template, parse_template_string_expr(tokens)),
        Token::Number(_) => literals_parse(token, tokens),
        Token::This => {
            let this = String::from_str("self");
            parse_identifier(tokens, this)
        },
        Token::Object => in_context(Construct::Object, parse_struct_def(tokens)),
        Token::Enum => in_context(Construct::Enum, parse_enum_decl(tokens)),
        Token::ListStart => {
            proof { crate::parser::list::lemma_list_end_ge(tokens.tokens@, tokens.pos as int); }
            Ok(parse_list(tokens))
        },
        Token::ConstantDecl => parse_decl(tokens, false),
        Token::MutableDecl => parse_decl(tokens, true),
        Token::Return => {
            match parse_expression(tokens) {
                Ok(v) => Ok(Expr::Return(Box::new(v))),
                Err(e) => Err(ParserError::InContext(Construct::Return, Box::new(e))),
            }
        },
        Token::Match => in_context(Construct::Match, parse_match(tokens)),
        Token::FunctionDef => in_context(Construct::Function, parse_function_def(tokens)),
        Token::Operator(op) => {
            if str_eq(op.as_str(), "-") {
                let inner = parse_single_expr(tokens)?;
                Ok(Expr::UnaryOp { op: op.clone(), expr: Box::new(inner) })
            } else {
                Err(ParserError::UnknownToken(clone_token(token)))
            }
        },
        Token::Loop => in_context(Construct::Loop, parse_loop(tokens)),
        Token::Identifier(s) => in_context(Construct::Identifier, parse_identifier(tokens, s.clone())),
        Token::Type => in_context(Construct::UnionType, parse_union_type(tokens)),
        Token::Conditional => in_context(Construct::Condition, parse_if_expr(tokens)),
        Token::ElseIf => in_context(Construct::Condition, parse_else_if_expr(tokens)),
        Token::Else => in_context(Construct::Condition, parse_else_expr(tokens)),
        Token::Print | Token::Input | Token::Len | Token::NumberFn | Token::Sum | Token::RangeFn
        | Token::LastWord | Token::Sqrt | Token::Timer | Token::Max | Token::StrUpper
        | Token::StrLower | Token::Min | Token::Zig | Token::Mod | Token::Trim | Token::StrReverse
        | Token::ConvertString | Token::Round | Token::Floor | Token::Ceil => {
            parse_builtin(tokens, token)
        },
        Token::Eof | Token::Semicolon | Token::Newline => {
            Err(ParserError::UnexpectedToken(clone_token(token)))
        },
        other => Err(ParserError::UnknownToken(clone_token(other))),
    }
}

} // verus!
