//! Binary operators, by precedence.
use vstd::prelude::*;
use crate::lexer::Token;
use crate::parser::ast::Expr;
use crate::parser::expression::{parse_single_expr, single_expr_error, simple_operand_at, operand_value,
    operator_at, single_operand_end};
use crate::parser::function_def::tok_at;
use crate::parser::stream::{TokenStream, parsed, moved_on};
use crate::text::str_eq;
use crate::translations::parser_errors::ParserError;

verus! {

/// The binding strength of an operator; 0 for a text that is no operator.
pub open spec fn precedence_spec(op: Seq<char>) -> u8 {
    if op == "="@ {
        1
    } else if op == "və"@ || op == "vəya"@ {
        2
    } else if op == "=="@ || op == "!="@ || op == "<"@ || op == "<="@ || op == ">"@ || op == ">="@ {
        3
    } else if op == "+"@ || op == "-"@ {
        4
    } else if op == "*"@ || op == "/"@ || op == "%"@ {
        5
    } else {
        0
    }
}

/// `.` binds as no operator.
proof fn lemma_dot_precedence()
    ensures
        precedence_spec("."@) == 0,
{
    reveal_strlit(".");
    reveal_strlit("=");
    reveal_strlit("və");
    reveal_strlit("vəya");
    reveal_strlit("==");
    reveal_strlit("!=");
    reveal_strlit("<");
    reveal_strlit("<=");
    reveal_strlit(">");
    reveal_strlit(">=");
    reveal_strlit("+");
    reveal_strlit("-");
    reveal_strlit("*");
    reveal_strlit("/");
    reveal_strlit("%");
    assert("."@ != "="@) by { assert("."@[0] != "="@[0]); }
    assert("."@ != "və"@) by { assert("."@.len() != "və"@.len()); }
    assert("."@ != "vəya"@) by { assert("."@.len() != "vəya"@.len()); }
    assert("."@ != "=="@) by { assert("."@.len() != "=="@.len()); }
    assert("."@ != "!="@) by { assert("."@.len() != "!="@.len()); }
    assert("."@ != "<="@) by { assert("."@.len() != "<="@.len()); }
    assert("."@ != ">="@) by { assert("."@.len() != ">="@.len()); }
    assert("."@ != "<"@) by { assert("."@[0] != "<"@[0]); }
    assert("."@ != ">"@) by { assert("."@[0] != ">"@[0]); }
    assert("."@ != "+"@) by { assert("."@[0] != "+"@[0]); }
    assert("."@ != "-"@) by { assert("."@[0] != "-"@[0]); }
    assert("."@ != "*"@) by { assert("."@[0] != "*"@[0]); }
    assert("."@ != "/"@) by { assert("."@[0] != "/"@[0]); }
    assert("."@ != "%"@) by { assert("."@[0] != "%"@[0]); }
}

/// The binding strength of an operator (`get_precedence`).
pub fn get_precedence(op: &str) -> (r: u8)
    ensures
        r == precedence_spec(op@),
        r <= 5,
{
    if str_eq(op, "=") {
        1
    } else if str_eq(op, "və") || str_eq(op, "vəya") {
        2
    } else if str_eq(op, "==") || str_eq(op, "!=") || str_eq(op, "<") || str_eq(op, "<=")
        || str_eq(op, ">") || str_eq(op, ">=") {
        3
    } else if str_eq(op, "+") || str_eq(op, "-") {
        4
    } else if str_eq(op, "*") || str_eq(op, "/") || str_eq(op, "%") {
        5
    } else {
        0
    }
}

/// The operator text of the next token when it is an operator other than `.`.
fn peek_operator<'a>(tokens: &TokenStream<'a>) -> (r: Option<&'a String>)
    requires
        tokens.wf(),
    ensures
        r matches Some(op) ==> tokens.peek_spec() == Some(Token::Operator(*op)) && op@ != "."@,
        r is None ==> !(tokens.peek_spec() matches Some(Token::Operator(op)) && op@ != "."@),
{
    match tokens.peek() {
        Some(Token::Operator(op)) => {
            if str_eq(op.as_str(), ".") {
                None
            } else {
                Some(op)
            }
        },
        _ => None,
    }
}

/// Whether the tokens from `i` on are two literal operands around one
/// operator (not `=`) binding at least as strongly as `min_prec`, with the
/// token after the first operand skipped and no operator after the second:
/// `a _ op b` followed by anything but an operator.
pub open spec fn operator_pair_at(toks: Seq<Token>, i: int, min_prec: u8) -> bool {
    &&& simple_operand_at(toks, i)
    &&& operator_at(toks, i + 2, min_prec)
    &&& toks[i + 2]->Operator_0@ != "="@
    &&& simple_operand_at(toks, i + 3)
    &&& !(tok_at(toks, i + 4) matches Some(Token::Operator(o)) && o@ != "."@)
}

/// The operation `operator_pair_at` reads.
pub open spec fn operator_pair_value(toks: Seq<Token>, i: int) -> Expr {
    Expr::BinaryOp {
        left: Box::new(operand_value(toks, i)),
        op: toks[i + 2]->Operator_0,
        right: Box::new(operand_value(toks, i + 3)),
    }
}

/// Reads an operand and the operators binding at least as strongly as
/// `min_prec` after it (`parse_binary_op_expr`). The token after the first
/// operand and the token after the whole expression are skipped, and `=`
/// makes an assignment to the variable on its left.
#[verifier::loop_isolation(false)]
pub fn parse_binary_op_expr(tokens: &mut TokenStream, min_prec: u8) -> (r: Result<Expr, ParserError>)
    requires
        old(tokens).wf(),
    ensures
        parsed(*old(tokens), *final(tokens), r),
        single_expr_error(old(tokens).peek_spec()) matches Some(e) ==> r == Err::<Expr, ParserError>(e),
        simple_operand_at(old(tokens).tokens@, old(tokens).pos as int)
            && !operator_at(old(tokens).tokens@, old(tokens).pos + 2, min_prec) ==> {
            &&& r == Ok::<Expr, ParserError>(operand_value(old(tokens).tokens@, old(tokens).pos as int))
            &&& final(tokens).pos == single_operand_end(old(tokens).tokens@, old(tokens).pos as int)
        },
        operator_pair_at(old(tokens).tokens@, old(tokens).pos as int, min_prec) ==> {
            &&& r == Ok::<Expr, ParserError>(operator_pair_value(old(tokens).tokens@, old(tokens).pos as int))
            &&& final(tokens).pos == (if old(tokens).pos + 5 <= old(tokens).tokens@.len() {
                old(tokens).pos + 5 } else { old(tokens).tokens@.len() as int })
        },
    decreases old(tokens).remaining(), 2int,
{
    let ghost toks = old(tokens).tokens@;
    let ghost p0 = old(tokens).pos as int;
    let ghost pair = operator_pair_at(toks, p0, min_prec);
    let mut left = match parse_single_expr(tokens) {
        Ok(e) => e,
        Err(e) => return Err(e),
    };
    tokens.next();
    let ghost simple = simple_operand_at(toks, p0) && !operator_at(toks, p0 + 2, min_prec);
    assert(simple ==> tokens.pos == (if p0 + 2 <= toks.len() { p0 + 2 } else { toks.len() as int }));
    loop
        invariant
            moved_on(*old(tokens), *tokens),
            old(tokens).pos < tokens.pos,
            toks == tokens.tokens@,
            simple ==> left == operand_value(toks, p0)
                && tokens.pos == (if p0 + 2 <= toks.len() { p0 + 2 } else { toks.len() as int }),
            pair ==> (left == operand_value(toks, p0) && tokens.pos == p0 + 2)
                || (left == operator_pair_value(toks, p0) && tokens.pos == p0 + 4),
        decreases tokens.remaining(),
    {
        let op_token = match peek_operator(tokens) {
            Some(op) => op,
            None => break,
        };
        let prec = get_precedence(op_token.as_str());
        if prec < min_prec {
            break;
        }
        assert(!simple);
        let ghost p = tokens.pos;
        tokens.next();
        let mut right = match parse_single_expr(tokens) {
            Ok(e) => e,
            Err(e) => return Err(e),
        };
        proof {
            if pair {
                assert(p == p0 + 2);
                assert(right == operand_value(toks, p0 + 3) && tokens.pos == p0 + 4);
            }
        }
        loop
            invariant
                moved_on(*old(tokens), *tokens),
                old(tokens).pos < tokens.pos,
                p < tokens.pos,
                prec <= 5,
                toks == tokens.tokens@,
                pair ==> p == p0 + 2 && right == operand_value(toks, p0 + 3) && tokens.pos == p0 + 4
                    && op_token@ == toks[p0 + 2]->Operator_0@ && *op_token == toks[p0 + 2]->Operator_0,
            decreases tokens.remaining(),
        {
            let next_prec = match tokens.peek() {
                Some(Token::Operator(next_op)) => get_precedence(next_op.as_str()),
                _ => 0,
            };
            proof {
                if pair {
                    assert(next_prec == 0) by {
                        lemma_dot_precedence();
                    }
                }
            }
            if next_prec > prec {
                right = parse_binary_op_expr(tokens, prec + 1)?;
            } else {
                break;
            }
        }
        if str_eq(op_token.as_str(), "=") {
            match left {
                Expr::VariableRef { name, .. } => {
                    left = Expr::Assignment { name, value: Box::new(right), symbol: None };
                },
                _ => {
                    return Err(ParserError::VariableNotFound);
                },
            }
        } else {
            left = Expr::BinaryOp { left: Box::new(left), op: op_token.clone(), right: Box::new(right) };
        }
    }
    tokens.next();
    Ok(left)
}

} // verus!
