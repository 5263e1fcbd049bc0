//! Operator precedence as the expression parser ranks it.
use vstd::prelude::*;
use crate::text::str_eq;

verus! {

/// The binding strength of an operator; 0 for a text that is no operator
/// (`get_precedence`).
pub fn get_precedence(op: &str) -> (r: u8)
    ensures
        r == crate::parser::op_expr::precedence_spec(op@),
{
    if str_eq(op, "=") {
        1
    } else if str_eq(op, "və") || str_eq(op, "vəya") {
        2
    } else if str_eq(op, "==") || str_eq(op, "!=") || str_eq(op, "<") || str_eq(op, "<=")
        || str_eq(op, ">") || str_eq(op, ">=") {
        3
    } else if str_eq(op, "+") || str_eq(op, "-") {
        4
    } else if str_eq(op, "*") || str_eq(op, "/") || str_eq(op, "%") {
        5
    } else {
        0
    }
}

} // verus!
