//! The type a value is recorded with when an assignment gives no type.
use vstd::prelude::*;
use crate::parser::ast::{Expr, Type};

verus! {

/// The type of a value as the interpreter records it: literals by their
/// kind, anything else as `Any` (`get_run_type`).
pub open spec fn run_type(value: Expr) -> Type {
    match value {
        Expr::Number(_) => Type::Integer,
        Expr::Float(_) => Type::Float,
        Expr::Bool(_) => Type::Bool,
        Expr::Char(_) => Type::Char,
        Expr::String(_, _) | Expr::DynamicString(_) => Type::String,
        _ => Type::Any,
    }
}

/// The type of a value as the interpreter records it (`get_run_type`).
pub fn get_run_type(value: &Expr) -> (t: Type)
    ensures
        t == run_type(*value),
{
    match value {
        Expr::Number(_) => Type::Integer,
        Expr::Float(_) => Type::Float,
        Expr::Bool(_) => Type::Bool,
        Expr::Char(_) => Type::Char,
        Expr::String(_, _) => Type::String,
        Expr::DynamicString(_) => Type::String,
        _ => Type::Any,
    }
}

} // verus!
