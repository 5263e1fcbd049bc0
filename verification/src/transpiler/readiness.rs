//! Whether a checked program can be handed to the generator: the checks
//! that the generator's requirements hold, made before it runs.
use vstd::prelude::*;
use crate::parser::ast::{BuiltInFunction, Expr, MethodType, TemplateChunk, Type, type_eq};
use crate::text::str_eq;
use crate::transpiler::builtinfunctions::min_max::minmax_ready;
use crate::transpiler::builtinfunctions::print::{lemma_print_chunks_upto, print_chunks_upto, print_ready};
use crate::transpiler::decl::decl_ready;
use crate::transpiler::helpers::{expr_type, get_expr_type, list_type};
use crate::transpiler::struct_def::{lemma_methods_ready_upto, methods_ready_upto};
use crate::transpiler::transpile::{
    arg_ready, args_ready_upto, arms_ready_upto, chunks_ready_upto, defaults_ready_upto, lemma_arg_ready,
    lemma_args_ready_upto, lemma_arms_ready_upto, lemma_chunks_ready_upto, lemma_defaults_ready_upto,
    lemma_pairs_ready_upto, lemma_ready_upto, pairs_ready_upto, ready, ready_upto,
};

verus! {

/// Whether the generator gives the expression a type.
pub fn has_expr_type(e: &Expr) -> (b: bool)
    ensures
        b == (expr_type(*e) is Some),
    decreases e,
{
    match e {
        Expr::List(items) => {
            if items.len() == 0 {
                return true;
            }
            proof {
                assert(decreases_to!(*e => e->List_0));
                assert(decreases_to!(e->List_0 => e->List_0@));
                assert(decreases_to!(e->List_0@ => e->List_0@[0]));
            }
            if !has_expr_type(&items[0]) {
                return false;
            }
            let first = get_expr_type(&items[0]);
            let mut i: usize = 1;
            while i < items.len()
                invariant
                    1 <= i <= items@.len(),
                    expr_type(items@[0]) == Some(first@),
                    *e == Expr::List(*items),
                    (list_type(items@, 1, first@) is Some) == (list_type(items@, i as int, first@) is Some),
                decreases items@.len() - i,
            {
                proof {
                    assert(decreases_to!(*e => e->List_0));
                    assert(decreases_to!(e->List_0 => e->List_0@));
                    assert(decreases_to!(e->List_0@ => e->List_0@[i as int]));
                }
                if !has_expr_type(&items[i]) {
                    return false;
                }
                let t = get_expr_type(&items[i]);
                if !type_eq(&t, &first) {
                    return true;
                }
                i = i + 1;
            }
            true
        },
        Expr::Call { returned_type, .. } => returned_type.is_some(),
        Expr::VariableRef { symbol, .. } => symbol.is_some(),
        _ => true,
    }
}

/// Whether every expression of `s`, which lies inside `parent`, is ready.
#[verifier::loop_isolation(false)]
fn exprs_ready(parent: &Expr, s: &Vec<Expr>) -> (b: bool)
    requires
        forall|i: int| 0 <= i < s@.len() ==> decreases_to!(*parent => #[trigger] s@[i]),
    ensures
        b == ready_upto(s@, s@.len() as int),
    decreases parent, 1int,
{
    proof {
        lemma_ready_upto(s@, s@.len() as int);
    }
    let mut i: usize = 0;
    while i < s.len()
        invariant
            i <= s@.len(),
            forall|k: int| 0 <= k < s@.len() ==> decreases_to!(*parent => #[trigger] s@[k]),
            forall|k: int| 0 <= k < i ==> #[trigger] ready(s@[k]),
        decreases s@.len() - i,
    {
        if !is_ready(&s[i]) {
            return false;
        }
        i = i + 1;
    }
    true
}

/// Whether every call argument of `s`, which lies inside `parent`, is
/// ready as an argument.
#[verifier::loop_isolation(false)]
fn args_ready(parent: &Expr, s: &Vec<Expr>) -> (b: bool)
    requires
        forall|i: int| 0 <= i < s@.len() ==> decreases_to!(*parent => #[trigger] s@[i]),
    ensures
        b == args_ready_upto(s@, s@.len() as int),
    decreases parent, 1int,
{
    proof {
        lemma_args_ready_upto(s@, s@.len() as int);
    }
    let mut i: usize = 0;
    while i < s.len()
        invariant
            i <= s@.len(),
            forall|k: int| 0 <= k < s@.len() ==> decreases_to!(*parent => #[trigger] s@[k]),
            forall|k: int| 0 <= k < i ==> #[trigger] arg_ready(s@[k]),
        decreases s@.len() - i,
    {
        let ok = match &s[i] {
            Expr::VariableRef { transpiled_name, symbol: Some(_), .. } => transpiled_name.is_some(),
            other => is_ready(other),
        };
        proof {
            lemma_arg_ready(s@[i as int]);
        }
        if !ok {
            return false;
        }
        i = i + 1;
    }
    true
}

/// Whether the value of every named field of `s`, inside `parent`, is ready.
#[verifier::loop_isolation(false)]
fn pairs_ready(parent: &Expr, s: &Vec<(String, Expr)>) -> (b: bool)
    requires
        forall|i: int| 0 <= i < s@.len() ==> decreases_to!(*parent => #[trigger] s@[i].1),
    ensures
        b == pairs_ready_upto(s@, s@.len() as int),
    decreases parent, 1int,
{
    proof {
        lemma_pairs_ready_upto(s@, s@.len() as int);
    }
    let mut i: usize = 0;
    while i < s.len()
        invariant
            i <= s@.len(),
            forall|k: int| 0 <= k < s@.len() ==> decreases_to!(*parent => #[trigger] s@[k].1),
            forall|k: int| 0 <= k < i ==> #[trigger] ready(s@[k].1),
        decreases s@.len() - i,
    {
        if !is_ready(&s[i].1) {
            return false;
        }
        i = i + 1;
    }
    true
}

/// Whether every expression embedded in the template parts `s`, inside
/// `parent`, is ready (and, for `typed`, has a type).
#[verifier::loop_isolation(false)]
fn chunks_ready(parent: &Expr, s: &Vec<TemplateChunk>, typed: bool) -> (b: bool)
    requires
        forall|i: int| 0 <= i < s@.len() ==> (#[trigger] s@[i] matches TemplateChunk::Expr(x)
            ==> decreases_to!(*parent => *x)),
    ensures
        !typed ==> b == chunks_ready_upto(s@, s@.len() as int),
        typed ==> b == print_chunks_upto(s@, s@.len() as int),
    decreases parent, 1int,
{
    proof {
        lemma_chunks_ready_upto(s@, s@.len() as int);
        lemma_print_chunks_upto(s@, s@.len() as int);
    }
    let mut i: usize = 0;
    while i < s.len()
        invariant
            i <= s@.len(),
            forall|k: int| 0 <= k < s@.len() ==> (#[trigger] s@[k] matches TemplateChunk::Expr(x)
                ==> decreases_to!(*parent => *x)),
            forall|k: int| 0 <= k < i ==> ((#[trigger] s@[k]) matches TemplateChunk::Expr(x)
                ==> (ready(*x) && (typed ==> expr_type(*x) is Some))),
        decreases s@.len() - i,
    {
        match &s[i] {
            TemplateChunk::Expr(x) => {
                if !is_ready(x) {
                    return false;
                }
                if typed && !has_expr_type(x) {
                    return false;
                }
            },
            TemplateChunk::Literal(_) => {},
        }
        i = i + 1;
    }
    true
}

/// Whether the default value of every field of `s`, inside `parent`, is ready.
#[verifier::loop_isolation(false)]
fn defaults_ready(parent: &Expr, s: &Vec<(String, Type, Option<Expr>)>) -> (b: bool)
    requires
        forall|i: int| 0 <= i < s@.len() ==> (#[trigger] s@[i].2 matches Some(d) ==> decreases_to!(*parent => d)),
    ensures
        b == defaults_ready_upto(s@, s@.len() as int),
    decreases parent, 1int,
{
    proof {
        lemma_defaults_ready_upto(s@, s@.len() as int);
    }
    let mut i: usize = 0;
    while i < s.len()
        invariant
            i <= s@.len(),
            forall|k: int| 0 <= k < s@.len() ==> (#[trigger] s@[k].2 matches Some(d) ==> decreases_to!(*parent => d)),
            forall|k: int| 0 <= k < i ==> ((#[trigger] s@[k]).2 matches Some(d) ==> ready(d)),
        decreases s@.len() - i,
    {
        match &s[i].2 {
            Some(d) => {
                if !is_ready(d) {
                    return false;
                }
            },
            None => {},
        }
        i = i + 1;
    }
    true
}

/// Whether the body of every method of `s`, inside `parent`, is ready.
#[verifier::loop_isolation(false)]
fn methods_ready(parent: &Expr, s: &Vec<MethodType>) -> (b: bool)
    requires
        forall|k: int, i: int| 0 <= k < s@.len() && 0 <= i < s@[k].body@.len()
            ==> decreases_to!(*parent => #[trigger] s@[k].body@[i]),
    ensures
        b == methods_ready_upto(s@, s@.len() as int),
    decreases parent, 2int,
{
    proof {
        lemma_methods_ready_upto(s@, s@.len() as int);
    }
    let mut k: usize = 0;
    while k < s.len()
        invariant
            k <= s@.len(),
            forall|q: int, i: int| 0 <= q < s@.len() && 0 <= i < s@[q].body@.len()
                ==> decreases_to!(*parent => #[trigger] s@[q].body@[i]),
            forall|q: int| 0 <= q < k ==> #[trigger] ready_upto(s@[q].body@, s@[q].body@.len() as int),
        decreases s@.len() - k,
    {
        if !exprs_ready(parent, &s[k].body) {
            return false;
        }
        k = k + 1;
    }
    true
}

/// Whether the pattern and body of every arm of `s`, inside `parent`, are ready.
#[verifier::loop_isolation(false)]
fn arms_ready(parent: &Expr, s: &Vec<(Expr, Vec<Expr>)>) -> (b: bool)
    requires
        forall|k: int| 0 <= k < s@.len() ==> decreases_to!(*parent => #[trigger] s@[k].0),
        forall|k: int, i: int| 0 <= k < s@.len() && 0 <= i < s@[k].1@.len()
            ==> decreases_to!(*parent => #[trigger] s@[k].1@[i]),
    ensures
        b == arms_ready_upto(s@, s@.len() as int),
    decreases parent, 2int,
{
    proof {
        lemma_arms_ready_upto(s@, s@.len() as int);
    }
    let mut k: usize = 0;
    while k < s.len()
        invariant
            k <= s@.len(),
            forall|q: int| 0 <= q < s@.len() ==> decreases_to!(*parent => #[trigger] s@[q].0),
            forall|q: int, i: int| 0 <= q < s@.len() && 0 <= i < s@[q].1@.len()
                ==> decreases_to!(*parent => #[trigger] s@[q].1@[i]),
            forall|q: int| 0 <= q < k ==> #[trigger] ready(s@[q].0),
            forall|q: int| 0 <= q < k ==> #[trigger] ready_upto(s@[q].1@, s@[q].1@.len() as int),
        decreases s@.len() - k,
    {
        if !is_ready(&s[k].0) {
            return false;
        }
        if !exprs_ready(parent, &s[k].1) {
            return false;
        }
        k = k + 1;
    }
    assert forall|q: int| 0 <= q < s@.len() implies
        #[trigger] ready(s@[q].0) && ready_upto(s@[q].1@, s@[q].1@.len() as int) by {
        assert(ready(s@[q].0));
        assert(ready_upto(s@[q].1@, s@[q].1@.len() as int));
    }
    true
}

/// Whether the generator can produce code for `e` without stopping
/// (`ready`): every name it writes has been given by the validator, every
/// built-in call has the arguments it reads, and no form is met that it has
/// no code for.
pub fn is_ready(e: &Expr) -> (b: bool)
    ensures
        b == ready(*e),
    decreases e, 3int,
{
    match e {
        Expr::String(_, _) | Expr::Number(_) | Expr::Float(_) | Expr::Bool(_) | Expr::Break
        | Expr::Continue | Expr::VariableRef { .. } | Expr::EnumDecl(_) => true,
        Expr::DynamicString(_) | Expr::Char(_) | Expr::Assingment { .. } | Expr::Time(_) => false,
        Expr::Decl { transpiled_name, typ, value, .. } => {
            if transpiled_name.is_none() || !is_ready(value) {
                return false;
            }
            let ok = match typ {
                Some(Type::Array(_)) => match &**value {
                    Expr::List(items) => {
                        proof {
                            assert forall|i: int| 0 <= i < items@.len() implies
                                decreases_to!(*e => #[trigger] items@[i]) by {
                                assert(decreases_to!(*e => *e->Decl_value));
                                assert(decreases_to!(*e->Decl_value => e->Decl_value->List_0));
                                assert(decreases_to!(e->Decl_value->List_0 => e->Decl_value->List_0@));
                                assert(decreases_to!(e->Decl_value->List_0@ => e->Decl_value->List_0@[i]));
                            }
                        }
                        exprs_ready(e, items)
                    },
                    _ => false,
                },
                _ => true,
            };
            assert(ok == decl_ready(*typ, **value));
            ok
        },
        Expr::Return(inner) => is_ready(inner),
        Expr::UnaryOp { expr, .. } => is_ready(expr),
        Expr::List(items) => {
            proof {
                assert forall|i: int| 0 <= i < items@.len() implies decreases_to!(*e => #[trigger] items@[i]) by {
                    assert(decreases_to!(*e => e->List_0));
                    assert(decreases_to!(e->List_0 => e->List_0@));
                    assert(decreases_to!(e->List_0@ => e->List_0@[i]));
                }
            }
            exprs_ready(e, items)
        },
        Expr::If { condition, then_branch, else_branch } => {
            proof {
                assert forall|i: int| 0 <= i < then_branch@.len() implies
                    decreases_to!(*e => #[trigger] then_branch@[i]) by {
                    assert(decreases_to!(*e => e->If_then_branch));
                    assert(decreases_to!(e->If_then_branch => e->If_then_branch@));
                    assert(decreases_to!(e->If_then_branch@ => e->If_then_branch@[i]));
                }
                assert forall|i: int| 0 <= i < else_branch@.len() implies
                    decreases_to!(*e => #[trigger] else_branch@[i]) by {
                    assert(decreases_to!(*e => e->If_else_branch));
                    assert(decreases_to!(e->If_else_branch => e->If_else_branch@));
                    assert(decreases_to!(e->If_else_branch@ => e->If_else_branch@[i]));
                }
            }
            is_ready(condition) && exprs_ready(e, then_branch) && exprs_ready(e, else_branch)
        },
        Expr::ElseIf { condition, then_branch } => {
            proof {
                assert forall|i: int| 0 <= i < then_branch@.len() implies
                    decreases_to!(*e => #[trigger] then_branch@[i]) by {
                    assert(decreases_to!(*e => e->ElseIf_then_branch));
                    assert(decreases_to!(e->ElseIf_then_branch => e->ElseIf_then_branch@));
                    assert(decreases_to!(e->ElseIf_then_branch@ => e->ElseIf_then_branch@[i]));
                }
            }
            is_ready(condition) && exprs_ready(e, then_branch)
        },
        Expr::Else { then_branch } => {
            proof {
                assert forall|i: int| 0 <= i < then_branch@.len() implies
                    decreases_to!(*e => #[trigger] then_branch@[i]) by {
                    assert(decreases_to!(*e => e->Else_then_branch));
                    assert(decreases_to!(e->Else_then_branch => e->Else_then_branch@));
                    assert(decreases_to!(e->Else_then_branch@ => e->Else_then_branch@[i]));
                }
            }
            exprs_ready(e, then_branch)
        },
        Expr::BinaryOp { left, right, .. } => is_ready(left) && is_ready(right),
        Expr::StructDef { transpiled_name, fields, methods, .. } => {
            proof {
                assert forall|i: int| 0 <= i < fields@.len() implies
                    (#[trigger] fields@[i].2 matches Some(d) ==> decreases_to!(*e => d)) by {
                    assert(decreases_to!(*e => e->StructDef_fields));
                    assert(decreases_to!(e->StructDef_fields => e->StructDef_fields@));
                    assert(decreases_to!(e->StructDef_fields@ => e->StructDef_fields@[i]));
                    assert(decreases_to!(e->StructDef_fields@[i] => e->StructDef_fields@[i].2));
                    if e->StructDef_fields@[i].2 is Some {
                        assert(decreases_to!(e->StructDef_fields@[i].2 => e->StructDef_fields@[i].2->0));
                    }
                }
                assert forall|k: int, i: int| 0 <= k < methods@.len() && 0 <= i < methods@[k].body@.len()
                    implies decreases_to!(*e => #[trigger] methods@[k].body@[i]) by {
                    assert(decreases_to!(*e => e->StructDef_methods));
                    assert(decreases_to!(e->StructDef_methods => e->StructDef_methods@));
                    assert(decreases_to!(e->StructDef_methods@ => e->StructDef_methods@[k]));
                    assert(decreases_to!(e->StructDef_methods@[k] => e->StructDef_methods@[k].body));
                    assert(decreases_to!(e->StructDef_methods@[k].body => e->StructDef_methods@[k].body@));
                    assert(decreases_to!(e->StructDef_methods@[k].body@ => e->StructDef_methods@[k].body@[i]));
                }
            }
            transpiled_name.is_some() && defaults_ready(e, fields) && methods_ready(e, methods)
        },
        Expr::UnionType { transpiled_name, methods, .. } => {
            proof {
                assert forall|k: int, i: int| 0 <= k < methods@.len() && 0 <= i < methods@[k].body@.len()
                    implies decreases_to!(*e => #[trigger] methods@[k].body@[i]) by {
                    assert(decreases_to!(*e => e->UnionType_methods));
                    assert(decreases_to!(e->UnionType_methods => e->UnionType_methods@));
                    assert(decreases_to!(e->UnionType_methods@ => e->UnionType_methods@[k]));
                    assert(decreases_to!(e->UnionType_methods@[k] => e->UnionType_methods@[k].body));
                    assert(decreases_to!(e->UnionType_methods@[k].body => e->UnionType_methods@[k].body@));
                    assert(decreases_to!(e->UnionType_methods@[k].body@ => e->UnionType_methods@[k].body@[i]));
                }
            }
            transpiled_name.is_some() && methods_ready(e, methods)
        },
        Expr::TemplateString(chunks) => {
            proof {
                assert forall|i: int| 0 <= i < chunks@.len() implies
                    (#[trigger] chunks@[i] matches TemplateChunk::Expr(x) ==> decreases_to!(*e => *x)) by {
                    assert(decreases_to!(*e => e->TemplateString_0));
                    assert(decreases_to!(e->TemplateString_0 => e->TemplateString_0@));
                    assert(decreases_to!(e->TemplateString_0@ => e->TemplateString_0@[i]));
                    if e->TemplateString_0@[i] is Expr {
                        assert(decreases_to!(e->TemplateString_0@[i] => e->TemplateString_0@[i]->Expr_0));
                    }
                }
            }
            chunks_ready(e, chunks, false)
        },
        Expr::FunctionDef { body, .. } => {
            proof {
                assert forall|i: int| 0 <= i < body@.len() implies decreases_to!(*e => #[trigger] body@[i]) by {
                    assert(decreases_to!(*e => e->FunctionDef_body));
                    assert(decreases_to!(e->FunctionDef_body => e->FunctionDef_body@));
                    assert(decreases_to!(e->FunctionDef_body@ => e->FunctionDef_body@[i]));
                }
            }
            exprs_ready(e, body)
        },
        Expr::BuiltInCall { function, args, .. } => {
            proof {
                assert forall|i: int| 0 <= i < args@.len() implies decreases_to!(*e => #[trigger] args@[i]) by {
                    assert(decreases_to!(*e => e->BuiltInCall_args));
                    assert(decreases_to!(e->BuiltInCall_args => e->BuiltInCall_args@));
                    assert(decreases_to!(e->BuiltInCall_args@ => e->BuiltInCall_args@[i]));
                }
            }
            match function {
                BuiltInFunction::Print | BuiltInFunction::LastWord => {
                    if args.len() < 1 {
                        return false;
                    }
                    match &args[0] {
                        Expr::TemplateString(chunks) => {
                            proof {
                                assert forall|i: int| 0 <= i < chunks@.len() implies
                                    (#[trigger] chunks@[i] matches TemplateChunk::Expr(x) ==> decreases_to!(*e => *x)) by {
                                    let a = e->BuiltInCall_args@[0];
                                    assert(decreases_to!(*e => a));
                                    assert(decreases_to!(a => a->TemplateString_0));
                                    assert(decreases_to!(a->TemplateString_0 => a->TemplateString_0@));
                                    assert(decreases_to!(a->TemplateString_0@ => a->TemplateString_0@[i]));
                                    if a->TemplateString_0@[i] is Expr {
                                        assert(decreases_to!(a->TemplateString_0@[i] => a->TemplateString_0@[i]->Expr_0));
                                    }
                                }
                            }
                            let r = chunks_ready(e, chunks, true);
                            assert(print_ready(args@[0]) == print_chunks_upto(chunks@, chunks@.len() as int));
                            assert(r == ready(*e));
                            r
                        },
                        other => {
                            let r = is_ready(other) && has_expr_type(other);
                            assert(print_ready(args@[0]) == (ready(args@[0]) && expr_type(args@[0]) is Some));
                            assert(r == ready(*e));
                            r
                        },
                    }
                },
                BuiltInFunction::Max | BuiltInFunction::Min => {
                    if args.len() < 1 {
                        return false;
                    }
                    let named = match &args[0] {
                        Expr::VariableRef { transpiled_name, symbol: Some(_), .. } => transpiled_name.is_some(),
                        _ => true,
                    };
                    let r = is_ready(&args[0]) && has_expr_type(&args[0]) && named;
                    assert(minmax_ready(args@[0]) == (ready(args@[0]) && expr_type(args@[0]) is Some
                        && (args@[0] matches Expr::VariableRef { transpiled_name, symbol: Some(_), .. }
                            ==> transpiled_name is Some)));
                    assert(r == ready(*e));
                    r
                },
                BuiltInFunction::Sum => {
                    if args.len() < 1 {
                        return false;
                    }
                    has_expr_type(&args[0]) && exprs_ready(e, args)
                },
                BuiltInFunction::Range => args.len() >= 2 && is_ready(&args[0]) && is_ready(&args[1]),
                BuiltInFunction::Timer => true,
                BuiltInFunction::Len | BuiltInFunction::Trim | BuiltInFunction::Allocator => false,
                _ => args.len() >= 1 && is_ready(&args[0]),
            }
        },
        Expr::Call { transpiled_name, args, .. } => {
            proof {
                assert forall|i: int| 0 <= i < args@.len() implies decreases_to!(*e => #[trigger] args@[i]) by {
                    assert(decreases_to!(*e => e->Call_args));
                    assert(decreases_to!(e->Call_args => e->Call_args@));
                    assert(decreases_to!(e->Call_args@ => e->Call_args@[i]));
                }
            }
            transpiled_name.is_some() && args_ready(e, args)
        },
        Expr::StructInit { transpiled_name, args, .. } => {
            proof {
                assert forall|i: int| 0 <= i < args@.len() implies decreases_to!(*e => #[trigger] args@[i].1) by {
                    assert(decreases_to!(*e => e->StructInit_args));
                    assert(decreases_to!(e->StructInit_args => e->StructInit_args@));
                    assert(decreases_to!(e->StructInit_args@ => e->StructInit_args@[i]));
                    assert(decreases_to!(e->StructInit_args@[i] => e->StructInit_args@[i].1));
                }
            }
            transpiled_name.is_some() && pairs_ready(e, args)
        },
        Expr::Loop { iterable, body, .. } => {
            proof {
                assert forall|i: int| 0 <= i < body@.len() implies decreases_to!(*e => #[trigger] body@[i]) by {
                    assert(decreases_to!(*e => e->Loop_body));
                    assert(decreases_to!(e->Loop_body => e->Loop_body@));
                    assert(decreases_to!(e->Loop_body@ => e->Loop_body@[i]));
                }
            }
            is_ready(iterable) && exprs_ready(e, body)
        },
        Expr::Index { target, index, .. } => is_ready(target) && is_ready(index) && has_expr_type(index),
        Expr::Match { target, arms } => {
            proof {
                assert forall|k: int| 0 <= k < arms@.len() implies decreases_to!(*e => #[trigger] arms@[k].0) by {
                    assert(decreases_to!(*e => e->Match_arms));
                    assert(decreases_to!(e->Match_arms => e->Match_arms@));
                    assert(decreases_to!(e->Match_arms@ => e->Match_arms@[k]));
                    assert(decreases_to!(e->Match_arms@[k] => e->Match_arms@[k].0));
                }
                assert forall|k: int, i: int| 0 <= k < arms@.len() && 0 <= i < arms@[k].1@.len()
                    implies decreases_to!(*e => #[trigger] arms@[k].1@[i]) by {
                    assert(decreases_to!(*e => e->Match_arms));
                    assert(decreases_to!(e->Match_arms => e->Match_arms@));
                    assert(decreases_to!(e->Match_arms@ => e->Match_arms@[k]));
                    assert(decreases_to!(e->Match_arms@[k] => e->Match_arms@[k].1));
                    assert(decreases_to!(e->Match_arms@[k].1 => e->Match_arms@[k].1@));
                    assert(decreases_to!(e->Match_arms@[k].1@ => e->Match_arms@[k].1@[i]));
                }
            }
            is_ready(target) && arms_ready(e, arms)
        },
        Expr::Assignment { value, .. } => {
            match &**value {
                Expr::StructInit { transpiled_name: Some(tn), args, .. } => {
                    if str_eq(tn.as_str(), "azlangYazi") {
                        if args.len() < 1 {
                            return false;
                        }
                        proof {
                            assert(decreases_to!(*e => *e->Assignment_value));
                            let v = *e->Assignment_value;
                            assert(decreases_to!(v => v->StructInit_args));
                            assert(decreases_to!(v->StructInit_args => v->StructInit_args@));
                            assert(decreases_to!(v->StructInit_args@ => v->StructInit_args@[0]));
                            assert(decreases_to!(v->StructInit_args@[0] => v->StructInit_args@[0].1));
                        }
                        is_ready(&args[0].1)
                    } else {
                        is_ready(value)
                    }
                },
                _ => is_ready(value),
            }
        },
    }
}

} // verus!
