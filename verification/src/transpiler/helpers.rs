//! What the generator needs to know of types and expressions: the Zig type
//! a type is written as, the format a value is printed with, the type of an
//! expression, and how a parameter is declared.
use vstd::prelude::*;
use crate::parser::ast::{Expr, Parameter, Type, TypeV, clone_type, type_eq};
use crate::text::{join_seq, push_str, to_owned_string, views};

verus! {

/// The Zig type `t` is written as; `is_const` asks for the read-only form
/// where the type has one.
pub open spec fn map_type_text(t: TypeV, is_const: bool) -> Seq<char>
    decreases t,
{
    match t {
        TypeV::Integer => "azlangEded"@,
        TypeV::Natural => "azlangEded"@,
        TypeV::Any => "any"@,
        TypeV::Void => "void"@,
        TypeV::Float => "f64"@,
        TypeV::ZigFloat => "f64"@,
        TypeV::BigInteger => if is_const { "const i128"@ } else { "i128"@ },
        TypeV::Char => "u8"@,
        TypeV::LowInteger => if is_const { "const u8"@ } else { "u8"@ },
        TypeV::String => "azlangYazi"@,
        TypeV::LiteralString => "[]u8"@,
        TypeV::ZigNatural => "usize"@,
        TypeV::ZigInteger => "isize"@,
        TypeV::LiteralConstString => "[]const u8"@,
        TypeV::ZigArray => "[]usize"@,
        TypeV::ZigConstArray => "[]const usize"@,
        TypeV::Bool => "bool"@,
        TypeV::Array(inner) => map_type_text(*inner, is_const),
        TypeV::User(_, s) => s,
        TypeV::Allocator => "std.mem.Allocator"@,
    }
}

/// The Zig type `typ` is written as (`map_type`).
pub fn map_type(typ: &Type, is_const: bool) -> (r: String)
    ensures
        r@ == map_type_text(typ@, is_const),
    decreases typ,
{
    match typ {
        Type::Integer => String::from_str("azlangEded"),
        Type::Natural => String::from_str("azlangEded"),
        Type::Any => String::from_str("any"),
        Type::Void => String::from_str("void"),
        Type::Float => String::from_str("f64"),
        Type::ZigFloat => String::from_str("f64"),
        Type::BigInteger => if is_const { String::from_str("const i128") } else { String::from_str("i128") },
        Type::Char => String::from_str("u8"),
        Type::LowInteger => if is_const { String::from_str("const u8") } else { String::from_str("u8") },
        Type::String => String::from_str("azlangYazi"),
        Type::LiteralString => String::from_str("[]u8"),
        Type::ZigNatural => String::from_str("usize"),
        Type::ZigInteger => String::from_str("isize"),
        Type::LiteralConstString => String::from_str("[]const u8"),
        Type::ZigArray => String::from_str("[]usize"),
        Type::ZigConstArray => String::from_str("[]const usize"),
        Type::Bool => String::from_str("bool"),
        Type::Array(inner) => map_type(inner, is_const),
        Type::User(_, s) => s.clone(),
        Type::Allocator => String::from_str("std.mem.Allocator"),
    }
}

/// The format a value of type `t` is printed with; `is_allocator` marks a
/// value that comes out of a call that may fail.
pub open spec fn format_text(t: TypeV, is_allocator: bool) -> Seq<char> {
    match t {
        TypeV::String | TypeV::LiteralString | TypeV::LiteralConstString =>
            if is_allocator { "{!s}"@ } else { "{s}"@ },
        TypeV::ZigNatural | TypeV::ZigInteger | TypeV::Integer | TypeV::BigInteger | TypeV::LowInteger
        | TypeV::Bool | TypeV::Natural => if is_allocator { "{!}"@ } else { "{}"@ },
        TypeV::Char => if is_allocator { "{!c}"@ } else { "{c}"@ },
        TypeV::Float | TypeV::ZigFloat => if is_allocator { "{!d}"@ } else { "{d}"@ },
        TypeV::Void | TypeV::Allocator => ""@,
        TypeV::Any | TypeV::Array(_) | TypeV::ZigConstArray | TypeV::ZigArray => "{any}"@,
        TypeV::User(_, _) => if is_allocator { "{!any}"@ } else { "{any}"@ },
    }
}

/// The format a value of type `t` is printed with (`get_format_str_from_type`).
pub fn get_format_str_from_type(t: &Type, is_allocator: bool) -> (r: &'static str)
    ensures
        r@ == format_text(t@, is_allocator),
{
    match t {
        Type::String | Type::LiteralString | Type::LiteralConstString => if is_allocator { "{!s}" } else { "{s}" },
        Type::ZigNatural | Type::ZigInteger | Type::Integer | Type::BigInteger | Type::LowInteger
        | Type::Bool | Type::Natural => if is_allocator { "{!}" } else { "{}" },
        Type::Char => if is_allocator { "{!c}" } else { "{c}" },
        Type::Float | Type::ZigFloat => if is_allocator { "{!d}" } else { "{d}" },
        Type::Void | Type::Allocator => "",
        Type::Any | Type::Array(_) | Type::ZigConstArray | Type::ZigArray => "{any}",
        Type::User(_, _) => if is_allocator { "{!any}" } else { "{any}" },
    }
}

/// Whether the statement `e` ends with a semicolon in generated code.
pub open spec fn semicolon_needed(e: Expr) -> bool {
    ||| e is Assignment
    ||| e is Break
    ||| e is Continue
    ||| e is Return
    ||| e is Decl
    ||| e is Call
    ||| e is BuiltInCall
    ||| e is VariableRef
    ||| e is Index
    ||| e is BinaryOp
}

/// Whether the statement `e` ends with a semicolon (`is_semicolon_needed`).
pub fn is_semicolon_needed(expr: &Expr) -> (b: bool)
    ensures
        b == semicolon_needed(*expr),
{
    match expr {
        Expr::Assignment { .. } | Expr::Break | Expr::Continue | Expr::Return(_) | Expr::Decl { .. }
        | Expr::Call { .. } | Expr::BuiltInCall { .. } | Expr::VariableRef { .. } | Expr::Index { .. }
        | Expr::BinaryOp { .. } => true,
        _ => false,
    }
}

/// The type the generator gives `e`, `None` where a call has no return type
/// or a variable no symbol attached (the validator attaches them).
pub open spec fn expr_type(e: Expr) -> Option<TypeV>
    decreases e, 0int,
{
    match e {
        Expr::String(_, _) => Some(TypeV::String),
        Expr::Number(_) => Some(TypeV::Integer),
        Expr::Float(_) => Some(TypeV::Float),
        Expr::Bool(_) => Some(TypeV::Bool),
        Expr::Char(_) => Some(TypeV::Char),
        Expr::Call { returned_type, .. } => match returned_type {
            Some(t) => Some(t@),
            None => None,
        },
        Expr::VariableRef { symbol, .. } => match symbol {
            Some(s) => Some(s.typ@),
            None => None,
        },
        Expr::BuiltInCall { return_type, .. } => Some(return_type@),
        Expr::Index { target_type, .. } => Some(target_type@),
        Expr::List(items) => if items@.len() == 0 {
            Some(TypeV::Array(Box::new(TypeV::Any)))
        } else {
            match expr_type(items@[0]) {
                None => None,
                Some(first) => list_type(items@, 1, first),
            }
        },
        _ => Some(TypeV::Any),
    }
}

/// The type of a list whose first element has type `first`, looking at the
/// elements from position `i` on: a list of `Any` once one differs.
pub open spec fn list_type(items: Seq<Expr>, i: int, first: TypeV) -> Option<TypeV>
    decreases items, items.len() - i,
{
    if i < 0 || i >= items.len() {
        Some(TypeV::Array(Box::new(first)))
    } else {
        match expr_type(items[i]) {
            None => None,
            Some(t) => if t != first {
                Some(TypeV::Array(Box::new(TypeV::Any)))
            } else {
                list_type(items, i + 1, first)
            },
        }
    }
}

/// The type the generator gives an expression (`get_expr_type`).
pub fn get_expr_type(expr: &Expr) -> (t: Type)
    requires
        expr_type(*expr) is Some,
    ensures
        expr_type(*expr) == Some(t@),
    decreases expr, 0int,
{
    match expr {
        Expr::String(_, _) => Type::String,
        Expr::Number(_) => Type::Integer,
        Expr::Float(_) => Type::Float,
        Expr::Bool(_) => Type::Bool,
        Expr::Char(_) => Type::Char,
        Expr::Call { returned_type, .. } => clone_type(returned_type.as_ref().unwrap()),
        Expr::VariableRef { symbol, .. } => clone_type(&symbol.as_ref().unwrap().typ),
        Expr::BuiltInCall { return_type, .. } => clone_type(return_type),
        Expr::Index { target_type, .. } => clone_type(target_type),
        Expr::List(items) => {
            if items.len() == 0 {
                proof { reveal_with_fuel(crate::parser::ast::type_view, 2); }
                return Type::Array(Box::new(Type::Any));
            }
            proof {
                assert(decreases_to!(*expr => items@[0]));
            }
            let item_type = get_expr_type(&items[0]);
            let mut i: usize = 1;
            while i < items.len()
                invariant
                    1 <= i <= items@.len(),
                    *expr == Expr::List(*items),
                    expr_type(*expr) is Some,
                    expr_type(*expr) == list_type(items@, i as int, item_type@),
                decreases items@.len() - i,
            {
                proof {
                    assert(decreases_to!(*expr => items@[i as int]));
                }
                let t = get_expr_type(&items[i]);
                if !type_eq(&t, &item_type) {
                    proof { reveal_with_fuel(crate::parser::ast::type_view, 2); }
                    return Type::Array(Box::new(Type::Any));
                }
                i = i + 1;
            }
            Type::Array(Box::new(item_type))
        },
        _ => Type::Any,
    }
}

/// How a parameter is declared in generated code: its name and type, a
/// pointer for a mutable parameter.
pub open spec fn param_text(p: Parameter) -> Seq<char> {
    if p.is_mutable {
        p.name@ + ": *"@ + map_type_text(p.typ@, !p.is_mutable)
    } else {
        p.name@ + ": "@ + map_type_text(p.typ@, !p.is_mutable)
    }
}

/// The declaration of a parameter (`transpile_param`).
pub fn transpile_param(param: &Parameter) -> (r: String)
    ensures
        r@ == param_text(*param),
{
    let zig_type = map_type(&param.typ, !param.is_mutable);
    let mut out = to_owned_string(param.name.as_str());
    if param.is_mutable {
        push_str(&mut out, ": *");
    } else {
        push_str(&mut out, ": ");
    }
    push_str(&mut out, zig_type.as_str());
    out
}

/// Whether `e` names a mutable variable, directly or as the value a method
/// is called on.
pub open spec fn is_mutable_ref(e: Expr) -> bool {
    match e {
        Expr::VariableRef { symbol: Some(s), .. } => s.is_mutable,
        Expr::Call { target: Some(t), .. } => match *t {
            Expr::VariableRef { symbol: Some(s), .. } => s.is_mutable,
            _ => false,
        },
        _ => false,
    }
}

/// Whether `e` names a mutable variable (`is_muttable`).
pub fn is_muttable(expr: &Expr) -> (b: bool)
    ensures
        b == is_mutable_ref(*expr),
{
    match expr {
        Expr::VariableRef { symbol: Some(sym), .. } => sym.is_mutable,
        Expr::Call { target: Some(t), .. } => match &**t {
            Expr::VariableRef { symbol: Some(sym), .. } => sym.is_mutable,
            _ => false,
        },
        _ => false,
    }
}

} // verus!

verus! {

/// The Zig return type of a function: its type, `void` without one.
pub open spec fn return_text(rt: Option<Type>) -> Seq<char> {
    match rt {
        Some(t) => map_type_text(t@, true),
        None => "void"@,
    }
}

/// The declarations of a list of parameters.
pub open spec fn param_texts(ps: Seq<Parameter>) -> Seq<Seq<char>> {
    ps.map_values(|p: Parameter| param_text(p))
}

/// The code of a function with the given body lines.
pub open spec fn function_text(name: Seq<char>, params: Seq<Parameter>, rt: Option<Type>,
    body_lines: Seq<Seq<char>>) -> Seq<char> {
    "fn "@ + name + "("@ + join_seq(param_texts(params), ", "@) + ") "@ + return_text(rt) + " {\n"@
        + join_seq(body_lines, "\n"@) + "\n}"@
}

/// The code of a function definition (`transpile_function_def`): its
/// header with the parameters and the Zig return type (`void` without one),
/// and its body, one indented statement per line.
pub fn transpile_function_def(name: &String, params: &Vec<Parameter>, body: &Vec<Expr>,
    return_type: &Option<Type>, parent: Option<&str>, ctx: &mut crate::transpiler::TranspileContext,
    is_allocator: bool) -> (r: String)
    requires
        old(ctx).wf(),
        forall|i: int| 0 <= i < body@.len() ==> #[trigger] crate::transpiler::transpile::ready(body@[i]),
    ensures
        final(ctx).wf(),
        crate::transpiler::ctx_grows(*old(ctx), *final(ctx)),
        exists|codes: Seq<Seq<char>>| codes.len() == body@.len()
            && r@ == function_text(name@, params@, *return_type,
                #[trigger] crate::transpiler::transpile::block_text(body@, codes, "    "@))
            && crate::transpiler::transpile::codes_tied(body@, codes, old(ctx).enum_defs)
            && crate::transpiler::transpile::block_transpiled(body@, codes, *old(ctx), *final(ctx)),
    decreases body, 3int,
{
    let mut params_str: Vec<String> = Vec::new();
    let mut i: usize = 0;
    while i < params.len()
        invariant
            i <= params@.len(),
            params_str@.len() == i,
            views(params_str@) == param_texts(params@.subrange(0, i as int)),
        decreases params@.len() - i,
    {
        let ghost before = views(params_str@);
        let p = transpile_param(&params[i]);
        let ghost pv = p@;
        params_str.push(p);
        proof {
            assert(views(params_str@) =~= before.push(pv));
            assert forall|k: int| 0 <= k < i + 1 implies
                #[trigger] views(params_str@)[k] == param_texts(params@.subrange(0, i + 1))[k] by {
                if k < i {
                    assert(before[k] == param_texts(params@.subrange(0, i as int))[k]);
                }
            }
        }
        i = i + 1;
        assert(views(params_str@) =~= param_texts(params@.subrange(0, i as int)));
    }
    assert(params@.subrange(0, params@.len() as int) =~= params@);
    let ret_type_str = match return_type {
        Some(t) => map_type(t, true),
        None => map_type(&Type::Void, true),
    };
    let lines = crate::transpiler::transpile::block_lines(body, ctx, "    ");
    let mut out = String::from_str("fn ");
    push_str(&mut out, name.as_str());
    push_str(&mut out, "(");
    let joined = crate::text::join_strings(&params_str, ", ");
    push_str(&mut out, joined.as_str());
    push_str(&mut out, ") ");
    push_str(&mut out, ret_type_str.as_str());
    push_str(&mut out, " {\n");
    let body_code = crate::text::join_strings(&lines, "\n");
    push_str(&mut out, body_code.as_str());
    push_str(&mut out, "\n}");
    proof {
        let codes = choose|codes: Seq<Seq<char>>| codes.len() == body@.len()
            && #[trigger] views(lines@) == crate::transpiler::transpile::block_text(body@, codes, "    "@)
            && crate::transpiler::transpile::codes_tied(body@, codes, old(ctx).enum_defs)
            && crate::transpiler::transpile::block_transpiled(body@, codes, *old(ctx), *ctx);
        assert(ret_type_str@ == return_text(*return_type)) by {
            reveal_strlit("void");
        }
        assert(out@ =~= function_text(name@, params@, *return_type,
            crate::transpiler::transpile::block_text(body@, codes, "    "@)));
    }
    out
}

} // verus!
