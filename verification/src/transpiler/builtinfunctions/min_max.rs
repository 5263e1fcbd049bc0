//! Zig code for the `min` and `max` built-ins.
use vstd::prelude::*;
use crate::parser::ast::{Expr, Type, TypeV};
use crate::text::{ends_with_char, push_str, starts_with_char, to_owned_string};
use crate::transpiler::{TranspileContext, ctx_grows};
use crate::transpiler::helpers::{expr_type, get_expr_type};
use crate::transpiler::transpile::{pure_code, ready, transpile_expr};

verus! {

/// The Zig element type of a list of type `t` (`inner_typer`).
pub open spec fn inner_type_text(t: TypeV) -> Seq<char>
    decreases t,
{
    match t {
        TypeV::Array(inner) => inner_type_text(*inner),
        TypeV::Integer => "usize"@,
        TypeV::LowInteger => "u8"@,
        TypeV::BigInteger => "i128"@,
        _ => "/* unsupported list element type */"@,
    }
}

/// The Zig element type of a list of type `inner_type` (`inner_typer`).
pub fn inner_typer(inner_type: Type) -> (r: &'static str)
    ensures
        r@ == inner_type_text(inner_type@),
    decreases inner_type,
{
    match inner_type {
        Type::Array(inner) => inner_typer(*inner),
        Type::Integer => "usize",
        Type::LowInteger => "u8",
        Type::BigInteger => "i128",
        _ => "/* unsupported list element type */",
    }
}

/// What `min` and `max` need of their list argument: it is ready, has a
/// type, and a variable with a symbol has its generated name.
pub open spec fn minmax_ready(e: Expr) -> bool
    decreases e, 1int,
{
    &&& ready(e)
    &&& expr_type(e) is Some
    &&& (e matches Expr::VariableRef { transpiled_name, symbol: Some(_), .. } ==> transpiled_name is Some)
}

/// The list a call of `min`, `max` or `sum` is given, where `code` is the
/// code of the argument `arg` and `elem` its element type: a variable by
/// `name` (the items of a mutable list, else its address), anything else as
/// a slice.
pub open spec fn list_arg_text(arg: Expr, name: Seq<char>, code: Seq<char>, elem: Seq<char>) -> Seq<char> {
    match arg {
        Expr::VariableRef { symbol: Some(sym), .. } =>
            if sym.is_mutable { name + ".items"@ } else { "&"@ + name },
        _ => slice_text(code, elem),
    }
}

/// The generated name of a variable argument.
pub open spec fn generated_name(arg: Expr) -> Seq<char> {
    match arg {
        Expr::VariableRef { transpiled_name: Some(tn), .. } => tn@,
        _ => Seq::empty(),
    }
}

/// The code of a call of the helper `f` (`min` or `max`) on the list `arg`
/// whose code is `code`.
pub open spec fn minmax_text(f: Seq<char>, arg: Expr, code: Seq<char>) -> Seq<char> {
    let elem = inner_type_text(expr_type(arg).unwrap());
    f + "("@ + elem + ", "@ + list_arg_text(arg, generated_name(arg), code, elem) + ")"@
}

/// The code of a call of `min` (`transpile_min`).
pub fn transpile_min(args: &Vec<Expr>, ctx: &mut TranspileContext) -> (r: String)
    requires
        old(ctx).wf(),
        args@.len() >= 1,
        minmax_ready(args@[0]),
    ensures
        final(ctx).wf(),
        ctx_grows(*old(ctx), *final(ctx)),
        final(ctx).used_min_fn,
        exists|c: Seq<char>| (pure_code(args@[0], old(ctx).enum_defs) matches Some(p) ==> c == p)
            && r@ == #[trigger] minmax_text("min"@, args@[0], c),
    decreases args, 2int,
{
    transpile_min_max(args, ctx, "min")
}

/// The code of a call of `max` (`transpile_max`).
pub fn transpile_max(args: &Vec<Expr>, ctx: &mut TranspileContext) -> (r: String)
    requires
        old(ctx).wf(),
        args@.len() >= 1,
        minmax_ready(args@[0]),
    ensures
        final(ctx).wf(),
        ctx_grows(*old(ctx), *final(ctx)),
        final(ctx).used_max_fn,
        exists|c: Seq<char>| (pure_code(args@[0], old(ctx).enum_defs) matches Some(p) ==> c == p)
            && r@ == #[trigger] minmax_text("max"@, args@[0], c),
    decreases args, 2int,
{
    transpile_min_max(args, ctx, "max")
}

/// The code of a call of `min` or `max`: the helper named `fn_name` applied
/// to the element type and to the list, which is passed as a slice.
fn transpile_min_max(args: &Vec<Expr>, ctx: &mut TranspileContext, fn_name: &str) -> (r: String)
    requires
        old(ctx).wf(),
        args@.len() >= 1,
        minmax_ready(args@[0]),
    ensures
        final(ctx).wf(),
        ctx_grows(*old(ctx), *final(ctx)),
        fn_name@ == "min"@ ==> final(ctx).used_min_fn,
        fn_name@ == "max"@ ==> final(ctx).used_max_fn,
        exists|c: Seq<char>| (pure_code(args@[0], old(ctx).enum_defs) matches Some(p) ==> c == p)
            && r@ == #[trigger] minmax_text(fn_name@, args@[0], c),
    decreases args, 1int,
{
    let list_expr = &args[0];
    proof {
        assert(decreases_to!(args => args@[0]));
    }
    let list_code = transpile_expr(list_expr, ctx);
    let inner_type = get_expr_type(list_expr);
    let type_code = inner_typer(inner_type);
    assert("max"@ != "min"@) by {
        reveal_strlit("min");
        reveal_strlit("max");
        assert("max"@[1] != "min"@[1]);
    }
    if crate::text::str_eq(fn_name, "min") {
        ctx.used_min_fn = true;
    } else if crate::text::str_eq(fn_name, "max") {
        ctx.used_max_fn = true;
    }
    let final_list_code = match list_expr {
        Expr::VariableRef { transpiled_name, symbol: Some(sym), .. } => {
            let tn = transpiled_name.as_ref().unwrap();
            if sym.is_mutable {
                let mut c = tn.clone();
                push_str(&mut c, ".items");
                c
            } else {
                let mut c = String::from_str("&");
                push_str(&mut c, tn.as_str());
                c
            }
        },
        _ => bracket_slice(list_code.as_str(), type_code),
    };
    let mut out = to_owned_string(fn_name);
    push_str(&mut out, "(");
    push_str(&mut out, type_code);
    push_str(&mut out, ", ");
    push_str(&mut out, final_list_code.as_str());
    push_str(&mut out, ")");
    assert(out@ =~= minmax_text(fn_name@, args@[0], list_code@));
    out
}

/// A list literal `[..]` as a slice of `elem` (`&[_]elem{ .. }`); other
/// code unchanged.
pub open spec fn slice_text(code: Seq<char>, elem: Seq<char>) -> Seq<char> {
    if code.len() >= 2 && code[0] == '[' && code.last() == ']' {
        "&[_]"@ + elem + "{ "@ + code.subrange(1, code.len() - 1) + " }"@
    } else {
        code
    }
}

/// A list literal as a slice of `elem`; other code unchanged.
pub fn bracket_slice(code: &str, elem: &str) -> (r: String)
    ensures
        r@ == slice_text(code@, elem@),
{
    let n = code.unicode_len();
    if starts_with_char(code, '[') && ends_with_char(code, ']') && n >= 2 {
        let mut out = String::from_str("&[_]");
        push_str(&mut out, elem);
        push_str(&mut out, "{ ");
        push_str(&mut out, code.substring_char(1, n - 1));
        push_str(&mut out, " }");
        out
    } else {
        to_owned_string(code)
    }
}

} // verus!
