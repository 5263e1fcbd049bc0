//! Zig code for a variable declaration.
use vstd::prelude::*;
use crate::parser::ast::{Expr, Type};
use crate::text::{push_str, push_usize, to_owned_string};
use crate::transpiler::{TranspileContext, ctx_grows};
use crate::transpiler::helpers::{map_type, map_type_text};
use crate::transpiler::transpile::{lemma_ready_upto, pure_code, ready, ready_upto, transpile_expr};

verus! {

/// What a declaration needs beyond a ready value: a list type is only
/// declared with a list literal, whose elements must be ready.
pub open spec fn decl_ready(typ: Option<Type>, value: Expr) -> bool
    decreases value, 1int,
{
    match typ {
        Some(Type::Array(_)) => match value {
            Expr::List(items) => ready_upto(items@, items@.len() as int),
            _ => false,
        },
        _ => true,
    }
}

/// The Zig type a declaration is written with: its type, or `any`.
pub open spec fn decl_type_text(typ: Option<Type>, is_mutable: bool) -> Seq<char> {
    match typ {
        Some(t) => map_type_text(t@, !is_mutable),
        None => "any"@,
    }
}

/// The code of a declaration of a value that is neither a list nor a
/// mutable text, with `code` the code of its value.
pub open spec fn simple_decl_text(name: Seq<char>, typ: Option<Type>, is_mutable: bool, code: Seq<char>) -> Seq<char> {
    (if is_mutable { "var "@ } else { "const "@ }) + name + ": "@ + decl_type_text(typ, is_mutable) + " = "@ + code
}

/// Whether a declaration of this type is written in the simple form: a
/// type other than a list, and other than a text unless the text is
/// read-only.
pub open spec fn simple_decl(typ: Option<Type>, is_mutable: bool) -> bool {
    match typ {
        Some(Type::Array(_)) => false,
        Some(Type::String) => !is_mutable,
        _ => true,
    }
}

/// The code of a declaration of `name` (`transpile_decl`): a `var` or
/// `const` with its Zig type and value; a mutable text is copied with the
/// allocator, and a mutable list becomes an `ArrayList` that is freed when
/// the program ends.
#[verifier::loop_isolation(false)]
pub fn transpile_decl(name: &String, typ: Option<&Type>, is_mutable: bool, value: &Expr,
    ctx: &mut TranspileContext) -> (r: String)
    requires
        old(ctx).wf(),
        ready(*value),
        decl_ready(match typ { Some(t) => Some(*t), None => None }, *value),
    ensures
        final(ctx).wf(),
        ctx_grows(*old(ctx), *final(ctx)),
        simple_decl(match typ { Some(t) => Some(*t), None => None }, is_mutable) ==>
            (pure_code(*value, old(ctx).enum_defs) matches Some(c) ==> r@ == simple_decl_text(name@,
                match typ { Some(t) => Some(*t), None => None }, is_mutable, c)),
    decreases value, 6int,
{
    let type_str = match typ {
        Some(t) => map_type(t, !is_mutable),
        None => map_type(&Type::Any, !is_mutable),
    };
    let value_code = transpile_expr(value, ctx);
    let kw = if is_mutable { "var " } else { "const " };
    match typ {
        Some(Type::String) => {
            let mut out = to_owned_string(kw);
            push_str(&mut out, name.as_str());
            push_str(&mut out, ": ");
            push_str(&mut out, type_str.as_str());
            if is_mutable {
                push_str(&mut out, " =  try allocator.dupe(u8, ");
                push_str(&mut out, value_code.as_str());
                push_str(&mut out, ")");
            } else {
                push_str(&mut out, " = ");
                push_str(&mut out, value_code.as_str());
                proof {
                    reveal_strlit("const ");
                    reveal_strlit("var ");
                }
                assert(pure_code(*value, old(ctx).enum_defs) matches Some(c) ==> out@ =~= simple_decl_text(name@,
                    match typ { Some(t) => Some(*t), None => None }, is_mutable, c));
            }
            out
        },
        Some(Type::Array(inner)) => match value {
            Expr::List(items) => {
                proof {
                    lemma_ready_upto(items@, items@.len() as int);
                }
                let mut items_str = String::new();
                let mut i: usize = 0;
                while i < items.len()
                    invariant
                        ctx.wf(),
                        ctx_grows(*old(ctx), *ctx),
                        i <= items@.len(),
                        forall|k: int| 0 <= k < items@.len() ==> #[trigger] ready(items@[k]),
                    decreases items@.len() - i,
                {
                    proof {
                        assert(decreases_to!(*value => value->List_0));
                        assert(decreases_to!(value->List_0 => value->List_0@));
                        assert(decreases_to!(value->List_0@ => value->List_0@[i as int]));
                    }
                    let code = transpile_expr(&items[i], ctx);
                    if i > 0 {
                        push_str(&mut items_str, ", ");
                    }
                    push_str(&mut items_str, code.as_str());
                    i = i + 1;
                }
                if is_mutable {
                    ctx.needs_allocator = true;
                    let mut cleanup = name.clone();
                    push_str(&mut cleanup, ".deinit();");
                    ctx.cleanup_statements.push(cleanup);
                    let inner_code = map_type(inner, false);
                    let mut out = String::from_str("var ");
                    push_str(&mut out, name.as_str());
                    push_str(&mut out, " = try std.ArrayList(");
                    push_str(&mut out, inner_code.as_str());
                    push_str(&mut out, ").initCapacity(allocator, ");
                    push_usize(&mut out, items.len());
                    push_str(&mut out, ");\ntry ");
                    push_str(&mut out, name.as_str());
                    push_str(&mut out, ".appendSlice(&[_]");
                    push_str(&mut out, inner_code.as_str());
                    push_str(&mut out, "{ ");
                    push_str(&mut out, items_str.as_str());
                    push_str(&mut out, " });");
                    out
                } else {
                    let mut out = String::from_str("const ");
                    push_str(&mut out, name.as_str());
                    push_str(&mut out, " = [_]");
                    push_str(&mut out, type_str.as_str());
                    push_str(&mut out, "{ ");
                    push_str(&mut out, items_str.as_str());
                    push_str(&mut out, " }");
                    out
                }
            },
            _ => {
                proof {
                    assert(false);
                }
                String::new()
            },
        },
        _ => {
            let mut out = to_owned_string(kw);
            push_str(&mut out, name.as_str());
            push_str(&mut out, ": ");
            push_str(&mut out, type_str.as_str());
            push_str(&mut out, " = ");
            push_str(&mut out, value_code.as_str());
            proof {
                reveal_strlit("const ");
                reveal_strlit("var ");
                reveal_strlit("any");
            }
            assert(pure_code(*value, old(ctx).enum_defs) matches Some(c) ==> out@ =~= simple_decl_text(name@,
                match typ { Some(t) => Some(*t), None => None }, is_mutable, c));
            out
        },
    }
}

} // verus!
