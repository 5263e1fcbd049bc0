//! Zig code for the `sum` built-in.
use vstd::prelude::*;
use crate::parser::ast::Expr;
use crate::text::{join_seq, push_str, to_owned_string};
use crate::transpiler::{TranspileContext, ctx_grows};
use crate::transpiler::builtinfunctions::min_max::{bracket_slice, inner_type_text, inner_typer, list_arg_text};
use crate::transpiler::helpers::{expr_type, get_expr_type};
use crate::transpiler::transpile::{all_pure, pure_code, ready, transpile_expr};

verus! {

/// The code of a call of `sum` on the arguments `args`, where `code` is the
/// code of the list handed over.
pub open spec fn sum_text(args: Seq<Expr>, code: Seq<char>) -> Seq<char> {
    let elem = inner_type_text(expr_type(args[0]).unwrap());
    let name = match args[0] {
        Expr::VariableRef { name, .. } => name@,
        _ => Seq::empty(),
    };
    "sum("@ + elem + ", "@ + list_arg_text(args[0], name, code, elem) + ")"@
}

/// The code of a call of `sum` (`transpile_sum`): the helper applied to the
/// element type and to a slice of the arguments (several arguments become
/// a `usize` slice of them).
pub fn transpile_sum(args: &Vec<Expr>, ctx: &mut TranspileContext) -> (r: String)
    requires
        old(ctx).wf(),
        args@.len() >= 1,
        expr_type(args@[0]) is Some,
        forall|i: int| 0 <= i < args@.len() ==> #[trigger] ready(args@[i]),
    ensures
        final(ctx).wf(),
        ctx_grows(*old(ctx), *final(ctx)),
        final(ctx).used_sum_fn,
        args@.len() == 1 ==> exists|c: Seq<char>| (pure_code(args@[0], old(ctx).enum_defs) matches Some(p) ==> c == p)
            && r@ == #[trigger] sum_text(args@, c),
        args@.len() > 1 ==> exists|codes: Seq<Seq<char>>| codes.len() == args@.len()
            && (all_pure(args@, old(ctx).enum_defs) ==> forall|k: int| 0 <= k < codes.len()
                ==> #[trigger] codes[k] == pure_code(args@[k], old(ctx).enum_defs).unwrap())
            && r@ == sum_text(args@, "&[_]usize{"@ + #[trigger] join_seq(codes, ", "@) + "}"@),
    decreases args, 1int,
{
    ctx.used_sum_fn = true;
    let expr_type = get_expr_type(&args[0]);
    let list_code = if args.len() > 1 {
        let mut code = String::from_str("&[_]usize{");
        let ghost mut codes: Seq<Seq<char>> = Seq::empty();
        let mut i: usize = 0;
        while i < args.len()
            invariant
                ctx.wf(),
                ctx_grows(*old(ctx), *ctx),
                ctx.used_sum_fn,
                i <= args@.len(),
                forall|k: int| 0 <= k < args@.len() ==> #[trigger] ready(args@[k]),
                codes.len() == i,
                all_pure(args@, old(ctx).enum_defs) ==> ctx.enum_defs == old(ctx).enum_defs
                    && forall|k: int| 0 <= k < i ==> #[trigger] codes[k] == pure_code(args@[k], old(ctx).enum_defs).unwrap(),
                code@ == "&[_]usize{"@ + join_seq(codes, ", "@),
            decreases args@.len() - i,
        {
            proof {
                assert(decreases_to!(args => args@[i as int]));
            }
            let c = transpile_expr(&args[i], ctx);
            let ghost before = code@;
            if i > 0 {
                push_str(&mut code, ", ");
            }
            push_str(&mut code, c.as_str());
            proof {
                let nc = codes.push(c@);
                assert(nc.drop_last() =~= codes);
                if all_pure(args@, old(ctx).enum_defs) {
                    assert(pure_code(args@[i as int], old(ctx).enum_defs) is Some);
                    assert forall|k: int| 0 <= k < i + 1 implies #[trigger] nc[k] == pure_code(args@[k], old(ctx).enum_defs).unwrap() by {
                        if k < i {
                            assert(nc[k] == codes[k]);
                        }
                    }
                }
                if i == 0 {
                    assert(codes.len() == 0);
                    assert(join_seq(nc, ", "@) == c@);
                    assert(code@ =~= "&[_]usize{"@ + join_seq(nc, ", "@));
                } else {
                    assert(code@ =~= "&[_]usize{"@ + join_seq(nc, ", "@));
                }
                codes = nc;
            }
            i = i + 1;
        }
        push_str(&mut code, "}");
        assert(code@ =~= "&[_]usize{"@ + join_seq(codes, ", "@) + "}"@);
        code
    } else {
        proof {
            assert(decreases_to!(args => args@[0]));
        }
        transpile_expr(&args[0], ctx)
    };
    let inner_type = inner_typer(expr_type);
    let final_list_code = match &args[0] {
        Expr::VariableRef { name, symbol: Some(sym), .. } => {
            if sym.is_mutable {
                let mut c = name.clone();
                push_str(&mut c, ".items");
                c
            } else {
                let mut c = String::from_str("&");
                push_str(&mut c, name.as_str());
                c
            }
        },
        _ => bracket_slice(list_code.as_str(), inner_type),
    };
    let mut out = String::from_str("sum(");
    push_str(&mut out, inner_type);
    push_str(&mut out, ", ");
    push_str(&mut out, final_list_code.as_str());
    push_str(&mut out, ")");
    assert(out@ =~= sum_text(args@, list_code@));
    out
}

} // verus!
