//! The definitions of the generated program: its functions and union types.
use vstd::prelude::*;
use crate::parser::ast::{Expr, Program};
use crate::text::push_str;
use crate::transpiler::{TranspileContext, ctx_grows};
use crate::transpiler::helpers::{function_text, transpile_function_def};
use crate::transpiler::struct_def::{lemma_methods_ready_upto};
use crate::transpiler::transpile::{block_text, lemma_ready_upto, ready};
use crate::transpiler::union_def::{method_codes_of, transpile_union_def, union_decl_text, union_field_lines};

verus! {

/// Whether a top-level definition can be generated (other forms are not
/// written among the definitions).
pub open spec fn top_level_ready(e: Expr) -> bool {
    (e is FunctionDef || e is UnionType) ==> ready(e)
}

/// Whether a top-level expression is written among the definitions.
pub open spec fn is_definition(e: Expr) -> bool {
    e is FunctionDef || e is UnionType
}

/// How the code of a definition begins: a function with its name, a union
/// type with its generated name.
pub open spec fn def_head(e: Expr) -> Seq<char> {
    match e {
        Expr::FunctionDef { name, .. } => "fn "@ + name@ + "("@,
        Expr::UnionType { transpiled_name: Some(tn), .. } => "const "@ + tn@ + " = union(enum) {\n"@,
        _ => Seq::empty(),
    }
}

/// Whether `code` is the code of the definition `e`: a function with its
/// body's statements, or a union type with its fields and methods (nothing
/// for other forms).
pub open spec fn def_code_of(e: Expr, code: Seq<char>) -> bool {
    match e {
        Expr::FunctionDef { name, params, body, return_type, .. } => exists|bc: Seq<Seq<char>>|
            bc.len() == body@.len()
            && code == function_text(name@, params@, return_type, #[trigger] block_text(body@, bc, "    "@)),
        Expr::UnionType { transpiled_name: Some(tn), fields, methods, .. } => exists|mc: Seq<Seq<char>>|
            #[trigger] method_codes_of(methods@, mc, "self: @This()"@)
            && code == union_decl_text(tn@, union_field_lines(fields@) + seq![Seq::<char>::empty()] + mc),
        _ => code == Seq::<char>::empty(),
    }
}

/// The definitions among the first `n` expressions, with `codes` their
/// codes, each followed by a blank line.
pub open spec fn def_lines(exprs: Seq<Expr>, codes: Seq<Seq<char>>, n: int) -> Seq<char>
    decreases n,
{
    if n <= 0 {
        Seq::empty()
    } else {
        def_lines(exprs, codes, n - 1) + (if is_definition(exprs[n - 1]) {
            codes[n - 1] + "\n\n"@
        } else {
            Seq::empty()
        })
    }
}

/// The definitions among the first `n` expressions depend only on the
/// first `n` codes.
proof fn lemma_def_lines_prefix(exprs: Seq<Expr>, a: Seq<Seq<char>>, b: Seq<Seq<char>>, n: int)
    requires
        0 <= n <= a.len(),
        n <= b.len(),
        forall|k: int| 0 <= k < n ==> a[k] == b[k],
    ensures
        def_lines(exprs, a, n) == def_lines(exprs, b, n),
    decreases n,
{
    if n > 0 {
        lemma_def_lines_prefix(exprs, a, b, n - 1);
    }
}

/// The code of the program's functions and union types, each followed by a
/// blank line (`generate_top_level_defs`).
pub fn generate_top_level_defs(program: &Program, ctx: &mut TranspileContext) -> (r: String)
    requires
        old(ctx).wf(),
        forall|i: int| 0 <= i < program.expressions@.len() ==> #[trigger] top_level_ready(program.expressions@[i]),
    ensures
        final(ctx).wf(),
        ctx_grows(*old(ctx), *final(ctx)),
        exists|codes: Seq<Seq<char>>| codes.len() == program.expressions@.len()
            && r@ == #[trigger] def_lines(program.expressions@, codes, codes.len() as int)
            && (forall|k: int| 0 <= k < codes.len() ==> def_head(program.expressions@[k]).is_prefix_of(codes[k]))
            && forall|k: int| 0 <= k < codes.len() ==> #[trigger] def_code_of(program.expressions@[k], codes[k]),
{
    let mut code = String::new();
    let ghost mut codes: Seq<Seq<char>> = Seq::empty();
    let mut i: usize = 0;
    while i < program.expressions.len()
        invariant
            ctx.wf(),
            ctx_grows(*old(ctx), *ctx),
            i <= program.expressions@.len(),
            forall|k: int| 0 <= k < program.expressions@.len() ==> #[trigger] top_level_ready(program.expressions@[k]),
            codes.len() == i,
            code@ == def_lines(program.expressions@, codes, i as int),
            forall|k: int| 0 <= k < i ==> def_head(program.expressions@[k]).is_prefix_of(#[trigger] codes[k]),
            forall|k: int| 0 <= k < i ==> #[trigger] def_code_of(program.expressions@[k], codes[k]),
        decreases program.expressions@.len() - i,
    {
        let e = &program.expressions[i];
        assert(top_level_ready(*e));
        let ghost mut c: Seq<char> = Seq::empty();
        match e {
            Expr::FunctionDef { name, params, body, return_type, is_allocator, .. } => {
                proof {
                    lemma_ready_upto(body@, body@.len() as int);
                }
                let def = transpile_function_def(name, params, body, return_type, None, ctx, *is_allocator);
                proof {
                    c = def@;
                    let h = "fn "@ + name@ + "("@;
                    let bc = choose|bc: Seq<Seq<char>>| bc.len() == body@.len() && def@ == function_text(name@, params@,
                        *return_type, #[trigger] block_text(body@, bc, "    "@));
                    assert(def@.subrange(0, h.len() as int) =~= h);
                }
                push_str(&mut code, def.as_str());
                push_str(&mut code, "\n\n");
            },
            Expr::UnionType { name, transpiled_name, fields, methods } => {
                proof {
                    lemma_methods_ready_upto(methods@, methods@.len() as int);
                }
                let tn = transpiled_name.as_ref().unwrap();
                let def = transpile_union_def(name, tn, fields, methods, ctx);
                proof {
                    c = def@;
                    let h = "const "@ + tn@ + " = union(enum) {\n"@;
                    let mc = choose|mc: Seq<Seq<char>>| #[trigger] method_codes_of(methods@, mc, "self: @This()"@)
                        && def@ == union_decl_text(tn@, union_field_lines(fields@) + seq![Seq::<char>::empty()] + mc);
                    assert(def@.subrange(0, h.len() as int) =~= h);
                }
                push_str(&mut code, def.as_str());
                push_str(&mut code, "\n\n");
            },
            _ => {},
        }
        proof {
            let nc = codes.push(c);
            lemma_def_lines_prefix(program.expressions@, nc, codes, i as int);
            assert(code@ =~= def_lines(program.expressions@, nc, i + 1));
            assert forall|k: int| 0 <= k < i + 1 implies
                def_head(program.expressions@[k]).is_prefix_of(#[trigger] nc[k]) by {
                if k < i {
                    assert(nc[k] == codes[k]);
                } else {
                    assert(nc[k] == c);
                    if !is_definition(program.expressions@[k]) {
                        assert(def_head(program.expressions@[k]) =~= Seq::<char>::empty());
                    }
                }
            }
            assert(def_code_of(*e, c));
            assert forall|k: int| 0 <= k < i + 1 implies #[trigger] def_code_of(program.expressions@[k], nc[k]) by {
                if k < i {
                    assert(nc[k] == codes[k]);
                } else {
                    assert(nc[k] == c);
                }
            }
            codes = nc;
        }
        i = i + 1;
    }
    code
}

} // verus!
