//! The statements of the generated program's `main`.
use vstd::prelude::*;
use crate::parser::ast::{Expr, Program};
use crate::text::{ends_with_after_ws, push_str, string_push, trim_end_seq};
use crate::transpiler::{TranspileContext, ctx_grows};
use crate::transpiler::transpile::{ready, transpile_expr, transpiled};

verus! {

/// Whether a statement of `main` ends with a semicolon.
pub open spec fn main_needs_semicolon(e: Expr) -> bool {
    ||| e is Assignment
    ||| e is Break
    ||| e is Continue
    ||| e is Decl
    ||| e is Call
    ||| e is BuiltInCall
    ||| e is VariableRef
    ||| e is Index
    ||| e is BinaryOp
}

/// Whether a top-level expression can be written into `main` (function
/// definitions are not).
pub open spec fn main_ready(e: Expr) -> bool {
    !(e is FunctionDef) ==> ready(e)
}

/// The line of a statement of `main` whose code is `code`: indented, with
/// a semicolon where the statement needs one and the code does not already
/// end with one.
pub open spec fn main_line(e: Expr, code: Seq<char>) -> Seq<char> {
    "    "@ + (if main_needs_semicolon(e) && !(trim_end_seq(code).len() > 0 && trim_end_seq(code).last() == ';') {
        code.push(';')
    } else {
        code
    }) + "\n"@
}

/// The lines of the first `n` top-level expressions that are not function
/// definitions, with `codes` their codes.
pub open spec fn main_lines(exprs: Seq<Expr>, codes: Seq<Seq<char>>, n: int) -> Seq<char>
    decreases n,
{
    if n <= 0 {
        Seq::empty()
    } else {
        main_lines(exprs, codes, n - 1) + (if exprs[n - 1] is FunctionDef {
            Seq::empty()
        } else {
            main_line(exprs[n - 1], codes[n - 1])
        })
    }
}

/// Whether the top-level expressions `exprs` were transpiled one after
/// another into `codes`, each in the context `cs[k]` the ones before it
/// left, as `transpiled` says; function definitions are passed over.
pub open spec fn main_chain(exprs: Seq<Expr>, codes: Seq<Seq<char>>, cs: Seq<TranspileContext>) -> bool {
    &&& codes.len() == exprs.len()
    &&& cs.len() == exprs.len() + 1
    &&& forall|k: int| 0 <= k < exprs.len() ==> if exprs[k] is FunctionDef {
        #[trigger] cs[k + 1] == cs[k]
    } else {
        transpiled(exprs[k], cs[k], codes[k], cs[k + 1])
    }
}

/// Whether `main_chain` holds from the context `c0` to `c1`.
pub open spec fn main_transpiled(exprs: Seq<Expr>, codes: Seq<Seq<char>>, c0: TranspileContext,
    c1: TranspileContext) -> bool {
    exists|cs: Seq<TranspileContext>| #[trigger] main_chain(exprs, codes, cs) && cs[0] == c0
        && cs[exprs.len() as int] == c1
}

/// The body of `main` (`generate_main_body`): every top-level expression
/// but the function definitions, one per line, indented, with a semicolon
/// where the statement needs one and its code has none.
pub fn generate_main_body(program: &Program, ctx: &mut TranspileContext) -> (r: String)
    requires
        old(ctx).wf(),
        forall|i: int| 0 <= i < program.expressions@.len() ==> #[trigger] main_ready(program.expressions@[i]),
    ensures
        final(ctx).wf(),
        ctx_grows(*old(ctx), *final(ctx)),
        exists|codes: Seq<Seq<char>>| codes.len() == program.expressions@.len()
            && r@ == #[trigger] main_lines(program.expressions@, codes, codes.len() as int)
            && main_transpiled(program.expressions@, codes, *old(ctx), *final(ctx)),
{
    let mut body = String::new();
    let ghost mut codes: Seq<Seq<char>> = Seq::empty();
    let ghost mut cs: Seq<TranspileContext> = seq![*ctx];
    let mut i: usize = 0;
    while i < program.expressions.len()
        invariant
            cs.len() == i + 1,
            cs[0] == *old(ctx),
            cs[i as int] == *ctx,
            forall|k: int| 0 <= k < i ==> if program.expressions@[k] is FunctionDef {
                #[trigger] cs[k + 1] == cs[k]
            } else {
                transpiled(program.expressions@[k], cs[k], codes[k], cs[k + 1])
            },
            ctx.wf(),
            ctx_grows(*old(ctx), *ctx),
            i <= program.expressions@.len(),
            forall|k: int| 0 <= k < program.expressions@.len() ==> #[trigger] main_ready(program.expressions@[k]),
            codes.len() == i,
            body@ == main_lines(program.expressions@, codes, i as int),
        decreases program.expressions@.len() - i,
    {
        let e = &program.expressions[i];
        assert(main_ready(*e));
        let ghost before = body@;
        let ghost mut c: Seq<char> = Seq::empty();
        let is_def = match e {
            Expr::FunctionDef { .. } => true,
            _ => false,
        };
        if !is_def {
            let mut line = transpile_expr(e, ctx);
            proof {
                c = line@;
            }
            let needs_semicolon = match e {
                Expr::Assignment { .. } | Expr::Break | Expr::Continue | Expr::Decl { .. } | Expr::Call { .. }
                | Expr::BuiltInCall { .. } | Expr::VariableRef { .. } | Expr::Index { .. }
                | Expr::BinaryOp { .. } => true,
                _ => false,
            };
            if needs_semicolon && !ends_with_after_ws(line.as_str(), ';') {
                string_push(&mut line, ';');
            }
            push_str(&mut body, "    ");
            push_str(&mut body, line.as_str());
            push_str(&mut body, "\n");
        }
        proof {
            let nc = codes.push(c);
            let ncs = cs.push(*ctx);
            assert forall|k: int| 0 <= k < i + 1 implies (if program.expressions@[k] is FunctionDef {
                #[trigger] ncs[k + 1] == ncs[k]
            } else {
                transpiled(program.expressions@[k], ncs[k], nc[k], ncs[k + 1])
            }) by {
                if k < i {
                    assert(ncs[k] == cs[k] && ncs[k + 1] == cs[k + 1] && nc[k] == codes[k]);
                }
            }
            cs = ncs;
            assert(nc.subrange(0, i as int) =~= codes);
            assert(main_lines(program.expressions@, nc, i as int) == main_lines(program.expressions@, codes, i as int)) by {
                lemma_main_lines_prefix(program.expressions@, nc, codes, i as int);
            }
            assert(body@ =~= main_lines(program.expressions@, nc, i + 1));
            codes = nc;
        }
        i = i + 1;
    }
    assert(main_chain(program.expressions@, codes, cs));
    assert(main_transpiled(program.expressions@, codes, *old(ctx), *ctx));
    body
}

/// The lines of the first `n` expressions depend only on the first `n` codes.
proof fn lemma_main_lines_prefix(exprs: Seq<Expr>, a: Seq<Seq<char>>, b: Seq<Seq<char>>, n: int)
    requires
        0 <= n <= a.len(),
        n <= b.len(),
        forall|k: int| 0 <= k < n ==> a[k] == b[k],
    ensures
        main_lines(exprs, a, n) == main_lines(exprs, b, n),
    decreases n,
{
    if n > 0 {
        lemma_main_lines_prefix(exprs, a, b, n - 1);
    }
}

} // verus!
