//! Zig code for the `print` built-in.
use vstd::prelude::*;
use crate::dict::Dict;
use crate::parser::ast::{Expr, TemplateChunk, Type, TypeV};
use crate::text::{join_seq, join_strings, push_str, string_push, to_owned_string, views};
use crate::transpiler::{TranspileContext, ctx_grows};
use crate::transpiler::helpers::{expr_type, format_text, get_expr_type, get_format_str_from_type, is_muttable, is_mutable_ref};
use crate::transpiler::transpile::{pure_code, ready, transpile_expr};

verus! {

/// What printing needs of its argument: a template's embedded expressions,
/// or else the argument itself, are ready and have a type.
pub open spec fn print_ready(e: Expr) -> bool
    decreases e, 1int,
{
    match e {
        Expr::TemplateString(chunks) => print_chunks_upto(chunks@, chunks@.len() as int),
        _ => ready(e) && expr_type(e) is Some,
    }
}

/// Whether the expressions in the first `n` parts of a printed template are
/// ready and have a type.
pub open spec fn print_chunks_upto(s: Seq<TemplateChunk>, n: int) -> bool
    decreases s, n,
{
    if n <= 0 {
        true
    } else if n > s.len() {
        false
    } else {
        (match s[n - 1] {
            TemplateChunk::Expr(x) => ready(*x) && expr_type(*x) is Some,
            TemplateChunk::Literal(_) => true,
        }) && print_chunks_upto(s, n - 1)
    }
}

/// The first `n` parts of a printed template are ready exactly when each
/// embedded expression is ready and has a type.
pub proof fn lemma_print_chunks_upto(s: Seq<TemplateChunk>, n: int)
    requires
        0 <= n <= s.len(),
    ensures
        print_chunks_upto(s, n) <==> forall|i: int| 0 <= i < n ==>
            ((#[trigger] s[i]) matches TemplateChunk::Expr(x) ==> (ready(*x) && expr_type(*x) is Some)),
    decreases n,
{
    if n > 0 {
        lemma_print_chunks_upto(s, n - 1);
        assert(print_chunks_upto(s, n) == ((match s[n - 1] { TemplateChunk::Expr(x) => ready(*x) && expr_type(*x) is Some, TemplateChunk::Literal(_) => true }) && print_chunks_upto(s, n - 1)));
    }
}

/// A literal part of a template as it stands inside a Zig string: each
/// backslash and double quote escaped by a backslash.
pub open spec fn quote_escaped(s: Seq<char>) -> Seq<char>
    decreases s.len(),
{
    if s.len() == 0 {
        Seq::empty()
    } else {
        let c = s.last();
        quote_escaped(s.drop_last()) + (if c == '\\' { seq!['\\', '\\'] } else if c == '"' {
            seq!['\\', '"']
        } else {
            seq![c]
        })
    }
}

/// A template literal escaped for a Zig string
/// (`.replace('\\', "\\\\").replace('"', "\\\"")`).
pub fn escape_quotes(s: &str) -> (r: String)
    ensures
        r@ == quote_escaped(s@),
{
    let n = s.unicode_len();
    let mut out = String::new();
    let mut i: usize = 0;
    while i < n
        invariant
            n == s@.len(),
            i <= n,
            out@ == quote_escaped(s@.subrange(0, i as int)),
        decreases n - i,
    {
        let c = s.get_char(i);
        if c == '\\' {
            string_push(&mut out, '\\');
            string_push(&mut out, '\\');
        } else if c == '"' {
            string_push(&mut out, '\\');
            string_push(&mut out, '"');
        } else {
            string_push(&mut out, c);
        }
        proof {
            let t = s@.subrange(0, i + 1);
            assert(t.drop_last() =~= s@.subrange(0, i as int));
            assert(t.last() == c);
        }
        i = i + 1;
        assert(out@ =~= quote_escaped(s@.subrange(0, i as int)));
    }
    assert(s@.subrange(0, n as int) =~= s@);
    out
}

/// The code of a value of type `typ` handed to the print call, where `code`
/// is the value's own code: literals as they are, a text by the variant
/// that holds it, a number by its value.
pub open spec fn print_arg_text(e: Expr, typ: TypeV, code: Seq<char>) -> Seq<char> {
    if e is String || e is TemplateString || e is Number {
        code
    } else {
        match typ {
            TypeV::String => code + (if is_mutable_ref(e) { ".Mut"@ } else { ".Const"@ }),
            TypeV::Natural | TypeV::Integer => code + ".deyer"@,
            _ => code,
        }
    }
}

/// The code of a value handed to the print call: literals as they are, a
/// text variable by the variant that holds it, a number by its value.
fn arg_code_for_expr(expr: &Expr, ctx: &mut TranspileContext, typ: Type) -> (r: String)
    requires
        old(ctx).wf(),
        ready(*expr),
    ensures
        final(ctx).wf(),
        ctx_grows(*old(ctx), *final(ctx)),
        exists|c: Seq<char>| (pure_code(*expr, old(ctx).enum_defs) matches Some(p) ==> c == p)
            && r@ == #[trigger] print_arg_text(*expr, typ@, c),
        pure_code(*expr, old(ctx).enum_defs) is Some ==> final(ctx).enum_defs == old(ctx).enum_defs
            && final(ctx).is_used_allocator == old(ctx).is_used_allocator,
    decreases expr, 6int,
{
    match expr {
        Expr::String(_, _) | Expr::TemplateString(_) | Expr::Number(_) => {
            let code = transpile_expr(expr, ctx);
            assert(code@ == print_arg_text(*expr, typ@, code@));
            return code;
        },
        _ => {},
    }
    match typ {
        Type::String => {
            let mut name = transpile_expr(expr, ctx);
            let ghost c = name@;
            if is_muttable(expr) {
                push_str(&mut name, ".Mut");
            } else {
                push_str(&mut name, ".Const");
            }
            assert(name@ =~= print_arg_text(*expr, typ@, c));
            name
        },
        Type::Natural | Type::Integer => {
            let mut name = transpile_expr(expr, ctx);
            let ghost c = name@;
            push_str(&mut name, ".deyer");
            assert(name@ =~= print_arg_text(*expr, typ@, c));
            name
        },
        _ => {
            let name = transpile_expr(expr, ctx);
            assert(name@ =~= print_arg_text(*expr, typ@, name@));
            name
        },
    }
}

/// The code of a print call of a format and the values to put in.
pub open spec fn print_call_text(format: Seq<char>, args: Seq<Seq<char>>) -> Seq<char> {
    "std.debug.print(\""@ + format + "\\n\""@
        + (if args.len() > 0 { ", .{ "@ + join_seq(args, ", "@) + " }"@ } else { Seq::empty() }) + ")"@
}

/// The code of a print call of one value of type `t`.
pub open spec fn print_value_text(t: TypeV, is_allocator: bool, arg: Seq<char>) -> Seq<char> {
    "std.debug.print(\""@ + format_text(t, is_allocator) + "\\n\", .{"@ + arg + "})"@
}

/// The number of expressions among the first `n` parts of a template.
pub open spec fn expr_chunk_count(s: Seq<TemplateChunk>, n: int) -> int
    decreases n,
{
    if n <= 0 {
        0
    } else {
        expr_chunk_count(s, n - 1) + (if s[n - 1] is Expr { 1int } else { 0int })
    }
}

/// The format made from the first `n` parts of a template: each text part
/// escaped for a Zig string, each embedded expression by the format of its
/// type (`flags[k]` telling whether the program uses the allocator when
/// part `k` is reached).
pub open spec fn template_format(chunks: Seq<TemplateChunk>, n: int, flags: Seq<bool>) -> Seq<char>
    decreases n,
{
    if n <= 0 || n > chunks.len() {
        Seq::empty()
    } else {
        template_format(chunks, n - 1, flags) + match chunks[n - 1] {
            TemplateChunk::Literal(s) => quote_escaped(s@),
            TemplateChunk::Expr(x) => format_text(expr_type(*x).unwrap(), flags[n - 1]),
        }
    }
}

/// The values handed to the print call for the first `n` parts of a
/// template: one per embedded expression, from its code `codes[k]`.
pub open spec fn template_args(chunks: Seq<TemplateChunk>, n: int, codes: Seq<Seq<char>>) -> Seq<Seq<char>>
    decreases n,
{
    if n <= 0 || n > chunks.len() {
        Seq::empty()
    } else {
        template_args(chunks, n - 1, codes) + match chunks[n - 1] {
            TemplateChunk::Literal(_) => Seq::empty(),
            TemplateChunk::Expr(x) => seq![print_arg_text(*x, expr_type(*x).unwrap(), codes[n - 1])],
        }
    }
}

/// Whether every expression embedded in a template only reads the context.
pub open spec fn template_pure(chunks: Seq<TemplateChunk>, enums: Dict<Vec<String>>) -> bool {
    forall|k: int| 0 <= k < chunks.len() ==> ((#[trigger] chunks[k]) matches TemplateChunk::Expr(x)
        ==> pure_code(*x, enums) is Some)
}

/// The format of a template's first `n` parts depends on the first `n`
/// flags alone.
proof fn lemma_template_format_prefix(chunks: Seq<TemplateChunk>, n: int, a: Seq<bool>, b: Seq<bool>)
    requires
        forall|k: int| 0 <= k < n ==> a[k] == b[k],
    ensures
        template_format(chunks, n, a) == template_format(chunks, n, b),
    decreases n,
{
    if n > 0 {
        lemma_template_format_prefix(chunks, n - 1, a, b);
    }
}

/// The values of a template's first `n` parts depend on the first `n`
/// codes alone.
proof fn lemma_template_args_prefix(chunks: Seq<TemplateChunk>, n: int, a: Seq<Seq<char>>, b: Seq<Seq<char>>)
    requires
        forall|k: int| 0 <= k < n ==> a[k] == b[k],
    ensures
        template_args(chunks, n, a) == template_args(chunks, n, b),
    decreases n,
{
    if n > 0 {
        lemma_template_args_prefix(chunks, n - 1, a, b);
    }
}

/// What the code of printing `e` is: for a template, a print call of a
/// format with one value per embedded expression; for another value, a
/// print call of its format and the value (`is_allocator` marking values
/// of calls that may fail).
pub open spec fn print_shape(e: Expr, enums: Dict<Vec<String>>, is_allocator: bool, r: Seq<char>) -> bool {
    &&& e matches Expr::TemplateString(chunks) ==> exists|flags: Seq<bool>, codes: Seq<Seq<char>>|
        flags.len() == chunks@.len() && codes.len() == chunks@.len()
        && r == #[trigger] print_call_text(template_format(chunks@, chunks@.len() as int, flags),
            template_args(chunks@, chunks@.len() as int, codes))
        && (template_pure(chunks@, enums) ==> forall|k: int| 0 <= k < chunks@.len()
            ==> ((#[trigger] chunks@[k]) matches TemplateChunk::Expr(x) ==> flags[k] == is_allocator
                && codes[k] == pure_code(*x, enums).unwrap()))
    &&& !(e is TemplateString) ==> exists|c: Seq<char>|
        (pure_code(e, enums) matches Some(p) ==> c == p)
        && r == #[trigger] print_value_text(expr_type(e).unwrap(), is_allocator,
            print_arg_text(e, expr_type(e).unwrap(), c))
}

/// The code of a call of `print` (`transpile_print`): a `std.debug.print`
/// of a format made from the template (or of the value's format) and a
/// newline, with the values to put in.
pub fn transpile_print(expr: &Expr, ctx: &mut TranspileContext) -> (r: String)
    requires
        old(ctx).wf(),
        print_ready(*expr),
    ensures
        final(ctx).wf(),
        ctx_grows(*old(ctx), *final(ctx)),
        final(ctx).uses_stdout,
        print_shape(*expr, old(ctx).enum_defs, old(ctx).is_used_allocator, r@),
    decreases expr, 7int,
{
    ctx.uses_stdout = true;
    match expr {
        Expr::TemplateString(chunks) => {
            proof {
                lemma_print_chunks_upto(chunks@, chunks@.len() as int);
            }
            let mut format_parts = String::new();
            let mut args: Vec<String> = Vec::new();
            let ghost mut flags: Seq<bool> = Seq::new(chunks@.len(), |k: int| false);
            let ghost mut codes: Seq<Seq<char>> = Seq::new(chunks@.len(), |k: int| Seq::<char>::empty());
            let ghost enums = old(ctx).enum_defs;
            let ghost alloc = old(ctx).is_used_allocator;
            let mut i: usize = 0;
            while i < chunks.len()
                invariant
                    flags.len() == chunks@.len(),
                    codes.len() == chunks@.len(),
                    format_parts@ == template_format(chunks@, i as int, flags),
                    views(args@) == template_args(chunks@, i as int, codes),
                    enums == old(ctx).enum_defs,
                    alloc == old(ctx).is_used_allocator,
                    template_pure(chunks@, enums) ==> ctx.enum_defs == enums && ctx.is_used_allocator == alloc
                        && forall|k: int| 0 <= k < i
                            ==> ((#[trigger] chunks@[k]) matches TemplateChunk::Expr(x) ==> flags[k] == alloc
                                && codes[k] == pure_code(*x, enums).unwrap()),
                    ctx.wf(),
                    ctx_grows(*old(ctx), *ctx),
                    ctx.uses_stdout,
                    i <= chunks@.len(),
                    *expr == Expr::TemplateString(*chunks),
                    forall|q: int| 0 <= q < chunks@.len() ==>
                        ((#[trigger] chunks@[q]) matches TemplateChunk::Expr(x) ==> (ready(*x) && expr_type(*x) is Some)),
                    args@.len() == expr_chunk_count(chunks@, i as int),
                decreases chunks@.len() - i,
            {
                let ghost f0 = format_parts@;
                let ghost a0 = views(args@);
                match &chunks[i] {
                    TemplateChunk::Literal(s) => {
                        let esc = escape_quotes(s.as_str());
                        push_str(&mut format_parts, esc.as_str());
                        proof {
                            assert(format_parts@ == f0 + quote_escaped(s@));
                            assert(template_args(chunks@, i + 1, codes) =~= a0 + Seq::<Seq<char>>::empty());
                        }
                    },
                    TemplateChunk::Expr(inner) => {
                        proof {
                            assert(decreases_to!(*expr => expr->TemplateString_0));
                            assert(decreases_to!(expr->TemplateString_0 => expr->TemplateString_0@));
                            assert(decreases_to!(expr->TemplateString_0@ => expr->TemplateString_0@[i as int]));
                        }
                        let typ = get_expr_type(inner);
                        let ghost tv = typ@;
                        let ghost fl = ctx.is_used_allocator;
                        push_str(&mut format_parts, get_format_str_from_type(&typ, ctx.is_used_allocator));
                        let ghost cenums = ctx.enum_defs;
                        let code = arg_code_for_expr(inner, ctx, typ);
                        let ghost cv = code@;
                        args.push(code);
                        proof {
                            let c = choose|c: Seq<char>| (pure_code(**inner, cenums) matches Some(p) ==> c == p)
                                && cv == #[trigger] print_arg_text(**inner, tv, c);
                            let nflags = flags.update(i as int, fl);
                            let ncodes = codes.update(i as int, c);
                            assert(tv == expr_type(**inner).unwrap());
                            lemma_template_format_prefix(chunks@, i as int, nflags, flags);
                            lemma_template_args_prefix(chunks@, i as int, ncodes, codes);
                            assert(format_parts@ == template_format(chunks@, i + 1, nflags));
                            assert(views(args@) =~= a0.push(cv));
                            assert(views(args@) =~= template_args(chunks@, i + 1, ncodes));
                            if template_pure(chunks@, enums) {
                                assert(pure_code(**inner, enums) is Some);
                                assert forall|k: int| 0 <= k < i + 1 implies
                                    ((#[trigger] chunks@[k]) matches TemplateChunk::Expr(x) ==> nflags[k] == alloc
                                    && ncodes[k] == pure_code(*x, enums).unwrap()) by {
                                    if k < i {
                                        assert(nflags[k] == flags[k] && ncodes[k] == codes[k]);
                                    }
                                }
                            }
                            flags = nflags;
                            codes = ncodes;
                        }
                    },
                }
                proof {
                    assert(format_parts@ == template_format(chunks@, i + 1, flags));
                }
                i = i + 1;
            }
            let mut out = String::from_str("std.debug.print(\"");
            push_str(&mut out, format_parts.as_str());
            push_str(&mut out, "\\n\"");
            if args.len() > 0 {
                push_str(&mut out, ", .{ ");
                let joined = join_strings(&args, ", ");
                push_str(&mut out, joined.as_str());
                push_str(&mut out, " }");
            }
            push_str(&mut out, ")");
            assert(out@ =~= print_call_text(format_parts@, views(args@)));
            out
        },
        _ => {
            let typ = get_expr_type(expr);
            let ghost tv = typ@;
            let format_str = get_format_str_from_type(&typ, ctx.is_used_allocator);
            let arg_code = arg_code_for_expr(expr, ctx, typ);
            let mut out = String::from_str("std.debug.print(\"");
            push_str(&mut out, format_str);
            push_str(&mut out, "\\n\", .{");
            push_str(&mut out, arg_code.as_str());
            push_str(&mut out, "})");
            proof {
                let c = choose|c: Seq<char>| (pure_code(*expr, old(ctx).enum_defs) matches Some(p) ==> c == p)
                    && arg_code@ == #[trigger] print_arg_text(*expr, tv, c);
                assert(tv == expr_type(*expr).unwrap());
                assert(format_str@ == format_text(tv, old(ctx).is_used_allocator));
                assert(out@ =~= print_value_text(tv, old(ctx).is_used_allocator, print_arg_text(*expr, tv, c)));
                assert(out@ == print_value_text(expr_type(*expr).unwrap(), old(ctx).is_used_allocator,
                    print_arg_text(*expr, expr_type(*expr).unwrap(), c)));
            }
            out
        },
    }
}

} // verus!
