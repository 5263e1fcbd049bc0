//! Zig code for a union type and its methods.
use vstd::prelude::*;
use crate::parser::ast::{MethodType, Type};
use crate::text::{join_seq, join_strings, push_str, views};
use crate::transpiler::{TranspileContext, ctx_grows};
use crate::transpiler::helpers::{map_type, map_type_text};
use crate::transpiler::struct_def::{method_code, method_head, methods_ready};
use crate::dict::Dict;
use crate::transpiler::transpile::{block_text, codes_tied, prefix_pure};

verus! {

/// The lines of a type's fields, each indented and followed by a comma.
pub open spec fn union_field_lines(fields: Seq<(String, Type)>) -> Seq<Seq<char>> {
    fields.map_values(|f: (String, Type)| "    "@ + f.0@ + ": "@ + map_type_text(f.1@, true) + ","@)
}

/// The code of a union type with the given lines.
pub open spec fn union_decl_text(name: Seq<char>, lines: Seq<Seq<char>>) -> Seq<char> {
    "const "@ + name + " = union(enum) {\n"@ + join_seq(lines, "\n"@) + "\n};"@
}

/// A method's code begins with its head.
pub proof fn lemma_method_code_starts_with_head(m: MethodType, self_param: Seq<char>, code: Seq<char>)
    requires
        exists|c: Seq<Seq<char>>| c.len() == m.body@.len()
            && code == method_head(m, self_param)
                + join_seq(#[trigger] block_text(m.body@, c, "        "@), "\n"@) + "\n    }"@,
    ensures
        method_head(m, self_param).is_prefix_of(code),
{
    let c = choose|c: Seq<Seq<char>>| c.len() == m.body@.len()
        && code == method_head(m, self_param)
            + join_seq(#[trigger] block_text(m.body@, c, "        "@), "\n"@) + "\n    }"@;
    let h = method_head(m, self_param);
    assert(code.subrange(0, h.len() as int) =~= h);
}

/// Whether `codes` could be the codes of `methods` taking the value as
/// `self_param`: one code per method, each beginning with its head.
pub open spec fn method_codes_of(methods: Seq<MethodType>, codes: Seq<Seq<char>>, self_param: Seq<char>) -> bool {
    &&& codes.len() == methods.len()
    &&& forall|k: int| 0 <= k < codes.len() ==> method_head(methods[k], self_param).is_prefix_of(#[trigger] codes[k])
}

/// Whether `code` is the code of the method `m` taking the value as
/// `self_param`: its head, then its body's statements with the codes `c`,
/// and, where `tied`, each of those codes its statement's own code as
/// `codes_tied` says (given `enums`).
pub open spec fn method_text_of(m: MethodType, code: Seq<char>, self_param: Seq<char>, enums: Dict<Vec<String>>,
    tied: bool) -> bool {
    exists|c: Seq<Seq<char>>| c.len() == m.body@.len()
        && code == method_head(m, self_param) + join_seq(#[trigger] block_text(m.body@, c, "        "@), "\n"@) + "\n    }"@
        && (tied ==> codes_tied(m.body@, c, enums))
}

/// Whether the bodies of the first `k` methods only read the context.
pub open spec fn bodies_pure_upto(methods: Seq<MethodType>, k: int, enums: Dict<Vec<String>>) -> bool {
    forall|j: int| 0 <= j < k ==> #[trigger] prefix_pure(methods[j].body@, methods[j].body@.len() as int, enums)
}

/// Whether every method's code is its text, its statements tied to their
/// own codes where `pre` holds and the bodies of the methods before it only
/// read the context (so that it is generated with the enums `enums`).
pub open spec fn methods_tied(methods: Seq<MethodType>, codes: Seq<Seq<char>>, self_param: Seq<char>,
    enums: Dict<Vec<String>>, pre: bool) -> bool {
    forall|k: int| #![trigger codes[k]] 0 <= k < codes.len() && k < methods.len() ==> method_text_of(methods[k], codes[k],
        self_param, enums, pre && bodies_pure_upto(methods, k, enums))
}

/// A method's text stays its text without the tie.
pub proof fn lemma_untie_methods(methods: Seq<MethodType>, codes: Seq<Seq<char>>, self_param: Seq<char>,
    enums: Dict<Vec<String>>, enums2: Dict<Vec<String>>, pre: bool)
    requires
        methods_tied(methods, codes, self_param, enums, pre),
    ensures
        methods_tied(methods, codes, self_param, enums2, false),
{
    assert forall|k: int| #![trigger codes[k]] 0 <= k < codes.len() && k < methods.len() implies method_text_of(methods[k], codes[k],
        self_param, enums2, false && bodies_pure_upto(methods, k, enums2)) by {
        assert(method_text_of(methods[k], codes[k], self_param, enums,
            pre && bodies_pure_upto(methods, k, enums)));
        let c = choose|c: Seq<Seq<char>>| c.len() == methods[k].body@.len()
            && codes[k] == method_head(methods[k], self_param) + join_seq(#[trigger] block_text(methods[k].body@, c, "        "@), "\n"@) + "\n    }"@
            && ((pre && bodies_pure_upto(methods, k, enums))
                ==> codes_tied(methods[k].body@, c, enums));
        assert(block_text(methods[k].body@, c, "        "@) == block_text(methods[k].body@, c, "        "@));
    }
}

/// The lines of a union's fields.
fn union_field_code(fields: &Vec<(String, Type)>) -> (r: Vec<String>)
    ensures
        views(r@) == union_field_lines(fields@),
{
    let mut all_lines: Vec<String> = Vec::new();
    let mut i: usize = 0;
    while i < fields.len()
        invariant
            i <= fields@.len(),
            views(all_lines@) == union_field_lines(fields@.subrange(0, i as int)),
        decreases fields@.len() - i,
    {
        let zig_type = map_type(&fields[i].1, true);
        let mut line = String::from_str("    ");
        push_str(&mut line, fields[i].0.as_str());
        push_str(&mut line, ": ");
        push_str(&mut line, zig_type.as_str());
        push_str(&mut line, ",");
        let ghost before = views(all_lines@);
        let ghost lv = line@;
        all_lines.push(line);
        proof {
            assert(views(all_lines@) =~= before.push(lv));
            assert forall|q: int| 0 <= q < i + 1 implies
                #[trigger] views(all_lines@)[q] == union_field_lines(fields@.subrange(0, i + 1))[q] by {
                if q < i {
                    assert(before[q] == union_field_lines(fields@.subrange(0, i as int))[q]);
                }
            }
        }
        i = i + 1;
        assert(views(all_lines@) =~= union_field_lines(fields@.subrange(0, i as int)));
    }
    assert(fields@.subrange(0, fields@.len() as int) =~= fields@);
    all_lines
}

/// The codes of the methods of a type, taking the value as `self_param`.
pub fn method_codes(methods: &Vec<MethodType>, self_param: &str, ctx: &mut TranspileContext) -> (r: Vec<String>)
    requires
        old(ctx).wf(),
        methods_ready(methods@),
    ensures
        final(ctx).wf(),
        ctx_grows(*old(ctx), *final(ctx)),
        method_codes_of(methods@, views(r@), self_param@),
        methods_tied(methods@, views(r@), self_param@, old(ctx).enum_defs, true),
    decreases methods, 1int,
{
    let mut out: Vec<String> = Vec::new();
    let mut k: usize = 0;
    while k < methods.len()
        invariant
            ctx.wf(),
            ctx_grows(*old(ctx), *ctx),
            k <= methods@.len(),
            methods_ready(methods@),
            out@.len() == k,
            forall|q: int| 0 <= q < k ==> method_head(methods@[q], self_param@).is_prefix_of(#[trigger] views(out@)[q]),
            methods_tied(methods@, views(out@), self_param@, old(ctx).enum_defs, true),
            bodies_pure_upto(methods@, k as int, old(ctx).enum_defs) ==> ctx.enum_defs == old(ctx).enum_defs,
        decreases methods@.len() - k,
    {
        let ghost cm = *ctx;
        let m = method_code(methods, k, self_param, ctx);
        let ghost mv = m@;
        proof {
            lemma_method_code_starts_with_head(methods@[k as int], self_param@, mv);
        }
        let ghost before = views(out@);
        out.push(m);
        proof {
            let enums = old(ctx).enum_defs;
            let sp = self_param@;
            assert(views(out@) =~= before.push(mv));
            assert forall|q: int| 0 <= q < k + 1 implies
                method_head(methods@[q], self_param@).is_prefix_of(#[trigger] views(out@)[q]) by {
                if q < k {
                    assert(views(out@)[q] == before[q]);
                }
            }
            let pre_k = bodies_pure_upto(methods@, k as int, enums);
            let c = choose|c: Seq<Seq<char>>| c.len() == methods@[k as int].body@.len()
                && mv == method_head(methods@[k as int], sp)
                    + join_seq(#[trigger] block_text(methods@[k as int].body@, c, "        "@), "\n"@) + "\n    }"@
                && codes_tied(methods@[k as int].body@, c, cm.enum_defs);
            assert(method_text_of(methods@[k as int], mv, sp, enums, pre_k));
            assert forall|q: int| #![trigger views(out@)[q]] 0 <= q < views(out@).len() && q < methods@.len() implies method_text_of(methods@[q],
                views(out@)[q], sp, enums,
                true && bodies_pure_upto(methods@, q, enums)) by {
                if q < k {
                    assert(views(out@)[q] == before[q]);
                } else {
                    assert(views(out@)[q] == mv);
                }
            }
        }
        k = k + 1;
    }
    out
}

/// The code of a union type (`transpile_union_def`): a tagged union named by
/// its generated name, with its fields and its methods, each taking the
/// union as `self`.
pub fn transpile_union_def(name: &String, transpiled_name: &String, fields: &Vec<(String, Type)>,
    methods: &Vec<MethodType>, ctx: &mut TranspileContext) -> (r: String)
    requires
        old(ctx).wf(),
        methods_ready(methods@),
    ensures
        final(ctx).wf(),
        ctx_grows(*old(ctx), *final(ctx)),
        exists|codes: Seq<Seq<char>>| #[trigger] method_codes_of(methods@, codes, "self: @This()"@)
            && methods_tied(methods@, codes, "self: @This()"@, old(ctx).enum_defs, true)
            && r@ == union_decl_text(transpiled_name@, union_field_lines(fields@) + seq![Seq::<char>::empty()] + codes),
    decreases methods, 2int,
{
    let old_struct = match &ctx.current_struct {
        Some(s) => Some(s.clone()),
        None => None,
    };
    ctx.current_struct = Some(name.clone());
    let ghost start = *ctx;
    let mut all_lines = union_field_code(fields);
    all_lines.push(String::new());
    let mut ms = method_codes(methods, "self: @This()", ctx);
    let ghost head = views(all_lines@);
    let ghost codes = views(ms@);
    all_lines.append(&mut ms);
    assert(views(all_lines@) =~= head + codes);
    assert(head =~= union_field_lines(fields@) + seq![Seq::<char>::empty()]);
    let full_body = join_strings(&all_lines, "\n");
    ctx.current_struct = old_struct;
    let mut out = String::from_str("const ");
    push_str(&mut out, transpiled_name.as_str());
    push_str(&mut out, " = union(enum) {\n");
    push_str(&mut out, full_body.as_str());
    push_str(&mut out, "\n};");
    assert(out@ =~= union_decl_text(transpiled_name@, union_field_lines(fields@) + seq![Seq::<char>::empty()] + codes));
    out
}

} // verus!
