//! Zig code for a struct type and for the methods of struct and union types.
use vstd::prelude::*;
use crate::parser::ast::{Expr, MethodType, Parameter, Type};
use crate::text::{join_seq, join_strings, push_str, str_eq, to_owned_string, views};
use crate::transpiler::{TranspileContext, ctx_grows};
use crate::transpiler::helpers::{map_type, map_type_text, return_text};
use crate::transpiler::transpile::{block_lines, block_text, codes_tied, lemma_ready_upto, prefix_pure, ready, ready_upto};
use crate::transpiler::union_def::{method_codes, method_codes_of, methods_tied};

verus! {

/// Whether the bodies of the first `n` methods can be generated.
pub open spec fn methods_ready_upto(s: Seq<MethodType>, n: int) -> bool
    decreases s, n,
{
    if n <= 0 {
        true
    } else if n > s.len() {
        false
    } else {
        ready_upto(s[n - 1].body@, s[n - 1].body@.len() as int) && methods_ready_upto(s, n - 1)
    }
}

/// Whether the bodies of all methods can be generated.
pub open spec fn methods_ready(methods: Seq<MethodType>) -> bool {
    forall|k: int| 0 <= k < methods.len() ==> #[trigger] ready_upto(methods[k].body@, methods[k].body@.len() as int)
}

/// The first `n` methods are ready exactly when each body is.
pub proof fn lemma_methods_ready_upto(s: Seq<MethodType>, n: int)
    requires
        0 <= n <= s.len(),
    ensures
        methods_ready_upto(s, n) <==> forall|k: int| 0 <= k < n ==>
            #[trigger] ready_upto(s[k].body@, s[k].body@.len() as int),
    decreases n,
{
    if n > 0 {
        lemma_methods_ready_upto(s, n - 1);
        assert(methods_ready_upto(s, n) == (ready_upto(s[n - 1].body@, s[n - 1].body@.len() as int) && methods_ready_upto(s, n - 1)));
    }
}

/// The declarations of the parameters among the first `n` that are not
/// named `self`.
pub open spec fn named_param_lines(ps: Seq<Parameter>, n: int) -> Seq<Seq<char>>
    decreases n,
{
    if n <= 0 {
        Seq::empty()
    } else {
        let prev = named_param_lines(ps, n - 1);
        if ps[n - 1].name@ == "self"@ {
            prev
        } else {
            prev.push(ps[n - 1].name@ + ": "@ + map_type_text(ps[n - 1].typ@, true))
        }
    }
}

/// The head of a method's code, up to the opening brace of its body: its
/// name, `self_param` and its other parameters, and its return type.
pub open spec fn method_head(m: MethodType, self_param: Seq<char>) -> Seq<char> {
    let lines = named_param_lines(m.params@, m.params@.len() as int);
    "pub fn "@ + m.name@ + "("@ + self_param
        + (if lines.len() > 0 { ", "@ + join_seq(lines, ", "@) } else { Seq::empty() })
        + ")  "@ + return_text(m.return_type) + " {\n"@
}

/// The code of the `k`-th method of a type: a public function that takes
/// the value as `self_param` and then its other parameters, with its body
/// indented inside the type.
pub fn method_code(methods: &Vec<MethodType>, k: usize, self_param: &str, ctx: &mut TranspileContext)
    -> (r: String)
    requires
        old(ctx).wf(),
        k < methods@.len(),
        methods_ready(methods@),
    ensures
        final(ctx).wf(),
        ctx_grows(*old(ctx), *final(ctx)),
        exists|codes: Seq<Seq<char>>| codes.len() == methods@[k as int].body@.len()
            && r@ == method_head(methods@[k as int], self_param@)
                + join_seq(#[trigger] block_text(methods@[k as int].body@, codes, "        "@), "\n"@) + "\n    }"@
            && codes_tied(methods@[k as int].body@, codes, old(ctx).enum_defs),
        prefix_pure(methods@[k as int].body@, methods@[k as int].body@.len() as int, old(ctx).enum_defs)
            ==> final(ctx).enum_defs == old(ctx).enum_defs,
    decreases methods, 0int,
{
    let method = &methods[k];
    let mut param_list: Vec<String> = Vec::new();
    let mut i: usize = 0;
    while i < method.params.len()
        invariant
            i <= method.params@.len(),
            views(param_list@) == named_param_lines(method.params@, i as int),
        decreases method.params@.len() - i,
    {
        let p = &method.params[i];
        if !str_eq(p.name.as_str(), "self") {
            let mut line = p.name.clone();
            push_str(&mut line, ": ");
            let t = map_type(&p.typ, true);
            push_str(&mut line, t.as_str());
            let ghost before = views(param_list@);
            let ghost lv = line@;
            param_list.push(line);
            proof {
                assert(views(param_list@) =~= before.push(lv));
                reveal_strlit("self");
            }
        } else {
            proof {
                reveal_strlit("self");
            }
        }
        i = i + 1;
    }
    let mut all_params = to_owned_string(self_param);
    if param_list.len() > 0 {
        push_str(&mut all_params, ", ");
        let joined = join_strings(&param_list, ", ");
        push_str(&mut all_params, joined.as_str());
    }
    let ret_type = match &method.return_type {
        Some(t) => map_type(t, true),
        None => String::from_str("void"),
    };
    proof {
        assert(ready_upto(methods@[k as int].body@, methods@[k as int].body@.len() as int));
        lemma_ready_upto(method.body@, method.body@.len() as int);
        assert(decreases_to!(methods => methods@[k as int]));
        assert(decreases_to!(methods@[k as int] => methods@[k as int].body));
    }
    let body_lines = block_lines(&method.body, ctx, "        ");
    let mut out = String::from_str("pub fn ");
    push_str(&mut out, method.name.as_str());
    push_str(&mut out, "(");
    push_str(&mut out, all_params.as_str());
    push_str(&mut out, ")  ");
    push_str(&mut out, ret_type.as_str());
    push_str(&mut out, " {\n");
    let body = join_strings(&body_lines, "\n");
    push_str(&mut out, body.as_str());
    push_str(&mut out, "\n    }");
    proof {
        let codes = choose|codes: Seq<Seq<char>>| codes.len() == method.body@.len()
            && #[trigger] views(body_lines@) == block_text(method.body@, codes, "        "@)
            && codes_tied(method.body@, codes, old(ctx).enum_defs);
        assert(ret_type@ == return_text(method.return_type)) by {
            reveal_strlit("void");
        }
        assert(out@ =~= method_head(methods@[k as int], self_param@)
            + join_seq(block_text(methods@[k as int].body@, codes, "        "@), "\n"@) + "\n    }"@);
    }
    out
}

/// The lines of a struct's fields, with the codes of their default values.
pub open spec fn struct_field_lines(fields: Seq<(String, Type, Option<Expr>)>, defaults: Seq<Option<String>>)
    -> Seq<Seq<char>> {
    Seq::new(fields.len(), |i: int| "    "@ + fields[i].0@ + ": "@ + map_type_text(fields[i].1@, true)
        + (match defaults[i] { Some(c) => " = "@ + c@, None => Seq::empty() }) + ","@)
}

/// The code of a struct type with the given lines.
pub open spec fn struct_decl_text(name: Seq<char>, lines: Seq<Seq<char>>) -> Seq<char> {
    "const "@ + name + " = struct {\n"@ + join_seq(lines, "\n"@) + "\n};"@
}

/// The lines of a struct's fields.
fn struct_field_code(fields: &Vec<(String, Type, Option<Expr>)>, defaults: &Vec<Option<String>>) -> (r: Vec<String>)
    requires
        defaults@.len() == fields@.len(),
    ensures
        views(r@) == struct_field_lines(fields@, defaults@),
{
    let mut all_lines: Vec<String> = Vec::new();
    let mut i: usize = 0;
    while i < fields.len()
        invariant
            i <= fields@.len(),
            defaults@.len() == fields@.len(),
            views(all_lines@) == struct_field_lines(fields@.subrange(0, i as int), defaults@.subrange(0, i as int)),
        decreases fields@.len() - i,
    {
        let zig_type = map_type(&fields[i].1, true);
        let mut line = String::from_str("    ");
        push_str(&mut line, fields[i].0.as_str());
        push_str(&mut line, ": ");
        push_str(&mut line, zig_type.as_str());
        match &defaults[i] {
            Some(code) => {
                push_str(&mut line, " = ");
                push_str(&mut line, code.as_str());
            },
            None => {},
        }
        push_str(&mut line, ",");
        let ghost before = views(all_lines@);
        let ghost lv = line@;
        all_lines.push(line);
        proof {
            assert(views(all_lines@) =~= before.push(lv));
            assert forall|q: int| 0 <= q < i + 1 implies
                #[trigger] views(all_lines@)[q]
                    == struct_field_lines(fields@.subrange(0, i + 1), defaults@.subrange(0, i + 1))[q] by {
                if q < i {
                    assert(before[q] == struct_field_lines(fields@.subrange(0, i as int), defaults@.subrange(0, i as int))[q]);
                }
            }
        }
        i = i + 1;
        assert(views(all_lines@) =~= struct_field_lines(fields@.subrange(0, i as int), defaults@.subrange(0, i as int)));
    }
    assert(fields@.subrange(0, fields@.len() as int) =~= fields@);
    assert(defaults@.subrange(0, defaults@.len() as int) =~= defaults@);
    all_lines
}

/// The code of a struct type: a struct named by its generated name, with
/// its fields (and the code of their default values, `defaults`) and its
/// methods, each taking a pointer to the struct as `self`.
pub fn transpile_struct_def(name: &String, transpiled_name: &String, fields: &Vec<(String, Type, Option<Expr>)>,
    defaults: &Vec<Option<String>>, methods: &Vec<MethodType>, ctx: &mut TranspileContext) -> (r: String)
    requires
        old(ctx).wf(),
        defaults@.len() == fields@.len(),
        methods_ready(methods@),
    ensures
        final(ctx).wf(),
        ctx_grows(*old(ctx), *final(ctx)),
        exists|codes: Seq<Seq<char>>| #[trigger] method_codes_of(methods@, codes, "self: *@This()"@)
            && methods_tied(methods@, codes, "self: *@This()"@, old(ctx).enum_defs, true)
            && r@ == struct_decl_text(transpiled_name@,
                struct_field_lines(fields@, defaults@) + seq![Seq::<char>::empty()] + codes),
    decreases methods, 2int,
{
    let old_struct = match &ctx.current_struct {
        Some(s) => Some(s.clone()),
        None => None,
    };
    ctx.current_struct = Some(name.clone());
    let mut all_lines = struct_field_code(fields, defaults);
    all_lines.push(String::new());
    let mut ms = method_codes(methods, "self: *@This()", ctx);
    let ghost head = views(all_lines@);
    let ghost codes = views(ms@);
    all_lines.append(&mut ms);
    assert(views(all_lines@) =~= head + codes);
    assert(head =~= struct_field_lines(fields@, defaults@) + seq![Seq::<char>::empty()]);
    let full_body = join_strings(&all_lines, "\n");
    ctx.current_struct = old_struct;
    let mut out = String::from_str("const ");
    push_str(&mut out, transpiled_name.as_str());
    push_str(&mut out, " = struct {\n");
    push_str(&mut out, full_body.as_str());
    push_str(&mut out, "\n};");
    assert(out@ =~= struct_decl_text(transpiled_name@, struct_field_lines(fields@, defaults@) + seq![Seq::<char>::empty()] + codes));
    out
}

} // verus!
