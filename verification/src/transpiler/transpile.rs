//! Zig code for one expression or statement of a checked program.
use vstd::prelude::*;
use crate::dict::Dict;
use crate::parser::ast::{BuiltInFunction, EnumDecl, Expr, TemplateChunk, Type, TypeV};
use crate::text::{
    decimal_text, decimal_to_string, i64_to_string, int_text, push_str, push_usize, starts_with_after_ws, str_eq,
    string_push, to_owned_string, trim_char, trim_char_seq, ends_with_char, views, join_seq,
};
use crate::transpiler::{TranspileContext, ctx_grows};
use crate::transpiler::builtinfunctions::min_max::{minmax_ready, minmax_text, transpile_max, transpile_min};
use crate::transpiler::builtinfunctions::print::{print_ready, print_shape, transpile_print};
use crate::transpiler::struct_def::lemma_methods_ready_upto;
use crate::transpiler::builtinfunctions::sum::{sum_text, transpile_sum};
use crate::transpiler::decl::{transpile_decl, decl_ready, simple_decl, simple_decl_text};
use crate::transpiler::helpers::{expr_type, get_expr_type, is_semicolon_needed, semicolon_needed};
use crate::transpiler::helpers::{function_text, transpile_function_def};
use crate::transpiler::struct_def::{methods_ready, methods_ready_upto, struct_decl_text, struct_field_lines, transpile_struct_def};
use crate::transpiler::union_def::{method_codes_of, methods_tied, transpile_union_def, union_decl_text, union_field_lines};

verus! {

/// The lower-case hexadecimal digit of `d` (below 16).
pub open spec fn hex_digit(d: int) -> char {
    if d < 10 { (48 + d) as char } else { (87 + d) as char }
}

/// The shortest hexadecimal text of `n`, in lower case.
pub open spec fn hex_text(n: nat) -> Seq<char>
    decreases n,
{
    if n < 16 {
        seq![hex_digit(n as int)]
    } else {
        hex_text(n / 16).push(hex_digit((n % 16) as int))
    }
}

/// How `char::escape_default` writes a character: tab, carriage return
/// and line feed as `\t`, `\r`, `\n`; quotes and the backslash after a
/// backslash; other printable ASCII characters as they are; anything else
/// as `\u{..}` with the shortest lower-case hexadecimal code.
pub open spec fn escaped_char(c: char) -> Seq<char> {
    if c == '\t' {
        seq!['\\', 't']
    } else if c == '\r' {
        seq!['\\', 'r']
    } else if c == '\n' {
        seq!['\\', 'n']
    } else if c == '\'' || c == '"' || c == '\\' {
        seq!['\\', c]
    } else if 0x20 <= (c as u32) && (c as u32) <= 0x7e {
        seq![c]
    } else {
        seq!['\\', 'u', '{'] + hex_text(c as nat) + seq!['}']
    }
}

/// The text `str::escape_default` makes of a text: each character as
/// `char::escape_default` writes it, in order.
pub open spec fn escaped(s: Seq<char>) -> Seq<char>
    decreases s.len(),
{
    if s.len() == 0 {
        Seq::empty()
    } else {
        escaped(s.drop_last()) + escaped_char(s.last())
    }
}

/// The text with special and non-ASCII characters escaped
/// (`str::escape_default`). Trusted: the result is `escaped` of the text,
/// as the standard library documents each character's escape.
#[verifier::external_body]
fn escape_default(s: &str) -> (r: String)
    ensures
        r@ == escaped(s@),
{
    s.escape_default().to_string()
}

/// Whether a call argument can be generated: a variable with a symbol
/// needs its generated name, any other argument must itself be ready.
pub open spec fn arg_ready(e: Expr) -> bool
    decreases e, 1int,
{
    match e {
        Expr::VariableRef { transpiled_name, symbol: Some(_), .. } => transpiled_name is Some,
        _ => ready(e),
    }
}

/// What an argument being ready means, case by case.
pub proof fn lemma_arg_ready(e: Expr)
    ensures
        arg_ready(e) == (match e {
            Expr::VariableRef { transpiled_name, symbol: Some(_), .. } => transpiled_name is Some,
            _ => ready(e),
        }),
{
}

/// Whether the first `n` expressions of `s` can be generated.
pub open spec fn ready_upto(s: Seq<Expr>, n: int) -> bool
    decreases s, n,
{
    if n <= 0 {
        true
    } else if n > s.len() {
        false
    } else {
        ready(s[n - 1]) && ready_upto(s, n - 1)
    }
}

/// Whether the first `n` call arguments of `s` can be generated.
pub open spec fn args_ready_upto(s: Seq<Expr>, n: int) -> bool
    decreases s, n,
{
    if n <= 0 {
        true
    } else if n > s.len() {
        false
    } else {
        arg_ready(s[n - 1]) && args_ready_upto(s, n - 1)
    }
}

/// Whether the values of the first `n` named fields of `s` can be generated.
pub open spec fn pairs_ready_upto(s: Seq<(String, Expr)>, n: int) -> bool
    decreases s, n,
{
    if n <= 0 {
        true
    } else if n > s.len() {
        false
    } else {
        ready(s[n - 1].1) && pairs_ready_upto(s, n - 1)
    }
}

/// Whether the first `n` arms of a match can be generated.
pub open spec fn arms_ready_upto(s: Seq<(Expr, Vec<Expr>)>, n: int) -> bool
    decreases s, n,
{
    if n <= 0 {
        true
    } else if n > s.len() {
        false
    } else {
        ready(s[n - 1].0) && ready_upto(s[n - 1].1@, s[n - 1].1@.len() as int) && arms_ready_upto(s, n - 1)
    }
}

/// Whether the expressions in the first `n` parts of a template can be
/// generated.
pub open spec fn chunks_ready_upto(s: Seq<TemplateChunk>, n: int) -> bool
    decreases s, n,
{
    if n <= 0 {
        true
    } else if n > s.len() {
        false
    } else {
        (match s[n - 1] {
            TemplateChunk::Expr(x) => ready(*x),
            TemplateChunk::Literal(_) => true,
        }) && chunks_ready_upto(s, n - 1)
    }
}

/// Whether the default values of the first `n` fields of a struct can be
/// generated.
pub open spec fn defaults_ready_upto(s: Seq<(String, Type, Option<Expr>)>, n: int) -> bool
    decreases s, n,
{
    if n <= 0 {
        true
    } else if n > s.len() {
        false
    } else {
        (match s[n - 1].2 {
            Some(d) => ready(d),
            None => true,
        }) && defaults_ready_upto(s, n - 1)
    }
}

/// Whether the generator can produce code for `e` without stopping: the
/// validator has given every declaration, type and call its generated name,
/// every built-in call has the arguments the generator reads, and no form
/// is met that the generator has no code for.
pub open spec fn ready(e: Expr) -> bool
    decreases e, 0int,
{
    match e {
        Expr::String(_, _) | Expr::Number(_) | Expr::Float(_) | Expr::Bool(_) | Expr::Break
        | Expr::Continue | Expr::VariableRef { .. } | Expr::EnumDecl(_) => true,
        Expr::DynamicString(_) | Expr::Char(_) | Expr::Assingment { .. } | Expr::Time(_) => false,
        Expr::Decl { transpiled_name, typ, value, .. } =>
            transpiled_name is Some && ready(*value) && decl_ready(typ, *value),
        Expr::Return(inner) => ready(*inner),
        Expr::UnaryOp { expr, .. } => ready(*expr),
        Expr::List(items) => ready_upto(items@, items@.len() as int),
        Expr::If { condition, then_branch, else_branch } => ready(*condition)
            && ready_upto(then_branch@, then_branch@.len() as int)
            && ready_upto(else_branch@, else_branch@.len() as int),
        Expr::ElseIf { condition, then_branch } => ready(*condition)
            && ready_upto(then_branch@, then_branch@.len() as int),
        Expr::Else { then_branch } => ready_upto(then_branch@, then_branch@.len() as int),
        Expr::BinaryOp { left, right, .. } => ready(*left) && ready(*right),
        Expr::StructDef { transpiled_name, fields, methods, .. } => transpiled_name is Some
            && defaults_ready_upto(fields@, fields@.len() as int)
            && methods_ready_upto(methods@, methods@.len() as int),
        Expr::UnionType { transpiled_name, methods, .. } => transpiled_name is Some
            && methods_ready_upto(methods@, methods@.len() as int),
        Expr::TemplateString(chunks) => chunks_ready_upto(chunks@, chunks@.len() as int),
        Expr::FunctionDef { body, .. } => ready_upto(body@, body@.len() as int),
        Expr::BuiltInCall { function, args, .. } => match function {
            BuiltInFunction::Print | BuiltInFunction::LastWord => args@.len() >= 1 && print_ready(args@[0]),
            BuiltInFunction::Max | BuiltInFunction::Min => args@.len() >= 1 && minmax_ready(args@[0]),
            BuiltInFunction::Sum => args@.len() >= 1 && expr_type(args@[0]) is Some
                && ready_upto(args@, args@.len() as int),
            BuiltInFunction::Range => args@.len() >= 2 && ready(args@[0]) && ready(args@[1]),
            BuiltInFunction::Timer => true,
            BuiltInFunction::Len | BuiltInFunction::Trim | BuiltInFunction::Allocator => false,
            _ => args@.len() >= 1 && ready(args@[0]),
        },
        Expr::Call { transpiled_name, args, .. } => transpiled_name is Some
            && args_ready_upto(args@, args@.len() as int),
        Expr::StructInit { transpiled_name, args, .. } => transpiled_name is Some
            && pairs_ready_upto(args@, args@.len() as int),
        Expr::Loop { iterable, body, .. } => ready(*iterable) && ready_upto(body@, body@.len() as int),
        Expr::Index { target, index, .. } => ready(*target) && ready(*index) && expr_type(*index) is Some,
        Expr::Match { target, arms } => ready(*target) && arms_ready_upto(arms@, arms@.len() as int),
        Expr::Assignment { value, .. } => match *value {
            Expr::StructInit { transpiled_name: Some(tn), args, .. } => if tn@ == "azlangYazi"@ {
                args@.len() >= 1 && ready(args@[0].1)
            } else {
                ready(*value)
            },
            _ => ready(*value),
        },
    }
}

/// The first `n` expressions are ready exactly when each of them is.
pub proof fn lemma_ready_upto(s: Seq<Expr>, n: int)
    requires
        0 <= n <= s.len(),
    ensures
        ready_upto(s, n) <==> forall|i: int| 0 <= i < n ==> #[trigger] ready(s[i]),
    decreases n,
{
    if n > 0 {
        lemma_ready_upto(s, n - 1);
        assert(ready_upto(s, n) == (ready(s[n - 1]) && ready_upto(s, n - 1)));
    }
}

/// The first `n` call arguments are ready exactly when each of them is.
pub proof fn lemma_args_ready_upto(s: Seq<Expr>, n: int)
    requires
        0 <= n <= s.len(),
    ensures
        args_ready_upto(s, n) <==> forall|i: int| 0 <= i < n ==> #[trigger] arg_ready(s[i]),
    decreases n,
{
    if n > 0 {
        lemma_args_ready_upto(s, n - 1);
        assert(args_ready_upto(s, n) == (arg_ready(s[n - 1]) && args_ready_upto(s, n - 1)));
    }
}

/// The first `n` field values are ready exactly when each of them is.
pub proof fn lemma_pairs_ready_upto(s: Seq<(String, Expr)>, n: int)
    requires
        0 <= n <= s.len(),
    ensures
        pairs_ready_upto(s, n) <==> forall|i: int| 0 <= i < n ==> #[trigger] ready(s[i].1),
    decreases n,
{
    if n > 0 {
        lemma_pairs_ready_upto(s, n - 1);
        assert(pairs_ready_upto(s, n) == (ready(s[n - 1].1) && pairs_ready_upto(s, n - 1)));
    }
}

/// The first `n` arms are ready exactly when each pattern and body is.
pub proof fn lemma_arms_ready_upto(s: Seq<(Expr, Vec<Expr>)>, n: int)
    requires
        0 <= n <= s.len(),
    ensures
        arms_ready_upto(s, n) <==> forall|i: int| 0 <= i < n ==>
            #[trigger] ready(s[i].0) && ready_upto(s[i].1@, s[i].1@.len() as int),
    decreases n,
{
    if n > 0 {
        lemma_arms_ready_upto(s, n - 1);
        assert(arms_ready_upto(s, n) == (ready(s[n - 1].0) && ready_upto(s[n - 1].1@, s[n - 1].1@.len() as int) && arms_ready_upto(s, n - 1)));
    }
}

/// The first `n` template parts are ready exactly when each embedded
/// expression is.
pub proof fn lemma_chunks_ready_upto(s: Seq<TemplateChunk>, n: int)
    requires
        0 <= n <= s.len(),
    ensures
        chunks_ready_upto(s, n) <==> forall|i: int| 0 <= i < n ==>
            ((#[trigger] s[i]) matches TemplateChunk::Expr(x) ==> ready(*x)),
    decreases n,
{
    if n > 0 {
        lemma_chunks_ready_upto(s, n - 1);
        assert(chunks_ready_upto(s, n) == ((match s[n - 1] { TemplateChunk::Expr(x) => ready(*x), TemplateChunk::Literal(_) => true }) && chunks_ready_upto(s, n - 1)));
    }
}

/// The first `n` default values are ready exactly when each of them is.
pub proof fn lemma_defaults_ready_upto(s: Seq<(String, Type, Option<Expr>)>, n: int)
    requires
        0 <= n <= s.len(),
    ensures
        defaults_ready_upto(s, n) <==> forall|i: int| 0 <= i < n ==>
            ((#[trigger] s[i]).2 matches Some(d) ==> ready(d)),
    decreases n,
{
    if n > 0 {
        lemma_defaults_ready_upto(s, n - 1);
        assert(defaults_ready_upto(s, n) == ((match s[n - 1].2 { Some(d) => ready(d), None => true }) && defaults_ready_upto(s, n - 1)));
    }
}

/// Whether `name` is a variant of one of the enums in `enums`.
pub open spec fn variant_in(enums: Dict<Vec<String>>, name: Seq<char>) -> bool {
    exists|i: int| 0 <= i < enums.entries@.len()
        && (#[trigger] enums.entries@[i]).1@.map_values(|v: String| v@).contains(name)
}

/// The code of an expression that only reads the context, given the enums
/// seen so far: literals, variables, operations, indexing, lists and
/// templates built from such expressions; `None` for other forms.
pub open spec fn pure_code(e: Expr, enums: Dict<Vec<String>>) -> Option<Seq<char>>
    decreases e, 0int,
{
    match e {
        Expr::String(s, b) => Some(if b {
            "try allocator.dupe(u8, \""@ + escaped(s@) + "\")"@
        } else {
            "\""@ + escaped(s@) + "\""@
        }),
        Expr::Number(n) => Some(int_text(n as int)),
        Expr::Float(f) => Some(decimal_text(f.mantissa as int, f.scale as nat)),
        Expr::Bool(b) => Some(if b { "true"@ } else { "false"@ }),
        Expr::Break => Some("break"@),
        Expr::Continue => Some("continue"@),
        Expr::VariableRef { name, transpiled_name, symbol } => {
            let tname = match transpiled_name { Some(t) => t@, None => name@ };
            Some(if variant_in(enums, name@) {
                "."@ + tname
            } else {
                match symbol {
                    Some(sym) => if sym.is_pointer { tname + ".*"@ } else { tname },
                    None => name@,
                }
            })
        },
        Expr::Return(inner) => match pure_code(*inner, enums) {
            Some(c) => Some("return "@ + c),
            None => None,
        },
        Expr::UnaryOp { op, expr } => match pure_code(*expr, enums) {
            Some(c) => Some(op@ + c),
            None => None,
        },
        Expr::List(items) => match list_codes(items@, items@.len() as int, enums) {
            Some(c) => Some("["@ + c + "]"@),
            None => None,
        },
        Expr::BinaryOp { left, op, right } => match (operand_pure(*left, enums), operand_pure(*right, enums)) {
            (Some(l), Some(r)) => Some(binary_text(l, op@, r)),
            _ => None,
        },
        Expr::Index { target, index, .. } => match (pure_code(*target, enums), pure_code(*index, enums), expr_type(*index)) {
            (Some(t), Some(i), Some(ty)) => Some(if ty == TypeV::String {
                t + "."@ + trim_char_seq(i, '"')
            } else {
                t + "["@ + i + "]"@
            }),
            _ => None,
        },
        Expr::TemplateString(chunks) => chunk_codes(chunks@, chunks@.len() as int, enums),
        _ => None,
    }
}

/// The code of an operand of a binary operation: a variable with a symbol
/// by its source name, dereferenced when a pointer; else its code.
pub open spec fn operand_pure(e: Expr, enums: Dict<Vec<String>>) -> Option<Seq<char>>
    decreases e, 1int,
{
    match e {
        Expr::VariableRef { name, symbol: Some(sym), .. } => Some(if sym.is_pointer { name@ + ".*"@ } else { name@ }),
        _ => pure_code(e, enums),
    }
}

/// The code of a binary operation from the code of its operands: division
/// and remainder as Zig built-ins, other operators between the operands'
/// values, `&&` and `||` as `and` and `or`.
pub open spec fn binary_text(l: Seq<char>, op: Seq<char>, r: Seq<char>) -> Seq<char> {
    let z = zig_op(op);
    if z == "/"@ {
        "(@divTrunc("@ + l + ".deyer,"@ + r + ".deyer))"@
    } else if z == "%"@ {
        "(@mod("@ + l + ".deyer,"@ + r + ".deyer))"@
    } else {
        "("@ + l + ".deyer "@ + z + " "@ + r + ".deyer)"@
    }
}

/// Whether `r` is the code of the binary operation `e`: the operator's
/// template over a code of each operand, where the left operand's code is
/// its own whenever it only reads the context, and so is the right one's
/// when both do.
pub open spec fn binary_coded(e: Expr, enums: Dict<Vec<String>>, r: Seq<char>) -> bool {
    e matches Expr::BinaryOp { left, op, right } ==> exists|lc: Seq<char>, rc: Seq<char>|
        r == #[trigger] binary_text(lc, op@, rc)
        && (operand_pure(*left, enums) matches Some(p) ==> lc == p)
        && (operand_pure(*left, enums) is Some ==> (operand_pure(*right, enums) matches Some(q) ==> rc == q))
}

/// The code of a literal: a truth value as `true` or `false`, a jump as
/// `break` or `continue`, a whole number as its decimal digits, a text in
/// quotes (copied with the allocator when it is to be changed).
pub proof fn lemma_literal_codes(b: bool, n: i64, s: String, enums: Dict<Vec<String>>)
    ensures
        pure_code(Expr::Bool(b), enums) == Some(if b { "true"@ } else { "false"@ }),
        pure_code(Expr::Break, enums) == Some("break"@),
        pure_code(Expr::Continue, enums) == Some("continue"@),
        pure_code(Expr::Number(n), enums) == Some(int_text(n as int)),
        pure_code(Expr::String(s, false), enums) == Some("\""@ + escaped(s@) + "\""@),
{
}

/// The code of a binary operation whose operands only read the context,
/// with `p` and `q` their codes, as `transpile_expr` gives it: the
/// operator stands between the operands' values, written as itself, but
/// `&&` as `and` and `||` as `or`; `/` and `%` become Zig's `@divTrunc`
/// and `@mod` over the two values.
pub proof fn lemma_binary_operator_written(left: Expr, op: String, right: Expr, enums: Dict<Vec<String>>,
    r: Seq<char>, p: Seq<char>, q: Seq<char>)
    requires
        binary_coded(Expr::BinaryOp { left: Box::new(left), op, right: Box::new(right) }, enums, r),
        operand_pure(left, enums) == Some(p),
        operand_pure(right, enums) == Some(q),
    ensures
        op@ == "&&"@ ==> r == "("@ + p + ".deyer "@ + "and"@ + " "@ + q + ".deyer)"@,
        op@ == "||"@ ==> r == "("@ + p + ".deyer "@ + "or"@ + " "@ + q + ".deyer)"@,
        op@ == "/"@ ==> r == "(@divTrunc("@ + p + ".deyer,"@ + q + ".deyer))"@,
        op@ == "%"@ ==> r == "(@mod("@ + p + ".deyer,"@ + q + ".deyer))"@,
        op@ != "&&"@ && op@ != "||"@ && op@ != "/"@ && op@ != "%"@
            ==> r == "("@ + p + ".deyer "@ + op@ + " "@ + q + ".deyer)"@,
{
    reveal_strlit("&&");
    reveal_strlit("||");
    reveal_strlit("/");
    reveal_strlit("%");
    reveal_strlit("and");
    reveal_strlit("or");
    assert("/"@ != "%"@) by { assert("/"@[0] != "%"@[0]); }
    assert("or"@.len() == 2 && "and"@.len() == 3 && "/"@.len() == 1 && "%"@.len() == 1);
    assert("or"@ != "/"@ && "or"@ != "%"@ && "and"@ != "/"@ && "and"@ != "%"@);
    assert("&&"@ != "||"@) by { assert("&&"@[0] != "||"@[0]); }
}

/// The codes of the first `n` elements, separated by commas.
pub open spec fn list_codes(items: Seq<Expr>, n: int, enums: Dict<Vec<String>>) -> Option<Seq<char>>
    decreases items, n,
{
    if n <= 0 || n > items.len() {
        Some(Seq::empty())
    } else if n == 1 {
        pure_code(items[0], enums)
    } else {
        match (list_codes(items, n - 1, enums), pure_code(items[n - 1], enums)) {
            (Some(a), Some(b)) => Some(a + ", "@ + b),
            _ => None,
        }
    }
}

/// The codes of the first `n` parts of a template, one per line.
pub open spec fn chunk_codes(chunks: Seq<TemplateChunk>, n: int, enums: Dict<Vec<String>>) -> Option<Seq<char>>
    decreases chunks, n,
{
    if n <= 0 || n > chunks.len() {
        Some(Seq::empty())
    } else if n == 1 {
        match chunks[0] {
            TemplateChunk::Literal(l) => Some(l@),
            TemplateChunk::Expr(x) => pure_code(*x, enums),
        }
    } else {
        match (chunk_codes(chunks, n - 1, enums), match chunks[n - 1] {
            TemplateChunk::Literal(l) => Some(l@),
            TemplateChunk::Expr(x) => pure_code(*x, enums),
        }) {
            (Some(a), Some(b)) => Some(a + "\n"@ + b),
            _ => None,
        }
    }
}

/// A list whose code exists has code for each prefix and each element.
pub proof fn lemma_list_codes_prefix(items: Seq<Expr>, n: int, k: int, enums: Dict<Vec<String>>)
    requires
        0 <= k <= n <= items.len(),
        list_codes(items, n, enums) is Some,
    ensures
        list_codes(items, k, enums) is Some,
        k < n ==> pure_code(items[k], enums) is Some,
    decreases n,
{
    if k < n {
        if n == 1 {
            assert(list_codes(items, 0, enums) == Some(Seq::<char>::empty()));
        } else {
            lemma_list_codes_prefix(items, n - 1, k, enums);
            if k == n - 1 {
                assert(pure_code(items[n - 1], enums) is Some);
            }
        }
    }
}

/// A template whose code exists has code for each prefix and each part.
pub proof fn lemma_chunk_codes_prefix(chunks: Seq<TemplateChunk>, n: int, k: int, enums: Dict<Vec<String>>)
    requires
        0 <= k <= n <= chunks.len(),
        chunk_codes(chunks, n, enums) is Some,
    ensures
        chunk_codes(chunks, k, enums) is Some,
        k < n ==> (chunks[k] matches TemplateChunk::Expr(x) ==> pure_code(*x, enums) is Some),
    decreases n,
{
    if k < n {
        if n == 1 {
            assert(chunk_codes(chunks, 0, enums) == Some(Seq::<char>::empty()));
        } else {
            lemma_chunk_codes_prefix(chunks, n - 1, k, enums);
        }
    }
}

/// The context after generating a form that only reads it: unchanged but
/// for the mark that `self` was used.
pub open spec fn only_self_marked(before: TranspileContext, after: TranspileContext) -> bool {
    after == TranspileContext { is_used_self: after.is_used_self, ..before }
}

/// The operator an operator of the language is written as in Zig.
pub open spec fn zig_op(op: Seq<char>) -> Seq<char> {
    if op == "&&"@ { "and"@ } else if op == "||"@ { "or"@ } else { op }
}

/// The line of a statement of code `code`: with a semicolon where the
/// statement needs one and the code is not a comment.
pub open spec fn line_text(e: Expr, code: Seq<char>) -> Seq<char> {
    if semicolon_needed(e) && !("//"@.is_prefix_of(crate::text::trim_start_seq(code))) {
        code.push(';')
    } else {
        code
    }
}

/// The lines of a block whose statements have the codes `codes`, each
/// after `indent`.
pub open spec fn block_text(body: Seq<Expr>, codes: Seq<Seq<char>>, indent: Seq<char>) -> Seq<Seq<char>> {
    Seq::new(body.len(), |k: int| indent + line_text(body[k], codes[k]))
}

/// Whether the first `k` statements only read the context (given `enums`).
pub open spec fn prefix_pure(body: Seq<Expr>, k: int, enums: Dict<Vec<String>>) -> bool {
    forall|j: int| 0 <= j < k ==> #[trigger] pure_code(body[j], enums) is Some
}

/// Whether each code of `codes` is its statement's own code, for every
/// statement that only reads the context and has only such statements
/// before it (so that it is transpiled with the enums `enums`).
pub open spec fn codes_tied(body: Seq<Expr>, codes: Seq<Seq<char>>, enums: Dict<Vec<String>>) -> bool {
    forall|k: int| 0 <= k < codes.len() && k < body.len() && prefix_pure(body, k, enums)
        ==> (#[trigger] pure_code(body[k], enums) matches Some(c) ==> codes[k] == c)
}

/// One more statement's code keeps the codes tied.
proof fn lemma_tie_step(body: Seq<Expr>, codes: Seq<Seq<char>>, enums: Dict<Vec<String>>, c: Seq<char>)
    requires
        codes_tied(body, codes, enums),
        codes.len() < body.len(),
        prefix_pure(body, codes.len() as int, enums)
            ==> (pure_code(body[codes.len() as int], enums) matches Some(p) ==> c == p),
    ensures
        codes_tied(body, codes.push(c), enums),
        prefix_pure(body, codes.len() + 1int, enums)
            == (prefix_pure(body, codes.len() as int, enums) && pure_code(body[codes.len() as int], enums) is Some),
{
    let n = codes.len() as int;
    assert forall|k: int| 0 <= k < codes.push(c).len() && k < body.len() && prefix_pure(body, k, enums)
        implies (#[trigger] pure_code(body[k], enums) matches Some(q) ==> codes.push(c)[k] == q) by {
        if k < n {
            assert(codes.push(c)[k] == codes[k]);
        }
    }
    if prefix_pure(body, n, enums) && pure_code(body[n], enums) is Some {
        assert forall|j: int| 0 <= j < n + 1 implies #[trigger] pure_code(body[j], enums) is Some by {
            if j < n {
            }
        }
    }
}

/// A statement of a block, with a semicolon where it needs one and is not
/// a comment.
pub fn terminated_line(expr: &Expr, line: String) -> (r: String)
    ensures
        r@ == line_text(*expr, line@),
{
    let mut line = line;
    if is_semicolon_needed(expr) && !starts_with_after_ws(line.as_str(), "//") {
        string_push(&mut line, ';');
    }
    line
}

/// Whether `r` is code that `transpile_expr` may give for `e` in the
/// context `c0`, leaving the context `c1`, as its contract states.
#[verifier::opaque]
pub open spec fn transpiled(e: Expr, c0: TranspileContext, r: Seq<char>, c1: TranspileContext) -> bool {
    &&& (c1.wf())
    &&& (ctx_grows(c0, c1))
    &&& (pure_code(e, c0.enum_defs) matches Some(c) ==> r == c && only_self_marked(c0, c1))
    &&& (e matches Expr::EnumDecl(d) ==> r == enum_decl_text(d) && c1.enum_defs.has(d.name@)
        && c1.enum_defs.as_map()[d.name@]@ == d.variants@
        && c1.enums_declared@ == c0.enums_declared@ + 1)
    &&& (e matches Expr::Decl { transpiled_name: Some(tn), typ, is_mutable, value, .. } ==>
        (simple_decl(typ, is_mutable) ==> (pure_code(*value, c0.enum_defs) matches Some(c)
            ==> r == simple_decl_text(tn@, typ, is_mutable, c))))
    &&& (e is Call ==> exists|codes: Seq<Seq<char>>| codes.len() == e->Call_args@.len()
        && (all_pure(e->Call_args@, c0.enum_defs) ==> forall|k: int| 0 <= k < codes.len()
            ==> #[trigger] codes[k] == pure_code(e->Call_args@[k], c0.enum_defs).unwrap())
        && r == #[trigger] call_text(e, codes))
    &&& (e is If ==> exists|c: Seq<char>, tcodes: Seq<Seq<char>>, ecodes: Seq<Seq<char>>|
        (pure_code(*e->If_condition, c0.enum_defs) matches Some(p) ==> c == p)
        && tcodes.len() == e->If_then_branch@.len() && ecodes.len() == e->If_else_branch@.len()
        && r == #[trigger] if_text(c, e->If_then_branch@, tcodes, ecodes)
        && (pure_code(*e->If_condition, c0.enum_defs) is Some
            ==> codes_tied(e->If_then_branch@, tcodes, c0.enum_defs)))
    &&& (e is ElseIf ==> exists|c: Seq<char>, codes: Seq<Seq<char>>|
        (pure_code(*e->ElseIf_condition, c0.enum_defs) matches Some(p) ==> c == p)
        && codes.len() == e->ElseIf_then_branch@.len()
        && r == #[trigger] else_if_text(c, codes)
        && (pure_code(*e->ElseIf_condition, c0.enum_defs) is Some
            ==> codes_tied(e->ElseIf_then_branch@, codes, c0.enum_defs)))
    &&& (e is Else ==> exists|codes: Seq<Seq<char>>| codes.len() == e->Else_then_branch@.len()
        && r == #[trigger] else_text(e->Else_then_branch@, codes)
        && codes_tied(e->Else_then_branch@, codes, c0.enum_defs))
    &&& (e matches Expr::FunctionDef { name, params, body, return_type, .. } ==> exists|codes: Seq<Seq<char>>|
        codes.len() == body@.len()
        && r == function_text(name@, params@, return_type, #[trigger] block_text(body@, codes, "    "@))
        && codes_tied(body@, codes, c0.enum_defs))
    &&& (e matches Expr::UnionType { transpiled_name: Some(tn), fields, methods, .. } ==> exists|codes: Seq<Seq<char>>|
        #[trigger] method_codes_of(methods@, codes, "self: @This()"@)
        && methods_tied(methods@, codes, "self: @This()"@, c0.enum_defs, true)
        && r == union_decl_text(tn@, union_field_lines(fields@) + seq![Seq::<char>::empty()] + codes))
    &&& (e matches Expr::StructInit { transpiled_name: Some(tn), args, .. } ==> exists|codes: Seq<Seq<char>>|
        codes.len() == args@.len() && r == #[trigger] struct_init_text(tn@, args@, codes)
        && codes_tied(field_values(args@), codes, c0.enum_defs))
    &&& (e matches Expr::Assignment { name, value, .. } ==> exists|c: Seq<char>|
        (pure_code(*value, c0.enum_defs) matches Some(p) ==> c == p)
        && r == name@ + " = "@ + #[trigger] assigned_value_text(*value, c))
    &&& (e matches Expr::Match { target, arms } ==> exists|t: Seq<char>, pcodes: Seq<Seq<char>>, bcodes: Seq<Seq<Seq<char>>>|
        (pure_code(*target, c0.enum_defs) matches Some(p) ==> t == p)
        && pcodes.len() == arms@.len() && bcodes.len() == arms@.len()
        && (forall|k: int| 0 <= k < bcodes.len() ==> #[trigger] bcodes[k].len() == arms@[k].1@.len())
        && r == #[trigger] match_text(t, pcodes, bcodes)
        && arms_tied(*target, arms@, pcodes, bcodes, c0.enum_defs))
    &&& (e matches Expr::BuiltInCall { function, args, .. } ==> builtin_shape(function, args@, c0, r))
    &&& (e matches Expr::Return(inner) ==> exists|c: Seq<char>|
        (pure_code(*inner, c0.enum_defs) matches Some(p) ==> c == p) && r == "return "@ + #[trigger] wrapped(c, Seq::empty()))
    &&& (e matches Expr::UnaryOp { op, expr: inner } ==> exists|c: Seq<char>|
        (pure_code(*inner, c0.enum_defs) matches Some(p) ==> c == p) && r == op@ + #[trigger] wrapped(c, Seq::empty()))
    &&& (e matches Expr::StructDef { transpiled_name: Some(tn), fields, methods, .. } ==>
        exists|defaults: Seq<Option<String>>, codes: Seq<Seq<char>>| defaults_tied(fields@, defaults, c0.enum_defs)
            && method_codes_of(methods@, codes, "self: *@This()"@)
            && methods_tied(methods@, codes, "self: *@This()"@, c0.enum_defs,
                defaults_pure(fields@, fields@.len() as int, c0.enum_defs))
            && r == #[trigger] struct_decl_text(tn@, struct_field_lines(fields@, defaults) + seq![Seq::<char>::empty()] + codes))
    &&& (e is BinaryOp ==> binary_coded(e, c0.enum_defs, r))
    &&& (e is Loop ==> exists|c: Seq<char>, codes: Seq<Seq<char>>|
        (pure_code(*e->Loop_iterable, c0.enum_defs) matches Some(p) ==> c == p)
        && codes.len() == e->Loop_body@.len()
        && r == #[trigger] loop_text(e->Loop_var_name@, *e->Loop_iterable, c,
            block_text(e->Loop_body@, codes, "    "@))
        && (pure_code(*e->Loop_iterable, c0.enum_defs) is Some
            ==> codes_tied(e->Loop_body@, codes, c0.enum_defs)))
}

/// Whether the statements `body` were transpiled one after another into
/// `codes`, statement `k` taking the context `cs[k]` to `cs[k + 1]` as
/// `transpiled` says.
pub open spec fn chain_transpiled(body: Seq<Expr>, codes: Seq<Seq<char>>, cs: Seq<TranspileContext>) -> bool {
    &&& codes.len() == body.len()
    &&& cs.len() == body.len() + 1
    &&& forall|k: int| 0 <= k < body.len() ==> #[trigger] transpiled(body[k], cs[k], codes[k], cs[k + 1])
}

/// Whether the statements `body` transpiled into `codes` took the context
/// `c0` to `c1`, each in the context the ones before it left.
pub open spec fn block_transpiled(body: Seq<Expr>, codes: Seq<Seq<char>>, c0: TranspileContext,
    c1: TranspileContext) -> bool {
    exists|cs: Seq<TranspileContext>| #[trigger] chain_transpiled(body, codes, cs) && cs[0] == c0
        && cs[body.len() as int] == c1
}

/// Whether `r` is the code of the conditional `e` built from codes that
/// `transpiled` ties to its parts: the condition transpiled in `c0`, then
/// the first block's statements one after another, then the further
/// branches one after another, ending in `c3`.
pub open spec fn if_transpiled(e: Expr, c0: TranspileContext, r: Seq<char>, c3: TranspileContext) -> bool {
    e is If ==> exists|c: Seq<char>, tcodes: Seq<Seq<char>>, ecodes: Seq<Seq<char>>, c1: TranspileContext,
        c2: TranspileContext|
        #[trigger] transpiled(*e->If_condition, c0, c, c1)
        && r == #[trigger] if_text(c, e->If_then_branch@, tcodes, ecodes)
        && #[trigger] block_transpiled(e->If_then_branch@, tcodes, c1, c2)
        && block_transpiled(e->If_else_branch@, ecodes, c2, c3)
}

/// Whether `r` is the code of the further branch `e` built from codes that
/// `transpiled` ties to its parts: the condition transpiled in `c0`, then
/// the block's statements one after another, ending in `c2`.
pub open spec fn else_if_transpiled(e: Expr, c0: TranspileContext, r: Seq<char>, c2: TranspileContext) -> bool {
    e is ElseIf ==> exists|c: Seq<char>, codes: Seq<Seq<char>>, c1: TranspileContext|
        #[trigger] transpiled(*e->ElseIf_condition, c0, c, c1)
        && r == #[trigger] else_if_text(c, codes)
        && #[trigger] block_transpiled(e->ElseIf_then_branch@, codes, c1, c2)
}

/// Whether `r` is the code of the last branch `e` built from codes that
/// `transpiled` ties to its statements, transpiled one after another from
/// `c0` to `c1`.
pub open spec fn else_transpiled(e: Expr, c0: TranspileContext, r: Seq<char>, c1: TranspileContext) -> bool {
    e is Else ==> exists|codes: Seq<Seq<char>>|
        r == #[trigger] else_text(e->Else_then_branch@, codes)
        && #[trigger] block_transpiled(e->Else_then_branch@, codes, c0, c1)
}

/// Whether `r` is the code of the operand `e` taken from the context `c0`
/// to `c1`: a variable with a symbol by its name (dereferenced when passed
/// by pointer), anything else as `transpiled` says.
pub open spec fn operand_transpiled(e: Expr, c0: TranspileContext, r: Seq<char>, c1: TranspileContext) -> bool {
    match e {
        Expr::VariableRef { name, symbol: Some(sym), .. } =>
            r == (if sym.is_pointer { name@ + ".*"@ } else { name@ }) && c1 == c0,
        _ => transpiled(e, c0, r, c1),
    }
}

/// Whether `r` is the code of the binary operation `e`: the operator's
/// template over the operands' codes, each as `operand_transpiled` says,
/// the left one first.
pub open spec fn binary_transpiled(e: Expr, c0: TranspileContext, r: Seq<char>, c2: TranspileContext) -> bool {
    e matches Expr::BinaryOp { left, op, right } ==> exists|lc: Seq<char>, rc: Seq<char>, c1: TranspileContext|
        #[trigger] operand_transpiled(*left, c0, lc, c1) && operand_transpiled(*right, c1, rc, c2)
        && r == #[trigger] binary_text(lc, op@, rc)
}

/// The code of a block's statements, each on its own line behind `indent`.
pub fn block_lines(body: &Vec<Expr>, ctx: &mut TranspileContext, indent: &str) -> (r: Vec<String>)
    requires
        old(ctx).wf(),
        forall|i: int| 0 <= i < body@.len() ==> #[trigger] ready(body@[i]),
    ensures
        final(ctx).wf(),
        ctx_grows(*old(ctx), *final(ctx)),
        r@.len() == body@.len(),
        exists|codes: Seq<Seq<char>>| codes.len() == body@.len()
            && #[trigger] views(r@) == block_text(body@, codes, indent@)
            && codes_tied(body@, codes, old(ctx).enum_defs)
            && block_transpiled(body@, codes, *old(ctx), *final(ctx)),
        prefix_pure(body@, body@.len() as int, old(ctx).enum_defs) ==> final(ctx).enum_defs == old(ctx).enum_defs,
    decreases body, 2int,
{
    let ghost enums = ctx.enum_defs;
    let mut lines: Vec<String> = Vec::new();
    let ghost mut codes: Seq<Seq<char>> = Seq::empty();
    let ghost mut cs: Seq<TranspileContext> = seq![*ctx];
    let mut i: usize = 0;
    while i < body.len()
        invariant
            cs.len() == i + 1,
            cs[0] == *old(ctx),
            cs[i as int] == *ctx,
            forall|k: int| 0 <= k < i ==> #[trigger] transpiled(body@[k], cs[k], codes[k], cs[k + 1]),
            ctx.wf(),
            ctx_grows(*old(ctx), *ctx),
            i <= body@.len(),
            lines@.len() == i,
            codes.len() == i,
            enums == old(ctx).enum_defs,
            codes_tied(body@, codes, enums),
            prefix_pure(body@, i as int, enums) ==> ctx.enum_defs == enums,
            views(lines@) == block_text(body@.subrange(0, i as int), codes, indent@),
            forall|k: int| 0 <= k < body@.len() ==> #[trigger] ready(body@[k]),
        decreases body@.len() - i,
    {
        proof {
            assert(decreases_to!(body => body@[i as int]));
        }
        let ghost cb = *ctx;
        let code = transpile_expr(&body[i], ctx);
        let ghost c = code@;
        proof {
            lemma_tie_step(body@, codes, enums, c);
            let ncs = cs.push(*ctx);
            let ncodes = codes.push(c);
            assert forall|k: int| 0 <= k < i + 1 implies
                #[trigger] transpiled(body@[k], ncs[k], ncodes[k], ncs[k + 1]) by {
                if k < i {
                    assert(ncs[k] == cs[k] && ncs[k + 1] == cs[k + 1] && ncodes[k] == codes[k]);
                }
            }
            cs = ncs;
        }
        let line = terminated_line(&body[i], code);
        let mut out = to_owned_string(indent);
        push_str(&mut out, line.as_str());
        let ghost before = views(lines@);
        let ghost old_codes = codes;
        let ghost o = out@;
        lines.push(out);
        proof {
            codes = codes.push(c);
            assert(views(lines@) =~= before.push(o));
            assert forall|k: int| 0 <= k < i + 1 implies
                #[trigger] views(lines@)[k] == block_text(body@.subrange(0, i + 1), codes, indent@)[k] by {
                if k < i {
                    assert(before[k] == block_text(body@.subrange(0, i as int), old_codes, indent@)[k]);
                    assert(codes[k] == old_codes[k]);
                }
            }
            assert(views(lines@) =~= block_text(body@.subrange(0, i + 1), codes, indent@));
        }
        i = i + 1;
    }
    assert(body@.subrange(0, body@.len() as int) =~= body@);
    assert(chain_transpiled(body@, codes, cs));
    assert(block_transpiled(body@, codes, *old(ctx), *ctx));
    lines
}

/// The Zig code of an expression or statement (`transpile_expr`).
#[verifier::loop_isolation(false)]
pub fn transpile_expr(expr: &Expr, ctx: &mut TranspileContext) -> (r: String)
    requires
        old(ctx).wf(),
        ready(*expr),
    ensures
        final(ctx).wf(),
        ctx_grows(*old(ctx), *final(ctx)),
        pure_code(*expr, old(ctx).enum_defs) matches Some(c) ==> r@ == c && only_self_marked(*old(ctx), *final(ctx)),
        *expr matches Expr::EnumDecl(d) ==> r@ == enum_decl_text(d) && final(ctx).enum_defs.has(d.name@)
            && final(ctx).enum_defs.as_map()[d.name@]@ == d.variants@
            && final(ctx).enums_declared@ == old(ctx).enums_declared@ + 1,
        *expr matches Expr::Decl { transpiled_name: Some(tn), typ, is_mutable, value, .. } ==>
            (simple_decl(typ, is_mutable) ==> (pure_code(*value, old(ctx).enum_defs) matches Some(c)
                ==> r@ == simple_decl_text(tn@, typ, is_mutable, c))),
        *expr is Call ==> exists|codes: Seq<Seq<char>>| codes.len() == expr->Call_args@.len()
            && (all_pure(expr->Call_args@, old(ctx).enum_defs) ==> forall|k: int| 0 <= k < codes.len()
                ==> #[trigger] codes[k] == pure_code(expr->Call_args@[k], old(ctx).enum_defs).unwrap())
            && r@ == #[trigger] call_text(*expr, codes),
        *expr is If ==> exists|c: Seq<char>, tcodes: Seq<Seq<char>>, ecodes: Seq<Seq<char>>|
            (pure_code(*expr->If_condition, old(ctx).enum_defs) matches Some(p) ==> c == p)
            && tcodes.len() == expr->If_then_branch@.len() && ecodes.len() == expr->If_else_branch@.len()
            && r@ == #[trigger] if_text(c, expr->If_then_branch@, tcodes, ecodes)
            && (pure_code(*expr->If_condition, old(ctx).enum_defs) is Some
                ==> codes_tied(expr->If_then_branch@, tcodes, old(ctx).enum_defs)),
        *expr is ElseIf ==> exists|c: Seq<char>, codes: Seq<Seq<char>>|
            (pure_code(*expr->ElseIf_condition, old(ctx).enum_defs) matches Some(p) ==> c == p)
            && codes.len() == expr->ElseIf_then_branch@.len()
            && r@ == #[trigger] else_if_text(c, codes)
            && (pure_code(*expr->ElseIf_condition, old(ctx).enum_defs) is Some
                ==> codes_tied(expr->ElseIf_then_branch@, codes, old(ctx).enum_defs)),
        *expr is Else ==> exists|codes: Seq<Seq<char>>| codes.len() == expr->Else_then_branch@.len()
            && r@ == #[trigger] else_text(expr->Else_then_branch@, codes)
            && codes_tied(expr->Else_then_branch@, codes, old(ctx).enum_defs),
        *expr matches Expr::FunctionDef { name, params, body, return_type, .. } ==> exists|codes: Seq<Seq<char>>|
            codes.len() == body@.len()
            && r@ == function_text(name@, params@, return_type, #[trigger] block_text(body@, codes, "    "@))
            && codes_tied(body@, codes, old(ctx).enum_defs),
        *expr matches Expr::UnionType { transpiled_name: Some(tn), fields, methods, .. } ==> exists|codes: Seq<Seq<char>>|
            #[trigger] method_codes_of(methods@, codes, "self: @This()"@)
            && methods_tied(methods@, codes, "self: @This()"@, old(ctx).enum_defs, true)
            && r@ == union_decl_text(tn@, union_field_lines(fields@) + seq![Seq::<char>::empty()] + codes),
        *expr matches Expr::StructInit { transpiled_name: Some(tn), args, .. } ==> exists|codes: Seq<Seq<char>>|
            codes.len() == args@.len() && r@ == #[trigger] struct_init_text(tn@, args@, codes)
            && codes_tied(field_values(args@), codes, old(ctx).enum_defs),
        *expr matches Expr::Assignment { name, value, .. } ==> exists|c: Seq<char>|
            (pure_code(*value, old(ctx).enum_defs) matches Some(p) ==> c == p)
            && r@ == name@ + " = "@ + #[trigger] assigned_value_text(*value, c),
        *expr matches Expr::Match { target, arms } ==> exists|t: Seq<char>, pcodes: Seq<Seq<char>>, bcodes: Seq<Seq<Seq<char>>>|
            (pure_code(*target, old(ctx).enum_defs) matches Some(p) ==> t == p)
            && pcodes.len() == arms@.len() && bcodes.len() == arms@.len()
            && (forall|k: int| 0 <= k < bcodes.len() ==> #[trigger] bcodes[k].len() == arms@[k].1@.len())
            && r@ == #[trigger] match_text(t, pcodes, bcodes)
            && arms_tied(*target, arms@, pcodes, bcodes, old(ctx).enum_defs),
        *expr matches Expr::BuiltInCall { function, args, .. } ==> builtin_shape(function, args@, *old(ctx), r@),
        *expr matches Expr::Return(inner) ==> exists|c: Seq<char>|
            (pure_code(*inner, old(ctx).enum_defs) matches Some(p) ==> c == p) && r@ == "return "@ + #[trigger] wrapped(c, Seq::empty()),
        *expr matches Expr::UnaryOp { op, expr: inner } ==> exists|c: Seq<char>|
            (pure_code(*inner, old(ctx).enum_defs) matches Some(p) ==> c == p) && r@ == op@ + #[trigger] wrapped(c, Seq::empty()),
        *expr matches Expr::StructDef { transpiled_name: Some(tn), fields, methods, .. } ==>
            exists|defaults: Seq<Option<String>>, codes: Seq<Seq<char>>| defaults_tied(fields@, defaults, old(ctx).enum_defs)
                && method_codes_of(methods@, codes, "self: *@This()"@)
                && methods_tied(methods@, codes, "self: *@This()"@, old(ctx).enum_defs,
                    defaults_pure(fields@, fields@.len() as int, old(ctx).enum_defs))
                && r@ == #[trigger] struct_decl_text(tn@, struct_field_lines(fields@, defaults) + seq![Seq::<char>::empty()] + codes),
        *expr is BinaryOp ==> binary_coded(*expr, old(ctx).enum_defs, r@),
        *expr is Loop ==> exists|c: Seq<char>, codes: Seq<Seq<char>>|
            (pure_code(*expr->Loop_iterable, old(ctx).enum_defs) matches Some(p) ==> c == p)
            && codes.len() == expr->Loop_body@.len()
            && r@ == #[trigger] loop_text(expr->Loop_var_name@, *expr->Loop_iterable, c,
                block_text(expr->Loop_body@, codes, "    "@))
            && (pure_code(*expr->Loop_iterable, old(ctx).enum_defs) is Some
                ==> codes_tied(expr->Loop_body@, codes, old(ctx).enum_defs)),
        transpiled(*expr, *old(ctx), r@, *final(ctx)),
        *expr matches Expr::FunctionDef { name, params, body, return_type, .. } ==> exists|codes: Seq<Seq<char>>|
            r@ == function_text(name@, params@, return_type, #[trigger] block_text(body@, codes, "    "@))
            && block_transpiled(body@, codes, *old(ctx), *final(ctx)),
        if_transpiled(*expr, *old(ctx), r@, *final(ctx)),
        else_if_transpiled(*expr, *old(ctx), r@, *final(ctx)),
        else_transpiled(*expr, *old(ctx), r@, *final(ctx)),
        binary_transpiled(*expr, *old(ctx), r@, *final(ctx)),
        *expr is Loop ==> exists|c: Seq<char>, codes: Seq<Seq<char>>, cm: TranspileContext|
            transpiled(*expr->Loop_iterable, *old(ctx), c, cm)
            && r@ == #[trigger] loop_text(expr->Loop_var_name@, *expr->Loop_iterable, c,
                block_text(expr->Loop_body@, codes, "    "@))
            && #[trigger] block_transpiled(expr->Loop_body@, codes, cm, *final(ctx)),
    decreases expr, 5int,
{
    reveal(transpiled);
    match expr {
        Expr::String(..) => string_code(expr, ctx),
        Expr::Number(n) => i64_to_string(*n),
        Expr::Float(f) => decimal_to_string(f.mantissa, f.scale),
        Expr::Bool(b) => if *b { String::from_str("true") } else { String::from_str("false") },
        Expr::Break => String::from_str("break"),
        Expr::Continue => String::from_str("continue"),
        Expr::Decl { transpiled_name, typ, is_mutable, value, .. } => {
            let tn = transpiled_name.as_ref().unwrap();
            transpile_decl(tn, typ.as_ref(), *is_mutable, value, ctx)
        },
        Expr::Return(inner) => {
            let code = transpile_expr(inner, ctx);
            let mut out = String::from_str("return ");
            push_str(&mut out, code.as_str());
            assert(out@ =~= "return "@ + wrapped(code@, Seq::empty()));
            out
        },
        Expr::VariableRef { .. } => variable_code(expr, ctx),
        Expr::List(..) => list_code(expr, ctx),
        Expr::If { .. } => if_code(expr, ctx),
        Expr::ElseIf { .. } => else_if_code(expr, ctx),
        Expr::Else { .. } => else_code(expr, ctx),
        Expr::EnumDecl(..) => enum_code(expr, ctx),
        Expr::BinaryOp { .. } => binary_code(expr, ctx),
        Expr::StructDef { .. } => struct_def_code(expr, ctx),
        Expr::UnionType { name, transpiled_name, fields, methods } => {
            proof {
                lemma_methods_ready_upto(methods@, methods@.len() as int);
            }
            let tn = transpiled_name.as_ref().unwrap();
            transpile_union_def(name, tn, fields, methods, ctx)
        },
        Expr::TemplateString(..) => template_code(expr, ctx),
        Expr::FunctionDef { name, params, body, return_type, is_allocator, .. } => {
            proof {
                lemma_ready_upto(body@, body@.len() as int);
            }
            transpile_function_def(name, params, body, return_type, None, ctx, *is_allocator)
        },
        Expr::BuiltInCall { function, args, .. } => {
            transpile_builtin(*function, args, ctx)
        },
        Expr::Call { .. } => call_code(expr, ctx),
        Expr::StructInit { .. } => struct_init_code(expr, ctx),
        Expr::Loop { .. } => loop_code(expr, ctx),
        Expr::UnaryOp { op, expr: inner } => {
            let code = transpile_expr(inner, ctx);
            let mut out = op.clone();
            push_str(&mut out, code.as_str());
            assert(out@ =~= op@ + wrapped(code@, Seq::empty()));
            out
        },
        Expr::Index { .. } => index_code(expr, ctx),
        Expr::Match { .. } => match_code(expr, ctx),
        Expr::Assignment { .. } => assignment_code(expr, ctx),
        _ => {
            proof {
                assert(false);
            }
            String::new()
        },
    }
}

/// The code of a text literal.
#[verifier::loop_isolation(false)]
#[verifier::rlimit(30)]
fn string_code(expr: &Expr, ctx: &mut TranspileContext) -> (r: String)
    requires
        old(ctx).wf(),
        ready(*expr),
        *expr is String,
    ensures
        final(ctx).wf(),
        ctx_grows(*old(ctx), *final(ctx)),
        pure_code(*expr, old(ctx).enum_defs) matches Some(c) ==> r@ == c && only_self_marked(*old(ctx), *final(ctx)),
    decreases expr, 4int,
{
    match expr {
            Expr::String(s, b) => {
                let mut out = String::new();
                if *b {
                    push_str(&mut out, "try allocator.dupe(u8, \"");
                } else {
                    push_str(&mut out, "\"");
                }
                let esc = escape_default(s.as_str());
                push_str(&mut out, esc.as_str());
                if *b {
                    push_str(&mut out, "\")");
                } else {
                    push_str(&mut out, "\"");
                }
                out
            },
            _ => {
                proof {
                    assert(false);
                }
                String::new()
            },
    }
}

/// The code of a variable reference.
#[verifier::loop_isolation(false)]
#[verifier::rlimit(30)]
fn variable_code(expr: &Expr, ctx: &mut TranspileContext) -> (r: String)
    requires
        old(ctx).wf(),
        ready(*expr),
        *expr is VariableRef,
    ensures
        final(ctx).wf(),
        ctx_grows(*old(ctx), *final(ctx)),
        pure_code(*expr, old(ctx).enum_defs) matches Some(c) ==> r@ == c && only_self_marked(*old(ctx), *final(ctx)),
    decreases expr, 4int,
{
    match expr {
            Expr::VariableRef { name, transpiled_name, symbol } => {
                if str_eq(name.as_str(), "self") {
                    ctx.is_used_self = true;
                }
                let tname: String = match transpiled_name {
                    Some(t) => t.clone(),
                    None => name.clone(),
                };
                if ctx.is_enum_variant(name.as_str()) {
                    let mut out = String::from_str(".");
                    push_str(&mut out, tname.as_str());
                    out
                } else {
                    match symbol {
                        Some(sym) => {
                            let mut out = tname;
                            if sym.is_pointer {
                                push_str(&mut out, ".*");
                            }
                            out
                        },
                        None => name.clone(),
                    }
                }
            },
            _ => {
                proof {
                    assert(false);
                }
                String::new()
            },
    }
}

/// The code of a list literal: its elements between brackets.
#[verifier::loop_isolation(false)]
#[verifier::rlimit(30)]
fn list_code(expr: &Expr, ctx: &mut TranspileContext) -> (r: String)
    requires
        old(ctx).wf(),
        ready(*expr),
        *expr is List,
    ensures
        final(ctx).wf(),
        ctx_grows(*old(ctx), *final(ctx)),
        pure_code(*expr, old(ctx).enum_defs) matches Some(c) ==> r@ == c && only_self_marked(*old(ctx), *final(ctx)),
    decreases expr, 4int,
{
    match expr {
        Expr::List(items) => {
            proof {
                lemma_ready_upto(items@, items@.len() as int);
            }
            let body = items_code(items, ctx);
            let mut out = String::from_str("[");
            push_str(&mut out, body.as_str());
            push_str(&mut out, "]");
            out
        },
        _ => {
            proof {
                assert(false);
            }
            String::new()
        },
    }
}

/// The codes of a list's elements, separated by commas.
#[verifier::rlimit(30)]
fn items_code(items: &Vec<Expr>, ctx: &mut TranspileContext) -> (r: String)
    requires
        old(ctx).wf(),
        forall|k: int| 0 <= k < items@.len() ==> #[trigger] ready(items@[k]),
    ensures
        final(ctx).wf(),
        ctx_grows(*old(ctx), *final(ctx)),
        list_codes(items@, items@.len() as int, old(ctx).enum_defs) matches Some(c) ==> r@ == c
            && only_self_marked(*old(ctx), *final(ctx)),
    decreases items, 0int,
{
    let mut out = String::new();
    let mut i: usize = 0;
    while i < items.len()
        invariant
            ctx.wf(),
            ctx_grows(*old(ctx), *ctx),
            i <= items@.len(),
            forall|k: int| 0 <= k < items@.len() ==> #[trigger] ready(items@[k]),
            list_codes(items@, items@.len() as int, old(ctx).enum_defs) is Some ==>
                (list_codes(items@, i as int, old(ctx).enum_defs) matches Some(c)
                    && out@ == c && only_self_marked(*old(ctx), *ctx)),
        decreases items@.len() - i,
    {
        proof {
            assert(decreases_to!(items => items@));
            assert(decreases_to!(items@ => items@[i as int]));
            if list_codes(items@, items@.len() as int, old(ctx).enum_defs) is Some {
                lemma_list_codes_prefix(items@, items@.len() as int, i as int, old(ctx).enum_defs);
                lemma_list_codes_prefix(items@, items@.len() as int, i + 1, old(ctx).enum_defs);
            }
        }
        if i > 0 {
            push_str(&mut out, ", ");
        }
        let code = transpile_expr(&items[i], ctx);
        push_str(&mut out, code.as_str());
        proof {
            if list_codes(items@, items@.len() as int, old(ctx).enum_defs) is Some {
                if i == 0 {
                    assert(out@ =~= list_codes(items@, 1, old(ctx).enum_defs).unwrap());
                } else {
                    assert(out@ =~= list_codes(items@, i + 1, old(ctx).enum_defs).unwrap());
                }
            }
        }
        i = i + 1;
    }
    out
}

/// The lines of the body of an `if`, with `codes` the codes of its
/// statements: a semicolon after each statement that needs one.
pub open spec fn then_lines(body: Seq<Expr>, codes: Seq<Seq<char>>) -> Seq<Seq<char>> {
    Seq::new(body.len(), |k: int| codes[k] + (if semicolon_needed(body[k]) { ";"@ } else { Seq::empty() }))
}

/// The lines of the body of an `else if`: a semicolon after each
/// statement whose code does not end with one.
pub open spec fn else_if_lines(codes: Seq<Seq<char>>) -> Seq<Seq<char>> {
    Seq::new(codes.len(), |k: int| codes[k] + (if codes[k].len() > 0 && codes[k].last() == ';' {
        Seq::empty()
    } else {
        ";"@
    }))
}

/// The lines of the body of an `else`, as block statements.
pub open spec fn else_lines(body: Seq<Expr>, codes: Seq<Seq<char>>) -> Seq<Seq<char>> {
    Seq::new(body.len(), |k: int| line_text(body[k], codes[k]))
}

/// Each code on a line of its own after what comes before.
pub open spec fn after_newlines(codes: Seq<Seq<char>>) -> Seq<char>
    decreases codes.len(),
{
    if codes.len() == 0 { Seq::empty() } else { after_newlines(codes.drop_last()) + "\n"@ + codes.last() }
}

/// The code of an `if` with condition code `cond`, body codes `tcodes` and
/// the codes `ecodes` of its `else if` and `else` branches.
pub open spec fn if_text(cond: Seq<char>, body: Seq<Expr>, tcodes: Seq<Seq<char>>, ecodes: Seq<Seq<char>>) -> Seq<char> {
    "if ("@ + cond + ") {\n    "@ + join_seq(then_lines(body, tcodes), "\n    "@) + "\n}"@ + after_newlines(ecodes)
}

/// The code of an `else if` with condition code `cond` and body codes `codes`.
pub open spec fn else_if_text(cond: Seq<char>, codes: Seq<Seq<char>>) -> Seq<char> {
    "else if ("@ + cond + ") {\n    "@ + join_seq(else_if_lines(codes), "\n    "@) + "\n}"@
}

/// The code of an `else` with body codes `codes`.
pub open spec fn else_text(body: Seq<Expr>, codes: Seq<Seq<char>>) -> Seq<char> {
    "else {\n    "@ + join_seq(else_lines(body, codes), "\n    "@) + "\n}"@
}

/// Joining one more part adds the separator and the part.
proof fn lemma_join_push(parts: Seq<Seq<char>>, x: Seq<char>, sep: Seq<char>)
    ensures
        join_seq(parts.push(x), sep) == if parts.len() == 0 { x } else { join_seq(parts, sep) + sep + x },
{
    assert(parts.push(x).drop_last() =~= parts);
    if parts.len() == 0 {
        assert(parts.push(x).len() == 1);
    }
}

/// The code of an `if` with its branches.
#[verifier::loop_isolation(false)]
#[verifier::rlimit(80)]
#[verifier::spinoff_prover]
fn if_code(expr: &Expr, ctx: &mut TranspileContext) -> (r: String)
    requires
        old(ctx).wf(),
        ready(*expr),
        *expr is If,
    ensures
        final(ctx).wf(),
        ctx_grows(*old(ctx), *final(ctx)),
        exists|c: Seq<char>, tcodes: Seq<Seq<char>>, ecodes: Seq<Seq<char>>|
            (pure_code(*expr->If_condition, old(ctx).enum_defs) matches Some(p) ==> c == p)
            && tcodes.len() == expr->If_then_branch@.len() && ecodes.len() == expr->If_else_branch@.len()
            && r@ == #[trigger] if_text(c, expr->If_then_branch@, tcodes, ecodes)
            && (pure_code(*expr->If_condition, old(ctx).enum_defs) is Some
                ==> codes_tied(expr->If_then_branch@, tcodes, old(ctx).enum_defs)),
        if_transpiled(*expr, *old(ctx), r@, *final(ctx)),
    decreases expr, 4int,
{
    match expr {
            Expr::If { condition, then_branch, else_branch } => {
                proof {
                    lemma_ready_upto(then_branch@, then_branch@.len() as int);
                    lemma_ready_upto(else_branch@, else_branch@.len() as int);
                }
                let condition_code = transpile_expr(condition, ctx);
                let ghost enums = ctx.enum_defs;
                let ghost c1 = *ctx;
                let ghost mut cs: Seq<TranspileContext> = seq![*ctx];
                let mut then_code = String::new();
                let ghost mut tcodes: Seq<Seq<char>> = Seq::empty();
                let mut i: usize = 0;
                while i < then_branch.len()
                    invariant
                        cs.len() == i + 1,
                        cs[0] == c1,
                        cs[i as int] == *ctx,
                        forall|k: int| 0 <= k < i ==> #[trigger] transpiled(then_branch@[k], cs[k], tcodes[k], cs[k + 1]),
                        ctx.wf(),
                        ctx_grows(*old(ctx), *ctx),
                        i <= then_branch@.len(),
                        forall|k: int| 0 <= k < then_branch@.len() ==> #[trigger] ready(then_branch@[k]),
                        tcodes.len() == i,
                        pure_code(**condition, old(ctx).enum_defs) is Some ==> enums == old(ctx).enum_defs,
                        codes_tied(then_branch@, tcodes, enums),
                        prefix_pure(then_branch@, i as int, enums) ==> ctx.enum_defs == enums,
                        then_code@ == join_seq(then_lines(then_branch@.subrange(0, i as int), tcodes), "\n    "@),
                    decreases then_branch@.len() - i,
                {
                    proof {
                        assert(decreases_to!(*expr => expr->If_then_branch));
                        assert(decreases_to!(expr->If_then_branch => expr->If_then_branch@));
                        assert(decreases_to!(expr->If_then_branch@ => expr->If_then_branch@[i as int]));
                    }
                    let mut code = transpile_expr(&then_branch[i], ctx);
                    let ghost c = code@;
                    proof {
                        lemma_tie_step(then_branch@, tcodes, enums, c);
                        let ncs = cs.push(*ctx);
                        let ntc = tcodes.push(c);
                        assert forall|k: int| 0 <= k < i + 1 implies
                            #[trigger] transpiled(then_branch@[k], ncs[k], ntc[k], ncs[k + 1]) by {
                            if k < i {
                                assert(ncs[k] == cs[k] && ncs[k + 1] == cs[k + 1] && ntc[k] == tcodes[k]);
                            }
                        }
                        cs = ncs;
                    }
                    if is_semicolon_needed(&then_branch[i]) {
                        string_push(&mut code, ';');
                    }
                    let ghost before = then_code@;
                    if i > 0 {
                        push_str(&mut then_code, "\n    ");
                    }
                    push_str(&mut then_code, code.as_str());
                    proof {
                        let old_lines = then_lines(then_branch@.subrange(0, i as int), tcodes);
                        let nc = tcodes.push(c);
                        let new_lines = then_lines(then_branch@.subrange(0, i + 1), nc);
                        reveal_strlit(";");
                        assert forall|k: int| 0 <= k < i + 1 implies #[trigger] new_lines[k] == old_lines.push(code@)[k] by {
                            if k < i {
                                assert(nc[k] == tcodes[k]);
                                assert(then_branch@.subrange(0, i + 1)[k] == then_branch@.subrange(0, i as int)[k]);
                            } else {
                                assert(then_branch@.subrange(0, i + 1)[k] == then_branch@[i as int]);
                                if semicolon_needed(then_branch@[i as int]) {
                                    assert(code@ =~= c + ";"@);
                                } else {
                                    assert(code@ =~= c + Seq::<char>::empty());
                                }
                            }
                        }
                        assert(new_lines =~= old_lines.push(code@));
                        lemma_join_push(old_lines, code@, "\n    "@);
                        tcodes = nc;
                    }
                    i = i + 1;
                }
                assert(then_branch@.subrange(0, then_branch@.len() as int) =~= then_branch@);
                proof {
                    assert(chain_transpiled(then_branch@, tcodes, cs));
                    assert(block_transpiled(then_branch@, tcodes, c1, *ctx));
                }
                let ghost c2 = *ctx;
                let ghost mut es: Seq<TranspileContext> = seq![*ctx];
                let mut else_code = String::new();
                let ghost mut ecodes: Seq<Seq<char>> = Seq::empty();
                let mut i: usize = 0;
                while i < else_branch.len()
                    invariant
                        es.len() == i + 1,
                        es[0] == c2,
                        es[i as int] == *ctx,
                        forall|k: int| 0 <= k < i ==> #[trigger] transpiled(else_branch@[k], es[k], ecodes[k], es[k + 1]),
                        ctx.wf(),
                        ctx_grows(*old(ctx), *ctx),
                        i <= else_branch@.len(),
                        forall|k: int| 0 <= k < else_branch@.len() ==> #[trigger] ready(else_branch@[k]),
                        ecodes.len() == i,
                        else_code@ == after_newlines(ecodes),
                    decreases else_branch@.len() - i,
                {
                    proof {
                        assert(decreases_to!(*expr => expr->If_else_branch));
                        assert(decreases_to!(expr->If_else_branch => expr->If_else_branch@));
                        assert(decreases_to!(expr->If_else_branch@ => expr->If_else_branch@[i as int]));
                    }
                    let code = transpile_expr(&else_branch[i], ctx);
                    push_str(&mut else_code, "\n");
                    push_str(&mut else_code, code.as_str());
                    proof {
                        let nc = ecodes.push(code@);
                        let nes = es.push(*ctx);
                        assert forall|k: int| 0 <= k < i + 1 implies
                            #[trigger] transpiled(else_branch@[k], nes[k], nc[k], nes[k + 1]) by {
                            if k < i {
                                assert(nes[k] == es[k] && nes[k + 1] == es[k + 1] && nc[k] == ecodes[k]);
                            }
                        }
                        es = nes;
                        assert(nc.drop_last() =~= ecodes);
                        ecodes = nc;
                    }
                    i = i + 1;
                }
                let mut out = String::from_str("if (");
                push_str(&mut out, condition_code.as_str());
                push_str(&mut out, ") {\n    ");
                push_str(&mut out, then_code.as_str());
                push_str(&mut out, "\n}");
                push_str(&mut out, else_code.as_str());
                assert(out@ =~= if_text(condition_code@, then_branch@, tcodes, ecodes));
                proof {
                    assert(chain_transpiled(else_branch@, ecodes, es));
                    assert(block_transpiled(else_branch@, ecodes, c2, *ctx));
                    assert(transpiled(**condition, *old(ctx), condition_code@, c1));
                }
                out
            },
            _ => {
                proof {
                    assert(false);
                }
                String::new()
            },
    }
}

/// The code of an `else if` branch.
#[verifier::loop_isolation(false)]
#[verifier::rlimit(30)]
fn else_if_code(expr: &Expr, ctx: &mut TranspileContext) -> (r: String)
    requires
        old(ctx).wf(),
        ready(*expr),
        *expr is ElseIf,
    ensures
        final(ctx).wf(),
        ctx_grows(*old(ctx), *final(ctx)),
        exists|c: Seq<char>, codes: Seq<Seq<char>>|
            (pure_code(*expr->ElseIf_condition, old(ctx).enum_defs) matches Some(p) ==> c == p)
            && codes.len() == expr->ElseIf_then_branch@.len()
            && r@ == #[trigger] else_if_text(c, codes)
            && (pure_code(*expr->ElseIf_condition, old(ctx).enum_defs) is Some
                ==> codes_tied(expr->ElseIf_then_branch@, codes, old(ctx).enum_defs)),
        else_if_transpiled(*expr, *old(ctx), r@, *final(ctx)),
    decreases expr, 4int,
{
    match expr {
            Expr::ElseIf { condition, then_branch } => {
                proof {
                    lemma_ready_upto(then_branch@, then_branch@.len() as int);
                }
                let condition_code = transpile_expr(condition, ctx);
                let ghost enums = ctx.enum_defs;
                let ghost c1 = *ctx;
                let ghost mut cs: Seq<TranspileContext> = seq![*ctx];
                let mut then_code = String::new();
                let ghost mut codes: Seq<Seq<char>> = Seq::empty();
                let mut i: usize = 0;
                while i < then_branch.len()
                    invariant
                        cs.len() == i + 1,
                        cs[0] == c1,
                        cs[i as int] == *ctx,
                        forall|k: int| 0 <= k < i ==> #[trigger] transpiled(then_branch@[k], cs[k], codes[k], cs[k + 1]),
                        ctx.wf(),
                        ctx_grows(*old(ctx), *ctx),
                        i <= then_branch@.len(),
                        forall|k: int| 0 <= k < then_branch@.len() ==> #[trigger] ready(then_branch@[k]),
                        codes.len() == i,
                        pure_code(**condition, old(ctx).enum_defs) is Some ==> enums == old(ctx).enum_defs,
                        codes_tied(then_branch@, codes, enums),
                        prefix_pure(then_branch@, i as int, enums) ==> ctx.enum_defs == enums,
                        then_code@ == join_seq(else_if_lines(codes), "\n    "@),
                    decreases then_branch@.len() - i,
                {
                    proof {
                        assert(decreases_to!(*expr => expr->ElseIf_then_branch));
                        assert(decreases_to!(expr->ElseIf_then_branch => expr->ElseIf_then_branch@));
                        assert(decreases_to!(expr->ElseIf_then_branch@ => expr->ElseIf_then_branch@[i as int]));
                    }
                    let mut code = transpile_expr(&then_branch[i], ctx);
                    let ghost c = code@;
                    proof {
                        lemma_tie_step(then_branch@, codes, enums, c);
                        let ncs = cs.push(*ctx);
                        let ntc = codes.push(c);
                        assert forall|k: int| 0 <= k < i + 1 implies
                            #[trigger] transpiled(then_branch@[k], ncs[k], ntc[k], ncs[k + 1]) by {
                            if k < i {
                                assert(ncs[k] == cs[k] && ncs[k + 1] == cs[k + 1] && ntc[k] == codes[k]);
                            }
                        }
                        cs = ncs;
                    }
                    if !ends_with_char(code.as_str(), ';') {
                        string_push(&mut code, ';');
                    }
                    if i > 0 {
                        push_str(&mut then_code, "\n    ");
                    }
                    push_str(&mut then_code, code.as_str());
                    proof {
                        let old_lines = else_if_lines(codes);
                        let nc = codes.push(c);
                        reveal_strlit(";");
                        assert forall|k: int| 0 <= k < i + 1 implies
                            #[trigger] else_if_lines(nc)[k] == old_lines.push(code@)[k] by {
                            if k < i {
                                assert(nc[k] == codes[k]);
                            } else if c.len() > 0 && c.last() == ';' {
                                assert(code@ =~= c + Seq::<char>::empty());
                            } else {
                                assert(code@ =~= c + ";"@);
                            }
                        }
                        assert(else_if_lines(nc) =~= old_lines.push(code@));
                        lemma_join_push(old_lines, code@, "\n    "@);
                        codes = nc;
                    }
                    i = i + 1;
                }
                let mut out = String::from_str("else if (");
                push_str(&mut out, condition_code.as_str());
                push_str(&mut out, ") {\n    ");
                push_str(&mut out, then_code.as_str());
                push_str(&mut out, "\n}");
                assert(out@ =~= else_if_text(condition_code@, codes));
                proof {
                    assert(chain_transpiled(then_branch@, codes, cs));
                    assert(block_transpiled(then_branch@, codes, c1, *ctx));
                    assert(transpiled(**condition, *old(ctx), condition_code@, c1));
                }
                out
            },
            _ => {
                proof {
                    assert(false);
                }
                String::new()
            },
    }
}

/// The code of an `else` branch.
#[verifier::loop_isolation(false)]
#[verifier::rlimit(30)]
fn else_code(expr: &Expr, ctx: &mut TranspileContext) -> (r: String)
    requires
        old(ctx).wf(),
        ready(*expr),
        *expr is Else,
    ensures
        final(ctx).wf(),
        ctx_grows(*old(ctx), *final(ctx)),
        exists|codes: Seq<Seq<char>>| codes.len() == expr->Else_then_branch@.len()
            && r@ == #[trigger] else_text(expr->Else_then_branch@, codes)
            && codes_tied(expr->Else_then_branch@, codes, old(ctx).enum_defs),
        else_transpiled(*expr, *old(ctx), r@, *final(ctx)),
    decreases expr, 4int,
{
    match expr {
            Expr::Else { then_branch } => {
                proof {
                    lemma_ready_upto(then_branch@, then_branch@.len() as int);
                }
                let ghost enums = ctx.enum_defs;
                let ghost mut cs: Seq<TranspileContext> = seq![*ctx];
                let mut else_code = String::new();
                let ghost mut codes: Seq<Seq<char>> = Seq::empty();
                let mut i: usize = 0;
                while i < then_branch.len()
                    invariant
                        cs.len() == i + 1,
                        cs[0] == *old(ctx),
                        cs[i as int] == *ctx,
                        forall|k: int| 0 <= k < i ==> #[trigger] transpiled(then_branch@[k], cs[k], codes[k], cs[k + 1]),
                        ctx.wf(),
                        ctx_grows(*old(ctx), *ctx),
                        i <= then_branch@.len(),
                        forall|k: int| 0 <= k < then_branch@.len() ==> #[trigger] ready(then_branch@[k]),
                        codes.len() == i,
                        else_code@ == join_seq(else_lines(then_branch@.subrange(0, i as int), codes), "\n    "@),
                        enums == old(ctx).enum_defs,
                        codes_tied(then_branch@, codes, enums),
                        prefix_pure(then_branch@, i as int, enums) ==> ctx.enum_defs == enums,
                    decreases then_branch@.len() - i,
                {
                    proof {
                        assert(decreases_to!(*expr => expr->Else_then_branch));
                        assert(decreases_to!(expr->Else_then_branch => expr->Else_then_branch@));
                        assert(decreases_to!(expr->Else_then_branch@ => expr->Else_then_branch@[i as int]));
                    }
                    let code = transpile_expr(&then_branch[i], ctx);
                    let ghost c = code@;
                    proof {
                        lemma_tie_step(then_branch@, codes, enums, c);
                        let ncs = cs.push(*ctx);
                        let ntc = codes.push(c);
                        assert forall|k: int| 0 <= k < i + 1 implies
                            #[trigger] transpiled(then_branch@[k], ncs[k], ntc[k], ncs[k + 1]) by {
                            if k < i {
                                assert(ncs[k] == cs[k] && ncs[k + 1] == cs[k + 1] && ntc[k] == codes[k]);
                            }
                        }
                        cs = ncs;
                    }
                    let line = terminated_line(&then_branch[i], code);
                    if i > 0 {
                        push_str(&mut else_code, "\n    ");
                    }
                    push_str(&mut else_code, line.as_str());
                    proof {
                        let old_lines = else_lines(then_branch@.subrange(0, i as int), codes);
                        let nc = codes.push(c);
                        let new_lines = else_lines(then_branch@.subrange(0, i + 1), nc);
                        assert forall|k: int| 0 <= k < i + 1 implies #[trigger] new_lines[k] == old_lines.push(line@)[k] by {
                            if k < i {
                                assert(nc[k] == codes[k]);
                                assert(then_branch@.subrange(0, i + 1)[k] == then_branch@.subrange(0, i as int)[k]);
                            } else {
                                assert(then_branch@.subrange(0, i + 1)[k] == then_branch@[i as int]);
                            }
                        }
                        assert(new_lines =~= old_lines.push(line@));
                        lemma_join_push(old_lines, line@, "\n    "@);
                        codes = nc;
                    }
                    i = i + 1;
                }
                assert(then_branch@.subrange(0, then_branch@.len() as int) =~= then_branch@);
                let mut out = String::from_str("else {\n    ");
                push_str(&mut out, else_code.as_str());
                push_str(&mut out, "\n}");
                assert(out@ =~= else_text(then_branch@, codes));
                proof {
                    assert(chain_transpiled(then_branch@, codes, cs));
                    assert(block_transpiled(then_branch@, codes, *old(ctx), *ctx));
                }
                out
            },
            _ => {
                proof {
                    assert(false);
                }
                String::new()
            },
    }
}

/// The lines of the first `n` variants of an enum, each indented and
/// followed by a comma.
pub open spec fn variant_lines(vs: Seq<String>, n: int) -> Seq<char>
    decreases n,
{
    if n <= 0 {
        Seq::empty()
    } else if n == 1 {
        "    "@ + vs[0]@ + ","@
    } else {
        variant_lines(vs, n - 1) + "\n"@ + "    "@ + vs[n - 1]@ + ","@
    }
}

/// Once an enum is known with its variants (as transpiling its declaration
/// leaves it), a reference to one of the variants is written as the
/// variant's name after a dot.
pub proof fn lemma_enum_variant_reference(enums: Dict<Vec<String>>, d: EnumDecl, name: String,
    transpiled_name: Option<String>, symbol: Option<crate::parser::ast::Symbol>, k: int)
    requires
        enums.has(d.name@),
        enums.as_map()[d.name@]@ == d.variants@,
        0 <= k < d.variants@.len(),
        d.variants@[k]@ == name@,
    ensures
        pure_code(Expr::VariableRef { name, transpiled_name, symbol }, enums) == Some("."@ + match transpiled_name {
            Some(t) => t@,
            None => name@,
        }),
{
    let i = enums.index_of(d.name@);
    let vs = enums.entries@[i].1@.map_values(|v: String| v@);
    assert(vs[k] == name@);
    assert(vs.contains(name@));
    assert(variant_in(enums, name@));
}

/// The enum table lasts: after an enum is known with its variants (`c1`),
/// generating code that declares no further enum (`c1` to `c2`) leaves a
/// reference to one of the variants written as `.` and its name.
pub proof fn lemma_variant_reference_lasts(c1: TranspileContext, c2: TranspileContext, d: EnumDecl, name: String,
    transpiled_name: Option<String>, symbol: Option<crate::parser::ast::Symbol>, k: int)
    requires
        c1.enum_defs.has(d.name@),
        c1.enum_defs.as_map()[d.name@]@ == d.variants@,
        ctx_grows(c1, c2),
        c2.enums_declared@ == c1.enums_declared@,
        0 <= k < d.variants@.len(),
        d.variants@[k]@ == name@,
    ensures
        pure_code(Expr::VariableRef { name, transpiled_name, symbol }, c2.enum_defs) == Some("."@ + match transpiled_name {
            Some(t) => t@,
            None => name@,
        }),
{
    lemma_enum_variant_reference(c2.enum_defs, d, name, transpiled_name, symbol, k);
}

/// The code of an enum declaration.
pub open spec fn enum_decl_text(d: EnumDecl) -> Seq<char> {
    "const "@ + d.name@ + " = enum {\n"@ + variant_lines(d.variants@, d.variants@.len() as int) + "\n};"@
}

/// The code of an enum declaration, which is also recorded in the context.
#[verifier::loop_isolation(false)]
#[verifier::rlimit(30)]
fn enum_code(expr: &Expr, ctx: &mut TranspileContext) -> (r: String)
    requires
        old(ctx).wf(),
        ready(*expr),
        *expr is EnumDecl,
    ensures
        final(ctx).wf(),
        ctx_grows(*old(ctx), *final(ctx)),
        r@ == enum_decl_text(expr->EnumDecl_0),
        final(ctx).enum_defs.has(expr->EnumDecl_0.name@),
        final(ctx).enum_defs.as_map()[expr->EnumDecl_0.name@]@ == expr->EnumDecl_0.variants@,
        final(ctx).enums_declared@ == old(ctx).enums_declared@ + 1,
    decreases expr, 4int,
{
    match expr {
            Expr::EnumDecl(EnumDecl { name, variants }) => {
                let mut copy: Vec<String> = Vec::new();
                let mut body = String::new();
                let mut i: usize = 0;
                while i < variants.len()
                    invariant
                        i <= variants@.len(),
                        copy@ == variants@.subrange(0, i as int),
                        body@ == variant_lines(variants@, i as int),
                    decreases variants@.len() - i,
                {
                    copy.push(variants[i].clone());
                    let ghost before = body@;
                    if i > 0 {
                        push_str(&mut body, "\n");
                    }
                    push_str(&mut body, "    ");
                    push_str(&mut body, variants[i].as_str());
                    push_str(&mut body, ",");
                    proof {
                        if i == 0 {
                            assert(before =~= Seq::<char>::empty());
                            assert(body@ =~= "    "@ + variants@[0]@ + ","@);
                        } else {
                            assert(body@ =~= before + "\n"@ + "    "@ + variants@[i as int]@ + ","@);
                        }
                    }
                    i = i + 1;
                    assert(copy@ =~= variants@.subrange(0, i as int));
                }
                assert(copy@ =~= variants@);
                ctx.enum_defs.insert(name.clone(), copy);
                ctx.enums_declared = Ghost(ctx.enums_declared@ + 1);
                let mut out = String::from_str("const ");
                push_str(&mut out, name.as_str());
                push_str(&mut out, " = enum {\n");
                push_str(&mut out, body.as_str());
                push_str(&mut out, "\n};");
                assert(out@ =~= enum_decl_text(expr->EnumDecl_0));
                out
            },
            _ => {
                proof {
                    assert(false);
                }
                String::new()
            },
    }
}

/// The code of a binary operation on the values of its operands.
#[verifier::loop_isolation(false)]
#[verifier::rlimit(30)]
fn binary_code(expr: &Expr, ctx: &mut TranspileContext) -> (r: String)
    requires
        old(ctx).wf(),
        ready(*expr),
        *expr is BinaryOp,
    ensures
        final(ctx).wf(),
        ctx_grows(*old(ctx), *final(ctx)),
        pure_code(*expr, old(ctx).enum_defs) matches Some(c) ==> r@ == c && only_self_marked(*old(ctx), *final(ctx)),
        binary_coded(*expr, old(ctx).enum_defs, r@),
        binary_transpiled(*expr, *old(ctx), r@, *final(ctx)),
    decreases expr, 4int,
{
    match expr {
            Expr::BinaryOp { left, op, right } => {
                let left_code = operand_code(left, ctx);
                let ghost mid_enums = ctx.enum_defs;
                let ghost cmid = *ctx;
                let right_code = operand_code(right, ctx);
                let zop: String = if str_eq(op.as_str(), "&&") {
                    String::from_str("and")
                } else if str_eq(op.as_str(), "||") {
                    String::from_str("or")
                } else {
                    op.clone()
                };
                let mut out = String::new();
                if str_eq(zop.as_str(), "/") {
                    push_str(&mut out, "(@divTrunc(");
                    push_str(&mut out, left_code.as_str());
                    push_str(&mut out, ".deyer,");
                    push_str(&mut out, right_code.as_str());
                    push_str(&mut out, ".deyer))");
                } else if str_eq(zop.as_str(), "%") {
                    push_str(&mut out, "(@mod(");
                    push_str(&mut out, left_code.as_str());
                    push_str(&mut out, ".deyer,");
                    push_str(&mut out, right_code.as_str());
                    push_str(&mut out, ".deyer))");
                } else {
                    push_str(&mut out, "(");
                    push_str(&mut out, left_code.as_str());
                    push_str(&mut out, ".deyer ");
                    push_str(&mut out, zop.as_str());
                    push_str(&mut out, " ");
                    push_str(&mut out, right_code.as_str());
                    push_str(&mut out, ".deyer)");
                }
                proof {
                    assert(out@ =~= binary_text(left_code@, op@, right_code@));
                    assert(operand_pure(**left, old(ctx).enum_defs) is Some ==> mid_enums == old(ctx).enum_defs);
                    assert(operand_transpiled(**left, *old(ctx), left_code@, cmid));
                }
                out
            },
            _ => {
                proof {
                    assert(false);
                }
                String::new()
            },
    }
}

/// The code of a struct type with the code of its field defaults.
#[verifier::loop_isolation(false)]
#[verifier::rlimit(30)]
fn struct_def_code(expr: &Expr, ctx: &mut TranspileContext) -> (r: String)
    requires
        old(ctx).wf(),
        ready(*expr),
        *expr is StructDef,
    ensures
        final(ctx).wf(),
        ctx_grows(*old(ctx), *final(ctx)),
        exists|defaults: Seq<Option<String>>, codes: Seq<Seq<char>>| defaults_tied(expr->StructDef_fields@, defaults, old(ctx).enum_defs)
            && method_codes_of(expr->StructDef_methods@, codes, "self: *@This()"@)
            && methods_tied(expr->StructDef_methods@, codes, "self: *@This()"@, old(ctx).enum_defs,
                defaults_pure(expr->StructDef_fields@, expr->StructDef_fields@.len() as int, old(ctx).enum_defs))
            && r@ == #[trigger] struct_decl_text(expr->StructDef_transpiled_name->Some_0@,
                struct_field_lines(expr->StructDef_fields@, defaults) + seq![Seq::<char>::empty()] + codes),
    decreases expr, 4int,
{
    match expr {
            Expr::StructDef { name, transpiled_name, fields, methods } => {
                let tn = transpiled_name.as_ref().unwrap();
                proof {
                    lemma_defaults_ready_upto(fields@, fields@.len() as int);
                    lemma_methods_ready_upto(methods@, methods@.len() as int);
                }
                let mut defaults: Vec<Option<String>> = Vec::new();
                let mut i: usize = 0;
                while i < fields.len()
                    invariant
                        ctx.wf(),
                        ctx_grows(*old(ctx), *ctx),
                        i <= fields@.len(),
                        defaults@.len() == i,
                        forall|k: int| 0 <= k < i ==> (#[trigger] defaults@[k] is Some) == (fields@[k].2 is Some),
                        forall|k: int| #![trigger defaults@[k]] 0 <= k < i && defaults_pure(fields@, k, old(ctx).enum_defs)
                            ==> (fields@[k].2 matches Some(d) ==> (pure_code(d, old(ctx).enum_defs) matches Some(p)
                                ==> defaults@[k] matches Some(c) && c@ == p)),
                        defaults_pure(fields@, i as int, old(ctx).enum_defs) ==> ctx.enum_defs == old(ctx).enum_defs,
                        *expr == (Expr::StructDef { name: *name, transpiled_name: *transpiled_name,
                            fields: *fields, methods: *methods }),
                        forall|q: int| 0 <= q < fields@.len() ==> ((#[trigger] fields@[q]).2 matches Some(d) ==> ready(d)),
                        methods_ready(methods@),
                    decreases fields@.len() - i,
                {
                    match &fields[i].2 {
                        Some(d) => {
                            proof {
                                assert(decreases_to!(*expr => expr->StructDef_fields));
                                assert(decreases_to!(expr->StructDef_fields => expr->StructDef_fields@));
                                assert(decreases_to!(expr->StructDef_fields@ => expr->StructDef_fields@[i as int]));
                                assert(decreases_to!(expr->StructDef_fields@[i as int] => expr->StructDef_fields@[i as int].2));
                            }
                            let ghost cd = *ctx;
                            let code = transpile_expr(d, ctx);
                            proof {
                                if defaults_pure(fields@, i + 1, old(ctx).enum_defs) {
                                    assert(fields@[i as int].2 == Some(*d));
                                    assert(pure_code(*d, old(ctx).enum_defs) is Some);
                                    assert(only_self_marked(cd, *ctx));
                                }
                            }
                            let ghost before = defaults@;
                            defaults.push(Some(code));
                            proof {
                                assert forall|k: int| 0 <= k < i implies #[trigger] defaults@[k] == before[k] by {}
                            }
                        },
                        None => {
                            let ghost before = defaults@;
                            defaults.push(None);
                            proof {
                                assert forall|k: int| 0 <= k < i implies #[trigger] defaults@[k] == before[k] by {}
                            }
                        },
                    }
                    proof {
                        if defaults_pure(fields@, i + 1, old(ctx).enum_defs) {
                            assert(defaults_pure(fields@, i as int, old(ctx).enum_defs));
                        }
                    }
                    i = i + 1;
                }
                let ghost cs0 = *ctx;
                let out = transpile_struct_def(name, tn, fields, &defaults, methods, ctx);
                proof {
                    let enums = old(ctx).enum_defs;
                    let codes = choose|codes: Seq<Seq<char>>| #[trigger] method_codes_of(methods@, codes, "self: *@This()"@)
                        && methods_tied(methods@, codes, "self: *@This()"@, cs0.enum_defs, true)
                        && out@ == struct_decl_text(tn@, struct_field_lines(fields@, defaults@) + seq![Seq::<char>::empty()] + codes);
                    if !defaults_pure(fields@, fields@.len() as int, enums) {
                        crate::transpiler::union_def::lemma_untie_methods(methods@, codes, "self: *@This()"@, cs0.enum_defs, enums, true);
                    }
                    assert(methods_tied(methods@, codes, "self: *@This()"@, enums, defaults_pure(fields@, fields@.len() as int, enums)));
                    assert(defaults_tied(fields@, defaults@, enums));
                }
                assert(forall|k: int| 0 <= k < defaults@.len() ==> (#[trigger] defaults@[k] is Some) == (fields@[k].2 is Some));
                out
            },
            _ => {
                proof {
                    assert(false);
                }
                String::new()
            },
    }
}

/// The code of a template: its parts, one per line.
#[verifier::loop_isolation(false)]
#[verifier::rlimit(30)]
fn template_code(expr: &Expr, ctx: &mut TranspileContext) -> (r: String)
    requires
        old(ctx).wf(),
        ready(*expr),
        *expr is TemplateString,
    ensures
        final(ctx).wf(),
        ctx_grows(*old(ctx), *final(ctx)),
        pure_code(*expr, old(ctx).enum_defs) matches Some(c) ==> r@ == c && only_self_marked(*old(ctx), *final(ctx)),
    decreases expr, 4int,
{
    match expr {
        Expr::TemplateString(template) => {
            proof {
                lemma_chunks_ready_upto(template@, template@.len() as int);
            }
            chunks_code(template, ctx)
        },
        _ => {
            proof {
                assert(false);
            }
            String::new()
        },
    }
}

/// The codes of a template's parts, one per line.
#[verifier::rlimit(30)]
fn chunks_code(template: &Vec<TemplateChunk>, ctx: &mut TranspileContext) -> (r: String)
    requires
        old(ctx).wf(),
        forall|q: int| 0 <= q < template@.len() ==>
            ((#[trigger] template@[q]) matches TemplateChunk::Expr(x) ==> ready(*x)),
    ensures
        final(ctx).wf(),
        ctx_grows(*old(ctx), *final(ctx)),
        chunk_codes(template@, template@.len() as int, old(ctx).enum_defs) matches Some(c) ==> r@ == c
            && only_self_marked(*old(ctx), *final(ctx)),
    decreases template, 0int,
{
    let mut out = String::new();
    let mut i: usize = 0;
    while i < template.len()
        invariant
            ctx.wf(),
            ctx_grows(*old(ctx), *ctx),
            i <= template@.len(),
            forall|q: int| 0 <= q < template@.len() ==>
                ((#[trigger] template@[q]) matches TemplateChunk::Expr(x) ==> ready(*x)),
            chunk_codes(template@, template@.len() as int, old(ctx).enum_defs) is Some ==>
                (chunk_codes(template@, i as int, old(ctx).enum_defs) matches Some(c)
                    && out@ == c && only_self_marked(*old(ctx), *ctx)),
        decreases template@.len() - i,
    {
        proof {
            if chunk_codes(template@, template@.len() as int, old(ctx).enum_defs) is Some {
                lemma_chunk_codes_prefix(template@, template@.len() as int, i as int, old(ctx).enum_defs);
                lemma_chunk_codes_prefix(template@, template@.len() as int, i + 1, old(ctx).enum_defs);
            }
        }
        if i > 0 {
            push_str(&mut out, "\n");
        }
        match &template[i] {
            TemplateChunk::Literal(lit) => {
                push_str(&mut out, lit.as_str());
            },
            TemplateChunk::Expr(inner) => {
                proof {
                    assert(decreases_to!(template => template@));
                    assert(decreases_to!(template@ => template@[i as int]));
                }
                let code = transpile_expr(inner, ctx);
                push_str(&mut out, code.as_str());
            },
        }
        proof {
            if chunk_codes(template@, template@.len() as int, old(ctx).enum_defs) is Some {
                if i == 0 {
                    assert(out@ =~= chunk_codes(template@, 1, old(ctx).enum_defs).unwrap());
                } else {
                    assert(out@ =~= chunk_codes(template@, i + 1, old(ctx).enum_defs).unwrap());
                }
            }
        }
        i = i + 1;
    }
    out
}

/// The codes of the arguments of a call, as they are handed over.
#[verifier::loop_isolation(false)]
#[verifier::rlimit(30)]
fn call_args_code(expr: &Expr, args: &Vec<Expr>, ctx: &mut TranspileContext) -> (r: Vec<String>)
    requires
        old(ctx).wf(),
        ready(*expr),
        *expr is Call,
        *args == expr->Call_args,
    ensures
        final(ctx).wf(),
        ctx_grows(*old(ctx), *final(ctx)),
        exists|codes: Seq<Seq<char>>| codes.len() == args@.len()
            && (all_pure(args@, old(ctx).enum_defs) ==> forall|k: int| 0 <= k < codes.len()
                ==> #[trigger] codes[k] == pure_code(args@[k], old(ctx).enum_defs).unwrap())
            && views(r@) == #[trigger] call_args_seq(args@, codes),
    decreases expr, 3int,
{
    proof {
        lemma_args_ready_upto(args@, args@.len() as int);
    }
    let mut args_code: Vec<String> = Vec::new();
    let ghost mut codes: Seq<Seq<char>> = Seq::empty();
    let mut i: usize = 0;
    while i < args.len()
        invariant
            ctx.wf(),
            ctx_grows(*old(ctx), *ctx),
            i <= args@.len(),
            forall|k: int| 0 <= k < args@.len() ==> #[trigger] arg_ready(args@[k]),
            codes.len() == i,
            views(args_code@) == call_args_seq(args@.subrange(0, i as int), codes),
            all_pure(args@, old(ctx).enum_defs) ==> ctx.enum_defs == old(ctx).enum_defs
                && forall|k: int| 0 <= k < i ==> #[trigger] codes[k] == pure_code(args@[k], old(ctx).enum_defs).unwrap(),
        decreases args@.len() - i,
    {
        let arg = &args[i];
        proof {
            assert(arg_ready(args@[i as int]));
            lemma_arg_ready(args@[i as int]);
        }
        let code = match arg {
            Expr::VariableRef { transpiled_name: arg_tn, symbol: Some(sym), .. } => {
                let new_name = arg_tn.as_ref().unwrap();
                if sym.is_pointer {
                    let mut c = String::from_str("&");
                    push_str(&mut c, new_name.as_str());
                    c
                } else {
                    new_name.clone()
                }
            },
            _ => {
                proof {
                    assert(decreases_to!(*expr => expr->Call_args));
                    assert(decreases_to!(expr->Call_args => expr->Call_args@));
                    assert(decreases_to!(expr->Call_args@ => expr->Call_args@[i as int]));
                }
                transpile_expr(arg, ctx)
            },
        };
        let ghost before = views(args_code@);
        let ghost cv = code@;
        args_code.push(code);
        proof {
            let pc = if all_pure(args@, old(ctx).enum_defs) {
                pure_code(args@[i as int], old(ctx).enum_defs).unwrap()
            } else {
                cv
            };
            let nc = codes.push(pc);
            if all_pure(args@, old(ctx).enum_defs) {
                assert(pure_code(args@[i as int], old(ctx).enum_defs) is Some);
            }
            assert(call_arg_text(args@[i as int], pc) == cv);
            assert(views(args_code@) =~= before.push(cv));
            assert(views(args_code@) =~= call_args_seq(args@.subrange(0, i + 1), nc));
            codes = nc;
        }
        i = i + 1;
    }
    assert(args@.subrange(0, args@.len() as int) =~= args@);
    assert(views(args_code@) == call_args_seq(args@, codes));
    args_code
}

/// The code of a call with the arguments `joined`.
fn call_head(expr: &Expr, joined: &str) -> (r: String)
    requires
        *expr is Call,
        expr->Call_transpiled_name is Some,
    ensures
        r@ == call_text_with(*expr, joined@),
{
    match expr {
        Expr::Call { target, is_allocator, transpiled_name, .. } => {
            let func_name = transpiled_name.as_ref().unwrap();
            let mut out = String::new();
            match target {
                Some(t) => match &**t {
                    Expr::VariableRef { name: target_name, .. } => {
                        if *is_allocator {
                            push_str(&mut out, "(try ");
                        }
                        push_str(&mut out, target_name.as_str());
                        push_str(&mut out, ".");
                        push_str(&mut out, func_name.as_str());
                        push_str(&mut out, " (");
                        push_str(&mut out, joined);
                        push_str(&mut out, ")");
                        if *is_allocator {
                            push_str(&mut out, ")");
                        }
                    },
                    Expr::Number(n) => {
                        push_str(&mut out, "azlangEded.Yeni(");
                        let nt = i64_to_string(*n);
                        push_str(&mut out, nt.as_str());
                        push_str(&mut out, ").");
                        push_str(&mut out, func_name.as_str());
                        push_str(&mut out, "(");
                        push_str(&mut out, joined);
                        push_str(&mut out, ")");
                    },
                    Expr::String(s, _) => {
                        push_str(&mut out, "azlangYazi.Yeni(azlangYazi{.Const = \"");
                        push_str(&mut out, s.as_str());
                        push_str(&mut out, "\"}).");
                        push_str(&mut out, func_name.as_str());
                        push_str(&mut out, "(");
                        push_str(&mut out, joined);
                        push_str(&mut out, ")");
                    },
                    _ => {
                        push_str(&mut out, func_name.as_str());
                        push_str(&mut out, "(");
                        push_str(&mut out, joined);
                        push_str(&mut out, ")");
                    },
                },
                None => {
                    push_str(&mut out, func_name.as_str());
                    push_str(&mut out, "(");
                    push_str(&mut out, joined);
                    push_str(&mut out, ")");
                },
            }
            proof {
                reveal_strlit("(try ");
                reveal_strlit(")");
            }
            assert(out@ =~= call_text_with(*expr, joined@));
            out
        },
        _ => {
            proof {
                assert(false);
            }
            String::new()
        },
    }
}

/// The code of a call.
fn call_code(expr: &Expr, ctx: &mut TranspileContext) -> (r: String)
    requires
        old(ctx).wf(),
        ready(*expr),
        *expr is Call,
    ensures
        final(ctx).wf(),
        ctx_grows(*old(ctx), *final(ctx)),
        final(ctx).is_used_allocator,
        expr->Call_is_allocator ==> final(ctx).needs_allocator,
        exists|codes: Seq<Seq<char>>| codes.len() == expr->Call_args@.len()
            && (all_pure(expr->Call_args@, old(ctx).enum_defs) ==> forall|k: int| 0 <= k < codes.len()
                ==> #[trigger] codes[k] == pure_code(expr->Call_args@[k], old(ctx).enum_defs).unwrap())
            && r@ == #[trigger] call_text(*expr, codes),
    decreases expr, 4int,
{
    match expr {
        Expr::Call { args, is_allocator, .. } => {
            let mut args_code = call_args_code(expr, args, ctx);
            let ghost codes = choose|codes: Seq<Seq<char>>| codes.len() == args@.len()
                && (all_pure(args@, old(ctx).enum_defs) ==> forall|k: int| 0 <= k < codes.len()
                    ==> #[trigger] codes[k] == pure_code(args@[k], old(ctx).enum_defs).unwrap())
                && views(args_code@) == #[trigger] call_args_seq(args@, codes);
            ctx.is_used_allocator = true;
            if *is_allocator {
                ctx.needs_allocator = true;
                args_code.push(String::from_str("allocator"));
            }
            proof {
                reveal_strlit("allocator");
                assert(views(args_code@) =~= call_args_seq(args@, codes)
                    + (if *is_allocator { seq!["allocator"@] } else { Seq::empty() }));
            }
            let joined = crate::text::join_strings(&args_code, ", ");
            assert(joined@ == call_args_text(args@, codes, *is_allocator));
            let out = call_head(expr, joined.as_str());
            assert(out@ == call_text(*expr, codes));
            out
        },
        _ => {
            proof {
                assert(false);
            }
            String::new()
        },
    }
}

/// Whether every expression of `s` has code that only reads the context.
pub open spec fn all_pure(s: Seq<Expr>, enums: Dict<Vec<String>>) -> bool {
    forall|k: int| 0 <= k < s.len() ==> #[trigger] pure_code(s[k], enums) is Some
}

/// How an argument is handed to a call, with `code` its code: a variable
/// by its generated name (its address when it is passed by pointer),
/// anything else by its code.
pub open spec fn call_arg_text(a: Expr, code: Seq<char>) -> Seq<char> {
    match a {
        Expr::VariableRef { transpiled_name: Some(tn), symbol: Some(sym), .. } =>
            if sym.is_pointer { "&"@ + tn@ } else { tn@ },
        _ => code,
    }
}

/// How each argument is handed over, with `codes` their codes.
pub open spec fn call_args_seq(args: Seq<Expr>, codes: Seq<Seq<char>>) -> Seq<Seq<char>> {
    Seq::new(args.len(), |k: int| call_arg_text(args[k], codes[k]))
}

/// The arguments of a call, with the allocator last when the function
/// takes one.
pub open spec fn call_args_text(args: Seq<Expr>, codes: Seq<Seq<char>>, is_allocator: bool) -> Seq<char> {
    join_seq(call_args_seq(args, codes) + (if is_allocator { seq!["allocator"@] } else { Seq::empty() }), ", "@)
}

/// The code of a call whose arguments have the codes `codes`: a method of a
/// variable, number or text called on it, else the function by its
/// generated name.
pub open spec fn call_text(e: Expr, codes: Seq<Seq<char>>) -> Seq<char> {
    call_text_with(e, call_args_text(e->Call_args@, codes, e->Call_is_allocator))
}

/// The code of a call with the arguments `a`.
pub open spec fn call_text_with(e: Expr, a: Seq<char>) -> Seq<char> {
    match e {
        Expr::Call { target, transpiled_name: Some(f), is_allocator, .. } => {
            match target {
                Some(t) => match *t {
                    Expr::VariableRef { name, .. } => (if is_allocator { "(try "@ } else { Seq::empty() })
                        + name@ + "."@ + f@ + " ("@ + a + ")"@ + (if is_allocator { ")"@ } else { Seq::empty() }),
                    Expr::Number(n) => "azlangEded.Yeni("@ + int_text(n as int) + ")."@ + f@ + "("@ + a + ")"@,
                    Expr::String(s, _) => "azlangYazi.Yeni(azlangYazi{.Const = \""@ + s@ + "\"})."@ + f@ + "("@ + a + ")"@,
                    _ => f@ + "("@ + a + ")"@,
                },
                None => f@ + "("@ + a + ")"@,
            }
        },
        _ => Seq::empty(),
    }
}

/// The field settings of a struct value, with `codes` the codes of the
/// values.
pub open spec fn field_settings(args: Seq<(String, Expr)>, codes: Seq<Seq<char>>) -> Seq<Seq<char>> {
    Seq::new(args.len(), |k: int| "."@ + args[k].0@ + " = "@ + codes[k])
}

/// Whether the default values among the first `k` fields only read the
/// context (given `enums`).
pub open spec fn defaults_pure(fields: Seq<(String, Type, Option<Expr>)>, k: int, enums: Dict<Vec<String>>) -> bool {
    forall|j: int| 0 <= j < k ==> ((#[trigger] fields[j]).2 matches Some(d) ==> pure_code(d, enums) is Some)
}

/// Whether each field's default code is there exactly when the field has a
/// default value, and is that value's own code where it and the defaults
/// before it only read the context.
pub open spec fn defaults_tied(fields: Seq<(String, Type, Option<Expr>)>, defaults: Seq<Option<String>>,
    enums: Dict<Vec<String>>) -> bool {
    &&& defaults.len() == fields.len()
    &&& forall|k: int| 0 <= k < defaults.len() ==> (#[trigger] defaults[k] is Some) == (fields[k].2 is Some)
    &&& forall|k: int| #![trigger defaults[k]] 0 <= k < defaults.len() && defaults_pure(fields, k, enums)
        ==> (fields[k].2 matches Some(d) ==> (pure_code(d, enums) matches Some(p)
            ==> defaults[k] matches Some(c) && c@ == p))
}

/// The values of a struct value's fields, in order.
pub open spec fn field_values(args: Seq<(String, Expr)>) -> Seq<Expr> {
    Seq::new(args.len(), |k: int| args[k].1)
}

/// The code of a struct value of the type generated as `tn`.
pub open spec fn struct_init_text(tn: Seq<char>, args: Seq<(String, Expr)>, codes: Seq<Seq<char>>) -> Seq<char> {
    tn + "{ "@ + join_seq(field_settings(args, codes), ", "@) + " };"@
}

/// The code of a struct value.
#[verifier::loop_isolation(false)]
#[verifier::rlimit(30)]
fn struct_init_code(expr: &Expr, ctx: &mut TranspileContext) -> (r: String)
    requires
        old(ctx).wf(),
        ready(*expr),
        *expr is StructInit,
    ensures
        final(ctx).wf(),
        ctx_grows(*old(ctx), *final(ctx)),
        exists|codes: Seq<Seq<char>>| codes.len() == expr->StructInit_args@.len()
            && r@ == #[trigger] struct_init_text(expr->StructInit_transpiled_name->Some_0@, expr->StructInit_args@, codes)
            && codes_tied(field_values(expr->StructInit_args@), codes, old(ctx).enum_defs),
    decreases expr, 4int,
{
    match expr {
            Expr::StructInit { transpiled_name, args, .. } => {
                proof {
                    lemma_pairs_ready_upto(args@, args@.len() as int);
                }
                let tn = transpiled_name.as_ref().unwrap();
                let mut body = String::new();
                let ghost mut codes: Seq<Seq<char>> = Seq::empty();
                let mut i: usize = 0;
                while i < args.len()
                    invariant
                        ctx.wf(),
                        ctx_grows(*old(ctx), *ctx),
                        i <= args@.len(),
                        forall|k: int| 0 <= k < args@.len() ==> #[trigger] ready(args@[k].1),
                        codes.len() == i,
                        body@ == join_seq(field_settings(args@.subrange(0, i as int), codes), ", "@),
                        codes_tied(field_values(args@), codes, old(ctx).enum_defs),
                        prefix_pure(field_values(args@), i as int, old(ctx).enum_defs) ==> ctx.enum_defs == old(ctx).enum_defs,
                    decreases args@.len() - i,
                {
                    proof {
                        assert(decreases_to!(*expr => expr->StructInit_args));
                        assert(decreases_to!(expr->StructInit_args => expr->StructInit_args@));
                        assert(decreases_to!(expr->StructInit_args@ => expr->StructInit_args@[i as int]));
                        assert(decreases_to!(expr->StructInit_args@[i as int] => expr->StructInit_args@[i as int].1));
                    }
                    let ghost cbefore = *ctx;
                    let value_code = transpile_expr(&args[i].1, ctx);
                    proof {
                        let vals = field_values(args@);
                        assert(vals[i as int] == args@[i as int].1);
                        lemma_tie_step(vals, codes, old(ctx).enum_defs, value_code@);
                        if prefix_pure(vals, i + 1, old(ctx).enum_defs) {
                            assert(only_self_marked(cbefore, *ctx));
                        }
                    }
                    let ghost before = body@;
                    if i > 0 {
                        push_str(&mut body, ", ");
                    }
                    push_str(&mut body, ".");
                    push_str(&mut body, args[i].0.as_str());
                    push_str(&mut body, " = ");
                    push_str(&mut body, value_code.as_str());
                    proof {
                        let old_s = field_settings(args@.subrange(0, i as int), codes);
                        let nc = codes.push(value_code@);
                        let setting = "."@ + args@[i as int].0@ + " = "@ + value_code@;
                        assert forall|k: int| 0 <= k < i + 1 implies
                            #[trigger] field_settings(args@.subrange(0, i + 1), nc)[k] == old_s.push(setting)[k] by {
                            if k < i {
                                assert(nc[k] == codes[k]);
                                assert(args@.subrange(0, i + 1)[k] == args@.subrange(0, i as int)[k]);
                            }
                        }
                        assert(field_settings(args@.subrange(0, i + 1), nc) =~= old_s.push(setting));
                        lemma_join_push(old_s, setting, ", "@);
                        if i > 0 {
                            assert(body@ =~= before + ", "@ + setting);
                        } else {
                            assert(body@ =~= before + setting);
                        }
                        codes = nc;
                    }
                    i = i + 1;
                }
                assert(args@.subrange(0, args@.len() as int) =~= args@);
                let mut out = tn.clone();
                push_str(&mut out, "{ ");
                push_str(&mut out, body.as_str());
                push_str(&mut out, " };");
                assert(out@ =~= struct_init_text(tn@, args@, codes));
                out
            },
            _ => {
                proof {
                    assert(false);
                }
                String::new()
            },
    }
}

/// The code of a `for` loop over `iterable`, whose code is `iter_code`,
/// binding `var` and running the body lines.
pub open spec fn loop_text(var: Seq<char>, iterable: Expr, iter_code: Seq<char>, body_lines: Seq<Seq<char>>) -> Seq<char> {
    "for ("@ + iter_code + (if iterable matches Expr::VariableRef { symbol: Some(sym), .. } && sym.is_mutable {
        ".items"@
    } else {
        Seq::empty()
    }) + ") |"@ + var + "| {\n"@ + join_seq(body_lines, "\n"@) + "\n}"@
}

/// The code of a `for` loop over a list.
#[verifier::loop_isolation(false)]
#[verifier::rlimit(30)]
fn loop_code(expr: &Expr, ctx: &mut TranspileContext) -> (r: String)
    requires
        old(ctx).wf(),
        ready(*expr),
        *expr is Loop,
    ensures
        final(ctx).wf(),
        ctx_grows(*old(ctx), *final(ctx)),
        exists|c: Seq<char>, codes: Seq<Seq<char>>|
            (pure_code(*expr->Loop_iterable, old(ctx).enum_defs) matches Some(p) ==> c == p)
            && codes.len() == expr->Loop_body@.len()
            && r@ == #[trigger] loop_text(expr->Loop_var_name@, *expr->Loop_iterable, c,
                block_text(expr->Loop_body@, codes, "    "@))
            && (pure_code(*expr->Loop_iterable, old(ctx).enum_defs) is Some
                ==> codes_tied(expr->Loop_body@, codes, old(ctx).enum_defs)),
        exists|c: Seq<char>, codes: Seq<Seq<char>>, cm: TranspileContext|
            transpiled(*expr->Loop_iterable, *old(ctx), c, cm)
            && r@ == #[trigger] loop_text(expr->Loop_var_name@, *expr->Loop_iterable, c,
                block_text(expr->Loop_body@, codes, "    "@))
            && #[trigger] block_transpiled(expr->Loop_body@, codes, cm, *final(ctx)),
    decreases expr, 4int,
{
    match expr {
            Expr::Loop { var_name, iterable, body } => {
                proof {
                    lemma_ready_upto(body@, body@.len() as int);
                }
                let ghost e0 = ctx.enum_defs;
                let iterable_code = transpile_expr(iterable, ctx);
                let ghost c = iterable_code@;
                let ghost e1 = ctx.enum_defs;
                let ghost cm = *ctx;
                proof {
                    assert(decreases_to!(*expr => expr->Loop_body));
                }
                let lines = block_lines(body, ctx, "    ");
                let body_code = crate::text::join_strings(&lines, "\n");
                let mut loop_expr = iterable_code;
                match &**iterable {
                    Expr::VariableRef { symbol: Some(sym), .. } => {
                        if sym.is_mutable {
                            push_str(&mut loop_expr, ".items");
                        }
                    },
                    _ => {},
                }
                let mut out = String::from_str("for (");
                push_str(&mut out, loop_expr.as_str());
                push_str(&mut out, ") |");
                push_str(&mut out, var_name.as_str());
                push_str(&mut out, "| {\n");
                push_str(&mut out, body_code.as_str());
                push_str(&mut out, "\n}");
                proof {
                    let codes = choose|codes: Seq<Seq<char>>| codes.len() == body@.len()
                        && #[trigger] views(lines@) == block_text(body@, codes, "    "@)
                        && codes_tied(body@, codes, e1)
                        && block_transpiled(body@, codes, cm, *ctx);
                    assert(out@ =~= loop_text(var_name@, **iterable, c, block_text(body@, codes, "    "@)));
                    assert(pure_code(**iterable, e0) is Some ==> e1 == e0);
                }
                out
            },
            _ => {
                proof {
                    assert(false);
                }
                String::new()
            },
    }
}

/// The code of an index or a field access.
#[verifier::loop_isolation(false)]
#[verifier::rlimit(30)]
fn index_code(expr: &Expr, ctx: &mut TranspileContext) -> (r: String)
    requires
        old(ctx).wf(),
        ready(*expr),
        *expr is Index,
    ensures
        final(ctx).wf(),
        ctx_grows(*old(ctx), *final(ctx)),
        pure_code(*expr, old(ctx).enum_defs) matches Some(c) ==> r@ == c && only_self_marked(*old(ctx), *final(ctx)),
    decreases expr, 4int,
{
    match expr {
            Expr::Index { target, index, .. } => {
                let target_code = transpile_expr(target, ctx);
                let index_code = transpile_expr(index, ctx);
                let index_type = get_expr_type(index);
                let mut out = target_code;
                match index_type {
                    Type::String => {
                        push_str(&mut out, ".");
                        let trimmed = trim_char(index_code.as_str(), '"');
                        push_str(&mut out, trimmed.as_str());
                    },
                    _ => {
                        push_str(&mut out, "[");
                        push_str(&mut out, index_code.as_str());
                        push_str(&mut out, "]");
                    },
                }
                out
            },
            _ => {
                proof {
                    assert(false);
                }
                String::new()
            },
    }
}

/// Codes written one after another.
pub open spec fn concat_codes(codes: Seq<Seq<char>>) -> Seq<char>
    decreases codes.len(),
{
    if codes.len() == 0 { Seq::empty() } else { concat_codes(codes.drop_last()) + codes.last() }
}

/// The arms of a `switch`, with `pcodes` the codes of the patterns and
/// `bcodes` those of the bodies' statements.
pub open spec fn arm_lines(pcodes: Seq<Seq<char>>, bcodes: Seq<Seq<Seq<char>>>) -> Seq<Seq<char>> {
    Seq::new(pcodes.len(), |k: int| "."@ + pcodes[k] + " => "@ + concat_codes(bcodes[k]) + ","@)
}

/// Whether the target and the first `k` arms of a `match`, their patterns
/// and their statements, only read the context (given `enums`).
pub open spec fn arms_pure_upto(target: Expr, arms: Seq<(Expr, Vec<Expr>)>, k: int, enums: Dict<Vec<String>>) -> bool {
    &&& pure_code(target, enums) is Some
    &&& forall|j: int| 0 <= j < k ==> #[trigger] pure_code(arms[j].0, enums) is Some && all_pure(arms[j].1@, enums)
}

/// Whether the codes of the arms are their own codes: for every arm that
/// has only forms that read the context before it, its pattern's code, and
/// its statements' codes as `codes_tied` ties them.
pub open spec fn arms_tied(target: Expr, arms: Seq<(Expr, Vec<Expr>)>, pcodes: Seq<Seq<char>>,
    bcodes: Seq<Seq<Seq<char>>>, enums: Dict<Vec<String>>) -> bool {
    forall|k: int| 0 <= k < pcodes.len() && k < arms.len() && k < bcodes.len() && arms_pure_upto(target, arms, k, enums)
        ==> (#[trigger] pure_code(arms[k].0, enums) matches Some(p)
            ==> pcodes[k] == p && codes_tied(arms[k].1@, bcodes[k], enums))
}

/// The code of a `match` as a `switch` on the code `tcode` of its target.
pub open spec fn match_text(tcode: Seq<char>, pcodes: Seq<Seq<char>>, bcodes: Seq<Seq<Seq<char>>>) -> Seq<char> {
    "switch ("@ + tcode + ") {\n"@ + join_seq(arm_lines(pcodes, bcodes), "\n"@) + "\n}"@
}

/// The code of a `match` as a Zig `switch`.
#[verifier::loop_isolation(false)]
#[verifier::rlimit(30)]
fn match_code(expr: &Expr, ctx: &mut TranspileContext) -> (r: String)
    requires
        old(ctx).wf(),
        ready(*expr),
        *expr is Match,
    ensures
        final(ctx).wf(),
        ctx_grows(*old(ctx), *final(ctx)),
        exists|t: Seq<char>, pcodes: Seq<Seq<char>>, bcodes: Seq<Seq<Seq<char>>>|
            (pure_code(*expr->Match_target, old(ctx).enum_defs) matches Some(p) ==> t == p)
            && pcodes.len() == expr->Match_arms@.len() && bcodes.len() == expr->Match_arms@.len()
            && (forall|k: int| 0 <= k < bcodes.len() ==> #[trigger] bcodes[k].len() == expr->Match_arms@[k].1@.len())
            && r@ == #[trigger] match_text(t, pcodes, bcodes)
            && arms_tied(*expr->Match_target, expr->Match_arms@, pcodes, bcodes, old(ctx).enum_defs),
    decreases expr, 4int,
{
    match expr {
            Expr::Match { target, arms } => {
                proof {
                    assert(ready(**target) && arms_ready_upto(arms@, arms@.len() as int));
                    lemma_arms_ready_upto(arms@, arms@.len() as int);
                }
                let target_code = transpile_expr(target, ctx);
                let mut arms_code = String::new();
                let ghost mut pcodes: Seq<Seq<char>> = Seq::empty();
                let ghost mut bcodes: Seq<Seq<Seq<char>>> = Seq::empty();
                let mut i: usize = 0;
                while i < arms.len()
                    invariant
                        ctx.wf(),
                        ctx_grows(*old(ctx), *ctx),
                        i <= arms@.len(),
                        *expr == (Expr::Match { target: *target, arms: *arms }),
                        arms_ready_upto(arms@, arms@.len() as int),
                        pcodes.len() == i,
                        bcodes.len() == i,
                        forall|k: int| 0 <= k < i ==> #[trigger] bcodes[k].len() == arms@[k].1@.len(),
                        arms_code@ == join_seq(arm_lines(pcodes, bcodes), "\n"@),
                        arms_tied(**target, arms@, pcodes, bcodes, old(ctx).enum_defs),
                        arms_pure_upto(**target, arms@, i as int, old(ctx).enum_defs) ==> ctx.enum_defs == old(ctx).enum_defs,
                        pure_code(**target, old(ctx).enum_defs) matches Some(p) ==> target_code@ == p,
                    decreases arms@.len() - i,
                {
                    proof {
                        lemma_arms_ready_upto(arms@, arms@.len() as int);
                        assert(ready(arms@[i as int].0));
                        lemma_ready_upto(arms@[i as int].1@, arms@[i as int].1@.len() as int);
                    }
                    proof {
                        assert(decreases_to!(*expr => expr->Match_arms));
                        assert(decreases_to!(expr->Match_arms => expr->Match_arms@));
                        assert(decreases_to!(expr->Match_arms@ => expr->Match_arms@[i as int]));
                        assert(decreases_to!(expr->Match_arms@[i as int] => expr->Match_arms@[i as int].0));
                    }
                    let ghost cp = *ctx;
                    let pattern_code = transpile_expr(&arms[i].0, ctx);
                    let ghost pure_before = arms_pure_upto(**target, arms@, i as int, old(ctx).enum_defs)
                        && pure_code(arms@[i as int].0, old(ctx).enum_defs) is Some;
                    proof {
                        if pure_before {
                            assert(only_self_marked(cp, *ctx));
                        }
                    }
                    let mut expr_code = String::new();
                    let ghost mut bc: Seq<Seq<char>> = Seq::empty();
                    let mut j: usize = 0;
                    while j < arms[i].1.len()
                        invariant
                            ctx.wf(),
                            ctx_grows(*old(ctx), *ctx),
                            i < arms@.len(),
                            j <= arms@[i as int].1@.len(),
                            *expr == (Expr::Match { target: *target, arms: *arms }),
                            forall|q: int| 0 <= q < arms@[i as int].1@.len() ==> #[trigger] ready(arms@[i as int].1@[q]),
                            arms_ready_upto(arms@, arms@.len() as int),
                            bc.len() == j,
                            expr_code@ == concat_codes(bc),
                            pure_before ==> codes_tied(arms@[i as int].1@, bc, old(ctx).enum_defs),
                            pure_before && prefix_pure(arms@[i as int].1@, j as int, old(ctx).enum_defs)
                                ==> ctx.enum_defs == old(ctx).enum_defs,
                        decreases arms@[i as int].1@.len() - j,
                    {
                        proof {
                            assert(decreases_to!(*expr => expr->Match_arms));
                            assert(decreases_to!(expr->Match_arms => expr->Match_arms@));
                            assert(decreases_to!(expr->Match_arms@ => expr->Match_arms@[i as int]));
                            assert(decreases_to!(expr->Match_arms@[i as int] => expr->Match_arms@[i as int].1));
                            assert(decreases_to!(expr->Match_arms@[i as int].1 => expr->Match_arms@[i as int].1@[j as int]));
                        }
                        let ghost cs0 = *ctx;
                        let code = transpile_expr(&arms[i].1[j], ctx);
                        proof {
                            if pure_before {
                                lemma_tie_step(arms@[i as int].1@, bc, old(ctx).enum_defs, code@);
                                if prefix_pure(arms@[i as int].1@, j + 1, old(ctx).enum_defs) {
                                    assert(only_self_marked(cs0, *ctx));
                                }
                            }
                        }
                        push_str(&mut expr_code, code.as_str());
                        proof {
                            let nb = bc.push(code@);
                            assert(nb.drop_last() =~= bc);
                            bc = nb;
                        }
                        j = j + 1;
                    }
                    let ghost body_text = expr_code@;
                    string_push(&mut expr_code, ',');
                    let ghost before = arms_code@;
                    if i > 0 {
                        push_str(&mut arms_code, "\n");
                    }
                    push_str(&mut arms_code, ".");
                    push_str(&mut arms_code, pattern_code.as_str());
                    push_str(&mut arms_code, " => ");
                    push_str(&mut arms_code, expr_code.as_str());
                    proof {
                        let old_lines = arm_lines(pcodes, bcodes);
                        let np = pcodes.push(pattern_code@);
                        let nbc = bcodes.push(bc);
                        let line = "."@ + pattern_code@ + " => "@ + concat_codes(bc) + ","@;
                        reveal_strlit(",");
                        assert(expr_code@ =~= concat_codes(bc) + ","@);
                        assert forall|k: int| 0 <= k < i + 1 implies #[trigger] arm_lines(np, nbc)[k] == old_lines.push(line)[k] by {
                            if k < i {
                                assert(np[k] == pcodes[k]);
                                assert(nbc[k] == bcodes[k]);
                            }
                        }
                        assert(arm_lines(np, nbc) =~= old_lines.push(line));
                        lemma_join_push(old_lines, line, "\n"@);
                        if i > 0 {
                            assert(arms_code@ =~= before + "\n"@ + line);
                        } else {
                            assert(arms_code@ =~= before + line);
                        }
                        assert forall|k: int| 0 <= k < i + 1 implies #[trigger] nbc[k].len() == arms@[k].1@.len() by {
                            if k < i {
                                assert(nbc[k] == bcodes[k]);
                            }
                        }
                        let enums = old(ctx).enum_defs;
                        assert forall|k: int| 0 <= k < np.len() && k < arms@.len() && k < nbc.len()
                            && arms_pure_upto(**target, arms@, k, enums)
                            implies (#[trigger] pure_code(arms@[k].0, enums) matches Some(p)
                                ==> np[k] == p && codes_tied(arms@[k].1@, nbc[k], enums)) by {
                            if k < i {
                                assert(np[k] == pcodes[k]);
                                assert(nbc[k] == bcodes[k]);
                            }
                        }
                        if arms_pure_upto(**target, arms@, i + 1, enums) {
                            assert(pure_code(arms@[i as int].0, enums) is Some && all_pure(arms@[i as int].1@, enums));
                            assert forall|j: int| 0 <= j < i implies #[trigger] pure_code(arms@[j].0, enums) is Some
                                && all_pure(arms@[j].1@, enums) by {
                            }
                            assert(arms_pure_upto(**target, arms@, i as int, enums));
                            assert(pure_before);
                            assert(prefix_pure(arms@[i as int].1@, arms@[i as int].1@.len() as int, enums));
                        }
                        pcodes = np;
                        bcodes = nbc;
                    }
                    i = i + 1;
                }
                let mut out = String::from_str("switch (");
                push_str(&mut out, target_code.as_str());
                push_str(&mut out, ") {\n");
                push_str(&mut out, arms_code.as_str());
                push_str(&mut out, "\n}");
                assert(out@ =~= match_text(target_code@, pcodes, bcodes));
                out
            },
            _ => {
                proof {
                    assert(false);
                }
                String::new()
            },
    }
}

/// The value of an assignment with `code` the code it is written with: a
/// new text is copied with the allocator (`code` is then the code of the
/// text), anything else is its code.
pub open spec fn assigned_value_text(v: Expr, code: Seq<char>) -> Seq<char> {
    match v {
        Expr::StructInit { transpiled_name: Some(tn), .. } => if tn@ == "azlangYazi"@ {
            "azlangYazi{ .Mut = try allocator.dupe(u8,  "@ + code + " )  }"@
        } else {
            code
        },
        _ => code,
    }
}

/// The code of an assignment.
#[verifier::loop_isolation(false)]
#[verifier::rlimit(30)]
fn assignment_code(expr: &Expr, ctx: &mut TranspileContext) -> (r: String)
    requires
        old(ctx).wf(),
        ready(*expr),
        *expr is Assignment,
    ensures
        final(ctx).wf(),
        ctx_grows(*old(ctx), *final(ctx)),
        exists|c: Seq<char>| (pure_code(*expr->Assignment_value, old(ctx).enum_defs) matches Some(p) ==> c == p)
            && r@ == expr->Assignment_name@ + " = "@ + #[trigger] assigned_value_text(*expr->Assignment_value, c),
    decreases expr, 4int,
{
    match expr {
            Expr::Assignment { name, value, .. } => {
                let value_code = match &**value {
                    Expr::StructInit { transpiled_name: Some(tn), args, .. } => {
                        if str_eq(tn.as_str(), "azlangYazi") {
                            proof {
                                assert(decreases_to!(*expr => expr->Assignment_value));
                                assert(decreases_to!(expr->Assignment_value => expr->Assignment_value->StructInit_args));
                                assert(decreases_to!(expr->Assignment_value->StructInit_args
                                    => expr->Assignment_value->StructInit_args@));
                                assert(decreases_to!(expr->Assignment_value->StructInit_args@
                                    => expr->Assignment_value->StructInit_args@[0]));
                                assert(decreases_to!(expr->Assignment_value->StructInit_args@[0]
                                    => expr->Assignment_value->StructInit_args@[0].1));
                            }
                            let inner = transpile_expr(&args[0].1, ctx);
                            let mut c = String::from_str("azlangYazi{ .Mut = try allocator.dupe(u8,  ");
                            push_str(&mut c, inner.as_str());
                            push_str(&mut c, " )  }");
                            proof {
                                reveal_strlit("azlangYazi");
                            }
                            assert(c@ =~= assigned_value_text(**value, inner@));
                            c
                        } else {
                            let c = transpile_expr(value, ctx);
                            proof {
                                reveal_strlit("azlangYazi");
                            }
                            assert(c@ == assigned_value_text(**value, c@));
                            c
                        }
                    },
                    _ => {
                        let c = transpile_expr(value, ctx);
                        assert(c@ == assigned_value_text(**value, c@));
                        c
                    },
                };
                let mut out = name.clone();
                push_str(&mut out, " = ");
                push_str(&mut out, value_code.as_str());
                out
            },

            _ => {
                proof {
                    assert(false);
                }
                String::new()
            },
    }
}

/// The code of a binary operation's operand: a variable with a symbol is
/// written by its source name (dereferenced when it is a pointer), anything
/// else by its code.
#[verifier::rlimit(30)]
fn operand_code(e: &Expr, ctx: &mut TranspileContext) -> (r: String)
    requires
        old(ctx).wf(),
        ready(*e),
    ensures
        final(ctx).wf(),
        ctx_grows(*old(ctx), *final(ctx)),
        operand_pure(*e, old(ctx).enum_defs) matches Some(c) ==> r@ == c && only_self_marked(*old(ctx), *final(ctx)),
        operand_transpiled(*e, *old(ctx), r@, *final(ctx)),
    decreases e, 6int,
{
    match e {
        Expr::VariableRef { name, symbol: Some(sym), .. } => {
            let mut out = name.clone();
            if sym.is_pointer {
                push_str(&mut out, ".*");
            }
            out
        },
        _ => transpile_expr(e, ctx),
    }
}

/// The text a built-in call of one argument puts before and after the
/// argument's code, for the built-ins written that way.
pub open spec fn builtin_wrap(f: BuiltInFunction) -> Option<(Seq<char>, Seq<char>)> {
    match f {
        BuiltInFunction::ConvertString => Some(("try convert_string(allocator, "@, ",false)"@)),
        BuiltInFunction::Number => Some(("try std.fmt.parseInt(isize, "@, ", 10)"@)),
        BuiltInFunction::Sqrt => Some(("@sqrt("@, ".0)"@)),
        BuiltInFunction::Round => Some(("@round("@, ")"@)),
        BuiltInFunction::Floor => Some(("@floor("@, ")"@)),
        BuiltInFunction::Ceil => Some(("@ceil("@, ")"@)),
        BuiltInFunction::Mod => Some(("@abs("@, ")"@)),
        BuiltInFunction::Zig => Some((Seq::empty(), Seq::empty())),
        BuiltInFunction::StrLower => Some(("try str_lowercase(allocator, "@, ",false)"@)),
        BuiltInFunction::StrUpper => Some(("try str_uppercase(allocator, "@, ",false)"@)),
        BuiltInFunction::StrReverse => Some(("try str_reverse(allocator, "@, ",false)"@)),
        BuiltInFunction::Input => Some((
            "(blk: {\n                    var buf_temp: [100]u8 = undefined;\n                    break :blk try input("@,
            ", &buf_temp);\n                })"@)),
        _ => None,
    }
}

/// What the code of a built-in call is, given the state `before` the
/// generator was in: a wrapped argument, a range, the timer, or the code of
/// `print`, `min`, `max` or `sum`.
pub open spec fn builtin_shape(f: BuiltInFunction, args: Seq<Expr>, before: TranspileContext, r: Seq<char>) -> bool {
    &&& builtin_wrap(f) is Some ==> exists|c: Seq<char>|
        (pure_code(args[0], before.enum_defs) matches Some(p) ==> c == p)
        && r == builtin_wrap(f)->Some_0.0 + #[trigger] wrapped(c, builtin_wrap(f)->Some_0.1)
    &&& f is Range ==> exists|a: Seq<char>, b: Seq<char>|
        (pure_code(args[0], before.enum_defs) matches Some(p) ==> a == p)
        && (pure_code(args[0], before.enum_defs) is Some ==> (pure_code(args[1], before.enum_defs) matches Some(q) ==> b == q))
        && r == #[trigger] range_text(a, b)
    &&& f is Timer ==> r == "@intCast(std.time.milliTimestamp())"@
    &&& f is Print ==> print_shape(args[0], before.enum_defs, before.is_used_allocator, r)
    &&& f is LastWord ==> exists|pc: Seq<char>| print_shape(args[0], before.enum_defs, before.is_used_allocator, pc)
        && r == #[trigger] wrapped(pc, ";\n    std.process.exit(0)"@)
    &&& f is Min ==> exists|c: Seq<char>| (pure_code(args[0], before.enum_defs) matches Some(p) ==> c == p)
        && r == #[trigger] minmax_text("min"@, args[0], c)
    &&& f is Max ==> exists|c: Seq<char>| (pure_code(args[0], before.enum_defs) matches Some(p) ==> c == p)
        && r == #[trigger] minmax_text("max"@, args[0], c)
    &&& (f is Sum && args.len() == 1) ==> exists|c: Seq<char>|
        (pure_code(args[0], before.enum_defs) matches Some(p) ==> c == p) && r == #[trigger] sum_text(args, c)
    &&& (f is Sum && args.len() > 1) ==> exists|codes: Seq<Seq<char>>| codes.len() == args.len()
        && (all_pure(args, before.enum_defs) ==> forall|k: int| 0 <= k < codes.len()
            ==> #[trigger] codes[k] == pure_code(args[k], before.enum_defs).unwrap())
        && r == sum_text(args, "&[_]usize{"@ + #[trigger] join_seq(codes, ", "@) + "}"@)
}

/// A built-in written by wrapping its argument's code has the shape
/// `builtin_shape` states.
proof fn lemma_wrapped_builtin(f: BuiltInFunction, args: Seq<Expr>, before: TranspileContext, r: Seq<char>, c: Seq<char>)
    requires
        builtin_wrap(f) is Some,
        pure_code(args[0], before.enum_defs) matches Some(p) ==> c == p,
        r == builtin_wrap(f)->Some_0.0 + wrapped(c, builtin_wrap(f)->Some_0.1),
    ensures
        builtin_shape(f, args, before, r),
{
}

/// A code followed by a text.
pub open spec fn wrapped(c: Seq<char>, post: Seq<char>) -> Seq<char> {
    c + post
}

/// The code of a range from the code `a` up to the code `b`.
pub open spec fn range_text(a: Seq<char>, b: Seq<char>) -> Seq<char> {
    a + ".."@ + b
}

/// The code of a call of a built-in function.
/// The texts a wrapped built-in puts around its argument's code.
fn wrap_texts(f: BuiltInFunction) -> (r: (&'static str, &'static str))
    requires
        builtin_wrap(f) is Some,
    ensures
        r.0@ == builtin_wrap(f)->Some_0.0,
        r.1@ == builtin_wrap(f)->Some_0.1,
{
    match f {
        BuiltInFunction::ConvertString => ("try convert_string(allocator, ", ",false)"),
        BuiltInFunction::Number => ("try std.fmt.parseInt(isize, ", ", 10)"),
        BuiltInFunction::Sqrt => ("@sqrt(", ".0)"),
        BuiltInFunction::Round => ("@round(", ")"),
        BuiltInFunction::Floor => ("@floor(", ")"),
        BuiltInFunction::Ceil => ("@ceil(", ")"),
        BuiltInFunction::Mod => ("@abs(", ")"),
        BuiltInFunction::StrLower => ("try str_lowercase(allocator, ", ",false)"),
        BuiltInFunction::StrUpper => ("try str_uppercase(allocator, ", ",false)"),
        BuiltInFunction::StrReverse => ("try str_reverse(allocator, ", ",false)"),
        BuiltInFunction::Input => (
            "(blk: {\n                    var buf_temp: [100]u8 = undefined;\n                    break :blk try input(",
            ", &buf_temp);\n                })",
        ),
        _ => {
            proof {
                reveal_strlit("");
            }
            ("", "")
        },
    }
}

/// The code of a built-in call written by wrapping its argument's code;
/// the text functions mark the allocator used and `input` its helper.
fn wrapped_builtin_code(function: BuiltInFunction, args: &Vec<Expr>, ctx: &mut TranspileContext) -> (r: String)
    requires
        old(ctx).wf(),
        builtin_wrap(function) is Some,
        args@.len() >= 1,
        ready(args@[0]),
    ensures
        final(ctx).wf(),
        ctx_grows(*old(ctx), *final(ctx)),
        builtin_shape(function, args@, *old(ctx), r@),
    decreases args, 2int,
{
    match function {
        BuiltInFunction::StrLower | BuiltInFunction::StrUpper | BuiltInFunction::StrReverse => {
            ctx.is_used_allocator = true;
        },
        BuiltInFunction::Input => {
            ctx.used_input_fn = true;
        },
        _ => {},
    }
    proof {
        assert(decreases_to!(args => args@[0]));
    }
    let code = transpile_expr(&args[0], ctx);
    let (pre, post) = wrap_texts(function);
    let out = wrap_code(pre, code.as_str(), post);
    proof {
        assert(out@ =~= pre@ + wrapped(code@, post@));
        lemma_wrapped_builtin(function, args@, *old(ctx), out@, code@);
    }
    out
}

/// The code of a call of a built-in function.
#[verifier::rlimit(30)]
fn transpile_builtin(function: BuiltInFunction, args: &Vec<Expr>, ctx: &mut TranspileContext) -> (r: String)
    requires
        old(ctx).wf(),
        ready(Expr::BuiltInCall { function, args: *args, return_type: Type::Any }),
    ensures
        final(ctx).wf(),
        ctx_grows(*old(ctx), *final(ctx)),
        builtin_shape(function, args@, *old(ctx), r@),
    decreases args, 3int,
{
    proof {
        lemma_ready_upto(args@, args@.len() as int);
        if args@.len() > 0 {
            assert(decreases_to!(args => args@[0]));
        }
        if args@.len() > 1 {
            assert(decreases_to!(args => args@[1]));
        }
    }
    if wrap_kind(function) {
        return wrapped_builtin_code(function, args, ctx);
    }
    match function {
        BuiltInFunction::Print => {
            let out = transpile_print(&args[0], ctx);
            assert(builtin_shape(function, args@, *old(ctx), out@));
            out
        },
        BuiltInFunction::Max => {
            let out = transpile_max(args, ctx);
            assert(builtin_shape(function, args@, *old(ctx), out@));
            out
        },
        BuiltInFunction::Min => {
            let out = transpile_min(args, ctx);
            assert(builtin_shape(function, args@, *old(ctx), out@));
            out
        },
        BuiltInFunction::Sum => {
            let out = transpile_sum(args, ctx);
            assert(builtin_shape(function, args@, *old(ctx), out@));
            out
        },
        BuiltInFunction::Range => {
            let start_code = transpile_expr(&args[0], ctx);
            let end_code = transpile_expr(&args[1], ctx);
            let mut out = wrap_code("", start_code.as_str(), "..");
            push_str(&mut out, end_code.as_str());
            proof {
                reveal_strlit("");
            }
            assert(out@ =~= range_text(start_code@, end_code@));
            assert(builtin_shape(function, args@, *old(ctx), out@));
            out
        },
        BuiltInFunction::Timer => {
            let out = String::from_str("@intCast(std.time.milliTimestamp())");
            assert(builtin_shape(function, args@, *old(ctx), out@));
            out
        },
        BuiltInFunction::LastWord => {
            let print_code = transpile_print(&args[0], ctx);
            let out = wrap_code("", print_code.as_str(), ";\n    std.process.exit(0)");
            proof {
                reveal_strlit("");
            }
            assert(out@ =~= wrapped(print_code@, ";\n    std.process.exit(0)"@));
            assert(builtin_shape(function, args@, *old(ctx), out@));
            out
        },
        _ => {
            proof {
                assert(false);
            }
            String::new()
        },
    }
}

/// Whether a built-in is written by wrapping its argument's code.
fn wrap_kind(f: BuiltInFunction) -> (b: bool)
    ensures
        b == (builtin_wrap(f) is Some),
{
    match f {
        BuiltInFunction::ConvertString | BuiltInFunction::Number | BuiltInFunction::Sqrt | BuiltInFunction::Round
        | BuiltInFunction::Floor | BuiltInFunction::Ceil | BuiltInFunction::Mod | BuiltInFunction::Zig
        | BuiltInFunction::StrLower | BuiltInFunction::StrUpper | BuiltInFunction::StrReverse
        | BuiltInFunction::Input => true,
        _ => false,
    }
}

/// `code` between `before` and `after`.
pub fn wrap_code(before: &str, code: &str, after: &str) -> (r: String)
    ensures
        r@ == before@ + code@ + after@,
{
    let mut out = to_owned_string(before);
    push_str(&mut out, code);
    push_str(&mut out, after);
    out
}

} // verus!
