//! The type of an expression as the validator infers it, and the generated
//! names of source names.
use vstd::prelude::*;
use crate::parser::ast::{Expr, Type, TypeV, clone_type};
use crate::text::{str_eq, string_push};
use crate::validator::ValidatorContext;

verus! {

/// Whether an operator compares or combines truth values.
pub open spec fn is_bool_op(op: Seq<char>) -> bool {
    op == "=="@ || op == "!="@ || op == "<"@ || op == "<="@ || op == ">"@ || op == ">="@
        || op == "&&"@ || op == "||"@
}

/// Whether an operator is arithmetic.
pub open spec fn is_arith_op(op: Seq<char>) -> bool {
    op == "+"@ || op == "-"@ || op == "*"@ || op == "/"@ || op == "%"@
}

/// The inferred type of `e` (`Ok(None)`: no type can be inferred), or
/// `Err(name)` where a variable `name` is met that is neither declared nor
/// a variant of the expected enum `typ` nor annotated with a symbol.
pub open spec fn type_outcome(e: Expr, ctx: ValidatorContext, typ: Option<Type>)
    -> Result<Option<TypeV>, Seq<char>>
    decreases e, 0int,
{
    match e {
        Expr::Number(_) => Ok(Some(TypeV::Natural)),
        Expr::UnaryOp { op, expr } => match type_outcome(*expr, ctx, typ) {
            Err(n) => Err(n),
            Ok(None) => Ok(None),
            Ok(Some(_)) => if op@ == "-"@ {
                Ok(Some(TypeV::Integer))
            } else if op@ == "!"@ {
                Ok(Some(TypeV::Bool))
            } else {
                Ok(None)
            },
        },
        Expr::Bool(_) => Ok(Some(TypeV::Bool)),
        Expr::Float(_) => Ok(Some(TypeV::Float)),
        Expr::String(_, _) => Ok(Some(TypeV::String)),
        Expr::List(items) => if items@.len() > 0 {
            match type_outcome(items@[0], ctx, typ) {
                Err(n) => Err(n),
                Ok(None) => Ok(None),
                Ok(Some(first)) => list_outcome(items@, 1, first, ctx, typ),
            }
        } else {
            Ok(Some(TypeV::Any))
        },
        Expr::Index { target_type, .. } => Ok(Some(target_type@)),
        Expr::VariableRef { name, symbol, .. } => match ctx.lookup(name@) {
            Some(s) => Ok(Some(s.typ@)),
            None => if is_enum_variant_of(ctx, typ, name@) {
                Ok(Some(typ.unwrap()@))
            } else {
                match symbol {
                    Some(s) => Ok(Some(s.typ@)),
                    None => Err(name@),
                }
            },
        },
        Expr::StructInit { name, .. } =>
            if ctx.struct_defs.has(name@) || ctx.union_defs.has(name@) {
                Ok(Some(TypeV::User(name@, name@)))
            } else {
                Ok(None)
            },
        Expr::BuiltInCall { return_type, .. } => Ok(Some(return_type@)),
        Expr::Call { returned_type, .. } => match returned_type {
            Some(t) => Ok(Some(t@)),
            None => Ok(None),
        },
        Expr::BinaryOp { left, op, right } => match type_outcome(*left, ctx, typ) {
            Err(n) => Err(n),
            Ok(None) => Ok(None),
            Ok(Some(lt)) => match type_outcome(*right, ctx, typ) {
                Err(n) => Err(n),
                Ok(None) => Ok(None),
                Ok(Some(rt)) => if lt != rt {
                    Ok(None)
                } else if is_bool_op(op@) {
                    Ok(Some(TypeV::Bool))
                } else if is_arith_op(op@) {
                    Ok(Some(lt))
                } else {
                    Ok(None)
                },
            },
        },
        _ => Ok(None),
    }
}

/// The operators of the language are different texts.
proof fn lemma_operators_differ()
    ensures
        forall|i: int, j: int| 0 <= i < j < 13 ==> #[trigger] operator_text(i) != #[trigger] operator_text(j),
{
    reveal_strlit("==");
    reveal_strlit("!=");
    reveal_strlit("<");
    reveal_strlit("<=");
    reveal_strlit(">");
    reveal_strlit(">=");
    reveal_strlit("&&");
    reveal_strlit("||");
    reveal_strlit("+");
    reveal_strlit("-");
    reveal_strlit("*");
    reveal_strlit("/");
    reveal_strlit("%");
    assert forall|i: int, j: int| 0 <= i < j < 13 implies #[trigger] operator_text(i) != #[trigger] operator_text(j) by {
        let a = operator_text(i);
        let b = operator_text(j);
        if a.len() == b.len() {
            assert(a[0] != b[0] || a[a.len() - 1] != b[b.len() - 1]);
        }
    }
}

/// The operator texts of the language, by number: comparisons, logic,
/// then arithmetic.
spec fn operator_text(i: int) -> Seq<char> {
    if i == 0 { "=="@ } else if i == 1 { "!="@ } else if i == 2 { "<"@ } else if i == 3 { "<="@ }
    else if i == 4 { ">"@ } else if i == 5 { ">="@ } else if i == 6 { "&&"@ } else if i == 7 { "||"@ }
    else if i == 8 { "+"@ } else if i == 9 { "-"@ } else if i == 10 { "*"@ } else if i == 11 { "/"@ }
    else { "%"@ }
}

/// The inferred type of a binary operation on two operands of the same
/// type `t`: a comparison (`==`, `!=`, `<`, `<=`, `>`, `>=`) or a logic
/// operation (`&&`, `||`) is a truth value; an arithmetic operation (`+`,
/// `-`, `*`, `/`, `%`) has the operands' type; any other operator gives no
/// type. Operands of different types give no type.
pub proof fn lemma_binary_operation_type(left: Expr, op: String, right: Expr, ctx: ValidatorContext,
    typ: Option<Type>, t: TypeV, u: TypeV)
    requires
        type_outcome(left, ctx, typ) == Ok::<Option<TypeV>, Seq<char>>(Some(t)),
        type_outcome(right, ctx, typ) == Ok::<Option<TypeV>, Seq<char>>(Some(u)),
    ensures
        t == u && (op@ == "=="@ || op@ == "!="@ || op@ == "<"@ || op@ == "<="@ || op@ == ">"@ || op@ == ">="@
            || op@ == "&&"@ || op@ == "||"@)
            ==> type_outcome(Expr::BinaryOp { left: Box::new(left), op, right: Box::new(right) }, ctx, typ)
                == Ok::<Option<TypeV>, Seq<char>>(Some(TypeV::Bool)),
        t == u && (op@ == "+"@ || op@ == "-"@ || op@ == "*"@ || op@ == "/"@ || op@ == "%"@)
            ==> type_outcome(Expr::BinaryOp { left: Box::new(left), op, right: Box::new(right) }, ctx, typ)
                == Ok::<Option<TypeV>, Seq<char>>(Some(t)),
        t == u && !(op@ == "=="@ || op@ == "!="@ || op@ == "<"@ || op@ == "<="@ || op@ == ">"@ || op@ == ">="@
            || op@ == "&&"@ || op@ == "||"@ || op@ == "+"@ || op@ == "-"@ || op@ == "*"@ || op@ == "/"@ || op@ == "%"@)
            ==> type_outcome(Expr::BinaryOp { left: Box::new(left), op, right: Box::new(right) }, ctx, typ)
                == Ok::<Option<TypeV>, Seq<char>>(None),
        t != u ==> type_outcome(Expr::BinaryOp { left: Box::new(left), op, right: Box::new(right) }, ctx, typ)
            == Ok::<Option<TypeV>, Seq<char>>(None),
{
    lemma_operators_differ();
    assert(operator_text(0) == "=="@ && operator_text(1) == "!="@ && operator_text(2) == "<"@
        && operator_text(3) == "<="@ && operator_text(4) == ">"@ && operator_text(5) == ">="@
        && operator_text(6) == "&&"@ && operator_text(7) == "||"@ && operator_text(8) == "+"@
        && operator_text(9) == "-"@ && operator_text(10) == "*"@ && operator_text(11) == "/"@
        && operator_text(12) == "%"@);
}

/// The inferred type of a list: a list with no element is a list of
/// anything; a list whose elements all have the type `t` is a list of
/// `t`; a list where a later element has another type than the first one
/// (the elements before it having the first one's type) is a list of
/// anything.
pub proof fn lemma_list_type(v: Vec<Expr>, ctx: ValidatorContext, typ: Option<Type>, t: TypeV, j: int, u: TypeV)
    requires
        forall|k: int| 0 <= k < v@.len() && (k < j || !(0 <= j < v@.len()))
            ==> type_outcome(#[trigger] v@[k], ctx, typ) == Ok::<Option<TypeV>, Seq<char>>(Some(t)),
        0 <= j < v@.len() ==> type_outcome(v@[j], ctx, typ) == Ok::<Option<TypeV>, Seq<char>>(Some(u)),
    ensures
        v@.len() == 0 ==> type_outcome(Expr::List(v), ctx, typ) == Ok::<Option<TypeV>, Seq<char>>(Some(TypeV::Any)),
        v@.len() > 0 && !(0 <= j < v@.len()) ==> type_outcome(Expr::List(v), ctx, typ)
            == Ok::<Option<TypeV>, Seq<char>>(Some(TypeV::Array(Box::new(t)))),
        0 < j < v@.len() && u != t ==> type_outcome(Expr::List(v), ctx, typ)
            == Ok::<Option<TypeV>, Seq<char>>(Some(TypeV::Array(Box::new(TypeV::Any)))),
{
    let items = v@;
    if items.len() > 0 && !(0 <= j < items.len()) {
        assert(type_outcome(items[0], ctx, typ) == Ok::<Option<TypeV>, Seq<char>>(Some(t)));
        lemma_list_outcome_same(items, 1, t, ctx, typ);
    }
    if 0 < j < items.len() && u != t {
        assert(type_outcome(items[0], ctx, typ) == Ok::<Option<TypeV>, Seq<char>>(Some(t)));
        lemma_list_outcome_differs(items, 1, t, ctx, typ, j, u);
    }
}

/// Elements of the first one's type leave the list a list of that type.
proof fn lemma_list_outcome_same(items: Seq<Expr>, i: int, t: TypeV, ctx: ValidatorContext, typ: Option<Type>)
    requires
        1 <= i <= items.len(),
        forall|k: int| i <= k < items.len() ==> type_outcome(#[trigger] items[k], ctx, typ)
            == Ok::<Option<TypeV>, Seq<char>>(Some(t)),
    ensures
        list_outcome(items, i, t, ctx, typ) == Ok::<Option<TypeV>, Seq<char>>(Some(TypeV::Array(Box::new(t)))),
    decreases items.len() - i,
{
    if i < items.len() {
        lemma_list_outcome_same(items, i + 1, t, ctx, typ);
    }
}

/// An element of another type than the first one's makes the list a list
/// of anything.
proof fn lemma_list_outcome_differs(items: Seq<Expr>, i: int, t: TypeV, ctx: ValidatorContext, typ: Option<Type>,
    j: int, u: TypeV)
    requires
        1 <= i <= j < items.len(),
        forall|k: int| i <= k < j ==> type_outcome(#[trigger] items[k], ctx, typ)
            == Ok::<Option<TypeV>, Seq<char>>(Some(t)),
        type_outcome(items[j], ctx, typ) == Ok::<Option<TypeV>, Seq<char>>(Some(u)),
        u != t,
    ensures
        list_outcome(items, i, t, ctx, typ) == Ok::<Option<TypeV>, Seq<char>>(Some(TypeV::Array(Box::new(TypeV::Any)))),
    decreases j - i,
{
    if i < j {
        lemma_list_outcome_differs(items, i + 1, t, ctx, typ, j, u);
    }
}

/// The inferred types of literals and unary operations: a whole number is
/// natural, a truth value, a decimal and a text have their own types; a
/// negation of a typed operand is an integer, a logical not a truth value.
pub proof fn lemma_literal_and_unary_types(n: i64, b: bool, f: crate::lexer::FloatLit, s: String, q: bool,
    op: String, inner: Expr, ctx: ValidatorContext, typ: Option<Type>, t: TypeV)
    requires
        type_outcome(inner, ctx, typ) == Ok::<Option<TypeV>, Seq<char>>(Some(t)),
    ensures
        type_outcome(Expr::Number(n), ctx, typ) == Ok::<Option<TypeV>, Seq<char>>(Some(TypeV::Natural)),
        type_outcome(Expr::Bool(b), ctx, typ) == Ok::<Option<TypeV>, Seq<char>>(Some(TypeV::Bool)),
        type_outcome(Expr::Float(f), ctx, typ) == Ok::<Option<TypeV>, Seq<char>>(Some(TypeV::Float)),
        type_outcome(Expr::String(s, q), ctx, typ) == Ok::<Option<TypeV>, Seq<char>>(Some(TypeV::String)),
        op@ == "-"@ ==> type_outcome(Expr::UnaryOp { op, expr: Box::new(inner) }, ctx, typ)
            == Ok::<Option<TypeV>, Seq<char>>(Some(TypeV::Integer)),
        op@ == "!"@ ==> type_outcome(Expr::UnaryOp { op, expr: Box::new(inner) }, ctx, typ)
            == Ok::<Option<TypeV>, Seq<char>>(Some(TypeV::Bool)),
{
    reveal_strlit("-");
    reveal_strlit("!");
    assert("-"@ != "!"@) by { assert("-"@[0] != "!"@[0]); }
}

/// The type of a list whose first element has type `first`, looking at the
/// elements from position `i` on: a list of `Any` once one differs.
pub open spec fn list_outcome(items: Seq<Expr>, i: int, first: TypeV, ctx: ValidatorContext, typ: Option<Type>)
    -> Result<Option<TypeV>, Seq<char>>
    decreases items, items.len() - i,
{
    if i < 0 || i >= items.len() {
        Ok(Some(TypeV::Array(Box::new(first))))
    } else {
        match type_outcome(items[i], ctx, typ) {
            Err(n) => Err(n),
            Ok(None) => Ok(None),
            Ok(Some(t)) => if t != first {
                Ok(Some(TypeV::Array(Box::new(TypeV::Any))))
            } else {
                list_outcome(items, i + 1, first, ctx, typ)
            },
        }
    }
}

/// Whether `name` is a variant of the enum that the expected type `typ` names.
pub open spec fn is_enum_variant_of(ctx: ValidatorContext, typ: Option<Type>, name: Seq<char>) -> bool {
    match typ {
        Some(Type::User(enum_name, _)) => ctx.enum_defs.has(enum_name@)
            && ctx.enum_defs.get_spec(enum_name@)@.map_values(|v: String| v@).contains(name),
        _ => false,
    }
}


/// Whether one of `names` reads `name`.
pub fn contains_name(names: &Vec<String>, name: &str) -> (b: bool)
    ensures
        b == names@.map_values(|v: String| v@).contains(name@),
{
    let mut i: usize = 0;
    while i < names.len()
        invariant
            i <= names@.len(),
            forall|j: int| 0 <= j < i ==> names@[j]@ != name@,
        decreases names@.len() - i,
    {
        if str_eq(names[i].as_str(), name) {
            assert(names@.map_values(|v: String| v@)[i as int] == name@);
            return true;
        }
        i = i + 1;
    }
    proof {
        if names@.map_values(|v: String| v@).contains(name@) {
            let m = names@.map_values(|v: String| v@);
            let k = choose|k: int| 0 <= k < m.len() && #[trigger] m[k] == name@;
            assert(names@[k]@ == name@);
        }
    }
    false
}

fn enum_variant_of(ctx: &ValidatorContext, typ: Option<&Type>, name: &str) -> (b: bool)
    requires
        ctx.wf(),
    ensures
        b == is_enum_variant_of(*ctx, match typ { Some(t) => Some(*t), None => None }, name@),
{
    match typ {
        Some(Type::User(enum_name, _)) => match ctx.enum_defs.get(enum_name.as_str()) {
            Some(variants) => contains_name(variants, name),
            None => false,
        },
        _ => false,
    }
}

fn is_bool_op_exec(op: &str) -> (b: bool)
    ensures
        b == is_bool_op(op@),
{
    str_eq(op, "==") || str_eq(op, "!=") || str_eq(op, "<") || str_eq(op, "<=") || str_eq(op, ">")
        || str_eq(op, ">=") || str_eq(op, "&&") || str_eq(op, "||")
}

fn is_arith_op_exec(op: &str) -> (b: bool)
    ensures
        b == is_arith_op(op@),
{
    str_eq(op, "+") || str_eq(op, "-") || str_eq(op, "*") || str_eq(op, "/") || str_eq(op, "%")
}

/// The view of an optional type.
pub open spec fn opt_type_view(t: Option<Type>) -> Option<TypeV> {
    match t {
        Some(x) => Some(x@),
        None => None,
    }
}

/// The inferred type of `value`, or the name of a variable met that has no
/// known type (no type can be inferred then).
pub fn get_type_checked(value: &Expr, ctx: &ValidatorContext, typ: Option<&Type>)
    -> (r: Result<Option<Type>, String>)
    requires
        ctx.wf(),
    ensures
        match r {
            Ok(t) => type_outcome(*value, *ctx, match typ { Some(t) => Some(*t), None => None })
                == Ok::<Option<TypeV>, Seq<char>>(opt_type_view(t)),
            Err(n) => type_outcome(*value, *ctx, match typ { Some(t) => Some(*t), None => None })
                == Err::<Option<TypeV>, Seq<char>>(n@),
        },
    decreases value, 0int,
{
    let ghost typv = match typ { Some(t) => Some(*t), None => None::<Type> };
    match value {
        Expr::Number(_) => Ok(Some(Type::Natural)),
        Expr::UnaryOp { op, expr } => {
            match get_type_checked(expr, ctx, typ)? {
                None => Ok(None),
                Some(_) => {
                    if str_eq(op.as_str(), "-") {
                        Ok(Some(Type::Integer))
                    } else if str_eq(op.as_str(), "!") {
                        Ok(Some(Type::Bool))
                    } else {
                        Ok(None)
                    }
                },
            }
        },
        Expr::Bool(_) => Ok(Some(Type::Bool)),
        Expr::Float(_) => Ok(Some(Type::Float)),
        Expr::String(_, _) => Ok(Some(Type::String)),
        Expr::List(items) => {
            if items.len() > 0 {
                let item_type = match get_type_checked(&items[0], ctx, typ)? {
                    Some(t) => t,
                    None => return Ok(None),
                };
                let mut i: usize = 1;
                while i < items.len()
                    invariant
                        ctx.wf(),
                        1 <= i <= items@.len(),
                        type_outcome(*value, *ctx, typv) == list_outcome(items@, i as int, item_type@, *ctx, typv),
                        value == Expr::List(*items),
                        typv == match typ { Some(t) => Some(*t), None => None::<Type> },
                    decreases items@.len() - i,
                {
                    proof {
                        assert(decreases_to!(*value => items@[i as int]));
                    }
                    let t = match get_type_checked(&items[i], ctx, typ)? {
                        Some(t) => t,
                        None => return Ok(None),
                    };
                    if !crate::parser::ast::type_eq(&t, &item_type) {
                        proof { reveal_with_fuel(crate::parser::ast::type_view, 2); }
                        return Ok(Some(Type::Array(Box::new(Type::Any))));
                    }
                    i = i + 1;
                }
                Ok(Some(Type::Array(Box::new(item_type))))
            } else {
                Ok(Some(Type::Any))
            }
        },
        Expr::Index { target_type, .. } => Ok(Some(clone_type(target_type))),
        Expr::VariableRef { name, symbol, .. } => {
            if let Some(s) = ctx.lookup_variable(name.as_str()) {
                return Ok(Some(s.typ));
            }
            if enum_variant_of(ctx, typ, name.as_str()) {
                return Ok(Some(clone_type(typ.unwrap())));
            }
            match symbol {
                Some(s) => Ok(Some(clone_type(&s.typ))),
                None => Err(name.clone()),
            }
        },
        Expr::StructInit { name, .. } => {
            if ctx.struct_defs.contains_key(name.as_str()) || ctx.union_defs.contains_key(name.as_str()) {
                Ok(Some(Type::User(name.clone(), name.clone())))
            } else {
                Ok(None)
            }
        },
        Expr::BuiltInCall { return_type, .. } => Ok(Some(clone_type(return_type))),
        Expr::Call { returned_type, .. } => match returned_type {
            Some(t) => Ok(Some(clone_type(t))),
            None => Ok(None),
        },
        Expr::BinaryOp { left, op, right } => {
            let left_type = match get_type_checked(left, ctx, typ)? {
                Some(t) => t,
                None => return Ok(None),
            };
            let right_type = match get_type_checked(right, ctx, typ)? {
                Some(t) => t,
                None => return Ok(None),
            };
            if !crate::parser::ast::type_eq(&left_type, &right_type) {
                return Ok(None);
            }
            if is_bool_op_exec(op.as_str()) {
                return Ok(Some(Type::Bool));
            }
            if is_arith_op_exec(op.as_str()) {
                return Ok(Some(left_type));
            }
            Ok(None)
        },
        _ => Ok(None),
    }
}

/// The inferred type of `value` (`get_type`), for an expression whose
/// variables all have a known type.
pub fn get_type(value: &Expr, ctx: &ValidatorContext, typ: Option<&Type>) -> (r: Option<Type>)
    requires
        ctx.wf(),
        type_outcome(*value, *ctx, match typ { Some(t) => Some(*t), None => None }) is Ok,
    ensures
        type_outcome(*value, *ctx, match typ { Some(t) => Some(*t), None => None })
            == Ok::<Option<TypeV>, Seq<char>>(opt_type_view(r)),
{
    match get_type_checked(value, ctx, typ) {
        Ok(t) => t,
        Err(_) => None,
    }
}


/// The ASCII letter an Azerbaijani letter is written as in generated names;
/// other characters stay.
pub open spec fn az_fold(c: char) -> char {
    if c == 'ə' { 'e' }
    else if c == 'Ə' { 'E' }
    else if c == 'ı' { 'i' }
    else if c == 'İ' { 'I' }
    else if c == 'ö' { 'o' }
    else if c == 'Ö' { 'O' }
    else if c == 'ü' { 'u' }
    else if c == 'Ü' { 'U' }
    else if c == 'ş' { 's' }
    else if c == 'Ş' { 'S' }
    else if c == 'ç' { 'c' }
    else if c == 'Ç' { 'C' }
    else if c == 'ğ' { 'g' }
    else if c == 'Ğ' { 'G' }
    else { c }
}

fn az_fold_exec(c: char) -> (r: char)
    ensures
        r == az_fold(c),
{
    if c == 'ə' { 'e' }
    else if c == 'Ə' { 'E' }
    else if c == 'ı' { 'i' }
    else if c == 'İ' { 'I' }
    else if c == 'ö' { 'o' }
    else if c == 'Ö' { 'O' }
    else if c == 'ü' { 'u' }
    else if c == 'Ü' { 'U' }
    else if c == 'ş' { 's' }
    else if c == 'Ş' { 'S' }
    else if c == 'ç' { 'c' }
    else if c == 'Ç' { 'C' }
    else if c == 'ğ' { 'g' }
    else if c == 'Ğ' { 'G' }
    else { c }
}

/// A name with each Azerbaijani letter folded to its ASCII base letter.
pub open spec fn fold_name(name: Seq<char>) -> Seq<char> {
    name.map_values(|c: char| az_fold(c))
}

/// Folding a folded name changes nothing: generated names are already
/// plain ASCII where the source had Azerbaijani letters.
pub proof fn lemma_fold_name_idempotent(name: Seq<char>)
    ensures
        fold_name(fold_name(name)) == fold_name(name),
{
    assert forall|i: int| 0 <= i < name.len() implies
        #[trigger] az_fold(az_fold(name[i])) == az_fold(name[i]) by {}
    assert(fold_name(fold_name(name)) =~= fold_name(name));
}

/// The name a source name gets in generated code (`transpile_az_chars`):
/// each Azerbaijani letter replaced by its plain ASCII letter.
pub fn transpile_az_chars(name: &str) -> (r: String)
    ensures
        r@ == fold_name(name@),
{
    let n = name.unicode_len();
    let mut out = String::new();
    let mut i: usize = 0;
    while i < n
        invariant
            n == name@.len(),
            i <= n,
            out@ == name@.subrange(0, i as int).map_values(|c: char| az_fold(c)),
        decreases n - i,
    {
        let c = name.get_char(i);
        string_push(&mut out, az_fold_exec(c));
        i = i + 1;
        assert(out@ =~= name@.subrange(0, i as int).map_values(|c: char| az_fold(c)));
    }
    assert(name@.subrange(0, n as int) =~= name@);
    out
}

} // verus!
