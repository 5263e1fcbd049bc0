//! The value of an expression in the running program.
use vstd::prelude::*;
use crate::lexer::FloatLit;
use crate::parser::ast::{BuiltInFunction, Expr, clone_expr, is_leaf, struct_copy, without_lists};
use crate::runner::{RunError, Runner, Variable};
use crate::runner::values::{
    ceil_decimal, ceil_dec, char_to_string, floor_decimal, floor_dec, is_isqrt, isqrt_u64, lowercase,
    parse_i64, parse_i64_spec, round_decimal, round_dec, to_lowercase, to_uppercase, trim_text, uppercase,
    utf8_len, utf8_length, now_millis,
};
use crate::text::{decimal_text, decimal_to_string, i64_to_string, int_text, str_eq, trim_end_seq, trim_start_seq};

verus! {

/// How deep evaluations may reach into stored values and lists, and calls
/// into function bodies. Every verified function here terminates, which a
/// `decreases` measure shows; a variable that refers to itself (`x = x`),
/// or a function that calls itself, would otherwise have evaluation or
/// execution recurse without end until the stack overflows. Past this
/// depth the result is the `TooDeep` error in place of that crash; only a
/// chain of more than a thousand stored values, nested lists or calls
/// reaches it.
pub const MAX_DEPTH: usize = 1000;

/// The quotient of `a` by `b` rounded toward zero.
pub open spec fn trunc_div(a: int, b: int) -> int {
    let q = (if a < 0 { -a } else { a }) / (if b < 0 { -b } else { b });
    if (a < 0) != (b < 0) { -q } else { q }
}

/// A 64-bit result, or the overflow error when it does not fit.
pub open spec fn checked(v: int) -> Result<Expr, RunError> {
    if i64::MIN <= v <= i64::MAX { Ok(Expr::Number(v as i64)) } else { Err(RunError::Overflow) }
}

/// The value of a binary operation on two values: arithmetic and `==` on
/// numbers, the difference of two times in milliseconds, logic on truth
/// values, and `false` for anything else.
pub open spec fn binop_spec(l: Expr, op: Seq<char>, r: Expr) -> Result<Expr, RunError> {
    match (l, r) {
        (Expr::Number(a), Expr::Number(b)) =>
            if op == "+"@ {
                checked(a + b)
            } else if op == "-"@ {
                checked(a - b)
            } else if op == "*"@ {
                checked(a * b)
            } else if op == "/"@ {
                if b == 0 { Err(RunError::DivisionByZero) } else { checked(trunc_div(a as int, b as int)) }
            } else if op == "=="@ {
                Ok(Expr::Bool(a == b))
            } else {
                Ok(Expr::Bool(false))
            },
        (Expr::Time(a), Expr::Time(b)) =>
            if op == "-"@ {
                Ok(Expr::Number((if a >= b { (a - b) as u64 } else { 0u64 }) as i64))
            } else {
                Ok(Expr::Bool(false))
            },
        (Expr::Bool(a), Expr::Bool(b)) =>
            if op == "&&"@ {
                Ok(Expr::Bool(a && b))
            } else if op == "||"@ {
                Ok(Expr::Bool(a || b))
            } else if op == "=="@ {
                Ok(Expr::Bool(a == b))
            } else {
                Ok(Expr::Bool(false))
            },
        _ => Ok(Expr::Bool(false)),
    }
}

/// The value of a binary operation on two numbers.
fn number_binop(a: &i64, op: &str, b: &i64) -> (res: Result<Expr, RunError>)
    ensures
        res == binop_spec(Expr::Number(*a), op@, Expr::Number(*b)),
{
        if str_eq(op, "+") {
            match a.checked_add(*b) {
                Some(v) => Ok(Expr::Number(v)),
                None => Err(RunError::Overflow),
            }
        } else if str_eq(op, "-") {
            match a.checked_sub(*b) {
                Some(v) => Ok(Expr::Number(v)),
                None => Err(RunError::Overflow),
            }
        } else if str_eq(op, "*") {
            match a.checked_mul(*b) {
                Some(v) => Ok(Expr::Number(v)),
                None => Err(RunError::Overflow),
            }
        } else if str_eq(op, "/") {
            if *b == 0 {
                Err(RunError::DivisionByZero)
            } else if *a == i64::MIN && *b == -1 {
                assert(trunc_div(*a as int, *b as int) == 9223372036854775808int) by {
                    assert(9223372036854775808int / 1int == 9223372036854775808int);
                }
                Err(RunError::Overflow)
            } else {
                let ua: u64 = if *a < 0 { ((0i64 - (*a + 1)) as u64) + 1 } else { *a as u64 };
                let ub: u64 = if *b < 0 { ((0i64 - (*b + 1)) as u64) + 1 } else { *b as u64 };
                let uq: u64 = ua / ub;
                proof {
                    assert(uq as int == (if *a < 0 { -(*a as int) } else { *a as int }) / (if *b < 0 { -(*b as int) } else { *b as int }));
                    assert(uq <= ua) by (nonlinear_arith)
                        requires uq == ua / ub, ub >= 1;
                    if (*a < 0) == (*b < 0) && *a == i64::MIN {
                        assert(ub >= 2);
                        assert(uq <= ua / 2) by (nonlinear_arith)
                            requires uq == ua / ub, ub >= 2;
                    }
                }
                let q: i64 = if (*a < 0) != (*b < 0) { (0i128 - uq as i128) as i64 } else { uq as i64 };
                assert(q as int == trunc_div(*a as int, *b as int));
                assert(checked(trunc_div(*a as int, *b as int)) == Ok::<Expr, RunError>(Expr::Number(q)));
                Ok(Expr::Number(q))
            }
        } else if str_eq(op, "==") {
            Ok(Expr::Bool(*a == *b))
        } else {
            Ok(Expr::Bool(false))
        }
}

/// The value of a binary operation on two times.
fn time_binop(a: &u64, op: &str, b: &u64) -> (res: Result<Expr, RunError>)
    ensures
        res == binop_spec(Expr::Time(*a), op@, Expr::Time(*b)),
{
        if str_eq(op, "-") {
            let d: u64 = if *a >= *b { *a - *b } else { 0 };
            let n: i64 = #[verifier::truncate] (d as i64);
            assert(n == (if *a >= *b { (*a - *b) as u64 } else { 0u64 }) as i64);
            Ok(Expr::Number(n))
        } else {
            Ok(Expr::Bool(false))
        }
}

/// The value of a binary operation on two truth values.
fn bool_binop(a: &bool, op: &str, b: &bool) -> (res: Result<Expr, RunError>)
    ensures
        res == binop_spec(Expr::Bool(*a), op@, Expr::Bool(*b)),
{
        if str_eq(op, "&&") {
            Ok(Expr::Bool(*a && *b))
        } else if str_eq(op, "||") {
            Ok(Expr::Bool(*a || *b))
        } else if str_eq(op, "==") {
            Ok(Expr::Bool(*a == *b))
        } else {
            Ok(Expr::Bool(false))
        }
}

/// The value of a binary operation on two values.
pub fn apply_binary(l: &Expr, op: &str, r: &Expr) -> (res: Result<Expr, RunError>)
    ensures
        res == binop_spec(*l, op@, *r),
{
    match (l, r) {
        (Expr::Number(a), Expr::Number(b)) => number_binop(a, op, b),
        (Expr::Time(a), Expr::Time(b)) => time_binop(a, op, b),
        (Expr::Bool(a), Expr::Bool(b)) => bool_binop(a, op, b),
        _ => Ok(Expr::Bool(false)),
    }
}

/// A whole decimal.
pub open spec fn whole(v: int) -> Expr {
    Expr::Float(FloatLit { mantissa: v as i64, scale: 0 })
}

/// The value `ceil` (`up`) or `floor` gives for an evaluated argument that
/// is not a negation: a decimal rounded, a number as a decimal, and zero
/// otherwise.
pub open spec fn round_to_whole(up: bool, v: Expr) -> Expr {
    match v {
        Expr::Float(f) => whole(if up { ceil_dec(f.mantissa as int, f.scale as nat) }
            else { floor_dec(f.mantissa as int, f.scale as nat) }),
        Expr::Number(n) => whole(n as int),
        _ => whole(0),
    }
}

/// The value `ceil` or `floor` gives for an evaluated argument.
pub fn round_to_whole_value(up: bool, v: &Expr) -> (r: Expr)
    ensures
        r == round_to_whole(up, *v),
{
    match v {
        Expr::Float(f) => {
            let c = if up { ceil_decimal(f.mantissa, f.scale) } else { floor_decimal(f.mantissa, f.scale) };
            Expr::Float(FloatLit { mantissa: c, scale: 0 })
        },
        Expr::Number(n) => Expr::Float(FloatLit { mantissa: *n, scale: 0 }),
        _ => Expr::Float(FloatLit { mantissa: 0, scale: 0 }),
    }
}

/// The text of an evaluated value as `to_string` writes it, for the kinds
/// of value that have one.
pub open spec fn display_text(v: Expr) -> Option<Seq<char>> {
    match v {
        Expr::Number(n) => Some(int_text(n as int)),
        Expr::Float(f) => Some(decimal_text(f.mantissa as int, f.scale as nat)),
        Expr::Bool(b) => Some(if b { "true"@ } else { "false"@ }),
        Expr::Char(c) => Some(seq![c]),
        _ => None,
    }
}

/// The text a text-valued argument holds, if it is one.
pub open spec fn text_of(v: Expr) -> Option<Seq<char>> {
    match v {
        Expr::DynamicString(s) => Some(s@),
        Expr::String(s, _) => Some(s@),
        _ => None,
    }
}

/// The value of a built-in function of one argument applied to its
/// evaluated argument (the functions that need nothing else).
pub open spec fn unary_spec(f: BuiltInFunction, v: Expr) -> Result<Expr, RunError> {
    match f {
        BuiltInFunction::Mod => match v {
            Expr::Number(n) => if n < 0 { checked(-n) } else { Ok(Expr::Number(n)) },
            Expr::Float(x) => if x.mantissa < 0 {
                if x.mantissa == i64::MIN {
                    Err(RunError::Overflow)
                } else {
                    Ok(Expr::Float(FloatLit { mantissa: (-x.mantissa) as i64, scale: x.scale }))
                }
            } else {
                Ok(Expr::Float(x))
            },
            _ => Ok(Expr::Number(0)),
        },
        BuiltInFunction::Round => match v {
            Expr::Number(n) => Ok(Expr::Number(n)),
            Expr::Float(x) => Ok(Expr::Number(round_dec(x.mantissa as int, x.scale as nat) as i64)),
            _ => Ok(Expr::Number(0)),
        },
        BuiltInFunction::Sqrt => match v {
            Expr::Number(n) => if n < 0 { Err(RunError::NegativeSqrt) } else {
                Ok(Expr::Number(choose|r: i64| is_isqrt(n as int, r as int)))
            },
            Expr::Float(x) => if x.mantissa < 0 { Ok(Expr::Number(0)) } else {
                Ok(Expr::Number(choose|r: i64| is_isqrt(floor_dec(x.mantissa as int, x.scale as nat), r as int)))
            },
            _ => Ok(Expr::Number(0)),
        },
        BuiltInFunction::Number => match v {
            Expr::DynamicString(s) => Ok(Expr::Number(match parse_i64_spec(s@) { Some(n) => n, None => 0 })),
            _ => Ok(Expr::Number(0)),
        },
        _ => Ok(Expr::Number(0)),
    }
}

/// Integer square roots are unique.
proof fn lemma_isqrt_unique(n: int, a: int, b: int)
    requires
        is_isqrt(n, a),
        is_isqrt(n, b),
    ensures
        a == b,
{
    if a < b {
        assert((a + 1) * (a + 1) <= b * b) by (nonlinear_arith)
            requires 0 <= a, a + 1 <= b;
    } else if b < a {
        assert((b + 1) * (b + 1) <= a * a) by (nonlinear_arith)
            requires 0 <= b, b + 1 <= a;
    }
}

/// The value of a built-in function of one argument on its evaluated
/// argument (`Mod`, `Round`, `Sqrt`, `Number`).
pub fn apply_unary(f: BuiltInFunction, v: &Expr) -> (res: Result<Expr, RunError>)
    requires
        f is Mod || f is Round || f is Sqrt || f is Number,
    ensures
        res == unary_spec(f, *v),
{
    match f {
        BuiltInFunction::Mod => match v {
            Expr::Number(n) => {
                if *n < 0 {
                    if *n == i64::MIN { Err(RunError::Overflow) } else { Ok(Expr::Number(-*n)) }
                } else {
                    Ok(Expr::Number(*n))
                }
            },
            Expr::Float(x) => {
                if x.mantissa < 0 {
                    if x.mantissa == i64::MIN {
                        Err(RunError::Overflow)
                    } else {
                        Ok(Expr::Float(FloatLit { mantissa: -x.mantissa, scale: x.scale }))
                    }
                } else {
                    Ok(Expr::Float(*x))
                }
            },
            _ => Ok(Expr::Number(0)),
        },
        BuiltInFunction::Round => match v {
            Expr::Number(n) => Ok(Expr::Number(*n)),
            Expr::Float(x) => Ok(Expr::Number(round_decimal(x.mantissa, x.scale))),
            _ => Ok(Expr::Number(0)),
        },
        BuiltInFunction::Sqrt => match v {
            Expr::Number(n) => {
                if *n < 0 {
                    Err(RunError::NegativeSqrt)
                } else {
                    let r = isqrt_u64(*n as u64);
                    proof {
                        let c = choose|q: i64| is_isqrt(*n as int, q as int);
                        assert(is_isqrt(*n as int, r as int));
                        assert(r <= *n as u64) by (nonlinear_arith)
                            requires is_isqrt(*n as int, r as int), *n >= 0;
                        assert(is_isqrt(*n as int, (r as i64) as int));
                        lemma_isqrt_unique(*n as int, c as int, r as int);
                    }
                    Ok(Expr::Number(r as i64))
                }
            },
            Expr::Float(x) => {
                if x.mantissa < 0 {
                    Ok(Expr::Number(0))
                } else {
                    let fl = floor_decimal(x.mantissa, x.scale);
                    proof {
                        crate::runner::values::lemma_pow10_grows(0, x.scale as nat);
                        assert(fl >= 0) by (nonlinear_arith)
                            requires fl == floor_dec(x.mantissa as int, x.scale as nat), x.mantissa >= 0,
                                crate::runner::values::pow10(x.scale as nat) >= 1;
                    }
                    let r = isqrt_u64(fl as u64);
                    proof {
                        let c = choose|q: i64| is_isqrt(fl as int, q as int);
                        assert(r <= fl as u64) by (nonlinear_arith)
                            requires is_isqrt(fl as int, r as int), fl >= 0;
                        assert(is_isqrt(fl as int, (r as i64) as int));
                        lemma_isqrt_unique(fl as int, c as int, r as int);
                    }
                    Ok(Expr::Number(r as i64))
                }
            },
            _ => Ok(Expr::Number(0)),
        },
        BuiltInFunction::Number => match v {
            Expr::DynamicString(s) => {
                let n = match parse_i64(s.as_str()) {
                    Some(n) => n,
                    None => 0,
                };
                Ok(Expr::Number(n))
            },
            _ => Ok(Expr::Number(0)),
        },
        _ => {
            proof {
                assert(false);
            }
            Ok(Expr::Number(0))
        },
    }
}

/// The text a built-in text function gives for an evaluated argument:
/// `ConvertString` writes numbers, decimals, truth values and characters;
/// `StrLower`, `StrUpper` and `Trim` change a text; anything else gives
/// the empty text.
pub open spec fn text_fn_spec(f: BuiltInFunction, v: Expr) -> Seq<char> {
    match f {
        BuiltInFunction::ConvertString => match display_text(v) {
            Some(t) => t,
            None => Seq::empty(),
        },
        BuiltInFunction::StrLower => match text_of(v) {
            Some(t) => lowercase(t),
            None => Seq::empty(),
        },
        BuiltInFunction::StrUpper => match text_of(v) {
            Some(t) => uppercase(t),
            None => Seq::empty(),
        },
        BuiltInFunction::Trim => match text_of(v) {
            Some(t) => trim_end_seq(trim_start_seq(t)),
            None => Seq::empty(),
        },
        _ => Seq::empty(),
    }
}

/// The text a built-in text function gives for an evaluated argument.
pub fn apply_text_fn(f: BuiltInFunction, v: &Expr) -> (r: String)
    ensures
        r@ == text_fn_spec(f, *v),
{
    match f {
        BuiltInFunction::ConvertString => match v {
            Expr::Number(n) => i64_to_string(*n),
            Expr::Float(x) => decimal_to_string(x.mantissa, x.scale),
            Expr::Bool(b) => if *b { String::from_str("true") } else { String::from_str("false") },
            Expr::Char(c) => char_to_string(*c),
            _ => String::new(),
        },
        BuiltInFunction::StrLower => match v {
            Expr::DynamicString(s) => to_lowercase(s.as_str()),
            Expr::String(s, _) => to_lowercase(s.as_str()),
            _ => String::new(),
        },
        BuiltInFunction::StrUpper => match v {
            Expr::DynamicString(s) => to_uppercase(s.as_str()),
            Expr::String(s, _) => to_uppercase(s.as_str()),
            _ => String::new(),
        },
        BuiltInFunction::Trim => match v {
            Expr::DynamicString(s) => trim_text(s.as_str()),
            Expr::String(s, _) => trim_text(s.as_str()),
            _ => String::new(),
        },
        _ => String::new(),
    }
}

/// The value of `len` on an evaluated argument: the number of elements of a
/// list, the number of UTF-8 bytes of a literal text, zero otherwise.
pub open spec fn len_spec(v: Expr) -> Expr {
    match v {
        Expr::List(items) => Expr::Number(items@.len() as i64),
        Expr::String(s, _) => Expr::Number(utf8_len(s@) as i64),
        _ => Expr::Number(0),
    }
}

/// The value of `len` on an evaluated argument.
pub fn apply_len(v: &Expr) -> (r: Expr)
    ensures
        r == len_spec(*v),
{
    match v {
        Expr::List(items) => Expr::Number(#[verifier::truncate] (items.len() as i64)),
        Expr::String(s, _) => {
            let n = utf8_length(s.as_str());
            Expr::Number(#[verifier::truncate] (n as i64))
        },
        _ => Expr::Number(0),
    }
}

/// Whether every element is a literal.
pub open spec fn all_leaves(s: Seq<Expr>) -> bool {
    forall|i: int| 0 <= i < s.len() ==> is_leaf(#[trigger] s[i])
}

/// Whether every element is a number.
pub open spec fn all_numbers(s: Seq<Expr>) -> bool {
    forall|i: int| 0 <= i < s.len() ==> #[trigger] s[i] is Number
}

/// The value of a number, zero for anything else.
pub open spec fn number_value(e: Expr) -> int {
    match e {
        Expr::Number(n) => n as int,
        _ => 0,
    }
}

/// The sum of the first `n` numbers.
pub open spec fn total(s: Seq<Expr>, n: int) -> int
    decreases n,
{
    if n <= 0 { 0 } else { total(s, n - 1) + number_value(s[n - 1]) }
}

/// Whether every running sum of the first `n` numbers fits in 64 bits.
pub open spec fn running_totals_fit(s: Seq<Expr>, n: int) -> bool {
    forall|k: int| 1 <= k <= n ==> i64::MIN <= #[trigger] total(s, k) <= i64::MAX
}

/// What `sum` of several numbers gives: their sum, or the overflow error
/// when a running sum leaves the 64-bit range.
pub open spec fn sum_result(s: Seq<Expr>) -> Result<Expr, RunError> {
    if running_totals_fit(s, s.len() as int) {
        Ok(Expr::Number(total(s, s.len() as int) as i64))
    } else {
        Err(RunError::Overflow)
    }
}

/// The least (`is_min`) or greatest of the first `n` numbers, starting
/// from the largest or smallest 64-bit value.
pub open spec fn extreme(s: Seq<Expr>, n: int, is_min: bool) -> int
    decreases n,
{
    if n <= 0 {
        if is_min { i64::MAX as int } else { i64::MIN as int }
    } else {
        let b = extreme(s, n - 1, is_min);
        let x = number_value(s[n - 1]);
        if is_min { if x < b { x } else { b } } else { if x > b { x } else { b } }
    }
}

/// The numbers from `a` up to but not including `b`.
pub open spec fn range_seq(a: i64, b: i64) -> Seq<Expr> {
    Seq::new(if a < b { (b - a) as nat } else { 0 }, |k: int| Expr::Number((a + k) as i64))
}

/// What a built-in call gives where its arguments are literals or lists of
/// literals: `range` of two numbers lists the numbers between them, `sum`
/// of several numbers adds them and of one list counts its elements, and
/// `min` and `max` of a list of numbers pick the least or greatest
/// (where the list's elements may still be evaluated, `deep`).
pub open spec fn builtin_args_result(f: BuiltInFunction, args: Seq<Expr>, deep: bool,
    r: Result<Expr, RunError>) -> bool {
    match f {
        BuiltInFunction::Range => (args.len() >= 2 && args[0] is Number && args[1] is Number) ==>
            (r matches Ok(Expr::List(v)) && v@ == range_seq(args[0]->Number_0, args[1]->Number_0)),
        BuiltInFunction::Sum => {
            &&& (args.len() != 1 && all_numbers(args)) ==> r == sum_result(args)
            &&& (args.len() == 1 && args[0] is List && all_leaves(args[0]->List_0@))
                ==> r == Ok::<Expr, RunError>(Expr::Number(args[0]->List_0@.len() as i64))
        },
        BuiltInFunction::Min | BuiltInFunction::Max =>
            (deep && args.len() >= 1 && args[0] is List && all_numbers(args[0]->List_0@)) ==>
                r == Ok::<Expr, RunError>(Expr::Number(
                    extreme(args[0]->List_0@, args[0]->List_0@.len() as int, f is Min) as i64)),
        _ => true,
    }
}

/// What is known of an evaluated value.
pub enum Known {
    /// Exactly this expression.
    Exact(Expr),
    /// A text value holding these characters.
    Text(Seq<char>),
    /// A list whose elements are known so, in order.
    ListOf(Seq<Known>),
    /// Some time read from the clock.
    AnyTime,
    /// Some number (a difference of two times).
    AnyNumber,
    /// Some value.
    Anything,
}

/// Whether the value `v` is as `k` says.
pub open spec fn described(v: Expr, k: Known) -> bool
    decreases k, 1int, 0int,
{
    match k {
        Known::Exact(x) => v == x,
        Known::Text(t) => v matches Expr::DynamicString(s) && s@ == t,
        Known::ListOf(ks) => v matches Expr::List(items) && items@.len() == ks.len()
            && all_described(items@, ks, ks.len() as int),
        Known::AnyTime => v is Time,
        Known::AnyNumber => v is Number,
        Known::Anything => true,
    }
}

/// Whether each of the first `n` values is as the matching entry of `ks` says.
pub open spec fn all_described(items: Seq<Expr>, ks: Seq<Known>, n: int) -> bool
    decreases ks, 0int, n,
{
    if n <= 0 {
        true
    } else if n > ks.len() || n > items.len() {
        false
    } else {
        all_described(items, ks, n - 1) && described(items[n - 1], ks[n - 1])
    }
}

/// Whether the result `r` is as the outcome `o` says; `None` says nothing.
pub open spec fn outcome_holds(r: Result<Expr, RunError>, o: Option<Result<Known, RunError>>) -> bool {
    match o {
        None => true,
        Some(Err(x)) => r == Err::<Expr, RunError>(x),
        Some(Ok(k)) => r matches Ok(v) && described(v, k),
    }
}

/// An exact result.
pub open spec fn exact_outcome(r: Result<Expr, RunError>) -> Option<Result<Known, RunError>> {
    match r {
        Ok(x) => Some(Ok(Known::Exact(x))),
        Err(x) => Some(Err(x)),
    }
}

/// The kind of a known value: 1 a number, 2 a time, 3 a truth value, 0
/// anything else; `None` when unknown.
pub open spec fn kind_of(k: Known) -> Option<int> {
    match k {
        Known::Exact(x) => Some(if x is Number { 1int } else if x is Time { 2int } else if x is Bool { 3int } else { 0int }),
        Known::Text(_) | Known::ListOf(_) => Some(0int),
        Known::AnyTime => Some(2int),
        Known::AnyNumber => Some(1int),
        Known::Anything => None,
    }
}

/// What a binary operation gives on two known values.
pub open spec fn binop_known(l: Known, op: Seq<char>, r: Known) -> Option<Result<Known, RunError>> {
    match (l, r) {
        (Known::Exact(a), Known::Exact(b)) => exact_outcome(binop_spec(a, op, b)),
        _ => match (kind_of(l), kind_of(r)) {
            (Some(a), Some(b)) => if a != b || a == 0 {
                Some(Ok(Known::Exact(Expr::Bool(false))))
            } else if a == 2 {
                if op == "-"@ { Some(Ok(Known::AnyNumber)) } else { Some(Ok(Known::Exact(Expr::Bool(false)))) }
            } else {
                None
            },
            _ => None,
        },
    }
}

/// What `Mod`, `Round`, `Sqrt` or `Number` gives on a known value.
pub open spec fn unary_known(f: BuiltInFunction, k: Known) -> Option<Result<Known, RunError>> {
    match k {
        Known::Exact(x) => exact_outcome(unary_spec(f, x)),
        Known::Text(t) => Some(Ok(Known::Exact(Expr::Number(if f is Number {
            match parse_i64_spec(t) { Some(n) => n, None => 0 }
        } else { 0 })))),
        Known::ListOf(_) | Known::AnyTime => Some(Ok(Known::Exact(Expr::Number(0)))),
        _ => None,
    }
}

/// The text a built-in text function gives on a known value.
pub open spec fn text_known(f: BuiltInFunction, k: Known) -> Option<Seq<char>> {
    match k {
        Known::Exact(x) => Some(text_fn_spec(f, x)),
        Known::Text(t) => Some(match f {
            BuiltInFunction::StrLower => lowercase(t),
            BuiltInFunction::StrUpper => uppercase(t),
            BuiltInFunction::Trim => trim_end_seq(trim_start_seq(t)),
            _ => Seq::empty(),
        }),
        Known::ListOf(_) | Known::AnyTime => Some(Seq::empty()),
        Known::AnyNumber => if f is ConvertString { None } else { Some(Seq::empty()) },
        Known::Anything => None,
    }
}

/// What `len` gives on a known value.
pub open spec fn len_known(k: Known) -> Option<Result<Known, RunError>> {
    match k {
        Known::Exact(x) => Some(Ok(Known::Exact(len_spec(x)))),
        Known::ListOf(ks) => Some(Ok(Known::Exact(Expr::Number(ks.len() as i64)))),
        Known::Text(_) | Known::AnyTime | Known::AnyNumber => Some(Ok(Known::Exact(Expr::Number(0)))),
        Known::Anything => None,
    }
}

/// What `ceil` (`up`) or `floor` gives on a known value that is not read
/// through a negation.
pub open spec fn round_known(up: bool, k: Known) -> Option<Result<Known, RunError>> {
    match k {
        Known::Exact(x) => Some(Ok(Known::Exact(round_to_whole(up, x)))),
        Known::Text(_) | Known::ListOf(_) | Known::AnyTime => Some(Ok(Known::Exact(whole(0)))),
        _ => None,
    }
}

/// The known numbers from `a` up to but not including `b`.
pub open spec fn range_known(a: i64, b: i64) -> Seq<Known> {
    range_seq(a, b).map_values(|x: Expr| Known::Exact(x))
}

/// `o` followed by the known values `ks` in front of its list.
pub open spec fn after_prefix(ks: Seq<Known>, o: Option<Result<Seq<Known>, RunError>>)
    -> Option<Result<Seq<Known>, RunError>> {
    match o {
        Some(Ok(rest)) => Some(Ok(ks + rest)),
        _ => o,
    }
}

/// The value of `e` with the stored variables `vars`, reaching at most
/// `depth` levels into stored values, the operand of a negation `ceil` or
/// `floor` reads and the elements of a list `min` or `max` reads: an error,
/// what is known of the value, or `None` where nothing is said. Operands
/// are evaluated left to right, and the first error is the result.
pub open spec fn value_of(e: Expr, vars: Map<Seq<char>, Variable>, depth: nat) -> Option<Result<Known, RunError>>
    decreases depth, e, 1int, 0int,
{
    match e {
        Expr::List(items) => {
            proof {
                assert(decreases_to!(e => items));
                assert(decreases_to!(items => items@));
            }
            match list_value(items@, vars, depth, 0) {
                Some(Ok(ks)) => Some(Ok(Known::ListOf(ks))),
                Some(Err(x)) => Some(Err(x)),
                None => None,
            }
        },
        Expr::VariableRef { name, .. } => if vars.dom().contains(name@) {
            if depth == 0 {
                Some(Err(RunError::TooDeep))
            } else {
                value_of(vars[name@].value, vars, (depth - 1) as nat)
            }
        } else {
            Some(Ok(Known::Exact(Expr::DynamicString(name))))
        },
        Expr::BinaryOp { left, op, right } => match value_of(*left, vars, depth) {
            Some(Ok(lk)) => match value_of(*right, vars, depth) {
                Some(Ok(rk)) => binop_known(lk, op@, rk),
                other => other,
            },
            other => other,
        },
        Expr::BuiltInCall { function, args, .. } => {
            proof {
                assert(decreases_to!(e => args));
                assert(decreases_to!(args => args@));
            }
            builtin_value(function, args@, vars, depth)
        },
        _ => if without_lists(e) { Some(Ok(Known::Exact(e))) } else { Some(Ok(Known::Anything)) },
    }
}

/// The values of the list elements from `i` on.
pub open spec fn list_value(items: Seq<Expr>, vars: Map<Seq<char>, Variable>, depth: nat, i: int)
    -> Option<Result<Seq<Known>, RunError>>
    decreases depth, items, 0int, items.len() - i,
{
    if i < 0 || i >= items.len() {
        Some(Ok(Seq::empty()))
    } else {
        match value_of(items[i], vars, depth) {
            Some(Ok(k)) => after_prefix(seq![k], list_value(items, vars, depth, i + 1)),
            Some(Err(x)) => Some(Err(x)),
            None => None,
        }
    }
}

/// The sum of the arguments of `sum` from `i` on, after the total `acc` of
/// the ones before: a value that is not a number gives zero, a total that
/// leaves the 64-bit range the overflow error.
pub open spec fn sum_value(args: Seq<Expr>, vars: Map<Seq<char>, Variable>, depth: nat, i: int, acc: i64)
    -> Option<Result<Known, RunError>>
    decreases depth, args, 0int, args.len() - i,
{
    if i < 0 || i >= args.len() {
        Some(Ok(Known::Exact(Expr::Number(acc))))
    } else {
        match value_of(args[i], vars, depth) {
            Some(Ok(k)) => match k {
                Known::Exact(Expr::Number(n)) => if acc + n < i64::MIN || acc + n > i64::MAX {
                    Some(Err(RunError::Overflow))
                } else {
                    sum_value(args, vars, depth, i + 1, (acc + n) as i64)
                },
                Known::AnyNumber | Known::Anything => None,
                _ => Some(Ok(Known::Exact(Expr::Number(0)))),
            },
            other => other,
        }
    }
}

/// The value of the element `i` of a list that `min` or `max` reads again,
/// one level deeper than `depth`; `args` are the call's arguments.
pub open spec fn element_value(args: Seq<Expr>, ks: Seq<Known>, i: int, vars: Map<Seq<char>, Variable>,
    depth: nat) -> Option<Result<Known, RunError>>
    decreases depth, args, 0int, 0int,
{
    if 0 <= i < ks.len() && depth > 0 {
        match ks[i] {
            Known::Exact(x) => value_of(x, vars, (depth - 1) as nat),
            Known::Text(t) => Some(Ok(Known::Text(t))),
            Known::AnyTime => Some(Ok(Known::AnyTime)),
            Known::AnyNumber => Some(Ok(Known::AnyNumber)),
            _ => None,
        }
    } else {
        None
    }
}

/// The least (`is_min`) or greatest of the elements from `i` on of a list
/// that `min` or `max` (called with `args`) reads one level deeper than
/// `depth`, after the best `best` of the ones before: a value that is not a
/// number gives zero.
pub open spec fn extreme_value(args: Seq<Expr>, ks: Seq<Known>, vars: Map<Seq<char>, Variable>, depth: nat,
    i: int, best: i64, is_min: bool) -> Option<Result<Known, RunError>>
    decreases depth, args, 0int, ks.len() - i + 1,
{
    if i < 0 || i >= ks.len() {
        Some(Ok(Known::Exact(Expr::Number(best))))
    } else {
        match element_value(args, ks, i, vars, depth) {
            Some(Ok(k)) => match k {
                Known::Exact(Expr::Number(n)) => extreme_value(args, ks, vars, depth, i + 1,
                    if is_min { if n < best { n } else { best } } else { if n > best { n } else { best } }, is_min),
                Known::AnyNumber | Known::Anything => None,
                _ => Some(Ok(Known::Exact(Expr::Number(0)))),
            },
            other => other,
        }
    }
}

/// The value of a built-in call with the arguments `args`.
pub open spec fn builtin_value(f: BuiltInFunction, args: Seq<Expr>, vars: Map<Seq<char>, Variable>, depth: nat)
    -> Option<Result<Known, RunError>>
    decreases depth, args, 1int, 0int,
{
    if f is Timer {
        Some(Ok(Known::AnyTime))
    } else if f is Sum && args.len() != 1 {
        sum_value(args, vars, depth, 0, 0)
    } else if !(f is Ceil || f is Floor || f is Mod || f is Round || f is Sqrt || f is Number
        || f is ConvertString || f is StrLower || f is StrUpper || f is Trim || f is Len || f is Sum
        || f is Min || f is Max || f is Range) {
        Some(Ok(Known::Exact(Expr::Number(0))))
    } else if args.len() < 1 || (f is Range && args.len() < 2) {
        Some(Err(RunError::MissingArgument))
    } else {
        match value_of(args[0], vars, depth) {
            Some(Ok(k)) => match f {
                BuiltInFunction::Ceil | BuiltInFunction::Floor => match k {
                    Known::Exact(Expr::UnaryOp { expr: inner, .. }) => if depth == 0 {
                        Some(Err(RunError::TooDeep))
                    } else {
                        match value_of(*inner, vars, (depth - 1) as nat) {
                            Some(Ok(w)) => round_known(f is Ceil, w),
                            other => other,
                        }
                    },
                    Known::AnyNumber | Known::Anything => None,
                    _ => round_known(f is Ceil, k),
                },
                BuiltInFunction::Mod | BuiltInFunction::Round | BuiltInFunction::Sqrt | BuiltInFunction::Number =>
                    unary_known(f, k),
                BuiltInFunction::Len => len_known(k),
                BuiltInFunction::Sum => match k {
                    Known::ListOf(ks) => Some(Ok(Known::Exact(Expr::Number(#[verifier::truncate] (ks.len() as i64))))),
                    Known::Exact(Expr::List(l)) => Some(Ok(Known::Exact(Expr::Number(#[verifier::truncate] (l@.len() as i64))))),
                    Known::Anything => None,
                    _ => Some(Ok(Known::Exact(Expr::Number(0)))),
                },
                BuiltInFunction::Min | BuiltInFunction::Max => match k {
                    Known::ListOf(ks) => if depth == 0 {
                        Some(Err(RunError::TooDeep))
                    } else {
                        extreme_value(args, ks, vars, depth, 0,
                            if f is Min { i64::MAX } else { i64::MIN }, f is Min)
                    },
                    Known::Exact(Expr::List(_)) | Known::Anything => None,
                    _ => Some(Ok(Known::Exact(Expr::Number(0)))),
                },
                BuiltInFunction::Range => match value_of(args[1], vars, depth) {
                    Some(Ok(k1)) => match (k, k1) {
                        (Known::Exact(Expr::Number(a)), Known::Exact(Expr::Number(b))) =>
                            Some(Ok(Known::ListOf(range_known(a, b)))),
                        _ => if (kind_of(k) matches Some(x) && x != 1)
                            || (k matches Known::Exact(Expr::Number(_)) && kind_of(k1) matches Some(y) && y != 1) {
                            Some(Ok(Known::Exact(Expr::Number(0))))
                        } else {
                            None
                        },
                    },
                    other => other,
                },
                _ => match text_known(f, k) {
                    Some(t) => Some(Ok(Known::Text(t))),
                    None => None,
                },
            },
            other => other,
        }
    }
}

/// Each of the first `n` values is described by its entry.
proof fn lemma_all_described_at(items: Seq<Expr>, ks: Seq<Known>, n: int, j: int)
    requires
        all_described(items, ks, n),
        0 <= j < n,
    ensures
        described(items[j], ks[j]),
    decreases n,
{
    if j < n - 1 {
        lemma_all_described_at(items, ks, n - 1, j);
    }
}

/// Values known exactly are described.
proof fn lemma_all_described_exact(items: Seq<Expr>, n: int)
    requires
        0 <= n <= items.len(),
    ensures
        all_described(items, items.map_values(|x: Expr| Known::Exact(x)), n),
    decreases n,
{
    let ks = items.map_values(|x: Expr| Known::Exact(x));
    if n > 0 {
        lemma_all_described_exact(items, n - 1);
        assert(ks[n - 1] == Known::Exact(items[n - 1]));
        assert(described(items[n - 1], ks[n - 1]));
    }
}

/// Adding a described element at the end keeps the earlier ones described.
proof fn lemma_all_described_push(items: Seq<Expr>, ks: Seq<Known>, v: Expr, k: Known, n: int)
    requires
        0 <= n <= items.len(),
        n <= ks.len(),
        all_described(items, ks, n),
    ensures
        all_described(items.push(v), ks.push(k), n),
    decreases n,
{
    if n > 0 {
        lemma_all_described_push(items, ks, v, k, n - 1);
        assert(items.push(v)[n - 1] == items[n - 1]);
        assert(ks.push(k)[n - 1] == ks[n - 1]);
    }
}

/// A binary operation on described values gives what is known of it.
proof fn lemma_binop_known(l: Expr, lk: Known, op: Seq<char>, r: Expr, rk: Known)
    requires
        described(l, lk),
        described(r, rk),
    ensures
        outcome_holds(binop_spec(l, op, r), binop_known(lk, op, rk)),
{
}

/// Putting known values in front of two steps of a list.
proof fn lemma_after_prefix_step(ks: Seq<Known>, k: Known, o: Option<Result<Seq<Known>, RunError>>)
    ensures
        after_prefix(ks, after_prefix(seq![k], o)) == after_prefix(ks.push(k), o),
{
    match o {
        Some(Ok(rest)) => {
            assert(ks + (seq![k] + rest) =~= ks.push(k) + rest);
        },
        _ => {},
    }
}

/// Whether `r`, when it is a value, is the operator `op` applied to values
/// of the two operands, each as far as `value_of` knows it.
pub open spec fn binop_read(left: Expr, op: Seq<char>, right: Expr, vars: Map<Seq<char>, Variable>,
    depth: nat, r: Result<Expr, RunError>) -> bool {
    r is Ok ==> exists|lv: Expr, rv: Expr|
        outcome_holds(Ok(lv), value_of(left, vars, depth))
        && outcome_holds(Ok(rv), value_of(right, vars, depth))
        && r == #[trigger] binop_spec(lv, op, rv)
}

/// Whether `v` is what `min` (`is_min`) or `max` gives on the evaluated
/// argument `arg`, with `vals` the values its elements were evaluated to
/// again, in order, up to the first that is not a number: the least or
/// greatest of the numbers (the largest or smallest 64-bit value for an
/// empty list), zero where an element or the argument is not a number list.
pub open spec fn extreme_read(arg: Expr, vals: Seq<Expr>, vars: Map<Seq<char>, Variable>, depth: nat,
    is_min: bool, v: Expr) -> bool {
    match arg {
        Expr::List(items) => depth > 0 && vals.len() <= items@.len()
            && (forall|k: int| 0 <= k < vals.len()
                ==> outcome_holds(Ok(#[trigger] vals[k]), value_of(items@[k], vars, (depth - 1) as nat)))
            && if all_numbers(vals) {
                vals.len() == items@.len() && v == Expr::Number(extreme(vals, vals.len() as int, is_min) as i64)
            } else {
                all_numbers(vals.drop_last()) && v == Expr::Number(0)
            },
        _ => v == Expr::Number(0),
    }
}

/// Whether `r`, when `f` is `min` or `max` and `r` is a value, is as
/// `extreme_read` says for some value of the first argument that
/// `value_of` allows.
pub open spec fn minmax_read(f: BuiltInFunction, args: Seq<Expr>, vars: Map<Seq<char>, Variable>, depth: nat,
    r: Result<Expr, RunError>) -> bool {
    ((f is Min || f is Max) && args.len() >= 1 && r is Ok) ==> exists|arg: Expr, vals: Seq<Expr>|
        outcome_holds(Ok(arg), value_of(args[0], vars, depth))
        && #[trigger] extreme_read(arg, vals, vars, depth, f is Min, r->Ok_0)
}

/// Whether `v` is a value that evaluates to itself: no variable, operation,
/// built-in call or list to work out, and no list inside.
pub open spec fn is_value_form(v: Expr) -> bool {
    without_lists(v) && !(v is VariableRef || v is BinaryOp || v is BuiltInCall || v is List)
}

/// Whether an outcome known exactly is a value that evaluates to itself.
pub open spec fn exact_value_form(o: Option<Result<Known, RunError>>) -> bool {
    match o {
        Some(Ok(Known::Exact(v))) => is_value_form(v),
        _ => true,
    }
}

/// A sum known exactly is a value.
proof fn lemma_sum_value_exact(args: Seq<Expr>, vars: Map<Seq<char>, Variable>, depth: nat, i: int, acc: i64)
    ensures
        exact_value_form(sum_value(args, vars, depth, i, acc)),
    decreases args.len() - i,
{
    if 0 <= i < args.len() {
        if let Some(Ok(Known::Exact(Expr::Number(n)))) = value_of(args[i], vars, depth) {
            if !(acc + n < i64::MIN || acc + n > i64::MAX) {
                lemma_sum_value_exact(args, vars, depth, i + 1, (acc + n) as i64);
            }
        }
    }
}

/// A least or greatest element known exactly is a value.
proof fn lemma_extreme_value_exact(args: Seq<Expr>, ks: Seq<Known>, vars: Map<Seq<char>, Variable>, depth: nat,
    i: int, best: i64, is_min: bool)
    ensures
        exact_value_form(extreme_value(args, ks, vars, depth, i, best, is_min)),
    decreases ks.len() - i,
{
    if 0 <= i < ks.len() {
        if let Some(Ok(Known::Exact(Expr::Number(n)))) = element_value(args, ks, i, vars, depth) {
            lemma_extreme_value_exact(args, ks, vars, depth, i + 1,
                if is_min { if n < best { n } else { best } } else { if n > best { n } else { best } }, is_min);
        }
    }
}

/// What the evaluation model knows exactly of a value is a value that
/// evaluates to itself.
pub proof fn lemma_exact_is_value(e: Expr, vars: Map<Seq<char>, Variable>, depth: nat)
    ensures
        exact_value_form(value_of(e, vars, depth)),
    decreases depth, e,
{
    match e {
        Expr::VariableRef { name, .. } => {
            if vars.dom().contains(name@) {
                if depth > 0 {
                    lemma_exact_is_value(vars[name@].value, vars, (depth - 1) as nat);
                    assert(value_of(e, vars, depth) == value_of(vars[name@].value, vars, (depth - 1) as nat));
                } else {
                    assert(value_of(e, vars, depth) == Some(Err::<Known, RunError>(RunError::TooDeep)));
                }
            } else {
                assert(value_of(e, vars, depth) == Some(Ok::<Known, RunError>(Known::Exact(Expr::DynamicString(name)))));
                assert(is_value_form(Expr::DynamicString(name)));
            }
        },
        Expr::BuiltInCall { function, args, .. } => {
            assert(value_of(e, vars, depth) == builtin_value(function, args@, vars, depth));
            if function is Sum && args@.len() != 1 {
                lemma_sum_value_exact(args@, vars, depth, 0, 0);
            }
            if (function is Min || function is Max) && args@.len() >= 1 && depth > 0 {
                if let Some(Ok(Known::ListOf(ks))) = value_of(args@[0], vars, depth) {
                    lemma_extreme_value_exact(args@, ks, vars, depth, 0,
                        if function is Min { i64::MAX } else { i64::MIN }, function is Min);
                }
            }
        },
        Expr::BinaryOp { .. } | Expr::List(_) => {},
        _ => {
            if without_lists(e) {
                assert(value_of(e, vars, depth) == Some(Ok::<Known, RunError>(Known::Exact(e))));
                assert(is_value_form(e));
            }
        },
    }
}

/// A value evaluates to itself, whatever the variables and the depth.
pub proof fn lemma_value_form_is_fixed(v: Expr, vars: Map<Seq<char>, Variable>, depth: nat)
    requires
        is_value_form(v),
    ensures
        value_of(v, vars, depth) == Some(Ok::<Known, RunError>(Known::Exact(v))),
{
}

/// Evaluating again what an evaluation gave back gives it back, wherever
/// the evaluation model knows the first result exactly: `r1` and `r2` are
/// results as `eval` states them, of `e` and of the value `r1` holds.
pub proof fn lemma_eval_again(e: Expr, vars: Map<Seq<char>, Variable>, r1: Result<Expr, RunError>,
    r2: Result<Expr, RunError>)
    requires
        value_of(e, vars, MAX_DEPTH as nat) matches Some(Ok(Known::Exact(_))),
        outcome_holds(r1, value_of(e, vars, MAX_DEPTH as nat)),
        r1 matches Ok(v) && outcome_holds(r2, value_of(v, vars, MAX_DEPTH as nat)),
    ensures
        r2 == r1,
{
    lemma_exact_is_value(e, vars, MAX_DEPTH as nat);
    let v = r1->Ok_0;
    lemma_value_form_is_fixed(v, vars, MAX_DEPTH as nat);
}

/// An evaluated value evaluates to itself: where evaluating `e` with the
/// stored variables `vars` gave `v` and evaluating `v` gave `r2`, as `eval`
/// states its results, `r2` is `v` again when `v` is a literal or when the
/// evaluation model knows the value of `e` exactly; a list of literals
/// gives back a list of the same elements, and a struct value a copy.
pub proof fn lemma_evaluated_value_is_fixed(e: Expr, vars: Map<Seq<char>, Variable>, v: Expr,
    r2: Result<Expr, RunError>)
    requires
        evaluates(e, vars, Ok(v)),
        evaluates(v, vars, r2),
    ensures
        is_leaf(v) ==> r2 == Ok::<Expr, RunError>(v),
        (value_of(e, vars, MAX_DEPTH as nat) matches Some(Ok(Known::Exact(_)))) ==> r2 == Ok::<Expr, RunError>(v),
        v matches Expr::List(items) ==> (all_leaves(items@) ==> (r2 matches Ok(Expr::List(w)) && w@ == items@)),
        v is StructInit ==> (r2 matches Ok(w) && struct_copy(w, v)),
{
    if value_of(e, vars, MAX_DEPTH as nat) matches Some(Ok(Known::Exact(_))) {
        lemma_eval_again(e, vars, Ok(v), r2);
    }
}

/// The expression `a op b` over two literal operands.
pub open spec fn literal_binop(a: Expr, op: String, b: Expr) -> Expr {
    Expr::BinaryOp { left: Box::new(a), op, right: Box::new(b) }
}

/// Operations on two truth values: `&&` is both, `||` either, `==` holds
/// exactly when they are equal, and any other operator gives `false`.
pub proof fn lemma_truth_value_operations(p: bool, op: String, q: bool, vars: Map<Seq<char>, Variable>,
    r: Result<Expr, RunError>)
    requires
        evaluates(literal_binop(Expr::Bool(p), op, Expr::Bool(q)), vars, r),
    ensures
        op@ == "&&"@ ==> r == Ok::<Expr, RunError>(Expr::Bool(p && q)),
        op@ == "||"@ ==> r == Ok::<Expr, RunError>(Expr::Bool(p || q)),
        op@ == "=="@ ==> r == Ok::<Expr, RunError>(Expr::Bool(p == q)),
        op@ == "=="@ ==> (r == Ok::<Expr, RunError>(Expr::Bool(true)) <==> p == q),
        op@ != "&&"@ && op@ != "||"@ && op@ != "=="@ ==> r == Ok::<Expr, RunError>(Expr::Bool(false)),
{
    reveal_strlit("&&");
    reveal_strlit("||");
    reveal_strlit("==");
    assert("||"@ != "&&"@) by { assert("||"@[0] != "&&"@[0]); }
    assert("=="@ != "&&"@) by { assert("=="@[0] != "&&"@[0]); }
    assert("=="@ != "||"@) by { assert("=="@[0] != "||"@[0]); }
    assert(is_leaf(Expr::Bool(p)) && is_leaf(Expr::Bool(q)));
}

/// The arithmetic operators and `==` are different texts.
proof fn lemma_arith_ops_differ()
    ensures
        "+"@ != "-"@, "+"@ != "*"@, "+"@ != "/"@, "+"@ != "=="@,
        "-"@ != "*"@, "-"@ != "/"@, "-"@ != "=="@,
        "*"@ != "/"@, "*"@ != "=="@, "/"@ != "=="@,
{
    reveal_strlit("+");
    reveal_strlit("-");
    reveal_strlit("*");
    reveal_strlit("/");
    reveal_strlit("==");
    assert("+"@[0] != "-"@[0] && "+"@[0] != "*"@[0] && "+"@[0] != "/"@[0] && "+"@[0] != "=="@[0]);
    assert("-"@[0] != "*"@[0] && "-"@[0] != "/"@[0] && "-"@[0] != "=="@[0]);
    assert("*"@[0] != "/"@[0] && "*"@[0] != "=="@[0] && "/"@[0] != "=="@[0]);
}

/// Operations on two numbers: `+`, `-` and `*` give the sum, difference
/// and product where it fits in 64 bits and the overflow error otherwise;
/// `/` by zero is refused, and a non-negative number divided by a positive
/// one gives the whole quotient; `==` holds exactly when they are equal;
/// any other operator gives `false`.
pub proof fn lemma_number_operations(a: i64, op: String, b: i64, vars: Map<Seq<char>, Variable>,
    r: Result<Expr, RunError>)
    requires
        evaluates(literal_binop(Expr::Number(a), op, Expr::Number(b)), vars, r),
    ensures
        op@ == "+"@ ==> (i64::MIN <= a + b <= i64::MAX ==> r == Ok::<Expr, RunError>(Expr::Number((a + b) as i64)))
            && (!(i64::MIN <= a + b <= i64::MAX) ==> r == Err::<Expr, RunError>(RunError::Overflow)),
        op@ == "-"@ ==> (i64::MIN <= a - b <= i64::MAX ==> r == Ok::<Expr, RunError>(Expr::Number((a - b) as i64)))
            && (!(i64::MIN <= a - b <= i64::MAX) ==> r == Err::<Expr, RunError>(RunError::Overflow)),
        op@ == "*"@ ==> (i64::MIN <= a * b <= i64::MAX ==> r == Ok::<Expr, RunError>(Expr::Number((a * b) as i64)))
            && (!(i64::MIN <= a * b <= i64::MAX) ==> r == Err::<Expr, RunError>(RunError::Overflow)),
        op@ == "/"@ && b == 0 ==> r == Err::<Expr, RunError>(RunError::DivisionByZero),
        op@ == "/"@ && a >= 0 && b > 0 ==> r == Ok::<Expr, RunError>(Expr::Number((a / b) as i64)),
        op@ == "=="@ ==> r == Ok::<Expr, RunError>(Expr::Bool(a == b)),
        op@ != "+"@ && op@ != "-"@ && op@ != "*"@ && op@ != "/"@ && op@ != "=="@
            ==> r == Ok::<Expr, RunError>(Expr::Bool(false)),
{
    reveal_strlit("+");
    reveal_strlit("-");
    reveal_strlit("*");
    reveal_strlit("/");
    reveal_strlit("==");
    lemma_arith_ops_differ();
    assert(is_leaf(Expr::Number(a)) && is_leaf(Expr::Number(b)));
    if op@ == "/"@ && a >= 0 && b > 0 {
        assert(trunc_div(a as int, b as int) == a / b);
        assert(0 <= a / b <= a) by (nonlinear_arith)
            requires a >= 0, b > 0;
    }
}

/// Dividing by the negated number gives the negated quotient: `a / (-b)`
/// is `-(a / b)`, the quotient being rounded toward zero.
pub proof fn lemma_division_by_negated(a: i64, b: i64, op: String, vars: Map<Seq<char>, Variable>,
    r1: Result<Expr, RunError>, r2: Result<Expr, RunError>)
    requires
        op@ == "/"@,
        a > i64::MIN,
        b > i64::MIN,
        b != 0,
        evaluates(literal_binop(Expr::Number(a), op, Expr::Number(b)), vars, r1),
        evaluates(literal_binop(Expr::Number(a), op, Expr::Number((-b) as i64)), vars, r2),
    ensures
        r1 matches Ok(Expr::Number(q1)) ==> r2 == Ok::<Expr, RunError>(Expr::Number((-q1) as i64)),
        r1 is Ok,
{
    assert(is_leaf(Expr::Number(a)) && is_leaf(Expr::Number(b)));
    assert(is_leaf(Expr::Number((-b) as i64)));
    lemma_arith_ops_differ();
    reveal_strlit("/");
    let ua = if a < 0 { -a } else { a as int };
    let ub = if b < 0 { -b } else { b as int };
    assert(0 <= ua / ub <= ua) by (nonlinear_arith)
        requires ua >= 0, ub > 0;
    assert(trunc_div(a as int, (-b) as i64 as int) == -trunc_div(a as int, b as int));
}

/// Operations on two times and on operands of different kinds: the
/// difference of two times is the milliseconds between them (none when the
/// first is earlier); any other operation on times, and any operation on a
/// number and a truth value, gives `false`.
pub proof fn lemma_time_and_mixed_operations(a: u64, b: u64, n: i64, p: bool, op: String,
    vars: Map<Seq<char>, Variable>, r1: Result<Expr, RunError>, r2: Result<Expr, RunError>,
    r3: Result<Expr, RunError>)
    requires
        evaluates(literal_binop(Expr::Time(a), op, Expr::Time(b)), vars, r1),
        evaluates(literal_binop(Expr::Number(n), op, Expr::Bool(p)), vars, r2),
        evaluates(literal_binop(Expr::Bool(p), op, Expr::Number(n)), vars, r3),
    ensures
        op@ == "-"@ && a >= b && a - b <= i64::MAX ==> r1 == Ok::<Expr, RunError>(Expr::Number((a - b) as i64)),
        op@ == "-"@ && a < b ==> r1 == Ok::<Expr, RunError>(Expr::Number(0)),
        op@ != "-"@ ==> r1 == Ok::<Expr, RunError>(Expr::Bool(false)),
        r2 == Ok::<Expr, RunError>(Expr::Bool(false)),
        r3 == Ok::<Expr, RunError>(Expr::Bool(false)),
{
    assert(is_leaf(Expr::Time(a)) && is_leaf(Expr::Time(b)));
    assert(is_leaf(Expr::Number(n)) && is_leaf(Expr::Bool(p)));
}

/// Dividing the negated number gives the negated quotient: `(-a) / b` is
/// `-(a / b)`, the quotient being rounded toward zero.
pub proof fn lemma_division_rounds_toward_zero(a: i64, b: i64, op: String, vars: Map<Seq<char>, Variable>,
    r1: Result<Expr, RunError>, r2: Result<Expr, RunError>)
    requires
        op@ == "/"@,
        a > i64::MIN,
        b != 0,
        evaluates(literal_binop(Expr::Number(a), op, Expr::Number(b)), vars, r1),
        evaluates(literal_binop(Expr::Number((-a) as i64), op, Expr::Number(b)), vars, r2),
    ensures
        r1 matches Ok(Expr::Number(q1)) ==> r2 == Ok::<Expr, RunError>(Expr::Number((-q1) as i64)),
        r1 is Ok,
{
    assert(is_leaf(Expr::Number(a)) && is_leaf(Expr::Number(b)));
    assert(is_leaf(Expr::Number((-a) as i64)));
    reveal_strlit("+");
    reveal_strlit("-");
    reveal_strlit("*");
    reveal_strlit("/");
    reveal_strlit("==");
    lemma_arith_ops_differ();
    let ua = if a < 0 { -a } else { a as int };
    let ub = if b < 0 { -b } else { b as int };
    assert(0 <= ua / ub <= ua) by (nonlinear_arith)
        requires ua >= 0, ub > 0;
    assert(trunc_div((-a) as i64 as int, b as int) == -trunc_div(a as int, b as int));
}

/// The least or greatest of the first `n` numbers depends on them alone.
proof fn lemma_extreme_prefix(s: Seq<Expr>, t: Seq<Expr>, n: int, is_min: bool)
    requires
        0 <= n <= s.len(),
        n <= t.len(),
        forall|k: int| 0 <= k < n ==> s[k] == t[k],
    ensures
        extreme(s, n, is_min) == extreme(t, n, is_min),
    decreases n,
{
    if n > 0 {
        lemma_extreme_prefix(s, t, n - 1, is_min);
    }
}

/// The value of an expression in the running program (`eval`).
pub fn eval(expr: &Expr, ctx: &Runner) -> (r: Result<Expr, RunError>)
    requires
        ctx.wf(),
    ensures
        is_leaf(*expr) ==> r == Ok::<Expr, RunError>(*expr),
        *expr matches Expr::VariableRef { name, .. } ==> (!ctx.variables.has(name@)
            ==> r == Ok::<Expr, RunError>(Expr::DynamicString(name))),
        *expr matches Expr::VariableRef { name, .. } ==> (ctx.variables.has(name@)
            && is_leaf(ctx.variables.as_map()[name@].value)
            ==> r == Ok::<Expr, RunError>(ctx.variables.as_map()[name@].value)),
        *expr matches Expr::BinaryOp { left, op, right } ==> (is_leaf(*left) && is_leaf(*right)
            ==> r == binop_spec(*left, op@, *right)),
        *expr matches Expr::BuiltInCall { function, args, .. } ==> (args@.len() >= 1 && is_leaf(args@[0])
            ==> builtin_leaf_result(function, args@[0], r)),
        *expr matches Expr::BuiltInCall { function: BuiltInFunction::Timer, .. } ==> r matches Ok(Expr::Time(_)),
        *expr matches Expr::List(items) ==> (all_leaves(items@) ==> (r matches Ok(Expr::List(v)) && v@ == items@)),
        *expr matches Expr::BuiltInCall { function, args, .. } ==> builtin_args_result(function, args@, true, r),
        outcome_holds(r, value_of(*expr, ctx.variables.as_map(), MAX_DEPTH as nat)),
        *expr matches Expr::BinaryOp { left, op, right } ==> binop_read(*left, op@, *right,
            ctx.variables.as_map(), MAX_DEPTH as nat, r),
        *expr matches Expr::BuiltInCall { function, args, .. } ==> minmax_read(function, args@,
            ctx.variables.as_map(), MAX_DEPTH as nat, r),
        *expr is StructInit ==> (r matches Ok(v) && struct_copy(v, *expr)),
        evaluates(*expr, ctx.variables.as_map(), r),
{
    eval_in(expr, ctx, MAX_DEPTH)
}

/// Whether `r` is a result `eval` may give for `e` with the stored
/// variables `vars`, as far as its contract says: a literal is its own
/// value; a name that is not stored is its own text, a stored literal is
/// read back; a struct value gives a copy; a binary operation or a built-in
/// call gives what its operands' values give; and the result is as
/// `value_of` knows it.
pub open spec fn evaluates(e: Expr, vars: Map<Seq<char>, Variable>, r: Result<Expr, RunError>) -> bool {
    &&& is_leaf(e) ==> r == Ok::<Expr, RunError>(e)
    &&& e matches Expr::VariableRef { name, .. } ==> (!vars.dom().contains(name@)
        ==> r == Ok::<Expr, RunError>(Expr::DynamicString(name)))
    &&& e matches Expr::VariableRef { name, .. } ==> (vars.dom().contains(name@) && is_leaf(vars[name@].value)
        ==> r == Ok::<Expr, RunError>(vars[name@].value))
    &&& e matches Expr::BinaryOp { left, op, right } ==> (is_leaf(*left) && is_leaf(*right)
        ==> r == binop_spec(*left, op@, *right))
    &&& e matches Expr::BuiltInCall { function, args, .. } ==> (args@.len() >= 1 && is_leaf(args@[0])
        ==> builtin_leaf_result(function, args@[0], r))
    &&& e matches Expr::BuiltInCall { function: BuiltInFunction::Timer, .. } ==> (r matches Ok(Expr::Time(_)))
    &&& e matches Expr::List(items) ==> (all_leaves(items@) ==> (r matches Ok(Expr::List(v)) && v@ == items@))
    &&& e matches Expr::BuiltInCall { function, args, .. } ==> builtin_args_result(function, args@, true, r)
    &&& outcome_holds(r, value_of(e, vars, MAX_DEPTH as nat))
    &&& e matches Expr::BinaryOp { left, op, right } ==> binop_read(*left, op@, *right, vars, MAX_DEPTH as nat, r)
    &&& e matches Expr::BuiltInCall { function, args, .. } ==> minmax_read(function, args@, vars, MAX_DEPTH as nat, r)
    &&& e is StructInit ==> (r matches Ok(v) && struct_copy(v, e))
}

/// What a built-in call of one literal argument gives, where that follows
/// from the argument alone.
pub open spec fn builtin_leaf_result(f: BuiltInFunction, arg: Expr, r: Result<Expr, RunError>) -> bool {
    match f {
        BuiltInFunction::Mod | BuiltInFunction::Round | BuiltInFunction::Sqrt | BuiltInFunction::Number =>
            r == unary_spec(f, arg),
        BuiltInFunction::Ceil => r == Ok::<Expr, RunError>(round_to_whole(true, arg)),
        BuiltInFunction::Floor => r == Ok::<Expr, RunError>(round_to_whole(false, arg)),
        BuiltInFunction::ConvertString | BuiltInFunction::StrLower | BuiltInFunction::StrUpper
        | BuiltInFunction::Trim => r matches Ok(Expr::DynamicString(s)) && s@ == text_fn_spec(f, arg),
        BuiltInFunction::Len => r == Ok::<Expr, RunError>(len_spec(arg)),
        _ => true,
    }
}

#[verifier::loop_isolation(false)]
/// The value of an expression, reaching at most `depth` levels into stored
/// values and list elements.
fn eval_in(expr: &Expr, ctx: &Runner, depth: usize) -> (r: Result<Expr, RunError>)
    requires
        ctx.wf(),
    ensures
        is_leaf(*expr) ==> r == Ok::<Expr, RunError>(*expr),
        *expr matches Expr::VariableRef { name, .. } ==> (!ctx.variables.has(name@)
            ==> r == Ok::<Expr, RunError>(Expr::DynamicString(name))),
        *expr matches Expr::VariableRef { name, .. } ==> (ctx.variables.has(name@)
            && is_leaf(ctx.variables.as_map()[name@].value)
            ==> r == (if depth == 0 { Err(RunError::TooDeep) } else {
                Ok::<Expr, RunError>(ctx.variables.as_map()[name@].value) })),
        *expr matches Expr::BinaryOp { left, op, right } ==> (is_leaf(*left) && is_leaf(*right)
            ==> r == binop_spec(*left, op@, *right)),
        *expr matches Expr::BuiltInCall { function, args, .. } ==> (args@.len() >= 1 && is_leaf(args@[0])
            ==> builtin_leaf_result(function, args@[0], r)),
        *expr matches Expr::BuiltInCall { function: BuiltInFunction::Timer, .. } ==> r matches Ok(Expr::Time(_)),
        *expr matches Expr::List(items) ==> (all_leaves(items@) ==> (r matches Ok(Expr::List(v)) && v@ == items@)),
        *expr matches Expr::BuiltInCall { function, args, .. } ==> builtin_args_result(function, args@, depth > 0, r),
        outcome_holds(r, value_of(*expr, ctx.variables.as_map(), depth as nat)),
        *expr matches Expr::BinaryOp { left, op, right } ==> binop_read(*left, op@, *right,
            ctx.variables.as_map(), depth as nat, r),
        *expr matches Expr::BuiltInCall { function, args, .. } ==> minmax_read(function, args@,
            ctx.variables.as_map(), depth as nat, r),
        *expr is StructInit ==> (r matches Ok(v) && struct_copy(v, *expr)),
    decreases depth, expr, 1int,
{
    match expr {
        Expr::List(list) => {
            let ghost vars = ctx.variables.as_map();
            let ghost mut ks: Seq<Known> = Seq::empty();
            let ghost mut known: bool = true;
            let mut elems: Vec<Expr> = Vec::new();
            let mut i: usize = 0;
            while i < list.len()
                invariant
                    ctx.wf(),
                    vars == ctx.variables.as_map(),
                    i <= list@.len(),
                    all_leaves(list@) ==> elems@ == list@.subrange(0, i as int),
                    elems@.len() == i,
                    known ==> ks.len() == i && all_described(elems@, ks, i as int)
                        && list_value(list@, vars, depth as nat, 0)
                            == after_prefix(ks, list_value(list@, vars, depth as nat, i as int)),
                    !known ==> list_value(list@, vars, depth as nat, 0) is None,
                decreases list@.len() - i,
            {
                proof {
                    assert(decreases_to!(*expr => expr->List_0));
                    assert(decreases_to!(expr->List_0 => expr->List_0@));
                    assert(decreases_to!(expr->List_0@ => expr->List_0@[i as int]));
                }
                let v = match eval_in(&list[i], ctx, depth) {
                    Ok(v) => v,
                    Err(x) => return Err(x),
                };
                proof {
                    if known {
                        match value_of(list@[i as int], vars, depth as nat) {
                            Some(Ok(k)) => {
                                lemma_after_prefix_step(ks, k, list_value(list@, vars, depth as nat, i + 1));
                                lemma_all_described_push(elems@, ks, v, k, i as int);
                                ks = ks.push(k);
                            },
                            _ => {
                                known = false;
                            },
                        }
                    }
                }
                elems.push(v);
                i = i + 1;
                assert(all_leaves(list@) ==> elems@ =~= list@.subrange(0, i as int));
            }
            assert(all_leaves(list@) ==> elems@ =~= list@);
            proof {
                if known {
                    assert(ks + Seq::<Known>::empty() =~= ks);
                }
            }
            Ok(Expr::List(elems))
        },
        Expr::VariableRef { name, .. } => {
            match ctx.variables.get(name.as_str()) {
                Some(var) => {
                    if depth == 0 {
                        Err(RunError::TooDeep)
                    } else {
                        eval_in(&var.value, ctx, depth - 1)
                    }
                },
                None => Ok(Expr::DynamicString(name.clone())),
            }
        },
        Expr::StructInit { .. } => Ok(clone_expr(expr)),
        Expr::BinaryOp { left, op, right } => {
            let left_val = match eval_in(left, ctx, depth) {
                Ok(v) => v,
                Err(x) => return Err(x),
            };
            let right_val = match eval_in(right, ctx, depth) {
                Ok(v) => v,
                Err(x) => return Err(x),
            };
            let res = apply_binary(&left_val, op.as_str(), &right_val);
            proof {
                assert(binop_spec(left_val, op@, right_val) == res);
            }
            res
        },
        Expr::BuiltInCall { function, args, .. } => eval_builtin(expr, *function, args, ctx, depth),
        _ => Ok(clone_expr(expr)),
    }
}

/// The value of a call of a built-in function.
#[verifier::loop_isolation(false)]
#[verifier::rlimit(60)]
fn eval_builtin(expr: &Expr, function: BuiltInFunction, args: &Vec<Expr>, ctx: &Runner, depth: usize)
    -> (r: Result<Expr, RunError>)
    requires
        ctx.wf(),
        *expr == (Expr::BuiltInCall { function, args: *args, return_type: expr->BuiltInCall_return_type }),
    ensures
        args@.len() >= 1 && is_leaf(args@[0]) ==> builtin_leaf_result(function, args@[0], r),
        function is Timer ==> r matches Ok(Expr::Time(_)),
        builtin_args_result(function, args@, depth > 0, r),
        outcome_holds(r, builtin_value(function, args@, ctx.variables.as_map(), depth as nat)),
        minmax_read(function, args@, ctx.variables.as_map(), depth as nat, r),
    decreases depth, expr, 0int,
{
    proof {
        assert(decreases_to!(*expr => expr->BuiltInCall_args));
        assert(decreases_to!(expr->BuiltInCall_args => expr->BuiltInCall_args@));
        if args@.len() > 0 {
            assert(decreases_to!(expr->BuiltInCall_args@ => expr->BuiltInCall_args@[0]));
        }
        if args@.len() > 1 {
            assert(decreases_to!(expr->BuiltInCall_args@ => expr->BuiltInCall_args@[1]));
        }
    }
    match function {
        BuiltInFunction::Ceil | BuiltInFunction::Floor => {
            if args.len() < 1 {
                return Err(RunError::MissingArgument);
            }
            let up = match function {
                BuiltInFunction::Ceil => true,
                _ => false,
            };
            let arg = match eval_in(&args[0], ctx, depth) {
                Ok(v) => v,
                Err(x) => return Err(x),
            };
            match &arg {
                Expr::UnaryOp { expr: inner, .. } => {
                    if depth == 0 {
                        Err(RunError::TooDeep)
                    } else {
                        let v = match eval_in(inner, ctx, depth - 1) {
                            Ok(v) => v,
                            Err(x) => return Err(x),
                        };
                        Ok(round_to_whole_value(up, &v))
                    }
                },
                _ => Ok(round_to_whole_value(up, &arg)),
            }
        },
        BuiltInFunction::Mod | BuiltInFunction::Round | BuiltInFunction::Sqrt | BuiltInFunction::Number => {
            if args.len() < 1 {
                return Err(RunError::MissingArgument);
            }
            let arg = match eval_in(&args[0], ctx, depth) {
                Ok(v) => v,
                Err(x) => return Err(x),
            };
            apply_unary(function, &arg)
        },
        BuiltInFunction::ConvertString | BuiltInFunction::StrLower | BuiltInFunction::StrUpper
        | BuiltInFunction::Trim => {
            if args.len() < 1 {
                return Err(RunError::MissingArgument);
            }
            let arg = match eval_in(&args[0], ctx, depth) {
                Ok(v) => v,
                Err(x) => return Err(x),
            };
            Ok(Expr::DynamicString(apply_text_fn(function, &arg)))
        },
        BuiltInFunction::Len => {
            if args.len() < 1 {
                return Err(RunError::MissingArgument);
            }
            let arg = match eval_in(&args[0], ctx, depth) {
                Ok(v) => v,
                Err(x) => return Err(x),
            };
            Ok(apply_len(&arg))
        },
        BuiltInFunction::Sum => {
            if args.len() != 1 {
                let ghost vars = ctx.variables.as_map();
                let ghost mut known: bool = true;
                let mut sum: i64 = 0;
                let mut i: usize = 0;
                while i < args.len()
                    invariant
                        ctx.wf(),
                        i <= args@.len(),
                        *expr == (Expr::BuiltInCall { function, args: *args, return_type: expr->BuiltInCall_return_type }),
                        all_numbers(args@) ==> sum == total(args@, i as int) && running_totals_fit(args@, i as int),
                        vars == ctx.variables.as_map(),
                        known ==> sum_value(args@, vars, depth as nat, 0, 0) == sum_value(args@, vars, depth as nat, i as int, sum),
                        !known ==> sum_value(args@, vars, depth as nat, 0, 0) is None,
                    decreases args@.len() - i,
                {
                    proof {
                        assert(decreases_to!(*expr => expr->BuiltInCall_args));
                        assert(decreases_to!(expr->BuiltInCall_args => expr->BuiltInCall_args@));
                        assert(decreases_to!(expr->BuiltInCall_args@ => expr->BuiltInCall_args@[i as int]));
                    }
                    let v = match eval_in(&args[i], ctx, depth) {
                        Ok(v) => v,
                        Err(x) => return Err(x),
                    };
                    match v {
                        Expr::Number(n) => {
                            let ghost before = sum;
                            proof {
                                if known && !(value_of(args@[i as int], vars, depth as nat) matches Some(Ok(Known::Exact(_)))) {
                                    known = false;
                                }
                            }
                            sum = match sum.checked_add(n) {
                                Some(t) => t,
                                None => {
                                    proof {
                                        if all_numbers(args@) {
                                            assert(is_leaf(args@[i as int]));
                                            assert(total(args@, i + 1) == total(args@, i as int) + n);
                                            assert(!running_totals_fit(args@, args@.len() as int));
                                        }
                                    }
                                    return Err(RunError::Overflow);
                                },
                            };
                            proof {
                                if all_numbers(args@) {
                                    assert(is_leaf(args@[i as int]));
                                    assert(total(args@, i + 1) == total(args@, i as int) + n);
                                    assert forall|k: int| 1 <= k <= i + 1 implies
                                        i64::MIN <= #[trigger] total(args@, k) <= i64::MAX by {
                                        if k <= i {
                                            assert(running_totals_fit(args@, i as int));
                                        }
                                    }
                                }
                            }
                        },
                        _ => {
                            proof {
                                if all_numbers(args@) {
                                    assert(is_leaf(args@[i as int]));
                                }
                            }
                            return Ok(Expr::Number(0));
                        },
                    }
                    i = i + 1;
                }
                return Ok(Expr::Number(sum));
            }
            let arg = match eval_in(&args[0], ctx, depth) {
                Ok(v) => v,
                Err(x) => return Err(x),
            };
            match arg {
                Expr::List(list) => Ok(Expr::Number(#[verifier::truncate] (list.len() as i64))),
                _ => Ok(Expr::Number(0)),
            }
        },
        BuiltInFunction::Min | BuiltInFunction::Max => {
            if args.len() < 1 {
                return Err(RunError::MissingArgument);
            }
            let is_min = match function {
                BuiltInFunction::Min => true,
                _ => false,
            };
            let arg = match eval_in(&args[0], ctx, depth) {
                Ok(v) => v,
                Err(x) => return Err(x),
            };
            match &arg {
                Expr::List(list) => {
                    if depth == 0 {
                        return Err(RunError::TooDeep);
                    }
                    let ghost vars = ctx.variables.as_map();
                    let ghost k0 = value_of(args@[0], vars, depth as nat);
                    let ghost ks: Seq<Known> = match k0 {
                        Some(Ok(Known::ListOf(q))) => q,
                        _ => Seq::empty(),
                    };
                    let ghost mut known: bool = k0 matches Some(Ok(Known::ListOf(_)));
                    proof {
                        if known {
                            assert(described(arg, Known::ListOf(ks)));
                        }
                    }
                    let mut best: i64 = if is_min { i64::MAX } else { i64::MIN };
                    let ghost mut vals: Seq<Expr> = Seq::empty();
                    let mut i: usize = 0;
                    while i < list.len()
                        invariant
                            ctx.wf(),
                            vals.len() == i,
                            all_numbers(vals),
                            best == extreme(vals, i as int, is_min),
                            forall|k: int| 0 <= k < vals.len()
                                ==> outcome_holds(Ok(#[trigger] vals[k]), value_of(list@[k], vars, (depth - 1) as nat)),
                            outcome_holds(Ok(arg), value_of(args@[0], vars, depth as nat)),
                            arg == Expr::List(*list),
                            i <= list@.len(),
                            depth > 0,
                            is_min == (function is Min),
                            all_numbers(list@) ==> best == extreme(list@, i as int, is_min),
                            vars == ctx.variables.as_map(),
                            known ==> ks.len() == list@.len() && all_described(list@, ks, ks.len() as int)
                                && builtin_value(function, args@, vars, depth as nat)
                                    == extreme_value(args@, ks, vars, depth as nat, i as int, best, is_min),
                            !known ==> builtin_value(function, args@, vars, depth as nat) is None,
                        decreases list@.len() - i,
                    {
                        let r_i = eval_in(&list[i], ctx, depth - 1);
                        proof {
                            if known {
                                lemma_all_described_at(list@, ks, ks.len() as int, i as int);
                                assert(outcome_holds(r_i, element_value(args@, ks, i as int, vars, depth as nat)));
                            }
                        }
                        let v = match r_i {
                            Ok(v) => v,
                            Err(x) => return Err(x),
                        };
                        proof {
                            if all_numbers(list@) {
                                assert(is_leaf(list@[i as int]));
                            }
                            if known && !(element_value(args@, ks, i as int, vars, depth as nat) matches Some(Ok(Known::Exact(_)))) {
                                if v is Number {
                                    known = false;
                                }
                            }
                        }
                        let ghost nvals = vals.push(v);
                        proof {
                            assert(nvals.drop_last() =~= vals);
                            assert forall|k: int| 0 <= k < nvals.len() implies
                                outcome_holds(Ok(#[trigger] nvals[k]), value_of(list@[k], vars, (depth - 1) as nat)) by {
                                if k < vals.len() {
                                    assert(nvals[k] == vals[k]);
                                }
                            }
                            if !(v is Number) {
                                assert(!all_numbers(nvals)) by {
                                    assert(nvals[i as int] == v);
                                }
                                assert(extreme_read(arg, nvals, vars, depth as nat, is_min, Expr::Number(0)));
                            }
                        }
                        match v {
                            Expr::Number(n) => {
                                if is_min {
                                    if n < best {
                                        best = n;
                                    }
                                } else {
                                    if n > best {
                                        best = n;
                                    }
                                }
                            },
                            _ => return Ok(Expr::Number(0)),
                        }
                        proof {
                            lemma_extreme_prefix(vals, nvals, i as int, is_min);
                            assert(all_numbers(nvals)) by {
                                assert forall|k: int| 0 <= k < nvals.len() implies #[trigger] nvals[k] is Number by {
                                    if k < vals.len() {
                                        assert(nvals[k] == vals[k]);
                                    }
                                }
                            }
                            vals = nvals;
                        }
                        i = i + 1;
                    }
                    proof {
                        assert(extreme_read(arg, vals, vars, depth as nat, is_min, Expr::Number(best)));
                    }
                    Ok(Expr::Number(best))
                },
                _ => {
                    proof {
                        assert(extreme_read(arg, Seq::empty(), ctx.variables.as_map(), depth as nat, is_min, Expr::Number(0)));
                    }
                    Ok(Expr::Number(0))
                },
            }
        },
        BuiltInFunction::Timer => Ok(Expr::Time(now_millis())),
        BuiltInFunction::Range => {
            if args.len() < 2 {
                return Err(RunError::MissingArgument);
            }
            let arg1 = match eval_in(&args[0], ctx, depth) {
                Ok(v) => v,
                Err(x) => return Err(x),
            };
            let arg2 = match eval_in(&args[1], ctx, depth) {
                Ok(v) => v,
                Err(x) => return Err(x),
            };
            let num1 = match arg1 {
                Expr::Number(n) => n,
                _ => return Ok(Expr::Number(0)),
            };
            let num2 = match arg2 {
                Expr::Number(n) => n,
                _ => return Ok(Expr::Number(0)),
            };
            let mut numbers: Vec<Expr> = Vec::new();
            let mut i: i64 = num1;
            while i < num2
                invariant
                    num1 <= i,
                    i <= num2 || i == num1,
                    numbers@ == Seq::new((i - num1) as nat, |k: int| Expr::Number((num1 + k) as i64)),
                decreases num2 - i,
            {
                numbers.push(Expr::Number(i));
                i = i + 1;
                assert(numbers@ =~= Seq::new((i - num1) as nat, |k: int| Expr::Number((num1 + k) as i64)));
            }
            assert(numbers@ =~= range_seq(num1, num2));
            proof {
                lemma_all_described_exact(numbers@, numbers@.len() as int);
            }
            Ok(Expr::List(numbers))
        },
        _ => Ok(Expr::Number(0)),
    }
}

} // verus!


