//! The text the interpreter prints for a value.
use vstd::prelude::*;
use crate::parser::ast::Expr;
use crate::runner::Runner;
use crate::runner::eval::{Known, all_described, described, display_text};
use crate::text::{decimal_to_string, i64_to_string, push_str, string_push};
use crate::runner::values::char_to_string;

verus! {

/// The text printed for a value: numbers, decimals, truth values and
/// characters as `to_string` writes them, texts as they are, lists as their
/// elements' texts between brackets, separated by commas; nothing for other
/// values.
pub open spec fn value_text(v: Expr) -> Seq<char>
    decreases v, 1int,
{
    match v {
        Expr::String(s, _) => s@,
        Expr::DynamicString(s) => s@,
        Expr::List(items) => "["@ + items_text(items@, items@.len() as int) + "]"@,
        _ => match display_text(v) {
            Some(t) => t,
            None => Seq::empty(),
        },
    }
}

/// The texts of the first `n` elements, separated by commas.
pub open spec fn items_text(items: Seq<Expr>, n: int) -> Seq<char>
    decreases items, n,
{
    if n <= 0 || n > items.len() {
        Seq::empty()
    } else if n == 1 {
        value_text(items[0])
    } else {
        items_text(items, n - 1) + ", "@ + value_text(items[n - 1])
    }
}

/// The text printed for a value known as `k`, where that follows from `k`.
pub open spec fn known_text(k: Known) -> Option<Seq<char>>
    decreases k, 1int, 0int,
{
    match k {
        Known::Exact(x) => Some(value_text(x)),
        Known::Text(t) => Some(t),
        Known::ListOf(ks) => match known_items_text(ks, ks.len() as int) {
            Some(t) => Some("["@ + t + "]"@),
            None => None,
        },
        Known::AnyTime => Some(Seq::empty()),
        Known::AnyNumber | Known::Anything => None,
    }
}

/// The texts of the first `n` known elements, separated by commas.
pub open spec fn known_items_text(ks: Seq<Known>, n: int) -> Option<Seq<char>>
    decreases ks, 0int, n,
{
    if n <= 0 || n > ks.len() {
        Some(Seq::empty())
    } else if n == 1 {
        known_text(ks[0])
    } else {
        match (known_items_text(ks, n - 1), known_text(ks[n - 1])) {
            (Some(a), Some(b)) => Some(a + ", "@ + b),
            _ => None,
        }
    }
}

/// A value described by `k` prints as `known_text(k)` says.
pub proof fn lemma_known_text(v: Expr, k: Known)
    requires
        described(v, k),
        known_text(k) is Some,
    ensures
        value_text(v) == known_text(k)->Some_0,
    decreases k, 1int, 0int,
{
    match k {
        Known::ListOf(ks) => {
            let items = v->List_0@;
            lemma_known_items_text(items, ks, ks.len() as int);
        },
        _ => {},
    }
}

/// The first `n` values described by `ks` print as `known_items_text` says.
pub proof fn lemma_known_items_text(items: Seq<Expr>, ks: Seq<Known>, n: int)
    requires
        all_described(items, ks, n),
        known_items_text(ks, n) is Some,
        items.len() == ks.len(),
        n <= ks.len(),
    ensures
        items_text(items, n) == known_items_text(ks, n)->Some_0,
    decreases ks, 0int, n,
{
    if n == 1 {
        lemma_known_text(items[0], ks[0]);
    } else if n > 1 {
        lemma_known_items_text(items, ks, n - 1);
        lemma_known_text(items[n - 1], ks[n - 1]);
    }
}

/// The text printed for a value (`print_interpreter`).
pub fn print_interpreter(value: &Expr, ctx: &Runner) -> (r: String)
    ensures
        r@ == value_text(*value),
    decreases value, 1int,
{
    match value {
        Expr::String(s, _) => s.clone(),
        Expr::DynamicString(s) => s.clone(),
        Expr::List(items) => {
            let mut out = String::from_str("[");
            let mut i: usize = 0;
            while i < items.len()
                invariant
                    i <= items@.len(),
                    *value == Expr::List(*items),
                    out@ == "["@ + items_text(items@, i as int),
                decreases items@.len() - i,
            {
                proof {
                    assert(decreases_to!(*value => value->List_0));
                    assert(decreases_to!(value->List_0 => value->List_0@));
                    assert(decreases_to!(value->List_0@ => value->List_0@[i as int]));
                }
                if i > 0 {
                    push_str(&mut out, ", ");
                }
                let t = print_interpreter(&items[i], ctx);
                push_str(&mut out, t.as_str());
                proof {
                    reveal_strlit("[");
                    if i == 0 {
                        assert(items_text(items@, 1) == value_text(items@[0]));
                        assert(items_text(items@, 0) == Seq::<char>::empty());
                    } else {
                        assert(items_text(items@, i + 1) == items_text(items@, i as int) + ", "@ + value_text(items@[i as int]));
                    }
                }
                i = i + 1;
                assert(out@ =~= "["@ + items_text(items@, i as int));
            }
            push_str(&mut out, "]");
            out
        },
        Expr::Number(n) => i64_to_string(*n),
        Expr::Float(f) => decimal_to_string(f.mantissa, f.scale),
        Expr::Bool(b) => if *b { String::from_str("true") } else { String::from_str("false") },
        Expr::Char(c) => char_to_string(*c),
        _ => String::new(),
    }
}

} // verus!
