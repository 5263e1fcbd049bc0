//! List literals.
use vstd::prelude::*;
use crate::lexer::Token;
use crate::parser::ast::Expr;
use crate::parser::stream::TokenStream;

verus! {

/// Whether a token stands for a list element.
pub open spec fn is_list_item(t: Token) -> bool {
    t is StringLiteral || t is True || t is False || t is Float || t is Number || t is This
}

/// Whether `e` is the list element written by token `t`.
pub open spec fn list_item_from(t: Token, e: Expr) -> bool {
    match t {
        Token::StringLiteral(s) => e matches Expr::String(x, false) && x == s,
        Token::True => e == Expr::Bool(true),
        Token::False => e == Expr::Bool(false),
        Token::Float(f) => e == Expr::Float(f),
        Token::Number(n) => e == Expr::Number(n),
        Token::This => e matches Expr::VariableRef { name, transpiled_name: Some(tn), symbol: None }
            && name@ == "self"@ && tn@ == "self"@,
        _ => false,
    }
}

/// The position where the list starting at `i` ends: just after its `]`,
/// or the end of the tokens.
pub open spec fn list_end(toks: Seq<Token>, i: int) -> int
    decreases toks.len() - i,
{
    if i < 0 || i >= toks.len() {
        toks.len() as int
    } else if toks[i] is ListEnd {
        i + 1
    } else {
        list_end(toks, i + 1)
    }
}

/// The tokens from `i` up to the closing `]` that stand for elements.
pub open spec fn list_items(toks: Seq<Token>, i: int) -> Seq<Token>
    decreases toks.len() - i,
{
    if i < 0 || i >= toks.len() || toks[i] is ListEnd {
        Seq::empty()
    } else if is_list_item(toks[i]) {
        seq![toks[i]] + list_items(toks, i + 1)
    } else {
        list_items(toks, i + 1)
    }
}

proof fn lemma_list_items_step(toks: Seq<Token>, i: int)
    requires
        0 <= i < toks.len(),
        !(toks[i] is ListEnd),
    ensures
        list_end(toks, i) == list_end(toks, i + 1),
        list_items(toks, i) == if is_list_item(toks[i]) {
            seq![toks[i]] + list_items(toks, i + 1)
        } else {
            list_items(toks, i + 1)
        },
{
}

/// Reads the elements of a list literal after its `[` (`parse_list`): text,
/// truth, number and decimal literals and `self`; other tokens are skipped.
pub fn parse_list(tokens: &mut TokenStream) -> (r: Expr)
    requires
        old(tokens).wf(),
    ensures
        final(tokens).wf(),
        final(tokens).tokens == old(tokens).tokens,
        final(tokens).pos == list_end(old(tokens).tokens@, old(tokens).pos as int),
        r matches Expr::List(items) && items@.len() == list_items(old(tokens).tokens@, old(tokens).pos as int).len()
            && forall|k: int| 0 <= k < items@.len() ==>
                list_item_from(#[trigger] list_items(old(tokens).tokens@, old(tokens).pos as int)[k], items@[k]),
{
    let ghost toks = tokens.tokens@;
    let ghost start = tokens.pos as int;
    let mut elements: Vec<Expr> = Vec::new();
    loop
        invariant_except_break
            list_end(toks, start) == list_end(toks, tokens.pos as int),
            list_items(toks, start) == list_items(toks, start).subrange(0, elements@.len() as int)
                + list_items(toks, tokens.pos as int),
        invariant
            tokens.wf(),
            tokens.tokens == old(tokens).tokens,
            toks == tokens.tokens@,
            start <= tokens.pos,
            elements@.len() <= list_items(toks, start).len(),
            forall|k: int| 0 <= k < elements@.len() ==>
                list_item_from(#[trigger] list_items(toks, start)[k], elements@[k]),
        ensures
            tokens.wf(),
            tokens.tokens == old(tokens).tokens,
            tokens.pos == list_end(toks, start),
            elements@.len() == list_items(toks, start).len(),
            forall|k: int| 0 <= k < elements@.len() ==>
                list_item_from(#[trigger] list_items(toks, start)[k], elements@[k]),
        decreases tokens.remaining(),
    {
        let ghost p = tokens.pos as int;
        let ghost all = list_items(toks, start);
        let ghost n = elements@.len() as int;
        let token = match tokens.next() {
            Some(t) => t,
            None => {
                assert(list_items(toks, p) =~= Seq::<Token>::empty());
                assert(all =~= all.subrange(0, n));
                break;
            },
        };
        if let Token::ListEnd = token {
            assert(list_items(toks, p) =~= Seq::<Token>::empty());
            assert(all =~= all.subrange(0, n));
            break;
        }
        proof {
            lemma_list_items_step(toks, p);
        }
        let e = match token {
            Token::StringLiteral(s) => Some(Expr::String(s.clone(), false)),
            Token::True => Some(Expr::Bool(true)),
            Token::False => Some(Expr::Bool(false)),
            Token::Float(num) => Some(Expr::Float(*num)),
            Token::Number(num) => Some(Expr::Number(*num)),
            Token::This => {
                proof { reveal_strlit("self"); }
                Some(Expr::VariableRef {
                    name: String::from_str("self"),
                    transpiled_name: Some(String::from_str("self")),
                    symbol: None,
                })
            },
            _ => None,
        };
        match e {
            Some(e) => {
                proof {
                    assert(all == all.subrange(0, n) + list_items(toks, p));
                    assert(list_items(toks, p) == seq![toks[p]] + list_items(toks, p + 1));
                    assert(all[n] == toks[p]);
                    assert(all =~= all.subrange(0, n + 1) + list_items(toks, p + 1));
                }
                elements.push(e);
            },
            None => {},
        }
    }
    Expr::List(elements)
}

} // verus!

verus! {

/// The end of a list lies at or after its start.
pub proof fn lemma_list_end_ge(toks: Seq<Token>, i: int)
    requires
        0 <= i,
    ensures
        i <= list_end(toks, i) <= toks.len() || (i > toks.len() && list_end(toks, i) == toks.len()),
    decreases toks.len() - i,
{
    if i < toks.len() && !(toks[i] is ListEnd) {
        lemma_list_end_ge(toks, i + 1);
    }
}

} // verus!
