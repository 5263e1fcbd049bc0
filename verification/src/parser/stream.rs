//! A cursor over a token list with one-token lookahead: the library's own
//! form of the `peekmore` iterator the parser walks.
use vstd::prelude::*;
use crate::lexer::Token;

verus! {

/// The tokens of a program and the position of the next token to read.
pub struct TokenStream<'a> {
    pub tokens: &'a Vec<Token>,
    pub pos: usize,
}

impl<'a> TokenStream<'a> {
    /// The position lies within the tokens (or just after the last one).
    pub open spec fn wf(&self) -> bool {
        self.pos <= self.tokens@.len()
    }

    /// How many tokens are left to read.
    pub open spec fn remaining(&self) -> int {
        self.tokens@.len() - self.pos
    }

    /// The token at position `i`, if any.
    pub open spec fn at(&self, i: int) -> Option<Token> {
        if 0 <= i < self.tokens@.len() { Some(self.tokens@[i]) } else { None }
    }

    /// The next token, if any.
    pub open spec fn peek_spec(&self) -> Option<Token> {
        self.at(self.pos as int)
    }

    /// `after` reads the same tokens as `self` and is not behind it.
    pub open spec fn advanced_to(&self, after: Self) -> bool {
        &&& after.tokens == self.tokens
        &&& self.pos <= after.pos <= self.tokens@.len()
    }

    /// A cursor at the first token.
    pub fn new(tokens: &'a Vec<Token>) -> (s: Self)
        ensures
            s.wf(),
            s.pos == 0,
            s.tokens == tokens,
    {
        TokenStream { tokens, pos: 0 }
    }

    /// The next token, not consumed (`peek`).
    pub fn peek(&self) -> (r: Option<&'a Token>)
        requires
            self.wf(),
        ensures
            r == match self.peek_spec() { Some(t) => Some(&t), None => None::<&Token> },
            r is Some <==> self.pos < self.tokens@.len(),
    {
        if self.pos < self.tokens.len() {
            Some(&self.tokens[self.pos])
        } else {
            None
        }
    }

    /// The next token, consumed (`next`).
    pub fn next(&mut self) -> (r: Option<&'a Token>)
        requires
            old(self).wf(),
        ensures
            final(self).wf(),
            final(self).tokens == old(self).tokens,
            r == match old(self).peek_spec() { Some(t) => Some(&t), None => None::<&Token> },
            old(self).pos < old(self).tokens@.len() ==> final(self).pos == old(self).pos + 1,
            old(self).pos == old(self).tokens@.len() ==> final(self).pos == old(self).pos,
    {
        if self.pos < self.tokens.len() {
            let t = &self.tokens[self.pos];
            self.pos = self.pos + 1;
            Some(t)
        } else {
            None
        }
    }

    /// Skips `n` tokens and reads the one after them (`nth`).
    pub fn nth(&mut self, n: usize) -> (r: Option<&'a Token>)
        requires
            old(self).wf(),
        ensures
            final(self).wf(),
            final(self).tokens == old(self).tokens,
            r == match old(self).at(old(self).pos + n) { Some(t) => Some(&t), None => None::<&Token> },
            old(self).pos + n < old(self).tokens@.len() ==> final(self).pos == old(self).pos + n + 1,
            old(self).pos + n >= old(self).tokens@.len() ==> final(self).pos == old(self).tokens@.len(),
    {
        let len = self.tokens.len();
        if n < len - self.pos {
            self.pos = self.pos + n;
            let t = &self.tokens[self.pos];
            self.pos = self.pos + 1;
            Some(t)
        } else {
            self.pos = len;
            None
        }
    }
}

} // verus!

verus! {

/// `after` is a well-formed cursor over the same tokens, not behind `before`.
pub open spec fn moved_on(before: TokenStream, after: TokenStream) -> bool {
    after.wf() && before.advanced_to(after)
}

/// As `moved_on`, and strictly past `before` when the parse succeeded.
pub open spec fn parsed<T, E>(before: TokenStream, after: TokenStream, r: Result<T, E>) -> bool {
    &&& moved_on(before, after)
    &&& r is Ok ==> before.pos < after.pos
}

} // verus!
