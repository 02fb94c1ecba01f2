use vstd::prelude::*;
use crate::token::{SpecToken, Token, token_copy};

verus! {

/// An optional token.
#[derive(Debug)]
pub enum OptionToken {
    Value(Token),
    Nothing,
}

/// An optional character.
#[derive(Debug)]
pub enum OptionChar {
    Value(char),
    Nothing,
}

/// A growable list of tokens.
#[derive(Debug)]
pub struct TokenList {
    inner: Vec<Token>,
}

impl View for TokenList {
    type V = Seq<SpecToken>;

    closed spec fn view(&self) -> Seq<SpecToken> {
        self.inner@.map_values(|t: Token| t@)
    }
}

impl TokenList {
    /// An empty list.
    pub fn new() -> (r: Self)
        ensures
            r@ == Seq::<SpecToken>::empty(),
    {
        let r = TokenList { inner: Vec::new() };
        assert(r@ =~= Seq::<SpecToken>::empty());
        r
    }

    /// Appends a token at the end.
    pub fn push(&mut self, token: Token)
        ensures
            final(self)@ == old(self)@.push(token@),
    {
        let ghost v = token@;
        self.inner.push(token);
        assert(self@ =~= old(self)@.push(v));
    }

    /// The token at `index`, if there is one.
    pub fn get(&self, index: usize) -> (r: OptionToken)
        ensures
            index < self@.len() ==> (r matches OptionToken::Value(t) && t@ == self@[index as int]),
            index >= self@.len() ==> r is Nothing,
    {
        if index < self.inner.len() {
            OptionToken::Value(token_copy(&self.inner[index]))
        } else {
            OptionToken::Nothing
        }
    }

    /// The number of tokens.
    pub fn len(&self) -> (r: usize)
        ensures
            r == self@.len(),
    {
        self.inner.len()
    }
}

/// The characters of a source text, indexable by position.
pub struct CharList {
    inner: Vec<char>,
}

impl View for CharList {
    type V = Seq<char>;

    closed spec fn view(&self) -> Seq<char> {
        self.inner@
    }
}

impl CharList {
    /// The number of characters fits in a `usize`.
    pub proof fn lemma_len_fits(&self)
        ensures
            self@.len() <= usize::MAX,
    {
        assert(self.inner@.len() == self.inner.len());
    }

    /// The characters of `s`, in order.
    pub fn from_string(s: String) -> (r: Self)
        ensures
            r@ == s@,
    {
        let text: &str = s.as_str();
        let n: usize = text.unicode_len();
        let mut inner: Vec<char> = Vec::new();
        let mut i: usize = 0;
        while i < n
            invariant
                n == text@.len(),
                text@ == s@,
                i <= n,
                inner@ == text@.subrange(0, i as int),
            decreases n - i,
        {
            let c: char = text.get_char(i);
            inner.push(c);
            i = i + 1;
            assert(inner@ =~= text@.subrange(0, i as int));
        }
        assert(text@.subrange(0, n as int) =~= text@);
        CharList { inner }
    }

    /// The character at `index`, if there is one.
    pub fn get(&self, index: usize) -> (r: OptionChar)
        ensures
            index < self@.len() ==> r == OptionChar::Value(self@[index as int]),
            index >= self@.len() ==> r is Nothing,
    {
        if index < self.inner.len() {
            OptionChar::Value(self.inner[index])
        } else {
            OptionChar::Nothing
        }
    }

    /// The number of characters.
    pub fn len(&self) -> (r: usize)
        ensures
            r == self@.len(),
    {
        self.inner.len()
    }
}

} // verus!
