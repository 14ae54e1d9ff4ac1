//! The ordered output of one lexing pass, with read-only category filters.

use vstd::prelude::*;
use crate::token::{spec_token_views, Token, TokenShape, TokenShapeAt};

verus! {

/// The complete ordered token list of one `lex` invocation: source order,
/// never mutated afterward. Filtering operations produce new streams holding
/// only the matching subsequence, in the same relative order.
#[derive(Debug)]
pub struct TokenStream {
    pub tokens: Vec<Token>,
}

impl View for TokenStream {
    type V = Seq<TokenShapeAt>;

    open spec fn view(&self) -> Seq<TokenShapeAt> {
        spec_token_views(self.tokens@)
    }
}

/// Selects keyword tokens.
pub open spec fn keyword_pred() -> spec_fn(TokenShapeAt) -> bool {
    |t: TokenShapeAt| t.shape is Keyword
}

/// Selects identifier tokens.
pub open spec fn identifier_pred() -> spec_fn(TokenShapeAt) -> bool {
    |t: TokenShapeAt| t.shape is Identifier
}

/// Selects integer-literal tokens.
pub open spec fn integer_literal_pred() -> spec_fn(TokenShapeAt) -> bool {
    |t: TokenShapeAt| t.shape matches TokenShape::Literal(l) && l is Integer
}

/// Selects string-literal tokens.
pub open spec fn string_literal_pred() -> spec_fn(TokenShapeAt) -> bool {
    |t: TokenShapeAt| t.shape matches TokenShape::Literal(l) && l is String
}

/// Selects character-literal tokens.
pub open spec fn character_literal_pred() -> spec_fn(TokenShapeAt) -> bool {
    |t: TokenShapeAt| t.shape matches TokenShape::Literal(l) && l is Character
}

impl TokenStream {
    /// The keyword tokens, in original order.
    pub fn get_keywords(&self) -> (r: TokenStream)
        ensures
            r@ == self@.filter(keyword_pred()),
    {
        let mut out: Vec<Token> = Vec::new();
        let n = self.tokens.len();
        let mut i: usize = 0;
        while i < n
            invariant
                n == self.tokens@.len(),
                i <= n,
                spec_token_views(out@) == spec_token_views(self.tokens@.subrange(0, i as int))
                    .filter(keyword_pred()),
            decreases n - i,
        {
            let ghost prefix = spec_token_views(self.tokens@.subrange(0, i as int));
            let ghost extended = spec_token_views(self.tokens@.subrange(0, i as int + 1));
            let t = &self.tokens[i];
            proof {
                reveal(Seq::filter);
                assert(extended.drop_last() =~= prefix);
                assert(extended.last() == t@);
            }
            if t.is_keyword() {
                out.push(t.clone());
            }
            proof {
                assert(spec_token_views(out@) =~= extended.filter(keyword_pred()));
            }
            i = i + 1;
        }
        proof {
            assert(self.tokens@.subrange(0, n as int) =~= self.tokens@);
        }
        TokenStream { tokens: out }
    }

    /// The identifier tokens, in original order.
    pub fn get_identifiers(&self) -> (r: TokenStream)
        ensures
            r@ == self@.filter(identifier_pred()),
    {
        let mut out: Vec<Token> = Vec::new();
        let n = self.tokens.len();
        let mut i: usize = 0;
        while i < n
            invariant
                n == self.tokens@.len(),
                i <= n,
                spec_token_views(out@) == spec_token_views(self.tokens@.subrange(0, i as int))
                    .filter(identifier_pred()),
            decreases n - i,
        {
            let ghost prefix = spec_token_views(self.tokens@.subrange(0, i as int));
            let ghost extended = spec_token_views(self.tokens@.subrange(0, i as int + 1));
            let t = &self.tokens[i];
            proof {
                reveal(Seq::filter);
                assert(extended.drop_last() =~= prefix);
                assert(extended.last() == t@);
            }
            if t.is_identifier() {
                out.push(t.clone());
            }
            proof {
                assert(spec_token_views(out@) =~= extended.filter(identifier_pred()));
            }
            i = i + 1;
        }
        proof {
            assert(self.tokens@.subrange(0, n as int) =~= self.tokens@);
        }
        TokenStream { tokens: out }
    }

    /// The integer-literal tokens, in original order.
    pub fn get_integer_literals(&self) -> (r: TokenStream)
        ensures
            r@ == self@.filter(integer_literal_pred()),
    {
        let mut out: Vec<Token> = Vec::new();
        let n = self.tokens.len();
        let mut i: usize = 0;
        while i < n
            invariant
                n == self.tokens@.len(),
                i <= n,
                spec_token_views(out@) == spec_token_views(self.tokens@.subrange(0, i as int))
                    .filter(integer_literal_pred()),
            decreases n - i,
        {
            let ghost prefix = spec_token_views(self.tokens@.subrange(0, i as int));
            let ghost extended = spec_token_views(self.tokens@.subrange(0, i as int + 1));
            let t = &self.tokens[i];
            proof {
                reveal(Seq::filter);
                assert(extended.drop_last() =~= prefix);
                assert(extended.last() == t@);
            }
            if t.is_integer_literal() {
                out.push(t.clone());
            }
            proof {
                assert(spec_token_views(out@) =~= extended.filter(integer_literal_pred()));
            }
            i = i + 1;
        }
        proof {
            assert(self.tokens@.subrange(0, n as int) =~= self.tokens@);
        }
        TokenStream { tokens: out }
    }

    /// The string-literal tokens, in original order.
    pub fn get_string_literals(&self) -> (r: TokenStream)
        ensures
            r@ == self@.filter(string_literal_pred()),
    {
        let mut out: Vec<Token> = Vec::new();
        let n = self.tokens.len();
        let mut i: usize = 0;
        while i < n
            invariant
                n == self.tokens@.len(),
                i <= n,
                spec_token_views(out@) == spec_token_views(self.tokens@.subrange(0, i as int))
                    .filter(string_literal_pred()),
            decreases n - i,
        {
            let ghost prefix = spec_token_views(self.tokens@.subrange(0, i as int));
            let ghost extended = spec_token_views(self.tokens@.subrange(0, i as int + 1));
            let t = &self.tokens[i];
            proof {
                reveal(Seq::filter);
                assert(extended.drop_last() =~= prefix);
                assert(extended.last() == t@);
            }
            if t.is_string_literal() {
                out.push(t.clone());
            }
            proof {
                assert(spec_token_views(out@) =~= extended.filter(string_literal_pred()));
            }
            i = i + 1;
        }
        proof {
            assert(self.tokens@.subrange(0, n as int) =~= self.tokens@);
        }
        TokenStream { tokens: out }
    }

    /// The character-literal tokens, in original order.
    pub fn get_character_literals(&self) -> (r: TokenStream)
        ensures
            r@ == self@.filter(character_literal_pred()),
    {
        let mut out: Vec<Token> = Vec::new();
        let n = self.tokens.len();
        let mut i: usize = 0;
        while i < n
            invariant
                n == self.tokens@.len(),
                i <= n,
                spec_token_views(out@) == spec_token_views(self.tokens@.subrange(0, i as int))
                    .filter(character_literal_pred()),
            decreases n - i,
        {
            let ghost prefix = spec_token_views(self.tokens@.subrange(0, i as int));
            let ghost extended = spec_token_views(self.tokens@.subrange(0, i as int + 1));
            let t = &self.tokens[i];
            proof {
                reveal(Seq::filter);
                assert(extended.drop_last() =~= prefix);
                assert(extended.last() == t@);
            }
            if t.is_character_literal() {
                out.push(t.clone());
            }
            proof {
                assert(spec_token_views(out@) =~= extended.filter(character_literal_pred()));
            }
            i = i + 1;
        }
        proof {
            assert(self.tokens@.subrange(0, n as int) =~= self.tokens@);
        }
        TokenStream { tokens: out }
    }
}

} // verus!
