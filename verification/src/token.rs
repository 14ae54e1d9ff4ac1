//! Tokens: a classified payload together with the source position at which
//! the token starts.

use vstd::prelude::*;
use crate::types::{KeywordToken, LiteralToken, SyntaxToken};

verus! {

/// The mathematical shape of a literal payload: strings are sequences of
/// characters, so two payloads are the same exactly when their text is.
pub ghost enum LiteralShape {
    Character(char),
    Integer(i64),
    String(Seq<char>),
}

/// The mathematical shape of a token payload.
pub ghost enum TokenShape {
    Keyword(KeywordToken),
    Syntax(SyntaxToken),
    Identifier(Seq<char>),
    Literal(LiteralShape),
    Unknown(char),
    Eof,
    NL,
}

/// The mathematical shape of a token: its payload and the 0-based character
/// offset, 1-based line and 1-based column at which it starts.
pub ghost struct TokenShapeAt {
    pub shape: TokenShape,
    pub index: int,
    pub line: int,
    pub col: int,
}

/// The shapes of a list of tokens, in order.
pub open spec fn spec_token_views(ts: Seq<Token>) -> Seq<TokenShapeAt> {
    ts.map_values(|t: Token| t@)
}

/// The closed variant set of lexical categories.
#[derive(Debug, Eq, PartialEq)]
pub enum TokenType {
    Keyword(KeywordToken),
    Syntax(SyntaxToken),
    Identifier(String),
    Literal(LiteralToken),
    Unknown(char),
    Eof,
    NL,
}

impl View for LiteralToken {
    type V = LiteralShape;

    open spec fn view(&self) -> LiteralShape {
        match self {
            LiteralToken::Character(c) => LiteralShape::Character(*c),
            LiteralToken::Integer(n) => LiteralShape::Integer(*n),
            LiteralToken::String(s) => LiteralShape::String(s@),
        }
    }
}

impl View for TokenType {
    type V = TokenShape;

    open spec fn view(&self) -> TokenShape {
        match self {
            TokenType::Keyword(k) => TokenShape::Keyword(*k),
            TokenType::Syntax(t) => TokenShape::Syntax(*t),
            TokenType::Identifier(s) => TokenShape::Identifier(s@),
            TokenType::Literal(l) => TokenShape::Literal(l@),
            TokenType::Unknown(c) => TokenShape::Unknown(*c),
            TokenType::Eof => TokenShape::Eof,
            TokenType::NL => TokenShape::NL,
        }
    }
}

impl Clone for LiteralToken {
    fn clone(&self) -> (r: Self)
        ensures
            r@ == self@,
    {
        match self {
            LiteralToken::Character(c) => LiteralToken::Character(*c),
            LiteralToken::Integer(n) => LiteralToken::Integer(*n),
            LiteralToken::String(s) => LiteralToken::String(s.clone()),
        }
    }
}

impl Clone for TokenType {
    fn clone(&self) -> (r: Self)
        ensures
            r@ == self@,
    {
        match self {
            TokenType::Keyword(k) => TokenType::Keyword(*k),
            TokenType::Syntax(t) => TokenType::Syntax(*t),
            TokenType::Identifier(s) => TokenType::Identifier(s.clone()),
            TokenType::Literal(l) => TokenType::Literal(l.clone()),
            TokenType::Unknown(c) => TokenType::Unknown(*c),
            TokenType::Eof => TokenType::Eof,
            TokenType::NL => TokenType::NL,
        }
    }
}

/// A classified, positioned unit of lexical meaning. The position always
/// refers to the first character consumed for the token.
#[derive(Debug, Eq, PartialEq)]
pub struct Token {
    token_type: TokenType,
    index: usize,
    line_no: usize,
    col_no: usize,
}

impl View for Token {
    type V = TokenShapeAt;

    closed spec fn view(&self) -> TokenShapeAt {
        TokenShapeAt {
            shape: self.token_type@,
            index: self.index as int,
            line: self.line_no as int,
            col: self.col_no as int,
        }
    }
}

impl Clone for Token {
    fn clone(&self) -> (r: Self)
        ensures
            r@ == self@,
    {
        Token {
            token_type: self.token_type.clone(),
            index: self.index,
            line_no: self.line_no,
            col_no: self.col_no,
        }
    }
}

impl TokenType {
    /// Attach a start position to this payload.
    pub fn at(self, index: usize, line_no: usize, col_no: usize) -> (r: Token)
        ensures
            r@ == (TokenShapeAt {
                shape: self@,
                index: index as int,
                line: line_no as int,
                col: col_no as int,
            }),
    {
        Token { token_type: self, index, line_no, col_no }
    }

    /// The one-character fallback classification: the single-character
    /// operators, or `Unknown` for anything else (a bare `=` included).
    pub fn from_char(c: char) -> (r: TokenType)
        ensures
            r@ == (match crate::types::spec_syntax_token(c, None) {
                Some(t) => TokenShape::Syntax(t),
                None => TokenShape::Unknown(c),
            }),
    {
        match SyntaxToken::from_char(c, None) {
            Some(t) => TokenType::Syntax(t),
            None => TokenType::Unknown(c),
        }
    }
}

impl Token {
    /// A copy of this token's payload.
    pub fn token_type(&self) -> (r: TokenType)
        ensures
            r@ == self@.shape,
    {
        self.token_type.clone()
    }

    pub fn is_keyword(&self) -> (r: bool)
        ensures
            r == (self@.shape is Keyword),
    {
        matches!(self.token_type, TokenType::Keyword(_))
    }

    pub fn is_identifier(&self) -> (r: bool)
        ensures
            r == (self@.shape is Identifier),
    {
        matches!(self.token_type, TokenType::Identifier(_))
    }

    pub fn is_integer_literal(&self) -> (r: bool)
        ensures
            r == (self@.shape matches TokenShape::Literal(l) && l is Integer),
    {
        matches!(self.token_type, TokenType::Literal(LiteralToken::Integer(_)))
    }

    pub fn is_string_literal(&self) -> (r: bool)
        ensures
            r == (self@.shape matches TokenShape::Literal(l) && l is String),
    {
        matches!(self.token_type, TokenType::Literal(LiteralToken::String(_)))
    }

    pub fn is_character_literal(&self) -> (r: bool)
        ensures
            r == (self@.shape matches TokenShape::Literal(l) && l is Character),
    {
        matches!(self.token_type, TokenType::Literal(LiteralToken::Character(_)))
    }

    pub fn is_nl(&self) -> (r: bool)
        ensures
            r == (self@.shape is NL),
    {
        matches!(self.token_type, TokenType::NL)
    }

    pub fn is_eof(&self) -> (r: bool)
        ensures
            r == (self@.shape is Eof),
    {
        matches!(self.token_type, TokenType::Eof)
    }

    /// The 0-based character offset of the token's first character.
    pub fn index(&self) -> (r: usize)
        ensures
            r == self@.index,
    {
        self.index
    }

    /// The 1-based line at which the token starts.
    pub fn line_no(&self) -> (r: usize)
        ensures
            r == self@.line,
    {
        self.line_no
    }

    /// The 1-based column at which the token starts.
    pub fn col_no(&self) -> (r: usize)
        ensures
            r == self@.col,
    {
        self.col_no
    }
}

} // verus!
