//! Token payload classifiers: keywords, operators and literals.

use vstd::prelude::*;
use crate::chars::str_chars_eq;

verus! {

/// The fixed, closed set of reserved words recognized by the lexer.
#[derive(Debug, Eq, PartialEq, Clone, Copy, Structural)]
pub enum KeywordToken {
    Var,
    Fun,
    If,
    Else,
    Until,
    Loop,
    Return,
}

/// Which keyword, if any, a run of characters spells.
pub open spec fn spec_keyword_token(s: Seq<char>) -> Option<KeywordToken> {
    if s == "var"@ {
        Some(KeywordToken::Var)
    } else if s == "fun"@ {
        Some(KeywordToken::Fun)
    } else if s == "if"@ {
        Some(KeywordToken::If)
    } else if s == "else"@ {
        Some(KeywordToken::Else)
    } else if s == "until"@ {
        Some(KeywordToken::Until)
    } else if s == "loop"@ {
        Some(KeywordToken::Loop)
    } else if s == "return"@ {
        Some(KeywordToken::Return)
    } else {
        None
    }
}

/// The textual length of each keyword.
pub open spec fn spec_keyword_length(k: KeywordToken) -> int {
    match k {
        KeywordToken::Var => 3,
        KeywordToken::Fun => 3,
        KeywordToken::If => 2,
        KeywordToken::Else => 4,
        KeywordToken::Until => 5,
        KeywordToken::Loop => 4,
        KeywordToken::Return => 6,
    }
}

impl KeywordToken {
    /// Classify a run of characters against the keyword table.
    pub fn from_str(s: &str) -> (r: Option<KeywordToken>)
        ensures
            r == spec_keyword_token(s@),
    {
        if str_chars_eq(s, "var") {
            Some(KeywordToken::Var)
        } else if str_chars_eq(s, "fun") {
            Some(KeywordToken::Fun)
        } else if str_chars_eq(s, "if") {
            Some(KeywordToken::If)
        } else if str_chars_eq(s, "else") {
            Some(KeywordToken::Else)
        } else if str_chars_eq(s, "until") {
            Some(KeywordToken::Until)
        } else if str_chars_eq(s, "loop") {
            Some(KeywordToken::Loop)
        } else if str_chars_eq(s, "return") {
            Some(KeywordToken::Return)
        } else {
            None
        }
    }

    /// The number of characters this keyword occupies in source text.
    pub fn length(&self) -> (r: usize)
        ensures
            r == spec_keyword_length(*self),
    {
        match self {
            KeywordToken::Var => 3,
            KeywordToken::Fun => 3,
            KeywordToken::If => 2,
            KeywordToken::Else => 4,
            KeywordToken::Until => 5,
            KeywordToken::Loop => 4,
            KeywordToken::Return => 6,
        }
    }
}

/// The fixed, closed set of punctuation and operators. Some occupy one
/// character, some two; two-character forms are matched greedily.
#[derive(Debug, Eq, PartialEq, Clone, Copy, Structural)]
pub enum SyntaxToken {
    LBrace,
    RBrace,
    LParen,
    RParen,
    Assign,
    Comma,
    Dot,
    Minus,
    Not,
    Plus,
    Times,
    Slash,
    Mod,
    And,
    Or,
    Xor,
    Eq,
    Neq,
    Lt,
    Leq,
    Gt,
    Geq,
    LShift,
    RShift,
}

/// Which operator, if any, starts at a character `c` with lookahead `next`.
/// Two-character forms win over their one-character prefixes; `=` alone is
/// not an operator (assignment is written `:`), so it falls through to the
/// caller's unknown-character rule.
pub open spec fn spec_syntax_token(c: char, next: Option<char>) -> Option<SyntaxToken> {
    if c == '{' {
        Some(SyntaxToken::LBrace)
    } else if c == '}' {
        Some(SyntaxToken::RBrace)
    } else if c == '(' {
        Some(SyntaxToken::LParen)
    } else if c == ')' {
        Some(SyntaxToken::RParen)
    } else if c == ':' {
        Some(SyntaxToken::Assign)
    } else if c == ',' {
        Some(SyntaxToken::Comma)
    } else if c == '.' {
        Some(SyntaxToken::Dot)
    } else if c == '-' {
        Some(SyntaxToken::Minus)
    } else if c == '!' {
        if next == Some('=') {
            Some(SyntaxToken::Neq)
        } else {
            Some(SyntaxToken::Not)
        }
    } else if c == '+' {
        Some(SyntaxToken::Plus)
    } else if c == '*' {
        Some(SyntaxToken::Times)
    } else if c == '/' {
        Some(SyntaxToken::Slash)
    } else if c == '%' {
        Some(SyntaxToken::Mod)
    } else if c == '&' {
        Some(SyntaxToken::And)
    } else if c == '|' {
        Some(SyntaxToken::Or)
    } else if c == '^' {
        Some(SyntaxToken::Xor)
    } else if c == '=' {
        if next == Some('=') {
            Some(SyntaxToken::Eq)
        } else {
            None
        }
    } else if c == '<' {
        if next == Some('=') {
            Some(SyntaxToken::Leq)
        } else if next == Some('<') {
            Some(SyntaxToken::LShift)
        } else {
            Some(SyntaxToken::Lt)
        }
    } else if c == '>' {
        if next == Some('=') {
            Some(SyntaxToken::Geq)
        } else if next == Some('>') {
            Some(SyntaxToken::RShift)
        } else {
            Some(SyntaxToken::Gt)
        }
    } else {
        None
    }
}

/// The textual length of each operator: 1 or 2 characters.
pub open spec fn spec_syntax_length(t: SyntaxToken) -> int {
    match t {
        SyntaxToken::Eq => 2,
        SyntaxToken::Neq => 2,
        SyntaxToken::Leq => 2,
        SyntaxToken::Geq => 2,
        SyntaxToken::LShift => 2,
        SyntaxToken::RShift => 2,
        _ => 1,
    }
}

impl SyntaxToken {
    /// Classify the character `c`, with one character of lookahead, against
    /// the operator table.
    pub fn from_char(c: char, next: Option<char>) -> (r: Option<SyntaxToken>)
        ensures
            r == spec_syntax_token(c, next),
    {
        match (c, next) {
            ('{', _) => Some(SyntaxToken::LBrace),
            ('}', _) => Some(SyntaxToken::RBrace),
            ('(', _) => Some(SyntaxToken::LParen),
            (')', _) => Some(SyntaxToken::RParen),
            (':', _) => Some(SyntaxToken::Assign),
            (',', _) => Some(SyntaxToken::Comma),
            ('.', _) => Some(SyntaxToken::Dot),
            ('-', _) => Some(SyntaxToken::Minus),
            ('!', Some('=')) => Some(SyntaxToken::Neq),
            ('!', _) => Some(SyntaxToken::Not),
            ('+', _) => Some(SyntaxToken::Plus),
            ('*', _) => Some(SyntaxToken::Times),
            ('/', _) => Some(SyntaxToken::Slash),
            ('%', _) => Some(SyntaxToken::Mod),
            ('&', _) => Some(SyntaxToken::And),
            ('|', _) => Some(SyntaxToken::Or),
            ('^', _) => Some(SyntaxToken::Xor),
            ('=', Some('=')) => Some(SyntaxToken::Eq),
            ('<', Some('=')) => Some(SyntaxToken::Leq),
            ('>', Some('=')) => Some(SyntaxToken::Geq),
            ('<', Some('<')) => Some(SyntaxToken::LShift),
            ('>', Some('>')) => Some(SyntaxToken::RShift),
            ('<', _) => Some(SyntaxToken::Lt),
            ('>', _) => Some(SyntaxToken::Gt),
            _ => None,
        }
    }

    /// The number of characters this operator occupies in source text.
    pub fn length(&self) -> (r: usize)
        ensures
            r == spec_syntax_length(*self),
    {
        match self {
            SyntaxToken::Eq => 2,
            SyntaxToken::Neq => 2,
            SyntaxToken::Leq => 2,
            SyntaxToken::Geq => 2,
            SyntaxToken::LShift => 2,
            SyntaxToken::RShift => 2,
            _ => 1,
        }
    }
}

/// Literal payloads: a single character, a 64-bit signed integer, or a
/// string (stored without its surrounding quotes).
#[derive(Debug, Eq, PartialEq)]
pub enum LiteralToken {
    Character(char),
    Integer(i64),
    String(String),
}

} // verus!
