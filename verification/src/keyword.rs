//! The reserved words of the language, as a standalone classifier.

use vstd::prelude::*;
use crate::chars::str_chars_eq;

verus! {

/// The fixed, closed set of reserved words.
#[derive(Debug, Eq, PartialEq, Clone, Copy, Structural)]
pub enum Keyword {
    Var,
    Fun,
    If,
    Else,
    Until,
    Loop,
    Return,
}

/// Which keyword, if any, a run of characters spells.
pub open spec fn spec_keyword(s: Seq<char>) -> Option<Keyword> {
    if s == "var"@ {
        Some(Keyword::Var)
    } else if s == "fun"@ {
        Some(Keyword::Fun)
    } else if s == "if"@ {
        Some(Keyword::If)
    } else if s == "else"@ {
        Some(Keyword::Else)
    } else if s == "until"@ {
        Some(Keyword::Until)
    } else if s == "loop"@ {
        Some(Keyword::Loop)
    } else if s == "return"@ {
        Some(Keyword::Return)
    } else {
        None
    }
}

impl Keyword {
    /// Classify a run of characters against the keyword table.
    pub fn from_str(s: &str) -> (r: Option<Keyword>)
        ensures
            r == spec_keyword(s@),
    {
        if str_chars_eq(s, "var") {
            Some(Keyword::Var)
        } else if str_chars_eq(s, "fun") {
            Some(Keyword::Fun)
        } else if str_chars_eq(s, "if") {
            Some(Keyword::If)
        } else if str_chars_eq(s, "else") {
            Some(Keyword::Else)
        } else if str_chars_eq(s, "until") {
            Some(Keyword::Until)
        } else if str_chars_eq(s, "loop") {
            Some(Keyword::Loop)
        } else if str_chars_eq(s, "return") {
            Some(Keyword::Return)
        } else {
            None
        }
    }
}

} // verus!
