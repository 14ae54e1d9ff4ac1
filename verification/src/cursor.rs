//! A peek-only navigation primitive over source text.
//!
//! The cursor offers one and two characters of lookahead and an end-of-text
//! test; peeking past the end returns the sentinel character rather than
//! failing. Advancing is not the cursor's job: the lexer keeps its own
//! position so that line/column bookkeeping stays in one place.

use vstd::prelude::*;

verus! {

/// The sentinel returned when peeking past the end of the text.
pub const EOF_CHAR: char = '\0';

pub struct Cursor<'a> {
    text: &'a str,
    prev: char,
}

impl<'a> Cursor<'a> {
    /// The characters the cursor ranges over.
    pub closed spec fn spec_text(&self) -> Seq<char> {
        self.text@
    }

    /// The most recently recorded previous character.
    pub closed spec fn spec_prev(&self) -> char {
        self.prev
    }

    pub fn new(source: &'a str) -> (r: Cursor<'a>)
        ensures
            r.spec_text() == source@,
            r.spec_prev() == EOF_CHAR,
    {
        Cursor { text: source, prev: EOF_CHAR }
    }

    /// The previous character, or the sentinel if none was recorded.
    pub fn prev(&self) -> (r: char)
        ensures
            r == self.spec_prev(),
    {
        self.prev
    }

    /// The character at the current position, without advancing; the
    /// sentinel if no characters remain.
    pub fn first(&self) -> (r: char)
        ensures
            r == if self.spec_text().len() > 0 {
                self.spec_text()[0]
            } else {
                EOF_CHAR
            },
    {
        if self.text.unicode_len() > 0 {
            self.text.get_char(0)
        } else {
            EOF_CHAR
        }
    }

    /// The character one past the current position, without advancing; the
    /// sentinel if fewer than two characters remain.
    pub fn second(&self) -> (r: char)
        ensures
            r == if self.spec_text().len() > 1 {
                self.spec_text()[1]
            } else {
                EOF_CHAR
            },
    {
        if self.text.unicode_len() > 1 {
            self.text.get_char(1)
        } else {
            EOF_CHAR
        }
    }

    /// True when no characters remain.
    pub fn is_eof(&self) -> (r: bool)
        ensures
            r == (self.spec_text().len() == 0),
    {
        self.text.unicode_len() == 0
    }
}

} // verus!
