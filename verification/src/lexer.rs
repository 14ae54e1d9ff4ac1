//! The lexer: scans source text into a positioned token list, then folds
//! runs of consecutive line-break tokens into single boundaries.
//!
//! The whole scan is specified by a mathematical model: `spec_next_token`
//! gives the next token (or error) at a scan position, `spec_tokens` the raw
//! token list of a source text, `spec_fold_nls` the newline-folding pass and
//! `spec_lex` their composition. `Lexer::lex` is proved to return exactly
//! `spec_lex` of its input.

use vstd::prelude::*;
use crate::stream::TokenStream;
use crate::chars::{
    digit_value, is_alpha, is_alphanumeric, is_digit, is_whitespace, spec_digit_value,
    spec_is_alpha, spec_is_alphanumeric, spec_is_digit, spec_is_whitespace,
};
use crate::token::{spec_token_views, LiteralShape, Token, TokenShape, TokenShapeAt, TokenType};
use crate::types::{
    spec_keyword_token, spec_syntax_length, spec_syntax_token, KeywordToken, LiteralToken,
    SyntaxToken,
};

verus! {

/// The mathematical shape of a lexing error: its category and the 1-based
/// line and column at which the problem was detected.
pub ghost enum ErrorShape {
    InvalidCharacter(char, int, int),
    InvalidStringLiteral(int, int),
    InvalidCharacterLiteral(int, int),
    InvalidIntegerLiteral(int, int),
    InvalidIdentifier(int, int),
    InvalidComment(int, int),
    InvalidEOF(int, int),
    InvalidEOL(int, int),
    Unknown(int, int),
}

/// A positioned lexing error. Every error is fatal to the `lex` call that
/// raised it: the scan aborts and the error is returned to the caller.
#[derive(Debug, Eq, PartialEq, Clone, Copy)]
pub enum LexerError {
    /// A character that the scan could not act on at all.
    InvalidCharacter(char, usize, usize),
    /// A string literal with no closing quote before end of input; positioned
    /// at the opening quote.
    InvalidStringLiteral(usize, usize),
    /// A character literal whose closing quote is absent.
    InvalidCharacterLiteral(usize, usize),
    /// An integer literal that does not fit in a signed 64-bit value;
    /// positioned at its first digit.
    InvalidIntegerLiteral(usize, usize),
    /// An alphanumeric run that could not be taken as an identifier.
    InvalidIdentifier(usize, usize),
    /// A malformed comment.
    InvalidComment(usize, usize),
    /// Unexpected end of input.
    InvalidEOF(usize, usize),
    /// A comment with no newline before end of input; positioned at the `#`.
    InvalidEOL(usize, usize),
    /// An unclassified fallback.
    Unknown(usize, usize),
}

impl View for LexerError {
    type V = ErrorShape;

    open spec fn view(&self) -> ErrorShape {
        match self {
            LexerError::InvalidCharacter(c, l, n) => ErrorShape::InvalidCharacter(
                *c,
                *l as int,
                *n as int,
            ),
            LexerError::InvalidStringLiteral(l, n) => ErrorShape::InvalidStringLiteral(
                *l as int,
                *n as int,
            ),
            LexerError::InvalidCharacterLiteral(l, n) => ErrorShape::InvalidCharacterLiteral(
                *l as int,
                *n as int,
            ),
            LexerError::InvalidIntegerLiteral(l, n) => ErrorShape::InvalidIntegerLiteral(
                *l as int,
                *n as int,
            ),
            LexerError::InvalidIdentifier(l, n) => ErrorShape::InvalidIdentifier(
                *l as int,
                *n as int,
            ),
            LexerError::InvalidComment(l, n) => ErrorShape::InvalidComment(*l as int, *n as int),
            LexerError::InvalidEOF(l, n) => ErrorShape::InvalidEOF(*l as int, *n as int),
            LexerError::InvalidEOL(l, n) => ErrorShape::InvalidEOL(*l as int, *n as int),
            LexerError::Unknown(l, n) => ErrorShape::Unknown(*l as int, *n as int),
        }
    }
}

/// A scan position: 0-based character offset, 1-based line, 1-based column.
pub ghost struct ScanPos {
    pub idx: int,
    pub line: int,
    pub col: int,
}

/// What one step of the scan produces: a token and the position after it,
/// the final position when only ignorable input remained, or an error.
pub ghost enum ScanStep {
    Tok(TokenShapeAt, ScanPos),
    Done(ScanPos),
    Fail(ErrorShape),
}

/// The end of the alphanumeric run starting at `i`: the least position at or
/// past `i` that is not alphanumeric.
pub open spec fn spec_ident_end(s: Seq<char>, i: int) -> int
    decreases s.len() - i,
{
    if 0 <= i < s.len() && spec_is_alphanumeric(s[i]) {
        spec_ident_end(s, i + 1)
    } else {
        i
    }
}

/// The end of the decimal-digit run starting at `i`.
pub open spec fn spec_digits_end(s: Seq<char>, i: int) -> int
    decreases s.len() - i,
{
    if 0 <= i < s.len() && spec_is_digit(s[i]) {
        spec_digits_end(s, i + 1)
    } else {
        i
    }
}

/// The least position at or past `i` holding the character `c`, if any.
pub open spec fn spec_find_char(s: Seq<char>, i: int, c: char) -> Option<int>
    decreases s.len() - i,
{
    if !(0 <= i < s.len()) {
        None
    } else if s[i] == c {
        Some(i)
    } else {
        spec_find_char(s, i + 1, c)
    }
}

/// The value of a run of decimal digits, most significant first.
pub open spec fn spec_int_value(s: Seq<char>) -> int
    decreases s.len(),
{
    if s.len() == 0 {
        0
    } else {
        spec_int_value(s.drop_last()) * 10 + spec_digit_value(s.last())
    }
}

pub proof fn lemma_ident_end_bounds(s: Seq<char>, i: int)
    requires
        0 <= i <= s.len(),
    ensures
        i <= spec_ident_end(s, i) <= s.len(),
        forall|k: int| i <= k < spec_ident_end(s, i) ==> spec_is_alphanumeric(s[k]),
        spec_ident_end(s, i) < s.len() ==> !spec_is_alphanumeric(s[spec_ident_end(s, i)]),
    decreases s.len() - i,
{
    if i < s.len() && spec_is_alphanumeric(s[i]) {
        lemma_ident_end_bounds(s, i + 1);
    }
}

pub proof fn lemma_digits_end_bounds(s: Seq<char>, i: int)
    requires
        0 <= i <= s.len(),
    ensures
        i <= spec_digits_end(s, i) <= s.len(),
        forall|k: int| i <= k < spec_digits_end(s, i) ==> spec_is_digit(s[k]),
        spec_digits_end(s, i) < s.len() ==> !spec_is_digit(s[spec_digits_end(s, i)]),
    decreases s.len() - i,
{
    if i < s.len() && spec_is_digit(s[i]) {
        lemma_digits_end_bounds(s, i + 1);
    }
}

pub proof fn lemma_find_char_bounds(s: Seq<char>, i: int, c: char)
    requires
        0 <= i,
    ensures
        match spec_find_char(s, i, c) {
            Some(j) => i <= j < s.len() && s[j] == c && forall|k: int| i <= k < j ==> s[k] != c,
            None => forall|k: int| i <= k < s.len() ==> s[k] != c,
        },
    decreases s.len() - i,
{
    if i < s.len() && s[i] != c {
        lemma_find_char_bounds(s, i + 1, c);
    }
}

/// The value of a run of digits is never negative.
pub proof fn lemma_int_value_nonneg(s: Seq<char>)
    requires
        forall|k: int| 0 <= k < s.len() ==> spec_is_digit(s[k]),
    ensures
        spec_int_value(s) >= 0,
    decreases s.len(),
{
    if s.len() > 0 {
        lemma_int_value_nonneg(s.drop_last());
    }
}

/// Extending a run of digits to the right never shrinks its value: the value
/// of a prefix is at most the value of the whole run.
pub proof fn lemma_int_value_prefix(s: Seq<char>, k: int)
    requires
        0 <= k <= s.len(),
        forall|m: int| 0 <= m < s.len() ==> spec_is_digit(s[m]),
    ensures
        spec_int_value(s.subrange(0, k)) <= spec_int_value(s),
    decreases s.len() - k,
{
    if k == s.len() {
        assert(s.subrange(0, k) =~= s);
    } else {
        let shorter = s.subrange(0, k);
        let longer = s.subrange(0, k + 1);
        assert(longer.drop_last() =~= shorter);
        assert(forall|m: int| 0 <= m < shorter.len() ==> spec_is_digit(shorter[m]));
        lemma_int_value_nonneg(shorter);
        assert(spec_int_value(longer) == spec_int_value(shorter) * 10 + spec_digit_value(
            longer.last(),
        ));
        assert(spec_is_digit(longer.last()));
        assert(spec_int_value(shorter) <= spec_int_value(longer));
        lemma_int_value_prefix(s, k + 1);
    }
}

/// A two-character operator is only ever classified when a lookahead
/// character was present.
pub proof fn lemma_syntax_two_char(c: char, next: Option<char>)
    ensures
        match spec_syntax_token(c, next) {
            Some(t) => spec_syntax_length(t) == 2 ==> next is Some,
            None => true,
        },
{
}

/// One step of the scan at position `p`. Whitespace and comments are
/// consumed silently and the scan continues; everything else produces a
/// token, an error, or the end of the stream.
pub open spec fn spec_next_token(s: Seq<char>, p: ScanPos) -> ScanStep
    decreases s.len() - p.idx,
        via spec_next_token_decreases
{
    if !(0 <= p.idx < s.len()) {
        ScanStep::Done(p)
    } else {
        let c = s[p.idx];
        if spec_is_whitespace(c) {
            spec_next_token(s, ScanPos { idx: p.idx + 1, line: p.line, col: p.col + 1 })
        } else if c == '\n' {
            ScanStep::Tok(
                TokenShapeAt { shape: TokenShape::NL, index: p.idx, line: p.line, col: p.col },
                ScanPos { idx: p.idx + 1, line: p.line + 1, col: 1 },
            )
        } else if spec_is_alpha(c) {
            let j = spec_ident_end(s, p.idx);
            let text = s.subrange(p.idx, j);
            let shape = match spec_keyword_token(text) {
                Some(k) => TokenShape::Keyword(k),
                None => TokenShape::Identifier(text),
            };
            ScanStep::Tok(
                TokenShapeAt { shape, index: p.idx, line: p.line, col: p.col },
                ScanPos { idx: j, line: p.line, col: p.col + (j - p.idx) },
            )
        } else if spec_is_digit(c) {
            let j = spec_digits_end(s, p.idx);
            let v = spec_int_value(s.subrange(p.idx, j));
            if v > i64::MAX as int {
                ScanStep::Fail(ErrorShape::InvalidIntegerLiteral(p.line, p.col))
            } else {
                ScanStep::Tok(
                    TokenShapeAt {
                        shape: TokenShape::Literal(LiteralShape::Integer(v as i64)),
                        index: p.idx,
                        line: p.line,
                        col: p.col,
                    },
                    ScanPos { idx: j, line: p.line, col: p.col + (j - p.idx) },
                )
            }
        } else if c == '"' {
            match spec_find_char(s, p.idx + 1, '"') {
                None => ScanStep::Fail(ErrorShape::InvalidStringLiteral(p.line, p.col)),
                Some(j) => ScanStep::Tok(
                    TokenShapeAt {
                        shape: TokenShape::Literal(LiteralShape::String(s.subrange(p.idx + 1, j))),
                        index: p.idx,
                        line: p.line,
                        col: p.col,
                    },
                    ScanPos { idx: j + 1, line: p.line, col: p.col + (j + 1 - p.idx) },
                ),
            }
        } else if c == '\'' {
            if p.idx + 1 >= s.len() {
                ScanStep::Fail(ErrorShape::InvalidCharacterLiteral(p.line, p.col + 1))
            } else if p.idx + 2 >= s.len() {
                ScanStep::Fail(ErrorShape::InvalidCharacterLiteral(p.line, p.col + 2))
            } else if s[p.idx + 2] != '\'' {
                ScanStep::Fail(ErrorShape::InvalidCharacterLiteral(p.line, p.col + 3))
            } else {
                ScanStep::Tok(
                    TokenShapeAt {
                        shape: TokenShape::Literal(LiteralShape::Character(s[p.idx + 1])),
                        index: p.idx,
                        line: p.line,
                        col: p.col,
                    },
                    ScanPos { idx: p.idx + 3, line: p.line, col: p.col + 3 },
                )
            }
        } else if c == '#' {
            match spec_find_char(s, p.idx + 1, '\n') {
                None => ScanStep::Fail(ErrorShape::InvalidEOL(p.line, p.col)),
                Some(j) => spec_next_token(
                    s,
                    ScanPos { idx: j, line: p.line, col: p.col + (j - p.idx) },
                ),
            }
        } else {
            let next = if p.idx + 1 < s.len() {
                Some(s[p.idx + 1])
            } else {
                None
            };
            match spec_syntax_token(c, next) {
                Some(t) => ScanStep::Tok(
                    TokenShapeAt {
                        shape: TokenShape::Syntax(t),
                        index: p.idx,
                        line: p.line,
                        col: p.col,
                    },
                    ScanPos {
                        idx: p.idx + spec_syntax_length(t),
                        line: p.line,
                        col: p.col + spec_syntax_length(t),
                    },
                ),
                None => ScanStep::Tok(
                    TokenShapeAt {
                        shape: TokenShape::Unknown(c),
                        index: p.idx,
                        line: p.line,
                        col: p.col,
                    },
                    ScanPos { idx: p.idx + 1, line: p.line, col: p.col + 1 },
                ),
            }
        }
    }
}

#[via_fn]
proof fn spec_next_token_decreases(s: Seq<char>, p: ScanPos) {
    if 0 <= p.idx < s.len() && s[p.idx] == '#' {
        lemma_find_char_bounds(s, p.idx + 1, '\n');
    }
}

/// One scan step never stands still: a token strictly advances the position,
/// and a completed scan stands exactly at the end of the text.
pub proof fn lemma_next_token_advances(s: Seq<char>, p: ScanPos)
    requires
        0 <= p.idx <= s.len(),
    ensures
        match spec_next_token(s, p) {
            ScanStep::Tok(_, q) => p.idx < q.idx <= s.len(),
            ScanStep::Done(q) => q.idx == s.len(),
            ScanStep::Fail(_) => true,
        },
    decreases s.len() - p.idx,
{
    if 0 <= p.idx < s.len() {
        let c = s[p.idx];
        if spec_is_whitespace(c) {
            lemma_next_token_advances(
                s,
                ScanPos { idx: p.idx + 1, line: p.line, col: p.col + 1 },
            );
        } else if c == '\n' {
        } else if spec_is_alpha(c) {
            lemma_ident_end_bounds(s, p.idx);
        } else if spec_is_digit(c) {
            lemma_digits_end_bounds(s, p.idx);
        } else if c == '"' {
            lemma_find_char_bounds(s, p.idx + 1, '"');
        } else if c == '\'' {
        } else if c == '#' {
            lemma_find_char_bounds(s, p.idx + 1, '\n');
            match spec_find_char(s, p.idx + 1, '\n') {
                Some(j) => {
                    lemma_next_token_advances(
                        s,
                        ScanPos { idx: j, line: p.line, col: p.col + (j - p.idx) },
                    );
                },
                None => {},
            }
        } else {
            let next = if p.idx + 1 < s.len() {
                Some(s[p.idx + 1])
            } else {
                None
            };
            lemma_syntax_two_char(c, next);
        }
    }
}

/// The raw token list of the scan from position `p` to the end of the text,
/// terminated by the end-of-input marker, or the first error encountered.
pub open spec fn spec_lex_from(s: Seq<char>, p: ScanPos) -> Result<Seq<TokenShapeAt>, ErrorShape>
    decreases s.len() - p.idx,
        via spec_lex_from_decreases
{
    match spec_next_token(s, p) {
        ScanStep::Done(q) => Ok(
            seq![TokenShapeAt { shape: TokenShape::Eof, index: q.idx, line: q.line, col: q.col }],
        ),
        ScanStep::Fail(e) => Err(e),
        ScanStep::Tok(t, q) => match spec_lex_from(s, q) {
            Ok(rest) => Ok(seq![t] + rest),
            Err(e) => Err(e),
        },
    }
}

#[via_fn]
proof fn spec_lex_from_decreases(s: Seq<char>, p: ScanPos) {
    if 0 <= p.idx <= s.len() {
        lemma_next_token_advances(s, p);
    }
}

/// The raw token list of a whole source text, before newline folding.
pub open spec fn spec_tokens(s: Seq<char>) -> Result<Seq<TokenShapeAt>, ErrorShape> {
    spec_lex_from(s, ScanPos { idx: 0, line: 1, col: 1 })
}

/// The newline-folding pass, threading whether the previously kept token was
/// a line break: a break directly after a kept break is dropped, so each
/// maximal run keeps exactly its first token.
pub open spec fn spec_fold_nls_from(prev_nl: bool, ts: Seq<TokenShapeAt>) -> Seq<TokenShapeAt>
    decreases ts.len(),
{
    if ts.len() == 0 {
        Seq::empty()
    } else if prev_nl && ts[0].shape is NL {
        spec_fold_nls_from(true, ts.drop_first())
    } else {
        seq![ts[0]] + spec_fold_nls_from(ts[0].shape is NL, ts.drop_first())
    }
}

/// Collapse every maximal run of adjacent line-break tokens to its first
/// token, preserving order and every other token.
pub open spec fn spec_fold_nls(ts: Seq<TokenShapeAt>) -> Seq<TokenShapeAt> {
    spec_fold_nls_from(false, ts)
}

/// The complete lexing function: scan, then fold line breaks.
pub open spec fn spec_lex(s: Seq<char>) -> Result<Seq<TokenShapeAt>, ErrorShape> {
    match spec_tokens(s) {
        Ok(ts) => Ok(spec_fold_nls(ts)),
        Err(e) => Err(e),
    }
}

/// The scanner: owns the source text and the current scan position for the
/// duration of one `lex` call.
#[derive(Debug, Clone)]
pub struct Lexer {
    source: String,
    index: usize,
    curr_char: char,
    line_no: usize,
    col_no: usize,
    length: usize,
}

impl Lexer {
    /// The characters of the source text this lexer currently owns.
    pub closed spec fn spec_source(&self) -> Seq<char> {
        self.source@
    }

    /// The current scan position.
    pub closed spec fn spec_pos(&self) -> ScanPos {
        ScanPos { idx: self.index as int, line: self.line_no as int, col: self.col_no as int }
    }

    /// The scanner's internal consistency: the cached length and current
    /// character agree with the text, the position is in bounds, and line
    /// and column stay small enough that advancing cannot overflow.
    pub closed spec fn wf(&self) -> bool {
        &&& self.length == self.source@.len()
        &&& self.length < usize::MAX
        &&& self.index <= self.length
        &&& self.line_no <= self.index + 1
        &&& self.col_no <= self.index + 1
        &&& (self.index < self.length ==> self.curr_char == self.source@[self.index as int])
    }

    pub fn new() -> (r: Lexer)
        ensures
            r.wf(),
            r.spec_source() == Seq::<char>::empty(),
            r.spec_pos() == (ScanPos { idx: 0, line: 1, col: 1 }),
    {
        Lexer {
            source: String::new(),
            index: 0,
            curr_char: '\0',
            line_no: 1,
            col_no: 1,
            length: 0,
        }
    }

    /// Return the scan to the start of the owned source text.
    fn reset(&mut self)
        requires
            old(self).source@.len() < usize::MAX,
        ensures
            final(self).wf(),
            final(self).source == old(self).source,
            final(self).spec_pos() == (ScanPos { idx: 0, line: 1, col: 1 }),
    {
        self.length = self.source.as_str().unicode_len();
        self.index = 0;
        self.line_no = 1;
        self.col_no = 1;
        if self.length > 0 {
            self.curr_char = self.source.as_str().get_char(0);
        } else {
            self.curr_char = '\0';
        }
    }

    fn has_next(&self) -> (r: bool)
        ensures
            r == (self.index < self.length),
    {
        self.index < self.length
    }

    /// Move one character forward, updating the column; the line number is
    /// the caller's business (only the newline rule changes it).
    fn advance(&mut self)
        requires
            old(self).wf(),
            old(self).index < old(self).length,
        ensures
            final(self).wf(),
            final(self).source == old(self).source,
            final(self).length == old(self).length,
            final(self).line_no == old(self).line_no,
            final(self).index == old(self).index + 1,
            final(self).col_no == old(self).col_no + 1,
    {
        self.index = self.index + 1;
        self.col_no = self.col_no + 1;
        if self.index < self.length {
            self.curr_char = self.source.as_str().get_char(self.index);
        }
    }

    fn advance_n(&mut self, n: usize)
        requires
            old(self).wf(),
            old(self).index + n <= old(self).length,
        ensures
            final(self).wf(),
            final(self).source == old(self).source,
            final(self).length == old(self).length,
            final(self).line_no == old(self).line_no,
            final(self).index == old(self).index + n,
            final(self).col_no == old(self).col_no + n,
    {
        let mut k: usize = 0;
        while k < n
            invariant
                self.wf(),
                k <= n,
                old(self).index + n <= old(self).length,
                self.source == old(self).source,
                self.length == old(self).length,
                self.line_no == old(self).line_no,
                self.index == old(self).index + k,
                self.col_no == old(self).col_no + k,
            decreases n - k,
        {
            self.advance();
            k = k + 1;
        }
    }

    /// The least position at or past the current one holding `c`, if any.
    fn find_next(&self, c: char) -> (r: Option<usize>)
        requires
            self.wf(),
        ensures
            match r {
                Some(j) => spec_find_char(self.source@, self.index as int, c) == Some(j as int),
                None => spec_find_char(self.source@, self.index as int, c) is None,
            },
    {
        let mut i: usize = self.index;
        while i < self.length
            invariant
                self.wf(),
                self.index <= i <= self.length,
                spec_find_char(self.source@, self.index as int, c) == spec_find_char(
                    self.source@,
                    i as int,
                    c,
                ),
            decreases self.length - i,
        {
            if self.source.as_str().get_char(i) == c {
                return Some(i);
            }
            i = i + 1;
        }
        None
    }

    /// Consume the maximal alphanumeric run starting at the current
    /// position and hand its text back.
    fn collect_identifier(&mut self) -> (r: String)
        requires
            old(self).wf(),
        ensures
            final(self).wf(),
            final(self).source == old(self).source,
            final(self).length == old(self).length,
            final(self).line_no == old(self).line_no,
            final(self).index == spec_ident_end(old(self).source@, old(self).index as int),
            final(self).col_no == old(self).col_no + (final(self).index - old(self).index),
            r@ == old(self).source@.subrange(old(self).index as int, final(self).index as int),
    {
        let ghost s = self.source@;
        let start = self.index;
        while self.index < self.length && is_alphanumeric(self.curr_char)
            invariant
                self.wf(),
                s == self.source@,
                self.source == old(self).source,
                self.length == old(self).length,
                self.line_no == old(self).line_no,
                start == old(self).index,
                start <= self.index,
                self.col_no == old(self).col_no + (self.index - start),
                spec_ident_end(s, start as int) == spec_ident_end(s, self.index as int),
            decreases self.length - self.index,
        {
            self.advance();
        }
        self.source.as_str().substring_char(start, self.index).to_owned()
    }

    /// Consume the maximal decimal-digit run starting at the current
    /// position and parse it as a signed 64-bit integer, detecting overflow.
    fn collect_integer(&mut self) -> (r: Result<i64, LexerError>)
        requires
            old(self).wf(),
            old(self).index < old(self).length,
            spec_is_digit(old(self).source@[old(self).index as int]),
        ensures
            final(self).wf(),
            final(self).source == old(self).source,
            final(self).length == old(self).length,
            final(self).line_no == old(self).line_no,
            ({
                let s = old(self).source@;
                let i0 = old(self).index as int;
                let j = spec_digits_end(s, i0);
                let v = spec_int_value(s.subrange(i0, j));
                match r {
                    Ok(value) => v <= i64::MAX as int && value == v && final(self).index == j
                        && final(self).col_no == old(self).col_no + (j - i0),
                    Err(e) => v > i64::MAX as int && e@ == ErrorShape::InvalidIntegerLiteral(
                        old(self).line_no as int,
                        old(self).col_no as int,
                    ),
                }
            }),
    {
        let ghost s = self.source@;
        let start = self.index;
        let start_line = self.line_no;
        let start_col = self.col_no;
        let ghost jend = spec_digits_end(s, start as int);
        let ghost run = s.subrange(start as int, jend);
        proof {
            lemma_digits_end_bounds(s, start as int);
            assert(forall|m: int| 0 <= m < run.len() ==> spec_is_digit(#[trigger] run[m]));
        }
        let mut acc: i64 = 0;
        while self.index < self.length && is_digit(self.curr_char)
            invariant
                self.wf(),
                s == self.source@,
                self.source == old(self).source,
                self.length == old(self).length,
                self.line_no == old(self).line_no,
                start == old(self).index,
                start_line == old(self).line_no,
                start_col == old(self).col_no,
                start <= self.index,
                jend == spec_digits_end(s, start as int),
                run == s.subrange(start as int, jend),
                forall|m: int| 0 <= m < run.len() ==> spec_is_digit(#[trigger] run[m]),
                spec_digits_end(s, start as int) == spec_digits_end(s, self.index as int),
                self.col_no == old(self).col_no + (self.index - start),
                0 <= acc,
                acc == spec_int_value(s.subrange(start as int, self.index as int)),
            decreases self.length - self.index,
        {
            proof {
                lemma_digits_end_bounds(s, self.index as int);
            }
            let d32 = digit_value(self.curr_char);
            let d = d32 as i64;
            let threshold = (i64::MAX - d) / 10;
            let ghost pre = s.subrange(start as int, self.index as int);
            let ghost pre2 = s.subrange(start as int, self.index as int + 1);
            proof {
                assert(pre2.drop_last() =~= pre);
                assert(pre2.last() == s[self.index as int]);
                assert(spec_int_value(pre2) == acc * 10 + d);
                assert(10 * (threshold as int) <= i64::MAX - d && i64::MAX - d < 10 * (threshold
                    as int) + 10) by {
                    vstd::arithmetic::div_mod::lemma_fundamental_div_mod(
                        i64::MAX - d as int,
                        10,
                    );
                    vstd::arithmetic::div_mod::lemma_mod_bound(i64::MAX - d as int, 10);
                };
            }
            if acc > threshold {
                proof {
                    assert(acc * 10 + d > i64::MAX) by {
                        assert(acc >= threshold as int + 1);
                        assert(acc * 10 >= (threshold as int + 1) * 10) by (nonlinear_arith)
                            requires
                                acc >= threshold as int + 1,
                        ;
                    };
                    assert(run.subrange(0, self.index as int + 1 - start) =~= pre2);
                    lemma_int_value_prefix(run, self.index as int + 1 - start);
                    assert(spec_int_value(run) > i64::MAX as int);
                }
                return Err(LexerError::InvalidIntegerLiteral(start_line, start_col));
            }
            proof {
                assert(acc * 10 + d <= i64::MAX) by {
                    assert(acc * 10 <= (threshold as int) * 10) by (nonlinear_arith)
                        requires
                            acc <= threshold as int,
                            acc >= 0,
                    ;
                };
            }
            acc = acc * 10 + d;
            self.advance();
        }
        proof {
            assert(self.index as int == jend);
            assert(s.subrange(start as int, self.index as int) == run);
        }
        Ok(acc)
    }

    /// Consume whitespace and comments until a token can start. Fails when a
    /// comment reaches the end of input with no newline after it.
    fn skip_ignorable(&mut self) -> (r: Result<(), LexerError>)
        requires
            old(self).wf(),
        ensures
            final(self).wf(),
            final(self).source == old(self).source,
            final(self).length == old(self).length,
            match r {
                Ok(u) => {
                    &&& spec_next_token(final(self).source@, final(self).spec_pos())
                        == spec_next_token(old(self).source@, old(self).spec_pos())
                    &&& (final(self).index < final(self).length ==> {
                        let c = final(self).source@[final(self).index as int];
                        !spec_is_whitespace(c) && c != '#'
                    })
                },
                Err(e) => spec_next_token(old(self).source@, old(self).spec_pos())
                    == ScanStep::Fail(e@),
            },
    {
        let ghost s = self.source@;
        let mut stop = false;
        while !stop
            invariant
                self.wf(),
                s == self.source@,
                self.source == old(self).source,
                self.length == old(self).length,
                spec_next_token(s, self.spec_pos()) == spec_next_token(
                    old(self).source@,
                    old(self).spec_pos(),
                ),
                stop ==> (self.index < self.length ==> !spec_is_whitespace(
                    s[self.index as int],
                ) && s[self.index as int] != '#'),
            decreases self.length - self.index, (if stop { 0int } else { 1int }),
        {
            if !self.has_next() {
                stop = true;
            } else {
                let c = self.curr_char;
                if is_whitespace(c) {
                    self.advance();
                } else if c == '#' {
                    match self.find_next('\n') {
                        None => {
                            proof {
                                assert(spec_find_char(s, self.index as int + 1, '\n')
                                    is None);
                            }
                            return Err(LexerError::InvalidEOL(self.line_no, self.col_no));
                        },
                        Some(j) => {
                            proof {
                                lemma_find_char_bounds(s, self.index as int, '\n');
                                assert(spec_find_char(s, self.index as int + 1, '\n') == Some(
                                    j as int,
                                ));
                            }
                            let n = j - self.index;
                            self.advance_n(n);
                        },
                    }
                } else {
                    stop = true;
                }
            }
        }
        Ok(())
    }

    /// Produce the next token, or `None` when only ignorable input remained,
    /// or the error that aborts the scan: exactly what one step of the scan
    /// model says for the current position.
    fn get_next_token(&mut self) -> (r: Result<Option<Token>, LexerError>)
        requires
            old(self).wf(),
        ensures
            final(self).wf(),
            final(self).source == old(self).source,
            final(self).length == old(self).length,
            match spec_next_token(old(self).source@, old(self).spec_pos()) {
                ScanStep::Tok(t, q) => r matches Ok(Some(tok)) && tok@ == t
                    && final(self).spec_pos() == q,
                ScanStep::Done(q) => r matches Ok(None) && final(self).spec_pos() == q,
                ScanStep::Fail(e) => r matches Err(err) && err@ == e,
            },
    {
        let ghost s = self.source@;
        let ghost p0 = self.spec_pos();
        match self.skip_ignorable() {
            Err(e) => {
                return Err(e);
            },
            Ok(u) => {},
        }
        if !self.has_next() {
            return Ok(None);
        }
        let start_index = self.index;
        let start_line = self.line_no;
        let start_col = self.col_no;
        let c = self.curr_char;
        if c == '\n' {
            proof {
                assert(self.line_no <= start_index + 1);
            }
            self.advance();
            self.line_no = self.line_no + 1;
            self.col_no = 1;
            Ok(Some(TokenType::NL.at(start_index, start_line, start_col)))
        } else if is_alpha(c) {
            proof {
                lemma_ident_end_bounds(s, start_index as int);
            }
            let text = self.collect_identifier();
            let tt: TokenType = match KeywordToken::from_str(text.as_str()) {
                Some(k) => TokenType::Keyword(k),
                None => TokenType::Identifier(text),
            };
            Ok(Some(tt.at(start_index, start_line, start_col)))
        } else if is_digit(c) {
            match self.collect_integer() {
                Ok(value) => Ok(
                    Some(
                        TokenType::Literal(LiteralToken::Integer(value)).at(
                            start_index,
                            start_line,
                            start_col,
                        ),
                    ),
                ),
                Err(e) => Err(e),
            }
        } else if c == '"' {
            self.advance();
            match self.find_next('"') {
                None => Err(LexerError::InvalidStringLiteral(start_line, start_col)),
                Some(j) => {
                    proof {
                        lemma_find_char_bounds(s, self.index as int, '"');
                    }
                    let text = self.source.as_str().substring_char(self.index, j).to_owned();
                    let n = j - self.index + 1;
                    self.advance_n(n);
                    Ok(
                        Some(
                            TokenType::Literal(LiteralToken::String(text)).at(
                                start_index,
                                start_line,
                                start_col,
                            ),
                        ),
                    )
                },
            }
        } else if c == '\'' {
            self.advance();
            if !self.has_next() {
                return Err(LexerError::InvalidCharacterLiteral(self.line_no, self.col_no));
            }
            let ch = self.curr_char;
            self.advance();
            if !self.has_next() {
                return Err(LexerError::InvalidCharacterLiteral(self.line_no, self.col_no));
            }
            let closing = self.curr_char;
            self.advance();
            if closing != '\'' {
                return Err(LexerError::InvalidCharacterLiteral(self.line_no, self.col_no));
            }
            Ok(
                Some(
                    TokenType::Literal(LiteralToken::Character(ch)).at(
                        start_index,
                        start_line,
                        start_col,
                    ),
                ),
            )
        } else {
            let next: Option<char> = if self.index + 1 < self.length {
                Some(self.source.as_str().get_char(self.index + 1))
            } else {
                None
            };
            match SyntaxToken::from_char(c, next) {
                Some(t) => {
                    proof {
                        lemma_syntax_two_char(c, next);
                    }
                    let n = t.length();
                    self.advance_n(n);
                    Ok(Some(TokenType::Syntax(t).at(start_index, start_line, start_col)))
                },
                None => {
                    self.advance();
                    Ok(Some(TokenType::Unknown(c).at(start_index, start_line, start_col)))
                },
            }
        }
    }

    /// Scan the whole source text into a token stream: the raw token list,
    /// one terminal end-of-input marker, and the newline-folding pass. The
    /// result is exactly `spec_lex` of the input; the first error aborts the
    /// scan and is returned with its position.
    pub fn lex(&mut self, source: String) -> (r: Result<TokenStream, LexerError>)
        requires
            source@.len() < usize::MAX,
        ensures
            final(self).spec_source() == source@,
            match r {
                Ok(ts) => spec_lex(source@) matches Ok(toks) && ts@ == toks,
                Err(e) => spec_lex(source@) matches Err(err) && e@ == err,
            },
    {
        self.source = source;
        self.reset();
        let ghost s = self.source@;
        let mut tokens: Vec<Token> = Vec::new();
        let mut done = false;
        proof {
            assert(spec_token_views(tokens@) =~= Seq::<TokenShapeAt>::empty());
        }
        while !done
            invariant
                self.wf(),
                s == self.source@,
                s == source@,
                !done ==> (match spec_lex_from(s, self.spec_pos()) {
                    Ok(rest) => spec_tokens(s) matches Ok(full) && full == spec_token_views(
                        tokens@,
                    ) + rest,
                    Err(e) => spec_tokens(s) matches Err(e2) && e2 == e,
                }),
                done ==> (spec_tokens(s) matches Ok(full) && full == spec_token_views(tokens@)),
            decreases self.length - self.index, (if done { 0int } else { 1int }),
        {
            let ghost p_before = self.spec_pos();
            let ghost views_before = spec_token_views(tokens@);
            match self.get_next_token() {
                Err(e) => {
                    return Err(e);
                },
                Ok(None) => {
                    proof {
                        lemma_next_token_advances(s, p_before);
                    }
                    let eof = TokenType::Eof.at(self.index, self.line_no, self.col_no);
                    tokens.push(eof);
                    proof {
                        assert(spec_token_views(tokens@) =~= views_before.push(eof@));
                        assert(views_before + seq![eof@] =~= views_before.push(eof@));
                    }
                    done = true;
                },
                Ok(Some(tok)) => {
                    proof {
                        lemma_next_token_advances(s, p_before);
                    }
                    tokens.push(tok);
                    proof {
                        assert(spec_token_views(tokens@) =~= views_before.push(tok@));
                        match spec_lex_from(s, self.spec_pos()) {
                            Ok(rest) => {
                                assert(views_before + (seq![tok@] + rest) =~= views_before.push(
                                    tok@,
                                ) + rest);
                            },
                            Err(e) => {},
                        }
                    }
                },
            }
        }
        let ghost all = spec_token_views(tokens@);
        let mut folded: Vec<Token> = Vec::new();
        let n = tokens.len();
        let mut i: usize = 0;
        let mut prev_nl = false;
        proof {
            assert(spec_token_views(folded@) =~= Seq::<TokenShapeAt>::empty());
            assert(all.skip(0) =~= all);
        }
        while i < n
            invariant
                i <= n,
                n == tokens@.len(),
                all == spec_token_views(tokens@),
                spec_fold_nls(all) == spec_token_views(folded@) + spec_fold_nls_from(
                    prev_nl,
                    all.skip(i as int),
                ),
            decreases n - i,
        {
            let ghost folded_before = spec_token_views(folded@);
            let t = &tokens[i];
            let t_is_nl = t.is_nl();
            proof {
                assert(all.skip(i as int)[0] == t@);
                assert(all.skip(i as int).drop_first() =~= all.skip(i as int + 1));
            }
            if prev_nl && t_is_nl {
            } else {
                folded.push(t.clone());
                proof {
                    assert(spec_token_views(folded@) =~= folded_before.push(t@));
                    assert(folded_before + (seq![t@] + spec_fold_nls_from(
                        t@.shape is NL,
                        all.skip(i as int + 1),
                    )) =~= folded_before.push(t@) + spec_fold_nls_from(
                        t@.shape is NL,
                        all.skip(i as int + 1),
                    ));
                }
                prev_nl = t_is_nl;
            }
            i = i + 1;
        }
        proof {
            assert(all.skip(n as int) =~= Seq::<TokenShapeAt>::empty());
            assert(spec_token_views(folded@) + Seq::<TokenShapeAt>::empty() =~= spec_token_views(
                folded@,
            ));
        }
        Ok(TokenStream { tokens: folded })
    }
}

impl Default for Lexer {
    fn default() -> (r: Self)
        ensures
            r.wf(),
            r.spec_source() == Seq::<char>::empty(),
    {
        Lexer::new()
    }
}

} // verus!
