//! Laws of the lexer, proved once and for all over the scan model.
//!
//! Everything here speaks about `spec_lex` and its parts, so by `Lexer::lex`'s
//! contract each law holds of the executable lexer's output as well.

use vstd::prelude::*;
use crate::chars::{spec_is_alpha, spec_is_alphanumeric, spec_is_whitespace};
use crate::lexer::{
    lemma_digits_end_bounds, lemma_find_char_bounds, lemma_ident_end_bounds,
    lemma_next_token_advances, spec_fold_nls, spec_fold_nls_from, spec_ident_end, spec_lex,
    spec_lex_from, spec_next_token, spec_tokens, ScanPos, ScanStep,
};
use crate::token::{TokenShape, TokenShapeAt};
use crate::types::spec_keyword_token;

verus! {

/// After folding, no two adjacent tokens are line breaks; and when the pass
/// believes the previously kept token was a line break, it never starts its
/// output with another one.
proof fn lemma_fold_from_adjacent(prev: bool, ts: Seq<TokenShapeAt>)
    ensures
        ({
            let r = spec_fold_nls_from(prev, ts);
            &&& (forall|u: int|
                0 <= u < r.len() - 1 ==> !((#[trigger] r[u]).shape is NL && r[u + 1].shape is NL))
            &&& (prev && r.len() > 0 ==> !(r[0].shape is NL))
        }),
    decreases ts.len(),
{
    if ts.len() == 0 {
    } else if prev && ts[0].shape is NL {
        lemma_fold_from_adjacent(true, ts.drop_first());
    } else {
        let tail = spec_fold_nls_from(ts[0].shape is NL, ts.drop_first());
        lemma_fold_from_adjacent(ts[0].shape is NL, ts.drop_first());
        let r = spec_fold_nls_from(prev, ts);
        assert(r == seq![ts[0]] + tail);
        assert(forall|u: int| 0 <= u < tail.len() ==> r[u + 1] == tail[u]);
        assert forall|u: int| 0 <= u < r.len() - 1 implies !((#[trigger] r[u]).shape is NL && r[u
            + 1].shape is NL) by {
            if u == 0 {
                if ts[0].shape is NL && tail.len() > 0 {
                    assert(!(tail[0].shape is NL));
                }
            } else {
                assert(r[u] == tail[u - 1]);
                assert(r[u + 1] == tail[u]);
            }
        }
    }
}

/// Folding a list that already has no adjacent line breaks changes nothing.
proof fn lemma_fold_from_identity(prev: bool, ts: Seq<TokenShapeAt>)
    requires
        forall|u: int| 0 <= u < ts.len() - 1 ==> !((#[trigger] ts[u]).shape is NL && ts[u + 1].shape is NL),
        prev && ts.len() > 0 ==> !(ts[0].shape is NL),
    ensures
        spec_fold_nls_from(prev, ts) == ts,
    decreases ts.len(),
{
    if ts.len() == 0 {
        assert(spec_fold_nls_from(prev, ts) =~= ts);
    } else {
        let tail = ts.drop_first();
        assert(forall|u: int|
            0 <= u < tail.len() - 1 ==> !(#[trigger] tail[u].shape is NL && tail[u
                + 1].shape is NL)) by {
            assert(forall|u: int| 0 <= u < tail.len() ==> tail[u] == ts[u + 1]);
        }
        if ts[0].shape is NL && tail.len() > 0 {
            assert(tail[0] == ts[1]);
        }
        lemma_fold_from_identity(ts[0].shape is NL, tail);
        assert(spec_fold_nls_from(prev, ts) =~= ts);
    }
}

/// Folding is idempotent: running the newline-folding pass on an already
/// folded token list is a no-op.
pub proof fn lemma_fold_nls_idempotent(ts: Seq<TokenShapeAt>)
    ensures
        spec_fold_nls(spec_fold_nls(ts)) == spec_fold_nls(ts),
{
    lemma_fold_from_adjacent(false, ts);
    lemma_fold_from_identity(false, spec_fold_nls(ts));
}

/// The scan never emits the end-of-input marker as an ordinary token.
proof fn lemma_next_token_not_eof(s: Seq<char>, p: ScanPos)
    requires
        0 <= p.idx,
    ensures
        match spec_next_token(s, p) {
            ScanStep::Tok(t, _) => !(t.shape is Eof),
            _ => true,
        },
    decreases s.len() - p.idx,
{
    if 0 <= p.idx < s.len() {
        let c = s[p.idx];
        if crate::chars::spec_is_whitespace(c) {
            lemma_next_token_not_eof(s, ScanPos { idx: p.idx + 1, line: p.line, col: p.col + 1 });
        } else if c == '#' {
            lemma_find_char_bounds(s, p.idx + 1, '\n');
            match crate::lexer::spec_find_char(s, p.idx + 1, '\n') {
                Some(j) => {
                    lemma_next_token_not_eof(
                        s,
                        ScanPos { idx: j, line: p.line, col: p.col + (j - p.idx) },
                    );
                },
                None => {},
            }
        }
    }
}

/// The raw scan output is never empty, ends with the end-of-input marker,
/// and holds that marker nowhere else.
proof fn lemma_lex_from_terminal(s: Seq<char>, p: ScanPos)
    requires
        0 <= p.idx <= s.len(),
    ensures
        match spec_lex_from(s, p) {
            Ok(ts) => ts.len() >= 1 && ts.last().shape is Eof && (forall|u: int|
                0 <= u < ts.len() - 1 ==> !((#[trigger] ts[u]).shape is Eof)),
            Err(_) => true,
        },
    decreases s.len() - p.idx,
{
    lemma_next_token_advances(s, p);
    lemma_next_token_not_eof(s, p);
    match spec_next_token(s, p) {
        ScanStep::Tok(t, q) => {
            lemma_lex_from_terminal(s, q);
            match spec_lex_from(s, q) {
                Ok(rest) => {
                    let ts = spec_lex_from(s, p)->Ok_0;
                    assert(ts == seq![t] + rest);
                    assert(forall|u: int| 0 <= u < rest.len() ==> ts[u + 1] == rest[u]);
                    assert(ts.last() == rest.last());
                },
                Err(_) => {},
            }
        },
        _ => {},
    }
}

/// Folding keeps the terminal-marker shape: still exactly one end-of-input
/// token, still at the end.
proof fn lemma_fold_from_eof(prev: bool, ts: Seq<TokenShapeAt>)
    requires
        ts.len() >= 1,
        ts.last().shape is Eof,
        forall|u: int| 0 <= u < ts.len() - 1 ==> !((#[trigger] ts[u]).shape is Eof),
    ensures
        ({
            let r = spec_fold_nls_from(prev, ts);
            r.len() >= 1 && r.last().shape is Eof && (forall|u: int|
                0 <= u < r.len() - 1 ==> !((#[trigger] r[u]).shape is Eof))
        }),
    decreases ts.len(),
{
    let tail = ts.drop_first();
    if ts.len() == 1 {
        assert(!(ts[0].shape is NL));
        assert(spec_fold_nls_from(prev, ts) =~= seq![ts[0]] + spec_fold_nls_from(
            false,
            tail,
        ));
    } else {
        assert(forall|u: int| 0 <= u < tail.len() ==> tail[u] == ts[u + 1]);
        assert(tail.last() == ts.last());
        if prev && ts[0].shape is NL {
            lemma_fold_from_eof(true, tail);
        } else {
            lemma_fold_from_eof(ts[0].shape is NL, tail);
            let rt = spec_fold_nls_from(ts[0].shape is NL, tail);
            let r = spec_fold_nls_from(prev, ts);
            assert(r == seq![ts[0]] + rt);
            assert(forall|u: int| 0 <= u < rt.len() ==> r[u + 1] == rt[u]);
            assert(r.last() == rt.last());
            assert(!(ts[0].shape is Eof));
        }
    }
}

/// Free of string quotes, character quotes and comment markers: the inputs
/// over which every letter-started alphanumeric run must become a token.
pub open spec fn spec_no_quotes_or_comments(s: Seq<char>) -> bool {
    forall|k: int| 0 <= k < s.len() ==> (#[trigger] s[k]) != '"' && s[k] != '\'' && s[k] != '#'
}

/// A maximal alphanumeric run starts at `i`: a letter whose left neighbour,
/// if any, is not alphanumeric.
pub open spec fn spec_run_start(s: Seq<char>, i: int) -> bool {
    &&& 0 <= i < s.len()
    &&& spec_is_alpha(s[i])
    &&& (i == 0 || !spec_is_alphanumeric(s[i - 1]))
}

/// The token payload that the maximal alphanumeric run starting at `i` must
/// produce: a keyword exactly when the run's text is in the keyword table,
/// else an identifier holding that text.
pub open spec fn spec_run_shape(s: Seq<char>, i: int) -> TokenShape {
    let text = s.subrange(i, spec_ident_end(s, i));
    match spec_keyword_token(text) {
        Some(k) => TokenShape::Keyword(k),
        None => TokenShape::Identifier(text),
    }
}

/// On clean input, one scan step taken at or before a run start `i` either
/// stays at or before `i`, or lands exactly on `i` and produces that run's
/// token.
proof fn lemma_next_token_run(s: Seq<char>, p: ScanPos, i: int)
    requires
        spec_no_quotes_or_comments(s),
        0 <= p.idx <= i,
        spec_run_start(s, i),
    ensures
        match spec_next_token(s, p) {
            ScanStep::Done(_) => false,
            ScanStep::Fail(_) => true,
            ScanStep::Tok(t, q) => q.idx <= i || (t.index == i && t.shape == spec_run_shape(s, i)
                && q.idx == spec_ident_end(s, i)),
        },
    decreases s.len() - p.idx,
{
    let c = s[p.idx];
    if spec_is_whitespace(c) {
        assert(p.idx < i);
        lemma_next_token_run(s, ScanPos { idx: p.idx + 1, line: p.line, col: p.col + 1 }, i);
    } else if c == '\n' {
    } else if spec_is_alpha(c) {
        lemma_ident_end_bounds(s, p.idx);
        if p.idx < i {
            if spec_ident_end(s, p.idx) > i {
                assert(spec_is_alphanumeric(s[i - 1]));
            }
        }
    } else if crate::chars::spec_is_digit(c) {
        lemma_digits_end_bounds(s, p.idx);
        assert(p.idx < i);
        if crate::lexer::spec_digits_end(s, p.idx) > i {
            assert(crate::chars::spec_is_digit(s[i - 1]));
        }
    } else {
        assert(p.idx < i);
        let next = if p.idx + 1 < s.len() {
            Some(s[p.idx + 1])
        } else {
            None
        };
        match crate::types::spec_syntax_token(c, next) {
            Some(t) => {
                if crate::types::spec_syntax_length(t) == 2 && p.idx + 1 == i {
                    assert(next == Some(s[i]));
                    assert(s[i] == '=' || s[i] == '<' || s[i] == '>');
                    assert(false);
                }
            },
            None => {},
        }
    }
}

/// On clean input, the scan from a position at or before a run start `i`
/// yields a token at exactly `i`, carrying that run's keyword-or-identifier
/// payload.
proof fn lemma_lex_from_run(s: Seq<char>, p: ScanPos, i: int)
    requires
        spec_no_quotes_or_comments(s),
        0 <= p.idx <= i,
        spec_run_start(s, i),
        spec_lex_from(s, p) is Ok,
    ensures
        ({
            let ts = spec_lex_from(s, p)->Ok_0;
            exists|t: int|
                0 <= t < ts.len() && (#[trigger] ts[t]).index == i && ts[t].shape
                    == spec_run_shape(s, i)
        }),
    decreases s.len() - p.idx,
{
    lemma_next_token_advances(s, p);
    lemma_next_token_run(s, p, i);
    match spec_next_token(s, p) {
        ScanStep::Tok(t0, q) => {
            let rest = spec_lex_from(s, q)->Ok_0;
            let ts = spec_lex_from(s, p)->Ok_0;
            assert(ts == seq![t0] + rest);
            if t0.index == i && t0.shape == spec_run_shape(s, i) {
                assert(ts[0] == t0);
            } else {
                assert(q.idx <= i);
                lemma_lex_from_run(s, q, i);
                let w = choose|t: int|
                    0 <= t < rest.len() && (#[trigger] rest[t]).index == i && rest[t].shape
                        == spec_run_shape(s, i);
                assert(ts[w + 1] == rest[w]);
            }
        },
        ScanStep::Done(_) => {
            assert(false);
        },
        ScanStep::Fail(_) => {
            assert(false);
        },
    }
}

/// One scan step emits its token at or past the position it started from,
/// and strictly before the position it leaves behind.
proof fn lemma_next_token_index(s: Seq<char>, p: ScanPos)
    requires
        0 <= p.idx <= s.len(),
    ensures
        match spec_next_token(s, p) {
            ScanStep::Tok(t, q) => p.idx <= t.index < q.idx,
            _ => true,
        },
    decreases s.len() - p.idx,
{
    lemma_next_token_advances(s, p);
    if 0 <= p.idx < s.len() {
        let c = s[p.idx];
        if spec_is_whitespace(c) {
            lemma_next_token_index(s, ScanPos { idx: p.idx + 1, line: p.line, col: p.col + 1 });
        } else if c == '#' {
            lemma_find_char_bounds(s, p.idx + 1, '\n');
            match crate::lexer::spec_find_char(s, p.idx + 1, '\n') {
                Some(j) => {
                    lemma_next_token_index(
                        s,
                        ScanPos { idx: j, line: p.line, col: p.col + (j - p.idx) },
                    );
                },
                None => {},
            }
        }
    }
}

/// Tokens of the raw scan sit at or past the scan's start, at strictly
/// increasing positions.
proof fn lemma_lex_from_indices(s: Seq<char>, p: ScanPos)
    requires
        0 <= p.idx <= s.len(),
    ensures
        match spec_lex_from(s, p) {
            Ok(ts) => (forall|u: int| 0 <= u < ts.len() ==> (#[trigger] ts[u]).index >= p.idx) && (
            forall|u1: int, u2: int|
                0 <= u1 < u2 < ts.len() ==> (#[trigger] ts[u1]).index < (#[trigger] ts[u2]).index),
            Err(_) => true,
        },
    decreases s.len() - p.idx,
{
    lemma_next_token_advances(s, p);
    lemma_next_token_index(s, p);
    match spec_next_token(s, p) {
        ScanStep::Tok(t0, q) => {
            lemma_lex_from_indices(s, q);
            match spec_lex_from(s, q) {
                Ok(rest) => {
                    let ts = spec_lex_from(s, p)->Ok_0;
                    assert(ts == seq![t0] + rest);
                    assert(forall|u: int| 0 <= u < rest.len() ==> ts[u + 1] == rest[u]);
                },
                Err(_) => {},
            }
        },
        _ => {},
    }
}

/// Folding keeps every token that is not a line break.
proof fn lemma_fold_from_keeps(prev: bool, ts: Seq<TokenShapeAt>, t: int)
    requires
        0 <= t < ts.len(),
        !(ts[t].shape is NL),
    ensures
        ({
            let r = spec_fold_nls_from(prev, ts);
            exists|u: int| 0 <= u < r.len() && #[trigger] r[u] == ts[t]
        }),
    decreases ts.len(),
{
    let tail = ts.drop_first();
    let r = spec_fold_nls_from(prev, ts);
    if prev && ts[0].shape is NL {
        lemma_fold_from_keeps(true, tail, t - 1);
        assert(tail[t - 1] == ts[t]);
    } else {
        let rt = spec_fold_nls_from(ts[0].shape is NL, tail);
        assert(r == seq![ts[0]] + rt);
        if t == 0 {
            assert(r[0] == ts[0]);
        } else {
            assert(tail[t - 1] == ts[t]);
            lemma_fold_from_keeps(ts[0].shape is NL, tail, t - 1);
            let w = choose|u: int| 0 <= u < rt.len() && #[trigger] rt[u] == tail[t - 1];
            assert(r[w + 1] == rt[w]);
        }
    }
}

/// Folding keeps positions strictly increasing, and introduces no token that
/// was not in its input.
proof fn lemma_fold_from_increasing(prev: bool, ts: Seq<TokenShapeAt>)
    requires
        forall|u1: int, u2: int|
            0 <= u1 < u2 < ts.len() ==> (#[trigger] ts[u1]).index < (#[trigger] ts[u2]).index,
    ensures
        ({
            let r = spec_fold_nls_from(prev, ts);
            &&& (forall|u: int|
                0 <= u < r.len() ==> exists|t: int| 0 <= t < ts.len() && #[trigger] r[u] == ts[t])
            &&& (forall|u1: int, u2: int|
                0 <= u1 < u2 < r.len() ==> (#[trigger] r[u1]).index < (#[trigger] r[u2]).index)
        }),
    decreases ts.len(),
{
    if ts.len() == 0 {
    } else {
        let tail = ts.drop_first();
        let r = spec_fold_nls_from(prev, ts);
        assert(forall|u: int| 0 <= u < tail.len() ==> tail[u] == ts[u + 1]);
        assert(forall|u1: int, u2: int|
            0 <= u1 < u2 < tail.len() ==> (#[trigger] tail[u1]).index < (
            #[trigger] tail[u2]).index);
        if prev && ts[0].shape is NL {
            lemma_fold_from_increasing(true, tail);
            assert forall|u: int| 0 <= u < r.len() implies exists|t: int|
                0 <= t < ts.len() && #[trigger] r[u] == ts[t] by {
                let w = choose|t: int| 0 <= t < tail.len() && #[trigger] r[u] == tail[t];
                assert(r[u] == ts[w + 1]);
            }
        } else {
            let rt = spec_fold_nls_from(ts[0].shape is NL, tail);
            lemma_fold_from_increasing(ts[0].shape is NL, tail);
            assert(r == seq![ts[0]] + rt);
            assert(forall|u: int| 0 <= u < rt.len() ==> r[u + 1] == rt[u]);
            assert forall|u: int| 0 <= u < r.len() implies exists|t: int|
                0 <= t < ts.len() && #[trigger] r[u] == ts[t] by {
                if u == 0 {
                    assert(r[0] == ts[0]);
                } else {
                    let w = choose|t: int| 0 <= t < tail.len() && #[trigger] rt[u - 1] == tail[t];
                    assert(r[u] == ts[w + 1]);
                }
            }
            assert forall|u1: int, u2: int| 0 <= u1 < u2 < r.len() implies (
            #[trigger] r[u1]).index < (#[trigger] r[u2]).index by {
                if u1 == 0 {
                    let w = choose|t: int| 0 <= t < tail.len() && #[trigger] rt[u2 - 1] == tail[t];
                    assert(r[u2] == tail[w]);
                    assert(tail[w].index == ts[w + 1].index);
                    assert(ts[0].index < ts[w + 1].index);
                } else {
                    assert(r[u1] == rt[u1 - 1]);
                    assert(r[u2] == rt[u2 - 1]);
                }
            }
        }
    }
}

/// On input free of quotes and comments, every maximal alphanumeric run that
/// starts with a letter yields exactly one token in a successful lex: it sits
/// at the run's position, and it is a keyword exactly when the run's text is
/// in the keyword table, else an identifier carrying that text. Tokens sit at
/// strictly increasing positions, so no position holds two tokens.
pub proof fn lemma_alpha_runs_lex(s: Seq<char>)
    requires
        spec_no_quotes_or_comments(s),
        spec_lex(s) is Ok,
    ensures
        ({
            let ts = spec_lex(s)->Ok_0;
            &&& (forall|i: int|
                spec_run_start(s, i) ==> exists|t: int|
                    0 <= t < ts.len() && (#[trigger] ts[t]).index == i && ts[t].shape
                        == spec_run_shape(s, i))
            &&& (forall|u1: int, u2: int|
                0 <= u1 < u2 < ts.len() ==> (#[trigger] ts[u1]).index < (#[trigger] ts[u2]).index)
        }),
{
    let p0 = ScanPos { idx: 0, line: 1, col: 1 };
    let raw = spec_tokens(s)->Ok_0;
    let ts = spec_lex(s)->Ok_0;
    lemma_lex_from_indices(s, p0);
    lemma_fold_from_increasing(false, raw);
    assert forall|i: int| spec_run_start(s, i) implies exists|t: int|
        0 <= t < ts.len() && (#[trigger] ts[t]).index == i && ts[t].shape == spec_run_shape(
        s,
        i,
    ) by {
        lemma_lex_from_run(s, p0, i);
        let w = choose|t: int|
            0 <= t < raw.len() && (#[trigger] raw[t]).index == i && raw[t].shape
                == spec_run_shape(s, i);
        assert(!(raw[w].shape is NL));
        lemma_fold_from_keeps(false, raw, w);
        let u = choose|u: int| 0 <= u < ts.len() && #[trigger] ts[u] == raw[w];
        assert(ts[u].index == i && ts[u].shape == spec_run_shape(s, i));
    }
}

/// Every successful lex ends with exactly one end-of-input marker, and no two
/// adjacent tokens of its output are both line breaks.
pub proof fn lemma_lex_terminal_shape(s: Seq<char>)
    ensures
        match spec_lex(s) {
            Ok(ts) => ts.len() >= 1 && ts.last().shape is Eof && (forall|u: int|
                0 <= u < ts.len() - 1 ==> !((#[trigger] ts[u]).shape is Eof)) && (forall|u: int|
                0 <= u < ts.len() - 1 ==> !((#[trigger] ts[u]).shape is NL && ts[u + 1].shape is NL)),
            Err(_) => true,
        },
{
    lemma_lex_from_terminal(s, ScanPos { idx: 0, line: 1, col: 1 });
    match spec_tokens(s) {
        Ok(raw) => {
            lemma_fold_from_eof(false, raw);
            lemma_fold_from_adjacent(false, raw);
        },
        Err(_) => {},
    }
}

} // verus!

