use desolation::lexer::{Lexer, LexerError};
use desolation::stream::TokenStream;
use desolation::token::{Token, TokenType};
use desolation::types::{KeywordToken, LiteralToken, SyntaxToken};

fn lex_ok(source: &str) -> TokenStream {
    let mut lexer = Lexer::new();
    lexer.lex(source.to_string()).expect("expected a successful lex")
}

fn lex_err(source: &str) -> LexerError {
    let mut lexer = Lexer::new();
    lexer.lex(source.to_string()).expect_err("expected a failing lex")
}

fn types_of(ts: &TokenStream) -> Vec<TokenType> {
    ts.tokens.iter().map(|t| t.token_type()).collect()
}

fn positions_of(ts: &TokenStream) -> Vec<(usize, usize, usize)> {
    ts.tokens.iter().map(|t| (t.index(), t.line_no(), t.col_no())).collect()
}

#[test]
fn empty_input_gives_single_eof() {
    let ts = lex_ok("");
    assert_eq!(types_of(&ts), vec![TokenType::Eof]);
    assert_eq!(positions_of(&ts), vec![(0, 1, 1)]);
}

#[test]
fn whitespace_only_gives_single_eof() {
    let ts = lex_ok("  \t \r ");
    assert_eq!(types_of(&ts), vec![TokenType::Eof]);
    assert_eq!(positions_of(&ts), vec![(6, 1, 7)]);
}

#[test]
fn var_declaration_tokens_and_positions() {
    let ts = lex_ok("var x : 5");
    assert_eq!(
        types_of(&ts),
        vec![
            TokenType::Keyword(KeywordToken::Var),
            TokenType::Identifier("x".to_string()),
            TokenType::Syntax(SyntaxToken::Assign),
            TokenType::Literal(LiteralToken::Integer(5)),
            TokenType::Eof,
        ]
    );
    assert_eq!(
        positions_of(&ts),
        vec![(0, 1, 1), (4, 1, 5), (6, 1, 7), (8, 1, 9), (9, 1, 10)]
    );
}

#[test]
fn neq_is_one_token() {
    let ts = lex_ok("!=");
    assert_eq!(
        types_of(&ts),
        vec![TokenType::Syntax(SyntaxToken::Neq), TokenType::Eof]
    );
}

#[test]
fn bare_bang_is_not() {
    let ts = lex_ok("!");
    assert_eq!(
        types_of(&ts),
        vec![TokenType::Syntax(SyntaxToken::Not), TokenType::Eof]
    );
}

#[test]
fn three_blank_lines_fold_to_one_nl() {
    let ts = lex_ok("\n\n\n");
    assert_eq!(types_of(&ts), vec![TokenType::NL, TokenType::Eof]);
    assert_eq!(positions_of(&ts), vec![(0, 1, 1), (3, 4, 1)]);
}

#[test]
fn folding_keeps_first_nl_of_each_run() {
    let ts = lex_ok("a\n\nb\n\n\nc");
    assert_eq!(
        types_of(&ts),
        vec![
            TokenType::Identifier("a".to_string()),
            TokenType::NL,
            TokenType::Identifier("b".to_string()),
            TokenType::NL,
            TokenType::Identifier("c".to_string()),
            TokenType::Eof,
        ]
    );
    // each kept NL sits at the first newline of its run
    assert_eq!(ts.tokens[1].index(), 1);
    assert_eq!(ts.tokens[3].index(), 4);
}

#[test]
fn no_two_adjacent_nl_tokens_and_one_eof() {
    let ts = lex_ok("\n\nx\n\n\ny\n");
    let tys = types_of(&ts);
    assert_eq!(tys.last(), Some(&TokenType::Eof));
    let eof_count = tys.iter().filter(|t| matches!(t, TokenType::Eof)).count();
    assert_eq!(eof_count, 1);
    for pair in tys.windows(2) {
        assert!(!(matches!(pair[0], TokenType::NL) && matches!(pair[1], TokenType::NL)));
    }
}

#[test]
fn max_integer_literal_lexes() {
    let ts = lex_ok("9223372036854775807");
    assert_eq!(
        types_of(&ts),
        vec![
            TokenType::Literal(LiteralToken::Integer(9223372036854775807)),
            TokenType::Eof,
        ]
    );
}

#[test]
fn integer_overflow_is_reported() {
    let err = lex_err("9223372036854775808");
    assert_eq!(err, LexerError::InvalidIntegerLiteral(1, 1));
}

#[test]
fn integer_overflow_position_follows_token_start() {
    let err = lex_err("x : 99999999999999999999");
    assert_eq!(err, LexerError::InvalidIntegerLiteral(1, 5));
}

#[test]
fn unterminated_string_is_reported_at_opening_quote() {
    let err = lex_err("\"abc");
    assert_eq!(err, LexerError::InvalidStringLiteral(1, 1));
}

#[test]
fn string_literal_drops_quotes() {
    let ts = lex_ok("\"hello\"");
    assert_eq!(
        types_of(&ts),
        vec![
            TokenType::Literal(LiteralToken::String("hello".to_string())),
            TokenType::Eof,
        ]
    );
    assert_eq!(positions_of(&ts), vec![(0, 1, 1), (7, 1, 8)]);
}

#[test]
fn empty_string_literal() {
    let ts = lex_ok("\"\"");
    assert_eq!(
        types_of(&ts),
        vec![
            TokenType::Literal(LiteralToken::String(String::new())),
            TokenType::Eof,
        ]
    );
}

#[test]
fn character_literal() {
    let ts = lex_ok("'a'");
    assert_eq!(
        types_of(&ts),
        vec![
            TokenType::Literal(LiteralToken::Character('a')),
            TokenType::Eof,
        ]
    );
    assert_eq!(positions_of(&ts), vec![(0, 1, 1), (3, 1, 4)]);
}

#[test]
fn character_literal_missing_closing_quote() {
    assert_eq!(lex_err("'a"), LexerError::InvalidCharacterLiteral(1, 3));
    assert_eq!(lex_err("'"), LexerError::InvalidCharacterLiteral(1, 2));
    assert_eq!(lex_err("'ab"), LexerError::InvalidCharacterLiteral(1, 4));
}

#[test]
fn comment_runs_to_newline() {
    let ts = lex_ok("x # comment\ny");
    assert_eq!(
        types_of(&ts),
        vec![
            TokenType::Identifier("x".to_string()),
            TokenType::NL,
            TokenType::Identifier("y".to_string()),
            TokenType::Eof,
        ]
    );
    assert_eq!(ts.tokens[1].index(), 11);
    assert_eq!(ts.tokens[2].line_no(), 2);
    assert_eq!(ts.tokens[2].col_no(), 1);
}

#[test]
fn comment_without_newline_is_reported() {
    assert_eq!(lex_err("# trailing"), LexerError::InvalidEOL(1, 1));
    assert_eq!(lex_err("x # trailing"), LexerError::InvalidEOL(1, 3));
}

#[test]
fn bare_equals_is_unknown() {
    let ts = lex_ok("a = b");
    assert_eq!(
        types_of(&ts),
        vec![
            TokenType::Identifier("a".to_string()),
            TokenType::Unknown('='),
            TokenType::Identifier("b".to_string()),
            TokenType::Eof,
        ]
    );
}

#[test]
fn double_equals_is_eq() {
    let ts = lex_ok("==");
    assert_eq!(
        types_of(&ts),
        vec![TokenType::Syntax(SyntaxToken::Eq), TokenType::Eof]
    );
}

#[test]
fn comparison_and_shift_operators() {
    let ts = lex_ok("< <= << > >= >>");
    assert_eq!(
        types_of(&ts),
        vec![
            TokenType::Syntax(SyntaxToken::Lt),
            TokenType::Syntax(SyntaxToken::Leq),
            TokenType::Syntax(SyntaxToken::LShift),
            TokenType::Syntax(SyntaxToken::Gt),
            TokenType::Syntax(SyntaxToken::Geq),
            TokenType::Syntax(SyntaxToken::RShift),
            TokenType::Eof,
        ]
    );
}

#[test]
fn unknown_character_is_carried_through() {
    let ts = lex_ok("a @ b");
    assert_eq!(
        types_of(&ts),
        vec![
            TokenType::Identifier("a".to_string()),
            TokenType::Unknown('@'),
            TokenType::Identifier("b".to_string()),
            TokenType::Eof,
        ]
    );
}

#[test]
fn keywords_and_identifiers_split_on_membership() {
    let ts = lex_ok("var fun if else until loop return varx funny");
    assert_eq!(
        types_of(&ts),
        vec![
            TokenType::Keyword(KeywordToken::Var),
            TokenType::Keyword(KeywordToken::Fun),
            TokenType::Keyword(KeywordToken::If),
            TokenType::Keyword(KeywordToken::Else),
            TokenType::Keyword(KeywordToken::Until),
            TokenType::Keyword(KeywordToken::Loop),
            TokenType::Keyword(KeywordToken::Return),
            TokenType::Identifier("varx".to_string()),
            TokenType::Identifier("funny".to_string()),
            TokenType::Eof,
        ]
    );
}

#[test]
fn identifier_may_hold_digits_after_first_letter() {
    let ts = lex_ok("a1b2");
    assert_eq!(
        types_of(&ts),
        vec![TokenType::Identifier("a1b2".to_string()), TokenType::Eof]
    );
}

#[test]
fn digit_start_splits_into_integer_then_identifier() {
    let ts = lex_ok("12ab");
    assert_eq!(
        types_of(&ts),
        vec![
            TokenType::Literal(LiteralToken::Integer(12)),
            TokenType::Identifier("ab".to_string()),
            TokenType::Eof,
        ]
    );
}

#[test]
fn minus_is_separate_from_integer() {
    let ts = lex_ok("-5");
    assert_eq!(
        types_of(&ts),
        vec![
            TokenType::Syntax(SyntaxToken::Minus),
            TokenType::Literal(LiteralToken::Integer(5)),
            TokenType::Eof,
        ]
    );
}

#[test]
fn positions_across_lines() {
    let ts = lex_ok("x\ny");
    assert_eq!(
        positions_of(&ts),
        vec![(0, 1, 1), (1, 1, 2), (2, 2, 1), (3, 2, 2)]
    );
}

#[test]
fn round_trip_token_lengths_cover_consumed_text() {
    // every non-ignored character of this input belongs to exactly one token,
    // so the declared textual lengths must sum to the input length minus the
    // four separating spaces
    let source = "var != x <= 12";
    let ts = lex_ok(source);
    let mut sum: usize = 0;
    for t in &ts.tokens {
        sum += match t.token_type() {
            TokenType::Keyword(k) => k.length(),
            TokenType::Syntax(s) => s.length(),
            TokenType::Identifier(text) => text.chars().count(),
            TokenType::Literal(LiteralToken::Integer(n)) => n.to_string().len(),
            TokenType::Literal(LiteralToken::String(text)) => text.chars().count(),
            TokenType::Literal(LiteralToken::Character(_)) => 1,
            TokenType::Unknown(_) => 1,
            TokenType::NL => 1,
            TokenType::Eof => 0,
        };
    }
    assert_eq!(sum, source.len() - 4);
}

#[test]
fn lexer_is_reusable_across_calls() {
    let mut lexer = Lexer::new();
    let first = lexer.lex("var".to_string()).unwrap();
    let second = lexer.lex("5".to_string()).unwrap();
    assert_eq!(
        types_of(&first),
        vec![TokenType::Keyword(KeywordToken::Var), TokenType::Eof]
    );
    assert_eq!(
        types_of(&second),
        vec![TokenType::Literal(LiteralToken::Integer(5)), TokenType::Eof]
    );
}
