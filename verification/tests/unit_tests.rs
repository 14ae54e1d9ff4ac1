use desolation::cursor::{Cursor, EOF_CHAR};
use desolation::keyword::Keyword;
use desolation::lexer::Lexer;
use desolation::stream::TokenStream;
use desolation::token::{TokenType, Token};
use desolation::types::{KeywordToken, LiteralToken, SyntaxToken};

#[test]
fn keyword_classifier_accepts_reserved_words() {
    assert_eq!(Keyword::from_str("var"), Some(Keyword::Var));
    assert_eq!(Keyword::from_str("fun"), Some(Keyword::Fun));
    assert_eq!(Keyword::from_str("if"), Some(Keyword::If));
    assert_eq!(Keyword::from_str("else"), Some(Keyword::Else));
    assert_eq!(Keyword::from_str("until"), Some(Keyword::Until));
    assert_eq!(Keyword::from_str("loop"), Some(Keyword::Loop));
    assert_eq!(Keyword::from_str("return"), Some(Keyword::Return));
    assert_eq!(Keyword::from_str("While"), None);
    assert_eq!(Keyword::from_str("vars"), None);
    assert_eq!(Keyword::from_str(""), None);
}

#[test]
fn keyword_token_classifier_matches_table() {
    assert_eq!(KeywordToken::from_str("until"), Some(KeywordToken::Until));
    assert_eq!(KeywordToken::from_str("Var"), None);
    assert_eq!(KeywordToken::from_str("retur"), None);
}

#[test]
fn keyword_token_lengths() {
    assert_eq!(KeywordToken::Var.length(), 3);
    assert_eq!(KeywordToken::Fun.length(), 3);
    assert_eq!(KeywordToken::If.length(), 2);
    assert_eq!(KeywordToken::Else.length(), 4);
    assert_eq!(KeywordToken::Until.length(), 5);
    assert_eq!(KeywordToken::Loop.length(), 4);
    assert_eq!(KeywordToken::Return.length(), 6);
}

#[test]
fn syntax_classifier_prefers_two_character_forms() {
    assert_eq!(SyntaxToken::from_char('!', Some('=')), Some(SyntaxToken::Neq));
    assert_eq!(SyntaxToken::from_char('!', Some('x')), Some(SyntaxToken::Not));
    assert_eq!(SyntaxToken::from_char('!', None), Some(SyntaxToken::Not));
    assert_eq!(SyntaxToken::from_char('=', Some('=')), Some(SyntaxToken::Eq));
    assert_eq!(SyntaxToken::from_char('=', Some('x')), None);
    assert_eq!(SyntaxToken::from_char('=', None), None);
    assert_eq!(SyntaxToken::from_char('<', Some('=')), Some(SyntaxToken::Leq));
    assert_eq!(SyntaxToken::from_char('<', Some('<')), Some(SyntaxToken::LShift));
    assert_eq!(SyntaxToken::from_char('<', Some('5')), Some(SyntaxToken::Lt));
    assert_eq!(SyntaxToken::from_char('>', Some('=')), Some(SyntaxToken::Geq));
    assert_eq!(SyntaxToken::from_char('>', Some('>')), Some(SyntaxToken::RShift));
    assert_eq!(SyntaxToken::from_char('>', None), Some(SyntaxToken::Gt));
    assert_eq!(SyntaxToken::from_char(':', Some('=')), Some(SyntaxToken::Assign));
    assert_eq!(SyntaxToken::from_char('q', None), None);
    assert_eq!(SyntaxToken::from_char('@', Some('@')), None);
}

#[test]
fn syntax_token_lengths() {
    assert_eq!(SyntaxToken::Eq.length(), 2);
    assert_eq!(SyntaxToken::Neq.length(), 2);
    assert_eq!(SyntaxToken::Leq.length(), 2);
    assert_eq!(SyntaxToken::Geq.length(), 2);
    assert_eq!(SyntaxToken::LShift.length(), 2);
    assert_eq!(SyntaxToken::RShift.length(), 2);
    assert_eq!(SyntaxToken::Assign.length(), 1);
    assert_eq!(SyntaxToken::Plus.length(), 1);
    assert_eq!(SyntaxToken::LBrace.length(), 1);
}

#[test]
fn token_type_from_char_single_character_fallback() {
    assert_eq!(TokenType::from_char('{'), TokenType::Syntax(SyntaxToken::LBrace));
    assert_eq!(TokenType::from_char(':'), TokenType::Syntax(SyntaxToken::Assign));
    assert_eq!(TokenType::from_char('!'), TokenType::Syntax(SyntaxToken::Not));
    assert_eq!(TokenType::from_char('<'), TokenType::Syntax(SyntaxToken::Lt));
    assert_eq!(TokenType::from_char('='), TokenType::Unknown('='));
    assert_eq!(TokenType::from_char('?'), TokenType::Unknown('?'));
}

#[test]
fn token_carries_position_and_category() {
    let t: Token = TokenType::Keyword(KeywordToken::If).at(7, 2, 3);
    assert_eq!(t.index(), 7);
    assert_eq!(t.line_no(), 2);
    assert_eq!(t.col_no(), 3);
    assert!(t.is_keyword());
    assert!(!t.is_identifier());
    assert!(!t.is_integer_literal());
    assert!(!t.is_string_literal());
    assert!(!t.is_character_literal());
    assert_eq!(t.token_type(), TokenType::Keyword(KeywordToken::If));

    let i = TokenType::Identifier("abc".to_string()).at(0, 1, 1);
    assert!(i.is_identifier());
    let n = TokenType::Literal(LiteralToken::Integer(3)).at(0, 1, 1);
    assert!(n.is_integer_literal());
    let s = TokenType::Literal(LiteralToken::String("s".to_string())).at(0, 1, 1);
    assert!(s.is_string_literal());
    let c = TokenType::Literal(LiteralToken::Character('c')).at(0, 1, 1);
    assert!(c.is_character_literal());
    let nl = TokenType::NL.at(0, 1, 1);
    assert!(nl.is_nl());
    let e = TokenType::Eof.at(0, 1, 1);
    assert!(e.is_eof());
}

fn lex_all(source: &str) -> TokenStream {
    let mut lexer = Lexer::new();
    lexer.lex(source.to_string()).expect("expected a successful lex")
}

#[test]
fn stream_filters_select_by_category() {
    let ts = lex_all("var x 'c' \"s\" 42");
    let keywords = ts.get_keywords();
    assert_eq!(keywords.tokens.len(), 1);
    assert_eq!(
        keywords.tokens[0].token_type(),
        TokenType::Keyword(KeywordToken::Var)
    );
    let identifiers = ts.get_identifiers();
    assert_eq!(identifiers.tokens.len(), 1);
    assert_eq!(
        identifiers.tokens[0].token_type(),
        TokenType::Identifier("x".to_string())
    );
    let chars = ts.get_character_literals();
    assert_eq!(chars.tokens.len(), 1);
    assert_eq!(
        chars.tokens[0].token_type(),
        TokenType::Literal(LiteralToken::Character('c'))
    );
    let strings = ts.get_string_literals();
    assert_eq!(strings.tokens.len(), 1);
    assert_eq!(
        strings.tokens[0].token_type(),
        TokenType::Literal(LiteralToken::String("s".to_string()))
    );
    let ints = ts.get_integer_literals();
    assert_eq!(ints.tokens.len(), 1);
    assert_eq!(
        ints.tokens[0].token_type(),
        TokenType::Literal(LiteralToken::Integer(42))
    );
}

#[test]
fn stream_filters_preserve_order() {
    let ts = lex_all("a var b fun c");
    let identifiers = ts.get_identifiers();
    let names: Vec<TokenType> = identifiers.tokens.iter().map(|t| t.token_type()).collect();
    assert_eq!(
        names,
        vec![
            TokenType::Identifier("a".to_string()),
            TokenType::Identifier("b".to_string()),
            TokenType::Identifier("c".to_string()),
        ]
    );
    let keywords = ts.get_keywords();
    assert_eq!(keywords.tokens[0].index(), 2);
    assert_eq!(keywords.tokens[1].index(), 8);
}

#[test]
fn cursor_peeks_without_advancing() {
    let c = Cursor::new("ab");
    assert_eq!(c.first(), 'a');
    assert_eq!(c.second(), 'b');
    assert_eq!(c.first(), 'a');
    assert!(!c.is_eof());
    assert_eq!(c.prev(), EOF_CHAR);
}

#[test]
fn cursor_returns_sentinel_past_the_end() {
    let one = Cursor::new("x");
    assert_eq!(one.first(), 'x');
    assert_eq!(one.second(), EOF_CHAR);
    let empty = Cursor::new("");
    assert_eq!(empty.first(), EOF_CHAR);
    assert_eq!(empty.second(), EOF_CHAR);
    assert!(empty.is_eof());
}
