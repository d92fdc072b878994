use lexer::Lexer;
use lexer::Token;
use lexer::TokenKind;

fn lex_all(src: &str) -> Vec<Token> {
    let mut l = Lexer::new("test".to_string(), src.to_string());
    let mut out = Vec::new();
    while let Some(t) = l.next() {
        out.push(t);
    }
    out
}

fn kinds(src: &str) -> Vec<TokenKind> {
    lex_all(src).into_iter().map(|t| t.kind).collect()
}

fn positions(src: &str) -> Vec<(usize, usize)> {
    lex_all(src).into_iter().map(|t| (t.context.line, t.context.column)).collect()
}

#[test]
fn whitespace_only_yields_no_tokens() {
    assert_eq!(kinds(""), vec![]);
    assert_eq!(kinds("   "), vec![]);
    assert_eq!(kinds(" \t\r\n \x0c "), vec![]);
}

#[test]
fn digit_run_is_one_number() {
    assert_eq!(kinds("12345"), vec![TokenKind::Number("12345".to_string())]);
    assert_eq!(kinds("7"), vec![TokenKind::Number("7".to_string())]);
    assert_eq!(kinds("1_000"), vec![TokenKind::Number("1_000".to_string())]);
}

#[test]
fn one_dot_is_number_two_dots_are_invalid() {
    assert_eq!(kinds("123.45"), vec![TokenKind::Number("123.45".to_string())]);
    assert_eq!(kinds("1.2.3"), vec![TokenKind::Invalid("1.2.3".to_string())]);
}

#[test]
fn keywords_then_identifier_with_increasing_columns() {
    assert_eq!(
        kinds("fn mut foo"),
        vec![TokenKind::Fn, TokenKind::Mut, TokenKind::Identifier("foo".to_string())]
    );
    let pos = positions("fn mut foo");
    assert_eq!(pos, vec![(1, 1), (1, 4), (1, 8)]);
    assert!(pos[0].1 < pos[1].1 && pos[1].1 < pos[2].1);
}

#[test]
fn string_literal_consumes_both_quotes() {
    assert_eq!(kinds("\"hello\""), vec![TokenKind::String("hello".to_string())]);
    assert_eq!(kinds("\"\""), vec![TokenKind::String("".to_string())]);
    assert_eq!(kinds("\"a b\"c"), vec![
        TokenKind::String("a b".to_string()),
        TokenKind::Identifier("c".to_string()),
    ]);
}

#[test]
fn unterminated_string_is_invalid() {
    assert_eq!(kinds("\"hello"), vec![TokenKind::Invalid("hello".to_string())]);
    assert_eq!(kinds("\""), vec![TokenKind::Invalid("".to_string())]);
}

#[test]
fn backslash_is_an_ordinary_character() {
    assert_eq!(kinds("\"a\\b\""), vec![TokenKind::String("a\\b".to_string())]);
}

#[test]
fn char_literal_must_hold_one_character() {
    assert_eq!(kinds("'a'"), vec![TokenKind::Char("a".to_string())]);
    assert_eq!(kinds("''"), vec![TokenKind::Invalid("".to_string())]);
    assert_eq!(kinds("'ab'"), vec![TokenKind::Invalid("ab".to_string())]);
}

#[test]
fn unterminated_char_is_invalid() {
    assert_eq!(kinds("'a"), vec![TokenKind::Invalid("a".to_string())]);
}

#[test]
fn declaration_symbol_is_one_token() {
    let ks = kinds(":=");
    assert_eq!(ks, vec![TokenKind::Declaratation]);
    assert!(!ks.contains(&TokenKind::Colon));
}

#[test]
fn all_keywords_are_recognized() {
    assert_eq!(
        kinds("fn mut if elif else for in while"),
        vec![
            TokenKind::Fn,
            TokenKind::Mut,
            TokenKind::If,
            TokenKind::Elif,
            TokenKind::Else,
            TokenKind::For,
            TokenKind::In,
            TokenKind::While,
        ]
    );
}

#[test]
fn keyword_prefix_is_an_identifier() {
    assert_eq!(kinds("format"), vec![TokenKind::Identifier("format".to_string())]);
    assert_eq!(kinds("_if"), vec![TokenKind::Identifier("_if".to_string())]);
    assert_eq!(kinds("_"), vec![TokenKind::Identifier("_".to_string())]);
}

#[test]
fn all_single_symbols_are_recognized() {
    assert_eq!(
        kinds("{ } ( ) [ ] , ! < > ~ & | ^ = + - * / %"),
        vec![
            TokenKind::LeftCurly,
            TokenKind::RightCurly,
            TokenKind::LeftParen,
            TokenKind::RightParen,
            TokenKind::LeftBracket,
            TokenKind::RightBracket,
            TokenKind::Colon,
            TokenKind::Not,
            TokenKind::LowerThan,
            TokenKind::GreaterThan,
            TokenKind::BitNot,
            TokenKind::BitAnd,
            TokenKind::BitOr,
            TokenKind::BitXor,
            TokenKind::Assignment,
            TokenKind::Plus,
            TokenKind::Minus,
            TokenKind::Times,
            TokenKind::DividedBy,
            TokenKind::Modulus,
        ]
    );
}

#[test]
fn all_double_symbols_are_recognized() {
    assert_eq!(
        kinds("&& || == != <= >= :="),
        vec![
            TokenKind::And,
            TokenKind::Or,
            TokenKind::Equals,
            TokenKind::NotEquals,
            TokenKind::LowerEquals,
            TokenKind::GreaterEquals,
            TokenKind::Declaratation,
        ]
    );
}

#[test]
fn maximal_munch_on_adjacent_symbols() {
    assert_eq!(kinds("<=>"), vec![TokenKind::LowerEquals, TokenKind::GreaterThan]);
    assert_eq!(kinds("!=="), vec![TokenKind::NotEquals, TokenKind::Assignment]);
    assert_eq!(kinds("&&&"), vec![TokenKind::And, TokenKind::BitAnd]);
    assert_eq!(kinds("||="), vec![TokenKind::Or, TokenKind::Assignment]);
}

#[test]
fn adjacent_tokens_are_all_kept() {
    assert_eq!(kinds("1+2"), vec![
        TokenKind::Number("1".to_string()),
        TokenKind::Plus,
        TokenKind::Number("2".to_string()),
    ]);
    assert_eq!(kinds("123abc"), vec![
        TokenKind::Number("123".to_string()),
        TokenKind::Identifier("abc".to_string()),
    ]);
    assert_eq!(kinds("foo("), vec![
        TokenKind::Identifier("foo".to_string()),
        TokenKind::LeftParen,
    ]);
}

#[test]
fn lone_colon_is_invalid() {
    assert_eq!(kinds(":"), vec![TokenKind::Invalid(":".to_string())]);
    assert_eq!(kinds(":x"), vec![
        TokenKind::Invalid(":".to_string()),
        TokenKind::Identifier("x".to_string()),
    ]);
}

#[test]
fn unrecognized_character_is_invalid_alone() {
    assert_eq!(kinds("@"), vec![TokenKind::Invalid("@".to_string())]);
    assert_eq!(kinds("#"), vec![TokenKind::Invalid("#".to_string())]);
    let toks = lex_all("  @");
    assert_eq!(toks.len(), 1);
    assert_eq!(toks[0].kind, TokenKind::Invalid("@".to_string()));
    assert_eq!((toks[0].context.line, toks[0].context.column), (1, 3));
}

#[test]
fn tokenizing_twice_is_deterministic() {
    let src = "fn x := 1.5 \"s\" 'c' <= ! @ 1.2.3 while";
    let first = lex_all(src);
    let second = lex_all(src);
    assert_eq!(first, second);
}

#[test]
fn token_after_newline_reports_line_two_column_one() {
    let toks = lex_all("a\nb");
    assert_eq!(toks.len(), 2);
    assert_eq!((toks[0].context.line, toks[0].context.column), (1, 1));
    assert_eq!((toks[1].context.line, toks[1].context.column), (2, 1));
}

#[test]
fn positions_across_several_lines() {
    assert_eq!(positions("a\nbb\n c"), vec![(1, 1), (2, 1), (3, 2)]);
    assert_eq!(positions("a\r\nb"), vec![(1, 1), (2, 1)]);
}

#[test]
fn context_carries_the_source_name() {
    let mut l = Lexer::new("first.src".to_string(), "x".to_string());
    let t = l.next().unwrap();
    assert_eq!(t.context.source_file, "first.src".to_string());
    assert!(l.next().is_none());
}

#[test]
fn tokenize_symbol_scans_the_opening_symbol() {
    let mut l = Lexer::new("test".to_string(), ":=1".to_string());
    assert_eq!(l.tokenize_symbol(), TokenKind::Declaratation);
    let rest = l.next().unwrap();
    assert_eq!(rest.kind, TokenKind::Number("1".to_string()));
}

#[test]
fn mixed_program_line() {
    assert_eq!(
        kinds("x := y + 10 % 3"),
        vec![
            TokenKind::Identifier("x".to_string()),
            TokenKind::Declaratation,
            TokenKind::Identifier("y".to_string()),
            TokenKind::Plus,
            TokenKind::Number("10".to_string()),
            TokenKind::Modulus,
            TokenKind::Number("3".to_string()),
        ]
    );
}
