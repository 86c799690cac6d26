use atc::tokenise::{categorise, extends};
use atc::{ErrorKind, Token, TokenType, Tokeniser};

fn lex(src: &str) -> Vec<Token> {
    let mut t = Tokeniser::new(src.to_string(), false);
    t.tokenise().expect("source should lex")
}

fn kinds(ts: &[Token]) -> Vec<TokenType> {
    ts.iter().map(|t| t.token).collect()
}

#[test]
fn lexes_declaration_and_exit() {
    let ts = lex("int x = 5; exit(x + 1);");
    assert_eq!(
        kinds(&ts),
        vec![
            TokenType::IntType,
            TokenType::Identifier,
            TokenType::AssignEq,
            TokenType::IntegerLit,
            TokenType::Semicolon,
            TokenType::Exit,
            TokenType::ParenOpen,
            TokenType::Identifier,
            TokenType::Plus,
            TokenType::IntegerLit,
            TokenType::ParenClose,
            TokenType::Semicolon,
        ]
    );
    let texts: Vec<&str> = ts.iter().map(|t| t.info.as_str()).collect();
    assert_eq!(texts, vec!["int", "x", "=", "5", ";", "exit", "(", "x", "+", "1", ")", ";"]);
    assert!(ts.iter().all(|t| t.line == 1));
}

#[test]
fn literal_and_name_texts_are_source_substrings() {
    let src = "int counter_1-b = 4072;\nexit(counter_1-b / 17);";
    let ts = lex(src);
    for t in &ts {
        if t.token == TokenType::IntegerLit || t.token == TokenType::Identifier {
            assert!(src.contains(t.info.as_str()));
        }
    }
    assert_eq!(ts[1].info, "counter_1-b");
    assert_eq!(ts[3].info, "4072");
    assert_eq!(ts[7].info, "counter_1-b");
    assert_eq!(ts[9].info, "17");
}

#[test]
fn newlines_and_comments_advance_lines() {
    let ts = lex("// a comment\nint a;\n\n  exit(a); // trailing\nputchar(65);");
    assert_eq!(ts[0].token, TokenType::IntType);
    assert_eq!(ts[0].line, 2);
    assert_eq!(ts[3].token, TokenType::Exit);
    assert_eq!(ts[3].line, 4);
    assert_eq!(ts.last().unwrap().line, 5);
    assert_eq!(ts.len(), 3 + 5 + 5);
}

#[test]
fn digits_then_letters_split() {
    let ts = lex("12ab");
    assert_eq!(kinds(&ts), vec![TokenType::IntegerLit, TokenType::Identifier]);
    assert_eq!(ts[0].info, "12");
    assert_eq!(ts[1].info, "ab");
}

#[test]
fn keywords_and_symbols() {
    let ts = lex("fn putchar exit int { } ( ) = + - * / ;");
    assert_eq!(
        kinds(&ts),
        vec![
            TokenType::Function,
            TokenType::PutChar,
            TokenType::Exit,
            TokenType::IntType,
            TokenType::BraceOpen,
            TokenType::BraceClose,
            TokenType::ParenOpen,
            TokenType::ParenClose,
            TokenType::AssignEq,
            TokenType::Plus,
            TokenType::Minus,
            TokenType::Star,
            TokenType::ForwardsSlash,
            TokenType::Semicolon,
        ]
    );
}

#[test]
fn distinct_punctuation_is_separate() {
    let ts = lex("();");
    assert_eq!(kinds(&ts), vec![TokenType::ParenOpen, TokenType::ParenClose, TokenType::Semicolon]);
}

#[test]
fn repeated_punctuation_merges_and_fails() {
    let mut t = Tokeniser::new("exit(1 -- 2);".to_string(), false);
    let e = t.tokenise().unwrap_err();
    assert_eq!(e.kind, ErrorKind::Lex);
    assert_eq!(e.msg, "Could not tokenise --");
    assert_eq!(e.line, 1);
}

#[test]
fn unknown_character_fails_with_line() {
    let mut t = Tokeniser::new("int a;\nint b = #;".to_string(), false);
    let e = t.tokenise().unwrap_err();
    assert_eq!(e.kind, ErrorKind::Lex);
    assert_eq!(e.msg, "Could not tokenise #");
    assert_eq!(e.line, 2);
}

#[test]
fn empty_source_has_no_tokens() {
    assert!(lex("").is_empty());
    assert!(lex("  \n\t // only a comment").is_empty());
}

#[test]
fn cloned_token_is_equal() {
    let ts = lex("abc");
    let c = ts[0].cloned();
    assert_eq!(c.token, ts[0].token);
    assert_eq!(c.info, ts[0].info);
    assert_eq!(c.line, ts[0].line);
}

#[test]
fn doubled_parentheses_merge_into_one_word() {
    let mut t = Tokeniser::new("exit((1));".to_string(), false);
    let e = t.tokenise().unwrap_err();
    assert_eq!(e.msg, "Could not tokenise ((");
    let ts = lex("exit( (1) );");
    assert_eq!(ts.len(), 7);
}

#[test]
fn categorise_by_given_classes() {
    assert_eq!(categorise(&"exit".to_string(), false, true), TokenType::Exit);
    assert_eq!(categorise(&";".to_string(), false, false), TokenType::Semicolon);
    assert_eq!(categorise(&"abc".to_string(), false, true), TokenType::Identifier);
    assert_eq!(categorise(&"42".to_string(), true, false), TokenType::IntegerLit);
    // a character that is both numeric and alphabetic counts as a digit
    assert_eq!(categorise(&"x".to_string(), true, true), TokenType::IntegerLit);
    assert_eq!(categorise(&"#".to_string(), false, false), TokenType::NoToken);
}

#[test]
fn extends_by_given_classes() {
    assert!(extends('a', true, false, '_', false, false));
    assert!(extends('a', true, false, '-', false, false));
    assert!(extends('a', true, false, '7', false, true));
    assert!(!extends('a', true, false, '+', false, false));
    assert!(extends('1', false, true, '2', false, true));
    assert!(!extends('1', false, true, 'b', true, false));
    assert!(extends('=', false, false, '=', false, false));
    assert!(!extends('=', false, false, ';', false, false));
}

#[test]
fn unicode_letters_form_names() {
    let ts = lex("int größe = 2;");
    assert_eq!(ts[1].token, TokenType::Identifier);
    assert_eq!(ts[1].info, "größe");
}

#[test]
fn whitespace_matches_std_for_every_char() {
    for c in (0u32..=0x10FFFF).filter_map(char::from_u32) {
        assert_eq!(atc::tokenise::is_whitespace(c), c.is_whitespace(), "{:?}", c);
    }
}

#[test]
fn next_word_steps_through_the_text() {
    let mut t = Tokeniser::new("  ab_c-1 ((".to_string(), false);
    assert_eq!(t.get_next_word(), Some("ab_c-1".to_string()));
    assert_eq!(t.get_next_word(), Some("((".to_string()));
    assert_eq!(t.get_next_word(), None);
    assert_eq!(t.get_next_word(), None);
}

#[test]
fn next_word_passes_a_comment_to_its_newline() {
    let mut t = Tokeniser::new("\n // note\nx".to_string(), false);
    assert_eq!(t.get_next_word(), None);
    assert_eq!(t.get_next_word(), Some("x".to_string()));
    assert_eq!(t.get_next_word(), None);
}

#[test]
fn tokens_compare_by_kind_text_and_line() {
    let a = lex("x y\nx");
    assert!(a[0] == a[0].cloned());
    assert!(a[0] != a[1]);
    assert!(a[0] != a[2]);
    assert_eq!(a[0], Token { token: TokenType::Identifier, info: "x".to_string(), line: 1 });
}
