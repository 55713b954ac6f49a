use slisp::lexer::{Lexer, LexErrorKind};
use slisp::tokens::{IdentifierKind, TokenKind};

fn kinds(src: &str) -> Vec<TokenKind> {
    let mut lexer = Lexer::new(src.to_string());
    lexer.lex().unwrap().into_iter().map(|t| t.kind).collect()
}

#[test]
fn lexes_numbers_as_their_source_text() {
    assert_eq!(kinds("1.5"), vec![TokenKind::Float("1.5".to_string())]);
    assert_eq!(kinds("10"), vec![TokenKind::Float("10".to_string())]);
    assert_eq!(kinds("3."), vec![TokenKind::Float("3.".to_string())]);
}

#[test]
fn a_second_dot_in_a_number_is_an_error() {
    let mut lexer = Lexer::new("1.2.3".to_string());
    let e = lexer.lex().unwrap_err();
    assert_eq!(e.kind, LexErrorKind::UnexpectedDot);
}

#[test]
fn lexes_delimiters_and_identifier_sigils() {
    let ks = kinds("(@fn add[a] $t)");
    assert_eq!(ks.len(), 8);
    assert_eq!(ks[0], TokenKind::Delimiter('('));
    match &ks[1] {
        TokenKind::Identifier(id) => {
            assert_eq!(id.name, "fn");
            assert_eq!(id.kind, IdentifierKind::Macro);
        },
        other => panic!("expected macro identifier, got {:?}", other),
    }
    match &ks[2] {
        TokenKind::Identifier(id) => {
            assert_eq!(id.name, "add");
            assert_eq!(id.kind, IdentifierKind::Variable);
        },
        other => panic!("expected variable identifier, got {:?}", other),
    }
    assert_eq!(ks[3], TokenKind::Delimiter('['));
    assert_eq!(ks[5], TokenKind::Delimiter(']'));
    match &ks[6] {
        TokenKind::Identifier(id) => {
            assert_eq!(id.name, "t");
            assert_eq!(id.kind, IdentifierKind::Type);
        },
        other => panic!("expected type identifier, got {:?}", other),
    }
    assert_eq!(ks[7], TokenKind::Delimiter(')'));
}

#[test]
fn true_and_false_are_boolean_literals() {
    assert_eq!(kinds("true"), vec![TokenKind::Bool(true)]);
    assert_eq!(kinds("false"), vec![TokenKind::Bool(false)]);
    // with a sigil they stay identifiers.
    match &kinds("@true")[0] {
        TokenKind::Identifier(id) => assert_eq!(id.kind, IdentifierKind::Macro),
        other => panic!("expected identifier, got {:?}", other),
    }
}

#[test]
fn string_escapes_are_resolved() {
    assert_eq!(
        kinds("\"a\\nb\""),
        vec![TokenKind::String("a\nb".to_string())]
    );
    assert_eq!(
        kinds("\"q\\\"q\""),
        vec![TokenKind::String("q\"q".to_string())]
    );
    // a unicode escape names its code point.
    assert_eq!(
        kinds("\"\\u0041\""),
        vec![TokenKind::String("A".to_string())]
    );
}

#[test]
fn char_literals_and_their_escapes() {
    assert_eq!(kinds("'a'"), vec![TokenKind::Char('a')]);
    assert_eq!(kinds("'\\t'"), vec![TokenKind::Char('\t')]);
    assert_eq!(kinds("'\\u0041'"), vec![TokenKind::Char('A')]);
}

#[test]
fn unterminated_string_is_an_error() {
    let mut lexer = Lexer::new("\"abc".to_string());
    let e = lexer.lex().unwrap_err();
    assert_eq!(e.kind, LexErrorKind::UnexpectedEof);
}

#[test]
fn unknown_escape_is_an_error() {
    let mut lexer = Lexer::new("\"\\q\"".to_string());
    let e = lexer.lex().unwrap_err();
    assert_eq!(e.kind, LexErrorKind::InvalidEscape);
}

#[test]
fn surrogate_unicode_escape_is_an_error() {
    let mut lexer = Lexer::new("\"\\uD800\"".to_string());
    let e = lexer.lex().unwrap_err();
    assert_eq!(e.kind, LexErrorKind::InvalidUnicodeEscape);
}

#[test]
fn unclosed_char_literal_is_an_error() {
    let mut lexer = Lexer::new("'ab'".to_string());
    let e = lexer.lex().unwrap_err();
    assert_eq!(e.kind, LexErrorKind::ExpectedSingleQuote);
}

#[test]
fn tokens_carry_line_and_column() {
    let mut lexer = Lexer::new("  1.0\n  x".to_string());
    let tokens = lexer.lex().unwrap();
    assert_eq!((tokens[0].line, tokens[0].column), (1, 3));
    assert_eq!((tokens[1].line, tokens[1].column), (2, 3));
}

#[test]
fn whitespace_only_input_yields_no_tokens() {
    let mut lexer = Lexer::new("  \n\t ".to_string());
    assert_eq!(lexer.lex().unwrap(), vec![]);
}
