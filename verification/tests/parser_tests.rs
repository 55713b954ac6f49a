use slisp::lexer::Lexer;
use slisp::parser::{ParseErrorKind, Parser};
use slisp::parser::ast::{ParsedAst, ParsedAstKind};
use slisp::tokens::IdentifierKind;

fn parse(src: &str) -> Result<Vec<ParsedAst>, slisp::parser::ParseError> {
    let tokens = Lexer::new(src.to_string()).lex().unwrap();
    Parser::new(tokens).parse()
}

#[test]
fn parses_literals() {
    let ast = parse("1.5 true 'c' \"s\" x").unwrap();
    assert_eq!(ast.len(), 5);
    assert_eq!(ast[0].kind, ParsedAstKind::Float("1.5".to_string()));
    assert_eq!(ast[1].kind, ParsedAstKind::Bool(true));
    assert_eq!(ast[2].kind, ParsedAstKind::Char('c'));
    assert_eq!(ast[3].kind, ParsedAstKind::String("s".to_string()));
    match &ast[4].kind {
        ParsedAstKind::Identifier(id) => assert_eq!(id.name, "x"),
        other => panic!("expected identifier, got {:?}", other),
    }
}

#[test]
fn parses_arrays_with_and_without_trailing_comma() {
    let ast = parse("[1.0, 2.0, 3.0] [] [4.0,]").unwrap();
    match &ast[0].kind {
        ParsedAstKind::Array(elems) => assert_eq!(elems.len(), 3),
        other => panic!("expected array, got {:?}", other),
    }
    match &ast[1].kind {
        ParsedAstKind::Array(elems) => assert_eq!(elems.len(), 0),
        other => panic!("expected array, got {:?}", other),
    }
    match &ast[2].kind {
        ParsedAstKind::Array(elems) => assert_eq!(elems.len(), 1),
        other => panic!("expected array, got {:?}", other),
    }
}

#[test]
fn parses_nested_calls() {
    let ast = parse("(+ 1.0 (- 2.0 3.0))").unwrap();
    match &ast[0].kind {
        ParsedAstKind::Call { name, args } => {
            assert_eq!(name.name, "+");
            assert_eq!(name.kind, IdentifierKind::Variable);
            assert_eq!(args.len(), 2);
            match &args[1].kind {
                ParsedAstKind::Call { name, args } => {
                    assert_eq!(name.name, "-");
                    assert_eq!(args.len(), 2);
                },
                other => panic!("expected nested call, got {:?}", other),
            }
        },
        other => panic!("expected call, got {:?}", other),
    }
}

#[test]
fn call_head_must_be_an_identifier() {
    let e = parse("(1.0 2.0)").unwrap_err();
    assert_eq!(e.kind, ParseErrorKind::ExpectedIdentifier);
}

#[test]
fn array_elements_need_commas_or_a_close() {
    let e = parse("[1.0 2.0]").unwrap_err();
    assert_eq!(e.kind, ParseErrorKind::ExpectedCommaOrCloseBracket);
}

#[test]
fn stray_close_paren_is_no_expression() {
    let e = parse(")").unwrap_err();
    assert_eq!(e.kind, ParseErrorKind::ExpectedExpression);
}

#[test]
fn unclosed_call_is_an_eof_error() {
    let e = parse("(+ 1.0 2.0").unwrap_err();
    assert_eq!(e.kind, ParseErrorKind::UnexpectedEof);
}

#[test]
fn nodes_carry_their_token_position() {
    let ast = parse("\n  1.5").unwrap();
    assert_eq!((ast[0].line, ast[0].column), (2, 3));
}

#[test]
fn empty_input_parses_to_no_forms() {
    assert_eq!(parse("").unwrap(), vec![]);
}
