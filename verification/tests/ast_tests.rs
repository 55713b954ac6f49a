use slisp::interpreter::ast::{ItpAst, ItpAstKind};
use slisp::interpreter::error::ItpErrorKind;
use slisp::interpreter::value::{ItpConstantValue, ItpTypeValue};
use slisp::parser::ast::{ParsedAst, ParsedAstKind};
use slisp::tokens::{Identifier, IdentifierKind};

fn at(kind: ParsedAstKind) -> ParsedAst {
    ParsedAst { kind, line: 7, column: 9 }
}

#[test]
fn accessors_return_their_payload() {
    assert_eq!(at(ParsedAstKind::Int(4)).as_int().unwrap(), 4);
    assert_eq!(
        at(ParsedAstKind::Float("2.5".to_string())).as_float().unwrap(),
        "2.5"
    );
    assert_eq!(at(ParsedAstKind::Bool(true)).as_bool().unwrap(), true);
    assert_eq!(at(ParsedAstKind::Char('z')).as_char().unwrap(), 'z');
    assert_eq!(
        at(ParsedAstKind::String("s".to_string())).as_string().unwrap(),
        "s"
    );
    let id = Identifier { name: "n".to_string(), kind: IdentifierKind::Variable };
    assert_eq!(
        at(ParsedAstKind::Identifier(id.clone())).as_identifier().unwrap(),
        id
    );
    let arr = at(ParsedAstKind::Array(vec![at(ParsedAstKind::Int(1))]));
    assert_eq!(arr.as_array().unwrap().len(), 1);
    let call = at(ParsedAstKind::Call { name: id.clone(), args: vec![] });
    let (head, args) = call.as_call().unwrap();
    assert_eq!(head, id);
    assert_eq!(args.len(), 0);
}

#[test]
fn accessors_fail_on_the_wrong_kind_with_the_node_position() {
    let e = at(ParsedAstKind::Int(4)).as_bool().unwrap_err();
    assert_eq!(e.kind, ItpErrorKind::ExpectedBool);
    assert_eq!((e.line, e.column), (7, 9));
    let e = at(ParsedAstKind::Bool(true)).as_int().unwrap_err();
    assert_eq!(e.kind, ItpErrorKind::ExpectedInt);
    let e = at(ParsedAstKind::Bool(true)).as_float().unwrap_err();
    assert_eq!(e.kind, ItpErrorKind::ExpectedFloat);
    let e = at(ParsedAstKind::Bool(true)).as_char().unwrap_err();
    assert_eq!(e.kind, ItpErrorKind::ExpectedChar);
    let e = at(ParsedAstKind::Bool(true)).as_string().unwrap_err();
    assert_eq!(e.kind, ItpErrorKind::ExpectedString);
    let e = at(ParsedAstKind::Bool(true)).as_array().unwrap_err();
    assert_eq!(e.kind, ItpErrorKind::ExpectedArray);
    let e = at(ParsedAstKind::Bool(true)).as_identifier().unwrap_err();
    assert_eq!(e.kind, ItpErrorKind::ExpectedIdentifier);
    let e = at(ParsedAstKind::Bool(true)).as_call().unwrap_err();
    assert_eq!(e.kind, ItpErrorKind::ExpectedCall);
}

#[test]
fn duplicate_makes_an_equal_deep_copy() {
    let id = Identifier { name: "f".to_string(), kind: IdentifierKind::Variable };
    let node = at(ParsedAstKind::Call {
        name: id,
        args: vec![at(ParsedAstKind::Array(vec![at(ParsedAstKind::Int(1))]))],
    });
    assert_eq!(node.duplicate(), node);
}

#[test]
fn typed_node_types_follow_their_kind() {
    let c = |v: ItpConstantValue| ItpAst { kind: ItpAstKind::Constant(v), line: 1, column: 1 };
    assert_eq!(
        c(ItpConstantValue::Int(1)).get_type(),
        Some(ItpTypeValue::Int)
    );
    assert_eq!(
        c(ItpConstantValue::Float("1.0".to_string())).get_type(),
        Some(ItpTypeValue::Float)
    );
    let loopnode = ItpAst {
        kind: ItpAstKind::Loop {
            condition: Box::new(c(ItpConstantValue::Bool(true))),
            body: Box::new(c(ItpConstantValue::Int(1))),
        },
        line: 1,
        column: 1,
    };
    assert_eq!(loopnode.get_type(), Some(ItpTypeValue::Void));
}
