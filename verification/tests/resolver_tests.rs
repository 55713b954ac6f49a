use slisp::interpreter::ast::{ItpAst, ItpAstKind};
use slisp::interpreter::error::{ItpError, ItpErrorKind};
use slisp::interpreter::value::{ItpTypeValue, ItpValue};
use slisp::interpreter::Interpreter;
use slisp::lexer::Lexer;
use slisp::parser::Parser;

fn resolve(src: &str) -> Result<Interpreter, ItpError> {
    let tokens = Lexer::new(src.to_string()).lex().unwrap();
    let ast = Parser::new(tokens).parse().unwrap();
    let mut interpreter = Interpreter::new();
    interpreter.interpret(&ast)?;
    Ok(interpreter)
}

fn global(interpreter: &Interpreter, name: &str) -> ItpValue {
    interpreter.scope.get(0, &name.to_string()).unwrap().duplicate()
}

fn count_calls_to(nodes: &[ItpAst], name: &str) -> usize {
    let mut n = 0;
    for node in nodes {
        n += count_calls_in(node, name);
    }
    n
}

fn count_calls_in(node: &ItpAst, name: &str) -> usize {
    match &node.kind {
        ItpAstKind::Constant(_) => 0,
        ItpAstKind::Variable { .. } => 0,
        ItpAstKind::Param { .. } => 0,
        ItpAstKind::SetVariable { value, .. } => count_calls_in(value, name),
        ItpAstKind::Conditional { condition, then, else_ } => {
            count_calls_in(condition, name) + count_calls_in(then, name)
                + count_calls_in(else_, name)
        },
        ItpAstKind::Loop { condition, body } => {
            count_calls_in(condition, name) + count_calls_in(body, name)
        },
        ItpAstKind::Call { function, arguments, .. } => {
            let own = if function.name == name { 1 } else { 0 };
            own + count_calls_to(arguments, name)
        },
    }
}

#[test]
fn forward_recursion_resolves_in_the_second_pass() {
    let interpreter = resolve(
        "(@fn fib[n] (@if (== n 0.0) 0.0 (@if (== n 1.0) 1.0 (+ (fib (- n 1.0)) (fib (- n 2.0))))))
         (@fn main[] (fib 10.0))",
    )
    .unwrap();
    match global(&interpreter, "fib") {
        ItpValue::Function(f) => {
            assert_eq!(f.name, "fib");
            assert_eq!(f.parameters.parameters.len(), 1);
            assert_eq!(f.parameters.parameters[0].1, ItpTypeValue::Float);
            assert_eq!(f.return_type, ItpTypeValue::Float);
            // the lowered body holds exactly the two self-calls.
            assert_eq!(count_calls_to(&f.body, "fib"), 2);
        },
        other => panic!("expected a lowered function, got {:?}", other),
    }
    // the caller was lowered too, and its call site type-checked.
    match global(&interpreter, "main") {
        ItpValue::Function(f) => {
            assert_eq!(count_calls_to(&f.body, "fib"), 1);
            match &f.body[0].kind {
                ItpAstKind::Call { result, .. } => assert_eq!(*result, ItpTypeValue::Float),
                other => panic!("expected a call node, got {:?}", other),
            }
        },
        other => panic!("expected a lowered function, got {:?}", other),
    }
}

#[test]
fn mutual_forward_references_resolve() {
    let interpreter = resolve(
        "(@fn even[n] (@if (== n 0.0) 1.0 (odd (- n 1.0))))
         (@fn odd[n] (@if (== n 0.0) 0.0 (even (- n 1.0))))",
    )
    .unwrap();
    assert!(matches!(global(&interpreter, "even"), ItpValue::Function(_)));
    assert!(matches!(global(&interpreter, "odd"), ItpValue::Function(_)));
}

#[test]
fn set_then_set_replaces_instead_of_failing() {
    let interpreter = resolve("(@set x (+ 1.0 2.0)) (@set x (+ x 1.0))").unwrap();
    match global(&interpreter, "x") {
        ItpValue::Named(id, t) => {
            assert_eq!(id.name, "x");
            assert_eq!(t, ItpTypeValue::Float);
        },
        other => panic!("expected a named alias, got {:?}", other),
    }
}

#[test]
fn end_to_end_program_resolves_with_native_printf() {
    let interpreter = resolve(
        "(@fn add[a,b] (+ a b))
         (@fn main[] (@set n 10.0) (printf \"%f %f\\n\" n (add n 1.0)))",
    )
    .unwrap();
    assert!(matches!(global(&interpreter, "add"), ItpValue::Function(_)));
    match global(&interpreter, "main") {
        ItpValue::Function(f) => {
            // the add call inside main's body was typed float.
            assert_eq!(count_calls_to(&f.body, "add"), 1);
            assert_eq!(count_calls_to(&f.body, "printf"), 1);
        },
        other => panic!("expected a lowered function, got {:?}", other),
    }
    match global(&interpreter, "printf") {
        ItpValue::NativeFunction(f) => {
            assert!(!f.intrinsic);
            assert!(f.parameters.variadic);
        },
        other => panic!("expected a native function, got {:?}", other),
    }
}

#[test]
fn generic_equality_call_types_as_bool_and_substitutes() {
    let interpreter = resolve("(@fn main[] (@set b (== 1.0 2.0)) 0.0)").unwrap();
    match global(&interpreter, "main") {
        ItpValue::Function(f) => match &f.body[0].kind {
            ItpAstKind::SetVariable { value, .. } => match &value.kind {
                ItpAstKind::Call { result, .. } => assert_eq!(*result, ItpTypeValue::Bool),
                other => panic!("expected a call, got {:?}", other),
            },
            other => panic!("expected an assignment, got {:?}", other),
        },
        other => panic!("expected a lowered function, got {:?}", other),
    }
}

#[test]
fn unresolved_variable_is_reported_with_its_position() {
    let e = resolve("\n  x").unwrap_err();
    assert_eq!(e.kind, ItpErrorKind::UnresolvedSymbol { name: "x".to_string() });
    assert_eq!((e.line, e.column), (2, 3));
}

#[test]
fn unresolved_function_is_reported() {
    let e = resolve("(nope 1.0)").unwrap_err();
    assert_eq!(e.kind, ItpErrorKind::UnresolvedSymbol { name: "nope".to_string() });
}

#[test]
fn unknown_macro_is_reported() {
    let e = resolve("(@nope 1.0)").unwrap_err();
    assert_eq!(e.kind, ItpErrorKind::MacroNotFound { name: "nope".to_string() });
}

#[test]
fn calling_a_non_function_is_reported() {
    let e = resolve("(@set x 1.0) (x 2.0)").unwrap_err();
    assert_eq!(e.kind, ItpErrorKind::NotAFunction { name: "x".to_string() });
}

#[test]
fn arity_errors_on_native_calls() {
    let e = resolve("(+ 1.0)").unwrap_err();
    assert_eq!(e.kind, ItpErrorKind::NotEnoughParameters);
    let e = resolve("(+ 1.0 2.0 3.0)").unwrap_err();
    assert_eq!(e.kind, ItpErrorKind::TooManyParameters);
}

#[test]
fn positional_type_mismatch_carries_both_types() {
    let e = resolve("(+ 1.0 true)").unwrap_err();
    assert_eq!(
        e.kind,
        ItpErrorKind::WrongType {
            index: 1,
            got: ItpTypeValue::Bool,
            expected: ItpTypeValue::Float,
        },
    );
}

#[test]
fn generic_conflict_reports_the_bound_type() {
    let e = resolve("(== true 1.0)").unwrap_err();
    assert_eq!(
        e.kind,
        ItpErrorKind::WrongType {
            index: 1,
            got: ItpTypeValue::Float,
            expected: ItpTypeValue::Bool,
        },
    );
}

#[test]
fn array_argument_shape_mismatch_is_reported() {
    let e = resolve("(get 1.0 2.0)").unwrap_err();
    assert_eq!(
        e.kind,
        ItpErrorKind::WrongType {
            index: 0,
            got: ItpTypeValue::Float,
            expected: ItpTypeValue::Array(Box::new(ItpTypeValue::generic("T"))),
        },
    );
}

#[test]
fn macro_arity_errors() {
    let e = resolve("(@set x)").unwrap_err();
    assert_eq!(e.kind, ItpErrorKind::MacroArityError { expected: 2, got: 1 });
    let e = resolve("(@if true 1.0)").unwrap_err();
    assert_eq!(e.kind, ItpErrorKind::MacroArityError { expected: 3, got: 2 });
    let e = resolve("(@while true)").unwrap_err();
    assert_eq!(e.kind, ItpErrorKind::MacroArityError { expected: 2, got: 1 });
    let e = resolve("(@fn f)").unwrap_err();
    assert_eq!(e.kind, ItpErrorKind::MacroArityError { expected: 2, got: 1 });
}

#[test]
fn set_needs_exactly_one_lowered_value() {
    // a declaration lowers to no nodes at all.
    let e = resolve("(@set x (@fn f[] 1.0))").unwrap_err();
    assert_eq!(e.kind, ItpErrorKind::SingletonExpected { got: 0 });
    // an array literal flattens to one node per element.
    let e = resolve("(@set x [1.0, 2.0])").unwrap_err();
    assert_eq!(e.kind, ItpErrorKind::SingletonExpected { got: 2 });
}

#[test]
fn declaring_a_function_twice_is_already_defined() {
    let e = resolve("(@fn f[] 1.0) (@fn f[] 2.0)").unwrap_err();
    assert_eq!(e.kind, ItpErrorKind::AlreadyDefined { name: "f".to_string() });
}

#[test]
fn set_cannot_change_a_binding_type() {
    let e = resolve("(@set x 1.0) (@set x true)").unwrap_err();
    assert_eq!(e.kind, ItpErrorKind::ReplaceTypeMismatch { name: "x".to_string() });
}

#[test]
fn declaration_parts_must_have_the_right_shape() {
    let e = resolve("(@fn 1.0 [x] x)").unwrap_err();
    assert_eq!(e.kind, ItpErrorKind::ExpectedIdentifier);
    let e = resolve("(@fn f 1.0)").unwrap_err();
    assert_eq!(e.kind, ItpErrorKind::ExpectedArray);
    let e = resolve("(@fn f [1.0] 2.0)").unwrap_err();
    assert_eq!(e.kind, ItpErrorKind::ExpectedIdentifier);
}

#[test]
fn sigiled_identifiers_cannot_stand_as_values() {
    let e = resolve("@x").unwrap_err();
    assert_eq!(e.kind, ItpErrorKind::MacroMisplaced { name: "x".to_string() });
    let e = resolve("$x").unwrap_err();
    assert_eq!(e.kind, ItpErrorKind::TypeMisplaced { name: "x".to_string() });
}

#[test]
fn while_lowers_to_a_loop_node() {
    let interpreter = resolve("(@fn main[] (@set i 0.0) (@while (== i 0.0) (@set i 1.0)) 0.0)")
        .unwrap();
    match global(&interpreter, "main") {
        ItpValue::Function(f) => {
            assert!(f.body.iter().any(|n| matches!(n.kind, ItpAstKind::Loop { .. })));
        },
        other => panic!("expected a lowered function, got {:?}", other),
    }
}

#[test]
fn conditional_arm_types_decide_the_node_type() {
    let interpreter = resolve("(@fn main[] (@set a (@if true 1.0 2.0)) 0.0)").unwrap();
    match global(&interpreter, "main") {
        ItpValue::Function(f) => match &f.body[0].kind {
            ItpAstKind::SetVariable { value, .. } => {
                assert_eq!(value.get_type(), Some(ItpTypeValue::Float));
            },
            other => panic!("expected an assignment, got {:?}", other),
        },
        other => panic!("expected a lowered function, got {:?}", other),
    }
    // arms that disagree make the conditional void.
    let e = resolve("(@fn main[] (@set a (@if true 1.0 false)) 0.0)").unwrap();
    match global(&e, "main") {
        ItpValue::Function(f) => match &f.body[0].kind {
            ItpAstKind::SetVariable { value, .. } => {
                assert_eq!(value.get_type(), Some(ItpTypeValue::Void));
            },
            other => panic!("expected an assignment, got {:?}", other),
        },
        other => panic!("expected a lowered function, got {:?}", other),
    }
}

#[test]
fn parameters_lower_to_param_nodes() {
    let interpreter = resolve("(@fn id[x] x)").unwrap();
    match global(&interpreter, "id") {
        ItpValue::Function(f) => match &f.body[0].kind {
            ItpAstKind::Param { position, name, result } => {
                assert_eq!(*position, 0);
                assert_eq!(name.name, "x");
                assert_eq!(*result, ItpTypeValue::Float);
            },
            other => panic!("expected a parameter reference, got {:?}", other),
        },
        other => panic!("expected a lowered function, got {:?}", other),
    }
}

#[test]
fn no_placeholder_survives_a_successful_resolution() {
    let interpreter = resolve(
        "(@fn ping[n] (pong n))
         (@fn pong[n] n)
         (@fn main[] (ping 1.0))",
    )
    .unwrap();
    for (_, value) in &interpreter.scope.records[0].bindings {
        assert!(!matches!(value, ItpValue::UnItpedFunction(_)));
    }
}

#[test]
fn an_empty_program_resolves_to_the_native_registry() {
    let interpreter = resolve("").unwrap();
    for name in ["+", "-", "*", "/", "==", "get", "printf"] {
        assert!(matches!(
            global(&interpreter, name),
            ItpValue::NativeFunction(_)
        ));
    }
}
