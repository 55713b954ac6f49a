use slisp::interpreter::error::ScopeError;
use slisp::interpreter::scope::Scope;
use slisp::interpreter::value::{ItpTypeValue, ItpValue};
use slisp::tokens::{Identifier, IdentifierKind};

fn named(name: &str, t: ItpTypeValue) -> ItpValue {
    ItpValue::Named(
        Identifier { name: name.to_string(), kind: IdentifierKind::Variable },
        t,
    )
}

#[test]
fn lookup_finds_local_binding() {
    let mut scope = Scope::new();
    scope.set(0, "x".to_string(), named("x", ItpTypeValue::Float)).unwrap();
    let got = scope.get(0, &"x".to_string()).unwrap();
    assert_eq!(*got, named("x", ItpTypeValue::Float));
}

#[test]
fn lookup_falls_back_to_ancestors_unless_shadowed() {
    let mut scope = Scope::new();
    scope.set(0, "x".to_string(), named("x", ItpTypeValue::Float)).unwrap();
    scope.set(0, "y".to_string(), named("y", ItpTypeValue::Bool)).unwrap();
    let child = scope.new_child(0);
    let grandchild = scope.new_child(child);
    // x is visible from the grandchild through two parent links.
    assert_eq!(
        *scope.get(grandchild, &"x".to_string()).unwrap(),
        named("x", ItpTypeValue::Float)
    );
    // an intervening scope shadows x; the innermost binding wins.
    scope.set(child, "x".to_string(), named("x", ItpTypeValue::Int)).unwrap();
    assert_eq!(
        *scope.get(grandchild, &"x".to_string()).unwrap(),
        named("x", ItpTypeValue::Int)
    );
    // the unshadowed y still resolves to the global binding.
    assert_eq!(
        *scope.get(grandchild, &"y".to_string()).unwrap(),
        named("y", ItpTypeValue::Bool)
    );
    // the global scope is unaffected by the shadow.
    assert_eq!(
        *scope.get(0, &"x".to_string()).unwrap(),
        named("x", ItpTypeValue::Float)
    );
}

#[test]
fn define_twice_fails_with_already_defined() {
    let mut scope = Scope::new();
    scope.set(0, "x".to_string(), named("x", ItpTypeValue::Float)).unwrap();
    let r = scope.set(0, "x".to_string(), named("x", ItpTypeValue::Float));
    assert_eq!(r, Err(ScopeError::AlreadyDefined { name: "x".to_string() }));
}

#[test]
fn define_does_not_consult_ancestors() {
    let mut scope = Scope::new();
    scope.set(0, "x".to_string(), named("x", ItpTypeValue::Float)).unwrap();
    let child = scope.new_child(0);
    // a first-define in the child succeeds even though the parent binds x.
    scope.set(child, "x".to_string(), named("x", ItpTypeValue::Int)).unwrap();
}

#[test]
fn replace_absent_fails_with_not_defined() {
    let mut scope = Scope::new();
    let child = scope.new_child(0);
    let r = scope.replace(child, "ghost".to_string(), named("ghost", ItpTypeValue::Float));
    assert_eq!(r, Err(ScopeError::NotDefined { name: "ghost".to_string() }));
}

#[test]
fn replace_requires_equal_types() {
    let mut scope = Scope::new();
    scope.set(0, "x".to_string(), named("x", ItpTypeValue::Float)).unwrap();
    let r = scope.replace(0, "x".to_string(), named("x", ItpTypeValue::Bool));
    assert_eq!(r, Err(ScopeError::TypeMismatch { name: "x".to_string() }));
    scope.replace(0, "x".to_string(), named("x", ItpTypeValue::Float)).unwrap();
}

#[test]
fn replace_overwrites_nearest_enclosing_binding() {
    let mut scope = Scope::new();
    scope.set(0, "x".to_string(), named("old", ItpTypeValue::Float)).unwrap();
    let child = scope.new_child(0);
    scope.replace(child, "x".to_string(), named("new", ItpTypeValue::Float)).unwrap();
    assert_eq!(
        *scope.get(0, &"x".to_string()).unwrap(),
        named("new", ItpTypeValue::Float)
    );
}

#[test]
fn set_or_replace_defines_then_replaces() {
    let mut scope = Scope::new();
    scope.set_or_replace(0, "x".to_string(), named("x", ItpTypeValue::Float)).unwrap();
    scope.set_or_replace(0, "x".to_string(), named("x2", ItpTypeValue::Float)).unwrap();
    assert_eq!(
        *scope.get(0, &"x".to_string()).unwrap(),
        named("x2", ItpTypeValue::Float)
    );
    let r = scope.set_or_replace(0, "x".to_string(), named("x3", ItpTypeValue::Bool));
    assert_eq!(r, Err(ScopeError::TypeMismatch { name: "x".to_string() }));
}

#[test]
fn fresh_temp_name_probes_and_reserves() {
    let mut scope = Scope::new();
    let first = scope.fresh_temp_name(0);
    assert_eq!(first, "temp");
    // the name was reserved, so the next call probes past it.
    let second = scope.fresh_temp_name(0);
    assert_eq!(second, "temp_1");
    assert!(scope.get(0, &second).is_some());
}

#[test]
fn fresh_temp_name_skips_names_the_scope_already_uses() {
    let mut scope = Scope::new();
    scope.set(0, "temp".to_string(), named("clash", ItpTypeValue::Float)).unwrap();
    let name = scope.fresh_temp_name(0);
    assert_ne!(name, "temp");
    assert!(scope.get(0, &name).is_some());
}
