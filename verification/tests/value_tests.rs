use slisp::interpreter::value::{
    check_param, GenericBindings, IFPCheck, ItpConstantValue, ItpFunctionParameters, ItpTypeValue,
    ItpValue, ToBaseFunctionValue, UnItpedFunctionValue,
};

fn two_generic_params() -> ItpFunctionParameters {
    ItpFunctionParameters {
        generics: vec!["T".to_string()],
        parameters: vec![
            ("a".to_string(), ItpTypeValue::generic("T")),
            ("b".to_string(), ItpTypeValue::generic("T")),
        ],
        variadic: false,
    }
}

#[test]
fn generic_unification_binds_on_first_occurrence() {
    let sig = two_generic_params();
    let r = sig.check_params(&vec![ItpTypeValue::Int, ItpTypeValue::Int]);
    match r {
        IFPCheck::Accepted(bindings) => {
            assert_eq!(bindings.get(&"T".to_string()), Some(&ItpTypeValue::Int));
        },
        other => panic!("expected acceptance, got {:?}", other),
    }
}

#[test]
fn generic_unification_conflict_reports_bound_type() {
    let sig = two_generic_params();
    let r = sig.check_params(&vec![ItpTypeValue::Int, ItpTypeValue::Float]);
    // position 1 carries the actual type and the type T is already bound to.
    assert_eq!(r, IFPCheck::WrongType(1, ItpTypeValue::Float, ItpTypeValue::Int));
}

#[test]
fn arity_is_checked_before_types() {
    let sig = two_generic_params();
    assert_eq!(
        sig.check_params(&vec![ItpTypeValue::Int]),
        IFPCheck::NotEnoughParameters
    );
    assert_eq!(
        sig.check_params(&vec![ItpTypeValue::Int, ItpTypeValue::Int, ItpTypeValue::Int]),
        IFPCheck::TooManyParameters
    );
}

#[test]
fn variadic_accepts_extra_arguments_unchecked() {
    let sig = ItpFunctionParameters {
        generics: vec![],
        parameters: vec![("format".to_string(), ItpTypeValue::String)],
        variadic: true,
    };
    let r = sig.check_params(&vec![
        ItpTypeValue::String,
        ItpTypeValue::Float,
        ItpTypeValue::Bool,
    ]);
    assert!(matches!(r, IFPCheck::Accepted(_)));
}

#[test]
fn arrays_unify_structurally() {
    let mut bindings = GenericBindings::new();
    let declared = ItpTypeValue::Array(Box::new(ItpTypeValue::generic("T")));
    let actual = ItpTypeValue::Array(Box::new(ItpTypeValue::Bool));
    check_param(&mut bindings, 0, &declared, &actual).unwrap();
    assert_eq!(bindings.get(&"T".to_string()), Some(&ItpTypeValue::Bool));
    let not_an_array = ItpTypeValue::Float;
    let r = check_param(&mut bindings, 1, &declared, &not_an_array);
    assert_eq!(
        r,
        Err(IFPCheck::WrongType(1, ItpTypeValue::Float, declared))
    );
}

#[test]
fn homogeneous_float_array_has_float_element_type() {
    let arr = ItpConstantValue::Array(vec![
        ItpValue::Constant(ItpConstantValue::Float("1.0".to_string())),
        ItpValue::Constant(ItpConstantValue::Float("2.0".to_string())),
        ItpValue::Constant(ItpConstantValue::Float("3.0".to_string())),
    ]);
    assert_eq!(
        arr.get_type(),
        Some(ItpTypeValue::Array(Box::new(ItpTypeValue::Float)))
    );
}

#[test]
fn heterogeneous_array_has_no_type() {
    let arr = ItpConstantValue::Array(vec![
        ItpValue::Constant(ItpConstantValue::Float("1.0".to_string())),
        ItpValue::Constant(ItpConstantValue::String("x".to_string())),
    ]);
    assert_eq!(arr.get_type(), None);
}

#[test]
fn empty_array_has_no_type() {
    let arr = ItpConstantValue::Array(vec![]);
    assert_eq!(arr.get_type(), None);
}

#[test]
fn replace_generics_substitutes_bound_leaves() {
    let mut bindings = GenericBindings::new();
    bindings.insert("T".to_string(), ItpTypeValue::Bool);
    let t = ItpTypeValue::Array(Box::new(ItpTypeValue::generic("T")));
    assert_eq!(
        t.replace_generics(&bindings),
        ItpTypeValue::Array(Box::new(ItpTypeValue::Bool))
    );
    // unbound generics and concrete types are left unchanged.
    let u = ItpTypeValue::Array(Box::new(ItpTypeValue::generic("U")));
    assert_eq!(u.replace_generics(&bindings), u);
    assert_eq!(ItpTypeValue::Int.replace_generics(&bindings), ItpTypeValue::Int);
}

#[test]
fn to_base_keeps_the_signature() {
    let f = UnItpedFunctionValue {
        name: "f".to_string(),
        parameters: two_generic_params(),
        body: vec![],
        return_type: ItpTypeValue::Float,
    };
    let base = f.to_base();
    assert_eq!(base.name, "f");
    assert_eq!(base.parameters, two_generic_params());
    assert_eq!(base.return_type, ItpTypeValue::Float);
}
