use crate::interpreter::scope::{spec_find_index, SpecScopeRecord};
use crate::interpreter::value::{
    lemma_params_view_index, lemma_params_view_len, params_view, type_view, value_view,
    ItpFunctionParameters, ItpTypeValue, ItpValue, NativeFunctionValue, SpecFunctionParameters,
    SpecNativeFunction, SpecType, SpecValue,
};
use crate::interpreter::Interpreter;
use vstd::prelude::*;

verus! {

/// An intrinsic binary operator on floats: `(float, float) -> float`.
pub open spec fn spec_binary_float_native(name: Seq<char>) -> SpecValue {
    SpecValue::NativeFunction(
        SpecNativeFunction {
            name,
            parameters: SpecFunctionParameters {
                generics: Seq::empty(),
                parameters: seq![(("a")@, SpecType::Float), (("b")@, SpecType::Float)],
                variadic: false,
            },
            return_type: SpecType::Float,
            intrinsic: true,
        },
    )
}

/// The intrinsic generic equality: `(T, T) -> bool`.
pub open spec fn spec_eq_native() -> SpecValue {
    SpecValue::NativeFunction(
        SpecNativeFunction {
            name: ("==")@,
            parameters: SpecFunctionParameters {
                generics: seq![("T")@],
                parameters: seq![
                    (("a")@, SpecType::Generic(("T")@)),
                    (("b")@, SpecType::Generic(("T")@)),
                ],
                variadic: false,
            },
            return_type: SpecType::Bool,
            intrinsic: true,
        },
    )
}

/// The intrinsic array indexing: `(array of T, float) -> T`.
pub open spec fn spec_get_native() -> SpecValue {
    SpecValue::NativeFunction(
        SpecNativeFunction {
            name: ("get")@,
            parameters: SpecFunctionParameters {
                generics: seq![("T")@],
                parameters: seq![
                    (("array")@, SpecType::Array(Box::new(SpecType::Generic(("T")@)))),
                    (("index")@, SpecType::Float),
                ],
                variadic: false,
            },
            return_type: SpecType::Generic(("T")@),
            intrinsic: true,
        },
    )
}

/// The externally linked variadic formatted print: `(string, ...) -> void`.
pub open spec fn spec_printf_native() -> SpecValue {
    SpecValue::NativeFunction(
        SpecNativeFunction {
            name: ("printf")@,
            parameters: SpecFunctionParameters {
                generics: Seq::empty(),
                parameters: seq![(("format")@, SpecType::String)],
                variadic: true,
            },
            return_type: SpecType::Void,
            intrinsic: false,
        },
    )
}

/// The bindings of the native registry, in the order they are installed:
/// the four float arithmetic intrinsics, generic equality, array indexing,
/// and the variadic print.
pub open spec fn spec_native_bindings() -> Seq<(Seq<char>, SpecValue)> {
    seq![
        (("+")@, spec_binary_float_native(("+")@)),
        (("-")@, spec_binary_float_native(("-")@)),
        (("*")@, spec_binary_float_native(("*")@)),
        (("/")@, spec_binary_float_native(("/")@)),
        (("==")@, spec_eq_native()),
        (("get")@, spec_get_native()),
        (("printf")@, spec_printf_native()),
    ]
}

/// The native registry binds seven distinct names, so a fresh resolver's
/// global scope never binds a name twice.
pub proof fn lemma_native_bindings_distinct()
    ensures
        crate::interpreter::distinct_keys(spec_native_bindings()),
{
    reveal_strlit("+");
    reveal_strlit("-");
    reveal_strlit("*");
    reveal_strlit("/");
    reveal_strlit("==");
    reveal_strlit("get");
    reveal_strlit("printf");
    assert(("+")@.len() == 1 && ("+")@[0] == '+');
    assert(("-")@.len() == 1 && ("-")@[0] == '-');
    assert(("*")@.len() == 1 && ("*")@[0] == '*');
    assert(("/")@.len() == 1 && ("/")@[0] == '/');
    assert(("==")@.len() == 2);
    assert(("get")@.len() == 3);
    assert(("printf")@.len() == 6);
    let b = spec_native_bindings();
    assert forall|i: int, j: int| 0 <= i < j < b.len() implies b[i].0 != b[j].0 by {}
}

/// An intrinsic binary float operator under the given name.
fn binary_float_native(name: &str) -> (r: ItpValue)
    ensures
        value_view(r) == spec_binary_float_native(name@),
{
    let mut parameters: Vec<(String, ItpTypeValue)> = Vec::new();
    parameters.push(("a".to_owned(), ItpTypeValue::Float));
    parameters.push(("b".to_owned(), ItpTypeValue::Float));
    proof {
        lemma_params_view_len(parameters@);
        lemma_params_view_index(parameters@, 0);
        lemma_params_view_index(parameters@, 1);
        assert(params_view(parameters@) =~= seq![
            (("a")@, SpecType::Float),
            (("b")@, SpecType::Float),
        ]);
        assert(Seq::<String>::empty().map_values(|g: String| g@) =~= Seq::<Seq<char>>::empty());
    }
    ItpValue::NativeFunction(
        NativeFunctionValue {
            name: name.to_owned(),
            parameters: ItpFunctionParameters {
                generics: Vec::new(),
                parameters,
                variadic: false,
            },
            return_type: ItpTypeValue::Float,
            intrinsic: true,
        },
    )
}

/// The intrinsic generic equality.
fn eq_native() -> (r: ItpValue)
    ensures
        value_view(r) == spec_eq_native(),
{
    let mut generics: Vec<String> = Vec::new();
    generics.push("T".to_owned());
    let mut parameters: Vec<(String, ItpTypeValue)> = Vec::new();
    parameters.push(("a".to_owned(), ItpTypeValue::generic("T")));
    parameters.push(("b".to_owned(), ItpTypeValue::generic("T")));
    proof {
        lemma_params_view_len(parameters@);
        lemma_params_view_index(parameters@, 0);
        lemma_params_view_index(parameters@, 1);
        assert(params_view(parameters@) =~= seq![
            (("a")@, SpecType::Generic(("T")@)),
            (("b")@, SpecType::Generic(("T")@)),
        ]);
        assert(generics@.map_values(|g: String| g@) =~= seq![("T")@]);
    }
    ItpValue::NativeFunction(
        NativeFunctionValue {
            name: "==".to_owned(),
            parameters: ItpFunctionParameters { generics, parameters, variadic: false },
            return_type: ItpTypeValue::Bool,
            intrinsic: true,
        },
    )
}

/// The intrinsic array indexing.
fn get_native() -> (r: ItpValue)
    ensures
        value_view(r) == spec_get_native(),
{
    let mut generics: Vec<String> = Vec::new();
    generics.push("T".to_owned());
    let mut parameters: Vec<(String, ItpTypeValue)> = Vec::new();
    parameters.push(
        ("array".to_owned(), ItpTypeValue::Array(Box::new(ItpTypeValue::generic("T")))),
    );
    parameters.push(("index".to_owned(), ItpTypeValue::Float));
    proof {
        reveal_with_fuel(type_view, 2);
        lemma_params_view_len(parameters@);
        lemma_params_view_index(parameters@, 0);
        lemma_params_view_index(parameters@, 1);
        assert(params_view(parameters@) =~= seq![
            (("array")@, SpecType::Array(Box::new(SpecType::Generic(("T")@)))),
            (("index")@, SpecType::Float),
        ]);
        assert(generics@.map_values(|g: String| g@) =~= seq![("T")@]);
    }
    ItpValue::NativeFunction(
        NativeFunctionValue {
            name: "get".to_owned(),
            parameters: ItpFunctionParameters { generics, parameters, variadic: false },
            return_type: ItpTypeValue::generic("T"),
            intrinsic: true,
        },
    )
}

/// The externally linked variadic formatted print.
fn printf_native() -> (r: ItpValue)
    ensures
        value_view(r) == spec_printf_native(),
{
    let mut parameters: Vec<(String, ItpTypeValue)> = Vec::new();
    parameters.push(("format".to_owned(), ItpTypeValue::String));
    proof {
        lemma_params_view_len(parameters@);
        lemma_params_view_index(parameters@, 0);
        assert(params_view(parameters@) =~= seq![(("format")@, SpecType::String)]);
        assert(Seq::<String>::empty().map_values(|g: String| g@) =~= Seq::<Seq<char>>::empty());
    }
    ItpValue::NativeFunction(
        NativeFunctionValue {
            name: "printf".to_owned(),
            parameters: ItpFunctionParameters {
                generics: Vec::new(),
                parameters,
                variadic: true,
            },
            return_type: ItpTypeValue::Void,
            intrinsic: false,
        },
    )
}

/// Install the native registry into the resolver's empty global scope.
pub fn add_native_fns(itp: &mut Interpreter)
    requires
        old(itp).inv(),
        old(itp)@[0].bindings == Seq::<(Seq<char>, SpecValue)>::empty(),
    ensures
        final(itp)@ == old(itp)@.update(
            0,
            SpecScopeRecord { parent: old(itp)@[0].parent, bindings: spec_native_bindings() },
        ),
        final(itp).inv(),
        final(itp)@.len() == old(itp)@.len(),
{
    proof {
        reveal_strlit("+");
        reveal_strlit("-");
        reveal_strlit("*");
        reveal_strlit("/");
        reveal_strlit("==");
        reveal_strlit("get");
        reveal_strlit("printf");
    }
    let ghost rs0 = itp@;
    proof {
        assert(("+")@.len() == 1 && ("+")@[0] == '+');
        assert(("-")@.len() == 1 && ("-")@[0] == '-');
        assert(("*")@.len() == 1 && ("*")@[0] == '*');
        assert(("/")@.len() == 1 && ("/")@[0] == '/');
        assert(("==")@.len() == 2);
        assert(("get")@.len() == 3);
        assert(("printf")@.len() == 6);
    }
    install(itp, "+", binary_float_native("+"));
    proof {
        assert forall|k: int| 0 <= k < itp@[0].bindings.len() implies itp@[0].bindings[k].0 != ("-")@ by {}
        crate::interpreter::scope::lemma_find_index_absent(itp@[0].bindings, ("-")@);
    }
    install(itp, "-", binary_float_native("-"));
    proof {
        assert forall|k: int| 0 <= k < itp@[0].bindings.len() implies itp@[0].bindings[k].0 != ("*")@ by {}
        crate::interpreter::scope::lemma_find_index_absent(itp@[0].bindings, ("*")@);
    }
    install(itp, "*", binary_float_native("*"));
    proof {
        assert forall|k: int| 0 <= k < itp@[0].bindings.len() implies itp@[0].bindings[k].0 != ("/")@ by {}
        crate::interpreter::scope::lemma_find_index_absent(itp@[0].bindings, ("/")@);
    }
    install(itp, "/", binary_float_native("/"));
    proof {
        assert forall|k: int| 0 <= k < itp@[0].bindings.len() implies itp@[0].bindings[k].0 != ("==")@ by {}
        crate::interpreter::scope::lemma_find_index_absent(itp@[0].bindings, ("==")@);
    }
    install(itp, "==", eq_native());
    proof {
        assert forall|k: int| 0 <= k < itp@[0].bindings.len() implies itp@[0].bindings[k].0 != ("get")@ by {}
        crate::interpreter::scope::lemma_find_index_absent(itp@[0].bindings, ("get")@);
    }
    install(itp, "get", get_native());
    proof {
        assert forall|k: int| 0 <= k < itp@[0].bindings.len() implies itp@[0].bindings[k].0 != ("printf")@ by {}
        crate::interpreter::scope::lemma_find_index_absent(itp@[0].bindings, ("printf")@);
    }
    install(itp, "printf", printf_native());
    proof {
        assert(itp@[0].bindings =~= spec_native_bindings());
        assert(itp@ =~= rs0.update(
            0,
            SpecScopeRecord { parent: rs0[0].parent, bindings: spec_native_bindings() },
        ));
    }
}

/// Install one native binding; the name must be new to the global scope.
fn install(itp: &mut Interpreter, name: &str, value: ItpValue)
    requires
        old(itp).inv(),
        spec_find_index(old(itp)@[0].bindings, name@) is None,
    ensures
        final(itp)@ == old(itp)@.update(
            0,
            SpecScopeRecord {
                parent: old(itp)@[0].parent,
                bindings: old(itp)@[0].bindings.push((name@, value_view(value))),
            },
        ),
        final(itp).inv(),
        final(itp)@.len() == old(itp)@.len(),
{
    match itp.scope.set(0, name.to_owned(), value) {
        Ok(()) => {},
        Err(_) => {
            proof {
                assert(false);
            }
        },
    }
}

} // verus!
