use crate::interpreter::ast::{itp_list_view, ItpAst, SpecItpAst};
use crate::parser::ast::{past_list_view, ParsedAst, SpecParsedAst};
use crate::tokens::{Identifier, IdentifierV};
use vstd::prelude::*;

verus! {

/// What a name in scope can denote: a typed parameter slot, a constant, a
/// named alias, a fully lowered function, a not-yet-lowered function, or a
/// native function signature.
#[derive(Debug, PartialEq)]
pub enum ItpValue {
    Param(u32, ItpTypeValue),
    Constant(ItpConstantValue),
    Named(Identifier, ItpTypeValue),
    Function(ItpFunctionValue),
    UnItpedFunction(UnItpedFunctionValue),
    NativeFunction(NativeFunctionValue),
}

/// A fully known literal value.
///
/// A float constant is carried as its numeric source text: the resolver
/// only ever needs its type.
#[derive(Debug, PartialEq)]
pub enum ItpConstantValue {
    Int(i64),
    Float(String),
    String(String),
    Char(char),
    Bool(bool),
    Array(Vec<ItpValue>),
}

/// The closed set of value types.
#[derive(Debug, PartialEq)]
pub enum ItpTypeValue {
    Int,
    Float,
    String,
    Char,
    Bool,
    Array(Box<ItpTypeValue>),
    Function { parameters: ItpFunctionParameters, return_type: Box<ItpTypeValue> },
    Generic(String),
    Void,
}

/// A function signature: named generics, an ordered parameter list of
/// (name, type), and whether extra arguments are accepted.
#[derive(Debug, PartialEq)]
pub struct ItpFunctionParameters {
    pub generics: Vec<String>,
    pub parameters: Vec<(String, ItpTypeValue)>,
    pub variadic: bool,
}

/// A top-level function whose signature is known but whose body has not
/// been lowered yet.
#[derive(Debug, PartialEq)]
pub struct UnItpedFunctionValue {
    pub name: String,
    pub parameters: ItpFunctionParameters,
    pub body: Vec<ParsedAst>,
    pub return_type: ItpTypeValue,
}

/// A fully lowered function.
#[derive(Debug, PartialEq)]
pub struct ItpFunctionValue {
    pub name: String,
    pub parameters: ItpFunctionParameters,
    pub body: Vec<ItpAst>,
    pub return_type: ItpTypeValue,
}

/// A native function: a signature supplied by the environment, with a flag
/// distinguishing intrinsics from externally linked symbols.
#[derive(Debug, PartialEq)]
pub struct NativeFunctionValue {
    pub name: String,
    pub parameters: ItpFunctionParameters,
    pub return_type: ItpTypeValue,
    pub intrinsic: bool,
}

/// The signature part shared by every function-like binding.
#[derive(Debug, PartialEq)]
pub struct BaseFunctionValue {
    pub name: String,
    pub parameters: ItpFunctionParameters,
    pub return_type: ItpTypeValue,
}

/// Mathematical model of an [`ItpTypeValue`].
pub enum SpecType {
    Int,
    Float,
    String,
    Char,
    Bool,
    Array(Box<SpecType>),
    Function { parameters: SpecFunctionParameters, return_type: Box<SpecType> },
    Generic(Seq<char>),
    Void,
}

/// Mathematical model of an [`ItpFunctionParameters`].
pub struct SpecFunctionParameters {
    pub generics: Seq<Seq<char>>,
    pub parameters: Seq<(Seq<char>, SpecType)>,
    pub variadic: bool,
}

/// Mathematical model of an [`ItpConstantValue`].
pub enum SpecConstant {
    Int(i64),
    Float(Seq<char>),
    String(Seq<char>),
    Char(char),
    Bool(bool),
    Array(Seq<SpecValue>),
}

/// Mathematical model of an [`ItpValue`].
pub enum SpecValue {
    Param(int, SpecType),
    Constant(SpecConstant),
    Named(IdentifierV, SpecType),
    Function(SpecFunction),
    UnItpedFunction(SpecUnItpedFunction),
    NativeFunction(SpecNativeFunction),
}

/// Mathematical model of an [`ItpFunctionValue`].
pub struct SpecFunction {
    pub name: Seq<char>,
    pub parameters: SpecFunctionParameters,
    pub body: Seq<SpecItpAst>,
    pub return_type: SpecType,
}

/// Mathematical model of an [`UnItpedFunctionValue`].
pub struct SpecUnItpedFunction {
    pub name: Seq<char>,
    pub parameters: SpecFunctionParameters,
    pub body: Seq<SpecParsedAst>,
    pub return_type: SpecType,
}

/// Mathematical model of a [`NativeFunctionValue`].
pub struct SpecNativeFunction {
    pub name: Seq<char>,
    pub parameters: SpecFunctionParameters,
    pub return_type: SpecType,
    pub intrinsic: bool,
}

/// Mathematical model of a [`BaseFunctionValue`].
pub struct SpecBaseFunction {
    pub name: Seq<char>,
    pub parameters: SpecFunctionParameters,
    pub return_type: SpecType,
}

/// The model of one type.
pub open spec fn type_view(t: ItpTypeValue) -> SpecType
    decreases t,
{
    match t {
        ItpTypeValue::Int => SpecType::Int,
        ItpTypeValue::Float => SpecType::Float,
        ItpTypeValue::String => SpecType::String,
        ItpTypeValue::Char => SpecType::Char,
        ItpTypeValue::Bool => SpecType::Bool,
        ItpTypeValue::Array(elem) => SpecType::Array(Box::new(type_view(*elem))),
        ItpTypeValue::Function { parameters, return_type } => SpecType::Function {
            parameters: fparams_view(parameters),
            return_type: Box::new(type_view(*return_type)),
        },
        ItpTypeValue::Generic(name) => SpecType::Generic(name@),
        ItpTypeValue::Void => SpecType::Void,
    }
}

/// The model of a parameter list.
pub open spec fn params_view(ps: Seq<(String, ItpTypeValue)>) -> Seq<(Seq<char>, SpecType)>
    decreases ps,
{
    if ps.len() == 0 {
        Seq::empty()
    } else {
        params_view(ps.drop_last()).push((ps[ps.len() - 1].0@, type_view(ps[ps.len() - 1].1)))
    }
}

/// The model of a signature.
pub open spec fn fparams_view(p: ItpFunctionParameters) -> SpecFunctionParameters
    decreases p,
{
    SpecFunctionParameters {
        generics: p.generics@.map_values(|g: String| g@),
        parameters: params_view(p.parameters@),
        variadic: p.variadic,
    }
}

/// The model of one constant.
pub open spec fn const_view(c: ItpConstantValue) -> SpecConstant
    decreases c,
{
    match c {
        ItpConstantValue::Int(n) => SpecConstant::Int(n),
        ItpConstantValue::Float(s) => SpecConstant::Float(s@),
        ItpConstantValue::String(s) => SpecConstant::String(s@),
        ItpConstantValue::Char(ch) => SpecConstant::Char(ch),
        ItpConstantValue::Bool(b) => SpecConstant::Bool(b),
        ItpConstantValue::Array(vs) => SpecConstant::Array(value_list_view(vs@)),
    }
}

/// The model of one binding.
pub open spec fn value_view(v: ItpValue) -> SpecValue
    decreases v,
{
    match v {
        ItpValue::Param(i, t) => SpecValue::Param(i as int, type_view(t)),
        ItpValue::Constant(c) => SpecValue::Constant(const_view(c)),
        ItpValue::Named(id, t) => SpecValue::Named(id@, type_view(t)),
        ItpValue::Function(f) => SpecValue::Function(
            SpecFunction {
                name: f.name@,
                parameters: fparams_view(f.parameters),
                body: itp_list_view(f.body@),
                return_type: type_view(f.return_type),
            },
        ),
        ItpValue::UnItpedFunction(f) => SpecValue::UnItpedFunction(
            SpecUnItpedFunction {
                name: f.name@,
                parameters: fparams_view(f.parameters),
                body: past_list_view(f.body@),
                return_type: type_view(f.return_type),
            },
        ),
        ItpValue::NativeFunction(f) => SpecValue::NativeFunction(
            SpecNativeFunction {
                name: f.name@,
                parameters: fparams_view(f.parameters),
                return_type: type_view(f.return_type),
                intrinsic: f.intrinsic,
            },
        ),
    }
}

/// The model of a list of bindings.
pub open spec fn value_list_view(vs: Seq<ItpValue>) -> Seq<SpecValue>
    decreases vs,
{
    if vs.len() == 0 {
        Seq::empty()
    } else {
        value_list_view(vs.drop_last()).push(value_view(vs[vs.len() - 1]))
    }
}

impl View for ItpTypeValue {
    type V = SpecType;

    open spec fn view(&self) -> SpecType {
        type_view(*self)
    }
}

impl View for ItpFunctionParameters {
    type V = SpecFunctionParameters;

    open spec fn view(&self) -> SpecFunctionParameters {
        fparams_view(*self)
    }
}

impl View for ItpConstantValue {
    type V = SpecConstant;

    open spec fn view(&self) -> SpecConstant {
        const_view(*self)
    }
}

impl View for ItpValue {
    type V = SpecValue;

    open spec fn view(&self) -> SpecValue {
        value_view(*self)
    }
}

impl View for BaseFunctionValue {
    type V = SpecBaseFunction;

    open spec fn view(&self) -> SpecBaseFunction {
        SpecBaseFunction {
            name: self.name@,
            parameters: self.parameters@,
            return_type: self.return_type@,
        }
    }
}

/// Pointwise view equality of parameter lists lifts to their models.
pub proof fn lemma_params_view_congruence(a: Seq<(String, ItpTypeValue)>, b: Seq<
    (String, ItpTypeValue),
>)
    requires
        a.len() == b.len(),
        forall|i: int|
            0 <= i < a.len() ==> a[i].0@ == b[i].0@ && type_view(a[i].1) == type_view(b[i].1),
    ensures
        params_view(a) == params_view(b),
{
    lemma_params_view_len(a);
    lemma_params_view_len(b);
    assert forall|i: int| 0 <= i < a.len() implies params_view(a)[i] == params_view(b)[i] by {
        lemma_params_view_index(a, i);
        lemma_params_view_index(b, i);
    }
    assert(params_view(a) =~= params_view(b));
}

impl ItpTypeValue {
    /// Deep copy with a full specification (a derived `Clone` says nothing
    /// to the verifier).
    pub fn duplicate(&self) -> (r: ItpTypeValue)
        ensures
            r@ == self@,
        decreases *self, 0int,
    {
        match self {
            ItpTypeValue::Int => ItpTypeValue::Int,
            ItpTypeValue::Float => ItpTypeValue::Float,
            ItpTypeValue::String => ItpTypeValue::String,
            ItpTypeValue::Char => ItpTypeValue::Char,
            ItpTypeValue::Bool => ItpTypeValue::Bool,
            ItpTypeValue::Array(elem) => ItpTypeValue::Array(Box::new(elem.duplicate())),
            ItpTypeValue::Function { parameters, return_type } => ItpTypeValue::Function {
                parameters: parameters.duplicate(),
                return_type: Box::new(return_type.duplicate()),
            },
            ItpTypeValue::Generic(name) => ItpTypeValue::Generic(name.clone()),
            ItpTypeValue::Void => ItpTypeValue::Void,
        }
    }
}

impl ItpFunctionParameters {
    /// Deep copy with a full specification.
    pub fn duplicate(&self) -> (r: ItpFunctionParameters)
        ensures
            r@ == self@,
        decreases *self, 1int,
    {
        let mut generics: Vec<String> = Vec::new();
        let mut i: usize = 0;
        while i < self.generics.len()
            invariant
                i <= self.generics.len(),
                generics@.len() == i,
                forall|j: int| 0 <= j < i ==> generics@[j]@ == self.generics@[j]@,
            decreases self.generics.len() - i,
        {
            generics.push(self.generics[i].clone());
            i = i + 1;
        }
        let mut parameters: Vec<(String, ItpTypeValue)> = Vec::new();
        let mut i: usize = 0;
        while i < self.parameters.len()
            invariant
                i <= self.parameters.len(),
                parameters@.len() == i,
                forall|j: int|
                    0 <= j < i ==> parameters@[j].0@ == self.parameters@[j].0@ && type_view(
                        parameters@[j].1,
                    ) == type_view(self.parameters@[j].1),
            decreases self.parameters.len() - i,
        {
            let pair = &self.parameters[i];
            proof {
                assert(decreases_to!(*self, 1int => pair.1, 0int));
            }
            parameters.push((pair.0.clone(), pair.1.duplicate()));
            i = i + 1;
        }
        proof {
            assert(generics@.map_values(|g: String| g@) =~= self.generics@.map_values(
                |g: String| g@,
            ));
            lemma_params_view_congruence(parameters@, self.parameters@);
        }
        ItpFunctionParameters { generics, parameters, variadic: self.variadic }
    }
}

/// Deep copy of a binding list.
pub fn duplicate_values(l: &Vec<ItpValue>) -> (r: Vec<ItpValue>)
    ensures
        value_list_view(r@) == value_list_view(l@),
    decreases *l, 0int,
{
    let mut out: Vec<ItpValue> = Vec::new();
    let mut i: usize = 0;
    while i < l.len()
        invariant
            i <= l.len(),
            out@.len() == i,
            forall|j: int| 0 <= j < i ==> value_view(out@[j]) == value_view(l@[j]),
        decreases l.len() - i,
    {
        let e = &l[i];
        proof {
            assert(decreases_to!(*l => *e));
        }
        out.push(e.duplicate());
        i = i + 1;
    }
    proof {
        lemma_value_list_view_len(out@);
        lemma_value_list_view_len(l@);
        assert forall|j: int| 0 <= j < l@.len() implies value_list_view(out@)[j] == value_list_view(
            l@,
        )[j] by {
            lemma_value_list_view_index(out@, j);
            lemma_value_list_view_index(l@, j);
        }
        assert(value_list_view(out@) =~= value_list_view(l@));
    }
    out
}

impl ItpConstantValue {
    /// Deep copy with a full specification.
    pub fn duplicate(&self) -> (r: ItpConstantValue)
        ensures
            r@ == self@,
        decreases *self, 1int,
    {
        match self {
            ItpConstantValue::Int(n) => ItpConstantValue::Int(*n),
            ItpConstantValue::Float(s) => ItpConstantValue::Float(s.clone()),
            ItpConstantValue::String(s) => ItpConstantValue::String(s.clone()),
            ItpConstantValue::Char(c) => ItpConstantValue::Char(*c),
            ItpConstantValue::Bool(b) => ItpConstantValue::Bool(*b),
            ItpConstantValue::Array(vs) => ItpConstantValue::Array(duplicate_values(vs)),
        }
    }
}

impl ItpValue {
    /// Deep copy with a full specification.
    pub fn duplicate(&self) -> (r: ItpValue)
        ensures
            r@ == self@,
        decreases *self, 1int,
    {
        match self {
            ItpValue::Param(i, t) => ItpValue::Param(*i, t.duplicate()),
            ItpValue::Constant(c) => ItpValue::Constant(c.duplicate()),
            ItpValue::Named(id, t) => ItpValue::Named(id.duplicate(), t.duplicate()),
            ItpValue::Function(f) => ItpValue::Function(
                ItpFunctionValue {
                    name: f.name.clone(),
                    parameters: f.parameters.duplicate(),
                    body: crate::interpreter::ast::duplicate_itp_nodes(&f.body),
                    return_type: f.return_type.duplicate(),
                },
            ),
            ItpValue::UnItpedFunction(f) => ItpValue::UnItpedFunction(
                UnItpedFunctionValue {
                    name: f.name.clone(),
                    parameters: f.parameters.duplicate(),
                    body: crate::parser::ast::duplicate_nodes(&f.body),
                    return_type: f.return_type.duplicate(),
                },
            ),
            ItpValue::NativeFunction(f) => ItpValue::NativeFunction(
                NativeFunctionValue {
                    name: f.name.clone(),
                    parameters: f.parameters.duplicate(),
                    return_type: f.return_type.duplicate(),
                    intrinsic: f.intrinsic,
                },
            ),
        }
    }
}

/// Structural equality of two types, decided at the level of the models.
pub fn type_eq(a: &ItpTypeValue, b: &ItpTypeValue) -> (r: bool)
    ensures
        r == (a@ == b@),
    decreases *a,
{
    match (a, b) {
        (ItpTypeValue::Int, ItpTypeValue::Int) => true,
        (ItpTypeValue::Float, ItpTypeValue::Float) => true,
        (ItpTypeValue::String, ItpTypeValue::String) => true,
        (ItpTypeValue::Char, ItpTypeValue::Char) => true,
        (ItpTypeValue::Bool, ItpTypeValue::Bool) => true,
        (ItpTypeValue::Array(x), ItpTypeValue::Array(y)) => type_eq(x, y),
        (
            ItpTypeValue::Function { parameters: pa, return_type: ra },
            ItpTypeValue::Function { parameters: pb, return_type: rb },
        ) => {
            let params_ok = fparams_eq(pa, pb);
            if params_ok {
                type_eq(ra, rb)
            } else {
                false
            }
        },
        (ItpTypeValue::Generic(x), ItpTypeValue::Generic(y)) => crate::tokens::string_eq(x, y),
        (ItpTypeValue::Void, ItpTypeValue::Void) => true,
        _ => false,
    }
}

/// Structural equality of two signatures, decided at the level of the
/// models.
pub fn fparams_eq(a: &ItpFunctionParameters, b: &ItpFunctionParameters) -> (r: bool)
    ensures
        r == (a@ == b@),
    decreases *a,
{
    if a.variadic != b.variadic {
        return false;
    }
    if a.generics.len() != b.generics.len() {
        proof {
            assert(a@.generics.len() != b@.generics.len());
        }
        return false;
    }
    let mut i: usize = 0;
    while i < a.generics.len()
        invariant
            i <= a.generics.len(),
            a.generics.len() == b.generics.len(),
            forall|j: int| 0 <= j < i ==> a.generics@[j]@ == b.generics@[j]@,
        decreases a.generics.len() - i,
    {
        if !crate::tokens::string_eq(&a.generics[i], &b.generics[i]) {
            proof {
                assert(a@.generics[i as int] != b@.generics[i as int]);
            }
            return false;
        }
        i = i + 1;
    }
    if a.parameters.len() != b.parameters.len() {
        proof {
            lemma_params_view_len(a.parameters@);
            lemma_params_view_len(b.parameters@);
        }
        return false;
    }
    let mut i: usize = 0;
    while i < a.parameters.len()
        invariant
            i <= a.parameters.len(),
            a.parameters.len() == b.parameters.len(),
            forall|j: int|
                0 <= j < i ==> a.parameters@[j].0@ == b.parameters@[j].0@ && type_view(
                    a.parameters@[j].1,
                ) == type_view(b.parameters@[j].1),
        decreases a.parameters.len() - i,
    {
        let pa = &a.parameters[i];
        let pb = &b.parameters[i];
        if !crate::tokens::string_eq(&pa.0, &pb.0) {
            proof {
                lemma_params_view_index(a.parameters@, i as int);
                lemma_params_view_index(b.parameters@, i as int);
            }
            return false;
        }
        proof {
            assert(decreases_to!(*a => pa.1));
        }
        if !type_eq(&pa.1, &pb.1) {
            proof {
                lemma_params_view_index(a.parameters@, i as int);
                lemma_params_view_index(b.parameters@, i as int);
            }
            return false;
        }
        i = i + 1;
    }
    proof {
        assert(a@.generics =~= b@.generics);
        lemma_params_view_congruence(a.parameters@, b.parameters@);
    }
    true
}

/// The type of a binding, if it has one: a constant array only has a type
/// when its elements share exactly one type.
pub open spec fn spec_value_type(v: SpecValue) -> Option<SpecType>
    decreases v, 0int, 0int,
{
    match v {
        SpecValue::Param(_, t) => Some(t),
        SpecValue::Constant(c) => spec_const_type(c),
        SpecValue::Named(_, t) => Some(t),
        SpecValue::Function(f) => Some(
            SpecType::Function { parameters: f.parameters, return_type: Box::new(f.return_type) },
        ),
        SpecValue::UnItpedFunction(f) => Some(
            SpecType::Function { parameters: f.parameters, return_type: Box::new(f.return_type) },
        ),
        SpecValue::NativeFunction(f) => Some(
            SpecType::Function { parameters: f.parameters, return_type: Box::new(f.return_type) },
        ),
    }
}

/// The type of a constant, if it has one.
pub open spec fn spec_const_type(c: SpecConstant) -> Option<SpecType>
    decreases c, 0int, 0int,
{
    match c {
        SpecConstant::Int(_) => Some(SpecType::Int),
        SpecConstant::Float(_) => Some(SpecType::Float),
        SpecConstant::String(_) => Some(SpecType::String),
        SpecConstant::Char(_) => Some(SpecType::Char),
        SpecConstant::Bool(_) => Some(SpecType::Bool),
        SpecConstant::Array(vs) => match spec_array_elem_type(vs) {
            Some(t) => Some(SpecType::Array(Box::new(t))),
            None => None,
        },
    }
}

/// The element type of a constant array: defined exactly when the array is
/// non-empty and every element has the type of the first.
pub open spec fn spec_array_elem_type(vs: Seq<SpecValue>) -> Option<SpecType>
    decreases vs, 1int, 0int,
{
    if vs.len() == 0 {
        None
    } else {
        match spec_value_type(vs[0]) {
            Some(t0) => if spec_rest_match(vs, 1, t0) {
                Some(t0)
            } else {
                None
            },
            None => None,
        }
    }
}

/// Whether every element of `vs` from index `i` on has type `t0`.
pub open spec fn spec_rest_match(vs: Seq<SpecValue>, i: int, t0: SpecType) -> bool
    decreases vs, 0int, vs.len() - i,
{
    if i < 0 || i >= vs.len() {
        true
    } else {
        spec_value_type(vs[i]) == Some(t0) && spec_rest_match(vs, i + 1, t0)
    }
}

impl ItpValue {
    /// The type this binding denotes, or `None` for a constant array whose
    /// elements do not share exactly one type.
    pub fn get_type(&self) -> (r: Option<ItpTypeValue>)
        ensures
            match r {
                Some(t) => spec_value_type(self@) == Some(t@),
                None => spec_value_type(self@) is None,
            },
        decreases *self, 0int,
    {
        match self {
            ItpValue::Param(_, t) => Some(t.duplicate()),
            ItpValue::Constant(c) => {
                proof {
                    assert(decreases_to!(*self, 0int => *c, 1int));
                }
                c.get_type()
            },
            ItpValue::Named(_, t) => Some(t.duplicate()),
            ItpValue::Function(f) => Some(
                ItpTypeValue::Function {
                    parameters: f.parameters.duplicate(),
                    return_type: Box::new(f.return_type.duplicate()),
                },
            ),
            ItpValue::UnItpedFunction(f) => Some(
                ItpTypeValue::Function {
                    parameters: f.parameters.duplicate(),
                    return_type: Box::new(f.return_type.duplicate()),
                },
            ),
            ItpValue::NativeFunction(f) => Some(
                ItpTypeValue::Function {
                    parameters: f.parameters.duplicate(),
                    return_type: Box::new(f.return_type.duplicate()),
                },
            ),
        }
    }
}

impl ItpConstantValue {
    /// The type of this constant, or `None` for an array whose elements do
    /// not share exactly one type.
    pub fn get_type(&self) -> (r: Option<ItpTypeValue>)
        ensures
            match r {
                Some(t) => spec_const_type(self@) == Some(t@),
                None => spec_const_type(self@) is None,
            },
        decreases *self, 1int,
    {
        match self {
            ItpConstantValue::Int(_) => Some(ItpTypeValue::Int),
            ItpConstantValue::Float(_) => Some(ItpTypeValue::Float),
            ItpConstantValue::String(_) => Some(ItpTypeValue::String),
            ItpConstantValue::Char(_) => Some(ItpTypeValue::Char),
            ItpConstantValue::Bool(_) => Some(ItpTypeValue::Bool),
            ItpConstantValue::Array(vs) => {
                let ghost vsv = value_list_view(vs@);
                proof {
                    lemma_value_list_view_len(vs@);
                }
                if vs.len() == 0 {
                    return None;
                }
                proof {
                    lemma_value_list_view_index(vs@, 0);
                    assert(decreases_to!(*self, 1int => vs@[0], 0int));
                }
                let t0 = match vs[0].get_type() {
                    Some(t) => t,
                    None => {
                        return None;
                    },
                };
                let mut i: usize = 1;
                while i < vs.len()
                    invariant
                        1 <= i <= vs.len(),
                        *self is Array,
                        self->Array_0 == *vs,
                        self@ == SpecConstant::Array(vsv),
                        vsv == value_list_view(vs@),
                        vsv.len() == vs@.len(),
                        spec_value_type(vsv[0]) == Some(t0@),
                        spec_rest_match(vsv, 1, t0@) <==> spec_rest_match(vsv, i as int, t0@),
                    decreases vs.len() - i,
                {
                    proof {
                        lemma_value_list_view_index(vs@, i as int);
                        assert(decreases_to!(*self, 1int => vs@[i as int], 0int));
                    }
                    let ti = match vs[i].get_type() {
                        Some(t) => t,
                        None => {
                            proof {
                                assert(!spec_rest_match(vsv, i as int, t0@));
                                assert(spec_array_elem_type(vsv) is None);
                            }
                            return None;
                        },
                    };
                    if !type_eq(&t0, &ti) {
                        proof {
                            assert(spec_value_type(vsv[i as int]) == Some(ti@));
                            assert(!spec_rest_match(vsv, i as int, t0@));
                            assert(spec_array_elem_type(vsv) is None);
                        }
                        return None;
                    }
                    i = i + 1;
                }
                proof {
                    assert(spec_rest_match(vsv, i as int, t0@));
                    assert(spec_array_elem_type(vsv) == Some(t0@));
                }
                Some(ItpTypeValue::Array(Box::new(t0)))
            },
        }
    }
}

/// The bindings a single call site accumulates for the generic names in a
/// signature, looked up by name; a later binding of the same name wins.
#[derive(Debug, PartialEq)]
pub struct GenericBindings {
    pub entries: Vec<(String, ItpTypeValue)>,
}

/// The model of generic bindings: a finite map from generic name to the
/// type it is bound to.
pub open spec fn gb_map(s: Seq<(String, ItpTypeValue)>) -> Map<Seq<char>, SpecType>
    decreases s,
{
    if s.len() == 0 {
        Map::empty()
    } else {
        gb_map(s.drop_last()).insert(s[s.len() - 1].0@, type_view(s[s.len() - 1].1))
    }
}

impl View for GenericBindings {
    type V = Map<Seq<char>, SpecType>;

    open spec fn view(&self) -> Map<Seq<char>, SpecType> {
        gb_map(self.entries@)
    }
}

impl GenericBindings {
    /// An empty set of bindings.
    pub fn new() -> (r: GenericBindings)
        ensures
            r@ == Map::<Seq<char>, SpecType>::empty(),
    {
        GenericBindings { entries: Vec::new() }
    }

    /// The type `name` is bound to, if any.
    pub fn get(&self, name: &String) -> (r: Option<&ItpTypeValue>)
        ensures
            match r {
                Some(t) => self@.contains_key(name@) && self@[name@] == t@,
                None => !self@.contains_key(name@),
            },
    {
        let mut i: usize = self.entries.len();
        proof {
            assert(self.entries@.take(i as int) =~= self.entries@);
        }
        while i > 0
            invariant
                i <= self.entries.len(),
                gb_map(self.entries@).contains_key(name@) <==> gb_map(
                    self.entries@.take(i as int),
                ).contains_key(name@),
                gb_map(self.entries@).contains_key(name@) ==> gb_map(
                    self.entries@.take(i as int),
                )[name@] == gb_map(self.entries@)[name@],
            decreases i,
        {
            i = i - 1;
            let e = &self.entries[i];
            proof {
                assert(self.entries@.take(i + 1).drop_last() =~= self.entries@.take(i as int));
                assert(self.entries@.take(i + 1)[i as int] == self.entries@[i as int]);
            }
            if crate::tokens::string_eq(&e.0, name) {
                return Some(&e.1);
            }
        }
        proof {
            assert(self.entries@.take(0) =~= Seq::<(String, ItpTypeValue)>::empty());
        }
        None
    }

    /// Bind `name` to `t`, shadowing any earlier binding of the name.
    pub fn insert(&mut self, name: String, t: ItpTypeValue)
        ensures
            final(self)@ == old(self)@.insert(name@, t@),
    {
        let ghost oldentries = self.entries@;
        let ghost namev = name@;
        let ghost tv = type_view(t);
        self.entries.push((name, t));
        proof {
            assert(self.entries@.drop_last() =~= oldentries);
            assert(self.entries@[self.entries@.len() - 1].0@ == namev);
            assert(type_view(self.entries@[self.entries@.len() - 1].1) == tv);
        }
    }
}

/// A generic type rewritten under a set of bindings: bound generic leaves
/// are substituted, array element types and function return types are
/// rewritten recursively, and everything else is left unchanged.
pub open spec fn spec_replace_generics(t: SpecType, m: Map<Seq<char>, SpecType>) -> SpecType
    decreases t,
{
    match t {
        SpecType::Generic(name) => if m.contains_key(name) {
            m[name]
        } else {
            t
        },
        SpecType::Array(elem) => SpecType::Array(Box::new(spec_replace_generics(*elem, m))),
        SpecType::Function { parameters, return_type } => SpecType::Function {
            parameters,
            return_type: Box::new(spec_replace_generics(*return_type, m)),
        },
        _ => t,
    }
}

impl ItpTypeValue {
    /// The generic type with the given name.
    pub fn generic(name: &str) -> (r: ItpTypeValue)
        ensures
            r@ == SpecType::Generic(name@),
    {
        ItpTypeValue::Generic(name.to_owned())
    }

    /// This type rewritten under the given generic bindings.
    pub fn replace_generics(&self, generics: &GenericBindings) -> (r: ItpTypeValue)
        ensures
            r@ == spec_replace_generics(self@, generics@),
        decreases *self,
    {
        match self {
            ItpTypeValue::Generic(name) => match generics.get(name) {
                Some(t) => t.duplicate(),
                None => ItpTypeValue::Generic(name.clone()),
            },
            ItpTypeValue::Array(elem) => ItpTypeValue::Array(
                Box::new(elem.replace_generics(generics)),
            ),
            ItpTypeValue::Function { parameters, return_type } => ItpTypeValue::Function {
                parameters: parameters.duplicate(),
                return_type: Box::new(return_type.replace_generics(generics)),
            },
            ItpTypeValue::Int => ItpTypeValue::Int,
            ItpTypeValue::Float => ItpTypeValue::Float,
            ItpTypeValue::String => ItpTypeValue::String,
            ItpTypeValue::Char => ItpTypeValue::Char,
            ItpTypeValue::Bool => ItpTypeValue::Bool,
            ItpTypeValue::Void => ItpTypeValue::Void,
        }
    }
}

/// The outcome of checking a call's lowered argument types against a
/// signature: acceptance with the generic bindings the call established,
/// an arity failure, or a positional type mismatch `(index, got,
/// expected)`.
#[derive(Debug, PartialEq)]
pub enum IFPCheck {
    Accepted(GenericBindings),
    NotEnoughParameters,
    TooManyParameters,
    WrongType(usize, ItpTypeValue, ItpTypeValue),
}

/// Mathematical model of an [`IFPCheck`].
pub enum SpecIFPCheck {
    Accepted(Map<Seq<char>, SpecType>),
    NotEnoughParameters,
    TooManyParameters,
    WrongType(int, SpecType, SpecType),
}

impl View for IFPCheck {
    type V = SpecIFPCheck;

    open spec fn view(&self) -> SpecIFPCheck {
        match self {
            IFPCheck::Accepted(g) => SpecIFPCheck::Accepted(g@),
            IFPCheck::NotEnoughParameters => SpecIFPCheck::NotEnoughParameters,
            IFPCheck::TooManyParameters => SpecIFPCheck::TooManyParameters,
            IFPCheck::WrongType(i, got, expected) => SpecIFPCheck::WrongType(
                *i as int,
                got@,
                expected@,
            ),
        }
    }
}

/// One positional check under the bindings accumulated so far: a concrete
/// declared type must equal the actual exactly; a generic binds on first
/// occurrence and must agree thereafter; arrays recurse structurally.
pub open spec fn spec_check_param(
    m: Map<Seq<char>, SpecType>,
    i: int,
    param: SpecType,
    value: SpecType,
) -> SpecIFPCheck
    decreases param,
{
    match param {
        SpecType::Generic(name) => if !m.contains_key(name) {
            SpecIFPCheck::Accepted(m.insert(name, value))
        } else if m[name] == value {
            SpecIFPCheck::Accepted(m)
        } else {
            SpecIFPCheck::WrongType(i, value, m[name])
        },
        SpecType::Array(pt) => match value {
            SpecType::Array(vt) => spec_check_param(m, i, *pt, *vt),
            _ => SpecIFPCheck::WrongType(i, value, param),
        },
        _ => if param == value {
            SpecIFPCheck::Accepted(m)
        } else {
            SpecIFPCheck::WrongType(i, value, param)
        },
    }
}

/// One positional check of `value` against `param`, threading the generic
/// bindings of the call.
pub fn check_param(
    generics: &mut GenericBindings,
    i: usize,
    param: &ItpTypeValue,
    value: &ItpTypeValue,
) -> (r: Result<(), IFPCheck>)
    ensures
        match r {
            Ok(()) => spec_check_param(old(generics)@, i as int, param@, value@)
                == SpecIFPCheck::Accepted(final(generics)@),
            Err(e) => spec_check_param(old(generics)@, i as int, param@, value@) == e@
                && final(generics)@ == old(generics)@ && e@ is WrongType,
        },
    decreases *param,
{
    match param {
        ItpTypeValue::Generic(name) => {
            let bound: Option<ItpTypeValue> = match generics.get(name) {
                Some(t) => Some(t.duplicate()),
                None => None,
            };
            match bound {
                None => {
                    generics.insert(name.clone(), value.duplicate());
                    Ok(())
                },
                Some(g) => {
                    if type_eq(&g, value) {
                        Ok(())
                    } else {
                        Err(IFPCheck::WrongType(i, value.duplicate(), g))
                    }
                },
            }
        },
        ItpTypeValue::Array(pt) => match value {
            ItpTypeValue::Array(vt) => check_param(generics, i, pt, vt),
            _ => Err(IFPCheck::WrongType(i, value.duplicate(), param.duplicate())),
        },
        _ => {
            if type_eq(param, value) {
                Ok(())
            } else {
                Err(IFPCheck::WrongType(i, value.duplicate(), param.duplicate()))
            }
        },
    }
}

/// The models of a list of types.
pub open spec fn types_view(ts: Seq<ItpTypeValue>) -> Seq<SpecType> {
    ts.map_values(|t: ItpTypeValue| type_view(t))
}

/// Positional checks from index `i` on, threading the bindings `m`.
pub open spec fn spec_check_params_from(
    ps: Seq<(Seq<char>, SpecType)>,
    actuals: Seq<SpecType>,
    i: int,
    m: Map<Seq<char>, SpecType>,
) -> SpecIFPCheck
    decreases ps.len() - i,
{
    if ps.len() <= i {
        SpecIFPCheck::Accepted(m)
    } else {
        match spec_check_param(m, i, ps[i].1, actuals[i]) {
            SpecIFPCheck::Accepted(m2) => spec_check_params_from(ps, actuals, i + 1, m2),
            err => err,
        }
    }
}

/// A whole call checked against a signature: arity first, then each
/// positional pair under one per-call substitution, starting empty.
pub open spec fn spec_check_params(
    sig: SpecFunctionParameters,
    actuals: Seq<SpecType>,
) -> SpecIFPCheck {
    if actuals.len() < sig.parameters.len() {
        SpecIFPCheck::NotEnoughParameters
    } else if !sig.variadic && actuals.len() > sig.parameters.len() {
        SpecIFPCheck::TooManyParameters
    } else {
        spec_check_params_from(sig.parameters, actuals, 0, Map::empty())
    }
}

impl ItpFunctionParameters {
    /// Check a call's lowered argument types against this signature.
    pub fn check_params(&self, params: &Vec<ItpTypeValue>) -> (r: IFPCheck)
        ensures
            r@ == spec_check_params(self@, types_view(params@)),
    {
        proof {
            lemma_params_view_len(self.parameters@);
        }
        if params.len() < self.parameters.len() {
            return IFPCheck::NotEnoughParameters;
        }
        if !self.variadic && params.len() > self.parameters.len() {
            return IFPCheck::TooManyParameters;
        }
        let mut generics = GenericBindings::new();
        let mut i: usize = 0;
        while i < self.parameters.len()
            invariant
                i <= self.parameters.len(),
                params@.len() >= self.parameters@.len(),
                self@.parameters == params_view(self.parameters@),
                self@.parameters.len() == self.parameters@.len(),
                types_view(params@).len() == params@.len(),
                spec_check_params(self@, types_view(params@)) == spec_check_params_from(
                    self@.parameters,
                    types_view(params@),
                    i as int,
                    generics@,
                ),
            decreases self.parameters.len() - i,
        {
            let p = &self.parameters[i];
            let v = &params[i];
            let ghost gpre = generics@;
            proof {
                lemma_params_view_index(self.parameters@, i as int);
                assert(types_view(params@)[i as int] == type_view(params@[i as int]));
            }
            match check_param(&mut generics, i, &p.1, v) {
                Ok(()) => {
                    proof {
                        assert(spec_check_params_from(
                            self@.parameters,
                            types_view(params@),
                            i as int,
                            gpre,
                        ) == spec_check_params_from(
                            self@.parameters,
                            types_view(params@),
                            i + 1,
                            generics@,
                        ));
                    }
                },
                Err(e) => {
                    proof {
                        assert(spec_check_params_from(
                            self@.parameters,
                            types_view(params@),
                            i as int,
                            gpre,
                        ) == e@);
                    }
                    return e;
                },
            }
            i = i + 1;
        }
        IFPCheck::Accepted(generics)
    }
}

/// Law: a signature of two parameters that are one and the same generic
/// name accepts any call whose two actual types are equal, binding the
/// name to that type on its first occurrence; and it rejects a call whose
/// actual types differ, with a mismatch at the second position reported
/// against the type the name was bound to at the first.
pub proof fn lemma_generic_unification(
    sig: SpecFunctionParameters,
    g: Seq<char>,
    n1: Seq<char>,
    n2: Seq<char>,
    a: SpecType,
    b: SpecType,
)
    requires
        sig == (SpecFunctionParameters {
            generics: seq![g],
            parameters: seq![(n1, SpecType::Generic(g)), (n2, SpecType::Generic(g))],
            variadic: false,
        }),
    ensures
        a == b ==> spec_check_params(sig, seq![a, b]) == SpecIFPCheck::Accepted(
            Map::<Seq<char>, SpecType>::empty().insert(g, a),
        ),
        a != b ==> spec_check_params(sig, seq![a, b]) == SpecIFPCheck::WrongType(1, b, a),
{
    let actuals = seq![a, b];
    let m0 = Map::<Seq<char>, SpecType>::empty();
    let m1 = m0.insert(g, a);
    assert(sig.parameters[0] == (n1, SpecType::Generic(g)));
    assert(sig.parameters[1] == (n2, SpecType::Generic(g)));
    assert(!m0.contains_key(g));
    assert(spec_check_param(m0, 0, SpecType::Generic(g), a) == SpecIFPCheck::Accepted(m1));
    assert(m1.contains_key(g) && m1[g] == a);
    if a == b {
        assert(spec_check_param(m1, 1, SpecType::Generic(g), b) == SpecIFPCheck::Accepted(m1));
        assert(spec_check_params_from(sig.parameters, actuals, 2, m1) == SpecIFPCheck::Accepted(
            m1,
        ));
        assert(spec_check_params_from(sig.parameters, actuals, 1, m1) == SpecIFPCheck::Accepted(
            m1,
        ));
        assert(spec_check_params_from(sig.parameters, actuals, 0, m0) == SpecIFPCheck::Accepted(
            m1,
        ));
    } else {
        assert(spec_check_param(m1, 1, SpecType::Generic(g), b) == SpecIFPCheck::WrongType(
            1,
            b,
            a,
        ));
        assert(spec_check_params_from(sig.parameters, actuals, 1, m1) == SpecIFPCheck::WrongType(
            1,
            b,
            a,
        ));
        assert(spec_check_params_from(sig.parameters, actuals, 0, m0) == SpecIFPCheck::WrongType(
            1,
            b,
            a,
        ));
    }
}

/// The signature part of a function-like binding.
pub trait ToBaseFunctionValue {
    /// The model of the signature this binding carries.
    spec fn spec_base(&self) -> SpecBaseFunction;

    /// The signature this binding carries.
    fn to_base(&self) -> (r: BaseFunctionValue)
        ensures
            r@ == self.spec_base(),
    ;
}

impl ToBaseFunctionValue for ItpFunctionValue {
    open spec fn spec_base(&self) -> SpecBaseFunction {
        SpecBaseFunction {
            name: self.name@,
            parameters: fparams_view(self.parameters),
            return_type: type_view(self.return_type),
        }
    }

    fn to_base(&self) -> (r: BaseFunctionValue) {
        BaseFunctionValue {
            name: self.name.clone(),
            parameters: self.parameters.duplicate(),
            return_type: self.return_type.duplicate(),
        }
    }
}

impl ToBaseFunctionValue for UnItpedFunctionValue {
    open spec fn spec_base(&self) -> SpecBaseFunction {
        SpecBaseFunction {
            name: self.name@,
            parameters: fparams_view(self.parameters),
            return_type: type_view(self.return_type),
        }
    }

    fn to_base(&self) -> (r: BaseFunctionValue) {
        BaseFunctionValue {
            name: self.name.clone(),
            parameters: self.parameters.duplicate(),
            return_type: self.return_type.duplicate(),
        }
    }
}

impl ToBaseFunctionValue for NativeFunctionValue {
    open spec fn spec_base(&self) -> SpecBaseFunction {
        SpecBaseFunction {
            name: self.name@,
            parameters: fparams_view(self.parameters),
            return_type: type_view(self.return_type),
        }
    }

    fn to_base(&self) -> (r: BaseFunctionValue) {
        BaseFunctionValue {
            name: self.name.clone(),
            parameters: self.parameters.duplicate(),
            return_type: self.return_type.duplicate(),
        }
    }
}

pub broadcast proof fn lemma_value_list_view_len(vs: Seq<ItpValue>)
    ensures
        (#[trigger] value_list_view(vs)).len() == vs.len(),
    decreases vs,
{
    if vs.len() > 0 {
        lemma_value_list_view_len(vs.drop_last());
    }
}

pub broadcast proof fn lemma_value_list_view_index(vs: Seq<ItpValue>, i: int)
    requires
        0 <= i < vs.len(),
    ensures
        #[trigger] value_list_view(vs)[i] == value_view(vs[i]),
    decreases vs,
{
    lemma_value_list_view_len(vs);
    if vs.len() > 0 && i < vs.len() - 1 {
        lemma_value_list_view_index(vs.drop_last(), i);
    }
}

pub broadcast proof fn lemma_params_view_len(ps: Seq<(String, ItpTypeValue)>)
    ensures
        (#[trigger] params_view(ps)).len() == ps.len(),
    decreases ps,
{
    if ps.len() > 0 {
        lemma_params_view_len(ps.drop_last());
    }
}

pub broadcast proof fn lemma_params_view_index(ps: Seq<(String, ItpTypeValue)>, i: int)
    requires
        0 <= i < ps.len(),
    ensures
        #[trigger] params_view(ps)[i] == (ps[i].0@, type_view(ps[i].1)),
    decreases ps,
{
    lemma_params_view_len(ps);
    if ps.len() > 0 && i < ps.len() - 1 {
        lemma_params_view_index(ps.drop_last(), i);
    }
}

} // verus!
