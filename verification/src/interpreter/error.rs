use crate::interpreter::value::{ItpTypeValue, SpecType};
use vstd::prelude::*;

verus! {

/// A resolution failure, carrying the source position of the node on which
/// lowering stopped.
#[derive(Debug, PartialEq)]
pub struct ItpError {
    pub line: usize,
    pub column: usize,
    pub kind: ItpErrorKind,
}

/// Every way resolution can fail.
#[derive(Debug, PartialEq)]
pub enum ItpErrorKind {
    /// A variable or function name was not found in the scope chain.
    UnresolvedSymbol { name: String },
    /// A call head with a macro sigil names no registered special form.
    MacroNotFound { name: String },
    /// A call head resolved to a binding that is not function-like.
    NotAFunction { name: String },
    /// A call passed fewer arguments than the signature declares.
    NotEnoughParameters,
    /// A call passed more arguments than a non-variadic signature declares.
    TooManyParameters,
    /// Positional type mismatch: the argument at `index` has type `got`
    /// where the signature demands `expected` (for a generic parameter,
    /// the type the generic is currently bound to).
    WrongType { index: usize, got: ItpTypeValue, expected: ItpTypeValue },
    /// A built-in special form was given the wrong number of arguments.
    MacroArityError { expected: usize, got: usize },
    /// A special-form argument had to lower to exactly one typed node but
    /// lowered to `got` nodes.
    SingletonExpected { got: usize },
    /// First-define of a name already defined in the same scope.
    AlreadyDefined { name: String },
    /// Replace of a name absent from the whole scope chain.
    NotDefined { name: String },
    /// Replace would change the type of an existing binding.
    ReplaceTypeMismatch { name: String },
    /// A constant array whose elements do not share exactly one type.
    HeterogeneousArray,
    /// An untyped node was required to be an identifier.
    ExpectedIdentifier,
    /// An untyped node was required to be an array literal.
    ExpectedArray,
    /// An untyped node was required to be an integer literal.
    ExpectedInt,
    /// An untyped node was required to be a float literal.
    ExpectedFloat,
    /// An untyped node was required to be a boolean literal.
    ExpectedBool,
    /// An untyped node was required to be a char literal.
    ExpectedChar,
    /// An untyped node was required to be a string literal.
    ExpectedString,
    /// An untyped node was required to be a call.
    ExpectedCall,
    /// An identifier with a macro sigil stood where a value is required.
    MacroMisplaced { name: String },
    /// An identifier with a type sigil stood where a value is required.
    TypeMisplaced { name: String },
}

/// A failed scope mutation.
#[derive(Debug, PartialEq)]
pub enum ScopeError {
    /// First-define of a name already defined in the same scope.
    AlreadyDefined { name: String },
    /// Replace of a name absent from the whole scope chain.
    NotDefined { name: String },
    /// Replace would change the type of the existing binding.
    TypeMismatch { name: String },
}

/// Mathematical model of a [`ScopeError`].
pub enum SpecScopeError {
    AlreadyDefined(Seq<char>),
    NotDefined(Seq<char>),
    TypeMismatch(Seq<char>),
}

impl View for ScopeError {
    type V = SpecScopeError;

    open spec fn view(&self) -> SpecScopeError {
        match self {
            ScopeError::AlreadyDefined { name } => SpecScopeError::AlreadyDefined(name@),
            ScopeError::NotDefined { name } => SpecScopeError::NotDefined(name@),
            ScopeError::TypeMismatch { name } => SpecScopeError::TypeMismatch(name@),
        }
    }
}

/// Mathematical model of an [`ItpError`].
pub struct SpecItpError {
    pub line: int,
    pub column: int,
    pub kind: SpecItpErrorKind,
}

/// Mathematical model of an [`ItpErrorKind`].
pub enum SpecItpErrorKind {
    UnresolvedSymbol { name: Seq<char> },
    MacroNotFound { name: Seq<char> },
    NotAFunction { name: Seq<char> },
    NotEnoughParameters,
    TooManyParameters,
    WrongType { index: int, got: SpecType, expected: SpecType },
    MacroArityError { expected: int, got: int },
    SingletonExpected { got: int },
    AlreadyDefined { name: Seq<char> },
    NotDefined { name: Seq<char> },
    ReplaceTypeMismatch { name: Seq<char> },
    HeterogeneousArray,
    ExpectedIdentifier,
    ExpectedArray,
    ExpectedInt,
    ExpectedFloat,
    ExpectedBool,
    ExpectedChar,
    ExpectedString,
    ExpectedCall,
    MacroMisplaced { name: Seq<char> },
    TypeMisplaced { name: Seq<char> },
}

impl View for ItpErrorKind {
    type V = SpecItpErrorKind;

    open spec fn view(&self) -> SpecItpErrorKind {
        match self {
            ItpErrorKind::UnresolvedSymbol { name } => SpecItpErrorKind::UnresolvedSymbol {
                name: name@,
            },
            ItpErrorKind::MacroNotFound { name } => SpecItpErrorKind::MacroNotFound { name: name@ },
            ItpErrorKind::NotAFunction { name } => SpecItpErrorKind::NotAFunction { name: name@ },
            ItpErrorKind::NotEnoughParameters => SpecItpErrorKind::NotEnoughParameters,
            ItpErrorKind::TooManyParameters => SpecItpErrorKind::TooManyParameters,
            ItpErrorKind::WrongType { index, got, expected } => SpecItpErrorKind::WrongType {
                index: *index as int,
                got: got@,
                expected: expected@,
            },
            ItpErrorKind::MacroArityError { expected, got } => SpecItpErrorKind::MacroArityError {
                expected: *expected as int,
                got: *got as int,
            },
            ItpErrorKind::SingletonExpected { got } => SpecItpErrorKind::SingletonExpected {
                got: *got as int,
            },
            ItpErrorKind::AlreadyDefined { name } => SpecItpErrorKind::AlreadyDefined {
                name: name@,
            },
            ItpErrorKind::NotDefined { name } => SpecItpErrorKind::NotDefined { name: name@ },
            ItpErrorKind::ReplaceTypeMismatch { name } => SpecItpErrorKind::ReplaceTypeMismatch {
                name: name@,
            },
            ItpErrorKind::HeterogeneousArray => SpecItpErrorKind::HeterogeneousArray,
            ItpErrorKind::ExpectedIdentifier => SpecItpErrorKind::ExpectedIdentifier,
            ItpErrorKind::ExpectedArray => SpecItpErrorKind::ExpectedArray,
            ItpErrorKind::ExpectedInt => SpecItpErrorKind::ExpectedInt,
            ItpErrorKind::ExpectedFloat => SpecItpErrorKind::ExpectedFloat,
            ItpErrorKind::ExpectedBool => SpecItpErrorKind::ExpectedBool,
            ItpErrorKind::ExpectedChar => SpecItpErrorKind::ExpectedChar,
            ItpErrorKind::ExpectedString => SpecItpErrorKind::ExpectedString,
            ItpErrorKind::ExpectedCall => SpecItpErrorKind::ExpectedCall,
            ItpErrorKind::MacroMisplaced { name } => SpecItpErrorKind::MacroMisplaced {
                name: name@,
            },
            ItpErrorKind::TypeMisplaced { name } => SpecItpErrorKind::TypeMisplaced { name: name@ },
        }
    }
}

impl View for ItpError {
    type V = SpecItpError;

    open spec fn view(&self) -> SpecItpError {
        SpecItpError { line: self.line as int, column: self.column as int, kind: self.kind@ }
    }
}

/// An error at a given source position.
pub open spec fn err_at(line: int, column: int, kind: SpecItpErrorKind) -> SpecItpError {
    SpecItpError { line, column, kind }
}

/// The resolution error kind a failed scope mutation surfaces as.
pub open spec fn spec_scope_err_kind(e: SpecScopeError) -> SpecItpErrorKind {
    match e {
        SpecScopeError::AlreadyDefined(n) => SpecItpErrorKind::AlreadyDefined { name: n },
        SpecScopeError::NotDefined(n) => SpecItpErrorKind::NotDefined { name: n },
        SpecScopeError::TypeMismatch(n) => SpecItpErrorKind::ReplaceTypeMismatch { name: n },
    }
}

/// Surface a failed scope mutation as a resolution error kind.
pub fn scope_err_kind(e: ScopeError) -> (r: ItpErrorKind)
    ensures
        r@ == spec_scope_err_kind(e@),
{
    match e {
        ScopeError::AlreadyDefined { name } => ItpErrorKind::AlreadyDefined { name },
        ScopeError::NotDefined { name } => ItpErrorKind::NotDefined { name },
        ScopeError::TypeMismatch { name } => ItpErrorKind::ReplaceTypeMismatch { name },
    }
}

} // verus!
