use vstd::prelude::*;

verus! {

/// How an identifier is flagged by its sigil: `name` is a plain variable,
/// `@name` names a special form (macro), `$name` names a type.
#[derive(Debug, Clone, Copy, PartialEq, Eq, Hash, Structural)]
pub enum IdentifierKind {
    Variable,
    Macro,
    Type,
}

/// A name together with the sigil kind it was written with.
#[derive(Debug, Clone, PartialEq, Eq, Hash)]
pub struct Identifier {
    pub name: String,
    pub kind: IdentifierKind,
}

/// Mathematical model of an [`Identifier`]: the name as a character
/// sequence, plus the sigil kind.
pub struct IdentifierV {
    pub name: Seq<char>,
    pub kind: IdentifierKind,
}

impl View for Identifier {
    type V = IdentifierV;

    open spec fn view(&self) -> IdentifierV {
        IdentifierV { name: self.name@, kind: self.kind }
    }
}

impl Identifier {
    /// Deep copy with a full specification (a derived `Clone` says nothing
    /// to the verifier).
    pub fn duplicate(&self) -> (r: Identifier)
        ensures
            r@ == self@,
    {
        Identifier { name: self.name.clone(), kind: self.kind }
    }
}

/// One lexed token with the source position where it started.
#[derive(Debug, Clone, PartialEq)]
pub struct Token {
    pub kind: TokenKind,
    pub line: usize,
    pub column: usize,
}

/// The kinds of token the lexer produces.
///
/// A numeric literal is carried as its source text (digits with at most one
/// `.`): the front end only ever needs its type, never its numeric value,
/// so nothing here depends on machine floating point.
#[derive(Debug, Clone, PartialEq)]
pub enum TokenKind {
    Int(i64),
    Float(String),
    Bool(bool),
    Char(char),
    String(String),
    Identifier(Identifier),
    Delimiter(char),
    EOF,
}

/// Mathematical model of a [`TokenKind`].
pub enum TokenKindV {
    Int(i64),
    Float(Seq<char>),
    Bool(bool),
    Char(char),
    String(Seq<char>),
    Identifier(IdentifierV),
    Delimiter(char),
    EOF,
}

impl View for TokenKind {
    type V = TokenKindV;

    open spec fn view(&self) -> TokenKindV {
        match self {
            TokenKind::Int(n) => TokenKindV::Int(*n),
            TokenKind::Float(s) => TokenKindV::Float(s@),
            TokenKind::Bool(b) => TokenKindV::Bool(*b),
            TokenKind::Char(c) => TokenKindV::Char(*c),
            TokenKind::String(s) => TokenKindV::String(s@),
            TokenKind::Identifier(id) => TokenKindV::Identifier(id@),
            TokenKind::Delimiter(c) => TokenKindV::Delimiter(*c),
            TokenKind::EOF => TokenKindV::EOF,
        }
    }
}

/// Mathematical model of a [`Token`].
pub struct TokenV {
    pub kind: TokenKindV,
    pub line: int,
    pub column: int,
}

impl View for Token {
    type V = TokenV;

    open spec fn view(&self) -> TokenV {
        TokenV { kind: self.kind@, line: self.line as int, column: self.column as int }
    }
}

/// Append one character to a string.
///
/// Relies on `String::push`: it appends the given character to the end of
/// the string.
#[verifier::external_body]
pub fn push_char(s: &mut String, c: char)
    ensures
        final(s)@ == old(s)@.push(c),
{
    s.push(c)
}

/// String equality, exposed at the level of the character-sequence views.
pub fn string_eq(a: &String, b: &String) -> (r: bool)
    ensures
        r == (a@ == b@),
{
    a.eq(b)
}

/// The delimiter characters `(){}[],:;`.
pub open spec fn spec_is_delimiter(c: char) -> bool {
    c == '(' || c == ')' || c == '{' || c == '}' || c == '[' || c == ']' || c == ',' || c == ':'
        || c == ';'
}

/// Whether `c` is one of the delimiter characters `(){}[],:;`.
pub fn is_delimiter(c: char) -> (r: bool)
    ensures
        r == spec_is_delimiter(c),
{
    c == '(' || c == ')' || c == '{' || c == '}' || c == '[' || c == ']' || c == ',' || c == ':'
        || c == ';'
}

/// Whether a token of this kind may begin an expression that is not a
/// bracketed form: every literal, and any identifier.
pub open spec fn spec_is_literal(k: TokenKindV) -> bool {
    match k {
        TokenKindV::Int(_) => true,
        TokenKindV::Float(_) => true,
        TokenKindV::Bool(_) => true,
        TokenKindV::Char(_) => true,
        TokenKindV::String(_) => true,
        TokenKindV::Identifier(_) => true,
        TokenKindV::Delimiter(_) => false,
        TokenKindV::EOF => false,
    }
}

impl TokenKind {
    /// Whether this token is a literal or an identifier.
    pub fn is_literal(&self) -> (r: bool)
        ensures
            r == spec_is_literal(self@),
    {
        match self {
            TokenKind::Int(_)
            | TokenKind::Float(_)
            | TokenKind::Bool(_)
            | TokenKind::Char(_)
            | TokenKind::String(_)
            | TokenKind::Identifier(_) => true,
            _ => false,
        }
    }
}

} // verus!
