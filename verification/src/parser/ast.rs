use crate::interpreter::error::{ItpError, ItpErrorKind, SpecItpError};
use crate::tokens::{Identifier, IdentifierV};
use vstd::prelude::*;

verus! {

/// One node of the untyped S-expression tree, with the source position of
/// the token that started it.
#[derive(Debug, PartialEq)]
pub struct ParsedAst {
    pub kind: ParsedAstKind,
    pub line: usize,
    pub column: usize,
}

/// The kinds of untyped node the parser produces: a literal, an array
/// literal, an identifier, or a call of a named head on argument nodes.
///
/// A numeric literal is carried as its source text, as in
/// [`crate::tokens::TokenKind`].
#[derive(Debug, PartialEq)]
pub enum ParsedAstKind {
    Int(i64),
    Float(String),
    Bool(bool),
    Char(char),
    String(String),
    Array(Vec<ParsedAst>),
    Identifier(Identifier),
    Call { name: Identifier, args: Vec<ParsedAst> },
}

/// Mathematical model of a [`ParsedAst`].
pub struct SpecParsedAst {
    pub kind: SpecParsedAstKind,
    pub line: int,
    pub column: int,
}

/// Mathematical model of a [`ParsedAstKind`].
pub enum SpecParsedAstKind {
    Int(i64),
    Float(Seq<char>),
    Bool(bool),
    Char(char),
    String(Seq<char>),
    Array(Seq<SpecParsedAst>),
    Identifier(IdentifierV),
    Call { name: IdentifierV, args: Seq<SpecParsedAst> },
}

/// The model of one untyped node.
pub open spec fn past_view(a: ParsedAst) -> SpecParsedAst
    decreases a,
{
    SpecParsedAst {
        kind: match a.kind {
            ParsedAstKind::Int(n) => SpecParsedAstKind::Int(n),
            ParsedAstKind::Float(s) => SpecParsedAstKind::Float(s@),
            ParsedAstKind::Bool(b) => SpecParsedAstKind::Bool(b),
            ParsedAstKind::Char(c) => SpecParsedAstKind::Char(c),
            ParsedAstKind::String(s) => SpecParsedAstKind::String(s@),
            ParsedAstKind::Array(elems) => SpecParsedAstKind::Array(past_list_view(elems@)),
            ParsedAstKind::Identifier(id) => SpecParsedAstKind::Identifier(id@),
            ParsedAstKind::Call { name, args } => SpecParsedAstKind::Call {
                name: name@,
                args: past_list_view(args@),
            },
        },
        line: a.line as int,
        column: a.column as int,
    }
}

/// The model of a list of untyped nodes.
pub open spec fn past_list_view(l: Seq<ParsedAst>) -> Seq<SpecParsedAst>
    decreases l,
{
    if l.len() == 0 {
        Seq::empty()
    } else {
        past_list_view(l.drop_last()).push(past_view(l[l.len() - 1]))
    }
}

impl View for ParsedAst {
    type V = SpecParsedAst;

    open spec fn view(&self) -> SpecParsedAst {
        past_view(*self)
    }
}

pub broadcast proof fn lemma_past_list_view_len(l: Seq<ParsedAst>)
    ensures
        (#[trigger] past_list_view(l)).len() == l.len(),
    decreases l,
{
    if l.len() > 0 {
        lemma_past_list_view_len(l.drop_last());
    }
}

pub broadcast proof fn lemma_past_list_view_index(l: Seq<ParsedAst>, i: int)
    requires
        0 <= i < l.len(),
    ensures
        #[trigger] past_list_view(l)[i] == past_view(l[i]),
    decreases l,
{
    lemma_past_list_view_len(l);
    if l.len() > 0 {
        if i < l.len() - 1 {
            lemma_past_list_view_index(l.drop_last(), i);
        }
    }
}

/// Pointwise view equality of node lists lifts to their models.
pub proof fn lemma_past_list_view_congruence(a: Seq<ParsedAst>, b: Seq<ParsedAst>)
    requires
        a.len() == b.len(),
        forall|j: int| 0 <= j < a.len() ==> past_view(a[j]) == past_view(b[j]),
    ensures
        past_list_view(a) == past_list_view(b),
{
    lemma_past_list_view_len(a);
    lemma_past_list_view_len(b);
    assert forall|j: int| 0 <= j < a.len() implies past_list_view(a)[j] == past_list_view(b)[j] by {
        lemma_past_list_view_index(a, j);
        lemma_past_list_view_index(b, j);
    }
    assert(past_list_view(a) =~= past_list_view(b));
}

impl ParsedAst {
    /// An error positioned at this node.
    pub fn error(&self, kind: ItpErrorKind) -> (r: ItpError)
        ensures
            r@ == (SpecItpError { line: self@.line, column: self@.column, kind: kind@ }),
    {
        ItpError { line: self.line, column: self.column, kind }
    }

    /// An error positioned at this node, as a failed result.
    pub fn err<T>(&self, kind: ItpErrorKind) -> (r: Result<T, ItpError>)
        ensures
            r is Err,
            r->Err_0@ == (SpecItpError { line: self@.line, column: self@.column, kind: kind@ }),
    {
        Err(self.error(kind))
    }

    /// The integer this node holds, or an error at this node.
    pub fn as_int(&self) -> (r: Result<i64, ItpError>)
        ensures
            match r {
                Ok(v) => self@.kind == SpecParsedAstKind::Int(v),
                Err(e) => !(self@.kind is Int) && e@ == (SpecItpError {
                    line: self@.line,
                    column: self@.column,
                    kind: crate::interpreter::error::SpecItpErrorKind::ExpectedInt,
                }),
            },
    {
        if let ParsedAstKind::Int(value) = &self.kind {
            Ok(*value)
        } else {
            self.err(ItpErrorKind::ExpectedInt)
        }
    }

    /// The float literal text this node holds, or an error at this node.
    pub fn as_float(&self) -> (r: Result<String, ItpError>)
        ensures
            match r {
                Ok(v) => self@.kind == SpecParsedAstKind::Float(v@),
                Err(e) => !(self@.kind is Float) && e@ == (SpecItpError {
                    line: self@.line,
                    column: self@.column,
                    kind: crate::interpreter::error::SpecItpErrorKind::ExpectedFloat,
                }),
            },
    {
        if let ParsedAstKind::Float(value) = &self.kind {
            Ok(value.clone())
        } else {
            self.err(ItpErrorKind::ExpectedFloat)
        }
    }

    /// The boolean this node holds, or an error at this node.
    pub fn as_bool(&self) -> (r: Result<bool, ItpError>)
        ensures
            match r {
                Ok(v) => self@.kind == SpecParsedAstKind::Bool(v),
                Err(e) => !(self@.kind is Bool) && e@ == (SpecItpError {
                    line: self@.line,
                    column: self@.column,
                    kind: crate::interpreter::error::SpecItpErrorKind::ExpectedBool,
                }),
            },
    {
        if let ParsedAstKind::Bool(value) = &self.kind {
            Ok(*value)
        } else {
            self.err(ItpErrorKind::ExpectedBool)
        }
    }

    /// The character this node holds, or an error at this node.
    pub fn as_char(&self) -> (r: Result<char, ItpError>)
        ensures
            match r {
                Ok(v) => self@.kind == SpecParsedAstKind::Char(v),
                Err(e) => !(self@.kind is Char) && e@ == (SpecItpError {
                    line: self@.line,
                    column: self@.column,
                    kind: crate::interpreter::error::SpecItpErrorKind::ExpectedChar,
                }),
            },
    {
        if let ParsedAstKind::Char(value) = &self.kind {
            Ok(*value)
        } else {
            self.err(ItpErrorKind::ExpectedChar)
        }
    }

    /// The string this node holds, or an error at this node.
    pub fn as_string(&self) -> (r: Result<String, ItpError>)
        ensures
            match r {
                Ok(v) => self@.kind == SpecParsedAstKind::String(v@),
                Err(e) => !(self@.kind is String) && e@ == (SpecItpError {
                    line: self@.line,
                    column: self@.column,
                    kind: crate::interpreter::error::SpecItpErrorKind::ExpectedString,
                }),
            },
    {
        if let ParsedAstKind::String(value) = &self.kind {
            Ok(value.clone())
        } else {
            self.err(ItpErrorKind::ExpectedString)
        }
    }

    /// The element nodes of the array literal this node holds, or an error
    /// at this node.
    pub fn as_array(&self) -> (r: Result<Vec<ParsedAst>, ItpError>)
        ensures
            match r {
                Ok(v) => self@.kind matches SpecParsedAstKind::Array(elems) && past_list_view(v@)
                    == elems,
                Err(e) => !(self@.kind is Array) && e@ == (SpecItpError {
                    line: self@.line,
                    column: self@.column,
                    kind: crate::interpreter::error::SpecItpErrorKind::ExpectedArray,
                }),
            },
    {
        if let ParsedAstKind::Array(value) = &self.kind {
            Ok(duplicate_nodes(value))
        } else {
            self.err(ItpErrorKind::ExpectedArray)
        }
    }

    /// The identifier this node holds, or an error at this node.
    pub fn as_identifier(&self) -> (r: Result<Identifier, ItpError>)
        ensures
            match r {
                Ok(v) => self@.kind == SpecParsedAstKind::Identifier(v@),
                Err(e) => !(self@.kind is Identifier) && e@ == (SpecItpError {
                    line: self@.line,
                    column: self@.column,
                    kind: crate::interpreter::error::SpecItpErrorKind::ExpectedIdentifier,
                }),
            },
    {
        if let ParsedAstKind::Identifier(identifier) = &self.kind {
            Ok(identifier.duplicate())
        } else {
            self.err(ItpErrorKind::ExpectedIdentifier)
        }
    }

    /// The head identifier and argument nodes of the call this node holds,
    /// or an error at this node.
    pub fn as_call(&self) -> (r: Result<(Identifier, Vec<ParsedAst>), ItpError>)
        ensures
            match r {
                Ok(v) => self@.kind matches SpecParsedAstKind::Call { name, args } && name == v.0@
                    && past_list_view(v.1@) == args,
                Err(e) => !(self@.kind is Call) && e@ == (SpecItpError {
                    line: self@.line,
                    column: self@.column,
                    kind: crate::interpreter::error::SpecItpErrorKind::ExpectedCall,
                }),
            },
    {
        if let ParsedAstKind::Call { name, args } = &self.kind {
            Ok((name.duplicate(), duplicate_nodes(args)))
        } else {
            self.err(ItpErrorKind::ExpectedCall)
        }
    }

    /// Deep copy with a full specification (a derived `Clone` says nothing
    /// to the verifier).
    pub fn duplicate(&self) -> (r: ParsedAst)
        ensures
            r@ == self@,
        decreases *self, 1int,
    {
        let kind = match &self.kind {
            ParsedAstKind::Int(n) => ParsedAstKind::Int(*n),
            ParsedAstKind::Float(s) => ParsedAstKind::Float(s.clone()),
            ParsedAstKind::Bool(b) => ParsedAstKind::Bool(*b),
            ParsedAstKind::Char(c) => ParsedAstKind::Char(*c),
            ParsedAstKind::String(s) => ParsedAstKind::String(s.clone()),
            ParsedAstKind::Array(elems) => ParsedAstKind::Array(duplicate_nodes(elems)),
            ParsedAstKind::Identifier(id) => ParsedAstKind::Identifier(id.duplicate()),
            ParsedAstKind::Call { name, args } => ParsedAstKind::Call {
                name: name.duplicate(),
                args: duplicate_nodes(args),
            },
        };
        ParsedAst { kind, line: self.line, column: self.column }
    }
}

/// Deep copy of a node list.
pub fn duplicate_nodes(l: &Vec<ParsedAst>) -> (r: Vec<ParsedAst>)
    ensures
        past_list_view(r@) == past_list_view(l@),
    decreases *l, 0int,
{
    let mut out: Vec<ParsedAst> = Vec::new();
    let mut i: usize = 0;
    while i < l.len()
        invariant
            i <= l.len(),
            out@.len() == i,
            forall|j: int| 0 <= j < i ==> past_view(out@[j]) == past_view(l@[j]),
        decreases l.len() - i,
    {
        let e = &l[i];
        proof {
            assert(decreases_to!(*l => *e));
        }
        out.push(e.duplicate());
        i = i + 1;
    }
    proof {
        lemma_past_list_view_congruence(out@, l@);
    }
    out
}

} // verus!
