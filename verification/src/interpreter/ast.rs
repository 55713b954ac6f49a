use crate::interpreter::error::{ItpError, ItpErrorKind};
use crate::interpreter::value::{
    const_view, spec_const_type, type_view, ItpConstantValue, ItpTypeValue, SpecConstant,
    SpecType,
};
use crate::tokens::{Identifier, IdentifierV};
use vstd::prelude::*;

verus! {

/// One node of the typed intermediate representation, with the source
/// position of the untyped node it was lowered from.
#[derive(Debug, PartialEq)]
pub struct ItpAst {
    pub kind: ItpAstKind,
    pub line: usize,
    pub column: usize,
}

/// The kinds of typed node the resolver produces.
#[derive(Debug, PartialEq)]
pub enum ItpAstKind {
    /// A fully known literal.
    Constant(ItpConstantValue),
    /// A reference to a named, non-constant, non-parameter binding.
    Variable { name: Identifier, result: ItpTypeValue },
    /// Assignment of a local name to a lowered value; the node itself has
    /// type void.
    SetVariable { name: Identifier, value: Box<ItpAst> },
    /// A reference to the `position`th formal parameter of the enclosing
    /// function.
    Param { position: u32, name: Identifier, result: ItpTypeValue },
    /// A ternary branch; its type is the common type of the two arms, or
    /// void if they disagree.
    Conditional { condition: Box<ItpAst>, then: Box<ItpAst>, else_: Box<ItpAst> },
    /// A pre-test loop; the node has type void.
    Loop { condition: Box<ItpAst>, body: Box<ItpAst> },
    /// An invocation of a named function, its arguments already lowered.
    Call { function: Identifier, arguments: Vec<ItpAst>, result: ItpTypeValue },
}

/// Mathematical model of an [`ItpAst`].
pub struct SpecItpAst {
    pub kind: SpecItpAstKind,
    pub line: int,
    pub column: int,
}

/// Mathematical model of an [`ItpAstKind`].
pub enum SpecItpAstKind {
    Constant(SpecConstant),
    Variable { name: IdentifierV, result: SpecType },
    SetVariable { name: IdentifierV, value: Box<SpecItpAst> },
    Param { position: int, name: IdentifierV, result: SpecType },
    Conditional { condition: Box<SpecItpAst>, then: Box<SpecItpAst>, else_: Box<SpecItpAst> },
    Loop { condition: Box<SpecItpAst>, body: Box<SpecItpAst> },
    Call { function: IdentifierV, arguments: Seq<SpecItpAst>, result: SpecType },
}

/// The model of one typed node.
pub open spec fn itp_view(a: ItpAst) -> SpecItpAst
    decreases a,
{
    SpecItpAst {
        kind: match a.kind {
            ItpAstKind::Constant(c) => SpecItpAstKind::Constant(const_view(c)),
            ItpAstKind::Variable { name, result } => SpecItpAstKind::Variable {
                name: name@,
                result: type_view(result),
            },
            ItpAstKind::SetVariable { name, value } => SpecItpAstKind::SetVariable {
                name: name@,
                value: Box::new(itp_view(*value)),
            },
            ItpAstKind::Param { position, name, result } => SpecItpAstKind::Param {
                position: position as int,
                name: name@,
                result: type_view(result),
            },
            ItpAstKind::Conditional { condition, then, else_ } => SpecItpAstKind::Conditional {
                condition: Box::new(itp_view(*condition)),
                then: Box::new(itp_view(*then)),
                else_: Box::new(itp_view(*else_)),
            },
            ItpAstKind::Loop { condition, body } => SpecItpAstKind::Loop {
                condition: Box::new(itp_view(*condition)),
                body: Box::new(itp_view(*body)),
            },
            ItpAstKind::Call { function, arguments, result } => SpecItpAstKind::Call {
                function: function@,
                arguments: itp_list_view(arguments@),
                result: type_view(result),
            },
        },
        line: a.line as int,
        column: a.column as int,
    }
}

/// The model of a list of typed nodes.
pub open spec fn itp_list_view(l: Seq<ItpAst>) -> Seq<SpecItpAst>
    decreases l,
{
    if l.len() == 0 {
        Seq::empty()
    } else {
        itp_list_view(l.drop_last()).push(itp_view(l[l.len() - 1]))
    }
}

impl View for ItpAst {
    type V = SpecItpAst;

    open spec fn view(&self) -> SpecItpAst {
        itp_view(*self)
    }
}

pub broadcast proof fn lemma_itp_list_view_len(l: Seq<ItpAst>)
    ensures
        (#[trigger] itp_list_view(l)).len() == l.len(),
    decreases l,
{
    if l.len() > 0 {
        lemma_itp_list_view_len(l.drop_last());
    }
}

pub broadcast proof fn lemma_itp_list_view_index(l: Seq<ItpAst>, i: int)
    requires
        0 <= i < l.len(),
    ensures
        #[trigger] itp_list_view(l)[i] == itp_view(l[i]),
    decreases l,
{
    lemma_itp_list_view_len(l);
    if l.len() > 0 && i < l.len() - 1 {
        lemma_itp_list_view_index(l.drop_last(), i);
    }
}

/// Pointwise view equality of node lists lifts to their models.
pub proof fn lemma_itp_list_view_congruence(a: Seq<ItpAst>, b: Seq<ItpAst>)
    requires
        a.len() == b.len(),
        forall|j: int| 0 <= j < a.len() ==> itp_view(a[j]) == itp_view(b[j]),
    ensures
        itp_list_view(a) == itp_list_view(b),
{
    lemma_itp_list_view_len(a);
    lemma_itp_list_view_len(b);
    assert forall|j: int| 0 <= j < a.len() implies itp_list_view(a)[j] == itp_list_view(b)[j] by {
        lemma_itp_list_view_index(a, j);
        lemma_itp_list_view_index(b, j);
    }
    assert(itp_list_view(a) =~= itp_list_view(b));
}

/// The model of a concatenation is the concatenation of the models.
pub proof fn lemma_itp_list_view_concat(a: Seq<ItpAst>, b: Seq<ItpAst>)
    ensures
        itp_list_view(a + b) == itp_list_view(a) + itp_list_view(b),
{
    lemma_itp_list_view_len(a);
    lemma_itp_list_view_len(b);
    lemma_itp_list_view_len(a + b);
    assert forall|j: int| 0 <= j < a.len() + b.len() implies itp_list_view(a + b)[j] == (
    itp_list_view(a) + itp_list_view(b))[j] by {
        lemma_itp_list_view_index(a + b, j);
        if j < a.len() {
            lemma_itp_list_view_index(a, j);
        } else {
            lemma_itp_list_view_index(b, j - a.len());
        }
    }
    assert(itp_list_view(a + b) =~= itp_list_view(a) + itp_list_view(b));
}

/// Deep copy of a typed node list.
pub fn duplicate_itp_nodes(l: &Vec<ItpAst>) -> (r: Vec<ItpAst>)
    ensures
        itp_list_view(r@) == itp_list_view(l@),
    decreases *l, 0int,
{
    let mut out: Vec<ItpAst> = Vec::new();
    let mut i: usize = 0;
    while i < l.len()
        invariant
            i <= l.len(),
            out@.len() == i,
            forall|j: int| 0 <= j < i ==> itp_view(out@[j]) == itp_view(l@[j]),
        decreases l.len() - i,
    {
        let e = &l[i];
        proof {
            assert(decreases_to!(*l => *e));
        }
        out.push(e.duplicate());
        i = i + 1;
    }
    proof {
        lemma_itp_list_view_congruence(out@, l@);
    }
    out
}

/// The type of a typed node, if it has one: a constant array only has a
/// type when its elements share exactly one type. A conditional has the
/// common type of its two arms, or void if they disagree.
pub open spec fn spec_node_type(n: SpecItpAst) -> Option<SpecType>
    decreases n,
{
    match n.kind {
        SpecItpAstKind::Constant(c) => spec_const_type(c),
        SpecItpAstKind::Variable { result, .. } => Some(result),
        SpecItpAstKind::SetVariable { .. } => Some(SpecType::Void),
        SpecItpAstKind::Param { result, .. } => Some(result),
        SpecItpAstKind::Conditional { condition, then, else_ } => match (
            spec_node_type(*then),
            spec_node_type(*else_),
        ) {
            (Some(a), Some(b)) => if a == b {
                Some(a)
            } else {
                Some(SpecType::Void)
            },
            _ => None,
        },
        SpecItpAstKind::Loop { .. } => Some(SpecType::Void),
        SpecItpAstKind::Call { result, .. } => Some(result),
    }
}

/// A one-node result list.
pub fn singleton(node: ItpAst) -> (r: Vec<ItpAst>)
    ensures
        itp_list_view(r@) == seq![node@],
{
    let ghost nv = itp_view(node);
    let mut v: Vec<ItpAst> = Vec::new();
    v.push(node);
    proof {
        assert(v@.drop_last() =~= Seq::<ItpAst>::empty());
        assert(itp_list_view(Seq::<ItpAst>::empty()) =~= Seq::<SpecItpAst>::empty());
        assert(itp_list_view(v@) == itp_list_view(v@.drop_last()).push(itp_view(v@[0])));
        assert(v@[0] == node);
        assert(itp_list_view(v@) =~= seq![nv]);
    }
    v
}

impl ItpAst {
    /// The type this node has, or `None` for a constant array whose
    /// elements do not share exactly one type.
    pub fn get_type(&self) -> (r: Option<ItpTypeValue>)
        ensures
            match r {
                Some(t) => spec_node_type(self@) == Some(t@),
                None => spec_node_type(self@) is None,
            },
        decreases *self,
    {
        match &self.kind {
            ItpAstKind::Constant(c) => c.get_type(),
            ItpAstKind::Variable { result, .. } => Some(result.duplicate()),
            ItpAstKind::SetVariable { .. } => Some(ItpTypeValue::Void),
            ItpAstKind::Param { result, .. } => Some(result.duplicate()),
            ItpAstKind::Conditional { then, else_, .. } => {
                let tt = then.get_type();
                let et = else_.get_type();
                match (tt, et) {
                    (Some(a), Some(b)) => {
                        if crate::interpreter::value::type_eq(&a, &b) {
                            Some(a)
                        } else {
                            Some(ItpTypeValue::Void)
                        }
                    },
                    _ => None,
                }
            },
            ItpAstKind::Loop { .. } => Some(ItpTypeValue::Void),
            ItpAstKind::Call { result, .. } => Some(result.duplicate()),
        }
    }

    /// Deep copy with a full specification (a derived `Clone` says nothing
    /// to the verifier).
    pub fn duplicate(&self) -> (r: ItpAst)
        ensures
            r@ == self@,
        decreases *self, 1int,
    {
        let kind = match &self.kind {
            ItpAstKind::Constant(c) => ItpAstKind::Constant(c.duplicate()),
            ItpAstKind::Variable { name, result } => ItpAstKind::Variable {
                name: name.duplicate(),
                result: result.duplicate(),
            },
            ItpAstKind::SetVariable { name, value } => ItpAstKind::SetVariable {
                name: name.duplicate(),
                value: Box::new(value.duplicate()),
            },
            ItpAstKind::Param { position, name, result } => ItpAstKind::Param {
                position: *position,
                name: name.duplicate(),
                result: result.duplicate(),
            },
            ItpAstKind::Conditional { condition, then, else_ } => ItpAstKind::Conditional {
                condition: Box::new(condition.duplicate()),
                then: Box::new(then.duplicate()),
                else_: Box::new(else_.duplicate()),
            },
            ItpAstKind::Loop { condition, body } => ItpAstKind::Loop {
                condition: Box::new(condition.duplicate()),
                body: Box::new(body.duplicate()),
            },
            ItpAstKind::Call { function, arguments, result } => ItpAstKind::Call {
                function: function.duplicate(),
                arguments: duplicate_itp_nodes(arguments),
                result: result.duplicate(),
            },
        };
        ItpAst { kind, line: self.line, column: self.column }
    }

    /// An error positioned at this node.
    pub fn error(&self, kind: ItpErrorKind) -> (r: ItpError)
        ensures
            r@.line == self@.line,
            r@.column == self@.column,
            r@.kind == kind@,
    {
        ItpError { line: self.line, column: self.column, kind }
    }

    /// An error positioned at this node, as a failed result.
    pub fn err<T>(&self, kind: ItpErrorKind) -> (r: Result<T, ItpError>)
        ensures
            r is Err,
            r->Err_0@.line == self@.line,
            r->Err_0@.column == self@.column,
            r->Err_0@.kind == kind@,
    {
        Err(self.error(kind))
    }
}

} // verus!
