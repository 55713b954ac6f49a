pub mod ast;
pub mod error;
pub mod macros;
pub mod native_fns;
pub mod scope;
pub mod value;

use crate::interpreter::ast::{
    itp_list_view, lemma_itp_list_view_concat, lemma_itp_list_view_index, lemma_itp_list_view_len,
    singleton, spec_node_type, ItpAst, ItpAstKind, SpecItpAst, SpecItpAstKind,
};
use crate::interpreter::error::{
    err_at, spec_scope_err_kind, ItpError, ItpErrorKind, SpecItpError, SpecItpErrorKind,
};
use crate::interpreter::macros::{
    fn_macro, if_macro, set_macro, spec_fn_macro, spec_fn_params, spec_if_macro, spec_macros,
    spec_set_macro, spec_while_macro, while_macro, Macro,
};
use crate::interpreter::scope::{
    lemma_find_index_props, scope_wf, spec_define, spec_find_index, spec_lookup, spec_replace,
    spec_set_or_replace, Scope, SpecScopeRecord,
};
use crate::interpreter::value::{
    fparams_view, spec_check_params, spec_replace_generics, type_view, types_view, value_view,
    IFPCheck, ItpConstantValue, ItpFunctionParameters, ItpFunctionValue, ItpTypeValue, ItpValue,
    SpecFunction, SpecIFPCheck, SpecType, SpecUnItpedFunction, SpecValue, UnItpedFunctionValue,
};
use crate::parser::ast::{
    lemma_past_list_view_index, lemma_past_list_view_len, past_list_view, ParsedAst,
    ParsedAstKind, SpecParsedAst, SpecParsedAstKind,
};
use crate::tokens::IdentifierKind;
use vstd::prelude::*;

verus! {

/// The semantic resolver: it owns the scope tree and lowers the untyped
/// tree into the typed intermediate representation, expanding special
/// forms and checking types as it goes.
#[derive(Debug)]
pub struct Interpreter {
    pub scope: Scope,
}

impl View for Interpreter {
    type V = Seq<SpecScopeRecord>;

    open spec fn view(&self) -> Seq<SpecScopeRecord> {
        self.scope@
    }
}

impl Interpreter {
    /// A usable resolver state: the scope tree is well formed and the
    /// global scope exists.
    pub open spec fn inv(&self) -> bool {
        scope_wf(self@) && self@.len() >= 1
    }
}

/// The types of a list of lowered nodes, from index `i` on; fails at the
/// first node whose type is undefined.
pub open spec fn spec_types_of(nodes: Seq<SpecItpAst>, i: int) -> Result<Seq<SpecType>, SpecItpError>
    decreases nodes.len() - i,
{
    if i < 0 || i >= nodes.len() {
        Ok(Seq::empty())
    } else {
        match spec_node_type(nodes[i]) {
            None => Err(
                err_at(nodes[i].line, nodes[i].column, SpecItpErrorKind::HeterogeneousArray),
            ),
            Some(t) => match spec_types_of(nodes, i + 1) {
                Ok(ts) => Ok(seq![t] + ts),
                Err(e) => Err(e),
            },
        }
    }
}

/// One untyped node lowered in scope `s` of state `rs`: the list of typed
/// nodes it becomes, together with the state after any scopes and
/// bindings the lowering installed — or the first error, which aborts the
/// whole pass.
pub open spec fn spec_interpret_ast(rs: Seq<SpecScopeRecord>, s: int, ast: SpecParsedAst) -> Result<
    (Seq<SpecItpAst>, Seq<SpecScopeRecord>),
    SpecItpError,
>
    decreases ast, 0int,
{
    match ast.kind {
        SpecParsedAstKind::Int(n) => Ok(
            (
                seq![
                    SpecItpAst {
                        kind: SpecItpAstKind::Constant(
                            crate::interpreter::value::SpecConstant::Int(n),
                        ),
                        line: ast.line,
                        column: ast.column,
                    },
                ],
                rs,
            ),
        ),
        SpecParsedAstKind::Float(v) => Ok(
            (
                seq![
                    SpecItpAst {
                        kind: SpecItpAstKind::Constant(
                            crate::interpreter::value::SpecConstant::Float(v),
                        ),
                        line: ast.line,
                        column: ast.column,
                    },
                ],
                rs,
            ),
        ),
        SpecParsedAstKind::Bool(b) => Ok(
            (
                seq![
                    SpecItpAst {
                        kind: SpecItpAstKind::Constant(
                            crate::interpreter::value::SpecConstant::Bool(b),
                        ),
                        line: ast.line,
                        column: ast.column,
                    },
                ],
                rs,
            ),
        ),
        SpecParsedAstKind::Char(c) => Ok(
            (
                seq![
                    SpecItpAst {
                        kind: SpecItpAstKind::Constant(
                            crate::interpreter::value::SpecConstant::Char(c),
                        ),
                        line: ast.line,
                        column: ast.column,
                    },
                ],
                rs,
            ),
        ),
        SpecParsedAstKind::String(v) => Ok(
            (
                seq![
                    SpecItpAst {
                        kind: SpecItpAstKind::Constant(
                            crate::interpreter::value::SpecConstant::String(v),
                        ),
                        line: ast.line,
                        column: ast.column,
                    },
                ],
                rs,
            ),
        ),
        SpecParsedAstKind::Array(elems) => spec_interpret_list(rs, s, elems),
        SpecParsedAstKind::Identifier(id) => match id.kind {
            IdentifierKind::Variable => match spec_lookup(rs, s, id.name) {
                None => Err(
                    err_at(
                        ast.line,
                        ast.column,
                        SpecItpErrorKind::UnresolvedSymbol { name: id.name },
                    ),
                ),
                Some(SpecValue::Constant(c)) => Ok(
                    (
                        seq![
                            SpecItpAst {
                                kind: SpecItpAstKind::Constant(c),
                                line: ast.line,
                                column: ast.column,
                            },
                        ],
                        rs,
                    ),
                ),
                Some(SpecValue::Param(i, t)) => Ok(
                    (
                        seq![
                            SpecItpAst {
                                kind: SpecItpAstKind::Param { position: i, name: id, result: t },
                                line: ast.line,
                                column: ast.column,
                            },
                        ],
                        rs,
                    ),
                ),
                Some(v) => match crate::interpreter::value::spec_value_type(v) {
                    Some(t) => Ok(
                        (
                            seq![
                                SpecItpAst {
                                    kind: SpecItpAstKind::Variable { name: id, result: t },
                                    line: ast.line,
                                    column: ast.column,
                                },
                            ],
                            rs,
                        ),
                    ),
                    None => Err(
                        err_at(ast.line, ast.column, SpecItpErrorKind::HeterogeneousArray),
                    ),
                },
            },
            IdentifierKind::Macro => Err(
                err_at(ast.line, ast.column, SpecItpErrorKind::MacroMisplaced { name: id.name }),
            ),
            IdentifierKind::Type => Err(
                err_at(ast.line, ast.column, SpecItpErrorKind::TypeMisplaced { name: id.name }),
            ),
        },
        SpecParsedAstKind::Call { name, args } => match name.kind {
            IdentifierKind::Macro => match spec_macros(name.name) {
                None => Err(
                    err_at(
                        ast.line,
                        ast.column,
                        SpecItpErrorKind::MacroNotFound { name: name.name },
                    ),
                ),
                Some(Macro::FnForm) => spec_fn_macro(rs, s, args, ast.line, ast.column),
                Some(Macro::SetForm) => spec_set_macro(rs, s, args, ast.line, ast.column),
                Some(Macro::IfForm) => spec_if_macro(rs, s, args, ast.line, ast.column),
                Some(Macro::WhileForm) => spec_while_macro(rs, s, args, ast.line, ast.column),
            },
            IdentifierKind::Variable => match spec_lookup(rs, s, name.name) {
                None => Err(
                    err_at(
                        ast.line,
                        ast.column,
                        SpecItpErrorKind::UnresolvedSymbol { name: name.name },
                    ),
                ),
                Some(v) => {
                    let sigopt = match v {
                        SpecValue::Function(f) => Some((f.parameters, f.return_type)),
                        SpecValue::UnItpedFunction(f) => Some((f.parameters, f.return_type)),
                        SpecValue::NativeFunction(f) => Some((f.parameters, f.return_type)),
                        _ => None,
                    };
                    match sigopt {
                        None => Err(
                            err_at(
                                ast.line,
                                ast.column,
                                SpecItpErrorKind::NotAFunction { name: name.name },
                            ),
                        ),
                        Some((params, ret)) => {
                            let child = rs.len() as int;
                            let rs1 = rs.push(
                                SpecScopeRecord { parent: Some(s), bindings: Seq::empty() },
                            );
                            match spec_interpret_list(rs1, child, args) {
                                Err(e) => Err(e),
                                Ok((nodes, rs2)) => match spec_types_of(nodes, 0) {
                                    Err(e) => Err(e),
                                    Ok(ts) => match spec_check_params(params, ts) {
                                        SpecIFPCheck::Accepted(m) => Ok(
                                            (
                                                seq![
                                                    SpecItpAst {
                                                        kind: SpecItpAstKind::Call {
                                                            function: name,
                                                            arguments: nodes,
                                                            result: spec_replace_generics(ret, m),
                                                        },
                                                        line: ast.line,
                                                        column: ast.column,
                                                    },
                                                ],
                                                rs2,
                                            ),
                                        ),
                                        SpecIFPCheck::NotEnoughParameters => Err(
                                            err_at(
                                                ast.line,
                                                ast.column,
                                                SpecItpErrorKind::NotEnoughParameters,
                                            ),
                                        ),
                                        SpecIFPCheck::TooManyParameters => Err(
                                            err_at(
                                                ast.line,
                                                ast.column,
                                                SpecItpErrorKind::TooManyParameters,
                                            ),
                                        ),
                                        SpecIFPCheck::WrongType(i, got, expected) => Err(
                                            err_at(
                                                ast.line,
                                                ast.column,
                                                SpecItpErrorKind::WrongType { index: i, got, expected },
                                            ),
                                        ),
                                    },
                                },
                            }
                        },
                    }
                },
            },
            IdentifierKind::Type => Err(
                err_at(ast.line, ast.column, SpecItpErrorKind::TypeMisplaced { name: name.name }),
            ),
        },
    }
}

/// A list of untyped nodes lowered left to right in one scope, the typed
/// nodes concatenated and the state threaded through.
pub open spec fn spec_interpret_list(
    rs: Seq<SpecScopeRecord>,
    s: int,
    l: Seq<SpecParsedAst>,
) -> Result<(Seq<SpecItpAst>, Seq<SpecScopeRecord>), SpecItpError>
    decreases l, 1int,
{
    if l.len() == 0 {
        Ok((Seq::empty(), rs))
    } else {
        match spec_interpret_ast(rs, s, l[0]) {
            Err(e) => Err(e),
            Ok((ns, rs1)) => match spec_interpret_list(rs1, s, l.drop_first()) {
                Err(e) => Err(e),
                Ok((ns2, rs2)) => Ok((ns + ns2, rs2)),
            },
        }
    }
}

/// The model of a not-yet-lowered function.
pub open spec fn ufn_view(f: UnItpedFunctionValue) -> SpecUnItpedFunction {
    SpecUnItpedFunction {
        name: f.name@,
        parameters: fparams_view(f.parameters),
        body: past_list_view(f.body@),
        return_type: type_view(f.return_type),
    }
}

/// The model of the second pass's snapshot of declarations.
pub open spec fn upairs_view(l: Seq<(String, UnItpedFunctionValue)>) -> Seq<
    (Seq<char>, SpecUnItpedFunction),
>
    decreases l,
{
    if l.len() == 0 {
        Seq::empty()
    } else {
        upairs_view(l.drop_last()).push((l[l.len() - 1].0@, ufn_view(l[l.len() - 1].1)))
    }
}

/// The model of the second pass's list of lowered functions to install.
pub open spec fn vpairs_view(l: Seq<(String, ItpValue)>) -> Seq<(Seq<char>, SpecValue)>
    decreases l,
{
    if l.len() == 0 {
        Seq::empty()
    } else {
        vpairs_view(l.drop_last()).push((l[l.len() - 1].0@, value_view(l[l.len() - 1].1)))
    }
}

proof fn lemma_upairs_view_len(l: Seq<(String, UnItpedFunctionValue)>)
    ensures
        upairs_view(l).len() == l.len(),
    decreases l,
{
    if l.len() > 0 {
        lemma_upairs_view_len(l.drop_last());
    }
}

proof fn lemma_upairs_view_index(l: Seq<(String, UnItpedFunctionValue)>, i: int)
    requires
        0 <= i < l.len(),
    ensures
        upairs_view(l)[i] == (l[i].0@, ufn_view(l[i].1)),
    decreases l,
{
    lemma_upairs_view_len(l);
    if l.len() > 0 && i < l.len() - 1 {
        lemma_upairs_view_index(l.drop_last(), i);
    }
}

proof fn lemma_vpairs_view_len(l: Seq<(String, ItpValue)>)
    ensures
        vpairs_view(l).len() == l.len(),
    decreases l,
{
    if l.len() > 0 {
        lemma_vpairs_view_len(l.drop_last());
    }
}

proof fn lemma_vpairs_view_index(l: Seq<(String, ItpValue)>, i: int)
    requires
        0 <= i < l.len(),
    ensures
        vpairs_view(l)[i] == (l[i].0@, value_view(l[i].1)),
    decreases l,
{
    lemma_vpairs_view_len(l);
    if l.len() > 0 && i < l.len() - 1 {
        lemma_vpairs_view_index(l.drop_last(), i);
    }
}

/// The not-yet-lowered functions among the global bindings, in order,
/// from index `i` on.
pub open spec fn spec_collect_unresolved(globals: Seq<(Seq<char>, SpecValue)>, i: int) -> Seq<
    (Seq<char>, SpecUnItpedFunction),
>
    decreases globals.len() - i,
{
    if i < 0 || i >= globals.len() {
        Seq::empty()
    } else {
        let rest = spec_collect_unresolved(globals, i + 1);
        match globals[i].1 {
            SpecValue::UnItpedFunction(f) => seq![(globals[i].0, f)] + rest,
            _ => rest,
        }
    }
}

/// The formal parameters of a declaration bound in its fresh scope `s`,
/// from index `i` on: each name is first-defined as a parameter slot.
/// A failure here was caused by no single source node and is reported at
/// line 0, column 0.
pub open spec fn spec_bind_params(
    rs: Seq<SpecScopeRecord>,
    s: int,
    ps: Seq<(Seq<char>, SpecType)>,
    i: int,
) -> Result<Seq<SpecScopeRecord>, SpecItpError>
    decreases ps.len() - i,
{
    if i < 0 || i >= ps.len() {
        Ok(rs)
    } else {
        match spec_define(rs, s, ps[i].0, SpecValue::Param((i as u32) as int, ps[i].1)) {
            Ok(rs2) => spec_bind_params(rs2, s, ps, i + 1),
            Err(e) => Err(err_at(0, 0, spec_scope_err_kind(e))),
        }
    }
}

/// One declaration lowered by the second pass: a fresh child of the global
/// scope is created, the parameters are bound in it, the stored body is
/// lowered in it, and the resulting fully lowered function is produced.
pub open spec fn spec_lower_fn(rs: Seq<SpecScopeRecord>, f: SpecUnItpedFunction) -> Result<
    (SpecValue, Seq<SpecScopeRecord>),
    SpecItpError,
> {
    let child = rs.len() as int;
    let rs1 = rs.push(SpecScopeRecord { parent: Some(0), bindings: Seq::empty() });
    match spec_bind_params(rs1, child, f.parameters.parameters, 0) {
        Err(e) => Err(e),
        Ok(rs2) => match spec_interpret_list(rs2, child, f.body) {
            Err(e) => Err(e),
            Ok((nodes, rs3)) => Ok(
                (
                    SpecValue::Function(
                        SpecFunction {
                            name: f.name,
                            parameters: f.parameters,
                            body: nodes,
                            return_type: f.return_type,
                        },
                    ),
                    rs3,
                ),
            ),
        },
    }
}

/// Every snapshot declaration lowered in order, from index `i` on,
/// producing the bindings to install and threading the state.
pub open spec fn spec_lower_all(
    rs: Seq<SpecScopeRecord>,
    fns: Seq<(Seq<char>, SpecUnItpedFunction)>,
    i: int,
) -> Result<(Seq<(Seq<char>, SpecValue)>, Seq<SpecScopeRecord>), SpecItpError>
    decreases fns.len() - i,
{
    if i < 0 || i >= fns.len() {
        Ok((Seq::empty(), rs))
    } else {
        match spec_lower_fn(rs, fns[i].1) {
            Err(e) => Err(e),
            Ok((v, rs2)) => match spec_lower_all(rs2, fns, i + 1) {
                Err(e) => Err(e),
                Ok((list, rs3)) => Ok((seq![(fns[i].0, v)] + list, rs3)),
            },
        }
    }
}

/// Every lowered function installed over its placeholder in the global
/// scope, in order, from index `i` on, by a type-checked replace.
pub open spec fn spec_install_all(
    rs: Seq<SpecScopeRecord>,
    list: Seq<(Seq<char>, SpecValue)>,
    i: int,
) -> Result<Seq<SpecScopeRecord>, SpecItpError>
    decreases list.len() - i,
{
    if i < 0 || i >= list.len() {
        Ok(rs)
    } else {
        match spec_replace(rs, 0, list[i].0, list[i].1) {
            Ok(rs2) => spec_install_all(rs2, list, i + 1),
            Err(e) => Err(err_at(0, 0, spec_scope_err_kind(e))),
        }
    }
}

/// The second pass over the placeholders that the first pass registered:
/// lower every one recorded at its start, then install the results.
pub open spec fn spec_pass2(rs: Seq<SpecScopeRecord>) -> Result<
    Seq<SpecScopeRecord>,
    SpecItpError,
> {
    match spec_lower_all(rs, spec_collect_unresolved(rs[0].bindings, 0), 0) {
        Err(e) => Err(e),
        Ok((list, rs1)) => spec_install_all(rs1, list, 0),
    }
}

/// The whole resolution run: every top-level form lowered left to right in
/// the global scope (the nodes themselves are discarded; only functions
/// and bindings persist), then the second pass.
pub open spec fn spec_interpret(
    rs: Seq<SpecScopeRecord>,
    prog: Seq<SpecParsedAst>,
    i: int,
) -> Result<Seq<SpecScopeRecord>, SpecItpError>
    decreases prog.len() - i,
{
    if i < 0 || i >= prog.len() {
        spec_pass2(rs)
    } else {
        match spec_interpret_ast(rs, 0, prog[i]) {
            Ok(p) => spec_interpret(p.1, prog, i + 1),
            Err(e) => Err(e),
        }
    }
}

/// No name is bound twice in one binding list; first-define enforces
/// this in every scope.
pub open spec fn distinct_keys(b: Seq<(Seq<char>, SpecValue)>) -> bool {
    forall|i: int, j: int| 0 <= i < j < b.len() ==> b[i].0 != b[j].0
}

/// How lowering below the global scope may change the global scope: its
/// bindings keep their names and positions, and a binding that is still a
/// placeholder afterwards is untouched — lowering can update a global
/// binding (an assignment to a global name) but can never plant a new
/// placeholder there.
pub open spec fn globals_preserved(
    pre: Seq<SpecScopeRecord>,
    post: Seq<SpecScopeRecord>,
) -> bool {
    &&& pre.len() >= 1
    &&& post.len() >= pre.len()
    &&& post[0].bindings.len() == pre[0].bindings.len()
    &&& forall|k: int|
        0 <= k < pre[0].bindings.len() ==> (#[trigger] post[0].bindings[k]).0
            == pre[0].bindings[k].0
    &&& forall|k: int|
        0 <= k < pre[0].bindings.len() && (#[trigger] post[0].bindings[k]).1
            is UnItpedFunction ==> post[0].bindings[k] == pre[0].bindings[k]
}

proof fn lemma_globals_preserved_refl(rs: Seq<SpecScopeRecord>)
    requires
        rs.len() >= 1,
    ensures
        globals_preserved(rs, rs),
{
}

proof fn lemma_globals_preserved_trans(
    a: Seq<SpecScopeRecord>,
    b: Seq<SpecScopeRecord>,
    c: Seq<SpecScopeRecord>,
)
    requires
        globals_preserved(a, b),
        globals_preserved(b, c),
    ensures
        globals_preserved(a, c),
{
}

/// A define below the global scope leaves the global record alone.
proof fn lemma_define_preserves_globals(
    rs: Seq<SpecScopeRecord>,
    s: int,
    name: Seq<char>,
    v: SpecValue,
)
    requires
        rs.len() >= 1,
        s >= 1,
        spec_define(rs, s, name, v) is Ok,
    ensures
        globals_preserved(rs, spec_define(rs, s, name, v)->Ok_0),
{
    let rs2 = spec_define(rs, s, name, v)->Ok_0;
    assert(rs2[0] == rs[0]);
}

/// A type-checked replace never writes a placeholder: whichever scope it
/// lands in, the global record keeps its names, and a global binding that
/// is a placeholder afterwards was untouched.
proof fn lemma_replace_preserves_globals(
    rs: Seq<SpecScopeRecord>,
    s: int,
    name: Seq<char>,
    v: SpecValue,
)
    requires
        rs.len() >= 1,
        !(v is UnItpedFunction),
        spec_replace(rs, s, name, v) is Ok,
    ensures
        globals_preserved(rs, spec_replace(rs, s, name, v)->Ok_0),
    decreases s,
{
    let rs2 = spec_replace(rs, s, name, v)->Ok_0;
    if 0 <= s < rs.len() {
        match spec_find_index(rs[s].bindings, name) {
            Some(j) => {
                lemma_find_index_props(rs[s].bindings, name);
                if s == 0 {
                    assert forall|k: int|
                        0 <= k < rs[0].bindings.len() && (#[trigger] rs2[0].bindings[k]).1
                            is UnItpedFunction implies rs2[0].bindings[k] == rs[0].bindings[k] by {
                        if k == j {
                            assert(rs2[0].bindings[k].1 == v);
                        }
                    }
                } else {
                    assert(rs2[0] == rs[0]);
                }
            },
            None => {
                match rs[s].parent {
                    Some(p) => {
                        if 0 <= p < s {
                            lemma_replace_preserves_globals(rs, p, name, v);
                        }
                    },
                    None => {},
                }
            },
        }
    }
}

/// A set-or-replace below the global scope with a non-placeholder value
/// preserves the global record in the same way.
proof fn lemma_set_or_replace_preserves_globals(
    rs: Seq<SpecScopeRecord>,
    s: int,
    name: Seq<char>,
    v: SpecValue,
)
    requires
        rs.len() >= 1,
        s >= 1,
        !(v is UnItpedFunction),
        spec_set_or_replace(rs, s, name, v) is Ok,
    ensures
        globals_preserved(rs, spec_set_or_replace(rs, s, name, v)->Ok_0),
{
    match spec_replace(rs, s, name, v) {
        Ok(_) => {
            lemma_replace_preserves_globals(rs, s, name, v);
        },
        Err(e) => {
            if e is NotDefined {
                lemma_define_preserves_globals(rs, s, name, v);
            }
        },
    }
}

/// Lowering one node below the global scope preserves the global record.
proof fn lemma_interpret_ast_globals(rs: Seq<SpecScopeRecord>, s: int, ast: SpecParsedAst)
    requires
        rs.len() >= 1,
        s >= 1,
        spec_interpret_ast(rs, s, ast) is Ok,
    ensures
        globals_preserved(rs, spec_interpret_ast(rs, s, ast)->Ok_0.1),
    decreases ast, 0int,
{
    match ast.kind {
        SpecParsedAstKind::Array(elems) => {
            lemma_interpret_list_globals(rs, s, elems);
        },
        SpecParsedAstKind::Call { name, args } => match name.kind {
            IdentifierKind::Macro => match spec_macros(name.name) {
                Some(Macro::FnForm) => {
                    lemma_fn_macro_globals(rs, s, args, ast.line, ast.column);
                },
                Some(Macro::SetForm) => {
                    lemma_set_macro_globals(rs, s, args, ast.line, ast.column);
                },
                Some(Macro::IfForm) => {
                    lemma_if_macro_globals(rs, s, args, ast.line, ast.column);
                },
                Some(Macro::WhileForm) => {
                    lemma_while_macro_globals(rs, s, args, ast.line, ast.column);
                },
                None => {},
            },
            IdentifierKind::Variable => {
                match spec_lookup(rs, s, name.name) {
                    Some(v) => {
                        let sigopt = match v {
                            SpecValue::Function(f) => Some((f.parameters, f.return_type)),
                            SpecValue::UnItpedFunction(f) => Some((f.parameters, f.return_type)),
                            SpecValue::NativeFunction(f) => Some((f.parameters, f.return_type)),
                            _ => None,
                        };
                        match sigopt {
                            Some(_) => {
                                let child = rs.len() as int;
                                let rs1 = rs.push(
                                    SpecScopeRecord { parent: Some(s), bindings: Seq::empty() },
                                );
                                assert(rs1[0] == rs[0]);
                                match spec_interpret_list(rs1, child, args) {
                                    Ok(p) => {
                                        lemma_interpret_list_globals(rs1, child, args);
                                        lemma_globals_preserved_trans(rs, rs1, p.1);
                                    },
                                    Err(_) => {},
                                }
                            },
                            None => {},
                        }
                    },
                    None => {},
                }
            },
            IdentifierKind::Type => {},
        },
        _ => {},
    }
}

/// Lowering a list of nodes below the global scope preserves the global
/// record.
proof fn lemma_interpret_list_globals(rs: Seq<SpecScopeRecord>, s: int, l: Seq<SpecParsedAst>)
    requires
        rs.len() >= 1,
        s >= 1,
        spec_interpret_list(rs, s, l) is Ok,
    ensures
        globals_preserved(rs, spec_interpret_list(rs, s, l)->Ok_0.1),
    decreases l, 1int,
{
    if l.len() == 0 {
        lemma_globals_preserved_refl(rs);
    } else {
        match spec_interpret_ast(rs, s, l[0]) {
            Ok(p1) => {
                lemma_interpret_ast_globals(rs, s, l[0]);
                match spec_interpret_list(p1.1, s, l.drop_first()) {
                    Ok(p2) => {
                        lemma_interpret_list_globals(p1.1, s, l.drop_first());
                        lemma_globals_preserved_trans(rs, p1.1, p2.1);
                    },
                    Err(_) => {},
                }
            },
            Err(_) => {},
        }
    }
}

/// A declaration expanded below the global scope preserves the global
/// record.
proof fn lemma_fn_macro_globals(
    rs: Seq<SpecScopeRecord>,
    s: int,
    args: Seq<SpecParsedAst>,
    line: int,
    column: int,
)
    requires
        rs.len() >= 1,
        s >= 1,
        spec_fn_macro(rs, s, args, line, column) is Ok,
    ensures
        globals_preserved(rs, spec_fn_macro(rs, s, args, line, column)->Ok_0.1),
    decreases args, 0int,
{
    if args.len() >= 2 {
        match args[0].kind {
            SpecParsedAstKind::Identifier(id) => match args[1].kind {
                SpecParsedAstKind::Array(params) => match spec_fn_params(params, 0) {
                    Ok(_) => {
                        let f = spec_fn_macro_value(args, id);
                        match spec_define(rs, s, id.name, f) {
                            Ok(_) => {
                                lemma_define_preserves_globals(rs, s, id.name, f);
                            },
                            Err(_) => {},
                        }
                    },
                    Err(_) => {},
                },
                _ => {},
            },
            _ => {},
        }
    }
}

/// The placeholder value a declaration installs; kept separate so the
/// preservation argument can name it.
spec fn spec_fn_macro_value(args: Seq<SpecParsedAst>, id: crate::tokens::IdentifierV) -> SpecValue {
    SpecValue::UnItpedFunction(
        SpecUnItpedFunction {
            name: id.name,
            parameters: crate::interpreter::value::SpecFunctionParameters {
                generics: Seq::empty(),
                parameters: spec_fn_params(args[1].kind->Array_0, 0)->Ok_0,
                variadic: false,
            },
            body: args.skip(2),
            return_type: SpecType::Float,
        },
    )
}

/// An assignment expanded below the global scope preserves the global
/// record: it can update a global binding, but only with an alias, never
/// with a placeholder.
proof fn lemma_set_macro_globals(
    rs: Seq<SpecScopeRecord>,
    s: int,
    args: Seq<SpecParsedAst>,
    line: int,
    column: int,
)
    requires
        rs.len() >= 1,
        s >= 1,
        spec_set_macro(rs, s, args, line, column) is Ok,
    ensures
        globals_preserved(rs, spec_set_macro(rs, s, args, line, column)->Ok_0.1),
    decreases args, 0int,
{
    if args.len() == 2 {
        match args[0].kind {
            SpecParsedAstKind::Identifier(id) => match spec_interpret_ast(rs, s, args[1]) {
                Ok(p1) => {
                    lemma_interpret_ast_globals(rs, s, args[1]);
                    if p1.0.len() == 1 {
                        match spec_node_type(p1.0[0]) {
                            Some(t) => {
                                match spec_set_or_replace(
                                    p1.1,
                                    s,
                                    id.name,
                                    SpecValue::Named(id, t),
                                ) {
                                    Ok(rs2) => {
                                        lemma_set_or_replace_preserves_globals(
                                            p1.1,
                                            s,
                                            id.name,
                                            SpecValue::Named(id, t),
                                        );
                                        lemma_globals_preserved_trans(rs, p1.1, rs2);
                                    },
                                    Err(_) => {},
                                }
                            },
                            None => {},
                        }
                    }
                },
                Err(_) => {},
            },
            _ => {},
        }
    }
}

/// A conditional expanded below the global scope preserves the global
/// record.
proof fn lemma_if_macro_globals(
    rs: Seq<SpecScopeRecord>,
    s: int,
    args: Seq<SpecParsedAst>,
    line: int,
    column: int,
)
    requires
        rs.len() >= 1,
        s >= 1,
        spec_if_macro(rs, s, args, line, column) is Ok,
    ensures
        globals_preserved(rs, spec_if_macro(rs, s, args, line, column)->Ok_0.1),
    decreases args, 0int,
{
    if args.len() == 3 {
        match spec_interpret_ast(rs, s, args[0]) {
            Ok(p1) => {
                lemma_interpret_ast_globals(rs, s, args[0]);
                match spec_interpret_ast(p1.1, s, args[1]) {
                    Ok(p2) => {
                        lemma_interpret_ast_globals(p1.1, s, args[1]);
                        match spec_interpret_ast(p2.1, s, args[2]) {
                            Ok(p3) => {
                                lemma_interpret_ast_globals(p2.1, s, args[2]);
                                lemma_globals_preserved_trans(rs, p1.1, p2.1);
                                lemma_globals_preserved_trans(rs, p2.1, p3.1);
                            },
                            Err(_) => {},
                        }
                    },
                    Err(_) => {},
                }
            },
            Err(_) => {},
        }
    }
}

/// A loop expanded below the global scope preserves the global record.
proof fn lemma_while_macro_globals(
    rs: Seq<SpecScopeRecord>,
    s: int,
    args: Seq<SpecParsedAst>,
    line: int,
    column: int,
)
    requires
        rs.len() >= 1,
        s >= 1,
        spec_while_macro(rs, s, args, line, column) is Ok,
    ensures
        globals_preserved(rs, spec_while_macro(rs, s, args, line, column)->Ok_0.1),
    decreases args, 0int,
{
    if args.len() == 2 {
        match spec_interpret_ast(rs, s, args[0]) {
            Ok(p1) => {
                lemma_interpret_ast_globals(rs, s, args[0]);
                match spec_interpret_ast(p1.1, s, args[1]) {
                    Ok(p2) => {
                        lemma_interpret_ast_globals(p1.1, s, args[1]);
                        lemma_globals_preserved_trans(rs, p1.1, p2.1);
                    },
                    Err(_) => {},
                }
            },
            Err(_) => {},
        }
    }
}

/// Binding a declaration's parameters in its fresh scope preserves the
/// global record.
proof fn lemma_bind_params_globals(
    rs: Seq<SpecScopeRecord>,
    s: int,
    ps: Seq<(Seq<char>, SpecType)>,
    i: int,
)
    requires
        rs.len() >= 1,
        s >= 1,
        spec_bind_params(rs, s, ps, i) is Ok,
    ensures
        globals_preserved(rs, spec_bind_params(rs, s, ps, i)->Ok_0),
    decreases ps.len() - i,
{
    if i < 0 || i >= ps.len() {
        lemma_globals_preserved_refl(rs);
    } else {
        let v = SpecValue::Param((i as u32) as int, ps[i].1);
        match spec_define(rs, s, ps[i].0, v) {
            Ok(rs2) => {
                lemma_define_preserves_globals(rs, s, ps[i].0, v);
                lemma_bind_params_globals(rs2, s, ps, i + 1);
                lemma_globals_preserved_trans(rs, rs2, spec_bind_params(rs2, s, ps, i + 1)->Ok_0);
            },
            Err(_) => {},
        }
    }
}

/// Lowering one recorded declaration preserves the global record, and
/// what it produces is a fully lowered function.
proof fn lemma_lower_fn_globals(rs: Seq<SpecScopeRecord>, f: SpecUnItpedFunction)
    requires
        rs.len() >= 1,
        spec_lower_fn(rs, f) is Ok,
    ensures
        globals_preserved(rs, spec_lower_fn(rs, f)->Ok_0.1),
        spec_lower_fn(rs, f)->Ok_0.0 is Function,
{
    let child = rs.len() as int;
    let rs1 = rs.push(SpecScopeRecord { parent: Some(0), bindings: Seq::empty() });
    assert(rs1[0] == rs[0]);
    match spec_bind_params(rs1, child, f.parameters.parameters, 0) {
        Ok(rs2) => {
            lemma_bind_params_globals(rs1, child, f.parameters.parameters, 0);
            match spec_interpret_list(rs2, child, f.body) {
                Ok(p) => {
                    lemma_interpret_list_globals(rs2, child, f.body);
                    lemma_globals_preserved_trans(rs, rs1, rs2);
                    lemma_globals_preserved_trans(rs, rs2, p.1);
                },
                Err(_) => {},
            }
        },
        Err(_) => {},
    }
}

/// Lowering every recorded declaration preserves the global record; the
/// list to install pairs each recorded name, in order, with a fully
/// lowered function.
proof fn lemma_lower_all_globals(
    rs: Seq<SpecScopeRecord>,
    fns: Seq<(Seq<char>, SpecUnItpedFunction)>,
    i: int,
)
    requires
        rs.len() >= 1,
        0 <= i,
        spec_lower_all(rs, fns, i) is Ok,
    ensures
        globals_preserved(rs, spec_lower_all(rs, fns, i)->Ok_0.1),
        spec_lower_all(rs, fns, i)->Ok_0.0.len() == (if i <= fns.len() {
            fns.len() - i
        } else {
            0int
        }),
        forall|j: int|
            0 <= j < spec_lower_all(rs, fns, i)->Ok_0.0.len() ==> (#[trigger] spec_lower_all(
                rs,
                fns,
                i,
            )->Ok_0.0[j]).0 == fns[i + j].0 && spec_lower_all(rs, fns, i)->Ok_0.0[j].1
                is Function,
    decreases fns.len() - i,
{
    if i >= fns.len() {
        lemma_globals_preserved_refl(rs);
    } else {
        match spec_lower_fn(rs, fns[i].1) {
            Ok(p1) => {
                lemma_lower_fn_globals(rs, fns[i].1);
                match spec_lower_all(p1.1, fns, i + 1) {
                    Ok(p2) => {
                        lemma_lower_all_globals(p1.1, fns, i + 1);
                        lemma_globals_preserved_trans(rs, p1.1, p2.1);
                        let out = seq![(fns[i].0, p1.0)] + p2.0;
                        assert forall|j: int| 0 <= j < out.len() implies (#[trigger] out[j]).0
                            == fns[i + j].0 && out[j].1 is Function by {
                            if j > 0 {
                                assert(out[j] == p2.0[j - 1]);
                            }
                        }
                    },
                    Err(_) => {},
                }
            },
            Err(_) => {},
        }
    }
}

/// Every global binding that is still a placeholder has its name in the
/// second pass's snapshot.
proof fn lemma_collect_covers(gb: Seq<(Seq<char>, SpecValue)>, i: int, k: int)
    requires
        0 <= i <= k < gb.len(),
        gb[k].1 is UnItpedFunction,
    ensures
        exists|j: int|
            0 <= j < spec_collect_unresolved(gb, i).len() && (#[trigger] spec_collect_unresolved(
                gb,
                i,
            )[j]).0 == gb[k].0,
    decreases gb.len() - i,
{
    let c = spec_collect_unresolved(gb, i);
    if i == k {
        assert(c[0].0 == gb[k].0);
    } else {
        lemma_collect_covers(gb, i + 1, k);
        let rest = spec_collect_unresolved(gb, i + 1);
        let j0 = choose|j: int| 0 <= j < rest.len() && (#[trigger] rest[j]).0 == gb[k].0;
        match gb[i].1 {
            SpecValue::UnItpedFunction(_) => {
                assert(c[j0 + 1] == rest[j0]);
            },
            _ => {
                assert(c == rest);
            },
        }
    }
}

/// Installing the lowered functions clears every placeholder whose name
/// the install list still holds; with every placeholder's name in the
/// list, none survives.
proof fn lemma_install_all_clears(
    rs: Seq<SpecScopeRecord>,
    list: Seq<(Seq<char>, SpecValue)>,
    i: int,
)
    requires
        rs.len() >= 1,
        0 <= i,
        distinct_keys(rs[0].bindings),
        forall|j: int| 0 <= j < list.len() ==> !((#[trigger] list[j]).1 is UnItpedFunction),
        forall|k: int|
            0 <= k < rs[0].bindings.len() && (#[trigger] rs[0].bindings[k]).1
                is UnItpedFunction ==> exists|j: int|
                i <= j < list.len() && (#[trigger] list[j]).0 == rs[0].bindings[k].0,
        spec_install_all(rs, list, i) is Ok,
    ensures
        forall|k: int|
            0 <= k < spec_install_all(rs, list, i)->Ok_0[0].bindings.len() ==> !((
            #[trigger] spec_install_all(rs, list, i)->Ok_0[0].bindings[k]).1
                is UnItpedFunction),
    decreases list.len() - i,
{
    if i >= list.len() {
        assert forall|k: int|
            0 <= k < rs[0].bindings.len() implies !((#[trigger] rs[0].bindings[k]).1
            is UnItpedFunction) by {
            if rs[0].bindings[k].1 is UnItpedFunction {
                let j = choose|j: int|
                    i <= j < list.len() && (#[trigger] list[j]).0 == rs[0].bindings[k].0;
                assert(false);
            }
        }
    } else {
        match spec_replace(rs, 0, list[i].0, list[i].1) {
            Ok(rs2) => {
                lemma_find_index_props(rs[0].bindings, list[i].0);
                let j0 = spec_find_index(rs[0].bindings, list[i].0)->0;
                assert(rs2[0].bindings == rs[0].bindings.update(j0, (list[i].0, list[i].1)));
                assert(distinct_keys(rs2[0].bindings)) by {
                    assert forall|a: int, b: int|
                        0 <= a < b < rs2[0].bindings.len() implies rs2[0].bindings[a].0
                        != rs2[0].bindings[b].0 by {
                        assert(rs2[0].bindings[a].0 == rs[0].bindings[a].0);
                        assert(rs2[0].bindings[b].0 == rs[0].bindings[b].0);
                    }
                }
                assert forall|k: int|
                    0 <= k < rs2[0].bindings.len() && (#[trigger] rs2[0].bindings[k]).1
                        is UnItpedFunction implies exists|j: int|
                    i + 1 <= j < list.len() && (#[trigger] list[j]).0 == rs2[0].bindings[k].0 by {
                    assert(k != j0);
                    assert(rs2[0].bindings[k] == rs[0].bindings[k]);
                    let j = choose|j: int|
                        i <= j < list.len() && (#[trigger] list[j]).0 == rs[0].bindings[k].0;
                    if j == i {
                        assert(rs[0].bindings[j0].0 == list[i].0);
                        assert(rs[0].bindings[k].0 == rs[0].bindings[j0].0);
                        assert(false);
                    }
                    assert(i + 1 <= j < list.len() && list[j].0 == rs2[0].bindings[k].0);
                }
                lemma_install_all_clears(rs2, list, i + 1);
            },
            Err(_) => {},
        }
    }
}

/// Law: after a successful second pass, no binding of the global scope is
/// still a not-yet-lowered placeholder — the code generator can never
/// observe a function that was declared but never lowered. The hypothesis
/// that no global name is bound twice is exactly what first-define
/// maintains.
pub proof fn lemma_pass2_leaves_no_placeholder(rs: Seq<SpecScopeRecord>)
    requires
        rs.len() >= 1,
        distinct_keys(rs[0].bindings),
        spec_pass2(rs) is Ok,
    ensures
        forall|k: int|
            0 <= k < spec_pass2(rs)->Ok_0[0].bindings.len() ==> !((#[trigger] spec_pass2(
                rs,
            )->Ok_0[0].bindings[k]).1 is UnItpedFunction),
{
    let gb = rs[0].bindings;
    let fns = spec_collect_unresolved(gb, 0);
    match spec_lower_all(rs, fns, 0) {
        Ok(p) => {
            lemma_lower_all_globals(rs, fns, 0);
            let list = p.0;
            let rs1 = p.1;
            assert(distinct_keys(rs1[0].bindings)) by {
                assert forall|a: int, b: int|
                    0 <= a < b < rs1[0].bindings.len() implies rs1[0].bindings[a].0
                    != rs1[0].bindings[b].0 by {
                    assert(rs1[0].bindings[a].0 == gb[a].0);
                    assert(rs1[0].bindings[b].0 == gb[b].0);
                }
            }
            assert forall|k: int|
                0 <= k < rs1[0].bindings.len() && (#[trigger] rs1[0].bindings[k]).1
                    is UnItpedFunction implies exists|j: int|
                0 <= j < list.len() && (#[trigger] list[j]).0 == rs1[0].bindings[k].0 by {
                assert(rs1[0].bindings[k] == gb[k]);
                lemma_collect_covers(gb, 0, k);
                let j = choose|j: int| 0 <= j < fns.len() && (#[trigger] fns[j]).0 == gb[k].0;
                assert(list[j].0 == fns[0 + j].0);
                assert(0 <= j < list.len() && list[j].0 == rs1[0].bindings[k].0);
            }
            lemma_install_all_clears(rs1, list, 0);
        },
        Err(_) => {},
    }
}

/// A first-define keeps the global scope's names distinct: at the global
/// scope it only inserts a name it checked to be absent, and elsewhere it
/// leaves the global record alone.
proof fn lemma_define_distinct(rs: Seq<SpecScopeRecord>, s: int, name: Seq<char>, v: SpecValue)
    requires
        rs.len() >= 1,
        distinct_keys(rs[0].bindings),
        spec_define(rs, s, name, v) is Ok,
    ensures
        distinct_keys(spec_define(rs, s, name, v)->Ok_0[0].bindings),
        spec_define(rs, s, name, v)->Ok_0.len() == rs.len(),
{
    let rs2 = spec_define(rs, s, name, v)->Ok_0;
    if s == 0 {
        lemma_find_index_props(rs[0].bindings, name);
        let b2 = rs2[0].bindings;
        assert forall|a: int, c: int| 0 <= a < c < b2.len() implies b2[a].0 != b2[c].0 by {
            if c < b2.len() - 1 {
                assert(b2[a] == rs[0].bindings[a] && b2[c] == rs[0].bindings[c]);
            } else {
                assert(b2[a] == rs[0].bindings[a] && b2[c].0 == name);
            }
        }
    } else {
        assert(rs2[0] == rs[0]);
    }
}

/// A replace keeps the global scope's names distinct: wherever it lands,
/// it overwrites a binding in place under its existing name.
proof fn lemma_replace_distinct(rs: Seq<SpecScopeRecord>, s: int, name: Seq<char>, v: SpecValue)
    requires
        rs.len() >= 1,
        distinct_keys(rs[0].bindings),
        spec_replace(rs, s, name, v) is Ok,
    ensures
        distinct_keys(spec_replace(rs, s, name, v)->Ok_0[0].bindings),
        spec_replace(rs, s, name, v)->Ok_0.len() == rs.len(),
    decreases s,
{
    let rs2 = spec_replace(rs, s, name, v)->Ok_0;
    if 0 <= s < rs.len() {
        match spec_find_index(rs[s].bindings, name) {
            Some(j) => {
                lemma_find_index_props(rs[s].bindings, name);
                if s == 0 {
                    let b2 = rs2[0].bindings;
                    assert forall|a: int, c: int| 0 <= a < c < b2.len() implies b2[a].0
                        != b2[c].0 by {
                        assert(b2[a].0 == rs[0].bindings[a].0);
                        assert(b2[c].0 == rs[0].bindings[c].0);
                    }
                } else {
                    assert(rs2[0] == rs[0]);
                }
            },
            None => {
                match rs[s].parent {
                    Some(p) => {
                        if 0 <= p < s {
                            lemma_replace_distinct(rs, p, name, v);
                        }
                    },
                    None => {},
                }
            },
        }
    }
}

/// A set-or-replace keeps the global scope's names distinct.
proof fn lemma_set_or_replace_distinct(
    rs: Seq<SpecScopeRecord>,
    s: int,
    name: Seq<char>,
    v: SpecValue,
)
    requires
        rs.len() >= 1,
        distinct_keys(rs[0].bindings),
        spec_set_or_replace(rs, s, name, v) is Ok,
    ensures
        distinct_keys(spec_set_or_replace(rs, s, name, v)->Ok_0[0].bindings),
        spec_set_or_replace(rs, s, name, v)->Ok_0.len() == rs.len(),
{
    match spec_replace(rs, s, name, v) {
        Ok(_) => {
            lemma_replace_distinct(rs, s, name, v);
        },
        Err(e) => {
            if e is NotDefined {
                lemma_define_distinct(rs, s, name, v);
            }
        },
    }
}

/// Lowering one node keeps the global scope's names distinct, in any
/// scope, including the global scope itself.
proof fn lemma_interpret_ast_distinct(rs: Seq<SpecScopeRecord>, s: int, ast: SpecParsedAst)
    requires
        rs.len() >= 1,
        distinct_keys(rs[0].bindings),
        spec_interpret_ast(rs, s, ast) is Ok,
    ensures
        distinct_keys(spec_interpret_ast(rs, s, ast)->Ok_0.1[0].bindings),
        spec_interpret_ast(rs, s, ast)->Ok_0.1.len() >= rs.len(),
    decreases ast, 0int,
{
    match ast.kind {
        SpecParsedAstKind::Array(elems) => {
            lemma_interpret_list_distinct(rs, s, elems);
        },
        SpecParsedAstKind::Call { name, args } => match name.kind {
            IdentifierKind::Macro => match spec_macros(name.name) {
                Some(Macro::FnForm) => {
                    if args.len() >= 2 {
                        match args[0].kind {
                            SpecParsedAstKind::Identifier(id) => match args[1].kind {
                                SpecParsedAstKind::Array(params) => match spec_fn_params(
                                    params,
                                    0,
                                ) {
                                    Ok(_) => {
                                        let f = spec_fn_macro_value(args, id);
                                        match spec_define(rs, s, id.name, f) {
                                            Ok(_) => {
                                                lemma_define_distinct(rs, s, id.name, f);
                                            },
                                            Err(_) => {},
                                        }
                                    },
                                    Err(_) => {},
                                },
                                _ => {},
                            },
                            _ => {},
                        }
                    }
                },
                Some(Macro::SetForm) => {
                    if args.len() == 2 {
                        match args[0].kind {
                            SpecParsedAstKind::Identifier(id) => match spec_interpret_ast(
                                rs,
                                s,
                                args[1],
                            ) {
                                Ok(p1) => {
                                    lemma_interpret_ast_distinct(rs, s, args[1]);
                                    if p1.0.len() == 1 {
                                        match spec_node_type(p1.0[0]) {
                                            Some(t) => {
                                                match spec_set_or_replace(
                                                    p1.1,
                                                    s,
                                                    id.name,
                                                    SpecValue::Named(id, t),
                                                ) {
                                                    Ok(_) => {
                                                        lemma_set_or_replace_distinct(
                                                            p1.1,
                                                            s,
                                                            id.name,
                                                            SpecValue::Named(id, t),
                                                        );
                                                    },
                                                    Err(_) => {},
                                                }
                                            },
                                            None => {},
                                        }
                                    }
                                },
                                Err(_) => {},
                            },
                            _ => {},
                        }
                    }
                },
                Some(Macro::IfForm) => {
                    if args.len() == 3 {
                        match spec_interpret_ast(rs, s, args[0]) {
                            Ok(p1) => {
                                lemma_interpret_ast_distinct(rs, s, args[0]);
                                match spec_interpret_ast(p1.1, s, args[1]) {
                                    Ok(p2) => {
                                        lemma_interpret_ast_distinct(p1.1, s, args[1]);
                                        match spec_interpret_ast(p2.1, s, args[2]) {
                                            Ok(_) => {
                                                lemma_interpret_ast_distinct(p2.1, s, args[2]);
                                            },
                                            Err(_) => {},
                                        }
                                    },
                                    Err(_) => {},
                                }
                            },
                            Err(_) => {},
                        }
                    }
                },
                Some(Macro::WhileForm) => {
                    if args.len() == 2 {
                        match spec_interpret_ast(rs, s, args[0]) {
                            Ok(p1) => {
                                lemma_interpret_ast_distinct(rs, s, args[0]);
                                match spec_interpret_ast(p1.1, s, args[1]) {
                                    Ok(_) => {
                                        lemma_interpret_ast_distinct(p1.1, s, args[1]);
                                    },
                                    Err(_) => {},
                                }
                            },
                            Err(_) => {},
                        }
                    }
                },
                None => {},
            },
            IdentifierKind::Variable => {
                match spec_lookup(rs, s, name.name) {
                    Some(v) => {
                        let sigopt = match v {
                            SpecValue::Function(f) => Some((f.parameters, f.return_type)),
                            SpecValue::UnItpedFunction(f) => Some((f.parameters, f.return_type)),
                            SpecValue::NativeFunction(f) => Some((f.parameters, f.return_type)),
                            _ => None,
                        };
                        match sigopt {
                            Some(_) => {
                                let child = rs.len() as int;
                                let rs1 = rs.push(
                                    SpecScopeRecord { parent: Some(s), bindings: Seq::empty() },
                                );
                                assert(rs1[0] == rs[0]);
                                match spec_interpret_list(rs1, child, args) {
                                    Ok(_) => {
                                        lemma_interpret_list_distinct(rs1, child, args);
                                    },
                                    Err(_) => {},
                                }
                            },
                            None => {},
                        }
                    },
                    None => {},
                }
            },
            IdentifierKind::Type => {},
        },
        _ => {},
    }
}

/// Lowering a list of nodes keeps the global scope's names distinct.
proof fn lemma_interpret_list_distinct(rs: Seq<SpecScopeRecord>, s: int, l: Seq<SpecParsedAst>)
    requires
        rs.len() >= 1,
        distinct_keys(rs[0].bindings),
        spec_interpret_list(rs, s, l) is Ok,
    ensures
        distinct_keys(spec_interpret_list(rs, s, l)->Ok_0.1[0].bindings),
        spec_interpret_list(rs, s, l)->Ok_0.1.len() >= rs.len(),
    decreases l, 1int,
{
    if l.len() > 0 {
        match spec_interpret_ast(rs, s, l[0]) {
            Ok(p1) => {
                lemma_interpret_ast_distinct(rs, s, l[0]);
                match spec_interpret_list(p1.1, s, l.drop_first()) {
                    Ok(_) => {
                        lemma_interpret_list_distinct(p1.1, s, l.drop_first());
                    },
                    Err(_) => {},
                }
            },
            Err(_) => {},
        }
    }
}

/// Law: a whole successful resolution run leaves no binding of the global
/// scope as a not-yet-lowered placeholder: every function the first pass
/// declared has been lowered and installed by the second, so the code
/// generator can never observe a declaration without a body.
pub proof fn lemma_interpret_leaves_no_placeholder(
    rs: Seq<SpecScopeRecord>,
    prog: Seq<SpecParsedAst>,
    i: int,
)
    requires
        rs.len() >= 1,
        distinct_keys(rs[0].bindings),
        spec_interpret(rs, prog, i) is Ok,
    ensures
        forall|k: int|
            0 <= k < spec_interpret(rs, prog, i)->Ok_0[0].bindings.len() ==> !((
            #[trigger] spec_interpret(rs, prog, i)->Ok_0[0].bindings[k]).1
                is UnItpedFunction),
    decreases prog.len() - i,
{
    if i < 0 || i >= prog.len() {
        lemma_pass2_leaves_no_placeholder(rs);
    } else {
        match spec_interpret_ast(rs, 0, prog[i]) {
            Ok(p) => {
                lemma_interpret_ast_distinct(rs, 0, prog[i]);
                lemma_interpret_leaves_no_placeholder(p.1, prog, i + 1);
            },
            Err(_) => {},
        }
    }
}

/// The types of a list of lowered nodes; fails at the first node whose
/// type is undefined.
pub fn types_of(nodes: &Vec<ItpAst>) -> (r: Result<Vec<ItpTypeValue>, ItpError>)
    ensures
        match r {
            Ok(ts) => spec_types_of(itp_list_view(nodes@), 0) == Ok::<_, SpecItpError>(
                types_view(ts@),
            ),
            Err(e) => spec_types_of(itp_list_view(nodes@), 0) == Err::<Seq<SpecType>, _>(e@),
        },
{
    let ghost nv = itp_list_view(nodes@);
    proof {
        lemma_itp_list_view_len(nodes@);
    }
    let mut out: Vec<ItpTypeValue> = Vec::new();
    let mut i: usize = 0;
    while i < nodes.len()
        invariant
            i <= nodes.len(),
            nv == itp_list_view(nodes@),
            nv.len() == nodes@.len(),
            types_view(out@).len() == i,
            (match spec_types_of(nv, i as int) {
                Ok(rest) => spec_types_of(nv, 0) == Ok::<_, SpecItpError>(
                    types_view(out@) + rest,
                ),
                Err(e) => spec_types_of(nv, 0) == Err::<Seq<SpecType>, _>(e),
            }),
        decreases nodes.len() - i,
    {
        let node = &nodes[i];
        proof {
            lemma_itp_list_view_index(nodes@, i as int);
        }
        let ghost out_pre = out@;
        match node.get_type() {
            Some(t) => {
                let ghost tv = t@;
                out.push(t);
                proof {
                    assert(types_view(out@) =~= types_view(out_pre).push(tv));
                    match spec_types_of(nv, i + 1) {
                        Ok(rest) => {
                            assert(types_view(out_pre) + (seq![tv] + rest) =~= types_view(out@)
                                + rest);
                        },
                        Err(_) => {},
                    }
                }
            },
            None => {
                return Err(node.error(ItpErrorKind::HeterogeneousArray));
            },
        }
        i = i + 1;
    }
    proof {
        assert(types_view(out@) + Seq::<SpecType>::empty() =~= types_view(out@));
    }
    Ok(out)
}

impl Interpreter {
    /// Lower one untyped node in scope `s`, producing the list of typed
    /// nodes it becomes and installing any scopes and bindings the
    /// lowering demands.
    pub fn interpret_ast(&mut self, ast: &ParsedAst, s: usize) -> (r: Result<Vec<ItpAst>, ItpError>)
        requires
            old(self).inv(),
            s < old(self)@.len(),
        ensures
            match r {
                Ok(nodes) => spec_interpret_ast(old(self)@, s as int, ast@) == Ok::<
                    _,
                    SpecItpError,
                >((itp_list_view(nodes@), final(self)@)) && final(self).inv() && old(self)@.len()
                    <= final(self)@.len(),
                Err(e) => spec_interpret_ast(old(self)@, s as int, ast@) == Err::<
                    (Seq<SpecItpAst>, Seq<SpecScopeRecord>),
                    _,
                >(e@),
            },
        decreases *ast, 0int,
    {
        let line = ast.line;
        let column = ast.column;
        match &ast.kind {
            ParsedAstKind::Int(v) => {
                let node = ItpAst {
                    kind: ItpAstKind::Constant(ItpConstantValue::Int(*v)),
                    line,
                    column,
                };
                proof {
                    reveal_with_fuel(crate::interpreter::ast::itp_view, 2);
                    assert(node@.kind == SpecItpAstKind::Constant(
                        crate::interpreter::value::SpecConstant::Int(*v),
                    ));
                }
                Ok(singleton(node))
            },
            ParsedAstKind::Float(v) => {
                let node = ItpAst {
                    kind: ItpAstKind::Constant(ItpConstantValue::Float(v.clone())),
                    line,
                    column,
                };
                proof {
                    reveal_with_fuel(crate::interpreter::ast::itp_view, 2);
                    assert(node@.kind == SpecItpAstKind::Constant(
                        crate::interpreter::value::SpecConstant::Float(v@),
                    ));
                }
                Ok(singleton(node))
            },
            ParsedAstKind::Bool(v) => {
                let node = ItpAst {
                    kind: ItpAstKind::Constant(ItpConstantValue::Bool(*v)),
                    line,
                    column,
                };
                proof {
                    reveal_with_fuel(crate::interpreter::ast::itp_view, 2);
                    assert(node@.kind == SpecItpAstKind::Constant(
                        crate::interpreter::value::SpecConstant::Bool(*v),
                    ));
                }
                Ok(singleton(node))
            },
            ParsedAstKind::Char(v) => {
                let node = ItpAst {
                    kind: ItpAstKind::Constant(ItpConstantValue::Char(*v)),
                    line,
                    column,
                };
                proof {
                    reveal_with_fuel(crate::interpreter::ast::itp_view, 2);
                    assert(node@.kind == SpecItpAstKind::Constant(
                        crate::interpreter::value::SpecConstant::Char(*v),
                    ));
                }
                Ok(singleton(node))
            },
            ParsedAstKind::String(v) => {
                let node = ItpAst {
                    kind: ItpAstKind::Constant(ItpConstantValue::String(v.clone())),
                    line,
                    column,
                };
                proof {
                    reveal_with_fuel(crate::interpreter::ast::itp_view, 2);
                    assert(node@.kind == SpecItpAstKind::Constant(
                        crate::interpreter::value::SpecConstant::String(v@),
                    ));
                }
                Ok(singleton(node))
            },
            ParsedAstKind::Array(elems) => {
                proof {
                    assert(decreases_to!(*ast, 0int => *elems, 1int));
                }
                self.interpret_list(elems, s)
            },
            ParsedAstKind::Identifier(identifier) => match identifier.kind {
                IdentifierKind::Variable => {
                    match self.scope.get(s, &identifier.name) {
                        None => ast.err(
                            ItpErrorKind::UnresolvedSymbol { name: identifier.name.clone() },
                        ),
                        Some(v) => match v {
                            ItpValue::Constant(c) => Ok(
                                singleton(
                                    ItpAst {
                                        kind: ItpAstKind::Constant(c.duplicate()),
                                        line,
                                        column,
                                    },
                                ),
                            ),
                            ItpValue::Param(i, t) => Ok(
                                singleton(
                                    ItpAst {
                                        kind: ItpAstKind::Param {
                                            position: *i,
                                            name: identifier.duplicate(),
                                            result: t.duplicate(),
                                        },
                                        line,
                                        column,
                                    },
                                ),
                            ),
                            other => match other.get_type() {
                                Some(t) => Ok(
                                    singleton(
                                        ItpAst {
                                            kind: ItpAstKind::Variable {
                                                name: identifier.duplicate(),
                                                result: t,
                                            },
                                            line,
                                            column,
                                        },
                                    ),
                                ),
                                None => ast.err(ItpErrorKind::HeterogeneousArray),
                            },
                        },
                    }
                },
                IdentifierKind::Macro => ast.err(
                    ItpErrorKind::MacroMisplaced { name: identifier.name.clone() },
                ),
                IdentifierKind::Type => ast.err(
                    ItpErrorKind::TypeMisplaced { name: identifier.name.clone() },
                ),
            },
            ParsedAstKind::Call { name, args } => match name.kind {
                IdentifierKind::Macro => {
                    proof {
                        assert(decreases_to!(*ast, 0int => *args, 0int));
                    }
                    match crate::interpreter::macros::macros(&name.name) {
                        None => ast.err(ItpErrorKind::MacroNotFound { name: name.name.clone() }),
                        Some(Macro::FnForm) => fn_macro(self, args, s, line, column),
                        Some(Macro::SetForm) => set_macro(self, args, s, line, column),
                        Some(Macro::IfForm) => if_macro(self, args, s, line, column),
                        Some(Macro::WhileForm) => while_macro(self, args, s, line, column),
                    }
                },
                IdentifierKind::Variable => {
                    let sig: (ItpFunctionParameters, ItpTypeValue) = match self.scope.get(
                        s,
                        &name.name,
                    ) {
                        None => {
                            return ast.err(
                                ItpErrorKind::UnresolvedSymbol { name: name.name.clone() },
                            );
                        },
                        Some(ItpValue::Function(f)) => (
                            f.parameters.duplicate(),
                            f.return_type.duplicate(),
                        ),
                        Some(ItpValue::UnItpedFunction(f)) => (
                            f.parameters.duplicate(),
                            f.return_type.duplicate(),
                        ),
                        Some(ItpValue::NativeFunction(f)) => (
                            f.parameters.duplicate(),
                            f.return_type.duplicate(),
                        ),
                        Some(_) => {
                            return ast.err(
                                ItpErrorKind::NotAFunction { name: name.name.clone() },
                            );
                        },
                    };
                    let child = self.scope.new_child(s);
                    proof {
                        assert(decreases_to!(*ast, 0int => *args, 1int));
                    }
                    let arg_nodes = match self.interpret_list(args, child) {
                        Ok(v) => v,
                        Err(e) => {
                            return Err(e);
                        },
                    };
                    let types = match types_of(&arg_nodes) {
                        Ok(ts) => ts,
                        Err(e) => {
                            return Err(e);
                        },
                    };
                    match sig.0.check_params(&types) {
                        IFPCheck::Accepted(m) => {
                            let result = sig.1.replace_generics(&m);
                            Ok(
                                singleton(
                                    ItpAst {
                                        kind: ItpAstKind::Call {
                                            function: name.duplicate(),
                                            arguments: arg_nodes,
                                            result,
                                        },
                                        line,
                                        column,
                                    },
                                ),
                            )
                        },
                        IFPCheck::NotEnoughParameters => ast.err(
                            ItpErrorKind::NotEnoughParameters,
                        ),
                        IFPCheck::TooManyParameters => ast.err(ItpErrorKind::TooManyParameters),
                        IFPCheck::WrongType(i, got, expected) => ast.err(
                            ItpErrorKind::WrongType { index: i, got, expected },
                        ),
                    }
                },
                IdentifierKind::Type => ast.err(
                    ItpErrorKind::TypeMisplaced { name: name.name.clone() },
                ),
            },
        }
    }

    /// Lower a list of untyped nodes left to right in scope `s`,
    /// concatenating what they become.
    pub fn interpret_list(&mut self, l: &Vec<ParsedAst>, s: usize) -> (r: Result<
        Vec<ItpAst>,
        ItpError,
    >)
        requires
            old(self).inv(),
            s < old(self)@.len(),
        ensures
            match r {
                Ok(nodes) => spec_interpret_list(old(self)@, s as int, past_list_view(l@)) == Ok::<
                    _,
                    SpecItpError,
                >((itp_list_view(nodes@), final(self)@)) && final(self).inv() && old(self)@.len()
                    <= final(self)@.len(),
                Err(e) => spec_interpret_list(old(self)@, s as int, past_list_view(l@)) == Err::<
                    (Seq<SpecItpAst>, Seq<SpecScopeRecord>),
                    _,
                >(e@),
            },
        decreases *l, 1int,
    {
        let ghost rs_start = self@;
        let ghost lv = past_list_view(l@);
        proof {
            lemma_past_list_view_len(l@);
        }
        let mut out: Vec<ItpAst> = Vec::new();
        let mut i: usize = 0;
        proof {
            assert(lv.skip(0) =~= lv);
            assert(itp_list_view(out@) =~= Seq::<SpecItpAst>::empty());
            match spec_interpret_list(self@, s as int, lv) {
                Ok(p) => {
                    assert(Seq::<SpecItpAst>::empty() + p.0 =~= p.0);
                },
                Err(_) => {},
            }
        }
        while i < l.len()
            invariant
                i <= l.len(),
                rs_start == old(self)@,
                lv == past_list_view(l@),
                lv.len() == l@.len(),
                self.inv(),
                s < self@.len(),
                rs_start.len() <= self@.len(),
                (match spec_interpret_list(self@, s as int, lv.skip(i as int)) {
                    Ok(p) => spec_interpret_list(rs_start, s as int, lv) == Ok::<
                        _,
                        SpecItpError,
                    >((itp_list_view(out@) + p.0, p.1)),
                    Err(e) => spec_interpret_list(rs_start, s as int, lv) == Err::<
                        (Seq<SpecItpAst>, Seq<SpecScopeRecord>),
                        _,
                    >(e),
                }),
            decreases l.len() - i,
        {
            let node = &l[i];
            proof {
                assert(decreases_to!(*l, 1int => *node, 0int));
                lemma_past_list_view_index(l@, i as int);
                assert(lv.skip(i as int).len() == lv.len() - i);
                assert(lv.skip(i as int)[0] == lv[i as int]);
                assert(lv.skip(i as int).drop_first() =~= lv.skip(i as int + 1));
            }
            let ghost out_pre = itp_list_view(out@);
            let ghost out_seq_pre = out@;
            match self.interpret_ast(node, s) {
                Ok(mut ns) => {
                    let ghost nsv = itp_list_view(ns@);
                    let ghost ns_seq = ns@;
                    out.append(&mut ns);
                    proof {
                        assert(out@ == out_seq_pre + ns_seq);
                        lemma_itp_list_view_concat(out_seq_pre, ns_seq);
                        assert(itp_list_view(out@) == out_pre + nsv);
                        match spec_interpret_list(self@, s as int, lv.skip(i as int + 1)) {
                            Ok(p) => {
                                assert((out_pre + nsv) + p.0 =~= out_pre + (nsv + p.0));
                            },
                            Err(_) => {},
                        }
                    }
                },
                Err(e) => {
                    return Err(e);
                },
            }
            i = i + 1;
        }
        proof {
            assert(lv.skip(i as int) =~= Seq::<SpecParsedAst>::empty());
            assert(itp_list_view(out@) + Seq::<SpecItpAst>::empty() =~= itp_list_view(out@));
        }
        Ok(out)
    }

    /// A fresh resolver: one global scope holding exactly the native
    /// registry.
    pub fn new() -> (r: Interpreter)
        ensures
            r.inv(),
            r@ == seq![
                SpecScopeRecord {
                    parent: None,
                    bindings: crate::interpreter::native_fns::spec_native_bindings(),
                },
            ],
    {
        let mut itp = Interpreter { scope: Scope::new() };
        crate::interpreter::native_fns::add_native_fns(&mut itp);
        proof {
            assert(itp@ =~= seq![
                SpecScopeRecord {
                    parent: None,
                    bindings: crate::interpreter::native_fns::spec_native_bindings(),
                },
            ]);
        }
        itp
    }

    /// The second pass: lower every function that the first pass left as a
    /// placeholder in the global scope, then install each lowered function
    /// over its placeholder.
    pub fn interpret_uninterpreted_functions(&mut self) -> (r: Result<(), ItpError>)
        requires
            old(self).inv(),
        ensures
            match r {
                Ok(()) => spec_pass2(old(self)@) == Ok::<_, SpecItpError>(final(self)@)
                    && final(self).inv(),
                Err(e) => spec_pass2(old(self)@) == Err::<Seq<SpecScopeRecord>, _>(e@),
            },
    {
        let ghost rs0 = self@;
        let ghost gb = rs0[0].bindings;
        proof {
            crate::interpreter::scope::lemma_records_view_len(self.scope.records@);
            crate::interpreter::scope::lemma_records_view_index(self.scope.records@, 0);
            crate::interpreter::scope::lemma_binds_view_len(self.scope.records@[0].bindings@);
        }
        let mut unresolved: Vec<(String, UnItpedFunctionValue)> = Vec::new();
        let n = self.scope.records[0].bindings.len();
        let mut i: usize = 0;
        while i < n
            invariant
                i <= n,
                self@ == rs0,
                rs0 == old(self)@,
                self.inv(),
                gb == rs0[0].bindings,
                gb == crate::interpreter::scope::binds_view(self.scope.records@[0].bindings@),
                n == self.scope.records@[0].bindings@.len(),
                n == gb.len(),
                spec_collect_unresolved(gb, 0) == upairs_view(unresolved@)
                    + spec_collect_unresolved(gb, i as int),
            decreases n - i,
        {
            let b = &self.scope.records[0].bindings[i];
            proof {
                crate::interpreter::scope::lemma_binds_view_index(
                    self.scope.records@[0].bindings@,
                    i as int,
                );
            }
            let ghost upre = unresolved@;
            match &b.1 {
                ItpValue::UnItpedFunction(f) => {
                    let dup = UnItpedFunctionValue {
                        name: f.name.clone(),
                        parameters: f.parameters.duplicate(),
                        body: crate::parser::ast::duplicate_nodes(&f.body),
                        return_type: f.return_type.duplicate(),
                    };
                    unresolved.push((b.0.clone(), dup));
                    proof {
                        assert(unresolved@.drop_last() =~= upre);
                        assert(gb[i as int].1 matches SpecValue::UnItpedFunction(fs) && ufn_view(
                            unresolved@[unresolved@.len() - 1].1,
                        ) == fs);
                        lemma_upairs_view_len(unresolved@);
                        assert(upairs_view(unresolved@) == upairs_view(upre).push(
                            (gb[i as int].0, gb[i as int].1->UnItpedFunction_0),
                        ));
                        assert(upairs_view(upre) + (seq![
                            (gb[i as int].0, gb[i as int].1->UnItpedFunction_0),
                        ] + spec_collect_unresolved(gb, i + 1)) =~= upairs_view(unresolved@)
                            + spec_collect_unresolved(gb, i + 1));
                    }
                },
                ItpValue::Param(_, _) => {},
                ItpValue::Constant(_) => {},
                ItpValue::Named(_, _) => {},
                ItpValue::Function(_) => {},
                ItpValue::NativeFunction(_) => {},
            }
            i = i + 1;
        }
        let ghost ufns = upairs_view(unresolved@);
        proof {
            lemma_upairs_view_len(unresolved@);
            assert(spec_collect_unresolved(gb, n as int) =~= Seq::<
                (Seq<char>, SpecUnItpedFunction),
            >::empty());
            assert(ufns + Seq::<(Seq<char>, SpecUnItpedFunction)>::empty() =~= ufns);
            assert(spec_collect_unresolved(gb, 0) == ufns);
        }
        let mut installs: Vec<(String, ItpValue)> = Vec::new();
        let mut k: usize = 0;
        proof {
            match spec_lower_all(self@, ufns, 0) {
                Ok(p) => {
                    assert(Seq::<(Seq<char>, SpecValue)>::empty() + p.0 =~= p.0);
                    assert(vpairs_view(installs@) =~= Seq::<(Seq<char>, SpecValue)>::empty());
                },
                Err(_) => {},
            }
        }
        while k < unresolved.len()
            invariant
                k <= unresolved.len(),
                rs0 == old(self)@,
                gb == rs0[0].bindings,
                spec_collect_unresolved(gb, 0) == ufns,
                ufns == upairs_view(unresolved@),
                ufns.len() == unresolved@.len(),
                self.inv(),
                (match spec_lower_all(self@, ufns, k as int) {
                    Ok(p) => spec_lower_all(rs0, ufns, 0) == Ok::<_, SpecItpError>(
                        (vpairs_view(installs@) + p.0, p.1),
                    ),
                    Err(e) => spec_lower_all(rs0, ufns, 0) == Err::<
                        (Seq<(Seq<char>, SpecValue)>, Seq<SpecScopeRecord>),
                        _,
                    >(e),
                }),
            decreases unresolved.len() - k,
        {
            proof {
                lemma_upairs_view_index(unresolved@, k as int);
            }
            let ghost rs_k = self@;
            let ghost fspec = ufns[k as int].1;
            let child = self.scope.new_child(0);
            let ghost rs1 = self@;
            let fref = &unresolved[k].1;
            let ghost ps = fspec.parameters.parameters;
            proof {
                assert(ps == crate::interpreter::value::params_view(
                    fref.parameters.parameters@,
                ));
                crate::interpreter::value::lemma_params_view_len(fref.parameters.parameters@);
            }
            let pslen = fref.parameters.parameters.len();
            let mut j: usize = 0;
            while j < pslen
                invariant
                    j <= pslen,
                    pslen == fref.parameters.parameters@.len(),
                    ps == crate::interpreter::value::params_view(fref.parameters.parameters@),
                    ps == fspec.parameters.parameters,
                    ps.len() == pslen,
                    fref == &unresolved@[k as int].1,
                    self.inv(),
                    child < self@.len(),
                    rs0 == old(self)@,
                    gb == rs0[0].bindings,
                    spec_collect_unresolved(gb, 0) == ufns,
                    0 <= k < ufns.len(),
                    ufns == upairs_view(unresolved@),
                    ufns.len() == unresolved@.len(),
                    fspec == ufns[k as int].1,
                    child == rs_k.len(),
                    rs1 == rs_k.push(
                        SpecScopeRecord { parent: Some(0), bindings: Seq::empty() },
                    ),
                    (match spec_lower_all(rs_k, ufns, k as int) {
                        Ok(p) => spec_lower_all(rs0, ufns, 0) == Ok::<_, SpecItpError>(
                            (vpairs_view(installs@) + p.0, p.1),
                        ),
                        Err(e) => spec_lower_all(rs0, ufns, 0) == Err::<
                            (Seq<(Seq<char>, SpecValue)>, Seq<SpecScopeRecord>),
                            _,
                        >(e),
                    }),
                    (match spec_bind_params(self@, child as int, ps, j as int) {
                        Ok(rsx) => spec_bind_params(rs1, child as int, ps, 0) == Ok::<
                            _,
                            SpecItpError,
                        >(rsx),
                        Err(e) => spec_bind_params(rs1, child as int, ps, 0) == Err::<
                            Seq<SpecScopeRecord>,
                            _,
                        >(e),
                    }),
                decreases pslen - j,
            {
                let p = &fref.parameters.parameters[j];
                proof {
                    crate::interpreter::value::lemma_params_view_index(
                        fref.parameters.parameters@,
                        j as int,
                    );
                }
                let j32: u32 = #[verifier::truncate] (j as u32);
                let prm = ItpValue::Param(j32, p.1.duplicate());
                let ghost prmv = value_view(prm);
                let ghost rs_pre = self@;
                proof {
                    assert(prmv == SpecValue::Param((j as u32) as int, ps[j as int].1));
                }
                match self.scope.set(child, p.0.clone(), prm) {
                    Ok(()) => {},
                    Err(e) => {
                        proof {
                            assert(spec_bind_params(rs_pre, child as int, ps, j as int) == Err::<
                                Seq<SpecScopeRecord>,
                                _,
                            >(err_at(0, 0, spec_scope_err_kind(e@))));
                            assert(spec_bind_params(rs1, child as int, ps, 0) == Err::<
                                Seq<SpecScopeRecord>,
                                _,
                            >(err_at(0, 0, spec_scope_err_kind(e@))));
                            assert(spec_lower_fn(rs_k, fspec) == Err::<
                                (SpecValue, Seq<SpecScopeRecord>),
                                _,
                            >(err_at(0, 0, spec_scope_err_kind(e@))));
                            assert(spec_lower_all(rs0, ufns, 0) == Err::<
                                (Seq<(Seq<char>, SpecValue)>, Seq<SpecScopeRecord>),
                                _,
                            >(err_at(0, 0, spec_scope_err_kind(e@))));
                            assert(spec_pass2(rs0) == Err::<Seq<SpecScopeRecord>, _>(
                                err_at(0, 0, spec_scope_err_kind(e@)),
                            ));
                        }
                        return Err(
                            ItpError {
                                line: 0,
                                column: 0,
                                kind: crate::interpreter::error::scope_err_kind(e),
                            },
                        );
                    },
                }
                j = j + 1;
            }
            let nodes = match self.interpret_list(&fref.body, child) {
                Ok(v) => v,
                Err(e) => {
                    return Err(e);
                },
            };
            let ghost nodesv = itp_list_view(nodes@);
            let newfn = ItpValue::Function(
                ItpFunctionValue {
                    name: fref.name.clone(),
                    parameters: fref.parameters.duplicate(),
                    body: nodes,
                    return_type: fref.return_type.duplicate(),
                },
            );
            let ghost ipre = installs@;
            installs.push((unresolved[k].0.clone(), newfn));
            proof {
                assert(installs@.drop_last() =~= ipre);
                lemma_vpairs_view_len(installs@);
                assert(vpairs_view(installs@) == vpairs_view(ipre).push(
                    (ufns[k as int].0, SpecValue::Function(
                        SpecFunction {
                            name: fspec.name,
                            parameters: fspec.parameters,
                            body: nodesv,
                            return_type: fspec.return_type,
                        },
                    )),
                ));
                match spec_lower_all(self@, ufns, k + 1) {
                    Ok(p) => {
                        assert(vpairs_view(ipre) + (seq![
                            (ufns[k as int].0, SpecValue::Function(
                                SpecFunction {
                                    name: fspec.name,
                                    parameters: fspec.parameters,
                                    body: nodesv,
                                    return_type: fspec.return_type,
                                },
                            )),
                        ] + p.0) =~= vpairs_view(installs@) + p.0);
                    },
                    Err(_) => {},
                }
            }
            k = k + 1;
        }
        let ghost vlist = vpairs_view(installs@);
        proof {
            lemma_vpairs_view_len(installs@);
            assert(spec_lower_all(self@, ufns, k as int) == Ok::<_, SpecItpError>(
                (Seq::<(Seq<char>, SpecValue)>::empty(), self@),
            ));
            assert(vlist + Seq::<(Seq<char>, SpecValue)>::empty() =~= vlist);
            assert(spec_pass2(rs0) == spec_install_all(self@, vlist, 0));
        }
        let mut t: usize = 0;
        while t < installs.len()
            invariant
                t <= installs.len(),
                rs0 == old(self)@,
                vlist == vpairs_view(installs@),
                vlist.len() == installs@.len(),
                self.inv(),
                spec_pass2(rs0) == spec_install_all(self@, vlist, t as int),
            decreases installs.len() - t,
        {
            let pair = &installs[t];
            proof {
                lemma_vpairs_view_index(installs@, t as int);
            }
            match self.scope.replace(0, pair.0.clone(), pair.1.duplicate()) {
                Ok(()) => {},
                Err(e) => {
                    return Err(
                        ItpError {
                            line: 0,
                            column: 0,
                            kind: crate::interpreter::error::scope_err_kind(e),
                        },
                    );
                },
            }
            t = t + 1;
        }
        Ok(())
    }

    /// Resolve a whole program: lower every top-level form left to right
    /// in the global scope, then run the second pass over the function
    /// placeholders.
    pub fn interpret(&mut self, ast: &Vec<ParsedAst>) -> (r: Result<(), ItpError>)
        requires
            old(self).inv(),
        ensures
            match r {
                Ok(()) => spec_interpret(old(self)@, past_list_view(ast@), 0) == Ok::<
                    _,
                    SpecItpError,
                >(final(self)@) && final(self).inv(),
                Err(e) => spec_interpret(old(self)@, past_list_view(ast@), 0) == Err::<
                    Seq<SpecScopeRecord>,
                    _,
                >(e@),
            },
    {
        let ghost rs0 = self@;
        let ghost pv = past_list_view(ast@);
        proof {
            lemma_past_list_view_len(ast@);
        }
        let mut i: usize = 0;
        while i < ast.len()
            invariant
                i <= ast.len(),
                rs0 == old(self)@,
                pv == past_list_view(ast@),
                pv.len() == ast@.len(),
                self.inv(),
                spec_interpret(rs0, pv, 0) == spec_interpret(self@, pv, i as int),
            decreases ast.len() - i,
        {
            let node = &ast[i];
            proof {
                lemma_past_list_view_index(ast@, i as int);
            }
            match self.interpret_ast(node, 0) {
                Ok(_) => {},
                Err(e) => {
                    return Err(e);
                },
            }
            i = i + 1;
        }
        match self.interpret_uninterpreted_functions() {
            Ok(()) => Ok(()),
            Err(e) => Err(e),
        }
    }
}

} // verus!
