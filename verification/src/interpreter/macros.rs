use crate::interpreter::ast::{
    itp_list_view, singleton, spec_node_type, ItpAst, ItpAstKind, SpecItpAst, SpecItpAstKind,
};
use crate::interpreter::error::{
    err_at, scope_err_kind, spec_scope_err_kind, ItpError, ItpErrorKind, SpecItpError,
    SpecItpErrorKind,
};
use crate::interpreter::scope::{
    spec_define, spec_set_or_replace, SpecScopeRecord,
};
use crate::interpreter::value::{
    params_view, type_view, value_view, ItpFunctionParameters, ItpTypeValue, ItpValue,
    SpecFunctionParameters, SpecType, SpecUnItpedFunction, SpecValue, UnItpedFunctionValue,
};
use crate::interpreter::{spec_interpret_ast, Interpreter};
use crate::parser::ast::{
    lemma_past_list_view_index, lemma_past_list_view_len, past_list_view, ParsedAst,
    SpecParsedAst, SpecParsedAstKind,
};
use crate::tokens::string_eq;
use vstd::prelude::*;
use vstd::string::StringExecFns;

verus! {

/// The closed, statically registered set of special forms. Each call head
/// written with a macro sigil is dispatched here instead of through normal
/// call resolution.
#[derive(Debug, Clone, Copy, PartialEq, Eq, Structural)]
pub enum Macro {
    FnForm,
    SetForm,
    IfForm,
    WhileForm,
}

/// The special form a name denotes, if any: `fn`, `set`, `if` or `while`.
pub open spec fn spec_macros(name: Seq<char>) -> Option<Macro> {
    if name == ("fn")@ {
        Some(Macro::FnForm)
    } else if name == ("set")@ {
        Some(Macro::SetForm)
    } else if name == ("if")@ {
        Some(Macro::IfForm)
    } else if name == ("while")@ {
        Some(Macro::WhileForm)
    } else {
        None
    }
}

/// Look a special-form name up in the table.
pub fn macros(name: &String) -> (r: Option<Macro>)
    ensures
        r == spec_macros(name@),
{
    if string_eq(name, &String::from_str("fn")) {
        Some(Macro::FnForm)
    } else if string_eq(name, &String::from_str("set")) {
        Some(Macro::SetForm)
    } else if string_eq(name, &String::from_str("if")) {
        Some(Macro::IfForm)
    } else if string_eq(name, &String::from_str("while")) {
        Some(Macro::WhileForm)
    } else {
        None
    }
}

/// The parameter list a `fn` declaration names: every element must be an
/// identifier, and every parameter is typed float.
pub open spec fn spec_fn_params(params: Seq<SpecParsedAst>, i: int) -> Result<
    Seq<(Seq<char>, SpecType)>,
    SpecItpError,
>
    decreases params.len() - i,
{
    if i < 0 || i >= params.len() {
        Ok(Seq::empty())
    } else {
        match params[i].kind {
            SpecParsedAstKind::Identifier(id) => match spec_fn_params(params, i + 1) {
                Ok(rest) => Ok(seq![(id.name, SpecType::Float)] + rest),
                Err(e) => Err(e),
            },
            _ => Err(
                err_at(params[i].line, params[i].column, SpecItpErrorKind::ExpectedIdentifier),
            ),
        }
    }
}

/// `(@fn name [param...] body...)`: register `name` in the current scope
/// as a not-yet-lowered function over float parameters returning float,
/// with the raw body stored for the second pass; no nodes are produced.
pub open spec fn spec_fn_macro(
    rs: Seq<SpecScopeRecord>,
    s: int,
    args: Seq<SpecParsedAst>,
    line: int,
    column: int,
) -> Result<(Seq<SpecItpAst>, Seq<SpecScopeRecord>), SpecItpError>
    decreases args, 0int,
{
    if args.len() < 2 {
        Err(
            err_at(
                line,
                column,
                SpecItpErrorKind::MacroArityError { expected: 2, got: args.len() as int },
            ),
        )
    } else {
        match args[0].kind {
            SpecParsedAstKind::Identifier(id) => match args[1].kind {
                SpecParsedAstKind::Array(params) => match spec_fn_params(params, 0) {
                    Ok(ps) => {
                        let f = SpecValue::UnItpedFunction(
                            SpecUnItpedFunction {
                                name: id.name,
                                parameters: SpecFunctionParameters {
                                    generics: Seq::empty(),
                                    parameters: ps,
                                    variadic: false,
                                },
                                body: args.skip(2),
                                return_type: SpecType::Float,
                            },
                        );
                        match spec_define(rs, s, id.name, f) {
                            Ok(rs2) => Ok((Seq::empty(), rs2)),
                            Err(e) => Err(err_at(line, column, spec_scope_err_kind(e))),
                        }
                    },
                    Err(e) => Err(e),
                },
                _ => Err(
                    err_at(args[1].line, args[1].column, SpecItpErrorKind::ExpectedArray),
                ),
            },
            _ => Err(
                err_at(args[0].line, args[0].column, SpecItpErrorKind::ExpectedIdentifier),
            ),
        }
    }
}

/// `(@set name value)`: lower `value` in the current scope to exactly one
/// node, bind `name` as an alias of that node's type (updating an
/// existing binding of any enclosing scope, else defining locally), and
/// produce one `SetVariable` node.
pub open spec fn spec_set_macro(
    rs: Seq<SpecScopeRecord>,
    s: int,
    args: Seq<SpecParsedAst>,
    line: int,
    column: int,
) -> Result<(Seq<SpecItpAst>, Seq<SpecScopeRecord>), SpecItpError>
    decreases args, 0int,
{
    if args.len() != 2 {
        Err(
            err_at(
                line,
                column,
                SpecItpErrorKind::MacroArityError { expected: 2, got: args.len() as int },
            ),
        )
    } else {
        match args[0].kind {
            SpecParsedAstKind::Identifier(id) => match spec_interpret_ast(rs, s, args[1]) {
                Ok((ns, rs1)) => if ns.len() != 1 {
                    Err(
                        err_at(
                            args[1].line,
                            args[1].column,
                            SpecItpErrorKind::SingletonExpected { got: ns.len() as int },
                        ),
                    )
                } else {
                    match spec_node_type(ns[0]) {
                        Some(t) => match spec_set_or_replace(
                            rs1,
                            s,
                            id.name,
                            SpecValue::Named(id, t),
                        ) {
                            Ok(rs2) => Ok(
                                (
                                    seq![
                                        SpecItpAst {
                                            kind: SpecItpAstKind::SetVariable {
                                                name: id,
                                                value: Box::new(ns[0]),
                                            },
                                            line: args[0].line,
                                            column: args[0].column,
                                        },
                                    ],
                                    rs2,
                                ),
                            ),
                            Err(e) => Err(
                                err_at(args[0].line, args[0].column, spec_scope_err_kind(e)),
                            ),
                        },
                        None => Err(
                            err_at(ns[0].line, ns[0].column, SpecItpErrorKind::HeterogeneousArray),
                        ),
                    }
                },
                Err(e) => Err(e),
            },
            _ => Err(
                err_at(args[0].line, args[0].column, SpecItpErrorKind::ExpectedIdentifier),
            ),
        }
    }
}

/// `(@if condition then else)`: lower the three subexpressions, each to
/// exactly one node, and produce one `Conditional` node.
pub open spec fn spec_if_macro(
    rs: Seq<SpecScopeRecord>,
    s: int,
    args: Seq<SpecParsedAst>,
    line: int,
    column: int,
) -> Result<(Seq<SpecItpAst>, Seq<SpecScopeRecord>), SpecItpError>
    decreases args, 0int,
{
    if args.len() != 3 {
        Err(
            err_at(
                line,
                column,
                SpecItpErrorKind::MacroArityError { expected: 3, got: args.len() as int },
            ),
        )
    } else {
        match spec_interpret_ast(rs, s, args[0]) {
            Err(e) => Err(e),
            Ok((cs, rs1)) => match spec_interpret_ast(rs1, s, args[1]) {
                Err(e) => Err(e),
                Ok((ts, rs2)) => match spec_interpret_ast(rs2, s, args[2]) {
                    Err(e) => Err(e),
                    Ok((es, rs3)) => if cs.len() != 1 {
                        Err(
                            err_at(
                                args[0].line,
                                args[0].column,
                                SpecItpErrorKind::SingletonExpected { got: cs.len() as int },
                            ),
                        )
                    } else if ts.len() != 1 {
                        Err(
                            err_at(
                                args[1].line,
                                args[1].column,
                                SpecItpErrorKind::SingletonExpected { got: ts.len() as int },
                            ),
                        )
                    } else if es.len() != 1 {
                        Err(
                            err_at(
                                args[2].line,
                                args[2].column,
                                SpecItpErrorKind::SingletonExpected { got: es.len() as int },
                            ),
                        )
                    } else {
                        Ok(
                            (
                                seq![
                                    SpecItpAst {
                                        kind: SpecItpAstKind::Conditional {
                                            condition: Box::new(cs[0]),
                                            then: Box::new(ts[0]),
                                            else_: Box::new(es[0]),
                                        },
                                        line: args[0].line,
                                        column: args[0].column,
                                    },
                                ],
                                rs3,
                            ),
                        )
                    },
                },
            },
        }
    }
}

/// `(@while condition body)`: lower the two subexpressions, each to
/// exactly one node, and produce one `Loop` node.
pub open spec fn spec_while_macro(
    rs: Seq<SpecScopeRecord>,
    s: int,
    args: Seq<SpecParsedAst>,
    line: int,
    column: int,
) -> Result<(Seq<SpecItpAst>, Seq<SpecScopeRecord>), SpecItpError>
    decreases args, 0int,
{
    if args.len() != 2 {
        Err(
            err_at(
                line,
                column,
                SpecItpErrorKind::MacroArityError { expected: 2, got: args.len() as int },
            ),
        )
    } else {
        match spec_interpret_ast(rs, s, args[0]) {
            Err(e) => Err(e),
            Ok((cs, rs1)) => match spec_interpret_ast(rs1, s, args[1]) {
                Err(e) => Err(e),
                Ok((bs, rs2)) => if cs.len() != 1 {
                    Err(
                        err_at(
                            args[0].line,
                            args[0].column,
                            SpecItpErrorKind::SingletonExpected { got: cs.len() as int },
                        ),
                    )
                } else if bs.len() != 1 {
                    Err(
                        err_at(
                            args[1].line,
                            args[1].column,
                            SpecItpErrorKind::SingletonExpected { got: bs.len() as int },
                        ),
                    )
                } else {
                    Ok(
                        (
                            seq![
                                SpecItpAst {
                                    kind: SpecItpAstKind::Loop {
                                        condition: Box::new(cs[0]),
                                        body: Box::new(bs[0]),
                                    },
                                    line: args[0].line,
                                    column: args[0].column,
                                },
                            ],
                            rs2,
                        ),
                    )
                },
            },
        }
    }
}

/// Expand `(@fn name [param...] body...)`: register the declaration in
/// scope `s`; no nodes are produced.
pub fn fn_macro(
    itpr: &mut Interpreter,
    args: &Vec<ParsedAst>,
    s: usize,
    line: usize,
    column: usize,
) -> (r: Result<Vec<ItpAst>, ItpError>)
    requires
        old(itpr).inv(),
        s < old(itpr)@.len(),
    ensures
        match r {
            Ok(nodes) => spec_fn_macro(
                old(itpr)@,
                s as int,
                past_list_view(args@),
                line as int,
                column as int,
            ) == Ok::<_, SpecItpError>((itp_list_view(nodes@), final(itpr)@)) && final(itpr).inv()
                && old(itpr)@.len() <= final(itpr)@.len(),
            Err(e) => spec_fn_macro(
                old(itpr)@,
                s as int,
                past_list_view(args@),
                line as int,
                column as int,
            ) == Err::<(Seq<SpecItpAst>, Seq<SpecScopeRecord>), _>(e@),
        },
    decreases *args, 0int,
{
    let ghost av = past_list_view(args@);
    proof {
        lemma_past_list_view_len(args@);
    }
    if args.len() < 2 {
        return Err(
            ItpError {
                line,
                column,
                kind: ItpErrorKind::MacroArityError { expected: 2, got: args.len() },
            },
        );
    }
    proof {
        lemma_past_list_view_index(args@, 0);
        lemma_past_list_view_index(args@, 1);
    }
    let name = match args[0].as_identifier() {
        Ok(id) => id,
        Err(e) => {
            return Err(e);
        },
    };
    let params_nodes = match args[1].as_array() {
        Ok(v) => v,
        Err(e) => {
            return Err(e);
        },
    };
    let ghost pv = past_list_view(params_nodes@);
    proof {
        lemma_past_list_view_len(params_nodes@);
    }
    let ghost namev = name@;
    let mut parameters: Vec<(String, ItpTypeValue)> = Vec::new();
    let mut i: usize = 0;
    while i < params_nodes.len()
        invariant
            i <= params_nodes.len(),
            itpr@ == old(itpr)@,
            itpr.inv(),
            s < itpr@.len(),
            av == past_list_view(args@),
            av.len() == args@.len(),
            args@.len() >= 2,
            namev == name@,
            av[0].kind == SpecParsedAstKind::Identifier(namev),
            av[1].kind == SpecParsedAstKind::Array(pv),
            pv == past_list_view(params_nodes@),
            pv.len() == params_nodes@.len(),
            params_view(parameters@).len() == i,
            parameters@.len() == i,
            (match spec_fn_params(pv, i as int) {
                Ok(rest) => spec_fn_params(pv, 0) == Ok::<_, SpecItpError>(
                    params_view(parameters@) + rest,
                ),
                Err(e) => spec_fn_params(pv, 0) == Err::<Seq<(Seq<char>, SpecType)>, _>(e),
            }),
        decreases params_nodes.len() - i,
    {
        let pn = &params_nodes[i];
        proof {
            lemma_past_list_view_index(params_nodes@, i as int);
        }
        match pn.as_identifier() {
            Ok(id) => {
                let ghost ppre = parameters@;
                let ghost idv = id@;
                let pname = id.name;
                let ghost pnamev = pname@;
                parameters.push((pname, ItpTypeValue::Float));
                proof {
                    assert(idv.name == pnamev);
                    assert(parameters@[parameters@.len() - 1].0@ == pnamev);
                    assert(type_view(parameters@[parameters@.len() - 1].1) == SpecType::Float);
                    assert(parameters@.drop_last() =~= ppre);
                    crate::interpreter::value::lemma_params_view_len(parameters@);
                    assert(params_view(parameters@) == params_view(ppre).push(
                        (pnamev, SpecType::Float),
                    ));
                    match spec_fn_params(pv, i + 1) {
                        Ok(rest) => {
                            assert(params_view(ppre) + (seq![(idv.name, SpecType::Float)] + rest)
                                =~= params_view(parameters@) + rest);
                        },
                        Err(_) => {},
                    }
                }
            },
            Err(e) => {
                return Err(e);
            },
        }
        i = i + 1;
    }
    proof {
        assert(spec_fn_params(pv, i as int) == Ok::<_, SpecItpError>(
            Seq::<(Seq<char>, SpecType)>::empty(),
        ));
        assert(params_view(parameters@) + Seq::<(Seq<char>, SpecType)>::empty() =~= params_view(
            parameters@,
        ));
    }
    let mut body: Vec<ParsedAst> = Vec::new();
    let mut j: usize = 2;
    while j < args.len()
        invariant
            2 <= j <= args@.len(),
            itpr@ == old(itpr)@,
            itpr.inv(),
            s < itpr@.len(),
            av == past_list_view(args@),
            av.len() == args@.len(),
            namev == name@,
            av[0].kind == SpecParsedAstKind::Identifier(namev),
            av[1].kind == SpecParsedAstKind::Array(pv),
            pv == past_list_view(params_nodes@),
            (match spec_fn_params(pv, 0) {
                Ok(ps) => ps == params_view(parameters@),
                Err(_) => false,
            }),
            body@.len() == j - 2,
            forall|k: int|
                0 <= k < j - 2 ==> crate::parser::ast::past_view(body@[k])
                    == crate::parser::ast::past_view(args@[k + 2]),
        decreases args.len() - j,
    {
        body.push(args[j].duplicate());
        j = j + 1;
    }
    proof {
        lemma_past_list_view_len(body@);
        assert forall|k: int| 0 <= k < body@.len() implies past_list_view(body@)[k] == av.skip(
            2,
        )[k] by {
            lemma_past_list_view_index(body@, k);
            lemma_past_list_view_index(args@, k + 2);
        }
        assert(past_list_view(body@) =~= av.skip(2));
    }
    let function = ItpValue::UnItpedFunction(
        UnItpedFunctionValue {
            name: name.name.clone(),
            parameters: ItpFunctionParameters {
                generics: Vec::new(),
                parameters,
                variadic: false,
            },
            body,
            return_type: ItpTypeValue::Float,
        },
    );
    proof {
        assert(Seq::<String>::empty().map_values(|g: String| g@) =~= Seq::<Seq<char>>::empty());
    }
    match itpr.scope.set(s, name.name, function) {
        Ok(()) => {
            let r: Vec<ItpAst> = Vec::new();
            proof {
                assert(itp_list_view(r@) =~= Seq::<SpecItpAst>::empty());
            }
            Ok(r)
        },
        Err(e) => Err(ItpError { line, column, kind: scope_err_kind(e) }),
    }
}

/// Expand `(@set name value)` in scope `s`, producing one `SetVariable`
/// node.
pub fn set_macro(
    itpr: &mut Interpreter,
    args: &Vec<ParsedAst>,
    s: usize,
    line: usize,
    column: usize,
) -> (r: Result<Vec<ItpAst>, ItpError>)
    requires
        old(itpr).inv(),
        s < old(itpr)@.len(),
    ensures
        match r {
            Ok(nodes) => spec_set_macro(
                old(itpr)@,
                s as int,
                past_list_view(args@),
                line as int,
                column as int,
            ) == Ok::<_, SpecItpError>((itp_list_view(nodes@), final(itpr)@)) && final(itpr).inv()
                && old(itpr)@.len() <= final(itpr)@.len(),
            Err(e) => spec_set_macro(
                old(itpr)@,
                s as int,
                past_list_view(args@),
                line as int,
                column as int,
            ) == Err::<(Seq<SpecItpAst>, Seq<SpecScopeRecord>), _>(e@),
        },
    decreases *args, 0int,
{
    let ghost av = past_list_view(args@);
    proof {
        lemma_past_list_view_len(args@);
    }
    if args.len() != 2 {
        return Err(
            ItpError {
                line,
                column,
                kind: ItpErrorKind::MacroArityError { expected: 2, got: args.len() },
            },
        );
    }
    proof {
        lemma_past_list_view_index(args@, 0);
        lemma_past_list_view_index(args@, 1);
    }
    let name_ast = &args[0];
    let name = match name_ast.as_identifier() {
        Ok(id) => id,
        Err(e) => {
            return Err(e);
        },
    };
    let node = &args[1];
    proof {
        assert(decreases_to!(*args, 0int => *node, 0int));
    }
    let mut value = match itpr.interpret_ast(node, s) {
        Ok(v) => v,
        Err(e) => {
            return Err(e);
        },
    };
    let ghost vv = itp_list_view(value@);
    proof {
        crate::interpreter::ast::lemma_itp_list_view_len(value@);
    }
    if value.len() != 1 {
        return Err(node.error(ItpErrorKind::SingletonExpected { got: value.len() }));
    }
    proof {
        crate::interpreter::ast::lemma_itp_list_view_index(value@, 0);
    }
    let t = match value[0].get_type() {
        Some(t) => t,
        None => {
            return Err(value[0].error(ItpErrorKind::HeterogeneousArray));
        },
    };
    match itpr.scope.set_or_replace(s, name.name.clone(), ItpValue::Named(name.duplicate(), t)) {
        Err(e) => Err(
            ItpError { line: name_ast.line, column: name_ast.column, kind: scope_err_kind(e) },
        ),
        Ok(()) => {
            let v0 = match value.pop() {
                Some(x) => x,
                None => {
                    proof {
                        assert(false);
                    }
                    return Err(node.error(ItpErrorKind::SingletonExpected { got: 0 }));
                },
            };
            Ok(
                singleton(
                    ItpAst {
                        kind: ItpAstKind::SetVariable { name, value: Box::new(v0) },
                        line: name_ast.line,
                        column: name_ast.column,
                    },
                ),
            )
        },
    }
}

/// Expand `(@if condition then else)` in scope `s`, producing one
/// `Conditional` node.
pub fn if_macro(
    itpr: &mut Interpreter,
    args: &Vec<ParsedAst>,
    s: usize,
    line: usize,
    column: usize,
) -> (r: Result<Vec<ItpAst>, ItpError>)
    requires
        old(itpr).inv(),
        s < old(itpr)@.len(),
    ensures
        match r {
            Ok(nodes) => spec_if_macro(
                old(itpr)@,
                s as int,
                past_list_view(args@),
                line as int,
                column as int,
            ) == Ok::<_, SpecItpError>((itp_list_view(nodes@), final(itpr)@)) && final(itpr).inv()
                && old(itpr)@.len() <= final(itpr)@.len(),
            Err(e) => spec_if_macro(
                old(itpr)@,
                s as int,
                past_list_view(args@),
                line as int,
                column as int,
            ) == Err::<(Seq<SpecItpAst>, Seq<SpecScopeRecord>), _>(e@),
        },
    decreases *args, 0int,
{
    let ghost av = past_list_view(args@);
    proof {
        lemma_past_list_view_len(args@);
    }
    if args.len() != 3 {
        return Err(
            ItpError {
                line,
                column,
                kind: ItpErrorKind::MacroArityError { expected: 3, got: args.len() },
            },
        );
    }
    proof {
        lemma_past_list_view_index(args@, 0);
        lemma_past_list_view_index(args@, 1);
        lemma_past_list_view_index(args@, 2);
    }
    let cond_node = &args[0];
    let then_node = &args[1];
    let else_node = &args[2];
    proof {
        assert(decreases_to!(*args, 0int => *cond_node, 0int));
        assert(decreases_to!(*args, 0int => *then_node, 0int));
        assert(decreases_to!(*args, 0int => *else_node, 0int));
    }
    let mut cs = match itpr.interpret_ast(cond_node, s) {
        Ok(v) => v,
        Err(e) => {
            return Err(e);
        },
    };
    let mut ts = match itpr.interpret_ast(then_node, s) {
        Ok(v) => v,
        Err(e) => {
            return Err(e);
        },
    };
    let mut es = match itpr.interpret_ast(else_node, s) {
        Ok(v) => v,
        Err(e) => {
            return Err(e);
        },
    };
    proof {
        crate::interpreter::ast::lemma_itp_list_view_len(cs@);
        crate::interpreter::ast::lemma_itp_list_view_len(ts@);
        crate::interpreter::ast::lemma_itp_list_view_len(es@);
    }
    if cs.len() != 1 {
        return Err(cond_node.error(ItpErrorKind::SingletonExpected { got: cs.len() }));
    }
    if ts.len() != 1 {
        return Err(then_node.error(ItpErrorKind::SingletonExpected { got: ts.len() }));
    }
    if es.len() != 1 {
        return Err(else_node.error(ItpErrorKind::SingletonExpected { got: es.len() }));
    }
    proof {
        crate::interpreter::ast::lemma_itp_list_view_index(cs@, 0);
        crate::interpreter::ast::lemma_itp_list_view_index(ts@, 0);
        crate::interpreter::ast::lemma_itp_list_view_index(es@, 0);
    }
    let c0 = match cs.pop() {
        Some(x) => x,
        None => {
            proof {
                assert(false);
            }
            return Err(cond_node.error(ItpErrorKind::SingletonExpected { got: 0 }));
        },
    };
    let t0 = match ts.pop() {
        Some(x) => x,
        None => {
            proof {
                assert(false);
            }
            return Err(then_node.error(ItpErrorKind::SingletonExpected { got: 0 }));
        },
    };
    let e0 = match es.pop() {
        Some(x) => x,
        None => {
            proof {
                assert(false);
            }
            return Err(else_node.error(ItpErrorKind::SingletonExpected { got: 0 }));
        },
    };
    Ok(
        singleton(
            ItpAst {
                kind: ItpAstKind::Conditional {
                    condition: Box::new(c0),
                    then: Box::new(t0),
                    else_: Box::new(e0),
                },
                line: cond_node.line,
                column: cond_node.column,
            },
        ),
    )
}

/// Expand `(@while condition body)` in scope `s`, producing one `Loop`
/// node.
pub fn while_macro(
    itpr: &mut Interpreter,
    args: &Vec<ParsedAst>,
    s: usize,
    line: usize,
    column: usize,
) -> (r: Result<Vec<ItpAst>, ItpError>)
    requires
        old(itpr).inv(),
        s < old(itpr)@.len(),
    ensures
        match r {
            Ok(nodes) => spec_while_macro(
                old(itpr)@,
                s as int,
                past_list_view(args@),
                line as int,
                column as int,
            ) == Ok::<_, SpecItpError>((itp_list_view(nodes@), final(itpr)@)) && final(itpr).inv()
                && old(itpr)@.len() <= final(itpr)@.len(),
            Err(e) => spec_while_macro(
                old(itpr)@,
                s as int,
                past_list_view(args@),
                line as int,
                column as int,
            ) == Err::<(Seq<SpecItpAst>, Seq<SpecScopeRecord>), _>(e@),
        },
    decreases *args, 0int,
{
    let ghost av = past_list_view(args@);
    proof {
        lemma_past_list_view_len(args@);
    }
    if args.len() != 2 {
        return Err(
            ItpError {
                line,
                column,
                kind: ItpErrorKind::MacroArityError { expected: 2, got: args.len() },
            },
        );
    }
    proof {
        lemma_past_list_view_index(args@, 0);
        lemma_past_list_view_index(args@, 1);
    }
    let cond_node = &args[0];
    let body_node = &args[1];
    proof {
        assert(decreases_to!(*args, 0int => *cond_node, 0int));
        assert(decreases_to!(*args, 0int => *body_node, 0int));
    }
    let mut cs = match itpr.interpret_ast(cond_node, s) {
        Ok(v) => v,
        Err(e) => {
            return Err(e);
        },
    };
    let mut bs = match itpr.interpret_ast(body_node, s) {
        Ok(v) => v,
        Err(e) => {
            return Err(e);
        },
    };
    proof {
        crate::interpreter::ast::lemma_itp_list_view_len(cs@);
        crate::interpreter::ast::lemma_itp_list_view_len(bs@);
    }
    if cs.len() != 1 {
        return Err(cond_node.error(ItpErrorKind::SingletonExpected { got: cs.len() }));
    }
    if bs.len() != 1 {
        return Err(body_node.error(ItpErrorKind::SingletonExpected { got: bs.len() }));
    }
    proof {
        crate::interpreter::ast::lemma_itp_list_view_index(cs@, 0);
        crate::interpreter::ast::lemma_itp_list_view_index(bs@, 0);
    }
    let c0 = match cs.pop() {
        Some(x) => x,
        None => {
            proof {
                assert(false);
            }
            return Err(cond_node.error(ItpErrorKind::SingletonExpected { got: 0 }));
        },
    };
    let b0 = match bs.pop() {
        Some(x) => x,
        None => {
            proof {
                assert(false);
            }
            return Err(body_node.error(ItpErrorKind::SingletonExpected { got: 0 }));
        },
    };
    Ok(
        singleton(
            ItpAst {
                kind: ItpAstKind::Loop { condition: Box::new(c0), body: Box::new(b0) },
                line: cond_node.line,
                column: cond_node.column,
            },
        ),
    )
}

} // verus!
