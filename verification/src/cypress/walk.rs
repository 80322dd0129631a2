//! The walk of the Cypress rules over a program, as a function of its
//! state: the reports so far, the scopes of bound names and the names that
//! hold data selectors, and, between statements, the command of the
//! statement before.
use vstd::prelude::*;
use super::ast::{
    Expr, Arg, ArrayElem, Property, PropKey, Pattern, Param, Params, Function, ArrowFunction, Class,
    ClassElem, Declarator, VarDecl, Decl, DefaultExport, ForInit, SwitchCase, Stmt, CallExpr, inner,
};
use super::checks::{Diagnostic, ValueKind, ParentKind, call_reports, report_at, data_node_expr};
use super::scanner::{assigns_command, statement_command};

verus! {

/// The walk's state as values: the reports so far, the scopes of bound
/// names (innermost last), and the names that hold data selectors.
pub struct WalkState {
    pub diags: Seq<Diagnostic>,
    pub scopes: Seq<Seq<(Seq<char>, ValueKind)>>,
    pub vars: Seq<Seq<char>>,
}

/// The state the walk of a program starts from: no reports, one empty
/// scope, no data selector names.
pub open spec fn initial_state() -> WalkState {
    WalkState { diags: Seq::empty(), scopes: seq![Seq::empty()], vars: Seq::empty() }
}

/// The reports on a program: its statements walked from the initial state,
/// with no command before the first.
pub open spec fn program_reports(t: Seq<char>, x: Seq<String>, program: Seq<Stmt>) -> Seq<Diagnostic> {
    list_w(t, x, initial_state(), program, None).0.diags
}

/// A new innermost scope.
pub open spec fn push_scope(s: WalkState) -> WalkState {
    WalkState { scopes: s.scopes.push(Seq::empty()), ..s }
}

/// Without the innermost scope, if there is one.
pub open spec fn pop_scope(s: WalkState) -> WalkState {
    if s.scopes.len() == 0 {
        s
    } else {
        WalkState { scopes: s.scopes.drop_last(), ..s }
    }
}

/// `name` bound to `v` in the innermost scope, if there is one.
pub open spec fn bind(s: WalkState, name: Seq<char>, v: ValueKind) -> WalkState {
    if s.scopes.len() == 0 {
        s
    } else {
        WalkState { scopes: s.scopes.update(s.scopes.len() - 1, s.scopes.last().push((name, v))), ..s }
    }
}

/// A name bound to something other than a number, when there is one.
pub open spec fn bind_name(s: WalkState, name: Option<String>) -> WalkState {
    match name {
        Some(n) => bind(s, n@, ValueKind::Other),
        None => s,
    }
}

/// Whether an expression (inside any wrappers) is a number literal.
pub open spec fn numeric(e: Expr) -> bool {
    inner(e) matches Expr::NumericLiteral
}

/// The names of a pattern bound to `v`; a default that is a number makes
/// the names it covers numbers.
pub open spec fn bind_pattern(s: WalkState, p: Pattern, v: ValueKind) -> WalkState
    decreases p,
{
    match p {
        Pattern::Ident(name) => bind(s, name@, v),
        Pattern::Object { properties, rest } => {
            let s1 = bind_patterns(s, properties@, v);
            match rest {
                Some(r) => bind_pattern(s1, *r, v),
                None => s1,
            }
        },
        Pattern::Array { elements, rest } => {
            let s1 = bind_opt_patterns(s, elements@, v);
            match rest {
                Some(r) => bind_pattern(s1, *r, v),
                None => s1,
            }
        },
        Pattern::Assign { left, right } => bind_pattern(s, *left, if numeric(right) { ValueKind::Number } else { v }),
    }
}

/// The names of patterns bound to `v`, in order.
pub open spec fn bind_patterns(s: WalkState, ps: Seq<Pattern>, v: ValueKind) -> WalkState
    decreases ps,
{
    if ps.len() == 0 {
        s
    } else {
        bind_pattern(bind_patterns(s, ps.drop_last(), v), ps.last(), v)
    }
}

/// The names of the patterns present bound to `v`, in order.
pub open spec fn bind_opt_patterns(s: WalkState, ps: Seq<Option<Pattern>>, v: ValueKind) -> WalkState
    decreases ps,
{
    if ps.len() == 0 {
        s
    } else {
        let s1 = bind_opt_patterns(s, ps.drop_last(), v);
        match ps.last() {
            Some(p) => bind_pattern(s1, p, v),
            None => s1,
        }
    }
}

/// The value a parameter's names get: a number for a number default.
pub open spec fn param_value(p: Param) -> ValueKind {
    match p.initializer {
        Some(init) => if numeric(init) { ValueKind::Number } else { ValueKind::Other },
        None => ValueKind::Other,
    }
}

/// The names of parameters bound, in order.
pub open spec fn bind_param_items(s: WalkState, items: Seq<Param>) -> WalkState
    decreases items,
{
    if items.len() == 0 {
        s
    } else {
        bind_pattern(bind_param_items(s, items.drop_last()), items.last().pattern, param_value(items.last()))
    }
}

/// A function's parameters bound, then its rest parameter.
pub open spec fn bind_params(s: WalkState, params: Params) -> WalkState {
    let s1 = bind_param_items(s, params.items@);
    match params.rest {
        Some(r) => bind_pattern(s1, r, ValueKind::Other),
        None => s1,
    }
}

/// The reports of the rules on a call added.
pub open spec fn check_call(t: Seq<char>, x: Seq<String>, s: WalkState, c: CallExpr, parent: ParentKind, prev: Option<Seq<char>>) -> WalkState {
    WalkState { diags: s.diags + call_reports(t, c, parent, prev, s.scopes, s.vars, x), ..s }
}

/// The walk over an expression.
pub open spec fn expr_w(t: Seq<char>, x: Seq<String>, s: WalkState, e: Expr, parent: ParentKind, prev: Option<Seq<char>>) -> WalkState
    decreases e,
{
    let o = ParentKind::Other;
    match e {
        Expr::Call(c) => call_w(t, x, s, *c, parent, prev),
        Expr::StaticMember { object, .. } => expr_w(t, x, s, *object, ParentKind::MemberObject, prev),
        Expr::ComputedMember { object, expression } => expr_w(t, x, expr_w(t, x, s, *object, ParentKind::MemberObject, prev), *expression, o, prev),
        Expr::Chain { element } => chain_w(t, x, s, *element, parent, prev),
        Expr::Wrapped { expression } => expr_w(t, x, s, *expression, parent, prev),
        Expr::Await { argument } => expr_w(t, x, s, *argument, o, prev),
        Expr::Array { elements } => elems_w(t, x, s, elements@, prev),
        Expr::Object { properties } => props_w(t, x, s, properties@, true, prev),
        Expr::Arrow(f) => arrow_w(t, x, s, *f),
        Expr::Function(f) => function_w(t, x, s, *f),
        Expr::Class(c) => class_w(t, x, s, *c, prev),
        Expr::Assignment { right } => expr_w(t, x, s, *right, o, prev),
        Expr::Conditional { test, consequent, alternate } => expr_w(t, x, expr_w(t, x, expr_w(t, x, s, *test, o, prev), *consequent, o, prev), *alternate, o, prev),
        Expr::Binary { left, right } => expr_w(t, x, expr_w(t, x, s, *left, o, prev), *right, o, prev),
        Expr::Sequence { expressions } => exprs_w(t, x, s, expressions@, prev),
        Expr::Unary { argument } => expr_w(t, x, s, *argument, o, prev),
        Expr::Yield { argument } => match argument {
            Some(a) => expr_w(t, x, s, *a, o, prev),
            None => s,
        },
        Expr::TaggedTemplate { tag, expressions } => exprs_w(t, x, expr_w(t, x, s, *tag, o, prev), expressions@, prev),
        Expr::TemplateLiteral { expressions, .. } => exprs_w(t, x, s, expressions@, prev),
        Expr::Import { source, options } => {
            let s1 = expr_w(t, x, s, *source, o, prev);
            match options {
                Some(op) => expr_w(t, x, s1, *op, o, prev),
                None => s1,
            }
        },
        _ => s,
    }
}

/// The walk over a call: its rules, its callee, then its arguments.
pub open spec fn call_w(t: Seq<char>, x: Seq<String>, s: WalkState, c: CallExpr, parent: ParentKind, prev: Option<Seq<char>>) -> WalkState
    decreases c,
{
    args_w(t, x, expr_w(t, x, check_call(t, x, s, c, parent, prev), c.callee, ParentKind::Other, prev), c.arguments@, prev)
}

/// The walk over the element of an optional chain.
pub open spec fn chain_w(t: Seq<char>, x: Seq<String>, s: WalkState, e: Expr, parent: ParentKind, prev: Option<Seq<char>>) -> WalkState
    decreases e,
{
    match e {
        Expr::Call(c) => call_w(t, x, s, *c, parent, prev),
        Expr::StaticMember { object, .. } => expr_w(t, x, s, *object, ParentKind::MemberObject, prev),
        Expr::ComputedMember { object, expression } => expr_w(t, x, expr_w(t, x, s, *object, ParentKind::MemberObject, prev), *expression, ParentKind::Other, prev),
        Expr::Wrapped { expression } => expr_w(t, x, s, *expression, parent, prev),
        Expr::PrivateField { object } => expr_w(t, x, s, *object, ParentKind::MemberObject, prev),
        _ => s,
    }
}

/// The walk over an array element: spreads, calls, members, functions,
/// the values of object members, nested arrays and conditionals.
pub open spec fn elem_w(t: Seq<char>, x: Seq<String>, s: WalkState, a: ArrayElem, prev: Option<Seq<char>>) -> WalkState
    decreases a,
{
    match a {
        ArrayElem::Spread(e) => expr_w(t, x, s, e, ParentKind::Other, prev),
        ArrayElem::Expr(e) => match e {
            Expr::Call(c) => call_w(t, x, s, *c, ParentKind::Other, prev),
            Expr::StaticMember { object, .. } => expr_w(t, x, s, *object, ParentKind::MemberObject, prev),
            Expr::ComputedMember { object, expression } => expr_w(t, x, expr_w(t, x, s, *object, ParentKind::MemberObject, prev), *expression, ParentKind::Other, prev),
            Expr::Arrow(f) => arrow_w(t, x, s, *f),
            Expr::Function(f) => function_w(t, x, s, *f),
            Expr::Object { properties } => props_w(t, x, s, properties@, false, prev),
            Expr::Array { elements } => elems_w(t, x, s, elements@, prev),
            Expr::Conditional { test, consequent, alternate } => {
                let o = ParentKind::Other;
                expr_w(t, x, expr_w(t, x, expr_w(t, x, s, *test, o, prev), *consequent, o, prev), *alternate, o, prev)
            },
            _ => s,
        },
        ArrayElem::Elision => s,
    }
}

/// The walk over array elements, in order.
pub open spec fn elems_w(t: Seq<char>, x: Seq<String>, s: WalkState, es: Seq<ArrayElem>, prev: Option<Seq<char>>) -> WalkState
    decreases es,
{
    if es.len() == 0 {
        s
    } else {
        elem_w(t, x, elems_w(t, x, s, es.drop_last(), prev), es.last(), prev)
    }
}

/// The walk over a call argument.
pub open spec fn arg_w(t: Seq<char>, x: Seq<String>, s: WalkState, a: Arg, prev: Option<Seq<char>>) -> WalkState
    decreases a,
{
    let o = ParentKind::Other;
    match a {
        Arg::Spread(e) => expr_w(t, x, s, e, o, prev),
        Arg::Expr(e) => match e {
            Expr::Call(c) => call_w(t, x, s, *c, o, prev),
            Expr::StaticMember { object, .. } => expr_w(t, x, s, *object, ParentKind::MemberObject, prev),
            Expr::ComputedMember { object, expression } => expr_w(t, x, expr_w(t, x, s, *object, ParentKind::MemberObject, prev), *expression, o, prev),
            Expr::Arrow(f) => arrow_w(t, x, s, *f),
            Expr::Function(f) => function_w(t, x, s, *f),
            Expr::Object { properties } => props_w(t, x, s, properties@, true, prev),
            Expr::Array { elements } => elems_w(t, x, s, elements@, prev),
            Expr::Conditional { test, consequent, alternate } => expr_w(t, x, expr_w(t, x, expr_w(t, x, s, *test, o, prev), *consequent, o, prev), *alternate, o, prev),
            Expr::Await { argument } => expr_w(t, x, s, *argument, o, prev),
            Expr::Sequence { expressions } => exprs_w(t, x, s, expressions@, prev),
            Expr::TaggedTemplate { tag, expressions } => exprs_w(t, x, expr_w(t, x, s, *tag, o, prev), expressions@, prev),
            Expr::TemplateLiteral { expressions, .. } => exprs_w(t, x, s, expressions@, prev),
            _ => s,
        },
    }
}

/// The walk over call arguments, in order.
pub open spec fn args_w(t: Seq<char>, x: Seq<String>, s: WalkState, args: Seq<Arg>, prev: Option<Seq<char>>) -> WalkState
    decreases args,
{
    if args.len() == 0 {
        s
    } else {
        arg_w(t, x, args_w(t, x, s, args.drop_last(), prev), args.last(), prev)
    }
}

/// The walk over a computed member key.
pub open spec fn key_w(t: Seq<char>, x: Seq<String>, s: WalkState, k: PropKey, prev: Option<Seq<char>>) -> WalkState
    decreases k,
{
    match k {
        PropKey::Expr(e) => match e {
            Expr::Call(c) => call_w(t, x, s, *c, ParentKind::Other, prev),
            Expr::StaticMember { object, .. } => expr_w(t, x, s, *object, ParentKind::MemberObject, prev),
            Expr::ComputedMember { object, expression } => expr_w(t, x, expr_w(t, x, s, *object, ParentKind::MemberObject, prev), *expression, ParentKind::Other, prev),
            Expr::TemplateLiteral { expressions, .. } => exprs_w(t, x, s, expressions@, prev),
            _ => s,
        },
        PropKey::Static(_) => s,
    }
}

/// The walk over an object member: its computed key and its spread when
/// `full`, and its value.
pub open spec fn prop_w(t: Seq<char>, x: Seq<String>, s: WalkState, p: Property, full: bool, prev: Option<Seq<char>>) -> WalkState
    decreases p,
{
    match p {
        Property::Property { key, computed, value } => expr_w(t, x, if full && computed { key_w(t, x, s, key, prev) } else { s }, value, ParentKind::Other, prev),
        Property::Spread(a) => if full { expr_w(t, x, s, a, ParentKind::Other, prev) } else { s },
    }
}

/// The walk over object members, in order.
pub open spec fn props_w(t: Seq<char>, x: Seq<String>, s: WalkState, ps: Seq<Property>, full: bool, prev: Option<Seq<char>>) -> WalkState
    decreases ps,
{
    if ps.len() == 0 {
        s
    } else {
        prop_w(t, x, props_w(t, x, s, ps.drop_last(), full, prev), ps.last(), full, prev)
    }
}

/// The walk over expressions, in order.
pub open spec fn exprs_w(t: Seq<char>, x: Seq<String>, s: WalkState, es: Seq<Expr>, prev: Option<Seq<char>>) -> WalkState
    decreases es,
{
    if es.len() == 0 {
        s
    } else {
        expr_w(t, x, exprs_w(t, x, s, es.drop_last(), prev), es.last(), ParentKind::Other, prev)
    }
}

/// The walk over a function: a scope of its own with its parameters, and
/// its body walked afresh.
pub open spec fn function_w(t: Seq<char>, x: Seq<String>, s: WalkState, f: Function) -> WalkState
    decreases f,
{
    let s1 = bind_params(push_scope(s), f.params);
    pop_scope(
        match f.body {
            Some(b) => list_w(t, x, s1, b@, None).0,
            None => s1,
        },
    )
}

/// The walk over an arrow function, as over a function.
pub open spec fn arrow_w(t: Seq<char>, x: Seq<String>, s: WalkState, f: ArrowFunction) -> WalkState
    decreases f,
{
    pop_scope(list_w(t, x, bind_params(push_scope(s), f.params), f.body@, None).0)
}

/// The walk over a class: its superclass, then its elements.
pub open spec fn class_w(t: Seq<char>, x: Seq<String>, s: WalkState, c: Class, prev: Option<Seq<char>>) -> WalkState
    decreases c,
{
    class_elems_w(t, x, match c.super_class {
        Some(e) => expr_w(t, x, s, e, ParentKind::Other, prev),
        None => s,
    }, c.elements@, prev)
}

/// The walk over class elements, in order; a static block is walked in the
/// enclosing scope.
pub open spec fn class_elems_w(t: Seq<char>, x: Seq<String>, s: WalkState, es: Seq<ClassElem>, prev: Option<Seq<char>>) -> WalkState
    decreases es,
{
    if es.len() == 0 {
        s
    } else {
        let s1 = class_elems_w(t, x, s, es.drop_last(), prev);
        match es.last() {
            ClassElem::StaticBlock(b) => list_w(t, x, s1, b@, None).0,
            ClassElem::Method(f) => function_w(t, x, s1, f),
            ClassElem::Property(Some(v)) => expr_w(t, x, s1, v, ParentKind::Other, prev),
            ClassElem::Accessor(Some(v)) => expr_w(t, x, s1, v, ParentKind::Other, prev),
            _ => s1,
        }
    }
}

/// The walk over a declaration: a report when an initializer is a Cypress
/// command chain, then each declarator.
pub open spec fn var_w(t: Seq<char>, x: Seq<String>, s: WalkState, d: VarDecl, prev: Option<Seq<char>>) -> WalkState
    decreases d,
{
    let s1 = if exists|i: int| 0 <= i < d.declarations@.len() && assigns_command((#[trigger] d.declarations@[i]).init) {
        WalkState { diags: s.diags.push(report_at(t, "no-assigning-return-values", d.span)), ..s }
    } else {
        s
    };
    declarators_w(t, x, s1, d.declarations@, prev)
}

/// The walk over declarators, in order: a name bound to a data selector is
/// remembered, the names are bound (numbers for a number initializer), and
/// the initializer is walked.
pub open spec fn declarators_w(t: Seq<char>, x: Seq<String>, s: WalkState, ds: Seq<Declarator>, prev: Option<Seq<char>>) -> WalkState
    decreases ds,
{
    if ds.len() == 0 {
        s
    } else {
        let s1 = declarators_w(t, x, s, ds.drop_last(), prev);
        let d = ds.last();
        match d.init {
            Some(init) => {
                let s2 = match d.id {
                    Pattern::Ident(name) => if data_node_expr(init, s1.vars) {
                        WalkState { vars: s1.vars.push(name@), ..s1 }
                    } else {
                        s1
                    },
                    _ => s1,
                };
                expr_w(t, x, bind_pattern(s2, d.id, if numeric(init) { ValueKind::Number } else { ValueKind::Other }), init, ParentKind::Other, prev)
            },
            None => bind_pattern(s1, d.id, ValueKind::Other),
        }
    }
}

/// The names of declarators bound to something other than a number.
pub open spec fn bind_declarators(s: WalkState, ds: Seq<Declarator>) -> WalkState
    decreases ds,
{
    if ds.len() == 0 {
        s
    } else {
        bind_pattern(bind_declarators(s, ds.drop_last()), ds.last().id, ValueKind::Other)
    }
}

/// Names bound to something other than a number, in order.
pub open spec fn bind_names(s: WalkState, names: Seq<String>) -> WalkState
    decreases names.len(),
{
    if names.len() == 0 {
        s
    } else {
        bind(bind_names(s, names.drop_last()), names.last()@, ValueKind::Other)
    }
}

/// The walk over an exported declaration.
pub open spec fn decl_w(t: Seq<char>, x: Seq<String>, s: WalkState, d: Decl, prev: Option<Seq<char>>) -> WalkState
    decreases d,
{
    match d {
        Decl::Var(v) => var_w(t, x, s, v, prev),
        Decl::Function(f) => function_w(t, x, bind_name(s, f.id), f),
        Decl::Class(c) => class_w(t, x, bind_name(s, c.id), c, prev),
        Decl::Other => s,
    }
}

/// The walk over the start of a `for` loop.
pub open spec fn for_init_w(t: Seq<char>, x: Seq<String>, s: WalkState, init: ForInit, prev: Option<Seq<char>>) -> WalkState
    decreases init,
{
    match init {
        ForInit::Var(d) => var_w(t, x, s, d, prev),
        ForInit::Expr(e) => match e {
            Expr::Call(c) => call_w(t, x, s, *c, ParentKind::Other, prev),
            Expr::StaticMember { object, .. } => expr_w(t, x, s, *object, ParentKind::MemberObject, prev),
            Expr::ComputedMember { object, expression } => expr_w(t, x, expr_w(t, x, s, *object, ParentKind::MemberObject, prev), *expression, ParentKind::Other, prev),
            Expr::Assignment { right } => expr_w(t, x, s, *right, ParentKind::Other, prev),
            Expr::Sequence { expressions } => exprs_w(t, x, s, expressions@, prev),
            _ => s,
        },
    }
}

/// The walk over an optional expression.
pub open spec fn opt_expr_w(t: Seq<char>, x: Seq<String>, s: WalkState, e: Option<Expr>, prev: Option<Seq<char>>) -> WalkState
    decreases e,
{
    match e {
        Some(v) => expr_w(t, x, s, v, ParentKind::Other, prev),
        None => s,
    }
}

/// The walk over the cases of a `switch`, in order, each afresh.
pub open spec fn cases_w(t: Seq<char>, x: Seq<String>, s: WalkState, cs: Seq<SwitchCase>, prev: Option<Seq<char>>) -> WalkState
    decreases cs,
{
    if cs.len() == 0 {
        s
    } else {
        let c = cs.last();
        list_w(t, x, opt_expr_w(t, x, cases_w(t, x, s, cs.drop_last(), prev), c.test, prev), c.consequent@, None).0
    }
}

/// The walk over statements, the command of each being the previous
/// command of the next: the state after them, and the command of the last.
pub open spec fn list_w(t: Seq<char>, x: Seq<String>, s: WalkState, ss: Seq<Stmt>, prev: Option<Seq<char>>) -> (WalkState, Option<Seq<char>>)
    decreases ss,
{
    if ss.len() == 0 {
        (s, prev)
    } else {
        let r = list_w(t, x, s, ss.drop_last(), prev);
        stmt_w(t, x, r.0, ss.last(), r.1)
    }
}

/// The walk over a statement: the state after it, and the command it ends
/// with when it is a statement of a Cypress command.
pub open spec fn stmt_w(t: Seq<char>, x: Seq<String>, s: WalkState, st: Stmt, prev: Option<Seq<char>>) -> (WalkState, Option<Seq<char>>)
    decreases st,
{
    let o = ParentKind::Other;
    match st {
        Stmt::Expression(e) => (expr_w(t, x, s, e, ParentKind::Top, prev), statement_command(e)),
        Stmt::Block(body) => (pop_scope(list_w(t, x, push_scope(s), body@, prev).0), None),
        Stmt::If { test, consequent, alternate } => {
            let s2 = stmt_w(t, x, expr_w(t, x, s, test, o, prev), *consequent, prev).0;
            (match alternate {
                Some(a) => stmt_w(t, x, s2, *a, prev).0,
                None => s2,
            }, None)
        },
        Stmt::Var(d) => (var_w(t, x, s, d, prev), None),
        Stmt::Function(f) => (function_w(t, x, bind_name(s, f.id), f), None),
        Stmt::Class(c) => (class_w(t, x, bind_name(s, c.id), c, prev), None),
        Stmt::Import { locals } => (bind_names(s, locals@), None),
        Stmt::ExportNamed { declaration } => (match declaration {
            Some(d) => decl_w(t, x, s, d, prev),
            None => s,
        }, None),
        Stmt::ExportDefault(d) => (match d {
            DefaultExport::Function(f) => function_w(t, x, s, f),
            DefaultExport::Class(c) => class_w(t, x, s, c, prev),
            DefaultExport::Expr(e) => expr_w(t, x, s, e, ParentKind::Top, prev),
            DefaultExport::Other => s,
        }, None),
        Stmt::Return(a) => (opt_expr_w(t, x, s, a, prev), None),
        Stmt::Throw(e) => (expr_w(t, x, s, e, o, prev), None),
        Stmt::While { test, body } => (stmt_w(t, x, expr_w(t, x, s, test, o, prev), *body, prev).0, None),
        Stmt::DoWhile { body, test } => (expr_w(t, x, stmt_w(t, x, s, *body, prev).0, test, o, prev), None),
        Stmt::For { init, test, update, body } => {
            let s1 = match init {
                Some(i) => for_init_w(t, x, push_scope(s), i, prev),
                None => push_scope(s),
            };
            let s3 = opt_expr_w(t, x, opt_expr_w(t, x, s1, test, prev), update, prev);
            (pop_scope(stmt_w(t, x, s3, *body, prev).0), None)
        },
        Stmt::ForInOf { left, right, body } => {
            let s1 = match left {
                Some(d) => bind_declarators(push_scope(s), d.declarations@),
                None => push_scope(s),
            };
            (pop_scope(stmt_w(t, x, expr_w(t, x, s1, right, o, prev), *body, prev).0), None)
        },
        Stmt::Switch { discriminant, cases } => (pop_scope(cases_w(t, x, push_scope(expr_w(t, x, s, discriminant, o, prev)), cases@, prev)), None),
        Stmt::Try { block, handler, finalizer } => {
            let s1 = list_w(t, x, s, block@, prev).0;
            let s2 = match handler {
                Some(h) => pop_scope(list_w(t, x, match h.param {
                    Some(p) => bind_pattern(push_scope(s1), p, ValueKind::Other),
                    None => push_scope(s1),
                }, h.body@, None).0),
                None => s1,
            };
            (match finalizer {
                Some(f) => list_w(t, x, s2, f@, None).0,
                None => s2,
            }, None)
        },
        Stmt::Labeled(body) => (stmt_w(t, x, s, *body, prev).0, None),
        Stmt::With { object, body } => (stmt_w(t, x, expr_w(t, x, s, object, o, prev), *body, prev).0, None),
        Stmt::ExportAssignment(e) => (expr_w(t, x, s, e, o, prev), None),
        Stmt::Other => (s, None),
    }
}

} // verus!
