//! Whether a piece of a program mentions `cy` or `Cypress`, as the async
//! rules look for it: through calls, members, functions, classes and
//! statements, but not into every kind of node.
use vstd::prelude::*;
use crate::text::str_eq;
use super::ast::{
    Expr, Arg, ArrayElem, Property, Stmt, Function, ArrowFunction, Class, ClassElem, Decl,
    DefaultExport, Declarator, SwitchCase, CallExpr, inner, get_inner_expression,
};

verus! {

/// The names that stand for Cypress.
pub open spec fn is_cypress_name(name: Seq<char>) -> bool {
    name == "cy"@ || name == "Cypress"@
}

/// Whether `e` mentions Cypress.
pub open spec fn expr_contains(e: Expr) -> bool
    decreases e,
{
    match e {
        Expr::Wrapped { expression } => expr_contains(*expression),
        Expr::Identifier { name } => is_cypress_name(name@),
        Expr::Call(call) => call_contains(*call),
        Expr::StaticMember { object, .. } => expr_contains(*object),
        Expr::ComputedMember { object, expression } => expr_contains(*object) || expr_contains(*expression),
        Expr::Chain { element } => chain_contains(*element),
        Expr::Await { argument } => expr_contains(*argument),
        Expr::Array { elements } => exists|i: int| 0 <= i < elements@.len() && elem_contains(#[trigger] elements@[i]),
        Expr::Object { properties } => exists|i: int| 0 <= i < properties@.len() && prop_contains(#[trigger] properties@[i]),
        Expr::Arrow(f) => stmts_contain(f.body@),
        Expr::Function(f) => function_contains(*f),
        Expr::Class(c) => class_contains(*c),
        Expr::Assignment { right } => expr_contains(*right),
        Expr::Conditional { test, consequent, alternate } => expr_contains(*test) || expr_contains(*consequent) || expr_contains(*alternate),
        Expr::Binary { left, right } => expr_contains(*left) || expr_contains(*right),
        Expr::Sequence { expressions } => exists|i: int| 0 <= i < expressions@.len() && expr_contains(#[trigger] expressions@[i]),
        Expr::Unary { argument } => expr_contains(*argument),
        Expr::Yield { argument } => match argument {
            Some(a) => expr_contains(*a),
            None => false,
        },
        Expr::TaggedTemplate { tag, expressions } => expr_contains(*tag) || exists|i: int| 0 <= i < expressions@.len() && expr_contains(#[trigger] expressions@[i]),
        Expr::TemplateLiteral { expressions, .. } => exists|i: int| 0 <= i < expressions@.len() && expr_contains(#[trigger] expressions@[i]),
        Expr::Import { source, options } => expr_contains(*source) || match options {
            Some(o) => expr_contains(*o),
            None => false,
        },
        _ => false,
    }
}

/// Whether a call's callee or one of its arguments mentions Cypress.
pub open spec fn call_contains(call: CallExpr) -> bool
    decreases call,
{
    expr_contains(call.callee) || exists|i: int| 0 <= i < call.arguments@.len() && arg_contains(#[trigger] call.arguments@[i])
}

/// Whether the element of an optional chain mentions Cypress.
pub open spec fn chain_contains(e: Expr) -> bool
    decreases e,
{
    match e {
        Expr::Call(call) => call_contains(*call),
        Expr::StaticMember { object, .. } => expr_contains(*object),
        Expr::ComputedMember { object, expression } => expr_contains(*object) || expr_contains(*expression),
        Expr::Wrapped { expression } => expr_contains(*expression),
        Expr::PrivateField { object } => expr_contains(*object),
        _ => false,
    }
}

/// Whether an argument mentions Cypress.
pub open spec fn arg_contains(a: Arg) -> bool
    decreases a,
{
    match a {
        Arg::Spread(e) => expr_contains(e),
        Arg::Expr(e) => match e {
            Expr::Identifier { name } => is_cypress_name(name@),
            Expr::Call(call) => call_contains(*call),
            Expr::StaticMember { object, .. } => expr_contains(*object),
            Expr::ComputedMember { object, expression } => expr_contains(*object) || expr_contains(*expression),
            Expr::Arrow(f) => stmts_contain(f.body@),
            Expr::Function(f) => function_contains(*f),
            Expr::Object { properties } => exists|i: int| 0 <= i < properties@.len() && prop_contains(#[trigger] properties@[i]),
            Expr::Array { elements } => exists|i: int| 0 <= i < elements@.len() && elem_contains(#[trigger] elements@[i]),
            Expr::Conditional { test, consequent, alternate } => expr_contains(*test) || expr_contains(*consequent) || expr_contains(*alternate),
            Expr::Await { argument } => expr_contains(*argument),
            Expr::Sequence { expressions } => exists|i: int| 0 <= i < expressions@.len() && expr_contains(#[trigger] expressions@[i]),
            Expr::TaggedTemplate { tag, expressions } => expr_contains(*tag) || exists|i: int| 0 <= i < expressions@.len() && expr_contains(#[trigger] expressions@[i]),
            Expr::TemplateLiteral { expressions, .. } => exists|i: int| 0 <= i < expressions@.len() && expr_contains(#[trigger] expressions@[i]),
            _ => false,
        },
    }
}

/// Whether an array element mentions Cypress.
pub open spec fn elem_contains(a: ArrayElem) -> bool
    decreases a,
{
    match a {
        ArrayElem::Spread(e) => expr_contains(e),
        ArrayElem::Expr(e) => match e {
            Expr::Identifier { name } => is_cypress_name(name@),
            Expr::Call(call) => call_contains(*call),
            Expr::StaticMember { object, .. } => expr_contains(*object),
            Expr::ComputedMember { object, expression } => expr_contains(*object) || expr_contains(*expression),
            Expr::Arrow(f) => stmts_contain(f.body@),
            Expr::Function(f) => function_contains(*f),
            Expr::Object { properties } => exists|i: int| 0 <= i < properties@.len() && prop_contains(#[trigger] properties@[i]),
            Expr::Array { elements } => exists|i: int| 0 <= i < elements@.len() && elem_contains(#[trigger] elements@[i]),
            Expr::Conditional { test, consequent, alternate } => expr_contains(*test) || expr_contains(*consequent) || expr_contains(*alternate),
            _ => false,
        },
        ArrayElem::Elision => false,
    }
}

/// Whether an object member's value mentions Cypress.
pub open spec fn prop_contains(p: Property) -> bool
    decreases p,
{
    match p {
        Property::Property { value, .. } => expr_contains(value),
        Property::Spread(e) => expr_contains(e),
    }
}

/// Whether a function's body mentions Cypress.
pub open spec fn function_contains(f: Function) -> bool
    decreases f,
{
    match f.body {
        Some(body) => stmts_contain(body@),
        None => false,
    }
}

/// Whether some statement mentions Cypress.
pub open spec fn stmts_contain(s: Seq<Stmt>) -> bool
    decreases s,
{
    exists|i: int| 0 <= i < s.len() && stmt_contains(#[trigger] s[i])
}

/// Whether a class's static blocks, methods or property values mention
/// Cypress.
pub open spec fn class_contains(c: Class) -> bool
    decreases c,
{
    exists|i: int| 0 <= i < c.elements@.len() && class_elem_contains(#[trigger] c.elements@[i])
}

/// Whether a class element mentions Cypress.
pub open spec fn class_elem_contains(e: ClassElem) -> bool
    decreases e,
{
    match e {
        ClassElem::StaticBlock(body) => stmts_contain(body@),
        ClassElem::Method(f) => function_contains(f),
        ClassElem::Property(v) => match v {
            Some(x) => expr_contains(x),
            None => false,
        },
        ClassElem::Accessor(v) => match v {
            Some(x) => expr_contains(x),
            None => false,
        },
        ClassElem::Other => false,
    }
}

/// Whether some declarator's initializer mentions Cypress.
pub open spec fn declarators_contain(ds: Seq<Declarator>) -> bool
    decreases ds,
{
    exists|i: int| 0 <= i < ds.len() && match (#[trigger] ds[i]).init {
        Some(x) => expr_contains(x),
        None => false,
    }
}

/// Whether an exported declaration mentions Cypress.
pub open spec fn decl_contains(d: Decl) -> bool
    decreases d,
{
    match d {
        Decl::Var(v) => declarators_contain(v.declarations@),
        Decl::Function(f) => function_contains(f),
        Decl::Class(c) => class_contains(c),
        Decl::Other => false,
    }
}

/// Whether a `switch` case's test or statements mention Cypress.
pub open spec fn case_contains(c: SwitchCase) -> bool
    decreases c,
{
    (match c.test {
        Some(x) => expr_contains(x),
        None => false,
    }) || stmts_contain(c.consequent@)
}

/// Whether a statement mentions Cypress.
pub open spec fn stmt_contains(s: Stmt) -> bool
    decreases s,
{
    match s {
        Stmt::Expression(e) => expr_contains(e),
        Stmt::Block(body) => stmts_contain(body@),
        Stmt::If { test, consequent, alternate } => expr_contains(test) || stmt_contains(*consequent) || match alternate {
            Some(a) => stmt_contains(*a),
            None => false,
        },
        Stmt::Var(v) => declarators_contain(v.declarations@),
        Stmt::Return(a) => match a {
            Some(x) => expr_contains(x),
            None => false,
        },
        Stmt::Throw(e) => expr_contains(e),
        Stmt::While { test, body } => expr_contains(test) || stmt_contains(*body),
        Stmt::DoWhile { body, test } => stmt_contains(*body) || expr_contains(test),
        Stmt::For { test, update, body, .. } => (match test {
            Some(x) => expr_contains(x),
            None => false,
        }) || (match update {
            Some(x) => expr_contains(x),
            None => false,
        }) || stmt_contains(*body),
        Stmt::ForInOf { right, body, .. } => expr_contains(right) || stmt_contains(*body),
        Stmt::Switch { discriminant, cases } => expr_contains(discriminant) || exists|i: int| 0 <= i < cases@.len() && case_contains(#[trigger] cases@[i]),
        Stmt::Try { block, handler, finalizer } => stmts_contain(block@) || (match handler {
            Some(h) => stmts_contain(h.body@),
            None => false,
        }) || (match finalizer {
            Some(f) => stmts_contain(f@),
            None => false,
        }),
        Stmt::Function(f) => function_contains(f),
        Stmt::Class(c) => class_contains(c),
        Stmt::ExportNamed { declaration } => match declaration {
            Some(d) => decl_contains(d),
            None => false,
        },
        Stmt::ExportDefault(d) => match d {
            DefaultExport::Function(f) => function_contains(f),
            DefaultExport::Class(c) => class_contains(c),
            DefaultExport::Expr(e) => expr_contains(e),
            DefaultExport::Other => false,
        },
        _ => false,
    }
}

/// Whether `name` stands for Cypress.
pub fn is_cypress_identifier(name: &String) -> (r: bool)
    ensures
        r == is_cypress_name(name@),
{
    str_eq(name.as_str(), "cy") || str_eq(name.as_str(), "Cypress")
}

/// Whether some expression of `v` mentions Cypress.
fn exprs_contain(v: &Vec<Expr>) -> (r: bool)
    ensures
        r == exists|i: int| 0 <= i < v@.len() && expr_contains(#[trigger] v@[i]),
    decreases v,
{
    let mut i: usize = 0;
    while i < v.len()
        invariant
            i <= v@.len(),
            forall|k: int| 0 <= k < i ==> !expr_contains(#[trigger] v@[k]),
        decreases v@.len() - i,
    {
        if expression_contains_cypress(&v[i]) {
            return true;
        }
        i = i + 1;
    }
    false
}

/// Whether some argument of `v` mentions Cypress.
fn args_contain(v: &Vec<Arg>) -> (r: bool)
    ensures
        r == exists|i: int| 0 <= i < v@.len() && arg_contains(#[trigger] v@[i]),
    decreases v,
{
    let mut i: usize = 0;
    while i < v.len()
        invariant
            i <= v@.len(),
            forall|k: int| 0 <= k < i ==> !arg_contains(#[trigger] v@[k]),
        decreases v@.len() - i,
    {
        if argument_expression_contains_cypress(&v[i]) {
            return true;
        }
        i = i + 1;
    }
    false
}

/// Whether some array element of `v` mentions Cypress.
fn elems_contain(v: &Vec<ArrayElem>) -> (r: bool)
    ensures
        r == exists|i: int| 0 <= i < v@.len() && elem_contains(#[trigger] v@[i]),
    decreases v,
{
    let mut i: usize = 0;
    while i < v.len()
        invariant
            i <= v@.len(),
            forall|k: int| 0 <= k < i ==> !elem_contains(#[trigger] v@[k]),
        decreases v@.len() - i,
    {
        if array_element_contains_cypress(&v[i]) {
            return true;
        }
        i = i + 1;
    }
    false
}

/// Whether some object member of `v` mentions Cypress.
fn props_contain(v: &Vec<Property>) -> (r: bool)
    ensures
        r == exists|i: int| 0 <= i < v@.len() && prop_contains(#[trigger] v@[i]),
    decreases v,
{
    let mut i: usize = 0;
    while i < v.len()
        invariant
            i <= v@.len(),
            forall|k: int| 0 <= k < i ==> !prop_contains(#[trigger] v@[k]),
        decreases v@.len() - i,
    {
        let found = match &v[i] {
            Property::Property { value, .. } => expression_contains_cypress(value),
            Property::Spread(e) => expression_contains_cypress(e),
        };
        if found {
            return true;
        }
        i = i + 1;
    }
    false
}

/// Whether a call's callee or one of its arguments mentions Cypress.
pub fn call_contains_cypress(call: &CallExpr) -> (r: bool)
    ensures
        r == call_contains(*call),
    decreases call,
{
    expression_contains_cypress(&call.callee) || args_contain(&call.arguments)
}

/// Whether an expression mentions Cypress.
pub fn expression_contains_cypress(e: &Expr) -> (r: bool)
    ensures
        r == expr_contains(*e),
    decreases e,
{
    match e {
        Expr::Wrapped { expression } => expression_contains_cypress(expression),
        Expr::Identifier { name } => is_cypress_identifier(name),
        Expr::Call(call) => call_contains_cypress(call),
        Expr::StaticMember { object, .. } => expression_contains_cypress(object),
        Expr::ComputedMember { object, expression } => expression_contains_cypress(object) || expression_contains_cypress(expression),
        Expr::Chain { element } => chain_element_contains_cypress(element),
        Expr::Await { argument } => expression_contains_cypress(argument),
        Expr::Array { elements } => elems_contain(elements),
        Expr::Object { properties } => props_contain(properties),
        Expr::Arrow(f) => function_body_contains_cypress(&f.body),
        Expr::Function(f) => function_contains_cypress(f),
        Expr::Class(c) => class_contains_cypress(c),
        Expr::Assignment { right } => expression_contains_cypress(right),
        Expr::Conditional { test, consequent, alternate } => expression_contains_cypress(test)
            || expression_contains_cypress(consequent) || expression_contains_cypress(alternate),
        Expr::Binary { left, right } => expression_contains_cypress(left) || expression_contains_cypress(right),
        Expr::Sequence { expressions } => exprs_contain(expressions),
        Expr::Unary { argument } => expression_contains_cypress(argument),
        Expr::Yield { argument } => match argument {
            Some(a) => expression_contains_cypress(a),
            None => false,
        },
        Expr::TaggedTemplate { tag, expressions } => expression_contains_cypress(tag) || exprs_contain(expressions),
        Expr::TemplateLiteral { expressions, .. } => exprs_contain(expressions),
        Expr::Import { source, options } => expression_contains_cypress(source) || match options {
            Some(o) => expression_contains_cypress(o),
            None => false,
        },
        _ => false,
    }
}

/// Whether the element of an optional chain mentions Cypress.
pub fn chain_element_contains_cypress(e: &Expr) -> (r: bool)
    ensures
        r == chain_contains(*e),
    decreases e,
{
    match e {
        Expr::Call(call) => call_contains_cypress(call),
        Expr::StaticMember { object, .. } => expression_contains_cypress(object),
        Expr::ComputedMember { object, expression } => expression_contains_cypress(object) || expression_contains_cypress(expression),
        Expr::Wrapped { expression } => expression_contains_cypress(expression),
        Expr::PrivateField { object } => expression_contains_cypress(object),
        _ => false,
    }
}

/// Whether an argument mentions Cypress.
pub fn argument_expression_contains_cypress(a: &Arg) -> (r: bool)
    ensures
        r == arg_contains(*a),
    decreases a,
{
    match a {
        Arg::Spread(e) => expression_contains_cypress(e),
        Arg::Expr(e) => match e {
            Expr::Identifier { name } => is_cypress_identifier(name),
            Expr::Call(call) => call_contains_cypress(call),
            Expr::StaticMember { object, .. } => expression_contains_cypress(object),
            Expr::ComputedMember { object, expression } => expression_contains_cypress(object) || expression_contains_cypress(expression),
            Expr::Arrow(f) => function_body_contains_cypress(&f.body),
            Expr::Function(f) => function_contains_cypress(f),
            Expr::Object { properties } => props_contain(properties),
            Expr::Array { elements } => elems_contain(elements),
            Expr::Conditional { test, consequent, alternate } => expression_contains_cypress(test)
                || expression_contains_cypress(consequent) || expression_contains_cypress(alternate),
            Expr::Await { argument } => expression_contains_cypress(argument),
            Expr::Sequence { expressions } => exprs_contain(expressions),
            Expr::TaggedTemplate { tag, expressions } => expression_contains_cypress(tag) || exprs_contain(expressions),
            Expr::TemplateLiteral { expressions, .. } => exprs_contain(expressions),
            _ => false,
        },
    }
}

/// Whether an array element mentions Cypress.
pub fn array_element_contains_cypress(a: &ArrayElem) -> (r: bool)
    ensures
        r == elem_contains(*a),
    decreases a,
{
    match a {
        ArrayElem::Spread(e) => expression_contains_cypress(e),
        ArrayElem::Expr(e) => match e {
            Expr::Identifier { name } => is_cypress_identifier(name),
            Expr::Call(call) => call_contains_cypress(call),
            Expr::StaticMember { object, .. } => expression_contains_cypress(object),
            Expr::ComputedMember { object, expression } => expression_contains_cypress(object) || expression_contains_cypress(expression),
            Expr::Arrow(f) => function_body_contains_cypress(&f.body),
            Expr::Function(f) => function_contains_cypress(f),
            Expr::Object { properties } => props_contain(properties),
            Expr::Array { elements } => elems_contain(elements),
            Expr::Conditional { test, consequent, alternate } => expression_contains_cypress(test)
                || expression_contains_cypress(consequent) || expression_contains_cypress(alternate),
            _ => false,
        },
        ArrayElem::Elision => false,
    }
}

/// Whether a function's body mentions Cypress.
pub fn function_contains_cypress(f: &Function) -> (r: bool)
    ensures
        r == function_contains(*f),
    decreases f,
{
    match &f.body {
        Some(body) => function_body_contains_cypress(body),
        None => false,
    }
}

/// Whether some statement of a body mentions Cypress.
pub fn function_body_contains_cypress(body: &Vec<Stmt>) -> (r: bool)
    ensures
        r == stmts_contain(body@),
    decreases body,
{
    let mut i: usize = 0;
    while i < body.len()
        invariant
            i <= body@.len(),
            forall|k: int| 0 <= k < i ==> !stmt_contains(#[trigger] body@[k]),
        decreases body@.len() - i,
    {
        if statement_contains_cypress(&body[i]) {
            return true;
        }
        i = i + 1;
    }
    false
}

/// Whether a class's static blocks, methods or property values mention
/// Cypress.
pub fn class_contains_cypress(c: &Class) -> (r: bool)
    ensures
        r == class_contains(*c),
    decreases c,
{
    let mut i: usize = 0;
    while i < c.elements.len()
        invariant
            i <= c.elements@.len(),
            forall|k: int| 0 <= k < i ==> !class_elem_contains(#[trigger] c.elements@[k]),
        decreases c.elements@.len() - i,
    {
        let found = match &c.elements[i] {
            ClassElem::StaticBlock(body) => function_body_contains_cypress(body),
            ClassElem::Method(f) => function_contains_cypress(f),
            ClassElem::Property(v) => match v {
                Some(x) => expression_contains_cypress(x),
                None => false,
            },
            ClassElem::Accessor(v) => match v {
                Some(x) => expression_contains_cypress(x),
                None => false,
            },
            ClassElem::Other => false,
        };
        if found {
            return true;
        }
        i = i + 1;
    }
    false
}

/// Whether some declarator's initializer mentions Cypress.
fn declarators_contain_cypress(ds: &Vec<Declarator>) -> (r: bool)
    ensures
        r == declarators_contain(ds@),
    decreases ds,
{
    let mut i: usize = 0;
    while i < ds.len()
        invariant
            i <= ds@.len(),
            forall|k: int| 0 <= k < i ==> !match (#[trigger] ds@[k]).init {
                Some(x) => expr_contains(x),
                None => false,
            },
        decreases ds@.len() - i,
    {
        let found = match &ds[i].init {
            Some(x) => expression_contains_cypress(x),
            None => false,
        };
        if found {
            return true;
        }
        i = i + 1;
    }
    false
}

/// Whether an exported declaration mentions Cypress.
pub fn declaration_contains_cypress(d: &Decl) -> (r: bool)
    ensures
        r == decl_contains(*d),
    decreases d,
{
    match d {
        Decl::Var(v) => declarators_contain_cypress(&v.declarations),
        Decl::Function(f) => function_contains_cypress(f),
        Decl::Class(c) => class_contains_cypress(c),
        Decl::Other => false,
    }
}

/// Whether some `switch` case mentions Cypress.
fn cases_contain_cypress(cases: &Vec<SwitchCase>) -> (r: bool)
    ensures
        r == exists|i: int| 0 <= i < cases@.len() && case_contains(#[trigger] cases@[i]),
    decreases cases,
{
    let mut i: usize = 0;
    while i < cases.len()
        invariant
            i <= cases@.len(),
            forall|k: int| 0 <= k < i ==> !case_contains(#[trigger] cases@[k]),
        decreases cases@.len() - i,
    {
        let c = &cases[i];
        let found = (match &c.test {
            Some(x) => expression_contains_cypress(x),
            None => false,
        }) || function_body_contains_cypress(&c.consequent);
        if found {
            return true;
        }
        i = i + 1;
    }
    false
}

/// Whether a statement mentions Cypress.
pub fn statement_contains_cypress(s: &Stmt) -> (r: bool)
    ensures
        r == stmt_contains(*s),
    decreases s,
{
    match s {
        Stmt::Expression(e) => expression_contains_cypress(e),
        Stmt::Block(body) => function_body_contains_cypress(body),
        Stmt::If { test, consequent, alternate } => expression_contains_cypress(test) || statement_contains_cypress(consequent)
            || match alternate {
            Some(a) => statement_contains_cypress(a),
            None => false,
        },
        Stmt::Var(v) => declarators_contain_cypress(&v.declarations),
        Stmt::Return(a) => match a {
            Some(x) => expression_contains_cypress(x),
            None => false,
        },
        Stmt::Throw(e) => expression_contains_cypress(e),
        Stmt::While { test, body } => expression_contains_cypress(test) || statement_contains_cypress(body),
        Stmt::DoWhile { body, test } => statement_contains_cypress(body) || expression_contains_cypress(test),
        Stmt::For { test, update, body, .. } => (match test {
            Some(x) => expression_contains_cypress(x),
            None => false,
        }) || (match update {
            Some(x) => expression_contains_cypress(x),
            None => false,
        }) || statement_contains_cypress(body),
        Stmt::ForInOf { right, body, .. } => expression_contains_cypress(right) || statement_contains_cypress(body),
        Stmt::Switch { discriminant, cases } => expression_contains_cypress(discriminant) || cases_contain_cypress(cases),
        Stmt::Try { block, handler, finalizer } => function_body_contains_cypress(block) || (match handler {
            Some(h) => function_body_contains_cypress(&h.body),
            None => false,
        }) || (match finalizer {
            Some(f) => function_body_contains_cypress(f),
            None => false,
        }),
        Stmt::Function(f) => function_contains_cypress(f),
        Stmt::Class(c) => class_contains_cypress(c),
        Stmt::ExportNamed { declaration } => match declaration {
            Some(d) => declaration_contains_cypress(d),
            None => false,
        },
        Stmt::ExportDefault(d) => match d {
            DefaultExport::Function(f) => function_contains_cypress(f),
            DefaultExport::Class(c) => class_contains_cypress(c),
            DefaultExport::Expr(e) => expression_contains_cypress(e),
            DefaultExport::Other => false,
        },
        _ => false,
    }
}

} // verus!
