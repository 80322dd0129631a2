//! The walk of the e18e rules over a program: which rules look at which
//! node, in which order, with what they know of where the node stands.
use vstd::prelude::*;
use crate::text::byte_len;
use super::ast::{
    Expr, CallExpr, NewExpr, StaticMember, Arg, ArrayElem, Property, Stmt, Span, Function, Class,
    ClassElem, VarDecl, Decl, DefaultExport, ForInit, SwitchCase, Source, AssignTarget, inner,
    get_inner_expression,
};
use super::source::{txt, DiagView, DataView, no_data, emit, diag_views, byte_loc, char_index, diag_view};
use super::syntax::{is_ident, is_identifier_named, first_arg_expr, arg_expression, body_expression, expression_body};
use super::dependencies::{
    Diagnostic, E18eOptions, names_rule, banned_module_of, ban_message, opt_view, is_ban_report,
    ban_report, check_ban_dependency_source, BanDependency,
};
use super::call_rules::{
    ExprContext, copy_method, check_prefer_copy_method, date_now_call, check_prefer_date_now_call,
    regex_test, check_prefer_regex_test, array_some_call, report_array_some, static_regex_call,
    check_prefer_static_regex_call, inline_equality, check_prefer_inline_equality, string_from_char_code,
    check_prefer_string_from_char_code, timer_args, check_prefer_timer_args, includes_over_regex_test,
    check_prefer_includes_over_regex_test, spread_in_reduce, check_no_spread_in_reduce, static_collator,
    check_prefer_static_collator,
};
use super::array_rules::{
    exponentiation, check_prefer_exponentiation, object_has_own, check_prefer_object_has_own,
    array_from_map, check_prefer_array_from_map, array_fill, check_prefer_array_fill,
};
use super::spread_rules::{spread_syntax, check_prefer_spread_syntax};
use super::operator_rules::{
    includes_binary, check_prefer_includes_binary, includes_unary, check_prefer_includes_unary,
    no_indexof_equality, check_no_indexof_equality, array_some_binary, check_prefer_array_some_binary,
    array_some_unary, check_prefer_array_some_unary, filter_length_member, check_filter_length_member,
    date_now_unary, check_prefer_date_now_unary, no_delete_property, check_no_delete_property,
    array_at, check_prefer_array_at, nullish_conditional, check_prefer_nullish_conditional,
    nullish_assignment, check_prefer_nullish_assignment, url_canparse, check_prefer_url_canparse,
    static_regex_new, check_prefer_static_regex_new, static_regex_literal,
};

verus! {

/// The `ban-dependencies` report of a banned module at `sp`.
pub open spec fn ban_view(t: Seq<char>, dep: BanDependency, sp: Span) -> DiagView {
    DiagView {
        rule_name: "ban-dependencies",
        message_id: ban_message(dep.message_id@),
        data: DataView {
            name: Some(dep.module_name@),
            replacement: opt_view(dep.replacement),
            url: opt_view(dep.url),
            description: opt_view(dep.description),
            ..no_data()
        },
        loc: byte_loc(t, sp),
        fix: None,
    }
}

/// `ban-dependencies` on a module source at `sp`: the report of the first
/// banned module it is, or is a path inside, when the rule runs.
pub open spec fn ban_views(t: Seq<char>, o: E18eOptions, source: Seq<char>, sp: Span) -> Seq<DiagView> {
    if names_rule(o.rule_names@, "ban-dependencies") {
        match banned_module_of(o.banned_dependencies@, source, 0) {
            Some(i) => seq![ban_view(t, o.banned_dependencies@[i], sp)],
            None => Seq::empty(),
        }
    } else {
        Seq::empty()
    }
}

/// `ban-dependencies` on `require("module")`.
pub open spec fn require_views(t: Seq<char>, o: E18eOptions, c: CallExpr) -> Seq<DiagView> {
    if is_ident(c.callee, "require"@) {
        match first_arg_expr(c.arguments@) {
            Some(x) => match inner(x) {
                Expr::Str { value, span } => ban_views(t, o, value@, span),
                _ => Seq::empty(),
            },
            None => Seq::empty(),
        }
    } else {
        Seq::empty()
    }
}

/// The reports of the call rules on a call, rule by rule.
pub open spec fn call_views(t: Seq<char>, o: E18eOptions, in_fn: bool, c: CallExpr, ctx: ExprContext) -> Seq<DiagView> {
    let n = o.rule_names@;
    let depth: nat = if in_fn { 1 } else { 0 };
    require_views(t, o, c)
        + emit(t, n, exponentiation(t, c))
        + emit(t, n, object_has_own(t, c))
        + emit(t, n, array_from_map(t, c))
        + emit(t, n, array_fill(t, c))
        + emit(t, n, spread_syntax(t, c))
        + emit(t, n, copy_method(t, c))
        + emit(t, n, date_now_call(c))
        + emit(t, n, regex_test(t, c, ctx))
        + emit(t, n, array_some_call(t, c, ctx))
        + emit(t, n, static_regex_call(c, depth))
        + emit(t, n, inline_equality(t, c))
        + emit(t, n, string_from_char_code(c))
        + emit(t, n, timer_args(t, c))
        + emit(t, n, includes_over_regex_test(t, c))
        + spread_in_reduce(t, n, c)
        + emit(t, n, static_collator(c, depth))
}

/// The reports of the rules on an expression and everything below it, in
/// the order of the walk; `in_fn` tells whether it stands inside a
/// function.
pub open spec fn expr_views(t: Seq<char>, o: E18eOptions, in_fn: bool, e: Expr, ctx: ExprContext) -> Seq<DiagView>
    decreases e,
{
    let n = o.rule_names@;
    let depth: nat = if in_fn { 1 } else { 0 };
    match e {
        Expr::Wrapped { expression, .. } => expr_views(t, o, in_fn, *expression, ctx),
        Expr::Call(c) => call_views(t, o, in_fn, *c, ctx) + expr_views(t, o, in_fn, c.callee, ExprContext::Callee)
            + args_views(t, o, in_fn, c.arguments@),
        Expr::New(nw) => emit(t, n, static_regex_new(*nw, depth)) + expr_views(t, o, in_fn, nw.callee, ExprContext::Callee)
            + args_views(t, o, in_fn, nw.arguments@),
        Expr::StaticMember(m) => emit(t, n, filter_length_member(t, *m, ctx)) + expr_views(t, o, in_fn, m.object, ExprContext::MemberObject),
        Expr::ComputedMember { object, expression, span } => emit(t, n, array_at(t, *object, *expression, span))
            + expr_views(t, o, in_fn, *object, ExprContext::MemberObject) + expr_views(t, o, in_fn, *expression, ExprContext::Other),
        Expr::Assignment { target, right, .. } => target_views(t, o, in_fn, *target) + expr_views(t, o, in_fn, *right, ExprContext::Other),
        Expr::Binary { op, left, right, span } => emit(t, n, includes_binary(t, op, *left, *right, span))
            + emit(t, n, no_indexof_equality(t, op, *left, *right, span))
            + emit(t, n, array_some_binary(t, op, *left, *right, span))
            + expr_views(t, o, in_fn, *left, ExprContext::Other) + expr_views(t, o, in_fn, *right, ExprContext::Other),
        Expr::Logical { left, right, .. } => expr_views(t, o, in_fn, *left, ExprContext::Boolean)
            + expr_views(t, o, in_fn, *right, ExprContext::Boolean),
        Expr::Conditional { test, consequent, alternate, span } => emit(t, n, nullish_conditional(t, *test, *consequent, *alternate, span))
            + expr_views(t, o, in_fn, *test, ExprContext::Boolean) + expr_views(t, o, in_fn, *consequent, ExprContext::Other)
            + expr_views(t, o, in_fn, *alternate, ExprContext::Other),
        Expr::Unary { op, argument, span } => emit(t, n, includes_unary(t, op, *argument, span))
            + emit(t, n, array_some_unary(t, op, *argument, span))
            + emit(t, n, date_now_unary(op, *argument, span))
            + emit(t, n, no_delete_property(t, op, *argument, span, ctx))
            + expr_views(t, o, in_fn, *argument, ctx),
        Expr::Array { elements, .. } => elems_views(t, o, in_fn, elements@),
        Expr::Object { properties, .. } => props_views(t, o, in_fn, properties@),
        Expr::Arrow(f) => if f.expression {
            match body_expression(f.body@) {
                Some(x) => expr_views(t, o, true, x, ExprContext::Return),
                None => Seq::empty(),
            }
        } else {
            stmts_views(t, o, true, f.body@)
        },
        Expr::Function(f) => function_views(t, o, *f),
        Expr::Class(c) => class_views(t, o, in_fn, *c),
        Expr::Template { expressions, .. } => exprs_views(t, o, in_fn, expressions@),
        Expr::TaggedTemplate { tag, expressions, .. } => expr_views(t, o, in_fn, *tag, ExprContext::Callee)
            + exprs_views(t, o, in_fn, expressions@),
        Expr::Sequence { expressions, .. } => exprs_views(t, o, in_fn, expressions@),
        Expr::Await { argument, .. } => expr_views(t, o, in_fn, *argument, ExprContext::Other),
        Expr::Yield { argument, .. } => match argument {
            Some(a) => expr_views(t, o, in_fn, *a, ExprContext::Other),
            None => Seq::empty(),
        },
        Expr::Chain { element, .. } => match *element {
            Expr::PrivateField { object, .. } => expr_views(t, o, in_fn, *object, ExprContext::MemberObject),
            _ => expr_views(t, o, in_fn, *element, ctx),
        },
        Expr::Import { source, options, .. } => (match inner(*source) {
            Expr::Str { value, span } => ban_views(t, o, value@, span),
            _ => Seq::empty(),
        }) + expr_views(t, o, in_fn, *source, ExprContext::Other) + match options {
            Some(x) => expr_views(t, o, in_fn, *x, ExprContext::Other),
            None => Seq::empty(),
        },
        Expr::RegExp { global_or_sticky, span } => emit(t, n, static_regex_literal(global_or_sticky, span, depth)),
        _ => Seq::empty(),
    }
}

/// The reports below the left side of an assignment.
pub open spec fn target_views(t: Seq<char>, o: E18eOptions, in_fn: bool, a: AssignTarget) -> Seq<DiagView>
    decreases a,
{
    match a {
        AssignTarget::Computed { object, expression } => expr_views(t, o, in_fn, object, ExprContext::MemberObject)
            + expr_views(t, o, in_fn, expression, ExprContext::Other),
        AssignTarget::Static { object } => expr_views(t, o, in_fn, object, ExprContext::MemberObject),
        AssignTarget::Other => Seq::empty(),
    }
}

/// The reports below the arguments, in order.
pub open spec fn args_views(t: Seq<char>, o: E18eOptions, in_fn: bool, args: Seq<Arg>) -> Seq<DiagView>
    decreases args,
{
    if args.len() == 0 {
        Seq::empty()
    } else {
        args_views(t, o, in_fn, args.drop_last()) + match args.last() {
            Arg::Expr(x) => expr_views(t, o, in_fn, x, ExprContext::Other),
            Arg::Spread { argument, .. } => expr_views(t, o, in_fn, argument, ExprContext::Other),
        }
    }
}

/// The reports below the elements of an array, in order.
pub open spec fn elems_views(t: Seq<char>, o: E18eOptions, in_fn: bool, es: Seq<ArrayElem>) -> Seq<DiagView>
    decreases es,
{
    if es.len() == 0 {
        Seq::empty()
    } else {
        elems_views(t, o, in_fn, es.drop_last()) + match es.last() {
            ArrayElem::Expr(x) => expr_views(t, o, in_fn, x, ExprContext::Other),
            ArrayElem::Spread { argument, .. } => expr_views(t, o, in_fn, argument, ExprContext::Other),
            ArrayElem::Hole => Seq::empty(),
        }
    }
}

/// The reports below the members of an object, in order.
pub open spec fn props_views(t: Seq<char>, o: E18eOptions, in_fn: bool, ps: Seq<Property>) -> Seq<DiagView>
    decreases ps,
{
    if ps.len() == 0 {
        Seq::empty()
    } else {
        props_views(t, o, in_fn, ps.drop_last()) + match ps.last() {
            Property::Property { value, .. } => expr_views(t, o, in_fn, value, ExprContext::Other),
            Property::Spread { argument } => expr_views(t, o, in_fn, argument, ExprContext::Other),
        }
    }
}

/// The reports below expressions, in order.
pub open spec fn exprs_views(t: Seq<char>, o: E18eOptions, in_fn: bool, es: Seq<Expr>) -> Seq<DiagView>
    decreases es,
{
    if es.len() == 0 {
        Seq::empty()
    } else {
        exprs_views(t, o, in_fn, es.drop_last()) + expr_views(t, o, in_fn, es.last(), ExprContext::Other)
    }
}

/// The reports in a function's body, which stands inside a function.
pub open spec fn function_views(t: Seq<char>, o: E18eOptions, f: Function) -> Seq<DiagView>
    decreases f,
{
    match f.body {
        Some(b) => stmts_views(t, o, true, b@),
        None => Seq::empty(),
    }
}

/// The reports in a class: its superclass, then its elements in order.
pub open spec fn class_views(t: Seq<char>, o: E18eOptions, in_fn: bool, c: Class) -> Seq<DiagView>
    decreases c,
{
    (match c.super_class {
        Some(x) => expr_views(t, o, in_fn, x, ExprContext::Other),
        None => Seq::empty(),
    }) + class_elems_views(t, o, in_fn, c.elements@)
}

/// The reports in class elements, in order.
pub open spec fn class_elems_views(t: Seq<char>, o: E18eOptions, in_fn: bool, es: Seq<ClassElem>) -> Seq<DiagView>
    decreases es,
{
    if es.len() == 0 {
        Seq::empty()
    } else {
        class_elems_views(t, o, in_fn, es.drop_last()) + match es.last() {
            ClassElem::Method(f) => function_views(t, o, f),
            ClassElem::Property(Some(x)) => expr_views(t, o, in_fn, x, ExprContext::Other),
            ClassElem::Accessor(Some(x)) => expr_views(t, o, in_fn, x, ExprContext::Other),
            ClassElem::StaticBlock(b) => stmts_views(t, o, in_fn, b@),
            _ => Seq::empty(),
        }
    }
}

/// The reports in the initializers of a declaration, in order.
pub open spec fn inits_views(t: Seq<char>, o: E18eOptions, in_fn: bool, inits: Seq<Option<Expr>>) -> Seq<DiagView>
    decreases inits,
{
    if inits.len() == 0 {
        Seq::empty()
    } else {
        inits_views(t, o, in_fn, inits.drop_last()) + match inits.last() {
            Some(x) => expr_views(t, o, in_fn, x, ExprContext::Other),
            None => Seq::empty(),
        }
    }
}

/// The reports in an exported declaration.
pub open spec fn decl_views(t: Seq<char>, o: E18eOptions, in_fn: bool, d: Decl) -> Seq<DiagView>
    decreases d,
{
    match d {
        Decl::Var(v) => inits_views(t, o, in_fn, v.inits@),
        Decl::Function(f) => function_views(t, o, f),
        Decl::Class(c) => class_views(t, o, in_fn, c),
        Decl::Other => Seq::empty(),
    }
}

/// The reports in the cases of a `switch`, in order.
pub open spec fn cases_views(t: Seq<char>, o: E18eOptions, in_fn: bool, cs: Seq<SwitchCase>) -> Seq<DiagView>
    decreases cs,
{
    if cs.len() == 0 {
        Seq::empty()
    } else {
        cases_views(t, o, in_fn, cs.drop_last()) + (match cs.last().test {
            Some(x) => expr_views(t, o, in_fn, x, ExprContext::Other),
            None => Seq::empty(),
        }) + stmts_views(t, o, in_fn, cs.last().consequent@)
    }
}

/// The reports in statements, in order.
pub open spec fn stmts_views(t: Seq<char>, o: E18eOptions, in_fn: bool, ss: Seq<Stmt>) -> Seq<DiagView>
    decreases ss,
{
    if ss.len() == 0 {
        Seq::empty()
    } else {
        stmts_views(t, o, in_fn, ss.drop_last()) + stmt_views(t, o, in_fn, ss.last())
    }
}

/// The reports below an expression, if there is one.
pub open spec fn opt_expr_views(t: Seq<char>, o: E18eOptions, in_fn: bool, x: Option<Expr>, ctx: ExprContext) -> Seq<DiagView>
    decreases x,
{
    match x {
        Some(e) => expr_views(t, o, in_fn, e, ctx),
        None => Seq::empty(),
    }
}

/// The reports in the start of a `for` loop.
pub open spec fn for_init_views(t: Seq<char>, o: E18eOptions, in_fn: bool, init: Option<ForInit>) -> Seq<DiagView>
    decreases init,
{
    match init {
        Some(ForInit::Var(v)) => inits_views(t, o, in_fn, v.inits@),
        Some(ForInit::Expr(x)) => expr_views(t, o, in_fn, x, ExprContext::Other),
        None => Seq::empty(),
    }
}

/// The reports in a statement, if there is one.
pub open spec fn opt_stmt_views(t: Seq<char>, o: E18eOptions, in_fn: bool, s: Option<Box<Stmt>>) -> Seq<DiagView>
    decreases s,
{
    match s {
        Some(a) => stmt_views(t, o, in_fn, *a),
        None => Seq::empty(),
    }
}

/// The reports of the rules on a statement and everything in it, in the
/// order of the walk.
pub open spec fn stmt_views(t: Seq<char>, o: E18eOptions, in_fn: bool, s: Stmt) -> Seq<DiagView>
    decreases s,
{
    let n = o.rule_names@;
    match s {
        Stmt::Block(b) => stmts_views(t, o, in_fn, b@),
        Stmt::Expression(e) => expr_views(t, o, in_fn, e, ExprContext::Statement),
        Stmt::Var(v) => inits_views(t, o, in_fn, v.inits@),
        Stmt::Function(f) => function_views(t, o, f),
        Stmt::Class(c) => class_views(t, o, in_fn, c),
        Stmt::Return(a) => match a {
            Some(x) => expr_views(t, o, in_fn, x, ExprContext::Return),
            None => Seq::empty(),
        },
        Stmt::If { test, consequent, alternate, span } => emit(t, n, nullish_assignment(t, test, *consequent, alternate is Some, span))
            + expr_views(t, o, in_fn, test, ExprContext::Boolean) + stmt_views(t, o, in_fn, *consequent)
            + opt_stmt_views(t, o, in_fn, alternate),
        Stmt::For { init, test, update, body } => for_init_views(t, o, in_fn, init)
            + opt_expr_views(t, o, in_fn, test, ExprContext::Boolean)
            + opt_expr_views(t, o, in_fn, update, ExprContext::Other) + stmt_views(t, o, in_fn, *body),
        Stmt::ForInOf { left, right, body } => (match left {
            Some(v) => inits_views(t, o, in_fn, v.inits@),
            None => Seq::empty(),
        }) + expr_views(t, o, in_fn, right, ExprContext::Other) + stmt_views(t, o, in_fn, *body),
        Stmt::DoWhile { body, test } => stmt_views(t, o, in_fn, *body) + expr_views(t, o, in_fn, test, ExprContext::Boolean),
        Stmt::While { test, body } => expr_views(t, o, in_fn, test, ExprContext::Boolean) + stmt_views(t, o, in_fn, *body),
        Stmt::Switch { discriminant, cases } => expr_views(t, o, in_fn, discriminant, ExprContext::Other)
            + cases_views(t, o, in_fn, cases@),
        Stmt::Throw(e) => expr_views(t, o, in_fn, e, ExprContext::Other),
        Stmt::Try { block, handler, finalizer, span } => emit(t, n, url_canparse(t, block@,
            match handler {
                Some(h) => Some(h@),
                None => None,
            }, span))
            + stmts_views(t, o, in_fn, block@)
            + (match handler {
                Some(h) => stmts_views(t, o, in_fn, h@),
                None => Seq::empty(),
            })
            + match finalizer {
                Some(f) => stmts_views(t, o, in_fn, f@),
                None => Seq::empty(),
            },
        Stmt::With { object, body } => expr_views(t, o, in_fn, object, ExprContext::Other) + stmt_views(t, o, in_fn, *body),
        Stmt::Import(src) => ban_views(t, o, src.value@, src.span),
        Stmt::ExportNamed { source, declaration } => (match source {
            Some(src) => ban_views(t, o, src.value@, src.span),
            None => Seq::empty(),
        }) + match declaration {
            Some(d) => decl_views(t, o, in_fn, d),
            None => Seq::empty(),
        },
        Stmt::ExportAll(src) => ban_views(t, o, src.value@, src.span),
        Stmt::ExportDefault(d) => match d {
            DefaultExport::Function(f) => function_views(t, o, f),
            DefaultExport::Class(c) => class_views(t, o, in_fn, c),
            DefaultExport::Expr(x) => expr_views(t, o, in_fn, x, ExprContext::Other),
            DefaultExport::Other => Seq::empty(),
        },
        Stmt::Labeled(b) => stmt_views(t, o, in_fn, *b),
        Stmt::Other => Seq::empty(),
    }
}

} // verus!
