//! The walk of the e18e rules, run: each function appends the reports that
//! the walk's specification gives for its node.
use vstd::prelude::*;
use crate::text::byte_len;
use super::ast::{
    Expr, CallExpr, Arg, ArrayElem, Property, Stmt, Span, Function, Class, ClassElem, Decl,
    DefaultExport, ForInit, SwitchCase, AssignTarget, get_inner_expression,
};
use super::source::{DiagView, diag_views, char_index, diag_view};
use super::syntax::{is_identifier_named, arg_expression, expression_body};
use super::dependencies::{Diagnostic, E18eOptions, is_ban_report, ban_report, check_ban_dependency_source, banned_module_of};
use super::call_rules::{
    ExprContext, check_prefer_copy_method, check_prefer_date_now_call, check_prefer_regex_test,
    array_some_call, report_array_some, check_prefer_static_regex_call, check_prefer_inline_equality,
    check_prefer_string_from_char_code, check_prefer_timer_args, check_prefer_includes_over_regex_test,
    check_no_spread_in_reduce, check_prefer_static_collator,
};
use super::array_rules::{check_prefer_exponentiation, check_prefer_object_has_own, check_prefer_array_from_map, check_prefer_array_fill};
use super::spread_rules::check_prefer_spread_syntax;
use super::operator_rules::{
    check_prefer_includes_binary, check_prefer_includes_unary, check_no_indexof_equality,
    check_prefer_array_some_binary, check_prefer_array_some_unary, check_filter_length_member,
    check_prefer_date_now_unary, check_no_delete_property, check_prefer_array_at,
    check_prefer_nullish_conditional, check_prefer_nullish_assignment, check_prefer_url_canparse,
    check_prefer_static_regex_new, static_regex_literal,
};
use super::source::emit;
use super::array_rules::{exponentiation, object_has_own, array_from_map, array_fill};
use super::spread_rules::spread_syntax;
use super::call_rules::{copy_method, date_now_call, regex_test, static_regex_call, inline_equality, string_from_char_code, timer_args, includes_over_regex_test, spread_in_reduce, static_collator};
use super::operator_rules::{static_regex_new, filter_length_member, array_at, includes_binary, no_indexof_equality, array_some_binary, nullish_conditional, includes_unary, array_some_unary, date_now_unary, no_delete_property, nullish_assignment};
use super::walk::{
    ban_view, ban_views, require_views, call_views, expr_views, target_views, args_views, elems_views,
    props_views, exprs_views, function_views, class_views, class_elems_views, inits_views, decl_views,
    cases_views, stmts_views, stmt_views, opt_stmt_views, opt_expr_views, for_init_views,
};

verus! {

/// `ban-dependencies` on a module source at `sp`.
pub fn push_ban(out: &mut Vec<Diagnostic>, t: &[char], o: &E18eOptions, source: &str, sp: Span)
    requires
        byte_len(t@) < u32::MAX,
    ensures
        diag_views(final(out)@) == diag_views(old(out)@) + ban_views(t@, *o, source@, sp),
{
    let s = char_index(t, sp.start);
    let e = char_index(t, sp.end);
    let ghost before = out@;
    match check_ban_dependency_source(t, o, source, s, e) {
        Some(d) => {
            proof {
                let i = banned_module_of(o.banned_dependencies@, source@, 0)->0;
                let dep = o.banned_dependencies@[i];
                assert(is_ban_report(d, ban_report(dep, t@, s as int, e as int)));
                assert(diag_view(d).data == ban_view(t@, dep, sp).data);
                assert(diag_view(d) == ban_view(t@, dep, sp));
            }
            out.push(d);
            assert(diag_views(out@) =~= diag_views(before).push(diag_view(d)));
        },
        None => {
            assert(diag_views(out@) =~= diag_views(before) + Seq::<DiagView>::empty());
        },
    }
}

/// `ban-dependencies` on `require("module")`.
fn check_ban_dependency_require(out: &mut Vec<Diagnostic>, t: &[char], o: &E18eOptions, c: &CallExpr)
    requires
        byte_len(t@) < u32::MAX,
    ensures
        diag_views(final(out)@) == diag_views(old(out)@) + require_views(t@, *o, *c),
{
    let ghost before = diag_views(out@);
    if is_identifier_named(&c.callee, "require") {
        if let Some(x) = arg_expression(&c.arguments, 0) {
            if let Expr::Str { value, span } = get_inner_expression(x) {
                push_ban(out, t, o, value.as_str(), *span);
                return;
            }
        }
    }
    assert(diag_views(out@) =~= before + Seq::<DiagView>::empty());
}

/// `prefer-array-some` on a `find` call where a boolean is read.
fn check_array_some_call(out: &mut Vec<Diagnostic>, t: &[char], o: &E18eOptions, c: &CallExpr, ctx: ExprContext)
    requires
        byte_len(t@) < u32::MAX,
    ensures
        diag_views(final(out)@) == diag_views(old(out)@) + emit(t@, o.rule_names@, array_some_call(t@, *c, ctx)),
{
    if ctx == ExprContext::Boolean && super::syntax::is_method_call(c, "find") {
        report_array_some(out, t, o, c.span, c, false);
    } else {
        assert(diag_views(out@) =~= diag_views(out@) + Seq::<DiagView>::empty());
    }
}

/// The call rules on a call, rule by rule.
pub fn check_call_expression(out: &mut Vec<Diagnostic>, t: &[char], o: &E18eOptions, in_fn: bool, c: &CallExpr, ctx: ExprContext)
    requires
        byte_len(t@) < u32::MAX,
    ensures
        diag_views(final(out)@) == diag_views(old(out)@) + call_views(t@, *o, in_fn, *c, ctx),
{
    let depth: usize = if in_fn { 1 } else { 0 };
    let ghost v0 = diag_views(out@);
    check_ban_dependency_require(out, t, o, c);
    let ghost mut acc = require_views(t@, *o, *c);
    check_prefer_exponentiation(out, t, o, c);
    proof {
        vstd::seq_lib::lemma_concat_associative(v0, acc, emit(t@, o.rule_names@, exponentiation(t@, *c)));
        acc = acc + emit(t@, o.rule_names@, exponentiation(t@, *c));
    }
    check_prefer_object_has_own(out, t, o, c);
    proof {
        vstd::seq_lib::lemma_concat_associative(v0, acc, emit(t@, o.rule_names@, object_has_own(t@, *c)));
        acc = acc + emit(t@, o.rule_names@, object_has_own(t@, *c));
    }
    check_prefer_array_from_map(out, t, o, c);
    proof {
        vstd::seq_lib::lemma_concat_associative(v0, acc, emit(t@, o.rule_names@, array_from_map(t@, *c)));
        acc = acc + emit(t@, o.rule_names@, array_from_map(t@, *c));
    }
    check_prefer_array_fill(out, t, o, c);
    proof {
        vstd::seq_lib::lemma_concat_associative(v0, acc, emit(t@, o.rule_names@, array_fill(t@, *c)));
        acc = acc + emit(t@, o.rule_names@, array_fill(t@, *c));
    }
    check_prefer_spread_syntax(out, t, o, c);
    proof {
        vstd::seq_lib::lemma_concat_associative(v0, acc, emit(t@, o.rule_names@, spread_syntax(t@, *c)));
        acc = acc + emit(t@, o.rule_names@, spread_syntax(t@, *c));
    }
    check_prefer_copy_method(out, t, o, c);
    proof {
        vstd::seq_lib::lemma_concat_associative(v0, acc, emit(t@, o.rule_names@, copy_method(t@, *c)));
        acc = acc + emit(t@, o.rule_names@, copy_method(t@, *c));
    }
    check_prefer_date_now_call(out, t, o, c);
    proof {
        vstd::seq_lib::lemma_concat_associative(v0, acc, emit(t@, o.rule_names@, date_now_call(*c)));
        acc = acc + emit(t@, o.rule_names@, date_now_call(*c));
    }
    check_prefer_regex_test(out, t, o, c, ctx);
    proof {
        vstd::seq_lib::lemma_concat_associative(v0, acc, emit(t@, o.rule_names@, regex_test(t@, *c, ctx)));
        acc = acc + emit(t@, o.rule_names@, regex_test(t@, *c, ctx));
    }
    check_array_some_call(out, t, o, c, ctx);
    proof {
        vstd::seq_lib::lemma_concat_associative(v0, acc, emit(t@, o.rule_names@, array_some_call(t@, *c, ctx)));
        acc = acc + emit(t@, o.rule_names@, array_some_call(t@, *c, ctx));
    }
    check_prefer_static_regex_call(out, t, o, c, depth);
    proof {
        vstd::seq_lib::lemma_concat_associative(v0, acc, emit(t@, o.rule_names@, static_regex_call(*c, depth as nat)));
        acc = acc + emit(t@, o.rule_names@, static_regex_call(*c, depth as nat));
    }
    check_prefer_inline_equality(out, t, o, c);
    proof {
        vstd::seq_lib::lemma_concat_associative(v0, acc, emit(t@, o.rule_names@, inline_equality(t@, *c)));
        acc = acc + emit(t@, o.rule_names@, inline_equality(t@, *c));
    }
    check_prefer_string_from_char_code(out, t, o, c);
    proof {
        vstd::seq_lib::lemma_concat_associative(v0, acc, emit(t@, o.rule_names@, string_from_char_code(*c)));
        acc = acc + emit(t@, o.rule_names@, string_from_char_code(*c));
    }
    check_prefer_timer_args(out, t, o, c);
    proof {
        vstd::seq_lib::lemma_concat_associative(v0, acc, emit(t@, o.rule_names@, timer_args(t@, *c)));
        acc = acc + emit(t@, o.rule_names@, timer_args(t@, *c));
    }
    check_prefer_includes_over_regex_test(out, t, o, c);
    proof {
        vstd::seq_lib::lemma_concat_associative(v0, acc, emit(t@, o.rule_names@, includes_over_regex_test(t@, *c)));
        acc = acc + emit(t@, o.rule_names@, includes_over_regex_test(t@, *c));
    }
    check_no_spread_in_reduce(out, t, o, c);
    proof {
        vstd::seq_lib::lemma_concat_associative(v0, acc, spread_in_reduce(t@, o.rule_names@, *c));
        acc = acc + spread_in_reduce(t@, o.rule_names@, *c);
    }
    check_prefer_static_collator(out, t, o, c, depth);
    proof {
        vstd::seq_lib::lemma_concat_associative(v0, acc, emit(t@, o.rule_names@, static_collator(*c, depth as nat)));
        acc = acc + emit(t@, o.rule_names@, static_collator(*c, depth as nat));
    }
}

/// Appends the reports of the walk below an expression.
pub fn scan_expression(out: &mut Vec<Diagnostic>, t: &[char], o: &E18eOptions, in_fn: bool, e: &Expr, ctx: ExprContext)
    requires
        byte_len(t@) < u32::MAX,
    ensures
        diag_views(final(out)@) == diag_views(old(out)@) + expr_views(t@, *o, in_fn, *e, ctx),
    decreases e, 2nat,
{
    let ghost v0 = diag_views(out@);
    match e {
        Expr::Wrapped { expression, .. } => scan_expression(out, t, o, in_fn, expression, ctx),
        Expr::Call(_) | Expr::New(_) | Expr::StaticMember(_) | Expr::ComputedMember { .. } | Expr::Assignment { .. } => {
            scan_access(out, t, o, in_fn, e, ctx);
        },
        Expr::Binary { .. } | Expr::Logical { .. } | Expr::Conditional { .. } | Expr::Unary { .. } => {
            scan_operator(out, t, o, in_fn, e, ctx);
        },
        Expr::Array { elements, .. } => scan_elements(out, t, o, in_fn, elements),
        Expr::Object { properties, .. } => scan_properties(out, t, o, in_fn, properties),
        Expr::Arrow(f) => {
            if f.expression {
                match expression_body(&f.body) {
                    Some(x) => scan_expression(out, t, o, true, x, ExprContext::Return),
                    None => {
                        assert(diag_views(out@) =~= v0 + Seq::<DiagView>::empty());
                    },
                }
            } else {
                scan_statements(out, t, o, true, &f.body);
            }
        },
        Expr::Function(f) => scan_function(out, t, o, f),
        Expr::Class(c) => scan_class(out, t, o, in_fn, c),
        Expr::Template { expressions, .. } => scan_expressions(out, t, o, in_fn, expressions),
        Expr::Sequence { expressions, .. } => scan_expressions(out, t, o, in_fn, expressions),
        Expr::TaggedTemplate { .. } | Expr::Import { .. } => scan_other(out, t, o, in_fn, e, ctx),
        Expr::Await { argument, .. } => scan_expression(out, t, o, in_fn, argument, ExprContext::Other),
        Expr::Yield { argument, .. } => match argument {
            Some(a) => scan_expression(out, t, o, in_fn, a, ExprContext::Other),
            None => {
                assert(diag_views(out@) =~= v0 + Seq::<DiagView>::empty());
            },
        },
        Expr::Chain { element, .. } => match &**element {
            Expr::PrivateField { object, .. } => scan_expression(out, t, o, in_fn, object, ExprContext::MemberObject),
            _ => scan_expression(out, t, o, in_fn, element, ctx),
        },
        Expr::RegExp { global_or_sticky, span } => {
            if in_fn && !*global_or_sticky {
                super::source::push_report(out, t, o, "prefer-static-regex", "preferStatic", super::source::empty_data(), *span, None);
            } else {
                assert(diag_views(out@) =~= v0 + Seq::<DiagView>::empty());
            }
        },
        _ => {
            assert(diag_views(out@) =~= v0 + Seq::<DiagView>::empty());
        },
    }
}

/// The walk on calls, `new`, member accesses and assignments.
fn scan_access(out: &mut Vec<Diagnostic>, t: &[char], o: &E18eOptions, in_fn: bool, e: &Expr, ctx: ExprContext)
    requires
        byte_len(t@) < u32::MAX,
        e is Call || e is New || e is StaticMember || e is ComputedMember || e is Assignment,
    ensures
        diag_views(final(out)@) == diag_views(old(out)@) + expr_views(t@, *o, in_fn, *e, ctx),
    decreases e, 1nat,
{
    let ghost v0 = diag_views(out@);
    match e {
        Expr::Call(_) => scan_call(out, t, o, in_fn, e, ctx),
        Expr::New(_) => scan_new(out, t, o, in_fn, e, ctx),
        Expr::StaticMember(_) => scan_static_member(out, t, o, in_fn, e, ctx),
        Expr::ComputedMember { .. } => scan_computed_member(out, t, o, in_fn, e, ctx),
        Expr::Assignment { target, right, .. } => {
            match &**target {
                AssignTarget::Computed { object, expression } => {
                    scan_expression(out, t, o, in_fn, object, ExprContext::MemberObject);
                    scan_expression(out, t, o, in_fn, expression, ExprContext::Other);
                },
                AssignTarget::Static { object } => {
                    scan_expression(out, t, o, in_fn, object, ExprContext::MemberObject);
                },
                AssignTarget::Other => {},
            }
            let ghost v1 = diag_views(out@);
            assert(v1 =~= v0 + target_views(t@, *o, in_fn, **target));
            scan_expression(out, t, o, in_fn, right, ExprContext::Other);
            assert(diag_views(out@) =~= v0 + expr_views(t@, *o, in_fn, *e, ctx));
        },
        _ => {},
    }
}

/// The walk on binary, logical, conditional and unary expressions.
fn scan_operator(out: &mut Vec<Diagnostic>, t: &[char], o: &E18eOptions, in_fn: bool, e: &Expr, ctx: ExprContext)
    requires
        byte_len(t@) < u32::MAX,
        e is Binary || e is Logical || e is Conditional || e is Unary,
    ensures
        diag_views(final(out)@) == diag_views(old(out)@) + expr_views(t@, *o, in_fn, *e, ctx),
    decreases e, 1nat,
{
    match e {
        Expr::Binary { .. } => scan_binary(out, t, o, in_fn, e, ctx),
        Expr::Logical { .. } => scan_logical(out, t, o, in_fn, e, ctx),
        Expr::Conditional { .. } => scan_conditional(out, t, o, in_fn, e, ctx),
        Expr::Unary { .. } => scan_unary(out, t, o, in_fn, e, ctx),
        _ => {},
    }
}

/// The walk on a call.
fn scan_call(out: &mut Vec<Diagnostic>, t: &[char], o: &E18eOptions, in_fn: bool, e: &Expr, ctx: ExprContext)
    requires
        byte_len(t@) < u32::MAX,
        e is Call,
    ensures
        diag_views(final(out)@) == diag_views(old(out)@) + expr_views(t@, *o, in_fn, *e, ctx),
    decreases e, 0nat,
{
    let ghost v0 = diag_views(out@);
    match e {
        Expr::Call(c) => {
            check_call_expression(out, t, o, in_fn, c, ctx);
            let ghost mut acc: Seq<DiagView> = call_views(t@, *o, in_fn, **c, ctx);
            scan_expression(out, t, o, in_fn, &c.callee, ExprContext::Callee);
            proof {
                vstd::seq_lib::lemma_concat_associative(v0, acc, expr_views(t@, *o, in_fn, c.callee, ExprContext::Callee));
                acc = acc + expr_views(t@, *o, in_fn, c.callee, ExprContext::Callee);
            }
            scan_args(out, t, o, in_fn, &c.arguments);
            proof {
                vstd::seq_lib::lemma_concat_associative(v0, acc, args_views(t@, *o, in_fn, c.arguments@));
                acc = acc + args_views(t@, *o, in_fn, c.arguments@);
            }
            assert(acc == expr_views(t@, *o, in_fn, *e, ctx));
        },
        _ => {},
    }
}

/// The walk on a `new` expression.
fn scan_new(out: &mut Vec<Diagnostic>, t: &[char], o: &E18eOptions, in_fn: bool, e: &Expr, ctx: ExprContext)
    requires
        byte_len(t@) < u32::MAX,
        e is New,
    ensures
        diag_views(final(out)@) == diag_views(old(out)@) + expr_views(t@, *o, in_fn, *e, ctx),
    decreases e, 0nat,
{
    let ghost v0 = diag_views(out@);
    let depth: usize = if in_fn { 1 } else { 0 };
    match e {
        Expr::New(nw) => {
            check_prefer_static_regex_new(out, t, o, nw, depth);
            let ghost mut acc: Seq<DiagView> = emit(t@, o.rule_names@, static_regex_new(**nw, depth as nat));
            scan_expression(out, t, o, in_fn, &nw.callee, ExprContext::Callee);
            proof {
                vstd::seq_lib::lemma_concat_associative(v0, acc, expr_views(t@, *o, in_fn, nw.callee, ExprContext::Callee));
                acc = acc + expr_views(t@, *o, in_fn, nw.callee, ExprContext::Callee);
            }
            scan_args(out, t, o, in_fn, &nw.arguments);
            proof {
                vstd::seq_lib::lemma_concat_associative(v0, acc, args_views(t@, *o, in_fn, nw.arguments@));
                acc = acc + args_views(t@, *o, in_fn, nw.arguments@);
            }
            assert(acc == expr_views(t@, *o, in_fn, *e, ctx));
        },
        _ => {},
    }
}

/// The walk on a member access by name.
fn scan_static_member(out: &mut Vec<Diagnostic>, t: &[char], o: &E18eOptions, in_fn: bool, e: &Expr, ctx: ExprContext)
    requires
        byte_len(t@) < u32::MAX,
        e is StaticMember,
    ensures
        diag_views(final(out)@) == diag_views(old(out)@) + expr_views(t@, *o, in_fn, *e, ctx),
    decreases e, 0nat,
{
    let ghost v0 = diag_views(out@);
    match e {
        Expr::StaticMember(m) => {
            check_filter_length_member(out, t, o, m, ctx);
            let ghost mut acc: Seq<DiagView> = emit(t@, o.rule_names@, filter_length_member(t@, **m, ctx));
            scan_expression(out, t, o, in_fn, &m.object, ExprContext::MemberObject);
            proof {
                vstd::seq_lib::lemma_concat_associative(v0, acc, expr_views(t@, *o, in_fn, m.object, ExprContext::MemberObject));
                acc = acc + expr_views(t@, *o, in_fn, m.object, ExprContext::MemberObject);
            }
            assert(acc == expr_views(t@, *o, in_fn, *e, ctx));
        },
        _ => {},
    }
}

/// The walk on a computed member access.
fn scan_computed_member(out: &mut Vec<Diagnostic>, t: &[char], o: &E18eOptions, in_fn: bool, e: &Expr, ctx: ExprContext)
    requires
        byte_len(t@) < u32::MAX,
        e is ComputedMember,
    ensures
        diag_views(final(out)@) == diag_views(old(out)@) + expr_views(t@, *o, in_fn, *e, ctx),
    decreases e, 0nat,
{
    let ghost v0 = diag_views(out@);
    match e {
        Expr::ComputedMember { object, expression, span } => {
            check_prefer_array_at(out, t, o, object, expression, *span);
            let ghost mut acc: Seq<DiagView> = emit(t@, o.rule_names@, array_at(t@, **object, **expression, *span));
            scan_expression(out, t, o, in_fn, object, ExprContext::MemberObject);
            proof {
                vstd::seq_lib::lemma_concat_associative(v0, acc, expr_views(t@, *o, in_fn, **object, ExprContext::MemberObject));
                acc = acc + expr_views(t@, *o, in_fn, **object, ExprContext::MemberObject);
            }
            scan_expression(out, t, o, in_fn, expression, ExprContext::Other);
            proof {
                vstd::seq_lib::lemma_concat_associative(v0, acc, expr_views(t@, *o, in_fn, **expression, ExprContext::Other));
                acc = acc + expr_views(t@, *o, in_fn, **expression, ExprContext::Other);
            }
            assert(acc == expr_views(t@, *o, in_fn, *e, ctx));
        },
        _ => {},
    }
}

/// The walk on a binary expression.
fn scan_binary(out: &mut Vec<Diagnostic>, t: &[char], o: &E18eOptions, in_fn: bool, e: &Expr, ctx: ExprContext)
    requires
        byte_len(t@) < u32::MAX,
        e is Binary,
    ensures
        diag_views(final(out)@) == diag_views(old(out)@) + expr_views(t@, *o, in_fn, *e, ctx),
    decreases e, 0nat,
{
    let ghost v0 = diag_views(out@);
    match e {
        Expr::Binary { op, left, right, span } => {
            check_prefer_includes_binary(out, t, o, *op, left, right, *span);
            let ghost mut acc: Seq<DiagView> = emit(t@, o.rule_names@, includes_binary(t@, *op, **left, **right, *span));
            check_no_indexof_equality(out, t, o, *op, left, right, *span);
            proof {
                vstd::seq_lib::lemma_concat_associative(v0, acc, emit(t@, o.rule_names@, no_indexof_equality(t@, *op, **left, **right, *span)));
                acc = acc + emit(t@, o.rule_names@, no_indexof_equality(t@, *op, **left, **right, *span));
            }
            check_prefer_array_some_binary(out, t, o, *op, left, right, *span);
            proof {
                vstd::seq_lib::lemma_concat_associative(v0, acc, emit(t@, o.rule_names@, array_some_binary(t@, *op, **left, **right, *span)));
                acc = acc + emit(t@, o.rule_names@, array_some_binary(t@, *op, **left, **right, *span));
            }
            scan_expression(out, t, o, in_fn, left, ExprContext::Other);
            proof {
                vstd::seq_lib::lemma_concat_associative(v0, acc, expr_views(t@, *o, in_fn, **left, ExprContext::Other));
                acc = acc + expr_views(t@, *o, in_fn, **left, ExprContext::Other);
            }
            scan_expression(out, t, o, in_fn, right, ExprContext::Other);
            proof {
                vstd::seq_lib::lemma_concat_associative(v0, acc, expr_views(t@, *o, in_fn, **right, ExprContext::Other));
                acc = acc + expr_views(t@, *o, in_fn, **right, ExprContext::Other);
            }
            assert(acc == expr_views(t@, *o, in_fn, *e, ctx));
        },
        _ => {},
    }
}

/// The walk on a logical expression.
fn scan_logical(out: &mut Vec<Diagnostic>, t: &[char], o: &E18eOptions, in_fn: bool, e: &Expr, ctx: ExprContext)
    requires
        byte_len(t@) < u32::MAX,
        e is Logical,
    ensures
        diag_views(final(out)@) == diag_views(old(out)@) + expr_views(t@, *o, in_fn, *e, ctx),
    decreases e, 0nat,
{
    let ghost v0 = diag_views(out@);
    match e {
        Expr::Logical { left, right, .. } => {
            scan_expression(out, t, o, in_fn, left, ExprContext::Boolean);
            let ghost mut acc: Seq<DiagView> = expr_views(t@, *o, in_fn, **left, ExprContext::Boolean);
            scan_expression(out, t, o, in_fn, right, ExprContext::Boolean);
            proof {
                vstd::seq_lib::lemma_concat_associative(v0, acc, expr_views(t@, *o, in_fn, **right, ExprContext::Boolean));
                acc = acc + expr_views(t@, *o, in_fn, **right, ExprContext::Boolean);
            }
            assert(acc == expr_views(t@, *o, in_fn, *e, ctx));
        },
        _ => {},
    }
}

/// The walk on a conditional expression.
fn scan_conditional(out: &mut Vec<Diagnostic>, t: &[char], o: &E18eOptions, in_fn: bool, e: &Expr, ctx: ExprContext)
    requires
        byte_len(t@) < u32::MAX,
        e is Conditional,
    ensures
        diag_views(final(out)@) == diag_views(old(out)@) + expr_views(t@, *o, in_fn, *e, ctx),
    decreases e, 0nat,
{
    let ghost v0 = diag_views(out@);
    match e {
        Expr::Conditional { test, consequent, alternate, span } => {
            check_prefer_nullish_conditional(out, t, o, test, consequent, alternate, *span);
            let ghost mut acc: Seq<DiagView> = emit(t@, o.rule_names@, nullish_conditional(t@, **test, **consequent, **alternate, *span));
            scan_expression(out, t, o, in_fn, test, ExprContext::Boolean);
            proof {
                vstd::seq_lib::lemma_concat_associative(v0, acc, expr_views(t@, *o, in_fn, **test, ExprContext::Boolean));
                acc = acc + expr_views(t@, *o, in_fn, **test, ExprContext::Boolean);
            }
            scan_expression(out, t, o, in_fn, consequent, ExprContext::Other);
            proof {
                vstd::seq_lib::lemma_concat_associative(v0, acc, expr_views(t@, *o, in_fn, **consequent, ExprContext::Other));
                acc = acc + expr_views(t@, *o, in_fn, **consequent, ExprContext::Other);
            }
            scan_expression(out, t, o, in_fn, alternate, ExprContext::Other);
            proof {
                vstd::seq_lib::lemma_concat_associative(v0, acc, expr_views(t@, *o, in_fn, **alternate, ExprContext::Other));
                acc = acc + expr_views(t@, *o, in_fn, **alternate, ExprContext::Other);
            }
            assert(acc == expr_views(t@, *o, in_fn, *e, ctx));
        },
        _ => {},
    }
}

/// The walk on a unary expression.
fn scan_unary(out: &mut Vec<Diagnostic>, t: &[char], o: &E18eOptions, in_fn: bool, e: &Expr, ctx: ExprContext)
    requires
        byte_len(t@) < u32::MAX,
        e is Unary,
    ensures
        diag_views(final(out)@) == diag_views(old(out)@) + expr_views(t@, *o, in_fn, *e, ctx),
    decreases e, 0nat,
{
    let ghost v0 = diag_views(out@);
    match e {
        Expr::Unary { op, argument, span } => {
            check_prefer_includes_unary(out, t, o, *op, argument, *span);
            let ghost mut acc: Seq<DiagView> = emit(t@, o.rule_names@, includes_unary(t@, *op, **argument, *span));
            check_prefer_array_some_unary(out, t, o, *op, argument, *span);
            proof {
                vstd::seq_lib::lemma_concat_associative(v0, acc, emit(t@, o.rule_names@, array_some_unary(t@, *op, **argument, *span)));
                acc = acc + emit(t@, o.rule_names@, array_some_unary(t@, *op, **argument, *span));
            }
            check_prefer_date_now_unary(out, t, o, *op, argument, *span);
            proof {
                vstd::seq_lib::lemma_concat_associative(v0, acc, emit(t@, o.rule_names@, date_now_unary(*op, **argument, *span)));
                acc = acc + emit(t@, o.rule_names@, date_now_unary(*op, **argument, *span));
            }
            check_no_delete_property(out, t, o, *op, argument, *span, ctx);
            proof {
                vstd::seq_lib::lemma_concat_associative(v0, acc, emit(t@, o.rule_names@, no_delete_property(t@, *op, **argument, *span, ctx)));
                acc = acc + emit(t@, o.rule_names@, no_delete_property(t@, *op, **argument, *span, ctx));
            }
            scan_expression(out, t, o, in_fn, argument, ctx);
            proof {
                vstd::seq_lib::lemma_concat_associative(v0, acc, expr_views(t@, *o, in_fn, **argument, ctx));
                acc = acc + expr_views(t@, *o, in_fn, **argument, ctx);
            }
            assert(acc == expr_views(t@, *o, in_fn, *e, ctx));
        },
        _ => {},
    }
}

/// The walk on an `if` statement.
fn scan_if(out: &mut Vec<Diagnostic>, t: &[char], o: &E18eOptions, in_fn: bool, s: &Stmt)
    requires
        byte_len(t@) < u32::MAX,
        s is If,
    ensures
        diag_views(final(out)@) == diag_views(old(out)@) + stmt_views(t@, *o, in_fn, *s),
    decreases s, 0nat,
{
    let ghost v0 = diag_views(out@);
    match s {
        Stmt::If { test, consequent, alternate, span } => {
            check_prefer_nullish_assignment(out, t, o, test, consequent, alternate.is_some(), *span);
            let ghost mut acc: Seq<DiagView> = emit(t@, o.rule_names@, nullish_assignment(t@, *test, **consequent, alternate is Some, *span));
            scan_expression(out, t, o, in_fn, test, ExprContext::Boolean);
            proof {
                vstd::seq_lib::lemma_concat_associative(v0, acc, expr_views(t@, *o, in_fn, *test, ExprContext::Boolean));
                acc = acc + expr_views(t@, *o, in_fn, *test, ExprContext::Boolean);
            }
            scan_statement(out, t, o, in_fn, consequent);
            proof {
                vstd::seq_lib::lemma_concat_associative(v0, acc, stmt_views(t@, *o, in_fn, **consequent));
                acc = acc + stmt_views(t@, *o, in_fn, **consequent);
            }
            scan_optional_statement(out, t, o, in_fn, alternate);
            proof {
                vstd::seq_lib::lemma_concat_associative(v0, acc, opt_stmt_views(t@, *o, in_fn, *alternate));
                acc = acc + opt_stmt_views(t@, *o, in_fn, *alternate);
            }
            assert(acc == stmt_views(t@, *o, in_fn, *s));
        },
        _ => {},
    }
}

/// The walk on tagged templates and `import(..)`.
fn scan_other(out: &mut Vec<Diagnostic>, t: &[char], o: &E18eOptions, in_fn: bool, e: &Expr, ctx: ExprContext)
    requires
        byte_len(t@) < u32::MAX,
        e is TaggedTemplate || e is Import,
    ensures
        diag_views(final(out)@) == diag_views(old(out)@) + expr_views(t@, *o, in_fn, *e, ctx),
    decreases e, 0nat,
{
    let ghost v0 = diag_views(out@);
    match e {
        Expr::TaggedTemplate { tag, expressions, .. } => {
            scan_expression(out, t, o, in_fn, tag, ExprContext::Callee);
            scan_expressions(out, t, o, in_fn, expressions);
            assert(diag_views(out@) =~= v0 + expr_views(t@, *o, in_fn, *e, ctx));
        },
        Expr::Import { source, options, .. } => {
            if let Expr::Str { value, span } = get_inner_expression(source) {
                push_ban(out, t, o, value.as_str(), *span);
            } else {
                assert(diag_views(out@) =~= v0 + Seq::<DiagView>::empty());
            }
            let ghost v1 = diag_views(out@);
            scan_expression(out, t, o, in_fn, source, ExprContext::Other);
            let ghost v2 = diag_views(out@);
            match options {
                Some(x) => scan_expression(out, t, o, in_fn, x, ExprContext::Other),
                None => {
                    assert(diag_views(out@) =~= v2 + Seq::<DiagView>::empty());
                },
            }
            assert(diag_views(out@) =~= v0 + expr_views(t@, *o, in_fn, *e, ctx));
        },
        _ => {},
    }
}

/// Appends the reports below arguments, in order.
fn scan_args(out: &mut Vec<Diagnostic>, t: &[char], o: &E18eOptions, in_fn: bool, args: &Vec<Arg>)
    requires
        byte_len(t@) < u32::MAX,
    ensures
        diag_views(final(out)@) == diag_views(old(out)@) + args_views(t@, *o, in_fn, args@),
    decreases args, 0nat,
{
    let ghost base = diag_views(out@);
    let mut i: usize = 0;
    while i < args.len()
        invariant
            i <= args@.len(),
            byte_len(t@) < u32::MAX,
            diag_views(out@) == base + args_views(t@, *o, in_fn, args@.take(i as int)),
        decreases args@.len() - i,
    {
        proof {
            assert(args@.take(i + 1).drop_last() =~= args@.take(i as int));
            assert(args@.take(i + 1).last() == args@[i as int]);
        }
        match &args[i] {
            Arg::Expr(x) => scan_expression(out, t, o, in_fn, x, ExprContext::Other),
            Arg::Spread { argument, .. } => scan_expression(out, t, o, in_fn, argument, ExprContext::Other),
        }
        assert(diag_views(out@) =~= base + args_views(t@, *o, in_fn, args@.take(i + 1)));
        i = i + 1;
    }
    assert(args@.take(args@.len() as int) =~= args@);
}

/// Appends the reports below the elements of an array, in order.
fn scan_elements(out: &mut Vec<Diagnostic>, t: &[char], o: &E18eOptions, in_fn: bool, es: &Vec<ArrayElem>)
    requires
        byte_len(t@) < u32::MAX,
    ensures
        diag_views(final(out)@) == diag_views(old(out)@) + elems_views(t@, *o, in_fn, es@),
    decreases es, 0nat,
{
    let ghost base = diag_views(out@);
    let mut i: usize = 0;
    while i < es.len()
        invariant
            i <= es@.len(),
            byte_len(t@) < u32::MAX,
            diag_views(out@) == base + elems_views(t@, *o, in_fn, es@.take(i as int)),
        decreases es@.len() - i,
    {
        proof {
            assert(es@.take(i + 1).drop_last() =~= es@.take(i as int));
            assert(es@.take(i + 1).last() == es@[i as int]);
        }
        match &es[i] {
            ArrayElem::Expr(x) => scan_expression(out, t, o, in_fn, x, ExprContext::Other),
            ArrayElem::Spread { argument, .. } => scan_expression(out, t, o, in_fn, argument, ExprContext::Other),
            ArrayElem::Hole => {
                assert(diag_views(out@) =~= diag_views(out@) + Seq::<DiagView>::empty());
            },
        }
        assert(diag_views(out@) =~= base + elems_views(t@, *o, in_fn, es@.take(i + 1)));
        i = i + 1;
    }
    assert(es@.take(es@.len() as int) =~= es@);
}

/// Appends the reports below the members of an object, in order.
fn scan_properties(out: &mut Vec<Diagnostic>, t: &[char], o: &E18eOptions, in_fn: bool, ps: &Vec<Property>)
    requires
        byte_len(t@) < u32::MAX,
    ensures
        diag_views(final(out)@) == diag_views(old(out)@) + props_views(t@, *o, in_fn, ps@),
    decreases ps, 0nat,
{
    let ghost base = diag_views(out@);
    let mut i: usize = 0;
    while i < ps.len()
        invariant
            i <= ps@.len(),
            byte_len(t@) < u32::MAX,
            diag_views(out@) == base + props_views(t@, *o, in_fn, ps@.take(i as int)),
        decreases ps@.len() - i,
    {
        proof {
            assert(ps@.take(i + 1).drop_last() =~= ps@.take(i as int));
            assert(ps@.take(i + 1).last() == ps@[i as int]);
        }
        match &ps[i] {
            Property::Property { value, .. } => scan_expression(out, t, o, in_fn, value, ExprContext::Other),
            Property::Spread { argument } => scan_expression(out, t, o, in_fn, argument, ExprContext::Other),
        }
        assert(diag_views(out@) =~= base + props_views(t@, *o, in_fn, ps@.take(i + 1)));
        i = i + 1;
    }
    assert(ps@.take(ps@.len() as int) =~= ps@);
}

/// Appends the reports below expressions, in order.
fn scan_expressions(out: &mut Vec<Diagnostic>, t: &[char], o: &E18eOptions, in_fn: bool, es: &Vec<Expr>)
    requires
        byte_len(t@) < u32::MAX,
    ensures
        diag_views(final(out)@) == diag_views(old(out)@) + exprs_views(t@, *o, in_fn, es@),
    decreases es, 0nat,
{
    let ghost base = diag_views(out@);
    let mut i: usize = 0;
    while i < es.len()
        invariant
            i <= es@.len(),
            byte_len(t@) < u32::MAX,
            diag_views(out@) == base + exprs_views(t@, *o, in_fn, es@.take(i as int)),
        decreases es@.len() - i,
    {
        proof {
            assert(es@.take(i + 1).drop_last() =~= es@.take(i as int));
            assert(es@.take(i + 1).last() == es@[i as int]);
        }
        scan_expression(out, t, o, in_fn, &es[i], ExprContext::Other);
        assert(diag_views(out@) =~= base + exprs_views(t@, *o, in_fn, es@.take(i + 1)));
        i = i + 1;
    }
    assert(es@.take(es@.len() as int) =~= es@);
}

/// Appends the reports in a function's body.
fn scan_function(out: &mut Vec<Diagnostic>, t: &[char], o: &E18eOptions, f: &Function)
    requires
        byte_len(t@) < u32::MAX,
    ensures
        diag_views(final(out)@) == diag_views(old(out)@) + function_views(t@, *o, *f),
    decreases f, 0nat,
{
    match &f.body {
        Some(b) => scan_statements(out, t, o, true, b),
        None => {
            assert(diag_views(out@) =~= diag_views(out@) + Seq::<DiagView>::empty());
        },
    }
}

/// Appends the reports in a class.
fn scan_class(out: &mut Vec<Diagnostic>, t: &[char], o: &E18eOptions, in_fn: bool, c: &Class)
    requires
        byte_len(t@) < u32::MAX,
    ensures
        diag_views(final(out)@) == diag_views(old(out)@) + class_views(t@, *o, in_fn, *c),
    decreases c, 0nat,
{
    let ghost v0 = diag_views(out@);
    match &c.super_class {
        Some(x) => scan_expression(out, t, o, in_fn, x, ExprContext::Other),
        None => {
            assert(diag_views(out@) =~= v0 + Seq::<DiagView>::empty());
        },
    }
    scan_class_elements(out, t, o, in_fn, &c.elements);
    assert(diag_views(out@) =~= v0 + class_views(t@, *o, in_fn, *c));
}

/// Appends the reports in class elements, in order.
fn scan_class_elements(out: &mut Vec<Diagnostic>, t: &[char], o: &E18eOptions, in_fn: bool, es: &Vec<ClassElem>)
    requires
        byte_len(t@) < u32::MAX,
    ensures
        diag_views(final(out)@) == diag_views(old(out)@) + class_elems_views(t@, *o, in_fn, es@),
    decreases es, 0nat,
{
    let ghost base = diag_views(out@);
    let mut i: usize = 0;
    while i < es.len()
        invariant
            i <= es@.len(),
            byte_len(t@) < u32::MAX,
            diag_views(out@) == base + class_elems_views(t@, *o, in_fn, es@.take(i as int)),
        decreases es@.len() - i,
    {
        proof {
            assert(es@.take(i + 1).drop_last() =~= es@.take(i as int));
            assert(es@.take(i + 1).last() == es@[i as int]);
        }
        match &es[i] {
            ClassElem::Method(f) => scan_function(out, t, o, f),
            ClassElem::Property(Some(x)) => scan_expression(out, t, o, in_fn, x, ExprContext::Other),
            ClassElem::Accessor(Some(x)) => scan_expression(out, t, o, in_fn, x, ExprContext::Other),
            ClassElem::StaticBlock(b) => scan_statements(out, t, o, in_fn, b),
            _ => {
                assert(diag_views(out@) =~= diag_views(out@) + Seq::<DiagView>::empty());
            },
        }
        assert(diag_views(out@) =~= base + class_elems_views(t@, *o, in_fn, es@.take(i + 1)));
        i = i + 1;
    }
    assert(es@.take(es@.len() as int) =~= es@);
}

/// Appends the reports in initializers, in order.
fn scan_inits(out: &mut Vec<Diagnostic>, t: &[char], o: &E18eOptions, in_fn: bool, inits: &Vec<Option<Expr>>)
    requires
        byte_len(t@) < u32::MAX,
    ensures
        diag_views(final(out)@) == diag_views(old(out)@) + inits_views(t@, *o, in_fn, inits@),
    decreases inits, 0nat,
{
    let ghost base = diag_views(out@);
    let mut i: usize = 0;
    while i < inits.len()
        invariant
            i <= inits@.len(),
            byte_len(t@) < u32::MAX,
            diag_views(out@) == base + inits_views(t@, *o, in_fn, inits@.take(i as int)),
        decreases inits@.len() - i,
    {
        proof {
            assert(inits@.take(i + 1).drop_last() =~= inits@.take(i as int));
            assert(inits@.take(i + 1).last() == inits@[i as int]);
        }
        match &inits[i] {
            Some(x) => scan_expression(out, t, o, in_fn, x, ExprContext::Other),
            None => {
                assert(diag_views(out@) =~= diag_views(out@) + Seq::<DiagView>::empty());
            },
        }
        assert(diag_views(out@) =~= base + inits_views(t@, *o, in_fn, inits@.take(i + 1)));
        i = i + 1;
    }
    assert(inits@.take(inits@.len() as int) =~= inits@);
}

/// Appends the reports in an exported declaration.
fn scan_declaration(out: &mut Vec<Diagnostic>, t: &[char], o: &E18eOptions, in_fn: bool, d: &Decl)
    requires
        byte_len(t@) < u32::MAX,
    ensures
        diag_views(final(out)@) == diag_views(old(out)@) + decl_views(t@, *o, in_fn, *d),
    decreases d, 0nat,
{
    match d {
        Decl::Var(v) => scan_inits(out, t, o, in_fn, &v.inits),
        Decl::Function(f) => scan_function(out, t, o, f),
        Decl::Class(c) => scan_class(out, t, o, in_fn, c),
        Decl::Other => {
            assert(diag_views(out@) =~= diag_views(out@) + Seq::<DiagView>::empty());
        },
    }
}

/// Appends the reports in the cases of a `switch`, in order.
fn scan_cases(out: &mut Vec<Diagnostic>, t: &[char], o: &E18eOptions, in_fn: bool, cs: &Vec<SwitchCase>)
    requires
        byte_len(t@) < u32::MAX,
    ensures
        diag_views(final(out)@) == diag_views(old(out)@) + cases_views(t@, *o, in_fn, cs@),
    decreases cs, 0nat,
{
    let ghost base = diag_views(out@);
    let mut i: usize = 0;
    while i < cs.len()
        invariant
            i <= cs@.len(),
            byte_len(t@) < u32::MAX,
            diag_views(out@) == base + cases_views(t@, *o, in_fn, cs@.take(i as int)),
        decreases cs@.len() - i,
    {
        proof {
            assert(cs@.take(i + 1).drop_last() =~= cs@.take(i as int));
            assert(cs@.take(i + 1).last() == cs@[i as int]);
        }
        let case = &cs[i];
        let ghost v1 = diag_views(out@);
        match &case.test {
            Some(x) => scan_expression(out, t, o, in_fn, x, ExprContext::Other),
            None => {
                assert(diag_views(out@) =~= v1 + Seq::<DiagView>::empty());
            },
        }
        scan_statements(out, t, o, in_fn, &case.consequent);
        assert(diag_views(out@) =~= base + cases_views(t@, *o, in_fn, cs@.take(i + 1)));
        i = i + 1;
    }
    assert(cs@.take(cs@.len() as int) =~= cs@);
}

/// Appends the reports in statements, in order.
pub fn scan_statements(out: &mut Vec<Diagnostic>, t: &[char], o: &E18eOptions, in_fn: bool, ss: &Vec<Stmt>)
    requires
        byte_len(t@) < u32::MAX,
    ensures
        diag_views(final(out)@) == diag_views(old(out)@) + stmts_views(t@, *o, in_fn, ss@),
    decreases ss, 0nat,
{
    let ghost base = diag_views(out@);
    let mut i: usize = 0;
    while i < ss.len()
        invariant
            i <= ss@.len(),
            byte_len(t@) < u32::MAX,
            diag_views(out@) == base + stmts_views(t@, *o, in_fn, ss@.take(i as int)),
        decreases ss@.len() - i,
    {
        proof {
            assert(ss@.take(i + 1).drop_last() =~= ss@.take(i as int));
            assert(ss@.take(i + 1).last() == ss@[i as int]);
        }
        scan_statement(out, t, o, in_fn, &ss[i]);
        assert(diag_views(out@) =~= base + stmts_views(t@, *o, in_fn, ss@.take(i + 1)));
        i = i + 1;
    }
    assert(ss@.take(ss@.len() as int) =~= ss@);
}

/// Appends the reports of the walk in a statement.
pub fn scan_statement(out: &mut Vec<Diagnostic>, t: &[char], o: &E18eOptions, in_fn: bool, s: &Stmt)
    requires
        byte_len(t@) < u32::MAX,
    ensures
        diag_views(final(out)@) == diag_views(old(out)@) + stmt_views(t@, *o, in_fn, *s),
    decreases s, 2nat,
{
    let ghost v0 = diag_views(out@);
    match s {
        Stmt::Block(b) => scan_statements(out, t, o, in_fn, b),
        Stmt::Expression(e) => scan_expression(out, t, o, in_fn, e, ExprContext::Statement),
        Stmt::Var(v) => scan_inits(out, t, o, in_fn, &v.inits),
        Stmt::Function(f) => scan_function(out, t, o, f),
        Stmt::Class(c) => scan_class(out, t, o, in_fn, c),
        Stmt::Return(a) => match a {
            Some(x) => scan_expression(out, t, o, in_fn, x, ExprContext::Return),
            None => {
                assert(diag_views(out@) =~= v0 + Seq::<DiagView>::empty());
            },
        },
        Stmt::If { .. } | Stmt::For { .. } | Stmt::ForInOf { .. } => scan_branching(out, t, o, in_fn, s),
        Stmt::DoWhile { .. } | Stmt::While { .. } | Stmt::Switch { .. } | Stmt::Try { .. } | Stmt::With { .. } => {
            scan_looping(out, t, o, in_fn, s);
        },
        Stmt::Throw(e) => scan_expression(out, t, o, in_fn, e, ExprContext::Other),
        Stmt::Import(src) => push_ban(out, t, o, src.value.as_str(), src.span),
        Stmt::ExportNamed { source, declaration } => {
            match source {
                Some(src) => push_ban(out, t, o, src.value.as_str(), src.span),
                None => {
                    assert(diag_views(out@) =~= v0 + Seq::<DiagView>::empty());
                },
            }
            let ghost v1 = diag_views(out@);
            match declaration {
                Some(d) => scan_declaration(out, t, o, in_fn, d),
                None => {
                    assert(diag_views(out@) =~= v1 + Seq::<DiagView>::empty());
                },
            }
            assert(diag_views(out@) =~= v0 + stmt_views(t@, *o, in_fn, *s));
        },
        Stmt::ExportAll(src) => push_ban(out, t, o, src.value.as_str(), src.span),
        Stmt::ExportDefault(d) => match d {
            DefaultExport::Function(f) => scan_function(out, t, o, f),
            DefaultExport::Class(c) => scan_class(out, t, o, in_fn, c),
            DefaultExport::Expr(x) => scan_expression(out, t, o, in_fn, x, ExprContext::Other),
            DefaultExport::Other => {
                assert(diag_views(out@) =~= v0 + Seq::<DiagView>::empty());
            },
        },
        Stmt::Labeled(b) => scan_statement(out, t, o, in_fn, b),
        Stmt::Other => {
            assert(diag_views(out@) =~= v0 + Seq::<DiagView>::empty());
        },
    }
}

/// Appends the reports in a statement, if there is one.
fn scan_optional_statement(out: &mut Vec<Diagnostic>, t: &[char], o: &E18eOptions, in_fn: bool, s: &Option<Box<Stmt>>)
    requires
        byte_len(t@) < u32::MAX,
    ensures
        diag_views(final(out)@) == diag_views(old(out)@) + opt_stmt_views(t@, *o, in_fn, *s),
    decreases s, 0nat,
{
    match s {
        Some(a) => scan_statement(out, t, o, in_fn, a),
        None => {
            assert(diag_views(out@) =~= diag_views(out@) + Seq::<DiagView>::empty());
        },
    }
}

/// Appends the reports below an expression, if there is one.
fn scan_optional_expression(out: &mut Vec<Diagnostic>, t: &[char], o: &E18eOptions, in_fn: bool, x: &Option<Expr>, ctx: ExprContext)
    requires
        byte_len(t@) < u32::MAX,
    ensures
        diag_views(final(out)@) == diag_views(old(out)@) + opt_expr_views(t@, *o, in_fn, *x, ctx),
    decreases x, 0nat,
{
    match x {
        Some(e) => scan_expression(out, t, o, in_fn, e, ctx),
        None => {
            assert(diag_views(out@) =~= diag_views(out@) + Seq::<DiagView>::empty());
        },
    }
}

/// Appends the reports in the start of a `for` loop.
fn scan_for_init(out: &mut Vec<Diagnostic>, t: &[char], o: &E18eOptions, in_fn: bool, init: &Option<ForInit>)
    requires
        byte_len(t@) < u32::MAX,
    ensures
        diag_views(final(out)@) == diag_views(old(out)@) + for_init_views(t@, *o, in_fn, *init),
    decreases init, 0nat,
{
    match init {
        Some(ForInit::Var(v)) => scan_inits(out, t, o, in_fn, &v.inits),
        Some(ForInit::Expr(x)) => scan_expression(out, t, o, in_fn, x, ExprContext::Other),
        None => {
            assert(diag_views(out@) =~= diag_views(out@) + Seq::<DiagView>::empty());
        },
    }
}

/// The walk on a `for` statement.
fn scan_for(out: &mut Vec<Diagnostic>, t: &[char], o: &E18eOptions, in_fn: bool, s: &Stmt)
    requires
        byte_len(t@) < u32::MAX,
        s is For,
    ensures
        diag_views(final(out)@) == diag_views(old(out)@) + stmt_views(t@, *o, in_fn, *s),
    decreases s, 0nat,
{
    let ghost v0 = diag_views(out@);
    match s {
        Stmt::For { init, test, update, body } => {
            scan_for_init(out, t, o, in_fn, init);
            let ghost mut acc: Seq<DiagView> = for_init_views(t@, *o, in_fn, *init);
            scan_optional_expression(out, t, o, in_fn, test, ExprContext::Boolean);
            proof {
                vstd::seq_lib::lemma_concat_associative(v0, acc, opt_expr_views(t@, *o, in_fn, *test, ExprContext::Boolean));
                acc = acc + opt_expr_views(t@, *o, in_fn, *test, ExprContext::Boolean);
            }
            scan_optional_expression(out, t, o, in_fn, update, ExprContext::Other);
            proof {
                vstd::seq_lib::lemma_concat_associative(v0, acc, opt_expr_views(t@, *o, in_fn, *update, ExprContext::Other));
                acc = acc + opt_expr_views(t@, *o, in_fn, *update, ExprContext::Other);
            }
            scan_statement(out, t, o, in_fn, body);
            proof {
                vstd::seq_lib::lemma_concat_associative(v0, acc, stmt_views(t@, *o, in_fn, **body));
                acc = acc + stmt_views(t@, *o, in_fn, **body);
            }
            assert(acc == stmt_views(t@, *o, in_fn, *s));
        },
        _ => {},
    }
}

/// The walk on `if` and `for` statements.
fn scan_branching(out: &mut Vec<Diagnostic>, t: &[char], o: &E18eOptions, in_fn: bool, s: &Stmt)
    requires
        byte_len(t@) < u32::MAX,
        s is If || s is For || s is ForInOf,
    ensures
        diag_views(final(out)@) == diag_views(old(out)@) + stmt_views(t@, *o, in_fn, *s),
    decreases s, 1nat,
{
    let ghost v0 = diag_views(out@);
    match s {
        Stmt::If { .. } => scan_if(out, t, o, in_fn, s),
        Stmt::For { .. } => scan_for(out, t, o, in_fn, s),
        Stmt::ForInOf { left, right, body } => {
            match left {
                Some(v) => scan_inits(out, t, o, in_fn, &v.inits),
                None => {
                    assert(diag_views(out@) =~= v0 + Seq::<DiagView>::empty());
                },
            }
            scan_expression(out, t, o, in_fn, right, ExprContext::Other);
            scan_statement(out, t, o, in_fn, body);
            assert(diag_views(out@) =~= v0 + stmt_views(t@, *o, in_fn, *s));
        },
        _ => {},
    }
}

/// The walk on loops, `switch`, `try` and `with`.
fn scan_looping(out: &mut Vec<Diagnostic>, t: &[char], o: &E18eOptions, in_fn: bool, s: &Stmt)
    requires
        byte_len(t@) < u32::MAX,
        s is DoWhile || s is While || s is Switch || s is Try || s is With,
    ensures
        diag_views(final(out)@) == diag_views(old(out)@) + stmt_views(t@, *o, in_fn, *s),
    decreases s, 0nat,
{
    let ghost v0 = diag_views(out@);
    match s {
        Stmt::DoWhile { body, test } => {
            scan_statement(out, t, o, in_fn, body);
            scan_expression(out, t, o, in_fn, test, ExprContext::Boolean);
            assert(diag_views(out@) =~= v0 + stmt_views(t@, *o, in_fn, *s));
        },
        Stmt::While { test, body } => {
            scan_expression(out, t, o, in_fn, test, ExprContext::Boolean);
            scan_statement(out, t, o, in_fn, body);
            assert(diag_views(out@) =~= v0 + stmt_views(t@, *o, in_fn, *s));
        },
        Stmt::Switch { discriminant, cases } => {
            scan_expression(out, t, o, in_fn, discriminant, ExprContext::Other);
            scan_cases(out, t, o, in_fn, cases);
            assert(diag_views(out@) =~= v0 + stmt_views(t@, *o, in_fn, *s));
        },
        Stmt::Try { block, handler, finalizer, span } => {
            check_prefer_url_canparse(out, t, o, block, handler, *span);
            scan_statements(out, t, o, in_fn, block);
            let ghost v1 = diag_views(out@);
            match handler {
                Some(h) => scan_statements(out, t, o, in_fn, h),
                None => {
                    assert(diag_views(out@) =~= v1 + Seq::<DiagView>::empty());
                },
            }
            let ghost v2 = diag_views(out@);
            match finalizer {
                Some(f) => scan_statements(out, t, o, in_fn, f),
                None => {
                    assert(diag_views(out@) =~= v2 + Seq::<DiagView>::empty());
                },
            }
            assert(diag_views(out@) =~= v0 + stmt_views(t@, *o, in_fn, *s));
        },
        Stmt::With { object, body } => {
            scan_expression(out, t, o, in_fn, object, ExprContext::Other);
            scan_statement(out, t, o, in_fn, body);
            assert(diag_views(out@) =~= v0 + stmt_views(t@, *o, in_fn, *s));
        },
        _ => {},
    }
}

} // verus!
