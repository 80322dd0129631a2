//! The e18e rules on operators, member accesses, conditionals and
//! statements: `prefer-includes`, `no-indexof-equality`,
//! `prefer-array-some`, `prefer-date-now`, `no-delete-property`,
//! `prefer-array-at`, `prefer-nullish-coalescing`, `prefer-url-canparse`
//! and `prefer-static-regex`.
use vstd::prelude::*;
use crate::text::{byte_len, str_eq};
use super::ast::{
    Expr, CallExpr, NewExpr, StaticMember, Arg, Stmt, Span, BinaryOp, UnaryOp, AssignOp, inner,
    get_inner_expression, span_of, expr_span, arg_span,
};
use super::source::{txt, Report, DataView, no_data, plain, emit, diag_views, push_report, push_text, push_lit, text_of, empty_data, same_text, DiagView};
use super::syntax::{
    method_call, is_method_call, member_callee, static_member_callee, num_value, numeric_literal_value,
    is_number, is_undefined_value, is_undefined_constant, new_date_no_args, is_new_date_no_args,
    is_ident, is_identifier_named, static_regexp, static_regexp_args, returns_boolean, return_boolean,
};
use super::shapes::{
    index_of_comparison, binary_index_of_comparison, normalized, normalize_operator, includes_negation,
    includes_negation_for_constant, find_or_filter_comparison, find_or_filter_compare, find_or_filter_length,
    find_call_or_filter_length, nullish_test, nullish_check, single_expression, single_expression_statement,
};
use super::strings::{join, views, push_joined, decimal, push_decimal};
use super::array_rules::{tx, ta};
use super::call_rules::{ExprContext, arg_texts, argument_texts, array_some_report, report_array_some};
use super::dependencies::{Diagnostic, E18eOptions};

verus! {

/// `prefer-includes` over `sp`: the `indexOf` call's object, `.includes(`
/// and its arguments, negated with `!` when `negate`.
#[verifier::opaque]
pub open spec fn index_of_as_includes(t: Seq<char>, sp: Span, c: CallExpr, negate: bool) -> Option<Report> {
    match member_callee(c) {
        Some(m) => {
            let bang: Seq<char> = if negate { "!"@ } else { Seq::empty() };
            Some(plain("prefer-includes", "preferIncludes", sp,
                Some(bang + tx(t, m.object) + ".includes("@ + join(arg_texts(t, c.arguments@, 0), ", "@) + ")"@)))
        },
        None => None,
    }
}

/// Appends the `prefer-includes` report over `sp`.
fn report_index_of_as_includes(out: &mut Vec<Diagnostic>, t: &[char], o: &E18eOptions, sp: Span, c: &CallExpr, negate: bool)
    requires
        byte_len(t@) < u32::MAX,
    ensures
        diag_views(final(out)@) == diag_views(old(out)@) + emit(t@, o.rule_names@, index_of_as_includes(t@, sp, *c, negate)),
{
    proof {
        reveal(index_of_as_includes);
    }
    let m = match static_member_callee(c) {
        Some(m) => m,
        None => return,
    };
    let args = argument_texts(t, &c.arguments, 0);
    let mut r = String::new();
    if negate {
        push_lit(&mut r, "!");
    }
    push_text(&mut r, t, expr_span(&m.object));
    push_lit(&mut r, ".includes(");
    push_joined(&mut r, &args, ", ");
    push_lit(&mut r, ")");
    proof {
        let bang: Seq<char> = if negate { "!"@ } else { Seq::empty() };
        assert(r@ =~= bang + tx(t@, m.object) + ".includes("@ + join(arg_texts(t@, c.arguments@, 0), ", "@) + ")"@);
    }
    push_report(out, t, o, "prefer-includes", "preferIncludes", empty_data(), sp, Some(r));
}

/// `prefer-includes` on a comparison: `a.indexOf(x) !== -1` and the like
/// become `a.includes(x)`, the tests for absence `!a.includes(x)`.
#[verifier::opaque]
pub open spec fn includes_binary(t: Seq<char>, op: BinaryOp, left: Expr, right: Expr, sp: Span) -> Option<Report> {
    match index_of_comparison(left, right) {
        Some((c, constant, reversed)) => match includes_negation(normalized(op, reversed), constant) {
            Some(negate) => index_of_as_includes(t, sp, c, negate),
            None => None,
        },
        None => None,
    }
}

/// `prefer-includes` on a comparison.
pub fn check_prefer_includes_binary(out: &mut Vec<Diagnostic>, t: &[char], o: &E18eOptions, op: BinaryOp, left: &Expr, right: &Expr, sp: Span)
    requires
        byte_len(t@) < u32::MAX,
    ensures
        diag_views(final(out)@) == diag_views(old(out)@) + emit(t@, o.rule_names@, includes_binary(t@, op, *left, *right, sp)),
{
    proof {
        reveal(includes_binary);
    }
    let (c, constant, reversed) = match binary_index_of_comparison(left, right) {
        Some(x) => x,
        None => return,
    };
    let negate = match includes_negation_for_constant(normalize_operator(op, reversed), constant) {
        Some(n) => n,
        None => return,
    };
    report_index_of_as_includes(out, t, o, sp, c, negate);
}

/// `prefer-includes` on `~a.indexOf(x)` and `!~a.indexOf(x)`.
#[verifier::opaque]
pub open spec fn includes_unary(t: Seq<char>, op: UnaryOp, argument: Expr, sp: Span) -> Option<Report> {
    if op == UnaryOp::BitwiseNot {
        match inner(argument) {
            Expr::Call(c) => if method_call(*c, "indexOf"@) {
                index_of_as_includes(t, sp, *c, false)
            } else {
                None
            },
            _ => None,
        }
    } else if op == UnaryOp::LogicalNot {
        match inner(argument) {
            Expr::Unary { op: UnaryOp::BitwiseNot, argument: a, .. } => match inner(*a) {
                Expr::Call(c) => if method_call(*c, "indexOf"@) {
                    index_of_as_includes(t, sp, *c, true)
                } else {
                    None
                },
                _ => None,
            },
            _ => None,
        }
    } else {
        None
    }
}

/// `prefer-includes` on a unary expression.
pub fn check_prefer_includes_unary(out: &mut Vec<Diagnostic>, t: &[char], o: &E18eOptions, op: UnaryOp, argument: &Expr, sp: Span)
    requires
        byte_len(t@) < u32::MAX,
    ensures
        diag_views(final(out)@) == diag_views(old(out)@) + emit(t@, o.rule_names@, includes_unary(t@, op, *argument, sp)),
{
    proof {
        reveal(includes_unary);
    }
    if op == UnaryOp::BitwiseNot {
        if let Expr::Call(c) = get_inner_expression(argument) {
            if is_method_call(c, "indexOf") {
                report_index_of_as_includes(out, t, o, sp, c, false);
            }
        }
    } else if op == UnaryOp::LogicalNot {
        if let Expr::Unary { op: UnaryOp::BitwiseNot, argument: a, .. } = get_inner_expression(argument) {
            if let Expr::Call(c) = get_inner_expression(a) {
                if is_method_call(c, "indexOf") {
                    report_index_of_as_includes(out, t, o, sp, c, true);
                }
            }
        }
    }
}

/// The data of `no-indexof-equality` for direct access.
pub open spec fn direct_access_data(array: Seq<char>, item: Seq<char>, index: Seq<char>) -> DataView {
    DataView { array: Some(array), item: Some(item), index: Some(index), ..no_data() }
}

/// `no-indexof-equality`: `a.indexOf(x) === 0` becomes `a.startsWith(x)`
/// and `a.indexOf(x) === n` becomes `a[n] === x`, for an integer `n` of
/// zero or more.
#[verifier::opaque]
pub open spec fn no_indexof_equality(t: Seq<char>, op: BinaryOp, left: Expr, right: Expr, sp: Span) -> Option<Report> {
    if !(op == BinaryOp::Equality || op == BinaryOp::StrictEquality) {
        None
    } else {
        match index_of_comparison(left, right) {
            Some((c, constant, _)) => match num_value(constant) {
                Some(Some(v)) => if v < 0 || c.arguments@.len() == 0 {
                    None
                } else {
                    match member_callee(c) {
                        Some(m) => {
                            let object = tx(t, m.object);
                            let search = ta(t, c.arguments@[0]);
                            if v == 0 {
                                Some(plain("no-indexof-equality", "preferStartsWith", sp,
                                    Some(object + ".startsWith("@ + search + ")"@)))
                            } else {
                                let index = decimal(v as nat);
                                Some(Report {
                                    rule: "no-indexof-equality",
                                    message: "preferDirectAccess",
                                    data: direct_access_data(object, search, index),
                                    span: sp,
                                    fix: Some(object + "["@ + index + "] === "@ + search),
                                })
                            }
                        },
                        None => None,
                    }
                },
                _ => None,
            },
            None => None,
        }
    }
}

/// `no-indexof-equality` on a comparison.
pub fn check_no_indexof_equality(out: &mut Vec<Diagnostic>, t: &[char], o: &E18eOptions, op: BinaryOp, left: &Expr, right: &Expr, sp: Span)
    requires
        byte_len(t@) < u32::MAX,
    ensures
        diag_views(final(out)@) == diag_views(old(out)@) + emit(t@, o.rule_names@, no_indexof_equality(t@, op, *left, *right, sp)),
{
    proof {
        reveal(no_indexof_equality);
    }
    if !(op == BinaryOp::Equality || op == BinaryOp::StrictEquality) {
        return;
    }
    let (c, constant, _) = match binary_index_of_comparison(left, right) {
        Some(x) => x,
        None => return,
    };
    let v = match numeric_literal_value(constant) {
        Some(Some(v)) => v,
        _ => return,
    };
    if v < 0 || c.arguments.len() == 0 {
        return;
    }
    let m = match static_member_callee(c) {
        Some(m) => m,
        None => return,
    };
    let object = text_of(t, expr_span(&m.object));
    let search = text_of(t, arg_span(&c.arguments[0]));
    if v == 0 {
        let mut r = String::new();
        push_lit(&mut r, object.as_str());
        push_lit(&mut r, ".startsWith(");
        push_lit(&mut r, search.as_str());
        push_lit(&mut r, ")");
        push_report(out, t, o, "no-indexof-equality", "preferStartsWith", empty_data(), sp, Some(r));
    } else {
        let mut index = String::new();
        push_decimal(&mut index, v as u64);
        let mut r = String::new();
        push_lit(&mut r, object.as_str());
        push_lit(&mut r, "[");
        push_lit(&mut r, index.as_str());
        push_lit(&mut r, "] === ");
        push_lit(&mut r, search.as_str());
        let mut data = empty_data();
        data.array = Some(object);
        data.item = Some(search);
        data.index = Some(index);
        assert(Seq::<char>::empty() + decimal(v as nat) =~= decimal(v as nat));
        push_report(out, t, o, "no-indexof-equality", "preferDirectAccess", data, sp, Some(r));
    }
}

/// `prefer-array-some` on a comparison: `a.find(f) !== undefined` becomes
/// `a.some(f)`, and `a.filter(f).length` compared with `0` or `1` becomes
/// `a.some(f)` or `!a.some(f)`.
#[verifier::opaque]
pub open spec fn array_some_binary(t: Seq<char>, op: BinaryOp, left: Expr, right: Expr, sp: Span) -> Option<Report> {
    match find_or_filter_comparison(left, right) {
        Some((c, is_find, constant, reversed)) => {
            let o = normalized(op, reversed);
            if is_find {
                if is_undefined_value(constant) {
                    match o {
                        BinaryOp::StrictEquality | BinaryOp::Equality => array_some_report(t, sp, c, true),
                        BinaryOp::StrictInequality | BinaryOp::Inequality => array_some_report(t, sp, c, false),
                        _ => None,
                    }
                } else {
                    None
                }
            } else {
                match num_value(constant) {
                    Some(Some(v)) => if v == 0 {
                        match o {
                            BinaryOp::StrictEquality | BinaryOp::Equality | BinaryOp::LessEqualThan => array_some_report(t, sp, c, true),
                            BinaryOp::StrictInequality | BinaryOp::Inequality | BinaryOp::GreaterThan => array_some_report(t, sp, c, false),
                            _ => None,
                        }
                    } else if v == 1 {
                        match o {
                            BinaryOp::LessThan => array_some_report(t, sp, c, true),
                            BinaryOp::GreaterEqualThan => array_some_report(t, sp, c, false),
                            _ => None,
                        }
                    } else {
                        None
                    },
                    _ => None,
                }
            }
        },
        None => None,
    }
}

/// `prefer-array-some` on a comparison.
pub fn check_prefer_array_some_binary(out: &mut Vec<Diagnostic>, t: &[char], o: &E18eOptions, op: BinaryOp, left: &Expr, right: &Expr, sp: Span)
    requires
        byte_len(t@) < u32::MAX,
    ensures
        diag_views(final(out)@) == diag_views(old(out)@) + emit(t@, o.rule_names@, array_some_binary(t@, op, *left, *right, sp)),
{
    proof {
        reveal(array_some_binary);
    }
    let (c, is_find, constant, reversed) = match find_or_filter_compare(left, right) {
        Some(x) => x,
        None => return,
    };
    let n = normalize_operator(op, reversed);
    let negate = if is_find {
        if !is_undefined_constant(constant) {
            return;
        }
        match n {
            BinaryOp::StrictEquality | BinaryOp::Equality => true,
            BinaryOp::StrictInequality | BinaryOp::Inequality => false,
            _ => return,
        }
    } else {
        let v = match numeric_literal_value(constant) {
            Some(Some(v)) => v,
            _ => return,
        };
        if v == 0 {
            match n {
                BinaryOp::StrictEquality | BinaryOp::Equality | BinaryOp::LessEqualThan => true,
                BinaryOp::StrictInequality | BinaryOp::Inequality | BinaryOp::GreaterThan => false,
                _ => return,
            }
        } else if v == 1 {
            match n {
                BinaryOp::LessThan => true,
                BinaryOp::GreaterEqualThan => false,
                _ => return,
            }
        } else {
            return;
        }
    };
    report_array_some(out, t, o, sp, c, negate);
}

/// `prefer-array-some` on `!a.find(f)`, `!a.filter(f).length` and their
/// double negations.
#[verifier::opaque]
pub open spec fn array_some_unary(t: Seq<char>, op: UnaryOp, argument: Expr, sp: Span) -> Option<Report> {
    if op != UnaryOp::LogicalNot {
        None
    } else {
        match find_or_filter_length(argument) {
            Some(c) => array_some_report(t, sp, c, true),
            None => match inner(argument) {
                Expr::Unary { op: UnaryOp::LogicalNot, argument: a, .. } => match find_or_filter_length(*a) {
                    Some(c) => array_some_report(t, sp, c, false),
                    None => None,
                },
                _ => None,
            },
        }
    }
}

/// `prefer-array-some` on a unary expression.
pub fn check_prefer_array_some_unary(out: &mut Vec<Diagnostic>, t: &[char], o: &E18eOptions, op: UnaryOp, argument: &Expr, sp: Span)
    requires
        byte_len(t@) < u32::MAX,
    ensures
        diag_views(final(out)@) == diag_views(old(out)@) + emit(t@, o.rule_names@, array_some_unary(t@, op, *argument, sp)),
{
    proof {
        reveal(array_some_unary);
    }
    if op != UnaryOp::LogicalNot {
        return;
    }
    if let Some(c) = find_call_or_filter_length(argument) {
        report_array_some(out, t, o, sp, c, true);
        return;
    }
    if let Expr::Unary { op: UnaryOp::LogicalNot, argument: a, .. } = get_inner_expression(argument) {
        if let Some(c) = find_call_or_filter_length(a) {
            report_array_some(out, t, o, sp, c, false);
        }
    }
}

/// `prefer-array-some` on `a.filter(f).length` where a boolean is read.
#[verifier::opaque]
pub open spec fn filter_length_member(t: Seq<char>, m: StaticMember, ctx: ExprContext) -> Option<Report> {
    if ctx == ExprContext::Boolean && m.property@ == "length"@ {
        match inner(m.object) {
            Expr::Call(c) => if method_call(*c, "filter"@) {
                array_some_report(t, m.span, *c, false)
            } else {
                None
            },
            _ => None,
        }
    } else {
        None
    }
}

/// `prefer-array-some` on a member access.
pub fn check_filter_length_member(out: &mut Vec<Diagnostic>, t: &[char], o: &E18eOptions, m: &StaticMember, ctx: ExprContext)
    requires
        byte_len(t@) < u32::MAX,
    ensures
        diag_views(final(out)@) == diag_views(old(out)@) + emit(t@, o.rule_names@, filter_length_member(t@, *m, ctx)),
{
    proof {
        reveal(filter_length_member);
    }
    if ctx == ExprContext::Boolean && str_eq(m.property.as_str(), "length") {
        if let Expr::Call(c) = get_inner_expression(&m.object) {
            if is_method_call(c, "filter") {
                report_array_some(out, t, o, m.span, c, false);
            }
        }
    }
}

/// `prefer-date-now` on `+new Date()`.
#[verifier::opaque]
pub open spec fn date_now_unary(op: UnaryOp, argument: Expr, sp: Span) -> Option<Report> {
    if op == UnaryOp::Plus && (inner(argument) matches Expr::New(n) && new_date_no_args(*n)) {
        Some(plain("prefer-date-now", "preferDateNow", sp, Some("Date.now()"@)))
    } else {
        None
    }
}

/// `prefer-date-now` on a unary expression.
pub fn check_prefer_date_now_unary(out: &mut Vec<Diagnostic>, t: &[char], o: &E18eOptions, op: UnaryOp, argument: &Expr, sp: Span)
    requires
        byte_len(t@) < u32::MAX,
    ensures
        diag_views(final(out)@) == diag_views(old(out)@) + emit(t@, o.rule_names@, date_now_unary(op, *argument, sp)),
{
    proof {
        reveal(date_now_unary);
    }
    if op != UnaryOp::Plus {
        return;
    }
    if let Expr::New(n) = get_inner_expression(argument) {
        if is_new_date_no_args(n) {
            push_report(out, t, o, "prefer-date-now", "preferDateNow", empty_data(), sp, Some(crate::text::string_of("Date.now()")));
        }
    }
}

/// `no-delete-property`: `delete o.p` and `delete o["p"]`; as a statement
/// the fix writes `o.p = undefined`.
#[verifier::opaque]
pub open spec fn no_delete_property(t: Seq<char>, op: UnaryOp, argument: Expr, sp: Span, ctx: ExprContext) -> Option<Report> {
    if op != UnaryOp::Delete {
        None
    } else {
        let member: Option<Span> = match inner(argument) {
            Expr::StaticMember(m) => Some(m.span),
            Expr::ComputedMember { expression, span, .. } => if inner(*expression) is Str {
                Some(span)
            } else {
                None
            },
            _ => None,
        };
        match member {
            Some(ms) => Some(plain("no-delete-property", "noDeleteProperty", sp,
                if ctx == ExprContext::Statement { Some(txt(t, ms) + " = undefined"@) } else { None })),
            None => None,
        }
    }
}

/// `no-delete-property` on a unary expression.
pub fn check_no_delete_property(out: &mut Vec<Diagnostic>, t: &[char], o: &E18eOptions, op: UnaryOp, argument: &Expr, sp: Span, ctx: ExprContext)
    requires
        byte_len(t@) < u32::MAX,
    ensures
        diag_views(final(out)@) == diag_views(old(out)@) + emit(t@, o.rule_names@, no_delete_property(t@, op, *argument, sp, ctx)),
{
    proof {
        reveal(no_delete_property);
    }
    if op != UnaryOp::Delete {
        return;
    }
    let ms = match get_inner_expression(argument) {
        Expr::StaticMember(m) => m.span,
        Expr::ComputedMember { expression, span, .. } => match get_inner_expression(expression) {
            Expr::Str { .. } => *span,
            _ => return,
        },
        _ => return,
    };
    let fix = if ctx == ExprContext::Statement {
        let mut r = text_of(t, ms);
        push_lit(&mut r, " = undefined");
        Some(r)
    } else {
        None
    };
    push_report(out, t, o, "no-delete-property", "noDeleteProperty", empty_data(), sp, fix);
}

/// `prefer-array-at`: `a[a.length - 1]` becomes `a.at(-1)`.
#[verifier::opaque]
pub open spec fn array_at(t: Seq<char>, object: Expr, expression: Expr, sp: Span) -> Option<Report> {
    match inner(expression) {
        Expr::Binary { op, left, right, .. } => if op != BinaryOp::Subtraction || !is_number(*right, 1) {
            None
        } else {
            match inner(*left) {
                Expr::StaticMember(lm) => if lm.property@ != "length"@ || tx(t, object) != tx(t, lm.object) {
                    None
                } else {
                    Some(Report {
                        rule: "prefer-array-at",
                        message: "preferAt",
                        data: DataView { array: Some(tx(t, object)), ..no_data() },
                        span: sp,
                        fix: Some(tx(t, object) + ".at(-1)"@),
                    })
                },
                _ => None,
            }
        },
        _ => None,
    }
}

/// `prefer-array-at` on a computed member access.
pub fn check_prefer_array_at(out: &mut Vec<Diagnostic>, t: &[char], o: &E18eOptions, object: &Expr, expression: &Expr, sp: Span)
    requires
        byte_len(t@) < u32::MAX,
    ensures
        diag_views(final(out)@) == diag_views(old(out)@) + emit(t@, o.rule_names@, array_at(t@, *object, *expression, sp)),
{
    proof {
        reveal(array_at);
    }
    let (op, left, right) = match get_inner_expression(expression) {
        Expr::Binary { op, left, right, .. } => (*op, left, right),
        _ => return,
    };
    if op != BinaryOp::Subtraction || !super::syntax::is_number_literal(right, 1) {
        return;
    }
    let lm = match get_inner_expression(left) {
        Expr::StaticMember(lm) => lm,
        _ => return,
    };
    if !str_eq(lm.property.as_str(), "length") || !same_text(t, expr_span(object), expr_span(&lm.object)) {
        return;
    }
    let array = text_of(t, expr_span(object));
    let mut r = String::new();
    push_lit(&mut r, array.as_str());
    push_lit(&mut r, ".at(-1)");
    let mut data = empty_data();
    data.array = Some(array);
    push_report(out, t, o, "prefer-array-at", "preferAt", data, sp, Some(r));
}

/// `prefer-nullish-coalescing` on a conditional: `x == null ? d : x`
/// and the like become `x ?? d`.
#[verifier::opaque]
pub open spec fn nullish_conditional(t: Seq<char>, test: Expr, consequent: Expr, alternate: Expr, sp: Span) -> Option<Report> {
    match nullish_test(t, test) {
        Some((value, checks)) => {
            let compare = if checks { alternate } else { consequent };
            let default = if checks { consequent } else { alternate };
            if tx(t, value) != tx(t, compare) {
                None
            } else {
                Some(plain("prefer-nullish-coalescing", "preferNullishCoalescing", sp,
                    Some(tx(t, value) + " ?? "@ + tx(t, default))))
            }
        },
        None => None,
    }
}

/// `prefer-nullish-coalescing` on a conditional.
pub fn check_prefer_nullish_conditional(out: &mut Vec<Diagnostic>, t: &[char], o: &E18eOptions, test: &Expr, consequent: &Expr, alternate: &Expr, sp: Span)
    requires
        byte_len(t@) < u32::MAX,
    ensures
        diag_views(final(out)@) == diag_views(old(out)@) + emit(t@, o.rule_names@, nullish_conditional(t@, *test, *consequent, *alternate, sp)),
{
    proof {
        reveal(nullish_conditional);
    }
    let (value, checks) = match nullish_check(t, test) {
        Some(x) => x,
        None => return,
    };
    let compare = if checks { alternate } else { consequent };
    let default = if checks { consequent } else { alternate };
    if !same_text(t, expr_span(value), expr_span(compare)) {
        return;
    }
    let mut r = text_of(t, expr_span(value));
    push_lit(&mut r, " ?? ");
    push_text(&mut r, t, expr_span(default));
    push_report(out, t, o, "prefer-nullish-coalescing", "preferNullishCoalescing", empty_data(), sp, Some(r));
}

/// `prefer-nullish-coalescing` on an `if` without `else` whose test holds
/// when `x` is nullish and whose body is `x = v`: it becomes `x ??= v`.
#[verifier::opaque]
pub open spec fn nullish_assignment(t: Seq<char>, test: Expr, consequent: Stmt, has_alternate: bool, sp: Span) -> Option<Report> {
    if has_alternate {
        None
    } else {
        match nullish_test(t, test) {
            Some((value, checks)) => if !checks {
                None
            } else {
                match single_expression(consequent) {
                    Some(e) => match inner(e) {
                        Expr::Assignment { op: AssignOp::Assign, left_span, right, .. } => if tx(t, value) != txt(t, left_span) {
                            None
                        } else {
                            Some(plain("prefer-nullish-coalescing", "preferNullishCoalescingAssignment", sp,
                                Some(txt(t, left_span) + " ??= "@ + tx(t, *right))))
                        },
                        _ => None,
                    },
                    None => None,
                }
            },
            None => None,
        }
    }
}

/// `prefer-nullish-coalescing` on an `if` statement.
pub fn check_prefer_nullish_assignment(out: &mut Vec<Diagnostic>, t: &[char], o: &E18eOptions, test: &Expr, consequent: &Stmt, has_alternate: bool, sp: Span)
    requires
        byte_len(t@) < u32::MAX,
    ensures
        diag_views(final(out)@) == diag_views(old(out)@) + emit(t@, o.rule_names@, nullish_assignment(t@, *test, *consequent, has_alternate, sp)),
{
    proof {
        reveal(nullish_assignment);
    }
    if has_alternate {
        return;
    }
    let (value, checks) = match nullish_check(t, test) {
        Some(x) => x,
        None => return,
    };
    if !checks {
        return;
    }
    let e = match single_expression_statement(consequent) {
        Some(e) => e,
        None => return,
    };
    let (left_span, right) = match get_inner_expression(e) {
        Expr::Assignment { op: AssignOp::Assign, left_span, right, .. } => (*left_span, right),
        _ => return,
    };
    if !same_text(t, expr_span(value), left_span) {
        return;
    }
    let mut r = text_of(t, left_span);
    push_lit(&mut r, " ??= ");
    push_text(&mut r, t, expr_span(right));
    push_report(out, t, o, "prefer-nullish-coalescing", "preferNullishCoalescingAssignment", empty_data(), sp, Some(r));
}

/// `prefer-url-canparse`: `try { new URL(..); return true } catch {
/// return false }` becomes `return URL.canParse(..)`.
#[verifier::opaque]
pub open spec fn url_canparse(t: Seq<char>, block: Seq<Stmt>, handler: Option<Seq<Stmt>>, sp: Span) -> Option<Report> {
    match handler {
        Some(h) => if block.len() != 2 || h.len() != 1 {
            None
        } else {
            match (block[0], block[1], h[0]) {
                (Stmt::Expression(first), Stmt::Return(ok), Stmt::Return(err)) => match inner(first) {
                    Expr::New(n) => if !is_ident(n.callee, "URL"@) || n.arguments@.len() == 0 {
                        None
                    } else if !returns_boolean(ok, true) || !returns_boolean(err, false) {
                        None
                    } else {
                        Some(plain("prefer-url-canparse", "preferCanParse", sp,
                            Some("return URL.canParse("@ + join(arg_texts(t, n.arguments@, 0), ", "@) + ")"@)))
                    },
                    _ => None,
                },
                _ => None,
            }
        },
        None => None,
    }
}

/// `prefer-url-canparse` on a `try` statement.
pub fn check_prefer_url_canparse(out: &mut Vec<Diagnostic>, t: &[char], o: &E18eOptions, block: &Vec<Stmt>, handler: &Option<Vec<Stmt>>, sp: Span)
    requires
        byte_len(t@) < u32::MAX,
    ensures
        diag_views(final(out)@) == diag_views(old(out)@) + emit(t@, o.rule_names@, url_canparse(t@, block@,
            match handler {
                Some(h) => Some(h@),
                None => None,
            }, sp)),
{
    proof {
        reveal(url_canparse);
    }
    let h = match handler {
        Some(h) => h,
        None => return,
    };
    if block.len() != 2 || h.len() != 1 {
        return;
    }
    let first = match &block[0] {
        Stmt::Expression(e) => e,
        _ => return,
    };
    let n = match get_inner_expression(first) {
        Expr::New(n) => n,
        _ => return,
    };
    if !is_identifier_named(&n.callee, "URL") || n.arguments.len() == 0 {
        return;
    }
    let ok = match &block[1] {
        Stmt::Return(a) => a,
        _ => return,
    };
    let err = match &h[0] {
        Stmt::Return(a) => a,
        _ => return,
    };
    if !return_boolean(ok, true) || !return_boolean(err, false) {
        return;
    }
    let args = argument_texts(t, &n.arguments, 0);
    let mut r = String::new();
    push_lit(&mut r, "return URL.canParse(");
    push_joined(&mut r, &args, ", ");
    push_lit(&mut r, ")");
    push_report(out, t, o, "prefer-url-canparse", "preferCanParse", empty_data(), sp, Some(r));
}

/// `prefer-static-regex` on `new RegExp(..)` with constant arguments inside
/// a function.
#[verifier::opaque]
pub open spec fn static_regex_new(n: NewExpr, depth: nat) -> Option<Report> {
    if depth == 0 || !is_ident(n.callee, "RegExp"@) {
        None
    } else if static_regexp(n.arguments@) {
        Some(plain("prefer-static-regex", "preferStatic", n.span, None))
    } else {
        None
    }
}

/// `prefer-static-regex` on a `new` expression.
pub fn check_prefer_static_regex_new(out: &mut Vec<Diagnostic>, t: &[char], o: &E18eOptions, n: &NewExpr, depth: usize)
    requires
        byte_len(t@) < u32::MAX,
    ensures
        diag_views(final(out)@) == diag_views(old(out)@) + emit(t@, o.rule_names@, static_regex_new(*n, depth as nat)),
{
    proof {
        reveal(static_regex_new);
    }
    if depth == 0 || !is_identifier_named(&n.callee, "RegExp") {
        return;
    }
    if static_regexp_args(&n.arguments) {
        push_report(out, t, o, "prefer-static-regex", "preferStatic", empty_data(), n.span, None);
    }
}

/// `prefer-static-regex` on a regular expression literal without `g` or
/// `y` inside a function.
pub open spec fn static_regex_literal(global_or_sticky: bool, sp: Span, depth: nat) -> Option<Report> {
    if depth > 0 && !global_or_sticky {
        Some(plain("prefer-static-regex", "preferStatic", sp, None))
    } else {
        None
    }
}

} // verus!
