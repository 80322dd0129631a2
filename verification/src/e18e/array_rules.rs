//! The e18e rules on array calls: `prefer-array-from-map`,
//! `prefer-array-fill`, `prefer-spread-syntax`, the copy methods and
//! `prefer-exponentiation-operator` and `prefer-object-has-own`.
use vstd::prelude::*;
use crate::text::{byte_len, str_eq};
use super::ast::{Expr, CallExpr, Arg, ArrayElem, Property, Span, inner, get_inner_expression, span_of, expr_span, arg_span_of, arg_span};
use super::source::{txt, Report, DataView, no_data, plain, emit, diag_views, push_report, push_text, push_lit, text_of, empty_data, data_view};
use super::syntax::{
    static_call, is_static_call, member_callee, static_member_callee, path_of, callee_path, arg_expr,
    arg_expression, single_spread, single_spread_element, length_value, object_length_value,
    callback_constant, constant_callback_value, is_ident, is_identifier_named, copy_source,
    copy_pattern_source, copy_optional, copy_pattern_optional, is_nullish, is_null_or_undefined,
};
use super::strings::{join, views, push_joined};
use super::dependencies::{Diagnostic, E18eOptions};

verus! {

/// The source text of an expression.
pub open spec fn tx(t: Seq<char>, e: Expr) -> Seq<char> {
    txt(t, span_of(e))
}

/// The source text of an argument.
pub open spec fn ta(t: Seq<char>, a: Arg) -> Seq<char> {
    txt(t, arg_span_of(a))
}

/// `prefer-exponentiation-operator`: `Math.pow(a, b)` becomes `(a) ** (b)`.
#[verifier::opaque]
pub open spec fn exponentiation(t: Seq<char>, c: CallExpr) -> Option<Report> {
    if !static_call(c, "Math"@, "pow"@) || c.arguments@.len() != 2 {
        None
    } else {
        match (arg_expr(c.arguments@[0]), arg_expr(c.arguments@[1])) {
            (Some(b), Some(x)) => Some(plain(
                "prefer-exponentiation-operator",
                "preferExponentiation",
                c.span,
                Some("("@ + tx(t, b) + ") ** ("@ + tx(t, x) + ")"@),
            )),
            _ => None,
        }
    }
}

/// `prefer-exponentiation-operator` on a call.
pub fn check_prefer_exponentiation(out: &mut Vec<Diagnostic>, t: &[char], o: &E18eOptions, c: &CallExpr)
    requires
        byte_len(t@) < u32::MAX,
    ensures
        diag_views(final(out)@) == diag_views(old(out)@) + emit(t@, o.rule_names@, exponentiation(t@, *c)),
{
    proof {
        reveal(exponentiation);
    }
    if !is_static_call(c, "Math", "pow") || c.arguments.len() != 2 {
        return;
    }
    let b = match arg_expression(&c.arguments, 0) {
        Some(b) => b,
        None => return,
    };
    let x = match arg_expression(&c.arguments, 1) {
        Some(x) => x,
        None => return,
    };
    let mut r = String::new();
    push_lit(&mut r, "(");
    push_text(&mut r, t, expr_span(b));
    push_lit(&mut r, ") ** (");
    push_text(&mut r, t, expr_span(x));
    push_lit(&mut r, ")");
    assert(r@ =~= "("@ + tx(t@, *b) + ") ** ("@ + tx(t@, *x) + ")"@);
    push_report(out, t, o, "prefer-exponentiation-operator", "preferExponentiation", empty_data(), c.span, Some(r));
}

/// `Object.hasOwn(object, property)`.
pub open spec fn has_own_text(object: Seq<char>, property: Seq<char>) -> Seq<char> {
    "Object.hasOwn("@ + object + ", "@ + property + ")"@
}

/// `prefer-object-has-own`: `Object.prototype.hasOwnProperty.call(o, p)`
/// and `o.hasOwnProperty(p)` become `Object.hasOwn(o, p)`.
#[verifier::opaque]
pub open spec fn object_has_own(t: Seq<char>, c: CallExpr) -> Option<Report> {
    if c.arguments@.len() == 2 && path_of(c.callee) == Some("Object.prototype.hasOwnProperty.call"@) {
        Some(plain("prefer-object-has-own", "preferObjectHasOwn", c.span,
            Some(has_own_text(ta(t, c.arguments@[0]), ta(t, c.arguments@[1])))))
    } else {
        match member_callee(c) {
            Some(m) => if m.property@ != "hasOwnProperty"@ || c.arguments@.len() != 1 {
                None
            } else {
                Some(plain("prefer-object-has-own", "preferObjectHasOwn", c.span,
                    Some(has_own_text(tx(t, m.object), ta(t, c.arguments@[0])))))
            },
            None => None,
        }
    }
}

/// `prefer-object-has-own` on a call.
pub fn check_prefer_object_has_own(out: &mut Vec<Diagnostic>, t: &[char], o: &E18eOptions, c: &CallExpr)
    requires
        byte_len(t@) < u32::MAX,
    ensures
        diag_views(final(out)@) == diag_views(old(out)@) + emit(t@, o.rule_names@, object_has_own(t@, *c)),
{
    proof {
        reveal(object_has_own);
    }
    if c.arguments.len() == 2 {
        let is_path = match callee_path(&c.callee) {
            Some(p) => str_eq(p.as_str(), "Object.prototype.hasOwnProperty.call"),
            None => false,
        };
        if is_path {
            let mut r = String::new();
            push_lit(&mut r, "Object.hasOwn(");
            push_text(&mut r, t, arg_span(&c.arguments[0]));
            push_lit(&mut r, ", ");
            push_text(&mut r, t, arg_span(&c.arguments[1]));
            push_lit(&mut r, ")");
            assert(r@ =~= has_own_text(ta(t@, c.arguments@[0]), ta(t@, c.arguments@[1])));
            push_report(out, t, o, "prefer-object-has-own", "preferObjectHasOwn", empty_data(), c.span, Some(r));
            return;
        }
    }
    let m = match static_member_callee(c) {
        Some(m) => m,
        None => return,
    };
    if !str_eq(m.property.as_str(), "hasOwnProperty") || c.arguments.len() != 1 {
        return;
    }
    let mut r = String::new();
    push_lit(&mut r, "Object.hasOwn(");
    push_text(&mut r, t, expr_span(&m.object));
    push_lit(&mut r, ", ");
    push_text(&mut r, t, arg_span(&c.arguments[0]));
    push_lit(&mut r, ")");
    assert(r@ =~= has_own_text(tx(t@, m.object), ta(t@, c.arguments@[0])));
    push_report(out, t, o, "prefer-object-has-own", "preferObjectHasOwn", empty_data(), c.span, Some(r));
}

/// `prefer-array-from-map`: `[...it].map(f)` becomes `Array.from(it, f)`.
#[verifier::opaque]
pub open spec fn array_from_map(t: Seq<char>, c: CallExpr) -> Option<Report> {
    match member_callee(c) {
        Some(m) => if m.property@ != "map"@ || c.arguments@.len() != 1 {
            None
        } else {
            match inner(m.object) {
                Expr::Array { elements, .. } => match single_spread(elements@) {
                    Some(it) => {
                        let iterable = tx(t, it);
                        let mapper = ta(t, c.arguments@[0]);
                        Some(Report {
                            rule: "prefer-array-from-map",
                            message: "preferArrayFrom",
                            data: DataView { iterable: Some(iterable), mapper: Some(mapper), ..no_data() },
                            span: c.span,
                            fix: Some("Array.from("@ + iterable + ", "@ + mapper + ")"@),
                        })
                    },
                    None => None,
                },
                _ => None,
            }
        },
        None => None,
    }
}

/// `prefer-array-from-map` on a call.
pub fn check_prefer_array_from_map(out: &mut Vec<Diagnostic>, t: &[char], o: &E18eOptions, c: &CallExpr)
    requires
        byte_len(t@) < u32::MAX,
    ensures
        diag_views(final(out)@) == diag_views(old(out)@) + emit(t@, o.rule_names@, array_from_map(t@, *c)),
{
    proof {
        reveal(array_from_map);
    }
    let m = match static_member_callee(c) {
        Some(m) => m,
        None => return,
    };
    if !str_eq(m.property.as_str(), "map") || c.arguments.len() != 1 {
        return;
    }
    let elements = match get_inner_expression(&m.object) {
        Expr::Array { elements, .. } => elements,
        _ => return,
    };
    let it = match single_spread_element(elements) {
        Some(it) => it,
        None => return,
    };
    let iterable = text_of(t, expr_span(it));
    let mapper = text_of(t, arg_span(&c.arguments[0]));
    let mut r = String::new();
    push_lit(&mut r, "Array.from(");
    push_lit(&mut r, iterable.as_str());
    push_lit(&mut r, ", ");
    push_lit(&mut r, mapper.as_str());
    push_lit(&mut r, ")");
    let mut data = empty_data();
    data.iterable = Some(iterable);
    data.mapper = Some(mapper);
    assert(r@ =~= "Array.from("@ + tx(t@, *it) + ", "@ + ta(t@, c.arguments@[0]) + ")"@);
    push_report(out, t, o, "prefer-array-from-map", "preferArrayFrom", data, c.span, Some(r));
}

/// The data of `prefer-array-fill`.
pub open spec fn fill_data(length: Seq<char>, value: Seq<char>) -> DataView {
    DataView { length: Some(length), value: Some(value), ..no_data() }
}

/// `prefer-array-fill`: `Array.from({length: n}, () => v)` becomes
/// `Array.from({length: n}).fill(v)`, and `[...Array(n)].map(() => v)`
/// becomes `Array(n).fill(v)`, for a constant `v`.
#[verifier::opaque]
pub open spec fn array_fill(t: Seq<char>, c: CallExpr) -> Option<Report> {
    if static_call(c, "Array"@, "from"@) && c.arguments@.len() == 2 {
        match arg_expr(c.arguments@[0]) {
            Some(first) => match inner(first) {
                Expr::Object { properties, .. } => match length_value(properties@) {
                    Some(lv) => match arg_expr(c.arguments@[1]) {
                        Some(cb) => match callback_constant(cb) {
                            Some(v) => Some(Report {
                                rule: "prefer-array-fill",
                                message: "preferFillArrayFrom",
                                data: fill_data(tx(t, lv), tx(t, v)),
                                span: c.span,
                                fix: Some("Array.from({length: "@ + tx(t, lv) + "}).fill("@ + tx(t, v) + ")"@),
                            }),
                            None => None,
                        },
                        None => None,
                    },
                    None => None,
                },
                _ => None,
            },
            None => None,
        }
    } else {
        match member_callee(c) {
            Some(m) => if m.property@ != "map"@ || c.arguments@.len() != 1 {
                None
            } else {
                match inner(m.object) {
                    Expr::Array { elements, .. } => match single_spread(elements@) {
                        Some(s) => match inner(s) {
                            Expr::Call(ac) => if !is_ident(ac.callee, "Array"@) || ac.arguments@.len() != 1 {
                                None
                            } else {
                                match arg_expr(c.arguments@[0]) {
                                    Some(cb) => match callback_constant(cb) {
                                        Some(v) => Some(Report {
                                            rule: "prefer-array-fill",
                                            message: "preferFillSpreadMap",
                                            data: fill_data(ta(t, ac.arguments@[0]), tx(t, v)),
                                            span: c.span,
                                            fix: Some("Array("@ + ta(t, ac.arguments@[0]) + ").fill("@ + tx(t, v) + ")"@),
                                        }),
                                        None => None,
                                    },
                                    None => None,
                                }
                            },
                            _ => None,
                        },
                        None => None,
                    },
                    _ => None,
                }
            },
            None => None,
        }
    }
}

/// Appends the `prefer-array-fill` report with the given texts.
fn push_fill(
    out: &mut Vec<Diagnostic>,
    t: &[char],
    o: &E18eOptions,
    message: &'static str,
    prefix: &str,
    middle: &str,
    length: Span,
    value: Span,
    span: Span,
)
    requires
        byte_len(t@) < u32::MAX,
    ensures
        diag_views(final(out)@) == diag_views(old(out)@) + emit(t@, o.rule_names@, Some(Report {
            rule: "prefer-array-fill",
            message,
            data: fill_data(txt(t@, length), txt(t@, value)),
            span,
            fix: Some(prefix@ + txt(t@, length) + middle@ + txt(t@, value) + ")"@),
        })),
{
    let lt = text_of(t, length);
    let vt = text_of(t, value);
    let mut r = String::new();
    push_lit(&mut r, prefix);
    push_lit(&mut r, lt.as_str());
    push_lit(&mut r, middle);
    push_lit(&mut r, vt.as_str());
    push_lit(&mut r, ")");
    let mut data = empty_data();
    data.length = Some(lt);
    data.value = Some(vt);
    assert(data_view(data) == fill_data(txt(t@, length), txt(t@, value)));
    push_report(out, t, o, "prefer-array-fill", message, data, span, Some(r));
}

/// `prefer-array-fill` on a call.
pub fn check_prefer_array_fill(out: &mut Vec<Diagnostic>, t: &[char], o: &E18eOptions, c: &CallExpr)
    requires
        byte_len(t@) < u32::MAX,
    ensures
        diag_views(final(out)@) == diag_views(old(out)@) + emit(t@, o.rule_names@, array_fill(t@, *c)),
{
    proof {
        reveal(array_fill);
    }
    if is_static_call(c, "Array", "from") && c.arguments.len() == 2 {
        let first = match arg_expression(&c.arguments, 0) {
            Some(f) => f,
            None => return,
        };
        let properties = match get_inner_expression(first) {
            Expr::Object { properties, .. } => properties,
            _ => return,
        };
        let lv = match object_length_value(properties) {
            Some(lv) => lv,
            None => return,
        };
        let cb = match arg_expression(&c.arguments, 1) {
            Some(cb) => cb,
            None => return,
        };
        let v = match constant_callback_value(cb) {
            Some(v) => v,
            None => return,
        };
        push_fill(out, t, o, "preferFillArrayFrom", "Array.from({length: ", "}).fill(", expr_span(lv), expr_span(v), c.span);
        return;
    }
    let m = match static_member_callee(c) {
        Some(m) => m,
        None => return,
    };
    if !str_eq(m.property.as_str(), "map") || c.arguments.len() != 1 {
        return;
    }
    let elements = match get_inner_expression(&m.object) {
        Expr::Array { elements, .. } => elements,
        _ => return,
    };
    let s = match single_spread_element(elements) {
        Some(s) => s,
        None => return,
    };
    let ac = match get_inner_expression(s) {
        Expr::Call(ac) => ac,
        _ => return,
    };
    if !is_identifier_named(&ac.callee, "Array") || ac.arguments.len() != 1 {
        return;
    }
    let cb = match arg_expression(&c.arguments, 0) {
        Some(cb) => cb,
        None => return,
    };
    let v = match constant_callback_value(cb) {
        Some(v) => v,
        None => return,
    };
    push_fill(out, t, o, "preferFillSpreadMap", "Array(", ").fill(", arg_span(&ac.arguments[0]), expr_span(v), c.span);
}

} // verus!
