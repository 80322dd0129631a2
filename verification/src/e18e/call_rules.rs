//! The e18e rules on calls besides the array builders: the copy methods,
//! `Date.now`, regular expressions, `some`, inline equality,
//! `fromCharCode`, timer arguments, spreads in `reduce` and `Intl.Collator`.
use vstd::prelude::*;
use crate::text::{byte_len, str_eq};
use crate::outside::{debug_of, str_debug};
use super::ast::{Expr, CallExpr, NewExpr, Arg, ArrayElem, Span, inner, get_inner_expression, span_of, expr_span, arg_span_of, arg_span};
use super::source::{txt, Report, DataView, no_data, plain, emit, diag_views, push_report, push_text, push_lit, text_of, empty_data, data_view, DiagView};
use super::syntax::{
    static_call, is_static_call, method_call, is_method_call, member_callee, static_member_callee,
    arg_expr, arg_expression, is_ident, is_identifier_named, copy_source, copy_pattern_source,
    copy_optional, copy_pattern_optional, is_nullish, is_null_or_undefined, new_date_no_args,
    is_new_date_no_args, is_regex, is_regex_expression, static_regexp, static_regexp_args,
    simple_element, is_simple_inline_element, safe_code_point, is_safe_from_code_point_arg,
    timer_call, is_timer_call, body_expression, expression_body,
};
use super::shapes::{callback_has_spread, function_body_contains_spread};
use super::strings::{join, views, push_joined, timer_text, format_timer_replacement, regex_equivalent, simple_regex_equivalent};
use super::array_rules::{tx, ta};
use super::dependencies::{Diagnostic, E18eOptions};

verus! {

/// Where an expression stands, as the rules that look at its use read it.
#[derive(Clone, Copy, Debug, PartialEq, Eq, Structural)]
pub enum ExprContext {
    Boolean,
    Callee,
    MemberObject,
    Return,
    Statement,
    Other,
}

/// The texts of the arguments from `from` on.
pub open spec fn arg_texts(t: Seq<char>, args: Seq<Arg>, from: int) -> Seq<Seq<char>> {
    args.skip(from).map_values(|a: Arg| ta(t, a))
}

/// The texts of the arguments from `from` on.
pub fn argument_texts(t: &[char], args: &Vec<Arg>, from: usize) -> (r: Vec<String>)
    requires
        byte_len(t@) < u32::MAX,
        from <= args@.len(),
    ensures
        views(r@) == arg_texts(t@, args@, from as int),
{
    let mut r: Vec<String> = Vec::new();
    let mut j: usize = from;
    while j < args.len()
        invariant
            from <= j <= args@.len(),
            byte_len(t@) < u32::MAX,
            views(r@) == args@.subrange(from as int, j as int).map_values(|a: Arg| ta(t@, a)),
        decreases args@.len() - j,
    {
        let ghost before = r@;
        r.push(text_of(t, arg_span(&args[j])));
        proof {
            assert(args@.subrange(from as int, j + 1) =~= args@.subrange(from as int, j as int).push(args@[j as int]));
            assert(views(r@) =~= views(before).push(r@.last()@));
        }
        j = j + 1;
    }
    assert(args@.subrange(from as int, args@.len() as int) =~= args@.skip(from as int));
    r
}

/// The method a copy rule suggests, with its rule and message.
pub open spec fn copy_method_of(p: Seq<char>) -> Option<(&'static str, &'static str, &'static str)> {
    if p == "reverse"@ {
        Some(("prefer-array-to-reversed", "preferToReversed", "toReversed"))
    } else if p == "sort"@ {
        Some(("prefer-array-to-sorted", "preferToSorted", "toSorted"))
    } else if p == "splice"@ {
        Some(("prefer-array-to-spliced", "preferToSpliced", "toSpliced"))
    } else {
        None
    }
}

/// `prefer-array-to-reversed`, `-sorted`, `-spliced`: a copy of an array
/// then reversed, sorted or spliced becomes `a.toReversed()` and so on.
#[verifier::opaque]
pub open spec fn copy_method(t: Seq<char>, c: CallExpr) -> Option<Report> {
    match member_callee(c) {
        Some(m) => match copy_method_of(m.property@) {
            Some((rule, message, method)) => match copy_source(m.object) {
                Some(a) => {
                    let raw = tx(t, a);
                    let access: Seq<char> = if copy_optional(m.object) { "?."@ } else { "."@ };
                    Some(Report {
                        rule,
                        message,
                        data: DataView { array: Some(raw), ..no_data() },
                        span: c.span,
                        fix: Some(raw + access + method@ + "("@ + join(arg_texts(t, c.arguments@, 0), ", "@) + ")"@),
                    })
                },
                None => None,
            },
            None => None,
        },
        None => None,
    }
}

/// The copy rules on a call.
pub fn check_prefer_copy_method(out: &mut Vec<Diagnostic>, t: &[char], o: &E18eOptions, c: &CallExpr)
    requires
        byte_len(t@) < u32::MAX,
    ensures
        diag_views(final(out)@) == diag_views(old(out)@) + emit(t@, o.rule_names@, copy_method(t@, *c)),
{
    proof {
        reveal(copy_method);
    }
    let m = match static_member_callee(c) {
        Some(m) => m,
        None => return,
    };
    let p = m.property.as_str();
    let (rule, message, method) = if str_eq(p, "reverse") {
        ("prefer-array-to-reversed", "preferToReversed", "toReversed")
    } else if str_eq(p, "sort") {
        ("prefer-array-to-sorted", "preferToSorted", "toSorted")
    } else if str_eq(p, "splice") {
        ("prefer-array-to-spliced", "preferToSpliced", "toSpliced")
    } else {
        return;
    };
    let a = match copy_pattern_source(&m.object) {
        Some(a) => a,
        None => return,
    };
    let raw = text_of(t, expr_span(a));
    let args = argument_texts(t, &c.arguments, 0);
    let mut r = String::new();
    push_lit(&mut r, raw.as_str());
    if copy_pattern_optional(&m.object) {
        push_lit(&mut r, "?.");
    } else {
        push_lit(&mut r, ".");
    }
    push_lit(&mut r, method);
    push_lit(&mut r, "(");
    push_joined(&mut r, &args, ", ");
    push_lit(&mut r, ")");
    let mut data = empty_data();
    data.array = Some(raw);
    push_report(out, t, o, rule, message, data, c.span, Some(r));
}

/// `prefer-date-now`: `Number(new Date())` and `new Date().getTime()`
/// become `Date.now()`.
#[verifier::opaque]
pub open spec fn date_now_call(c: CallExpr) -> Option<Report> {
    if static_call(c, "Date"@, "now"@) {
        None
    } else if static_call(c, "Number"@, ""@) && c.arguments@.len() == 1 {
        match arg_expr(c.arguments@[0]) {
            Some(x) => match inner(x) {
                Expr::New(n) => if new_date_no_args(*n) {
                    Some(plain("prefer-date-now", "preferDateNow", c.span, Some("Date.now()"@)))
                } else {
                    None
                },
                _ => None,
            },
            None => None,
        }
    } else if !method_call(c, "getTime"@) || c.arguments@.len() != 0 {
        None
    } else {
        match member_callee(c) {
            Some(m) => match inner(m.object) {
                Expr::New(n) => if new_date_no_args(*n) {
                    Some(plain("prefer-date-now", "preferDateNow", c.span, Some("Date.now()"@)))
                } else {
                    None
                },
                _ => None,
            },
            None => None,
        }
    }
}

/// `prefer-date-now` on a call.
pub fn check_prefer_date_now_call(out: &mut Vec<Diagnostic>, t: &[char], o: &E18eOptions, c: &CallExpr)
    requires
        byte_len(t@) < u32::MAX,
    ensures
        diag_views(final(out)@) == diag_views(old(out)@) + emit(t@, o.rule_names@, date_now_call(*c)),
{
    proof {
        reveal(date_now_call);
    }
    if is_static_call(c, "Date", "now") {
        return;
    }
    if is_static_call(c, "Number", "") && c.arguments.len() == 1 {
        let x = match arg_expression(&c.arguments, 0) {
            Some(x) => x,
            None => return,
        };
        if let Expr::New(n) = get_inner_expression(x) {
            if is_new_date_no_args(n) {
                push_report(out, t, o, "prefer-date-now", "preferDateNow", empty_data(), c.span, Some(crate::text::string_of("Date.now()")));
            }
        }
        return;
    }
    if !is_method_call(c, "getTime") || c.arguments.len() != 0 {
        return;
    }
    let m = match static_member_callee(c) {
        Some(m) => m,
        None => return,
    };
    if let Expr::New(n) = get_inner_expression(&m.object) {
        if is_new_date_no_args(n) {
            push_report(out, t, o, "prefer-date-now", "preferDateNow", empty_data(), c.span, Some(crate::text::string_of("Date.now()")));
        }
    }
}

/// The data of `prefer-regex-test`.
pub open spec fn regex_test_data(regex: Seq<char>, string: Seq<char>, original: Seq<char>) -> DataView {
    DataView { regex: Some(regex), string: Some(string), original: Some(original), ..no_data() }
}

/// `prefer-regex-test`, where a boolean is read: `s.match(re)` and
/// `re.exec(s)` become `re.test(s)`.
#[verifier::opaque]
pub open spec fn regex_test(t: Seq<char>, c: CallExpr, ctx: ExprContext) -> Option<Report> {
    if ctx != ExprContext::Boolean {
        None
    } else {
        match member_callee(c) {
            Some(m) => if c.arguments@.len() != 1 {
                None
            } else {
                let spans: Option<(Span, Span)> = if m.property@ == "match"@ && is_regex(arg_expr(c.arguments@[0])) {
                    Some((arg_span_of(c.arguments@[0]), span_of(m.object)))
                } else if m.property@ == "exec"@ && is_regex(Some(m.object)) {
                    Some((span_of(m.object), arg_span_of(c.arguments@[0])))
                } else {
                    None
                };
                match spans {
                    Some((re, s)) => Some(Report {
                        rule: "prefer-regex-test",
                        message: "preferTest",
                        data: regex_test_data(txt(t, re), txt(t, s), txt(t, c.span)),
                        span: c.span,
                        fix: Some(txt(t, re) + ".test("@ + txt(t, s) + ")"@),
                    }),
                    None => None,
                }
            },
            None => None,
        }
    }
}

/// `prefer-regex-test` on a call.
pub fn check_prefer_regex_test(out: &mut Vec<Diagnostic>, t: &[char], o: &E18eOptions, c: &CallExpr, ctx: ExprContext)
    requires
        byte_len(t@) < u32::MAX,
    ensures
        diag_views(final(out)@) == diag_views(old(out)@) + emit(t@, o.rule_names@, regex_test(t@, *c, ctx)),
{
    proof {
        reveal(regex_test);
    }
    if ctx != ExprContext::Boolean {
        return;
    }
    let m = match static_member_callee(c) {
        Some(m) => m,
        None => return,
    };
    if c.arguments.len() != 1 {
        return;
    }
    let (re, s) = if str_eq(m.property.as_str(), "match") && is_regex_expression(arg_expression(&c.arguments, 0)) {
        (arg_span(&c.arguments[0]), expr_span(&m.object))
    } else if str_eq(m.property.as_str(), "exec") && is_regex_expression(Some(&m.object)) {
        (expr_span(&m.object), arg_span(&c.arguments[0]))
    } else {
        return;
    };
    let regex_text = text_of(t, re);
    let string_text = text_of(t, s);
    let mut r = String::new();
    push_lit(&mut r, regex_text.as_str());
    push_lit(&mut r, ".test(");
    push_lit(&mut r, string_text.as_str());
    push_lit(&mut r, ")");
    let mut data = empty_data();
    data.regex = Some(regex_text);
    data.string = Some(string_text);
    data.original = Some(text_of(t, c.span));
    push_report(out, t, o, "prefer-regex-test", "preferTest", data, c.span, Some(r));
}

/// `prefer-array-some` over `sp`: the call's object, `.some(` and its
/// arguments, negated with `!` when `negate`.
#[verifier::opaque]
pub open spec fn array_some_report(t: Seq<char>, sp: Span, c: CallExpr, negate: bool) -> Option<Report> {
    match member_callee(c) {
        Some(m) => {
            let bang: Seq<char> = if negate { "!"@ } else { Seq::empty() };
            Some(plain("prefer-array-some", "preferArraySome", sp,
                Some(bang + tx(t, m.object) + ".some("@ + join(arg_texts(t, c.arguments@, 0), ", "@) + ")"@)))
        },
        None => None,
    }
}

/// Appends the `prefer-array-some` report over `sp`.
pub fn report_array_some(out: &mut Vec<Diagnostic>, t: &[char], o: &E18eOptions, sp: Span, c: &CallExpr, negate: bool)
    requires
        byte_len(t@) < u32::MAX,
    ensures
        diag_views(final(out)@) == diag_views(old(out)@) + emit(t@, o.rule_names@, array_some_report(t@, sp, *c, negate)),
{
    proof {
        reveal(array_some_report);
    }
    let m = match static_member_callee(c) {
        Some(m) => m,
        None => return,
    };
    let args = argument_texts(t, &c.arguments, 0);
    let mut r = String::new();
    if negate {
        push_lit(&mut r, "!");
    }
    push_text(&mut r, t, expr_span(&m.object));
    push_lit(&mut r, ".some(");
    push_joined(&mut r, &args, ", ");
    push_lit(&mut r, ")");
    proof {
        let bang: Seq<char> = if negate { "!"@ } else { Seq::empty() };
        assert(r@ =~= bang + tx(t@, m.object) + ".some("@ + join(arg_texts(t@, c.arguments@, 0), ", "@) + ")"@);
    }
    push_report(out, t, o, "prefer-array-some", "preferArraySome", empty_data(), sp, Some(r));
}

/// `prefer-array-some` on a `find` call where a boolean is read.
pub open spec fn array_some_call(t: Seq<char>, c: CallExpr, ctx: ExprContext) -> Option<Report> {
    if ctx == ExprContext::Boolean && method_call(c, "find"@) {
        array_some_report(t, c.span, c, false)
    } else {
        None
    }
}

/// `prefer-static-regex` on a call of `RegExp` with constant arguments
/// inside a function.
#[verifier::opaque]
pub open spec fn static_regex_call(c: CallExpr, depth: nat) -> Option<Report> {
    if depth == 0 || !is_ident(c.callee, "RegExp"@) {
        None
    } else if static_regexp(c.arguments@) {
        Some(plain("prefer-static-regex", "preferStatic", c.span, None))
    } else {
        None
    }
}

/// `prefer-static-regex` on a call.
pub fn check_prefer_static_regex_call(out: &mut Vec<Diagnostic>, t: &[char], o: &E18eOptions, c: &CallExpr, depth: usize)
    requires
        byte_len(t@) < u32::MAX,
    ensures
        diag_views(final(out)@) == diag_views(old(out)@) + emit(t@, o.rule_names@, static_regex_call(*c, depth as nat)),
{
    proof {
        reveal(static_regex_call);
    }
    if depth == 0 || !is_identifier_named(&c.callee, "RegExp") {
        return;
    }
    if static_regexp_args(&c.arguments) {
        push_report(out, t, o, "prefer-static-regex", "preferStatic", empty_data(), c.span, None);
    }
}

/// `x === value` for an element `x`.
pub open spec fn eq_part(t: Seq<char>, value: Seq<char>, e: ArrayElem) -> Seq<char> {
    tx(t, e->Expr_0) + " === "@ + value
}

/// An element that is a name or a literal an equality can stand for.
pub open spec fn simple_elem(e: ArrayElem) -> bool {
    e matches ArrayElem::Expr(x) && simple_element(x)
}

/// `prefer-inline-equality`: `[a, b].includes(x)` with one to six names or
/// literals becomes `a === x || b === x`.
#[verifier::opaque]
pub open spec fn inline_equality(t: Seq<char>, c: CallExpr) -> Option<Report> {
    match member_callee(c) {
        Some(m) => if m.property@ != "includes"@ || c.arguments@.len() != 1 {
            None
        } else {
            match inner(m.object) {
                Expr::Array { elements, .. } => {
                    let es = elements@;
                    if es.len() == 0 || es.len() > 6 {
                        None
                    } else if forall|i: int| 0 <= i < es.len() ==> simple_elem(#[trigger] es[i]) {
                        let value = ta(t, c.arguments@[0]);
                        Some(plain("prefer-inline-equality", "preferEquality", c.span,
                            Some(join(es.map_values(|e: ArrayElem| eq_part(t, value, e)), " || "@))))
                    } else {
                        None
                    }
                },
                _ => None,
            }
        },
        None => None,
    }
}

/// Whether every element is a name or a literal an equality can stand for.
fn all_simple(v: &Vec<ArrayElem>) -> (r: bool)
    ensures
        r == forall|i: int| 0 <= i < v@.len() ==> simple_elem(#[trigger] v@[i]),
{
    let mut i: usize = 0;
    while i < v.len()
        invariant
            i <= v@.len(),
            forall|k: int| 0 <= k < i ==> simple_elem(#[trigger] v@[k]),
        decreases v@.len() - i,
    {
        let ok = match &v[i] {
            ArrayElem::Expr(x) => is_simple_inline_element(x),
            _ => false,
        };
        if !ok {
            assert(!simple_elem(v@[i as int]));
            return false;
        }
        i = i + 1;
    }
    true
}

/// Whether every argument is an integer literal below 65536.
fn all_safe_code_points(v: &Vec<Arg>) -> (r: bool)
    ensures
        r == forall|i: int| 0 <= i < v@.len() ==> safe_code_point(#[trigger] v@[i]),
{
    let mut i: usize = 0;
    while i < v.len()
        invariant
            i <= v@.len(),
            forall|k: int| 0 <= k < i ==> safe_code_point(#[trigger] v@[k]),
        decreases v@.len() - i,
    {
        if !is_safe_from_code_point_arg(&v[i]) {
            return false;
        }
        i = i + 1;
    }
    true
}

/// `prefer-inline-equality` on a call.
pub fn check_prefer_inline_equality(out: &mut Vec<Diagnostic>, t: &[char], o: &E18eOptions, c: &CallExpr)
    requires
        byte_len(t@) < u32::MAX,
    ensures
        diag_views(final(out)@) == diag_views(old(out)@) + emit(t@, o.rule_names@, inline_equality(t@, *c)),
{
    proof {
        reveal(inline_equality);
    }
    let m = match static_member_callee(c) {
        Some(m) => m,
        None => return,
    };
    if !str_eq(m.property.as_str(), "includes") || c.arguments.len() != 1 {
        return;
    }
    let elements = match get_inner_expression(&m.object) {
        Expr::Array { elements, .. } => elements,
        _ => return,
    };
    if elements.len() == 0 || elements.len() > 6 {
        return;
    }
    if !all_simple(elements) {
        return;
    }
    let value = text_of(t, arg_span(&c.arguments[0]));
    let mut parts: Vec<String> = Vec::new();
    let mut i: usize = 0;
    while i < elements.len()
        invariant
            i <= elements@.len(),
            byte_len(t@) < u32::MAX,
            forall|k: int| 0 <= k < elements@.len() ==> simple_elem(#[trigger] elements@[k]),
            views(parts@) == elements@.take(i as int).map_values(|e: ArrayElem| eq_part(t@, value@, e)),
        decreases elements@.len() - i,
    {
        assert(simple_elem(elements@[i as int]));
        let x = match &elements[i] {
            ArrayElem::Expr(x) => x,
            _ => return,
        };
        let ghost before = parts@;
        let mut p = text_of(t, expr_span(x));
        push_lit(&mut p, " === ");
        push_lit(&mut p, value.as_str());
        let ghost pv = p@;
        assert(elements@[i as int]->Expr_0 == *x);
        assert(pv =~= tx(t@, *x) + " === "@ + value@);
        assert(eq_part(t@, value@, elements@[i as int]) == pv);
        parts.push(p);
        proof {
            assert(elements@.take(i + 1) =~= elements@.take(i as int).push(elements@[i as int]));
            assert(views(parts@) =~= views(before).push(pv));
        }
        i = i + 1;
    }
    assert(elements@.take(elements@.len() as int) =~= elements@);
    let mut r = String::new();
    push_joined(&mut r, &parts, " || ");
    assert(r@ =~= join(elements@.map_values(|e: ArrayElem| eq_part(t@, value@, e)), " || "@));
    push_report(out, t, o, "prefer-inline-equality", "preferEquality", empty_data(), c.span, Some(r));
}

/// `prefer-string-fromcharcode`: `String.fromCodePoint` with integer
/// literals below 65536 becomes `String.fromCharCode`; the report and the
/// fix cover the method's name.
#[verifier::opaque]
pub open spec fn string_from_char_code(c: CallExpr) -> Option<Report> {
    if !static_call(c, "String"@, "fromCodePoint"@) || c.arguments@.len() == 0 {
        None
    } else if !(forall|i: int| 0 <= i < c.arguments@.len() ==> safe_code_point(#[trigger] c.arguments@[i])) {
        None
    } else {
        match inner(c.callee) {
            Expr::StaticMember(m) => Some(plain("prefer-string-fromcharcode", "preferFromCharCode", m.property_span,
                Some("fromCharCode"@))),
            _ => None,
        }
    }
}

/// `prefer-string-fromcharcode` on a call.
pub fn check_prefer_string_from_char_code(out: &mut Vec<Diagnostic>, t: &[char], o: &E18eOptions, c: &CallExpr)
    requires
        byte_len(t@) < u32::MAX,
    ensures
        diag_views(final(out)@) == diag_views(old(out)@) + emit(t@, o.rule_names@, string_from_char_code(*c)),
{
    proof {
        reveal(string_from_char_code);
    }
    if !is_static_call(c, "String", "fromCodePoint") || c.arguments.len() == 0 {
        return;
    }
    if !all_safe_code_points(&c.arguments) {
        return;
    }
    if let Expr::StaticMember(m) = get_inner_expression(&c.callee) {
        push_report(out, t, o, "prefer-string-fromcharcode", "preferFromCharCode", empty_data(), m.property_span,
            Some(crate::text::string_of("fromCharCode")));
    }
}

/// `prefer-timer-args`: `setTimeout(() => f(a), d)` becomes
/// `setTimeout(f, d, a)` when `f` is not a member access, and
/// `setTimeout(f.bind(null, a), d)` becomes `setTimeout(f, d, a)`.
#[verifier::opaque]
pub open spec fn timer_args(t: Seq<char>, c: CallExpr) -> Option<Report> {
    if !timer_call(c) || c.arguments@.len() < 2 {
        None
    } else {
        match arg_expr(c.arguments@[0]) {
            Some(first) => {
                let delay = ta(t, c.arguments@[1]);
                let timer = tx(t, c.callee);
                let text: Option<Seq<char>> = match inner(first) {
                    Expr::Arrow(f) => if f.has_params || !f.expression {
                        None
                    } else {
                        match body_expression(f.body@) {
                            Some(b) => match inner(b) {
                                Expr::Call(ic) => if inner(ic.callee) is StaticMember {
                                    None
                                } else {
                                    Some(timer_text(timer, tx(t, ic.callee), delay, arg_texts(t, ic.arguments@, 0)))
                                },
                                _ => None,
                            },
                            None => None,
                        }
                    },
                    Expr::Call(bc) => if !method_call(*bc, "bind"@) || bc.arguments@.len() == 0 {
                        None
                    } else {
                        match arg_expr(bc.arguments@[0]) {
                            Some(ctx) => if !is_nullish(ctx) {
                                None
                            } else {
                                Some(timer_text(timer, tx(t, member_callee(*bc)->0.object), delay, arg_texts(t, bc.arguments@, 1)))
                            },
                            None => None,
                        }
                    },
                    _ => None,
                };
                match text {
                    Some(r) => Some(plain("prefer-timer-args", "preferArgs", c.span, Some(r))),
                    None => None,
                }
            },
            None => None,
        }
    }
}

/// `prefer-timer-args` on a call.
pub fn check_prefer_timer_args(out: &mut Vec<Diagnostic>, t: &[char], o: &E18eOptions, c: &CallExpr)
    requires
        byte_len(t@) < u32::MAX,
    ensures
        diag_views(final(out)@) == diag_views(old(out)@) + emit(t@, o.rule_names@, timer_args(t@, *c)),
{
    proof {
        reveal(timer_args);
    }
    if !is_timer_call(c) || c.arguments.len() < 2 {
        return;
    }
    let first = match arg_expression(&c.arguments, 0) {
        Some(f) => f,
        None => return,
    };
    let delay = text_of(t, arg_span(&c.arguments[1]));
    let timer = text_of(t, expr_span(&c.callee));
    let r = match get_inner_expression(first) {
        Expr::Arrow(f) => {
            if f.has_params || !f.expression {
                return;
            }
            let b = match expression_body(&f.body) {
                Some(b) => b,
                None => return,
            };
            let ic = match get_inner_expression(b) {
                Expr::Call(ic) => ic,
                _ => return,
            };
            if let Expr::StaticMember(_) = get_inner_expression(&ic.callee) {
                return;
            }
            let args = argument_texts(t, &ic.arguments, 0);
            let callee = text_of(t, expr_span(&ic.callee));
            format_timer_replacement(timer.as_str(), callee.as_str(), delay.as_str(), &args)
        },
        Expr::Call(bc) => {
            if !is_method_call(bc, "bind") || bc.arguments.len() == 0 {
                return;
            }
            let ctx = match arg_expression(&bc.arguments, 0) {
                Some(x) => x,
                None => return,
            };
            if !is_null_or_undefined(ctx) {
                return;
            }
            let fm = match static_member_callee(bc) {
                Some(fm) => fm,
                None => return,
            };
            let args = argument_texts(t, &bc.arguments, 1);
            let callee = text_of(t, expr_span(&fm.object));
            format_timer_replacement(timer.as_str(), callee.as_str(), delay.as_str(), &args)
        },
        _ => return,
    };
    push_report(out, t, o, "prefer-timer-args", "preferArgs", empty_data(), c.span, Some(r));
}

/// `prefer-includes-over-regex-test`: `/text/.test(s)` and the like become
/// `s.includes("text")`, `s.startsWith(..)`, `s.endsWith(..)` or
/// `s === ".."`, the text written as `{:?}` writes it.
#[verifier::opaque]
pub open spec fn includes_over_regex_test(t: Seq<char>, c: CallExpr) -> Option<Report> {
    if !method_call(c, "test"@) || c.arguments@.len() != 1 {
        None
    } else {
        match member_callee(c) {
            Some(m) => match regex_equivalent(tx(t, m.object)) {
                Some((message, method, value)) => {
                    let s = ta(t, c.arguments@[0]);
                    let r = if method@ == "==="@ {
                        s + " === "@ + debug_of(value)
                    } else {
                        s + "."@ + method@ + "("@ + debug_of(value) + ")"@
                    };
                    Some(plain("prefer-includes-over-regex-test", message, c.span, Some(r)))
                },
                None => None,
            },
            None => None,
        }
    }
}

/// `prefer-includes-over-regex-test` on a call.
pub fn check_prefer_includes_over_regex_test(out: &mut Vec<Diagnostic>, t: &[char], o: &E18eOptions, c: &CallExpr)
    requires
        byte_len(t@) < u32::MAX,
    ensures
        diag_views(final(out)@) == diag_views(old(out)@) + emit(t@, o.rule_names@, includes_over_regex_test(t@, *c)),
{
    proof {
        reveal(includes_over_regex_test);
    }
    if !is_method_call(c, "test") || c.arguments.len() != 1 {
        return;
    }
    let m = match static_member_callee(c) {
        Some(m) => m,
        None => return,
    };
    let regex = text_of(t, expr_span(&m.object));
    let (message, method, value) = match simple_regex_equivalent(regex.as_str()) {
        Some(x) => x,
        None => return,
    };
    let s = text_of(t, arg_span(&c.arguments[0]));
    let quoted = str_debug(value.as_str());
    let mut r = String::new();
    push_lit(&mut r, s.as_str());
    if str_eq(method, "===") {
        push_lit(&mut r, " === ");
        push_lit(&mut r, quoted.as_str());
    } else {
        push_lit(&mut r, ".");
        push_lit(&mut r, method);
        push_lit(&mut r, "(");
        push_lit(&mut r, quoted.as_str());
        push_lit(&mut r, ")");
    }
    push_report(out, t, o, "prefer-includes-over-regex-test", message, empty_data(), c.span, Some(r));
}

/// `no-spread-in-reduce`: a report on each callback of `reduce` that builds
/// its value with a spread.
#[verifier::opaque]
pub open spec fn spread_in_reduce(t: Seq<char>, names: Seq<String>, c: CallExpr) -> Seq<DiagView> {
    match member_callee(c) {
        Some(m) => if m.property@ == "reduce"@ {
            reduce_reports(t, names, c.arguments@)
        } else {
            Seq::empty()
        },
        None => Seq::empty(),
    }
}

/// The `no-spread-in-reduce` reports on the arguments, in order.
pub open spec fn reduce_reports(t: Seq<char>, names: Seq<String>, args: Seq<Arg>) -> Seq<DiagView>
    decreases args.len(),
{
    if args.len() == 0 {
        Seq::empty()
    } else {
        reduce_reports(t, names, args.drop_last()) + match args.last() {
            Arg::Expr(x) => if callback_has_spread(x) {
                emit(t, names, Some(plain("no-spread-in-reduce", "noSpreadInReduce", span_of(x), None)))
            } else {
                Seq::empty()
            },
            Arg::Spread { .. } => Seq::empty(),
        }
    }
}

/// `no-spread-in-reduce` on a call.
pub fn check_no_spread_in_reduce(out: &mut Vec<Diagnostic>, t: &[char], o: &E18eOptions, c: &CallExpr)
    requires
        byte_len(t@) < u32::MAX,
    ensures
        diag_views(final(out)@) == diag_views(old(out)@) + spread_in_reduce(t@, o.rule_names@, *c),
{
    proof {
        reveal(spread_in_reduce);
    }
    let m = match static_member_callee(c) {
        Some(m) => m,
        None => {
            assert(diag_views(out@) =~= diag_views(out@) + Seq::<DiagView>::empty());
            return;
        },
    };
    if !str_eq(m.property.as_str(), "reduce") {
        assert(diag_views(out@) =~= diag_views(out@) + Seq::<DiagView>::empty());
        return;
    }
    let ghost base = diag_views(old(out)@);
    let mut i: usize = 0;
    while i < c.arguments.len()
        invariant
            i <= c.arguments@.len(),
            byte_len(t@) < u32::MAX,
            diag_views(out@) == base + reduce_reports(t@, o.rule_names@, c.arguments@.take(i as int)),
        decreases c.arguments@.len() - i,
    {
        proof {
            assert(c.arguments@.take(i + 1).drop_last() =~= c.arguments@.take(i as int));
            assert(c.arguments@.take(i + 1).last() == c.arguments@[i as int]);
        }
        match &c.arguments[i] {
            Arg::Expr(x) => {
                if function_body_contains_spread(x) {
                    push_report(out, t, o, "no-spread-in-reduce", "noSpreadInReduce", empty_data(), expr_span(x), None);
                } else {
                    assert(diag_views(out@) =~= diag_views(out@) + Seq::<DiagView>::empty());
                }
            },
            Arg::Spread { .. } => {
                assert(diag_views(out@) =~= diag_views(out@) + Seq::<DiagView>::empty());
            },
        }
        i = i + 1;
    }
    assert(c.arguments@.take(c.arguments@.len() as int) =~= c.arguments@);
}

/// `prefer-static-collator`: `Intl.Collator(..)` called inside a function.
#[verifier::opaque]
pub open spec fn static_collator(c: CallExpr, depth: nat) -> Option<Report> {
    if depth > 0 && static_call(c, "Intl"@, "Collator"@) {
        Some(plain("prefer-static-collator", "preferStaticCollator", c.span, None))
    } else {
        None
    }
}

/// `prefer-static-collator` on a call.
pub fn check_prefer_static_collator(out: &mut Vec<Diagnostic>, t: &[char], o: &E18eOptions, c: &CallExpr, depth: usize)
    requires
        byte_len(t@) < u32::MAX,
    ensures
        diag_views(final(out)@) == diag_views(old(out)@) + emit(t@, o.rule_names@, static_collator(*c, depth as nat)),
{
    proof {
        reveal(static_collator);
    }
    if depth > 0 && is_static_call(c, "Intl", "Collator") {
        push_report(out, t, o, "prefer-static-collator", "preferStaticCollator", empty_data(), c.span, None);
    }
}

} // verus!
