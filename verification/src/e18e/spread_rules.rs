//! `prefer-spread-syntax`: `concat`, `Array.from`, `Object.assign` and
//! `apply` written with spreads.
use vstd::prelude::*;
use crate::text::{byte_len, str_eq, push_char};
use super::ast::{Expr, CallExpr, Arg, ArrayElem, Span, inner, get_inner_expression, span_of, expr_span, arg_span_of, arg_span};
use super::source::{txt, Report, plain, emit, diag_views, push_report, push_text, push_lit, text_of, empty_data};
use super::syntax::{
    static_call, is_static_call, member_callee, static_member_callee, arg_expr, arg_expression,
    is_ident, is_identifier_named, is_nullish, is_null_or_undefined,
};
use super::strings::{join, views, push_joined};
use super::array_rules::{tx, ta};
use super::dependencies::{Diagnostic, E18eOptions};

verus! {

/// The text an array element adds to a spread array: an expression or a
/// spread as written; a hole adds nothing.
pub open spec fn elem_part(t: Seq<char>, e: ArrayElem) -> Seq<Seq<char>> {
    match e {
        ArrayElem::Expr(x) => seq![tx(t, x)],
        ArrayElem::Spread { span, .. } => seq![txt(t, span)],
        ArrayElem::Hole => Seq::empty(),
    }
}

/// The texts that the elements of an array add, in order.
pub open spec fn elem_parts(t: Seq<char>, es: Seq<ArrayElem>) -> Seq<Seq<char>>
    decreases es.len(),
{
    if es.len() == 0 {
        Seq::empty()
    } else {
        elem_parts(t, es.drop_last()) + elem_part(t, es.last())
    }
}

/// The texts of the expression elements of an array, in order.
pub open spec fn expr_elem_parts(t: Seq<char>, es: Seq<ArrayElem>) -> Seq<Seq<char>>
    decreases es.len(),
{
    if es.len() == 0 {
        Seq::empty()
    } else {
        expr_elem_parts(t, es.drop_last()) + match es.last() {
            ArrayElem::Expr(x) => seq![tx(t, x)],
            _ => Seq::empty(),
        }
    }
}

/// The texts a `concat` argument adds: a spread as written, the
/// expression elements of an array, or `...x` for anything else.
pub open spec fn arg_part(t: Seq<char>, a: Arg) -> Seq<Seq<char>> {
    match a {
        Arg::Spread { span, .. } => seq![txt(t, span)],
        Arg::Expr(x) => match inner(x) {
            Expr::Array { elements, .. } => expr_elem_parts(t, elements@),
            _ => seq!["..."@ + tx(t, x)],
        },
    }
}

/// The texts that the arguments of `concat` add, in order.
pub open spec fn arg_parts(t: Seq<char>, args: Seq<Arg>) -> Seq<Seq<char>>
    decreases args.len(),
{
    if args.len() == 0 {
        Seq::empty()
    } else {
        arg_parts(t, args.drop_last()) + arg_part(t, args.last())
    }
}

/// `...a` for each argument from the second on.
pub open spec fn spread_rest(t: Seq<char>, args: Seq<Arg>) -> Seq<Seq<char>> {
    args.skip(1).map_values(|a: Arg| "..."@ + ta(t, a))
}

/// `s` without the `c` it starts with, however many.
pub open spec fn trim_leading(s: Seq<char>, c: char) -> Seq<char>
    decreases s.len(),
{
    if s.len() > 0 && s[0] == c {
        trim_leading(s.drop_first(), c)
    } else {
        s
    }
}

/// `s` without the `c` it ends with, however many.
pub open spec fn trim_trailing(s: Seq<char>, c: char) -> Seq<char>
    decreases s.len(),
{
    if s.len() > 0 && s.last() == c {
        trim_trailing(s.drop_last(), c)
    } else {
        s
    }
}

/// `prefer-spread-syntax`: `a.concat(b)` becomes `[...a, ...b]` (not on
/// `Buffer`), `Array.from(x)` becomes `[...x]`, `Object.assign({..}, b)`
/// becomes `{.., ...b}`, and `f.apply(null, args)` becomes `f(...args)`.
#[verifier::opaque]
pub open spec fn spread_syntax(t: Seq<char>, c: CallExpr) -> Option<Report> {
    match member_callee(c) {
        None => None,
        Some(m) => if m.property@ == "concat"@ && !is_ident(m.object, "Buffer"@) && c.arguments@.len() > 0 {
            let head = match inner(m.object) {
                Expr::Array { elements, .. } => elem_parts(t, elements@),
                _ => seq!["..."@ + tx(t, m.object)],
            };
            Some(plain("prefer-spread-syntax", "preferSpreadArray", c.span,
                Some("["@ + join(head + arg_parts(t, c.arguments@), ", "@) + "]"@)))
        } else if static_call(c, "Array"@, "from"@) && c.arguments@.len() == 1 {
            let first = c.arguments@[0];
            if !(first is Spread) && !(arg_expr(first) matches Some(x) && inner(x) is Object) {
                Some(plain("prefer-spread-syntax", "preferSpreadArrayFrom", c.span, Some("[..."@ + ta(t, first) + "]"@)))
            } else {
                None
            }
        } else if static_call(c, "Object"@, "assign"@) && c.arguments@.len() >= 2 {
            match arg_expr(c.arguments@[0]) {
                Some(x) => match inner(x) {
                    Expr::Object { properties, .. } => if exists|i: int| 1 <= i < c.arguments@.len() && (#[trigger] c.arguments@[i]) is Spread {
                        None
                    } else {
                        let head: Seq<char> = if properties@.len() > 0 {
                            trim_trailing(trim_leading(ta(t, c.arguments@[0]), '{'), '}') + ", "@
                        } else {
                            Seq::empty()
                        };
                        Some(plain("prefer-spread-syntax", "preferSpreadObject", c.span,
                            Some("{"@ + head + join(spread_rest(t, c.arguments@), ", "@) + "}"@)))
                    },
                    _ => None,
                },
                None => None,
            }
        } else if m.property@ == "apply"@ && c.arguments@.len() == 2 {
            match arg_expr(c.arguments@[0]) {
                Some(x) => if is_nullish(x) {
                    Some(plain("prefer-spread-syntax", "preferSpreadFunction", c.span,
                        Some(tx(t, m.object) + "(..."@ + ta(t, c.arguments@[1]) + ")"@)))
                } else {
                    None
                },
                None => None,
            }
        } else {
            None
        },
    }
}

/// Appends the texts the elements of an array add.
fn push_elem_parts(parts: &mut Vec<String>, t: &[char], es: &Vec<ArrayElem>, only_expressions: bool)
    requires
        byte_len(t@) < u32::MAX,
    ensures
        views(final(parts)@) == views(old(parts)@) + if only_expressions {
            expr_elem_parts(t@, es@)
        } else {
            elem_parts(t@, es@)
        },
{
    let ghost base = views(old(parts)@);
    let mut i: usize = 0;
    while i < es.len()
        invariant
            i <= es@.len(),
            byte_len(t@) < u32::MAX,
            views(parts@) == base + if only_expressions {
                expr_elem_parts(t@, es@.take(i as int))
            } else {
                elem_parts(t@, es@.take(i as int))
            },
        decreases es@.len() - i,
    {
        let ghost before = parts@;
        proof {
            assert(es@.take(i + 1).drop_last() =~= es@.take(i as int));
            assert(es@.take(i + 1).last() == es@[i as int]);
        }
        match &es[i] {
            ArrayElem::Expr(x) => {
                parts.push(text_of(t, expr_span(x)));
                assert(views(parts@) =~= views(before).push(parts@.last()@));
            },
            ArrayElem::Spread { span, .. } => {
                if !only_expressions {
                    parts.push(text_of(t, *span));
                    assert(views(parts@) =~= views(before).push(parts@.last()@));
                } else {
                    assert(views(parts@) =~= views(before) + Seq::<Seq<char>>::empty());
                }
            },
            ArrayElem::Hole => {
                assert(views(parts@) =~= views(before) + Seq::<Seq<char>>::empty());
            },
        }
        i = i + 1;
    }
    assert(es@.take(es@.len() as int) =~= es@);
}

/// `...` and the text of a span.
fn spread_text(t: &[char], sp: Span) -> (r: String)
    requires
        byte_len(t@) < u32::MAX,
    ensures
        r@ == "..."@ + txt(t@, sp),
{
    let mut r = String::new();
    push_lit(&mut r, "...");
    push_text(&mut r, t, sp);
    r
}

/// Appends the texts the arguments of `concat` add.
fn push_arg_parts(parts: &mut Vec<String>, t: &[char], args: &Vec<Arg>)
    requires
        byte_len(t@) < u32::MAX,
    ensures
        views(final(parts)@) == views(old(parts)@) + arg_parts(t@, args@),
{
    let ghost base = views(old(parts)@);
    let mut i: usize = 0;
    while i < args.len()
        invariant
            i <= args@.len(),
            byte_len(t@) < u32::MAX,
            views(parts@) == base + arg_parts(t@, args@.take(i as int)),
        decreases args@.len() - i,
    {
        let ghost before = parts@;
        proof {
            assert(args@.take(i + 1).drop_last() =~= args@.take(i as int));
            assert(args@.take(i + 1).last() == args@[i as int]);
        }
        match &args[i] {
            Arg::Spread { span, .. } => {
                parts.push(text_of(t, *span));
                assert(views(parts@) =~= views(before).push(parts@.last()@));
            },
            Arg::Expr(x) => {
                match get_inner_expression(x) {
                    Expr::Array { elements, .. } => {
                        push_elem_parts(parts, t, elements, true);
                    },
                    _ => {
                        parts.push(spread_text(t, expr_span(x)));
                        assert(views(parts@) =~= views(before).push(parts@.last()@));
                    },
                }
            },
        }
        assert(views(parts@) =~= base + arg_parts(t@, args@.take(i + 1)));
        i = i + 1;
    }
    assert(args@.take(args@.len() as int) =~= args@);
}

/// `s` without the `{` it starts with and the `}` it ends with.
fn trim_braces(s: &String) -> (r: String)
    ensures
        r@ == trim_trailing(trim_leading(s@, '{'), '}'),
{
    let v = crate::text::chars_of(s.as_str());
    let mut a: usize = 0;
    assert(v@.skip(0) =~= v@);
    while a < v.len() && v[a] == '{'
        invariant
            a <= v@.len(),
            v@ == s@,
            trim_leading(s@, '{') == trim_leading(v@.skip(a as int), '{'),
        decreases v@.len() - a,
    {
        assert(v@.skip(a as int).drop_first() =~= v@.skip(a + 1));
        a = a + 1;
    }
    assert(trim_leading(v@.skip(a as int), '{') == v@.skip(a as int));
    let mut b: usize = v.len();
    while b > a && v[b - 1] == '}'
        invariant
            a <= b <= v@.len(),
            trim_trailing(v@.skip(a as int), '}') == trim_trailing(v@.subrange(a as int, b as int), '}'),
        decreases b,
    {
        assert(v@.subrange(a as int, b as int).drop_last() =~= v@.subrange(a as int, b - 1));
        b = b - 1;
    }
    assert(v@.skip(a as int) =~= v@.subrange(a as int, v@.len() as int));
    crate::text::string_from(v.as_slice(), a, b)
}

/// Whether an argument from the second on is a spread.
fn rest_has_spread(args: &Vec<Arg>) -> (r: bool)
    ensures
        r == exists|i: int| 1 <= i < args@.len() && (#[trigger] args@[i]) is Spread,
{
    let mut k: usize = 1;
    while k < args.len()
        invariant
            1 <= k,
            k <= args@.len() || args@.len() == 0,
            forall|i: int| 1 <= i < k ==> !((#[trigger] args@[i]) is Spread),
        decreases args@.len() - k,
    {
        if let Arg::Spread { .. } = &args[k] {
            assert(args@[k as int] is Spread);
            return true;
        }
        k = k + 1;
    }
    false
}

/// `prefer-spread-syntax` on a call.
pub fn check_prefer_spread_syntax(out: &mut Vec<Diagnostic>, t: &[char], o: &E18eOptions, c: &CallExpr)
    requires
        byte_len(t@) < u32::MAX,
    ensures
        diag_views(final(out)@) == diag_views(old(out)@) + emit(t@, o.rule_names@, spread_syntax(t@, *c)),
{
    proof {
        reveal(spread_syntax);
    }
    let m = match static_member_callee(c) {
        Some(m) => m,
        None => return,
    };
    if str_eq(m.property.as_str(), "concat") && !is_identifier_named(&m.object, "Buffer") && c.arguments.len() > 0 {
        let mut parts: Vec<String> = Vec::new();
        match get_inner_expression(&m.object) {
            Expr::Array { elements, .. } => {
                push_elem_parts(&mut parts, t, elements, false);
            },
            _ => {
                parts.push(spread_text(t, expr_span(&m.object)));
            },
        }
        let ghost head = views(parts@);
        push_arg_parts(&mut parts, t, &c.arguments);
        let mut r = String::new();
        push_lit(&mut r, "[");
        push_joined(&mut r, &parts, ", ");
        push_lit(&mut r, "]");
        proof {
            let h = match inner(m.object) {
                Expr::Array { elements, .. } => elem_parts(t@, elements@),
                _ => seq!["..."@ + tx(t@, m.object)],
            };
            assert(head =~= Seq::<Seq<char>>::empty() + h);
        }
        push_report(out, t, o, "prefer-spread-syntax", "preferSpreadArray", empty_data(), c.span, Some(r));
        return;
    }
    if is_static_call(c, "Array", "from") && c.arguments.len() == 1 {
        let first = &c.arguments[0];
        let is_object = match arg_expression(&c.arguments, 0) {
            Some(x) => match get_inner_expression(x) {
                Expr::Object { .. } => true,
                _ => false,
            },
            None => false,
        };
        let is_spread = match first {
            Arg::Spread { .. } => true,
            Arg::Expr(_) => false,
        };
        if !is_spread && !is_object {
            let mut r = String::new();
            push_lit(&mut r, "[...");
            push_text(&mut r, t, arg_span(first));
            push_lit(&mut r, "]");
            push_report(out, t, o, "prefer-spread-syntax", "preferSpreadArrayFrom", empty_data(), c.span, Some(r));
        }
        return;
    }
    if is_static_call(c, "Object", "assign") && c.arguments.len() >= 2 {
        let x = match arg_expression(&c.arguments, 0) {
            Some(x) => x,
            None => return,
        };
        let properties = match get_inner_expression(x) {
            Expr::Object { properties, .. } => properties,
            _ => return,
        };
        if rest_has_spread(&c.arguments) {
            return;
        }
        let mut r = String::new();
        push_lit(&mut r, "{");
        if properties.len() > 0 {
            let first_text = text_of(t, arg_span(&c.arguments[0]));
            let trimmed = trim_braces(&first_text);
            push_lit(&mut r, trimmed.as_str());
            push_lit(&mut r, ", ");
        }
        let mut spreads: Vec<String> = Vec::new();
        let mut j: usize = 1;
        while j < c.arguments.len()
            invariant
                1 <= j <= c.arguments@.len(),
                byte_len(t@) < u32::MAX,
                views(spreads@) =~= c.arguments@.subrange(1, j as int).map_values(|a: Arg| "..."@ + ta(t@, a)),
            decreases c.arguments@.len() - j,
        {
            let ghost before = spreads@;
            spreads.push(spread_text(t, arg_span(&c.arguments[j])));
            proof {
                assert(c.arguments@.subrange(1, j + 1) =~= c.arguments@.subrange(1, j as int).push(c.arguments@[j as int]));
                assert(views(spreads@) =~= views(before).push(spreads@.last()@));
            }
            j = j + 1;
        }
        assert(c.arguments@.subrange(1, c.arguments@.len() as int) =~= c.arguments@.skip(1));
        push_joined(&mut r, &spreads, ", ");
        push_lit(&mut r, "}");
        proof {
            let head: Seq<char> = if properties@.len() > 0 {
                trim_trailing(trim_leading(ta(t@, c.arguments@[0]), '{'), '}') + ", "@
            } else {
                Seq::empty()
            };
            assert(r@ =~= "{"@ + head + join(spread_rest(t@, c.arguments@), ", "@) + "}"@);
        }
        push_report(out, t, o, "prefer-spread-syntax", "preferSpreadObject", empty_data(), c.span, Some(r));
        return;
    }
    if str_eq(m.property.as_str(), "apply") && c.arguments.len() == 2 {
        let x = match arg_expression(&c.arguments, 0) {
            Some(x) => x,
            None => return,
        };
        if !is_null_or_undefined(x) {
            return;
        }
        let mut r = String::new();
        push_text(&mut r, t, expr_span(&m.object));
        push_lit(&mut r, "(...");
        push_text(&mut r, t, arg_span(&c.arguments[1]));
        push_lit(&mut r, ")");
        assert(r@ =~= Seq::<char>::empty() + tx(t@, m.object) + "(..."@ + ta(t@, c.arguments@[1]) + ")"@);
        push_report(out, t, o, "prefer-spread-syntax", "preferSpreadFunction", empty_data(), c.span, Some(r));
    }
}

} // verus!
