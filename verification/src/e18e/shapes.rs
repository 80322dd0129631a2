//! Comparisons with `indexOf`, `find` and `filter(..).length`, nullish
//! checks, spreads inside callbacks, and regular expressions that a string
//! method can stand for.
use vstd::prelude::*;
use crate::text::{byte_len, str_eq, chars_of, string_from};
use super::ast::{
    Expr, CallExpr, Arg, ArrayElem, Property, Stmt, BinaryOp, LogicalOp, Span, inner,
    get_inner_expression, span_of, expr_span,
};
use super::source::{txt, same_text};
use super::syntax::{
    method_call, is_method_call, is_number, is_number_literal, is_null, is_null_literal,
    is_undefined, is_identifier_named, body_expression, expression_body,
};

verus! {

/// A comparison of an `indexOf` call with something: the call, the other
/// side, and whether the call is on the right.
pub open spec fn index_of_comparison(left: Expr, right: Expr) -> Option<(CallExpr, Expr, bool)> {
    match inner(left) {
        Expr::Call(c) if method_call(*c, "indexOf"@) => Some((*c, right, false)),
        _ => match inner(right) {
            Expr::Call(c) if method_call(*c, "indexOf"@) => Some((*c, left, true)),
            _ => None,
        },
    }
}

/// A comparison of an `indexOf` call with something.
pub fn binary_index_of_comparison<'a>(left: &'a Expr, right: &'a Expr) -> (r: Option<(&'a CallExpr, &'a Expr, bool)>)
    ensures
        match r {
            Some((c, x, rev)) => index_of_comparison(*left, *right) == Some((*c, *x, rev)),
            None => index_of_comparison(*left, *right) is None,
        },
{
    if let Expr::Call(c) = get_inner_expression(left) {
        if is_method_call(c, "indexOf") {
            return Some((&**c, right, false));
        }
    }
    if let Expr::Call(c) = get_inner_expression(right) {
        if is_method_call(c, "indexOf") {
            return Some((&**c, left, true));
        }
    }
    None
}

/// The operator as it reads with its sides swapped back.
pub open spec fn normalized(op: BinaryOp, reversed: bool) -> BinaryOp {
    if !reversed {
        op
    } else {
        match op {
            BinaryOp::LessThan => BinaryOp::GreaterThan,
            BinaryOp::LessEqualThan => BinaryOp::GreaterEqualThan,
            BinaryOp::GreaterThan => BinaryOp::LessThan,
            BinaryOp::GreaterEqualThan => BinaryOp::LessEqualThan,
            other => other,
        }
    }
}

/// The operator as it reads with its sides swapped back.
pub fn normalize_operator(op: BinaryOp, reversed: bool) -> (r: BinaryOp)
    ensures
        r == normalized(op, reversed),
{
    if !reversed {
        return op;
    }
    match op {
        BinaryOp::LessThan => BinaryOp::GreaterThan,
        BinaryOp::LessEqualThan => BinaryOp::GreaterEqualThan,
        BinaryOp::GreaterThan => BinaryOp::LessThan,
        BinaryOp::GreaterEqualThan => BinaryOp::LessEqualThan,
        other => other,
    }
}

/// Whether a comparison of `indexOf` with a constant tests for absence
/// (`Some(true)`) or presence (`Some(false)`): against `-1` with an
/// equality, inequality or `>`, against `0` with `>=` or `<`.
pub open spec fn includes_negation(op: BinaryOp, constant: Expr) -> Option<bool> {
    if is_number(constant, -1) {
        match op {
            BinaryOp::StrictInequality | BinaryOp::Inequality | BinaryOp::GreaterThan => Some(false),
            BinaryOp::StrictEquality | BinaryOp::Equality => Some(true),
            _ => None,
        }
    } else if is_number(constant, 0) {
        match op {
            BinaryOp::GreaterEqualThan => Some(false),
            BinaryOp::LessThan => Some(true),
            _ => None,
        }
    } else {
        None
    }
}

/// Whether a comparison of `indexOf` with a constant tests for absence or
/// presence.
pub fn includes_negation_for_constant(op: BinaryOp, constant: &Expr) -> (r: Option<bool>)
    ensures
        r == includes_negation(op, *constant),
{
    if is_number_literal(constant, -1) {
        return match op {
            BinaryOp::StrictInequality | BinaryOp::Inequality | BinaryOp::GreaterThan => Some(false),
            BinaryOp::StrictEquality | BinaryOp::Equality => Some(true),
            _ => None,
        };
    }
    if is_number_literal(constant, 0) {
        return match op {
            BinaryOp::GreaterEqualThan => Some(false),
            BinaryOp::LessThan => Some(true),
            _ => None,
        };
    }
    None
}

/// A test of a value against `null` and `undefined`: the value, and
/// whether the test holds when it is nullish. `x == null`, `x != null`,
/// `x === null || x === undefined` and `x !== null && x !== undefined`,
/// in either order of `null` and `undefined`, the two sides naming the
/// same text.
pub open spec fn nullish_test(t: Seq<char>, e: Expr) -> Option<(Expr, bool)> {
    match inner(e) {
        Expr::Binary { op, left, right, .. } => if (op == BinaryOp::Equality || op == BinaryOp::Inequality) && is_null(*right) {
            Some((*left, op == BinaryOp::Equality))
        } else {
            None
        },
        Expr::Logical { op, left, right, .. } => match (inner(*left), inner(*right)) {
            (Expr::Binary { op: lop, left: ll, right: lr, .. }, Expr::Binary { op: rop, left: rl, right: rr, .. }) =>
                if txt(t, span_of(*ll)) != txt(t, span_of(*rl)) {
                    None
                } else if !((is_null(*lr) && !is_undefined(*lr) && !is_null(*rr) && is_undefined(*rr))
                    || (!is_null(*lr) && is_undefined(*lr) && is_null(*rr) && !is_undefined(*rr))) {
                    None
                } else if op == LogicalOp::Or && lop == BinaryOp::StrictEquality && rop == BinaryOp::StrictEquality {
                    Some((*ll, true))
                } else if op == LogicalOp::And && lop == BinaryOp::StrictInequality && rop == BinaryOp::StrictInequality {
                    Some((*ll, false))
                } else {
                    None
                },
            _ => None,
        },
        _ => None,
    }
}

/// A test of a value against `null` and `undefined`.
pub fn nullish_check<'a>(t: &[char], e: &'a Expr) -> (r: Option<(&'a Expr, bool)>)
    requires
        byte_len(t@) < u32::MAX,
    ensures
        match r {
            Some((x, b)) => nullish_test(t@, *e) == Some((*x, b)),
            None => nullish_test(t@, *e) is None,
        },
{
    match get_inner_expression(e) {
        Expr::Binary { op, left, right, .. } => if (*op == BinaryOp::Equality || *op == BinaryOp::Inequality) && is_null_literal(right) {
            Some((&**left, *op == BinaryOp::Equality))
        } else {
            None
        },
        Expr::Logical { op, left, right, .. } => {
            let l = get_inner_expression(left);
            let r = get_inner_expression(right);
            match (l, r) {
                (Expr::Binary { op: lop, left: ll, right: lr, .. }, Expr::Binary { op: rop, left: rl, right: rr, .. }) => {
                    if !same_text(t, expr_span(ll), expr_span(rl)) {
                        return None;
                    }
                    let ln = is_null_literal(lr);
                    let lu = is_identifier_named(lr, "undefined");
                    let rn = is_null_literal(rr);
                    let ru = is_identifier_named(rr, "undefined");
                    if !((ln && !lu && !rn && ru) || (!ln && lu && rn && !ru)) {
                        return None;
                    }
                    if *op == LogicalOp::Or && *lop == BinaryOp::StrictEquality && *rop == BinaryOp::StrictEquality {
                        Some((&**ll, true))
                    } else if *op == LogicalOp::And && *lop == BinaryOp::StrictInequality && *rop == BinaryOp::StrictInequality {
                        Some((&**ll, false))
                    } else {
                        None
                    }
                },
                _ => None,
            }
        },
        _ => None,
    }
}

/// The expression of an expression statement, alone or as the one
/// statement of a block.
pub open spec fn single_expression(s: Stmt) -> Option<Expr> {
    match s {
        Stmt::Expression(e) => Some(e),
        Stmt::Block(b) => body_expression(b@),
        _ => None,
    }
}

/// The expression of an expression statement, alone or as the one
/// statement of a block.
pub fn single_expression_statement(s: &Stmt) -> (r: Option<&Expr>)
    ensures
        match r {
            Some(x) => single_expression(*s) == Some(*x),
            None => single_expression(*s) is None,
        },
{
    match s {
        Stmt::Expression(e) => Some(e),
        Stmt::Block(b) => expression_body(b),
        _ => None,
    }
}

/// A `find` call, or the call in `x.filter(..).length`.
pub open spec fn find_or_filter_length(e: Expr) -> Option<CallExpr> {
    match inner(e) {
        Expr::Call(c) => if method_call(*c, "find"@) {
            Some(*c)
        } else {
            None
        },
        Expr::StaticMember(m) => if m.property@ == "length"@ {
            match inner(m.object) {
                Expr::Call(c) => if method_call(*c, "filter"@) {
                    Some(*c)
                } else {
                    None
                },
                _ => None,
            }
        } else {
            None
        },
        _ => None,
    }
}

/// A `find` call, or the call in `x.filter(..).length`.
pub fn find_call_or_filter_length(e: &Expr) -> (r: Option<&CallExpr>)
    ensures
        match r {
            Some(c) => find_or_filter_length(*e) == Some(*c),
            None => find_or_filter_length(*e) is None,
        },
{
    match get_inner_expression(e) {
        Expr::Call(c) => if is_method_call(c, "find") {
            Some(&**c)
        } else {
            None
        },
        Expr::StaticMember(m) => if str_eq(m.property.as_str(), "length") {
            match get_inner_expression(&m.object) {
                Expr::Call(c) => if is_method_call(c, "filter") {
                    Some(&**c)
                } else {
                    None
                },
                _ => None,
            }
        } else {
            None
        },
        _ => None,
    }
}

/// A comparison of a `find` call or a `filter(..).length` with
/// something: the call, whether it is `find`, the other side, and whether
/// the call is on the right.
pub open spec fn find_or_filter_comparison(left: Expr, right: Expr) -> Option<(CallExpr, bool, Expr, bool)> {
    match find_or_filter_length(left) {
        Some(c) => Some((c, method_call(c, "find"@), right, false)),
        None => match find_or_filter_length(right) {
            Some(c) => Some((c, method_call(c, "find"@), left, true)),
            None => None,
        },
    }
}

/// A comparison of a `find` call or a `filter(..).length` with something.
pub fn find_or_filter_compare<'a>(left: &'a Expr, right: &'a Expr) -> (r: Option<(&'a CallExpr, bool, &'a Expr, bool)>)
    ensures
        match r {
            Some((c, f, x, rev)) => find_or_filter_comparison(*left, *right) == Some((*c, f, *x, rev)),
            None => find_or_filter_comparison(*left, *right) is None,
        },
{
    if let Some(c) = find_call_or_filter_length(left) {
        return Some((c, is_method_call(c, "find"), right, false));
    }
    if let Some(c) = find_call_or_filter_length(right) {
        return Some((c, is_method_call(c, "find"), left, true));
    }
    None
}

/// Whether `e`, inside any wrappers, builds an object or array with a
/// spread, or passes a spread to a call.
pub open spec fn expr_has_spread(e: Expr) -> bool
    decreases e,
{
    match e {
        Expr::Wrapped { expression, .. } => expr_has_spread(*expression),
        Expr::Object { properties, .. } => exists|i: int| 0 <= i < properties@.len() && prop_has_spread(#[trigger] properties@[i]),
        Expr::Array { elements, .. } => exists|i: int| 0 <= i < elements@.len() && elem_has_spread(#[trigger] elements@[i]),
        Expr::Call(c) => exists|i: int| 0 <= i < c.arguments@.len() && (#[trigger] c.arguments@[i]) is Spread,
        _ => false,
    }
}

/// Whether an object member is a spread or has a value with a spread.
pub open spec fn prop_has_spread(p: Property) -> bool
    decreases p,
{
    match p {
        Property::Spread { .. } => true,
        Property::Property { value, .. } => expr_has_spread(value),
    }
}

/// Whether an array element is a spread or holds one.
pub open spec fn elem_has_spread(a: ArrayElem) -> bool
    decreases a,
{
    match a {
        ArrayElem::Spread { .. } => true,
        ArrayElem::Expr(e) => expr_has_spread(e),
        ArrayElem::Hole => false,
    }
}

/// Whether a statement returns or evaluates an expression with a spread,
/// also inside blocks.
pub open spec fn stmt_has_spread(s: Stmt) -> bool
    decreases s,
{
    match s {
        Stmt::Return(Some(a)) => expr_has_spread(a),
        Stmt::Expression(e) => expr_has_spread(e),
        Stmt::Block(b) => exists|i: int| 0 <= i < b@.len() && stmt_has_spread(#[trigger] b@[i]),
        _ => false,
    }
}

/// Whether the body of a callback has a spread where it builds its value.
pub open spec fn callback_has_spread(e: Expr) -> bool {
    match inner(e) {
        Expr::Arrow(f) => if f.expression {
            match body_expression(f.body@) {
                Some(x) => expr_has_spread(x),
                None => false,
            }
        } else {
            exists|i: int| 0 <= i < f.body@.len() && stmt_has_spread(#[trigger] f.body@[i])
        },
        Expr::Function(f) => match f.body {
            Some(b) => exists|i: int| 0 <= i < b@.len() && stmt_has_spread(#[trigger] b@[i]),
            None => false,
        },
        _ => false,
    }
}

/// Whether `e` builds an object or array with a spread, or passes a
/// spread to a call.
pub fn expression_contains_spread(e: &Expr) -> (r: bool)
    ensures
        r == expr_has_spread(*e),
    decreases e,
{
    match e {
        Expr::Wrapped { expression, .. } => expression_contains_spread(expression),
        Expr::Object { properties, .. } => props_have_spread(properties),
        Expr::Array { elements, .. } => elems_have_spread(elements),
        Expr::Call(c) => args_have_spread(&c.arguments),
        _ => false,
    }
}

/// Whether some argument is a spread.
pub fn args_have_spread(v: &Vec<Arg>) -> (r: bool)
    ensures
        r == exists|i: int| 0 <= i < v@.len() && (#[trigger] v@[i]) is Spread,
{
    let mut i: usize = 0;
    while i < v.len()
        invariant
            i <= v@.len(),
            forall|k: int| 0 <= k < i ==> !((#[trigger] v@[k]) is Spread),
        decreases v@.len() - i,
    {
        if let Arg::Spread { .. } = &v[i] {
            assert(v@[i as int] is Spread);
            return true;
        }
        i = i + 1;
    }
    false
}

fn props_have_spread(v: &Vec<Property>) -> (r: bool)
    ensures
        r == exists|i: int| 0 <= i < v@.len() && prop_has_spread(#[trigger] v@[i]),
    decreases v,
{
    let mut i: usize = 0;
    while i < v.len()
        invariant
            i <= v@.len(),
            forall|k: int| 0 <= k < i ==> !prop_has_spread(#[trigger] v@[k]),
        decreases v@.len() - i,
    {
        let hit = match &v[i] {
            Property::Spread { .. } => true,
            Property::Property { value, .. } => expression_contains_spread(value),
        };
        if hit {
            return true;
        }
        i = i + 1;
    }
    false
}

fn elems_have_spread(v: &Vec<ArrayElem>) -> (r: bool)
    ensures
        r == exists|i: int| 0 <= i < v@.len() && elem_has_spread(#[trigger] v@[i]),
    decreases v,
{
    let mut i: usize = 0;
    while i < v.len()
        invariant
            i <= v@.len(),
            forall|k: int| 0 <= k < i ==> !elem_has_spread(#[trigger] v@[k]),
        decreases v@.len() - i,
    {
        let hit = match &v[i] {
            ArrayElem::Spread { .. } => true,
            ArrayElem::Expr(x) => expression_contains_spread(x),
            ArrayElem::Hole => false,
        };
        if hit {
            return true;
        }
        i = i + 1;
    }
    false
}

/// Whether a statement returns or evaluates an expression with a spread.
pub fn statement_contains_spread(s: &Stmt) -> (r: bool)
    ensures
        r == stmt_has_spread(*s),
    decreases s,
{
    match s {
        Stmt::Return(Some(a)) => expression_contains_spread(a),
        Stmt::Expression(e) => expression_contains_spread(e),
        Stmt::Block(b) => stmts_have_spread(b),
        _ => false,
    }
}

fn stmts_have_spread(v: &Vec<Stmt>) -> (r: bool)
    ensures
        r == exists|i: int| 0 <= i < v@.len() && stmt_has_spread(#[trigger] v@[i]),
    decreases v,
{
    let mut i: usize = 0;
    while i < v.len()
        invariant
            i <= v@.len(),
            forall|k: int| 0 <= k < i ==> !stmt_has_spread(#[trigger] v@[k]),
        decreases v@.len() - i,
    {
        if statement_contains_spread(&v[i]) {
            return true;
        }
        i = i + 1;
    }
    false
}

/// Whether the body of a callback has a spread where it builds its value.
pub fn function_body_contains_spread(e: &Expr) -> (r: bool)
    ensures
        r == callback_has_spread(*e),
{
    match get_inner_expression(e) {
        Expr::Arrow(f) => if f.expression {
            match expression_body(&f.body) {
                Some(x) => expression_contains_spread(x),
                None => false,
            }
        } else {
            stmts_have_spread(&f.body)
        },
        Expr::Function(f) => match &f.body {
            Some(b) => stmts_have_spread(b),
            None => false,
        },
        _ => false,
    }
}

} // verus!
