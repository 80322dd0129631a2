//! Shapes of expressions that the e18e rules look for: calls of a method,
//! literals, constant expressions, copies of arrays, comparisons.
use vstd::prelude::*;
use crate::text::str_eq;
use super::ast::{
    Expr, CallExpr, NewExpr, StaticMember, Arg, ArrayElem, Property, Stmt, UnaryOp, BinaryOp,
    LogicalOp, inner, get_inner_expression, span_of,
};
use super::source::txt;

verus! {

/// The member access that a call's callee is, inside any wrappers.
pub open spec fn member_callee(c: CallExpr) -> Option<StaticMember> {
    match inner(c.callee) {
        Expr::StaticMember(m) => Some(*m),
        _ => None,
    }
}

/// The member access that a call's callee is, inside any wrappers.
pub fn static_member_callee(c: &CallExpr) -> (r: Option<&StaticMember>)
    ensures
        match r {
            Some(m) => member_callee(*c) == Some(*m),
            None => member_callee(*c) is None,
        },
{
    match get_inner_expression(&c.callee) {
        Expr::StaticMember(m) => Some(&**m),
        _ => None,
    }
}

/// Whether `e`, inside any wrappers, is the identifier `name`.
pub open spec fn is_ident(e: Expr, name: Seq<char>) -> bool {
    inner(e) matches Expr::Identifier { name: n, .. } && n@ == name
}

/// Whether `e`, inside any wrappers, is the identifier `name`.
pub fn is_identifier_named(e: &Expr, name: &str) -> (r: bool)
    ensures
        r == is_ident(*e, name@),
{
    match get_inner_expression(e) {
        Expr::Identifier { name: n, .. } => str_eq(n.as_str(), name),
        _ => false,
    }
}

/// A call of `object.property(..)` on the identifier `object`; any
/// property when `property` is empty.
pub open spec fn static_call(c: CallExpr, object: Seq<char>, property: Seq<char>) -> bool {
    match member_callee(c) {
        Some(m) => (property.len() == 0 || m.property@ == property) && is_ident(m.object, object),
        None => false,
    }
}

/// A call of `object.property(..)` on the identifier `object`; any
/// property when `property` is empty.
pub fn is_static_call(c: &CallExpr, object: &str, property: &str) -> (r: bool)
    ensures
        r == static_call(*c, object@, property@),
{
    match static_member_callee(c) {
        Some(m) => {
            if property.unicode_len() != 0 && !str_eq(m.property.as_str(), property) {
                return false;
            }
            is_identifier_named(&m.object, object)
        },
        None => false,
    }
}

/// A call of a method named `name`.
pub open spec fn method_call(c: CallExpr, name: Seq<char>) -> bool {
    member_callee(c) matches Some(m) && m.property@ == name
}

/// A call of a method named `name`.
pub fn is_method_call(c: &CallExpr, name: &str) -> (r: bool)
    ensures
        r == method_call(*c, name@),
{
    match static_member_callee(c) {
        Some(m) => str_eq(m.property.as_str(), name),
        None => false,
    }
}

/// The dotted path of names that `e` is, such as `a.b.c`.
pub open spec fn path_of(e: Expr) -> Option<Seq<char>>
    decreases e,
{
    match e {
        Expr::Wrapped { expression, .. } => path_of(*expression),
        Expr::Identifier { name, .. } => Some(name@),
        Expr::StaticMember(m) => match path_of(m.object) {
            Some(p) => Some(p + seq!['.'] + m.property@),
            None => None,
        },
        _ => None,
    }
}

/// The dotted path of names that `e` is, such as `a.b.c`.
pub fn callee_path(e: &Expr) -> (r: Option<String>)
    ensures
        match r {
            Some(s) => path_of(*e) == Some(s@),
            None => path_of(*e) is None,
        },
    decreases e,
{
    match e {
        Expr::Wrapped { expression, .. } => callee_path(expression),
        Expr::Identifier { name, .. } => Some(name.clone()),
        Expr::StaticMember(m) => match callee_path(&m.object) {
            Some(mut p) => {
                crate::text::push_char(&mut p, '.');
                super::source::push_lit(&mut p, m.property.as_str());
                Some(p)
            },
            None => None,
        },
        _ => None,
    }
}

/// The argument of the one element of an array when that element is a
/// spread.
pub open spec fn single_spread(elements: Seq<ArrayElem>) -> Option<Expr> {
    if elements.len() == 1 {
        match elements[0] {
            ArrayElem::Spread { argument, .. } => Some(argument),
            _ => None,
        }
    } else {
        None
    }
}

/// The argument of the one element of an array when that element is a
/// spread.
pub fn single_spread_element(elements: &Vec<ArrayElem>) -> (r: Option<&Expr>)
    ensures
        match r {
            Some(x) => single_spread(elements@) == Some(*x),
            None => single_spread(elements@) is None,
        },
{
    if elements.len() != 1 {
        return None;
    }
    match &elements[0] {
        ArrayElem::Spread { argument, .. } => Some(argument),
        _ => None,
    }
}

/// The value of the one member of an object when that member is
/// `length: value`.
pub open spec fn length_value(properties: Seq<Property>) -> Option<Expr> {
    if properties.len() == 1 {
        match properties[0] {
            Property::Property { key: Some(k), value } => if k@ == "length"@ {
                Some(value)
            } else {
                None
            },
            _ => None,
        }
    } else {
        None
    }
}

/// The value of the one member of an object when that member is
/// `length: value`.
pub fn object_length_value(properties: &Vec<Property>) -> (r: Option<&Expr>)
    ensures
        match r {
            Some(x) => length_value(properties@) == Some(*x),
            None => length_value(properties@) is None,
        },
{
    if properties.len() != 1 {
        return None;
    }
    match &properties[0] {
        Property::Property { key: Some(k), value } => if str_eq(k.as_str(), "length") {
            Some(value)
        } else {
            None
        },
        _ => None,
    }
}

/// The expression of a body that is one expression statement.
pub open spec fn body_expression(body: Seq<Stmt>) -> Option<Expr> {
    if body.len() == 1 {
        match body[0] {
            Stmt::Expression(e) => Some(e),
            _ => None,
        }
    } else {
        None
    }
}

/// The expression of a body that is one expression statement.
pub fn expression_body(body: &Vec<Stmt>) -> (r: Option<&Expr>)
    ensures
        match r {
            Some(x) => body_expression(body@) == Some(*x),
            None => body_expression(body@) is None,
        },
{
    if body.len() != 1 {
        return None;
    }
    match &body[0] {
        Stmt::Expression(e) => Some(e),
        _ => None,
    }
}

/// Whether `e` is built from literals, names, member accesses and
/// operators only.
pub open spec fn is_constant(e: Expr) -> bool
    decreases e,
{
    match e {
        Expr::Wrapped { expression, .. } => is_constant(*expression),
        Expr::Str { .. } | Expr::Number { .. } | Expr::Boolean { .. } | Expr::Null { .. }
        | Expr::Identifier { .. } | Expr::RegExp { .. } => true,
        Expr::StaticMember(m) => is_constant(m.object),
        Expr::ComputedMember { object, expression, .. } => is_constant(*object) && is_constant(*expression),
        Expr::Unary { argument, .. } => is_constant(*argument),
        Expr::Binary { left, right, .. } => is_constant(*left) && is_constant(*right),
        Expr::Logical { left, right, .. } => is_constant(*left) && is_constant(*right),
        Expr::Conditional { test, consequent, alternate, .. } => is_constant(*test) && is_constant(*consequent)
            && is_constant(*alternate),
        Expr::Template { expressions, .. } => forall|i: int| 0 <= i < expressions@.len() ==> is_constant(#[trigger] expressions@[i]),
        _ => false,
    }
}

/// Whether `e` is built from literals, names, member accesses and
/// operators only.
pub fn is_constant_expression(e: &Expr) -> (r: bool)
    ensures
        r == is_constant(*e),
    decreases e,
{
    match e {
        Expr::Wrapped { expression, .. } => is_constant_expression(expression),
        Expr::Str { .. } | Expr::Number { .. } | Expr::Boolean { .. } | Expr::Null { .. }
        | Expr::Identifier { .. } | Expr::RegExp { .. } => true,
        Expr::StaticMember(m) => is_constant_expression(&m.object),
        Expr::ComputedMember { object, expression, .. } => is_constant_expression(object) && is_constant_expression(expression),
        Expr::Unary { argument, .. } => is_constant_expression(argument),
        Expr::Binary { left, right, .. } => is_constant_expression(left) && is_constant_expression(right),
        Expr::Logical { left, right, .. } => is_constant_expression(left) && is_constant_expression(right),
        Expr::Conditional { test, consequent, alternate, .. } => is_constant_expression(test)
            && is_constant_expression(consequent) && is_constant_expression(alternate),
        Expr::Template { expressions, .. } => all_constant(expressions),
        _ => false,
    }
}

/// Whether every expression of `v` is constant.
fn all_constant(v: &Vec<Expr>) -> (r: bool)
    ensures
        r == forall|i: int| 0 <= i < v@.len() ==> is_constant(#[trigger] v@[i]),
    decreases v,
{
    let mut i: usize = 0;
    while i < v.len()
        invariant
            i <= v@.len(),
            forall|k: int| 0 <= k < i ==> is_constant(#[trigger] v@[k]),
        decreases v@.len() - i,
    {
        if !is_constant_expression(&v[i]) {
            return false;
        }
        i = i + 1;
    }
    true
}

/// The constant that a callback without parameters returns: the body of
/// an arrow with an expression body, or the argument of the one `return`
/// of its body.
pub open spec fn callback_constant(e: Expr) -> Option<Expr> {
    match inner(e) {
        Expr::Arrow(f) => if f.has_params {
            None
        } else if f.expression {
            match body_expression(f.body@) {
                Some(x) => if is_constant(x) {
                    Some(x)
                } else {
                    None
                },
                None => None,
            }
        } else {
            returned_constant(f.body@)
        },
        Expr::Function(f) => if f.has_params {
            None
        } else {
            match f.body {
                Some(b) => returned_constant(b@),
                None => None,
            }
        },
        _ => None,
    }
}

/// The constant that a body of one `return` statement returns.
pub open spec fn returned_constant(body: Seq<Stmt>) -> Option<Expr> {
    if body.len() == 1 {
        match body[0] {
            Stmt::Return(Some(x)) => if is_constant(x) {
                Some(x)
            } else {
                None
            },
            _ => None,
        }
    } else {
        None
    }
}

/// The constant that a body of one `return` statement returns.
fn returned_constant_of(body: &Vec<Stmt>) -> (r: Option<&Expr>)
    ensures
        match r {
            Some(x) => returned_constant(body@) == Some(*x),
            None => returned_constant(body@) is None,
        },
{
    if body.len() != 1 {
        return None;
    }
    match &body[0] {
        Stmt::Return(Some(x)) => if is_constant_expression(x) {
            Some(x)
        } else {
            None
        },
        _ => None,
    }
}

/// The constant that a callback without parameters returns.
pub fn constant_callback_value(e: &Expr) -> (r: Option<&Expr>)
    ensures
        match r {
            Some(x) => callback_constant(*e) == Some(*x),
            None => callback_constant(*e) is None,
        },
{
    match get_inner_expression(e) {
        Expr::Arrow(f) => if f.has_params {
            None
        } else if f.expression {
            match expression_body(&f.body) {
                Some(x) => if is_constant_expression(x) {
                    Some(x)
                } else {
                    None
                },
                None => None,
            }
        } else {
            returned_constant_of(&f.body)
        },
        Expr::Function(f) => if f.has_params {
            None
        } else {
            match &f.body {
                Some(b) => returned_constant_of(b),
                None => None,
            }
        },
        _ => None,
    }
}

/// The expression of an argument that is not a spread.
pub open spec fn arg_expr(a: Arg) -> Option<Expr> {
    match a {
        Arg::Expr(e) => Some(e),
        Arg::Spread { .. } => None,
    }
}

/// The expression of the first argument, when it is not a spread.
pub open spec fn first_arg_expr(args: Seq<Arg>) -> Option<Expr> {
    if args.len() > 0 {
        arg_expr(args[0])
    } else {
        None
    }
}

/// The expression of argument `i`, when there is one and it is not a
/// spread.
pub fn arg_expression(args: &Vec<Arg>, i: usize) -> (r: Option<&Expr>)
    ensures
        match r {
            Some(x) => i < args@.len() && arg_expr(args@[i as int]) == Some(*x),
            None => i >= args@.len() || arg_expr(args@[i as int]) is None,
        },
{
    if i >= args.len() {
        return None;
    }
    match &args[i] {
        Arg::Expr(e) => Some(e),
        Arg::Spread { .. } => None,
    }
}

/// The array that a copy of an array reads: `[...a]`, `Array.from(a)`,
/// `Array(a)` or `a.slice()`.
pub open spec fn copy_source(e: Expr) -> Option<Expr> {
    match inner(e) {
        Expr::Array { elements, .. } => single_spread(elements@),
        Expr::Call(c) => if c.arguments@.len() == 1 {
            match member_callee(*c) {
                None => if is_ident(c.callee, "Array"@) {
                    first_arg_expr(c.arguments@)
                } else {
                    None
                },
                Some(m) => if is_ident(m.object, "Array"@) && m.property@ == "from"@ {
                    first_arg_expr(c.arguments@)
                } else {
                    None
                },
            }
        } else if c.arguments@.len() == 0 {
            match member_callee(*c) {
                Some(m) => if m.property@ == "slice"@ {
                    Some(m.object)
                } else {
                    None
                },
                None => None,
            }
        } else {
            None
        },
        _ => None,
    }
}

/// The array that a copy of an array reads.
pub fn copy_pattern_source(e: &Expr) -> (r: Option<&Expr>)
    ensures
        match r {
            Some(x) => copy_source(*e) == Some(*x),
            None => copy_source(*e) is None,
        },
{
    match get_inner_expression(e) {
        Expr::Array { elements, .. } => single_spread_element(elements),
        Expr::Call(c) => if c.arguments.len() == 1 {
            match static_member_callee(c) {
                None => if is_identifier_named(&c.callee, "Array") {
                    arg_expression(&c.arguments, 0)
                } else {
                    None
                },
                Some(m) => if is_identifier_named(&m.object, "Array") && str_eq(m.property.as_str(), "from") {
                    arg_expression(&c.arguments, 0)
                } else {
                    None
                },
            }
        } else if c.arguments.len() == 0 {
            match static_member_callee(c) {
                Some(m) => if str_eq(m.property.as_str(), "slice") {
                    Some(&m.object)
                } else {
                    None
                },
                None => None,
            }
        } else {
            None
        },
        _ => None,
    }
}

/// Whether the copy is read through `?.`.
pub open spec fn copy_optional(e: Expr) -> bool {
    match inner(e) {
        Expr::StaticMember(m) => m.optional,
        Expr::Call(c) => c.optional,
        _ => false,
    }
}

/// Whether the copy is read through `?.`.
pub fn copy_pattern_optional(e: &Expr) -> (r: bool)
    ensures
        r == copy_optional(*e),
{
    match get_inner_expression(e) {
        Expr::StaticMember(m) => m.optional,
        Expr::Call(c) => c.optional,
        _ => false,
    }
}

/// The largest integer that a number literal is read as exactly: `2^53`.
pub open spec fn exact_limit() -> int {
    0x20_0000_0000_0000
}

/// Whether `s[i..]` is all zeros.
pub open spec fn zeros_from(s: Seq<char>, i: int) -> bool {
    forall|k: int| i <= k < s.len() ==> s[k] == '0'
}

/// The value of a decimal literal read from `i` on, `acc` read so far and
/// `any` telling whether a digit was: digits (underscores between them
/// skipped), then at most a fraction of zeros; nothing for any other
/// character, for no digit, or past `exact_limit`.
pub open spec fn decimal_from(s: Seq<char>, i: int, acc: int, any: bool) -> Option<int>
    decreases s.len() - i,
{
    if i < 0 || i >= s.len() {
        if any { Some(acc) } else { None }
    } else if '0' <= s[i] <= '9' {
        let v = acc * 10 + (s[i] as int - '0' as int);
        if v > exact_limit() { None } else { decimal_from(s, i + 1, v, true) }
    } else if s[i] == '_' {
        decimal_from(s, i + 1, acc, any)
    } else if s[i] == '.' {
        if any && zeros_from(s, i + 1) { Some(acc) } else { None }
    } else {
        None
    }
}

/// The integer a number literal written `raw` stands for, when it is one
/// written in decimal digits and at most `exact_limit`.
pub open spec fn integer_of(raw: Seq<char>) -> Option<int> {
    decimal_from(raw, 0, 0, false)
}

/// The integer a number literal written `raw` stands for.
pub fn literal_integer(raw: &String) -> (r: Option<u64>)
    ensures
        match r {
            Some(v) => integer_of(raw@) == Some(v as int) && v <= exact_limit(),
            None => integer_of(raw@) is None,
        },
{
    let s = crate::text::chars_of(raw.as_str());
    let mut i: usize = 0;
    let mut acc: u64 = 0;
    let mut any = false;
    while i < s.len()
        invariant
            i <= s@.len(),
            s@ == raw@,
            acc <= exact_limit(),
            decimal_from(s@, i as int, acc as int, any) == integer_of(raw@),
        decreases s@.len() - i,
    {
        let c = s[i];
        if '0' <= c && c <= '9' {
            let v = acc * 10 + (c as u32 - '0' as u32) as u64;
            if v > 0x20_0000_0000_0000 {
                return None;
            }
            acc = v;
            any = true;
        } else if c == '_' {
        } else if c == '.' {
            if !any {
                return None;
            }
            let mut k = i + 1;
            while k < s.len()
                invariant
                    i < k <= s@.len(),
                    forall|j: int| i + 1 <= j < k ==> s@[j] == '0',
                    decimal_from(s@, i as int, acc as int, any) == integer_of(raw@),
                    s@[i as int] == '.',
                    any,
                    acc <= exact_limit(),
                decreases s@.len() - k,
            {
                if s[k] != '0' {
                    assert(!zeros_from(s@, i + 1)) by {
                        assert(s@[k as int] != '0');
                    }
                    return None;
                }
                k = k + 1;
            }
            assert(zeros_from(s@, i + 1));
            return Some(acc);
        } else {
            return None;
        }
        i = i + 1;
    }
    if any { Some(acc) } else { None }
}

/// The value of a number literal, or of its negation: `Some(Some(v))` for
/// the integer `v`, `Some(None)` for a number that is not an integer of
/// the model, `None` for anything else.
pub open spec fn num_value(e: Expr) -> Option<Option<int>>
    decreases e,
{
    match e {
        Expr::Wrapped { expression, .. } => num_value(*expression),
        Expr::Number { raw, .. } => Some(integer_of(raw@)),
        Expr::Unary { op, argument, .. } => if op == UnaryOp::Negation {
            match num_value(*argument) {
                Some(Some(v)) => Some(Some(-v)),
                Some(None) => Some(None),
                None => None,
            }
        } else {
            None
        },
        _ => None,
    }
}

/// The value of a number literal, or of its negation.
pub fn numeric_literal_value(e: &Expr) -> (r: Option<Option<i128>>)
    ensures
        match r {
            Some(Some(v)) => num_value(*e) == Some(Some(v as int)) && -0xffff_ffff_ffff_ffff <= v <= 0xffff_ffff_ffff_ffff,
            Some(None) => num_value(*e) == Some(None::<int>),
            None => num_value(*e) is None,
        },
    decreases e,
{
    match e {
        Expr::Wrapped { expression, .. } => numeric_literal_value(expression),
        Expr::Number { raw, .. } => Some(
            match literal_integer(raw) {
                Some(n) => Some(n as i128),
                None => None,
            },
        ),
        Expr::Unary { op, argument, .. } => if *op == UnaryOp::Negation {
            match numeric_literal_value(argument) {
                Some(Some(v)) => Some(Some(-v)),
                Some(None) => Some(None),
                None => None,
            }
        } else {
            None
        },
        _ => None,
    }
}

/// Whether `e` is a number literal of value `k`.
pub open spec fn is_number(e: Expr, k: int) -> bool {
    num_value(e) == Some(Some(k))
}

/// Whether `e` is a number literal of value `k`.
pub fn is_number_literal(e: &Expr, k: i128) -> (r: bool)
    ensures
        r == is_number(*e, k as int),
{
    match numeric_literal_value(e) {
        Some(Some(v)) => v == k,
        _ => false,
    }
}

/// Whether `e` is `null`.
pub open spec fn is_null(e: Expr) -> bool {
    inner(e) is Null
}

/// Whether `e` is `null`.
pub fn is_null_literal(e: &Expr) -> (r: bool)
    ensures
        r == is_null(*e),
{
    match get_inner_expression(e) {
        Expr::Null { .. } => true,
        _ => false,
    }
}

/// Whether `e` is the identifier `undefined`.
pub open spec fn is_undefined(e: Expr) -> bool {
    is_ident(e, "undefined"@)
}

/// Whether `e` is `null` or `undefined`.
pub open spec fn is_nullish(e: Expr) -> bool {
    is_null(e) || is_undefined(e)
}

/// Whether `e` is `null` or `undefined`.
pub fn is_null_or_undefined(e: &Expr) -> (r: bool)
    ensures
        r == is_nullish(*e),
{
    is_null_literal(e) || is_identifier_named(e, "undefined")
}

/// Whether `e` is `undefined` or a `void` expression.
pub open spec fn is_undefined_value(e: Expr) -> bool {
    is_undefined(e) || inner(e) matches Expr::Unary { op: UnaryOp::Void, .. }
}

/// Whether `e` is `undefined` or a `void` expression.
pub fn is_undefined_constant(e: &Expr) -> (r: bool)
    ensures
        r == is_undefined_value(*e),
{
    if is_identifier_named(e, "undefined") {
        return true;
    }
    match get_inner_expression(e) {
        Expr::Unary { op: UnaryOp::Void, .. } => true,
        _ => false,
    }
}

/// Whether a `return` gives the boolean literal `value`.
pub open spec fn returns_boolean(argument: Option<Expr>, value: bool) -> bool {
    argument matches Some(a) && inner(a) matches Expr::Boolean { value: v, .. } && v == value
}

/// Whether a `return` gives the boolean literal `value`.
pub fn return_boolean(argument: &Option<Expr>, value: bool) -> (r: bool)
    ensures
        r == returns_boolean(*argument, value),
{
    match argument {
        Some(a) => match get_inner_expression(a) {
            Expr::Boolean { value: v, .. } => *v == value,
            _ => false,
        },
        None => false,
    }
}

/// Whether a `new` expression is `new Date()`.
pub open spec fn new_date_no_args(n: NewExpr) -> bool {
    n.arguments@.len() == 0 && is_ident(n.callee, "Date"@)
}

/// Whether a `new` expression is `new Date()`.
pub fn is_new_date_no_args(n: &NewExpr) -> (r: bool)
    ensures
        r == new_date_no_args(*n),
{
    n.arguments.len() == 0 && is_identifier_named(&n.callee, "Date")
}

/// Whether `e` is a regular expression literal or a `new` expression.
pub open spec fn is_regex(e: Option<Expr>) -> bool {
    match e {
        Some(x) => inner(x) is RegExp || inner(x) is New,
        None => false,
    }
}

/// Whether `e` is a regular expression literal or a `new` expression.
pub fn is_regex_expression(e: Option<&Expr>) -> (r: bool)
    ensures
        r == is_regex(
            match e {
                Some(x) => Some(*x),
                None => None,
            },
        ),
{
    match e {
        Some(x) => match get_inner_expression(x) {
            Expr::RegExp { .. } | Expr::New(_) => true,
            _ => false,
        },
        None => false,
    }
}

/// The value of an argument that is a string literal.
pub open spec fn arg_string(a: Arg) -> Option<Seq<char>> {
    match a {
        Arg::Expr(e) => match inner(e) {
            Expr::Str { value, .. } => Some(value@),
            _ => None,
        },
        Arg::Spread { .. } => None,
    }
}

/// The value of an argument that is a string literal.
pub fn argument_string(a: &Arg) -> (r: Option<&String>)
    ensures
        match r {
            Some(s) => arg_string(*a) == Some(s@),
            None => arg_string(*a) is None,
        },
{
    match a {
        Arg::Expr(e) => match get_inner_expression(e) {
            Expr::Str { value, .. } => Some(value),
            _ => None,
        },
        Arg::Spread { .. } => None,
    }
}

/// Whether the characters hold `c`.
pub open spec fn has_char(s: Seq<char>, c: char) -> bool {
    exists|i: int| 0 <= i < s.len() && s[i] == c
}

/// Whether the characters hold `c`.
pub fn contains_char(s: &str, c: char) -> (r: bool)
    ensures
        r == has_char(s@, c),
{
    let v = crate::text::chars_of(s);
    let mut i: usize = 0;
    while i < v.len()
        invariant
            i <= v@.len(),
            v@ == s@,
            forall|k: int| 0 <= k < i ==> v@[k] != c,
        decreases v@.len() - i,
    {
        if v[i] == c {
            return true;
        }
        i = i + 1;
    }
    false
}

/// Arguments of `RegExp` that make the same expression on every call: one
/// or two string literals, and flags without `g` or `y`.
pub open spec fn static_regexp(args: Seq<Arg>) -> bool {
    &&& 1 <= args.len() <= 2
    &&& forall|i: int| 0 <= i < args.len() ==> (#[trigger] arg_string(args[i])) is Some
    &&& args.len() == 2 ==> !(has_char(arg_string(args[1])->0, 'g') || has_char(arg_string(args[1])->0, 'y'))
}

/// Arguments of `RegExp` that make the same expression on every call.
pub fn static_regexp_args(args: &Vec<Arg>) -> (r: bool)
    ensures
        r == static_regexp(args@),
{
    if args.len() == 0 || args.len() > 2 {
        return false;
    }
    let mut i: usize = 0;
    while i < args.len()
        invariant
            i <= args@.len(),
            forall|k: int| 0 <= k < i ==> (#[trigger] arg_string(args@[k])) is Some,
        decreases args@.len() - i,
    {
        if argument_string(&args[i]).is_none() {
            return false;
        }
        i = i + 1;
    }
    if args.len() == 2 {
        match argument_string(&args[1]) {
            Some(flags) => !(contains_char(flags.as_str(), 'g') || contains_char(flags.as_str(), 'y')),
            None => false,
        }
    } else {
        true
    }
}

/// An element that an equality can stand for: a name or a literal other
/// than a regular expression or a template.
pub open spec fn simple_element(e: Expr) -> bool {
    match inner(e) {
        Expr::Identifier { .. } | Expr::Str { .. } | Expr::Number { .. } | Expr::Boolean { .. } | Expr::Null { .. } => true,
        _ => false,
    }
}

/// An element that an equality can stand for.
pub fn is_simple_inline_element(e: &Expr) -> (r: bool)
    ensures
        r == simple_element(*e),
{
    match get_inner_expression(e) {
        Expr::Identifier { .. } | Expr::Str { .. } | Expr::Number { .. } | Expr::Boolean { .. } | Expr::Null { .. } => true,
        _ => false,
    }
}

/// An argument of `String.fromCodePoint` that `fromCharCode` reads the
/// same: an integer literal below 65536.
pub open spec fn safe_code_point(a: Arg) -> bool {
    a matches Arg::Expr(e) && inner(e) matches Expr::Number { raw, .. } && integer_of(raw@) matches Some(n) && n < 65536
}

/// An argument of `String.fromCodePoint` that `fromCharCode` reads the
/// same.
pub fn is_safe_from_code_point_arg(a: &Arg) -> (r: bool)
    ensures
        r == safe_code_point(*a),
{
    match a {
        Arg::Expr(e) => match get_inner_expression(e) {
            Expr::Number { raw, .. } => match literal_integer(raw) {
                Some(n) => n < 65536,
                None => false,
            },
            _ => false,
        },
        Arg::Spread { .. } => false,
    }
}

/// Whether a name is `setTimeout` or `setInterval`.
pub open spec fn is_timer_name(n: Seq<char>) -> bool {
    n == "setTimeout"@ || n == "setInterval"@
}

/// A call of `setTimeout` or `setInterval`, also through `window` or
/// `globalThis`.
pub open spec fn timer_call(c: CallExpr) -> bool {
    match inner(c.callee) {
        Expr::Identifier { name, .. } => is_timer_name(name@),
        Expr::StaticMember(m) => (is_ident(m.object, "window"@) || is_ident(m.object, "globalThis"@)) && is_timer_name(m.property@),
        _ => false,
    }
}

/// A call of `setTimeout` or `setInterval`, also through `window` or
/// `globalThis`.
pub fn is_timer_call(c: &CallExpr) -> (r: bool)
    ensures
        r == timer_call(*c),
{
    match get_inner_expression(&c.callee) {
        Expr::Identifier { name, .. } => str_eq(name.as_str(), "setTimeout") || str_eq(name.as_str(), "setInterval"),
        Expr::StaticMember(m) => (is_identifier_named(&m.object, "window") || is_identifier_named(&m.object, "globalThis"))
            && (str_eq(m.property.as_str(), "setTimeout") || str_eq(m.property.as_str(), "setInterval")),
        _ => false,
    }
}

} // verus!
