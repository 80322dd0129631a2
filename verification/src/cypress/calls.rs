//! What the Cypress rules read off one call: its command, the chain of
//! commands it ends, and the reports it gets.
use vstd::prelude::*;
use crate::text::{byte_len, str_eq, chars_of};
use crate::lines::{lf_count, lf_column, chars_before, lf_position};
use super::rules::DiagnosticLoc;
use super::ast::{Span, Expr, Arg, Property, PropKey, CallExpr, inner, get_inner_expression};
use super::contains::{stmts_contain, function_contains, function_body_contains_cypress, function_contains_cypress};

verus! {

/// The command a call invokes: the property of a member callee.
pub open spec fn command_of(call: CallExpr) -> Option<Seq<char>> {
    match inner(call.callee) {
        Expr::StaticMember { property, .. } => Some(property@),
        _ => None,
    }
}

/// The object a command is invoked on.
pub open spec fn command_object(call: CallExpr) -> Option<Expr> {
    match inner(call.callee) {
        Expr::StaticMember { object, .. } => Some(*object),
        _ => None,
    }
}

/// The command of the call a command is chained on, if it is chained on a
/// call.
pub open spec fn previous_in_chain(call: CallExpr) -> Option<Seq<char>> {
    match command_object(call) {
        Some(Expr::Call(object_call)) => command_of(*object_call),
        _ => None,
    }
}

/// The name of an identifier, inside any wrappers.
pub open spec fn identifier_name(e: Expr) -> Option<Seq<char>> {
    match inner(e) {
        Expr::Identifier { name } => Some(name@),
        _ => None,
    }
}

/// The name of a call's callee when it is an identifier.
pub open spec fn callee_name(call: CallExpr) -> Option<Seq<char>> {
    identifier_name(call.callee)
}

/// The command of a call.
pub fn call_static_member_name(call: &CallExpr) -> (r: Option<&String>)
    ensures
        match r {
            Some(s) => command_of(*call) == Some(s@),
            None => command_of(*call) is None,
        },
{
    match get_inner_expression(&call.callee) {
        Expr::StaticMember { property, .. } => Some(property),
        _ => None,
    }
}

/// The object a command is invoked on.
pub fn call_static_member_object(call: &CallExpr) -> (r: Option<&Expr>)
    ensures
        match r {
            Some(e) => command_object(*call) == Some(*e),
            None => command_object(*call) is None,
        },
{
    match get_inner_expression(&call.callee) {
        Expr::StaticMember { object, .. } => Some(object),
        _ => None,
    }
}

/// The command of the call a command is chained on.
pub fn previous_command_in_chain(call: &CallExpr) -> (r: Option<&String>)
    ensures
        match r {
            Some(s) => previous_in_chain(*call) == Some(s@),
            None => previous_in_chain(*call) is None,
        },
{
    match call_static_member_object(call) {
        Some(Expr::Call(object_call)) => call_static_member_name(object_call),
        _ => None,
    }
}

/// The name of an identifier, inside any wrappers.
pub fn expression_identifier_name(e: &Expr) -> (r: Option<&String>)
    ensures
        match r {
            Some(s) => identifier_name(*e) == Some(s@),
            None => identifier_name(*e) is None,
        },
{
    match get_inner_expression(e) {
        Expr::Identifier { name } => Some(name),
        _ => None,
    }
}

/// Whether an optional name is `lit`.
pub open spec fn is_named(n: Option<Seq<char>>, lit: &str) -> bool {
    n == Some(lit@)
}

/// Whether an optional string is `lit`.
fn names(n: Option<&String>, lit: &str) -> (r: bool)
    ensures
        r == match n {
            Some(s) => s@ == lit@,
            None => false,
        },
{
    match n {
        Some(s) => str_eq(s.as_str(), lit),
        None => false,
    }
}

/// The commands of a chain that starts at `cy`, first to last, ending
/// with the command of a call whose callee is `callee`; none when the
/// chain does not start at `cy`.
pub open spec fn callee_chain(callee: Expr) -> Option<Seq<Seq<char>>>
    decreases callee,
{
    match callee {
        Expr::Wrapped { expression } => callee_chain(*expression),
        Expr::StaticMember { object, property, .. } =>
            if identifier_name(*object) == Some("cy"@) {
                Some(seq![property@])
            } else {
                match object_chain(*object) {
                    Some(c) => Some(c.push(property@)),
                    None => None,
                }
            },
        _ => None,
    }
}

/// The commands of a chain that starts at `cy` and ends with the call
/// `object` (inside any wrappers).
pub open spec fn object_chain(object: Expr) -> Option<Seq<Seq<char>>>
    decreases object,
{
    match object {
        Expr::Wrapped { expression } => object_chain(*expression),
        Expr::Call(object_call) => callee_chain(object_call.callee),
        _ => None,
    }
}

/// The commands of a chain that starts at `cy`, first to last, ending
/// with `call`'s.
pub open spec fn command_chain(call: CallExpr) -> Option<Seq<Seq<char>>> {
    callee_chain(call.callee)
}

proof fn lemma_chains_nonempty(e: Expr)
    ensures
        callee_chain(e) matches Some(c) ==> c.len() > 0,
        object_chain(e) matches Some(c) ==> c.len() > 0,
    decreases e,
{
    match e {
        Expr::Wrapped { expression } => lemma_chains_nonempty(*expression),
        Expr::StaticMember { object, .. } => lemma_chains_nonempty(*object),
        Expr::Call(object_call) => lemma_chains_nonempty(object_call.callee),
        _ => {},
    }
}

/// The first and last commands of the chain ending with a call whose
/// callee is `callee`.
fn callee_command_names(callee: &Expr) -> (r: Option<(&String, &String)>)
    ensures
        match r {
            Some((a, b)) => callee_chain(*callee) matches Some(c) && c.len() > 0 && c[0] == a@ && c.last() == b@,
            None => callee_chain(*callee) is None,
        },
    decreases callee,
{
    proof {
        lemma_chains_nonempty(*callee);
    }
    match callee {
        Expr::Wrapped { expression } => callee_command_names(expression),
        Expr::StaticMember { object, property, .. } => {
            if names(expression_identifier_name(object), "cy") {
                return Some((property, property));
            }
            match object_command_names(object) {
                Some((first, _)) => Some((first, property)),
                None => None,
            }
        },
        _ => None,
    }
}

/// The first and last commands of the chain ending with the call `object`.
fn object_command_names(object: &Expr) -> (r: Option<(&String, &String)>)
    ensures
        match r {
            Some((a, b)) => object_chain(*object) matches Some(c) && c.len() > 0 && c[0] == a@ && c.last() == b@,
            None => object_chain(*object) is None,
        },
    decreases object,
{
    match object {
        Expr::Wrapped { expression } => object_command_names(expression),
        Expr::Call(object_call) => callee_command_names(&object_call.callee),
        _ => None,
    }
}

/// The first and last commands of a chain that starts at `cy`.
pub fn cypress_command_names(call: &CallExpr) -> (r: Option<(&String, &String)>)
    ensures
        match r {
            Some((a, b)) => command_chain(*call) matches Some(c) && c.len() > 0 && c[0] == a@ && c.last() == b@,
            None => command_chain(*call) is None,
        },
{
    callee_command_names(&call.callee)
}

/// The name of an object member's key: a bare name, an identifier or a
/// string.
pub open spec fn key_name(key: PropKey) -> Option<Seq<char>> {
    match key {
        PropKey::Static(n) => Some(n@),
        PropKey::Expr(Expr::Identifier { name }) => Some(name@),
        PropKey::Expr(Expr::StringLiteral { value }) => Some(value@),
        _ => None,
    }
}

/// Whether an object member's key is named `force`.
pub open spec fn is_force_prop(p: Property) -> bool {
    match p {
        Property::Property { key, .. } => key_name(key) == Some("force"@),
        Property::Spread(_) => false,
    }
}

/// Whether an argument is an object literal with a `force` member.
pub open spec fn is_force_object(a: Arg) -> bool {
    match a {
        Arg::Expr(Expr::Object { properties }) => exists|j: int| 0 <= j < properties@.len() && is_force_prop(#[trigger] properties@[j]),
        _ => false,
    }
}

/// Whether some argument is an object literal with a `force` member.
pub open spec fn has_force_option(call: CallExpr) -> bool {
    exists|i: int| 0 <= i < call.arguments@.len() && is_force_object(#[trigger] call.arguments@[i])
}

/// Whether a member's key is named `force`.
fn is_force_member(p: &Property) -> (r: bool)
    ensures
        r == is_force_prop(*p),
{
    match p {
        Property::Property { key, .. } => match key {
            PropKey::Static(n) => str_eq(n.as_str(), "force"),
            PropKey::Expr(Expr::Identifier { name }) => str_eq(name.as_str(), "force"),
            PropKey::Expr(Expr::StringLiteral { value }) => str_eq(value.as_str(), "force"),
            _ => false,
        },
        Property::Spread(_) => false,
    }
}

/// Whether some member of an object literal is named `force`.
fn object_has_force(properties: &Vec<Property>) -> (r: bool)
    ensures
        r == exists|j: int| 0 <= j < properties@.len() && is_force_prop(#[trigger] properties@[j]),
{
    let mut j: usize = 0;
    while j < properties.len()
        invariant
            j <= properties@.len(),
            forall|k: int| 0 <= k < j ==> !is_force_prop(#[trigger] properties@[k]),
        decreases properties@.len() - j,
    {
        if is_force_member(&properties[j]) {
            return true;
        }
        j = j + 1;
    }
    false
}

/// Whether some argument is an object literal with a `force` member.
pub fn call_has_force_option(call: &CallExpr) -> (r: bool)
    ensures
        r == has_force_option(*call),
{
    let mut i: usize = 0;
    while i < call.arguments.len()
        invariant
            i <= call.arguments@.len(),
            forall|a: int| 0 <= a < i ==> !is_force_object(#[trigger] call.arguments@[a]),
        decreases call.arguments@.len() - i,
    {
        let found = match &call.arguments[i] {
            Arg::Expr(Expr::Object { properties }) => object_has_force(properties),
            _ => false,
        };
        if found {
            assert(is_force_object(call.arguments@[i as int]));
            return true;
        }
        i = i + 1;
    }
    false
}

/// Whether a selector names an alias (`@...`) or a data attribute
/// (`[data-...`).
pub open spec fn alias_or_data_selector(s: Seq<char>) -> bool {
    (s.len() >= 6 && s.subrange(0, 6) == "[data-"@) || (s.len() >= 1 && s[0] == '@')
}

/// Whether a selector names an alias or a data attribute.
pub fn is_alias_or_data_selector(selector: &String) -> (r: bool)
    ensures
        r == alias_or_data_selector(selector@),
{
    let t = chars_of(selector.as_str());
    let p = chars_of("[data-");
    let data = t.len() >= 6 && crate::text::slice_eq(t.as_slice(), 0, 6, p.as_slice());
    data || (t.len() >= 1 && t[0] == '@')
}

/// Whether `c` may continue an identifier.
pub open spec fn word_char(c: char) -> bool {
    crate::outside::is_alphanumeric(c) || c == '_' || c == '$'
}

/// The first position from `i` that holds no whitespace.
pub open spec fn skip_blank(t: Seq<char>, i: int) -> int
    decreases t.len() - i,
{
    if 0 <= i < t.len() && crate::text::is_ws(t[i]) {
        skip_blank(t, i + 1)
    } else {
        i
    }
}

/// Whether a function starting at character `i` is async: it starts with
/// the word `async` that is not the one parameter of an arrow function
/// (`async => ..`).
pub open spec fn async_at(t: Seq<char>, i: int) -> bool {
    let k = skip_blank(t, i + 5);
    &&& 0 <= i && i + 5 <= t.len()
    &&& t.subrange(i, i + 5) == seq!['a', 's', 'y', 'n', 'c']
    &&& !(i + 5 < t.len() && word_char(t[i + 5]))
    &&& !(k + 1 < t.len() && t[k] == '=' && t[k + 1] == '>')
}

/// Whether an argument is an async function, given the source.
pub open spec fn is_async_callback(t: Seq<char>, a: Arg) -> bool {
    match a {
        Arg::Expr(Expr::Arrow(f)) => async_at(t, chars_before(t, f.start as int)),
        Arg::Expr(Expr::Function(f)) => async_at(t, chars_before(t, f.start as int)),
        _ => false,
    }
}

/// Whether a function argument's body mentions Cypress.
pub open spec fn callback_mentions_cypress(a: Arg) -> bool {
    match a {
        Arg::Expr(Expr::Arrow(f)) => stmts_contain(f.body@),
        Arg::Expr(Expr::Function(f)) => function_contains(*f),
        _ => false,
    }
}

/// Whether a function starting at character `i` is async.
fn async_at_exec(t: &[char], i: usize) -> (r: bool)
    ensures
        r == async_at(t@, i as int),
{
    if i > t.len() || t.len() - i < 5 {
        return false;
    }
    let w = ['a', 's', 'y', 'n', 'c'];
    if !crate::text::slice_eq(t, i, i + 5, &w) {
        assert(w@ =~= seq!['a', 's', 'y', 'n', 'c']);
        return false;
    }
    assert(w@ =~= seq!['a', 's', 'y', 'n', 'c']);
    if i + 5 < t.len() && (crate::outside::char_is_alphanumeric(t[i + 5]) || t[i + 5] == '_' || t[i + 5] == '$') {
        return false;
    }
    let mut k = i + 5;
    while k < t.len() && crate::text::is_whitespace(t[k])
        invariant
            i + 5 <= k <= t@.len(),
            skip_blank(t@, k as int) == skip_blank(t@, i + 5),
        decreases t@.len() - k,
    {
        k = k + 1;
    }
    !(k < t.len() - 1 && t[k] == '=' && t[k + 1] == '>')
}

/// Whether an argument is an async function.
pub fn argument_is_async_function(t: &[char], a: &Arg) -> (r: bool)
    requires
        byte_len(t@) < u32::MAX,
    ensures
        r == is_async_callback(t@, *a),
{
    match a {
        Arg::Expr(Expr::Arrow(f)) => async_at_exec(t, crate::lines::char_index(t, f.start as usize)),
        Arg::Expr(Expr::Function(f)) => async_at_exec(t, crate::lines::char_index(t, f.start as usize)),
        _ => false,
    }
}

/// Whether a function argument's body mentions Cypress.
pub fn argument_contains_cypress_identifier(a: &Arg) -> (r: bool)
    ensures
        r == callback_mentions_cypress(*a),
{
    match a {
        Arg::Expr(Expr::Arrow(f)) => function_body_contains_cypress(&f.body),
        Arg::Expr(Expr::Function(f)) => function_contains_cypress(f),
        _ => false,
    }
}

/// Whether a call is a command of a chain rooted at `cy`: its callee is a
/// member (possibly optional) whose object is `cy` or such a call.
pub open spec fn rooted_at_cy(call: CallExpr) -> bool
    decreases call,
{
    match call.callee {
        Expr::StaticMember { object, .. } => identifier_name(*object) == Some("cy"@) || match *object {
            Expr::Call(object_call) => rooted_at_cy(*object_call),
            _ => false,
        },
        Expr::Chain { element } => match *element {
            Expr::StaticMember { object, .. } => identifier_name(*object) == Some("cy"@) || match *object {
                Expr::Call(object_call) => rooted_at_cy(*object_call),
                _ => false,
            },
            _ => false,
        },
        _ => false,
    }
}

/// Whether a member object is `cy`, or a call rooted at `cy`.
fn object_rooted_at_cy(object: &Expr) -> (r: bool)
    ensures
        r == (identifier_name(*object) == Some("cy"@) || match *object {
            Expr::Call(object_call) => rooted_at_cy(*object_call),
            _ => false,
        }),
    decreases object,
{
    if names(expression_identifier_name(object), "cy") {
        return true;
    }
    match object {
        Expr::Call(object_call) => is_root_cypress_call(object_call),
        _ => false,
    }
}

/// Whether a call is a command of a chain rooted at `cy`.
pub fn is_root_cypress_call(call: &CallExpr) -> (r: bool)
    ensures
        r == rooted_at_cy(*call),
    decreases call,
{
    match &call.callee {
        Expr::StaticMember { object, .. } => object_rooted_at_cy(object),
        Expr::Chain { element } => match &**element {
            Expr::StaticMember { object, .. } => object_rooted_at_cy(object),
            _ => false,
        },
        _ => false,
    }
}

/// Whether `object` is a call that invokes `get` or is chained on one.
pub open spec fn get_below(object: Expr) -> bool
    decreases object,
{
    match object {
        Expr::Call(object_call) => command_of(*object_call) == Some("get"@) || get_below_callee(object_call.callee),
        _ => false,
    }
}

/// Whether a callee is a member of a call that invokes `get` or is chained
/// on one.
pub open spec fn get_below_callee(callee: Expr) -> bool
    decreases callee,
{
    match callee {
        Expr::Wrapped { expression } => get_below_callee(*expression),
        Expr::StaticMember { object, .. } => get_below(*object),
        _ => false,
    }
}

/// A `get` chained on a chain holding another `get`.
pub open spec fn chained_get(call: CallExpr) -> bool {
    command_of(call) == Some("get"@) && get_below_callee(call.callee)
}

proof fn lemma_get_below_callee(callee: Expr)
    ensures
        get_below_callee(callee) == match inner(callee) {
            Expr::StaticMember { object, .. } => get_below(*object),
            _ => false,
        },
    decreases callee,
{
    match callee {
        Expr::Wrapped { expression } => lemma_get_below_callee(*expression),
        _ => {},
    }
}

fn get_below_exec(object: &Expr) -> (r: bool)
    ensures
        r == get_below(*object),
    decreases object,
{
    match object {
        Expr::Call(object_call) => names(call_static_member_name(object_call), "get") || get_below_callee_exec(&object_call.callee),
        _ => false,
    }
}

fn get_below_callee_exec(callee: &Expr) -> (r: bool)
    ensures
        r == get_below_callee(*callee),
    decreases callee,
{
    match callee {
        Expr::Wrapped { expression } => get_below_callee_exec(expression),
        Expr::StaticMember { object, .. } => get_below_exec(object),
        _ => false,
    }
}

/// Whether a `get` is chained on a chain holding another `get`.
pub fn has_chained_get(call: &CallExpr) -> (r: bool)
    ensures
        r == chained_get(*call),
{
    names(call_static_member_name(call), "get") && get_below_callee_exec(&call.callee)
}

} // verus!
