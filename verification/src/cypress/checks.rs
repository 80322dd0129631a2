//! The reports of the Cypress rules on one call, given what the scan knows
//! there: the command before it, what names are bound to numbers, which
//! names hold data selectors, and the extra unsafe commands.
use vstd::prelude::*;
use crate::text::{byte_len, str_eq};
use crate::lines::{lf_count, lf_column, chars_before, lf_position};
use super::rules::DiagnosticLoc;
use super::ast::{Span, Expr, Arg, CallExpr, inner, get_inner_expression};
use super::calls::{
    command_of, previous_in_chain, identifier_name, callee_name, rooted_at_cy, chained_get,
    has_force_option, alias_or_data_selector, is_async_callback, callback_mentions_cypress,
    call_static_member_name, previous_command_in_chain, expression_identifier_name,
    is_root_cypress_call, has_chained_get, call_has_force_option, is_alias_or_data_selector,
    argument_is_async_function, argument_contains_cypress_identifier,
};

verus! {

/// A replacement of the source bytes `start..end`.
#[derive(Clone, Copy, Debug, PartialEq, Eq)]
pub struct DiagnosticFix {
    pub start: u32,
    pub end: u32,
    pub replacement: &'static str,
}

/// A reported rule violation.
#[derive(Clone, Copy, Debug, PartialEq, Eq)]
pub struct Diagnostic {
    pub rule_name: &'static str,
    pub message_id: &'static str,
    pub loc: DiagnosticLoc,
    pub fix: Option<DiagnosticFix>,
}

/// What a name is bound to, as far as `cy.wait` cares.
#[derive(Clone, Copy, Debug, PartialEq, Eq, Structural)]
pub enum ValueKind {
    Number,
    Other,
}

/// Where an expression stands: at the top, as the object of a member, or
/// elsewhere.
#[derive(Clone, Copy, Debug, PartialEq, Eq, Structural)]
pub enum ParentKind {
    Top,
    MemberObject,
    Other,
}

/// The bindings of a scope as characters.
pub open spec fn bindings_view(b: Seq<(String, ValueKind)>) -> Seq<(Seq<char>, ValueKind)> {
    b.map_values(|p: (String, ValueKind)| (p.0@, p.1))
}

/// Scopes as characters, innermost last.
pub open spec fn scopes_view(s: Seq<Vec<(String, ValueKind)>>) -> Seq<Seq<(Seq<char>, ValueKind)>> {
    s.map_values(|v: Vec<(String, ValueKind)>| bindings_view(v@))
}

/// Names as characters.
pub open spec fn names_view(v: Seq<String>) -> Seq<Seq<char>> {
    v.map_values(|s: String| s@)
}

/// The value of `name` in one scope: the latest binding wins.
pub open spec fn scope_lookup(bindings: Seq<(Seq<char>, ValueKind)>, name: Seq<char>) -> Option<ValueKind>
    decreases bindings.len(),
{
    if bindings.len() == 0 {
        None
    } else if bindings.last().0 == name {
        Some(bindings.last().1)
    } else {
        scope_lookup(bindings.drop_last(), name)
    }
}

/// The value of `name` in the innermost scope that binds it.
pub open spec fn lookup(scopes: Seq<Seq<(Seq<char>, ValueKind)>>, name: Seq<char>) -> Option<ValueKind>
    decreases scopes.len(),
{
    if scopes.len() == 0 {
        None
    } else {
        match scope_lookup(scopes.last(), name) {
            Some(v) => Some(v),
            None => lookup(scopes.drop_last(), name),
        }
    }
}

/// The value of `name` in one scope.
fn scope_lookup_exec(bindings: &Vec<(String, ValueKind)>, name: &String) -> (r: Option<ValueKind>)
    ensures
        r == scope_lookup(bindings_view(bindings@), name@),
{
    let mut i = bindings.len();
    assert(bindings_view(bindings@.take(i as int)) =~= bindings_view(bindings@));
    while i > 0
        invariant
            i <= bindings@.len(),
            scope_lookup(bindings_view(bindings@), name@) == scope_lookup(bindings_view(bindings@.take(i as int)), name@),
        decreases i,
    {
        assert(bindings_view(bindings@.take(i as int)).drop_last() =~= bindings_view(bindings@.take(i - 1)));
        assert(bindings_view(bindings@.take(i as int)).last() == (bindings@[i - 1].0@, bindings@[i - 1].1));
        if bindings[i - 1].0 == *name {
            return Some(bindings[i - 1].1);
        }
        i = i - 1;
    }
    None
}

/// The value of `name` in the innermost scope that binds it.
pub fn lookup_value(scopes: &Vec<Vec<(String, ValueKind)>>, name: &String) -> (r: Option<ValueKind>)
    ensures
        r == lookup(scopes_view(scopes@), name@),
{
    let mut i = scopes.len();
    assert(scopes_view(scopes@.take(i as int)) =~= scopes_view(scopes@));
    while i > 0
        invariant
            i <= scopes@.len(),
            lookup(scopes_view(scopes@), name@) == lookup(scopes_view(scopes@.take(i as int)), name@),
        decreases i,
    {
        assert(scopes_view(scopes@.take(i as int)).drop_last() =~= scopes_view(scopes@.take(i - 1)));
        assert(scopes_view(scopes@.take(i as int)).last() == bindings_view(scopes@[i - 1]@));
        match scope_lookup_exec(&scopes[i - 1], name) {
            Some(v) => {
                return Some(v);
            },
            None => {},
        }
        i = i - 1;
    }
    None
}

/// The location of `span` in `t`: one-based lines and UTF-16 columns.
pub open spec fn loc_at(t: Seq<char>, span: Span) -> DiagnosticLoc {
    DiagnosticLoc {
        start_line: (1 + lf_count(t.take(chars_before(t, span.start as int)))) as u32,
        start_column: lf_column(t.take(chars_before(t, span.start as int))) as u32,
        end_line: (1 + lf_count(t.take(chars_before(t, span.end as int)))) as u32,
        end_column: lf_column(t.take(chars_before(t, span.end as int))) as u32,
    }
}

/// The location of `span` in `t`.
pub fn loc_for_span(t: &[char], span: Span) -> (r: DiagnosticLoc)
    requires
        byte_len(t@) < u32::MAX,
    ensures
        r == loc_at(t@, span),
{
    let (sl, sc) = lf_position(t, span.start as usize);
    let (el, ec) = lf_position(t, span.end as usize);
    DiagnosticLoc { start_line: sl, start_column: sc, end_line: el, end_column: ec }
}

/// A report of `rule` at `span`.
pub open spec fn report_at(t: Seq<char>, rule: &'static str, span: Span) -> Diagnostic {
    Diagnostic { rule_name: rule, message_id: "unexpected", loc: loc_at(t, span), fix: None }
}

/// The commands after which a screenshot is taken as asserted.
pub open spec fn assertion_commands() -> Seq<Seq<char>> {
    seq!["should"@, "and"@, "contains"@, "get"@, "scrollIntoView"@, "scrollTo"@]
}

/// The commands that `and` may follow.
pub open spec fn allow_and_after() -> Seq<Seq<char>> {
    seq!["should"@, "and"@, "contains"@]
}

/// The commands whose result may be assigned.
pub open spec fn assignment_allowed_commands() -> Seq<Seq<char>> {
    seq!["now"@, "spy"@, "state"@, "stub"@]
}

/// The actions that take a `force` option.
pub open spec fn force_action_commands() -> Seq<Seq<char>> {
    seq!["click"@, "dblclick"@, "type"@, "trigger"@, "check"@, "rightclick"@, "focus"@, "select"@]
}

/// The actions that must not be chained on.
pub open spec fn unsafe_chain_actions() -> Seq<Seq<char>> {
    seq![
        "blur"@, "clear"@, "click"@, "check"@, "dblclick"@, "each"@, "focus"@, "rightclick"@,
        "screenshot"@, "scrollIntoView"@, "scrollTo"@, "select"@, "selectFile"@, "spread"@,
        "submit"@, "type"@, "trigger"@, "uncheck"@, "within"@,
    ]
}

/// Whether `c` is one of the literals of `list`.
fn one_of(c: &String, list: Vec<&'static str>) -> (r: bool)
    ensures
        r == exists|i: int| 0 <= i < list@.len() && (#[trigger] list@[i])@ == c@,
{
    let mut i: usize = 0;
    while i < list.len()
        invariant
            i <= list@.len(),
            forall|k: int| 0 <= k < i ==> (#[trigger] list@[k])@ != c@,
        decreases list@.len() - i,
    {
        if str_eq(list[i], c.as_str()) {
            return true;
        }
        i = i + 1;
    }
    false
}

/// Whether a command is one of the assertion commands.
fn is_assertion_command(c: &String) -> (r: bool)
    ensures
        r == assertion_commands().contains(c@),
{
    let r = one_of(c, vec!["should", "and", "contains", "get", "scrollIntoView", "scrollTo"]);
    proof {
        reveal_strlit("should");
        reveal_strlit("and");
        reveal_strlit("contains");
        reveal_strlit("get");
        reveal_strlit("scrollIntoView");
        reveal_strlit("scrollTo");
        if assertion_commands().contains(c@) {
            let k = choose|k: int| 0 <= k < assertion_commands().len() && assertion_commands()[k] == c@;
        }
    }
    r
}

/// Whether a command is one of `allow_and_after()`.
fn is_allow_and_command(c: &String) -> (r: bool)
    ensures
        r == allow_and_after().contains(c@),
{
    let r = one_of(c, vec!["should", "and", "contains"]);
    proof {
        reveal_strlit("should");
        reveal_strlit("and");
        reveal_strlit("contains");
        if allow_and_after().contains(c@) {
            let k = choose|k: int| 0 <= k < allow_and_after().len() && allow_and_after()[k] == c@;
        }
    }
    r
}

/// Whether a command is one of `assignment_allowed_commands()`.
pub fn is_assignment_allowed_command(c: &String) -> (r: bool)
    ensures
        r == assignment_allowed_commands().contains(c@),
{
    let r = one_of(c, vec!["now", "spy", "state", "stub"]);
    proof {
        reveal_strlit("now");
        reveal_strlit("spy");
        reveal_strlit("state");
        reveal_strlit("stub");
        if assignment_allowed_commands().contains(c@) {
            let k = choose|k: int| 0 <= k < assignment_allowed_commands().len() && assignment_allowed_commands()[k] == c@;
        }
    }
    r
}

/// Whether a command is one of `force_action_commands()`.
fn is_force_action(c: &String) -> (r: bool)
    ensures
        r == force_action_commands().contains(c@),
{
    let r = one_of(c, vec!["click", "dblclick", "type", "trigger", "check", "rightclick", "focus", "select"]);
    proof {
        reveal_strlit("click");
        reveal_strlit("dblclick");
        reveal_strlit("type");
        reveal_strlit("trigger");
        reveal_strlit("check");
        reveal_strlit("rightclick");
        reveal_strlit("focus");
        reveal_strlit("select");
        if force_action_commands().contains(c@) {
            let k = choose|k: int| 0 <= k < force_action_commands().len() && force_action_commands()[k] == c@;
        }
    }
    r
}

/// Whether a command is one of `unsafe_chain_actions()`.
fn is_unsafe_chain_builtin(c: &String) -> (r: bool)
    ensures
        r == unsafe_chain_actions().contains(c@),
{
    let r = one_of(c, vec!["blur", "clear", "click", "check", "dblclick", "each", "focus", "rightclick", "screenshot", "scrollIntoView", "scrollTo", "select", "selectFile", "spread", "submit", "type", "trigger", "uncheck", "within"]);
    proof {
        reveal_strlit("blur");
        reveal_strlit("clear");
        reveal_strlit("click");
        reveal_strlit("check");
        reveal_strlit("dblclick");
        reveal_strlit("each");
        reveal_strlit("focus");
        reveal_strlit("rightclick");
        reveal_strlit("screenshot");
        reveal_strlit("scrollIntoView");
        reveal_strlit("scrollTo");
        reveal_strlit("select");
        reveal_strlit("selectFile");
        reveal_strlit("spread");
        reveal_strlit("submit");
        reveal_strlit("type");
        reveal_strlit("trigger");
        reveal_strlit("uncheck");
        reveal_strlit("within");
        if unsafe_chain_actions().contains(c@) {
            let k = choose|k: int| 0 <= k < unsafe_chain_actions().len() && unsafe_chain_actions()[k] == c@;
        }
    }
    r
}

/// An optional string's characters.
pub open spec fn opt_chars(o: Option<&String>) -> Option<Seq<char>> {
    match o {
        Some(s) => Some(s@),
        None => None,
    }
}

/// Whether the command before a screenshot (in its chain, else the
/// statement before) is an assertion command.
pub open spec fn previous_is_assertion(call: CallExpr, prev: Option<Seq<char>>) -> bool {
    let p = match previous_in_chain(call) {
        Some(c) => Some(c),
        None => prev,
    };
    match p {
        Some(c) => assertion_commands().contains(c),
        None => false,
    }
}

/// Whether an `and` follows a command that it may follow.
pub open spec fn allowed_and(call: CallExpr) -> bool {
    match previous_in_chain(call) {
        Some(c) => allow_and_after().contains(c),
        None => false,
    }
}

/// Whether a call's first argument is a number literal or a name bound to
/// a number.
pub open spec fn waits_for_number(call: CallExpr, scopes: Seq<Seq<(Seq<char>, ValueKind)>>) -> bool {
    call.arguments@.len() > 0 && match call.arguments@[0] {
        Arg::Expr(Expr::NumericLiteral) => true,
        Arg::Expr(Expr::Identifier { name }) => lookup(scopes, name@) == Some(ValueKind::Number),
        _ => false,
    }
}

/// Whether `name` holds a data selector.
pub open spec fn is_data_var(vars: Seq<Seq<char>>, name: Seq<char>) -> bool {
    exists|i: int| 0 <= i < vars.len() && (#[trigger] vars[i]) == name
}

/// Whether an expression (inside any wrappers) is a data or alias
/// selector: a string or template starting with one, a name holding one,
/// or a conditional whose two branches are such.
pub open spec fn data_node_expr(e: Expr, vars: Seq<Seq<char>>) -> bool
    decreases e,
{
    match e {
        Expr::Wrapped { expression } => data_node_expr(*expression, vars),
        Expr::StringLiteral { value } => alias_or_data_selector(value@),
        Expr::TemplateLiteral { first_cooked, .. } => match first_cooked {
            Some(v) => alias_or_data_selector(v@),
            None => false,
        },
        Expr::Identifier { name } => is_data_var(vars, name@),
        Expr::Conditional { consequent, alternate, .. } => data_node_expr(*consequent, vars) && data_node_expr(*alternate, vars),
        _ => false,
    }
}

/// Whether an argument (not inside wrappers) is a data or alias selector.
pub open spec fn data_node_arg(a: Arg, vars: Seq<Seq<char>>) -> bool {
    match a {
        Arg::Expr(Expr::StringLiteral { value }) => alias_or_data_selector(value@),
        Arg::Expr(Expr::TemplateLiteral { first_cooked, .. }) => match first_cooked {
            Some(v) => alias_or_data_selector(v@),
            None => false,
        },
        Arg::Expr(Expr::Identifier { name }) => is_data_var(vars, name@),
        Arg::Expr(Expr::Conditional { consequent, alternate, .. }) => data_node_expr(*consequent, vars) && data_node_expr(*alternate, vars),
        _ => false,
    }
}

/// Whether a `get` selects by data attribute or alias.
pub open spec fn uses_data_selector(call: CallExpr, vars: Seq<Seq<char>>) -> bool {
    call.arguments@.len() > 0 && data_node_arg(call.arguments@[0], vars)
}

/// Whether a call is a command invoked directly on `cy`.
pub open spec fn direct_cy(call: CallExpr) -> bool {
    match call.callee {
        Expr::StaticMember { object, .. } => identifier_name(*object) == Some("cy"@),
        _ => false,
    }
}

/// Whether a command must not be chained on: a built-in unsafe action or
/// one of the configured ones.
pub open spec fn unsafe_action(c: Seq<char>, extra: Seq<String>) -> bool {
    unsafe_chain_actions().contains(c) || exists|i: int| 0 <= i < extra.len() && (#[trigger] extra[i])@ == c
}

/// The reports of the async rules on a call: an async callback that
/// mentions Cypress, given to `before`/`beforeEach` or to `it`/`test`.
pub open spec fn async_reports(t: Seq<char>, call: CallExpr) -> Seq<Diagnostic> {
    match callee_name(call) {
        Some(n) => if call.arguments@.len() > 1 && is_async_callback(t, call.arguments@[1])
            && callback_mentions_cypress(call.arguments@[1]) {
            if n == "before"@ || n == "beforeEach"@ {
                seq![report_at(t, "no-async-before", call.span)]
            } else if n == "it"@ || n == "test"@ {
                seq![report_at(t, "no-async-tests", call.span)]
            } else {
                Seq::empty()
            }
        } else {
            Seq::empty()
        },
        None => Seq::empty(),
    }
}

/// The report that a command of a `cy` chain gets for what it is.
pub open spec fn command_specific_reports(t: Seq<char>, call: CallExpr, cmd: Seq<char>, prev: Option<Seq<char>>, scopes: Seq<Seq<(Seq<char>, ValueKind)>>) -> Seq<Diagnostic> {
    if cmd == "screenshot"@ {
        if !previous_is_assertion(call, prev) {
            seq![report_at(t, "assertion-before-screenshot", call.span)]
        } else {
            Seq::empty()
        }
    } else if cmd == "and"@ {
        if !allowed_and(call) {
            match call.callee {
                Expr::StaticMember { property_span, .. } => seq![Diagnostic {
                    rule_name: "no-and",
                    message_id: "unexpected",
                    loc: loc_at(t, call.span),
                    fix: Some(DiagnosticFix { start: property_span.start, end: property_span.end, replacement: "should" }),
                }],
                _ => Seq::empty(),
            }
        } else {
            Seq::empty()
        }
    } else if cmd == "get"@ {
        if chained_get(call) {
            seq![report_at(t, "no-chained-get", call.span)]
        } else {
            Seq::empty()
        }
    } else if cmd == "debug"@ {
        seq![report_at(t, "no-debug", call.span)]
    } else if cmd == "pause"@ {
        seq![report_at(t, "no-pause", call.span)]
    } else if cmd == "wait"@ && waits_for_number(call, scopes) {
        seq![report_at(t, "no-unnecessary-waiting", call.span)]
    } else {
        Seq::empty()
    }
}

/// The reports that a command of a `cy` chain gets.
pub open spec fn root_reports(t: Seq<char>, call: CallExpr, cmd: Seq<char>, parent: ParentKind, prev: Option<Seq<char>>, scopes: Seq<Seq<(Seq<char>, ValueKind)>>, extra: Seq<String>) -> Seq<Diagnostic> {
    command_specific_reports(t, call, cmd, prev, scopes)
        + (if force_action_commands().contains(cmd) && has_force_option(call) {
        seq![report_at(t, "no-force", call.span)]
    } else {
        Seq::empty()
    }) + (if parent == ParentKind::MemberObject && unsafe_action(cmd, extra) {
        seq![report_at(t, "unsafe-to-chain-command", call.span)]
    } else {
        Seq::empty()
    })
}

/// The reports of every rule on one call, in the order the rules check it.
pub open spec fn call_reports(
    t: Seq<char>,
    call: CallExpr,
    parent: ParentKind,
    prev: Option<Seq<char>>,
    scopes: Seq<Seq<(Seq<char>, ValueKind)>>,
    vars: Seq<Seq<char>>,
    extra: Seq<String>,
) -> Seq<Diagnostic> {
    match command_of(call) {
        None => async_reports(t, call),
        Some(cmd) => (if rooted_at_cy(call) {
            root_reports(t, call, cmd, parent, prev, scopes, extra)
        } else {
            Seq::empty()
        }) + (if cmd == "xpath"@ && direct_cy(call) {
            seq![report_at(t, "no-xpath", call.span)]
        } else {
            Seq::empty()
        }) + (if cmd == "get"@ && direct_cy(call) && !uses_data_selector(call, vars) {
            seq![report_at(t, "require-data-selectors", call.span)]
        } else {
            Seq::empty()
        }) + async_reports(t, call),
    }
}

/// A report of `rule` at `span`.
fn report(t: &[char], rule: &'static str, span: Span) -> (r: Diagnostic)
    requires
        byte_len(t@) < u32::MAX,
    ensures
        r == report_at(t@, rule, span),
{
    Diagnostic { rule_name: rule, message_id: "unexpected", loc: loc_for_span(t, span), fix: None }
}

/// Whether an optional name is the literal `lit`.
fn named(n: Option<&String>, lit: &str) -> (r: bool)
    ensures
        r == (opt_chars(n) == Some(lit@)),
{
    match n {
        Some(s) => str_eq(s.as_str(), lit),
        None => false,
    }
}

/// Whether `name` holds a data selector.
fn is_data_variable(vars: &Vec<String>, name: &String) -> (r: bool)
    ensures
        r == is_data_var(names_view(vars@), name@),
{
    let mut i: usize = 0;
    while i < vars.len()
        invariant
            i <= vars@.len(),
            forall|k: int| 0 <= k < i ==> (#[trigger] names_view(vars@)[k]) != name@,
        decreases vars@.len() - i,
    {
        assert(names_view(vars@)[i as int] == vars@[i as int]@);
        if vars[i] == *name {
            return true;
        }
        i = i + 1;
    }
    false
}

/// Whether an expression is a data or alias selector.
pub fn is_data_node_expression(e: &Expr, vars: &Vec<String>) -> (r: bool)
    ensures
        r == data_node_expr(*e, names_view(vars@)),
    decreases e,
{
    match e {
        Expr::Wrapped { expression } => is_data_node_expression(expression, vars),
        Expr::StringLiteral { value } => is_alias_or_data_selector(value),
        Expr::TemplateLiteral { first_cooked, .. } => match first_cooked {
            Some(v) => is_alias_or_data_selector(v),
            None => false,
        },
        Expr::Identifier { name } => is_data_variable(vars, name),
        Expr::Conditional { consequent, alternate, .. } => is_data_node_expression(consequent, vars)
            && is_data_node_expression(alternate, vars),
        _ => false,
    }
}

/// Whether an argument is a data or alias selector.
fn is_data_node_argument(a: &Arg, vars: &Vec<String>) -> (r: bool)
    ensures
        r == data_node_arg(*a, names_view(vars@)),
{
    match a {
        Arg::Expr(Expr::StringLiteral { value }) => is_alias_or_data_selector(value),
        Arg::Expr(Expr::TemplateLiteral { first_cooked, .. }) => match first_cooked {
            Some(v) => is_alias_or_data_selector(v),
            None => false,
        },
        Arg::Expr(Expr::Identifier { name }) => is_data_variable(vars, name),
        Arg::Expr(Expr::Conditional { consequent, alternate, .. }) => is_data_node_expression(consequent, vars)
            && is_data_node_expression(alternate, vars),
        _ => false,
    }
}

/// Whether a command must not be chained on.
fn is_unsafe_chain_action(c: &String, extra: &Vec<String>) -> (r: bool)
    ensures
        r == unsafe_action(c@, extra@),
{
    if is_unsafe_chain_builtin(c) {
        return true;
    }
    let mut i: usize = 0;
    while i < extra.len()
        invariant
            i <= extra@.len(),
            forall|k: int| 0 <= k < i ==> (#[trigger] extra@[k])@ != c@,
        decreases extra@.len() - i,
    {
        if extra[i] == *c {
            return true;
        }
        i = i + 1;
    }
    false
}

/// Whether a call's first argument is a number literal or a name bound to
/// a number.
fn waits_for_number_exec(call: &CallExpr, scopes: &Vec<Vec<(String, ValueKind)>>) -> (r: bool)
    ensures
        r == waits_for_number(*call, scopes_view(scopes@)),
{
    if call.arguments.len() == 0 {
        return false;
    }
    match &call.arguments[0] {
        Arg::Expr(Expr::NumericLiteral) => true,
        Arg::Expr(Expr::Identifier { name }) => match lookup_value(scopes, name) {
            Some(ValueKind::Number) => true,
            _ => false,
        },
        _ => false,
    }
}

/// Whether a call is a command invoked directly on `cy`.
fn is_direct_cy_call(call: &CallExpr) -> (r: bool)
    ensures
        r == direct_cy(*call),
{
    match &call.callee {
        Expr::StaticMember { object, .. } => named(expression_identifier_name(object), "cy"),
        _ => false,
    }
}

/// Appends the reports of the async rules on a call.
fn check_async_block_rules(t: &[char], call: &CallExpr, out: &mut Vec<Diagnostic>)
    requires
        byte_len(t@) < u32::MAX,
    ensures
        final(out)@ == old(out)@ + async_reports(t@, *call),
{
    let name = match get_inner_expression(&call.callee) {
        Expr::Identifier { name } => name,
        _ => {
            assert(old(out)@ + Seq::<Diagnostic>::empty() =~= old(out)@);
            return;
        },
    };
    if call.arguments.len() < 2 {
        assert(old(out)@ + Seq::<Diagnostic>::empty() =~= old(out)@);
        return;
    }
    let callback = &call.arguments[1];
    if !argument_is_async_function(t, callback) || !argument_contains_cypress_identifier(callback) {
        assert(old(out)@ + Seq::<Diagnostic>::empty() =~= old(out)@);
        return;
    }
    if str_eq(name.as_str(), "before") || str_eq(name.as_str(), "beforeEach") {
        out.push(report(t, "no-async-before", call.span));
    } else if str_eq(name.as_str(), "it") || str_eq(name.as_str(), "test") {
        out.push(report(t, "no-async-tests", call.span));
    } else {
        assert(old(out)@ + Seq::<Diagnostic>::empty() =~= old(out)@);
        return;
    }
    assert(final(out)@ =~= old(out)@ + async_reports(t@, *call));
}

/// Appends the report that a command of a `cy` chain gets for what it is.
fn check_command(t: &[char], call: &CallExpr, cmd: &String, prev: Option<&String>, scopes: &Vec<Vec<(String, ValueKind)>>, out: &mut Vec<Diagnostic>)
    requires
        byte_len(t@) < u32::MAX,
    ensures
        final(out)@ == old(out)@ + command_specific_reports(t@, *call, cmd@, opt_chars(prev), scopes_view(scopes@)),
{
    let ghost start = out@;
    if str_eq(cmd.as_str(), "screenshot") {
        let p = match previous_command_in_chain(call) {
            Some(c) => Some(c),
            None => prev,
        };
        let asserted = match p {
            Some(c) => is_assertion_command(c),
            None => false,
        };
        if !asserted {
            out.push(report(t, "assertion-before-screenshot", call.span));
        }
    } else if str_eq(cmd.as_str(), "and") {
        let allowed = match previous_command_in_chain(call) {
            Some(c) => is_allow_and_command(c),
            None => false,
        };
        if !allowed {
            match &call.callee {
                Expr::StaticMember { property_span, .. } => {
                    out.push(Diagnostic {
                        rule_name: "no-and",
                        message_id: "unexpected",
                        loc: loc_for_span(t, call.span),
                        fix: Some(DiagnosticFix { start: property_span.start, end: property_span.end, replacement: "should" }),
                    });
                },
                _ => {},
            }
        }
    } else if str_eq(cmd.as_str(), "get") {
        if has_chained_get(call) {
            out.push(report(t, "no-chained-get", call.span));
        }
    } else if str_eq(cmd.as_str(), "debug") {
        out.push(report(t, "no-debug", call.span));
    } else if str_eq(cmd.as_str(), "pause") {
        out.push(report(t, "no-pause", call.span));
    } else if str_eq(cmd.as_str(), "wait") && waits_for_number_exec(call, scopes) {
        out.push(report(t, "no-unnecessary-waiting", call.span));
    }
    assert(out@ =~= start + command_specific_reports(t@, *call, cmd@, opt_chars(prev), scopes_view(scopes@)));
}

/// Appends the reports of every rule on one call.
pub fn check_call_rules(
    t: &[char],
    call: &CallExpr,
    parent: ParentKind,
    prev: Option<&String>,
    scopes: &Vec<Vec<(String, ValueKind)>>,
    vars: &Vec<String>,
    extra: &Vec<String>,
    out: &mut Vec<Diagnostic>,
)
    requires
        byte_len(t@) < u32::MAX,
    ensures
        final(out)@ == old(out)@ + call_reports(t@, *call, parent, opt_chars(prev), scopes_view(scopes@), names_view(vars@), extra@),
{
    let ghost start = out@;
    let command = match call_static_member_name(call) {
        Some(c) => c,
        None => {
            check_async_block_rules(t, call, out);
            return;
        },
    };
    if is_root_cypress_call(call) {
        check_command(t, call, command, prev, scopes, out);
        if is_force_action(command) && call_has_force_option(call) {
            out.push(report(t, "no-force", call.span));
        }
        if parent == ParentKind::MemberObject && is_unsafe_chain_action(command, extra) {
            out.push(report(t, "unsafe-to-chain-command", call.span));
        }
    }
    let ghost mid = out@;
    assert(mid =~= start + (if rooted_at_cy(*call) {
        root_reports(t@, *call, command@, parent, opt_chars(prev), scopes_view(scopes@), extra@)
    } else {
        Seq::empty()
    }));
    if str_eq(command.as_str(), "xpath") && is_direct_cy_call(call) {
        out.push(report(t, "no-xpath", call.span));
    }
    if str_eq(command.as_str(), "get") && is_direct_cy_call(call) && !(call.arguments.len() > 0 && is_data_node_argument(&call.arguments[0], vars)) {
        out.push(report(t, "require-data-selectors", call.span));
    }
    let ghost before_async = out@;
    check_async_block_rules(t, call, out);
    assert(out@ =~= start + call_reports(t@, *call, parent, opt_chars(prev), scopes_view(scopes@), names_view(vars@), extra@));
}

} // verus!
