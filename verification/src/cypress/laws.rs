//! What the Cypress rules report for every input.
use vstd::prelude::*;
use super::ast::{CallExpr, Arg, Expr};
use super::calls::{command_of, rooted_at_cy, has_force_option};
use super::checks::{call_reports, root_reports, command_specific_reports, report_at, ValueKind, ParentKind, direct_cy, unsafe_chain_actions};

verus! {

/// The actions that take a `force` option: `click`, `dblclick`, `type`,
/// `trigger`, `check`, `rightclick`, `focus` and `select`.
pub open spec fn takes_force(c: Seq<char>) -> bool {
    ||| c == "click"@
    ||| c == "dblclick"@
    ||| c == "type"@
    ||| c == "trigger"@
    ||| c == "check"@
    ||| c == "rightclick"@
    ||| c == "focus"@
    ||| c == "select"@
}

/// A command of a `cy` chain that is one of the actions taking a `force`
/// option, called with an options object holding `force`, is reported by
/// `no-force` at the call, wherever it stands and whatever came before it.
pub proof fn law_forced_actions_are_reported(
    t: Seq<char>,
    call: CallExpr,
    parent: ParentKind,
    prev: Option<Seq<char>>,
    scopes: Seq<Seq<(Seq<char>, ValueKind)>>,
    vars: Seq<Seq<char>>,
    extra: Seq<String>,
)
    requires
        rooted_at_cy(call),
        has_force_option(call),
        command_of(call) matches Some(c) && takes_force(c),
    ensures
        call_reports(t, call, parent, prev, scopes, vars, extra).contains(report_at(t, "no-force", call.span)),
{
    let c = command_of(call)->0;
    let f = super::checks::force_action_commands();
    assert(f.contains(c)) by {
        if c == "click"@ { assert(f[0] == c); }
        else if c == "dblclick"@ { assert(f[1] == c); }
        else if c == "type"@ { assert(f[2] == c); }
        else if c == "trigger"@ { assert(f[3] == c); }
        else if c == "check"@ { assert(f[4] == c); }
        else if c == "rightclick"@ { assert(f[5] == c); }
        else if c == "focus"@ { assert(f[6] == c); }
        else { assert(f[7] == c); }
    }
    let cs = command_specific_reports(t, call, c, prev, scopes);
    let r = root_reports(t, call, c, parent, prev, scopes, extra);
    assert(r[cs.len() as int] == report_at(t, "no-force", call.span));
    let all = call_reports(t, call, parent, prev, scopes, vars, extra);
    assert(all[cs.len() as int] == r[cs.len() as int]);
}

/// The actions after which a `cy` chain must not go on: `blur`, `clear`,
/// `click`, `check`, `dblclick`, `each`, `focus`, `rightclick`,
/// `screenshot`, `scrollIntoView`, `scrollTo`, `select`, `selectFile`,
/// `spread`, `submit`, `type`, `trigger`, `uncheck` and `within`.
pub open spec fn ends_chain(c: Seq<char>) -> bool {
    ||| c == "blur"@
    ||| c == "clear"@
    ||| c == "click"@
    ||| c == "check"@
    ||| c == "dblclick"@
    ||| c == "each"@
    ||| c == "focus"@
    ||| c == "rightclick"@
    ||| c == "screenshot"@
    ||| c == "scrollIntoView"@
    ||| c == "scrollTo"@
    ||| c == "select"@
    ||| c == "selectFile"@
    ||| c == "spread"@
    ||| c == "submit"@
    ||| c == "type"@
    ||| c == "trigger"@
    ||| c == "uncheck"@
    ||| c == "within"@
}

/// A command of a `cy` chain that is one of the actions ending a chain, or
/// one of the configured ones, and that a further command is chained on,
/// is reported by `unsafe-to-chain-command` at the call.
pub proof fn law_chained_unsafe_actions_are_reported(
    t: Seq<char>,
    call: CallExpr,
    prev: Option<Seq<char>>,
    scopes: Seq<Seq<(Seq<char>, ValueKind)>>,
    vars: Seq<Seq<char>>,
    extra: Seq<String>,
)
    requires
        rooted_at_cy(call),
        command_of(call) matches Some(c) && (ends_chain(c) || exists|i: int| 0 <= i < extra.len() && (#[trigger] extra[i])@ == c),
    ensures
        call_reports(t, call, ParentKind::MemberObject, prev, scopes, vars, extra).contains(report_at(t, "unsafe-to-chain-command", call.span)),
{
    let c = command_of(call)->0;
    let u = unsafe_chain_actions();
    if ends_chain(c) {
        assert(u.contains(c)) by {
        if c == "blur"@ { assert(u[0] == c); }
        else if c == "clear"@ { assert(u[1] == c); }
        else if c == "click"@ { assert(u[2] == c); }
        else if c == "check"@ { assert(u[3] == c); }
        else if c == "dblclick"@ { assert(u[4] == c); }
        else if c == "each"@ { assert(u[5] == c); }
        else if c == "focus"@ { assert(u[6] == c); }
        else if c == "rightclick"@ { assert(u[7] == c); }
        else if c == "screenshot"@ { assert(u[8] == c); }
        else if c == "scrollIntoView"@ { assert(u[9] == c); }
        else if c == "scrollTo"@ { assert(u[10] == c); }
        else if c == "select"@ { assert(u[11] == c); }
        else if c == "selectFile"@ { assert(u[12] == c); }
        else if c == "spread"@ { assert(u[13] == c); }
        else if c == "submit"@ { assert(u[14] == c); }
        else if c == "type"@ { assert(u[15] == c); }
        else if c == "trigger"@ { assert(u[16] == c); }
        else if c == "uncheck"@ { assert(u[17] == c); }
        else if c == "within"@ { assert(u[18] == c); }
        }
    }
    let cs = command_specific_reports(t, call, c, prev, scopes);
    let r = root_reports(t, call, c, ParentKind::MemberObject, prev, scopes, extra);
    let fl: int = if super::checks::force_action_commands().contains(c) && has_force_option(call) { 1 } else { 0 };
    assert(r[cs.len() + fl] == report_at(t, "unsafe-to-chain-command", call.span));
    let all = call_reports(t, call, ParentKind::MemberObject, prev, scopes, vars, extra);
    assert(all[cs.len() + fl] == r[cs.len() + fl]);
}

/// A `cy.get` whose first argument is a string that starts neither with
/// `[data-` nor with `@` is reported by `require-data-selectors`.
pub proof fn law_plain_selectors_are_reported(
    t: Seq<char>,
    call: CallExpr,
    parent: ParentKind,
    prev: Option<Seq<char>>,
    scopes: Seq<Seq<(Seq<char>, ValueKind)>>,
    vars: Seq<Seq<char>>,
    extra: Seq<String>,
)
    requires
        direct_cy(call),
        command_of(call) == Some("get"@),
        call.arguments@.len() > 0,
        call.arguments@[0] matches Arg::Expr(Expr::StringLiteral { value })
            && !(value@.len() >= 6 && value@.subrange(0, 6) == "[data-"@)
            && !(value@.len() >= 1 && value@[0] == '@'),
    ensures
        call_reports(t, call, parent, prev, scopes, vars, extra).contains(report_at(t, "require-data-selectors", call.span)),
{
    let c = command_of(call)->0;
    let all = call_reports(t, call, parent, prev, scopes, vars, extra);
    let rr = if rooted_at_cy(call) { root_reports(t, call, c, parent, prev, scopes, extra) } else { Seq::empty() };
    let x = if c == "xpath"@ && direct_cy(call) { seq![report_at(t, "no-xpath", call.span)] } else { Seq::empty() };
    assert(all[(rr.len() + x.len()) as int] == report_at(t, "require-data-selectors", call.span));
}

} // verus!
