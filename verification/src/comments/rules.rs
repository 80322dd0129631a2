//! The directive-comment rules. Each reads the comments of one file (and the
//! shared disabled-area bookkeeping) and returns its diagnostics in order.
use vstd::prelude::*;
use crate::comments::directive::{
    directive_of_comment, parse_directive_comment, same_directive, CommentKind, DirectiveView,
};
use crate::comments::disabled_area::{
    build, build_disabled_area, comments_below, comments_fit, comments_view, opt_view, AreaView,
    DisabledArea, RefView,
};
use crate::comments::loc::{
    force_location, location_fits, lte, rule_id_location, spec_lte, to_force_location, to_rule_id_location,
    Location, Position,
};
use crate::comments::{
    diagnostics_items, diagnostics_new, diagnostics_push, Comment, CommentView, DataView,
    Diagnostic, DiagnosticData, DiagnosticView, Diagnostics, Problem,
};
use crate::comments::glob::{is_restricted, join_commas, joined_patterns, restricted_by, strs_view};
use crate::text::{chars_eq_str, chars_of, str_eq, string_of};

verus! {

/// The items of `s` that `f` maps to a diagnostic, in order.
pub open spec fn filter_map<A>(s: Seq<A>, f: spec_fn(A) -> Option<DiagnosticView>) -> Seq<
    DiagnosticView,
>
    decreases s.len(),
{
    if s.len() == 0 {
        Seq::empty()
    } else {
        let prev = filter_map(s.drop_last(), f);
        match f(s.last()) {
            Some(d) => prev.push(d),
            None => prev,
        }
    }
}

pub proof fn lemma_filter_map_step<A>(
    s: Seq<A>,
    i: int,
    f: spec_fn(A) -> Option<DiagnosticView>,
)
    requires
        0 <= i < s.len(),
    ensures
        filter_map(s.take(i + 1), f) == match f(s[i]) {
            Some(d) => filter_map(s.take(i), f).push(d),
            None => filter_map(s.take(i), f),
        },
{
    assert(s.take(i + 1).drop_last() =~= s.take(i));
}

pub open spec fn no_data() -> DataView {
    DataView { kind: None, rule_id: None, count: None }
}

pub open spec fn rule_data(rule: Option<Seq<char>>) -> DataView {
    DataView { kind: None, rule_id: rule, count: None }
}

pub open spec fn diag(message_id: Seq<char>, data: DataView, loc: Location) -> DiagnosticView {
    DiagnosticView { message_id, data, loc }
}

/// The message for a rule-specific or a whole-file directive.
pub open spec fn rule_msg(rule: Option<Seq<char>>, named: Seq<char>, bare: Seq<char>) -> Seq<char> {
    if rule is Some {
        named
    } else {
        bare
    }
}

/// Where a diagnostic about `rule` in comment `i` is reported.
pub open spec fn loc_of(cs: Seq<CommentView>, i: usize, rule: Option<Seq<char>>) -> Location {
    rule_id_location(cs[i as int].value, cs[i as int].loc, rule)
}

fn make(message_id: &str, data: DiagnosticData, loc: Location) -> (d: Diagnostic)
    ensures
        d@ == diag(message_id@, data@, loc),
{
    Diagnostic { message_id: string_of(message_id), data, loc }
}

fn data_of_rule(rule: &Option<String>) -> (d: DiagnosticData)
    ensures
        d@ == rule_data(opt_view(*rule)),
{
    let r = match rule {
        Some(s) => Some(s.clone()),
        None => None,
    };
    DiagnosticData { kind: None, rule_id: r, count: None }
}

fn as_str_opt(o: &Option<String>) -> (r: Option<&str>)
    ensures
        match r {
            Some(s) => opt_view(*o) == Some(s@),
            None => opt_view(*o) is None,
        },
{
    match o {
        Some(s) => Some(s.as_str()),
        None => None,
    }
}

/// The location of a diagnostic about `rule` in comment `i`.
fn locate(comments: &[Comment], i: usize, rule: &Option<String>) -> (l: Location)
    requires
        i < comments@.len(),
        comments_fit(comments_view(comments@)),
    ensures
        l == loc_of(comments_view(comments@), i, opt_view(*rule)),
{
    let c = comments[i];
    let ghost cs = comments_view(comments@);
    assert(cs[i as int] == c@);
    assert(location_fits(cs[i as int].value, cs[i as int].loc));
    let r = as_str_opt(rule);
    assert(crate::comments::loc::opt_str_view(r) == opt_view(*rule));
    to_rule_id_location(c.value, c.loc, r)
}

pub open spec fn pair_diag(
    cs: Seq<CommentView>,
    allow_whole_file: bool,
    first: Option<Position>,
) -> spec_fn(AreaView) -> Option<DiagnosticView> {
    |a: AreaView|
        if a.end is None && !(allow_whole_file && (first matches Some(f) && spec_lte(a.start, f))) {
            Some(
                diag(
                    rule_msg(a.rule_id, "missingRulePair"@, "missingPair"@),
                    rule_data(a.rule_id),
                    loc_of(cs, a.comment, a.rule_id),
                ),
            )
        } else {
            None
        }
}

/// `disable-enable-pair`: every disabled area never closed by an enable,
/// except (with `allow_whole_file`) those starting at or before the first
/// token; nothing at all when whole-file disables are allowed and the file has
/// no token.
pub open spec fn spec_disable_enable_pair(
    cs: Seq<CommentView>,
    allow_whole_file: bool,
    first: Option<Position>,
) -> Seq<DiagnosticView> {
    if allow_whole_file && first is None {
        Seq::empty()
    } else {
        filter_map(build(cs).areas, pair_diag(cs, allow_whole_file, first))
    }
}

/// Report every disabled area that is never closed by an `eslint-enable`.
///
/// With `allow_whole_file`, areas that start at or before the first token are
/// treated as intentional whole-file disables; `first_token_start` is the first
/// non-comment token's position (or `None` when the file has no tokens).
pub fn disable_enable_pair(
    comments: &[Comment],
    allow_whole_file: bool,
    first_token_start: Option<Position>,
) -> (r: Diagnostics)
    requires
        comments_fit(comments_view(comments@)),
    ensures
        diagnostics_items(r) == spec_disable_enable_pair(
            comments_view(comments@),
            allow_whole_file,
            first_token_start,
        ),
{
    let mut diagnostics = diagnostics_new();
    if allow_whole_file && first_token_start.is_none() {
        return diagnostics;
    }
    let state = build_disabled_area(comments);
    let ghost cs = comments_view(comments@);
    let ghost f = pair_diag(cs, allow_whole_file, first_token_start);
    let mut i: usize = 0;
    while i < state.areas.len()
        invariant
            0 <= i <= state.areas@.len(),
            cs == comments_view(comments@),
            comments_fit(cs),
            state@ == build(cs),
            comments_below(state@, comments@.len() as int),
            f == pair_diag(cs, allow_whole_file, first_token_start),
            diagnostics_items(diagnostics) == filter_map(state@.areas.take(i as int), f),
        decreases state.areas.len() - i,
    {
        proof {
            lemma_filter_map_step(state@.areas, i as int, f);
        }
        let area = &state.areas[i];
        assert(state@.areas[i as int] == area@);
        let skip = allow_whole_file && match first_token_start {
            Some(first) => lte(area.start, first),
            None => false,
        };
        if area.end.is_none() && !skip {
            let loc = locate(comments, area.comment, &area.rule_id);
            let message_id = if area.rule_id.is_some() {
                "missingRulePair"
            } else {
                "missingPair"
            };
            let d = make(message_id, data_of_rule(&area.rule_id), loc);
            diagnostics_push(&mut diagnostics, d);
        }
        i += 1;
    }
    assert(state@.areas.take(i as int) =~= state@.areas);
    diagnostics
}

pub open spec fn aggregating_diag(cs: Seq<CommentView>) -> spec_fn((usize, u32)) -> Option<
    DiagnosticView,
> {
    |e: (usize, u32)|
        if e.1 >= 2 {
            Some(
                diag(
                    "aggregatingEnable"@,
                    DataView { kind: None, rule_id: None, count: Some(e.1) },
                    force_location(cs[e.0 as int].loc),
                ),
            )
        } else {
            None
        }
}

/// `no-aggregating-enable`: every enable that closed two or more distinct
/// disable directives at once, with that count.
pub open spec fn spec_no_aggregating_enable(cs: Seq<CommentView>) -> Seq<DiagnosticView> {
    filter_map(build(cs).related, aggregating_diag(cs))
}

/// Report `eslint-enable` comments that re-enable two or more `eslint-disable`
/// comments at once.
pub fn no_aggregating_enable(comments: &[Comment]) -> (r: Diagnostics)
    requires
        comments_fit(comments_view(comments@)),
    ensures
        diagnostics_items(r) == spec_no_aggregating_enable(comments_view(comments@)),
{
    let mut diagnostics = diagnostics_new();
    let state = build_disabled_area(comments);
    let ghost cs = comments_view(comments@);
    let ghost f = aggregating_diag(cs);
    let mut i: usize = 0;
    while i < state.related_counts.len()
        invariant
            0 <= i <= state.related_counts@.len(),
            cs == comments_view(comments@),
            state@ == build(cs),
            comments_below(state@, comments@.len() as int),
            f == aggregating_diag(cs),
            diagnostics_items(diagnostics) == filter_map(state@.related.take(i as int), f),
        decreases state.related_counts.len() - i,
    {
        proof {
            lemma_filter_map_step(state@.related, i as int, f);
        }
        let (comment_index, count) = state.related_counts[i];
        assert(state@.related[i as int] == (comment_index, count));
        if count >= 2 {
            let c = comments[comment_index];
            assert(cs[comment_index as int] == c@);
            let d = make(
                "aggregatingEnable",
                DiagnosticData { kind: None, rule_id: None, count: Some(count) },
                to_force_location(c.loc),
            );
            diagnostics_push(&mut diagnostics, d);
        }
        i += 1;
    }
    assert(state@.related.take(i as int) =~= state@.related);
    diagnostics
}

pub open spec fn ref_diag(cs: Seq<CommentView>, named: Seq<char>, bare: Seq<char>) -> spec_fn(
    RefView,
) -> Option<DiagnosticView> {
    |d: RefView|
        Some(
            diag(
                rule_msg(d.rule_id, named, bare),
                rule_data(d.rule_id),
                loc_of(cs, d.comment, d.rule_id),
            ),
        )
}

/// `no-duplicate-disable`: one diagnostic per disable directive (and rule)
/// that an earlier, still-open disable already covers.
pub open spec fn spec_no_duplicate_disable(cs: Seq<CommentView>) -> Seq<DiagnosticView> {
    filter_map(build(cs).duplicates, ref_diag(cs, "duplicateRule"@, "duplicate"@))
}

/// `no-unused-enable`: one diagnostic per enable directive (and rule) that
/// closed no open disable.
pub open spec fn spec_no_unused_enable(cs: Seq<CommentView>) -> Seq<DiagnosticView> {
    filter_map(build(cs).unused, ref_diag(cs, "unusedRule"@, "unused"@))
}

fn report_refs(
    comments: &[Comment],
    refs: &Vec<crate::comments::disabled_area::DirectiveRef>,
    named: &str,
    bare: &str,
) -> (r: Diagnostics)
    requires
        comments_fit(comments_view(comments@)),
        forall|i: int| 0 <= i < refs@.len() ==> (#[trigger] refs@[i]).comment < comments@.len(),
    ensures
        diagnostics_items(r) == filter_map(
            crate::comments::disabled_area::refs_view(refs@),
            ref_diag(comments_view(comments@), named@, bare@),
        ),
{
    let mut diagnostics = diagnostics_new();
    let ghost cs = comments_view(comments@);
    let ghost f = ref_diag(cs, named@, bare@);
    let ghost rv = crate::comments::disabled_area::refs_view(refs@);
    let mut i: usize = 0;
    while i < refs.len()
        invariant
            0 <= i <= refs@.len(),
            cs == comments_view(comments@),
            comments_fit(cs),
            rv == crate::comments::disabled_area::refs_view(refs@),
            forall|k: int| 0 <= k < refs@.len() ==> (#[trigger] refs@[k]).comment < comments@.len(),
            f == ref_diag(cs, named@, bare@),
            diagnostics_items(diagnostics) == filter_map(rv.take(i as int), f),
        decreases refs.len() - i,
    {
        proof {
            lemma_filter_map_step(rv, i as int, f);
        }
        let item = &refs[i];
        assert(rv[i as int] == item@);
        let loc = locate(comments, item.comment, &item.rule_id);
        let message_id = if item.rule_id.is_some() {
            named
        } else {
            bare
        };
        let d = make(message_id, data_of_rule(&item.rule_id), loc);
        diagnostics_push(&mut diagnostics, d);
        i += 1;
    }
    assert(rv.take(i as int) =~= rv);
    diagnostics
}

/// Report each disable directive that duplicates an already-active disable.
pub fn no_duplicate_disable(comments: &[Comment]) -> (r: Diagnostics)
    requires
        comments_fit(comments_view(comments@)),
    ensures
        diagnostics_items(r) == spec_no_duplicate_disable(comments_view(comments@)),
{
    let state = build_disabled_area(comments);
    assert(forall|i: int|
        0 <= i < state.duplicate_disable_directives@.len() ==> state@.duplicates[i]
            == (#[trigger] state.duplicate_disable_directives@[i])@);
    report_refs(comments, &state.duplicate_disable_directives, "duplicateRule", "duplicate")
}

/// Report each `eslint-enable` directive that does not close any open disable.
pub fn no_unused_enable(comments: &[Comment]) -> (r: Diagnostics)
    requires
        comments_fit(comments_view(comments@)),
    ensures
        diagnostics_items(r) == spec_no_unused_enable(comments_view(comments@)),
{
    let state = build_disabled_area(comments);
    assert(forall|i: int|
        0 <= i < state.unused_enable_directives@.len() ==> state@.unused[i]
            == (#[trigger] state.unused_enable_directives@[i])@);
    report_refs(comments, &state.unused_enable_directives, "unusedRule", "unused")
}


/// The directive of a comment, honoring line/block restrictions.
pub open spec fn comment_directive(c: CommentView) -> Option<DirectiveView> {
    directive_of_comment(c.kind, c.value, c.loc.start.line == c.loc.end.line)
}

/// The disable kinds that must name at least one rule.
pub open spec fn is_disable_kind(k: Seq<char>) -> bool {
    k == "eslint-disable"@ || k == "eslint-disable-line"@ || k == "eslint-disable-next-line"@
}

pub open spec fn unlimited_diag() -> spec_fn(CommentView) -> Option<DiagnosticView> {
    |c: CommentView|
        match comment_directive(c) {
            Some(d) => if is_disable_kind(d.kind) && d.value.len() == 0 {
                Some(
                    diag(
                        "unexpected"@,
                        DataView { kind: Some(d.kind), rule_id: None, count: None },
                        force_location(c.loc),
                    ),
                )
            } else {
                None
            },
            None => None,
        }
}

/// `no-unlimited-disable`: every `eslint-disable*` directive that disables
/// all rules.
pub open spec fn spec_no_unlimited_disable(cs: Seq<CommentView>) -> Seq<DiagnosticView> {
    filter_map(cs, unlimited_diag())
}

/// The directive of the comment at `i`, parsed.
fn directive_at(comments: &[Comment], i: usize) -> (r: Option<crate::comments::directive::ParsedDirective>)
    requires
        i < comments@.len(),
    ensures
        same_directive(r, comment_directive(comments_view(comments@)[i as int])),
{
    let c = comments[i];
    assert(comments_view(comments@)[i as int] == c@);
    let same_line = c.loc.start.line == c.loc.end.line;
    parse_directive_comment(c.kind, c.value, same_line)
}

fn is_disable_kind_exec(kind: &String) -> (r: bool)
    ensures
        r == is_disable_kind(kind@),
{
    let k = chars_of(kind.as_str());
    chars_eq_str(k.as_slice(), "eslint-disable") || chars_eq_str(k.as_slice(), "eslint-disable-line")
        || chars_eq_str(k.as_slice(), "eslint-disable-next-line")
}

/// Report every `eslint-disable*` directive that disables all rules.
pub fn no_unlimited_disable(comments: &[Comment]) -> (r: Diagnostics)
    ensures
        diagnostics_items(r) == spec_no_unlimited_disable(comments_view(comments@)),
{
    let mut diagnostics = diagnostics_new();
    let ghost cs = comments_view(comments@);
    let ghost f = unlimited_diag();
    let mut i: usize = 0;
    while i < comments.len()
        invariant
            0 <= i <= comments@.len(),
            cs == comments_view(comments@),
            f == unlimited_diag(),
            diagnostics_items(diagnostics) == filter_map(cs.take(i as int), f),
        decreases comments.len() - i,
    {
        proof {
            lemma_filter_map_step(cs, i as int, f);
        }
        match directive_at(comments, i) {
            Some(parsed) => {
                if is_disable_kind_exec(&parsed.kind) && parsed.has_empty_value() {
                    let c = comments[i];
                    assert(cs[i as int] == c@);
                    let d = make(
                        "unexpected",
                        DiagnosticData { kind: Some(parsed.kind), rule_id: None, count: None },
                        to_force_location(c.loc),
                    );
                    diagnostics_push(&mut diagnostics, d);
                }
            },
            None => {},
        }
        i += 1;
    }
    assert(cs.take(i as int) =~= cs);
    diagnostics
}

fn contains_str(list: &[&str], k: &String) -> (r: bool)
    ensures
        r == strs_view(list@).contains(k@),
{
    let mut i: usize = 0;
    while i < list.len()
        invariant
            0 <= i <= list@.len(),
            forall|j: int| 0 <= j < i ==> strs_view(list@)[j] != k@,
        decreases list.len() - i,
    {
        if str_eq(list[i], k.as_str()) {
            assert(strs_view(list@)[i as int] == k@);
            return true;
        }
        i += 1;
    }
    false
}

pub open spec fn no_use_diag(allowed: Seq<Seq<char>>) -> spec_fn(CommentView) -> Option<DiagnosticView> {
    |c: CommentView|
        match comment_directive(c) {
            Some(d) => if !allowed.contains(d.kind) {
                Some(diag("disallow"@, no_data(), force_location(c.loc)))
            } else {
                None
            },
            None => None,
        }
}

/// `no-use`: every directive comment whose kind is not allowed.
pub open spec fn spec_no_use(cs: Seq<CommentView>, allowed: Seq<Seq<char>>) -> Seq<DiagnosticView> {
    filter_map(cs, no_use_diag(allowed))
}

/// Report every directive comment whose kind is not in `allowed`.
pub fn no_use(comments: &[Comment], allowed: &[&str]) -> (r: Diagnostics)
    ensures
        diagnostics_items(r) == spec_no_use(comments_view(comments@), strs_view(allowed@)),
{
    let mut diagnostics = diagnostics_new();
    let ghost cs = comments_view(comments@);
    let ghost f = no_use_diag(strs_view(allowed@));
    let mut i: usize = 0;
    while i < comments.len()
        invariant
            0 <= i <= comments@.len(),
            cs == comments_view(comments@),
            f == no_use_diag(strs_view(allowed@)),
            diagnostics_items(diagnostics) == filter_map(cs.take(i as int), f),
        decreases comments.len() - i,
    {
        proof {
            lemma_filter_map_step(cs, i as int, f);
        }
        match directive_at(comments, i) {
            Some(parsed) => {
                if !contains_str(allowed, &parsed.kind) {
                    let c = comments[i];
                    assert(cs[i as int] == c@);
                    let d = make(
                        "disallow",
                        DiagnosticData { kind: None, rule_id: None, count: None },
                        to_force_location(c.loc),
                    );
                    diagnostics_push(&mut diagnostics, d);
                }
            },
            None => {},
        }
        i += 1;
    }
    assert(cs.take(i as int) =~= cs);
    diagnostics
}

pub open spec fn description_diag(ignored: Seq<Seq<char>>) -> spec_fn(CommentView) -> Option<
    DiagnosticView,
> {
    |c: CommentView|
        match comment_directive(c) {
            Some(d) => if !ignored.contains(d.kind) && !(d.description matches Some(t) && t.len()
                > 0) {
                Some(diag("missingDescription"@, no_data(), force_location(c.loc)))
            } else {
                None
            },
            None => None,
        }
}

/// `require-description`: every directive comment, of a kind not ignored,
/// without a non-empty ` -- description`.
pub open spec fn spec_require_description(cs: Seq<CommentView>, ignored: Seq<Seq<char>>) -> Seq<
    DiagnosticView,
> {
    filter_map(cs, description_diag(ignored))
}

/// Report directive comments without a description, unless their kind is ignored.
pub fn require_description(comments: &[Comment], ignored: &[&str]) -> (r: Diagnostics)
    ensures
        diagnostics_items(r) == spec_require_description(
            comments_view(comments@),
            strs_view(ignored@),
        ),
{
    let mut diagnostics = diagnostics_new();
    let ghost cs = comments_view(comments@);
    let ghost f = description_diag(strs_view(ignored@));
    let mut i: usize = 0;
    while i < comments.len()
        invariant
            0 <= i <= comments@.len(),
            cs == comments_view(comments@),
            f == description_diag(strs_view(ignored@)),
            diagnostics_items(diagnostics) == filter_map(cs.take(i as int), f),
        decreases comments.len() - i,
    {
        proof {
            lemma_filter_map_step(cs, i as int, f);
        }
        match directive_at(comments, i) {
            Some(parsed) => {
                if !contains_str(ignored, &parsed.kind) {
                    let has_description = match &parsed.description {
                        Some(d) => !d.as_str().is_empty(),
                        None => false,
                    };
                    if !has_description {
                        let c = comments[i];
                        assert(cs[i as int] == c@);
                        let d = make(
                            "missingDescription",
                            DiagnosticData { kind: None, rule_id: None, count: None },
                            to_force_location(c.loc),
                        );
                        diagnostics_push(&mut diagnostics, d);
                    }
                }
            },
            None => {},
        }
        i += 1;
    }
    assert(cs.take(i as int) =~= cs);
    diagnostics
}

/// The rule and position of a reported problem.
pub open spec fn problem_rule(p: Problem) -> Option<Seq<char>> {
    match p.rule_id {
        Some(s) => Some(s@),
        None => None,
    }
}

/// `p` is a problem that area `a` suppresses.
pub open spec fn suppresses(a: AreaView, p: Problem) -> bool {
    &&& (a.rule_id matches Some(r) ==> problem_rule(p) == Some(r))
    &&& spec_lte(a.start, p.position)
    &&& (a.end matches Some(e) ==> spec_lte(p.position, e))
}

pub open spec fn unused_disable_diag(cs: Seq<CommentView>, problems: Seq<Problem>) -> spec_fn(
    AreaView,
) -> Option<DiagnosticView> {
    |a: AreaView|
        if exists|j: int| 0 <= j < problems.len() && suppresses(a, #[trigger] problems[j]) {
            None
        } else {
            Some(
                diag(
                    rule_msg(a.rule_id, "unusedRule"@, "unused"@),
                    rule_data(a.rule_id),
                    loc_of(cs, a.comment, a.rule_id),
                ),
            )
        }
}

/// `no-unused-disable`: every disabled area whose range contains no problem
/// of its rule.
pub open spec fn spec_no_unused_disable(cs: Seq<CommentView>, problems: Seq<Problem>) -> Seq<
    DiagnosticView,
> {
    filter_map(build(cs).areas, unused_disable_diag(cs, problems))
}

fn suppresses_exec(area: &crate::comments::disabled_area::Area, p: &Problem) -> (r: bool)
    ensures
        r == suppresses(area@, *p),
{
    let rule_matches = match &area.rule_id {
        None => true,
        Some(rule_id) => match p.rule_id {
            Some(pr) => str_eq(pr, rule_id.as_str()),
            None => false,
        },
    };
    let within = lte(area.start, p.position) && match area.end {
        None => true,
        Some(end) => lte(p.position, end),
    };
    rule_matches && within
}

/// Report each disable directive whose range contains no matching problem.
pub fn no_unused_disable(comments: &[Comment], problems: &[Problem]) -> (r: Diagnostics)
    requires
        comments_fit(comments_view(comments@)),
    ensures
        diagnostics_items(r) == spec_no_unused_disable(comments_view(comments@), problems@),
{
    let mut diagnostics = diagnostics_new();
    let state = build_disabled_area(comments);
    let ghost cs = comments_view(comments@);
    let ghost f = unused_disable_diag(cs, problems@);
    let mut i: usize = 0;
    while i < state.areas.len()
        invariant
            0 <= i <= state.areas@.len(),
            cs == comments_view(comments@),
            comments_fit(cs),
            state@ == build(cs),
            comments_below(state@, comments@.len() as int),
            f == unused_disable_diag(cs, problems@),
            diagnostics_items(diagnostics) == filter_map(state@.areas.take(i as int), f),
        decreases state.areas.len() - i,
    {
        proof {
            lemma_filter_map_step(state@.areas, i as int, f);
        }
        let area = &state.areas[i];
        assert(state@.areas[i as int] == area@);
        let mut suppressed = false;
        let mut j: usize = 0;
        while j < problems.len()
            invariant
                0 <= j <= problems@.len(),
                suppressed == exists|k: int| 0 <= k < j && suppresses(area@, #[trigger] problems@[k]),
            decreases problems.len() - j,
        {
            if suppresses_exec(area, &problems[j]) {
                suppressed = true;
            }
            j += 1;
        }
        if !suppressed {
            let loc = locate(comments, area.comment, &area.rule_id);
            let message_id = if area.rule_id.is_some() {
                "unusedRule"
            } else {
                "unused"
            };
            let d = make(message_id, data_of_rule(&area.rule_id), loc);
            diagnostics_push(&mut diagnostics, d);
        }
        i += 1;
    }
    assert(state@.areas.take(i as int) =~= state@.areas);
    diagnostics
}


pub open spec fn restricted_diag(cs: Seq<CommentView>, patterns: Seq<Seq<char>>) -> spec_fn(
    AreaView,
) -> Option<DiagnosticView> {
    |a: AreaView|
        match a.rule_id {
            None => Some(
                diag(
                    "disallow"@,
                    rule_data(Some(join_commas(patterns))),
                    loc_of(cs, a.comment, None),
                ),
            ),
            Some(r) => if restricted_by(patterns, r) {
                Some(diag("disallow"@, rule_data(Some(r)), loc_of(cs, a.comment, Some(r))))
            } else {
                None
            },
        }
}

/// `no-restricted-disable`: each disabled rule that the pattern list
/// restricts, and each whole-file disable (reported with the joined
/// patterns); nothing when there is no pattern.
pub open spec fn spec_no_restricted_disable(cs: Seq<CommentView>, patterns: Seq<Seq<char>>) -> Seq<
    DiagnosticView,
> {
    if patterns.len() == 0 {
        Seq::empty()
    } else {
        filter_map(build(cs).areas, restricted_diag(cs, patterns))
    }
}

/// Report each disabled rule that the pattern list restricts (including
/// whole-file disables, which have no rule id).
pub fn no_restricted_disable(comments: &[Comment], patterns: &[&str]) -> (r: Diagnostics)
    requires
        comments_fit(comments_view(comments@)),
    ensures
        diagnostics_items(r) == spec_no_restricted_disable(
            comments_view(comments@),
            strs_view(patterns@),
        ),
{
    let mut diagnostics = diagnostics_new();
    if patterns.len() == 0 {
        return diagnostics;
    }
    let state = build_disabled_area(comments);
    let ghost cs = comments_view(comments@);
    let ghost f = restricted_diag(cs, strs_view(patterns@));
    let mut i: usize = 0;
    while i < state.areas.len()
        invariant
            0 <= i <= state.areas@.len(),
            cs == comments_view(comments@),
            comments_fit(cs),
            state@ == build(cs),
            comments_below(state@, comments@.len() as int),
            f == restricted_diag(cs, strs_view(patterns@)),
            diagnostics_items(diagnostics) == filter_map(state@.areas.take(i as int), f),
        decreases state.areas.len() - i,
    {
        proof {
            lemma_filter_map_step(state@.areas, i as int, f);
        }
        let area = &state.areas[i];
        assert(state@.areas[i as int] == area@);
        let restricted = match &area.rule_id {
            None => true,
            Some(rule_id) => {
                let r = chars_of(rule_id.as_str());
                is_restricted(patterns, r.as_slice())
            },
        };
        if restricted {
            let loc = locate(comments, area.comment, &area.rule_id);
            let rule_id = match &area.rule_id {
                Some(rule_id) => rule_id.clone(),
                None => joined_patterns(patterns),
            };
            let d = make(
                "disallow",
                DiagnosticData { kind: None, rule_id: Some(rule_id), count: None },
                loc,
            );
            diagnostics_push(&mut diagnostics, d);
        }
        i += 1;
    }
    assert(state@.areas.take(i as int) =~= state@.areas);
    diagnostics
}

} // verus!
