//! What holds of directive comments for every input: the order of
//! positions, forced locations, rule patterns, restriction lists, rule-id
//! lists and trimming.
use vstd::prelude::*;
use crate::text::{is_ws, trim, trim_start, trim_end};
use super::loc::{Location, Position, spec_lte, force_location};
use super::glob::{glob, no_star, no_slash, pattern_matches_spec, restricted_by};
use super::disabled_area::{words, is_value_sep, build};
use super::rules::{filter_map, pair_diag, spec_disable_enable_pair, spec_no_unused_disable, unused_disable_diag, problem_rule, loc_of};
use super::{DiagnosticView, Problem, CommentView};

verus! {

/// Positions are totally preordered: every position is at or before
/// itself, any two are ordered one way or the other, and the order chains.
pub proof fn law_positions_are_totally_ordered(a: Position, b: Position, c: Position)
    ensures
        spec_lte(a, a),
        spec_lte(a, b) || spec_lte(b, a),
        spec_lte(a, b) && spec_lte(b, c) ==> spec_lte(a, c),
{
}

/// Forcing a location to the start of its line keeps its line and its end,
/// and forcing it again changes nothing.
pub proof fn law_forcing_a_location_is_idempotent(location: Location)
    ensures
        force_location(force_location(location)) == force_location(location),
        force_location(location).start.line == location.start.line,
        force_location(location).end == location.end,
{
}

/// A pattern without `*` matches exactly the text equal to it.
pub proof fn law_literal_pattern_matches_only_itself(p: Seq<char>, t: Seq<char>)
    requires
        no_star(p, 0, p.len() as int),
    ensures
        glob(p, t) <==> p == t,
    decreases p.len(),
{
    if p.len() > 0 && t.len() > 0 {
        law_literal_pattern_matches_only_itself(p.drop_first(), t.drop_first());
        if p[0] == t[0] && p.drop_first() == t.drop_first() {
            assert(p =~= seq![p[0]] + p.drop_first());
            assert(t =~= seq![t[0]] + t.drop_first());
        }
        if p == t {
            assert(p.drop_first() =~= t.drop_first());
        }
    } else if p.len() > 0 {
        assert(p != t);
    } else if t.len() > 0 {
        assert(p != t);
    } else {
        assert(p =~= t);
    }
}

/// A lone `*` matches a text exactly when it holds no `/`.
pub proof fn law_star_matches_one_segment(t: Seq<char>)
    ensures
        glob(seq!['*'], t) <==> no_slash(t, 0, t.len() as int),
    decreases t.len(),
{
    let p = seq!['*'];
    assert(p.drop_first() =~= Seq::<char>::empty());
    if t.len() > 0 {
        let rest = t.drop_first();
        law_star_matches_one_segment(rest);
        assert(!glob(p.drop_first(), t));
        assert(glob(p, t) == (t[0] != '/' && glob(p, rest)));
        assert(no_slash(t, 0, t.len() as int) == (t[0] != '/' && no_slash(rest, 0, rest.len() as int))) by {
            if no_slash(t, 0, t.len() as int) {
                assert forall|k: int| 0 <= k < rest.len() implies rest[k] != '/' by {
                    assert(rest[k] == t[k + 1]);
                }
            }
            if t[0] != '/' && no_slash(rest, 0, rest.len() as int) {
                assert forall|k: int| 0 <= k < t.len() implies t[k] != '/' by {
                    if k > 0 {
                        assert(rest[k - 1] == t[k]);
                    }
                }
            }
        }
    } else {
        assert(glob(p.drop_first(), t));
    }
}

/// The last pattern that matches a rule id decides: a plain pattern
/// restricts it, a `!` pattern frees it, whatever came before.
pub proof fn law_last_matching_pattern_decides(patterns: Seq<Seq<char>>, body: Seq<char>, rule_id: Seq<char>)
    requires
        !(body.len() > 0 && body[0] == '!'),
        pattern_matches_spec(body, rule_id),
    ensures
        restricted_by(patterns.push(body), rule_id),
        !restricted_by(patterns.push(seq!['!'] + body), rule_id),
{
    assert(patterns.push(body).last() == body);
    assert(patterns.push(body).drop_last() =~= patterns);
    let negated = seq!['!'] + body;
    assert(negated.drop_first() =~= body);
    assert(patterns.push(negated).last() == negated);
    assert(patterns.push(negated).drop_last() =~= patterns);
}

/// A pattern that does not match a rule id leaves the decision to the
/// patterns before it.
pub proof fn law_unmatched_pattern_changes_nothing(patterns: Seq<Seq<char>>, p: Seq<char>, rule_id: Seq<char>)
    requires
        !pattern_matches_spec(if p.len() > 0 && p[0] == '!' { p.drop_first() } else { p }, rule_id),
    ensures
        restricted_by(patterns.push(p), rule_id) == restricted_by(patterns, rule_id),
{
    assert(patterns.push(p).last() == p);
    assert(patterns.push(p).drop_last() =~= patterns);
}

/// The rule ids of a directive value are non-empty and hold no separator
/// (whitespace or comma).
pub proof fn law_rule_ids_are_words(v: Seq<char>)
    ensures
        forall|i: int| 0 <= i < words(v).len() ==> (#[trigger] words(v)[i]).len() > 0,
        forall|i: int, k: int|
            0 <= i < words(v).len() && 0 <= k < words(v)[i].len() ==> !is_value_sep(#[trigger] words(v)[i][k]),
    decreases v.len(),
{
    if v.len() > 0 {
        law_rule_ids_are_words(v.drop_last());
        let prev = words(v.drop_last());
        let c = v.last();
        if !is_value_sep(c) && !(v.len() == 1 || is_value_sep(v[v.len() - 2])) {
            assert(prev.len() > 0) by {
                lemma_words_nonempty_after_word_char(v.drop_last());
            }
            let w = words(v);
            assert forall|i: int, k: int| 0 <= i < w.len() && 0 <= k < w[i].len() implies !is_value_sep(#[trigger] w[i][k]) by {
                if i == w.len() - 1 {
                    if k < prev.last().len() {
                        assert(w[i][k] == prev[i][k]);
                    }
                } else {
                    assert(w[i] == prev[i]);
                }
            }
        } else if !is_value_sep(c) {
            let w = words(v);
            assert forall|i: int, k: int| 0 <= i < w.len() && 0 <= k < w[i].len() implies !is_value_sep(#[trigger] w[i][k]) by {
                if i < prev.len() {
                    assert(w[i] == prev[i]);
                }
            }
        }
    }
}

/// A value that ends with a non-separator has a last word.
proof fn lemma_words_nonempty_after_word_char(v: Seq<char>)
    requires
        v.len() > 0,
        !is_value_sep(v.last()),
    ensures
        words(v).len() > 0,
    decreases v.len(),
{
    if v.len() > 1 && !is_value_sep(v[v.len() - 2]) {
        assert(v.drop_last().last() == v[v.len() - 2]);
        lemma_words_nonempty_after_word_char(v.drop_last());
    }
}

proof fn lemma_trim_start_idempotent(s: Seq<char>)
    ensures
        trim_start(trim_start(s)) == trim_start(s),
        trim_start(s).len() > 0 ==> !is_ws(trim_start(s)[0]),
    decreases s.len(),
{
    if s.len() > 0 && is_ws(s[0]) {
        lemma_trim_start_idempotent(s.drop_first());
    }
}

proof fn lemma_trim_end_idempotent(s: Seq<char>)
    ensures
        trim_end(trim_end(s)) == trim_end(s),
        trim_end(s).len() > 0 ==> !is_ws(trim_end(s).last()),
    decreases s.len(),
{
    if s.len() > 0 && is_ws(s.last()) {
        lemma_trim_end_idempotent(s.drop_last());
    }
}

/// Trimming the end of a text that starts with a non-space leaves it
/// starting with that character.
proof fn lemma_trim_end_keeps_start(s: Seq<char>)
    requires
        s.len() > 0 ==> !is_ws(s[0]),
    ensures
        trim_end(s).len() > 0 ==> !is_ws(trim_end(s)[0]),
        trim_end(s).len() > 0 ==> trim_end(s)[0] == s[0],
        trim_end(s).len() <= s.len(),
    decreases s.len(),
{
    if s.len() > 0 && is_ws(s.last()) {
        lemma_trim_end_keeps_start(s.drop_last());
    }
}

/// Trimming twice trims no more than trimming once; the trimmed text starts
/// and ends with a non-space.
pub proof fn law_trim_is_idempotent(s: Seq<char>)
    ensures
        trim(trim(s)) == trim(s),
        trim(s).len() > 0 ==> !is_ws(trim(s)[0]) && !is_ws(trim(s).last()),
{
    let a = trim_start(s);
    lemma_trim_start_idempotent(s);
    lemma_trim_end_keeps_start(a);
    lemma_trim_end_idempotent(a);
    let b = trim_end(a);
    assert(trim_start(b) == b) by {
        if b.len() > 0 {
            assert(!is_ws(b[0]));
        }
    }
    assert(trim(b) == trim_end(trim_start(b)));
}

/// An item that `f` maps to a value keeps that value in `filter_map`.
proof fn lemma_filter_map_keeps<A>(s: Seq<A>, f: spec_fn(A) -> Option<DiagnosticView>, k: int)
    requires
        0 <= k < s.len(),
        f(s[k]) is Some,
    ensures
        filter_map(s, f).contains(f(s[k])->0),
    decreases s.len(),
{
    let prev = filter_map(s.drop_last(), f);
    if k == s.len() - 1 {
        let d = f(s.last())->0;
        assert(filter_map(s, f) == prev.push(d));
        assert(filter_map(s, f)[prev.len() as int] == d);
    } else {
        assert(s.drop_last()[k] == s[k]);
        lemma_filter_map_keeps(s.drop_last(), f, k);
        let j = choose|j: int| 0 <= j < prev.len() && prev[j] == f(s[k])->0;
        match f(s.last()) {
            Some(d) => {
                assert(filter_map(s, f)[j] == prev[j]);
            },
            None => {},
        }
    }
}

/// `disable-enable-pair` with whole-file disables allowed and a first token
/// at `first`: a disabled area that is never enabled and starts strictly
/// after the first token is reported, at its comment, as a missing pair.
pub proof fn law_unclosed_disable_after_first_token_is_reported(cs: Seq<CommentView>, first: Position, k: int)
    requires
        0 <= k < build(cs).areas.len(),
        build(cs).areas[k].end is None,
        !spec_lte(build(cs).areas[k].start, first),
    ensures
        ({
            let a = build(cs).areas[k];
            exists|d: DiagnosticView|
                #![trigger spec_disable_enable_pair(cs, true, Some(first)).contains(d)]
                spec_disable_enable_pair(cs, true, Some(first)).contains(d)
                && d.loc == loc_of(cs, a.comment, a.rule_id)
                && d.data.rule_id == a.rule_id
                && d.message_id == if a.rule_id is Some { "missingRulePair"@ } else { "missingPair"@ }
        }),
{
    let f = pair_diag(cs, true, Some(first));
    let areas = build(cs).areas;
    assert(f(areas[k]) is Some);
    lemma_filter_map_keeps(areas, f, k);
    let d = f(areas[k])->0;
    assert(spec_disable_enable_pair(cs, true, Some(first)).contains(d));
}

/// `no-unused-disable`: a disabled area closed by an enable at `e`, none of
/// whose rule's problems lies between its start and `e`, is reported as
/// unused, at its comment; in particular a problem after the enable does not
/// count as one it suppresses.
pub proof fn law_problem_after_enable_does_not_use_disable(cs: Seq<CommentView>, problems: Seq<Problem>, k: int, e: Position)
    requires
        0 <= k < build(cs).areas.len(),
        build(cs).areas[k].end == Some(e),
        forall|j: int| 0 <= j < problems.len() ==> {
            let p = #[trigger] problems[j];
            let a = build(cs).areas[k];
            ||| !spec_lte(p.position, e)
            ||| !spec_lte(a.start, p.position)
            ||| (a.rule_id is Some && problem_rule(p) != a.rule_id)
        },
    ensures
        ({
            let a = build(cs).areas[k];
            exists|d: DiagnosticView|
                #![trigger spec_no_unused_disable(cs, problems).contains(d)]
                spec_no_unused_disable(cs, problems).contains(d)
                && d.loc == loc_of(cs, a.comment, a.rule_id)
                && d.data.rule_id == a.rule_id
                && d.message_id == if a.rule_id is Some { "unusedRule"@ } else { "unused"@ }
        }),
{
    let f = unused_disable_diag(cs, problems);
    let areas = build(cs).areas;
    assert(f(areas[k]) is Some) by {
        if exists|j: int| 0 <= j < problems.len() && super::rules::suppresses(areas[k], #[trigger] problems[j]) {
            let j = choose|j: int| 0 <= j < problems.len() && super::rules::suppresses(areas[k], #[trigger] problems[j]);
            let p = problems[j];
        }
    }
    lemma_filter_map_keeps(areas, f, k);
    let d = f(areas[k])->0;
    assert(spec_no_unused_disable(cs, problems).contains(d));
}

} // verus!
