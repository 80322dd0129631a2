//! What holds of every JSON scan: its reports come in source order and are
//! a reordering of what the rules found; only selected rules report; and
//! the key orders behave as orders.
use vstd::prelude::*;
use crate::astro::report::runs;
use super::options::{SortOptions, SortDirection};
use super::natural::{natural_order, natural_units, lemma_natural_from_swap};
use super::sort::{valid_sort_order, text_order, lemma_text_order_swap, compared_keys, key_order};
use super::facts::{DiagnosticView, MemberFact, ObjectFact, ParsedFacts};
use super::checks::{concat_upto, duplicates_in, duplicate_at, empty_keys_in, empty_key_at, duplicate_reports, empty_key_reports};
use super::values::{
    unnormalized_in, unnormalized_at, unnormalized_reports, number_reports, number_report_at,
    string_reports, surrogate_reports, top_level_reports, lone_surrogates, is_high, is_low,
};
use super::sort_keys::{sort_reports, sort_in, sort_at};
use super::scan::{json_reports, when_runs, starts_after, insertion_point, in_source_order};
use super::rules::rule_names;
use super::options::ScanOptions;
use super::numbers::NumberClass;

verus! {

broadcast use vstd::seq_lib::group_to_multiset_ensures;

/// No report starts after a later one.
pub open spec fn in_position_order(r: Seq<DiagnosticView>) -> bool {
    forall|i: int, j: int| 0 <= i < j < r.len() ==> !starts_after(#[trigger] r[i], #[trigger] r[j])
}

proof fn lemma_insertion_point(r: Seq<DiagnosticView>, x: DiagnosticView, i: int)
    requires
        0 <= i <= r.len(),
    ensures
        i <= insertion_point(r, x, i) <= r.len(),
        forall|k: int| i <= k < insertion_point(r, x, i) ==> !starts_after(#[trigger] r[k], x),
        insertion_point(r, x, i) < r.len() ==> starts_after(r[insertion_point(r, x, i)], x),
    decreases r.len() - i,
{
    if i < r.len() && !starts_after(r[i], x) {
        lemma_insertion_point(r, x, i + 1);
    }
}

proof fn lemma_insert_in_order(r: Seq<DiagnosticView>, x: DiagnosticView)
    requires
        in_position_order(r),
    ensures
        in_position_order(r.insert(insertion_point(r, x, 0), x)),
{
    lemma_insertion_point(r, x, 0);
    let p = insertion_point(r, x, 0);
    r.insert_ensures(p, x);
    let s = r.insert(p, x);
    assert forall|i: int, j: int| 0 <= i < j < s.len() implies !starts_after(#[trigger] s[i], #[trigger] s[j]) by {
        let bi = if i < p { i } else { i - 1 };
        let bj = if j < p { j } else { j - 1 };
        if i == p {
            assert(s[j] == r[bj]);
        } else if j == p {
            assert(s[i] == r[bi]);
        } else {
            assert(s[i] == r[bi]);
            assert(s[j] == r[bj]);
        }
    }
}

/// Putting reports in source order sorts them by start line and column,
/// and only reorders them: the same reports, as often each.
pub proof fn law_source_order_sorts_and_keeps_reports(ds: Seq<DiagnosticView>)
    ensures
        in_position_order(in_source_order(ds)),
        in_source_order(ds).to_multiset() == ds.to_multiset(),
        in_source_order(ds).len() == ds.len(),
    decreases ds.len(),
{
    if ds.len() > 0 {
        let r = in_source_order(ds.drop_last());
        law_source_order_sorts_and_keeps_reports(ds.drop_last());
        lemma_insert_in_order(r, ds.last());
        lemma_insertion_point(r, ds.last(), 0);
        vstd::seq_lib::to_multiset_insert(r, insertion_point(r, ds.last(), 0), ds.last());
        vstd::seq_lib::to_multiset_build(ds.drop_last(), ds.last());
        assert(ds.drop_last().push(ds.last()) =~= ds);
    }
}

/// Swapping two keys reverses their natural order, and a key is in order
/// zero with itself.
pub proof fn law_natural_order_is_antisymmetric(a: Seq<char>, b: Seq<char>)
    ensures
        natural_order(a, b) == -natural_order(b, a),
        natural_order(a, a) == 0,
{
    lemma_natural_from_swap(super::utf16::utf16_units(a), super::utf16::utf16_units(b), 0, 0);
}

/// A descending check accepts exactly the pairs that an ascending check
/// with the same other options accepts in the other order.
pub proof fn law_descending_accepts_the_swapped_pairs(previous: Seq<char>, current: Seq<char>, o: SortOptions)
    ensures
        valid_sort_order(previous, current, SortOptions { direction: SortDirection::Ascending, ..o })
            == valid_sort_order(current, previous, SortOptions { direction: SortDirection::Descending, ..o }),
{
    let asc = SortOptions { direction: SortDirection::Ascending, ..o };
    let desc = SortOptions { direction: SortDirection::Descending, ..o };
    let k1 = compared_keys(previous, current, asc);
    let k2 = compared_keys(current, previous, desc);
    assert(k1.0 == k2.1 && k1.1 == k2.0);
    law_natural_order_is_antisymmetric(k1.0, k1.1);
    lemma_text_order_swap(k1.0, k1.1);
}

/// Every report is of the rule `rule`.
pub open spec fn all_of_rule(ds: Seq<DiagnosticView>, rule: &'static str) -> bool {
    forall|i: int| 0 <= i < ds.len() ==> (#[trigger] ds[i]).rule_name == rule
}

proof fn lemma_concat_of_rule(n: int, g: spec_fn(int) -> Seq<DiagnosticView>, rule: &'static str)
    requires
        forall|k: int| 0 <= k < n ==> all_of_rule(#[trigger] g(k), rule),
    ensures
        all_of_rule(concat_upto(n, g), rule),
    decreases n,
{
    if n > 0 {
        lemma_concat_of_rule(n - 1, g, rule);
        let a = concat_upto(n - 1, g);
        let b = g(n - 1);
        assert(all_of_rule(b, rule));
        assert forall|i: int| 0 <= i < (a + b).len() implies (#[trigger] (a + b)[i]).rule_name == rule by {
            if i < a.len() {
                assert((a + b)[i] == a[i]);
            } else {
                assert((a + b)[i] == b[i - a.len()]);
            }
        }
    }
}

proof fn lemma_append_of_rule(a: Seq<DiagnosticView>, b: Seq<DiagnosticView>, rule: &'static str)
    requires
        all_of_rule(a, rule),
        all_of_rule(b, rule),
    ensures
        all_of_rule(a + b, rule),
{
    assert forall|i: int| 0 <= i < (a + b).len() implies (#[trigger] (a + b)[i]).rule_name == rule by {
        if i < a.len() {
            assert((a + b)[i] == a[i]);
        } else {
            assert((a + b)[i] == b[i - a.len()]);
        }
    }
}

proof fn lemma_rules_of_reports(t: Seq<char>, f: ParsedFacts, o: ScanOptions, classes: Seq<NumberClass>)
    ensures
        all_of_rule(duplicate_reports(t, f.objects@), "no-duplicate-keys"),
        all_of_rule(empty_key_reports(t, f.objects@), "no-empty-keys"),
        all_of_rule(unnormalized_reports(t, f.objects@, o.normalization_form), "no-unnormalized-keys"),
        all_of_rule(number_reports(t, f.numbers@, classes) + string_reports(t, f.strings@), "no-unsafe-values"),
        all_of_rule(sort_reports(t, f.comments@, f.objects@, o.sort), "sort-keys"),
        all_of_rule(top_level_reports(t, f.top_level), "top-level-interop"),
{
    let objs = f.objects@;
    assert forall|k: int| 0 <= k < objs.len() implies all_of_rule(#[trigger] duplicates_in(t, objs[k].members@), "no-duplicate-keys") by {
        let ms = objs[k].members@;
        lemma_concat_of_rule(ms.len() as int, |j: int| duplicate_at(t, ms, j), "no-duplicate-keys");
    }
    lemma_concat_of_rule(objs.len() as int, |k: int| duplicates_in(t, objs[k].members@), "no-duplicate-keys");
    assert forall|k: int| 0 <= k < objs.len() implies all_of_rule(#[trigger] empty_keys_in(t, objs[k].members@), "no-empty-keys") by {
        let ms = objs[k].members@;
        lemma_concat_of_rule(ms.len() as int, |j: int| empty_key_at(t, ms, j), "no-empty-keys");
    }
    lemma_concat_of_rule(objs.len() as int, |k: int| empty_keys_in(t, objs[k].members@), "no-empty-keys");
    let form = o.normalization_form;
    assert forall|k: int| 0 <= k < objs.len() implies all_of_rule(#[trigger] unnormalized_in(t, objs[k].members@, form), "no-unnormalized-keys") by {
        let ms = objs[k].members@;
        lemma_concat_of_rule(ms.len() as int, |j: int| unnormalized_at(t, ms, j, form), "no-unnormalized-keys");
    }
    lemma_concat_of_rule(objs.len() as int, |k: int| unnormalized_in(t, objs[k].members@, form), "no-unnormalized-keys");
    let nums = f.numbers@;
    lemma_concat_of_rule(nums.len() as int, |i: int| number_report_at(t, nums, classes, i), "no-unsafe-values");
    let strs = f.strings@;
    assert forall|i: int| 0 <= i < strs.len() implies all_of_rule(#[trigger] surrogate_reports(t, strs[i]), "no-unsafe-values") by {
        let s = strs[i];
        let lone = lone_surrogates(s.code_units@, 0);
        let r = surrogate_reports(t, s);
        assert forall|x: int| 0 <= x < r.len() implies (#[trigger] r[x]).rule_name == "no-unsafe-values" by {
            assert(r[x] == super::values::surrogate_report(t, s.span, lone[x]));
        }
    }
    lemma_concat_of_rule(strs.len() as int, |i: int| surrogate_reports(t, strs[i]), "no-unsafe-values");
    lemma_append_of_rule(number_reports(t, nums, classes), string_reports(t, strs), "no-unsafe-values");
    let comments = f.comments@;
    let so = o.sort;
    assert forall|k: int| 0 <= k < objs.len() implies all_of_rule(#[trigger] sort_in(t, comments, objs[k].members@, so), "sort-keys") by {
        let ms = objs[k].members@;
        if ms.len() >= so.min_keys {
            lemma_concat_of_rule(ms.len() as int, |j: int| sort_at(t, comments, ms, j, so), "sort-keys");
        }
    }
    lemma_concat_of_rule(objs.len() as int, |k: int| sort_in(t, comments, objs[k].members@, so), "sort-keys");
}

/// Every report is of a rule that runs and that is implemented.
pub open spec fn all_selected(names: Seq<String>, ds: Seq<DiagnosticView>) -> bool {
    forall|i: int| 0 <= i < ds.len() ==> runs(names, (#[trigger] ds[i]).rule_name) && rule_names().contains(ds[i].rule_name)
}

proof fn lemma_when_runs_selected(names: Seq<String>, rule: &'static str, k: int, ds: Seq<DiagnosticView>)
    requires
        0 <= k < 6,
        rule_names()[k] == rule,
        all_of_rule(ds, rule),
    ensures
        all_selected(names, when_runs(names, rule, ds)),
{
    assert(rule_names().contains(rule));
}

proof fn lemma_append_selected(names: Seq<String>, a: Seq<DiagnosticView>, b: Seq<DiagnosticView>)
    requires
        all_selected(names, a),
        all_selected(names, b),
    ensures
        all_selected(names, a + b),
{
    assert forall|i: int| 0 <= i < (a + b).len() implies runs(names, (#[trigger] (a + b)[i]).rule_name)
        && rule_names().contains((a + b)[i].rule_name) by {
        if i < a.len() {
            assert((a + b)[i] == a[i]);
        } else {
            assert((a + b)[i] == b[i - a.len()]);
        }
    }
}

/// Only rules that run report, and only implemented rules: with an empty
/// list every rule runs, with a list only the rules it names.
pub proof fn law_only_selected_rules_report(t: Seq<char>, f: ParsedFacts, o: ScanOptions, classes: Seq<NumberClass>)
    ensures
        all_selected(o.rule_names@, in_source_order(json_reports(t, f, o, classes))),
{
    let names = o.rule_names@;
    lemma_rules_of_reports(t, f, o, classes);
    let a = when_runs(names, "no-duplicate-keys", duplicate_reports(t, f.objects@));
    let b = when_runs(names, "no-empty-keys", empty_key_reports(t, f.objects@));
    let c = when_runs(names, "no-unnormalized-keys", unnormalized_reports(t, f.objects@, o.normalization_form));
    let d = when_runs(names, "no-unsafe-values", number_reports(t, f.numbers@, classes) + string_reports(t, f.strings@));
    let e = when_runs(names, "sort-keys", sort_reports(t, f.comments@, f.objects@, o.sort));
    let g = when_runs(names, "top-level-interop", top_level_reports(t, f.top_level));
    lemma_when_runs_selected(names, "no-duplicate-keys", 0, duplicate_reports(t, f.objects@));
    lemma_when_runs_selected(names, "no-empty-keys", 1, empty_key_reports(t, f.objects@));
    lemma_when_runs_selected(names, "no-unnormalized-keys", 2, unnormalized_reports(t, f.objects@, o.normalization_form));
    lemma_when_runs_selected(names, "no-unsafe-values", 3, number_reports(t, f.numbers@, classes) + string_reports(t, f.strings@));
    lemma_when_runs_selected(names, "sort-keys", 4, sort_reports(t, f.comments@, f.objects@, o.sort));
    lemma_when_runs_selected(names, "top-level-interop", 5, top_level_reports(t, f.top_level));
    lemma_append_selected(names, a, b);
    lemma_append_selected(names, a + b, c);
    lemma_append_selected(names, a + b + c, d);
    lemma_append_selected(names, a + b + c + d, e);
    lemma_append_selected(names, a + b + c + d + e, g);
    let all = json_reports(t, f, o, classes);
    assert(all == a + b + c + d + e + g);
    law_source_order_sorts_and_keeps_reports(all);
    let s = in_source_order(all);
    assert forall|i: int| 0 <= i < s.len() implies runs(names, (#[trigger] s[i]).rule_name) && rule_names().contains(s[i].rule_name) by {
        assert(s.to_multiset().count(s[i]) > 0);
        assert(all.to_multiset().count(s[i]) > 0);
        assert(all.contains(s[i]));
        let j = choose|j: int| 0 <= j < all.len() && all[j] == s[i];
        assert(runs(names, all[j].rule_name));
    }
}

/// Only surrogates are reported as lone, each a high one not followed by a
/// low one or a low one not after a high one.
pub proof fn law_lone_surrogates_are_surrogates(u: Seq<u16>, i: int)
    ensures
        forall|k: int| 0 <= k < lone_surrogates(u, i).len() ==> is_high(#[trigger] lone_surrogates(u, i)[k]) || is_low(lone_surrogates(u, i)[k]),
    decreases u.len() - i,
{
    if 0 <= i < u.len() {
        if is_high(u[i]) && i + 1 < u.len() && is_low(u[i + 1]) {
            law_lone_surrogates_are_surrogates(u, i + 2);
            assert(lone_surrogates(u, i) == lone_surrogates(u, i + 2));
        } else {
            law_lone_surrogates_are_surrogates(u, i + 1);
            let rest = lone_surrogates(u, i + 1);
            if is_high(u[i]) || is_low(u[i]) {
                assert(lone_surrogates(u, i) == seq![u[i]] + rest);
                assert forall|k: int| 0 <= k < lone_surrogates(u, i).len() implies is_high(#[trigger] lone_surrogates(u, i)[k]) || is_low(lone_surrogates(u, i)[k]) by {
                    if k > 0 {
                        assert(lone_surrogates(u, i)[k] == rest[k - 1]);
                    } else {
                        assert(lone_surrogates(u, i)[k] == u[i]);
                    }
                }
            } else {
                assert(lone_surrogates(u, i) == rest);
            }
        }
    }
}

/// In the order of `str`, a text comes before every longer text that
/// extends it.
pub proof fn law_prefix_comes_first(a: Seq<char>, b: Seq<char>)
    requires
        b.len() > 0,
    ensures
        text_order(a, a + b) < 0,
        text_order(a + b, a) > 0,
    decreases a.len(),
{
    if a.len() > 0 {
        assert((a + b).drop_first() =~= a.drop_first() + b);
        assert((a + b)[0] == a[0]);
        law_prefix_comes_first(a.drop_first(), b);
    } else {
        assert(a + b =~= b);
    }
}

/// In the order of `str`, the first character where two texts differ
/// decides: the text with the smaller character there comes first.
pub proof fn law_first_difference_decides(a: Seq<char>, b: Seq<char>, k: int)
    requires
        0 <= k < a.len(),
        k < b.len(),
        a.take(k) == b.take(k),
        a[k] < b[k],
    ensures
        text_order(a, b) < 0,
        text_order(b, a) > 0,
    decreases k,
{
    if k > 0 {
        assert(a[0] == a.take(k)[0] && b[0] == b.take(k)[0]);
        assert(a.drop_first().take(k - 1) =~= a.take(k).drop_first());
        assert(b.drop_first().take(k - 1) =~= b.take(k).drop_first());
        law_first_difference_decides(a.drop_first(), b.drop_first(), k - 1);
    }
}

/// A text is in the same place as itself.
pub proof fn law_equal_texts_tie(a: Seq<char>)
    ensures
        text_order(a, a) == 0,
    decreases a.len(),
{
    if a.len() > 0 {
        law_equal_texts_tie(a.drop_first());
    }
}

/// With case counting and no natural order, in ascending order a key may
/// follow any prefix of it, and may not come right before one.
pub proof fn law_prefix_key_sorts_first(a: Seq<char>, b: Seq<char>, options: SortOptions)
    requires
        b.len() > 0,
        options.case_sensitive,
        !options.natural,
        options.direction == SortDirection::Ascending,
    ensures
        valid_sort_order(a, a + b, options),
        !valid_sort_order(a + b, a, options),
{
    law_prefix_comes_first(a, b);
}

} // verus!
