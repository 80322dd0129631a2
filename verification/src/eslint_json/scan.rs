//! The JSON scan: parse, run the selected rules, and put the reports in
//! source order.
use vstd::prelude::*;
use crate::text::{byte_len, chars_of};
use crate::astro::report::runs;
use super::options::ScanOptions;
use super::numbers::NumberClass;
use super::facts::{ParsedFacts, Diagnostic, DiagnosticView, diagnostics_view, facts_wf, span_wf};
use super::checks::{duplicate_reports, empty_key_reports, scan_no_duplicate_keys, scan_no_empty_keys, objects_wf};
use super::values::{
    unnormalized_reports, number_reports, string_reports, top_level_reports, scan_no_unnormalized_keys,
    scan_numbers, scan_strings, scan_top_level_interop, numbers_wf, strings_wf,
};
use super::sort_keys::{sort_reports, scan_sort_keys, comments_wf};
use super::parser::{parse_json, numbers_as_written};
use super::reading::{parsed, facts_view};

verus! {

/// The reports of `rule` when it runs, else none.
pub open spec fn when_runs(names: Seq<String>, rule: &'static str, reports: Seq<DiagnosticView>) -> Seq<DiagnosticView> {
    if runs(names, rule) {
        reports
    } else {
        Seq::empty()
    }
}

/// The reports of the selected rules, rule by rule in the published order,
/// `classes[i]` being what the float parse of number `i` gave.
pub open spec fn json_reports(t: Seq<char>, f: ParsedFacts, o: ScanOptions, classes: Seq<NumberClass>) -> Seq<DiagnosticView> {
    let names = o.rule_names@;
    when_runs(names, "no-duplicate-keys", duplicate_reports(t, f.objects@))
        + when_runs(names, "no-empty-keys", empty_key_reports(t, f.objects@))
        + when_runs(names, "no-unnormalized-keys", unnormalized_reports(t, f.objects@, o.normalization_form))
        + when_runs(names, "no-unsafe-values", number_reports(t, f.numbers@, classes) + string_reports(t, f.strings@))
        + when_runs(names, "sort-keys", sort_reports(t, f.comments@, f.objects@, o.sort))
        + when_runs(names, "top-level-interop", top_level_reports(t, f.top_level))
}

/// Whether `a` starts after `b`: on a later line, or later on the same
/// line.
pub open spec fn starts_after(a: DiagnosticView, b: DiagnosticView) -> bool {
    ||| a.loc.start_line > b.loc.start_line
    ||| a.loc.start_line == b.loc.start_line && a.loc.start_column > b.loc.start_column
}

/// The first index of `r` from `i` whose report starts after `x`.
pub open spec fn insertion_point(r: Seq<DiagnosticView>, x: DiagnosticView, i: int) -> int
    decreases r.len() - i,
{
    if i >= r.len() || starts_after(r[i], x) {
        i
    } else {
        insertion_point(r, x, i + 1)
    }
}

/// `ds` by start position; reports that start at the same place keep
/// their order.
pub open spec fn in_source_order(ds: Seq<DiagnosticView>) -> Seq<DiagnosticView>
    decreases ds.len(),
{
    if ds.len() == 0 {
        Seq::empty()
    } else {
        let r = in_source_order(ds.drop_last());
        r.insert(insertion_point(r, ds.last(), 0), ds.last())
    }
}

/// Puts reports in source order, stably.
pub fn sort_by_position(ds: Vec<Diagnostic>) -> (r: Vec<Diagnostic>)
    ensures
        diagnostics_view(r@) == in_source_order(diagnostics_view(ds@)),
{
    let ghost all = diagnostics_view(ds@);
    let mut r: Vec<Diagnostic> = Vec::new();
    let mut rest = ds;
    let mut i: usize = 0;
    let n0 = rest.len();
    let ghost total = all.len();
    while rest.len() > 0
        invariant
            i + rest@.len() == total,
            total == n0,
            total == all.len(),
            forall|k: int| 0 <= k < rest@.len() ==> #[trigger] rest@[k]@ == all[i + k],
            diagnostics_view(r@) == in_source_order(all.take(i as int)),
        decreases rest@.len(),
    {
        let d = rest.remove(0);
        assert(d@ == all[i as int]);
        assert(all.take(i + 1).drop_last() =~= all.take(i as int));
        let ghost rv = diagnostics_view(r@);
        let mut p: usize = 0;
        while p < r.len() && !(r[p].loc.start_line > d.loc.start_line || (r[p].loc.start_line == d.loc.start_line && r[p].loc.start_column > d.loc.start_column))
            invariant
                p <= r@.len(),
                rv == diagnostics_view(r@),
                insertion_point(rv, d@, 0) == insertion_point(rv, d@, p as int),
            decreases r@.len() - p,
        {
            p = p + 1;
        }
        r.insert(p, d);
        assert(diagnostics_view(r@) =~= rv.insert(p as int, d@));
        i = i + 1;
    }
    assert(all.take(total as int) =~= all);
    r
}

/// Runs the selected rules on parsed facts, `classes[i]` being what the
/// float parse of number `i` gave, and puts the reports in source order.
pub fn scan_parsed(t: &[char], facts: &ParsedFacts, options: &ScanOptions, classes: &Vec<NumberClass>) -> (r: Vec<Diagnostic>)
    requires
        facts_wf(*facts, t@.len() as int),
        classes@.len() == facts.numbers@.len(),
        byte_len(t@) < u32::MAX,
    ensures
        diagnostics_view(r@) == in_source_order(json_reports(t@, *facts, *options, classes@)),
{
    let mut out: Vec<Diagnostic> = Vec::new();
    let ghost names = options.rule_names@;
    assert(objects_wf(facts.objects@, t@.len() as int));
    assert(numbers_wf(facts.numbers@, t@.len() as int));
    assert(strings_wf(facts.strings@, t@.len() as int));
    assert(comments_wf(facts.comments@, t@.len() as int));
    let ghost v0 = diagnostics_view(out@);
    if options.is_enabled("no-duplicate-keys") {
        scan_no_duplicate_keys(t, &facts.objects, &mut out);
    }
    let ghost v1 = diagnostics_view(out@);
    assert(v1 =~= v0 + when_runs(names, "no-duplicate-keys", duplicate_reports(t@, facts.objects@)));
    if options.is_enabled("no-empty-keys") {
        scan_no_empty_keys(t, &facts.objects, &mut out);
    }
    let ghost v2 = diagnostics_view(out@);
    assert(v2 =~= v1 + when_runs(names, "no-empty-keys", empty_key_reports(t@, facts.objects@)));
    if options.is_enabled("no-unnormalized-keys") {
        scan_no_unnormalized_keys(t, &facts.objects, options.normalization_form, &mut out);
    }
    let ghost v3 = diagnostics_view(out@);
    assert(v3 =~= v2 + when_runs(names, "no-unnormalized-keys", unnormalized_reports(t@, facts.objects@, options.normalization_form)));
    if options.is_enabled("no-unsafe-values") {
        scan_numbers(t, &facts.numbers, classes, &mut out);
        scan_strings(t, &facts.strings, &mut out);
    }
    let ghost v4 = diagnostics_view(out@);
    assert(v4 =~= v3 + when_runs(names, "no-unsafe-values", number_reports(t@, facts.numbers@, classes@) + string_reports(t@, facts.strings@)));
    if options.is_enabled("sort-keys") {
        scan_sort_keys(t, &facts.objects, &facts.comments, &options.sort, &mut out);
    }
    let ghost v5 = diagnostics_view(out@);
    assert(v5 =~= v4 + when_runs(names, "sort-keys", sort_reports(t@, facts.comments@, facts.objects@, options.sort)));
    if options.is_enabled("top-level-interop") {
        scan_top_level_interop(t, facts.top_level, &mut out);
    }
    let ghost v6 = diagnostics_view(out@);
    assert(v6 =~= v5 + when_runs(names, "top-level-interop", top_level_reports(t@, facts.top_level)));
    assert(v6 =~= json_reports(t@, *facts, *options, classes@));
    sort_by_position(out)
}

/// Whether `classify`, given a text `raw`, may answer `c`.
pub open spec fn classified<F: Fn(&str) -> NumberClass>(classify: F, raw: Seq<char>, c: NumberClass) -> bool {
    exists|s: &str| #![trigger classify.ensures((s,), c)] s@ == raw && classify.ensures((s,), c)
}

/// Scans a JSON or JSON5 source: `classify` parses a number's text as a
/// float and tells what came out. Nothing is reported for a source whose
/// top-level value does not parse; otherwise the reports are those of the
/// selected rules on what the parser found, in source order.
pub fn scan_eslint_json_with<F: Fn(&str) -> NumberClass>(source_text: &str, options: &ScanOptions, classify: F) -> (r: Vec<Diagnostic>)
    requires
        byte_len(source_text@) < u32::MAX,
        forall|s: &str| classify.requires((s,)),
    ensures
        parsed(source_text@).0 is None ==> r@.len() == 0,
        parsed(source_text@).0 is Some ==> exists|f: ParsedFacts, classes: Seq<NumberClass>|
            #![trigger json_reports(source_text@, f, *options, classes)]
            {
                &&& facts_view(f) == parsed(source_text@).1.facts
                &&& facts_wf(f, source_text@.len() as int)
                &&& numbers_as_written(f, source_text@)
                &&& classes.len() == f.numbers@.len()
                &&& forall|i: int| 0 <= i < classes.len() ==> classified(classify, (#[trigger] f.numbers@[i]).raw@, classes[i])
                &&& diagnostics_view(r@) == in_source_order(json_reports(source_text@, f, *options, classes))
            },
{
    let t = chars_of(source_text);
    assert(t@ == source_text@);
    let facts = match parse_json(t.as_slice()) {
        Some(f) => f,
        None => {
            return Vec::new();
        },
    };
    let mut classes: Vec<NumberClass> = Vec::new();
    let mut i: usize = 0;
    while i < facts.numbers.len()
        invariant
            i <= facts.numbers@.len(),
            classes@.len() == i,
            forall|s: &str| classify.requires((s,)),
            forall|k: int| 0 <= k < i ==> classified(classify, (#[trigger] facts.numbers@[k]).raw@, classes@[k]),
        decreases facts.numbers@.len() - i,
    {
        let raw = facts.numbers[i].raw.as_str();
        let c = classify(raw);
        let ghost before = classes@;
        classes.push(c);
        assert(classes@ == before.push(c));
        assert(classified(classify, raw@, c));
        assert forall|k: int| 0 <= k < i + 1 implies classified(classify, (#[trigger] facts.numbers@[k]).raw@, classes@[k]) by {
            if k < i {
                assert(classes@[k] == before[k]);
            }
        }
        i = i + 1;
    }
    let r = scan_parsed(t.as_slice(), &facts, options, &classes);
    assert(t@ == source_text@);
    assert(diagnostics_view(r@) == in_source_order(json_reports(source_text@, facts, *options, classes@)));
    r
}

} // verus!
