//! What holds of every Astro scan: its reports come sorted by position and
//! rule and are a reordering of what the rules found, and only selected,
//! implemented rules report.
use vstd::prelude::*;
use super::report::{DiagnosticView, FixView, MemberView, FactsView, sorts_after, sorted, insertion_point, seq_less, runs, report, sat_add, member_report, member_reports, import_reports, script_reports, attr_reports, element_reports, elements_reports, set_text_count, set_text_fix, byte_at};
use super::scan::{astro_reports, expression_reports, is_segment};
use super::rules::rule_names;

verus! {

broadcast use vstd::seq_lib::group_to_multiset_ensures;

proof fn lemma_seq_less_transitive(a: Seq<char>, b: Seq<char>, c: Seq<char>)
    requires
        seq_less(a, b),
        seq_less(b, c),
    ensures
        seq_less(a, c),
    decreases a.len(),
{
    if a.len() > 0 && b.len() > 0 && c.len() > 0 && a[0] == b[0] && b[0] == c[0] {
        lemma_seq_less_transitive(a.drop_first(), b.drop_first(), c.drop_first());
    }
}

proof fn lemma_sorts_after_transitive(a: DiagnosticView, b: DiagnosticView, c: DiagnosticView)
    requires
        sorts_after(a, b),
        sorts_after(b, c),
    ensures
        sorts_after(a, c),
{
    if a.loc.start_line == b.loc.start_line && b.loc.start_line == c.loc.start_line
        && a.loc.start_column == b.loc.start_column && b.loc.start_column == c.loc.start_column {
        lemma_seq_less_transitive(c.rule_name@, b.rule_name@, a.rule_name@);
    }
}

/// No report sorts after a later one.
pub open spec fn in_order(r: Seq<DiagnosticView>) -> bool {
    forall|i: int, j: int| 0 <= i < j < r.len() ==> !sorts_after(#[trigger] r[i], #[trigger] r[j])
}

proof fn lemma_insertion_point(r: Seq<DiagnosticView>, x: DiagnosticView, i: int)
    requires
        0 <= i <= r.len(),
    ensures
        i <= insertion_point(r, x, i) <= r.len(),
        forall|k: int| i <= k < insertion_point(r, x, i) ==> !sorts_after(#[trigger] r[k], x),
        insertion_point(r, x, i) < r.len() ==> sorts_after(r[insertion_point(r, x, i)], x),
    decreases r.len() - i,
{
    if i < r.len() && !sorts_after(r[i], x) {
        lemma_insertion_point(r, x, i + 1);
    }
}

proof fn lemma_insert_in_order(r: Seq<DiagnosticView>, x: DiagnosticView)
    requires
        in_order(r),
    ensures
        in_order(r.insert(insertion_point(r, x, 0), x)),
{
    lemma_insertion_point(r, x, 0);
    let p = insertion_point(r, x, 0);
    r.insert_ensures(p, x);
    let s = r.insert(p, x);
    assert forall|i: int, j: int| 0 <= i < j < s.len() implies !sorts_after(#[trigger] s[i], #[trigger] s[j]) by {
        let bi = if i < p { i } else { i - 1 };
        let bj = if j < p { j } else { j - 1 };
        if i == p {
            assert(s[j] == r[bj]);
            if sorts_after(x, r[bj]) {
                lemma_sorts_after_transitive(r[p], x, r[bj]);
                assert(p < bj || p == bj);
                if p == bj {
                    lemma_sorts_after_transitive(r[p], x, r[p]);
                    lemma_irreflexive(r[p]);
                }
            }
        } else if j == p {
            assert(s[i] == r[bi]);
        } else {
            assert(s[i] == r[bi]);
            assert(s[j] == r[bj]);
        }
    }
}

proof fn lemma_seq_less_irreflexive(a: Seq<char>)
    ensures
        !seq_less(a, a),
    decreases a.len(),
{
    if a.len() > 0 {
        lemma_seq_less_irreflexive(a.drop_first());
    }
}

proof fn lemma_irreflexive(a: DiagnosticView)
    ensures
        !sorts_after(a, a),
{
    lemma_seq_less_irreflexive(a.rule_name@);
}

/// Sorting reports puts them in order by start line, start column and rule
/// name, and only reorders them: the same reports, as often each.
pub proof fn law_sorting_orders_and_keeps_reports(ds: Seq<DiagnosticView>)
    ensures
        in_order(sorted(ds)),
        sorted(ds).to_multiset() == ds.to_multiset(),
        sorted(ds).len() == ds.len(),
    decreases ds.len(),
{
    if ds.len() > 0 {
        let r = sorted(ds.drop_last());
        law_sorting_orders_and_keeps_reports(ds.drop_last());
        lemma_insert_in_order(r, ds.last());
        lemma_insertion_point(r, ds.last(), 0);
        vstd::seq_lib::to_multiset_insert(r, insertion_point(r, ds.last(), 0), ds.last());
        vstd::seq_lib::to_multiset_build(ds.drop_last(), ds.last());
        assert(ds.drop_last().push(ds.last()) =~= ds);
    }
}

/// Every report is of a rule that runs and that is implemented.
pub open spec fn all_selected(names: Seq<String>, ds: Seq<DiagnosticView>) -> bool {
    forall|i: int| 0 <= i < ds.len() ==> runs(names, (#[trigger] ds[i]).rule_name) && rule_names().contains(ds[i].rule_name)
}

proof fn lemma_concat_selected(names: Seq<String>, a: Seq<DiagnosticView>, b: Seq<DiagnosticView>)
    requires
        all_selected(names, a),
        all_selected(names, b),
    ensures
        all_selected(names, a + b),
{
    assert forall|i: int| 0 <= i < (a + b).len() implies runs(names, (#[trigger] (a + b)[i]).rule_name)
        && rule_names().contains((a + b)[i].rule_name) by {
        if i < a.len() {
            assert((a + b)[i] == a[i]);
        } else {
            assert((a + b)[i] == b[i - a.len()]);
        }
    }
}

proof fn lemma_report_selected(
    t: Seq<char>,
    names: Seq<String>,
    rule: &'static str,
    message: &'static str,
    start: u32,
    end: u32,
    fix: Option<FixView>,
    k: int,
)
    requires
        0 <= k < 7,
        rule_names()[k] == rule,
    ensures
        all_selected(names, report(t, names, rule, message, start, end, fix)),
{
    assert(rule_names().contains(rule));
}

proof fn lemma_member_report_selected(t: Seq<char>, names: Seq<String>, offset: u32, m: MemberView)
    ensures
        all_selected(names, member_report(t, names, offset, m)),
{
    let start = sat_add(m.start, offset);
    let end = sat_add(m.end, offset);
    let fix = match m.property_span {
        Some(p) => Some(FixView { start: sat_add(p.0, offset), end: sat_add(p.1, offset), replacement: "glob"@ }),
        None => None,
    };
    lemma_report_selected(t, names, "no-deprecated-astro-canonicalurl", "deprecated", start, end, None, 0);
    lemma_report_selected(t, names, "no-deprecated-astro-fetchcontent", "deprecated", start, end, fix, 1);
    lemma_report_selected(t, names, "no-deprecated-astro-resolve", "deprecated", start, end, None, 2);
}

proof fn lemma_member_reports_selected(t: Seq<char>, names: Seq<String>, offset: u32, ms: Seq<MemberView>)
    ensures
        all_selected(names, member_reports(t, names, offset, ms)),
    decreases ms.len(),
{
    if ms.len() > 0 {
        lemma_member_reports_selected(t, names, offset, ms.drop_last());
        lemma_member_report_selected(t, names, offset, ms.last());
        lemma_concat_selected(
            names,
            member_reports(t, names, offset, ms.drop_last()),
            member_report(t, names, offset, ms.last()),
        );
    }
}

proof fn lemma_import_reports_selected(t: Seq<char>, names: Seq<String>, offset: u32, is: Seq<(u32, u32)>)
    ensures
        all_selected(names, import_reports(t, names, offset, is)),
    decreases is.len(),
{
    if is.len() > 0 {
        lemma_import_reports_selected(t, names, offset, is.drop_last());
        let start = sat_add(is.last().0, offset);
        let end = sat_add(is.last().1, offset);
        lemma_report_selected(t, names, "no-deprecated-getentrybyslug", "deprecated", start, end, None, 3);
        lemma_concat_selected(
            names,
            import_reports(t, names, offset, is.drop_last()),
            report(t, names, "no-deprecated-getentrybyslug", "deprecated", start, end, None),
        );
    }
}

proof fn lemma_script_reports_selected(t: Seq<char>, names: Seq<String>, offset: u32, f: FactsView, shadowed: bool)
    ensures
        all_selected(names, script_reports(t, names, offset, f, shadowed)),
{
    lemma_member_reports_selected(t, names, offset, f.members);
    lemma_import_reports_selected(t, names, offset, f.entry_by_slug_imports);
    let members = if shadowed {
        Seq::<DiagnosticView>::empty()
    } else {
        member_reports(t, names, offset, f.members)
    };
    lemma_concat_selected(names, members, import_reports(t, names, offset, f.entry_by_slug_imports));
}

proof fn lemma_attr_reports_selected(t: Seq<char>, names: Seq<String>, e: super::tags::ElementView, a: super::tags::Attr)
    ensures
        all_selected(names, attr_reports(t, names, e, a)),
{
    let start = byte_at(t, a.name_start as int);
    let end = byte_at(t, a.name_end as int);
    let text_fix = if set_text_count(t, e.attrs) == 1 {
        set_text_fix(t, e, a)
    } else {
        None
    };
    let class_fix = if a.shorthand {
        FixView { start: byte_at(t, a.start as int), end: byte_at(t, a.start as int), replacement: "class:list="@ }
    } else {
        FixView { start: end, end: end, replacement: ":list"@ }
    };
    lemma_report_selected(t, names, "no-set-html-directive", "unexpected", start, end, None, 4);
    lemma_report_selected(t, names, "no-set-text-directive", "disallow", start, end, text_fix, 5);
    lemma_report_selected(t, names, "prefer-class-list-directive", "unexpected", start, end, Some(class_fix), 6);
}

proof fn lemma_element_reports_selected(t: Seq<char>, names: Seq<String>, e: super::tags::ElementView, k: int)
    ensures
        all_selected(names, element_reports(t, names, e, k)),
    decreases k,
{
    if k > 0 {
        lemma_element_reports_selected(t, names, e, k - 1);
        lemma_attr_reports_selected(t, names, e, e.attrs[k - 1]);
        lemma_concat_selected(names, element_reports(t, names, e, k - 1), attr_reports(t, names, e, e.attrs[k - 1]));
    }
}

proof fn lemma_elements_reports_selected(t: Seq<char>, names: Seq<String>, es: Seq<super::tags::ElementView>)
    ensures
        all_selected(names, elements_reports(t, names, es)),
    decreases es.len(),
{
    if es.len() > 0 {
        lemma_elements_reports_selected(t, names, es.drop_last());
        lemma_element_reports_selected(t, names, es.last(), es.last().attrs.len() as int);
        lemma_concat_selected(
            names,
            elements_reports(t, names, es.drop_last()),
            element_reports(t, names, es.last(), es.last().attrs.len() as int),
        );
    }
}

proof fn lemma_expression_reports_selected(
    t: Seq<char>,
    names: Seq<String>,
    exprs: Seq<(usize, usize)>,
    facts: Seq<Option<FactsView>>,
    shadowed: bool,
)
    ensures
        all_selected(names, expression_reports(t, names, exprs, facts, shadowed)),
    decreases exprs.len(),
{
    if exprs.len() > 0 {
        let k = exprs.len() - 1;
        lemma_expression_reports_selected(t, names, exprs.drop_last(), facts.take(k), shadowed);
        let last = if is_segment(t, exprs[k]) {
            match facts[k] {
                Some(f) => script_reports(t, names, byte_at(t, exprs[k].0 as int), f, shadowed),
                None => Seq::empty(),
            }
        } else {
            Seq::empty()
        };
        if is_segment(t, exprs[k]) {
            match facts[k] {
                Some(f) => lemma_script_reports_selected(t, names, byte_at(t, exprs[k].0 as int), f, shadowed),
                None => {},
            }
        }
        lemma_concat_selected(names, expression_reports(t, names, exprs.drop_last(), facts.take(k), shadowed), last);
    }
}

/// Every report of a scan is of an implemented rule that the options
/// select (all of them when the selection is empty).
pub proof fn law_only_selected_rules_report(
    t: Seq<char>,
    names: Seq<String>,
    frontmatter_only: bool,
    layout: (int, int, int),
    frontmatter: FactsView,
    facts: Seq<Option<FactsView>>,
)
    ensures
        all_selected(names, astro_reports(t, names, frontmatter_only, layout, frontmatter, facts)),
{
    let script = script_reports(t, names, byte_at(t, layout.0), frontmatter, false);
    lemma_script_reports_selected(t, names, byte_at(t, layout.0), frontmatter, false);
    let tv = super::template::template_of(t, layout.2);
    let template = if frontmatter_only {
        Seq::<DiagnosticView>::empty()
    } else {
        expression_reports(t, names, tv.exprs, facts, frontmatter.declares_astro) + elements_reports(t, names, tv.elements)
    };
    if !frontmatter_only {
        lemma_expression_reports_selected(t, names, tv.exprs, facts, frontmatter.declares_astro);
        lemma_elements_reports_selected(t, names, tv.elements);
        lemma_concat_selected(
            names,
            expression_reports(t, names, tv.exprs, facts, frontmatter.declares_astro),
            elements_reports(t, names, tv.elements),
        );
    }
    lemma_concat_selected(names, script, template);
    let ds = script + template;
    law_sorting_orders_and_keeps_reports(ds);
    let r = sorted(ds);
    assert forall|i: int| 0 <= i < r.len() implies runs(names, (#[trigger] r[i]).rule_name) && rule_names().contains(r[i].rule_name) by {
        assert(r.contains(r[i]));
        assert(r.to_multiset().count(r[i]) > 0);
        assert(ds.to_multiset().count(r[i]) > 0);
        assert(ds.contains(r[i]));
        let j = choose|j: int| 0 <= j < ds.len() && ds[j] == r[i];
        assert(runs(names, ds[j].rule_name) && rule_names().contains(ds[j].rule_name));
    }
}

/// A scan restricted to a name that no implemented rule has reports
/// nothing.
pub proof fn law_unknown_rule_reports_nothing(
    t: Seq<char>,
    name: String,
    frontmatter_only: bool,
    layout: (int, int, int),
    frontmatter: FactsView,
    facts: Seq<Option<FactsView>>,
)
    requires
        forall|k: int| 0 <= k < rule_names().len() ==> (#[trigger] rule_names()[k])@ != name@,
    ensures
        astro_reports(t, seq![name], frontmatter_only, layout, frontmatter, facts).len() == 0,
{
    let names = seq![name];
    law_only_selected_rules_report(t, names, frontmatter_only, layout, frontmatter, facts);
    let r = astro_reports(t, names, frontmatter_only, layout, frontmatter, facts);
    if r.len() > 0 {
        assert(runs(names, r[0].rule_name));
        assert(rule_names().contains(r[0].rule_name));
        let k = choose|k: int| 0 <= k < rule_names().len() && rule_names()[k] == r[0].rule_name;
        let i = choose|i: int| 0 <= i < names.len() && (#[trigger] names[i])@ == r[0].rule_name@;
        assert(names[i] == name);
    }
}

} // verus!
