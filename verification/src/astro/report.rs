//! Reports of the Astro rules: their types, the template rules on
//! elements, the script rules on what the script analysis found, and the
//! order reports come in.
use vstd::prelude::*;
use crate::text::{byte_len, trim, ends_with, str_eq, chars_of, string_from, slice_eq, trim_range, len_utf8, lemma_byte_len_take_step, lemma_byte_len_take_mono, slice_to_vec};
use crate::lines::chars_before;
use super::rules::DiagnosticLoc;
use super::tags::{Attr, AttrValue, ValueKind, attr_wf, element_wf};
use super::template::TemplateView;
use super::tags::ElementView;
use super::source::{position_at, position};
use super::template::elements_view;
use super::tags::Element;

verus! {

/// A replacement of the source bytes `start..end`.
#[derive(Clone, Debug, PartialEq, Eq)]
pub struct DiagnosticFix {
    pub start: u32,
    pub end: u32,
    pub replacement: String,
}

/// A reported rule violation; `start..end` are source bytes.
#[derive(Clone, Debug, PartialEq, Eq)]
pub struct Diagnostic {
    pub rule_name: &'static str,
    pub message_id: &'static str,
    pub start: u32,
    pub end: u32,
    pub loc: DiagnosticLoc,
    pub fix: Option<DiagnosticFix>,
}

/// Which rules run (all of them when the list is empty), and whether the
/// source is a frontmatter segment already cut out of its file.
#[derive(Clone, Debug, Default, PartialEq, Eq)]
pub struct AstroOptions {
    pub rule_names: Vec<String>,
    pub frontmatter_only: bool,
}

/// A member access whose object is the global `Astro`: the property name,
/// the access's bytes in the script and, for `Astro.name`, the name's bytes.
#[derive(Clone, Debug, PartialEq, Eq)]
pub struct MemberAccess {
    pub property: String,
    pub start: u32,
    pub end: u32,
    pub property_span: Option<(u32, u32)>,
}

/// What the analysis of one script found: whether it declares `Astro` at its
/// top level, its member accesses on the global `Astro`, and the bytes of
/// its `getEntryBySlug` imports from `astro:content`, in source order.
#[derive(Clone, Debug, Default, PartialEq, Eq)]
pub struct ScriptFacts {
    pub declares_astro: bool,
    pub members: Vec<MemberAccess>,
    pub entry_by_slug_imports: Vec<(u32, u32)>,
}

pub struct FixView {
    pub start: u32,
    pub end: u32,
    pub replacement: Seq<char>,
}

pub struct DiagnosticView {
    pub rule_name: &'static str,
    pub message_id: &'static str,
    pub start: u32,
    pub end: u32,
    pub loc: DiagnosticLoc,
    pub fix: Option<FixView>,
}

pub struct MemberView {
    pub property: Seq<char>,
    pub start: u32,
    pub end: u32,
    pub property_span: Option<(u32, u32)>,
}

pub struct FactsView {
    pub declares_astro: bool,
    pub members: Seq<MemberView>,
    pub entry_by_slug_imports: Seq<(u32, u32)>,
}

impl View for DiagnosticFix {
    type V = FixView;

    open spec fn view(&self) -> FixView {
        FixView { start: self.start, end: self.end, replacement: self.replacement@ }
    }
}

impl View for Diagnostic {
    type V = DiagnosticView;

    open spec fn view(&self) -> DiagnosticView {
        DiagnosticView {
            rule_name: self.rule_name,
            message_id: self.message_id,
            start: self.start,
            end: self.end,
            loc: self.loc,
            fix: match self.fix {
                Some(f) => Some(f@),
                None => None,
            },
        }
    }
}

impl View for MemberAccess {
    type V = MemberView;

    open spec fn view(&self) -> MemberView {
        MemberView {
            property: self.property@,
            start: self.start,
            end: self.end,
            property_span: self.property_span,
        }
    }
}

impl View for ScriptFacts {
    type V = FactsView;

    open spec fn view(&self) -> FactsView {
        FactsView {
            declares_astro: self.declares_astro,
            members: self.members@.map_values(|m: MemberAccess| m@),
            entry_by_slug_imports: self.entry_by_slug_imports@,
        }
    }
}

pub open spec fn diagnostics_view(v: Seq<Diagnostic>) -> Seq<DiagnosticView> {
    v.map_values(|d: Diagnostic| d@)
}

/// The rule named `rule` runs under `names`: the list is empty or names it.
pub open spec fn runs(names: Seq<String>, rule: &'static str) -> bool {
    names.len() == 0 || exists|i: int| 0 <= i < names.len() && (#[trigger] names[i])@ == rule@
}

/// The byte offset of character `i` of `t`.
pub open spec fn byte_at(t: Seq<char>, i: int) -> u32 {
    byte_len(t.take(i)) as u32
}

/// The location of the source bytes `start..end`.
pub open spec fn loc_of(t: Seq<char>, start: u32, end: u32) -> DiagnosticLoc {
    let s = position_at(t, chars_before(t, start as int));
    let e = position_at(t, chars_before(t, end as int));
    DiagnosticLoc {
        start_line: s.0 as u32,
        start_column: s.1 as u32,
        end_line: e.0 as u32,
        end_column: e.1 as u32,
    }
}

/// The report of `rule` over the source bytes `start..end`, if it runs.
pub open spec fn report(
    t: Seq<char>,
    names: Seq<String>,
    rule: &'static str,
    message: &'static str,
    start: u32,
    end: u32,
    fix: Option<FixView>,
) -> Seq<DiagnosticView> {
    if runs(names, rule) {
        seq![DiagnosticView { rule_name: rule, message_id: message, start, end, loc: loc_of(t, start, end), fix }]
    } else {
        Seq::empty()
    }
}

/// `a + b`, held at `u32::MAX`.
pub open spec fn sat_add(a: u32, b: u32) -> u32 {
    if a + b > u32::MAX {
        u32::MAX
    } else {
        (a + b) as u32
    }
}

/// The report of one access on the global `Astro` of a script that starts
/// at byte `offset`.
pub open spec fn member_report(t: Seq<char>, names: Seq<String>, offset: u32, m: MemberView) -> Seq<DiagnosticView> {
    let start = sat_add(m.start, offset);
    let end = sat_add(m.end, offset);
    if m.property == "canonicalURL"@ {
        report(t, names, "no-deprecated-astro-canonicalurl", "deprecated", start, end, None)
    } else if m.property == "fetchContent"@ {
        let fix = match m.property_span {
            Some(p) => Some(FixView { start: sat_add(p.0, offset), end: sat_add(p.1, offset), replacement: "glob"@ }),
            None => None,
        };
        report(t, names, "no-deprecated-astro-fetchcontent", "deprecated", start, end, fix)
    } else if m.property == "resolve"@ {
        report(t, names, "no-deprecated-astro-resolve", "deprecated", start, end, None)
    } else {
        Seq::empty()
    }
}

/// The reports of the accesses `ms` in order.
pub open spec fn member_reports(t: Seq<char>, names: Seq<String>, offset: u32, ms: Seq<MemberView>) -> Seq<DiagnosticView>
    decreases ms.len(),
{
    if ms.len() == 0 {
        Seq::empty()
    } else {
        member_reports(t, names, offset, ms.drop_last()) + member_report(t, names, offset, ms.last())
    }
}

/// The reports of the `getEntryBySlug` imports `is` in order.
pub open spec fn import_reports(t: Seq<char>, names: Seq<String>, offset: u32, is: Seq<(u32, u32)>) -> Seq<DiagnosticView>
    decreases is.len(),
{
    if is.len() == 0 {
        Seq::empty()
    } else {
        import_reports(t, names, offset, is.drop_last()) + report(
            t,
            names,
            "no-deprecated-getentrybyslug",
            "deprecated",
            sat_add(is.last().0, offset),
            sat_add(is.last().1, offset),
            None,
        )
    }
}

/// The reports of a script starting at byte `offset`; its accesses are not
/// on the global `Astro` when `shadowed`.
pub open spec fn script_reports(t: Seq<char>, names: Seq<String>, offset: u32, f: FactsView, shadowed: bool) -> Seq<DiagnosticView> {
    (if shadowed {
        Seq::empty()
    } else {
        member_reports(t, names, offset, f.members)
    }) + import_reports(t, names, offset, f.entry_by_slug_imports)
}

/// The name of attribute `a`.
pub open spec fn attr_name(t: Seq<char>, a: Attr) -> Seq<char> {
    t.subrange(a.name_start as int, a.name_end as int)
}

/// How many attributes of `attrs` are named `set:text`.
pub open spec fn set_text_count(t: Seq<char>, attrs: Seq<Attr>) -> nat
    decreases attrs.len(),
{
    if attrs.len() == 0 {
        0
    } else {
        set_text_count(t, attrs.drop_last()) + if attr_name(t, attrs.last()) == "set:text"@ {
            1nat
        } else {
            0nat
        }
    }
}

/// The element `e` with its `set:text` attribute `a` turned into children:
/// the attribute leaves the opening tag and its value becomes the element's
/// content (a template value between braces); only for an element that
/// closes itself or has nothing but whitespace as children.
pub open spec fn set_text_fix(t: Seq<char>, e: ElementView, a: Attr) -> Option<FixView> {
    match a.value {
        None => None,
        Some(v) => {
            let text = t.subrange(v.start as int, v.end as int);
            let rendered = if v.kind == ValueKind::Template {
                seq!['{'] + text + seq!['}']
            } else {
                text
            };
            let rest = t.subrange(e.open_start, a.start as int) + t.subrange(a.end as int, e.open_end);
            if e.self_closing {
                if !ends_with(rest, "/>"@) {
                    None
                } else {
                    let opened = rest.remove(rest.len() - 2);
                    Some(
                        FixView {
                            start: byte_at(t, e.open_start),
                            end: byte_at(t, e.open_end),
                            replacement: opened + rendered + "</"@ + t.subrange(e.name_start, e.name_end) + ">"@,
                        },
                    )
                }
            } else {
                match e.children {
                    None => None,
                    Some(children) => if trim(t.subrange(children.0 as int, children.1 as int)).len() > 0 {
                        None
                    } else {
                        match e.closing {
                            None => None,
                            Some(closing) => Some(
                                FixView {
                                    start: byte_at(t, e.open_start),
                                    end: byte_at(t, closing.1 as int),
                                    replacement: rest + rendered + t.subrange(closing.0 as int, closing.1 as int),
                                },
                            ),
                        }
                    },
                }
            }
        },
    }
}

/// The reports on attribute `a` of element `e`.
pub open spec fn attr_reports(t: Seq<char>, names: Seq<String>, e: ElementView, a: Attr) -> Seq<DiagnosticView> {
    let name = attr_name(t, a);
    let start = byte_at(t, a.name_start as int);
    let end = byte_at(t, a.name_end as int);
    if name == "set:html"@ {
        report(t, names, "no-set-html-directive", "unexpected", start, end, None)
    } else if name == "set:text"@ {
        let fix = if set_text_count(t, e.attrs) == 1 {
            set_text_fix(t, e, a)
        } else {
            None
        };
        report(t, names, "no-set-text-directive", "disallow", start, end, fix)
    } else if name == "class"@ && (a.shorthand || match a.value {
        Some(v) => v.kind == ValueKind::Expression || v.kind == ValueKind::Template,
        None => false,
    }) {
        let fix = if a.shorthand {
            FixView { start: byte_at(t, a.start as int), end: byte_at(t, a.start as int), replacement: "class:list="@ }
        } else {
            FixView { start: end, end: end, replacement: ":list"@ }
        };
        report(t, names, "prefer-class-list-directive", "unexpected", start, end, Some(fix))
    } else {
        Seq::empty()
    }
}

/// The reports on the first `k` attributes of element `e`.
pub open spec fn element_reports(t: Seq<char>, names: Seq<String>, e: ElementView, k: int) -> Seq<DiagnosticView>
    decreases k,
{
    if k <= 0 {
        Seq::empty()
    } else {
        element_reports(t, names, e, k - 1) + attr_reports(t, names, e, e.attrs[k - 1])
    }
}

/// The reports on the elements `es`, in order.
pub open spec fn elements_reports(t: Seq<char>, names: Seq<String>, es: Seq<ElementView>) -> Seq<DiagnosticView>
    decreases es.len(),
{
    if es.len() == 0 {
        Seq::empty()
    } else {
        elements_reports(t, names, es.drop_last()) + element_reports(
            t,
            names,
            es.last(),
            es.last().attrs.len() as int,
        )
    }
}

/// Lexicographic order of character sequences.
pub open spec fn seq_less(a: Seq<char>, b: Seq<char>) -> bool
    decreases a.len(),
{
    if b.len() == 0 {
        false
    } else if a.len() == 0 {
        true
    } else if a[0] != b[0] {
        (a[0] as u32) < (b[0] as u32)
    } else {
        seq_less(a.drop_first(), b.drop_first())
    }
}

/// `a` sorts strictly after `b`: by start line, start column, then rule.
pub open spec fn sorts_after(a: DiagnosticView, b: DiagnosticView) -> bool {
    ||| a.loc.start_line > b.loc.start_line
    ||| a.loc.start_line == b.loc.start_line && a.loc.start_column > b.loc.start_column
    ||| a.loc.start_line == b.loc.start_line && a.loc.start_column == b.loc.start_column && seq_less(b.rule_name@, a.rule_name@)
}

/// The first index of `r` whose report sorts after `x`.
pub open spec fn insertion_point(r: Seq<DiagnosticView>, x: DiagnosticView, i: int) -> int
    decreases r.len() - i,
{
    if i >= r.len() || sorts_after(r[i], x) {
        i
    } else {
        insertion_point(r, x, i + 1)
    }
}

/// `ds` in sorted order; equal keys keep their order.
pub open spec fn sorted(ds: Seq<DiagnosticView>) -> Seq<DiagnosticView>
    decreases ds.len(),
{
    if ds.len() == 0 {
        Seq::empty()
    } else {
        let r = sorted(ds.drop_last());
        r.insert(insertion_point(r, ds.last(), 0), ds.last())
    }
}

/// Whether the rule `rule` runs under `names`.
pub fn rule_runs(names: &Vec<String>, rule: &'static str) -> (r: bool)
    ensures
        r == runs(names@, rule),
{
    if names.len() == 0 {
        return true;
    }
    let mut i: usize = 0;
    while i < names.len()
        invariant
            i <= names@.len(),
            forall|j: int| 0 <= j < i ==> (#[trigger] names@[j])@ != rule@,
        decreases names@.len() - i,
    {
        if str_eq(names[i].as_str(), rule) {
            return true;
        }
        i = i + 1;
    }
    false
}

/// The byte offset of every character of `t`, and of its end.
pub fn byte_offsets(t: &[char]) -> (r: Vec<u32>)
    requires
        byte_len(t@) < u32::MAX,
    ensures
        r@.len() == t@.len() + 1,
        forall|i: int| 0 <= i <= t@.len() ==> #[trigger] r@[i] == byte_at(t@, i),
        forall|i: int| 0 <= i <= t@.len() ==> #[trigger] r@[i] as int == byte_len(t@.take(i)),
{
    let n = t.len();
    let mut r: Vec<u32> = Vec::new();
    let mut bytes: u32 = 0;
    let mut i: usize = 0;
    assert(t@.take(n as int) =~= t@);
    proof {
        crate::text::lemma_byte_len_bounds(t@);
    }
    while i <= n
        invariant
            n == t@.len(),
            n < u32::MAX,
            t@.take(n as int) == t@,
            i <= n + 1,
            byte_len(t@) < u32::MAX,
            r@.len() == i,
            i <= n ==> bytes == byte_len(t@.take(i as int)),
            forall|j: int| 0 <= j < i ==> #[trigger] r@[j] as int == byte_len(t@.take(j)),
        decreases n + 1 - i,
    {
        proof {
            crate::text::lemma_byte_len_take_mono(t@, i as int, n as int);
        }
        r.push(bytes);
        if i < n {
            proof {
                lemma_byte_len_take_step(t@, i as int);
                crate::text::lemma_byte_len_take_mono(t@, i + 1, n as int);
            }
            bytes = bytes + len_utf8(t[i]) as u32;
        }
        i = i + 1;
    }
    r
}

/// Appends the report of `rule` over `start..end` when the rule runs.
fn push_report(
    t: &[char],
    names: &Vec<String>,
    rule: &'static str,
    message: &'static str,
    start: u32,
    end: u32,
    fix: Option<DiagnosticFix>,
    out: &mut Vec<Diagnostic>,
)
    requires
        byte_len(t@) < u32::MAX,
    ensures
        diagnostics_view(final(out)@) == diagnostics_view(old(out)@) + report(
            t@,
            names@,
            rule,
            message,
            start,
            end,
            match fix {
                Some(f) => Some(f@),
                None => None,
            },
        ),
{
    if rule_runs(names, rule) {
        let (sl, sc) = position(t, start as usize);
        let (el, ec) = position(t, end as usize);
        let loc = DiagnosticLoc { start_line: sl, start_column: sc, end_line: el, end_column: ec };
        let ghost before = out@;
        out.push(Diagnostic { rule_name: rule, message_id: message, start, end, loc, fix });
        assert(diagnostics_view(out@) =~= diagnostics_view(before) + report(
            t@,
            names@,
            rule,
            message,
            start,
            end,
            match fix {
                Some(f) => Some(f@),
                None => None,
            },
        ));
    } else {
        assert(diagnostics_view(out@) =~= diagnostics_view(out@) + Seq::<DiagnosticView>::empty());
    }
}

fn sat_add_exec(a: u32, b: u32) -> (r: u32)
    ensures
        r == sat_add(a, b),
{
    a.saturating_add(b)
}

/// Appends the reports of the script whose analysis is `facts`, starting at
/// byte `offset`.
pub fn push_script_reports(
    t: &[char],
    names: &Vec<String>,
    offset: u32,
    facts: &ScriptFacts,
    shadowed: bool,
    out: &mut Vec<Diagnostic>,
)
    requires
        byte_len(t@) < u32::MAX,
    ensures
        diagnostics_view(final(out)@) == diagnostics_view(old(out)@) + script_reports(t@, names@, offset, facts@, shadowed),
{
    let ghost start = diagnostics_view(out@);
    let canonical = chars_of("canonicalURL");
    let fetch = chars_of("fetchContent");
    let resolve = chars_of("resolve");
    let glob = chars_of("glob");
    if !shadowed {
        let mut i: usize = 0;
        while i < facts.members.len()
            invariant
                byte_len(t@) < u32::MAX,
                i <= facts.members@.len(),
                canonical@ == "canonicalURL"@,
                fetch@ == "fetchContent"@,
                resolve@ == "resolve"@,
                glob@ == "glob"@,
                diagnostics_view(out@) == start + member_reports(t@, names@, offset, facts@.members.take(i as int)),
            decreases facts.members@.len() - i,
        {
            let m = &facts.members[i];
            proof {
                assert(facts@.members.take(i + 1).drop_last() =~= facts@.members.take(i as int));
                assert(facts@.members[i as int] == m@);
            }
            let s = sat_add_exec(m.start, offset);
            let e = sat_add_exec(m.end, offset);
            let property = chars_of(m.property.as_str());
            if slice_eq(property.as_slice(), 0, property.len(), canonical.as_slice()) {
                assert(property@.subrange(0, property@.len() as int) =~= property@);
                push_report(t, names, "no-deprecated-astro-canonicalurl", "deprecated", s, e, None, out);
            } else if slice_eq(property.as_slice(), 0, property.len(), fetch.as_slice()) {
                assert(property@.subrange(0, property@.len() as int) =~= property@);
                let fix = match m.property_span {
                    Some((ps, pe)) => Some(
                        DiagnosticFix {
                            start: sat_add_exec(ps, offset),
                            end: sat_add_exec(pe, offset),
                            replacement: string_from(glob.as_slice(), 0, glob.len()),
                        },
                    ),
                    None => None,
                };
                proof {
                    assert(glob@.subrange(0, glob@.len() as int) =~= glob@);
                }
                push_report(t, names, "no-deprecated-astro-fetchcontent", "deprecated", s, e, fix, out);
            } else if slice_eq(property.as_slice(), 0, property.len(), resolve.as_slice()) {
                assert(property@.subrange(0, property@.len() as int) =~= property@);
                push_report(t, names, "no-deprecated-astro-resolve", "deprecated", s, e, None, out);
            } else {
                assert(property@.subrange(0, property@.len() as int) =~= property@);
                assert(diagnostics_view(out@) =~= diagnostics_view(out@) + Seq::<DiagnosticView>::empty());
            }
            i = i + 1;
        }
        assert(facts@.members.take(facts@.members.len() as int) =~= facts@.members);
    }
    let ghost middle = diagnostics_view(out@);
    assert(middle == start + (if shadowed {
        Seq::<DiagnosticView>::empty()
    } else {
        member_reports(t@, names@, offset, facts@.members)
    })) by {
        if shadowed {
            assert(start + Seq::<DiagnosticView>::empty() =~= start);
        }
    }
    let mut k: usize = 0;
    while k < facts.entry_by_slug_imports.len()
        invariant
            byte_len(t@) < u32::MAX,
            k <= facts.entry_by_slug_imports@.len(),
            diagnostics_view(out@) == middle + import_reports(t@, names@, offset, facts@.entry_by_slug_imports.take(k as int)),
        decreases facts.entry_by_slug_imports@.len() - k,
    {
        proof {
            assert(facts@.entry_by_slug_imports.take(k + 1).drop_last() =~= facts@.entry_by_slug_imports.take(k as int));
        }
        let (a, b) = facts.entry_by_slug_imports[k];
        let s = sat_add_exec(a, offset);
        let e = sat_add_exec(b, offset);
        push_report(t, names, "no-deprecated-getentrybyslug", "deprecated", s, e, None, out);
        proof {
            assert(diagnostics_view(out@) =~= middle + import_reports(t@, names@, offset, facts@.entry_by_slug_imports.take(k + 1)));
        }
        k = k + 1;
    }
    assert(facts@.entry_by_slug_imports.take(facts@.entry_by_slug_imports.len() as int) =~= facts@.entry_by_slug_imports);
    assert(diagnostics_view(out@) =~= diagnostics_view(old(out)@) + script_reports(t@, names@, offset, facts@, shadowed));
}

/// The byte offsets of the characters of `t`.
pub open spec fn offsets_of(t: Seq<char>, offs: Seq<u32>) -> bool {
    &&& offs.len() == t.len() + 1
    &&& forall|i: int| 0 <= i <= t.len() ==> #[trigger] offs[i] == byte_at(t, i)
}

fn append_range(v: &mut Vec<char>, t: &[char], from: usize, to: usize)
    requires
        from <= to <= t@.len(),
    ensures
        final(v)@ == old(v)@ + t@.subrange(from as int, to as int),
{
    let mut part = slice_to_vec(t, from, to);
    v.append(&mut part);
}

fn append_lit(v: &mut Vec<char>, lit: &str)
    ensures
        final(v)@ == old(v)@ + lit@,
{
    let mut part = chars_of(lit);
    v.append(&mut part);
}

fn into_string(v: &Vec<char>) -> (r: String)
    ensures
        r@ == v@,
{
    let r = string_from(v.as_slice(), 0, v.len());
    assert(v@.subrange(0, v@.len() as int) =~= v@);
    r
}

/// The `set:text` fix of attribute `a` of element `e`.
fn set_text_fix_exec(t: &[char], offs: &Vec<u32>, e: &Element, a: &Attr) -> (r: Option<DiagnosticFix>)
    requires
        offsets_of(t@, offs@),
        element_wf(e@, t@.len() as int),
        attr_wf(*a, e.open_start as int, e.open_end as int),
    ensures
        match r {
            Some(f) => set_text_fix(t@, e@, *a) == Some(f@),
            None => set_text_fix(t@, e@, *a) is None,
        },
{
    let v = match a.value {
        Some(v) => v,
        None => {
            return None;
        },
    };
    let mut rendered: Vec<char> = Vec::new();
    if v.kind == ValueKind::Template {
        rendered.push('{');
        append_range(&mut rendered, t, v.start, v.end);
        rendered.push('}');
        assert(rendered@ =~= seq!['{'] + t@.subrange(v.start as int, v.end as int) + seq!['}']);
    } else {
        append_range(&mut rendered, t, v.start, v.end);
        assert(rendered@ =~= t@.subrange(v.start as int, v.end as int));
    }
    let mut rest: Vec<char> = Vec::new();
    append_range(&mut rest, t, e.open_start, a.start);
    append_range(&mut rest, t, a.end, e.open_end);
    assert(rest@ =~= t@.subrange(e.open_start as int, a.start as int) + t@.subrange(a.end as int, e.open_end as int));
    if e.self_closing {
        proof {
            reveal_strlit("/>");
        }
        let n = rest.len();
        if n < 2 || rest[n - 2] != '/' || rest[n - 1] != '>' {
            proof {
                if n >= 2 && ends_with(rest@, "/>"@) {
                    assert(rest@.subrange(n - 2, n as int)[0] == '/');
                    assert(rest@.subrange(n - 2, n as int)[1] == '>');
                }
            }
            return None;
        }
        assert(ends_with(rest@, "/>"@)) by {
            assert(rest@.subrange(n - 2, n as int) =~= "/>"@);
        }
        rest.remove(n - 2);
        rest.append(&mut rendered);
        append_lit(&mut rest, "</");
        append_range(&mut rest, t, e.name_start, e.name_end);
        append_lit(&mut rest, ">");
        let replacement = into_string(&rest);
        let fix = DiagnosticFix { start: offs[e.open_start], end: offs[e.open_end], replacement };
        assert(fix@.replacement =~= set_text_fix(t@, e@, *a)->0.replacement);
        Some(fix)
    } else {
        let children = match e.children {
            Some(c) => c,
            None => {
                return None;
            },
        };
        let (lo, hi) = trim_range(t, children.0, children.1);
        if lo < hi {
            return None;
        }
        let closing = match e.closing {
            Some(c) => c,
            None => {
                return None;
            },
        };
        rest.append(&mut rendered);
        append_range(&mut rest, t, closing.0, closing.1);
        let replacement = into_string(&rest);
        let fix = DiagnosticFix { start: offs[e.open_start], end: offs[closing.1], replacement };
        assert(fix@.replacement =~= set_text_fix(t@, e@, *a)->0.replacement);
        Some(fix)
    }
}

/// How many of `attrs` are named `set:text`.
fn count_set_text(t: &[char], attrs: &Vec<Attr>, word: &Vec<char>, lo: usize, hi: usize) -> (r: usize)
    requires
        word@ == "set:text"@,
        forall|k: int| 0 <= k < attrs@.len() ==> attr_wf(#[trigger] attrs@[k], lo as int, hi as int),
        hi <= t@.len(),
    ensures
        r == set_text_count(t@, attrs@),
{
    let mut count: usize = 0;
    let mut k: usize = 0;
    while k < attrs.len()
        invariant
            word@ == "set:text"@,
            forall|j: int| 0 <= j < attrs@.len() ==> attr_wf(#[trigger] attrs@[j], lo as int, hi as int),
            hi <= t@.len(),
            k <= attrs@.len(),
            count == set_text_count(t@, attrs@.take(k as int)),
            count <= k,
        decreases attrs@.len() - k,
    {
        assert(attrs@.take(k + 1).drop_last() =~= attrs@.take(k as int));
        let a = &attrs[k];
        assert(attr_wf(attrs@[k as int], lo as int, hi as int));
        if slice_eq(t, a.name_start, a.name_end, word.as_slice()) {
            count = count + 1;
        }
        k = k + 1;
    }
    assert(attrs@.take(attrs@.len() as int) =~= attrs@);
    count
}

/// Appends the reports on the attributes of element `e`.
fn push_element_reports(
    t: &[char],
    offs: &Vec<u32>,
    names: &Vec<String>,
    e: &Element,
    out: &mut Vec<Diagnostic>,
)
    requires
        byte_len(t@) < u32::MAX,
        offsets_of(t@, offs@),
        element_wf(e@, t@.len() as int),
    ensures
        diagnostics_view(final(out)@) == diagnostics_view(old(out)@) + element_reports(t@, names@, e@, e@.attrs.len() as int),
{
    let set_html = chars_of("set:html");
    let set_text = chars_of("set:text");
    let class = chars_of("class");
    let count = count_set_text(t, &e.attrs, &set_text, e.open_start, e.open_end);
    let ghost start = diagnostics_view(out@);
    let mut k: usize = 0;
    while k < e.attrs.len()
        invariant
            byte_len(t@) < u32::MAX,
            offsets_of(t@, offs@),
            element_wf(e@, t@.len() as int),
            set_html@ == "set:html"@,
            set_text@ == "set:text"@,
            class@ == "class"@,
            count == set_text_count(t@, e@.attrs),
            k <= e@.attrs.len(),
            diagnostics_view(out@) == start + element_reports(t@, names@, e@, k as int),
        decreases e@.attrs.len() - k,
    {
        let a = &e.attrs[k];
        assert(attr_wf(e@.attrs[k as int], e.open_start as int, e.open_end as int));
        let s = offs[a.name_start];
        let en = offs[a.name_end];
        let ghost before = diagnostics_view(out@);
        if slice_eq(t, a.name_start, a.name_end, set_html.as_slice()) {
            push_report(t, names, "no-set-html-directive", "unexpected", s, en, None, out);
        } else if slice_eq(t, a.name_start, a.name_end, set_text.as_slice()) {
            let fix = if count == 1 {
                set_text_fix_exec(t, offs, e, a)
            } else {
                None
            };
            push_report(t, names, "no-set-text-directive", "disallow", s, en, fix, out);
        } else if slice_eq(t, a.name_start, a.name_end, class.as_slice()) && (a.shorthand || match a.value {
            Some(v) => v.kind == ValueKind::Expression || v.kind == ValueKind::Template,
            None => false,
        }) {
            let fix = if a.shorthand {
                DiagnosticFix { start: offs[a.start], end: offs[a.start], replacement: crate::text::string_of("class:list=") }
            } else {
                DiagnosticFix { start: en, end: en, replacement: crate::text::string_of(":list") }
            };
            push_report(t, names, "prefer-class-list-directive", "unexpected", s, en, Some(fix), out);
        } else {
            assert(diagnostics_view(out@) =~= before + Seq::<DiagnosticView>::empty());
        }
        k = k + 1;
    }
}

/// Appends the reports on the elements `elements`.
pub fn push_template_reports(
    t: &[char],
    offs: &Vec<u32>,
    names: &Vec<String>,
    elements: &Vec<Element>,
    out: &mut Vec<Diagnostic>,
)
    requires
        byte_len(t@) < u32::MAX,
        offsets_of(t@, offs@),
        forall|j: int| 0 <= j < elements@.len() ==> element_wf((#[trigger] elements@[j])@, t@.len() as int),
    ensures
        diagnostics_view(final(out)@) == diagnostics_view(old(out)@) + elements_reports(t@, names@, elements_view(elements@)),
{
    let ghost start = diagnostics_view(out@);
    let mut j: usize = 0;
    while j < elements.len()
        invariant
            byte_len(t@) < u32::MAX,
            offsets_of(t@, offs@),
            forall|i: int| 0 <= i < elements@.len() ==> element_wf((#[trigger] elements@[i])@, t@.len() as int),
            j <= elements@.len(),
            diagnostics_view(out@) == start + elements_reports(t@, names@, elements_view(elements@).take(j as int)),
        decreases elements@.len() - j,
    {
        assert(elements_view(elements@).take(j + 1).drop_last() =~= elements_view(elements@).take(j as int));
        assert(elements_view(elements@)[j as int] == elements@[j as int]@);
        push_element_reports(t, offs, names, &elements[j], out);
        j = j + 1;
    }
    assert(elements_view(elements@).take(elements@.len() as int) =~= elements_view(elements@));
}

/// Whether `a[i..]` comes strictly before `b[i..]` in the order of
/// characters, their first `i` characters being equal.
fn chars_less(a: &[char], b: &[char], i: usize) -> (r: bool)
    requires
        i <= a@.len(),
        i <= b@.len(),
    ensures
        r == seq_less(a@.skip(i as int), b@.skip(i as int)),
    decreases a@.len() - i,
{
    if i >= b.len() {
        false
    } else if i >= a.len() {
        true
    } else if a[i] != b[i] {
        (a[i] as u32) < (b[i] as u32)
    } else {
        assert(a@.skip(i as int).drop_first() =~= a@.skip(i + 1));
        assert(b@.skip(i as int).drop_first() =~= b@.skip(i + 1));
        chars_less(a, b, i + 1)
    }
}

fn sorts_after_exec(a: &Diagnostic, b: &Diagnostic) -> (r: bool)
    ensures
        r == sorts_after(a@, b@),
{
    if a.loc.start_line != b.loc.start_line {
        return a.loc.start_line > b.loc.start_line;
    }
    if a.loc.start_column != b.loc.start_column {
        return a.loc.start_column > b.loc.start_column;
    }
    let ra = chars_of(a.rule_name);
    let rb = chars_of(b.rule_name);
    assert(ra@.skip(0) =~= ra@);
    assert(rb@.skip(0) =~= rb@);
    chars_less(rb.as_slice(), ra.as_slice(), 0)
}

/// Sorts the reports by start line, start column and rule name, keeping
/// the order of equal keys.
pub fn sort_reports(ds: Vec<Diagnostic>) -> (r: Vec<Diagnostic>)
    ensures
        diagnostics_view(r@) == sorted(diagnostics_view(ds@)),
{
    let ghost all = diagnostics_view(ds@);
    let mut r: Vec<Diagnostic> = Vec::new();
    let mut rest = ds;
    let mut i: usize = 0;
    let n0 = rest.len();
    let ghost total = all.len();
    while rest.len() > 0
        invariant
            i + rest@.len() == total,
            total == n0,
            total == all.len(),
            forall|k: int| 0 <= k < rest@.len() ==> #[trigger] rest@[k]@ == all[i + k],
            diagnostics_view(r@) == sorted(all.take(i as int)),
        decreases rest@.len(),
    {
        let d = rest.remove(0);
        assert(d@ == all[i as int]);
        assert(all.take(i + 1).drop_last() =~= all.take(i as int));
        let ghost rv = diagnostics_view(r@);
        let mut p: usize = 0;
        while p < r.len() && !sorts_after_exec(&r[p], &d)
            invariant
                p <= r@.len(),
                rv == diagnostics_view(r@),
                insertion_point(rv, d@, 0) == insertion_point(rv, d@, p as int),
            decreases r@.len() - p,
        {
            p = p + 1;
        }
        r.insert(p, d);
        assert(diagnostics_view(r@) =~= rv.insert(p as int, d@));
        i = i + 1;
    }
    assert(all.take(total as int) =~= all);
    r
}

} // verus!
