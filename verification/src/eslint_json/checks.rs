//! The rules on keys and values, over what the parser found.
use vstd::prelude::*;
use crate::text::{byte_len, trim, trim_range, chars_of};
use super::facts::{
    Span, MemberFact, ObjectFact, ParsedFacts, Diagnostic, DiagnosticData, DiagnosticView,
    DataView, empty_data, span_wf, members_wf, span_loc, loc_for_span, diagnostics_view,
    lemma_diagnostics_view_push,
};

verus! {

/// The reports `g(0)`, ..., `g(n - 1)`, one after the other.
pub open spec fn concat_upto(n: int, g: spec_fn(int) -> Seq<DiagnosticView>) -> Seq<DiagnosticView>
    decreases n,
{
    if n <= 0 {
        Seq::empty()
    } else {
        concat_upto(n - 1, g) + g(n - 1)
    }
}

/// A report with empty data and no fix.
pub open spec fn plain_report(rule_name: &'static str, message_id: &'static str, data: DataView, t: Seq<char>, span: Span) -> DiagnosticView {
    DiagnosticView { rule_name, message_id, data, loc: span_loc(t, span), fix: None }
}

/// Data holding only a key.
pub open spec fn key_data(key: Seq<char>) -> DataView {
    DataView { key: Some(key), ..empty_data() }
}

/// Whether member `j` has a key that an earlier member of the object has.
pub open spec fn key_seen_before(ms: Seq<MemberFact>, j: int) -> bool {
    exists|i: int| 0 <= i < j && (#[trigger] ms[i]).key@ == ms[j].key@
}

/// The `no-duplicate-keys` report of member `j`, if any.
pub open spec fn duplicate_at(t: Seq<char>, ms: Seq<MemberFact>, j: int) -> Seq<DiagnosticView> {
    if key_seen_before(ms, j) {
        seq![plain_report("no-duplicate-keys", "duplicateKey", key_data(ms[j].raw_key@), t, ms[j].name_span)]
    } else {
        Seq::empty()
    }
}

/// `no-duplicate-keys` on one object: each member whose key an earlier
/// member has.
pub open spec fn duplicates_in(t: Seq<char>, ms: Seq<MemberFact>) -> Seq<DiagnosticView> {
    concat_upto(ms.len() as int, |j: int| duplicate_at(t, ms, j))
}

/// `no-duplicate-keys` on every object, in the order the objects were found.
pub open spec fn duplicate_reports(t: Seq<char>, objects: Seq<ObjectFact>) -> Seq<DiagnosticView> {
    concat_upto(objects.len() as int, |k: int| duplicates_in(t, objects[k].members@))
}

/// Whether a key is empty or only whitespace.
pub open spec fn key_is_blank(m: MemberFact) -> bool {
    trim(m.key@).len() == 0
}

/// The `no-empty-keys` report of member `j`, if any.
pub open spec fn empty_key_at(t: Seq<char>, ms: Seq<MemberFact>, j: int) -> Seq<DiagnosticView> {
    if key_is_blank(ms[j]) {
        seq![plain_report("no-empty-keys", "emptyKey", empty_data(), t, ms[j].name_span)]
    } else {
        Seq::empty()
    }
}

/// `no-empty-keys` on one object.
pub open spec fn empty_keys_in(t: Seq<char>, ms: Seq<MemberFact>) -> Seq<DiagnosticView> {
    concat_upto(ms.len() as int, |j: int| empty_key_at(t, ms, j))
}

/// `no-empty-keys` on every object.
pub open spec fn empty_key_reports(t: Seq<char>, objects: Seq<ObjectFact>) -> Seq<DiagnosticView> {
    concat_upto(objects.len() as int, |k: int| empty_keys_in(t, objects[k].members@))
}

/// The objects' members lie within a source of `n` characters.
pub open spec fn objects_wf(objects: Seq<ObjectFact>, n: int) -> bool {
    forall|k: int| 0 <= k < objects.len() ==> members_wf(#[trigger] objects[k].members@, n)
}

/// A report with only a key in its data.
fn key_report(t: &[char], rule_name: &'static str, message_id: &'static str, m: &MemberFact) -> (r: Diagnostic)
    requires
        span_wf(m.name_span, t@.len() as int),
        byte_len(t@) < u32::MAX,
    ensures
        r@ == plain_report(rule_name, message_id, key_data(m.raw_key@), t@, m.name_span),
{
    let mut data = DiagnosticData::default();
    data.key = Some(m.raw_key.clone());
    Diagnostic { rule_name, message_id, data, loc: loc_for_span(t, m.name_span), fix: None }
}

/// Whether some member before `j` has the key of member `j`.
fn seen_before(ms: &Vec<MemberFact>, j: usize) -> (r: bool)
    requires
        j < ms@.len(),
    ensures
        r == key_seen_before(ms@, j as int),
{
    let mut i: usize = 0;
    while i < j
        invariant
            i <= j < ms@.len(),
            forall|p: int| 0 <= p < i ==> (#[trigger] ms@[p]).key@ != ms@[j as int].key@,
        decreases j - i,
    {
        if ms[i].key == ms[j].key {
            return true;
        }
        i = i + 1;
    }
    false
}

/// Appends the `no-duplicate-keys` reports of one object.
fn push_duplicates(t: &[char], ms: &Vec<MemberFact>, out: &mut Vec<Diagnostic>)
    requires
        members_wf(ms@, t@.len() as int),
        byte_len(t@) < u32::MAX,
    ensures
        diagnostics_view(final(out)@) == diagnostics_view(old(out)@) + duplicates_in(t@, ms@),
{
    let ghost g = |j: int| duplicate_at(t@, ms@, j);
    let ghost start = diagnostics_view(out@);
    let mut j: usize = 0;
    while j < ms.len()
        invariant
            j <= ms@.len(),
            members_wf(ms@, t@.len() as int),
            byte_len(t@) < u32::MAX,
            diagnostics_view(out@) == start + concat_upto(j as int, g),
            forall|x: int| #[trigger] g(x) == duplicate_at(t@, ms@, x),
        decreases ms@.len() - j,
    {
        if seen_before(ms, j) {
            let d = key_report(t, "no-duplicate-keys", "duplicateKey", &ms[j]);
            proof {
                lemma_diagnostics_view_push(out@, d);
            }
            out.push(d);
        }
        assert(concat_upto(j + 1, g) == concat_upto(j as int, g) + g(j as int));
        assert(start + concat_upto(j + 1, g) =~= start + concat_upto(j as int, g) + g(j as int));
        j = j + 1;
    }
}

/// `no-duplicate-keys`: appends its reports on every object.
pub fn scan_no_duplicate_keys(t: &[char], objects: &Vec<ObjectFact>, out: &mut Vec<Diagnostic>)
    requires
        objects_wf(objects@, t@.len() as int),
        byte_len(t@) < u32::MAX,
    ensures
        diagnostics_view(final(out)@) == diagnostics_view(old(out)@) + duplicate_reports(t@, objects@),
{
    let ghost g = |k: int| duplicates_in(t@, objects@[k].members@);
    let ghost start = diagnostics_view(out@);
    let mut k: usize = 0;
    while k < objects.len()
        invariant
            k <= objects@.len(),
            objects_wf(objects@, t@.len() as int),
            byte_len(t@) < u32::MAX,
            diagnostics_view(out@) == start + concat_upto(k as int, g),
            forall|x: int| #[trigger] g(x) == duplicates_in(t@, objects@[x].members@),
        decreases objects@.len() - k,
    {
        assert(members_wf(objects@[k as int].members@, t@.len() as int));
        push_duplicates(t, &objects[k].members, out);
        assert(concat_upto(k + 1, g) == concat_upto(k as int, g) + g(k as int));
        assert(start + concat_upto(k + 1, g) =~= start + concat_upto(k as int, g) + g(k as int));
        k = k + 1;
    }
}

/// Appends the `no-empty-keys` reports of one object.
fn push_empty_keys(t: &[char], ms: &Vec<MemberFact>, out: &mut Vec<Diagnostic>)
    requires
        members_wf(ms@, t@.len() as int),
        byte_len(t@) < u32::MAX,
    ensures
        diagnostics_view(final(out)@) == diagnostics_view(old(out)@) + empty_keys_in(t@, ms@),
{
    let ghost g = |j: int| empty_key_at(t@, ms@, j);
    let ghost start = diagnostics_view(out@);
    let mut j: usize = 0;
    while j < ms.len()
        invariant
            j <= ms@.len(),
            members_wf(ms@, t@.len() as int),
            byte_len(t@) < u32::MAX,
            diagnostics_view(out@) == start + concat_upto(j as int, g),
            forall|x: int| #[trigger] g(x) == empty_key_at(t@, ms@, x),
        decreases ms@.len() - j,
    {
        let key = chars_of(ms[j].key.as_str());
        let (lo, hi) = trim_range(key.as_slice(), 0, key.len());
        assert(key@.subrange(0, key@.len() as int) =~= key@);
        if lo == hi {
            let d = Diagnostic {
                rule_name: "no-empty-keys",
                message_id: "emptyKey",
                data: DiagnosticData::default(),
                loc: loc_for_span(t, ms[j].name_span),
                fix: None,
            };
            proof {
                lemma_diagnostics_view_push(out@, d);
            }
            out.push(d);
        }
        assert(concat_upto(j + 1, g) == concat_upto(j as int, g) + g(j as int));
        assert(start + concat_upto(j + 1, g) =~= start + concat_upto(j as int, g) + g(j as int));
        j = j + 1;
    }
}

/// `no-empty-keys`: appends its reports on every object.
pub fn scan_no_empty_keys(t: &[char], objects: &Vec<ObjectFact>, out: &mut Vec<Diagnostic>)
    requires
        objects_wf(objects@, t@.len() as int),
        byte_len(t@) < u32::MAX,
    ensures
        diagnostics_view(final(out)@) == diagnostics_view(old(out)@) + empty_key_reports(t@, objects@),
{
    let ghost g = |k: int| empty_keys_in(t@, objects@[k].members@);
    let ghost start = diagnostics_view(out@);
    let mut k: usize = 0;
    while k < objects.len()
        invariant
            k <= objects@.len(),
            objects_wf(objects@, t@.len() as int),
            byte_len(t@) < u32::MAX,
            diagnostics_view(out@) == start + concat_upto(k as int, g),
            forall|x: int| #[trigger] g(x) == empty_keys_in(t@, objects@[x].members@),
        decreases objects@.len() - k,
    {
        assert(members_wf(objects@[k as int].members@, t@.len() as int));
        push_empty_keys(t, &objects[k].members, out);
        assert(concat_upto(k + 1, g) == concat_upto(k as int, g) + g(k as int));
        assert(start + concat_upto(k + 1, g) =~= start + concat_upto(k as int, g) + g(k as int));
        k = k + 1;
    }
}

} // verus!
