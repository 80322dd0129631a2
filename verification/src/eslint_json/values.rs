//! The rules on key normalization, on unsafe values and on the top-level
//! value, over what the parser found.
use vstd::prelude::*;
use crate::text::{byte_len, push_char, string_of};
use crate::outside::{nfc_of, nfd_of, nfkc_of, nfkd_of, to_nfc, to_nfd, to_nfkc, to_nfkd};
use super::options::NormalizationForm;
use super::numbers::{NumberClass, number_message, unsafe_number_message};
use super::facts::{
    Span, MemberFact, ObjectFact, NumberFact, StringFact, TopLevelFact, JsonValueType, Diagnostic,
    DiagnosticData, DiagnosticFix, DiagnosticView, DataView, FixView, empty_data, span_wf,
    members_wf, span_loc, loc_for_span, diagnostics_view, lemma_diagnostics_view_push, utf16_at,
    utf16_offset, kind_name,
};
use super::checks::{concat_upto, plain_report, key_data, objects_wf};

verus! {

/// `s` in normalization form `form`.
pub open spec fn normalized(form: NormalizationForm, s: Seq<char>) -> Seq<char> {
    match form {
        NormalizationForm::Nfc => nfc_of(s),
        NormalizationForm::Nfd => nfd_of(s),
        NormalizationForm::Nfkc => nfkc_of(s),
        NormalizationForm::Nfkd => nfkd_of(s),
    }
}

/// `value` in normalization form `form`.
pub fn normalize_to(value: &str, form: NormalizationForm) -> (r: String)
    ensures
        r@ == normalized(form, value@),
{
    match form {
        NormalizationForm::Nfc => to_nfc(value),
        NormalizationForm::Nfd => to_nfd(value),
        NormalizationForm::Nfkc => to_nfkc(value),
        NormalizationForm::Nfkd => to_nfkd(value),
    }
}

/// The `no-unnormalized-keys` report of member `j`, if any: the fix puts
/// the normalized key in place of the key's content, unless the key holds
/// an escape.
pub open spec fn unnormalized_at(t: Seq<char>, ms: Seq<MemberFact>, j: int, form: NormalizationForm) -> Seq<DiagnosticView> {
    let m = ms[j];
    let n = normalized(form, m.key@);
    if n == m.key@ {
        Seq::empty()
    } else {
        seq![DiagnosticView {
            rule_name: "no-unnormalized-keys",
            message_id: "unnormalizedKey",
            data: key_data(m.raw_key@),
            loc: span_loc(t, m.name_span),
            fix: if m.key_has_escape {
                None
            } else {
                Some(FixView {
                    start: utf16_at(t, m.key_content_span.start as int),
                    end: utf16_at(t, m.key_content_span.end as int),
                    replacement: n,
                })
            },
        }]
    }
}

/// `no-unnormalized-keys` on one object.
pub open spec fn unnormalized_in(t: Seq<char>, ms: Seq<MemberFact>, form: NormalizationForm) -> Seq<DiagnosticView> {
    concat_upto(ms.len() as int, |j: int| unnormalized_at(t, ms, j, form))
}

/// `no-unnormalized-keys` on every object.
pub open spec fn unnormalized_reports(t: Seq<char>, objects: Seq<ObjectFact>, form: NormalizationForm) -> Seq<DiagnosticView> {
    concat_upto(objects.len() as int, |k: int| unnormalized_in(t, objects[k].members@, form))
}

/// Appends the `no-unnormalized-keys` reports of one object.
fn push_unnormalized(t: &[char], ms: &Vec<MemberFact>, form: NormalizationForm, out: &mut Vec<Diagnostic>)
    requires
        members_wf(ms@, t@.len() as int),
        byte_len(t@) < u32::MAX,
    ensures
        diagnostics_view(final(out)@) == diagnostics_view(old(out)@) + unnormalized_in(t@, ms@, form),
{
    let ghost g = |j: int| unnormalized_at(t@, ms@, j, form);
    let ghost start = diagnostics_view(out@);
    let mut j: usize = 0;
    while j < ms.len()
        invariant
            j <= ms@.len(),
            members_wf(ms@, t@.len() as int),
            byte_len(t@) < u32::MAX,
            diagnostics_view(out@) == start + concat_upto(j as int, g),
            forall|x: int| #[trigger] g(x) == unnormalized_at(t@, ms@, x, form),
        decreases ms@.len() - j,
    {
        let m = &ms[j];
        assert(span_wf(ms@[j as int].name_span, t@.len() as int));
        let n = normalize_to(m.key.as_str(), form);
        if n != m.key {
            let fix = if m.key_has_escape {
                None
            } else {
                Some(DiagnosticFix {
                    start: utf16_offset(t, m.key_content_span.start),
                    end: utf16_offset(t, m.key_content_span.end),
                    replacement: n,
                })
            };
            let mut data = DiagnosticData::default();
            data.key = Some(m.raw_key.clone());
            let d = Diagnostic {
                rule_name: "no-unnormalized-keys",
                message_id: "unnormalizedKey",
                data,
                loc: loc_for_span(t, m.name_span),
                fix,
            };
            proof {
                lemma_diagnostics_view_push(out@, d);
            }
            out.push(d);
        }
        assert(concat_upto(j + 1, g) == concat_upto(j as int, g) + g(j as int));
        assert(start + concat_upto(j + 1, g) =~= start + concat_upto(j as int, g) + g(j as int));
        j = j + 1;
    }
}

/// `no-unnormalized-keys`: appends its reports on every object.
pub fn scan_no_unnormalized_keys(t: &[char], objects: &Vec<ObjectFact>, form: NormalizationForm, out: &mut Vec<Diagnostic>)
    requires
        objects_wf(objects@, t@.len() as int),
        byte_len(t@) < u32::MAX,
    ensures
        diagnostics_view(final(out)@) == diagnostics_view(old(out)@) + unnormalized_reports(t@, objects@, form),
{
    let ghost g = |k: int| unnormalized_in(t@, objects@[k].members@, form);
    let ghost start = diagnostics_view(out@);
    let mut k: usize = 0;
    while k < objects.len()
        invariant
            k <= objects@.len(),
            objects_wf(objects@, t@.len() as int),
            byte_len(t@) < u32::MAX,
            diagnostics_view(out@) == start + concat_upto(k as int, g),
            forall|x: int| #[trigger] g(x) == unnormalized_in(t@, objects@[x].members@, form),
        decreases objects@.len() - k,
    {
        assert(members_wf(objects@[k as int].members@, t@.len() as int));
        push_unnormalized(t, &objects[k].members, form, out);
        assert(concat_upto(k + 1, g) == concat_upto(k as int, g) + g(k as int));
        assert(start + concat_upto(k + 1, g) =~= start + concat_upto(k as int, g) + g(k as int));
        k = k + 1;
    }
}

/// Data holding only a value.
pub open spec fn value_data(value: Seq<char>) -> DataView {
    DataView { value: Some(value), ..empty_data() }
}

/// The `no-unsafe-values` report of number `i`, whose parse gave `class`.
pub open spec fn number_report_at(t: Seq<char>, numbers: Seq<NumberFact>, classes: Seq<NumberClass>, i: int) -> Seq<DiagnosticView> {
    match number_message(numbers[i].raw@, classes[i]) {
        Some(m) => seq![plain_report("no-unsafe-values", m, value_data(numbers[i].raw@), t, numbers[i].span)],
        None => Seq::empty(),
    }
}

/// `no-unsafe-values` on the numbers, `classes[i]` being what the parse of
/// number `i` gave.
pub open spec fn number_reports(t: Seq<char>, numbers: Seq<NumberFact>, classes: Seq<NumberClass>) -> Seq<DiagnosticView> {
    concat_upto(numbers.len() as int, |i: int| number_report_at(t, numbers, classes, i))
}

/// Every number's span lies within a source of `n` characters.
pub open spec fn numbers_wf(numbers: Seq<NumberFact>, n: int) -> bool {
    forall|i: int| 0 <= i < numbers.len() ==> span_wf(#[trigger] numbers[i].span, n)
}

/// Every string's span lies within a source of `n` characters.
pub open spec fn strings_wf(strings: Seq<StringFact>, n: int) -> bool {
    forall|i: int| 0 <= i < strings.len() ==> span_wf(#[trigger] strings[i].span, n)
}

/// `no-unsafe-values` on numbers: appends its reports.
pub fn scan_numbers(t: &[char], numbers: &Vec<NumberFact>, classes: &Vec<NumberClass>, out: &mut Vec<Diagnostic>)
    requires
        numbers_wf(numbers@, t@.len() as int),
        classes@.len() == numbers@.len(),
        byte_len(t@) < u32::MAX,
    ensures
        diagnostics_view(final(out)@) == diagnostics_view(old(out)@) + number_reports(t@, numbers@, classes@),
{
    let ghost g = |i: int| number_report_at(t@, numbers@, classes@, i);
    let ghost start = diagnostics_view(out@);
    let mut i: usize = 0;
    while i < numbers.len()
        invariant
            i <= numbers@.len(),
            classes@.len() == numbers@.len(),
            numbers_wf(numbers@, t@.len() as int),
            byte_len(t@) < u32::MAX,
            diagnostics_view(out@) == start + concat_upto(i as int, g),
            forall|x: int| #[trigger] g(x) == number_report_at(t@, numbers@, classes@, x),
        decreases numbers@.len() - i,
    {
        let number = &numbers[i];
        assert(span_wf(numbers@[i as int].span, t@.len() as int));
        match unsafe_number_message(number.raw.as_str(), classes[i]) {
            Some(message_id) => {
                let mut data = DiagnosticData::default();
                data.value = Some(number.raw.clone());
                let d = Diagnostic {
                    rule_name: "no-unsafe-values",
                    message_id,
                    data,
                    loc: loc_for_span(t, number.span),
                    fix: None,
                };
                proof {
                    lemma_diagnostics_view_push(out@, d);
                }
                out.push(d);
            },
            None => {},
        }
        assert(concat_upto(i + 1, g) == concat_upto(i as int, g) + g(i as int));
        assert(start + concat_upto(i + 1, g) =~= start + concat_upto(i as int, g) + g(i as int));
        i = i + 1;
    }
}

/// A high surrogate code unit.
pub open spec fn is_high(u: u16) -> bool {
    0xd800 <= u <= 0xdbff
}

/// A low surrogate code unit.
pub open spec fn is_low(u: u16) -> bool {
    0xdc00 <= u <= 0xdfff
}

/// Whether `unit` is a high surrogate.
pub fn is_high_surrogate(unit: u16) -> (r: bool)
    ensures
        r == is_high(unit),
{
    0xd800 <= unit && unit <= 0xdbff
}

/// Whether `unit` is a low surrogate.
pub fn is_low_surrogate(unit: u16) -> (r: bool)
    ensures
        r == is_low(unit),
{
    0xdc00 <= unit && unit <= 0xdfff
}

/// The surrogates of `u[i..]` that are not part of a pair, in order: a
/// high surrogate not followed by a low one, and a low surrogate not
/// preceded by a high one.
pub open spec fn lone_surrogates(u: Seq<u16>, i: int) -> Seq<u16>
    decreases u.len() - i,
{
    if i < 0 || i >= u.len() {
        Seq::empty()
    } else if is_high(u[i]) {
        if i + 1 < u.len() && is_low(u[i + 1]) {
            lone_surrogates(u, i + 2)
        } else {
            seq![u[i]] + lone_surrogates(u, i + 1)
        }
    } else if is_low(u[i]) {
        seq![u[i]] + lone_surrogates(u, i + 1)
    } else {
        lone_surrogates(u, i + 1)
    }
}

/// The hexadecimal digit of `d`, lowercase.
pub open spec fn hex_digit(d: int) -> char {
    if d < 10 {
        (48 + d) as char
    } else {
        (87 + d) as char
    }
}

/// `\uXXXX` with the unit's four lowercase hexadecimal digits.
pub open spec fn escaped(u: u16) -> Seq<char> {
    seq!['\\', 'u', hex_digit((u / 4096) as int), hex_digit(((u / 256) % 16) as int), hex_digit(((u / 16) % 16) as int), hex_digit((u % 16) as int)]
}

/// The hexadecimal digit of `d`, lowercase.
fn hex_char(d: u16) -> (r: char)
    requires
        d < 16,
    ensures
        r == hex_digit(d as int),
{
    if d < 10 {
        (48u8 + d as u8) as char
    } else {
        (87u8 + d as u8) as char
    }
}

/// `\uXXXX` with the unit's four lowercase hexadecimal digits.
pub fn escaped_surrogate(unit: u16) -> (r: String)
    ensures
        r@ == escaped(unit),
{
    let mut out = String::new();
    push_char(&mut out, '\\');
    push_char(&mut out, 'u');
    push_char(&mut out, hex_char(unit / 4096));
    push_char(&mut out, hex_char((unit / 256) % 16));
    push_char(&mut out, hex_char((unit / 16) % 16));
    push_char(&mut out, hex_char(unit % 16));
    assert(out@ =~= escaped(unit));
    out
}

/// The report of a lone surrogate of a string.
pub open spec fn surrogate_report(t: Seq<char>, span: Span, u: u16) -> DiagnosticView {
    plain_report("no-unsafe-values", "loneSurrogate", DataView { surrogate: Some(escaped(u)), ..empty_data() }, t, span)
}

/// `no-unsafe-values` on one string: a report for each lone surrogate.
pub open spec fn surrogate_reports(t: Seq<char>, s: StringFact) -> Seq<DiagnosticView> {
    lone_surrogates(s.code_units@, 0).map_values(|u: u16| surrogate_report(t, s.span, u))
}

/// `no-unsafe-values` on the strings.
pub open spec fn string_reports(t: Seq<char>, strings: Seq<StringFact>) -> Seq<DiagnosticView> {
    concat_upto(strings.len() as int, |i: int| surrogate_reports(t, strings[i]))
}

/// Appends the lone-surrogate reports of one string.
fn scan_string_surrogates(t: &[char], s: &StringFact, out: &mut Vec<Diagnostic>)
    requires
        span_wf(s.span, t@.len() as int),
        byte_len(t@) < u32::MAX,
    ensures
        diagnostics_view(final(out)@) == diagnostics_view(old(out)@) + surrogate_reports(t@, *s),
{
    let u = &s.code_units;
    let ghost start = diagnostics_view(out@);
    let ghost f = |x: u16| surrogate_report(t@, s.span, x);
    let ghost mut done: Seq<u16> = Seq::empty();
    let mut index: usize = 0;
    while index < u.len()
        invariant
            index <= u@.len(),
            span_wf(s.span, t@.len() as int),
            byte_len(t@) < u32::MAX,
            lone_surrogates(u@, 0) == done + lone_surrogates(u@, index as int),
            diagnostics_view(out@) == start + done.map_values(f),
            forall|x: u16| #[trigger] f(x) == surrogate_report(t@, s.span, x),
        decreases u@.len() - index,
    {
        let unit = u[index];
        if is_high_surrogate(unit) && index + 1 < u.len() && is_low_surrogate(u[index + 1]) {
            index = index + 2;
        } else {
            if is_high_surrogate(unit) || is_low_surrogate(unit) {
                let mut data = DiagnosticData::default();
                data.surrogate = Some(escaped_surrogate(unit));
                let d = Diagnostic {
                    rule_name: "no-unsafe-values",
                    message_id: "loneSurrogate",
                    data,
                    loc: loc_for_span(t, s.span),
                    fix: None,
                };
                proof {
                    lemma_diagnostics_view_push(out@, d);
                    assert(done.push(unit).map_values(f) =~= done.map_values(f).push(f(unit)));
                    assert(seq![unit] + lone_surrogates(u@, index + 1) =~= lone_surrogates(u@, index as int));
                    assert(done + lone_surrogates(u@, index as int) =~= done.push(unit) + lone_surrogates(u@, index + 1));
                    done = done.push(unit);
                }
                out.push(d);
            }
            index = index + 1;
        }
    }
    assert(done + Seq::<u16>::empty() =~= done);
}

/// `no-unsafe-values` on strings: appends its reports.
pub fn scan_strings(t: &[char], strings: &Vec<StringFact>, out: &mut Vec<Diagnostic>)
    requires
        strings_wf(strings@, t@.len() as int),
        byte_len(t@) < u32::MAX,
    ensures
        diagnostics_view(final(out)@) == diagnostics_view(old(out)@) + string_reports(t@, strings@),
{
    let ghost g = |i: int| surrogate_reports(t@, strings@[i]);
    let ghost start = diagnostics_view(out@);
    let mut i: usize = 0;
    while i < strings.len()
        invariant
            i <= strings@.len(),
            strings_wf(strings@, t@.len() as int),
            byte_len(t@) < u32::MAX,
            diagnostics_view(out@) == start + concat_upto(i as int, g),
            forall|x: int| #[trigger] g(x) == surrogate_reports(t@, strings@[x]),
        decreases strings@.len() - i,
    {
        assert(span_wf(strings@[i as int].span, t@.len() as int));
        scan_string_surrogates(t, &strings[i], out);
        assert(concat_upto(i + 1, g) == concat_upto(i as int, g) + g(i as int));
        assert(start + concat_upto(i + 1, g) =~= start + concat_upto(i as int, g) + g(i as int));
        i = i + 1;
    }
}

/// `top-level-interop`: a top-level value that is neither an object nor an
/// array, with its kind's name.
pub open spec fn top_level_reports(t: Seq<char>, top: Option<TopLevelFact>) -> Seq<DiagnosticView> {
    match top {
        Some(tl) => if tl.value_type == JsonValueType::Object || tl.value_type == JsonValueType::Array {
            Seq::empty()
        } else {
            seq![plain_report("top-level-interop", "topLevel", DataView { value_type: Some(kind_name(tl.value_type)@), ..empty_data() }, t, tl.span)]
        },
        None => Seq::empty(),
    }
}

/// `top-level-interop`: appends its report.
pub fn scan_top_level_interop(t: &[char], top: Option<TopLevelFact>, out: &mut Vec<Diagnostic>)
    requires
        top matches Some(tl) ==> span_wf(tl.span, t@.len() as int),
        byte_len(t@) < u32::MAX,
    ensures
        diagnostics_view(final(out)@) == diagnostics_view(old(out)@) + top_level_reports(t@, top),
{
    match top {
        Some(tl) => {
            if tl.value_type == JsonValueType::Object || tl.value_type == JsonValueType::Array {
                assert(diagnostics_view(out@) + Seq::<DiagnosticView>::empty() =~= diagnostics_view(out@));
                return;
            }
            let mut data = DiagnosticData::default();
            data.value_type = Some(string_of(tl.value_type.upstream_name()));
            let d = Diagnostic {
                rule_name: "top-level-interop",
                message_id: "topLevel",
                data,
                loc: loc_for_span(t, tl.span),
                fix: None,
            };
            proof {
                lemma_diagnostics_view_push(out@, d);
            }
            out.push(d);
            assert(diagnostics_view(old(out)@).push(d@) =~= diagnostics_view(old(out)@) + top_level_reports(t@, top));
        },
        None => {
            assert(diagnostics_view(out@) + Seq::<DiagnosticView>::empty() =~= diagnostics_view(out@));
        },
    }
}

} // verus!
