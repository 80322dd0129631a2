//! The source text of a program as the e18e rules read it: the text of a
//! byte span, the location of a span, and reports as values.
use vstd::prelude::*;
use crate::text::{byte_len, len_utf8, lemma_byte_len_take_step, push_char, chars_of};
use crate::lines::{chars_before, chars_before_from, lf_position};
use super::ast::Span;
use super::rules::DiagnosticLoc;
use super::dependencies::{Diagnostic, DiagnosticData, DiagnosticFix, chars_loc, names_rule, E18eOptions, opt_view};

verus! {

/// The characters of `t` that start in bytes `0..b`.
pub proof fn lemma_chars_before_bounds(t: Seq<char>, b: int, i: int)
    requires
        0 <= i <= t.len(),
    ensures
        i <= chars_before_from(t, b, i) <= t.len(),
    decreases t.len() - i,
{
    if i < t.len() && byte_len(t.take(i)) < b {
        lemma_chars_before_bounds(t, b, i + 1);
    }
}

/// The source text of the bytes of `sp`; empty when the span runs
/// backwards.
pub open spec fn txt(t: Seq<char>, sp: Span) -> Seq<char> {
    let s = chars_before(t, sp.start as int);
    let e = chars_before(t, sp.end as int);
    if s <= e {
        t.subrange(s, e)
    } else {
        Seq::empty()
    }
}

/// The location of the bytes of `sp`.
pub open spec fn byte_loc(t: Seq<char>, sp: Span) -> DiagnosticLoc {
    chars_loc(t, chars_before(t, sp.start as int), chars_before(t, sp.end as int))
}

/// The index of the first character of `t` that starts at or after byte
/// `b`, or the length.
pub fn char_index(t: &[char], b: u32) -> (r: usize)
    requires
        byte_len(t@) < u32::MAX,
    ensures
        r == chars_before(t@, b as int),
        r <= t@.len(),
{
    let mut i: usize = 0;
    let mut bytes: usize = 0;
    proof {
        lemma_chars_before_bounds(t@, b as int, 0);
    }
    while i < t.len() && bytes < b as usize
        invariant
            i <= t@.len(),
            byte_len(t@) < u32::MAX,
            bytes == byte_len(t@.take(i as int)),
            bytes <= byte_len(t@),
            chars_before(t@, b as int) == chars_before_from(t@, b as int, i as int),
        decreases t@.len() - i,
    {
        proof {
            lemma_byte_len_take_step(t@, i as int);
            crate::text::lemma_byte_len_take_mono(t@, i + 1, t@.len() as int);
            assert(t@.take(t@.len() as int) =~= t@);
        }
        bytes = bytes + len_utf8(t[i]);
        i = i + 1;
    }
    proof {
        lemma_chars_before_bounds(t@, b as int, i as int);
    }
    i
}

/// Appends the text of the bytes of `sp`.
pub fn push_text(out: &mut String, t: &[char], sp: Span)
    requires
        byte_len(t@) < u32::MAX,
    ensures
        final(out)@ == old(out)@ + txt(t@, sp),
{
    let s = char_index(t, sp.start);
    let e = char_index(t, sp.end);
    if s <= e {
        let mut i = s;
        while i < e
            invariant
                s <= i <= e <= t@.len(),
                out@ == old(out)@ + t@.subrange(s as int, i as int),
            decreases e - i,
        {
            push_char(out, t[i]);
            assert(t@.subrange(s as int, i + 1) =~= t@.subrange(s as int, i as int).push(t@[i as int]));
            i = i + 1;
        }
    } else {
        assert(old(out)@ + Seq::<char>::empty() =~= old(out)@);
    }
}

/// The text of the bytes of `sp`.
pub fn text_of(t: &[char], sp: Span) -> (r: String)
    requires
        byte_len(t@) < u32::MAX,
    ensures
        r@ == txt(t@, sp),
{
    let mut r = String::new();
    push_text(&mut r, t, sp);
    assert(Seq::<char>::empty() + txt(t@, sp) =~= txt(t@, sp));
    r
}

/// Appends the characters of a literal.
pub fn push_lit(out: &mut String, lit: &str)
    ensures
        final(out)@ == old(out)@ + lit@,
{
    let v = chars_of(lit);
    let mut i: usize = 0;
    while i < v.len()
        invariant
            i <= v@.len(),
            v@ == lit@,
            out@ == old(out)@ + v@.take(i as int),
        decreases v@.len() - i,
    {
        push_char(out, v[i]);
        assert(v@.take(i + 1) =~= v@.take(i as int).push(v@[i as int]));
        i = i + 1;
    }
    assert(v@.take(v@.len() as int) =~= v@);
}

/// Whether the bytes of two spans hold the same text.
pub fn same_text(t: &[char], a: Span, b: Span) -> (r: bool)
    requires
        byte_len(t@) < u32::MAX,
    ensures
        r == (txt(t@, a) == txt(t@, b)),
{
    let x = text_of(t, a);
    let y = text_of(t, b);
    crate::text::str_eq(x.as_str(), y.as_str())
}

/// The data of a report, as characters.
pub struct DataView {
    pub array: Option<Seq<char>>,
    pub index: Option<Seq<char>>,
    pub item: Option<Seq<char>>,
    pub length: Option<Seq<char>>,
    pub value: Option<Seq<char>>,
    pub iterable: Option<Seq<char>>,
    pub mapper: Option<Seq<char>>,
    pub regex: Option<Seq<char>>,
    pub string: Option<Seq<char>>,
    pub original: Option<Seq<char>>,
    pub name: Option<Seq<char>>,
    pub replacement: Option<Seq<char>>,
    pub url: Option<Seq<char>>,
    pub description: Option<Seq<char>>,
}

/// The data of a report, as characters.
pub open spec fn data_view(d: DiagnosticData) -> DataView {
    DataView {
        array: opt_view(d.array),
        index: opt_view(d.index),
        item: opt_view(d.item),
        length: opt_view(d.length),
        value: opt_view(d.value),
        iterable: opt_view(d.iterable),
        mapper: opt_view(d.mapper),
        regex: opt_view(d.regex),
        string: opt_view(d.string),
        original: opt_view(d.original),
        name: opt_view(d.name),
        replacement: opt_view(d.replacement),
        url: opt_view(d.url),
        description: opt_view(d.description),
    }
}

/// Data with no field set.
pub open spec fn no_data() -> DataView {
    DataView {
        array: None,
        index: None,
        item: None,
        length: None,
        value: None,
        iterable: None,
        mapper: None,
        regex: None,
        string: None,
        original: None,
        name: None,
        replacement: None,
        url: None,
        description: None,
    }
}

/// Data with no field set.
pub fn empty_data() -> (r: DiagnosticData)
    ensures
        data_view(r) == no_data(),
{
    DiagnosticData {
        array: None,
        index: None,
        item: None,
        length: None,
        value: None,
        iterable: None,
        mapper: None,
        regex: None,
        string: None,
        original: None,
        name: None,
        replacement: None,
        url: None,
        description: None,
    }
}

/// A fix as values.
pub struct FixView {
    pub start: u32,
    pub end: u32,
    pub replacement: Seq<char>,
}

/// A report as values.
pub struct DiagView {
    pub rule_name: &'static str,
    pub message_id: &'static str,
    pub data: DataView,
    pub loc: DiagnosticLoc,
    pub fix: Option<FixView>,
}

/// A report as values.
pub open spec fn diag_view(d: Diagnostic) -> DiagView {
    DiagView {
        rule_name: d.rule_name,
        message_id: d.message_id,
        data: data_view(d.data),
        loc: d.loc,
        fix: match d.fix {
            Some(f) => Some(FixView { start: f.start, end: f.end, replacement: f.replacement@ }),
            None => None,
        },
    }
}

/// Reports as values.
pub open spec fn diag_views(ds: Seq<Diagnostic>) -> Seq<DiagView> {
    ds.map_values(|d: Diagnostic| diag_view(d))
}

/// A rule violation found: the rule, the message, the data, the span it
/// covers and, if there is one, the text that replaces that span.
pub struct Report {
    pub rule: &'static str,
    pub message: &'static str,
    pub data: DataView,
    pub span: Span,
    pub fix: Option<Seq<char>>,
}

/// The report of a violation over `sp` with no data.
pub open spec fn plain(rule: &'static str, message: &'static str, sp: Span, fix: Option<Seq<char>>) -> Report {
    Report { rule, message, data: no_data(), span: sp, fix }
}

/// What a report becomes in the source `t`.
pub open spec fn report_view(t: Seq<char>, r: Report) -> DiagView {
    DiagView {
        rule_name: r.rule,
        message_id: r.message,
        data: r.data,
        loc: byte_loc(t, r.span),
        fix: match r.fix {
            Some(rep) => Some(FixView { start: r.span.start, end: r.span.end, replacement: rep }),
            None => None,
        },
    }
}

/// The report, if there is one and its rule runs.
pub open spec fn emit(t: Seq<char>, names: Seq<String>, r: Option<Report>) -> Seq<DiagView> {
    match r {
        Some(x) => if names_rule(names, x.rule) {
            seq![report_view(t, x)]
        } else {
            Seq::empty()
        },
        None => Seq::empty(),
    }
}

/// Appends the report of `rule` over `sp` when the rule runs.
pub fn push_report(
    out: &mut Vec<Diagnostic>,
    t: &[char],
    options: &E18eOptions,
    rule: &'static str,
    message: &'static str,
    data: DiagnosticData,
    sp: Span,
    fix: Option<String>,
)
    requires
        byte_len(t@) < u32::MAX,
    ensures
        diag_views(final(out)@) == diag_views(old(out)@) + emit(
            t@,
            options.rule_names@,
            Some(Report {
                rule,
                message,
                data: data_view(data),
                span: sp,
                fix: match fix {
                    Some(f) => Some(f@),
                    None => None,
                },
            }),
        ),
{
    let ghost before = out@;
    if options.has_rule(rule) {
        let s = char_index(t, sp.start);
        let e = char_index(t, sp.end);
        let (sl, sc) = crate::lines::lf_position_at(t, s);
        let (el, ec) = crate::lines::lf_position_at(t, e);
        let f = match fix {
            Some(rep) => Some(DiagnosticFix { start: sp.start, end: sp.end, replacement: rep }),
            None => None,
        };
        out.push(Diagnostic {
            rule_name: rule,
            message_id: message,
            data,
            loc: DiagnosticLoc { start_line: sl, start_column: sc, end_line: el, end_column: ec },
            fix: f,
        });
        assert(diag_views(out@) =~= diag_views(before).push(diag_view(out@.last())));
    } else {
        assert(diag_views(out@) =~= diag_views(before) + Seq::<DiagView>::empty());
    }
}

} // verus!
