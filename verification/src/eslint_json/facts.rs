//! What the parser finds in a JSON source, and the reports of the rules.
//! Spans are character indices of the source.
use vstd::prelude::*;
use crate::text::{byte_len, utf16_len, len_utf16, lemma_utf16_len_take_step, lemma_utf16_le_bytes, lemma_byte_len_take_mono, lemma_byte_len_bounds};
use crate::lines::{lf_count, lf_column, lf_position_at};
use super::rules::DiagnosticLoc;

verus! {

/// The characters `start..end` of the source.
#[derive(Clone, Copy, Debug, PartialEq, Eq, Structural)]
pub struct Span {
    pub start: usize,
    pub end: usize,
}

/// One member of an object: its key's value and its text as written, the
/// span of the key with its quotes, of the key's content, and of the whole
/// member, and whether the key holds an escape.
#[derive(Clone, Debug)]
pub struct MemberFact {
    pub key: String,
    pub raw_key: String,
    pub name_span: Span,
    pub key_content_span: Span,
    pub member_span: Span,
    pub key_has_escape: bool,
}

/// The members of one object, in source order.
#[derive(Clone, Debug)]
pub struct ObjectFact {
    pub members: Vec<MemberFact>,
}

/// A number as written.
#[derive(Clone, Debug)]
pub struct NumberFact {
    pub raw: String,
    pub span: Span,
}

/// A string's value as UTF-16 code units.
#[derive(Clone, Debug)]
pub struct StringFact {
    pub code_units: Vec<u16>,
    pub span: Span,
}

/// The kinds of JSON values.
#[derive(Clone, Copy, Debug, PartialEq, Eq, Structural)]
pub enum JsonValueType {
    Object,
    Array,
    String,
    Number,
    Boolean,
    Null,
    Identifier,
}

/// The kind's name in reports.
pub open spec fn kind_name(t: JsonValueType) -> &'static str {
    match t {
        JsonValueType::Object => "Object",
        JsonValueType::Array => "Array",
        JsonValueType::String => "String",
        JsonValueType::Number => "Number",
        JsonValueType::Boolean => "Boolean",
        JsonValueType::Null => "Null",
        JsonValueType::Identifier => "Identifier",
    }
}

impl JsonValueType {
    /// The kind's name in reports.
    pub fn upstream_name(self) -> (r: &'static str)
        ensures
            r == kind_name(self),
    {
        match self {
            JsonValueType::Object => "Object",
            JsonValueType::Array => "Array",
            JsonValueType::String => "String",
            JsonValueType::Number => "Number",
            JsonValueType::Boolean => "Boolean",
            JsonValueType::Null => "Null",
            JsonValueType::Identifier => "Identifier",
        }
    }
}

/// A value's kind and span.
#[derive(Clone, Copy, Debug, PartialEq, Eq, Structural)]
pub struct TopLevelFact {
    pub value_type: JsonValueType,
    pub span: Span,
}

/// What a parse found: the top-level value, the objects (innermost
/// first), the numbers, the strings and keys, and the comments.
#[derive(Clone, Debug)]
pub struct ParsedFacts {
    pub top_level: Option<TopLevelFact>,
    pub objects: Vec<ObjectFact>,
    pub numbers: Vec<NumberFact>,
    pub strings: Vec<StringFact>,
    pub comments: Vec<Span>,
}

/// A span within a source of `n` characters.
pub open spec fn span_wf(s: Span, n: int) -> bool {
    s.start <= s.end <= n
}

/// The members' spans lie within the source, members in source order.
pub open spec fn members_wf(ms: Seq<MemberFact>, n: int) -> bool {
    &&& forall|j: int| 0 <= j < ms.len() ==> {
        &&& span_wf(#[trigger] ms[j].name_span, n)
        &&& span_wf(ms[j].key_content_span, n)
        &&& span_wf(ms[j].member_span, n)
    }
    &&& forall|i: int, j: int| 0 <= i < j < ms.len() ==> #[trigger] ms[i].member_span.end <= #[trigger] ms[j].member_span.start
}

/// Every span of the facts lies within a source of `n` characters.
pub open spec fn facts_wf(f: ParsedFacts, n: int) -> bool {
    &&& forall|k: int| 0 <= k < f.objects@.len() ==> members_wf(#[trigger] f.objects@[k].members@, n)
    &&& forall|k: int| 0 <= k < f.numbers@.len() ==> span_wf(#[trigger] f.numbers@[k].span, n)
    &&& forall|k: int| 0 <= k < f.strings@.len() ==> span_wf(#[trigger] f.strings@[k].span, n)
    &&& forall|k: int| 0 <= k < f.comments@.len() ==> span_wf(#[trigger] f.comments@[k], n)
    &&& f.top_level matches Some(t) ==> span_wf(t.span, n)
}

/// What a report carries besides its rule, message and location.
#[derive(Clone, Debug)]
pub struct DiagnosticData {
    pub key: Option<String>,
    pub value: Option<String>,
    pub surrogate: Option<String>,
    pub value_type: Option<String>,
    pub this_name: Option<String>,
    pub prev_name: Option<String>,
    pub direction: Option<String>,
    pub sensitivity: Option<String>,
    pub sort_name: Option<String>,
}

impl Default for DiagnosticData {
    fn default() -> (r: Self)
        ensures
            r@ == empty_data(),
    {
        DiagnosticData {
            key: None,
            value: None,
            surrogate: None,
            value_type: None,
            this_name: None,
            prev_name: None,
            direction: None,
            sensitivity: None,
            sort_name: None,
        }
    }
}

/// A replacement of the UTF-16 code units `start..end` of the source.
#[derive(Clone, Debug)]
pub struct DiagnosticFix {
    pub start: u32,
    pub end: u32,
    pub replacement: String,
}

/// A reported rule violation.
#[derive(Clone, Debug)]
pub struct Diagnostic {
    pub rule_name: &'static str,
    pub message_id: &'static str,
    pub data: DiagnosticData,
    pub loc: DiagnosticLoc,
    pub fix: Option<DiagnosticFix>,
}

pub struct DataView {
    pub key: Option<Seq<char>>,
    pub value: Option<Seq<char>>,
    pub surrogate: Option<Seq<char>>,
    pub value_type: Option<Seq<char>>,
    pub this_name: Option<Seq<char>>,
    pub prev_name: Option<Seq<char>>,
    pub direction: Option<Seq<char>>,
    pub sensitivity: Option<Seq<char>>,
    pub sort_name: Option<Seq<char>>,
}

pub struct FixView {
    pub start: u32,
    pub end: u32,
    pub replacement: Seq<char>,
}

pub struct DiagnosticView {
    pub rule_name: &'static str,
    pub message_id: &'static str,
    pub data: DataView,
    pub loc: DiagnosticLoc,
    pub fix: Option<FixView>,
}

/// The characters of an optional string.
pub open spec fn opt_view(o: Option<String>) -> Option<Seq<char>> {
    match o {
        Some(s) => Some(s@),
        None => None,
    }
}

/// Data with nothing in it.
pub open spec fn empty_data() -> DataView {
    DataView {
        key: None,
        value: None,
        surrogate: None,
        value_type: None,
        this_name: None,
        prev_name: None,
        direction: None,
        sensitivity: None,
        sort_name: None,
    }
}

impl View for DiagnosticData {
    type V = DataView;

    open spec fn view(&self) -> DataView {
        DataView {
            key: opt_view(self.key),
            value: opt_view(self.value),
            surrogate: opt_view(self.surrogate),
            value_type: opt_view(self.value_type),
            this_name: opt_view(self.this_name),
            prev_name: opt_view(self.prev_name),
            direction: opt_view(self.direction),
            sensitivity: opt_view(self.sensitivity),
            sort_name: opt_view(self.sort_name),
        }
    }
}

impl View for DiagnosticFix {
    type V = FixView;

    open spec fn view(&self) -> FixView {
        FixView { start: self.start, end: self.end, replacement: self.replacement@ }
    }
}

impl View for Diagnostic {
    type V = DiagnosticView;

    open spec fn view(&self) -> DiagnosticView {
        DiagnosticView {
            rule_name: self.rule_name,
            message_id: self.message_id,
            data: self.data@,
            loc: self.loc,
            fix: match self.fix {
                Some(f) => Some(f@),
                None => None,
            },
        }
    }
}

/// The reports' views, in order.
pub open spec fn diagnostics_view(ds: Seq<Diagnostic>) -> Seq<DiagnosticView> {
    ds.map_values(|d: Diagnostic| d@)
}

/// Pushing a report pushes its view.
pub proof fn lemma_diagnostics_view_push(ds: Seq<Diagnostic>, d: Diagnostic)
    ensures
        diagnostics_view(ds.push(d)) == diagnostics_view(ds).push(d@),
{
    assert(diagnostics_view(ds.push(d)) =~= diagnostics_view(ds).push(d@));
}

/// The one-based line and UTF-16 column of the start and the end of a span
/// of `t`, lines ending at `\n`.
pub open spec fn span_loc(t: Seq<char>, span: Span) -> DiagnosticLoc {
    DiagnosticLoc {
        start_line: (1 + lf_count(t.take(span.start as int))) as u32,
        start_column: lf_column(t.take(span.start as int)) as u32,
        end_line: (1 + lf_count(t.take(span.end as int))) as u32,
        end_column: lf_column(t.take(span.end as int)) as u32,
    }
}

/// The location of `span` in `t`.
pub fn loc_for_span(t: &[char], span: Span) -> (r: DiagnosticLoc)
    requires
        span_wf(span, t@.len() as int),
        byte_len(t@) < u32::MAX,
    ensures
        r == span_loc(t@, span),
{
    let (sl, sc) = lf_position_at(t, span.start);
    let (el, ec) = lf_position_at(t, span.end);
    DiagnosticLoc { start_line: sl, start_column: sc, end_line: el, end_column: ec }
}

/// The UTF-16 offset of character `k` of `t`.
pub open spec fn utf16_at(t: Seq<char>, k: int) -> u32 {
    utf16_len(t.take(k)) as u32
}

/// The UTF-16 offset of character `k` of `t`.
pub fn utf16_offset(t: &[char], k: usize) -> (r: u32)
    requires
        k <= t@.len(),
        byte_len(t@) < u32::MAX,
    ensures
        r == utf16_at(t@, k as int),
        r == utf16_len(t@.take(k as int)),
{
    let mut i: usize = 0;
    let mut n: u32 = 0;
    proof {
        assert(t@.take(t@.len() as int) =~= t@);
    }
    while i < k
        invariant
            i <= k <= t@.len(),
            byte_len(t@) < u32::MAX,
            n == utf16_len(t@.take(i as int)),
        decreases k - i,
    {
        proof {
            lemma_utf16_len_take_step(t@, i as int);
            lemma_utf16_le_bytes(t@.take(i + 1));
            lemma_byte_len_take_mono(t@, i + 1, t@.len() as int);
            assert(t@.take(t@.len() as int) =~= t@);
        }
        n = n + len_utf16(t[i]) as u32;
        i = i + 1;
    }
    n
}

} // verus!
