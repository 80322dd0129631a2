//! What the JSON reader does, as functions of the source and of its state:
//! where it stands and what it has recorded so far.
use vstd::prelude::*;
use crate::text::{is_ws, trim_start, trim};
use crate::outside::is_alphanumeric;
use super::utf16::char_units;
use super::facts::{Span, MemberFact, ObjectFact, NumberFact, StringFact, TopLevelFact, JsonValueType, ParsedFacts};
use super::parser::{hex_value, escaped_chars, decoded_from};

verus! {

/// A member as values.
pub struct MemberView {
    pub key: Seq<char>,
    pub raw_key: Seq<char>,
    pub name_span: Span,
    pub key_content_span: Span,
    pub member_span: Span,
    pub key_has_escape: bool,
}

/// A member as values.
pub open spec fn member_view(m: MemberFact) -> MemberView {
    MemberView {
        key: m.key@,
        raw_key: m.raw_key@,
        name_span: m.name_span,
        key_content_span: m.key_content_span,
        member_span: m.member_span,
        key_has_escape: m.key_has_escape,
    }
}

/// Members as values.
pub open spec fn members_view(ms: Seq<MemberFact>) -> Seq<MemberView> {
    ms.map_values(|m: MemberFact| member_view(m))
}

/// What was recorded, as values: the top-level value, each object's
/// members, each number's text and span, each string's code units and
/// span, and the comments' spans.
pub struct FactsView {
    pub top_level: Option<TopLevelFact>,
    pub objects: Seq<Seq<MemberView>>,
    pub numbers: Seq<(Seq<char>, Span)>,
    pub strings: Seq<(Seq<u16>, Span)>,
    pub comments: Seq<Span>,
}

/// What was recorded, as values.
pub open spec fn facts_view(f: ParsedFacts) -> FactsView {
    FactsView {
        top_level: f.top_level,
        objects: f.objects@.map_values(|o: ObjectFact| members_view(o.members@)),
        numbers: f.numbers@.map_values(|n: NumberFact| (n.raw@, n.span)),
        strings: f.strings@.map_values(|s: StringFact| (s.code_units@, s.span)),
        comments: f.comments@,
    }
}

/// The reader's state: where it stands and what it has recorded.
pub struct ReadState {
    pub pos: int,
    pub facts: FactsView,
}

/// Nothing recorded, at the start of the source.
pub open spec fn start_state() -> ReadState {
    ReadState {
        pos: 0,
        facts: FactsView {
            top_level: None,
            objects: Seq::empty(),
            numbers: Seq::empty(),
            strings: Seq::empty(),
            comments: Seq::empty(),
        },
    }
}

/// The span `a..b`.
pub open spec fn span_of(a: int, b: int) -> Span {
    Span { start: a as usize, end: b as usize }
}

/// The state moved to `p`.
pub open spec fn moved_to(s: ReadState, p: int) -> ReadState {
    ReadState { pos: p, ..s }
}

/// A comment at `a..b` recorded, and the state moved to `b`.
pub open spec fn add_comment(s: ReadState, a: int, b: int) -> ReadState {
    ReadState { pos: b, facts: FactsView { comments: s.facts.comments.push(span_of(a, b)), ..s.facts } }
}

/// A string recorded.
pub open spec fn add_string(s: ReadState, units: Seq<u16>, span: Span) -> ReadState {
    ReadState { facts: FactsView { strings: s.facts.strings.push((units, span)), ..s.facts }, ..s }
}

/// A number recorded.
pub open spec fn add_number(s: ReadState, raw: Seq<char>, span: Span) -> ReadState {
    ReadState { facts: FactsView { numbers: s.facts.numbers.push((raw, span)), ..s.facts }, ..s }
}

/// An object recorded.
pub open spec fn add_object(s: ReadState, members: Seq<MemberView>) -> ReadState {
    ReadState { facts: FactsView { objects: s.facts.objects.push(members), ..s.facts }, ..s }
}

/// The top-level value recorded.
pub open spec fn set_top(s: ReadState, v: TopLevelFact) -> ReadState {
    ReadState { facts: FactsView { top_level: Some(v), ..s.facts }, ..s }
}

/// Whether `a` then `b` stand at `k`.
pub open spec fn pair_at(t: Seq<char>, k: int, a: char, b: char) -> bool {
    k + 1 < t.len() && t[k] == a && t[k + 1] == b
}

/// The first position from `i` that holds no whitespace.
pub open spec fn ws_run_end(t: Seq<char>, i: int) -> int
    decreases t.len() - i,
{
    if 0 <= i < t.len() && is_ws(t[i]) {
        ws_run_end(t, i + 1)
    } else {
        i
    }
}

/// The first position from `i` that holds a line break.
pub open spec fn line_end(t: Seq<char>, i: int) -> int
    decreases t.len() - i,
{
    if 0 <= i < t.len() && t[i] != '\n' && t[i] != '\r' {
        line_end(t, i + 1)
    } else {
        i
    }
}

/// The first position from `i` where `*/` stands.
pub open spec fn block_end(t: Seq<char>, i: int) -> int
    decreases t.len() - i,
{
    if 0 <= i < t.len() && !pair_at(t, i, '*', '/') {
        block_end(t, i + 1)
    } else {
        i
    }
}

/// Whitespace, then one comment if one starts there.
pub open spec fn ws_round(t: Seq<char>, s: ReadState) -> ReadState {
    let p = ws_run_end(t, s.pos);
    if pair_at(t, p, '/', '/') {
        add_comment(s, p, line_end(t, p))
    } else if pair_at(t, p, '/', '*') {
        let k = block_end(t, p + 2);
        add_comment(s, p, if pair_at(t, k, '*', '/') { k + 2 } else { k })
    } else {
        moved_to(s, p)
    }
}

/// Whitespace and comments skipped, the comments recorded.
pub open spec fn ws(t: Seq<char>, s: ReadState) -> ReadState
    decreases t.len() - s.pos,
{
    let s1 = ws_round(t, s);
    if s.pos < s1.pos <= t.len() {
        ws(t, s1)
    } else {
        s1
    }
}

/// `count` hex digits read from `i` on (`k` of them read so far, giving
/// `value`): the value when all are there, and the position after the
/// digits read.
pub open spec fn hex_digits(t: Seq<char>, i: int, count: nat, value: u32, k: nat) -> (Option<u32>, int)
    decreases count - k,
{
    if k >= count {
        (Some(value), i)
    } else if i < 0 || i >= t.len() {
        (None, i)
    } else {
        match hex_value(t[i]) {
            Some(d) => hex_digits(t, i + 1, count, (16 * value + d) as u32, k + 1),
            None => (None, i),
        }
    }
}

/// An escape's reading: what it adds to the value, to the text as written
/// and to the code units, and where it ends.
pub struct EscapeView {
    pub value: Seq<char>,
    pub raw: Seq<char>,
    pub units: Seq<u16>,
    pub end: int,
}

/// The character and code unit of a one-letter control escape.
pub open spec fn control_escape(c: char) -> Option<(char, u16)> {
    if c == 'b' {
        Some(('\u{0008}', 0x0008u16))
    } else if c == 'f' {
        Some(('\u{000c}', 0x000cu16))
    } else if c == 'n' {
        Some(('\n', 0x000au16))
    } else if c == 'r' {
        Some(('\r', 0x000du16))
    } else if c == 't' {
        Some(('\t', 0x0009u16))
    } else if c == 'v' {
        Some(('\u{000b}', 0x000bu16))
    } else {
        None
    }
}

/// The escape after a backslash, at `i`.
pub open spec fn escape_read(t: Seq<char>, i: int) -> EscapeView {
    if i < 0 || i >= t.len() {
        EscapeView { value: Seq::empty(), raw: Seq::empty(), units: Seq::empty(), end: i }
    } else {
        let ch = t[i];
        let raw = seq![ch];
        if ch == '"' || ch == '\'' || ch == '\\' || ch == '/' {
            EscapeView { value: seq![ch], raw, units: char_units(ch), end: i + 1 }
        } else if control_escape(ch) is Some {
            let (c, u) = control_escape(ch)->0;
            EscapeView { value: seq![c], raw, units: seq![u], end: i + 1 }
        } else if ch == 'x' || ch == 'u' {
            let h = hex_digits(t, i + 1, if ch == 'x' { 2 } else { 4 }, 0, 0);
            match h.0 {
                Some(v) => EscapeView {
                    value: escaped_chars(Some(v as u16 as u32)),
                    raw: raw + t.subrange(i + 1, h.1),
                    units: seq![v as u16],
                    end: h.1,
                },
                None => EscapeView { value: Seq::empty(), raw, units: Seq::empty(), end: h.1 },
            }
        } else if ch == '\n' || ch == '\r' {
            EscapeView { value: Seq::empty(), raw, units: Seq::empty(), end: i + 1 }
        } else {
            EscapeView { value: seq![ch], raw, units: char_units(ch), end: i + 1 }
        }
    }
}

/// A string literal's reading: its value, its content as written, its
/// value's code units, whether it holds an escape, and where its content
/// ends.
pub struct StrView {
    pub value: Seq<char>,
    pub raw: Seq<char>,
    pub units: Seq<u16>,
    pub has_escape: bool,
    pub content_end: int,
}

/// A string's content read from `i` on, `acc` read so far: the string when
/// its closing `quote` comes, and the position after what was read.
pub open spec fn string_rest(t: Seq<char>, i: int, quote: char, acc: StrView) -> (Option<StrView>, int)
    decreases t.len() - i,
{
    if i < 0 || i >= t.len() {
        (None, i)
    } else if t[i] == quote {
        (Some(StrView { content_end: i, ..acc }), i + 1)
    } else if t[i] == '\\' {
        let e = escape_read(t, i + 1);
        if i < e.end <= t.len() {
            string_rest(
                t,
                e.end,
                quote,
                StrView {
                    value: acc.value + e.value,
                    raw: acc.raw.push('\\') + e.raw,
                    units: acc.units + e.units,
                    has_escape: true,
                    ..acc
                },
            )
        } else {
            (None, e.end)
        }
    } else {
        string_rest(
            t,
            i + 1,
            quote,
            StrView { value: acc.value.push(t[i]), raw: acc.raw.push(t[i]), units: acc.units + char_units(t[i]), ..acc },
        )
    }
}

/// A string literal whose opening `quote` stands at `i`.
pub open spec fn string_read(t: Seq<char>, i: int, quote: char) -> (Option<StrView>, int) {
    string_rest(
        t,
        i + 1,
        quote,
        StrView { value: Seq::empty(), raw: Seq::empty(), units: Seq::empty(), has_escape: false, content_end: 0 },
    )
}

/// Whether `c` may continue an identifier.
pub open spec fn ident_continue(c: char) -> bool {
    is_alphanumeric(c) || c == '_' || c == '$'
}

/// Past one sign at `i`, if there is one.
pub open spec fn sign_skip(t: Seq<char>, i: int) -> int {
    if 0 <= i < t.len() && (t[i] == '+' || t[i] == '-') {
        i + 1
    } else {
        i
    }
}

/// Where the word `w` ends when it stands at `start`, after one sign at
/// most, and no identifier character follows it.
pub open spec fn signed_word_end(t: Seq<char>, start: int, w: Seq<char>) -> Option<int> {
    let b = sign_skip(t, start);
    if w.len() == 0 || w.len() > t.len() - b {
        None
    } else if t.subrange(b, b + w.len()) != w {
        None
    } else if b + w.len() < t.len() && ident_continue(t[b + w.len()]) {
        None
    } else {
        Some(b + w.len())
    }
}

/// The end of a run of hex digits from `i`.
pub open spec fn hex_run_end(t: Seq<char>, i: int) -> int
    decreases t.len() - i,
{
    if 0 <= i < t.len() && hex_value(t[i]) is Some {
        hex_run_end(t, i + 1)
    } else {
        i
    }
}

/// The end of a decimal number's digits, one dot and one exponent from
/// `i`.
pub open spec fn decimal_end(t: Seq<char>, i: int, dot: bool, exp: bool) -> int
    decreases t.len() - i,
{
    if i < 0 || i >= t.len() {
        i
    } else if '0' <= t[i] <= '9' {
        decimal_end(t, i + 1, dot, exp)
    } else if t[i] == '.' && !dot && !exp {
        decimal_end(t, i + 1, true, exp)
    } else if (t[i] == 'e' || t[i] == 'E') && !exp {
        decimal_end(t, sign_skip(t, i + 1), dot, true)
    } else {
        i
    }
}

/// The end of a number, or a signed `Infinity` or `NaN`, at `start`.
pub open spec fn number_end(t: Seq<char>, start: int) -> int {
    match signed_word_end(t, start, "Infinity"@) {
        Some(e) => e,
        None => match signed_word_end(t, start, "NaN"@) {
            Some(e) => e,
            None => {
                let p = sign_skip(t, start);
                if pair_at(t, p, '0', 'x') || pair_at(t, p, '0', 'X') {
                    hex_run_end(t, p + 2)
                } else {
                    decimal_end(t, p, false, false)
                }
            },
        },
    }
}

/// Whether `c` is a structural character.
pub open spec fn structural(c: char) -> bool {
    c == ':' || c == ',' || c == '}' || c == ']' || c == '{' || c == '['
}

/// The first position from `i` that holds whitespace or a structural
/// character.
pub open spec fn ident_end(t: Seq<char>, i: int) -> int
    decreases t.len() - i,
{
    if 0 <= i < t.len() && !is_ws(t[i]) && !structural(t[i]) {
        ident_end(t, i + 1)
    } else {
        i
    }
}

/// Where `t[a..b]` starts once trimmed.
pub open spec fn trim_lo(t: Seq<char>, a: int, b: int) -> int {
    b - trim_start(t.subrange(a, b)).len()
}

/// Where `t[a..b]` ends once trimmed.
pub open spec fn trim_hi(t: Seq<char>, a: int, b: int) -> int {
    trim_lo(t, a, b) + trim(t.subrange(a, b)).len()
}

/// The kind of a bare word.
pub open spec fn word_kind(w: Seq<char>) -> JsonValueType {
    if w == "true"@ || w == "false"@ {
        JsonValueType::Boolean
    } else if w == "null"@ {
        JsonValueType::Null
    } else {
        JsonValueType::Identifier
    }
}

/// A member's key at the state's position: a string literal, or a bare
/// word whose escapes are decoded.
pub open spec fn key_read(t: Seq<char>, s: ReadState) -> (Option<MemberView>, ReadState) {
    let p = s.pos;
    if p < 0 || p >= t.len() {
        (None, s)
    } else if t[p] == '"' || t[p] == '\'' {
        let r = string_read(t, p, t[p]);
        match r.0 {
            None => (None, moved_to(s, r.1)),
            Some(v) => (
                Some(
                    MemberView {
                        key: v.value,
                        raw_key: v.raw,
                        name_span: span_of(p, r.1),
                        key_content_span: span_of(p + 1, v.content_end),
                        member_span: span_of(p, p),
                        key_has_escape: v.has_escape,
                    },
                ),
                add_string(moved_to(s, r.1), v.units, span_of(p, r.1)),
            ),
        }
    } else {
        let e = ident_end(t, p);
        let a = trim_lo(t, p, e);
        let b = trim_hi(t, p, e);
        if a == b {
            (None, moved_to(s, e))
        } else {
            let key = decoded_from(t, b, a);
            let raw = t.subrange(a, b);
            (
                Some(
                    MemberView {
                        key,
                        raw_key: raw,
                        name_span: span_of(p, e),
                        key_content_span: span_of(p, e),
                        member_span: span_of(p, p),
                        key_has_escape: key != raw,
                    },
                ),
                moved_to(s, e),
            )
        }
    }
}

/// Whether a value starting with `c` is read as a number.
pub open spec fn number_start(c: char) -> bool {
    c == '+' || c == '-' || c == '.' || ('0' <= c && c <= '9')
}

/// A value, after whitespace and comments.
pub open spec fn value_read(t: Seq<char>, s: ReadState) -> (Option<TopLevelFact>, ReadState)
    decreases t.len() - s.pos, 2nat,
{
    let s1 = ws(t, s);
    let p = s1.pos;
    if p < s.pos || p >= t.len() {
        (None, s1)
    } else {
        let c = t[p];
        if c == '{' {
            object_read(t, s1)
        } else if c == '[' {
            array_read(t, s1)
        } else if c == '"' || c == '\'' {
            let r = string_read(t, p, c);
            match r.0 {
                None => (None, moved_to(s1, r.1)),
                Some(v) => (
                    Some(TopLevelFact { value_type: JsonValueType::String, span: span_of(p, r.1) }),
                    add_string(moved_to(s1, r.1), v.units, span_of(p, r.1)),
                ),
            }
        } else if number_start(c) {
            let e = number_end(t, p);
            (
                Some(TopLevelFact { value_type: JsonValueType::Number, span: span_of(p, e) }),
                add_number(moved_to(s1, e), t.subrange(p, e), span_of(p, e)),
            )
        } else {
            let e = ident_end(t, p);
            (
                Some(TopLevelFact { value_type: word_kind(t.subrange(trim_lo(t, p, e), trim_hi(t, p, e))), span: span_of(p, e) }),
                moved_to(s1, e),
            )
        }
    }
}

/// An object whose `{` stands at the state's position.
pub open spec fn object_read(t: Seq<char>, s: ReadState) -> (Option<TopLevelFact>, ReadState)
    decreases t.len() - s.pos, 1nat,
{
    if s.pos < 0 || s.pos >= t.len() {
        (None, s)
    } else {
        members_read(t, moved_to(s, s.pos + 1), s.pos, Seq::empty())
    }
}

/// An object that started at `start` closed with its members recorded.
pub open spec fn object_done(s: ReadState, start: int, members: Seq<MemberView>) -> (Option<TopLevelFact>, ReadState) {
    (Some(TopLevelFact { value_type: JsonValueType::Object, span: span_of(start, s.pos) }), add_object(s, members))
}

/// An object's members read from the state's position on, `members` read
/// so far.
pub open spec fn members_read(t: Seq<char>, s: ReadState, start: int, members: Seq<MemberView>) -> (Option<TopLevelFact>, ReadState)
    decreases t.len() - s.pos, 0nat,
{
    let s1 = ws(t, s);
    if s1.pos < s.pos {
        (None, s1)
    } else if s1.pos < t.len() && t[s1.pos] == '}' {
        object_done(moved_to(s1, s1.pos + 1), start, members)
    } else {
        let m0 = s1.pos;
        let k = key_read(t, s1);
        match k.0 {
            None => (None, k.1),
            Some(key) => {
                let s3 = ws(t, k.1);
                if !(s3.pos < t.len() && t[s3.pos] == ':') {
                    (None, s3)
                } else {
                    let s4 = moved_to(s3, s3.pos + 1);
                    if !(s.pos < s4.pos <= t.len()) {
                        (None, s4)
                    } else {
                        let v = value_read(t, s4);
                        match v.0 {
                            None => (None, v.1),
                            Some(val) => {
                                let ms = members.push(MemberView { member_span: span_of(m0, val.span.end as int), ..key });
                                let s6 = ws(t, v.1);
                                if s6.pos < t.len() && t[s6.pos] == ',' {
                                    let s7 = moved_to(s6, s6.pos + 1);
                                    if s.pos < s7.pos <= t.len() {
                                        members_read(t, s7, start, ms)
                                    } else {
                                        (None, s7)
                                    }
                                } else if s6.pos < t.len() && t[s6.pos] == '}' {
                                    object_done(moved_to(s6, s6.pos + 1), start, ms)
                                } else {
                                    (None, s6)
                                }
                            },
                        }
                    }
                }
            },
        }
    }
}

/// An array whose `[` stands at the state's position.
pub open spec fn array_read(t: Seq<char>, s: ReadState) -> (Option<TopLevelFact>, ReadState)
    decreases t.len() - s.pos, 1nat,
{
    if s.pos < 0 || s.pos >= t.len() {
        (None, s)
    } else {
        elements_read(t, moved_to(s, s.pos + 1), s.pos)
    }
}

/// An array that started at `start` closed.
pub open spec fn array_done(s: ReadState, start: int) -> (Option<TopLevelFact>, ReadState) {
    (Some(TopLevelFact { value_type: JsonValueType::Array, span: span_of(start, s.pos) }), s)
}

/// An array's elements read from the state's position on.
pub open spec fn elements_read(t: Seq<char>, s: ReadState, start: int) -> (Option<TopLevelFact>, ReadState)
    decreases t.len() + 1 - s.pos, 0nat,
{
    let s1 = ws(t, s);
    if s1.pos < s.pos {
        (None, s1)
    } else if s1.pos < t.len() && t[s1.pos] == ']' {
        array_done(moved_to(s1, s1.pos + 1), start)
    } else if !(s.pos <= s1.pos <= t.len()) {
        (None, s1)
    } else {
        let v = value_read(t, s1);
        match v.0 {
            None => (None, v.1),
            Some(_) => {
                let s3 = ws(t, v.1);
                if s3.pos < t.len() && t[s3.pos] == ',' {
                    let s4 = moved_to(s3, s3.pos + 1);
                    if s.pos < s4.pos <= t.len() {
                        elements_read(t, s4, start)
                    } else {
                        (None, s4)
                    }
                } else if s3.pos < t.len() && t[s3.pos] == ']' {
                    array_done(moved_to(s3, s3.pos + 1), start)
                } else {
                    (None, s3)
                }
            },
        }
    }
}

/// The top-level value, with the whitespace and comments around it.
pub open spec fn document_read(t: Seq<char>, s: ReadState) -> (Option<TopLevelFact>, ReadState) {
    let v = value_read(t, ws(t, s));
    match v.0 {
        None => (None, v.1),
        Some(x) => (Some(x), ws(t, set_top(v.1, x))),
    }
}

/// What reading a source from its start gives.
pub open spec fn parsed(t: Seq<char>) -> (Option<TopLevelFact>, ReadState) {
    document_read(t, start_state())
}

} // verus!
