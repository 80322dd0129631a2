//! A tolerant JSON and JSON5 reader: it walks the source once and records
//! the objects with their members, the numbers, the strings, the comments
//! and the top-level value. Positions are character indices.
use vstd::prelude::*;
use crate::text::{is_whitespace, push_char, string_from, trim_range};
use crate::outside::{char_is_alphanumeric, char_from_u32};
use super::utf16::push_char_units;
use super::reading::{
    ReadState, facts_view, members_view, member_view, ws, ws_round, ws_run_end, line_end, block_end, pair_at,
    span_of, moved_to, hex_digits, escape_read, control_escape, StrView, string_rest, string_read,
    signed_word_end, sign_skip, hex_run_end, decimal_end, number_end, ident_end, trim_lo, trim_hi, word_kind,
    add_number, add_string, add_object, key_read, MemberView, ident_continue, structural, value_read,
    object_read, array_read, members_read, elements_read, object_done, array_done, document_read, parsed,
    start_state, set_top,
};
use super::facts::{
    Span, MemberFact, ObjectFact, NumberFact, StringFact, TopLevelFact, JsonValueType, ParsedFacts,
    span_wf, members_wf, facts_wf,
};

verus! {

/// The value of a hexadecimal digit.
pub open spec fn hex_value(c: char) -> Option<u32> {
    if '0' <= c <= '9' {
        Some((c as u32 - '0' as u32) as u32)
    } else if 'a' <= c <= 'f' {
        Some((c as u32 - 'a' as u32 + 10) as u32)
    } else if 'A' <= c <= 'F' {
        Some((c as u32 - 'A' as u32 + 10) as u32)
    } else {
        None
    }
}

/// The value of `c` as a hexadecimal digit (`char::to_digit(16)`).
pub fn hex_digit_value(c: char) -> (r: Option<u32>)
    ensures
        r == hex_value(c),
        r matches Some(d) ==> d < 16,
{
    if '0' <= c && c <= '9' {
        Some(c as u32 - '0' as u32)
    } else if 'a' <= c && c <= 'f' {
        Some(c as u32 - 'a' as u32 + 10)
    } else if 'A' <= c && c <= 'F' {
        Some(c as u32 - 'A' as u32 + 10)
    } else {
        None
    }
}

/// `16 * value + digit`, stopping at the largest `u32`.
pub open spec fn saturated_step(value: u32, digit: u32) -> u32 {
    if 16 * value + digit > u32::MAX { u32::MAX } else { (16 * value + digit) as u32 }
}

/// `16 * value + digit`, stopping at the largest `u32`.
fn saturating_step(value: u32, digit: u32) -> (r: u32)
    requires
        digit < 16,
    ensures
        r == saturated_step(value, digit),
{
    let m: u32 = if value > 0xFFFF_FFFF / 16 { 0xFFFF_FFFF } else { value * 16 };
    if m > 0xFFFF_FFFF - digit { 0xFFFF_FFFF } else { m + digit }
}

/// Whether `ch` may continue an identifier: a letter or digit, `_` or `$`.
pub fn is_identifier_continue(ch: char) -> (r: bool)
    ensures
        r == (crate::outside::is_alphanumeric(ch) || ch == '_' || ch == '$'),
{
    char_is_alphanumeric(ch) || ch == '_' || ch == '$'
}

/// The code of a braced escape read from `i` on, within `t[..to]`: hex
/// digits (saturating at the largest `u32`) up to a closing brace, which is
/// consumed, or up to anything else, which is not; a code only when some
/// digit was read. Also the position after it.
pub open spec fn braced_code(t: Seq<char>, to: int, i: int, value: u32, any: bool) -> (Option<u32>, int)
    decreases to - i,
{
    if i >= to {
        (if any { Some(value) } else { None }, i)
    } else if t[i] == '}' {
        (if any { Some(value) } else { None }, i + 1)
    } else {
        match hex_value(t[i]) {
            Some(d) => braced_code(t, to, i + 1, saturated_step(value, d), true),
            None => (if any { Some(value) } else { None }, i),
        }
    }
}

/// The code of a four-digit escape read from `i` on, within `t[..to]`, with
/// `count` digits read so far: a code only when four hex digits follow.
/// Also the position after the digits read.
pub open spec fn four_digit_code(t: Seq<char>, to: int, i: int, value: u32, count: nat) -> (Option<u32>, int)
    decreases 4 - count,
{
    if count >= 4 {
        (Some(value), i)
    } else if i >= to {
        (None, i)
    } else {
        match hex_value(t[i]) {
            Some(d) => four_digit_code(t, to, i + 1, (16 * value + d) as u32, count + 1),
            None => (None, i),
        }
    }
}

/// The character an escape's code stands for: none when there is no code,
/// or the code is a surrogate or above `0x10FFFF`.
pub open spec fn escaped_chars(code: Option<u32>) -> Seq<char> {
    match code {
        Some(v) => if 0xD800 <= v <= 0xDFFF || v > 0x10FFFF { Seq::empty() } else { seq![v as char] },
        None => Seq::empty(),
    }
}

/// The decoded value of `t[i..to]`: each `\u` escape, braced or of four
/// digits, stands for its character; any other character stands for itself.
pub open spec fn decoded_from(t: Seq<char>, to: int, i: int) -> Seq<char>
    decreases to - i,
{
    if i >= to || i < 0 {
        Seq::empty()
    } else if t[i] != '\\' || !(i + 1 < to && t[i + 1] == 'u') {
        seq![t[i]] + decoded_from(t, to, i + 1)
    } else {
        let e = if i + 2 < to && t[i + 2] == '{' {
            braced_code(t, to, i + 3, 0, false)
        } else {
            four_digit_code(t, to, i + 2, 0, 0)
        };
        if i < e.1 <= to {
            escaped_chars(e.0) + decoded_from(t, to, e.1)
        } else {
            Seq::empty()
        }
    }
}

proof fn lemma_braced_code_advances(t: Seq<char>, to: int, i: int, value: u32, any: bool)
    requires
        i <= to,
    ensures
        i <= braced_code(t, to, i, value, any).1 <= to,
    decreases to - i,
{
    if i < to && t[i] != '}' {
        if let Some(d) = hex_value(t[i]) {
            lemma_braced_code_advances(t, to, i + 1, saturated_step(value, d), true);
        }
    }
}

proof fn lemma_four_digit_code_advances(t: Seq<char>, to: int, i: int, value: u32, count: nat)
    requires
        i <= to,
    ensures
        i <= four_digit_code(t, to, i, value, count).1 <= to,
    decreases 4 - count,
{
    if count < 4 && i < to {
        if let Some(d) = hex_value(t[i]) {
            lemma_four_digit_code_advances(t, to, i + 1, (16 * value + d) as u32, count + 1);
        }
    }
}

/// Reads a braced escape's digits from `i` on.
fn read_braced_code(t: &[char], to: usize, i: usize) -> (r: (Option<u32>, usize))
    requires
        i <= to <= t@.len(),
    ensures
        (r.0, r.1 as int) == braced_code(t@, to as int, i as int, 0, false),
        i <= r.1 <= to,
{
    let mut k = i;
    let mut value: u32 = 0;
    let mut any = false;
    proof {
        lemma_braced_code_advances(t@, to as int, i as int, 0, false);
    }
    while k < to
        invariant
            i <= k <= to <= t@.len(),
            braced_code(t@, to as int, k as int, value, any) == braced_code(t@, to as int, i as int, 0, false),
        decreases to - k,
    {
        let candidate = t[k];
        if candidate == '}' {
            return (if any { Some(value) } else { None }, k + 1);
        }
        match hex_digit_value(candidate) {
            Some(digit) => {
                value = saturating_step(value, digit);
                any = true;
                k = k + 1;
            },
            None => {
                return (if any { Some(value) } else { None }, k);
            },
        }
    }
    (if any { Some(value) } else { None }, k)
}

/// Reads a four-digit escape's digits from `i` on.
fn read_four_digit_code(t: &[char], to: usize, i: usize) -> (r: (Option<u32>, usize))
    requires
        i <= to <= t@.len(),
    ensures
        (r.0, r.1 as int) == four_digit_code(t@, to as int, i as int, 0, 0),
        i <= r.1 <= to,
{
    let mut k = i;
    let mut value: u32 = 0;
    let mut count: u32 = 0;
    proof {
        lemma_four_digit_code_advances(t@, to as int, i as int, 0, 0);
    }
    while count < 4
        invariant
            i <= k <= to <= t@.len(),
            count <= 4,
            value < 0x10000,
            count == 0 ==> value == 0,
            count == 1 ==> value < 0x10,
            count == 2 ==> value < 0x100,
            count == 3 ==> value < 0x1000,
            four_digit_code(t@, to as int, k as int, value, count as nat) == four_digit_code(t@, to as int, i as int, 0, 0),
        decreases 4 - count,
    {
        if k >= to {
            return (None, k);
        }
        match hex_digit_value(t[k]) {
            Some(digit) => {
                value = value * 16 + digit;
                count = count + 1;
                k = k + 1;
            },
            None => {
                return (None, k);
            },
        }
    }
    (Some(value), k)
}

/// The value of an identifier key written `t[from..to]`: each escape
/// `\uXXXX` or `\u{...}` stands for its character; an escape whose digits
/// are missing, or whose code is no character, stands for nothing.
pub fn decode_identifier_escapes(t: &[char], from: usize, to: usize) -> (r: String)
    requires
        from <= to <= t@.len(),
    ensures
        r@ == decoded_from(t@, to as int, from as int),
{
    let mut out = String::new();
    let mut i = from;
    while i < to
        invariant
            from <= i <= to <= t@.len(),
            decoded_from(t@, to as int, from as int) == out@ + decoded_from(t@, to as int, i as int),
        decreases to - i,
    {
        let ch = t[i];
        if ch != '\\' || !(i + 1 < to && t[i + 1] == 'u') {
            let ghost before = out@;
            push_char(&mut out, ch);
            proof {
                assert(out@ + decoded_from(t@, to as int, i + 1) =~= before + (seq![ch] + decoded_from(t@, to as int, i + 1)));
            }
            i = i + 1;
            continue;
        }
        let e = if i + 2 < to && t[i + 2] == '{' {
            read_braced_code(t, to, i + 3)
        } else {
            read_four_digit_code(t, to, i + 2)
        };
        let ghost before = out@;
        match e.0 {
            Some(v) => match char_from_u32(v) {
                Some(c) => {
                    push_char(&mut out, c);
                    proof {
                        vstd::utf8::char_u32_cast(c, v);
                    }
                },
                None => {},
            },
            None => {},
        }
        proof {
            assert(out@ == before + escaped_chars(e.0));
            assert(out@ + decoded_from(t@, to as int, e.1 as int) =~= before + (escaped_chars(e.0) + decoded_from(t@, to as int, e.1 as int)));
        }
        i = e.1;
    }
    out
}

/// A string literal: its value, its content as written, its value's
/// UTF-16 code units, its span with the quotes and without, and whether it
/// holds an escape.
struct StringToken {
    value: String,
    raw: String,
    code_units: Vec<u16>,
    span: Span,
    content_span: Span,
    has_escape: bool,
}

struct Parser<'a> {
    chars: &'a [char],
    pos: usize,
    facts: ParsedFacts,
}

/// The parser is at a place within the source, and what it recorded lies
/// within the source.
spec fn parser_wf(p: Parser) -> bool {
    &&& p.pos <= p.chars@.len()
    &&& facts_wf(p.facts, p.chars@.len() as int)
    &&& numbers_as_written(p.facts, p.chars@)
}

/// Each number's text is the source at its span.
pub open spec fn numbers_as_written(f: ParsedFacts, t: Seq<char>) -> bool {
    forall|k: int| 0 <= k < f.numbers@.len() ==> (#[trigger] f.numbers@[k]).raw@ == t.subrange(f.numbers@[k].span.start as int, f.numbers@[k].span.end as int)
}

/// An optional member as values.
spec fn opt_member_view(m: Option<MemberFact>) -> Option<MemberView> {
    match m {
        Some(x) => Some(member_view(x)),
        None => None,
    }
}

/// The parser's state as values.
spec fn pv(p: Parser) -> ReadState {
    ReadState { pos: p.pos as int, facts: facts_view(p.facts) }
}

/// `b` is `a` moved forward, over the same source.
spec fn advanced(a: Parser, b: Parser) -> bool {
    parser_wf(b) && b.chars@ == a.chars@ && a.pos <= b.pos
}

impl<'a> Parser<'a> {
    fn current(&self) -> (r: Option<char>)
        ensures
            r == (if self.pos < self.chars@.len() { Some(self.chars@[self.pos as int]) } else { None::<char> }),
    {
        if self.pos < self.chars.len() {
            Some(self.chars[self.pos])
        } else {
            None
        }
    }

    fn advance_char(&mut self)
        requires
            parser_wf(*old(self)),
        ensures
            advanced(*old(self), *final(self)),
            final(self).facts == old(self).facts,
            final(self).pos == if old(self).pos < old(self).chars@.len() { old(self).pos + 1 } else { old(self).pos as int },
    {
        if self.pos < self.chars.len() {
            self.pos = self.pos + 1;
        }
    }

    fn consume_char(&mut self, c: char) -> (r: bool)
        requires
            parser_wf(*old(self)),
        ensures
            advanced(*old(self), *final(self)),
            final(self).facts == old(self).facts,
            r == (old(self).pos < old(self).chars@.len() && old(self).chars@[old(self).pos as int] == c),
            final(self).pos == if r { old(self).pos + 1 } else { old(self).pos as int },
    {
        if self.pos < self.chars.len() && self.chars[self.pos] == c {
            self.pos = self.pos + 1;
            true
        } else {
            false
        }
    }

    /// Whether the source at `at` starts with `a` then `b`.
    fn starts_with_pair(&self, at: usize, a: char, b: char) -> (r: bool)
        ensures
            r == (at + 1 < self.chars@.len() && self.chars@[at as int] == a && self.chars@[at + 1] == b),
    {
        at < self.chars.len() && self.chars.len() - at >= 2 && self.chars[at] == a && self.chars[at + 1] == b
    }

    fn skip_ws_and_comments(&mut self)
        requires
            parser_wf(*old(self)),
        ensures
            advanced(*old(self), *final(self)),
            pv(*final(self)) == ws(old(self).chars@, pv(*old(self))),
            final(self).facts.objects == old(self).facts.objects,
            final(self).facts.numbers == old(self).facts.numbers,
            final(self).facts.strings == old(self).facts.strings,
            final(self).facts.top_level == old(self).facts.top_level,
    {
        let ghost start = *self;
        loop
            invariant
                advanced(start, *self),
                ws(self.chars@, pv(*self)) == ws(start.chars@, pv(start)),
                self.facts.objects == start.facts.objects,
                self.facts.numbers == start.facts.numbers,
                self.facts.strings == start.facts.strings,
                self.facts.top_level == start.facts.top_level,
            ensures
                pv(*self) == ws(start.chars@, pv(start)),
            decreases self.chars@.len() - self.pos,
        {
            let before = self.pos;
            let ghost s0 = pv(*self);
            let ghost t = self.chars@;
            while self.pos < self.chars.len() && is_whitespace(self.chars[self.pos])
                invariant
                    advanced(start, *self),
                    before <= self.pos,
                    t == self.chars@,
                    ws_run_end(t, self.pos as int) == ws_run_end(t, before as int),
                    pv(*self) == moved_to(s0, self.pos as int),
                    self.facts.objects == start.facts.objects,
                    self.facts.numbers == start.facts.numbers,
                    self.facts.strings == start.facts.strings,
                    self.facts.top_level == start.facts.top_level,
                decreases self.chars@.len() - self.pos,
            {
                self.pos = self.pos + 1;
            }
            let p1 = self.pos;
            assert(ws_run_end(t, p1 as int) == p1);
            if self.starts_with_pair(self.pos, '/', '/') {
                let comment_start = self.pos;
                while self.pos < self.chars.len() && self.chars[self.pos] != '\n' && self.chars[self.pos] != '\r'
                    invariant
                        advanced(start, *self),
                        before <= comment_start <= self.pos,
                        t == self.chars@,
                        line_end(t, self.pos as int) == line_end(t, comment_start as int),
                        pv(*self) == moved_to(s0, self.pos as int),
                        self.facts.objects == start.facts.objects,
                        self.facts.numbers == start.facts.numbers,
                        self.facts.strings == start.facts.strings,
                        self.facts.top_level == start.facts.top_level,
                    decreases self.chars@.len() - self.pos,
                {
                    self.pos = self.pos + 1;
                }
                let ghost cs = self.facts.comments@;
                self.facts.comments.push(Span { start: comment_start, end: self.pos });
                assert(self.facts.comments@ == cs.push(Span { start: comment_start, end: self.pos }));
                assert(pv(*self) == ws_round(t, s0));
            } else if self.starts_with_pair(self.pos, '/', '*') {
                let comment_start = self.pos;
                self.pos = self.pos + 2;
                while self.pos < self.chars.len() && !self.starts_with_pair(self.pos, '*', '/')
                    invariant
                        advanced(start, *self),
                        before < comment_start + 2 <= self.pos,
                        t == self.chars@,
                        block_end(t, self.pos as int) == block_end(t, comment_start + 2),
                        pv(*self) == moved_to(s0, self.pos as int),
                        self.facts.objects == start.facts.objects,
                        self.facts.numbers == start.facts.numbers,
                        self.facts.strings == start.facts.strings,
                        self.facts.top_level == start.facts.top_level,
                    decreases self.chars@.len() - self.pos,
                {
                    self.pos = self.pos + 1;
                }
                if self.starts_with_pair(self.pos, '*', '/') {
                    self.pos = self.pos + 2;
                }
                let ghost cs = self.facts.comments@;
                self.facts.comments.push(Span { start: comment_start, end: self.pos });
                assert(self.facts.comments@ == cs.push(Span { start: comment_start, end: self.pos }));
                assert(pv(*self) == ws_round(t, s0));
            } else {
                assert(pv(*self) == ws_round(t, s0));
            }
            assert(pv(*self) == ws_round(t, s0));
            if self.pos == before {
                assert(pv(*self) == s0);
                assert(ws_round(t, s0) == s0);
                assert(ws(t, s0) == s0);
                break;
            }
        }
    }

    /// Reads `count` hexadecimal digits of an escape and appends them to
    /// `raw`; nothing is appended when a digit is missing.
    fn consume_hex_escape(&mut self, count: usize, raw: &mut String) -> (r: Option<u16>)
        requires
            parser_wf(*old(self)),
            count <= 4,
        ensures
            advanced(*old(self), *final(self)),
            final(self).facts == old(self).facts,
            final(self).pos == hex_digits(old(self).chars@, old(self).pos as int, count as nat, 0, 0).1,
            r == (match hex_digits(old(self).chars@, old(self).pos as int, count as nat, 0, 0).0 {
                Some(v) => Some(v as u16),
                None => None,
            }),
            final(raw)@ == if hex_digits(old(self).chars@, old(self).pos as int, count as nat, 0, 0).0 is Some {
                old(raw)@ + old(self).chars@.subrange(old(self).pos as int, final(self).pos as int)
            } else {
                old(raw)@
            },
    {
        let start = self.pos;
        let mut value: u32 = 0;
        let mut k: usize = 0;
        while k < count
            invariant
                advanced(*old(self), *self),
                self.facts == old(self).facts,
                start == old(self).pos,
                start <= self.pos,
                k <= count <= 4,
                k == 0 ==> value == 0,
                k == 1 ==> value < 0x10,
                k == 2 ==> value < 0x100,
                k == 3 ==> value < 0x1000,
                k == 4 ==> value < 0x10000,
                *raw == *old(raw),
                hex_digits(self.chars@, self.pos as int, count as nat, value, k as nat) == hex_digits(old(self).chars@, start as int, count as nat, 0, 0),
            decreases count - k,
        {
            let ch = match self.current() {
                Some(c) => c,
                None => {
                    return None;
                },
            };
            let digit = match hex_digit_value(ch) {
                Some(d) => d,
                None => {
                    return None;
                },
            };
            value = value * 16 + digit;
            self.advance_char();
            k = k + 1;
        }
        let mut i = start;
        while i < self.pos
            invariant
                start <= i <= self.pos <= self.chars@.len(),
                raw@ == old(raw)@ + self.chars@.subrange(start as int, i as int),
            decreases self.pos - i,
        {
            push_char(raw, self.chars[i]);
            assert(self.chars@.subrange(start as int, i + 1) =~= self.chars@.subrange(start as int, i as int).push(self.chars@[i as int]));
            i = i + 1;
        }
        Some(value as u16)
    }

    /// Reads the escape after a backslash, appending its value to `value`
    /// and `units` and its text to `raw`.
    fn parse_escape(&mut self, value: &mut String, raw: &mut String, units: &mut Vec<u16>)
        requires
            parser_wf(*old(self)),
        ensures
            advanced(*old(self), *final(self)),
            final(self).facts == old(self).facts,
            final(self).pos == escape_read(old(self).chars@, old(self).pos as int).end,
            final(value)@ == old(value)@ + escape_read(old(self).chars@, old(self).pos as int).value,
            final(raw)@ == old(raw)@ + escape_read(old(self).chars@, old(self).pos as int).raw,
            final(units)@ == old(units)@ + escape_read(old(self).chars@, old(self).pos as int).units,
    {
        let ch = match self.current() {
            Some(c) => c,
            None => {
                assert(old(value)@ + Seq::<char>::empty() =~= old(value)@);
                assert(old(raw)@ + Seq::<char>::empty() =~= old(raw)@);
                assert(old(units)@ + Seq::<u16>::empty() =~= old(units)@);
                return;
            },
        };
        let ghost v0 = value@;
        let ghost r0 = raw@;
        let ghost u0 = units@;
        self.advance_char();
        push_char(raw, ch);
        assert(v0 + Seq::<char>::empty() =~= v0);
        assert(u0 + Seq::<u16>::empty() =~= u0);
        if ch == '"' || ch == '\'' || ch == '\\' || ch == '/' {
            push_char(value, ch);
            push_char_units(ch, units);
        } else if ch == 'b' {
            push_char(value, '\u{0008}');
            units.push(0x0008);
            assert(units@ =~= u0 + seq![0x0008u16]);
            assert(value@ =~= v0 + seq!['\u{0008}']);
        } else if ch == 'f' {
            push_char(value, '\u{000c}');
            units.push(0x000c);
            assert(units@ =~= u0 + seq![0x000cu16]);
            assert(value@ =~= v0 + seq!['\u{000c}']);
        } else if ch == 'n' {
            push_char(value, '\n');
            units.push(0x000a);
            assert(units@ =~= u0 + seq![0x000au16]);
            assert(value@ =~= v0 + seq!['\n']);
        } else if ch == 'r' {
            push_char(value, '\r');
            units.push(0x000d);
            assert(units@ =~= u0 + seq![0x000du16]);
            assert(value@ =~= v0 + seq!['\r']);
        } else if ch == 't' {
            push_char(value, '\t');
            units.push(0x0009);
            assert(units@ =~= u0 + seq![0x0009u16]);
            assert(value@ =~= v0 + seq!['\t']);
        } else if ch == 'v' {
            push_char(value, '\u{000b}');
            units.push(0x000b);
            assert(units@ =~= u0 + seq![0x000bu16]);
            assert(value@ =~= v0 + seq!['\u{000b}']);
        } else if ch == 'x' {
            match self.consume_hex_escape(2, raw) {
                Some(unit) => push_unit_as_value(unit, value, units),
                None => {},
            }
            assert(raw@ =~= r0 + (seq![ch] + old(self).chars@.subrange(old(self).pos + 1, self.pos as int)) || raw@ == r0 + seq![ch]);
        } else if ch == 'u' {
            match self.consume_hex_escape(4, raw) {
                Some(unit) => push_unit_as_value(unit, value, units),
                None => {},
            }
            assert(raw@ =~= r0 + (seq![ch] + old(self).chars@.subrange(old(self).pos + 1, self.pos as int)) || raw@ == r0 + seq![ch]);
        } else if ch == '\n' || ch == '\r' {
        } else {
            push_char(value, ch);
            push_char_units(ch, units);
        }
    }

    /// Reads a string literal that starts at the current quote.
    fn parse_string(&mut self, quote: char) -> (r: Option<StringToken>)
        requires
            parser_wf(*old(self)),
            old(self).pos < old(self).chars@.len(),
        ensures
            advanced(*old(self), *final(self)),
            final(self).facts == old(self).facts,
            r matches Some(tok) ==> {
                &&& tok.span == (Span { start: old(self).pos, end: final(self).pos })
                &&& old(self).pos < tok.content_span.start <= tok.content_span.end < final(self).pos
            },
            final(self).pos == string_read(old(self).chars@, old(self).pos as int, quote).1,
            r is Some <==> string_read(old(self).chars@, old(self).pos as int, quote).0 is Some,
            r matches Some(tok) ==> {
                let v = string_read(old(self).chars@, old(self).pos as int, quote).0->0;
                &&& tok.value@ == v.value
                &&& tok.raw@ == v.raw
                &&& tok.code_units@ == v.units
                &&& tok.has_escape == v.has_escape
                &&& tok.content_span == span_of(old(self).pos + 1, v.content_end)
            },
    {
        let start = self.pos;
        let n = self.chars.len();
        assert(start < n);
        self.pos = self.pos + 1;
        let content_start = self.pos;
        let mut value = String::new();
        let mut raw = String::new();
        let mut code_units: Vec<u16> = Vec::new();
        let mut has_escape = false;
        while self.pos < self.chars.len()
            invariant
                advanced(*old(self), *self),
                self.facts == old(self).facts,
                start == old(self).pos,
                content_start == start + 1,
                content_start <= self.pos,
                string_rest(self.chars@, self.pos as int, quote, StrView { value: value@, raw: raw@, units: code_units@, has_escape, content_end: 0 })
                    == string_read(old(self).chars@, start as int, quote),
            decreases self.chars@.len() - self.pos,
        {
            let ch = self.chars[self.pos];
            if ch == quote {
                let content_end = self.pos;
                self.pos = self.pos + 1;
                return Some(StringToken {
                    value,
                    raw,
                    code_units,
                    span: Span { start, end: self.pos },
                    content_span: Span { start: content_start, end: content_end },
                    has_escape,
                });
            }
            if ch == '\\' {
                has_escape = true;
                self.pos = self.pos + 1;
                push_char(&mut raw, ch);
                self.parse_escape(&mut value, &mut raw, &mut code_units);
            } else {
                self.pos = self.pos + 1;
                push_char(&mut raw, ch);
                push_char(&mut value, ch);
                push_char_units(ch, &mut code_units);
            }
        }
        None
    }

    /// Reads up to whitespace or a structural character; returns the
    /// trimmed text's bounds.
    fn consume_identifier(&mut self) -> (r: (usize, usize))
        requires
            parser_wf(*old(self)),
        ensures
            advanced(*old(self), *final(self)),
            final(self).facts == old(self).facts,
            old(self).pos <= r.0 <= r.1 <= final(self).pos,
            final(self).pos == ident_end(old(self).chars@, old(self).pos as int),
            r.0 == trim_lo(old(self).chars@, old(self).pos as int, final(self).pos as int),
            r.1 == trim_hi(old(self).chars@, old(self).pos as int, final(self).pos as int),
    {
        let start = self.pos;
        while self.pos < self.chars.len() && !is_whitespace(self.chars[self.pos]) && !is_structural(self.chars[self.pos])
            invariant
                advanced(*old(self), *self),
                self.facts == old(self).facts,
                start == old(self).pos,
                ident_end(self.chars@, self.pos as int) == ident_end(self.chars@, start as int),
            decreases self.chars@.len() - self.pos,
        {
            self.pos = self.pos + 1;
        }
        let r = trim_range(self.chars, start, self.pos);
        proof {
            let t = self.chars@;
            let sub = t.subrange(start as int, self.pos as int);
            assert(crate::text::trim_start(sub).len() == self.pos - r.0);
            assert(crate::text::trim(sub).len() == r.1 - r.0);
        }
        r
    }

    /// Whether `word` stands at `start`, after one sign at most, and no
    /// identifier character follows it; if so, moves past it.
    fn consume_signed_word(&mut self, start: usize, word: &str) -> (r: bool)
        requires
            parser_wf(*old(self)),
            old(self).pos == start,
        ensures
            advanced(*old(self), *final(self)),
            final(self).facts == old(self).facts,
            r ==> final(self).pos > start,
            !r ==> final(self).pos == start,
            r == signed_word_end(old(self).chars@, start as int, word@) is Some,
            r ==> final(self).pos == signed_word_end(old(self).chars@, start as int, word@)->0,
    {
        let w = crate::text::chars_of(word);
        let mut word_start = start;
        if word_start < self.chars.len() && (self.chars[word_start] == '+' || self.chars[word_start] == '-') {
            word_start = word_start + 1;
        }
        if w.len() == 0 || w.len() > self.chars.len() - word_start {
            return false;
        }
        if !crate::text::slice_eq(self.chars, word_start, word_start + w.len(), w.as_slice()) {
            return false;
        }
        let end = word_start + w.len();
        if end < self.chars.len() && is_identifier_continue(self.chars[end]) {
            return false;
        }
        self.pos = end;
        true
    }

    /// Records a number written at `span`.
    fn push_number(&mut self, span: Span)
        requires
            parser_wf(*old(self)),
            span_wf(span, old(self).chars@.len() as int),
        ensures
            advanced(*old(self), *final(self)),
            final(self).pos == old(self).pos,
            pv(*final(self)) == add_number(pv(*old(self)), old(self).chars@.subrange(span.start as int, span.end as int), span),
    {
        let raw = string_from(self.chars, span.start, span.end);
        let ghost ns = self.facts.numbers@;
        self.facts.numbers.push(NumberFact { raw, span });
        assert(self.facts.numbers@ == ns.push(NumberFact { raw, span }));
        assert(facts_view(self.facts).numbers =~= facts_view(old(self).facts).numbers.push((old(self).chars@.subrange(span.start as int, span.end as int), span)));
        assert forall|k: int| 0 <= k < self.facts.numbers@.len() implies span_wf(#[trigger] self.facts.numbers@[k].span, self.chars@.len() as int) by {
            if k < ns.len() {
                assert(self.facts.numbers@[k] == ns[k]);
            }
        }
        assert forall|k: int| 0 <= k < self.facts.numbers@.len() implies (#[trigger] self.facts.numbers@[k]).raw@ == self.chars@.subrange(self.facts.numbers@[k].span.start as int, self.facts.numbers@[k].span.end as int) by {
            if k < ns.len() {
                assert(self.facts.numbers@[k] == ns[k]);
            }
        }
    }

    /// Records a string or key written at `span`.
    fn push_string(&mut self, code_units: Vec<u16>, span: Span)
        requires
            parser_wf(*old(self)),
            span_wf(span, old(self).chars@.len() as int),
        ensures
            advanced(*old(self), *final(self)),
            final(self).pos == old(self).pos,
            pv(*final(self)) == add_string(pv(*old(self)), code_units@, span),
    {
        let ghost ss = self.facts.strings@;
        let ghost cu = code_units@;
        let f = StringFact { code_units, span };
        self.facts.strings.push(f);
        assert(self.facts.strings@ == ss.push(f));
        assert(facts_view(self.facts).strings =~= facts_view(old(self).facts).strings.push((cu, span)));
        assert forall|k: int| 0 <= k < self.facts.strings@.len() implies span_wf(#[trigger] self.facts.strings@[k].span, self.chars@.len() as int) by {
            if k < ss.len() {
                assert(self.facts.strings@[k] == ss[k]);
            }
        }
    }

    /// Records an object's members.
    fn push_object(&mut self, members: Vec<MemberFact>)
        requires
            parser_wf(*old(self)),
            members_wf(members@, old(self).chars@.len() as int),
        ensures
            advanced(*old(self), *final(self)),
            final(self).pos == old(self).pos,
            pv(*final(self)) == add_object(pv(*old(self)), members_view(members@)),
    {
        let ghost os = self.facts.objects@;
        let ghost mv = members_view(members@);
        let o = ObjectFact { members };
        self.facts.objects.push(o);
        assert(self.facts.objects@ == os.push(o));
        assert(facts_view(self.facts).objects =~= facts_view(old(self).facts).objects.push(mv));
        assert forall|k: int| 0 <= k < self.facts.objects@.len() implies members_wf(#[trigger] self.facts.objects@[k].members@, self.chars@.len() as int) by {
            if k < os.len() {
                assert(self.facts.objects@[k] == os[k]);
            }
        }
    }

    /// Reads a number, or a signed `Infinity` or `NaN`, starting at `start`.
    fn parse_number_or_special(&mut self, start: usize) -> (r: TopLevelFact)
        requires
            parser_wf(*old(self)),
            old(self).pos == start,
        ensures
            advanced(*old(self), *final(self)),
            r.value_type == JsonValueType::Number,
            r.span == (Span { start, end: final(self).pos }),
            final(self).pos == number_end(old(self).chars@, start as int),
            pv(*final(self)) == add_number(
                moved_to(pv(*old(self)), final(self).pos as int),
                old(self).chars@.subrange(start as int, final(self).pos as int),
                span_of(start as int, final(self).pos as int),
            ),
    {
        if self.consume_signed_word(start, "Infinity") || self.consume_signed_word(start, "NaN") {
            let span = Span { start, end: self.pos };
            self.push_number(span);
            return TopLevelFact { value_type: JsonValueType::Number, span };
        }
        let n = self.chars.len();
        let mut seen_dot = false;
        let mut seen_exp = false;
        if self.pos < n && (self.chars[self.pos] == '+' || self.chars[self.pos] == '-') {
            self.pos = self.pos + 1;
        }
        let ghost p = self.pos as int;
        assert(p == sign_skip(self.chars@, start as int));
        if self.starts_with_pair(self.pos, '0', 'x') || self.starts_with_pair(self.pos, '0', 'X') {
            self.pos = self.pos + 2;
            while self.pos < n && hex_digit_value(self.chars[self.pos]).is_some()
                invariant
                    advanced(*old(self), *self),
                    n == self.chars@.len(),
                    start == old(self).pos,
                    self.facts == old(self).facts,
                    hex_run_end(self.chars@, self.pos as int) == hex_run_end(self.chars@, p + 2),
                decreases self.chars@.len() - self.pos,
            {
                self.pos = self.pos + 1;
            }
        } else {
            while self.pos < n
                invariant
                    advanced(*old(self), *self),
                    n == self.chars@.len(),
                    start == old(self).pos,
                    self.facts == old(self).facts,
                    decimal_end(self.chars@, self.pos as int, seen_dot, seen_exp) == decimal_end(self.chars@, p, false, false),
                ensures
                    decimal_end(self.chars@, self.pos as int, seen_dot, seen_exp) == self.pos,
                    decimal_end(self.chars@, self.pos as int, seen_dot, seen_exp) == decimal_end(self.chars@, p, false, false),
                    advanced(*old(self), *self),
                    start == old(self).pos,
                    self.facts == old(self).facts,
                decreases self.chars@.len() - self.pos,
            {
                let ch = self.chars[self.pos];
                if '0' <= ch && ch <= '9' {
                    self.pos = self.pos + 1;
                } else if ch == '.' && !seen_dot && !seen_exp {
                    seen_dot = true;
                    self.pos = self.pos + 1;
                } else if (ch == 'e' || ch == 'E') && !seen_exp {
                    seen_exp = true;
                    self.pos = self.pos + 1;
                    if self.pos < n && (self.chars[self.pos] == '+' || self.chars[self.pos] == '-') {
                        self.pos = self.pos + 1;
                    }
                } else {
                    break;
                }
            }
        }
        let span = Span { start, end: self.pos };
        self.push_number(span);
        TopLevelFact { value_type: JsonValueType::Number, span }
    }

    /// Reads a bare word value: `true`, `false`, `null`, or another
    /// identifier.
    fn parse_identifier_value(&mut self, start: usize) -> (r: TopLevelFact)
        requires
            parser_wf(*old(self)),
            old(self).pos == start,
        ensures
            advanced(*old(self), *final(self)),
            r.span == (Span { start, end: final(self).pos }),
            final(self).facts == old(self).facts,
            final(self).pos == ident_end(old(self).chars@, start as int),
            r.value_type == word_kind(old(self).chars@.subrange(
                trim_lo(old(self).chars@, start as int, final(self).pos as int),
                trim_hi(old(self).chars@, start as int, final(self).pos as int),
            )),
    {
        let (a, b) = self.consume_identifier();
        let value_type = if crate::text::slice_eq(self.chars, a, b, crate::text::chars_of("true").as_slice())
            || crate::text::slice_eq(self.chars, a, b, crate::text::chars_of("false").as_slice()) {
            JsonValueType::Boolean
        } else if crate::text::slice_eq(self.chars, a, b, crate::text::chars_of("null").as_slice()) {
            JsonValueType::Null
        } else {
            JsonValueType::Identifier
        };
        TopLevelFact { value_type, span: Span { start, end: self.pos } }
    }

    /// Reads a member's key: a string, or an identifier whose escapes are
    /// decoded.
    fn parse_key(&mut self) -> (r: Option<MemberFact>)
        requires
            parser_wf(*old(self)),
        ensures
            advanced(*old(self), *final(self)),
            r matches Some(m) ==> {
                &&& old(self).pos < final(self).pos
                &&& old(self).pos <= m.name_span.start <= m.name_span.end <= final(self).pos
                &&& old(self).pos <= m.key_content_span.start <= m.key_content_span.end <= final(self).pos
                &&& m.member_span == (Span { start: old(self).pos, end: old(self).pos })
            },
            (opt_member_view(r), pv(*final(self))) == key_read(old(self).chars@, pv(*old(self))),
    {
        let start = self.pos;
        let c = match self.current() {
            Some(c) => c,
            None => {
                return None;
            },
        };
        if c == '"' || c == '\'' {
            let token = match self.parse_string(c) {
                Some(t) => t,
                None => {
                    return None;
                },
            };
            self.push_string(token.code_units, token.span);
            Some(MemberFact {
                key: token.value,
                raw_key: token.raw,
                name_span: token.span,
                key_content_span: token.content_span,
                member_span: Span { start, end: start },
                key_has_escape: token.has_escape,
            })
        } else {
            let (a, b) = self.consume_identifier();
            if a == b {
                return None;
            }
            let key = decode_identifier_escapes(self.chars, a, b);
            let raw_key = string_from(self.chars, a, b);
            let key_has_escape = key != raw_key;
            Some(MemberFact {
                key,
                raw_key,
                name_span: Span { start, end: self.pos },
                key_content_span: Span { start, end: self.pos },
                member_span: Span { start, end: start },
                key_has_escape,
            })
        }
    }

    /// Reads a value, after any whitespace and comments.
    fn parse_value(&mut self) -> (r: Option<TopLevelFact>)
        requires
            parser_wf(*old(self)),
        ensures
            advanced(*old(self), *final(self)),
            r matches Some(v) ==> old(self).pos <= v.span.start <= v.span.end <= final(self).pos,
            (r, pv(*final(self))) == value_read(old(self).chars@, pv(*old(self))),
        decreases old(self).chars@.len() - old(self).pos, 1nat,
    {
        self.skip_ws_and_comments();
        let start = self.pos;
        let c = match self.current() {
            Some(c) => c,
            None => {
                return None;
            },
        };
        if c == '{' {
            self.parse_object(start)
        } else if c == '[' {
            self.parse_array(start)
        } else if c == '"' || c == '\'' {
            let token = match self.parse_string(c) {
                Some(t) => t,
                None => {
                    return None;
                },
            };
            let span = token.span;
            self.push_string(token.code_units, span);
            Some(TopLevelFact { value_type: JsonValueType::String, span })
        } else if c == '+' || c == '-' || c == '.' || ('0' <= c && c <= '9') {
            Some(self.parse_number_or_special(start))
        } else {
            Some(self.parse_identifier_value(start))
        }
    }

    /// Reads an object whose `{` stands at `start`.
    fn parse_object(&mut self, start: usize) -> (r: Option<TopLevelFact>)
        requires
            parser_wf(*old(self)),
            old(self).pos == start,
            start < old(self).chars@.len(),
        ensures
            advanced(*old(self), *final(self)),
            r matches Some(v) ==> v.span == (Span { start, end: final(self).pos }) && v.value_type == JsonValueType::Object,
            (r, pv(*final(self))) == object_read(old(self).chars@, pv(*old(self))),
        decreases old(self).chars@.len() - old(self).pos, 0nat,
    {
        let n = self.chars.len();
        self.pos = self.pos + 1;
        let mut members: Vec<MemberFact> = Vec::new();
        assert(members_view(members@) =~= Seq::empty());
        loop
            invariant
                advanced(*old(self), *self),
                n == self.chars@.len(),
                start == old(self).pos,
                start < self.pos,
                members_wf(members@, n as int),
                forall|j: int| 0 <= j < members@.len() ==> (#[trigger] members@[j]).member_span.end <= self.pos,
                members_read(self.chars@, pv(*self), start as int, members_view(members@)) == object_read(old(self).chars@, pv(*old(self))),
            decreases n - self.pos,
        {
            let ghost s0 = pv(*self);
            self.skip_ws_and_comments();
            if self.consume_char('}') {
                let span = Span { start, end: self.pos };
                self.push_object(members);
                return Some(TopLevelFact { value_type: JsonValueType::Object, span });
            }
            let member_start = self.pos;
            let mut key = match self.parse_key() {
                Some(k) => k,
                None => {
                    return None;
                },
            };
            self.skip_ws_and_comments();
            if !self.consume_char(':') {
                return None;
            }
            let value = match self.parse_value() {
                Some(v) => v,
                None => {
                    return None;
                },
            };
            let ghost kv = member_view(key);
            key.member_span = Span { start: member_start, end: value.span.end };
            let ghost ms = members@;
            members.push(key);
            assert(members@ == ms.push(key));
            assert(members_view(members@) =~= members_view(ms).push(MemberView { member_span: span_of(member_start as int, value.span.end as int), ..kv }));
            assert forall|j: int| 0 <= j < members@.len() implies {
                &&& span_wf(#[trigger] members@[j].name_span, n as int)
                &&& span_wf(members@[j].key_content_span, n as int)
                &&& span_wf(members@[j].member_span, n as int)
            } by {
                if j < ms.len() {
                    assert(members@[j] == ms[j]);
                }
            }
            assert forall|i: int, j: int| 0 <= i < j < members@.len() implies #[trigger] members@[i].member_span.end <= #[trigger] members@[j].member_span.start by {
                if j < ms.len() {
                    assert(members@[j] == ms[j]);
                    assert(members@[i] == ms[i]);
                } else {
                    assert(members@[i] == ms[i]);
                }
            }
            self.skip_ws_and_comments();
            if self.consume_char(',') {
                continue;
            }
            if self.consume_char('}') {
                let span = Span { start, end: self.pos };
                self.push_object(members);
                return Some(TopLevelFact { value_type: JsonValueType::Object, span });
            }
            return None;
        }
    }

    /// Reads an array whose `[` stands at `start`.
    fn parse_array(&mut self, start: usize) -> (r: Option<TopLevelFact>)
        requires
            parser_wf(*old(self)),
            old(self).pos == start,
            start < old(self).chars@.len(),
        ensures
            advanced(*old(self), *final(self)),
            r matches Some(v) ==> v.span == (Span { start, end: final(self).pos }) && v.value_type == JsonValueType::Array,
            (r, pv(*final(self))) == array_read(old(self).chars@, pv(*old(self))),
        decreases old(self).chars@.len() - old(self).pos, 0nat,
    {
        let n = self.chars.len();
        self.pos = self.pos + 1;
        loop
            invariant
                advanced(*old(self), *self),
                n == self.chars@.len(),
                start == old(self).pos,
                start < self.pos,
                elements_read(self.chars@, pv(*self), start as int) == array_read(old(self).chars@, pv(*old(self))),
            decreases n - self.pos,
        {
            self.skip_ws_and_comments();
            if self.consume_char(']') {
                return Some(TopLevelFact { value_type: JsonValueType::Array, span: Span { start, end: self.pos } });
            }
            match self.parse_value() {
                Some(_) => {},
                None => {
                    return None;
                },
            }
            self.skip_ws_and_comments();
            if self.consume_char(',') {
                continue;
            }
            if self.consume_char(']') {
                return Some(TopLevelFact { value_type: JsonValueType::Array, span: Span { start, end: self.pos } });
            }
            return None;
        }
    }

    /// Reads the top-level value, with the whitespace and comments around
    /// it.
    fn parse(&mut self) -> (r: Option<TopLevelFact>)
        requires
            parser_wf(*old(self)),
        ensures
            advanced(*old(self), *final(self)),
            r matches Some(v) ==> final(self).facts.top_level == Some(v),
            (r, pv(*final(self))) == document_read(old(self).chars@, pv(*old(self))),
    {
        self.skip_ws_and_comments();
        let top = match self.parse_value() {
            Some(v) => v,
            None => {
                return None;
            },
        };
        self.facts.top_level = Some(top);
        self.skip_ws_and_comments();
        Some(top)
    }

}

/// Whether `ch` ends an identifier as a structural character.
fn is_structural(ch: char) -> (r: bool)
    ensures
        r == (ch == ':' || ch == ',' || ch == '}' || ch == ']' || ch == '{' || ch == '['),
{
    ch == ':' || ch == ',' || ch == '}' || ch == ']' || ch == '{' || ch == '['
}

/// Appends a code unit, and its character when it is one, to a string's
/// value.
fn push_unit_as_value(unit: u16, value: &mut String, units: &mut Vec<u16>)
    ensures
        final(units)@ == old(units)@ + seq![unit],
        final(value)@ == old(value)@ + escaped_chars(Some(unit as u32)),
{
    units.push(unit);
    assert(units@ =~= old(units)@ + seq![unit]);
    match char_from_u32(unit as u32) {
        Some(ch) => {
            push_char(value, ch);
            proof {
                vstd::utf8::char_u32_cast(ch, unit as u32);
            }
            assert(value@ =~= old(value)@ + escaped_chars(Some(unit as u32)));
        },
        None => {
            assert(value@ =~= old(value)@ + escaped_chars(Some(unit as u32)));
        },
    }
}

/// Reads a JSON or JSON5 source; nothing when its top-level value does
/// not parse. What is found lies within the source, the top-level value is
/// recorded, and each number is recorded as written.
pub fn parse_json(t: &[char]) -> (r: Option<ParsedFacts>)
    ensures
        r is Some <==> parsed(t@).0 is Some,
        r matches Some(f) ==> {
            &&& facts_view(f) == parsed(t@).1.facts
            &&& facts_wf(f, t@.len() as int)
            &&& f.top_level is Some
            &&& numbers_as_written(f, t@)
        },
{
    let facts = ParsedFacts {
        top_level: None,
        objects: Vec::new(),
        numbers: Vec::new(),
        strings: Vec::new(),
        comments: Vec::new(),
    };
    let mut parser = Parser { chars: t, pos: 0, facts };
    assert(facts_view(parser.facts).objects =~= Seq::empty());
    assert(facts_view(parser.facts).numbers =~= Seq::empty());
    assert(facts_view(parser.facts).strings =~= Seq::empty());
    assert(facts_view(parser.facts).comments =~= Seq::empty());
    assert(pv(parser) == start_state());
    match parser.parse() {
        Some(_) => Some(parser.facts),
        None => None,
    }
}

} // verus!
