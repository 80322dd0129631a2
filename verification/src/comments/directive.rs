//! Parsing of ESLint directive comments: the directive keyword, the rule ids
//! or value after it, and the optional ` -- description` suffix.
use vstd::prelude::*;
use crate::text::{chars_eq_str, chars_of, is_whitespace, is_ws, string_from, trim, trim_range};

verus! {

/// Whether the host comment token is a line (`//`) or block (`/* */`) comment.
#[derive(Clone, Copy, Debug, PartialEq, Eq, Structural)]
pub enum CommentKind {
    Line,
    Block,
}

/// A parsed directive comment.
#[derive(Clone, Debug, PartialEq, Eq)]
pub struct ParsedDirective {
    /// The directive keyword, e.g. `eslint-disable`.
    pub kind: String,
    /// The trimmed text following the keyword (rule ids / globals / config).
    pub value: String,
    /// The trailing ` -- description` text, if present.
    pub description: Option<String>,
}

/// The characters of a parsed directive.
pub struct DirectiveView {
    pub kind: Seq<char>,
    pub value: Seq<char>,
    pub description: Option<Seq<char>>,
}

pub open spec fn opt_string_view(o: Option<String>) -> Option<Seq<char>> {
    match o {
        Some(s) => Some(s@),
        None => None,
    }
}

impl View for ParsedDirective {
    type V = DirectiveView;

    open spec fn view(&self) -> DirectiveView {
        DirectiveView {
            kind: self.kind@,
            value: self.value@,
            description: opt_string_view(self.description),
        }
    }
}

/// Number of consecutive `-` in `s` from index `i`.
pub open spec fn hyphen_count(s: Seq<char>, i: int) -> nat
    decreases s.len() - i,
{
    if 0 <= i < s.len() && s[i] == '-' {
        1 + hyphen_count(s, i + 1)
    } else {
        0
    }
}

/// A description divider starts at `i`: whitespace, two or more hyphens,
/// then whitespace.
pub open spec fn divider_at(s: Seq<char>, i: int) -> bool {
    let k = hyphen_count(s, i + 1);
    &&& 0 <= i < s.len()
    &&& is_ws(s[i])
    &&& k >= 2
    &&& i + 1 + k < s.len()
    &&& is_ws(s[i + 1 + k])
}

/// One past the closing whitespace of the divider that starts at `i`.
pub open spec fn divider_end(s: Seq<char>, i: int) -> int {
    i + 1 + hyphen_count(s, i + 1) + 1
}

/// The first divider at or after `from`, as `(start, end)`.
pub open spec fn first_divider(s: Seq<char>, from: int) -> Option<(int, int)>
    decreases s.len() - from,
{
    if from < 0 || from >= s.len() {
        None
    } else if divider_at(s, from) {
        Some((from, divider_end(s, from)))
    } else {
        first_divider(s, from + 1)
    }
}

/// The directive text and optional description of a comment body.
pub open spec fn divide(s: Seq<char>) -> (Seq<char>, Option<Seq<char>>) {
    match first_divider(s, 0) {
        None => (trim(s), None),
        Some((start, end)) => {
            let description_end = match first_divider(s, end) {
                Some((next, _)) => next,
                None => s.len() as int,
            };
            (trim(s.take(start)), Some(trim(s.subrange(end, description_end))))
        },
    }
}

/// Index of the first whitespace character at or after `i`, or the length.
pub open spec fn first_ws_from(s: Seq<char>, i: int) -> int
    decreases s.len() - i,
{
    if i < 0 || i >= s.len() {
        s.len() as int
    } else if is_ws(s[i]) {
        i
    } else {
        first_ws_from(s, i + 1)
    }
}

/// The run of characters up to the first whitespace, if the text is not empty.
pub open spec fn leading_keyword(t: Seq<char>) -> Option<Seq<char>> {
    if t.len() == 0 {
        None
    } else {
        Some(t.take(first_ws_from(t, 0)))
    }
}

/// The directive keywords.
pub open spec fn is_directive_kind(k: Seq<char>) -> bool {
    ||| k == "eslint"@
    ||| k == "eslint-env"@
    ||| k == "eslint-enable"@
    ||| k == "eslint-disable"@
    ||| k == "eslint-disable-line"@
    ||| k == "eslint-disable-next-line"@
    ||| k == "exported"@
    ||| k == "global"@
    ||| k == "globals"@
}

/// The directive a comment body denotes, ignoring the host comment type.
pub open spec fn directive_of_text(s: Seq<char>) -> Option<DirectiveView> {
    let (text, description) = divide(s);
    match leading_keyword(text) {
        None => None,
        Some(k) => if is_directive_kind(k) {
            Some(DirectiveView { kind: k, value: trim(text.skip(k.len() as int)), description })
        } else {
            None
        },
    }
}

/// Keywords only valid as line comment directives.
pub open spec fn is_line_comment_kind(k: Seq<char>) -> bool {
    k == "eslint-disable-line"@ || k == "eslint-disable-next-line"@
}

/// The directive a comment denotes, honoring line/block restrictions.
pub open spec fn directive_of_comment(kind: CommentKind, s: Seq<char>, same_line: bool) -> Option<
    DirectiveView,
> {
    match directive_of_text(s) {
        None => None,
        Some(d) => if kind == CommentKind::Line && !is_line_comment_kind(d.kind) {
            None
        } else if d.kind == "eslint-disable-line"@ && !same_line {
            None
        } else {
            Some(d)
        },
    }
}

pub open spec fn same_directive(r: Option<ParsedDirective>, d: Option<DirectiveView>) -> bool {
    match (r, d) {
        (None, None) => true,
        (Some(p), Some(v)) => p@ == v,
        _ => false,
    }
}

impl ParsedDirective {
    /// `true` when no rule names / value follow the keyword.
    pub fn has_empty_value(&self) -> (r: bool)
        ensures
            r == (self.value@.len() == 0),
    {
        self.value.as_str().is_empty()
    }
}

fn is_line_comment_kind_exec(kind: &String) -> (r: bool)
    ensures
        r == is_line_comment_kind(kind@),
{
    let k = chars_of(kind.as_str());
    chars_eq_str(k.as_slice(), "eslint-disable-line") || chars_eq_str(
        k.as_slice(),
        "eslint-disable-next-line",
    )
}

fn is_directive_kind_exec(k: &[char]) -> (r: bool)
    ensures
        r == is_directive_kind(k@),
{
    chars_eq_str(k, "eslint") || chars_eq_str(k, "eslint-env") || chars_eq_str(k, "eslint-enable")
        || chars_eq_str(k, "eslint-disable") || chars_eq_str(k, "eslint-disable-line")
        || chars_eq_str(k, "eslint-disable-next-line") || chars_eq_str(k, "exported")
        || chars_eq_str(k, "global") || chars_eq_str(k, "globals")
}

fn hyphens_from(s: &[char], i: usize) -> (r: usize)
    requires
        i <= s@.len(),
    ensures
        r == hyphen_count(s@, i as int),
        i + r <= s@.len(),
    decreases s.len() - i,
{
    if i < s.len() && s[i] == '-' {
        1 + hyphens_from(s, i + 1)
    } else {
        0
    }
}

/// Find the first description divider at or after `from`, as `(start, end)`.
fn find_separator(s: &[char], from: usize) -> (r: Option<(usize, usize)>)
    requires
        from <= s@.len(),
    ensures
        match r {
            Some((a, b)) => first_divider(s@, from as int) == Some((a as int, b as int)),
            None => first_divider(s@, from as int) is None,
        },
{
    let mut i = from;
    while i < s.len()
        invariant
            from <= i <= s@.len(),
            first_divider(s@, from as int) == first_divider(s@, i as int),
        decreases s.len() - i,
    {
        if is_whitespace(s[i]) {
            let k = hyphens_from(s, i + 1);
            if k >= 2 && i + 1 + k < s.len() && is_whitespace(s[i + 1 + k]) {
                return Some((i, i + 1 + k + 1));
            }
        }
        i += 1;
    }
    None
}

/// Split a directive comment body into the range of its (trimmed) directive
/// text and the range of its optional (trimmed) description.
fn divide_directive_comment(s: &[char]) -> (r: ((usize, usize), Option<(usize, usize)>))
    ensures
        r.0.0 <= r.0.1 <= s@.len(),
        divide(s@).0 == s@.subrange(r.0.0 as int, r.0.1 as int),
        match (r.1, divide(s@).1) {
            (None, None) => true,
            (Some((a, b)), Some(d)) => a <= b <= s@.len() && d == s@.subrange(a as int, b as int),
            _ => false,
        },
{
    match find_separator(s, 0) {
        None => {
            let t = trim_range(s, 0, s.len());
            assert(s@.subrange(0, s@.len() as int) =~= s@);
            (t, None)
        },
        Some((start, end)) => {
            proof {
                lemma_first_divider_bounds(s@, 0);
            }
            let t = trim_range(s, 0, start);
            assert(s@.subrange(0, start as int) =~= s@.take(start as int));
            let description_end = match find_separator(s, end) {
                Some((next, _)) => {
                    proof {
                        lemma_first_divider_bounds(s@, end as int);
                    }
                    next
                },
                None => s.len(),
            };
            let d = trim_range(s, end, description_end);
            (t, Some(d))
        },
    }
}

pub proof fn lemma_first_divider_bounds(s: Seq<char>, from: int)
    requires
        0 <= from,
    ensures
        first_divider(s, from) matches Some((a, b)) ==> from <= a < b <= s.len(),
    decreases s.len() - from,
{
    if from < s.len() && !divider_at(s, from) {
        lemma_first_divider_bounds(s, from + 1);
    }
}

/// End of the keyword that starts at `from` (the first whitespace at or after
/// `from` within `s[..to]`, or `to`).
fn keyword_end(s: &[char], from: usize, to: usize) -> (r: usize)
    requires
        from <= to <= s@.len(),
    ensures
        from <= r <= to,
        r - from == first_ws_from(s@.subrange(from as int, to as int), 0),
{
    let mut i = from;
    while i < to
        invariant
            from <= i <= to <= s@.len(),
            first_ws_from(s@.subrange(from as int, to as int), 0) == first_ws_from(
                s@.subrange(from as int, to as int),
                i - from,
            ),
        decreases to - i,
    {
        if is_whitespace(s[i]) {
            return i;
        }
        i += 1;
    }
    i
}

/// Parse the raw comment body text as a directive, ignoring the host comment
/// type.
pub fn parse_directive_text(text_to_parse: &str) -> (r: Option<ParsedDirective>)
    ensures
        same_directive(r, directive_of_text(text_to_parse@)),
{
    let s = chars_of(text_to_parse);
    parse_directive_chars(s.as_slice())
}

/// `parse_directive_text` on characters.
pub fn parse_directive_chars(s: &[char]) -> (r: Option<ParsedDirective>)
    ensures
        same_directive(r, directive_of_text(s@)),
{
    let ((lo, hi), description) = divide_directive_comment(s);
    let ghost text = s@.subrange(lo as int, hi as int);
    if lo == hi {
        return None;
    }
    let key_end = keyword_end(s, lo, hi);
    let ghost k = text.take(first_ws_from(text, 0));
    assert(s@.subrange(lo as int, key_end as int) =~= k);
    if !is_directive_kind_exec(&s[lo..key_end]) {
        return None;
    }
    let (vlo, vhi) = trim_range(s, key_end, hi);
    assert(s@.subrange(key_end as int, hi as int) =~= text.skip(k.len() as int));
    let kind = string_from(s, lo, key_end);
    let value = string_from(s, vlo, vhi);
    let description = match description {
        Some((a, b)) => Some(string_from(s, a, b)),
        None => None,
    };
    Some(ParsedDirective { kind, value, description })
}

/// Parse a comment token as a directive, honoring line/block restrictions:
/// only `eslint-disable-line` and `eslint-disable-next-line` are directives in
/// a line comment, and `eslint-disable-line` must not span lines.
pub fn parse_directive_comment(comment_kind: CommentKind, value: &str, same_line: bool) -> (r:
    Option<ParsedDirective>)
    ensures
        same_directive(r, directive_of_comment(comment_kind, value@, same_line)),
{
    let parsed = match parse_directive_text(value) {
        Some(p) => p,
        None => return None,
    };
    let line_supported = is_line_comment_kind_exec(&parsed.kind);
    if comment_kind == CommentKind::Line && !line_supported {
        return None;
    }
    let k = chars_of(parsed.kind.as_str());
    if chars_eq_str(k.as_slice(), "eslint-disable-line") && !same_line {
        return None;
    }
    Some(parsed)
}

} // verus!
