//! The parts of an Astro source: its file name's extension, its lines, the
//! `---` fenced frontmatter block, and line/column positions.
use vstd::prelude::*;
use crate::text::{byte_len, utf16_width, len_utf16, len_utf8, lemma_utf16_len_take_step, lemma_byte_len_take_step};
use crate::lines::{chars_before, chars_before_from};
use super::lexical::is_line_break;

verus! {

/// `c` equals the lowercase ASCII letter `lower` when ASCII case is ignored.
pub open spec fn eq_ignore_case(c: char, lower: char) -> bool {
    c == lower || (c as u32) + 32 == lower as u32 && 'A' <= c <= 'Z'
}

/// The index of the last `.` of `s`.
pub open spec fn last_dot(s: Seq<char>) -> Option<int>
    decreases s.len(),
{
    if s.len() == 0 {
        None
    } else if s.last() == '.' {
        Some(s.len() - 1)
    } else {
        last_dot(s.drop_last())
    }
}

/// The file name ends with `.astro`, in any ASCII case.
pub open spec fn has_astro_ext(name: Seq<char>) -> bool {
    match last_dot(name) {
        None => false,
        Some(p) => {
            let ext = name.subrange(p + 1, name.len() as int);
            &&& ext.len() == 5
            &&& eq_ignore_case(ext[0], 'a')
            &&& eq_ignore_case(ext[1], 's')
            &&& eq_ignore_case(ext[2], 't')
            &&& eq_ignore_case(ext[3], 'r')
            &&& eq_ignore_case(ext[4], 'o')
        },
    }
}

fn eq_ignore_case_exec(c: char, lower: char) -> (r: bool)
    requires
        'a' <= lower <= 'z',
    ensures
        r == eq_ignore_case(c, lower),
{
    c == lower || ('A' <= c && c <= 'Z' && (c as u32) + 32 == lower as u32)
}

/// Whether the file name has the `.astro` extension, ignoring ASCII case.
pub fn has_astro_extension(filename: &str) -> (r: bool)
    ensures
        r == has_astro_ext(filename@),
{
    let s = crate::text::chars_of(filename);
    let mut k = s.len();
    assert(s@.take(s@.len() as int) =~= s@);
    while k > 0 && s[k - 1] != '.'
        invariant
            k <= s@.len(),
            last_dot(s@) == last_dot(s@.take(k as int)),
        decreases k,
    {
        assert(s@.take(k as int).drop_last() =~= s@.take(k - 1));
        k = k - 1;
    }
    if k == 0 {
        assert(s@.take(0) =~= Seq::<char>::empty());
        return false;
    }
    assert(s@.take(k as int).drop_last() =~= s@.take(k - 1));
    assert(s@.take(s@.len() as int) =~= s@);
    let p = k - 1;
    if s.len() - k != 5 {
        return false;
    }
    eq_ignore_case_exec(s[k], 'a') && eq_ignore_case_exec(s[k + 1], 's') && eq_ignore_case_exec(s[k + 2], 't')
        && eq_ignore_case_exec(s[k + 3], 'r') && eq_ignore_case_exec(s[k + 4], 'o')
}

/// The first line terminator from `i` on, or the end.
pub open spec fn break_from(t: Seq<char>, i: int) -> int
    decreases t.len() - i,
{
    if i >= t.len() || is_line_break(t[i]) {
        i
    } else {
        break_from(t, i + 1)
    }
}

/// The line starting at `start`: where its text ends and where the next line
/// starts; `\r\n` is one terminator.
pub open spec fn line_at(t: Seq<char>, start: int) -> Option<(int, int)> {
    if start < 0 || start > t.len() {
        None
    } else {
        let k = break_from(t, start);
        if k >= t.len() {
            Some((t.len() as int, t.len() as int))
        } else if t[k] == '\r' && k + 1 < t.len() && t[k + 1] == '\n' {
            Some((k, k + 2))
        } else {
            Some((k, k + 1))
        }
    }
}

/// `s` without trailing spaces and tabs.
pub open spec fn trim_end_blank(s: Seq<char>) -> Seq<char>
    decreases s.len(),
{
    if s.len() > 0 && (s.last() == ' ' || s.last() == '\t') {
        trim_end_blank(s.drop_last())
    } else {
        s
    }
}

/// The text `t[start..end]` is `---`, trailing blanks aside.
pub open spec fn is_fence(t: Seq<char>, start: int, end: int) -> bool {
    trim_end_blank(t.subrange(start, end)) == "---"@
}

/// Where the text starts after a byte order mark.
pub open spec fn after_bom(t: Seq<char>) -> int {
    if t.len() > 0 && t[0] == '\u{feff}' {
        1
    } else {
        0
    }
}

/// The source opens with a `---` line that a line terminator ends.
pub open spec fn opens_with_fence(t: Seq<char>) -> bool {
    let b = after_bom(t);
    match line_at(t, b) {
        Some((end, next)) => is_fence(t, b, end) && next > b,
        None => false,
    }
}

/// The closing fence, searching line by line from `cursor`: the
/// frontmatter's end and where the body starts.
pub open spec fn closing_fence_from(t: Seq<char>, cursor: int) -> Option<(int, int)>
    decreases t.len() + 1 - cursor,
{
    match line_at(t, cursor) {
        None => None,
        Some((end, next)) => if is_fence(t, cursor, end) {
            Some((cursor, next))
        } else if next <= cursor || next >= t.len() {
            None
        } else {
            closing_fence_from(t, next)
        },
    }
}

/// The frontmatter: the range of its content and where the body starts.
pub open spec fn frontmatter_of(t: Seq<char>) -> Option<(int, int, int)> {
    let b = after_bom(t);
    match line_at(t, b) {
        None => None,
        Some((end, next)) => if !is_fence(t, b, end) || next == t.len() {
            None
        } else {
            match closing_fence_from(t, next) {
                Some((close, body)) => Some((next, close, body)),
                None => None,
            }
        },
    }
}

fn break_from_exec(t: &[char], i: usize) -> (r: usize)
    requires
        i <= t@.len(),
    ensures
        r == break_from(t@, i as int),
        i <= r <= t@.len(),
{
    let mut k = i;
    while k < t.len() && !(t[k] == '\n' || t[k] == '\r' || t[k] == '\u{2028}' || t[k] == '\u{2029}')
        invariant
            i <= k <= t@.len(),
            break_from(t@, i as int) == break_from(t@, k as int),
        decreases t@.len() - k,
    {
        k = k + 1;
    }
    k
}

/// The line starting at `start`: where its text ends and the next starts.
pub fn read_line(t: &[char], start: usize) -> (r: Option<(usize, usize)>)
    ensures
        r matches Some(x) ==> line_at(t@, start as int) == Some((x.0 as int, x.1 as int)) && start <= x.0
            <= x.1 <= t@.len(),
        r is None ==> line_at(t@, start as int) is None,
{
    let n = t.len();
    if start > n {
        return None;
    }
    let k = break_from_exec(t, start);
    if k >= n {
        Some((n, n))
    } else if t[k] == '\r' && k + 1 < n && t[k + 1] == '\n' {
        Some((k, k + 2))
    } else {
        Some((k, k + 1))
    }
}

/// Whether `t[start..end]` is `---`, trailing blanks aside.
fn is_fence_exec(t: &[char], start: usize, end: usize) -> (r: bool)
    requires
        start <= end <= t@.len(),
    ensures
        r == is_fence(t@, start as int, end as int),
{
    let mut e = end;
    while e > start && (t[e - 1] == ' ' || t[e - 1] == '\t')
        invariant
            start <= e <= end <= t@.len(),
            trim_end_blank(t@.subrange(start as int, end as int)) == trim_end_blank(t@.subrange(start as int, e as int)),
        decreases e,
    {
        assert(t@.subrange(start as int, e as int).drop_last() =~= t@.subrange(start as int, e - 1));
        e = e - 1;
    }
    let dashes = crate::text::chars_of("---");
    let r = crate::text::slice_eq(t, start, e, dashes.as_slice());
    r
}

fn after_bom_exec(t: &[char]) -> (r: usize)
    ensures
        r == after_bom(t@),
{
    if t.len() > 0 && t[0] == '\u{feff}' {
        1
    } else {
        0
    }
}

/// Whether the source opens with a `---` line ended by a line terminator.
pub fn starts_with_frontmatter_delimiter(t: &[char]) -> (r: bool)
    ensures
        r == opens_with_fence(t@),
{
    let b = after_bom_exec(t);
    match read_line(t, b) {
        Some((end, next)) => is_fence_exec(t, b, end) && next > b,
        None => false,
    }
}

/// The frontmatter of the source: the range of its content and where the
/// body starts.
pub fn frontmatter(t: &[char]) -> (r: Option<(usize, usize, usize)>)
    ensures
        r matches Some(x) ==> frontmatter_of(t@) == Some((x.0 as int, x.1 as int, x.2 as int)) && x.0 <= x.1
            <= x.2 <= t@.len(),
        r is None ==> frontmatter_of(t@) is None,
{
    let n = t.len();
    let b = after_bom_exec(t);
    let (end, next) = match read_line(t, b) {
        Some(line) => line,
        None => {
            return None;
        },
    };
    if !is_fence_exec(t, b, end) || next == n {
        return None;
    }
    let content_start = next;
    let mut cursor = next;
    while cursor <= n
        invariant
            n == t@.len(),
            content_start <= cursor <= n,
            frontmatter_of(t@) == match closing_fence_from(t@, cursor as int) {
                Some((close, body)) => Some((content_start as int, close, body)),
                None => None,
            },
        decreases n + 1 - cursor,
    {
        let (line_end, line_next) = match read_line(t, cursor) {
            Some(line) => line,
            None => {
                return None;
            },
        };
        if is_fence_exec(t, cursor, line_end) {
            return Some((content_start, cursor, line_next));
        }
        if line_next <= cursor || line_next >= n {
            return None;
        }
        cursor = line_next;
    }
    None
}

/// A new line starts at index `j` of `t`: after a line terminator, `\r\n`
/// counting as one, but not at the very end.
pub open spec fn starts_line(t: Seq<char>, j: int) -> bool {
    &&& 0 < j < t.len()
    &&& (t[j - 1] == '\n' || t[j - 1] == '\u{2028}' || t[j - 1] == '\u{2029}' || (t[j - 1] == '\r'
        && t[j] != '\n'))
}

/// The one-based line and UTF-16 column of the start of character `k`.
pub open spec fn position_at(t: Seq<char>, k: int) -> (int, int)
    decreases k,
{
    if k <= 0 {
        (1, 0)
    } else {
        let (line, column) = position_at(t, k - 1);
        if starts_line(t, k) {
            (line + 1, 0)
        } else {
            (line, column + utf16_width(t[k - 1]))
        }
    }
}

proof fn lemma_position_bounds(t: Seq<char>, k: int)
    requires
        0 <= k <= t.len(),
    ensures
        1 <= position_at(t, k).0 <= k + 1,
        0 <= position_at(t, k).1 <= byte_len(t.take(k)),
    decreases k,
{
    if k > 0 {
        lemma_position_bounds(t, k - 1);
        lemma_byte_len_take_step(t, k - 1);
    }
}

/// The one-based line and UTF-16 column of byte `offset` of `t` (the end
/// past it).
pub fn position(t: &[char], offset: usize) -> (r: (u32, u32))
    requires
        byte_len(t@) < u32::MAX,
    ensures
        r.0 == position_at(t@, chars_before(t@, offset as int)).0,
        r.1 == position_at(t@, chars_before(t@, offset as int)).1,
{
    let n = t.len();
    let mut i: usize = 0;
    let mut bytes: usize = 0;
    let mut line: usize = 1;
    let mut column: usize = 0;
    proof {
        assert(t@.take(t@.len() as int) =~= t@);
    }
    while i < n && bytes < offset
        invariant
            n == t@.len(),
            i <= n,
            byte_len(t@) < u32::MAX,
            bytes == byte_len(t@.take(i as int)),
            bytes <= byte_len(t@),
            line == position_at(t@, i as int).0,
            column == position_at(t@, i as int).1,
            chars_before(t@, offset as int) == chars_before_from(t@, offset as int, i as int),
        decreases n - i,
    {
        proof {
            lemma_byte_len_take_step(t@, i as int);
            crate::text::lemma_byte_len_take_mono(t@, i + 1, n as int);
            assert(t@.take(n as int) =~= t@);
            lemma_position_bounds(t@, i + 1);
        }
        let c = t[i];
        bytes = bytes + len_utf8(c);
        let starts = i + 1 < n && (c == '\n' || c == '\u{2028}' || c == '\u{2029}' || (c == '\r' && t[i + 1] != '\n'));
        if starts {
            line = line + 1;
            column = 0;
        } else {
            column = column + len_utf16(c);
        }
        i = i + 1;
    }
    proof {
        lemma_position_bounds(t@, i as int);
        crate::text::lemma_byte_len_bounds(t@.take(i as int));
        assert(chars_before_from(t@, offset as int, i as int) == i as int);
    }
    (line as u32, column as u32)
}

} // verus!
