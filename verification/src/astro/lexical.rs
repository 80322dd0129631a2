//! Character-level scanning of Astro templates: quoted strings, balanced
//! braces with JavaScript comments, whitespace and name characters.
use vstd::prelude::*;
use crate::text::{is_ascii_ws, find_from, occurs_at, find_chars, chars_of};

verus! {

/// `s` continues with `p` at index `i`.
pub open spec fn starts_at(s: Seq<char>, i: int, p: Seq<char>) -> bool {
    0 <= i && i + p.len() <= s.len() && s.subrange(i, i + p.len()) == p
}

/// Whether `t[i..]` starts with the characters of `p`.
pub fn starts_with_at(t: &[char], i: usize, p: &[char]) -> (r: bool)
    ensures
        r == starts_at(t@, i as int, p@),
{
    if i > t.len() || p.len() > t.len() - i {
        return false;
    }
    crate::text::slice_eq(t, i, i + p.len(), p)
}

/// A JavaScript line terminator.
pub open spec fn is_line_break(c: char) -> bool {
    c == '\n' || c == '\r' || c == '\u{2028}' || c == '\u{2029}'
}

/// The first line terminator from `i` on, or the end.
pub open spec fn line_break_from(t: Seq<char>, i: int) -> int
    decreases t.len() - i,
{
    if i >= t.len() {
        t.len() as int
    } else if is_line_break(t[i]) {
        i
    } else {
        line_break_from(t, i + 1)
    }
}

/// The first index from `i` on whose character is not ASCII whitespace.
pub open spec fn skip_ws_from(t: Seq<char>, i: int) -> int
    decreases t.len() - i,
{
    if i >= t.len() || !is_ascii_ws(t[i]) {
        i
    } else {
        skip_ws_from(t, i + 1)
    }
}

/// The end of the quoted text whose opening `quote` is at `start - 1`,
/// scanning from `i`: one past the closing quote; a backslash escapes the
/// character after it.
pub open spec fn quoted_end_from(t: Seq<char>, i: int, quote: char) -> Option<int>
    decreases t.len() - i,
{
    if i < 0 || i >= t.len() {
        None
    } else if t[i] == '\\' {
        if i + 1 < t.len() {
            quoted_end_from(t, i + 2, quote)
        } else {
            None
        }
    } else if t[i] == quote {
        Some(i + 1)
    } else {
        quoted_end_from(t, i + 1, quote)
    }
}

/// One past the closing quote of the string opened at `start`.
pub open spec fn quoted_end(t: Seq<char>, start: int, quote: char) -> Option<int> {
    quoted_end_from(t, start + 1, quote)
}

/// Where a `//` comment at `i` ends: at the next line terminator.
pub open spec fn line_comment_end(t: Seq<char>, i: int) -> int {
    line_break_from(t, i + 2)
}

/// Where a `/*` comment at `i` ends: past the next `*/`, or the end.
pub open spec fn block_comment_end(t: Seq<char>, i: int) -> int {
    match find_from(t, "*/"@, i + 2) {
        Some(k) => k + 2,
        None => t.len() as int,
    }
}

/// One past the `}` that closes the braces open at depth `depth`, scanning
/// from `i`; strings and comments are skipped whole.
pub open spec fn brace_from(t: Seq<char>, i: int, depth: int) -> Option<int>
    decreases t.len() - i,
{
    if i < 0 || i >= t.len() {
        None
    } else if starts_at(t, i, "//"@) {
        let next = line_comment_end(t, i);
        if i < next <= t.len() {
            brace_from(t, next, depth)
        } else {
            None
        }
    } else if starts_at(t, i, "/*"@) {
        let next = block_comment_end(t, i);
        if i < next <= t.len() {
            brace_from(t, next, depth)
        } else {
            None
        }
    } else if t[i] == '\'' || t[i] == '"' || t[i] == '`' {
        match quoted_end(t, i, t[i]) {
            Some(next) => if i < next <= t.len() {
                brace_from(t, next, depth)
            } else {
                None
            },
            None => None,
        }
    } else if t[i] == '{' {
        brace_from(t, i + 1, depth + 1)
    } else if t[i] == '}' {
        if depth - 1 == 0 {
            Some(i + 1)
        } else {
            brace_from(t, i + 1, depth - 1)
        }
    } else {
        brace_from(t, i + 1, depth)
    }
}

/// One past the `}` matching the `{` at `start`.
pub open spec fn balanced_brace_end(t: Seq<char>, start: int) -> Option<int> {
    if 0 <= start < t.len() && t[start] == '{' {
        brace_from(t, start + 1, 1)
    } else {
        None
    }
}

pub proof fn lemma_quoted_end_after(t: Seq<char>, i: int, quote: char)
    requires
        quoted_end_from(t, i, quote) is Some,
    ensures
        i < quoted_end_from(t, i, quote)->0 <= t.len(),
    decreases t.len() - i,
{
    if i >= 0 && i < t.len() && t[i] == '\\' && i + 1 < t.len() {
        lemma_quoted_end_after(t, i + 2, quote);
    } else if i >= 0 && i < t.len() && t[i] != '\\' && t[i] != quote {
        lemma_quoted_end_after(t, i + 1, quote);
    }
}

pub proof fn lemma_brace_after(t: Seq<char>, i: int, depth: int)
    requires
        brace_from(t, i, depth) is Some,
    ensures
        i < brace_from(t, i, depth)->0 <= t.len(),
    decreases t.len() - i,
{
    if i >= 0 && i < t.len() {
        if starts_at(t, i, "//"@) {
            let n = line_comment_end(t, i);
            if i < n <= t.len() {
                lemma_brace_after(t, n, depth);
            }
        } else if starts_at(t, i, "/*"@) {
            let n = block_comment_end(t, i);
            if i < n <= t.len() {
                lemma_brace_after(t, n, depth);
            }
        } else if t[i] == '\'' || t[i] == '"' || t[i] == '`' {
            let n = quoted_end(t, i, t[i])->0;
            if i < n <= t.len() {
                lemma_brace_after(t, n, depth);
            }
        } else if t[i] == '{' {
            lemma_brace_after(t, i + 1, depth + 1);
        } else if t[i] == '}' {
            if depth - 1 != 0 {
                lemma_brace_after(t, i + 1, depth - 1);
            }
        } else {
            lemma_brace_after(t, i + 1, depth);
        }
    }
}

/// The first line terminator from `i` on, or the end.
pub fn line_break_at_or_after(t: &[char], i: usize) -> (r: usize)
    requires
        i <= t@.len(),
    ensures
        r == line_break_from(t@, i as int),
        i <= r <= t@.len(),
{
    let mut k = i;
    while k < t.len() && !(t[k] == '\n' || t[k] == '\r' || t[k] == '\u{2028}' || t[k] == '\u{2029}')
        invariant
            i <= k <= t@.len(),
            line_break_from(t@, i as int) == line_break_from(t@, k as int),
        decreases t@.len() - k,
    {
        k = k + 1;
    }
    k
}

/// The first index from `i` on whose character is not ASCII whitespace.
pub fn skip_ascii_whitespace(t: &[char], i: usize) -> (r: usize)
    requires
        i <= t@.len(),
    ensures
        r == skip_ws_from(t@, i as int),
        i <= r <= t@.len(),
{
    let mut k = i;
    while k < t.len() && crate::text::is_ascii_whitespace(t[k])
        invariant
            i <= k <= t@.len(),
            skip_ws_from(t@, i as int) == skip_ws_from(t@, k as int),
        decreases t@.len() - k,
    {
        k = k + 1;
    }
    k
}

/// One past the closing `quote` of the string opened at `start`.
pub fn quoted_end_exec(t: &[char], start: usize, quote: char) -> (r: Option<usize>)
    requires
        start < t@.len(),
    ensures
        r matches Some(e) ==> quoted_end(t@, start as int, quote) == Some(e as int),
        r is None ==> quoted_end(t@, start as int, quote) is None,
{
    let n = t.len();
    let mut k = start + 1;
    while k < t.len()
        invariant
            start < k <= t@.len() + 1,
            quoted_end(t@, start as int, quote) == quoted_end_from(t@, k as int, quote),
        decreases t@.len() + 1 - k,
    {
        if t[k] == '\\' {
            if k + 1 < t.len() {
                k = k + 2;
            } else {
                return None;
            }
        } else if t[k] == quote {
            return Some(k + 1);
        } else {
            k = k + 1;
        }
    }
    None
}

/// One past the `}` matching the `{` at `start`, skipping strings and
/// comments.
pub fn balanced_brace_end_exec(t: &[char], start: usize) -> (r: Option<usize>)
    ensures
        r matches Some(e) ==> balanced_brace_end(t@, start as int) == Some(e as int),
        r is None ==> balanced_brace_end(t@, start as int) is None,
{
    if start >= t.len() || t[start] != '{' {
        return None;
    }
    let slashes = chars_of("//");
    let block_open = chars_of("/*");
    let block_close = chars_of("*/");
    proof {
        reveal_strlit("//");
        reveal_strlit("/*");
        reveal_strlit("*/");
    }
    let n = t.len();
    let mut k = start + 1;
    let mut depth: usize = 1;
    while k < n
        invariant
            n == t@.len(),
            start < k <= t@.len(),
            1 <= depth <= k,
            slashes@ == "//"@,
            block_open@ == "/*"@,
            block_close@ == "*/"@,
            slashes@.len() == 2,
            block_open@.len() == 2,
            block_close@.len() == 2,
            balanced_brace_end(t@, start as int) == brace_from(t@, k as int, depth as int),
        decreases t@.len() - k,
    {
        if starts_with_at(t, k, slashes.as_slice()) {
            k = line_break_at_or_after(t, k + 2);
        } else if starts_with_at(t, k, block_open.as_slice()) {
            match find_chars(t, block_close.as_slice(), k + 2) {
                Some(c) => {
                    k = c + 2;
                },
                None => {
                    k = n;
                },
            }
        } else if t[k] == '\'' || t[k] == '"' || t[k] == '`' {
            match quoted_end_exec(t, k, t[k]) {
                Some(e) => {
                    proof {
                        lemma_quoted_end_after(t@, k + 1, t@[k as int]);
                    }
                    k = e;
                },
                None => {
                    return None;
                },
            }
        } else if t[k] == '{' {
            depth = depth + 1;
            k = k + 1;
        } else if t[k] == '}' {
            if depth == 1 {
                return Some(k + 1);
            }
            depth = depth - 1;
            k = k + 1;
        } else {
            k = k + 1;
        }
    }
    None
}

} // verus!
