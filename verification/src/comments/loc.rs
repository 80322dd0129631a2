//! Source-location helpers shared by directive-comment rules.
use vstd::prelude::*;
use crate::text::{
    byte_count, byte_len, chars_of, str_byte_len, is_ascii_whitespace, is_ascii_ws, len_utf8, lemma_byte_len_append,
    lemma_byte_len_bounds, lemma_byte_len_take_mono, lemma_byte_len_take_step, slice_eq,
};

verus! {

/// A source position. `line` is 1-indexed; `column` is 0-indexed. A `column`
/// of `-1` is a sentinel meaning "force the whole line".
#[derive(Clone, Copy, Debug, PartialEq, Eq, Structural)]
pub struct Position {
    pub line: u32,
    pub column: i32,
}

/// A source range.
#[derive(Clone, Copy, Debug, PartialEq, Eq, Structural)]
pub struct Location {
    pub start: Position,
    pub end: Position,
}

/// `a` is at or before `b`.
pub open spec fn spec_lte(a: Position, b: Position) -> bool {
    a.line < b.line || (a.line == b.line && a.column <= b.column)
}

pub open spec fn force_location(location: Location) -> Location {
    Location { start: Position { line: location.start.line, column: -1i32 }, end: location.end }
}

/// Build a location that ignores the start column, so that diagnostics about a
/// directive comment sort to the start of the line.
pub fn to_force_location(location: Location) -> (r: Location)
    ensures
        r == force_location(location),
{
    Location { start: Position { line: location.start.line, column: -1 }, end: location.end }
}

/// `true` when `a` is at or before `b`.
pub fn lte(a: Position, b: Position) -> (r: bool)
    ensures
        r == spec_lte(a, b),
{
    a.line < b.line || (a.line == b.line && a.column <= b.column)
}

/// A rule-id separator: ASCII whitespace or a comma.
pub open spec fn is_rule_sep(c: char) -> bool {
    c == ',' || is_ascii_ws(c)
}

/// `rule` occurs in `line` at character index `p`, with a separator (or the
/// line edge) on both sides.
pub open spec fn bounded_at(line: Seq<char>, rule: Seq<char>, p: int) -> bool {
    &&& 0 <= p
    &&& p + rule.len() <= line.len()
    &&& line.subrange(p, p + rule.len()) == rule
    &&& (p == 0 || is_rule_sep(line[p - 1]))
    &&& (p + rule.len() == line.len() || is_rule_sep(line[p + rule.len()]))
}

/// The first character index at or after `from` where `rule` occurs bounded.
pub open spec fn first_bounded_from(line: Seq<char>, rule: Seq<char>, from: int) -> Option<int>
    decreases line.len() + 1 - from,
{
    if from < 0 || from > line.len() {
        None
    } else if bounded_at(line, rule, from) {
        Some(from)
    } else {
        first_bounded_from(line, rule, from + 1)
    }
}

/// The character index of the first bounded occurrence of a non-empty `rule`.
pub open spec fn first_bounded(line: Seq<char>, rule: Seq<char>) -> Option<int> {
    if rule.len() == 0 {
        None
    } else {
        first_bounded_from(line, rule, 0)
    }
}

/// The byte offset of the first bounded occurrence of `rule` in `line`.
pub open spec fn rule_id_offset(line: Seq<char>, rule: Seq<char>) -> Option<int> {
    match first_bounded(line, rule) {
        Some(p) => Some(byte_len(line.take(p)) as int),
        None => None,
    }
}

pub proof fn lemma_first_bounded_from_props(line: Seq<char>, rule: Seq<char>, from: int)
    requires
        0 <= from,
    ensures
        first_bounded_from(line, rule, from) matches Some(p) ==> from <= p && bounded_at(
            line,
            rule,
            p,
        ) && forall|q: int| from <= q < p ==> !bounded_at(line, rule, q),
        first_bounded_from(line, rule, from) is None ==> forall|q: int|
            from <= q ==> !bounded_at(line, rule, q),
    decreases line.len() + 1 - from,
{
    if from <= line.len() && !bounded_at(line, rule, from) {
        lemma_first_bounded_from_props(line, rule, from + 1);
    }
}

fn is_rule_id_separator(c: char) -> (r: bool)
    ensures
        r == is_rule_sep(c),
{
    c == ',' || is_ascii_whitespace(c)
}

/// Find the byte offset of the first occurrence of `rule_id` in `line` that is
/// bounded by a separator (or the line edge) on both sides.
pub fn find_rule_id(line: &str, rule_id: &str) -> (r: Option<usize>)
    ensures
        r matches Some(b) ==> rule_id_offset(line@, rule_id@) == Some(b as int),
        r is None ==> rule_id_offset(line@, rule_id@) is None,
{
    let l = chars_of(line);
    let rule = chars_of(rule_id);
    let _ = str_byte_len(line);
    find_rule_id_chars(l.as_slice(), rule.as_slice())
}

/// `find_rule_id` on characters.
pub fn find_rule_id_chars(l: &[char], rule: &[char]) -> (r: Option<usize>)
    requires
        byte_len(l@) <= usize::MAX,
    ensures
        r matches Some(b) ==> rule_id_offset(l@, rule@) == Some(b as int),
        r is None ==> rule_id_offset(l@, rule@) is None,
{
    if rule.len() == 0 {
        return None;
    }
    proof {
        lemma_first_bounded_from_props(l@, rule@, 0);
    }
    let mut p: usize = 0;
    let mut bytes: usize = 0;
    while p < l.len()
        invariant
            0 <= p <= l@.len(),
            rule@.len() > 0,
            byte_len(l@) <= usize::MAX,
            bytes == byte_len(l@.take(p as int)),
            first_bounded_from(l@, rule@, 0) == first_bounded_from(l@, rule@, p as int),
        decreases l.len() - p,
    {
        proof {
            lemma_byte_len_take_mono(l@, p + 1, l@.len() as int);
            lemma_byte_len_take_step(l@, p as int);
            assert(l@.take(l@.len() as int) =~= l@);
            lemma_byte_len_bounds(l@);
        }
        if rule.len() <= l.len() - p && slice_eq(l, p, p + rule.len(), rule) {
            let before_ok = p == 0 || is_rule_id_separator(l[p - 1]);
            let after_ok = p + rule.len() == l.len() || is_rule_id_separator(l[p + rule.len()]);
            if before_ok && after_ok {
                return Some(bytes);
            }
        }
        bytes = bytes + len_utf8(l[p]);
        p += 1;
    }
    // A non-empty rule cannot occur at the very end of the line.
    assert(!bounded_at(l@, rule@, p as int));
    assert(first_bounded_from(l@, rule@, p + 1) is None);
    None
}

/// `v` split at every `'\n'`: `k` line feeds give `k + 1` lines.
pub open spec fn split_lines(v: Seq<char>) -> Seq<Seq<char>>
    decreases v.len(),
{
    if v.len() == 0 {
        seq![Seq::<char>::empty()]
    } else {
        let prev = split_lines(v.drop_last());
        if v.last() == '\n' {
            prev.push(Seq::<char>::empty())
        } else {
            prev.update(prev.len() - 1, prev.last().push(v.last()))
        }
    }
}

pub proof fn lemma_split_lines_len(v: Seq<char>)
    ensures
        1 <= split_lines(v).len() <= v.len() + 1,
        forall|i: int| 0 <= i < split_lines(v).len() ==> byte_len(#[trigger] split_lines(v)[i]) <= byte_len(v),
    decreases v.len(),
{
    if v.len() > 0 {
        lemma_split_lines_len(v.drop_last());
        let prev = split_lines(v.drop_last());
        assert forall|i: int| 0 <= i < split_lines(v).len() implies byte_len(
            #[trigger] split_lines(v)[i],
        ) <= byte_len(v) by {
            if v.last() != '\n' && i == prev.len() - 1 {
                assert(prev.last().push(v.last()).drop_last() =~= prev.last());
            }
        }
    }
}

/// A line without one trailing `'\r'`.
pub open spec fn strip_cr(l: Seq<char>) -> Seq<char> {
    if l.len() > 0 && l.last() == '\r' {
        l.drop_last()
    } else {
        l
    }
}

/// The location of `rule` in a comment body's lines, searching from line `i`.
pub open spec fn rule_location_from(
    lines: Seq<Seq<char>>,
    rule: Seq<char>,
    loc: Location,
    i: int,
) -> Location
    decreases lines.len() - i,
{
    if i < 0 || i >= lines.len() {
        loc
    } else {
        match rule_id_offset(strip_cr(lines[i]), rule) {
            Some(pos) => {
                let column = if i == 0 {
                    2 + loc.start.column + pos
                } else {
                    pos
                };
                let line = loc.start.line + i;
                Location {
                    start: Position { line: line as u32, column: column as i32 },
                    end: Position { line: line as u32, column: (column + byte_len(rule)) as i32 },
                }
            },
            None => rule_location_from(lines, rule, loc, i + 1),
        }
    }
}

/// The location of `rule_id` inside a directive comment: the whole line when
/// there is no rule id, else the rule name's position, else the comment.
pub open spec fn rule_id_location(value: Seq<char>, loc: Location, rule_id: Option<Seq<char>>) -> Location {
    match rule_id {
        None => force_location(loc),
        Some(rule) => rule_location_from(split_lines(value), rule, loc, 0),
    }
}

pub proof fn lemma_strip_cr_bytes(l: Seq<char>)
    ensures
        byte_len(strip_cr(l)) <= byte_len(l),
{
}

/// The characters of an optional string.
pub open spec fn opt_str_view(o: Option<&str>) -> Option<Seq<char>> {
    match o {
        Some(s) => Some(s@),
        None => None,
    }
}

/// The numbers computed for the first line from `i` on where `rule` is found
/// fit their types: its byte offset, the column (shifted by the opening
/// delimiter on the first line) and the column past the rule name fit `i32`,
/// and the line number fits `u32`. Nothing is computed when it is not found.
pub open spec fn rule_fits_from(lines: Seq<Seq<char>>, rule: Seq<char>, loc: Location, i: int) -> bool
    decreases lines.len() - i,
{
    if i < 0 || i >= lines.len() {
        true
    } else {
        match rule_id_offset(strip_cr(lines[i]), rule) {
            Some(pos) => {
                let column = if i == 0 { 2 + loc.start.column + pos } else { pos };
                &&& pos <= i32::MAX
                &&& (i == 0 ==> 2 + loc.start.column <= i32::MAX)
                &&& byte_len(rule) <= i32::MAX
                &&& column + byte_len(rule) <= i32::MAX
                &&& loc.start.line + i <= u32::MAX
            },
            None => rule_fits_from(lines, rule, loc, i + 1),
        }
    }
}

/// The numbers that `to_rule_id_location` computes for `rule_id` fit their
/// types; with no rule id nothing is computed.
pub open spec fn rule_id_fits(value: Seq<char>, loc: Location, rule_id: Option<Seq<char>>) -> bool {
    match rule_id {
        None => true,
        Some(rule) => rule_fits_from(split_lines(value), rule, loc, 0),
    }
}

/// A comment leaves room for the location arithmetic of `to_rule_id_location`
/// for any rule id.
pub open spec fn location_fits(value: Seq<char>, loc: Location) -> bool {
    forall|r: Seq<char>| #[trigger] rule_id_fits(value, loc, Some(r))
}

/// The lines of `v`, as character vectors.
fn lines_of(v: &[char]) -> (r: Vec<Vec<char>>)
    ensures
        r@.len() == split_lines(v@).len(),
        forall|i: int| 0 <= i < r@.len() ==> (#[trigger] r@[i])@ == split_lines(v@)[i],
{
    let mut r: Vec<Vec<char>> = Vec::new();
    let mut cur: Vec<char> = Vec::new();
    let mut k: usize = 0;
    while k < v.len()
        invariant
            0 <= k <= v@.len(),
            r@.len() + 1 == split_lines(v@.take(k as int)).len(),
            forall|i: int| 0 <= i < r@.len() ==> (#[trigger] r@[i])@ == split_lines(
                v@.take(k as int),
            )[i],
            cur@ == split_lines(v@.take(k as int)).last(),
        decreases v.len() - k,
    {
        let c = v[k];
        proof {
            lemma_split_lines_len(v@.take(k as int));
            assert(v@.take(k + 1).drop_last() =~= v@.take(k as int));
        }
        if c == '\n' {
            r.push(cur);
            cur = Vec::new();
        } else {
            cur.push(c);
        }
        k += 1;
    }
    assert(v@.take(k as int) =~= v@);
    proof {
        lemma_split_lines_len(v@);
    }
    r.push(cur);
    r
}

/// Compute the location of `rule_id` inside a directive comment. When
/// `rule_id` is `None` the whole line is forced; otherwise the column points
/// at the rule name within the comment (the opening delimiter shifts only the
/// first line), or the comment's own location when the name is not found.
pub fn to_rule_id_location(comment_value: &str, comment_loc: Location, rule_id: Option<&str>) -> (r:
    Location)
    requires
        rule_id_fits(comment_value@, comment_loc, opt_str_view(rule_id)),
    ensures
        r == rule_id_location(comment_value@, comment_loc, opt_str_view(rule_id)),
{
    let rid = match rule_id {
        None => return to_force_location(comment_loc),
        Some(rid) => rid,
    };
    let _ = str_byte_len(comment_value);
    let v = chars_of(comment_value);
    let rule = chars_of(rid);
    let lines = lines_of(v.as_slice());
    let ghost ls = split_lines(v@);
    proof {
        lemma_split_lines_len(v@);
    }
    let mut index: usize = 0;
    while index < lines.len()
        invariant
            0 <= index <= lines@.len(),
            lines@.len() == ls.len(),
            forall|i: int| 0 <= i < lines@.len() ==> (#[trigger] lines@[i])@ == ls[i],
            ls == split_lines(v@),
            v@ == comment_value@,
            rule@ == rid@,
            opt_str_view(rule_id) == Some(rid@),
            rule_fits_from(ls, rule@, comment_loc, index as int),
            byte_len(v@) <= usize::MAX,
            forall|i: int| 0 <= i < ls.len() ==> byte_len(#[trigger] ls[i]) <= byte_len(v@),
            rule_location_from(ls, rule@, comment_loc, 0) == rule_location_from(
                ls,
                rule@,
                comment_loc,
                index as int,
            ),
        decreases lines.len() - index,
    {
        let raw_line = &lines[index];
        let line_end = if raw_line.len() > 0 && raw_line[raw_line.len() - 1] == '\r' {
            raw_line.len() - 1
        } else {
            raw_line.len()
        };
        let line = &raw_line.as_slice()[0..line_end];
        assert(line@ =~= strip_cr(ls[index as int]));
        proof {
            lemma_strip_cr_bytes(ls[index as int]);
        }
        let found = find_rule_id_chars(line, rule.as_slice());
        match found {
            Some(pos) => {
                assert(rule_id_offset(strip_cr(ls[index as int]), rule@) == Some(pos as int));
                let rule_bytes = byte_count(rule.as_slice());
                let column: i32 = if index == 0 {
                    2 + comment_loc.start.column + pos as i32
                } else {
                    pos as i32
                };
                let line_number = comment_loc.start.line + index as u32;
                assert(rule_id_offset(strip_cr(ls[index as int]), rule@) == Some(pos as int));
                assert(rule_location_from(ls, rule@, comment_loc, index as int) == (Location {
                    start: Position { line: line_number, column },
                    end: Position { line: line_number, column: (column + rule_bytes) as i32 },
                }));
                assert(rule_id_location(comment_value@, comment_loc, Some(rid@))
                    == rule_location_from(ls, rule@, comment_loc, 0));
                let end_column = column + rule_bytes as i32;
                let r = Location {
                    start: Position { line: line_number, column },
                    end: Position { line: line_number, column: end_column },
                };
                assert(r == rule_id_location(comment_value@, comment_loc, Some(rid@)));
                return r;
            },
            None => {},
        }
        index += 1;
    }
    comment_loc
}

} // verus!
