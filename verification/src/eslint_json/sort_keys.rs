//! `sort-keys`: each member whose key is out of order with the member
//! before it, with a fix that swaps the two members.
use vstd::prelude::*;
use crate::text::{byte_len, is_ws, trim, trim_range, is_whitespace, string_from, string_of, push_char};
use crate::lines::{lf_count, lf_position_at};
use super::options::{SortOptions, SortDirection};
use super::sort::{valid_sort_order, is_valid_sort_order};
use super::facts::{
    Span, MemberFact, ObjectFact, Diagnostic, DiagnosticData, DiagnosticFix, DiagnosticView,
    DataView, FixView, empty_data, span_wf, members_wf, span_loc, loc_for_span, diagnostics_view,
    lemma_diagnostics_view_push, utf16_at, utf16_offset,
};
use super::checks::{concat_upto, objects_wf};

verus! {

/// The one-based line of character `k` of `t`.
pub open spec fn line_of(t: Seq<char>, k: int) -> int {
    1 + lf_count(t.take(k)) as int
}

/// Where each line of `t` starts: 0, and the index after each `\n`.
pub open spec fn line_starts(t: Seq<char>) -> Seq<int>
    decreases t.len(),
{
    if t.len() == 0 {
        seq![0]
    } else {
        let p = line_starts(t.drop_last());
        if t.last() == '\n' {
            p.push(t.len() as int)
        } else {
            p
        }
    }
}

/// Line starts grow and stay within the text.
pub proof fn lemma_line_starts(t: Seq<char>)
    ensures
        line_starts(t).len() >= 1,
        line_starts(t)[0] == 0,
        forall|i: int| 0 <= i < line_starts(t).len() ==> 0 <= #[trigger] line_starts(t)[i] <= t.len(),
        forall|i: int, j: int| 0 <= i < j < line_starts(t).len() ==> #[trigger] line_starts(t)[i] < #[trigger] line_starts(t)[j],
    decreases t.len(),
{
    if t.len() > 0 {
        lemma_line_starts(t.drop_last());
    }
}

/// The text of line `line` of `t`, with its `\n`, when there is such a line.
pub open spec fn line_text(t: Seq<char>, line: int) -> Option<Seq<char>> {
    let ls = line_starts(t);
    if 1 <= line <= ls.len() {
        Some(t.subrange(ls[line - 1], if line < ls.len() { ls[line] } else { t.len() as int }))
    } else {
        None
    }
}

/// Whether line `line` of `t` exists and holds only whitespace.
pub open spec fn line_is_blank(t: Seq<char>, line: int) -> bool {
    match line_text(t, line) {
        Some(x) => trim(x).len() == 0,
        None => false,
    }
}

/// Whether line `line` lies within the lines of some comment.
pub open spec fn in_comment_lines(t: Seq<char>, comments: Seq<Span>, line: int) -> bool {
    exists|i: int| 0 <= i < comments.len() && line_of(t, (#[trigger] comments[i]).start as int) <= line <= line_of(t, comments[i].end as int)
}

/// Whether a blank line outside comments stands between the line of `end`
/// and the line of `start`.
pub open spec fn line_separated(t: Seq<char>, comments: Seq<Span>, end: int, start: int) -> bool {
    exists|l: int| line_of(t, end) < l < line_of(t, start) && !in_comment_lines(t, comments, l) && #[trigger] line_is_blank(t, l)
}

/// Every character is whitespace.
pub open spec fn all_ws(s: Seq<char>) -> bool {
    forall|i: int| 0 <= i < s.len() ==> is_ws(#[trigger] s[i])
}

/// Every character is whitespace or a comma, with one comma at most.
pub open spec fn ws_with_optional_comma(s: Seq<char>) -> bool {
    &&& forall|i: int| 0 <= i < s.len() ==> #[trigger] s[i] == ',' || is_ws(s[i])
    &&& forall|i: int, j: int| 0 <= i < j < s.len() ==> !(#[trigger] s[i] == ',' && #[trigger] s[j] == ',')
}

/// Whether a comment ends right before `span`, with only whitespace
/// between, or starts right after it, with only whitespace and one comma
/// at most between.
pub open spec fn adjacent_comment(t: Seq<char>, comments: Seq<Span>, span: Span) -> bool {
    ||| exists|i: int| 0 <= i < comments.len() && (#[trigger] comments[i]).end <= span.start && all_ws(t.subrange(comments[i].end as int, span.start as int))
    ||| exists|i: int| 0 <= i < comments.len() && (#[trigger] comments[i]).start >= span.end && ws_with_optional_comma(t.subrange(span.end as int, comments[i].start as int))
}

/// The fix that swaps two members, when no comment sits next to either.
pub open spec fn swap_fix(t: Seq<char>, comments: Seq<Span>, prev: MemberFact, cur: MemberFact) -> Option<FixView> {
    if adjacent_comment(t, comments, prev.member_span) || adjacent_comment(t, comments, cur.member_span) {
        None
    } else {
        Some(FixView {
            start: utf16_at(t, prev.member_span.start as int),
            end: utf16_at(t, cur.member_span.end as int),
            replacement: t.subrange(cur.member_span.start as int, cur.member_span.end as int)
                + t.subrange(prev.member_span.end as int, cur.member_span.start as int)
                + t.subrange(prev.member_span.start as int, prev.member_span.end as int),
        })
    }
}

/// The data of a `sort-keys` report.
pub open spec fn sort_data(prev: MemberFact, cur: MemberFact, o: SortOptions) -> DataView {
    DataView {
        this_name: Some(cur.raw_key@),
        prev_name: Some(prev.raw_key@),
        direction: Some(match o.direction { SortDirection::Ascending => "ascending"@, SortDirection::Descending => "descending"@ }),
        sensitivity: Some(if o.case_sensitive { "sensitive"@ } else { "insensitive"@ }),
        sort_name: Some(if o.natural { "natural"@ } else { "alphanumeric"@ }),
        ..empty_data()
    }
}

/// The `sort-keys` report of member `j` against member `j - 1`, if any.
pub open spec fn sort_at(t: Seq<char>, comments: Seq<Span>, ms: Seq<MemberFact>, j: int, o: SortOptions) -> Seq<DiagnosticView> {
    if j < 1 {
        Seq::empty()
    } else {
        let prev = ms[j - 1];
        let cur = ms[j];
        if o.allow_line_separated_groups && line_separated(t, comments, prev.member_span.end as int, cur.member_span.start as int) {
            Seq::empty()
        } else if valid_sort_order(prev.key@, cur.key@, o) {
            Seq::empty()
        } else {
            seq![DiagnosticView {
                rule_name: "sort-keys",
                message_id: "sortKeys",
                data: sort_data(prev, cur, o),
                loc: span_loc(t, cur.name_span),
                fix: swap_fix(t, comments, prev, cur),
            }]
        }
    }
}

/// `sort-keys` on one object: nothing when it has fewer members than asked.
pub open spec fn sort_in(t: Seq<char>, comments: Seq<Span>, ms: Seq<MemberFact>, o: SortOptions) -> Seq<DiagnosticView> {
    if ms.len() < o.min_keys {
        Seq::empty()
    } else {
        concat_upto(ms.len() as int, |j: int| sort_at(t, comments, ms, j, o))
    }
}

/// `sort-keys` on every object.
pub open spec fn sort_reports(t: Seq<char>, comments: Seq<Span>, objects: Seq<ObjectFact>, o: SortOptions) -> Seq<DiagnosticView> {
    concat_upto(objects.len() as int, |k: int| sort_in(t, comments, objects[k].members@, o))
}

/// Every comment lies within a source of `n` characters.
pub open spec fn comments_wf(comments: Seq<Span>, n: int) -> bool {
    forall|i: int| 0 <= i < comments.len() ==> span_wf(#[trigger] comments[i], n)
}

/// Where each line of `t` starts.
pub fn line_start_indices(t: &[char]) -> (r: Vec<usize>)
    ensures
        r@.len() == line_starts(t@).len(),
        forall|i: int| 0 <= i < r@.len() ==> #[trigger] r@[i] as int == line_starts(t@)[i],
{
    let mut r: Vec<usize> = Vec::new();
    r.push(0);
    let mut i: usize = 0;
    assert(t@.take(0) =~= Seq::<char>::empty());
    while i < t.len()
        invariant
            i <= t@.len(),
            r@.len() == line_starts(t@.take(i as int)).len(),
            forall|k: int| 0 <= k < r@.len() ==> #[trigger] r@[k] as int == line_starts(t@.take(i as int))[k],
        decreases t@.len() - i,
    {
        assert(t@.take(i + 1).drop_last() =~= t@.take(i as int));
        if t[i] == '\n' {
            r.push(i + 1);
        }
        i = i + 1;
    }
    assert(t@.take(t@.len() as int) =~= t@);
    r
}

/// Whether line `line` of `t` exists and holds only whitespace.
fn is_blank_line(t: &[char], starts: &Vec<usize>, line: u32) -> (r: bool)
    requires
        starts@.len() == line_starts(t@).len(),
        forall|i: int| 0 <= i < starts@.len() ==> #[trigger] starts@[i] as int == line_starts(t@)[i],
    ensures
        r == line_is_blank(t@, line as int),
{
    proof {
        lemma_line_starts(t@);
    }
    if line < 1 || line as usize > starts.len() {
        return false;
    }
    let l = line as usize;
    let from = starts[l - 1];
    let to = if l < starts.len() { starts[l] } else { t.len() };
    assert(line_starts(t@)[l - 1] < line_starts(t@)[l as int] || l >= starts@.len());
    let (lo, hi) = trim_range(t, from, to);
    lo == hi
}

/// The lines of each comment: that of its start and that of its end.
fn comment_line_ranges(t: &[char], comments: &Vec<Span>) -> (r: Vec<(u32, u32)>)
    requires
        comments_wf(comments@, t@.len() as int),
        byte_len(t@) < u32::MAX,
    ensures
        r@.len() == comments@.len(),
        forall|i: int| 0 <= i < r@.len() ==> (#[trigger] r@[i]).0 == line_of(t@, comments@[i].start as int)
            && r@[i].1 == line_of(t@, comments@[i].end as int),
{
    let mut r: Vec<(u32, u32)> = Vec::new();
    let mut i: usize = 0;
    while i < comments.len()
        invariant
            i <= comments@.len(),
            comments_wf(comments@, t@.len() as int),
            byte_len(t@) < u32::MAX,
            r@.len() == i,
            forall|k: int| 0 <= k < i ==> (#[trigger] r@[k]).0 == line_of(t@, comments@[k].start as int)
                && r@[k].1 == line_of(t@, comments@[k].end as int),
        decreases comments@.len() - i,
    {
        assert(span_wf(comments@[i as int], t@.len() as int));
        let (a, _) = lf_position_at(t, comments[i].start);
        let (b, _) = lf_position_at(t, comments[i].end);
        r.push((a, b));
        i = i + 1;
    }
    r
}

/// Whether a blank line outside comments stands between the line of
/// `end` and the line of `start`.
fn is_line_separated(t: &[char], starts: &Vec<usize>, ranges: &Vec<(u32, u32)>, comments: &Vec<Span>, end: usize, start: usize) -> (r: bool)
    requires
        end <= t@.len(),
        start <= t@.len(),
        byte_len(t@) < u32::MAX,
        starts@.len() == line_starts(t@).len(),
        forall|i: int| 0 <= i < starts@.len() ==> #[trigger] starts@[i] as int == line_starts(t@)[i],
        ranges@.len() == comments@.len(),
        forall|i: int| 0 <= i < ranges@.len() ==> (#[trigger] ranges@[i]).0 == line_of(t@, comments@[i].start as int)
            && ranges@[i].1 == line_of(t@, comments@[i].end as int),
    ensures
        r == line_separated(t@, comments@, end as int, start as int),
{
    let (pe, _) = lf_position_at(t, end);
    let (cs, _) = lf_position_at(t, start);
    if cs <= pe {
        return false;
    }
    let mut l: u32 = pe + 1;
    while l < cs
        invariant
            pe < l <= cs,
            pe == line_of(t@, end as int),
            cs == line_of(t@, start as int),
            starts@.len() == line_starts(t@).len(),
            forall|i: int| 0 <= i < starts@.len() ==> #[trigger] starts@[i] as int == line_starts(t@)[i],
            ranges@.len() == comments@.len(),
            forall|i: int| 0 <= i < ranges@.len() ==> (#[trigger] ranges@[i]).0 == line_of(t@, comments@[i].start as int)
                && ranges@[i].1 == line_of(t@, comments@[i].end as int),
            forall|x: int| pe < x < l ==> in_comment_lines(t@, comments@, x) || !#[trigger] line_is_blank(t@, x),
        decreases cs - l,
    {
        let mut covered = false;
        let mut i: usize = 0;
        while i < ranges.len()
            invariant
                i <= ranges@.len(),
                ranges@.len() == comments@.len(),
                forall|k: int| 0 <= k < ranges@.len() ==> (#[trigger] ranges@[k]).0 == line_of(t@, comments@[k].start as int)
                    && ranges@[k].1 == line_of(t@, comments@[k].end as int),
                covered ==> in_comment_lines(t@, comments@, l as int),
                !covered ==> forall|k: int| 0 <= k < i ==> !(line_of(t@, (#[trigger] comments@[k]).start as int) <= l <= line_of(t@, comments@[k].end as int)),
            decreases ranges@.len() - i,
        {
            if ranges[i].0 <= l && l <= ranges[i].1 {
                covered = true;
            }
            i = i + 1;
        }
        if !covered && is_blank_line(t, starts, l) {
            return true;
        }
        l = l + 1;
    }
    false
}

/// Whether every character of `t[from..to]` is whitespace.
fn all_whitespace(t: &[char], from: usize, to: usize) -> (r: bool)
    requires
        from <= to <= t@.len(),
    ensures
        r == all_ws(t@.subrange(from as int, to as int)),
{
    let mut i = from;
    while i < to
        invariant
            from <= i <= to <= t@.len(),
            forall|k: int| from <= k < i ==> is_ws(#[trigger] t@[k]),
        decreases to - i,
    {
        if !is_whitespace(t[i]) {
            assert(t@.subrange(from as int, to as int)[i - from] == t@[i as int]);
            return false;
        }
        i = i + 1;
    }
    assert forall|k: int| 0 <= k < to - from implies is_ws(#[trigger] t@.subrange(from as int, to as int)[k]) by {
        assert(t@.subrange(from as int, to as int)[k] == t@[from + k]);
    }
    true
}

/// Whether `t[from..to]` is whitespace with one comma at most.
fn is_whitespace_with_optional_comma(t: &[char], from: usize, to: usize) -> (r: bool)
    requires
        from <= to <= t@.len(),
    ensures
        r == ws_with_optional_comma(t@.subrange(from as int, to as int)),
{
    let ghost s = t@.subrange(from as int, to as int);
    let mut comma_seen = false;
    let mut i = from;
    while i < to
        invariant
            from <= i <= to <= t@.len(),
            s == t@.subrange(from as int, to as int),
            forall|k: int| 0 <= k < i - from ==> #[trigger] s[k] == ',' || is_ws(s[k]),
            forall|a: int, b: int| 0 <= a < b < i - from ==> !(#[trigger] s[a] == ',' && #[trigger] s[b] == ','),
            comma_seen <==> exists|k: int| 0 <= k < i - from && #[trigger] s[k] == ',',
        decreases to - i,
    {
        assert(s[i - from] == t@[i as int]);
        let ch = t[i];
        if ch == ',' && !comma_seen {
            comma_seen = true;
        } else if !is_whitespace(ch) {
            proof {
                if ch == ',' {
                    let k = choose|k: int| 0 <= k < i - from && #[trigger] s[k] == ',';
                    assert(s[k] == ',' && s[i - from] == ',');
                }
            }
            return false;
        }
        i = i + 1;
    }
    true
}

/// Whether a comment sits right before or right after `span`.
pub fn has_adjacent_comment(t: &[char], comments: &Vec<Span>, span: Span) -> (r: bool)
    requires
        comments_wf(comments@, t@.len() as int),
        span_wf(span, t@.len() as int),
    ensures
        r == adjacent_comment(t@, comments@, span),
{
    let mut i: usize = 0;
    while i < comments.len()
        invariant
            i <= comments@.len(),
            comments_wf(comments@, t@.len() as int),
            span_wf(span, t@.len() as int),
            forall|k: int| 0 <= k < i ==> !((#[trigger] comments@[k]).end <= span.start && all_ws(t@.subrange(comments@[k].end as int, span.start as int))),
        decreases comments@.len() - i,
    {
        let c = comments[i];
        assert(span_wf(comments@[i as int], t@.len() as int));
        if c.end <= span.start && all_whitespace(t, c.end, span.start) {
            return true;
        }
        i = i + 1;
    }
    let mut i: usize = 0;
    while i < comments.len()
        invariant
            i <= comments@.len(),
            comments_wf(comments@, t@.len() as int),
            span_wf(span, t@.len() as int),
            forall|k: int| 0 <= k < comments@.len() ==> !((#[trigger] comments@[k]).end <= span.start && all_ws(t@.subrange(comments@[k].end as int, span.start as int))),
            forall|k: int| 0 <= k < i ==> !((#[trigger] comments@[k]).start >= span.end && ws_with_optional_comma(t@.subrange(span.end as int, comments@[k].start as int))),
        decreases comments@.len() - i,
    {
        let c = comments[i];
        assert(span_wf(comments@[i as int], t@.len() as int));
        if c.start >= span.end && is_whitespace_with_optional_comma(t, span.end, c.start) {
            return true;
        }
        i = i + 1;
    }
    false
}

/// Appends the characters `t[from..to]` to `out`.
fn push_range(out: &mut String, t: &[char], from: usize, to: usize)
    requires
        from <= to <= t@.len(),
    ensures
        final(out)@ == old(out)@ + t@.subrange(from as int, to as int),
{
    let ghost before = out@;
    let mut i = from;
    while i < to
        invariant
            from <= i <= to <= t@.len(),
            out@ == before + t@.subrange(from as int, i as int),
        decreases to - i,
    {
        push_char(out, t[i]);
        assert(t@.subrange(from as int, i + 1) =~= t@.subrange(from as int, i as int).push(t@[i as int]));
        i = i + 1;
    }
}

/// The fix that swaps two members, when no comment sits next to either.
fn sort_keys_fix(t: &[char], comments: &Vec<Span>, prev: &MemberFact, cur: &MemberFact) -> (r: Option<DiagnosticFix>)
    requires
        comments_wf(comments@, t@.len() as int),
        span_wf(prev.member_span, t@.len() as int),
        span_wf(cur.member_span, t@.len() as int),
        prev.member_span.end <= cur.member_span.start,
        byte_len(t@) < u32::MAX,
    ensures
        match r {
            Some(f) => Some(f@),
            None => None,
        } == swap_fix(t@, comments@, *prev, *cur),
{
    if has_adjacent_comment(t, comments, prev.member_span) || has_adjacent_comment(t, comments, cur.member_span) {
        return None;
    }
    let mut replacement = string_from(t, cur.member_span.start, cur.member_span.end);
    push_range(&mut replacement, t, prev.member_span.end, cur.member_span.start);
    push_range(&mut replacement, t, prev.member_span.start, prev.member_span.end);
    Some(DiagnosticFix {
        start: utf16_offset(t, prev.member_span.start),
        end: utf16_offset(t, cur.member_span.end),
        replacement,
    })
}

/// The data of a `sort-keys` report.
fn sort_report_data(prev: &MemberFact, cur: &MemberFact, o: &SortOptions) -> (r: DiagnosticData)
    ensures
        r@ == sort_data(*prev, *cur, *o),
{
    let mut data = DiagnosticData::default();
    data.this_name = Some(cur.raw_key.clone());
    data.prev_name = Some(prev.raw_key.clone());
    data.direction = Some(match o.direction {
        SortDirection::Ascending => string_of("ascending"),
        SortDirection::Descending => string_of("descending"),
    });
    data.sensitivity = Some(if o.case_sensitive { string_of("sensitive") } else { string_of("insensitive") });
    data.sort_name = Some(if o.natural { string_of("natural") } else { string_of("alphanumeric") });
    data
}

/// Appends the `sort-keys` reports of one object.
fn push_sort_keys(
    t: &[char],
    starts: &Vec<usize>,
    ranges: &Vec<(u32, u32)>,
    comments: &Vec<Span>,
    ms: &Vec<MemberFact>,
    o: &SortOptions,
    out: &mut Vec<Diagnostic>,
)
    requires
        members_wf(ms@, t@.len() as int),
        comments_wf(comments@, t@.len() as int),
        byte_len(t@) < u32::MAX,
        starts@.len() == line_starts(t@).len(),
        forall|i: int| 0 <= i < starts@.len() ==> #[trigger] starts@[i] as int == line_starts(t@)[i],
        ranges@.len() == comments@.len(),
        forall|i: int| 0 <= i < ranges@.len() ==> (#[trigger] ranges@[i]).0 == line_of(t@, comments@[i].start as int)
            && ranges@[i].1 == line_of(t@, comments@[i].end as int),
    ensures
        diagnostics_view(final(out)@) == diagnostics_view(old(out)@) + sort_in(t@, comments@, ms@, *o),
{
    if ms.len() < o.min_keys {
        assert(diagnostics_view(out@) + Seq::<DiagnosticView>::empty() =~= diagnostics_view(out@));
        return;
    }
    let ghost g = |j: int| sort_at(t@, comments@, ms@, j, *o);
    let ghost start = diagnostics_view(out@);
    let mut j: usize = 0;
    while j < ms.len()
        invariant
            j <= ms@.len(),
            members_wf(ms@, t@.len() as int),
            comments_wf(comments@, t@.len() as int),
            byte_len(t@) < u32::MAX,
            starts@.len() == line_starts(t@).len(),
            forall|i: int| 0 <= i < starts@.len() ==> #[trigger] starts@[i] as int == line_starts(t@)[i],
            ranges@.len() == comments@.len(),
            forall|i: int| 0 <= i < ranges@.len() ==> (#[trigger] ranges@[i]).0 == line_of(t@, comments@[i].start as int)
                && ranges@[i].1 == line_of(t@, comments@[i].end as int),
            diagnostics_view(out@) == start + concat_upto(j as int, g),
            forall|x: int| #[trigger] g(x) == sort_at(t@, comments@, ms@, x, *o),
        decreases ms@.len() - j,
    {
        if j >= 1 {
            let prev = &ms[j - 1];
            let cur = &ms[j];
            assert(span_wf(ms@[j - 1].name_span, t@.len() as int));
            assert(span_wf(ms@[j as int].name_span, t@.len() as int));
            assert(ms@[j - 1].member_span.end <= ms@[j as int].member_span.start);
            let separated = o.allow_line_separated_groups && is_line_separated(
                t,
                starts,
                ranges,
                comments,
                prev.member_span.end,
                cur.member_span.start,
            );
            if !separated && !is_valid_sort_order(prev.key.as_str(), cur.key.as_str(), o) {
                let d = Diagnostic {
                    rule_name: "sort-keys",
                    message_id: "sortKeys",
                    data: sort_report_data(prev, cur, o),
                    loc: loc_for_span(t, cur.name_span),
                    fix: sort_keys_fix(t, comments, prev, cur),
                };
                proof {
                    lemma_diagnostics_view_push(out@, d);
                }
                out.push(d);
            }
        }
        assert(concat_upto(j + 1, g) == concat_upto(j as int, g) + g(j as int));
        assert(start + concat_upto(j + 1, g) =~= start + concat_upto(j as int, g) + g(j as int));
        j = j + 1;
    }
}

/// `sort-keys`: appends its reports on every object.
pub fn scan_sort_keys(t: &[char], objects: &Vec<ObjectFact>, comments: &Vec<Span>, o: &SortOptions, out: &mut Vec<Diagnostic>)
    requires
        objects_wf(objects@, t@.len() as int),
        comments_wf(comments@, t@.len() as int),
        byte_len(t@) < u32::MAX,
    ensures
        diagnostics_view(final(out)@) == diagnostics_view(old(out)@) + sort_reports(t@, comments@, objects@, *o),
{
    let starts = line_start_indices(t);
    let ranges = comment_line_ranges(t, comments);
    let ghost g = |k: int| sort_in(t@, comments@, objects@[k].members@, *o);
    let ghost start = diagnostics_view(out@);
    let mut k: usize = 0;
    while k < objects.len()
        invariant
            k <= objects@.len(),
            objects_wf(objects@, t@.len() as int),
            comments_wf(comments@, t@.len() as int),
            byte_len(t@) < u32::MAX,
            starts@.len() == line_starts(t@).len(),
            forall|i: int| 0 <= i < starts@.len() ==> #[trigger] starts@[i] as int == line_starts(t@)[i],
            ranges@.len() == comments@.len(),
            forall|i: int| 0 <= i < ranges@.len() ==> (#[trigger] ranges@[i]).0 == line_of(t@, comments@[i].start as int)
                && ranges@[i].1 == line_of(t@, comments@[i].end as int),
            diagnostics_view(out@) == start + concat_upto(k as int, g),
            forall|x: int| #[trigger] g(x) == sort_in(t@, comments@, objects@[x].members@, *o),
        decreases objects@.len() - k,
    {
        assert(members_wf(objects@[k as int].members@, t@.len() as int));
        push_sort_keys(t, &starts, &ranges, comments, &objects[k].members, o, out);
        assert(concat_upto(k + 1, g) == concat_upto(k as int, g) + g(k as int));
        assert(start + concat_upto(k + 1, g) =~= start + concat_upto(k as int, g) + g(k as int));
        k = k + 1;
    }
}

} // verus!
