//! Gitignore-style rule patterns for `no-restricted-disable`: `*` matches a
//! run of non-`/` characters, a pattern with an inner `/` is anchored to the
//! leading segments of a rule id, a pattern without one matches any segment,
//! and a `!` prefix negates; the last matching pattern wins.
use vstd::prelude::*;
use crate::text::{chars_of, push_char};

verus! {

/// `p` matches all of `t`, where `*` matches any run of non-`/` characters
/// and every other character matches itself.
pub open spec fn glob(p: Seq<char>, t: Seq<char>) -> bool
    decreases p.len() + t.len(),
{
    if p.len() == 0 {
        t.len() == 0
    } else if p[0] == '*' {
        glob(p.drop_first(), t) || (t.len() > 0 && t[0] != '/' && glob(p, t.drop_first()))
    } else {
        t.len() > 0 && t[0] == p[0] && glob(p.drop_first(), t.drop_first())
    }
}

/// `p[i..]` matches `t[j..]`.
pub open spec fn gm(p: Seq<char>, t: Seq<char>, i: int, j: int) -> bool {
    glob(p.skip(i), t.skip(j))
}

proof fn lemma_unfold(p: Seq<char>, t: Seq<char>, i: int, j: int)
    requires
        0 <= i <= p.len(),
        0 <= j <= t.len(),
    ensures
        gm(p, t, i, j) == if i == p.len() {
            j == t.len()
        } else if p[i] == '*' {
            gm(p, t, i + 1, j) || (j < t.len() && t[j] != '/' && gm(p, t, i, j + 1))
        } else {
            j < t.len() && t[j] == p[i] && gm(p, t, i + 1, j + 1)
        },
{
    if i < p.len() {
        assert(p.skip(i).drop_first() =~= p.skip(i + 1));
        assert(p.skip(i)[0] == p[i]);
    }
    if j < t.len() {
        assert(t.skip(j).drop_first() =~= t.skip(j + 1));
        assert(t.skip(j)[0] == t[j]);
    }
}

/// No `*` in `p[a..b]`.
pub open spec fn no_star(p: Seq<char>, a: int, b: int) -> bool {
    forall|k: int| a <= k < b ==> p[k] != '*'
}

/// No `/` in `t[a..b]`.
pub open spec fn no_slash(t: Seq<char>, a: int, b: int) -> bool {
    forall|k: int| a <= k < b ==> t[k] != '/'
}

/// `t[j..j + (b - a)]` is `p[a..b]`.
pub open spec fn same_run(p: Seq<char>, a: int, b: int, t: Seq<char>, j: int) -> bool {
    &&& 0 <= j
    &&& j + (b - a) <= t.len()
    &&& forall|k: int| a <= k < b ==> t[j + (k - a)] == p[k]
}

proof fn lemma_literal_run(p: Seq<char>, t: Seq<char>, a: int, b: int, j: int)
    requires
        0 <= a <= b <= p.len(),
        no_star(p, a, b),
        same_run(p, a, b, t, j),
    ensures
        gm(p, t, a, j) == gm(p, t, b, j + (b - a)),
    decreases b - a,
{
    if a < b {
        lemma_unfold(p, t, a, j);
        lemma_literal_run(p, t, a + 1, b, j + 1);
    }
}

/// A literal run that matches forward.
proof fn lemma_literal_forward(p: Seq<char>, t: Seq<char>, a: int, b: int, m: int)
    requires
        0 <= a <= b <= p.len(),
        0 <= m <= t.len(),
        no_star(p, a, b),
        gm(p, t, a, m),
    ensures
        same_run(p, a, b, t, m),
        gm(p, t, b, m + (b - a)),
    decreases b - a,
{
    if a < b {
        lemma_unfold(p, t, a, m);
        lemma_literal_forward(p, t, a + 1, b, m + 1);
    }
}

proof fn lemma_star_absorb(p: Seq<char>, t: Seq<char>, s: int, j: int, k: int)
    requires
        0 <= s < p.len(),
        p[s] == '*',
        0 <= j <= k <= t.len(),
        no_slash(t, j, k),
        gm(p, t, s, k),
    ensures
        gm(p, t, s, j),
    decreases k - j,
{
    if j < k {
        lemma_star_absorb(p, t, s, j + 1, k);
        lemma_unfold(p, t, s, j);
    }
}

proof fn lemma_star_witness(p: Seq<char>, t: Seq<char>, s: int, u: int) -> (k: int)
    requires
        0 <= s < p.len(),
        p[s] == '*',
        0 <= u <= t.len(),
        gm(p, t, s, u),
    ensures
        u <= k <= t.len(),
        no_slash(t, u, k),
        gm(p, t, s + 1, k),
    decreases t.len() - u,
{
    lemma_unfold(p, t, s, u);
    if gm(p, t, s + 1, u) {
        u
    } else {
        lemma_star_witness(p, t, s, u + 1)
    }
}

proof fn lemma_all_stars(p: Seq<char>, t: Seq<char>, i: int)
    requires
        0 <= i <= p.len(),
    ensures
        gm(p, t, i, t.len() as int) == forall|x: int| i <= x < p.len() ==> p[x] == '*',
    decreases p.len() - i,
{
    lemma_unfold(p, t, i, t.len() as int);
    if i < p.len() {
        lemma_all_stars(p, t, i + 1);
    }
}

/// The run `L = p[s + 1..q]` matched at `t[u..]` repeats within the stretch
/// a star may absorb, so that stretch has no `/` past the run either.
proof fn lemma_no_slash_past_run(p: Seq<char>, t: Seq<char>, s: int, q: int, u: int, k: int, x: int)
    requires
        0 <= s < q <= p.len(),
        same_run(p, s + 1, q, t, u),
        same_run(p, s + 1, q, t, k),
        u < k,
        no_slash(t, u, k),
        u <= x < k + (q - s - 1),
    ensures
        t[x] != '/',
    decreases x,
{
    if x >= k {
        let y = u + (x - k);
        assert(t[x] == p[s + 1 + (x - k)]);
        assert(t[y] == p[s + 1 + (x - k)]);
        lemma_no_slash_past_run(p, t, s, q, u, k, y);
    }
}

/// Moving to a later star keeps the match: with `L = p[s + 1..q]` matched at
/// `t[u..ti]` and a star at `q`, `p[s..]` matches `t[u..]` iff `p[q..]`
/// matches `t[ti..]`.
proof fn lemma_next_star(p: Seq<char>, t: Seq<char>, s: int, q: int, u: int, ti: int)
    requires
        0 <= s < q < p.len(),
        p[s] == '*',
        p[q] == '*',
        no_star(p, s + 1, q),
        same_run(p, s + 1, q, t, u),
        ti == u + (q - s - 1),
    ensures
        gm(p, t, s, u) == gm(p, t, q, ti),
{
    lemma_unfold(p, t, s, u);
    lemma_literal_run(p, t, s + 1, q, u);
    if gm(p, t, s, u) {
        let k = lemma_star_witness(p, t, s, u);
        lemma_literal_forward(p, t, s + 1, q, k);
        let e = k + (q - s - 1);
        assert forall|x: int| ti <= x < e implies t[x] != '/' by {
            if k > u {
                lemma_no_slash_past_run(p, t, s, q, u, k, x);
            }
        }
        lemma_star_absorb(p, t, q, ti, e);
    }
}

/// Glob match where `*` matches any run of non-`/` characters and every other
/// character is literal.
pub fn glob_match(pattern: &[char], text: &[char]) -> (r: bool)
    ensures
        r == glob(pattern@, text@),
{
    let ghost p = pattern@;
    let ghost t = text@;
    let mut pi: usize = 0;
    let mut ti: usize = 0;
    let mut star: Option<(usize, usize)> = None;
    proof {
        assert(p.skip(0) =~= p);
        assert(t.skip(0) =~= t);
    }
    while ti < text.len()
        invariant
            p == pattern@,
            t == text@,
            0 <= pi <= p.len(),
            0 <= ti <= t.len(),
            match star {
                None => glob(p, t) == gm(p, t, pi as int, ti as int),
                Some((s, u)) => {
                    &&& s < pi
                    &&& p[s as int] == '*'
                    &&& u <= ti
                    &&& pi - (s + 1) == ti - u
                    &&& no_star(p, s + 1, pi as int)
                    &&& same_run(p, s + 1, pi as int, t, u as int)
                    &&& glob(p, t) == gm(p, t, s as int, u as int)
                },
            },
        decreases
            match star {
                Some((_, u)) => t.len() - u,
                None => t.len() as int,
            },
            p.len() - pi,
    {
        if pi < pattern.len() && pattern[pi] == '*' {
            proof {
                match star {
                    None => {},
                    Some((s, u)) => {
                        lemma_next_star(p, t, s as int, pi as int, u as int, ti as int);
                    },
                }
            }
            star = Some((pi, ti));
            pi += 1;
        } else if pi < pattern.len() && pattern[pi] == text[ti] {
            proof {
                match star {
                    None => {
                        lemma_unfold(p, t, pi as int, ti as int);
                    },
                    Some((s, u)) => {},
                }
            }
            pi += 1;
            ti += 1;
        } else {
            match star {
                Some((star_pi, star_ti)) => {
                    proof {
                        lemma_literal_run(p, t, star_pi + 1, pi as int, star_ti as int);
                        lemma_unfold(p, t, pi as int, ti as int);
                        lemma_unfold(p, t, star_pi as int, star_ti as int);
                    }
                    if text[star_ti] == '/' {
                        return false;
                    }
                    star = Some((star_pi, star_ti + 1));
                    pi = star_pi + 1;
                    ti = star_ti + 1;
                },
                None => {
                    proof {
                        lemma_unfold(p, t, pi as int, ti as int);
                    }
                    return false;
                },
            }
        }
    }
    let ghost pi0 = pi;
    while pi < pattern.len() && pattern[pi] == '*'
        invariant
            p == pattern@,
            pi0 <= pi <= p.len(),
            forall|x: int| pi0 <= x < pi ==> p[x] == '*',
        decreases p.len() - pi,
    {
        pi += 1;
    }
    proof {
        lemma_all_stars(p, t, pi0 as int);
        match star {
            None => {},
            Some((s, u)) => {
                lemma_literal_run(p, t, s + 1, pi0 as int, u as int);
                lemma_unfold(p, t, s as int, u as int);
                if gm(p, t, s as int, u as int) {
                    let k = lemma_star_witness(p, t, s as int, u as int);
                    lemma_literal_forward(p, t, s + 1, pi0 as int, k);
                }
            },
        }
    }
    pi == pattern.len()
}


/// `v` split at every `sep`: `k` separators give `k + 1` pieces.
pub open spec fn split_on(v: Seq<char>, sep: char) -> Seq<Seq<char>>
    decreases v.len(),
{
    if v.len() == 0 {
        seq![Seq::<char>::empty()]
    } else {
        let prev = split_on(v.drop_last(), sep);
        if v.last() == sep {
            prev.push(Seq::<char>::empty())
        } else {
            prev.update(prev.len() - 1, prev.last().push(v.last()))
        }
    }
}

pub proof fn lemma_split_on_len(v: Seq<char>, sep: char)
    ensures
        1 <= split_on(v, sep).len(),
    decreases v.len(),
{
    if v.len() > 0 {
        lemma_split_on_len(v.drop_last(), sep);
    }
}

/// The pieces of `v[from..to]` between `sep` characters.
fn split_chars(v: &[char], sep: char) -> (r: Vec<Vec<char>>)
    ensures
        r@.len() == split_on(v@, sep).len(),
        forall|i: int| 0 <= i < r@.len() ==> (#[trigger] r@[i])@ == split_on(v@, sep)[i],
{
    let mut r: Vec<Vec<char>> = Vec::new();
    let mut cur: Vec<char> = Vec::new();
    let mut k: usize = 0;
    while k < v.len()
        invariant
            0 <= k <= v@.len(),
            r@.len() + 1 == split_on(v@.take(k as int), sep).len(),
            forall|i: int| 0 <= i < r@.len() ==> (#[trigger] r@[i])@ == split_on(
                v@.take(k as int),
                sep,
            )[i],
            cur@ == split_on(v@.take(k as int), sep).last(),
        decreases v.len() - k,
    {
        let c = v[k];
        proof {
            lemma_split_on_len(v@.take(k as int), sep);
            assert(v@.take(k + 1).drop_last() =~= v@.take(k as int));
        }
        if c == sep {
            r.push(cur);
            cur = Vec::new();
        } else {
            cur.push(c);
        }
        k += 1;
    }
    assert(v@.take(k as int) =~= v@);
    proof {
        lemma_split_on_len(v@, sep);
    }
    r.push(cur);
    r
}

/// `v` without its trailing `/` characters.
pub open spec fn trim_end_slashes(v: Seq<char>) -> Seq<char>
    decreases v.len(),
{
    if v.len() > 0 && v.last() == '/' {
        trim_end_slashes(v.drop_last())
    } else {
        v
    }
}

/// A pattern with a leading or inner `/` is anchored to the leading segments.
pub open spec fn is_anchored(pattern: Seq<char>) -> bool {
    trim_end_slashes(pattern).contains('/')
}

/// The pattern without one leading `/`.
pub open spec fn pattern_body(pattern: Seq<char>) -> Seq<char> {
    if pattern.len() > 0 && pattern[0] == '/' {
        pattern.drop_first()
    } else {
        pattern
    }
}

/// A (non-negated) pattern matches a rule id: an anchored pattern's segments
/// glob-match the rule id's leading segments (deeper segments are covered as
/// a directory match); a pattern without `/` glob-matches any segment.
pub open spec fn pattern_matches_spec(pattern: Seq<char>, rule_id: Seq<char>) -> bool {
    let body = pattern_body(pattern);
    let rs = split_on(rule_id, '/');
    if is_anchored(pattern) {
        let ps = split_on(body, '/');
        ps.len() <= rs.len() && forall|i: int| 0 <= i < ps.len() ==> glob(ps[i], rs[i])
    } else {
        exists|i: int| 0 <= i < rs.len() && glob(body, rs[i])
    }
}

/// Whether `pattern` matches `rule_id`, with the subset of gitignore
/// semantics that rule ids exercise.
pub fn pattern_matches(pattern: &[char], rule_id: &[char]) -> (r: bool)
    ensures
        r == pattern_matches_spec(pattern@, rule_id@),
{
    // A purely trailing `/` does not anchor; only an inner or leading one does.
    let mut end = pattern.len();
    assert(pattern@.take(end as int) =~= pattern@);
    while end > 0 && pattern[end - 1] == '/'
        invariant
            end <= pattern@.len(),
            trim_end_slashes(pattern@) == trim_end_slashes(pattern@.take(end as int)),
        decreases end,
    {
        assert(pattern@.take(end as int).drop_last() =~= pattern@.take(end - 1));
        end -= 1;
    }
    assert(pattern@.take(end as int) == trim_end_slashes(pattern@));
    let mut anchored = false;
    let mut i: usize = 0;
    while i < end
        invariant
            end <= pattern@.len(),
            i <= end,
            anchored == exists|k: int| 0 <= k < i && pattern@[k] == '/',
        decreases end - i,
    {
        if pattern[i] == '/' {
            anchored = true;
        }
        i += 1;
    }
    assert(anchored == is_anchored(pattern@)) by {
        if anchored {
            let k = choose|k: int| 0 <= k < end && pattern@[k] == '/';
            assert(trim_end_slashes(pattern@)[k] == '/');
        }
    }
    let body = if pattern.len() > 0 && pattern[0] == '/' {
        &pattern[1..pattern.len()]
    } else {
        &pattern[0..pattern.len()]
    };
    assert(body@ == pattern_body(pattern@));
    let rule_segments = split_chars(rule_id, '/');
    let ghost rs = split_on(rule_id@, '/');
    if anchored {
        let pattern_segments = split_chars(body, '/');
        let ghost ps = split_on(body@, '/');
        if pattern_segments.len() > rule_segments.len() {
            return false;
        }
        let mut k: usize = 0;
        while k < pattern_segments.len()
            invariant
                k <= pattern_segments@.len() <= rule_segments@.len(),
                anchored == is_anchored(pattern@),
                anchored,
                body@ == pattern_body(pattern@),
                ps == split_on(body@, '/'),
                rs == split_on(rule_id@, '/'),
                pattern_segments@.len() == ps.len(),
                rule_segments@.len() == rs.len(),
                forall|x: int| 0 <= x < ps.len() ==> (#[trigger] pattern_segments@[x])@ == ps[x],
                forall|x: int| 0 <= x < rs.len() ==> (#[trigger] rule_segments@[x])@ == rs[x],
                forall|x: int| 0 <= x < k ==> glob(ps[x], rs[x]),
            decreases pattern_segments.len() - k,
        {
            assert(pattern_segments@[k as int]@ == ps[k as int]);
            assert(rule_segments@[k as int]@ == rs[k as int]);
            if !glob_match(pattern_segments[k].as_slice(), rule_segments[k].as_slice()) {
                assert(!glob(ps[k as int], rs[k as int]));
                assert(is_anchored(pattern@));
                assert(!pattern_matches_spec(pattern@, rule_id@));
                return false;
            }
            k += 1;
        }
        true
    } else {
        let mut k: usize = 0;
        while k < rule_segments.len()
            invariant
                k <= rule_segments@.len(),
                anchored == is_anchored(pattern@),
                !anchored,
                body@ == pattern_body(pattern@),
                rs == split_on(rule_id@, '/'),
                rule_segments@.len() == rs.len(),
                forall|x: int| 0 <= x < rs.len() ==> (#[trigger] rule_segments@[x])@ == rs[x],
                forall|x: int| 0 <= x < k ==> !glob(body@, rs[x]),
            decreases rule_segments.len() - k,
        {
            assert(rule_segments@[k as int]@ == rs[k as int]);
            if glob_match(body, rule_segments[k].as_slice()) {
                assert(glob(body@, rs[k as int]));
                assert(!is_anchored(pattern@));
                assert(pattern_matches_spec(pattern@, rule_id@));
                return true;
            }
            k += 1;
        }
        false
    }
}

/// Whether the ordered pattern list restricts `rule_id`: a `!`-prefixed
/// pattern un-restricts a previous match, and the last matching pattern wins.
pub open spec fn restricted_by(patterns: Seq<Seq<char>>, rule_id: Seq<char>) -> bool
    decreases patterns.len(),
{
    if patterns.len() == 0 {
        false
    } else {
        let p = patterns.last();
        let negated = p.len() > 0 && p[0] == '!';
        let body = if negated {
            p.drop_first()
        } else {
            p
        };
        if pattern_matches_spec(body, rule_id) {
            !negated
        } else {
            restricted_by(patterns.drop_last(), rule_id)
        }
    }
}

pub open spec fn strs_view(v: Seq<&str>) -> Seq<Seq<char>> {
    v.map_values(|s: &str| s@)
}

/// Whether the rule id is restricted by the ordered pattern list.
pub fn is_restricted(patterns: &[&str], rule_id: &[char]) -> (r: bool)
    ensures
        r == restricted_by(strs_view(patterns@), rule_id@),
{
    let ghost pv = strs_view(patterns@);
    let mut restricted = false;
    let mut i: usize = 0;
    while i < patterns.len()
        invariant
            0 <= i <= patterns@.len(),
            pv == strs_view(patterns@),
            restricted == restricted_by(pv.take(i as int), rule_id@),
        decreases patterns.len() - i,
    {
        assert(pv.take(i + 1).drop_last() =~= pv.take(i as int));
        assert(pv.take(i + 1).last() == patterns@[i as int]@);
        let p = chars_of(patterns[i]);
        let negated = p.len() > 0 && p[0] == '!';
        let body = if negated {
            &p.as_slice()[1..p.len()]
        } else {
            &p.as_slice()[0..p.len()]
        };
        assert(body@ == if negated {
            p@.drop_first()
        } else {
            p@
        });
        if pattern_matches(body, rule_id) {
            restricted = !negated;
        }
        i += 1;
    }
    assert(pv.take(i as int) =~= pv);
    restricted
}

/// The patterns joined with `,`.
pub open spec fn join_commas(patterns: Seq<Seq<char>>) -> Seq<char>
    decreases patterns.len(),
{
    if patterns.len() == 0 {
        Seq::empty()
    } else if patterns.len() == 1 {
        patterns[0]
    } else {
        join_commas(patterns.drop_last()) + seq![','] + patterns.last()
    }
}

/// Join the patterns with `,` (the message for a restricted whole-file disable).
pub fn joined_patterns(patterns: &[&str]) -> (r: String)
    ensures
        r@ == join_commas(strs_view(patterns@)),
{
    let ghost pv = strs_view(patterns@);
    let mut joined = String::new();
    let mut i: usize = 0;
    while i < patterns.len()
        invariant
            0 <= i <= patterns@.len(),
            pv == strs_view(patterns@),
            joined@ == join_commas(pv.take(i as int)),
        decreases patterns.len() - i,
    {
        assert(pv.take(i + 1).drop_last() =~= pv.take(i as int));
        if i > 0 {
            push_char(&mut joined, ',');
        }
        let p = chars_of(patterns[i]);
        let ghost before = joined@;
        let mut k: usize = 0;
        while k < p.len()
            invariant
                k <= p@.len(),
                joined@ == before + p@.take(k as int),
            decreases p.len() - k,
        {
            push_char(&mut joined, p[k]);
            assert(p@.take(k + 1) =~= p@.take(k as int).push(p@[k as int]));
            k += 1;
        }
        assert(p@.take(k as int) =~= p@);
        assert(pv[i as int] == p@);
        if i == 0 {
            assert(pv.take(1) =~= seq![pv[0]]);
            assert(joined@ =~= join_commas(pv.take(1)));
        } else {
            assert(joined@ =~= join_commas(pv.take(i + 1)));
        }
        i += 1;
    }
    assert(pv.take(i as int) =~= pv);
    joined
}

} // verus!
