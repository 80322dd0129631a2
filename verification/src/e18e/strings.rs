//! Text that the e18e fixes are built from: lists joined by a separator,
//! integers in decimal, timer calls, and the string method that a simple
//! regular expression stands for.
use vstd::prelude::*;
use crate::text::{chars_of, push_char};
use super::source::push_lit;

verus! {

/// The parts, with `sep` between each two.
pub open spec fn join(parts: Seq<Seq<char>>, sep: Seq<char>) -> Seq<char>
    decreases parts.len(),
{
    if parts.len() == 0 {
        Seq::empty()
    } else if parts.len() == 1 {
        parts[0]
    } else {
        join(parts.drop_last(), sep) + sep + parts.last()
    }
}

/// The characters of each string.
pub open spec fn views(v: Seq<String>) -> Seq<Seq<char>> {
    v.map_values(|s: String| s@)
}

/// Appends the parts, with `sep` between each two.
pub fn push_joined(out: &mut String, parts: &Vec<String>, sep: &str)
    ensures
        final(out)@ == old(out)@ + join(views(parts@), sep@),
{
    let ghost base = old(out)@;
    let mut i: usize = 0;
    while i < parts.len()
        invariant
            i <= parts@.len(),
            out@ == base + join(views(parts@.take(i as int)), sep@),
        decreases parts@.len() - i,
    {
        let ghost before = out@;
        if i > 0 {
            push_lit(out, sep);
        }
        push_lit(out, parts[i].as_str());
        proof {
            let p = views(parts@.take(i + 1));
            assert(p.drop_last() =~= views(parts@.take(i as int)));
            assert(p.last() == parts@[i as int]@);
            if i == 0 {
                assert(p.len() == 1);
                assert(views(parts@.take(0)) =~= Seq::<Seq<char>>::empty());
                assert(out@ =~= base + join(p, sep@));
            } else {
                assert(out@ =~= base + join(p, sep@));
            }
        }
        i = i + 1;
    }
    assert(parts@.take(parts@.len() as int) =~= parts@);
}

/// The decimal digit `d`.
pub open spec fn digit(d: int) -> char {
    if d == 0 { '0' } else if d == 1 { '1' } else if d == 2 { '2' } else if d == 3 { '3' } else if d == 4 { '4' }
    else if d == 5 { '5' } else if d == 6 { '6' } else if d == 7 { '7' } else if d == 8 { '8' } else { '9' }
}

/// `n` in decimal, without leading zeros.
pub open spec fn decimal(n: nat) -> Seq<char>
    decreases n,
{
    if n < 10 {
        seq![digit(n as int)]
    } else {
        decimal(n / 10) + seq![digit((n % 10) as int)]
    }
}

fn digit_char(d: u64) -> (c: char)
    requires
        d < 10,
    ensures
        c == digit(d as int),
{
    if d == 0 { '0' } else if d == 1 { '1' } else if d == 2 { '2' } else if d == 3 { '3' } else if d == 4 { '4' }
    else if d == 5 { '5' } else if d == 6 { '6' } else if d == 7 { '7' } else if d == 8 { '8' } else { '9' }
}

/// Appends `n` in decimal.
pub fn push_decimal(out: &mut String, n: u64)
    ensures
        final(out)@ == old(out)@ + decimal(n as nat),
    decreases n,
{
    if n < 10 {
        push_char(out, digit_char(n));
    } else {
        push_decimal(out, n / 10);
        push_char(out, digit_char(n % 10));
        assert(final(out)@ =~= old(out)@ + decimal(n as nat)) by {
            assert(decimal(n as nat) == decimal((n / 10) as nat) + seq![digit((n % 10) as int)]);
        }
    }
}

/// `timer(callee, delay)`, or `timer(callee, delay, args..)` with the
/// arguments joined by `, `.
pub open spec fn timer_text(timer: Seq<char>, callee: Seq<char>, delay: Seq<char>, args: Seq<Seq<char>>) -> Seq<char> {
    if args.len() == 0 {
        timer + "("@ + callee + ", "@ + delay + ")"@
    } else {
        timer + "("@ + callee + ", "@ + delay + ", "@ + join(args, ", "@) + ")"@
    }
}

/// `timer(callee, delay)`, or `timer(callee, delay, args..)`.
pub fn format_timer_replacement(timer: &str, callee: &str, delay: &str, args: &Vec<String>) -> (r: String)
    ensures
        r@ == timer_text(timer@, callee@, delay@, views(args@)),
{
    let mut r = String::new();
    push_lit(&mut r, timer);
    push_lit(&mut r, "(");
    push_lit(&mut r, callee);
    push_lit(&mut r, ", ");
    push_lit(&mut r, delay);
    if args.len() > 0 {
        push_lit(&mut r, ", ");
        push_joined(&mut r, args, ", ");
    }
    push_lit(&mut r, ")");
    assert(r@ =~= timer_text(timer@, callee@, delay@, views(args@)));
    r
}

/// A character with a meaning of its own in a regular expression, besides
/// `^` and `$`.
pub open spec fn is_regex_special(c: char) -> bool {
    c == '.' || c == '*' || c == '+' || c == '?' || c == '[' || c == ']' || c == '(' || c == ')'
        || c == '{' || c == '}' || c == '|' || c == '\\'
}

/// Text that a regular expression matches as written: not empty, and
/// without special characters.
pub open spec fn is_plain(v: Seq<char>) -> bool {
    v.len() > 0 && forall|i: int| 0 <= i < v.len() ==> !is_regex_special(#[trigger] v[i])
}

/// Whether `v[from..to]` is plain text for a regular expression.
fn is_plain_range(v: &Vec<char>, from: usize, to: usize) -> (r: bool)
    requires
        from <= to <= v@.len(),
    ensures
        r == is_plain(v@.subrange(from as int, to as int)),
{
    if from == to {
        return false;
    }
    let mut i: usize = from;
    while i < to
        invariant
            from <= i <= to <= v@.len(),
            forall|k: int| from <= k < i ==> !is_regex_special(#[trigger] v@[k]),
        decreases to - i,
    {
        let c = v[i];
        if c == '.' || c == '*' || c == '+' || c == '?' || c == '[' || c == ']' || c == '(' || c == ')'
            || c == '{' || c == '}' || c == '|' || c == '\\' {
            assert(v@.subrange(from as int, to as int)[i - from] == c);
            return false;
        }
        i = i + 1;
    }
    assert forall|k: int| 0 <= k < (to - from) implies !is_regex_special(#[trigger] v@.subrange(from as int, to as int)[k]) by {
        assert(v@.subrange(from as int, to as int)[k] == v@[from + k]);
    }
    true
}

/// Whether the text is plain text for a regular expression.
pub fn is_plain_regex_text(v: &str) -> (r: bool)
    ensures
        r == is_plain(v@),
{
    let c = chars_of(v);
    let r = is_plain_range(&c, 0, c.len());
    assert(c@.subrange(0, c@.len() as int) =~= c@);
    r
}

/// The index of the last `c` of `s`.
pub open spec fn last_index(s: Seq<char>, c: char) -> Option<int>
    decreases s.len(),
{
    if s.len() == 0 {
        None
    } else if s.last() == c {
        Some(s.len() - 1)
    } else {
        last_index(s.drop_last(), c)
    }
}

proof fn lemma_last_index(s: Seq<char>, c: char, i: int)
    requires
        0 <= i <= s.len(),
        forall|k: int| i <= k < s.len() ==> s[k] != c,
    ensures
        last_index(s, c) == last_index(s.take(i), c),
    decreases s.len() - i,
{
    if i < s.len() {
        assert(s.take(i + 1).drop_last() =~= s.take(i));
        lemma_last_index(s, c, i + 1);
    } else {
        assert(s.take(i) =~= s);
    }
}

/// What a regular expression literal written as `/pattern/flags` stands
/// for, when its flags have none of `i`, `g`, `y`, `m`: `^text$` an
/// equality, `^text` a `startsWith`, `text$` an `endsWith`, and `text` an
/// `includes`, each with plain text; the message, the method, the text.
pub open spec fn regex_equivalent(regex: Seq<char>) -> Option<(&'static str, &'static str, Seq<char>)> {
    if regex.len() == 0 || regex[0] != '/' {
        None
    } else {
        let body = regex.drop_first();
        match last_index(body, '/') {
            None => None,
            Some(p) => {
                let pattern = body.take(p);
                let flags = body.skip(p + 1);
                let n = pattern.len() as int;
                if super::syntax::has_char(flags, 'i') || super::syntax::has_char(flags, 'g')
                    || super::syntax::has_char(flags, 'y') || super::syntax::has_char(flags, 'm') {
                    None
                } else if n >= 2 && pattern[0] == '^' && pattern[n - 1] == '$' && is_plain(pattern.subrange(1, n - 1)) {
                    Some(("preferEquals", "===", pattern.subrange(1, n - 1)))
                } else if n >= 1 && pattern[0] == '^' && is_plain(pattern.subrange(1, n)) {
                    Some(("preferStartsWith", "startsWith", pattern.subrange(1, n)))
                } else if n >= 1 && pattern[n - 1] == '$' && is_plain(pattern.subrange(0, n - 1)) {
                    Some(("preferEndsWith", "endsWith", pattern.subrange(0, n - 1)))
                } else if is_plain(pattern) {
                    Some(("preferIncludes", "includes", pattern))
                } else {
                    None
                }
            },
        }
    }
}

/// Whether `v[from..to]` holds `c`.
fn has_char_in(v: &Vec<char>, from: usize, to: usize, c: char) -> (r: bool)
    requires
        from <= to <= v@.len(),
    ensures
        r == super::syntax::has_char(v@.subrange(from as int, to as int), c),
{
    let mut i: usize = from;
    while i < to
        invariant
            from <= i <= to <= v@.len(),
            forall|k: int| from <= k < i ==> v@[k] != c,
        decreases to - i,
    {
        if v[i] == c {
            assert(v@.subrange(from as int, to as int)[i - from] == c);
            return true;
        }
        i = i + 1;
    }
    assert forall|k: int| 0 <= k < to - from implies v@.subrange(from as int, to as int)[k] != c by {
        assert(v@.subrange(from as int, to as int)[k] == v@[from + k]);
    }
    false
}

/// What a regular expression literal written as `/pattern/flags` stands
/// for.
pub fn simple_regex_equivalent(regex: &str) -> (r: Option<(&'static str, &'static str, String)>)
    ensures
        match r {
            Some((m, k, v)) => regex_equivalent(regex@) == Some((m, k, v@)),
            None => regex_equivalent(regex@) is None,
        },
{
    let v = chars_of(regex);
    if v.len() == 0 || v[0] != '/' {
        return None;
    }
    let ghost body = v@.drop_first();
    let mut j: usize = v.len();
    while j > 1 && v[j - 1] != '/'
        invariant
            1 <= j <= v@.len(),
            v@ == regex@,
            body == v@.drop_first(),
            forall|k: int| j - 1 <= k < body.len() ==> body[k] != '/',
        decreases j,
    {
        j = j - 1;
    }
    proof {
        lemma_last_index(body, '/', j - 1);
        assert(body.take(j - 1) =~= v@.subrange(1, j as int));
    }
    if j == 1 {
        assert(last_index(body.take(0), '/') is None);
        return None;
    }
    let p: usize = j - 2;
    proof {
        assert(body.take(j - 1).drop_last() =~= body.take(p as int));
        assert(body.take(j - 1).last() == '/');
        assert(last_index(body, '/') == Some(p as int));
        assert(body.take(p as int) =~= v@.subrange(1, p + 1));
        assert(body.skip(p + 1) =~= v@.subrange(p + 2, v@.len() as int));
    }
    let ps: usize = 1;
    let pe: usize = p + 1;
    let fs: usize = p + 2;
    let fe: usize = v.len();
    if has_char_in(&v, fs, fe, 'i') || has_char_in(&v, fs, fe, 'g') || has_char_in(&v, fs, fe, 'y') || has_char_in(&v, fs, fe, 'm') {
        return None;
    }
    let n: usize = pe - ps;
    let ghost pattern = v@.subrange(ps as int, pe as int);
    proof {
        assert forall|a: int, b: int| 0 <= a <= b <= n implies #[trigger] pattern.subrange(a, b) =~= v@.subrange(ps + a, ps + b) by {}
    }
    if n >= 2 && v[ps] == '^' && v[pe - 1] == '$' && is_plain_range(&v, ps + 1, pe - 1) {
        return Some(("preferEquals", "===", crate::text::string_from(v.as_slice(), ps + 1, pe - 1)));
    }
    if n >= 1 && v[ps] == '^' && is_plain_range(&v, ps + 1, pe) {
        return Some(("preferStartsWith", "startsWith", crate::text::string_from(v.as_slice(), ps + 1, pe)));
    }
    if n >= 1 && v[pe - 1] == '$' && is_plain_range(&v, ps, pe - 1) {
        return Some(("preferEndsWith", "endsWith", crate::text::string_from(v.as_slice(), ps, pe - 1)));
    }
    if is_plain_range(&v, ps, pe) {
        return Some(("preferIncludes", "includes", crate::text::string_from(v.as_slice(), ps, pe)));
    }
    None
}

} // verus!
