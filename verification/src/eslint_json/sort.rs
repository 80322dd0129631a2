//! Whether two neighbouring keys are in the order `sort-keys` asks for.
use vstd::prelude::*;
use std::cmp::Ordering;
use crate::text::{chars_of, push_char};
use crate::outside::{lowercase_of, char_to_lowercase};
use super::options::{SortOptions, SortDirection};
use super::natural::{natural_order, order_of, natural_compare};

verus! {

/// `s` with each character replaced by its lowercase mapping.
pub open spec fn lowered(s: Seq<char>) -> Seq<char>
    decreases s.len(),
{
    if s.len() == 0 {
        Seq::empty()
    } else {
        lowered(s.drop_last()) + lowercase_of(s.last())
    }
}

/// `value` with each character replaced by its lowercase mapping.
pub fn lower(value: &str) -> (r: String)
    ensures
        r@ == lowered(value@),
{
    let t = chars_of(value);
    let mut out = String::new();
    let mut i: usize = 0;
    while i < t.len()
        invariant
            i <= t@.len(),
            t@ == value@,
            out@ == lowered(t@.take(i as int)),
        decreases t@.len() - i,
    {
        assert(t@.take(i + 1).drop_last() =~= t@.take(i as int));
        let l = char_to_lowercase(t[i]);
        let ghost before = out@;
        let mut j: usize = 0;
        while j < l.len()
            invariant
                j <= l@.len(),
                out@ == before + l@.take(j as int),
            decreases l@.len() - j,
        {
            push_char(&mut out, l[j]);
            assert(l@.take(j + 1) =~= l@.take(j as int).push(l@[j as int]));
            j = j + 1;
        }
        assert(l@.take(l@.len() as int) =~= l@);
        i = i + 1;
    }
    assert(t@.take(t@.len() as int) =~= t@);
    out
}

/// The order of `str`: character by character by code point, a prefix
/// first; negative, zero or positive.
pub open spec fn text_order(a: Seq<char>, b: Seq<char>) -> int
    decreases a.len(),
{
    if a.len() == 0 && b.len() == 0 {
        0
    } else if a.len() == 0 {
        -1
    } else if b.len() == 0 {
        1
    } else if a[0] < b[0] {
        -1
    } else if a[0] > b[0] {
        1
    } else {
        text_order(a.drop_first(), b.drop_first())
    }
}

/// Swapping the texts negates their order.
pub proof fn lemma_text_order_swap(a: Seq<char>, b: Seq<char>)
    ensures
        text_order(a, b) == -text_order(b, a),
    decreases a.len(),
{
    if a.len() > 0 && b.len() > 0 && a[0] == b[0] {
        lemma_text_order_swap(a.drop_first(), b.drop_first());
    }
}

/// The order of `a[i..]` against `b[i..]`.
fn text_order_exec(a: &[char], b: &[char], i: usize) -> (r: i8)
    requires
        i <= a@.len(),
        i <= b@.len(),
    ensures
        r == text_order(a@.skip(i as int), b@.skip(i as int)),
    decreases a@.len() - i,
{
    let ghost sa = a@.skip(i as int);
    let ghost sb = b@.skip(i as int);
    if i == a.len() && i == b.len() {
        0
    } else if i == a.len() {
        -1
    } else if i == b.len() {
        1
    } else if a[i] < b[i] {
        -1
    } else if a[i] > b[i] {
        1
    } else {
        assert(sa.drop_first() =~= a@.skip(i + 1));
        assert(sb.drop_first() =~= b@.skip(i + 1));
        text_order_exec(a, b, i + 1)
    }
}

/// The order of two texts as `str` orders them.
pub fn compare_text(a: &str, b: &str) -> (r: i8)
    ensures
        r == text_order(a@, b@),
{
    let ta = chars_of(a);
    let tb = chars_of(b);
    assert(ta@.skip(0) =~= ta@);
    assert(tb@.skip(0) =~= tb@);
    text_order_exec(ta.as_slice(), tb.as_slice(), 0)
}

/// The keys that are compared: as written, or lowered when case does not
/// count.
pub open spec fn compared_keys(previous: Seq<char>, current: Seq<char>, options: SortOptions) -> (Seq<char>, Seq<char>) {
    if options.case_sensitive {
        (previous, current)
    } else {
        (lowered(previous), lowered(current))
    }
}

/// The order of two compared keys: natural, or that of `str`.
pub open spec fn key_order(left: Seq<char>, right: Seq<char>, natural: bool) -> int {
    if natural {
        natural_order(left, right)
    } else {
        text_order(left, right)
    }
}

/// Whether `current` may follow `previous`: not after it when ascending,
/// not before it when descending.
pub open spec fn valid_sort_order(previous: Seq<char>, current: Seq<char>, options: SortOptions) -> bool {
    let keys = compared_keys(previous, current, options);
    let c = key_order(keys.0, keys.1, options.natural);
    match options.direction {
        SortDirection::Ascending => c <= 0,
        SortDirection::Descending => c >= 0,
    }
}

/// The order of two compared keys.
fn key_order_exec(left: &str, right: &str, natural: bool) -> (r: i8)
    ensures
        r < 0 <==> key_order(left@, right@, natural) < 0,
        r > 0 <==> key_order(left@, right@, natural) > 0,
{
    if natural {
        match natural_compare(left, right) {
            Ordering::Less => -1,
            Ordering::Equal => 0,
            Ordering::Greater => 1,
        }
    } else {
        compare_text(left, right)
    }
}

/// Whether `current` may follow `previous` under `options`.
pub fn is_valid_sort_order(previous: &str, current: &str, options: &SortOptions) -> (r: bool)
    ensures
        r == valid_sort_order(previous@, current@, *options),
{
    let c = if options.case_sensitive {
        key_order_exec(previous, current, options.natural)
    } else {
        let p = lower(previous);
        let q = lower(current);
        key_order_exec(p.as_str(), q.as_str(), options.natural)
    };
    match options.direction {
        SortDirection::Ascending => c <= 0,
        SortDirection::Descending => c >= 0,
    }
}

} // verus!
