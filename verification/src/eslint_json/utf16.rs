//! UTF-16 code units of text, and the order of code-unit sequences.
use vstd::prelude::*;
use crate::text::chars_of;

verus! {

/// The UTF-16 code units of one character.
pub open spec fn char_units(c: char) -> Seq<u16> {
    if (c as u32) < 0x10000 {
        seq![c as u16]
    } else {
        seq![
            (0xD800 + ((c as u32) - 0x10000) / 0x400) as u16,
            (0xDC00 + ((c as u32) - 0x10000) % 0x400) as u16,
        ]
    }
}

/// The UTF-16 code units of `s`.
pub open spec fn utf16_units(s: Seq<char>) -> Seq<u16>
    decreases s.len(),
{
    if s.len() == 0 {
        Seq::empty()
    } else {
        utf16_units(s.drop_last()) + char_units(s.last())
    }
}

/// Appends the UTF-16 code units of `c` to `units`.
pub fn push_char_units(c: char, units: &mut Vec<u16>)
    ensures
        final(units)@ == old(units)@ + char_units(c),
{
    let v: u32 = c as u32;
    if v < 0x10000 {
        units.push(v as u16);
    } else {
        let w = v - 0x10000;
        units.push((0xD800 + w / 0x400) as u16);
        units.push((0xDC00 + w % 0x400) as u16);
    }
    assert(final(units)@ =~= old(units)@ + char_units(c));
}

/// The UTF-16 code units of `s`.
pub fn encode_utf16(s: &str) -> (r: Vec<u16>)
    ensures
        r@ == utf16_units(s@),
{
    let t = chars_of(s);
    let mut r: Vec<u16> = Vec::new();
    let mut i: usize = 0;
    while i < t.len()
        invariant
            i <= t@.len(),
            t@ == s@,
            r@ == utf16_units(t@.take(i as int)),
        decreases t@.len() - i,
    {
        assert(t@.take(i + 1).drop_last() =~= t@.take(i as int));
        push_char_units(t[i], &mut r);
        i = i + 1;
    }
    assert(t@.take(t@.len() as int) =~= t@);
    r
}

/// The order of two code-unit sequences, element by element, a prefix
/// first: negative, zero or positive.
pub open spec fn units_order(a: Seq<u16>, b: Seq<u16>) -> int
    decreases a.len(),
{
    if a.len() == 0 && b.len() == 0 {
        0
    } else if a.len() == 0 {
        -1
    } else if b.len() == 0 {
        1
    } else if a[0] < b[0] {
        -1
    } else if a[0] > b[0] {
        1
    } else {
        units_order(a.drop_first(), b.drop_first())
    }
}

/// Swapping the sequences negates their order, and only equal sequences
/// are in order zero.
pub proof fn lemma_units_order(a: Seq<u16>, b: Seq<u16>)
    ensures
        units_order(a, b) == -units_order(b, a),
        units_order(a, b) == 0 <==> a == b,
        -1 <= units_order(a, b) <= 1,
    decreases a.len(),
{
    if a.len() > 0 && b.len() > 0 && a[0] == b[0] {
        lemma_units_order(a.drop_first(), b.drop_first());
        if a.drop_first() == b.drop_first() {
            assert(a =~= seq![a[0]] + a.drop_first());
            assert(b =~= seq![b[0]] + b.drop_first());
        }
        if a == b {
            assert(a.drop_first() == b.drop_first());
        }
    } else if a.len() != b.len() {
        assert(a != b);
    } else if a.len() > 0 {
        assert(a[0] != b[0]);
        assert(a != b);
    } else {
        assert(a =~= b);
    }
}

/// The order of `a[from_a..]` against `b[from_b..]`, as `units_order`.
pub fn units_order_exec(a: &[u16], from_a: usize, to_a: usize, b: &[u16], from_b: usize, to_b: usize) -> (r: i8)
    requires
        from_a <= to_a <= a@.len(),
        from_b <= to_b <= b@.len(),
    ensures
        r == units_order(a@.subrange(from_a as int, to_a as int), b@.subrange(from_b as int, to_b as int)),
    decreases to_a - from_a,
{
    let ghost sa = a@.subrange(from_a as int, to_a as int);
    let ghost sb = b@.subrange(from_b as int, to_b as int);
    if from_a == to_a && from_b == to_b {
        0
    } else if from_a == to_a {
        -1
    } else if from_b == to_b {
        1
    } else if a[from_a] < b[from_b] {
        -1
    } else if a[from_a] > b[from_b] {
        1
    } else {
        assert(sa.drop_first() =~= a@.subrange(from_a + 1, to_a as int));
        assert(sb.drop_first() =~= b@.subrange(from_b + 1, to_b as int));
        units_order_exec(a, from_a + 1, to_a, b, from_b + 1, to_b)
    }
}

} // verus!
