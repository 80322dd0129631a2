//! Line and UTF-16 column of a byte offset, with `\n` as the only line break.
use vstd::prelude::*;
use crate::text::{byte_len, utf16_len, utf16_width, len_utf8, len_utf16, lemma_byte_len_take_step, lemma_utf16_len_take_step};

verus! {

/// The number of characters of `s`, from `i` on, that start before byte
/// `b`: the first index from `i` whose prefix reaches `b` bytes, or the length.
pub open spec fn chars_before_from(s: Seq<char>, b: int, i: int) -> int
    decreases s.len() - i,
{
    if i >= s.len() || byte_len(s.take(i)) >= b {
        i
    } else {
        chars_before_from(s, b, i + 1)
    }
}

/// The number of characters of `s` that start before byte `b`.
pub open spec fn chars_before(s: Seq<char>, b: int) -> int {
    chars_before_from(s, b, 0)
}

/// The number of `\n` in `s`.
pub open spec fn lf_count(s: Seq<char>) -> nat
    decreases s.len(),
{
    if s.len() == 0 {
        0
    } else {
        lf_count(s.drop_last()) + if s.last() == '\n' { 1nat } else { 0nat }
    }
}

/// UTF-16 length of what follows the last `\n` of `s`.
pub open spec fn lf_column(s: Seq<char>) -> nat
    decreases s.len(),
{
    if s.len() == 0 {
        0
    } else if s.last() == '\n' {
        0
    } else {
        lf_column(s.drop_last()) + utf16_width(s.last())
    }
}

proof fn lemma_lf_step(s: Seq<char>, i: int)
    requires
        0 <= i < s.len(),
    ensures
        lf_count(s.take(i + 1)) == lf_count(s.take(i)) + if s[i] == '\n' { 1nat } else { 0nat },
        lf_column(s.take(i + 1)) == if s[i] == '\n' { 0 } else { lf_column(s.take(i)) + utf16_width(s[i]) },
        lf_count(s.take(i)) <= i,
        lf_column(s.take(i)) <= utf16_len(s.take(i)),
    decreases i,
{
    assert(s.take(i + 1).drop_last() =~= s.take(i));
    if i > 0 {
        lemma_lf_step(s, i - 1);
        lemma_utf16_len_take_step(s, i - 1);
    }
}

/// The one-based line and the UTF-16 column of the start of character `k`
/// of `s` (its end when `k` is the length); lines end at `\n`.
pub fn lf_position_at(s: &[char], k: usize) -> (r: (u32, u32))
    requires
        k <= s@.len(),
        byte_len(s@) < u32::MAX,
    ensures
        r.0 == 1 + lf_count(s@.take(k as int)),
        r.1 == lf_column(s@.take(k as int)),
{
    let mut i: usize = 0;
    let mut line: usize = 1;
    let mut column: usize = 0;
    proof {
        crate::text::lemma_byte_len_take_mono(s@, k as int, s@.len() as int);
        crate::text::lemma_byte_len_bounds(s@.take(k as int));
        assert(s@.take(s@.len() as int) =~= s@);
    }
    while i < k
        invariant
            i <= k <= s@.len(),
            byte_len(s@.take(k as int)) < u32::MAX,
            k <= byte_len(s@.take(k as int)),
            line == 1 + lf_count(s@.take(i as int)),
            column == lf_column(s@.take(i as int)),
            column <= byte_len(s@.take(i as int)),
            byte_len(s@.take(i as int)) <= byte_len(s@.take(k as int)),
            line <= i + 1,
        decreases k - i,
    {
        proof {
            lemma_byte_len_take_step(s@, i as int);
            lemma_lf_step(s@, i as int);
            lemma_utf16_len_take_step(s@, i as int);
            crate::text::lemma_utf16_le_bytes(s@.take(i + 1));
            crate::text::lemma_byte_len_take_mono(s@, i + 1, k as int);
        }
        let c = s[i];
        if c == '\n' {
            line = line + 1;
            column = 0;
        } else {
            column = column + len_utf16(c);
        }
        i = i + 1;
    }
    (line as u32, column as u32)
}

/// The one-based line and the UTF-16 column of byte `offset` of `s`, an
/// offset past the end standing for the end; lines end at `\n`.
pub fn lf_position(s: &[char], offset: usize) -> (r: (u32, u32))
    requires
        byte_len(s@) < u32::MAX,
    ensures
        r.0 == 1 + lf_count(s@.take(chars_before(s@, offset as int))),
        r.1 == lf_column(s@.take(chars_before(s@, offset as int))),
{
    let mut i: usize = 0;
    let mut bytes: usize = 0;
    let mut line: usize = 1;
    let mut column: usize = 0;
    while i < s.len() && bytes < offset
        invariant
            i <= s@.len(),
            byte_len(s@) < u32::MAX,
            bytes == byte_len(s@.take(i as int)),
            line == 1 + lf_count(s@.take(i as int)),
            column == lf_column(s@.take(i as int)),
            column <= bytes,
            line <= i + 1,
            i <= bytes,
            bytes <= byte_len(s@),
            chars_before(s@, offset as int) == chars_before_from(s@, offset as int, i as int),
        decreases s@.len() - i,
    {
        proof {
            lemma_byte_len_take_step(s@, i as int);
            lemma_lf_step(s@, i as int);
            lemma_utf16_len_take_step(s@, i as int);
            crate::text::lemma_utf16_le_bytes(s@.take(i + 1));
            crate::text::lemma_byte_len_bounds(s@.take(i + 1));
            crate::text::lemma_byte_len_take_mono(s@, i + 1, s@.len() as int);
            assert(s@.take(s@.len() as int) =~= s@);
        }
        let c = s[i];
        bytes = bytes + len_utf8(c);
        if c == '\n' {
            line = line + 1;
            column = 0;
        } else {
            column = column + len_utf16(c);
        }
        i = i + 1;
    }
    assert(chars_before_from(s@, offset as int, i as int) == i as int);
    (line as u32, column as u32)
}

/// The number of characters of `s` that start before byte `offset`.
pub fn char_index(s: &[char], offset: usize) -> (r: usize)
    requires
        byte_len(s@) < u32::MAX,
    ensures
        r == chars_before(s@, offset as int),
        r <= s@.len(),
{
    let mut i: usize = 0;
    let mut bytes: usize = 0;
    while i < s.len() && bytes < offset
        invariant
            i <= s@.len(),
            byte_len(s@) < u32::MAX,
            bytes == byte_len(s@.take(i as int)),
            bytes <= byte_len(s@),
            chars_before(s@, offset as int) == chars_before_from(s@, offset as int, i as int),
        decreases s@.len() - i,
    {
        proof {
            lemma_byte_len_take_step(s@, i as int);
            crate::text::lemma_byte_len_take_mono(s@, i + 1, s@.len() as int);
            assert(s@.take(s@.len() as int) =~= s@);
        }
        bytes = bytes + len_utf8(s[i]);
        i = i + 1;
    }
    assert(chars_before_from(s@, offset as int, i as int) == i as int);
    i
}

} // verus!
