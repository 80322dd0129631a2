//! Character-level helpers shared by the rule modules: Unicode whitespace,
//! UTF-8 / UTF-16 widths, trimming, and building strings from characters.
use vstd::prelude::*;

verus! {

broadcast use vstd::string::group_string_axioms;

/// `char::is_whitespace`: the Unicode `White_Space` property.
pub open spec fn is_ws(c: char) -> bool {
    let u = c as u32;
    ||| 0x09 <= u <= 0x0D
    ||| u == 0x20
    ||| u == 0x85
    ||| u == 0xA0
    ||| u == 0x1680
    ||| 0x2000 <= u <= 0x200A
    ||| u == 0x2028
    ||| u == 0x2029
    ||| u == 0x202F
    ||| u == 0x205F
    ||| u == 0x3000
}

/// `u8::is_ascii_whitespace` read on a character: space, tab, line feed,
/// form feed and carriage return (not vertical tab).
pub open spec fn is_ascii_ws(c: char) -> bool {
    c == ' ' || c == '\t' || c == '\n' || c == '\x0C' || c == '\r'
}

/// Number of bytes of `c` in UTF-8.
pub open spec fn utf8_width(c: char) -> nat {
    let u = c as u32;
    if u < 0x80 {
        1
    } else if u < 0x800 {
        2
    } else if u < 0x10000 {
        3
    } else {
        4
    }
}

/// Number of UTF-16 code units of `c`.
pub open spec fn utf16_width(c: char) -> nat {
    if (c as u32) < 0x10000 {
        1
    } else {
        2
    }
}

/// Number of bytes of `s` in UTF-8.
pub open spec fn byte_len(s: Seq<char>) -> nat
    decreases s.len(),
{
    if s.len() == 0 {
        0
    } else {
        byte_len(s.drop_last()) + utf8_width(s.last())
    }
}

/// Number of UTF-16 code units of `s`.
pub open spec fn utf16_len(s: Seq<char>) -> nat
    decreases s.len(),
{
    if s.len() == 0 {
        0
    } else {
        utf16_len(s.drop_last()) + utf16_width(s.last())
    }
}

/// `s` without its leading whitespace.
pub open spec fn trim_start(s: Seq<char>) -> Seq<char>
    decreases s.len(),
{
    if s.len() > 0 && is_ws(s[0]) {
        trim_start(s.drop_first())
    } else {
        s
    }
}

/// `s` without its trailing whitespace.
pub open spec fn trim_end(s: Seq<char>) -> Seq<char>
    decreases s.len(),
{
    if s.len() > 0 && is_ws(s.last()) {
        trim_end(s.drop_last())
    } else {
        s
    }
}

/// `str::trim`: `s` without leading and trailing whitespace.
pub open spec fn trim(s: Seq<char>) -> Seq<char> {
    trim_end(trim_start(s))
}

pub fn is_whitespace(c: char) -> (r: bool)
    ensures
        r == is_ws(c),
{
    let u = c as u32;
    (0x09 <= u && u <= 0x0D) || u == 0x20 || u == 0x85 || u == 0xA0 || u == 0x1680 || (0x2000
        <= u && u <= 0x200A) || u == 0x2028 || u == 0x2029 || u == 0x202F || u == 0x205F || u
        == 0x3000
}

pub fn is_ascii_whitespace(c: char) -> (r: bool)
    ensures
        r == is_ascii_ws(c),
{
    c == ' ' || c == '\t' || c == '\n' || c == '\x0C' || c == '\r'
}

pub fn len_utf8(c: char) -> (r: usize)
    ensures
        r == utf8_width(c),
{
    let u = c as u32;
    if u < 0x80 {
        1
    } else if u < 0x800 {
        2
    } else if u < 0x10000 {
        3
    } else {
        4
    }
}

pub fn len_utf16(c: char) -> (r: usize)
    ensures
        r == utf16_width(c),
{
    if (c as u32) < 0x10000 {
        1
    } else {
        2
    }
}

pub proof fn lemma_byte_len_append(a: Seq<char>, b: Seq<char>)
    ensures
        byte_len(a + b) == byte_len(a) + byte_len(b),
    decreases b.len(),
{
    if b.len() == 0 {
        assert(a + b =~= a);
    } else {
        lemma_byte_len_append(a, b.drop_last());
        assert((a + b).drop_last() =~= a + b.drop_last());
    }
}

pub proof fn lemma_utf16_len_append(a: Seq<char>, b: Seq<char>)
    ensures
        utf16_len(a + b) == utf16_len(a) + utf16_len(b),
    decreases b.len(),
{
    if b.len() == 0 {
        assert(a + b =~= a);
    } else {
        lemma_utf16_len_append(a, b.drop_last());
        assert((a + b).drop_last() =~= a + b.drop_last());
    }
}

pub proof fn lemma_byte_len_bounds(s: Seq<char>)
    ensures
        s.len() <= byte_len(s) <= 4 * s.len(),
    decreases s.len(),
{
    if s.len() > 0 {
        lemma_byte_len_bounds(s.drop_last());
    }
}

pub proof fn lemma_utf16_len_bounds(s: Seq<char>)
    ensures
        s.len() <= utf16_len(s) <= 2 * s.len(),
    decreases s.len(),
{
    if s.len() > 0 {
        lemma_utf16_len_bounds(s.drop_last());
    }
}

/// A string takes no more UTF-16 code units than UTF-8 bytes.
pub proof fn lemma_utf16_le_bytes(s: Seq<char>)
    ensures
        utf16_len(s) <= byte_len(s),
    decreases s.len(),
{
    if s.len() > 0 {
        lemma_utf16_le_bytes(s.drop_last());
    }
}

/// Byte length of a prefix grows by the width of the next character.
pub proof fn lemma_byte_len_take_step(s: Seq<char>, i: int)
    requires
        0 <= i < s.len(),
    ensures
        byte_len(s.take(i + 1)) == byte_len(s.take(i)) + utf8_width(s[i]),
{
    assert(s.take(i + 1).drop_last() =~= s.take(i));
}

pub proof fn lemma_utf16_len_take_step(s: Seq<char>, i: int)
    requires
        0 <= i < s.len(),
    ensures
        utf16_len(s.take(i + 1)) == utf16_len(s.take(i)) + utf16_width(s[i]),
{
    assert(s.take(i + 1).drop_last() =~= s.take(i));
}

pub proof fn lemma_byte_len_take_mono(s: Seq<char>, i: int, j: int)
    requires
        0 <= i <= j <= s.len(),
    ensures
        byte_len(s.take(i)) <= byte_len(s.take(j)),
    decreases j - i,
{
    if i < j {
        lemma_byte_len_take_mono(s, i, j - 1);
        lemma_byte_len_take_step(s, j - 1);
    }
}

/// Number of bytes of `s` in UTF-8.
pub fn byte_count(s: &[char]) -> (r: usize)
    requires
        byte_len(s@) <= usize::MAX,
    ensures
        r == byte_len(s@),
{
    let mut r: usize = 0;
    let mut i: usize = 0;
    while i < s.len()
        invariant
            0 <= i <= s@.len(),
            r == byte_len(s@.take(i as int)),
            byte_len(s@) <= usize::MAX,
        decreases s.len() - i,
    {
        proof {
            lemma_byte_len_take_step(s@, i as int);
            lemma_byte_len_take_mono(s@, i + 1, s@.len() as int);
            assert(s@.take(s@.len() as int) =~= s@);
        }
        r = r + len_utf8(s[i]);
        i += 1;
    }
    assert(s@.take(s@.len() as int) =~= s@);
    r
}

pub proof fn lemma_byte_len_encode(s: Seq<char>)
    ensures
        byte_len(s) == vstd::utf8::encode_utf8(s).len(),
    decreases s.len(),
{
    if s.len() > 0 {
        lemma_byte_len_encode(s.drop_first());
        lemma_byte_len_append(seq![s[0]], s.drop_first());
        assert(seq![s[0]] + s.drop_first() =~= s);
        assert(seq![s[0]].drop_last() =~= Seq::<char>::empty());
        vstd::utf8::char_is_scalar(s[0]);
        assert(byte_len(Seq::<char>::empty()) == 0);
        assert(seq![s[0]].last() == s[0]);
        assert(byte_len(seq![s[0]]) == utf8_width(s[0]));
        let u = s[0] as u32;
        assert(vstd::utf8::encode_scalar(u).len() == utf8_width(s[0]));
        assert(vstd::utf8::encode_utf8(s) == vstd::utf8::encode_scalar(u) + vstd::utf8::encode_utf8(
            s.drop_first(),
        ));
    }
}

/// The UTF-8 length of a string slice fits `usize`.
pub fn str_byte_len(s: &str) -> (r: usize)
    ensures
        r == byte_len(s@),
{
    let b = s.as_bytes();
    proof {
        lemma_byte_len_encode(s@);
    }
    b.len()
}

/// The characters of `s`, in order.
pub fn chars_of(s: &str) -> (v: Vec<char>)
    ensures
        v@ == s@,
{
    let mut v: Vec<char> = Vec::new();
    for c in it: s.chars()
        invariant
            v@ == it.seq().take(it.index() as int),
            it.seq() == s@,
    {
        v.push(c);
    }
    v
}

/// Appends `c` to `s` (`String::push`).
#[verifier::external_body]
pub fn push_char(s: &mut String, c: char)
    ensures
        final(s)@ == old(s)@.push(c),
{
    s.push(c);
}

/// A string holding the characters `chars[from..to]`.
pub fn string_from(chars: &[char], from: usize, to: usize) -> (s: String)
    requires
        from <= to <= chars@.len(),
    ensures
        s@ == chars@.subrange(from as int, to as int),
{
    let mut s = String::new();
    let mut i = from;
    while i < to
        invariant
            from <= i <= to <= chars@.len(),
            s@ == chars@.subrange(from as int, i as int),
        decreases to - i,
    {
        push_char(&mut s, chars[i]);
        assert(chars@.subrange(from as int, i + 1) =~= chars@.subrange(from as int, i as int).push(
            chars@[i as int],
        ));
        i += 1;
    }
    s
}

/// A string holding the characters of a literal.
pub fn string_of(lit: &str) -> (s: String)
    ensures
        s@ == lit@,
{
    let v = chars_of(lit);
    string_from(v.as_slice(), 0, v.len())
}

/// `a[from..to] == b` on characters.
pub fn slice_eq(a: &[char], from: usize, to: usize, b: &[char]) -> (r: bool)
    requires
        from <= to <= a@.len(),
    ensures
        r == (a@.subrange(from as int, to as int) == b@),
{
    if to - from != b.len() {
        return false;
    }
    let mut k: usize = 0;
    while k < b.len()
        invariant
            from <= to <= a@.len(),
            to - from == b@.len(),
            0 <= k <= b@.len(),
            forall|j: int| 0 <= j < k ==> a@[from + j] == b@[j],
        decreases b.len() - k,
    {
        if a[from + k] != b[k] {
            assert(a@.subrange(from as int, to as int)[k as int] != b@[k as int]);
            return false;
        }
        k += 1;
    }
    assert(a@.subrange(from as int, to as int) =~= b@);
    true
}

/// Whether the characters of `a` are those of the literal `lit`.
pub fn chars_eq_str(a: &[char], lit: &str) -> (r: bool)
    ensures
        r == (a@ == lit@),
{
    let b = chars_of(lit);
    let r = slice_eq(a, 0, a.len(), b.as_slice());
    assert(a@.subrange(0, a@.len() as int) =~= a@);
    r
}

/// Whether two strings hold the same characters.
pub fn str_eq(a: &str, b: &str) -> (r: bool)
    ensures
        r == (a@ == b@),
{
    let va = chars_of(a);
    chars_eq_str(va.as_slice(), b)
}

/// Index of the first non-whitespace character of `s[from..to]`, or `to`.
pub fn skip_ws_forward(s: &[char], from: usize, to: usize) -> (r: usize)
    requires
        from <= to <= s@.len(),
    ensures
        from <= r <= to,
        trim_start(s@.subrange(from as int, to as int)) == s@.subrange(r as int, to as int),
    decreases to - from,
{
    if from < to && is_whitespace(s[from]) {
        assert(s@.subrange(from as int, to as int).drop_first() =~= s@.subrange(
            from + 1,
            to as int,
        ));
        skip_ws_forward(s, from + 1, to)
    } else {
        from
    }
}

/// One past the last non-whitespace character of `s[from..to]`, or `from`.
pub fn skip_ws_backward(s: &[char], from: usize, to: usize) -> (r: usize)
    requires
        from <= to <= s@.len(),
    ensures
        from <= r <= to,
        trim_end(s@.subrange(from as int, to as int)) == s@.subrange(from as int, r as int),
    decreases to - from,
{
    if from < to && is_whitespace(s[to - 1]) {
        assert(s@.subrange(from as int, to as int).drop_last() =~= s@.subrange(
            from as int,
            to - 1,
        ));
        skip_ws_backward(s, from, to - 1)
    } else {
        to
    }
}

/// `trim` of `s[from..to]` is `s[lo..hi]`.
pub fn trim_range(s: &[char], from: usize, to: usize) -> (r: (usize, usize))
    requires
        from <= to <= s@.len(),
    ensures
        from <= r.0 <= r.1 <= to,
        trim(s@.subrange(from as int, to as int)) == s@.subrange(r.0 as int, r.1 as int),
        trim_start(s@.subrange(from as int, to as int)) == s@.subrange(r.0 as int, to as int),
{
    let lo = skip_ws_forward(s, from, to);
    let hi = skip_ws_backward(s, lo, to);
    (lo, hi)
}

/// `n` occurs in `s` at index `i`.
pub open spec fn occurs_at(s: Seq<char>, n: Seq<char>, i: int) -> bool {
    0 <= i && i + n.len() <= s.len() && s.subrange(i, i + n.len()) == n
}

/// The first index from `i` on where `n` occurs in `s` (`str::find` on the
/// rest of `s`).
pub open spec fn find_from(s: Seq<char>, n: Seq<char>, i: int) -> Option<int>
    decreases s.len() + 1 - i,
{
    if i < 0 || i + n.len() > s.len() {
        None
    } else if occurs_at(s, n, i) {
        Some(i)
    } else {
        find_from(s, n, i + 1)
    }
}

/// Where `find_from` finds `n`, it occurs, within `s`, from `i` on.
pub proof fn lemma_find_from_found(s: Seq<char>, n: Seq<char>, i: int)
    requires
        find_from(s, n, i) is Some,
    ensures
        i <= find_from(s, n, i)->0,
        occurs_at(s, n, find_from(s, n, i)->0),
    decreases s.len() + 1 - i,
{
    if !(i < 0 || i + n.len() > s.len()) && !occurs_at(s, n, i) {
        lemma_find_from_found(s, n, i + 1);
    }
}

/// `s` ends with `suffix`.
pub open spec fn ends_with(s: Seq<char>, suffix: Seq<char>) -> bool {
    suffix.len() <= s.len() && s.subrange(s.len() - suffix.len(), s.len() as int) == suffix
}

/// The first index from `from` on where `needle` occurs in `s`.
pub fn find_chars(s: &[char], needle: &[char], from: usize) -> (r: Option<usize>)
    ensures
        r matches Some(i) ==> find_from(s@, needle@, from as int) == Some(i as int),
        r is None ==> find_from(s@, needle@, from as int) is None,
        r matches Some(i) ==> occurs_at(s@, needle@, i as int) && from <= i && i + needle@.len() <= s.len(),
{
    let n = s.len();
    let m = needle.len();
    if from > n || m > n - from {
        return None;
    }
    if m == 0 {
        assert(s@.subrange(from as int, from as int) =~= needle@);
        return Some(from);
    }
    let mut i = from;
    while i <= n - m
        invariant
            from <= i,
            m >= 1,
            n == s@.len(),
            m == needle@.len(),
            m <= n,
            find_from(s@, needle@, from as int) == find_from(s@, needle@, i as int),
        decreases n - m + 1 - i,
    {
        if slice_eq(s, i, i + m, needle) {
            return Some(i);
        }
        i = i + 1;
    }
    None
}

/// `s[from..to]` ends with `suffix`.
pub fn ends_with_chars(s: &[char], from: usize, to: usize, suffix: &[char]) -> (r: bool)
    requires
        from <= to <= s@.len(),
    ensures
        r == ends_with(s@.subrange(from as int, to as int), suffix@),
{
    if suffix.len() > to - from {
        return false;
    }
    let r = slice_eq(s, to - suffix.len(), to, suffix);
    assert(s@.subrange(from as int, to as int).subrange(
        (to - from) - suffix@.len(),
        (to - from) as int,
    ) =~= s@.subrange(to - suffix@.len(), to as int));
    r
}

/// The characters `s[from..to]`.
pub fn slice_to_vec(s: &[char], from: usize, to: usize) -> (r: Vec<char>)
    requires
        from <= to <= s@.len(),
    ensures
        r@ == s@.subrange(from as int, to as int),
{
    let mut r: Vec<char> = Vec::new();
    let mut i = from;
    while i < to
        invariant
            from <= i <= to <= s@.len(),
            r@ == s@.subrange(from as int, i as int),
        decreases to - i,
    {
        r.push(s[i]);
        assert(s@.subrange(from as int, i + 1) =~= s@.subrange(from as int, i as int).push(s@[i as int]));
        i = i + 1;
    }
    r
}

} // verus!
