//! The text of a JSON number: its sign, its kind, and which message of
//! `no-unsafe-values` its value calls for.
use vstd::prelude::*;
use crate::text::{chars_of, string_of, push_char};

verus! {

/// `s` without its leading `+` and `-` signs.
pub open spec fn strip_signs(s: Seq<char>) -> Seq<char>
    decreases s.len(),
{
    if s.len() > 0 && (s[0] == '+' || s[0] == '-') {
        strip_signs(s.drop_first())
    } else {
        s
    }
}

/// The number of leading signs of `s`.
pub open spec fn sign_count(s: Seq<char>) -> nat
    decreases s.len(),
{
    if s.len() > 0 && (s[0] == '+' || s[0] == '-') {
        1 + sign_count(s.drop_first())
    } else {
        0
    }
}

proof fn lemma_strip_signs(s: Seq<char>)
    ensures
        sign_count(s) <= s.len(),
        strip_signs(s) == s.skip(sign_count(s) as int),
    decreases s.len(),
{
    if s.len() > 0 && (s[0] == '+' || s[0] == '-') {
        lemma_strip_signs(s.drop_first());
        assert(s.drop_first().skip(sign_count(s.drop_first()) as int) =~= s.skip(sign_count(s) as int));
    } else {
        assert(s.skip(0) =~= s);
    }
}

/// Index of the first character of `s` after its leading signs.
fn skip_signs(s: &[char]) -> (r: usize)
    ensures
        r == sign_count(s@),
        r <= s@.len(),
        strip_signs(s@) == s@.skip(r as int),
{
    let mut i: usize = 0;
    proof {
        lemma_strip_signs(s@);
        assert(s@.skip(0) =~= s@);
    }
    while i < s.len() && (s[i] == '+' || s[i] == '-')
        invariant
            i <= s@.len(),
            sign_count(s@) == i + sign_count(s@.skip(i as int)),
        decreases s@.len() - i,
    {
        assert(s@.skip(i as int).drop_first() =~= s@.skip(i + 1));
        i = i + 1;
    }
    proof {
        lemma_strip_signs(s@);
    }
    i
}

/// Whether `t[from..]` starts with the characters of `lit`.
fn starts_with_at(t: &[char], from: usize, lit: &str) -> (r: bool)
    requires
        from <= t@.len(),
    ensures
        r == (lit@.len() <= t@.len() - from && t@.subrange(from as int, from + lit@.len()) == lit@),
{
    let l = chars_of(lit);
    if l.len() > t.len() - from {
        return false;
    }
    crate::text::slice_eq(t, from, from + l.len(), l.as_slice())
}

/// The spellings of a number that is not finite.
pub open spec fn is_non_finite_word(s: Seq<char>) -> bool {
    s == "Infinity"@ || s == "NaN"@ || s == "inf"@ || s == "Inf"@ || s == "INF"@
}

/// Whether `raw` spells infinity or NaN, after any signs.
pub fn is_json5_non_finite(raw: &str) -> (r: bool)
    ensures
        r == is_non_finite_word(strip_signs(raw@)),
{
    let t = chars_of(raw);
    let k = skip_signs(t.as_slice());
    let rest = crate::text::slice_to_vec(t.as_slice(), k, t.len());
    assert(rest@ =~= strip_signs(raw@));
    crate::text::chars_eq_str(rest.as_slice(), "Infinity") || crate::text::chars_eq_str(rest.as_slice(), "NaN")
        || crate::text::chars_eq_str(rest.as_slice(), "inf") || crate::text::chars_eq_str(rest.as_slice(), "Inf")
        || crate::text::chars_eq_str(rest.as_slice(), "INF")
}

/// Whether a text starts with `0x` or `0X`.
pub open spec fn has_hex_prefix(s: Seq<char>) -> bool {
    s.len() >= 2 && s[0] == '0' && (s[1] == 'x' || s[1] == 'X')
}

/// Whether `raw` is a hexadecimal number, after any signs.
pub fn is_hex_number(raw: &str) -> (r: bool)
    ensures
        r == has_hex_prefix(strip_signs(raw@)),
{
    let t = chars_of(raw);
    let k = skip_signs(t.as_slice());
    t.len() - k >= 2 && t[k] == '0' && (t[k + 1] == 'x' || t[k + 1] == 'X')
}

/// Whether every character of `s` is an ASCII digit.
pub open spec fn all_digits(s: Seq<char>) -> bool {
    forall|i: int| 0 <= i < s.len() ==> '0' <= #[trigger] s[i] <= '9'
}

/// Whether `raw` is a decimal integer: after any signs, only digits.
pub fn is_decimal_integer(raw: &str) -> (r: bool)
    ensures
        r == all_digits(strip_signs(raw@)),
{
    let t = chars_of(raw);
    let k = skip_signs(t.as_slice());
    let mut i = k;
    while i < t.len()
        invariant
            k <= i <= t@.len(),
            strip_signs(raw@) == t@.skip(k as int),
            t@ == raw@,
            forall|j: int| k <= j < i ==> '0' <= #[trigger] t@[j] <= '9',
        decreases t@.len() - i,
    {
        if !('0' <= t[i] && t[i] <= '9') {
            assert(strip_signs(raw@)[i - k] == t@[i as int]);
            return false;
        }
        i = i + 1;
    }
    assert forall|j: int| 0 <= j < strip_signs(raw@).len() implies '0' <= #[trigger] strip_signs(raw@)[j] <= '9' by {
        assert(strip_signs(raw@)[j] == t@[j + k]);
    }
    true
}

/// The length of the part of `s` before its first `e` or `E`.
pub open spec fn mantissa_len(s: Seq<char>) -> nat
    decreases s.len(),
{
    if s.len() == 0 || s[0] == 'e' || s[0] == 'E' {
        0
    } else {
        1 + mantissa_len(s.drop_first())
    }
}

/// Whether some digit `1` to `9` stands in the mantissa of `raw`, after any
/// signs and before any exponent.
pub open spec fn mantissa_has_non_zero(raw: Seq<char>) -> bool {
    let t = strip_signs(raw);
    exists|i: int| 0 <= i < mantissa_len(t) && '1' <= #[trigger] t[i] <= '9'
}

proof fn lemma_mantissa_len(s: Seq<char>, i: int)
    requires
        0 <= i <= mantissa_len(s),
    ensures
        mantissa_len(s) <= s.len(),
        i < mantissa_len(s) ==> s[i] != 'e' && s[i] != 'E',
        i < s.len() && i == mantissa_len(s) ==> s[i] == 'e' || s[i] == 'E',
    decreases s.len(),
{
    if s.len() == 0 || s[0] == 'e' || s[0] == 'E' {
    } else if i > 0 {
        lemma_mantissa_len(s.drop_first(), i - 1);
    } else {
        lemma_mantissa_len(s.drop_first(), 0);
    }
}

/// Whether the mantissa of `raw` has a non-zero digit.
pub fn numeric_mantissa_has_non_zero(raw: &str) -> (r: bool)
    ensures
        r == mantissa_has_non_zero(raw@),
{
    let t = chars_of(raw);
    let k = skip_signs(t.as_slice());
    let ghost m = strip_signs(raw@);
    let mut i = k;
    while i < t.len() && t[i] != 'e' && t[i] != 'E'
        invariant
            k <= i <= t@.len(),
            m == t@.skip(k as int),
            m == strip_signs(raw@),
            i - k <= mantissa_len(m),
            forall|j: int| 0 <= j < i - k ==> !('1' <= #[trigger] m[j] <= '9'),
        decreases t@.len() - i,
    {
        proof {
            lemma_mantissa_len(m, i - k);
            if i - k == mantissa_len(m) {
                assert(m[i - k] == t@[i as int]);
            }
        }
        if '1' <= t[i] && t[i] <= '9' {
            assert(m[i - k] == t@[i as int]);
            assert(i - k < mantissa_len(m));
            assert('1' <= m[i - k] <= '9');
            assert('1' <= strip_signs(raw@)[i - k] <= '9');
            assert(0 <= i - k < mantissa_len(strip_signs(raw@)));
            return true;
        }
        i = i + 1;
    }
    proof {
        lemma_mantissa_len(m, i - k);
        if i - k < mantissa_len(m) {
            assert(m[i - k] == t@[i as int]);
        }
    }
    false
}

/// The text given to the float parser: a leading `.`, `+.` or `-.` gets a
/// `0` before its point.
pub open spec fn number_for_parse(raw: Seq<char>) -> Seq<char> {
    if raw.len() >= 1 && raw[0] == '.' {
        seq!['0'] + raw
    } else if raw.len() >= 2 && (raw[0] == '+' || raw[0] == '-') && raw[1] == '.' {
        seq![raw[0], '0'] + raw.skip(1)
    } else {
        raw
    }
}

/// The text given to the float parser for `raw`.
pub fn normalize_number_for_parse(raw: &str) -> (r: String)
    ensures
        r@ == number_for_parse(raw@),
{
    let t = chars_of(raw);
    let mut out = String::new();
    let mut from: usize = 0;
    if t.len() >= 1 && t[0] == '.' {
        push_char(&mut out, '0');
    } else if t.len() >= 2 && (t[0] == '+' || t[0] == '-') && t[1] == '.' {
        push_char(&mut out, t[0]);
        push_char(&mut out, '0');
        from = 1;
    }
    let ghost head = out@;
    let mut i = from;
    while i < t.len()
        invariant
            from <= i <= t@.len(),
            out@ == head + t@.subrange(from as int, i as int),
        decreases t@.len() - i,
    {
        push_char(&mut out, t[i]);
        assert(t@.subrange(from as int, i + 1) =~= t@.subrange(from as int, i as int).push(t@[i as int]));
        i = i + 1;
    }
    proof {
        assert(t@.subrange(from as int, t@.len() as int) =~= t@.skip(from as int));
        assert(t@.skip(0) =~= t@);
    }
    out
}

/// What parsing a number's text as a float gave.
#[derive(Clone, Copy, Debug, PartialEq, Eq, Structural)]
pub enum NumberClass {
    /// The text does not parse as a float.
    Invalid,
    /// It parses to an infinity or NaN.
    NonFinite,
    /// It parses to zero.
    Zero,
    /// It parses to a finite non-zero value: whether its magnitude exceeds
    /// the largest safe integer, and whether it is below the smallest
    /// normal float.
    NonZero { above_safe_integer: bool, subnormal: bool },
}

/// The message `no-unsafe-values` gives a number with text `raw`, whose
/// parse gave `class`, or none.
pub open spec fn number_message(raw: Seq<char>, class: NumberClass) -> Option<&'static str> {
    if has_hex_prefix(strip_signs(raw)) {
        None
    } else if is_non_finite_word(strip_signs(raw)) {
        Some("unsafeNumber")
    } else {
        match class {
            NumberClass::Invalid => None,
            NumberClass::NonFinite => Some("unsafeNumber"),
            NumberClass::Zero => if mantissa_has_non_zero(raw) { Some("unsafeZero") } else { None },
            NumberClass::NonZero { above_safe_integer, subnormal } =>
                if all_digits(strip_signs(raw)) {
                    if above_safe_integer { Some("unsafeInteger") } else { None }
                } else {
                    if subnormal { Some("subnormal") } else { None }
                },
        }
    }
}

/// The message `no-unsafe-values` gives a number with text `raw`, whose
/// parse gave `class`, or none.
pub fn unsafe_number_message(raw: &str, class: NumberClass) -> (r: Option<&'static str>)
    ensures
        r == number_message(raw@, class),
{
    if is_hex_number(raw) {
        return None;
    }
    if is_json5_non_finite(raw) {
        return Some("unsafeNumber");
    }
    match class {
        NumberClass::Invalid => None,
        NumberClass::NonFinite => Some("unsafeNumber"),
        NumberClass::Zero => if numeric_mantissa_has_non_zero(raw) { Some("unsafeZero") } else { None },
        NumberClass::NonZero { above_safe_integer, subnormal } => {
            if is_decimal_integer(raw) {
                if above_safe_integer { Some("unsafeInteger") } else { None }
            } else {
                if subnormal { Some("subnormal") } else { None }
            }
        },
    }
}

} // verus!
