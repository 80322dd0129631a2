//! The calls into the regular-expression engine, the JavaScript parser and
//! Unicode tables of other crates, with what is claimed of each.
use vstd::prelude::*;
use crate::text::byte_len;
use unicode_normalization::UnicodeNormalization;

verus! {

/// Byte `b` is where a character of `s` starts, or the end of `s`.
pub open spec fn is_boundary(s: Seq<char>, b: int) -> bool {
    exists|k: int| 0 <= k <= s.len() && byte_len(#[trigger] s.take(k)) == b
}

/// Where the first match of the regular expression `pattern` lies in
/// `haystack`, as byte offsets; none when there is no match or the pattern
/// does not compile.
pub uninterp spec fn regex_find(pattern: Seq<char>, haystack: Seq<char>) -> Option<(int, int)>;

/// `Regex::new(pattern)` then `Regex::find(haystack)` of the `regex` crate:
/// the byte range of the leftmost-first match, `None` when the pattern does
/// not compile or nothing matches. The crate documents that a match's
/// offsets lie on UTF-8 boundaries of the haystack, start before end.
#[verifier::external_body]
pub fn first_regex_match(pattern: &str, haystack: &str) -> (r: Option<(usize, usize)>)
    ensures
        r matches Some(m) ==> regex_find(pattern@, haystack@) == Some((m.0 as int, m.1 as int)),
        r is None ==> regex_find(pattern@, haystack@) is None,
        r matches Some(m) ==> m.0 <= m.1 <= byte_len(haystack@) && is_boundary(haystack@, m.0 as int)
            && is_boundary(haystack@, m.1 as int),
{
    match regex::Regex::new(pattern) {
        Ok(re) => match re.find(haystack) {
            Some(m) => Some((m.start(), m.end())),
            None => None,
        },
        Err(_) => None,
    }
}

/// Whether the parser of `oxc_parser` reads `source` without a diagnostic,
/// as a module of the type the file name's extension gives (TSX where the
/// name gives none).
pub uninterp spec fn oxc_parses_tsx_default(source: Seq<char>, filename: Seq<char>) -> bool;

/// `Parser::new(..).parse()` of `oxc_parser` on `source`, with the source
/// type of `SourceType::from_path(filename)` (TSX when that fails) as a
/// module: whether it reported no diagnostic.
#[verifier::external_body]
pub fn parses_as_module_tsx_default(source: &str, filename: &str) -> (r: bool)
    ensures
        r == oxc_parses_tsx_default(source@, filename@),
{
    let allocator = oxc_allocator::Allocator::default();
    let source_type = oxc_span::SourceType::from_path(filename)
        .unwrap_or_else(|_| oxc_span::SourceType::tsx())
        .with_module(true);
    oxc_parser::Parser::new(&allocator, source, source_type).parse().diagnostics.is_empty()
}

/// `char::is_alphanumeric`: the Unicode `Alphabetic` or `Numeric` property.
pub uninterp spec fn is_alphanumeric(c: char) -> bool;

/// `char::is_alphanumeric` of std.
#[verifier::external_body]
pub fn char_is_alphanumeric(c: char) -> (r: bool)
    ensures
        r == is_alphanumeric(c),
{
    c.is_alphanumeric()
}

/// `char::to_lowercase`: the lowercase mapping of Unicode, one to three
/// characters.
pub uninterp spec fn lowercase_of(c: char) -> Seq<char>;

/// The characters that `char::to_lowercase` of std yields for `c`.
#[verifier::external_body]
pub fn char_to_lowercase(c: char) -> (r: Vec<char>)
    ensures
        r@ == lowercase_of(c),
{
    c.to_lowercase().collect()
}

/// The characters of `s` in Unicode Normalization Form C (canonical decomposition, then canonical composition), as the
/// `unicode-normalization` crate computes them.
pub uninterp spec fn nfc_of(s: Seq<char>) -> Seq<char>;

/// `UnicodeNormalization::nfc` of `unicode-normalization`, collected.
#[verifier::external_body]
pub fn to_nfc(s: &str) -> (r: String)
    ensures
        r@ == nfc_of(s@),
{
    s.nfc().collect()
}

/// The characters of `s` in Unicode Normalization Form D (canonical decomposition), as the
/// `unicode-normalization` crate computes them.
pub uninterp spec fn nfd_of(s: Seq<char>) -> Seq<char>;

/// `UnicodeNormalization::nfd` of `unicode-normalization`, collected.
#[verifier::external_body]
pub fn to_nfd(s: &str) -> (r: String)
    ensures
        r@ == nfd_of(s@),
{
    s.nfd().collect()
}

/// The characters of `s` in Unicode Normalization Form KC (compatibility decomposition, then canonical composition), as the
/// `unicode-normalization` crate computes them.
pub uninterp spec fn nfkc_of(s: Seq<char>) -> Seq<char>;

/// `UnicodeNormalization::nfkc` of `unicode-normalization`, collected.
#[verifier::external_body]
pub fn to_nfkc(s: &str) -> (r: String)
    ensures
        r@ == nfkc_of(s@),
{
    s.nfkc().collect()
}

/// The characters of `s` in Unicode Normalization Form KD (compatibility decomposition), as the
/// `unicode-normalization` crate computes them.
pub uninterp spec fn nfkd_of(s: Seq<char>) -> Seq<char>;

/// `UnicodeNormalization::nfkd` of `unicode-normalization`, collected.
#[verifier::external_body]
pub fn to_nfkd(s: &str) -> (r: String)
    ensures
        r@ == nfkd_of(s@),
{
    s.nfkd().collect()
}

/// The text that `{:?}` writes for a string: the string between double
/// quotes, with std's escapes.
pub uninterp spec fn debug_of(s: Seq<char>) -> Seq<char>;

/// `<str as Debug>::fmt` of std, through `format!("{:?}", ..)`.
#[verifier::external_body]
pub fn str_debug(s: &str) -> (r: String)
    ensures
        r@ == debug_of(s@),
{
    format!("{:?}", s)
}

/// `char::from_u32` of std: the character with code point `v`, or none
/// when `v` is a surrogate or above `0x10FFFF`.
#[verifier::external_body]
pub fn char_from_u32(v: u32) -> (r: Option<char>)
    ensures
        r is None <==> (0xD800 <= v <= 0xDFFF || v > 0x10FFFF),
        r matches Some(c) ==> c as u32 == v,
{
    char::from_u32(v)
}

} // verus!
