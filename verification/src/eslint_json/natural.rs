//! Natural order of keys, as the `natural-compare` package of npm defines
//! it: code units are remapped so that punctuation, digits and letters
//! interleave, and runs of digits that start with `1` to `9` compare as
//! numbers.
use vstd::prelude::*;
use std::cmp::Ordering;
use super::utf16::{utf16_units, units_order, lemma_units_order, units_order_exec, encode_utf16};

verus! {

/// The code unit at `pos`, zero past the end, remapped.
pub open spec fn nc_code(u: Seq<u16>, pos: int) -> int {
    let code: int = if 0 <= pos < u.len() { u[pos] as int } else { 0 };
    if !(45 <= code <= 127) {
        code
    } else if code < 46 {
        65
    } else if code < 48 {
        code - 1
    } else if code < 58 {
        code + 18
    } else if code < 65 {
        code - 11
    } else if code < 91 {
        code + 11
    } else if code < 97 {
        code - 37
    } else if code < 123 {
        code + 5
    } else {
        code - 63
    }
}

/// Whether the remapped code is that of a digit.
pub open spec fn is_digit_code(c: int) -> bool {
    66 <= c < 76
}

/// Whether the remapped code is that of a digit `1` to `9`.
pub open spec fn is_run_start_code(c: int) -> bool {
    67 <= c < 76
}

/// The end of the run of digits of `u` that starts at `pos`.
pub open spec fn digit_run_end(u: Seq<u16>, pos: int) -> int
    decreases u.len() - pos,
{
    if 0 <= pos < u.len() && is_digit_code(nc_code(u, pos)) {
        digit_run_end(u, pos + 1)
    } else {
        pos
    }
}

/// A run of digits ends within the sequence, after its first digit.
pub proof fn lemma_digit_run_end(u: Seq<u16>, pos: int)
    requires
        0 <= pos <= u.len(),
    ensures
        pos <= digit_run_end(u, pos) <= u.len(),
        is_digit_code(nc_code(u, pos)) && pos < u.len() ==> pos < digit_run_end(u, pos),
    decreases u.len() - pos,
{
    if 0 <= pos < u.len() && is_digit_code(nc_code(u, pos)) {
        lemma_digit_run_end(u, pos + 1);
    }
}

/// Runs of digits compare by length, then unit by unit.
pub open spec fn run_order(a: Seq<u16>, b: Seq<u16>) -> int {
    if a.len() < b.len() {
        -1
    } else if a.len() > b.len() {
        1
    } else {
        units_order(a, b)
    }
}

/// The natural order of `a[pa..]` against `b[pb..]`.
pub open spec fn natural_from(a: Seq<u16>, b: Seq<u16>, pa: int, pb: int) -> int
    decreases a.len() - pa + b.len() - pb,
{
    if !(0 <= pa <= a.len() && 0 <= pb <= b.len()) {
        0
    } else {
        let ca = nc_code(a, pa);
        let cb = nc_code(b, pb);
        if is_run_start_code(ca) && is_run_start_code(cb) {
            let ea = digit_run_end(a, pa);
            let eb = digit_run_end(b, pb);
            let c = run_order(a.subrange(pa, ea), b.subrange(pb, eb));
            if c == 0 {
                proof {
                    lemma_digit_run_end(a, pa);
                    lemma_digit_run_end(b, pb);
                }
                natural_from(a, b, ea, eb)
            } else {
                c
            }
        } else if ca != cb {
            if ca < cb { -1 } else { 1 }
        } else if ca == 0 {
            0
        } else {
            natural_from(a, b, pa + 1, pb + 1)
        }
    }
}

/// The natural order of two code-unit sequences: zero when they are equal.
pub open spec fn natural_units(a: Seq<u16>, b: Seq<u16>) -> int {
    if a == b { 0 } else { natural_from(a, b, 0, 0) }
}

/// The natural order of two texts, on their UTF-16 code units.
pub open spec fn natural_order(a: Seq<char>, b: Seq<char>) -> int {
    natural_units(utf16_units(a), utf16_units(b))
}

/// Swapping the sequences negates their natural order.
pub proof fn lemma_natural_from_swap(a: Seq<u16>, b: Seq<u16>, pa: int, pb: int)
    ensures
        natural_from(a, b, pa, pb) == -natural_from(b, a, pb, pa),
    decreases a.len() - pa + b.len() - pb,
{
    if 0 <= pa <= a.len() && 0 <= pb <= b.len() {
        let ca = nc_code(a, pa);
        let cb = nc_code(b, pb);
        if is_run_start_code(ca) && is_run_start_code(cb) {
            let ea = digit_run_end(a, pa);
            let eb = digit_run_end(b, pb);
            lemma_digit_run_end(a, pa);
            lemma_digit_run_end(b, pb);
            lemma_units_order(a.subrange(pa, ea), b.subrange(pb, eb));
            if run_order(a.subrange(pa, ea), b.subrange(pb, eb)) == 0 {
                lemma_natural_from_swap(a, b, ea, eb);
            }
        } else if ca != cb {
        } else if ca == 0 {
        } else {
            lemma_natural_from_swap(a, b, pa + 1, pb + 1);
        }
    }
}

/// The remapped code at `pos` of `units`.
pub fn nc_single(units: &[u16], pos: usize) -> (r: i32)
    ensures
        r == nc_code(units@, pos as int),
{
    let code: i32 = if pos < units.len() { units[pos] as i32 } else { 0 };
    if !(45 <= code && code <= 127) {
        code
    } else if code < 46 {
        65
    } else if code < 48 {
        code - 1
    } else if code < 58 {
        code + 18
    } else if code < 65 {
        code - 11
    } else if code < 91 {
        code + 11
    } else if code < 97 {
        code - 37
    } else if code < 123 {
        code + 5
    } else {
        code - 63
    }
}

/// Whether the code unit at `pos` of `units` is a digit.
fn is_digit_at(units: &[u16], pos: usize) -> (r: bool)
    ensures
        r == is_digit_code(nc_code(units@, pos as int)),
{
    let c = nc_single(units, pos);
    66 <= c && c < 76
}

/// Index just past the run of digits of `units` that starts at `pos`.
pub fn nc_digit_run_end(units: &[u16], pos: usize) -> (r: usize)
    requires
        pos <= units@.len(),
    ensures
        r == digit_run_end(units@, pos as int),
        pos <= r <= units@.len(),
{
    let mut end = pos;
    proof {
        lemma_digit_run_end(units@, pos as int);
    }
    while end < units.len() && is_digit_at(units, end)
        invariant
            pos <= end <= units@.len(),
            digit_run_end(units@, pos as int) == digit_run_end(units@, end as int),
        decreases units@.len() - end,
    {
        end = end + 1;
    }
    end
}

/// The `Ordering` of a negative, zero or positive order.
pub open spec fn order_of(c: int) -> Ordering {
    if c < 0 {
        Ordering::Less
    } else if c == 0 {
        Ordering::Equal
    } else {
        Ordering::Greater
    }
}

/// The natural order of two code-unit sequences: negative, zero or
/// positive.
pub fn natural_units_exec(a: &[u16], b: &[u16]) -> (r: i8)
    ensures
        r < 0 <==> natural_units(a@, b@) < 0,
        r == 0 <==> natural_units(a@, b@) == 0,
{
    let same = units_order_exec(a, 0, a.len(), b, 0, b.len());
    proof {
        assert(a@.subrange(0, a@.len() as int) =~= a@);
        assert(b@.subrange(0, b@.len() as int) =~= b@);
        lemma_units_order(a@, b@);
    }
    if same == 0 {
        return 0;
    }
    let la = a.len();
    let lb = b.len();
    let mut pa: usize = 0;
    let mut pb: usize = 0;
    loop
        invariant
            la == a@.len(),
            lb == b@.len(),
            pa <= a@.len(),
            pb <= b@.len(),
            a@ != b@,
            natural_from(a@, b@, 0, 0) == natural_from(a@, b@, pa as int, pb as int),
        decreases a@.len() - pa + b@.len() - pb,
    {
        let ca = nc_single(a, pa);
        let cb = nc_single(b, pb);
        if 67 <= ca && ca < 76 && 67 <= cb && cb < 76 {
            let ea = nc_digit_run_end(a, pa);
            let eb = nc_digit_run_end(b, pb);
            proof {
                lemma_digit_run_end(a@, pa as int);
                lemma_digit_run_end(b@, pb as int);
            }
            let c: i8 = if ea - pa < eb - pb {
                -1
            } else if ea - pa > eb - pb {
                1
            } else {
                units_order_exec(a, pa, ea, b, pb, eb)
            };
            if c == 0 {
                pa = ea;
                pb = eb;
                continue;
            }
            proof {
                lemma_units_order(a@.subrange(pa as int, ea as int), b@.subrange(pb as int, eb as int));
            }
            return c;
        }
        if ca != cb {
            return if ca < cb { -1 } else { 1 };
        }
        if ca == 0 {
            return 0;
        }
        assert(pa < a@.len()) by {
            if pa >= a@.len() {
                assert(nc_code(a@, pa as int) == 0);
            }
        }
        assert(pb < b@.len()) by {
            if pb >= b@.len() {
                assert(nc_code(b@, pb as int) == 0);
            }
        }
        pa = pa + 1;
        pb = pb + 1;
    }
}

/// The natural order of two keys, on their UTF-16 code units.
pub fn natural_compare(left: &str, right: &str) -> (r: Ordering)
    ensures
        r == order_of(natural_order(left@, right@)),
{
    let a = encode_utf16(left);
    let b = encode_utf16(right);
    let c = natural_units_exec(a.as_slice(), b.as_slice());
    if c < 0 {
        Ordering::Less
    } else if c == 0 {
        Ordering::Equal
    } else {
        Ordering::Greater
    }
}

} // verus!
