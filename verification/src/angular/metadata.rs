//! The metadata block of a `$localize` message: `:meaning|description@@id:`.
use vstd::prelude::*;
use crate::text::{find_from, chars_of, find_chars, string_from, slice_to_vec};

verus! {

/// The fields of a message's metadata block.
#[derive(Clone, Debug, Default, PartialEq, Eq)]
pub struct LocalizeMetadata {
    pub meaning: Option<String>,
    pub description: Option<String>,
    pub custom_id: Option<String>,
}

pub open spec fn opt_chars(o: Option<String>) -> Option<Seq<char>> {
    match o {
        Some(s) => Some(s@),
        None => None,
    }
}

/// The index of the last `c` in `s`.
pub open spec fn last_index_of(s: Seq<char>, c: char) -> Option<int>
    decreases s.len(),
{
    if s.len() == 0 {
        None
    } else if s.last() == c {
        Some(s.len() - 1)
    } else {
        last_index_of(s.drop_last(), c)
    }
}

/// The first piece of `s` split at `sep` (`str::split(..).next()`).
pub open spec fn first_piece(s: Seq<char>, sep: Seq<char>) -> Seq<char> {
    match find_from(s, sep, 0) {
        None => s,
        Some(i) => s.take(i),
    }
}

/// The second piece of `s` split at `sep`, if `sep` occurs.
pub open spec fn second_piece(s: Seq<char>, sep: Seq<char>) -> Option<Seq<char>> {
    match find_from(s, sep, 0) {
        None => None,
        Some(i) => Some(first_piece(s.skip(i + sep.len()), sep)),
    }
}

/// A piece, or nothing when it is empty.
pub open spec fn non_empty(s: Seq<char>) -> Option<Seq<char>> {
    if s.len() > 0 {
        Some(s)
    } else {
        None
    }
}

/// The metadata of the raw text of a message's first part: between a
/// leading `:` and the last `:`, `meaning|description@@id`; the meaning is
/// there only with a `|`, an empty description is none; without a leading
/// `:` there is no metadata.
pub open spec fn metadata_of(raw: Seq<char>) -> (Option<Seq<char>>, Option<Seq<char>>, Option<Seq<char>>) {
    if raw.len() == 0 || raw[0] != ':' {
        (None, None, None)
    } else {
        let end = match last_index_of(raw, ':') {
            Some(e) => e,
            None => 0,
        };
        let text = if end < 1 {
            Seq::<char>::empty()
        } else {
            raw.subrange(1, end)
        };
        let head = first_piece(text, "@@"@);
        let id = second_piece(text, "@@"@);
        let first = first_piece(head, "|"@);
        match second_piece(head, "|"@) {
            Some(d) => (Some(first), non_empty(d), id),
            None => (None, non_empty(first), id),
        }
    }
}

/// The index of the last `c` in `s[..to]`.
fn rfind_char(s: &[char], to: usize, c: char) -> (r: Option<usize>)
    requires
        to <= s@.len(),
    ensures
        r matches Some(i) ==> last_index_of(s@.take(to as int), c) == Some(i as int),
        r is None ==> last_index_of(s@.take(to as int), c) is None,
        r matches Some(i) ==> i < to,
    decreases to,
{
    if to == 0 {
        return None;
    }
    assert(s@.take(to as int).drop_last() =~= s@.take(to - 1));
    if s[to - 1] == c {
        Some(to - 1)
    } else {
        rfind_char(s, to - 1, c)
    }
}

/// The range of the first piece of `s[from..to]` split at `sep`, and the
/// start of the rest after the separator if there is one.
fn split_first(s: &[char], from: usize, to: usize, sep: &[char]) -> (r: (usize, Option<usize>))
    requires
        from <= to <= s@.len(),
    ensures
        from <= r.0 <= to,
        s@.subrange(from as int, r.0 as int) == first_piece(s@.subrange(from as int, to as int), sep@),
        r.1 is None <==> find_from(s@.subrange(from as int, to as int), sep@, 0) is None,
        r.1 matches Some(k) ==> r.0 + sep@.len() == k && k <= to && s@.subrange(k as int, to as int)
            == s@.subrange(from as int, to as int).skip(r.0 - from + sep@.len()),
{
    let part = slice_to_vec(s, from, to);
    match find_chars(part.as_slice(), sep, 0) {
        None => (to, None),
        Some(i) => {
            proof {
                assert(s@.subrange(from as int, from + i) =~= part@.take(i as int));
                assert(s@.subrange(from + i + sep@.len(), to as int) =~= part@.skip(i + sep@.len()));
            }
            (from + i, Some(from + i + sep.len()))
        },
    }
}

/// Reads the metadata block of the raw text of a message's first part.
pub fn parse_metadata(raw_text: &str) -> (r: LocalizeMetadata)
    ensures
        (opt_chars(r.meaning), opt_chars(r.description), opt_chars(r.custom_id)) == metadata_of(
            raw_text@,
        ),
{
    let raw = chars_of(raw_text);
    if raw.len() == 0 || raw[0] != ':' {
        return LocalizeMetadata { meaning: None, description: None, custom_id: None };
    }
    let end = match rfind_char(raw.as_slice(), raw.len(), ':') {
        Some(e) => e,
        None => 0,
    };
    proof {
        assert(raw@.take(raw@.len() as int) =~= raw@);
    }
    let (lo, hi) = if end < 1 {
        (0, 0)
    } else {
        (1, end)
    };
    let ghost text = raw@.subrange(lo as int, hi as int);
    proof {
        if end < 1 {
            assert(text =~= Seq::<char>::empty());
        }
        reveal_strlit("@@");
        reveal_strlit("|");
    }
    let at_at = chars_of("@@");
    let bar = chars_of("|");
    let (head_end, id_start) = split_first(raw.as_slice(), lo, hi, at_at.as_slice());
    let ghost head = raw@.subrange(lo as int, head_end as int);
    assert(head == first_piece(text, "@@"@));
    let custom_id = match id_start {
        None => None,
        Some(k) => {
            let (id_end, _) = split_first(raw.as_slice(), k, hi, at_at.as_slice());
            proof {
                let i = find_from(text, "@@"@, 0)->0;
                crate::text::lemma_find_from_found(text, "@@"@, 0);
                assert(head =~= text.take(i));
                assert(head_end - lo == i);
            }
            Some(string_from(raw.as_slice(), k, id_end))
        },
    };
    assert(opt_chars(custom_id) == second_piece(text, "@@"@));
    let (first_end, second_start) = split_first(raw.as_slice(), lo, head_end, bar.as_slice());
    let first = string_from(raw.as_slice(), lo, first_end);
    assert(first@ == first_piece(head, "|"@));
    let (meaning, description) = match second_start {
        Some(k) => {
            let (second_end, _) = split_first(raw.as_slice(), k, head_end, bar.as_slice());
            proof {
                let i = find_from(head, "|"@, 0)->0;
                crate::text::lemma_find_from_found(head, "|"@, 0);
                assert(first@ =~= head.take(i));
                assert(first_end - lo == i);
                assert(raw@.subrange(k as int, second_end as int) == second_piece(head, "|"@)->0);
            }
            let description = if second_end > k {
                Some(string_from(raw.as_slice(), k, second_end))
            } else {
                None
            };
            (Some(first), description)
        },
        None => {
            let description = if first_end > lo {
                Some(first)
            } else {
                None
            };
            (None, description)
        },
    };
    LocalizeMetadata { meaning, description, custom_id }
}

} // verus!
