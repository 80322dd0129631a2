//! Opening and closing tags of an Astro template, with their attributes and
//! the expressions inside them. Positions are character indices.
use vstd::prelude::*;
use crate::text::{is_ascii_ws, trim, find_from, chars_of, find_chars, slice_to_vec, trim_range};
use super::lexical::{
    starts_at, starts_with_at, skip_ws_from, skip_ascii_whitespace, quoted_end, quoted_end_exec,
    balanced_brace_end, balanced_brace_end_exec, brace_from, lemma_brace_after, lemma_quoted_end_after,
};

verus! {

/// How an attribute's value is written.
#[derive(Clone, Copy, Debug, PartialEq, Eq, Structural)]
pub enum ValueKind {
    /// `{expression}`
    Expression,
    /// `` `template` ``
    Template,
    /// A quoted or bare text.
    Other,
}

/// An attribute value: its characters `start..end` (delimiters included).
#[derive(Clone, Copy, Debug, PartialEq, Eq, Structural)]
pub struct AttrValue {
    pub start: usize,
    pub end: usize,
    pub kind: ValueKind,
}

/// An attribute: its name `name_start..name_end`, the whole attribute
/// `start..end`, whether it is the `{name}` shorthand, and its value.
#[derive(Clone, Copy, Debug, PartialEq, Eq, Structural)]
pub struct Attr {
    pub name_start: usize,
    pub name_end: usize,
    pub start: usize,
    pub end: usize,
    pub shorthand: bool,
    pub value: Option<AttrValue>,
}

/// An element: its tag name, the opening tag `open_start..open_end`, its
/// attributes, and, once closed, the closing tag and what lies between.
#[derive(Clone, Debug)]
pub struct Element {
    pub name_start: usize,
    pub name_end: usize,
    pub open_start: usize,
    pub open_end: usize,
    pub attrs: Vec<Attr>,
    pub self_closing: bool,
    pub closing: Option<(usize, usize)>,
    pub children: Option<(usize, usize)>,
}

/// What an `Element` holds.
pub struct ElementView {
    pub name_start: int,
    pub name_end: int,
    pub open_start: int,
    pub open_end: int,
    pub attrs: Seq<Attr>,
    pub self_closing: bool,
    pub closing: Option<(usize, usize)>,
    pub children: Option<(usize, usize)>,
}

impl View for Element {
    type V = ElementView;

    open spec fn view(&self) -> ElementView {
        ElementView {
            name_start: self.name_start as int,
            name_end: self.name_end as int,
            open_start: self.open_start as int,
            open_end: self.open_end as int,
            attrs: self.attrs@,
            self_closing: self.self_closing,
            closing: self.closing,
            children: self.children,
        }
    }
}

/// The ranges of attribute `a` nest: the attribute lies within `lo..hi`,
/// its name and value within it.
pub open spec fn attr_wf(a: Attr, lo: int, hi: int) -> bool {
    &&& lo <= a.start <= a.name_start <= a.name_end <= a.end <= hi
    &&& match a.value {
        Some(v) => a.start <= v.start <= v.end <= a.end,
        None => true,
    }
}

/// The ranges of element `e` nest within a text of `n` characters: name and
/// attributes inside the opening tag, the closing tag after it, the
/// children between them.
pub open spec fn element_wf(e: ElementView, n: int) -> bool {
    &&& e.open_start < e.name_start <= e.name_end <= e.open_end <= n
    &&& forall|k: int| 0 <= k < e.attrs.len() ==> attr_wf(#[trigger] e.attrs[k], e.open_start, e.open_end)
    &&& match e.closing {
        Some(c) => e.open_end <= c.0 <= c.1 <= n && e.children == Some((e.open_end as usize, c.0)),
        None => e.children is None,
    }
}

/// A character of a tag name.
pub open spec fn is_tag_name_char(c: char) -> bool {
    ('a' <= c <= 'z') || ('A' <= c <= 'Z') || ('0' <= c <= '9') || c == '_' || c == ':' || c == '$'
        || c == '.' || c == '-'
}

/// A character of an attribute name: anything but ASCII whitespace and
/// `= > / { }`.
pub open spec fn is_attr_name_char(c: char) -> bool {
    !is_ascii_ws(c) && c != '=' && c != '>' && c != '/' && c != '{' && c != '}'
}

/// A character that ends a bare attribute value.
pub open spec fn ends_bare_value(c: char) -> bool {
    is_ascii_ws(c) || c == '>' || c == '/'
}

/// The first index from `i` on whose character is not in a tag name.
pub open spec fn tag_name_end(t: Seq<char>, i: int) -> int
    decreases t.len() - i,
{
    if i >= t.len() || !is_tag_name_char(t[i]) {
        i
    } else {
        tag_name_end(t, i + 1)
    }
}

/// The first index from `i` on whose character is not in an attribute name.
pub open spec fn attr_name_end(t: Seq<char>, i: int) -> int
    decreases t.len() - i,
{
    if i >= t.len() || !is_attr_name_char(t[i]) {
        i
    } else {
        attr_name_end(t, i + 1)
    }
}

/// The first index from `i` on that ends a bare value.
pub open spec fn bare_value_end(t: Seq<char>, i: int) -> int
    decreases t.len() - i,
{
    if i >= t.len() || ends_bare_value(t[i]) {
        i
    } else {
        bare_value_end(t, i + 1)
    }
}

pub open spec fn is_ident_start(c: char) -> bool {
    c == '_' || c == '$' || ('a' <= c <= 'z') || ('A' <= c <= 'Z')
}

pub open spec fn is_ident_part(c: char) -> bool {
    is_ident_start(c) || ('0' <= c <= '9')
}

/// An ASCII JavaScript identifier.
pub open spec fn is_identifier_name(s: Seq<char>) -> bool {
    s.len() > 0 && is_ident_start(s[0]) && forall|k: int| 1 <= k < s.len() ==> is_ident_part(#[trigger] s[k])
}

/// The `${...}` interpolations of a template literal, scanning from `i`
/// while a character remains before `end`.
pub open spec fn interpolations(t: Seq<char>, i: int, end: int, acc: Seq<(usize, usize)>) -> Seq<(usize, usize)>
    decreases end - i,
{
    if i + 1 >= end {
        acc
    } else if starts_at(t, i, "${"@) && balanced_brace_end(t, i + 1) is Some {
        let e = balanced_brace_end(t, i + 1)->0;
        let found = acc.push(((i + 2) as usize, (e - 1) as usize));
        if e + 1 >= end || e <= i {
            found
        } else {
            interpolations(t, e, end, found)
        }
    } else {
        interpolations(t, i + 1, end, acc)
    }
}

/// The element of an opening tag whose attributes are read from `i` on.
pub open spec fn open_tag_from(
    t: Seq<char>,
    start: int,
    name_end: int,
    i: int,
    attrs: Seq<Attr>,
    exprs: Seq<(usize, usize)>,
) -> Option<(ElementView, int, Seq<(usize, usize)>)>
    decreases t.len() - i,
{
    let c = skip_ws_from(t, i);
    let element = |end: int, self_closing: bool|
        ElementView {
            name_start: start + 1,
            name_end,
            open_start: start,
            open_end: end,
            attrs,
            self_closing,
            closing: None,
            children: None,
        };
    if i < 0 || c < i || c >= t.len() {
        None
    } else if starts_at(t, c, "/>"@) {
        Some((element(c + 2, true), c + 2, exprs))
    } else if t[c] == '>' {
        Some((element(c + 1, false), c + 1, exprs))
    } else if t[c] == '{' {
        match balanced_brace_end(t, c) {
            None => None,
            Some(end) => {
                let inner = t.subrange(c + 1, end - 1);
                let name = trim(inner);
                if end <= c || end > t.len() {
                    None
                } else if is_identifier_name(name) {
                    match find_from(inner, name, 0) {
                        None => None,
                        Some(rel) => {
                            let attr = Attr {
                                name_start: (c + 1 + rel) as usize,
                                name_end: (c + 1 + rel + name.len()) as usize,
                                start: c as usize,
                                end: end as usize,
                                shorthand: true,
                                value: Some(AttrValue { start: (c + 1) as usize, end: (end - 1) as usize, kind: ValueKind::Expression }),
                            };
                            open_tag_from(t, start, name_end, end, attrs.push(attr), exprs.push(((c + 1) as usize, (end - 1) as usize)))
                        },
                    }
                } else {
                    open_tag_from(t, start, name_end, end, attrs, exprs)
                }
            },
        }
    } else {
        let n_end = attr_name_end(t, c);
        let after = skip_ws_from(t, n_end);
        let attr = |end: int, value: Option<AttrValue>|
            Attr {
                name_start: c as usize,
                name_end: n_end as usize,
                start: c as usize,
                end: end as usize,
                shorthand: false,
                value,
            };
        if n_end <= c {
            open_tag_from(t, start, name_end, c + 1, attrs, exprs)
        } else if after < n_end || after > t.len() {
            None
        } else if after < t.len() && t[after] == '=' {
            let v = skip_ws_from(t, after + 1);
            if v <= after || v >= t.len() {
                None
            } else if t[v] == '{' {
                match balanced_brace_end(t, v) {
                    None => None,
                    Some(e) => if v < e <= t.len() {
                        open_tag_from(
                            t,
                            start,
                            name_end,
                            e,
                            attrs.push(attr(e, Some(AttrValue { start: v as usize, end: e as usize, kind: ValueKind::Expression }))),
                            exprs.push(((v + 1) as usize, (e - 1) as usize)),
                        )
                    } else {
                        None
                    },
                }
            } else if t[v] == '`' {
                match quoted_end(t, v, '`') {
                    None => None,
                    Some(e) => if v < e <= t.len() {
                        open_tag_from(
                            t,
                            start,
                            name_end,
                            e,
                            attrs.push(attr(e, Some(AttrValue { start: v as usize, end: e as usize, kind: ValueKind::Template }))),
                            interpolations(t, v + 1, e, exprs),
                        )
                    } else {
                        None
                    },
                }
            } else if t[v] == '\'' || t[v] == '"' {
                match quoted_end(t, v, t[v]) {
                    None => None,
                    Some(e) => if v < e <= t.len() {
                        open_tag_from(
                            t,
                            start,
                            name_end,
                            e,
                            attrs.push(attr(e, Some(AttrValue { start: v as usize, end: e as usize, kind: ValueKind::Other }))),
                            exprs,
                        )
                    } else {
                        None
                    },
                }
            } else {
                let e = bare_value_end(t, v);
                if v <= e <= t.len() {
                    open_tag_from(
                        t,
                        start,
                        name_end,
                        e,
                        attrs.push(attr(e, Some(AttrValue { start: v as usize, end: e as usize, kind: ValueKind::Other }))),
                        exprs,
                    )
                } else {
                    None
                }
            }
        } else {
            open_tag_from(t, start, name_end, after, attrs.push(attr(after, None)), exprs)
        }
    }
}

/// The element of the opening tag at `start`, where it ends, and the
/// expressions inside it.
pub open spec fn open_tag(t: Seq<char>, start: int) -> Option<(ElementView, int, Seq<(usize, usize)>)> {
    if !starts_at(t, start, "<"@) || starts_at(t, start, "</"@) || starts_at(t, start, "<!"@)
        || starts_at(t, start, "<?"@) || starts_at(t, start, "<>"@) {
        None
    } else {
        let name_end = tag_name_end(t, start + 1);
        if name_end == start + 1 {
            None
        } else {
            open_tag_from(t, start, name_end, name_end, Seq::empty(), Seq::empty())
        }
    }
}

/// The closing tag at `start`: its name's range, its own range.
pub open spec fn close_tag(t: Seq<char>, start: int) -> Option<((usize, usize), (usize, usize))> {
    let name_end = tag_name_end(t, start + 2);
    let c = skip_ws_from(t, name_end);
    if start < 0 || name_end == start + 2 || c >= t.len() || t[c] != '>' {
        None
    } else {
        Some((((start + 2) as usize, name_end as usize), (start as usize, (c + 1) as usize)))
    }
}

fn tag_name_end_exec(t: &[char], i: usize) -> (r: usize)
    requires
        i <= t@.len(),
    ensures
        r == tag_name_end(t@, i as int),
        i <= r <= t@.len(),
{
    let mut k = i;
    while k < t.len() && (('a' <= t[k] && t[k] <= 'z') || ('A' <= t[k] && t[k] <= 'Z') || ('0' <= t[k]
        && t[k] <= '9') || t[k] == '_' || t[k] == ':' || t[k] == '$' || t[k] == '.' || t[k] == '-')
        invariant
            i <= k <= t@.len(),
            tag_name_end(t@, i as int) == tag_name_end(t@, k as int),
        decreases t@.len() - k,
    {
        k = k + 1;
    }
    k
}

fn attr_name_end_exec(t: &[char], i: usize) -> (r: usize)
    requires
        i <= t@.len(),
    ensures
        r == attr_name_end(t@, i as int),
        i <= r <= t@.len(),
{
    let mut k = i;
    while k < t.len() && !crate::text::is_ascii_whitespace(t[k]) && t[k] != '=' && t[k] != '>' && t[k]
        != '/' && t[k] != '{' && t[k] != '}'
        invariant
            i <= k <= t@.len(),
            attr_name_end(t@, i as int) == attr_name_end(t@, k as int),
        decreases t@.len() - k,
    {
        k = k + 1;
    }
    k
}

fn bare_value_end_exec(t: &[char], i: usize) -> (r: usize)
    requires
        i <= t@.len(),
    ensures
        r == bare_value_end(t@, i as int),
        i <= r <= t@.len(),
{
    let mut k = i;
    while k < t.len() && !(crate::text::is_ascii_whitespace(t[k]) || t[k] == '>' || t[k] == '/')
        invariant
            i <= k <= t@.len(),
            bare_value_end(t@, i as int) == bare_value_end(t@, k as int),
        decreases t@.len() - k,
    {
        k = k + 1;
    }
    k
}

/// Whether `t[lo..hi]` is an ASCII JavaScript identifier.
fn is_identifier_range(t: &[char], lo: usize, hi: usize) -> (r: bool)
    requires
        lo <= hi <= t@.len(),
    ensures
        r == is_identifier_name(t@.subrange(lo as int, hi as int)),
{
    let ghost s = t@.subrange(lo as int, hi as int);
    if lo >= hi {
        return false;
    }
    let c = t[lo];
    if !(c == '_' || c == '$' || ('a' <= c && c <= 'z') || ('A' <= c && c <= 'Z')) {
        assert(s[0] == c);
        return false;
    }
    let mut k = lo + 1;
    while k < hi
        invariant
            lo < k <= hi <= t@.len(),
            s == t@.subrange(lo as int, hi as int),
            forall|j: int| 1 <= j < k - lo ==> is_ident_part(#[trigger] s[j]),
        decreases hi - k,
    {
        let c = t[k];
        if !(c == '_' || c == '$' || ('a' <= c && c <= 'z') || ('A' <= c && c <= 'Z') || ('0' <= c && c <= '9')) {
            assert(s[k - lo] == c);
            return false;
        }
        k = k + 1;
    }
    true
}

/// Appends to `acc` the `${...}` interpolations of the template literal whose
/// characters, scanned from `i`, end at `end`.
fn push_interpolations(t: &[char], i: usize, end: usize, acc: &mut Vec<(usize, usize)>)
    requires
        i <= end <= t@.len(),
        forall|k: int| 0 <= k < old(acc)@.len() ==> (#[trigger] old(acc)@[k]).1 <= t@.len(),
    ensures
        final(acc)@ == interpolations(t@, i as int, end as int, old(acc)@),
        forall|k: int| 0 <= k < final(acc)@.len() ==> (#[trigger] final(acc)@[k]).1 <= t@.len(),
{
    let dollar = chars_of("${");
    proof {
        reveal_strlit("${");
    }
    let mut k = i;
    while k < end && end - k >= 2
        invariant
            k <= end <= t@.len(),
            dollar@ == "${"@,
            interpolations(t@, i as int, end as int, old(acc)@) == interpolations(t@, k as int, end as int, acc@),
            forall|j: int| 0 <= j < acc@.len() ==> (#[trigger] acc@[j]).1 <= t@.len(),
        decreases end - k,
    {
        if starts_with_at(t, k, dollar.as_slice()) {
            match balanced_brace_end_exec(t, k + 1) {
                Some(e) => {
                    proof {
                        lemma_brace_after(t@, k + 2, 1);
                    }
                    acc.push((k + 2, e - 1));
                    if e >= end || end - e <= 1 {
                        return;
                    }
                    k = e;
                },
                None => {
                    k = k + 1;
                },
            }
        } else {
            k = k + 1;
        }
    }
}

/// The element of the opening tag at `start`, where the tag ends, and the
/// expressions inside it.
pub fn parse_opening_tag(t: &[char], start: usize) -> (r: Option<(Element, usize, Vec<(usize, usize)>)>)
    ensures
        r is Some <==> open_tag(t@, start as int) is Some,
        r matches Some(x) ==> open_tag(t@, start as int) == Some((x.0@, x.1 as int, x.2@)),
        r matches Some(x) ==> start < x.0.name_start <= x.0.name_end <= t@.len() && x.0.open_end == x.1
            && start < x.1 <= t@.len() && x.0.open_start == start,
        r matches Some(x) ==> element_wf(x.0@, t@.len() as int),
        r matches Some(x) ==> forall|k: int| 0 <= k < x.2@.len() ==> (#[trigger] x.2@[k]).1 <= t@.len(),
{
    let lt = chars_of("<");
    let close = chars_of("</");
    let bang = chars_of("<!");
    let quest = chars_of("<?");
    let empty = chars_of("<>");
    let self_close = chars_of("/>");
    let n = t.len();
    proof {
        reveal_strlit("<");
        reveal_strlit("/>");
    }
    if !starts_with_at(t, start, lt.as_slice()) || starts_with_at(t, start, close.as_slice())
        || starts_with_at(t, start, bang.as_slice()) || starts_with_at(t, start, quest.as_slice())
        || starts_with_at(t, start, empty.as_slice()) {
        return None;
    }
    let name_end = tag_name_end_exec(t, start + 1);
    if name_end == start + 1 {
        return None;
    }
    let mut attrs: Vec<Attr> = Vec::new();
    let mut exprs: Vec<(usize, usize)> = Vec::new();
    let mut i = name_end;
    loop
        invariant
            n == t@.len(),
            start < name_end <= i <= n,
            self_close@ == "/>"@,
            "/>"@.len() == 2,
            open_tag(t@, start as int) == open_tag_from(t@, start as int, name_end as int, i as int, attrs@, exprs@),
            forall|k: int| 0 <= k < attrs@.len() ==> attr_wf(#[trigger] attrs@[k], start as int, i as int),
            forall|k: int| 0 <= k < exprs@.len() ==> (#[trigger] exprs@[k]).1 <= n,
        decreases n - i,
    {
        let c = skip_ascii_whitespace(t, i);
        if c >= n {
            return None;
        }
        if starts_with_at(t, c, self_close.as_slice()) {
            let element = Element {
                name_start: start + 1,
                name_end,
                open_start: start,
                open_end: c + 2,
                attrs,
                self_closing: true,
                closing: None,
                children: None,
            };
            return Some((element, c + 2, exprs));
        }
        if t[c] == '>' {
            let element = Element {
                name_start: start + 1,
                name_end,
                open_start: start,
                open_end: c + 1,
                attrs,
                self_closing: false,
                closing: None,
                children: None,
            };
            return Some((element, c + 1, exprs));
        }
        if t[c] == '{' {
            let end = match balanced_brace_end_exec(t, c) {
                Some(end) => end,
                None => {
                    return None;
                },
            };
            proof {
                lemma_brace_after(t@, c + 1, 1);
            }
            let (lo, hi) = trim_range(t, c + 1, end - 1);
            if is_identifier_range(t, lo, hi) {
                let inner = slice_to_vec(t, c + 1, end - 1);
                let name = slice_to_vec(t, lo, hi);
                let rel = match find_chars(inner.as_slice(), name.as_slice(), 0) {
                    Some(rel) => rel,
                    None => {
                        return None;
                    },
                };
                let attr = Attr {
                    name_start: c + 1 + rel,
                    name_end: c + 1 + rel + name.len(),
                    start: c,
                    end,
                    shorthand: true,
                    value: Some(AttrValue { start: c + 1, end: end - 1, kind: ValueKind::Expression }),
                };
                attrs.push(attr);
                exprs.push((c + 1, end - 1));
            }
            i = end;
            continue;
        }
        let n_end = attr_name_end_exec(t, c);
        if n_end <= c {
            i = c + 1;
            continue;
        }
        let after = skip_ascii_whitespace(t, n_end);
        if after < n && t[after] == '=' {
            let v = skip_ascii_whitespace(t, after + 1);
            if v >= n {
                return None;
            }
            if t[v] == '{' {
                let e = match balanced_brace_end_exec(t, v) {
                    Some(e) => e,
                    None => {
                        return None;
                    },
                };
                proof {
                    lemma_brace_after(t@, v + 1, 1);
                }
                attrs.push(Attr {
                    name_start: c,
                    name_end: n_end,
                    start: c,
                    end: e,
                    shorthand: false,
                    value: Some(AttrValue { start: v, end: e, kind: ValueKind::Expression }),
                });
                exprs.push((v + 1, e - 1));
                i = e;
            } else if t[v] == '`' {
                let e = match quoted_end_exec(t, v, '`') {
                    Some(e) => e,
                    None => {
                        return None;
                    },
                };
                proof {
                    lemma_quoted_end_after(t@, v + 1, '`');
                }
                attrs.push(Attr {
                    name_start: c,
                    name_end: n_end,
                    start: c,
                    end: e,
                    shorthand: false,
                    value: Some(AttrValue { start: v, end: e, kind: ValueKind::Template }),
                });
                push_interpolations(t, v + 1, e, &mut exprs);
                i = e;
            } else if t[v] == '\'' || t[v] == '"' {
                let e = match quoted_end_exec(t, v, t[v]) {
                    Some(e) => e,
                    None => {
                        return None;
                    },
                };
                proof {
                    lemma_quoted_end_after(t@, v + 1, t@[v as int]);
                }
                attrs.push(Attr {
                    name_start: c,
                    name_end: n_end,
                    start: c,
                    end: e,
                    shorthand: false,
                    value: Some(AttrValue { start: v, end: e, kind: ValueKind::Other }),
                });
                i = e;
            } else {
                let e = bare_value_end_exec(t, v);
                attrs.push(Attr {
                    name_start: c,
                    name_end: n_end,
                    start: c,
                    end: e,
                    shorthand: false,
                    value: Some(AttrValue { start: v, end: e, kind: ValueKind::Other }),
                });
                i = e;
            }
        } else {
            attrs.push(Attr { name_start: c, name_end: n_end, start: c, end: after, shorthand: false, value: None });
            i = after;
        }
    }
}

/// The closing tag at `start`: its name's range and its own range.
pub fn parse_closing_tag(t: &[char], start: usize) -> (r: Option<((usize, usize), (usize, usize))>)
    requires
        start + 2 <= t@.len(),
    ensures
        r == close_tag(t@, start as int),
        r matches Some(x) ==> start + 2 == x.0.0 <= x.0.1 <= x.1.1 <= t@.len() && x.1.0 == start
            && start < x.1.1,
{
    let n = t.len();
    let name_end = tag_name_end_exec(t, start + 2);
    let c = skip_ascii_whitespace(t, name_end);
    if name_end == start + 2 || c >= t.len() || t[c] != '>' {
        return None;
    }
    Some(((start + 2, name_end), (start, c + 1)))
}

} // verus!
