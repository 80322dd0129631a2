//! The template body of an Astro file: its elements (opening tags matched
//! with closing tags) and the character ranges of its `{expressions}`.
use vstd::prelude::*;
use crate::text::{find_from, chars_of, find_chars, slice_eq};
use super::lexical::{starts_at, starts_with_at, balanced_brace_end, balanced_brace_end_exec, lemma_brace_after};
use super::tags::{Element, ElementView, element_wf, open_tag, close_tag, parse_opening_tag, parse_closing_tag};

verus! {

/// The state of the template scan: the elements seen, the indices of those
/// still open (innermost last), and the expressions found.
pub struct TemplateView {
    pub elements: Seq<ElementView>,
    pub stack: Seq<usize>,
    pub exprs: Seq<(usize, usize)>,
}

/// The tag name of element `e` of `t`.
pub open spec fn tag_name(t: Seq<char>, e: ElementView) -> Seq<char> {
    t.subrange(e.name_start, e.name_end)
}

/// The position, among the first `k` entries of `stack`, of the innermost
/// open element named `name`.
pub open spec fn innermost_named(t: Seq<char>, elements: Seq<ElementView>, stack: Seq<usize>, name: Seq<char>, k: int) -> Option<int>
    decreases k,
{
    if k <= 0 {
        None
    } else if tag_name(t, elements[stack[k - 1] as int]) == name {
        Some(k - 1)
    } else {
        innermost_named(t, elements, stack, name, k - 1)
    }
}

/// Where an HTML comment opened at `i` ends.
pub open spec fn html_comment_end(t: Seq<char>, i: int) -> int {
    match find_from(t, "-->"@, i + 4) {
        Some(k) => k + 3,
        None => t.len() as int,
    }
}

/// Closing, by the tag `close` at `name`, the innermost open element of that
/// name; nothing changes when none is open.
pub open spec fn close_element(t: Seq<char>, st: TemplateView, name: (usize, usize), close: (usize, usize)) -> TemplateView {
    match innermost_named(t, st.elements, st.stack, t.subrange(name.0 as int, name.1 as int), st.stack.len() as int) {
        Some(p) => {
            let index = st.stack[p] as int;
            let e = st.elements[index];
            TemplateView {
                elements: st.elements.update(
                    index,
                    ElementView { closing: Some(close), children: Some((e.open_end as usize, close.0)), ..e },
                ),
                stack: st.stack.take(p),
                exprs: st.exprs,
            }
        },
        None => st,
    }
}

/// The template scan of `t` from `i` on, after state `st`.
pub open spec fn template_from(t: Seq<char>, i: int, st: TemplateView) -> TemplateView
    decreases t.len() - i,
{
    if i < 0 || i >= t.len() {
        st
    } else if starts_at(t, i, "<!--"@) {
        let next = html_comment_end(t, i);
        if i < next <= t.len() {
            template_from(t, next, st)
        } else {
            st
        }
    } else if t[i] == '{' && balanced_brace_end(t, i) is Some {
        let end = balanced_brace_end(t, i)->0;
        let found = if end > i + 2 {
            TemplateView { exprs: st.exprs.push(((i + 1) as usize, (end - 1) as usize)), ..st }
        } else {
            st
        };
        if i < end <= t.len() {
            template_from(t, end, found)
        } else {
            st
        }
    } else if t[i] == '<' && starts_at(t, i, "</"@) && close_tag(t, i) is Some {
        let (name, close) = close_tag(t, i)->0;
        if i < close.1 <= t.len() {
            template_from(t, close.1 as int, close_element(t, st, name, close))
        } else {
            st
        }
    } else if t[i] == '<' && !starts_at(t, i, "</"@) && open_tag(t, i) is Some {
        let (e, end, exprs) = open_tag(t, i)->0;
        let opened = TemplateView {
            elements: st.elements.push(e),
            stack: if e.self_closing {
                st.stack
            } else {
                st.stack.push(st.elements.len() as usize)
            },
            exprs: st.exprs + exprs,
        };
        if i < end <= t.len() {
            template_from(t, end, opened)
        } else {
            st
        }
    } else {
        template_from(t, i + 1, st)
    }
}

/// The elements and expressions of the template of `t` starting at `body`.
pub open spec fn template_of(t: Seq<char>, body: int) -> TemplateView {
    template_from(t, body, TemplateView { elements: Seq::empty(), stack: Seq::empty(), exprs: Seq::empty() })
}

pub open spec fn elements_view(v: Seq<Element>) -> Seq<ElementView> {
    v.map_values(|e: Element| e@)
}

/// The innermost open element whose tag name is `t[name.0..name.1]`.
fn find_innermost(t: &[char], elements: &Vec<Element>, stack: &Vec<usize>, name: (usize, usize)) -> (r: Option<usize>)
    requires
        name.0 <= name.1 <= t@.len(),
        forall|k: int| 0 <= k < stack@.len() ==> (#[trigger] stack@[k]) < elements@.len(),
        forall|j: int| 0 <= j < elements@.len() ==> (#[trigger] elements@[j]).name_start <= elements@[j].name_end <= t@.len(),
    ensures
        r matches Some(p) ==> innermost_named(t@, elements_view(elements@), stack@, t@.subrange(name.0 as int, name.1 as int), stack@.len() as int) == Some(p as int) && p < stack@.len(),
        r is None ==> innermost_named(t@, elements_view(elements@), stack@, t@.subrange(name.0 as int, name.1 as int), stack@.len() as int) is None,
{
    let target = crate::text::slice_to_vec(t, name.0, name.1);
    let mut k = stack.len();
    while k > 0
        invariant
            k <= stack@.len(),
            target@ == t@.subrange(name.0 as int, name.1 as int),
            forall|j: int| 0 <= j < stack@.len() ==> (#[trigger] stack@[j]) < elements@.len(),
            forall|j: int| 0 <= j < elements@.len() ==> (#[trigger] elements@[j]).name_start <= elements@[j].name_end <= t@.len(),
            innermost_named(t@, elements_view(elements@), stack@, target@, stack@.len() as int)
                == innermost_named(t@, elements_view(elements@), stack@, target@, k as int),
        decreases k,
    {
        let e = &elements[stack[k - 1]];
        if slice_eq(t, e.name_start, e.name_end, target.as_slice()) {
            return Some(k - 1);
        }
        k = k - 1;
    }
    None
}

/// Scans the template of `t` from `body` on: its elements, with opening
/// tags matched to closing tags, and its expressions.
pub fn scan_template(t: &[char], body: usize) -> (r: (Vec<Element>, Vec<(usize, usize)>))
    ensures
        elements_view(r.0@) == template_of(t@, body as int).elements,
        r.1@ == template_of(t@, body as int).exprs,
        forall|j: int| 0 <= j < r.0@.len() ==> element_wf((#[trigger] r.0@[j])@, t@.len() as int),
{
    let n = t.len();
    let comment_open = chars_of("<!--");
    let comment_close = chars_of("-->");
    let end_tag = chars_of("</");
    proof {
        reveal_strlit("<!--");
        reveal_strlit("-->");
        reveal_strlit("</");
    }
    let mut elements: Vec<Element> = Vec::new();
    let mut stack: Vec<usize> = Vec::new();
    let mut exprs: Vec<(usize, usize)> = Vec::new();
    let mut i = body;
    assert(elements_view(elements@) =~= Seq::<ElementView>::empty());
    while i < n
        invariant
            n == t@.len(),
            comment_open@ == "<!--"@,
            comment_close@ == "-->"@,
            end_tag@ == "</"@,
            "<!--"@.len() == 4,
            "-->"@.len() == 3,
            "</"@.len() == 2,
            forall|k: int| 0 <= k < stack@.len() ==> (#[trigger] stack@[k]) < elements@.len(),
            forall|j: int| 0 <= j < elements@.len() ==> (#[trigger] elements@[j]).name_start <= elements@[j].name_end <= t@.len()
                && elements@[j].open_end <= t@.len(),
            forall|j: int| 0 <= j < elements@.len() ==> element_wf((#[trigger] elements@[j])@, n as int)
                && elements@[j].open_end <= i,
            template_of(t@, body as int) == template_from(
                t@,
                i as int,
                TemplateView { elements: elements_view(elements@), stack: stack@, exprs: exprs@ },
            ),
        decreases n - i,
    {
        if starts_with_at(t, i, comment_open.as_slice()) {
            i = match find_chars(t, comment_close.as_slice(), i + 4) {
                Some(k) => k + 3,
                None => n,
            };
            continue;
        }
        if t[i] == '{' {
            match balanced_brace_end_exec(t, i) {
                Some(end) => {
                    proof {
                        lemma_brace_after(t@, i + 1, 1);
                    }
                    if end > i + 2 {
                        exprs.push((i + 1, end - 1));
                    }
                    i = end;
                    continue;
                },
                None => {},
            }
        }
        if t[i] == '<' {
            if starts_with_at(t, i, end_tag.as_slice()) {
                match parse_closing_tag(t, i) {
                    Some((name, close)) => {
                        let ghost before = TemplateView { elements: elements_view(elements@), stack: stack@, exprs: exprs@ };
                        match find_innermost(t, &elements, &stack, name) {
                            Some(p) => {
                                let index = stack[p];
                                let open_end = elements[index].open_end;
                                elements[index].closing = Some(close);
                                elements[index].children = Some((open_end, close.0));
                                stack.truncate(p);
                                proof {
                                    let after = TemplateView { elements: elements_view(elements@), stack: stack@, exprs: exprs@ };
                                    assert(after.elements =~= close_element(t@, before, name, close).elements);
                                    assert(after.stack =~= close_element(t@, before, name, close).stack);
                                }
                            },
                            None => {},
                        }
                        i = close.1;
                        continue;
                    },
                    None => {},
                }
            } else {
                match parse_opening_tag(t, i) {
                    Some((element, end, found)) => {
                        let ghost before = TemplateView { elements: elements_view(elements@), stack: stack@, exprs: exprs@ };
                        let self_closing = element.self_closing;
                        let mut found = found;
                        exprs.append(&mut found);
                        elements.push(element);
                        if !self_closing {
                            stack.push(elements.len() - 1);
                        }
                        proof {
                            assert(elements_view(elements@) =~= before.elements.push(elements@.last()@));
                        }
                        i = end;
                        continue;
                    },
                    None => {},
                }
            }
        }
        i = i + 1;
    }
    (elements, exprs)
}

} // verus!
