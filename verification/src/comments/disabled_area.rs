//! The disabled-area bookkeeping: walks the directive comments of a file in
//! source order and records the disabled regions, duplicate `eslint-disable`
//! directives, unused `eslint-enable` directives, and how many disables each
//! enable closes.
use vstd::prelude::*;
use crate::comments::directive::{
    directive_of_comment, parse_directive_comment, same_directive, DirectiveView,
};
use crate::comments::loc::{location_fits, lte, spec_lte, Position};
use crate::comments::{Comment, CommentView};
use crate::text::{chars_eq_str, chars_of, is_whitespace, is_ws, string_from};

verus! {

/// Whether a disabled area came from a block (`eslint-disable`) or line
/// (`eslint-disable-line` / `-next-line`) directive.
#[derive(Clone, Copy, Debug, PartialEq, Eq, Structural)]
pub enum AreaKind {
    Block,
    Line,
}

/// A disabled region opened by a disable directive and (maybe) closed by an enable.
#[derive(Debug)]
pub struct Area {
    /// Index into the input comments of the directive that opened the area.
    pub comment: usize,
    /// The rule the area disables, or `None` for "all rules".
    pub rule_id: Option<String>,
    pub kind: AreaKind,
    pub start: Position,
    pub end: Option<Position>,
}

/// A reference to a directive comment plus the rule it concerns.
#[derive(Debug)]
pub struct DirectiveRef {
    pub comment: usize,
    pub rule_id: Option<String>,
}

/// The bookkeeping result for a file.
#[derive(Debug)]
pub struct DisabledArea {
    pub areas: Vec<Area>,
    pub duplicate_disable_directives: Vec<DirectiveRef>,
    pub unused_enable_directives: Vec<DirectiveRef>,
    /// `(enable comment index, number of disables it closed)`, in source order.
    pub related_counts: Vec<(usize, u32)>,
}

pub struct AreaView {
    pub comment: usize,
    pub rule_id: Option<Seq<char>>,
    pub kind: AreaKind,
    pub start: Position,
    pub end: Option<Position>,
}

pub struct RefView {
    pub comment: usize,
    pub rule_id: Option<Seq<char>>,
}

pub struct StateView {
    pub areas: Seq<AreaView>,
    pub duplicates: Seq<RefView>,
    pub unused: Seq<RefView>,
    pub related: Seq<(usize, u32)>,
}

pub open spec fn opt_view(o: Option<String>) -> Option<Seq<char>> {
    match o {
        Some(s) => Some(s@),
        None => None,
    }
}

impl View for Area {
    type V = AreaView;

    open spec fn view(&self) -> AreaView {
        AreaView {
            comment: self.comment,
            rule_id: opt_view(self.rule_id),
            kind: self.kind,
            start: self.start,
            end: self.end,
        }
    }
}

impl View for DirectiveRef {
    type V = RefView;

    open spec fn view(&self) -> RefView {
        RefView { comment: self.comment, rule_id: opt_view(self.rule_id) }
    }
}

pub open spec fn areas_view(v: Seq<Area>) -> Seq<AreaView> {
    v.map_values(|a: Area| a@)
}

pub open spec fn refs_view(v: Seq<DirectiveRef>) -> Seq<RefView> {
    v.map_values(|r: DirectiveRef| r@)
}

impl View for DisabledArea {
    type V = StateView;

    open spec fn view(&self) -> StateView {
        StateView {
            areas: areas_view(self.areas@),
            duplicates: refs_view(self.duplicate_disable_directives@),
            unused: refs_view(self.unused_enable_directives@),
            related: self.related_counts@,
        }
    }
}

pub open spec fn empty_state() -> StateView {
    StateView {
        areas: Seq::empty(),
        duplicates: Seq::empty(),
        unused: Seq::empty(),
        related: Seq::empty(),
    }
}

/// An area of rule `area_rule` concerns `rule`: a global area concerns every rule.
pub open spec fn rule_matches(area_rule: Option<Seq<char>>, rule: Option<Seq<char>>) -> bool {
    area_rule is None || area_rule == rule
}

/// `a` is open at `location` for `rule`.
pub open spec fn covers(a: AreaView, rule: Option<Seq<char>>, location: Position) -> bool {
    &&& rule_matches(a.rule_id, rule)
    &&& spec_lte(a.start, location)
    &&& (a.end matches Some(e) ==> spec_lte(location, e))
}

pub open spec fn has_open_area(areas: Seq<AreaView>, rule: Option<Seq<char>>, location: Position) -> bool {
    exists|i: int| 0 <= i < areas.len() && covers(#[trigger] areas[i], rule, location)
}

/// Open an area for one rule (or all rules), noting a duplicate when an open
/// area already covers the location.
pub open spec fn disable_one(
    st: StateView,
    comment: usize,
    location: Position,
    rule: Option<Seq<char>>,
    kind: AreaKind,
) -> StateView {
    StateView {
        areas: st.areas.push(
            AreaView { comment, rule_id: rule, kind, start: location, end: None },
        ),
        duplicates: if has_open_area(st.areas, rule, location) {
            st.duplicates.push(RefView { comment, rule_id: rule })
        } else {
            st.duplicates
        },
        ..st
    }
}

pub open spec fn disable_rules(
    st: StateView,
    comment: usize,
    location: Position,
    rules: Seq<Seq<char>>,
    kind: AreaKind,
) -> StateView
    decreases rules.len(),
{
    if rules.len() == 0 {
        st
    } else {
        disable_one(
            disable_rules(st, comment, location, rules.drop_last(), kind),
            comment,
            location,
            Some(rules.last()),
            kind,
        )
    }
}

pub open spec fn disable(
    st: StateView,
    comment: usize,
    location: Position,
    rules: Option<Seq<Seq<char>>>,
    kind: AreaKind,
) -> StateView {
    match rules {
        Some(rules) => disable_rules(st, comment, location, rules, kind),
        None => disable_one(st, comment, location, None, kind),
    }
}

/// An enable of `rule` (or of all rules) of `kind` closes `a`.
pub open spec fn closes(a: AreaView, rule: Option<Seq<char>>, kind: AreaKind) -> bool {
    &&& a.end is None
    &&& a.kind == kind
    &&& (rule matches Some(r) ==> a.rule_id == Some(r))
}

pub open spec fn close_area(a: AreaView, rule: Option<Seq<char>>, kind: AreaKind, location: Position) -> AreaView {
    if closes(a, rule, kind) {
        AreaView { end: Some(location), ..a }
    } else {
        a
    }
}

/// Close every area the enable closes, noting it as unused when none is.
pub open spec fn enable_one(
    st: StateView,
    comment: usize,
    location: Position,
    rule: Option<Seq<char>>,
    kind: AreaKind,
) -> StateView {
    StateView {
        areas: st.areas.map_values(|a: AreaView| close_area(a, rule, kind, location)),
        unused: if exists|i: int| 0 <= i < st.areas.len() && closes(#[trigger] st.areas[i], rule, kind) {
            st.unused
        } else {
            st.unused.push(RefView { comment, rule_id: rule })
        },
        ..st
    }
}

pub open spec fn enable_rules(
    st: StateView,
    comment: usize,
    location: Position,
    rules: Seq<Seq<char>>,
    kind: AreaKind,
) -> StateView
    decreases rules.len(),
{
    if rules.len() == 0 {
        st
    } else {
        enable_one(
            enable_rules(st, comment, location, rules.drop_last(), kind),
            comment,
            location,
            Some(rules.last()),
            kind,
        )
    }
}

/// The comments of the areas that were open in `before` and are closed in `after`.
pub open spec fn closed_comments(before: Seq<AreaView>, after: Seq<AreaView>) -> Set<usize> {
    Set::new(
        |c: usize|
            exists|j: int|
                0 <= j < before.len() && j < after.len() && (#[trigger] before[j]).end is None
                    && after[j].end is Some && before[j].comment == c,
    )
}

/// Close the areas an enable directive closes and record how many distinct
/// disable directives it closed.
pub open spec fn enable(
    st: StateView,
    comment: usize,
    location: Position,
    rules: Option<Seq<Seq<char>>>,
    kind: AreaKind,
) -> StateView {
    let after = match rules {
        Some(rules) => enable_rules(st, comment, location, rules, kind),
        None => enable_one(st, comment, location, None, kind),
    };
    StateView {
        related: after.related.push((comment, closed_comments(st.areas, after.areas).len() as u32)),
        ..after
    }
}

/// A rule-id separator in a directive value: whitespace or a comma.
pub open spec fn is_value_sep(c: char) -> bool {
    is_ws(c) || c == ','
}

/// The non-empty runs of non-separator characters of `v`, in order.
pub open spec fn words(v: Seq<char>) -> Seq<Seq<char>>
    decreases v.len(),
{
    if v.len() == 0 {
        Seq::empty()
    } else {
        let prev = words(v.drop_last());
        let c = v.last();
        if is_value_sep(c) {
            prev
        } else if v.len() == 1 || is_value_sep(v[v.len() - 2]) {
            prev.push(seq![c])
        } else {
            prev.update(prev.len() - 1, prev.last().push(c))
        }
    }
}

/// The rule ids of a directive value, or `None` when it concerns all rules.
pub open spec fn rule_ids_of(value: Seq<char>) -> Option<Seq<Seq<char>>> {
    if words(value).len() == 0 {
        None
    } else {
        Some(words(value))
    }
}

/// Process the directive comment at `index`.
pub open spec fn step(st: StateView, index: usize, c: CommentView) -> StateView {
    let same_line = c.loc.start.line == c.loc.end.line;
    match directive_of_comment(c.kind, c.value, same_line) {
        None => st,
        Some(d) => {
            let ids = rule_ids_of(d.value);
            let line = c.loc.start.line;
            if d.kind == "eslint-disable"@ {
                disable(st, index, c.loc.start, ids, AreaKind::Block)
            } else if d.kind == "eslint-enable"@ {
                enable(st, index, c.loc.start, ids, AreaKind::Block)
            } else if d.kind == "eslint-disable-line"@ {
                enable(
                    disable(st, index, Position { line, column: 0 }, ids, AreaKind::Line),
                    index,
                    Position { line: (line + 1) as u32, column: -1i32 },
                    ids,
                    AreaKind::Line,
                )
            } else if d.kind == "eslint-disable-next-line"@ {
                enable(
                    disable(
                        st,
                        index,
                        Position { line: (line + 1) as u32, column: 0 },
                        ids,
                        AreaKind::Line,
                    ),
                    index,
                    Position { line: (line + 2) as u32, column: -1i32 },
                    ids,
                    AreaKind::Line,
                )
            } else {
                st
            }
        },
    }
}

/// The bookkeeping for a file's comments.
pub open spec fn build(comments: Seq<CommentView>) -> StateView
    decreases comments.len(),
{
    if comments.len() == 0 {
        empty_state()
    } else {
        step(build(comments.drop_last()), (comments.len() - 1) as usize, comments.last())
    }
}

/// Every area and directive reference of `st` comes from a comment before `n`.
pub open spec fn comments_below(st: StateView, n: int) -> bool {
    &&& forall|i: int| 0 <= i < st.areas.len() ==> (#[trigger] st.areas[i]).comment < n
    &&& forall|i: int| 0 <= i < st.duplicates.len() ==> (#[trigger] st.duplicates[i]).comment < n
    &&& forall|i: int| 0 <= i < st.unused.len() ==> (#[trigger] st.unused[i]).comment < n
    &&& forall|i: int| 0 <= i < st.related.len() ==> (#[trigger] st.related[i]).0 < n
}

pub proof fn lemma_usize_below(n: usize)
    ensures
        Set::new(|c: usize| c < n).finite(),
        Set::new(|c: usize| c < n).len() == n,
    decreases n,
{
    if n == 0 {
        assert(Set::new(|c: usize| c < n) =~= Set::<usize>::empty());
    } else {
        lemma_usize_below((n - 1) as usize);
        assert(Set::new(|c: usize| c < n) =~= Set::new(|c: usize| c < (n - 1) as usize).insert(
            (n - 1) as usize,
        ));
    }
}

fn clone_opt(o: &Option<String>) -> (r: Option<String>)
    ensures
        opt_view(r) == opt_view(*o),
{
    match o {
        Some(s) => Some(s.clone()),
        None => None,
    }
}

fn opt_eq(a: &Option<String>, b: Option<&String>) -> (r: bool)
    ensures
        r == (opt_view(*a) == match b {
            Some(s) => Some(s@),
            None => None::<Seq<char>>,
        }),
{
    match (a, b) {
        (None, None) => true,
        (Some(x), Some(y)) => *x == *y,
        _ => false,
    }
}

pub open spec fn rules_view(v: Seq<String>) -> Seq<Seq<char>> {
    v.map_values(|s: String| s@)
}

pub open spec fn opt_rules_view(o: Option<&Vec<String>>) -> Option<Seq<Seq<char>>> {
    match o {
        Some(v) => Some(rules_view(v@)),
        None => None,
    }
}

pub open spec fn opt_vec_rules(o: Option<Vec<String>>) -> Option<Seq<Seq<char>>> {
    match o {
        Some(v) => Some(rules_view(v@)),
        None => None,
    }
}

pub open spec fn opt_ref_view(o: Option<&String>) -> Option<Seq<char>> {
    match o {
        Some(s) => Some(s@),
        None => None,
    }
}

impl DisabledArea {
    pub fn new() -> (r: DisabledArea)
        ensures
            r@ == empty_state(),
    {
        let r = DisabledArea {
            areas: Vec::new(),
            duplicate_disable_directives: Vec::new(),
            unused_enable_directives: Vec::new(),
            related_counts: Vec::new(),
        };
        assert(r@.areas =~= Seq::<AreaView>::empty());
        assert(r@.duplicates =~= Seq::<RefView>::empty());
        assert(r@.unused =~= Seq::<RefView>::empty());
        r
    }

    /// Index of the most recent open area covering `location` for `rule_id`
    /// (matching a global `None` area or one with the same rule).
    fn open_area_at(&self, rule_id: Option<&String>, location: Position) -> (r: Option<usize>)
        ensures
            r is Some <==> has_open_area(self@.areas, opt_ref_view(rule_id), location),
            r matches Some(i) ==> i < self@.areas.len() && covers(
                self@.areas[i as int],
                opt_ref_view(rule_id),
                location,
            ),
    {
        let mut i = self.areas.len();
        while i > 0
            invariant
                0 <= i <= self.areas@.len(),
                forall|j: int|
                    i <= j < self@.areas.len() ==> !covers(
                        #[trigger] self@.areas[j],
                        opt_ref_view(rule_id),
                        location,
                    ),
            decreases i,
        {
            i -= 1;
            let area = &self.areas[i];
            let rule_ok = area.rule_id.is_none() || opt_eq(&area.rule_id, rule_id);
            let within = lte(area.start, location) && match area.end {
                None => true,
                Some(end) => lte(location, end),
            };
            assert(self@.areas[i as int] == area@);
            if rule_ok && within {
                return Some(i);
            }
        }
        None
    }

    fn disable_one(
        &mut self,
        comment: usize,
        location: Position,
        rule_id: Option<&String>,
        kind: AreaKind,
    )
        ensures
            final(self)@ == disable_one(old(self)@, comment, location, opt_ref_view(rule_id), kind),
    {
        if self.open_area_at(rule_id, location).is_some() {
            let r = match rule_id {
                Some(s) => Some(s.clone()),
                None => None,
            };
            self.duplicate_disable_directives.push(DirectiveRef { comment, rule_id: r });
        }
        let r = match rule_id {
            Some(s) => Some(s.clone()),
            None => None,
        };
        self.areas.push(Area { comment, rule_id: r, kind, start: location, end: None });
        assert(self@.areas =~= disable_one(
            old(self)@,
            comment,
            location,
            opt_ref_view(rule_id),
            kind,
        ).areas);
        assert(self@.duplicates =~= disable_one(
            old(self)@,
            comment,
            location,
            opt_ref_view(rule_id),
            kind,
        ).duplicates);
    }

    fn disable(
        &mut self,
        comment: usize,
        location: Position,
        rule_ids: Option<&Vec<String>>,
        kind: AreaKind,
    )
        ensures
            final(self)@ == disable(old(self)@, comment, location, opt_rules_view(rule_ids), kind),
    {
        match rule_ids {
            Some(rule_ids) => {
                let mut k: usize = 0;
                while k < rule_ids.len()
                    invariant
                        0 <= k <= rule_ids@.len(),
                        self@ == disable_rules(
                            old(self)@,
                            comment,
                            location,
                            rules_view(rule_ids@).take(k as int),
                            kind,
                        ),
                    decreases rule_ids.len() - k,
                {
                    assert(rules_view(rule_ids@).take(k + 1).drop_last() =~= rules_view(
                        rule_ids@,
                    ).take(k as int));
                    self.disable_one(comment, location, Some(&rule_ids[k]), kind);
                    k += 1;
                }
                assert(rules_view(rule_ids@).take(k as int) =~= rules_view(rule_ids@));
            },
            None => {
                self.disable_one(comment, location, None, kind);
            },
        }
    }

    /// Close the areas an enable of `rule_id` closes; `related` collects the
    /// distinct comments of the areas closed so far by this directive.
    fn enable_one(
        &mut self,
        comment: usize,
        location: Position,
        rule_id: Option<&String>,
        kind: AreaKind,
        related: &mut Vec<usize>,
        Ghost(before): Ghost<Seq<AreaView>>,
        Ghost(bound): Ghost<int>,
    )
        requires
            comment < bound,
            comments_below(old(self)@, bound),
            old(related)@.no_duplicates(),
            old(related)@.to_set() == closed_comments(before, old(self)@.areas),
            before.len() == old(self)@.areas.len(),
            forall|j: int|
                0 <= j < before.len() ==> (#[trigger] old(self)@.areas[j]).end is None
                    ==> before[j].end is None,
            forall|j: int|
                0 <= j < before.len() ==> (#[trigger] before[j]).comment == old(self)@.areas[j].comment,
        ensures
            final(self)@ == enable_one(old(self)@, comment, location, opt_ref_view(rule_id), kind),
            comments_below(final(self)@, bound),
            final(related)@.no_duplicates(),
            final(related)@.to_set() == closed_comments(before, final(self)@.areas),
            before.len() == final(self)@.areas.len(),
            forall|j: int|
                0 <= j < before.len() ==> (#[trigger] final(self)@.areas[j]).end is None
                    ==> before[j].end is None,
            forall|j: int|
                0 <= j < before.len() ==> (#[trigger] before[j]).comment == final(self)@.areas[j].comment,
    {
        let ghost start = self@;
        let ghost rule = opt_ref_view(rule_id);
        let ghost target = enable_one(start, comment, location, rule, kind);
        let mut used = false;
        let mut j: usize = 0;
        while j < self.areas.len()
            invariant
                0 <= j <= self.areas@.len(),
                self.areas@.len() == start.areas.len(),
                before.len() == start.areas.len(),
                target == enable_one(start, comment, location, rule, kind),
                rule == opt_ref_view(rule_id),
                self@.duplicates == start.duplicates,
                self@.unused == start.unused,
                self@.related == start.related,
                forall|k: int| 0 <= k < j ==> (#[trigger] self@.areas[k]) == target.areas[k],
                forall|k: int| j <= k < start.areas.len() ==> (#[trigger] self@.areas[k]) == start.areas[k],
                used == exists|k: int| 0 <= k < j && closes(#[trigger] start.areas[k], rule, kind),
                related@.no_duplicates(),
                related@.to_set() == closed_comments(before, self@.areas),
                forall|k: int|
                    0 <= k < before.len() ==> (#[trigger] start.areas[k]).end is None
                        ==> before[k].end is None,
                forall|k: int|
                    0 <= k < before.len() ==> (#[trigger] before[k]).comment
                        == start.areas[k].comment,
            decreases self.areas.len() - j,
        {
            let area = &self.areas[j];
            assert(self@.areas[j as int] == area@);
            let rule_ok = match rule_id {
                None => true,
                Some(r) => opt_eq(&area.rule_id, Some(r)),
            };
            if area.end.is_none() && area.kind == kind && rule_ok {
                let c = area.comment;
                let new_area = Area {
                    comment: c,
                    rule_id: clone_opt(&area.rule_id),
                    kind: area.kind,
                    start: area.start,
                    end: Some(location),
                };
                let ghost old_areas = self@.areas;
                let ghost old_related = related@;
                self.areas.set(j, new_area);
                assert(self@.areas =~= old_areas.update(j as int, new_area@));
                let mut present = false;
                let mut q: usize = 0;
                while q < related.len()
                    invariant
                        0 <= q <= related@.len(),
                        related@ == old_related,
                        present == exists|t: int| 0 <= t < q && related@[t] == c,
                    decreases related.len() - q,
                {
                    if related[q] == c {
                        present = true;
                    }
                    q += 1;
                }
                if !present {
                    related.push(c);
                }
                proof {
                    assert(closed_comments(before, self@.areas) =~= closed_comments(
                        before,
                        old_areas,
                    ).insert(c));
                    if !present {
                        assert(related@ == old_related.push(c));
                        old_related.lemma_push_to_set_commute(c);
                        assert(related@.no_duplicates()) by {
                            assert forall|a: int, b: int|
                                0 <= a < related@.len() && 0 <= b < related@.len() && a != b
                                    implies related@[a] != related@[b] by {
                                if a == related@.len() - 1 {
                                    assert(related@[b] == old_related[b]);
                                } else if b == related@.len() - 1 {
                                    assert(related@[a] == old_related[a]);
                                }
                            }
                        }
                    } else {
                        assert(related@ == old_related);
                        let t = choose|t: int| 0 <= t < related@.len() && related@[t] == c;
                        assert(old_related.contains(c));
                        assert(old_related.to_set().contains(c));
                        assert(related@.to_set() =~= old_related.to_set().insert(c));
                    }
                }
                used = true;
            }
            j += 1;
        }
        if !used {
            let r = match rule_id {
                Some(s) => Some(s.clone()),
                None => None,
            };
            self.unused_enable_directives.push(DirectiveRef { comment, rule_id: r });
        }
        assert(self@.areas =~= target.areas);
        assert(self@.unused =~= target.unused);
        assert forall|k: int| 0 <= k < self@.areas.len() implies (#[trigger] self@.areas[k]).comment
            < bound by {
            assert(self@.areas[k] == close_area(start.areas[k], rule, kind, location));
        }
    }

    fn enable(
        &mut self,
        comment: usize,
        location: Position,
        rule_ids: Option<&Vec<String>>,
        kind: AreaKind,
        bound: usize,
    )
        requires
            comment < bound,
            bound <= u32::MAX,
            comments_below(old(self)@, bound as int),
        ensures
            final(self)@ == enable(old(self)@, comment, location, opt_rules_view(rule_ids), kind),
            comments_below(final(self)@, bound as int),
    {
        let ghost before = self@.areas;
        let ghost start = self@;
        let mut related: Vec<usize> = Vec::new();
        assert(related@.to_set() =~= closed_comments(before, self@.areas));
        match rule_ids {
            Some(rule_ids) => {
                let mut k: usize = 0;
                while k < rule_ids.len()
                    invariant
                        0 <= k <= rule_ids@.len(),
                        self@ == enable_rules(
                            start,
                            comment,
                            location,
                            rules_view(rule_ids@).take(k as int),
                            kind,
                        ),
                        before == start.areas,
                        comment < bound,
                        comments_below(self@, bound as int),
                        comments_below(start, bound as int),
                        related@.no_duplicates(),
                        related@.to_set() == closed_comments(before, self@.areas),
                        before.len() == self@.areas.len(),
                        forall|j: int|
                            0 <= j < before.len() ==> (#[trigger] self@.areas[j]).end is None
                                ==> before[j].end is None,
                        forall|j: int|
                            0 <= j < before.len() ==> (#[trigger] before[j]).comment
                                == self@.areas[j].comment,
                    decreases rule_ids.len() - k,
                {
                    assert(rules_view(rule_ids@).take(k + 1).drop_last() =~= rules_view(
                        rule_ids@,
                    ).take(k as int));
                    self.enable_one(
                        comment,
                        location,
                        Some(&rule_ids[k]),
                        kind,
                        &mut related,
                        Ghost(before),
                        Ghost(bound as int),
                    );
                    k += 1;
                }
                assert(rules_view(rule_ids@).take(k as int) =~= rules_view(rule_ids@));
            },
            None => {
                self.enable_one(
                    comment,
                    location,
                    None,
                    kind,
                    &mut related,
                    Ghost(before),
                    Ghost(bound as int),
                );
            },
        }
        proof {
            related@.unique_seq_to_set();
            lemma_usize_below(bound);
            assert forall|c: usize| related@.to_set().contains(c) implies c < bound by {
                let j = choose|j: int|
                    0 <= j < before.len() && j < self@.areas.len() && (#[trigger] before[j]).end is None
                        && self@.areas[j].end is Some && before[j].comment == c;
                assert(start.areas[j].comment < bound);
            }
            assert(related@.to_set().subset_of(Set::new(|c: usize| c < bound)));
            vstd::set_lib::lemma_len_subset(related@.to_set(), Set::new(|c: usize| c < bound));
        }
        let count = related.len() as u32;
        let ghost mid = self@;
        self.related_counts.push((comment, count));
        proof {
            assert forall|i: int| 0 <= i < self@.related.len() implies (#[trigger] self@.related[i]).0
                < bound by {
                if i < mid.related.len() {
                    assert(self@.related[i] == mid.related[i]);
                }
            }
            assert(self@.areas == mid.areas);
            assert(self@.duplicates == mid.duplicates);
            assert(self@.unused == mid.unused);
        }
    }
}


pub proof fn lemma_disable_one_below(
    st: StateView,
    comment: usize,
    location: Position,
    rule: Option<Seq<char>>,
    kind: AreaKind,
    bound: int,
)
    requires
        comments_below(st, bound),
        comment < bound,
    ensures
        comments_below(disable_one(st, comment, location, rule, kind), bound),
{
    let r = disable_one(st, comment, location, rule, kind);
    assert forall|i: int| 0 <= i < r.areas.len() implies (#[trigger] r.areas[i]).comment < bound by {
        if i < st.areas.len() {
            assert(r.areas[i] == st.areas[i]);
        }
    }
    assert forall|i: int| 0 <= i < r.duplicates.len() implies (#[trigger] r.duplicates[i]).comment
        < bound by {
        if i < st.duplicates.len() {
            assert(r.duplicates[i] == st.duplicates[i]);
        }
    }
}

pub proof fn lemma_disable_below(
    st: StateView,
    comment: usize,
    location: Position,
    rules: Option<Seq<Seq<char>>>,
    kind: AreaKind,
    bound: int,
)
    requires
        comments_below(st, bound),
        comment < bound,
    ensures
        comments_below(disable(st, comment, location, rules, kind), bound),
{
    match rules {
        Some(rules) => lemma_disable_rules_below(st, comment, location, rules, kind, bound),
        None => lemma_disable_one_below(st, comment, location, None, kind, bound),
    }
}

pub proof fn lemma_disable_rules_below(
    st: StateView,
    comment: usize,
    location: Position,
    rules: Seq<Seq<char>>,
    kind: AreaKind,
    bound: int,
)
    requires
        comments_below(st, bound),
        comment < bound,
    ensures
        comments_below(disable_rules(st, comment, location, rules, kind), bound),
    decreases rules.len(),
{
    if rules.len() > 0 {
        lemma_disable_rules_below(st, comment, location, rules.drop_last(), kind, bound);
        lemma_disable_one_below(
            disable_rules(st, comment, location, rules.drop_last(), kind),
            comment,
            location,
            Some(rules.last()),
            kind,
            bound,
        );
    }
}

impl DisabledArea {
    fn disable_checked(
        &mut self,
        comment: usize,
        location: Position,
        rule_ids: Option<&Vec<String>>,
        kind: AreaKind,
        bound: usize,
    )
        requires
            comment < bound,
            comments_below(old(self)@, bound as int),
        ensures
            final(self)@ == disable(old(self)@, comment, location, opt_rules_view(rule_ids), kind),
            comments_below(final(self)@, bound as int),
    {
        proof {
            lemma_disable_below(
                self@,
                comment,
                location,
                opt_rules_view(rule_ids),
                kind,
                bound as int,
            );
        }
        self.disable(comment, location, rule_ids, kind);
    }
}

/// Split a directive value into rule ids (the non-empty runs of characters
/// between whitespace and commas), or `None` when it disables all rules.
pub fn split_rule_ids(value: &str) -> (r: Option<Vec<String>>)
    ensures
        opt_vec_rules(r) == rule_ids_of(value@),
{
    let v = chars_of(value);
    let mut out: Vec<String> = Vec::new();
    let mut cur: Option<usize> = None;
    let mut i: usize = 0;
    while i < v.len()
        invariant
            0 <= i <= v@.len(),
            match cur {
                None => words(v@.take(i as int)) == rules_view(out@) && (i == 0 || is_value_sep(
                    v@[i - 1],
                )),
                Some(st) => st < i && words(v@.take(i as int)) == rules_view(out@).push(
                    v@.subrange(st as int, i as int),
                ) && !is_value_sep(v@[i - 1]),
            },
        decreases v.len() - i,
    {
        let c = v[i];
        assert(v@.take(i + 1).drop_last() =~= v@.take(i as int));
        assert(v@.take(i + 1).last() == c);
        if is_whitespace(c) || c == ',' {
            match cur {
                Some(st) => {
                    let ghost prev = out@;
                    let w = string_from(v.as_slice(), st, i);
                    out.push(w);
                    assert(rules_view(out@) =~= rules_view(prev).push(w@));
                    cur = None;
                },
                None => {},
            }
        } else {
            match cur {
                Some(st) => {
                    assert(v@.subrange(st as int, i + 1) =~= v@.subrange(st as int, i as int).push(
                        c,
                    ));
                },
                None => {
                    cur = Some(i);
                    assert(v@.subrange(i as int, i + 1) =~= seq![c]);
                },
            }
        }
        i += 1;
    }
    match cur {
        Some(st) => {
            let ghost prev = out@;
            let w = string_from(v.as_slice(), st, i);
            out.push(w);
            assert(rules_view(out@) =~= rules_view(prev).push(w@));
        },
        None => {},
    }
    assert(v@.take(i as int) =~= v@);
    assert(rules_view(out@) == words(value@));
    if out.len() == 0 {
        None
    } else {
        Some(out)
    }
}


pub open spec fn comments_view(c: Seq<Comment>) -> Seq<CommentView> {
    c.map_values(|x: Comment| x@)
}

/// The comments' positions leave room for the line and column arithmetic of
/// the rules, and their number fits the `u32` counts.
pub open spec fn comments_fit(c: Seq<CommentView>) -> bool {
    &&& c.len() <= u32::MAX
    &&& forall|i: int| 0 <= i < c.len() ==> location_fits(#[trigger] c[i].value, c[i].loc)
    &&& forall|i: int| 0 <= i < c.len() ==> line_room(#[trigger] c[i])
}

/// A line directive leaves room for the lines after it that it names: one
/// for `eslint-disable-line`, two for `eslint-disable-next-line`.
pub open spec fn line_room(c: CommentView) -> bool {
    match directive_of_comment(c.kind, c.value, c.loc.start.line == c.loc.end.line) {
        Some(d) => {
            &&& d.kind == "eslint-disable-line"@ ==> c.loc.start.line + 1 <= u32::MAX
            &&& d.kind == "eslint-disable-next-line"@ ==> c.loc.start.line + 2 <= u32::MAX
        },
        None => true,
    }
}

/// Build the disabled-area bookkeeping for a file's comments.
pub fn build_disabled_area(comments: &[Comment]) -> (r: DisabledArea)
    requires
        comments_fit(comments_view(comments@)),
    ensures
        r@ == build(comments_view(comments@)),
        comments_below(r@, comments@.len() as int),
{
    let ghost cv = comments_view(comments@);
    let n = comments.len();
    let mut state = DisabledArea::new();
    let mut index: usize = 0;
    while index < n
        invariant
            0 <= index <= n,
            n == comments@.len(),
            cv == comments_view(comments@),
            comments_fit(cv),
            state@ == build(cv.take(index as int)),
            comments_below(state@, n as int),
        decreases n - index,
    {
        assert(cv.take(index + 1).drop_last() =~= cv.take(index as int));
        assert(cv.take(index + 1).last() == cv[index as int]);
        let comment = comments[index];
        assert(comment@ == cv[index as int]);
        let same_line = comment.loc.start.line == comment.loc.end.line;
        let parsed = match parse_directive_comment(comment.kind, comment.value, same_line) {
            Some(p) => p,
            None => {
                index += 1;
                continue;
            },
        };
        let rule_ids = split_rule_ids(parsed.value.as_str());
        let ids = match &rule_ids {
            Some(v) => Some(v),
            None => None,
        };
        assert(opt_rules_view(ids) == rule_ids_of(parsed@.value));
        let k = chars_of(parsed.kind.as_str());
        let line = comment.loc.start.line;
        assert(line_room(cv[index as int]));
        if chars_eq_str(k.as_slice(), "eslint-disable") {
            state.disable_checked(index, comment.loc.start, ids, AreaKind::Block, n);
        } else if chars_eq_str(k.as_slice(), "eslint-enable") {
            state.enable(index, comment.loc.start, ids, AreaKind::Block, n);
        } else if chars_eq_str(k.as_slice(), "eslint-disable-line") {
            let start = Position { line, column: 0 };
            let end = Position { line: line + 1, column: -1 };
            state.disable_checked(index, start, ids, AreaKind::Line, n);
            state.enable(index, end, ids, AreaKind::Line, n);
        } else if chars_eq_str(k.as_slice(), "eslint-disable-next-line") {
            let start = Position { line: line + 1, column: 0 };
            let end = Position { line: line + 2, column: -1 };
            state.disable_checked(index, start, ids, AreaKind::Line, n);
            state.enable(index, end, ids, AreaKind::Line, n);
        }
        index += 1;
    }
    assert(cv.take(n as int) =~= cv);
    state
}

} // verus!
