//! The Astro scan: where the scripts of a source are, and the reports made
//! from the template and from what the script analysis found.
use vstd::prelude::*;
use crate::text::{byte_len, chars_of, string_from};
use super::source::{has_astro_ext, has_astro_extension, frontmatter_of, frontmatter, opens_with_fence, starts_with_frontmatter_delimiter};
use super::template::{template_of, scan_template, elements_view};
use super::tags::{Element, ElementView, element_wf};
use super::report::{
    AstroOptions, Diagnostic, DiagnosticView, ScriptFacts, FactsView, script_reports, elements_reports, sorted,
    byte_at, diagnostics_view, offsets_of, byte_offsets, push_script_reports, push_template_reports, sort_reports,
};

verus! {

/// Where the frontmatter script lies (characters `script.0..script.1`) and
/// where the template body starts, when the source is scanned at all: an
/// `.astro` file whose frontmatter, if it opens one, closes.
pub open spec fn layout_of(t: Seq<char>, filename: Seq<char>, frontmatter_only: bool) -> Option<(int, int, int)> {
    if !has_astro_ext(filename) {
        None
    } else if frontmatter_only {
        Some((0, t.len() as int, t.len() as int))
    } else {
        match frontmatter_of(t) {
            Some(x) => Some(x),
            None => if opens_with_fence(t) {
                None
            } else {
                Some((0, 0, 0))
            },
        }
    }
}

/// The template expression `e` is a non-empty range of the text.
pub open spec fn is_segment(t: Seq<char>, e: (usize, usize)) -> bool {
    e.0 < e.1 <= t.len()
}

/// The reports of the template expressions `exprs`, analysed as `facts`.
pub open spec fn expression_reports(
    t: Seq<char>,
    names: Seq<String>,
    exprs: Seq<(usize, usize)>,
    facts: Seq<Option<FactsView>>,
    shadowed: bool,
) -> Seq<DiagnosticView>
    decreases exprs.len(),
{
    if exprs.len() == 0 {
        Seq::empty()
    } else {
        let k = exprs.len() - 1;
        expression_reports(t, names, exprs.drop_last(), facts.take(k), shadowed) + if is_segment(t, exprs[k]) {
            match facts[k] {
                Some(f) => script_reports(t, names, byte_at(t, exprs[k].0 as int), f, shadowed),
                None => Seq::empty(),
            }
        } else {
            Seq::empty()
        }
    }
}

/// All the reports on source `t` laid out as `layout`, with `frontmatter`
/// the analysis of its script and `facts` those of its template
/// expressions, sorted by position and rule.
pub open spec fn astro_reports(
    t: Seq<char>,
    names: Seq<String>,
    frontmatter_only: bool,
    layout: (int, int, int),
    frontmatter: FactsView,
    facts: Seq<Option<FactsView>>,
) -> Seq<DiagnosticView> {
    let script = script_reports(t, names, byte_at(t, layout.0), frontmatter, false);
    let template = if frontmatter_only {
        Seq::empty()
    } else {
        let tv = template_of(t, layout.2);
        expression_reports(t, names, tv.exprs, facts, frontmatter.declares_astro) + elements_reports(
            t,
            names,
            tv.elements,
        )
    };
    sorted(script + template)
}

/// The template expressions that are analysed: none when only the
/// frontmatter is scanned.
pub open spec fn template_expressions(t: Seq<char>, frontmatter_only: bool, body: int) -> Seq<(usize, usize)> {
    if frontmatter_only {
        Seq::empty()
    } else {
        template_of(t, body).exprs
    }
}

/// Optional facts as values.
pub open spec fn opt_facts_view(f: Option<ScriptFacts>) -> Option<FactsView> {
    match f {
        Some(x) => Some(x@),
        None => None,
    }
}

/// `f` is what `analyze` gave for the text of the template expression `e`,
/// or nothing when `e` holds no text.
pub open spec fn analyzed_as<F: Fn(&str) -> Option<ScriptFacts>>(analyze: F, t: Seq<char>, e: (usize, usize), f: Option<FactsView>) -> bool {
    if is_segment(t, e) {
        exists|s: &str, g: Option<ScriptFacts>|
            #![trigger analyze.ensures((s,), g)]
            s@ == t.subrange(e.0 as int, e.1 as int) && analyze.ensures((s,), g) && f == opt_facts_view(g)
    } else {
        f is None
    }
}

/// Where the scripts and the template of an Astro source are. Positions
/// are character indices.
pub struct AstroLayout {
    pub script_start: usize,
    pub script_end: usize,
    pub body: usize,
    /// The frontmatter script.
    pub script: String,
    pub elements: Vec<Element>,
    pub expressions: Vec<(usize, usize)>,
    /// The text of each template expression that is a non-empty range.
    pub expression_texts: Vec<Option<String>>,
}

impl AstroLayout {
    /// The layout holds what it says of the source `t`.
    pub open spec fn describes(self, t: Seq<char>, frontmatter_only: bool) -> bool {
        &&& self.script_start <= self.script_end <= t.len()
        &&& self.script@ == t.subrange(self.script_start as int, self.script_end as int)
        &&& elements_view(self.elements@) == if frontmatter_only {
            Seq::<ElementView>::empty()
        } else {
            template_of(t, self.body as int).elements
        }
        &&& self.expressions@ == if frontmatter_only {
            Seq::<(usize, usize)>::empty()
        } else {
            template_of(t, self.body as int).exprs
        }
        &&& forall|j: int| 0 <= j < self.elements@.len() ==> element_wf((#[trigger] self.elements@[j])@, t.len() as int)
        &&& self.expression_texts@.len() == self.expressions@.len()
        &&& forall|j: int|
            0 <= j < self.expressions@.len() ==> match #[trigger] self.expression_texts@[j] {
                Some(s) => is_segment(t, self.expressions@[j]) && s@ == t.subrange(
                    self.expressions@[j].0 as int,
                    self.expressions@[j].1 as int,
                ),
                None => !is_segment(t, self.expressions@[j]),
            }
    }
}

/// Where the scripts and the template of `source` are, or nothing when it is
/// not scanned.
pub fn astro_layout(source_text: &str, filename: &str, options: &AstroOptions) -> (r: Option<AstroLayout>)
    ensures
        r is None <==> layout_of(source_text@, filename@, options.frontmatter_only) is None,
        r matches Some(l) ==> layout_of(source_text@, filename@, options.frontmatter_only) == Some(
            (l.script_start as int, l.script_end as int, l.body as int),
        ) && l.describes(source_text@, options.frontmatter_only),
{
    if !has_astro_extension(filename) {
        return None;
    }
    let t = chars_of(source_text);
    let n = t.len();
    let (script_start, script_end, body) = if options.frontmatter_only {
        (0, n, n)
    } else {
        match frontmatter(t.as_slice()) {
            Some(x) => x,
            None => {
                if starts_with_frontmatter_delimiter(t.as_slice()) {
                    return None;
                }
                (0, 0, 0)
            },
        }
    };
    let script = string_from(t.as_slice(), script_start, script_end);
    let (elements, expressions) = if options.frontmatter_only {
        (Vec::new(), Vec::new())
    } else {
        scan_template(t.as_slice(), body)
    };
    proof {
        if options.frontmatter_only {
            assert(elements_view(elements@) =~= Seq::<ElementView>::empty());
        }
    }
    let mut expression_texts: Vec<Option<String>> = Vec::new();
    let mut j: usize = 0;
    while j < expressions.len()
        invariant
            n == t@.len(),
            j <= expressions@.len(),
            expression_texts@.len() == j,
            forall|k: int|
                0 <= k < j ==> match #[trigger] expression_texts@[k] {
                    Some(s) => is_segment(t@, expressions@[k]) && s@ == t@.subrange(
                        expressions@[k].0 as int,
                        expressions@[k].1 as int,
                    ),
                    None => !is_segment(t@, expressions@[k]),
                },
        decreases expressions@.len() - j,
    {
        let (a, b) = expressions[j];
        if a < b && b <= n {
            expression_texts.push(Some(string_from(t.as_slice(), a, b)));
        } else {
            expression_texts.push(None);
        }
        j = j + 1;
    }
    Some(AstroLayout { script_start, script_end, body, script, elements, expressions, expression_texts })
}

/// The reports on `source` laid out as `layout`, with `frontmatter` the
/// analysis of its script and `facts` those of its template expressions.
pub fn astro_diagnostics(
    source_text: &str,
    options: &AstroOptions,
    layout: &AstroLayout,
    frontmatter: &ScriptFacts,
    facts: &Vec<Option<ScriptFacts>>,
) -> (r: Vec<Diagnostic>)
    requires
        byte_len(source_text@) < u32::MAX,
        layout.describes(source_text@, options.frontmatter_only),
        facts@.len() == layout.expressions@.len(),
    ensures
        diagnostics_view(r@) == astro_reports(
            source_text@,
            options.rule_names@,
            options.frontmatter_only,
            (layout.script_start as int, layout.script_end as int, layout.body as int),
            frontmatter@,
            facts@.map_values(|f: Option<ScriptFacts>| match f {
                Some(x) => Some(x@),
                None => None,
            }),
        ),
{
    let t = chars_of(source_text);
    let offs = byte_offsets(t.as_slice());
    let mut out: Vec<Diagnostic> = Vec::new();
    let names = &options.rule_names;
    push_script_reports(t.as_slice(), names, offs[layout.script_start], frontmatter, false, &mut out);
    let ghost script_part = diagnostics_view(out@);
    assert(script_part =~= script_reports(t@, names@, byte_at(t@, layout.script_start as int), frontmatter@, false));
    let ghost fv = facts@.map_values(|f: Option<ScriptFacts>| match f {
        Some(x) => Some(x@),
        None => None,
    });
    if !options.frontmatter_only {
        let mut j: usize = 0;
        while j < layout.expressions.len()
            invariant
                t@ == source_text@,
                byte_len(t@) < u32::MAX,
                offsets_of(t@, offs@),
                !options.frontmatter_only,
                layout.describes(source_text@, options.frontmatter_only),
                facts@.len() == layout.expressions@.len(),
                fv == facts@.map_values(|f: Option<ScriptFacts>| match f {
                    Some(x) => Some(x@),
                    None => None,
                }),
                j <= layout.expressions@.len(),
                diagnostics_view(out@) == script_part + expression_reports(
                    t@,
                    names@,
                    layout.expressions@.take(j as int),
                    fv.take(j as int),
                    frontmatter.declares_astro,
                ),
            decreases layout.expressions@.len() - j,
        {
            proof {
                assert(layout.expressions@.take(j + 1).drop_last() =~= layout.expressions@.take(j as int));
                assert(fv.take(j + 1).take(j as int) =~= fv.take(j as int));
            }
            let (a, b) = layout.expressions[j];
            let ghost before = diagnostics_view(out@);
            match &layout.expression_texts[j] {
                Some(_) => match &facts[j] {
                    Some(f) => {
                        push_script_reports(t.as_slice(), names, offs[a], f, frontmatter.declares_astro, &mut out);
                    },
                    None => {
                        assert(diagnostics_view(out@) =~= before + Seq::<DiagnosticView>::empty());
                    },
                },
                None => {
                    assert(diagnostics_view(out@) =~= before + Seq::<DiagnosticView>::empty());
                },
            }
            proof {
                assert(diagnostics_view(out@) =~= script_part + expression_reports(
                    t@,
                    names@,
                    layout.expressions@.take(j + 1),
                    fv.take(j + 1),
                    frontmatter.declares_astro,
                ));
            }
            j = j + 1;
        }
        proof {
            assert(layout.expressions@.take(layout.expressions@.len() as int) =~= layout.expressions@);
            assert(fv.take(fv.len() as int) =~= fv);
        }
        let ghost expr_part = diagnostics_view(out@);
        push_template_reports(t.as_slice(), &offs, names, &layout.elements, &mut out);
        proof {
            let tv = template_of(t@, layout.body as int);
            assert(tv.exprs == layout.expressions@);
            assert(tv.elements == elements_view(layout.elements@));
            assert(diagnostics_view(out@) =~= script_part + (expression_reports(
                t@,
                names@,
                tv.exprs,
                fv,
                frontmatter.declares_astro,
            ) + elements_reports(t@, names@, tv.elements)));
        }
    } else {
        assert(diagnostics_view(out@) =~= script_part + Seq::<DiagnosticView>::empty());
    }
    sort_reports(out)
}

/// Scans an Astro source: `analyze` reads one script (the frontmatter or a
/// template expression) and tells what it found, or nothing when it does
/// not parse. Nothing is reported for a source that is not scanned or whose
/// frontmatter does not parse.
pub fn scan_astro_with<F: Fn(&str) -> Option<ScriptFacts>>(
    source_text: &str,
    filename: &str,
    options: &AstroOptions,
    analyze: F,
) -> (r: Vec<Diagnostic>)
    requires
        byte_len(source_text@) < u32::MAX,
        forall|s: &str| analyze.requires((s,)),
    ensures
        layout_of(source_text@, filename@, options.frontmatter_only) is None ==> r@.len() == 0,
        layout_of(source_text@, filename@, options.frontmatter_only) matches Some(layout) ==> exists|script: &str, found: Option<ScriptFacts>|
            #![trigger analyze.ensures((script,), found)]
            {
                &&& script@ == source_text@.subrange(layout.0, layout.1)
                &&& analyze.ensures((script,), found)
                &&& found is None ==> r@.len() == 0
                &&& found matches Some(frontmatter) ==> exists|facts: Seq<Option<FactsView>>|
                    #![trigger astro_reports(source_text@, options.rule_names@, options.frontmatter_only, layout, frontmatter@, facts)]
                    facts.len() == template_expressions(source_text@, options.frontmatter_only, layout.2).len()
                    && (forall|j: int| 0 <= j < facts.len() ==> analyzed_as(
                        analyze,
                        source_text@,
                        template_expressions(source_text@, options.frontmatter_only, layout.2)[j],
                        #[trigger] facts[j],
                    ))
                    && diagnostics_view(r@) == astro_reports(
                        source_text@,
                        options.rule_names@,
                        options.frontmatter_only,
                        layout,
                        frontmatter@,
                        facts,
                    )
            },
{
    let layout = match astro_layout(source_text, filename, options) {
        Some(l) => l,
        None => {
            return Vec::new();
        },
    };
    let script = layout.script.as_str();
    let found = analyze(script);
    proof {
        let layout_spec = (layout.script_start as int, layout.script_end as int, layout.body as int);
        assert(layout_of(source_text@, filename@, options.frontmatter_only) == Some(layout_spec));
        assert(script@ == layout.script@);
        assert(script@ == source_text@.subrange(layout_spec.0, layout_spec.1));
    }
    let frontmatter = match found {
        Some(f) => f,
        None => {
            return Vec::new();
        },
    };
    let mut facts: Vec<Option<ScriptFacts>> = Vec::new();
    let mut j: usize = 0;
    while j < layout.expression_texts.len()
        invariant
            analyze.ensures((script,), Some(frontmatter)),
            layout.describes(source_text@, options.frontmatter_only),
            j <= layout.expression_texts@.len(),
            facts@.len() == j,
            forall|s: &str| analyze.requires((s,)),
            forall|k: int| 0 <= k < j ==> analyzed_as(analyze, source_text@, layout.expressions@[k], opt_facts_view(#[trigger] facts@[k])),
        decreases layout.expression_texts@.len() - j,
    {
        let ghost e = layout.expressions@[j as int];
        let found = match &layout.expression_texts[j] {
            Some(text) => {
                let s = text.as_str();
                let g = analyze(s);
                assert(s@ == source_text@.subrange(e.0 as int, e.1 as int));
                assert(analyzed_as(analyze, source_text@, e, opt_facts_view(g)));
                g
            },
            None => None,
        };
        let ghost before = facts@;
        facts.push(found);
        assert forall|k: int| 0 <= k < j + 1 implies analyzed_as(analyze, source_text@, layout.expressions@[k], opt_facts_view(#[trigger] facts@[k])) by {
            if k < j {
                assert(facts@[k] == before[k]);
            }
        }
        j = j + 1;
    }
    let r = astro_diagnostics(source_text, options, &layout, &frontmatter, &facts);
    proof {
        let fv = facts@.map_values(|f: Option<ScriptFacts>| match f {
            Some(x) => Some(x@),
            None => None,
        });
        assert(script@ == layout.script@);
        assert(diagnostics_view(r@) == astro_reports(
            source_text@,
            options.rule_names@,
            options.frontmatter_only,
            (layout.script_start as int, layout.script_end as int, layout.body as int),
            frontmatter@,
            fv,
        ));
        let layout_spec = (layout.script_start as int, layout.script_end as int, layout.body as int);
        assert(layout_of(source_text@, filename@, options.frontmatter_only) == Some(layout_spec));
        assert(script@ == source_text@.subrange(layout_spec.0, layout_spec.1));
        let l = layout_of(source_text@, filename@, options.frontmatter_only)->0;
        assert(l == layout_spec);
        assert(astro_reports(source_text@, options.rule_names@, options.frontmatter_only, l, frontmatter@, fv)
            == astro_reports(source_text@, options.rule_names@, options.frontmatter_only, layout_spec, frontmatter@, fv));
        assert(analyze.ensures((script,), Some(frontmatter)));
        let ex = template_expressions(source_text@, options.frontmatter_only, layout_spec.2);
        assert(ex == layout.expressions@);
        assert(fv.len() == ex.len());
        assert forall|j: int| 0 <= j < fv.len() implies analyzed_as(analyze, source_text@, ex[j], #[trigger] fv[j]) by {
            assert(fv[j] == opt_facts_view(facts@[j]));
        }
    }
    r
}

} // verus!
