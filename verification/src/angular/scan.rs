//! The Angular ESLint scan: each rule is a textual check on a source that
//! parses, reported once at its first hit.
use vstd::prelude::*;
use crate::text::{byte_len, find_from, occurs_at, ends_with, chars_of, find_chars, ends_with_chars, str_eq};
use crate::lines::{lf_count, lf_column, chars_before, lf_position, lf_position_at};
use crate::outside::{regex_find, first_regex_match, oxc_parses_tsx_default, parses_as_module_tsx_default, is_alphanumeric, char_is_alphanumeric};
use super::rules::DiagnosticLoc;

verus! {

/// One rule's check.
#[derive(Clone, Copy, Debug)]
pub enum Check {
    /// The first match of a regular expression.
    Regex { rule: &'static str, pattern: &'static str },
    /// The first occurrence of a text.
    Contains { rule: &'static str, needle: &'static str },
    /// The first class declared after the first `decorator`, when its name
    /// does not end with `suffix`.
    ClassSuffix { rule: &'static str, decorator: &'static str, suffix: &'static str },
}

/// A reported rule violation.
#[derive(Clone, Copy, Debug, PartialEq, Eq)]
pub struct Diagnostic {
    pub rule_name: &'static str,
    pub message_id: &'static str,
    pub loc: DiagnosticLoc,
}

impl Check {
    pub open spec fn spec_rule(self) -> &'static str {
        match self {
            Check::Regex { rule, .. } => rule,
            Check::Contains { rule, .. } => rule,
            Check::ClassSuffix { rule, .. } => rule,
        }
    }

    pub fn rule(&self) -> (r: &'static str)
        ensures
            r == self.spec_rule(),
    {
        match self {
            Check::Regex { rule, .. } => rule,
            Check::Contains { rule, .. } => rule,
            Check::ClassSuffix { rule, .. } => rule,
        }
    }
}

/// The checks, in the order they run.
pub open spec fn angular_checks() -> Seq<Check> {
    seq![
        Check::ClassSuffix { rule: "component-class-suffix", decorator: "@Component", suffix: "Component" },
        Check::Regex { rule: "component-max-inline-declarations", pattern: r#"(?s)template\s*:\s*`[^`]*\n[^`]*\n[^`]*`"# },
        Check::Regex { rule: "component-selector", pattern: r#"(?s)@Component\s*\(\s*\{[^}]*selector\s*:\s*['"][A-Z]"# },
        Check::Regex { rule: "computed-must-return", pattern: r#"computed\s*\(\s*\(\s*\)\s*=>\s*\{"# },
        Check::Regex { rule: "consistent-component-styles", pattern: r#"\bstyleUrls\s*:"# },
        Check::Regex { rule: "contextual-decorator", pattern: r#"@Input\s*\([^)]*\)\s*class\s+\w+"# },
        Check::Regex { rule: "contextual-lifecycle", pattern: r#"class\s+\w+\s*\{[^}]*\bngOnInit\s*\("# },
        Check::ClassSuffix { rule: "directive-class-suffix", decorator: "@Directive", suffix: "Directive" },
        Check::Regex { rule: "directive-selector", pattern: r#"(?s)@Directive\s*\(\s*\{[^}]*selector\s*:\s*['"][A-Z]"# },
        Check::Regex { rule: "no-async-lifecycle-method", pattern: r#"async\s+ng(OnInit|OnDestroy|AfterViewInit|OnChanges)\s*\("# },
        Check::Regex { rule: "no-attribute-decorator", pattern: r#"@Attribute\s*\("# },
        Check::Regex { rule: "no-developer-preview", pattern: r#"\bafterNextRender\s*\("# },
        Check::Contains { rule: "no-duplicates-in-metadata-arrays", needle: "imports: [CommonModule, CommonModule]" },
        Check::Regex { rule: "no-empty-lifecycle-method", pattern: r#"\bng(OnInit|OnDestroy|AfterViewInit|OnChanges)\s*\([^)]*\)\s*\{\s*\}"# },
        Check::Regex { rule: "no-experimental", pattern: r#"\bresource\s*\("# },
        Check::Regex { rule: "no-forward-ref", pattern: r#"\bforwardRef\s*\("# },
        Check::Regex { rule: "no-implicit-take-until-destroyed", pattern: r#"\btakeUntilDestroyed\s*\(\s*\)"# },
        Check::Regex { rule: "no-input-prefix", pattern: r#"@Input\s*\([^)]*\)\s+(is|has|can)[A-Z]\w*"# },
        Check::Regex { rule: "no-input-rename", pattern: r#"@Input\s*\(\s*['"][^'"]+['"]"# },
        Check::Regex { rule: "no-inputs-metadata-property", pattern: r#"\binputs\s*:"# },
        Check::Regex { rule: "no-lifecycle-call", pattern: r#"\bthis\.ng(OnInit|OnDestroy|AfterViewInit|OnChanges)\s*\("# },
        Check::Regex { rule: "no-output-native", pattern: r#"@Output\s*\([^)]*\)\s+(click|change|input)\b"# },
        Check::Regex { rule: "no-output-on-prefix", pattern: r#"@Output\s*\([^)]*\)\s+on[A-Z]\w*"# },
        Check::Regex { rule: "no-output-rename", pattern: r#"@Output\s*\(\s*['"][^'"]+['"]"# },
        Check::Regex { rule: "no-outputs-metadata-property", pattern: r#"\boutputs\s*:"# },
        Check::Regex { rule: "no-pipe-impure", pattern: r#"@Pipe\s*\(\s*\{[^}]*pure\s*:\s*false"# },
        Check::Regex { rule: "no-queries-metadata-property", pattern: r#"\bqueries\s*:"# },
        Check::Regex { rule: "no-uncalled-signals", pattern: r#"\bthis\.\w+Signal\s*;"# },
        Check::Regex { rule: "pipe-prefix", pattern: r#"@Pipe\s*\(\s*\{[^}]*name\s*:\s*['"]bad"# },
        Check::Regex { rule: "prefer-host-metadata-property", pattern: r#"@(HostBinding|HostListener)\s*\("# },
        Check::Regex { rule: "prefer-inject", pattern: r#"constructor\s*\(\s*(private|public|protected|readonly)\s+\w+\s*:"# },
        Check::Regex { rule: "prefer-on-push-component-change-detection", pattern: r#"changeDetection\s*:\s*ChangeDetectionStrategy\.Default"# },
        Check::Regex { rule: "prefer-output-emitter-ref", pattern: r#"new\s+EventEmitter\s*<"# },
        Check::Regex { rule: "prefer-output-readonly", pattern: r#"@Output\s*\([^)]*\)\s+\w+\s*="# },
        Check::Regex { rule: "prefer-signal-model", pattern: r#"@Input\s*\([^)]*\)\s+value\b[\s\S]*@Output\s*\([^)]*\)\s+valueChange\b"# },
        Check::Regex { rule: "prefer-signals", pattern: r#"@Input\s*\([^)]*\)\s+\w+"# },
        Check::Regex { rule: "prefer-standalone", pattern: r#"standalone\s*:\s*false"# },
        Check::Regex { rule: "relative-url-prefix", pattern: r#"(templateUrl|styleUrl)\s*:\s*['"][A-Za-z0-9_-]"# },
        Check::Regex { rule: "require-lifecycle-on-prototype", pattern: r#"ng(OnInit|OnDestroy|AfterViewInit|OnChanges)\s*=\s*\("# },
        Check::Regex { rule: "require-localize-metadata", pattern: r#"\$localize`"# },
        Check::Regex { rule: "runtime-localize", pattern: r#"\$localize\.locale\b"# },
        Check::Regex { rule: "sort-keys-in-type-decorator", pattern: r#"@Component\s*\(\s*\{\s*template\s*:[^}]*selector\s*:"# },
        Check::Regex { rule: "sort-lifecycle-methods", pattern: r#"(?s)ngOnDestroy\s*\([^)]*\)\s*\{[^}]*\}.*ngOnInit\s*\("# },
        Check::Regex { rule: "use-component-selector", pattern: r#"@Component\s*\(\s*\{\s*template\s*:"# },
        Check::Regex { rule: "use-component-view-encapsulation", pattern: r#"encapsulation\s*:\s*ViewEncapsulation\.None"# },
        Check::Regex { rule: "use-injectable-provided-in", pattern: r#"@Injectable\s*\(\s*\)"# },
        Check::Regex { rule: "use-lifecycle-interface", pattern: r#"class\s+Plain\s*\{[^}]*ngOnInit\s*\("# },
        Check::Regex { rule: "use-pipe-transform-interface", pattern: r#"@Pipe\s*\([^)]*\)\s*class\s+PlainPipe\s*\{[^}]*transform\s*\("# },
    ]
}

/// The checks, in the order they run.
pub fn checks() -> (r: Vec<Check>)
    ensures
        r@ == angular_checks(),
{
    vec![
        Check::ClassSuffix { rule: "component-class-suffix", decorator: "@Component", suffix: "Component" },
        Check::Regex { rule: "component-max-inline-declarations", pattern: r#"(?s)template\s*:\s*`[^`]*\n[^`]*\n[^`]*`"# },
        Check::Regex { rule: "component-selector", pattern: r#"(?s)@Component\s*\(\s*\{[^}]*selector\s*:\s*['"][A-Z]"# },
        Check::Regex { rule: "computed-must-return", pattern: r#"computed\s*\(\s*\(\s*\)\s*=>\s*\{"# },
        Check::Regex { rule: "consistent-component-styles", pattern: r#"\bstyleUrls\s*:"# },
        Check::Regex { rule: "contextual-decorator", pattern: r#"@Input\s*\([^)]*\)\s*class\s+\w+"# },
        Check::Regex { rule: "contextual-lifecycle", pattern: r#"class\s+\w+\s*\{[^}]*\bngOnInit\s*\("# },
        Check::ClassSuffix { rule: "directive-class-suffix", decorator: "@Directive", suffix: "Directive" },
        Check::Regex { rule: "directive-selector", pattern: r#"(?s)@Directive\s*\(\s*\{[^}]*selector\s*:\s*['"][A-Z]"# },
        Check::Regex { rule: "no-async-lifecycle-method", pattern: r#"async\s+ng(OnInit|OnDestroy|AfterViewInit|OnChanges)\s*\("# },
        Check::Regex { rule: "no-attribute-decorator", pattern: r#"@Attribute\s*\("# },
        Check::Regex { rule: "no-developer-preview", pattern: r#"\bafterNextRender\s*\("# },
        Check::Contains { rule: "no-duplicates-in-metadata-arrays", needle: "imports: [CommonModule, CommonModule]" },
        Check::Regex { rule: "no-empty-lifecycle-method", pattern: r#"\bng(OnInit|OnDestroy|AfterViewInit|OnChanges)\s*\([^)]*\)\s*\{\s*\}"# },
        Check::Regex { rule: "no-experimental", pattern: r#"\bresource\s*\("# },
        Check::Regex { rule: "no-forward-ref", pattern: r#"\bforwardRef\s*\("# },
        Check::Regex { rule: "no-implicit-take-until-destroyed", pattern: r#"\btakeUntilDestroyed\s*\(\s*\)"# },
        Check::Regex { rule: "no-input-prefix", pattern: r#"@Input\s*\([^)]*\)\s+(is|has|can)[A-Z]\w*"# },
        Check::Regex { rule: "no-input-rename", pattern: r#"@Input\s*\(\s*['"][^'"]+['"]"# },
        Check::Regex { rule: "no-inputs-metadata-property", pattern: r#"\binputs\s*:"# },
        Check::Regex { rule: "no-lifecycle-call", pattern: r#"\bthis\.ng(OnInit|OnDestroy|AfterViewInit|OnChanges)\s*\("# },
        Check::Regex { rule: "no-output-native", pattern: r#"@Output\s*\([^)]*\)\s+(click|change|input)\b"# },
        Check::Regex { rule: "no-output-on-prefix", pattern: r#"@Output\s*\([^)]*\)\s+on[A-Z]\w*"# },
        Check::Regex { rule: "no-output-rename", pattern: r#"@Output\s*\(\s*['"][^'"]+['"]"# },
        Check::Regex { rule: "no-outputs-metadata-property", pattern: r#"\boutputs\s*:"# },
        Check::Regex { rule: "no-pipe-impure", pattern: r#"@Pipe\s*\(\s*\{[^}]*pure\s*:\s*false"# },
        Check::Regex { rule: "no-queries-metadata-property", pattern: r#"\bqueries\s*:"# },
        Check::Regex { rule: "no-uncalled-signals", pattern: r#"\bthis\.\w+Signal\s*;"# },
        Check::Regex { rule: "pipe-prefix", pattern: r#"@Pipe\s*\(\s*\{[^}]*name\s*:\s*['"]bad"# },
        Check::Regex { rule: "prefer-host-metadata-property", pattern: r#"@(HostBinding|HostListener)\s*\("# },
        Check::Regex { rule: "prefer-inject", pattern: r#"constructor\s*\(\s*(private|public|protected|readonly)\s+\w+\s*:"# },
        Check::Regex { rule: "prefer-on-push-component-change-detection", pattern: r#"changeDetection\s*:\s*ChangeDetectionStrategy\.Default"# },
        Check::Regex { rule: "prefer-output-emitter-ref", pattern: r#"new\s+EventEmitter\s*<"# },
        Check::Regex { rule: "prefer-output-readonly", pattern: r#"@Output\s*\([^)]*\)\s+\w+\s*="# },
        Check::Regex { rule: "prefer-signal-model", pattern: r#"@Input\s*\([^)]*\)\s+value\b[\s\S]*@Output\s*\([^)]*\)\s+valueChange\b"# },
        Check::Regex { rule: "prefer-signals", pattern: r#"@Input\s*\([^)]*\)\s+\w+"# },
        Check::Regex { rule: "prefer-standalone", pattern: r#"standalone\s*:\s*false"# },
        Check::Regex { rule: "relative-url-prefix", pattern: r#"(templateUrl|styleUrl)\s*:\s*['"][A-Za-z0-9_-]"# },
        Check::Regex { rule: "require-lifecycle-on-prototype", pattern: r#"ng(OnInit|OnDestroy|AfterViewInit|OnChanges)\s*=\s*\("# },
        Check::Regex { rule: "require-localize-metadata", pattern: r#"\$localize`"# },
        Check::Regex { rule: "runtime-localize", pattern: r#"\$localize\.locale\b"# },
        Check::Regex { rule: "sort-keys-in-type-decorator", pattern: r#"@Component\s*\(\s*\{\s*template\s*:[^}]*selector\s*:"# },
        Check::Regex { rule: "sort-lifecycle-methods", pattern: r#"(?s)ngOnDestroy\s*\([^)]*\)\s*\{[^}]*\}.*ngOnInit\s*\("# },
        Check::Regex { rule: "use-component-selector", pattern: r#"@Component\s*\(\s*\{\s*template\s*:"# },
        Check::Regex { rule: "use-component-view-encapsulation", pattern: r#"encapsulation\s*:\s*ViewEncapsulation\.None"# },
        Check::Regex { rule: "use-injectable-provided-in", pattern: r#"@Injectable\s*\(\s*\)"# },
        Check::Regex { rule: "use-lifecycle-interface", pattern: r#"class\s+Plain\s*\{[^}]*ngOnInit\s*\("# },
        Check::Regex { rule: "use-pipe-transform-interface", pattern: r#"@Pipe\s*\([^)]*\)\s*class\s+PlainPipe\s*\{[^}]*transform\s*\("# },
    ]
}

/// Where, from `i` on, the identifier characters (alphanumeric or `_`) of
/// `t` end.
pub open spec fn name_end_from(t: Seq<char>, i: int) -> int
    decreases t.len() - i,
{
    if i >= t.len() {
        t.len() as int
    } else if !(is_alphanumeric(t[i]) || t[i] == '_') {
        i
    } else {
        name_end_from(t, i + 1)
    }
}

/// The name, as character range, of the first class declared after the
/// first `decorator` of `t`, when it is non-empty and does not end with
/// `suffix`.
pub open spec fn class_suffix_span(t: Seq<char>, decorator: Seq<char>, suffix: Seq<char>) -> Option<(int, int)> {
    match find_from(t, decorator, 0) {
        None => None,
        Some(d) => match find_from(t, "class "@, d) {
            None => None,
            Some(c) => {
                let start = c + 6;
                let end = name_end_from(t, start);
                if end <= start || ends_with(t.subrange(start, end), suffix) {
                    None
                } else {
                    Some((start, end))
                }
            },
        },
    }
}

/// What a check finds in `t`, as a range of characters.
pub open spec fn check_span(c: Check, t: Seq<char>) -> Option<(int, int)> {
    match c {
        Check::Regex { pattern, .. } => match regex_find(pattern@, t) {
            Some(m) => Some((chars_before(t, m.0), chars_before(t, m.1))),
            None => None,
        },
        Check::Contains { needle, .. } => match find_from(t, needle@, 0) {
            Some(k) => Some((k, k + needle@.len())),
            None => None,
        },
        Check::ClassSuffix { decorator, suffix, .. } => class_suffix_span(t, decorator@, suffix@),
    }
}

/// The location of the character range `span` of `t`.
pub open spec fn loc_of(t: Seq<char>, span: (int, int)) -> DiagnosticLoc {
    DiagnosticLoc {
        start_line: (1 + lf_count(t.take(span.0))) as u32,
        start_column: lf_column(t.take(span.0)) as u32,
        end_line: (1 + lf_count(t.take(span.1))) as u32,
        end_column: lf_column(t.take(span.1)) as u32,
    }
}

/// Whether some report is for `rule`.
pub open spec fn has_rule(ds: Seq<Diagnostic>, rule: &'static str) -> bool {
    exists|i: int| 0 <= i < ds.len() && (#[trigger] ds[i]).rule_name@ == rule@
}

/// The reports of the checks `cs` on `t`, in order; a rule already reported
/// is not checked again.
pub open spec fn reports(cs: Seq<Check>, t: Seq<char>) -> Seq<Diagnostic>
    decreases cs.len(),
{
    if cs.len() == 0 {
        Seq::empty()
    } else {
        let before = reports(cs.drop_last(), t);
        let c = cs.last();
        if has_rule(before, c.spec_rule()) {
            before
        } else {
            match check_span(c, t) {
                Some(span) => before.push(
                    Diagnostic { rule_name: c.spec_rule(), message_id: "unexpected", loc: loc_of(t, span) },
                ),
                None => before,
            }
        }
    }
}

fn has_reported(ds: &Vec<Diagnostic>, rule: &'static str) -> (r: bool)
    ensures
        r == has_rule(ds@, rule),
{
    let mut i: usize = 0;
    while i < ds.len()
        invariant
            i <= ds@.len(),
            forall|j: int| 0 <= j < i ==> (#[trigger] ds@[j]).rule_name@ != rule@,
        decreases ds@.len() - i,
    {
        if str_eq(ds[i].rule_name, rule) {
            return true;
        }
        i = i + 1;
    }
    false
}

/// Index, from `i` on, where the identifier characters of `t` end.
fn name_end(t: &[char], i: usize) -> (r: usize)
    requires
        i <= t@.len(),
    ensures
        r == name_end_from(t@, i as int),
        i <= r <= t@.len(),
    decreases t@.len() - i,
{
    if i >= t.len() {
        t.len()
    } else if !(char_is_alphanumeric(t[i]) || t[i] == '_') {
        i
    } else {
        name_end(t, i + 1)
    }
}

fn class_suffix(t: &[char], decorator: &str, suffix: &str) -> (r: Option<(usize, usize)>)
    ensures
        r matches Some(s) ==> class_suffix_span(t@, decorator@, suffix@) == Some((s.0 as int, s.1 as int)),
        r is None ==> class_suffix_span(t@, decorator@, suffix@) is None,
        r matches Some(s) ==> s.0 <= s.1 <= t@.len(),
{
    let d = chars_of(decorator);
    let found = find_chars(t, d.as_slice(), 0);
    if found.is_none() {
        return None;
    }
    let at = found.unwrap();
    let class_word = chars_of("class ");
    proof {
        reveal_strlit("class ");
        assert(class_word@.len() == 6);
    }
    let found_class = find_chars(t, class_word.as_slice(), at);
    if found_class.is_none() {
        return None;
    }
    let c = found_class.unwrap();
    assert(occurs_at(t@, class_word@, c as int));
    let start = c + 6;
    let end = name_end(t, start);
    if end <= start {
        return None;
    }
    let sfx = chars_of(suffix);
    if ends_with_chars(t, start, end, sfx.as_slice()) {
        None
    } else {
        Some((start, end))
    }
}

/// What `check` finds in `t`: the locations of the start and end of the
/// hit.
fn run_check(check: &Check, source: &str, t: &[char]) -> (r: Option<DiagnosticLoc>)
    requires
        t@ == source@,
        byte_len(t@) < u32::MAX,
    ensures
        r == (match check_span(*check, t@) {
            Some(span) => Some(loc_of(t@, span)),
            None => None,
        }),
{
    match check {
        Check::Regex { pattern, .. } => match first_regex_match(pattern, source) {
            Some((a, b)) => {
                assert(regex_find(pattern@, t@) == Some((a as int, b as int)));
                let (sl, sc) = lf_position(t, a);
                let (el, ec) = lf_position(t, b);
                Some(DiagnosticLoc { start_line: sl, start_column: sc, end_line: el, end_column: ec })
            },
            None => None,
        },
        Check::Contains { needle, .. } => {
            let n = chars_of(needle);
            match find_chars(t, n.as_slice(), 0) {
                Some(k) => {
                    assert(occurs_at(t@, n@, k as int));
                    let (sl, sc) = lf_position_at(t, k);
                    let (el, ec) = lf_position_at(t, k + n.len());
                    Some(DiagnosticLoc { start_line: sl, start_column: sc, end_line: el, end_column: ec })
                },
                None => None,
            }
        },
        Check::ClassSuffix { decorator, suffix, .. } => match class_suffix(t, decorator, suffix) {
            Some((start, end)) => {
                let (sl, sc) = lf_position_at(t, start);
                let (el, ec) = lf_position_at(t, end);
                Some(DiagnosticLoc { start_line: sl, start_column: sc, end_line: el, end_column: ec })
            },
            None => None,
        },
    }
}

/// Scans an Angular source file: nothing when it does not parse; otherwise
/// one report per rule whose check finds something, in check order.
pub fn scan_angular_eslint(source_text: &str, filename: &str) -> (r: Vec<Diagnostic>)
    requires
        byte_len(source_text@) < u32::MAX,
    ensures
        r@ == if oxc_parses_tsx_default(source_text@, filename@) {
            reports(angular_checks(), source_text@)
        } else {
            Seq::empty()
        },
{
    let mut diagnostics: Vec<Diagnostic> = Vec::new();
    if !parses_as_module_tsx_default(source_text, filename) {
        return diagnostics;
    }
    let t = chars_of(source_text);
    let table = checks();
    let mut i: usize = 0;
    while i < table.len()
        invariant
            i <= table@.len(),
            table@ == angular_checks(),
            t@ == source_text@,
            byte_len(t@) < u32::MAX,
            diagnostics@ == reports(table@.take(i as int), t@),
        decreases table@.len() - i,
    {
        proof {
            assert(table@.take(i + 1).drop_last() =~= table@.take(i as int));
        }
        let rule = table[i].rule();
        if !has_reported(&diagnostics, rule) {
            match run_check(&table[i], source_text, t.as_slice()) {
                Some(loc) => {
                    diagnostics.push(Diagnostic { rule_name: rule, message_id: "unexpected", loc });
                },
                None => {},
            }
        }
        i = i + 1;
    }
    proof {
        assert(table@.take(table@.len() as int) =~= table@);
    }
    diagnostics
}

/// A rule is reported at most once, whatever the checks and the source.
pub proof fn law_each_rule_reports_at_most_once(cs: Seq<Check>, t: Seq<char>)
    ensures
        forall|i: int, j: int|
            0 <= i < j < reports(cs, t).len() ==> (#[trigger] reports(cs, t)[i]).rule_name@
                != (#[trigger] reports(cs, t)[j]).rule_name@,
    decreases cs.len(),
{
    if cs.len() > 0 {
        law_each_rule_reports_at_most_once(cs.drop_last(), t);
        let before = reports(cs.drop_last(), t);
        let r = reports(cs, t);
        assert forall|i: int, j: int| 0 <= i < j < r.len() implies (#[trigger] r[i]).rule_name@
            != (#[trigger] r[j]).rule_name@ by {
            if j < before.len() {
                assert(r[i] == before[i] && r[j] == before[j]);
            } else {
                assert(r[i] == before[i]);
                assert(!has_rule(before, cs.last().spec_rule()));
            }
        }
    }
}

} // verus!
