//! `ban-dependencies`: a `package.json` that names a banned module, and an
//! import source that is a banned module or a path inside one.
use vstd::prelude::*;
use crate::text::{byte_len, chars_of, find_from, occurs_at, find_chars, str_eq, slice_eq, string_of, push_char};
use crate::lines::{lf_count, lf_column, chars_before, lf_position_at};
use crate::astro::report::{byte_offsets, byte_at};
use super::rules::{DiagnosticLoc, implemented_e18e_rule_names, rule_names};

verus! {

/// A banned module: its name, the message to report, and the data of the
/// report.
#[derive(Clone, Debug)]
pub struct BanDependency {
    pub module_name: String,
    pub message_id: String,
    pub replacement: Option<String>,
    pub url: Option<String>,
    pub description: Option<String>,
}

/// The rules to run and the banned modules.
#[derive(Clone, Debug)]
pub struct E18eOptions {
    pub rule_names: Vec<String>,
    pub banned_dependencies: Vec<BanDependency>,
}

impl Default for E18eOptions {
    fn default() -> (r: Self)
        ensures
            r.rule_names@.len() == rule_names().len(),
            forall|i: int| 0 <= i < r.rule_names@.len() ==> (#[trigger] r.rule_names@[i])@ == rule_names()[i]@,
            r.banned_dependencies@.len() == 0,
    {
        let names = implemented_e18e_rule_names();
        let mut rule_names_list: Vec<String> = Vec::new();
        let mut i: usize = 0;
        while i < names.len()
            invariant
                i <= names@.len(),
                names@ == rule_names(),
                rule_names_list@.len() == i,
                forall|k: int| 0 <= k < i ==> (#[trigger] rule_names_list@[k])@ == rule_names()[k]@,
            decreases names@.len() - i,
        {
            rule_names_list.push(string_of(names[i]));
            i = i + 1;
        }
        E18eOptions { rule_names: rule_names_list, banned_dependencies: Vec::new() }
    }
}

/// Whether the list names `rule`.
pub open spec fn names_rule(names: Seq<String>, rule: &'static str) -> bool {
    exists|i: int| 0 <= i < names.len() && (#[trigger] names[i])@ == rule@
}

impl E18eOptions {
    /// Whether the rule `rule_name` runs: the list names it.
    pub fn has_rule(&self, rule_name: &'static str) -> (r: bool)
        ensures
            r == names_rule(self.rule_names@, rule_name),
    {
        let mut i: usize = 0;
        while i < self.rule_names.len()
            invariant
                i <= self.rule_names@.len(),
                forall|k: int| 0 <= k < i ==> (#[trigger] self.rule_names@[k])@ != rule_name@,
            decreases self.rule_names@.len() - i,
        {
            if str_eq(self.rule_names[i].as_str(), rule_name) {
                return true;
            }
            i = i + 1;
        }
        false
    }
}

/// What a report carries besides its rule, message and location.
#[derive(Clone, Debug, Default)]
pub struct DiagnosticData {
    pub array: Option<String>,
    pub index: Option<String>,
    pub item: Option<String>,
    pub length: Option<String>,
    pub value: Option<String>,
    pub iterable: Option<String>,
    pub mapper: Option<String>,
    pub regex: Option<String>,
    pub string: Option<String>,
    pub original: Option<String>,
    pub name: Option<String>,
    pub replacement: Option<String>,
    pub url: Option<String>,
    pub description: Option<String>,
}

/// A replacement of the source bytes `start..end`.
#[derive(Clone, Debug)]
pub struct DiagnosticFix {
    pub start: u32,
    pub end: u32,
    pub replacement: String,
}

/// A reported rule violation.
#[derive(Clone, Debug)]
pub struct Diagnostic {
    pub rule_name: &'static str,
    pub message_id: &'static str,
    pub data: DiagnosticData,
    pub loc: DiagnosticLoc,
    pub fix: Option<DiagnosticFix>,
}

/// The characters of an optional string.
pub open spec fn opt_view(o: Option<String>) -> Option<Seq<char>> {
    match o {
        Some(s) => Some(s@),
        None => None,
    }
}

/// A `ban-dependencies` report as values: its message, the module's name,
/// replacement, URL and description, and its location.
pub struct BanReport {
    pub message_id: &'static str,
    pub name: Seq<char>,
    pub replacement: Option<Seq<char>>,
    pub url: Option<Seq<char>>,
    pub description: Option<Seq<char>>,
    pub loc: DiagnosticLoc,
}

/// A report of `ban-dependencies` with its values; the other data fields
/// are empty and there is no fix.
pub open spec fn is_ban_report(d: Diagnostic, r: BanReport) -> bool {
    &&& d.rule_name == "ban-dependencies"
    &&& d.message_id == r.message_id
    &&& d.data.name matches Some(n) && n@ == r.name
    &&& opt_view(d.data.replacement) == r.replacement
    &&& opt_view(d.data.url) == r.url
    &&& opt_view(d.data.description) == r.description
    &&& d.data.array is None && d.data.index is None && d.data.item is None && d.data.length is None
    &&& d.data.value is None && d.data.iterable is None && d.data.mapper is None && d.data.regex is None
    &&& d.data.string is None && d.data.original is None
    &&& d.loc == r.loc
    &&& d.fix is None
}

/// The message of a banned module's report: its own when it is one of the
/// four known ones, else `removalReplacement`.
pub open spec fn ban_message(id: Seq<char>) -> &'static str {
    if id == "nativeReplacement"@ {
        "nativeReplacement"
    } else if id == "documentedReplacement"@ {
        "documentedReplacement"
    } else if id == "simpleReplacement"@ {
        "simpleReplacement"
    } else {
        "removalReplacement"
    }
}

/// The location of the characters `start..end` of `t`.
pub open spec fn chars_loc(t: Seq<char>, start: int, end: int) -> DiagnosticLoc {
    DiagnosticLoc {
        start_line: (1 + lf_count(t.take(start))) as u32,
        start_column: lf_column(t.take(start)) as u32,
        end_line: (1 + lf_count(t.take(end))) as u32,
        end_column: lf_column(t.take(end)) as u32,
    }
}

/// The report of a banned module at the characters `start..end` of `t`.
pub open spec fn ban_report(dep: BanDependency, t: Seq<char>, start: int, end: int) -> BanReport {
    BanReport {
        message_id: ban_message(dep.message_id@),
        name: dep.module_name@,
        replacement: opt_view(dep.replacement),
        url: opt_view(dep.url),
        description: opt_view(dep.description),
        loc: chars_loc(t, start, end),
    }
}

/// A copy of an optional string.
fn clone_opt(o: &Option<String>) -> (r: Option<String>)
    ensures
        opt_view(r) == opt_view(*o),
{
    match o {
        Some(s) => Some(s.clone()),
        None => None,
    }
}

/// The report of a banned module at the characters `start..end` of `t`.
pub fn ban_dependency_diagnostic(dependency: &BanDependency, t: &[char], start: usize, end: usize) -> (r: Diagnostic)
    requires
        start <= t@.len(),
        end <= t@.len(),
        byte_len(t@) < u32::MAX,
    ensures
        is_ban_report(r, ban_report(*dependency, t@, start as int, end as int)),
{
    let id = dependency.message_id.as_str();
    let message_id = if str_eq(id, "nativeReplacement") {
        "nativeReplacement"
    } else if str_eq(id, "documentedReplacement") {
        "documentedReplacement"
    } else if str_eq(id, "simpleReplacement") {
        "simpleReplacement"
    } else {
        "removalReplacement"
    };
    let mut data = DiagnosticData {
        array: None,
        index: None,
        item: None,
        length: None,
        value: None,
        iterable: None,
        mapper: None,
        regex: None,
        string: None,
        original: None,
        name: None,
        replacement: None,
        url: None,
        description: None,
    };
    data.name = Some(dependency.module_name.clone());
    data.replacement = clone_opt(&dependency.replacement);
    data.url = clone_opt(&dependency.url);
    data.description = clone_opt(&dependency.description);
    let (sl, sc) = lf_position_at(t, start);
    let (el, ec) = lf_position_at(t, end);
    Diagnostic {
        rule_name: "ban-dependencies",
        message_id,
        data,
        loc: DiagnosticLoc { start_line: sl, start_column: sc, end_line: el, end_column: ec },
        fix: None,
    }
}

/// The name in double quotes.
pub open spec fn quoted(name: Seq<char>) -> Seq<char> {
    seq!['"'] + name + seq!['"']
}

/// The starts of the occurrences of `n` in `t` from `i` on, left to right,
/// each search resuming after the occurrence found.
pub open spec fn occurrences(t: Seq<char>, n: Seq<char>, i: int) -> Seq<int>
    decreases t.len() + 1 - i,
{
    if n.len() == 0 || i < 0 {
        Seq::empty()
    } else {
        match find_from(t, n, i) {
            Some(k) => if k >= i {
                proof {
                    crate::text::lemma_find_from_found(t, n, i);
                }
                seq![k] + occurrences(t, n, k + n.len())
            } else {
                Seq::empty()
            },
            None => Seq::empty(),
        }
    }
}

/// The reports of one banned module in a `package.json`: one at each
/// quoted occurrence of its name.
pub open spec fn package_reports(t: Seq<char>, dep: BanDependency) -> Seq<BanReport> {
    let n = quoted(dep.module_name@);
    occurrences(t, n, 0).map_values(|k: int| ban_report(dep, t, k, k + n.len()))
}

/// The reports of every banned module in a `package.json`, module by
/// module.
pub open spec fn package_json_reports(t: Seq<char>, deps: Seq<BanDependency>) -> Seq<BanReport>
    decreases deps.len(),
{
    if deps.len() == 0 {
        Seq::empty()
    } else {
        package_json_reports(t, deps.drop_last()) + package_reports(t, deps.last())
    }
}

/// The reports match the expected ones, one for one.
pub open spec fn reports_are(ds: Seq<Diagnostic>, rs: Seq<BanReport>) -> bool {
    ds.len() == rs.len() && forall|i: int| 0 <= i < ds.len() ==> is_ban_report(#[trigger] ds[i], rs[i])
}

/// The name in double quotes, as characters.
fn quoted_chars(name: &String) -> (r: Vec<char>)
    ensures
        r@ == quoted(name@),
{
    let n = chars_of(name.as_str());
    let mut r: Vec<char> = Vec::new();
    r.push('"');
    let mut i: usize = 0;
    while i < n.len()
        invariant
            i <= n@.len(),
            r@ == seq!['"'] + n@.take(i as int),
        decreases n@.len() - i,
    {
        r.push(n[i]);
        assert(n@.take(i + 1) =~= n@.take(i as int).push(n@[i as int]));
        i = i + 1;
    }
    r.push('"');
    assert(n@.take(n@.len() as int) =~= n@);
    assert(r@ =~= quoted(name@));
    r
}

/// Appends the reports of one banned module in a `package.json`.
fn push_package_reports(t: &[char], dep: &BanDependency, out: &mut Vec<Diagnostic>, Ghost(expected): Ghost<Seq<BanReport>>)
    requires
        byte_len(t@) < u32::MAX,
        reports_are(old(out)@, expected),
    ensures
        reports_are(final(out)@, expected + package_reports(t@, *dep)),
{
    let needle = quoted_chars(&dep.module_name);
    let ghost n = needle@;
    let ghost f = |k: int| ban_report(*dep, t@, k, k + n.len());
    let ghost all = occurrences(t@, n, 0);
    let ghost mut done: Seq<int> = Seq::empty();
    let mut from: usize = 0;
    loop
        invariant
            byte_len(t@) < u32::MAX,
            n == needle@,
            n == quoted(dep.module_name@),
            n.len() >= 2,
            from <= t@.len() + 1,
            all == occurrences(t@, n, 0),
            all == done + occurrences(t@, n, from as int),
            reports_are(out@, expected + done.map_values(f)),
            forall|k: int| #[trigger] f(k) == ban_report(*dep, t@, k, k + n.len()),
        decreases t@.len() + 1 - from,
    {
        match find_chars(t, needle.as_slice(), from) {
            Some(k) => {
                let d = ban_dependency_diagnostic(dep, t, k, k + needle.len());
                let ghost before = out@;
                out.push(d);
                proof {
                    let e2 = expected + done.push(k as int).map_values(f);
                    assert(done.push(k as int).map_values(f) =~= done.map_values(f).push(f(k as int)));
                    assert(out@ == before.push(d));
                    assert forall|i: int| 0 <= i < out@.len() implies is_ban_report(#[trigger] out@[i], e2[i]) by {
                        if i < before.len() {
                            assert(out@[i] == before[i]);
                            assert(e2[i] == (expected + done.map_values(f))[i]);
                        } else {
                            assert(e2[i] == f(k as int));
                        }
                    }
                    assert(occurrences(t@, n, from as int) == seq![k as int] + occurrences(t@, n, k + n.len()));
                    assert(done + occurrences(t@, n, from as int) =~= done.push(k as int) + occurrences(t@, n, k + n.len()));
                    done = done.push(k as int);
                }
                from = k + needle.len();
            },
            None => {
                proof {
                    assert(occurrences(t@, n, from as int) =~= Seq::<int>::empty());
                    assert(done + Seq::<int>::empty() =~= done);
                    assert(package_reports(t@, *dep) =~= all.map_values(f));
                }
                return;
            },
        }
    }
}

/// `ban-dependencies` on a `package.json`: when the rule runs, a report at
/// each quoted occurrence of each banned module's name, module by module.
pub fn scan_package_json_dependencies(source_text: &str, options: &E18eOptions) -> (r: Vec<Diagnostic>)
    requires
        byte_len(source_text@) < u32::MAX,
    ensures
        !names_rule(options.rule_names@, "ban-dependencies") ==> r@.len() == 0,
        names_rule(options.rule_names@, "ban-dependencies") ==> reports_are(r@, package_json_reports(source_text@, options.banned_dependencies@)),
{
    let mut out: Vec<Diagnostic> = Vec::new();
    if !options.has_rule("ban-dependencies") {
        return out;
    }
    let t = chars_of(source_text);
    let deps = &options.banned_dependencies;
    let mut i: usize = 0;
    while i < deps.len()
        invariant
            i <= deps@.len(),
            t@ == source_text@,
            byte_len(t@) < u32::MAX,
            reports_are(out@, package_json_reports(t@, deps@.take(i as int))),
        decreases deps@.len() - i,
    {
        assert(deps@.take(i + 1).drop_last() =~= deps@.take(i as int));
        push_package_reports(t.as_slice(), &deps[i], &mut out, Ghost(package_json_reports(t@, deps@.take(i as int))));
        i = i + 1;
    }
    assert(deps@.take(deps@.len() as int) =~= deps@);
    out
}

/// Whether an import source is the module `name` or a path inside it.
pub open spec fn source_is_module(source: Seq<char>, name: Seq<char>) -> bool {
    source == name || (source.len() > name.len() && source.subrange(0, name.len() as int) == name && source[name.len() as int] == '/')
}

/// The first banned module that an import source is, or is a path inside.
pub open spec fn banned_module_of(deps: Seq<BanDependency>, source: Seq<char>, i: int) -> Option<int>
    decreases deps.len() - i,
{
    if i < 0 || i >= deps.len() {
        None
    } else if source_is_module(source, deps[i].module_name@) {
        Some(i)
    } else {
        banned_module_of(deps, source, i + 1)
    }
}

/// Whether an import source is the module `name` or a path inside it.
fn is_module_source(source: &[char], name: &String) -> (r: bool)
    ensures
        r == source_is_module(source@, name@),
{
    let n = chars_of(name.as_str());
    if source.len() == n.len() {
        assert(source@.subrange(0, source@.len() as int) =~= source@);
        return slice_eq(source, 0, source.len(), n.as_slice());
    }
    if source.len() > n.len() {
        let prefix = slice_eq(source, 0, n.len(), n.as_slice());
        return prefix && source[n.len()] == '/';
    }
    false
}

/// `ban-dependencies` on an import or `require` source at the characters
/// `start..end` of `t`: the report of the first banned module it is, or is
/// a path inside, when the rule runs.
pub fn check_ban_dependency_source(t: &[char], options: &E18eOptions, source: &str, start: usize, end: usize) -> (r: Option<Diagnostic>)
    requires
        start <= t@.len(),
        end <= t@.len(),
        byte_len(t@) < u32::MAX,
    ensures
        match r {
            Some(d) => {
                &&& names_rule(options.rule_names@, "ban-dependencies")
                &&& banned_module_of(options.banned_dependencies@, source@, 0) is Some
                &&& is_ban_report(d, ban_report(options.banned_dependencies@[banned_module_of(options.banned_dependencies@, source@, 0)->0], t@, start as int, end as int))
            },
            None => !names_rule(options.rule_names@, "ban-dependencies")
                || banned_module_of(options.banned_dependencies@, source@, 0) is None,
        },
{
    if !options.has_rule("ban-dependencies") {
        return None;
    }
    let s = chars_of(source);
    let deps = &options.banned_dependencies;
    let mut i: usize = 0;
    while i < deps.len()
        invariant
            i <= deps@.len(),
            s@ == source@,
            start <= t@.len(),
            end <= t@.len(),
            byte_len(t@) < u32::MAX,
            names_rule(options.rule_names@, "ban-dependencies"),
            deps@ == options.banned_dependencies@,
            banned_module_of(deps@, source@, 0) == banned_module_of(deps@, source@, i as int),
        decreases deps@.len() - i,
    {
        if is_module_source(s.as_slice(), &deps[i].module_name) {
            return Some(ban_dependency_diagnostic(&deps[i], t, start, end));
        }
        i = i + 1;
    }
    None
}

} // verus!
