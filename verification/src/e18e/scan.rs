//! The e18e scan of a file: `package.json` by its text, any other file by
//! the walk over its program.
use vstd::prelude::*;
use crate::text::{byte_len, chars_of, ends_with, ends_with_chars};
use super::ast::Stmt;
use super::source::diag_views;
use super::walk::stmts_views;
use super::scanner::scan_statements;
use super::dependencies::{
    Diagnostic, E18eOptions, names_rule, reports_are, package_json_reports, scan_package_json_dependencies,
};

verus! {

/// The walk over a program's statements, none of them inside a function.
pub fn scan_program(source_text: &str, options: &E18eOptions, program: &Vec<Stmt>) -> (r: Vec<Diagnostic>)
    requires
        byte_len(source_text@) < u32::MAX,
    ensures
        diag_views(r@) == stmts_views(source_text@, *options, false, program@),
{
    let t = chars_of(source_text);
    let mut out: Vec<Diagnostic> = Vec::new();
    scan_statements(&mut out, t.as_slice(), options, false, program);
    assert(diag_views(Seq::<Diagnostic>::empty()) + stmts_views(t@, *options, false, program@) =~= stmts_views(t@, *options, false, program@));
    out
}

/// Whether a file name ends with `package.json`.
pub fn is_package_json(filename: &str) -> (r: bool)
    ensures
        r == ends_with(filename@, "package.json"@),
{
    let f = chars_of(filename);
    let suffix = chars_of("package.json");
    assert(f@.subrange(0, f@.len() as int) =~= f@);
    ends_with_chars(f.as_slice(), 0, f.len(), suffix.as_slice())
}

/// The e18e rules on a file: a `package.json` gets `ban-dependencies` on
/// its text; any other file is read by `parse` as a module of the kind its
/// name tells, and the walk runs over what it gives; a file that does not
/// parse gets no report.
pub fn scan_e18e_with<F: Fn(&str, &str) -> Option<Vec<Stmt>>>(
    source_text: &str,
    filename: &str,
    options: &E18eOptions,
    parse: F,
) -> (r: Vec<Diagnostic>)
    requires
        byte_len(source_text@) < u32::MAX,
        forall|s: &str, f: &str| parse.requires((s, f)),
    ensures
        ends_with(filename@, "package.json"@) ==> (if names_rule(options.rule_names@, "ban-dependencies") {
            reports_are(r@, package_json_reports(source_text@, options.banned_dependencies@))
        } else {
            r@.len() == 0
        }),
        !ends_with(filename@, "package.json"@) ==> exists|p: Option<Vec<Stmt>>| {
            &&& parse.ensures((source_text, filename), p)
            &&& p is None ==> r@.len() == 0
            &&& p matches Some(program) ==> diag_views(r@) == stmts_views(source_text@, *options, false, program@)
        },
{
    if is_package_json(filename) {
        return scan_package_json_dependencies(source_text, options);
    }
    let parsed = parse(source_text, filename);
    match parsed {
        Some(program) => {
            let r = scan_program(source_text, options, &program);
            assert(parse.ensures((source_text, filename), Some(program)));
            r
        },
        None => {
            assert(parse.ensures((source_text, filename), None::<Vec<Stmt>>));
            Vec::new()
        },
    }
}

/// The e18e rules on a file: a `package.json` gets `ban-dependencies` on
/// its text; any other file is read by the oxc parser as a module of the
/// kind its name tells, and the walk runs over what it gives; a file that
/// does not parse gets no report.
pub fn scan_e18e(source_text: &str, filename: &str, options: &E18eOptions) -> (r: Vec<Diagnostic>)
    requires
        byte_len(source_text@) < u32::MAX,
    ensures
        ends_with(filename@, "package.json"@) ==> (if names_rule(options.rule_names@, "ban-dependencies") {
            reports_are(r@, package_json_reports(source_text@, options.banned_dependencies@))
        } else {
            r@.len() == 0
        }),
        !ends_with(filename@, "package.json"@) ==> match super::oxc::e18e_program_of(source_text@, filename@) {
            Some(p) => diag_views(r@) == stmts_views(source_text@, *options, false, p),
            None => r@.len() == 0,
        },
{
    if is_package_json(filename) {
        return scan_package_json_dependencies(source_text, options);
    }
    match super::oxc::parse_e18e_program(source_text, filename) {
        Some(program) => scan_program(source_text, options, &program),
        None => Vec::new(),
    }
}

} // verus!
