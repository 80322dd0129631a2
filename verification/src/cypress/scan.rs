//! The Cypress scan: walk the program from its first statement, checking
//! the rules at every call.
use vstd::prelude::*;
use crate::text::{byte_len, chars_of};
use super::ast::Stmt;
use super::checks::Diagnostic;
use super::scanner::{Scanner, known, scanner_wf, walk_view};
use super::walk::{program_reports, initial_state, push_scope};
use super::oxc::{cypress_program_of, parse_cypress_program};

verus! {

/// Commands to treat as unsafe to chain on, besides the built-in ones.
#[derive(Debug, Default)]
pub struct CypressOptions {
    pub unsafe_to_chain_methods: Vec<String>,
}

/// Scans a parsed program: the reports of the walk over its statements,
/// every one of a Cypress rule.
pub fn scan_program(source_text: &str, program: &Vec<Stmt>, options: &CypressOptions) -> (r: Vec<Diagnostic>)
    requires
        byte_len(source_text@) < u32::MAX,
    ensures
        r@ == program_reports(source_text@, options.unsafe_to_chain_methods@, program@),
        known(r@),
{
    let t = chars_of(source_text);
    let mut extra: Vec<String> = Vec::new();
    let mut i: usize = 0;
    while i < options.unsafe_to_chain_methods.len()
        invariant
            i <= options.unsafe_to_chain_methods@.len(),
            extra@ == options.unsafe_to_chain_methods@.take(i as int),
        decreases options.unsafe_to_chain_methods@.len() - i,
    {
        extra.push(options.unsafe_to_chain_methods[i].clone());
        proof {
            assert(options.unsafe_to_chain_methods@.take(i + 1) =~= options.unsafe_to_chain_methods@.take(i as int).push(options.unsafe_to_chain_methods@[i as int]));
        }
        i = i + 1;
    }
    proof {
        assert(options.unsafe_to_chain_methods@.take(i as int) =~= options.unsafe_to_chain_methods@);
    }
    let mut scanner = Scanner {
        t: t.as_slice(),
        diagnostics: Vec::new(),
        scopes: Vec::new(),
        data_selector_variables: Vec::new(),
        unsafe_to_chain_methods: extra,
    };
    proof {
        assert(walk_view(scanner).scopes =~= Seq::empty());
        assert(walk_view(scanner).vars =~= Seq::empty());
        assert(push_scope(walk_view(scanner)).scopes =~= initial_state().scopes);
    }
    scanner.push_scope();
    scanner.scan_statement_list(program, None, false);
    scanner.diagnostics
}

/// Scans a source: `parse` reads it as a module, by the kind its file name
/// tells, and gives its statements, or nothing when it does not parse.
/// Nothing is reported for a source that does not parse; otherwise the
/// reports are those on the program that `parse` gave.
pub fn scan_cypress_with<F: Fn(&str, &str) -> Option<Vec<Stmt>>>(
    source_text: &str,
    filename: &str,
    options: &CypressOptions,
    parse: F,
) -> (r: Vec<Diagnostic>)
    requires
        byte_len(source_text@) < u32::MAX,
        forall|s: &str, f: &str| parse.requires((s, f)),
    ensures
        known(r@),
        exists|p: Option<Vec<Stmt>>| {
            &&& parse.ensures((source_text, filename), p)
            &&& p is None ==> r@.len() == 0
            &&& p matches Some(program) ==> r@ == program_reports(source_text@, options.unsafe_to_chain_methods@, program@)
        },
{
    let found = parse(source_text, filename);
    match found {
        Some(program) => {
            let r = scan_program(source_text, &program, options);
            assert(parse.ensures((source_text, filename), Some(program)));
            r
        },
        None => {
            assert(parse.ensures((source_text, filename), None::<Vec<Stmt>>));
            Vec::new()
        },
    }
}

/// Scans a source with the Cypress rules: the oxc parser reads it as a
/// module of the kind its file name tells, and the walk runs over what it
/// gives; a source that does not parse gets no report.
pub fn scan_cypress(source_text: &str, filename: &str, options: &CypressOptions) -> (r: Vec<Diagnostic>)
    requires
        byte_len(source_text@) < u32::MAX,
    ensures
        known(r@),
        match cypress_program_of(source_text@, filename@) {
            Some(p) => r@ == program_reports(source_text@, options.unsafe_to_chain_methods@, p),
            None => r@.len() == 0,
        },
{
    match parse_cypress_program(source_text, filename) {
        Some(program) => scan_program(source_text, &program, options),
        None => Vec::new(),
    }
}

} // verus!
