//! The rule names of the Astro rules and the location type of their reports.
use vstd::prelude::*;

verus! {

/// The implemented rules, in their published order.
pub open spec fn rule_names() -> Seq<&'static str> {
    seq![
        "no-deprecated-astro-canonicalurl",
        "no-deprecated-astro-fetchcontent",
        "no-deprecated-astro-resolve",
        "no-deprecated-getentrybyslug",
        "no-set-html-directive",
        "no-set-text-directive",
        "prefer-class-list-directive",
    ]
}

/// The implemented rules, in their published order.
pub fn implemented_astro_rule_names() -> (r: Vec<&'static str>)
    ensures
        r@ == rule_names(),
{
    vec![
        "no-deprecated-astro-canonicalurl",
        "no-deprecated-astro-fetchcontent",
        "no-deprecated-astro-resolve",
        "no-deprecated-getentrybyslug",
        "no-set-html-directive",
        "no-set-text-directive",
        "prefer-class-list-directive",
    ]
}

/// A report's range: one-based lines, UTF-16 columns.
#[derive(Clone, Copy, Debug, PartialEq, Eq, Structural)]
pub struct DiagnosticLoc {
    pub start_line: u32,
    pub start_column: u32,
    pub end_line: u32,
    pub end_column: u32,
}

} // verus!
