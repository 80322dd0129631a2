//! The rule names of the Cypress rules and the location type of their reports.
use vstd::prelude::*;

verus! {

/// The implemented rules, in their published order.
pub open spec fn rule_names() -> Seq<&'static str> {
    seq![
        "assertion-before-screenshot",
        "no-and",
        "no-assigning-return-values",
        "no-async-before",
        "no-async-tests",
        "no-chained-get",
        "no-debug",
        "no-force",
        "no-pause",
        "no-unnecessary-waiting",
        "no-xpath",
        "require-data-selectors",
        "unsafe-to-chain-command",
    ]
}

/// The implemented rules, in their published order.
pub fn implemented_cypress_rule_names() -> (r: Vec<&'static str>)
    ensures
        r@ == rule_names(),
{
    vec![
        "assertion-before-screenshot",
        "no-and",
        "no-assigning-return-values",
        "no-async-before",
        "no-async-tests",
        "no-chained-get",
        "no-debug",
        "no-force",
        "no-pause",
        "no-unnecessary-waiting",
        "no-xpath",
        "require-data-selectors",
        "unsafe-to-chain-command",
    ]
}

/// A report's range: one-based lines, UTF-16 columns.
#[derive(Clone, Copy, Debug, PartialEq, Eq, Structural)]
pub struct DiagnosticLoc {
    pub start_line: u32,
    pub start_column: u32,
    pub end_line: u32,
    pub end_column: u32,
}

} // verus!
