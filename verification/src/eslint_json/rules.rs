//! The rule names of the JSON rules and the location type of their reports.
use vstd::prelude::*;

verus! {

/// The implemented rules, in their published order.
pub open spec fn rule_names() -> Seq<&'static str> {
    seq![
        "no-duplicate-keys",
        "no-empty-keys",
        "no-unnormalized-keys",
        "no-unsafe-values",
        "sort-keys",
        "top-level-interop",
    ]
}

/// The implemented rules, in their published order.
pub fn implemented_eslint_json_rule_names() -> (r: Vec<&'static str>)
    ensures
        r@ == rule_names(),
{
    vec![
        "no-duplicate-keys",
        "no-empty-keys",
        "no-unnormalized-keys",
        "no-unsafe-values",
        "sort-keys",
        "top-level-interop",
    ]
}

/// A report's range: one-based lines, UTF-16 columns.
#[derive(Clone, Copy, Debug, PartialEq, Eq, Structural)]
pub struct DiagnosticLoc {
    pub start_line: u32,
    pub start_column: u32,
    pub end_line: u32,
    pub end_column: u32,
}

} // verus!
