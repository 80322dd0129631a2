//! The rule names of the e18e rules and the location type of their reports.
use vstd::prelude::*;

verus! {

/// The implemented rules, in their published order.
pub open spec fn rule_names() -> Seq<&'static str> {
    seq![
        "prefer-array-at",
        "prefer-array-fill",
        "prefer-array-from-map",
        "prefer-includes",
        "prefer-array-to-reversed",
        "prefer-array-to-sorted",
        "prefer-array-to-spliced",
        "prefer-exponentiation-operator",
        "prefer-nullish-coalescing",
        "prefer-object-has-own",
        "prefer-spread-syntax",
        "prefer-url-canparse",
        "no-indexof-equality",
        "prefer-timer-args",
        "prefer-date-now",
        "prefer-regex-test",
        "prefer-array-some",
        "prefer-static-regex",
        "prefer-inline-equality",
        "prefer-string-fromcharcode",
        "prefer-includes-over-regex-test",
        "no-delete-property",
        "no-spread-in-reduce",
        "prefer-static-collator",
        "ban-dependencies",
    ]
}

/// The implemented rules, in their published order.
pub fn implemented_e18e_rule_names() -> (r: Vec<&'static str>)
    ensures
        r@ == rule_names(),
{
    vec![
        "prefer-array-at",
        "prefer-array-fill",
        "prefer-array-from-map",
        "prefer-includes",
        "prefer-array-to-reversed",
        "prefer-array-to-sorted",
        "prefer-array-to-spliced",
        "prefer-exponentiation-operator",
        "prefer-nullish-coalescing",
        "prefer-object-has-own",
        "prefer-spread-syntax",
        "prefer-url-canparse",
        "no-indexof-equality",
        "prefer-timer-args",
        "prefer-date-now",
        "prefer-regex-test",
        "prefer-array-some",
        "prefer-static-regex",
        "prefer-inline-equality",
        "prefer-string-fromcharcode",
        "prefer-includes-over-regex-test",
        "no-delete-property",
        "no-spread-in-reduce",
        "prefer-static-collator",
        "ban-dependencies",
    ]
}

/// A report's range: one-based lines, UTF-16 columns.
#[derive(Clone, Copy, Debug, PartialEq, Eq, Structural)]
pub struct DiagnosticLoc {
    pub start_line: u32,
    pub start_column: u32,
    pub end_line: u32,
    pub end_column: u32,
}

} // verus!
