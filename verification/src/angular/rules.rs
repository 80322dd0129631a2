//! The rule names of the Angular ESLint rules and the location type of their reports.
use vstd::prelude::*;

verus! {

/// The implemented rules, in their published order.
pub open spec fn rule_names() -> Seq<&'static str> {
    seq![
        "component-class-suffix",
        "component-max-inline-declarations",
        "component-selector",
        "computed-must-return",
        "consistent-component-styles",
        "contextual-decorator",
        "contextual-lifecycle",
        "directive-class-suffix",
        "directive-selector",
        "no-async-lifecycle-method",
        "no-attribute-decorator",
        "no-developer-preview",
        "no-duplicates-in-metadata-arrays",
        "no-empty-lifecycle-method",
        "no-experimental",
        "no-forward-ref",
        "no-implicit-take-until-destroyed",
        "no-input-prefix",
        "no-input-rename",
        "no-inputs-metadata-property",
        "no-lifecycle-call",
        "no-output-native",
        "no-output-on-prefix",
        "no-output-rename",
        "no-outputs-metadata-property",
        "no-pipe-impure",
        "no-queries-metadata-property",
        "no-uncalled-signals",
        "pipe-prefix",
        "prefer-host-metadata-property",
        "prefer-inject",
        "prefer-on-push-component-change-detection",
        "prefer-output-emitter-ref",
        "prefer-output-readonly",
        "prefer-signal-model",
        "prefer-signals",
        "prefer-standalone",
        "relative-url-prefix",
        "require-lifecycle-on-prototype",
        "require-localize-metadata",
        "runtime-localize",
        "sort-keys-in-type-decorator",
        "sort-lifecycle-methods",
        "use-component-selector",
        "use-component-view-encapsulation",
        "use-injectable-provided-in",
        "use-lifecycle-interface",
        "use-pipe-transform-interface",
    ]
}

/// The implemented rules, in their published order.
pub fn implemented_angular_eslint_rule_names() -> (r: Vec<&'static str>)
    ensures
        r@ == rule_names(),
{
    vec![
        "component-class-suffix",
        "component-max-inline-declarations",
        "component-selector",
        "computed-must-return",
        "consistent-component-styles",
        "contextual-decorator",
        "contextual-lifecycle",
        "directive-class-suffix",
        "directive-selector",
        "no-async-lifecycle-method",
        "no-attribute-decorator",
        "no-developer-preview",
        "no-duplicates-in-metadata-arrays",
        "no-empty-lifecycle-method",
        "no-experimental",
        "no-forward-ref",
        "no-implicit-take-until-destroyed",
        "no-input-prefix",
        "no-input-rename",
        "no-inputs-metadata-property",
        "no-lifecycle-call",
        "no-output-native",
        "no-output-on-prefix",
        "no-output-rename",
        "no-outputs-metadata-property",
        "no-pipe-impure",
        "no-queries-metadata-property",
        "no-uncalled-signals",
        "pipe-prefix",
        "prefer-host-metadata-property",
        "prefer-inject",
        "prefer-on-push-component-change-detection",
        "prefer-output-emitter-ref",
        "prefer-output-readonly",
        "prefer-signal-model",
        "prefer-signals",
        "prefer-standalone",
        "relative-url-prefix",
        "require-lifecycle-on-prototype",
        "require-localize-metadata",
        "runtime-localize",
        "sort-keys-in-type-decorator",
        "sort-lifecycle-methods",
        "use-component-selector",
        "use-component-view-encapsulation",
        "use-injectable-provided-in",
        "use-lifecycle-interface",
        "use-pipe-transform-interface",
    ]
}

/// A report's range: one-based lines, UTF-16 columns.
#[derive(Clone, Copy, Debug, PartialEq, Eq, Structural)]
pub struct DiagnosticLoc {
    pub start_line: u32,
    pub start_column: u32,
    pub end_line: u32,
    pub end_column: u32,
}

} // verus!
