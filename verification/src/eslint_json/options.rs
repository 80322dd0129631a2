//! What a JSON scan checks: the rules it runs, the normalization form keys
//! must be in, and how keys must be sorted.
use vstd::prelude::*;
use crate::astro::report::{runs, rule_runs};

verus! {

/// The Unicode normalization form that keys must already be in.
#[derive(Clone, Copy, Debug, PartialEq, Eq, Structural)]
pub enum NormalizationForm {
    Nfc,
    Nfd,
    Nfkc,
    Nfkd,
}

impl Default for NormalizationForm {
    fn default() -> (r: Self)
        ensures
            r == NormalizationForm::Nfc,
    {
        NormalizationForm::Nfc
    }
}

/// The order that keys must follow.
#[derive(Clone, Copy, Debug, PartialEq, Eq, Structural)]
pub enum SortDirection {
    Ascending,
    Descending,
}

impl Default for SortDirection {
    fn default() -> (r: Self)
        ensures
            r == SortDirection::Ascending,
    {
        SortDirection::Ascending
    }
}

/// How `sort-keys` compares keys: the direction, whether case counts,
/// whether digit runs compare as numbers, the fewest keys an object must
/// have to be checked, and whether a blank line starts a new group.
#[derive(Clone, Copy, Debug, PartialEq, Eq, Structural)]
pub struct SortOptions {
    pub direction: SortDirection,
    pub case_sensitive: bool,
    pub natural: bool,
    pub min_keys: usize,
    pub allow_line_separated_groups: bool,
}

impl Default for SortOptions {
    fn default() -> (r: Self)
        ensures
            r == (SortOptions {
                direction: SortDirection::Ascending,
                case_sensitive: true,
                natural: false,
                min_keys: 2,
                allow_line_separated_groups: false,
            }),
    {
        SortOptions {
            direction: SortDirection::Ascending,
            case_sensitive: true,
            natural: false,
            min_keys: 2,
            allow_line_separated_groups: false,
        }
    }
}

/// The rules to run (all of them when the list is empty) and their options.
#[derive(Clone, Debug)]
pub struct ScanOptions {
    pub rule_names: Vec<String>,
    pub normalization_form: NormalizationForm,
    pub sort: SortOptions,
}

impl Default for ScanOptions {
    fn default() -> (r: Self)
        ensures
            r.rule_names@.len() == 0,
            r.normalization_form == NormalizationForm::Nfc,
            r.sort == (SortOptions {
                direction: SortDirection::Ascending,
                case_sensitive: true,
                natural: false,
                min_keys: 2,
                allow_line_separated_groups: false,
            }),
    {
        ScanOptions {
            rule_names: Vec::new(),
            normalization_form: NormalizationForm::Nfc,
            sort: SortOptions::default(),
        }
    }
}

impl ScanOptions {
    /// Whether `rule_name` runs: the list is empty or names it.
    pub fn is_enabled(&self, rule_name: &'static str) -> (r: bool)
        ensures
            r == runs(self.rule_names@, rule_name),
    {
        rule_runs(&self.rule_names, rule_name)
    }
}

} // verus!
