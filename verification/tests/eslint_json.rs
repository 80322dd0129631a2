use oxlint_plugins::eslint_json::facts::Diagnostic;
use oxlint_plugins::eslint_json::rules::implemented_eslint_json_rule_names;
use oxlint_plugins::eslint_json::natural::natural_compare;
use oxlint_plugins::eslint_json::numbers::{normalize_number_for_parse, unsafe_number_message, NumberClass};
use oxlint_plugins::eslint_json::options::{NormalizationForm, ScanOptions, SortDirection};
use oxlint_plugins::eslint_json::parser::{decode_identifier_escapes, parse_json};
use oxlint_plugins::eslint_json::scan::scan_eslint_json_with;
use oxlint_plugins::eslint_json::sort::is_valid_sort_order;
use oxlint_plugins::eslint_json::values::{escaped_surrogate, normalize_to};
use oxlint_plugins::eslint_json::options::SortOptions;
use std::cmp::Ordering;

const MAX_SAFE_INTEGER: f64 = 9_007_199_254_740_991.0;

fn classify_number(raw: &str) -> NumberClass {
    let text = normalize_number_for_parse(raw);
    match text.parse::<f64>() {
        Err(_) => NumberClass::Invalid,
        Ok(value) => {
            if !value.is_finite() {
                NumberClass::NonFinite
            } else if value == 0.0 {
                NumberClass::Zero
            } else {
                NumberClass::NonZero {
                    above_safe_integer: value.abs() > MAX_SAFE_INTEGER,
                    subnormal: value.abs() < f64::MIN_POSITIVE,
                }
            }
        }
    }
}

fn scan_eslint_json(source: &str, options: &ScanOptions) -> Vec<Diagnostic> {
    scan_eslint_json_with(source, options, classify_number)
}

fn only(rule: &str) -> ScanOptions {
    ScanOptions { rule_names: vec![rule.to_string()], ..ScanOptions::default() }
}

#[test]
fn natural_compare_matches_upstream() {
    assert_eq!(natural_compare("00", "9"), Ordering::Less);
    assert_eq!(natural_compare("a0b", "a00b"), Ordering::Greater);
    assert_eq!(natural_compare("0x", "00x"), Ordering::Greater);
    assert_eq!(natural_compare("10", "9"), Ordering::Greater);
    assert_eq!(natural_compare("1", "10"), Ordering::Less);
    assert_eq!(natural_compare("11", "2"), Ordering::Greater);
    assert_eq!(natural_compare("_", "A"), Ordering::Less);
    assert_eq!(natural_compare("$", "_"), Ordering::Less);
    assert_eq!(natural_compare("A", "a"), Ordering::Less);
    assert_eq!(natural_compare("abc", "abc"), Ordering::Equal);
}

#[test]
fn unnormalized_escaped_identifier_key_has_no_fix() {
    let source = "{\\u0065\\u0301: 1}";
    let diagnostics = scan_eslint_json(source, &ScanOptions::default());
    let unnormalized: Vec<&Diagnostic> = diagnostics
        .iter()
        .filter(|diagnostic| diagnostic.rule_name == "no-unnormalized-keys")
        .collect();
    assert_eq!(unnormalized.len(), 1);
    assert!(unnormalized[0].fix.is_none());
}

#[test]
fn scans_representative_json_rules() {
    let source = "{\"\": 1, \"b\": 2, \"a\": 3, \"b\": 4, \"e\u{301}\": \"x\", \"unsafe\": 2e308}";
    let diagnostics = scan_eslint_json(source, &ScanOptions::default());
    let rule_names: Vec<&str> = diagnostics.iter().map(|diagnostic| diagnostic.rule_name).collect();

    assert!(rule_names.contains(&"no-empty-keys"));
    assert!(rule_names.contains(&"no-duplicate-keys"));
    assert!(rule_names.contains(&"no-unnormalized-keys"));
    assert!(rule_names.contains(&"no-unsafe-values"));
    assert!(rule_names.contains(&"sort-keys"));
}

#[test]
fn honors_sort_and_normalization_options() {
    let normalization_options = ScanOptions {
        normalization_form: NormalizationForm::Nfkd,
        ..ScanOptions::default()
    };
    let normalization_diagnostics = scan_eslint_json(r#"{"é": 3}"#, &normalization_options);

    assert!(normalization_diagnostics
        .iter()
        .any(|diagnostic| diagnostic.rule_name == "no-unnormalized-keys"));

    let mut sort_options = ScanOptions::default();
    sort_options.sort.direction = SortDirection::Descending;
    let sort_diagnostics = scan_eslint_json(r#"{"b": 1, "a": 2}"#, &sort_options);
    assert!(sort_diagnostics
        .iter()
        .all(|diagnostic| diagnostic.rule_name != "sort-keys"));
}

#[test]
fn sort_keys_reports_with_swap_fix() {
    let diagnostics = scan_eslint_json(r#"{"b": 1, "a": 2}"#, &only("sort-keys"));
    assert_eq!(diagnostics.len(), 1);
    let d = &diagnostics[0];
    assert_eq!(d.message_id, "sortKeys");
    assert_eq!(d.data.this_name.as_deref(), Some("a"));
    assert_eq!(d.data.prev_name.as_deref(), Some("b"));
    assert_eq!(d.data.direction.as_deref(), Some("ascending"));
    assert_eq!(d.data.sensitivity.as_deref(), Some("sensitive"));
    assert_eq!(d.data.sort_name.as_deref(), Some("alphanumeric"));
    assert_eq!((d.loc.start_line, d.loc.start_column, d.loc.end_line, d.loc.end_column), (1, 9, 1, 12));
    let fix = d.fix.as_ref().unwrap();
    assert_eq!((fix.start, fix.end), (1, 15));
    assert_eq!(fix.replacement, r#""a": 2, "b": 1"#);
}

#[test]
fn sort_keys_fix_is_withheld_next_to_a_comment() {
    let diagnostics = scan_eslint_json("{\"b\": 1, // note\n\"a\": 2}", &only("sort-keys"));
    assert_eq!(diagnostics.len(), 1);
    assert!(diagnostics[0].fix.is_none());
    assert_eq!(diagnostics[0].loc.start_line, 2);
}

#[test]
fn sort_keys_line_separated_groups() {
    let source = "{\"b\": 1,\n\n\"a\": 2}";
    assert_eq!(scan_eslint_json(source, &only("sort-keys")).len(), 1);
    let mut options = only("sort-keys");
    options.sort.allow_line_separated_groups = true;
    assert!(scan_eslint_json(source, &options).is_empty());
    let commented = "{\"b\": 1,\n/*\n\n*/\n\"a\": 2}";
    assert_eq!(scan_eslint_json(commented, &options).len(), 1);
}

#[test]
fn sort_keys_min_keys_natural_and_case() {
    let mut options = only("sort-keys");
    options.sort.min_keys = 3;
    assert!(scan_eslint_json(r#"{"b": 1, "a": 2}"#, &options).is_empty());

    let plain = only("sort-keys");
    assert!(scan_eslint_json(r#"{"a10": 1, "a9": 2}"#, &plain).is_empty());
    let mut natural = only("sort-keys");
    natural.sort.natural = true;
    let reports = scan_eslint_json(r#"{"a10": 1, "a9": 2}"#, &natural);
    assert_eq!(reports.len(), 1);
    assert_eq!(reports[0].data.sort_name.as_deref(), Some("natural"));

    assert!(scan_eslint_json(r#"{"B": 1, "a": 2}"#, &plain).is_empty());
    let mut insensitive = only("sort-keys");
    insensitive.sort.case_sensitive = false;
    let reports = scan_eslint_json(r#"{"B": 1, "a": 2}"#, &insensitive);
    assert_eq!(reports.len(), 1);
    assert_eq!(reports[0].data.sensitivity.as_deref(), Some("insensitive"));
}

#[test]
fn valid_sort_order_directions() {
    let asc = SortOptions::default();
    let desc = SortOptions { direction: SortDirection::Descending, ..SortOptions::default() };
    assert!(is_valid_sort_order("a", "b", &asc));
    assert!(!is_valid_sort_order("b", "a", &asc));
    assert!(is_valid_sort_order("b", "a", &desc));
    assert!(is_valid_sort_order("a", "a", &desc));
    let insensitive = SortOptions { case_sensitive: false, ..SortOptions::default() };
    assert!(is_valid_sort_order("a", "B", &insensitive));
    assert!(!is_valid_sort_order("a", "B", &asc));
}

#[test]
fn duplicate_and_empty_keys() {
    let diagnostics = scan_eslint_json(r#"{"a": 1, "a": 2}"#, &only("no-duplicate-keys"));
    assert_eq!(diagnostics.len(), 1);
    assert_eq!(diagnostics[0].message_id, "duplicateKey");
    assert_eq!(diagnostics[0].data.key.as_deref(), Some("a"));
    assert_eq!((diagnostics[0].loc.start_column, diagnostics[0].loc.end_column), (9, 12));

    let diagnostics = scan_eslint_json(r#"{"  ": 1, "x": 2}"#, &only("no-empty-keys"));
    assert_eq!(diagnostics.len(), 1);
    assert_eq!(diagnostics[0].message_id, "emptyKey");
    assert_eq!((diagnostics[0].loc.start_column, diagnostics[0].loc.end_column), (1, 5));
}

#[test]
fn duplicate_identifier_key_after_decoding() {
    let diagnostics = scan_eslint_json("{a: 1, \\u0061: 2}", &only("no-duplicate-keys"));
    assert_eq!(diagnostics.len(), 1);
    assert_eq!(diagnostics[0].data.key.as_deref(), Some("\\u0061"));
}

#[test]
fn unnormalized_key_fix_and_forms() {
    let source = "{\"e\u{301}\": 1}";
    let diagnostics = scan_eslint_json(source, &only("no-unnormalized-keys"));
    assert_eq!(diagnostics.len(), 1);
    let fix = diagnostics[0].fix.as_ref().unwrap();
    assert_eq!((fix.start, fix.end), (2, 4));
    assert_eq!(fix.replacement, "\u{e9}");

    assert_eq!(normalize_to("\u{e9}", NormalizationForm::Nfd), "e\u{301}");
    assert_eq!(normalize_to("e\u{301}", NormalizationForm::Nfc), "\u{e9}");
    assert_eq!(normalize_to("\u{fb01}", NormalizationForm::Nfkc), "fi");
    assert_eq!(normalize_to("\u{fb01}", NormalizationForm::Nfkd), "fi");
    assert_eq!(normalize_to("\u{fb01}", NormalizationForm::Nfc), "\u{fb01}");
}

#[test]
fn unsafe_values_messages() {
    let cases = [
        ("[2e308]", "unsafeNumber"),
        ("[-Infinity]", "unsafeNumber"),
        ("[-NaN]", "unsafeNumber"),
        ("[9007199254740993]", "unsafeInteger"),
        ("[1e-400]", "unsafeZero"),
        ("[5e-324]", "subnormal"),
    ];
    for (source, message) in cases {
        let diagnostics = scan_eslint_json(source, &only("no-unsafe-values"));
        assert_eq!(diagnostics.len(), 1, "{source}");
        assert_eq!(diagnostics[0].message_id, message, "{source}");
    }
    for source in ["[0x1F]", "[1.5]", "[0e10]", "[9007199254740991]", "[NaN]"] {
        assert!(scan_eslint_json(source, &only("no-unsafe-values")).is_empty(), "{source}");
    }
    let d = &scan_eslint_json("[1e400]", &only("no-unsafe-values"))[0];
    assert_eq!(d.data.value.as_deref(), Some("1e400"));
    assert_eq!((d.loc.start_column, d.loc.end_column), (1, 6));
}

#[test]
fn lone_surrogates_are_reported() {
    let diagnostics = scan_eslint_json(r#"["\uD800", "\uD83D\uDE00", "\uDC00x"]"#, &only("no-unsafe-values"));
    assert_eq!(diagnostics.len(), 2);
    assert_eq!(diagnostics[0].message_id, "loneSurrogate");
    assert_eq!(diagnostics[0].data.surrogate.as_deref(), Some("\\ud800"));
    assert_eq!(diagnostics[1].data.surrogate.as_deref(), Some("\\udc00"));
    assert_eq!(escaped_surrogate(0xdbff), "\\udbff");
}

#[test]
fn top_level_interop_kinds() {
    let d = scan_eslint_json("42", &only("top-level-interop"));
    assert_eq!(d.len(), 1);
    assert_eq!(d[0].data.value_type.as_deref(), Some("Number"));
    assert_eq!((d[0].loc.start_column, d[0].loc.end_column), (0, 2));
    assert_eq!(scan_eslint_json("\"s\"", &only("top-level-interop"))[0].data.value_type.as_deref(), Some("String"));
    assert_eq!(scan_eslint_json("true", &only("top-level-interop"))[0].data.value_type.as_deref(), Some("Boolean"));
    assert_eq!(scan_eslint_json("null", &only("top-level-interop"))[0].data.value_type.as_deref(), Some("Null"));
    assert_eq!(scan_eslint_json("foo", &only("top-level-interop"))[0].data.value_type.as_deref(), Some("Identifier"));
    assert!(scan_eslint_json("[]", &only("top-level-interop")).is_empty());
    assert!(scan_eslint_json("{}", &only("top-level-interop")).is_empty());
}

#[test]
fn unparsable_json_reports_nothing() {
    assert!(scan_eslint_json(r#"{"a" 1}"#, &ScanOptions::default()).is_empty());
    assert!(scan_eslint_json("[1, 2", &ScanOptions::default()).is_empty());
    assert!(scan_eslint_json("", &ScanOptions::default()).is_empty());
    assert!(parse_json(&['[', '1']).is_none());
    assert!(parse_json(&['[', '1', ']']).is_some());
}

#[test]
fn json_reports_come_in_source_order() {
    let source = "{\"b\": {\"d\": 1, \"c\": 2},\n \"a\": 3, \"a\": 4}";
    let diagnostics = scan_eslint_json(source, &ScanOptions::default());
    let positions: Vec<(u32, u32)> = diagnostics.iter().map(|d| (d.loc.start_line, d.loc.start_column)).collect();
    let mut sorted = positions.clone();
    sorted.sort();
    assert_eq!(positions, sorted);
    assert_eq!(diagnostics[0].rule_name, "sort-keys");
    assert_eq!(diagnostics[0].data.this_name.as_deref(), Some("c"));
    assert!(diagnostics.iter().any(|d| d.rule_name == "no-duplicate-keys" && d.loc.start_line == 2));
}

#[test]
fn number_helpers() {
    assert_eq!(normalize_number_for_parse(".5"), "0.5");
    assert_eq!(normalize_number_for_parse("-.5"), "-0.5");
    assert_eq!(normalize_number_for_parse("+.5e3"), "+0.5e3");
    assert_eq!(normalize_number_for_parse("12"), "12");
    assert_eq!(unsafe_number_message("0x10", NumberClass::NonFinite), None);
    assert_eq!(unsafe_number_message("+-Infinity", NumberClass::Invalid), Some("unsafeNumber"));
    assert_eq!(unsafe_number_message("0.0e5", NumberClass::Zero), None);
    assert_eq!(unsafe_number_message("0.01e-999", NumberClass::Zero), Some("unsafeZero"));
}

#[test]
fn exposes_all_rule_names() {
    assert_eq!(
        implemented_eslint_json_rule_names(),
        [
            "no-duplicate-keys",
            "no-empty-keys",
            "no-unnormalized-keys",
            "no-unsafe-values",
            "sort-keys",
            "top-level-interop",
        ],
    );
}

#[test]
fn decode_identifier_escapes_reads_both_forms() {
    let t: Vec<char> = "a\\u0062c\\u{1F600}\\uZZ\\u{}x".chars().collect();
    assert_eq!(decode_identifier_escapes(&t, 0, t.len()), "abc\u{1F600}ZZx");
    let s: Vec<char> = "\\u00".chars().collect();
    assert_eq!(decode_identifier_escapes(&s, 0, s.len()), "");
    assert_eq!(decode_identifier_escapes(&t, 1, 7), "b");
}
