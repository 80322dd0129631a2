use oxlint_plugins::e18e::syntax::literal_integer;
use oxlint_plugins::e18e::rules::implemented_e18e_rule_names;
use oxlint_plugins::e18e::dependencies::{
    check_ban_dependency_source, scan_package_json_dependencies, BanDependency, E18eOptions,
};

fn lodash_options(message_id: &str) -> E18eOptions {
    E18eOptions {
        rule_names: vec!["ban-dependencies".to_string()],
        banned_dependencies: vec![BanDependency {
            module_name: "lodash".to_string(),
            message_id: message_id.to_string(),
            replacement: Some("native".to_string()),
            url: None,
            description: None,
        }],
    }
}

#[test]
fn package_json_reports_each_quoted_banned_name() {
    let source = "{\n  \"dependencies\": {\n    \"lodash\": \"1\",\n    \"lodash.merge\": \"2\"\n  },\n  \"x\": \"lodash\"\n}";
    let diagnostics = scan_package_json_dependencies(source, &lodash_options("nativeReplacement"));
    assert_eq!(diagnostics.len(), 2);
    let d = &diagnostics[0];
    assert_eq!(d.rule_name, "ban-dependencies");
    assert_eq!(d.message_id, "nativeReplacement");
    assert_eq!(d.data.name.as_deref(), Some("lodash"));
    assert_eq!(d.data.replacement.as_deref(), Some("native"));
    assert!(d.data.url.is_none());
    assert!(d.fix.is_none());
    assert_eq!((d.loc.start_line, d.loc.start_column, d.loc.end_line, d.loc.end_column), (3, 4, 3, 12));
    let e = &diagnostics[1];
    assert_eq!((e.loc.start_line, e.loc.start_column, e.loc.end_column), (6, 7, 15));
}

#[test]
fn unknown_ban_message_is_removal() {
    let diagnostics = scan_package_json_dependencies("{\"lodash\": \"1\"}", &lodash_options("somethingElse"));
    assert_eq!(diagnostics[0].message_id, "removalReplacement");
    let diagnostics = scan_package_json_dependencies("{\"lodash\": \"1\"}", &lodash_options("documentedReplacement"));
    assert_eq!(diagnostics[0].message_id, "documentedReplacement");
}

#[test]
fn ban_dependencies_only_when_selected() {
    let mut options = lodash_options("simpleReplacement");
    options.rule_names = vec!["prefer-array-at".to_string()];
    assert!(scan_package_json_dependencies("{\"lodash\": \"1\"}", &options).is_empty());
    let mut defaults = E18eOptions::default();
    assert_eq!(defaults.rule_names.len(), 25);
    assert!(defaults.has_rule("ban-dependencies"));
    defaults.banned_dependencies = lodash_options("simpleReplacement").banned_dependencies;
    assert_eq!(scan_package_json_dependencies("{\"lodash\": \"1\"}", &defaults).len(), 1);
}

#[test]
fn import_sources_match_modules_and_paths() {
    let source: Vec<char> = "import x from 'lodash/fp';".chars().collect();
    let options = lodash_options("nativeReplacement");
    let d = check_ban_dependency_source(&source, &options, "lodash/fp", 14, 25).expect("banned");
    assert_eq!(d.data.name.as_deref(), Some("lodash"));
    assert_eq!((d.loc.start_column, d.loc.end_column), (14, 25));
    assert!(check_ban_dependency_source(&source, &options, "lodash", 14, 25).is_some());
    assert!(check_ban_dependency_source(&source, &options, "lodashx", 14, 25).is_none());
    assert!(check_ban_dependency_source(&source, &options, "lodash-es", 14, 25).is_none());
}

#[test]
fn implemented_rule_names_are_distinct() {
    let names = implemented_e18e_rule_names();
    assert_eq!(names.len(), 25);
    for i in 0..names.len() {
        for j in (i + 1)..names.len() {
            assert_ne!(names[i], names[j]);
        }
    }
}

#[test]
fn number_literals_read_as_integers() {
    use_integer_cases();
}

fn use_integer_cases() {
    let cases: [(&str, Option<u64>); 9] = [
        ("42", Some(42)),
        ("1_000", Some(1000)),
        ("3.00", Some(3)),
        ("7.", Some(7)),
        ("0", Some(0)),
        ("1.5", None),
        ("0x10", None),
        ("1e3", None),
        ("9007199254740993", None),
    ];
    for (raw, expected) in cases {
        assert_eq!(literal_integer(&raw.to_string()), expected, "{raw}");
    }
}
