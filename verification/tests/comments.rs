use oxlint_plugins::comments::directive::{parse_directive_comment, parse_directive_text, CommentKind};
use oxlint_plugins::comments::glob::{is_restricted, pattern_matches};
use oxlint_plugins::comments::loc::{find_rule_id, lte, to_force_location, to_rule_id_location, Location, Position};
use oxlint_plugins::comments::rules::{
    disable_enable_pair, no_aggregating_enable, no_duplicate_disable, no_restricted_disable,
    no_unlimited_disable, no_unused_disable, no_unused_enable, no_use, require_description,
};
use oxlint_plugins::comments::{Comment, Problem};

fn chars(s: &str) -> Vec<char> {
    s.chars().collect()
}

fn matches(pattern: &str, rule_id: &str) -> bool {
    pattern_matches(&chars(pattern), &chars(rule_id))
}

fn block(value: &str, line: u32) -> Comment<'_> {
    Comment {
        kind: CommentKind::Block,
        value,
        loc: Location {
            start: Position { line, column: 0 },
            end: Position { line, column: value.len() as i32 + 4 },
        },
    }
}

fn block_ending(value: &str, line: u32, end_column: i32) -> Comment<'_> {
    Comment {
        kind: CommentKind::Block,
        value,
        loc: Location {
            start: Position { line, column: 0 },
            end: Position { line, column: end_column },
        },
    }
}

fn comment(kind: CommentKind, value: &str) -> Comment<'_> {
    Comment {
        kind,
        value,
        loc: Location {
            start: Position { line: 1, column: 0 },
            end: Position { line: 1, column: value.len() as i32 + 4 },
        },
    }
}

#[test]
fn find_rule_id_matches_bounded_occurrence() {
    assert_eq!(find_rule_id(" xfoo foo ", "foo"), Some(6));
    assert_eq!(find_rule_id("foo,bar", "bar"), Some(4));
    assert_eq!(find_rule_id("foobar", "foo"), None);
}

#[test]
fn find_rule_id_handles_multibyte_without_panicking() {
    let line = " xαfoo αfoo ";
    let found = find_rule_id(line, "αfoo");
    let expected = line.match_indices("αfoo").nth(1).map(|(index, _)| index);
    assert_eq!(found, expected);
    assert!(found.is_some());

    let loc = Location {
        start: Position { line: 1, column: 0 },
        end: Position { line: 1, column: 40 },
    };
    let result = to_rule_id_location(line, loc, Some("αfoo"));
    assert_eq!(result.start.line, 1);
    assert!(result.start.column > 0);
}

#[test]
fn wildcards_and_paths() {
    assert!(matches("*semi*", "semi-style"));
    assert!(matches("foo/*", "foo/bar"));
    assert!(matches("foo/*", "foo/bar/baz"));
    assert!(matches("no-undef", "no-undef"));
    assert!(!matches("no-undef", "no-undefined"));
}

#[test]
fn slashless_pattern_matches_any_segment() {
    assert!(matches("react", "react/no-array-index-key"));
    assert!(matches("@typescript-eslint", "@typescript-eslint/no-unused-vars"));
    assert!(!matches("react", "preact/no-foo"));
}

#[test]
fn anchored_pattern_stays_anchored() {
    assert!(!matches("foo/bar", "foo/barbaz"));
    assert!(matches("foo/bar", "foo/bar/deep"));
}

#[test]
fn no_patterns_reports_nothing() {
    let comments = [block("eslint-disable eqeqeq", 1)];
    assert!(no_restricted_disable(&comments, &[]).is_empty());
}

#[test]
fn restricts_plugin_scoped_rules() {
    let comments = [block("eslint-disable react/no-foo, eqeqeq", 1)];
    let diagnostics = no_restricted_disable(&comments, &["react"]);
    assert_eq!(diagnostics.len(), 1);
    assert_eq!(diagnostics.get(0).data.rule_id.as_deref(), Some("react/no-foo"));
}

#[test]
fn paired_disable_is_ok() {
    let comments = [
        block_ending("eslint-disable no-undef", 1, 27),
        block_ending("eslint-enable no-undef", 3, 26),
    ];
    assert!(disable_enable_pair(&comments, false, None).is_empty());
}

#[test]
fn allow_whole_file_skips_leading_disable() {
    let comments = [block_ending("eslint-disable", 1, 19)];
    let first_token = Position { line: 2, column: 0 };
    assert!(disable_enable_pair(&comments, true, Some(first_token)).is_empty());
}

#[test]
fn single_pair_is_ok() {
    let comments = [block("eslint-disable no-undef", 1), block("eslint-enable no-undef", 2)];
    assert!(no_aggregating_enable(&comments).is_empty());
}

#[test]
fn distinct_rules_are_ok() {
    let comments = [block("eslint-disable no-undef", 1), block("eslint-disable no-unused-vars", 2)];
    assert!(no_duplicate_disable(&comments).is_empty());
}

#[test]
fn ignores_scoped_disables_and_enables() {
    let comments = [
        comment(CommentKind::Block, "eslint-disable eqeqeq"),
        comment(CommentKind::Block, "eslint-enable"),
        comment(CommentKind::Line, "eslint-disable-line eqeqeq"),
        comment(CommentKind::Block, "not a directive"),
    ];
    assert!(no_unlimited_disable(&comments).is_empty());
}

#[test]
fn used_disable_is_ok() {
    let comments = [block("eslint-disable no-undef", 1)];
    let problems = [Problem { rule_id: Some("no-undef"), position: Position { line: 3, column: 4 } }];
    assert!(no_unused_disable(&comments, &problems).is_empty());
}

#[test]
fn matched_enable_is_ok() {
    let comments = [block("eslint-disable no-undef", 1), block("eslint-enable no-undef", 2)];
    assert!(no_unused_enable(&comments).is_empty());
}

#[test]
fn allows_everything_when_listed() {
    let comments = [comment(CommentKind::Block, "eslint-disable eqeqeq")];
    assert!(no_use(&comments, &["eslint-disable"]).is_empty());
}

#[test]
fn skips_ignored_kinds() {
    let comments = [comment(CommentKind::Block, "eslint-disable eqeqeq")];
    assert!(require_description(&comments, &["eslint-disable"]).is_empty());
}

#[test]
fn reports_unpaired_disable_at_its_location() {
    let comments = [block_ending("eslint-disable", 2, 19), block_ending("eslint-disable no-undef", 4, 27)];
    let diagnostics = disable_enable_pair(&comments, false, None);
    assert_eq!(diagnostics.len(), 2);
    assert_eq!(diagnostics.get(0).message_id, "missingPair");
    assert_eq!(diagnostics.get(1).data.rule_id.as_deref(), Some("no-undef"));
}

#[test]
fn reports_aggregating_enable_with_its_count() {
    let comments = [
        block("eslint-disable no-undef", 1),
        block("eslint-disable no-unused-vars", 2),
        block("eslint-enable", 3),
    ];
    let diagnostics = no_aggregating_enable(&comments);
    assert_eq!(diagnostics.len(), 1);
    assert_eq!(diagnostics.get(0).data.count, Some(2));
}

#[test]
fn reports_the_second_of_duplicate_disables() {
    let comments = [block("eslint-disable no-undef", 1), block("eslint-disable no-undef", 2)];
    let diagnostics = no_duplicate_disable(&comments);
    assert_eq!(diagnostics.len(), 1);
    assert_eq!(diagnostics.get(0).loc.start.line, 2);
}

#[test]
fn restricts_all_but_negated_rule() {
    let comments = [block("eslint-disable eqeqeq", 1), block("eslint-disable no-undef", 2)];
    let diagnostics = no_restricted_disable(&comments, &["*", "!eqeqeq"]);
    assert_eq!(diagnostics.len(), 1);
    assert_eq!(diagnostics.get(0).data.rule_id.as_deref(), Some("no-undef"));
}

#[test]
fn reports_each_unlimited_disable() {
    let comments = [
        comment(CommentKind::Block, "eslint-disable "),
        comment(CommentKind::Line, "eslint-disable-line"),
        comment(CommentKind::Line, "eslint-disable-next-line"),
    ];
    assert_eq!(no_unlimited_disable(&comments).len(), 3);
}

#[test]
fn reports_disable_that_suppressed_nothing() {
    let comments = [block("eslint-disable no-undef", 1)];
    let problems = [Problem { rule_id: Some("eqeqeq"), position: Position { line: 5, column: 0 } }];
    let diagnostics = no_unused_disable(&comments, &problems);
    assert_eq!(diagnostics.len(), 1);
    assert_eq!(diagnostics.get(0).data.rule_id.as_deref(), Some("no-undef"));
}

#[test]
fn reports_enable_without_disable() {
    let comments = [block("eslint-enable no-undef", 1)];
    assert_eq!(no_unused_enable(&comments).len(), 1);
}

#[test]
fn reports_disallowed_directive_kinds() {
    let comments = [
        comment(CommentKind::Block, "eslint-disable eqeqeq"),
        comment(CommentKind::Block, "eslint-enable"),
        comment(CommentKind::Line, "eslint-disable-line eqeqeq"),
        comment(CommentKind::Block, "not a directive"),
    ];
    assert_eq!(no_use(&comments, &["eslint-enable"]).len(), 2);
}

#[test]
fn reports_directives_missing_a_description() {
    let comments = [
        comment(CommentKind::Block, "eslint-disable eqeqeq"),
        comment(CommentKind::Block, "eslint-disable eqeqeq -- because"),
        comment(CommentKind::Line, "eslint-disable-line eqeqeq"),
    ];
    assert_eq!(require_description(&comments, &[]).len(), 2);
}

#[test]
fn parses_directive_kinds_values_and_descriptions() {
    let d = parse_directive_text("eslint-disable eqeqeq, no-console").expect("directive");
    assert_eq!(d.kind, "eslint-disable");
    assert_eq!(d.value, "eqeqeq, no-console");
    let d = parse_directive_text("eslint-disable eqeqeq -- because reasons").expect("directive");
    assert_eq!(d.value, "eqeqeq");
    assert_eq!(d.description.as_deref(), Some("because reasons"));
    let d = parse_directive_text("eslint-disable foo -short").expect("directive");
    assert_eq!(d.value, "foo -short");
    assert!(parse_directive_text("eslintfoo").is_none());
    assert!(parse_directive_text("eslint-disablexyz").is_none());
    assert!(parse_directive_text("").is_none());
}

#[test]
fn restricts_directive_kinds_by_comment_kind() {
    assert!(parse_directive_comment(CommentKind::Line, "eslint-disable foo", true).is_none());
    assert!(parse_directive_comment(CommentKind::Line, "eslint-disable-line foo", true).is_some());
    assert!(parse_directive_comment(CommentKind::Block, "eslint-disable-line foo", false).is_none());
    assert!(parse_directive_comment(CommentKind::Block, "eslint-disable-next-line foo", false).is_some());
}

#[test]
fn orders_positions_and_forces_whole_lines() {
    let a = Position { line: 1, column: 5 };
    let b = Position { line: 2, column: 0 };
    assert!(lte(a, b));
    assert!(!lte(b, a));
    assert!(lte(a, a));
    let forced = to_force_location(Location { start: a, end: b });
    assert_eq!(forced.start, Position { line: 1, column: -1 });
    assert_eq!(to_force_location(forced), forced);
}

#[test]
fn last_matching_restriction_pattern_wins() {
    assert!(is_restricted(&["*", "!eqeqeq"], &chars("no-undef")));
    assert!(!is_restricted(&["*", "!eqeqeq"], &chars("eqeqeq")));
    assert!(is_restricted(&["!eqeqeq", "*"], &chars("eqeqeq")));
}
