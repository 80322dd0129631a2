use oxlint_plugins::cypress::rules::implemented_cypress_rule_names;
use oxlint_plugins::e18e::rules::implemented_e18e_rule_names;

#[test]
fn cypress_rule_names_are_listed_in_order() {
    let names = implemented_cypress_rule_names();
    assert_eq!(names.len(), 13);
    assert_eq!(names[0], "assertion-before-screenshot");
    assert_eq!(names[12], "unsafe-to-chain-command");
}

#[test]
fn e18e_rule_names_are_listed_in_order() {
    let names = implemented_e18e_rule_names();
    assert_eq!(names.len(), 25);
    assert_eq!(names[0], "prefer-array-at");
    assert_eq!(names[24], "ban-dependencies");
}
