use oxlint_plugins::cypress::checks::Diagnostic;
use oxlint_plugins::cypress::scan::{scan_cypress, CypressOptions};

fn rule_names(source_text: &str) -> Vec<&'static str> {
    scan_cypress(source_text, "fixture.tsx", &CypressOptions::default())
        .into_iter()
        .map(|diagnostic| diagnostic.rule_name)
        .collect()
}

#[test]
fn scans_core_cypress_rules() {
    let rules = rule_names(
        r#"
        const a = cy.get(".foo");
        before("x", async () => { cy.get(".foo"); });
        it("x", async () => { Cypress.env("x"); });
        cy.get(".foo").and("be.visible");
        cy.debug();
        cy.pause();
        cy.xpath("//main");
        cy.wait(100);
        cy.get(".foo").click({ force: true }).should("exist");
        cy.visit("/home");
        cy.screenshot();
        "#,
    );

    assert!(rules.contains(&"no-assigning-return-values"));
    assert!(rules.contains(&"no-async-before"));
    assert!(rules.contains(&"no-async-tests"));
    assert!(rules.contains(&"no-and"));
    assert!(rules.contains(&"no-debug"));
    assert!(rules.contains(&"no-pause"));
    assert!(rules.contains(&"no-xpath"));
    assert!(rules.contains(&"no-unnecessary-waiting"));
    assert!(rules.contains(&"no-force"));
    assert!(rules.contains(&"unsafe-to-chain-command"));
    assert!(rules.contains(&"assertion-before-screenshot"));
    assert!(rules.contains(&"require-data-selectors"));
}

#[test]
fn tracks_data_selector_variables_and_wait_defaults() {
    let rules = rule_names(
        r#"
        const GOOD = "[data-cy=submit]";
        cy.get(GOOD);
        function customWait({ ms = 1 }) { cy.wait(ms); }
        "#,
    );

    assert!(!rules.contains(&"require-data-selectors"));
    assert!(rules.contains(&"no-unnecessary-waiting"));
}

#[test]
fn supports_custom_unsafe_methods() {
    let mut options = CypressOptions::default();
    options.unsafe_to_chain_methods.push("customType".into());
    let rules: Vec<&str> = scan_cypress(
        r#"cy.get("new-todo").customType("todo").should("have.class", "active");"#,
        "fixture.ts",
        &options,
    )
    .into_iter()
    .map(|diagnostic| diagnostic.rule_name)
    .collect();

    assert!(rules.contains(&"unsafe-to-chain-command"));
}

#[test]
fn no_and_has_a_fix_to_should() {
    let source = "cy.get(\"[data-cy=x]\").and(\"be.visible\");";
    let diagnostics = scan_cypress(source, "spec.js", &CypressOptions::default());
    let and: Vec<&Diagnostic> = diagnostics.iter().filter(|d| d.rule_name == "no-and").collect();
    assert_eq!(and.len(), 1);
    let fix = and[0].fix.unwrap();
    assert_eq!(&source[fix.start as usize..fix.end as usize], "and");
    assert_eq!(fix.replacement, "should");
    assert_eq!((and[0].loc.start_line, and[0].loc.start_column), (1, 0));
    assert_eq!(and[0].message_id, "unexpected");
    assert!(rule_names("cy.get(\"[data-cy=x]\").should(\"exist\").and(\"be.visible\");").iter().all(|r| *r != "no-and"));
}

#[test]
fn screenshot_after_assertion_is_fine() {
    assert!(!rule_names("cy.get(\"[data-cy=x]\").should(\"exist\");\ncy.screenshot();").contains(&"assertion-before-screenshot"));
    assert!(rule_names("cy.visit(\"/\");\ncy.screenshot();").contains(&"assertion-before-screenshot"));
    assert!(!rule_names("cy.get(\"[data-cy=x]\").screenshot();").contains(&"assertion-before-screenshot"));
}

#[test]
fn chained_get_and_selectors() {
    assert!(rule_names("cy.get(\"[data-cy=a]\").get(\"[data-cy=b]\");").contains(&"no-chained-get"));
    assert!(!rule_names("cy.get(\"[data-cy=a]\");").contains(&"no-chained-get"));
    assert!(!rule_names("cy.get(\"@alias\");").contains(&"require-data-selectors"));
    assert!(!rule_names("cy.get(flag ? \"[data-a]\" : \"@b\");").contains(&"require-data-selectors"));
    assert!(rule_names("cy.get(flag ? \"[data-a]\" : \".b\");").contains(&"require-data-selectors"));
    assert!(!rule_names("cy.get(`[data-cy=${id}]`);").contains(&"require-data-selectors"));
}

#[test]
fn waiting_and_assignment_rules() {
    assert!(!rule_names("cy.wait(\"@request\");").contains(&"no-unnecessary-waiting"));
    assert!(rule_names("const delay = 5;\ncy.wait(delay);").contains(&"no-unnecessary-waiting"));
    assert!(!rule_names("const delay = \"@x\";\ncy.wait(delay);").contains(&"no-unnecessary-waiting"));
    assert!(!rule_names("const stub = cy.stub();").contains(&"no-assigning-return-values"));
    assert!(rule_names("const el = cy.get(\"[data-a]\").first();").contains(&"no-assigning-return-values"));
}

#[test]
fn async_rules_need_cypress_in_the_callback() {
    assert!(!rule_names("it(\"x\", async () => { await fetch(\"/\"); });").contains(&"no-async-tests"));
    assert!(rule_names("test(\"x\", async function () { cy.visit(\"/\"); });").contains(&"no-async-tests"));
    assert!(rule_names("beforeEach(\"x\", async () => { cy.visit(\"/\"); });").contains(&"no-async-before"));
    assert!(!rule_names("it(\"x\", () => { cy.visit(\"/\"); });").contains(&"no-async-tests"));
}

#[test]
fn unparsable_cypress_source_reports_nothing() {
    assert!(rule_names("cy.debug(").is_empty());
    assert_eq!(rule_names("cy.debug();\ncy.pause();"), vec!["no-debug", "no-pause"]);
}
