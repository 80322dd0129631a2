use oxlint_plugins::e18e::dependencies::{BanDependency, Diagnostic, E18eOptions};
use oxlint_plugins::e18e::scan::scan_e18e;

fn scan_file(source: &str, filename: &str, options: &E18eOptions) -> Vec<Diagnostic> {
    scan_e18e(source, filename, options)
}

fn only(rule: &str) -> E18eOptions {
    E18eOptions { rule_names: vec![rule.to_string()], banned_dependencies: Vec::new() }
}

fn scan(rule: &str, source: &str) -> Vec<Diagnostic> {
    scan_file(source, "sample.ts", &only(rule))
}

fn fix_of(d: &Diagnostic) -> &str {
    d.fix.as_ref().expect("diagnostic should include a fix").replacement.as_str()
}

fn modern_array_rules() {
    let diagnostics = scan("prefer-array-from-map", "const out = [...items].map(item => item.id);");
    assert_eq!(diagnostics[0].message_id, "preferArrayFrom");
    assert_eq!(fix_of(&diagnostics[0]), "Array.from(items, item => item.id)");

    let diagnostics = scan("prefer-array-at", "const last = items[items.length - 1];");
    assert_eq!(diagnostics[0].message_id, "preferAt");
    assert_eq!(fix_of(&diagnostics[0]), "items.at(-1)");
}

fn performance_rules() {
    let diagnostics = scan("prefer-exponentiation-operator", "const x = Math.pow(a, 2);");
    assert_eq!(fix_of(&diagnostics[0]), "(a) ** (2)");

    let diagnostics = scan("prefer-string-fromcharcode", "String.fromCodePoint(65, 66);");
    assert_eq!(diagnostics[0].loc.start_column, 7);
    assert_eq!(fix_of(&diagnostics[0]), "fromCharCode");
}

fn boolean_rules() {
    let diagnostics = scan("prefer-includes", "if (items.indexOf(id) !== -1) ok();");
    assert_eq!(fix_of(&diagnostics[0]), "items.includes(id)");

    let diagnostics = scan("prefer-array-some", "if (items.filter(fn).length > 0) ok();");
    assert_eq!(fix_of(&diagnostics[0]), "items.some(fn)");
}

fn ban_dependencies() {
    let diagnostics = scan_file(
        "import merge from 'lodash.merge';",
        "sample.js",
        &E18eOptions {
            rule_names: vec!["ban-dependencies".to_string()],
            banned_dependencies: vec![BanDependency {
                module_name: "lodash.merge".to_string(),
                message_id: "documentedReplacement".to_string(),
                replacement: Some("deepmerge-ts".to_string()),
                url: Some("https://example.com".to_string()),
                description: None,
            }],
        },
    );
    assert_eq!(diagnostics[0].message_id, "documentedReplacement");
    assert_eq!(diagnostics[0].data.name.as_deref(), Some("lodash.merge"));
}

#[test]
fn lib_modern_array_rules_report_and_fix() {
    modern_array_rules();
}

#[test]
fn tests_modern_array_rules_report_and_fix() {
    modern_array_rules();
}

#[test]
fn lib_performance_rules_report_and_fix() {
    performance_rules();
}

#[test]
fn tests_performance_rules_report_and_fix() {
    performance_rules();
}

#[test]
fn lib_boolean_rules_report_and_fix() {
    boolean_rules();
}

#[test]
fn tests_boolean_rules_report_and_fix() {
    boolean_rules();
}

#[test]
fn lib_ban_dependencies_uses_options() {
    ban_dependencies();
}

#[test]
fn tests_ban_dependencies_uses_options() {
    ban_dependencies();
}

fn fixes(rule: &str, source: &str) -> Vec<String> {
    scan(rule, source).iter().map(|d| fix_of(d).to_string()).collect()
}

#[test]
fn array_fill_both_forms() {
    let d = scan("prefer-array-fill", "const a = Array.from({length: n}, () => 0);");
    assert_eq!(d[0].message_id, "preferFillArrayFrom");
    assert_eq!(fix_of(&d[0]), "Array.from({length: n}).fill(0)");
    assert_eq!(d[0].data.length.as_deref(), Some("n"));
    assert_eq!(d[0].data.value.as_deref(), Some("0"));
    let d = scan("prefer-array-fill", "const a = [...Array(3)].map(function () { return 'x'; });");
    assert_eq!(d[0].message_id, "preferFillSpreadMap");
    assert_eq!(fix_of(&d[0]), "Array(3).fill('x')");
    assert!(scan("prefer-array-fill", "const a = Array.from({length: n}, (i) => i);").is_empty());
}

#[test]
fn spread_syntax_forms() {
    assert_eq!(fixes("prefer-spread-syntax", "x = a.concat(b, [c, d], ...e);"), vec!["[...a, ...b, c, d, ...e]"]);
    assert_eq!(fixes("prefer-spread-syntax", "x = [1, ...y].concat(z);"), vec!["[1, ...y, ...z]"]);
    assert!(scan("prefer-spread-syntax", "x = Buffer.concat(list);").is_empty());
    assert_eq!(fixes("prefer-spread-syntax", "x = Array.from(set);"), vec!["[...set]"]);
    assert!(scan("prefer-spread-syntax", "x = Array.from({length: 2});").is_empty());
    assert_eq!(fixes("prefer-spread-syntax", "x = Object.assign({a: 1}, b, c);"), vec!["{a: 1, ...b, ...c}"]);
    assert_eq!(fixes("prefer-spread-syntax", "x = Object.assign({}, b);"), vec!["{...b}"]);
    assert_eq!(fixes("prefer-spread-syntax", "f.apply(null, args);"), vec!["f(...args)"]);
    assert!(scan("prefer-spread-syntax", "f.apply(this, args);").is_empty());
}

#[test]
fn copy_methods() {
    let d = scan("prefer-array-to-sorted", "const s = [...list].sort(cmp);");
    assert_eq!(d[0].message_id, "preferToSorted");
    assert_eq!(fix_of(&d[0]), "list.toSorted(cmp)");
    assert_eq!(d[0].data.array.as_deref(), Some("list"));
    assert_eq!(fixes("prefer-array-to-reversed", "const r = list.slice().reverse();"), vec!["list.toReversed()"]);
    assert_eq!(fixes("prefer-array-to-spliced", "const r = Array.from(list).splice(1, 2);"), vec!["list.toSpliced(1, 2)"]);
    assert_eq!(fixes("prefer-array-to-reversed", "const r = list?.slice().reverse();"), vec!["list.toReversed()"]);
}

#[test]
fn object_has_own_and_date_now() {
    assert_eq!(fixes("prefer-object-has-own", "Object.prototype.hasOwnProperty.call(o, k);"), vec!["Object.hasOwn(o, k)"]);
    assert_eq!(fixes("prefer-object-has-own", "o.hasOwnProperty(k);"), vec!["Object.hasOwn(o, k)"]);
    assert_eq!(fixes("prefer-date-now", "a = new Date().getTime(); b = +new Date(); c = Number(new Date());"), vec!["Date.now()", "Date.now()"]);
    assert!(scan("prefer-date-now", "a = new Date(1).getTime();").is_empty());
}

#[test]
fn regex_rules() {
    let d = scan("prefer-regex-test", "if (s.match(/a/)) f();");
    assert_eq!(fix_of(&d[0]), "/a/.test(s)");
    assert_eq!(d[0].data.original.as_deref(), Some("s.match(/a/)"));
    assert_eq!(fixes("prefer-regex-test", "while (/b/.exec(s)) f();"), vec!["/b/.test(s)"]);
    assert!(scan("prefer-regex-test", "const m = s.match(/a/);").is_empty());
    assert_eq!(fixes("prefer-includes-over-regex-test", "/^abc$/.test(s);"), vec!["s === \"abc\""]);
    assert_eq!(fixes("prefer-includes-over-regex-test", "/^abc/.test(s);"), vec!["s.startsWith(\"abc\")"]);
    assert_eq!(fixes("prefer-includes-over-regex-test", "/abc$/.test(s);"), vec!["s.endsWith(\"abc\")"]);
    assert_eq!(fixes("prefer-includes-over-regex-test", "/abc/.test(s);"), vec!["s.includes(\"abc\")"]);
    assert!(scan("prefer-includes-over-regex-test", "/abc/i.test(s);").is_empty());
    assert!(scan("prefer-includes-over-regex-test", "/a.c/.test(s);").is_empty());
    let d = scan("prefer-static-regex", "function f() { return /a/.test(s) || new RegExp('b', 'i').test(s); } const top = /c/;");
    assert_eq!(d.len(), 2);
    assert!(scan("prefer-static-regex", "function f() { return /a/g; }").is_empty());
}

#[test]
fn comparison_rules() {
    assert_eq!(fixes("prefer-includes", "if (a.indexOf(x) === -1) f();"), vec!["!a.includes(x)"]);
    assert_eq!(fixes("prefer-includes", "if (-1 < a.indexOf(x)) f();"), vec!["a.includes(x)"]);
    assert_eq!(fixes("prefer-includes", "if (0 <= a.indexOf(x)) f();"), vec!["a.includes(x)"]);
    assert_eq!(fixes("prefer-includes", "if (~a.indexOf(x)) f(); if (!~a.indexOf(y)) g();"), vec!["a.includes(x)", "!a.includes(y)", "a.includes(y)"]);
    let d = scan("no-indexof-equality", "if (s.indexOf(t) === 3) f();");
    assert_eq!(d[0].message_id, "preferDirectAccess");
    assert_eq!(fix_of(&d[0]), "s[3] === t");
    assert_eq!(d[0].data.index.as_deref(), Some("3"));
    assert_eq!(fixes("no-indexof-equality", "if (s.indexOf(t) == 0) f();"), vec!["s.startsWith(t)"]);
    assert!(scan("no-indexof-equality", "if (s.indexOf(t) === 1.5) f();").is_empty());
    assert_eq!(fixes("prefer-array-some", "if (a.find(f) !== undefined) g();"), vec!["a.some(f)"]);
    assert_eq!(fixes("prefer-array-some", "if (a.filter(f).length === 0) g();"), vec!["!a.some(f)"]);
    assert_eq!(fixes("prefer-array-some", "if (!a.find(f)) g();"), vec!["!a.some(f)", "a.some(f)"]);
    assert_eq!(fixes("prefer-array-some", "if (a.find(f)) g();"), vec!["a.some(f)"]);
}

#[test]
fn nullish_and_delete_rules() {
    assert_eq!(fixes("prefer-nullish-coalescing", "x = a == null ? b : a;"), vec!["a ?? b"]);
    assert_eq!(fixes("prefer-nullish-coalescing", "x = a !== null && a !== undefined ? a : b;"), vec!["a ?? b"]);
    assert_eq!(fixes("prefer-nullish-coalescing", "if (a == null) { a = 1; }"), vec!["a ??= 1"]);
    assert!(scan("prefer-nullish-coalescing", "if (a == null) a = 1; else b();").is_empty());
    let d = scan("no-delete-property", "delete o.p; x = delete o['q'];");
    assert_eq!(d.len(), 2);
    assert_eq!(fix_of(&d[0]), "o.p = undefined");
    assert!(d[1].fix.is_none());
    assert!(scan("no-delete-property", "delete o[k];").is_empty());
}

#[test]
fn timer_inline_url_and_reduce_rules() {
    assert_eq!(fixes("prefer-timer-args", "setTimeout(() => run(a, b), 10);"), vec!["setTimeout(run, 10, a, b)"]);
    assert_eq!(fixes("prefer-timer-args", "window.setInterval(run.bind(null, a), 5);"), vec!["window.setInterval(run, 5, a)"]);
    assert!(scan("prefer-timer-args", "setTimeout(() => obj.run(), 10);").is_empty());
    assert_eq!(fixes("prefer-inline-equality", "if ([1, 'a', b].includes(x)) f();"), vec!["1 === x || 'a' === x || b === x"]);
    assert!(scan("prefer-inline-equality", "if ([f()].includes(x)) g();").is_empty());
    assert_eq!(
        fixes("prefer-url-canparse", "function ok(u) { try { new URL(u); return true; } catch { return false; } }"),
        vec!["return URL.canParse(u)"]
    );
    let d = scan("no-spread-in-reduce", "xs.reduce((acc, x) => ({...acc, [x]: 1}), {});");
    assert_eq!(d.len(), 1);
    assert!(d[0].fix.is_none());
    let d = scan("prefer-static-collator", "function f() { return Intl.Collator(); } Intl.Collator();");
    assert_eq!(d.len(), 1);
}

#[test]
fn only_selected_rules_and_unparsable_sources() {
    assert!(scan("prefer-array-at", "const x = Math.pow(a, 2);").is_empty());
    assert!(scan("prefer-exponentiation-operator", "const x = ;").is_empty());
    let d = scan_file("require('lodash/fp');", "a.js", &E18eOptions {
        rule_names: vec!["ban-dependencies".to_string()],
        banned_dependencies: vec![BanDependency {
            module_name: "lodash".to_string(),
            message_id: "nativeReplacement".to_string(),
            replacement: None,
            url: None,
            description: Some("d".to_string()),
        }],
    });
    assert_eq!(d.len(), 1);
    assert_eq!(d[0].message_id, "nativeReplacement");
    assert_eq!(d[0].data.description.as_deref(), Some("d"));
    assert_eq!((d[0].loc.start_line, d[0].loc.start_column, d[0].loc.end_column), (1, 8, 19));
}

#[test]
fn fix_offsets_are_bytes_and_columns_utf16() {
    let d = scan("prefer-exponentiation-operator", "const é = 1; x = Math.pow(é, 2);");
    let f = d[0].fix.as_ref().unwrap();
    assert_eq!((f.start, f.end), (18, 33));
    assert_eq!(f.replacement, "(é) ** (2)");
    assert_eq!((d[0].loc.start_column, d[0].loc.end_column), (17, 31));
}
