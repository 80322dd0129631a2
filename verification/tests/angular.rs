use oxlint_plugins::angular::metadata::{parse_metadata, LocalizeMetadata};
use oxlint_plugins::angular::rules::implemented_angular_eslint_rule_names;
use oxlint_plugins::angular::scan::scan_angular_eslint;

const REPRESENTATIVE_SOURCE: &str = r#"
@Component({ selector: "BadSelector", template: `a
b
c` }) class App {}
const total = computed(() => { totalSignal(); });
@Component({ styleUrls: ["./x.css"] }) class StyleComponent {}
@Input() class WrongContext {}
class Plain { ngOnInit() {} }
@Directive({ selector: "BadDirective" }) class Highlight {}
class Life { async ngOnInit() {} }
class Attr { constructor(@Attribute("role") role: string) {} }
afterNextRender(() => {});
@Component({ imports: [CommonModule, CommonModule] }) class DupComponent {}
class Empty { ngOnDestroy() {} }
resource(() => {});
forwardRef(() => Service);
takeUntilDestroyed();
class Inputs { @Input() isDisabled: boolean; @Input("renamed") name: string; }
@Component({ inputs: ["name"], outputs: ["saved"], queries: {} }) class MetadataComponent {}
class Caller { run() { this.ngOnInit(); } }
class Outputs { @Output() click = new EventEmitter<void>(); @Output() onSave = new EventEmitter<void>(); @Output("renamed") saved = new EventEmitter<void>(); }
@Pipe({ name: "badPipe", pure: false }) class BadPipe { transform() {} }
class SignalUser { run() { this.totalSignal; } }
class Host { @HostBinding("class.active") active = true; constructor(private service: Service) {} }
@Component({ changeDetection: ChangeDetectionStrategy.Default, standalone: false, templateUrl: "cmp.html", encapsulation: ViewEncapsulation.None }) class OldComponent {}
class Emitter { @Output() saved = new EventEmitter<void>(); }
class Model { @Input() value: string; @Output() valueChange = new EventEmitter<string>(); }
class SignalInput { @Input() label: string; }
class LifecycleField { ngOnInit = () => {}; }
$localize`Hello`;
$localize.locale = "fr";
@Component({ template: "", selector: "app-sorted" }) class SortComponent { ngOnDestroy() {} ngOnInit() {} }
@Component({ template: "" }) class MissingSelectorComponent {}
@Injectable() class Service {}
@Pipe({ name: "plain" }) class PlainPipe { transform() {} }
"#;

fn meta(meaning: Option<&str>, description: Option<&str>, custom_id: Option<&str>) -> LocalizeMetadata {
    LocalizeMetadata {
        meaning: meaning.map(String::from),
        description: description.map(String::from),
        custom_id: custom_id.map(String::from),
    }
}

#[test]
fn lib_exposes_all_rule_names() {
    assert_eq!(implemented_angular_eslint_rule_names().len(), 48);
    assert_eq!(implemented_angular_eslint_rule_names()[0], "component-class-suffix");
    assert_eq!(implemented_angular_eslint_rule_names()[47], "use-pipe-transform-interface");
}

#[test]
fn tests_exposes_all_rule_names() {
    assert_eq!(implemented_angular_eslint_rule_names().len(), 48);
    assert_eq!(implemented_angular_eslint_rule_names()[0], "component-class-suffix");
    assert_eq!(implemented_angular_eslint_rule_names()[47], "use-pipe-transform-interface");
}

fn representative_scan_reports_every_rule() {
    let diagnostics = scan_angular_eslint(REPRESENTATIVE_SOURCE, "fixture.ts");
    let mut actual: Vec<&str> = diagnostics.iter().map(|diagnostic| diagnostic.rule_name).collect();
    let mut expected: Vec<&str> = implemented_angular_eslint_rule_names();
    actual.sort_unstable();
    expected.sort_unstable();
    assert_eq!(actual, expected);
}

#[test]
fn lib_scans_representative_rules() {
    representative_scan_reports_every_rule();
}

#[test]
fn tests_scans_representative_rules() {
    representative_scan_reports_every_rule();
}

#[test]
fn parses_upstream_metadata_delimiters_and_empty_fields_exactly() {
    assert_eq!(parse_metadata("plain"), LocalizeMetadata::default());
    assert_eq!(parse_metadata(":description:message"), meta(None, Some("description"), None));
    assert_eq!(
        parse_metadata(":meaning|description@@id:message"),
        meta(Some("meaning"), Some("description"), Some("id")),
    );
    assert_eq!(parse_metadata(":|description:message"), meta(Some(""), Some("description"), None));
    assert_eq!(parse_metadata(":@@id:message"), meta(None, None, Some("id")));
    assert_eq!(
        parse_metadata(":first|second|discarded@@id@@discarded:message"),
        meta(Some("first"), Some("second"), Some("id")),
    );
}

#[test]
fn metadata_block_needs_leading_colon() {
    assert_eq!(parse_metadata(":"), LocalizeMetadata::default());
    assert_eq!(parse_metadata(":meaning|:x"), meta(Some("meaning"), None, None));
}

#[test]
fn unparsable_sources_report_nothing() {
    assert!(scan_angular_eslint("class {", "fixture.ts").is_empty());
}

#[test]
fn class_suffix_reports_the_class_name() {
    let diagnostics = scan_angular_eslint("@Component({})\nclass Widget {}\n", "fixture.ts");
    let d = diagnostics.iter().find(|d| d.rule_name == "component-class-suffix").expect("report");
    assert_eq!((d.loc.start_line, d.loc.start_column, d.loc.end_line, d.loc.end_column), (2, 6, 2, 12));
    let ok = scan_angular_eslint("@Component({})\nclass WidgetComponent {}\n", "fixture.ts");
    assert!(ok.iter().all(|d| d.rule_name != "component-class-suffix"));
}

#[test]
fn regex_reports_use_utf16_columns() {
    let diagnostics = scan_angular_eslint("const s = \"\u{1F600}\"; forwardRef(() => x);", "fixture.ts");
    let d = diagnostics.iter().find(|d| d.rule_name == "no-forward-ref").expect("report");
    assert_eq!(d.loc.start_line, 1);
    assert_eq!(d.loc.start_column, 16);
}
