use driftpin::model::{Declaration, Role, Runtime};
use driftpin::report::check_report;
use driftpin::scanner::{is_workflow_file_name, sort_by_source};

fn declaration(constraint: &str, role: Role, source: &str) -> Declaration {
    Declaration {
        runtime: Runtime::Node,
        constraint: constraint.to_string(),
        role,
        source: source.to_string(),
    }
}

#[test]
fn picks_yaml_files_by_extension() {
    assert!(is_workflow_file_name("ci.yml"));
    assert!(is_workflow_file_name("release.yaml"));
    assert!(is_workflow_file_name("a.b.yml"));
    assert!(!is_workflow_file_name(".yml"));
    assert!(!is_workflow_file_name("yml"));
    assert!(!is_workflow_file_name("ci.YML"));
    assert!(!is_workflow_file_name("ci.yml.bak"));
    assert!(!is_workflow_file_name(".."));
    assert!(!is_workflow_file_name("ci."));
    assert!(is_workflow_file_name("..yml"));
}

#[test]
fn sorts_by_source_keeping_order_within_a_source() {
    let declarations = vec![
        declaration("1", Role::Test, "b.yml"),
        declaration("2", Role::Test, "a.yml"),
        declaration("3", Role::Test, "b.yml"),
        declaration("4", Role::Test, "B.yml"),
        declaration("5", Role::Test, "a.yml"),
        declaration("6", Role::Test, "ab.yml"),
    ];

    let sorted = sort_by_source(declarations);

    let order: Vec<&str> = sorted.iter().map(|d| d.constraint.as_str()).collect();
    assert_eq!(order, vec!["4", "2", "5", "6", "1", "3"]);
    assert!(sort_by_source(vec![]).is_empty());
}

#[test]
fn reports_no_declarations() {
    let (lines, verdict) = check_report(&[]);
    assert_eq!(lines, vec!["No runtime declarations found.".to_string()]);
    assert_eq!(verdict, Some(Ok(false)));
}

#[test]
fn reports_development_outside_support() {
    let declarations = vec![
        declaration(">=20", Role::Support, "package.json"),
        declaration("18", Role::Development, ".nvmrc"),
    ];
    let (lines, verdict) = check_report(&declarations);
    let expected: Vec<String> = [
        "Found runtime declarations:",
        "",
        "  source: package.json",
        "  runtime: Node",
        "  constraint: >=20",
        "  role: Support",
        "",
        "  source: .nvmrc",
        "  runtime: Node",
        "  constraint: 18",
        "  role: Development",
        "",
        "DP001 Development runtime is outside supported range",
        "",
        "package.json declares Node >=20",
        ".nvmrc selects Node 18",
    ]
    .iter()
    .map(|l| l.to_string())
    .collect();
    assert_eq!(lines, expected);
    assert_eq!(verdict, Some(Ok(true)));
}

#[test]
fn reports_a_sound_contract_and_errors() {
    let fine = vec![declaration("22", Role::Development, ".nvmrc")];
    let (lines, verdict) = check_report(&fine);
    assert_eq!(lines.len(), 8);
    assert_eq!(lines[7], "No runtime contract issues found.");
    assert_eq!(verdict, Some(Ok(false)));

    let broken = vec![
        declaration("~>", Role::Support, "package.json"),
        declaration("18", Role::Development, ".nvmrc"),
    ];
    let (lines, verdict) = check_report(&broken);
    assert_eq!(lines.len(), 11);
    assert!(verdict.unwrap().unwrap_err().starts_with("Invalid support range: "));
}
