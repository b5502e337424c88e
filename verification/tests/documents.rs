use driftpin::data::DataValue;
use driftpin::model::Role;
use driftpin::parsers::github_actions::{scalar_to_string, workflow_declarations};
use driftpin::parsers::package_json::package_json_declaration;
use driftpin::parsers::pyproject_toml::pyproject_declaration;

fn text(s: &str) -> DataValue {
    DataValue::Text(s.to_string())
}

fn number(s: &str) -> DataValue {
    DataValue::Number(s.to_string())
}

fn mapping(entries: Vec<(&str, DataValue)>) -> DataValue {
    DataValue::Mapping(entries.into_iter().map(|(k, v)| (text(k), v)).collect())
}

fn sequence(items: Vec<DataValue>) -> DataValue {
    DataValue::Sequence(items)
}

fn step_uses(action: &str) -> DataValue {
    mapping(vec![("uses", text(action))])
}

fn setup_node(version: DataValue) -> DataValue {
    mapping(vec![
        ("uses", text("actions/setup-node@v4")),
        ("with", mapping(vec![("node-version", version)])),
    ])
}

fn workflow(jobs: Vec<(&str, Vec<DataValue>)>) -> DataValue {
    mapping(vec![(
        "jobs",
        mapping(jobs.into_iter().map(|(name, steps)| (name, mapping(vec![("steps", sequence(steps))]))).collect()),
    )])
}

#[test]
fn package_json_ignores_non_string_engines() {
    let numeric = mapping(vec![("engines", mapping(vec![("node", number("20"))]))]);
    assert_eq!(package_json_declaration(&numeric, "package.json"), None);
    let listed = mapping(vec![("engines", sequence(vec![text("node")]))]);
    assert_eq!(package_json_declaration(&listed, "package.json"), None);
    assert_eq!(package_json_declaration(&text("engines"), "package.json"), None);
    let twice = mapping(vec![
        ("engines", mapping(vec![("npm", text("10")), ("node", text("^18 || ^20"))])),
        ("name", DataValue::Null),
    ]);
    assert_eq!(package_json_declaration(&twice, "p/package.json").unwrap().constraint, "^18 || ^20");
}

#[test]
fn pyproject_needs_a_project_table() {
    let flat = mapping(vec![("requires-python", text(">=3.9"))]);
    assert!(pyproject_declaration(&flat, "pyproject.toml").is_none());
    let dated = mapping(vec![(
        "project",
        mapping(vec![("requires-python", DataValue::Other("1979-05-27".to_string()))]),
    )]);
    assert!(pyproject_declaration(&dated, "pyproject.toml").is_none());
}

#[test]
fn collects_versions_job_after_job() {
    let tagged_uses = mapping(vec![
        (
            "uses",
            DataValue::Tagged("!str".to_string(), Box::new(text("actions/setup-node@main"))),
        ),
        ("with", mapping(vec![("node-version", text("16"))])),
    ]);
    let yaml = workflow(vec![
        ("lint", vec![setup_node(text("18")), setup_node(DataValue::Bool(true))]),
        ("build", vec![]),
        ("test", vec![tagged_uses, setup_node(text("20.x")), step_uses("actions/setup-node@v4")]),
    ]);

    let declarations = workflow_declarations(&yaml, "w.yaml");

    let versions: Vec<&str> = declarations.iter().map(|d| d.constraint.as_str()).collect();
    assert_eq!(versions, vec!["18", "16", "20.x"]);
    assert!(declarations.iter().all(|d| d.role == Role::Test && d.source == "w.yaml"));
}

#[test]
fn workflow_without_jobs_declares_nothing() {
    assert!(workflow_declarations(&DataValue::Null, "w.yml").is_empty());
    assert!(workflow_declarations(&mapping(vec![("jobs", sequence(vec![]))]), "w.yml").is_empty());
    let steps_not_listed = mapping(vec![("jobs", mapping(vec![("a", mapping(vec![("steps", text("x"))]))]))]);
    assert!(workflow_declarations(&steps_not_listed, "w.yml").is_empty());
}

#[test]
fn writes_scalars_as_text() {
    assert_eq!(scalar_to_string(&text("lts/*")), Some("lts/*".to_string()));
    assert_eq!(scalar_to_string(&number("18.1")), Some("18.1".to_string()));
    assert_eq!(scalar_to_string(&DataValue::Bool(false)), None);
    assert_eq!(
        scalar_to_string(&DataValue::Tagged("!t".to_string(), Box::new(text("1")))),
        None
    );
}

#[test]
fn looks_values_up_by_string_keys_only() {
    let value = DataValue::Mapping(vec![
        (number("1"), text("one")),
        (DataValue::Tagged("!k".to_string(), Box::new(text("k"))), text("tagged")),
        (text("k"), text("plain")),
    ]);
    assert_eq!(value.get("k").and_then(|v| v.as_str()), Some("plain"));
    assert!(value.get("1").is_none());
    let tagged = DataValue::Tagged("!m".to_string(), Box::new(value));
    assert_eq!(tagged.get("k").and_then(|v| v.as_str()), Some("plain"));
    assert!(text("k").get("k").is_none());
    assert!(tagged.as_sequence().is_none());
}
