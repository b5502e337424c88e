use driftpin::model::{Role, Runtime};
use driftpin::parsers::github_actions::parse_github_actions;
use driftpin::parsers::package_json::parse_package_json;
use driftpin::parsers::pyproject_toml::parse_pyproject_toml;

    #[test]
    fn parses_node_engine_as_support_declaration() {
        let json = r#"
                                                                                                            {
                                                                                                                        "engines": {
                                                                                                                                        "node": ">=20"
                                                                                                                                                    }
                                                                                                                                                            }
                                                                                                                                                                    "#;

        let declaration = parse_package_json(json, "package.json").unwrap().unwrap();

        assert_eq!(declaration.runtime, Runtime::Node);
        assert_eq!(declaration.constraint, ">=20");
        assert_eq!(declaration.role, Role::Support);
        assert_eq!(declaration.source, "package.json");
    }

    #[test]
    fn returns_none_when_node_engine_is_missing() {
        let json = r#"
                                                                                                                                                                                                                                                                {
                                                                                                                                                                                                                                                                            "name": "example-project"
                                                                                                                                                                                                                                                                                    }
                                                                                                                                                                                                                                                                                            "#;

        let declaration = parse_package_json(json, "package.json").unwrap();

        assert_eq!(declaration, None);
    }

    #[test]
    fn rejects_invalid_json() {
        let result = parse_package_json("{ invalid json", "package.json");

        assert!(result.is_err());
    }

    #[test]
    fn parses_requires_python_as_support_declaration() {
        let contents = r#"
[project]
name = "example"
version = "0.1.0"
requires-python = ">=3.11"
"#;

        let declaration = parse_pyproject_toml(contents, "pyproject.toml")
            .unwrap()
            .unwrap();

        assert_eq!(declaration.runtime, Runtime::Python);
        assert_eq!(declaration.constraint, ">=3.11");
        assert_eq!(declaration.role, Role::Support);
        assert_eq!(declaration.source, "pyproject.toml");
    }

    #[test]
    fn supports_bounded_python_range() {
        let contents = r#"
[project]
requires-python = ">=3.10,<3.13"
"#;

        let declaration = parse_pyproject_toml(contents, "pyproject.toml")
            .unwrap()
            .unwrap();

        assert_eq!(declaration.constraint, ">=3.10,<3.13");
    }

    #[test]
    fn returns_none_when_requires_python_is_missing() {
        let contents = r#"
[project]
name = "example"
version = "0.1.0"
"#;

        let declaration = parse_pyproject_toml(contents, "pyproject.toml").unwrap();

        assert!(declaration.is_none());
    }

    #[test]
    fn rejects_invalid_toml() {
        let result =
            parse_pyproject_toml("[project\nrequires-python = \">=3.11\"", "pyproject.toml");

        assert!(result.is_err());
    }

    #[test]
    fn parses_setup_node_version_as_test_declaration() {
        let yaml = r#"
name: CI

on:
  push:

jobs:
  test:
    runs-on: ubuntu-latest
    steps:
      - uses: actions/checkout@v4
      - uses: actions/setup-node@v4
        with:
          node-version: "22"
"#;

        let declarations = parse_github_actions(yaml, ".github/workflows/ci.yml").unwrap();

        assert_eq!(declarations.len(), 1);
        assert_eq!(declarations[0].runtime, Runtime::Node);
        assert_eq!(declarations[0].constraint, "22");
        assert_eq!(declarations[0].role, Role::Test);
        assert_eq!(declarations[0].source, ".github/workflows/ci.yml");
    }

    #[test]
    fn parses_numeric_node_version() {
        let yaml = r#"
jobs:
  test:
    steps:
      - uses: actions/setup-node@v4
        with:
          node-version: 20
"#;

        let declarations = parse_github_actions(yaml, ".github/workflows/test.yml").unwrap();

        assert_eq!(declarations.len(), 1);
        assert_eq!(declarations[0].constraint, "20");
    }

    #[test]
    fn ignores_steps_without_setup_node() {
        let yaml = r#"
jobs:
  test:
    steps:
      - uses: actions/checkout@v4
      - run: npm test
"#;

        let declarations = parse_github_actions(yaml, ".github/workflows/ci.yml").unwrap();

        assert!(declarations.is_empty());
    }

    #[test]
    fn rejects_invalid_yaml() {
        let result = parse_github_actions("jobs: [this is: invalid", ".github/workflows/ci.yml");

        assert!(result.is_err());
    }

#[test]
fn reads_documents_of_each_format() {
    let json = r#"{"engines": {"node": 20, "npm": "10"}}"#;
    assert_eq!(parse_package_json(json, "package.json").unwrap(), None);

    let toml = "[project]\nrequires-python = 1979-05-27\n";
    assert_eq!(parse_pyproject_toml(toml, "pyproject.toml").unwrap(), None);
    let toml = "[tool.other]\nrequires-python = \">=3\"\n";
    assert_eq!(parse_pyproject_toml(toml, "pyproject.toml").unwrap(), None);

    let yaml = r#"
jobs:
  a:
    steps:
      - uses: !custom actions/setup-node@v3
        with: { node-version: 18.10 }
      - uses: actions/setup-node@v4
        with:
          node-version: !t "16"
  b:
    steps:
      - uses: actions/setup-node@v4
        with: { node-version: lts/* }
"#;
    let declarations = parse_github_actions(yaml, "w.yml").unwrap();
    let versions: Vec<&str> = declarations.iter().map(|d| d.constraint.as_str()).collect();
    assert_eq!(versions, vec!["18.1", "lts/*"]);
}

#[test]
fn passes_parser_messages_on() {
    let message = parse_package_json("{ invalid json", "package.json").unwrap_err();
    assert!(!message.is_empty());
    assert_eq!(
        message,
        serde_json::from_str::<serde_json::Value>("{ invalid json").unwrap_err().to_string()
    );
    assert!(!parse_pyproject_toml("= 1", "pyproject.toml").unwrap_err().is_empty());
    assert!(!parse_github_actions("a: [", "w.yml").unwrap_err().is_empty());
}
