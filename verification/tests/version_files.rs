use driftpin::model::{Role, Runtime};
use driftpin::parsers::node_version::parse_node_version;
use driftpin::parsers::nvmrc::parse_nvmrc;
use driftpin::parsers::python_version::parse_python_version;

#[test]
fn node_version_parses_node_version_as_development_declaration() {
    let declaration = parse_node_version("22\n", ".node-version").unwrap();

    assert_eq!(declaration.runtime, Runtime::Node);
    assert_eq!(declaration.constraint, "22");
    assert_eq!(declaration.role, Role::Development);
    assert_eq!(declaration.source, ".node-version");
}

#[test]
fn node_version_removes_v_prefix() {
    let declaration = parse_node_version("v22.4.1\n", ".node-version").unwrap();

    assert_eq!(declaration.constraint, "22.4.1");
}

#[test]
fn node_version_returns_none_for_empty_file() {
    let declaration = parse_node_version("   \n", ".node-version");

    assert_eq!(declaration, None);
}

#[test]
fn nvmrc_parses_node_version_as_development_declaration() {
    let declaration = parse_nvmrc("22\n", ".nvmrc").unwrap();

    assert_eq!(declaration.runtime, Runtime::Node);
    assert_eq!(declaration.constraint, "22");
    assert_eq!(declaration.role, Role::Development);
    assert_eq!(declaration.source, ".nvmrc");
}

#[test]
fn nvmrc_removes_v_prefix() {
    let declaration = parse_nvmrc("v22.4.1\n", ".nvmrc").unwrap();

    assert_eq!(declaration.constraint, "22.4.1");
}

#[test]
fn nvmrc_returns_none_for_empty_file() {
    let declaration = parse_nvmrc("   \n", ".nvmrc");

    assert_eq!(declaration, None);
}

#[test]
fn nvmrc_and_node_version_read_alike() {
    for contents in ["", "v", "vv18", " \t v20.1 \n\n", "lts/iron\n", "\u{a0}21\u{3000}"] {
        assert_eq!(parse_nvmrc(contents, "f"), parse_node_version(contents, "f"));
    }
    assert_eq!(parse_nvmrc("vv18", "f").unwrap().constraint, "v18");
    assert_eq!(parse_nvmrc("\u{a0}21\u{3000}", "f").unwrap().constraint, "21");
    assert_eq!(parse_nvmrc("v", "f").unwrap().constraint, "");
}

#[test]
fn parses_python_version_as_development_declaration() {
    let declaration = parse_python_version("3.12.4\n", ".python-version").unwrap();

    assert_eq!(declaration.runtime, Runtime::Python);
    assert_eq!(declaration.constraint, "3.12.4");
    assert_eq!(declaration.role, Role::Development);
    assert_eq!(declaration.source, ".python-version");
}

#[test]
fn removes_python_prefix() {
    let declaration = parse_python_version("python-3.11.9\n", ".python-version").unwrap();

    assert_eq!(declaration.constraint, "3.11.9");
}

#[test]
fn ignores_blank_lines_and_comments() {
    let declaration =
        parse_python_version("\n# Python used locally\n3.13.0\n", ".python-version").unwrap();

    assert_eq!(declaration.constraint, "3.13.0");
}

#[test]
fn returns_none_when_no_version_exists() {
    let declaration = parse_python_version("\n# comment only\n", ".python-version");

    assert_eq!(declaration, None);
}

#[test]
fn python_version_takes_first_line_only() {
    let declaration = parse_python_version("  3.10 3.11\r\n3.12\n", ".python-version").unwrap();

    assert_eq!(declaration.constraint, "3.10 3.11");
    assert_eq!(parse_python_version("", ".python-version"), None);
}
