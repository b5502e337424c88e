use driftpin::model::{Role, Runtime};
use driftpin::parsers::tool_versions::parse_tool_versions;

#[test]
fn parses_node_version() {
    let declarations = parse_tool_versions("nodejs 22.4.1\n", ".tool-versions");

    assert_eq!(declarations.len(), 1);
    assert_eq!(declarations[0].runtime, Runtime::Node);
    assert_eq!(declarations[0].constraint, "22.4.1");
    assert_eq!(declarations[0].role, Role::Development);
}

#[test]
fn parses_python_version() {
    let declarations = parse_tool_versions("python 3.12.4\n", ".tool-versions");

    assert_eq!(declarations.len(), 1);
    assert_eq!(declarations[0].runtime, Runtime::Python);
    assert_eq!(declarations[0].constraint, "3.12.4");
}

#[test]
fn parses_node_and_python_together() {
    let contents = r#"
nodejs 22
python 3.12
"#;

    let declarations = parse_tool_versions(contents, ".tool-versions");

    assert_eq!(declarations.len(), 2);
    assert_eq!(declarations[0].runtime, Runtime::Node);
    assert_eq!(declarations[1].runtime, Runtime::Python);
}

#[test]
fn ignores_comments_and_blank_lines() {
    let contents = r#"
# local runtimes

nodejs 22
"#;

    let declarations = parse_tool_versions(contents, ".tool-versions");

    assert_eq!(declarations.len(), 1);
}

#[test]
fn ignores_unknown_tools() {
    let contents = r#"
ruby 3.3
golang 1.24
nodejs 22
"#;

    let declarations = parse_tool_versions(contents, ".tool-versions");

    assert_eq!(declarations.len(), 1);
    assert_eq!(declarations[0].runtime, Runtime::Node);
}

#[test]
fn reads_first_version_of_a_line_and_skips_lone_tools() {
    let contents = "node\t20.1.0   18.0.0\npython\nNODE 21\n\tpython  3.9 # pinned\n";

    let declarations = parse_tool_versions(contents, "a/.tool-versions");

    assert_eq!(declarations.len(), 2);
    assert_eq!(declarations[0].runtime, Runtime::Node);
    assert_eq!(declarations[0].constraint, "20.1.0");
    assert_eq!(declarations[1].runtime, Runtime::Python);
    assert_eq!(declarations[1].constraint, "3.9");
    assert_eq!(declarations[1].source, "a/.tool-versions");
}

#[test]
fn joined_files_declare_in_order() {
    let a = "nodejs 22\n# x";
    let b = "python 3.12\nnode 20";
    let joined = format!("{a}\n{b}");
    let both = parse_tool_versions(&joined, "t");
    let mut apart = parse_tool_versions(a, "t");
    apart.extend(parse_tool_versions(b, "t"));
    assert_eq!(both, apart);
    assert_eq!(both.len(), 3);
}
