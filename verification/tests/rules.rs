use driftpin::model::{Declaration, Role, Runtime};
use driftpin::python_rules::python_development_outside_support;
use driftpin::rules::{development_outside_support, try_development_outside_support};
use driftpin::semver_syntax::range_parse_would_abort;

fn declaration(constraint: &str, role: Role) -> Declaration {
    Declaration {
        runtime: Runtime::Node,
        constraint: constraint.to_string(),
        role,
        source: "test".to_string(),
    }
}

fn python_declaration(constraint: &str, role: Role, source: &str) -> Declaration {
    Declaration {
        runtime: Runtime::Python,
        constraint: constraint.to_string(),
        role,
        source: source.to_string(),
    }
}

#[test]
fn accepts_development_version_inside_support_range() {
    let declarations = vec![
        declaration(">=20", Role::Support),
        declaration("22", Role::Development),
    ];

    assert!(!development_outside_support(&declarations).unwrap());
}

#[test]
fn detects_development_version_outside_support_range() {
    let declarations = vec![
        declaration(">=20", Role::Support),
        declaration("18", Role::Development),
    ];

    assert!(development_outside_support(&declarations).unwrap());
}

#[test]
fn does_nothing_when_declarations_are_missing() {
    let declarations = vec![declaration(">=20", Role::Support)];

    assert!(!development_outside_support(&declarations).unwrap());
}

#[test]
fn node_rule_reports_unparsable_ranges() {
    let bad_support = vec![declaration(">=>20", Role::Support), declaration("22", Role::Development)];
    let message = development_outside_support(&bad_support).unwrap_err();
    assert!(message.starts_with("Invalid support range: "));
    assert!(message.len() > "Invalid support range: ".len());

    let bad_development = vec![declaration(">=20", Role::Support), declaration("x.y.z!", Role::Development)];
    let message = development_outside_support(&bad_development).unwrap_err();
    assert!(message.starts_with("Invalid development range: "));
}

#[test]
fn node_rule_uses_first_declarations_and_ignores_python() {
    let declarations = vec![
        python_declaration(">=3.12", Role::Support, "pyproject.toml"),
        declaration("^18", Role::Support),
        python_declaration("3.8", Role::Development, ".python-version"),
        declaration("18.2", Role::Development),
        declaration(">=22", Role::Support),
        declaration("16", Role::Development),
    ];
    assert!(!development_outside_support(&declarations).unwrap());
    let disjoint = vec![declaration("<16", Role::Support), declaration(">=18", Role::Development)];
    assert!(development_outside_support(&disjoint).unwrap());
    assert!(!development_outside_support(&[]).unwrap());
}

#[test]
fn accepts_python_inside_support_range() {
    let declarations = vec![
        python_declaration(">=3.11,<3.13", Role::Support, "pyproject.toml"),
        python_declaration("3.12.4", Role::Development, ".python-version"),
    ];

    assert!(!python_development_outside_support(&declarations).unwrap());
}

#[test]
fn detects_python_outside_support_range() {
    let declarations = vec![
        python_declaration(">=3.12", Role::Support, "pyproject.toml"),
        python_declaration("3.11", Role::Development, ".python-version"),
    ];

    assert!(python_development_outside_support(&declarations).unwrap());
}

#[test]
fn does_nothing_without_python_support_range() {
    let declarations = vec![python_declaration("3.12", Role::Development, ".python-version")];

    assert!(!python_development_outside_support(&declarations).unwrap());
}

#[test]
fn python_rule_names_the_file_of_an_unparsable_declaration() {
    let bad_range = vec![
        python_declaration(">=3.x", Role::Support, "pyproject.toml"),
        python_declaration("3.12", Role::Development, ".python-version"),
    ];
    let message = python_development_outside_support(&bad_range).unwrap_err();
    assert!(message.starts_with("Invalid Python support range in pyproject.toml: "));

    let bad_version = vec![
        python_declaration(">=3.10", Role::Support, "pyproject.toml"),
        python_declaration("three", Role::Development, ".tool-versions"),
    ];
    let message = python_development_outside_support(&bad_version).unwrap_err();
    assert!(message.starts_with("Invalid Python development version in .tool-versions: "));
}

#[test]
fn python_rule_ignores_node_declarations() {
    let declarations = vec![
        declaration(">=20", Role::Support),
        python_declaration(">=3.9", Role::Support, "pyproject.toml"),
        declaration("not a range", Role::Development),
        python_declaration("3.9.1", Role::Development, ".python-version"),
    ];
    assert!(!python_development_outside_support(&declarations).unwrap());
}

#[test]
fn knows_where_node_semver_aborts() {
    for text in ["=*", "=x", "= v X", "~x", "~*", "~>X", "~ > 1.x.2", "~1.*.0", ">=1 =x", "1 || ~x", "a||||=*", "1\t=x"] {
        assert!(range_parse_would_abort(text), "{text}");
    }
    for text in ["=1", "~1", "~1.x", "~1.x.x", "~>1.2.x", "a=x", "|=x", "a|||=x", "x=", "~1.x.99999999999999999", ">=x", "<=*", "^x", "*", "x", "1 - x"] {
        assert!(!range_parse_would_abort(text), "{text}");
    }
}

#[test]
fn node_rule_declines_texts_node_semver_aborts_on() {
    let aborting_support = vec![declaration("~x", Role::Support), declaration("18", Role::Development)];
    assert_eq!(try_development_outside_support(&aborting_support), None);
    let aborting_development = vec![declaration(">=20", Role::Support), declaration("=x", Role::Development)];
    assert_eq!(try_development_outside_support(&aborting_development), None);
    let unparsed_support = vec![declaration(">=>20", Role::Support), declaration("=x", Role::Development)];
    assert!(try_development_outside_support(&unparsed_support).unwrap().is_err());
    let fine = vec![declaration(">=20", Role::Support), declaration("18", Role::Development)];
    assert_eq!(try_development_outside_support(&fine), Some(Ok(true)));
}

#[test]
fn node_semver_parses_every_short_text_said_not_to_abort() {
    let alphabet = ['=', '~', '>', 'x', '*', '1', '.', ' ', '|', 'v', 'a', '-'];
    let mut texts: Vec<String> = vec![String::new()];
    let mut checked = 0;
    for _ in 0..5 {
        let mut longer = Vec::new();
        for t in &texts {
            for c in alphabet {
                let mut u = t.clone();
                u.push(c);
                longer.push(u);
            }
        }
        for t in &longer {
            if !range_parse_would_abort(t) {
                let _ = t.parse::<node_semver::Range>();
                checked += 1;
            }
        }
        texts = longer;
    }
    assert!(checked > 100_000);
}
