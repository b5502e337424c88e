use driftpin::model::{Declaration, Role, Runtime};

#[test]
fn creates_node_support_declaration() {
    let declaration = Declaration {
        runtime: Runtime::Node,
        constraint: ">=20".to_string(),
        role: Role::Support,
        source: "package.json".to_string(),
    };

    assert_eq!(declaration.runtime, Runtime::Node);
    assert_eq!(declaration.constraint, ">=20");
    assert_eq!(declaration.role, Role::Support);
    assert_eq!(declaration.source, "package.json");
}

#[test]
fn names_runtimes_and_roles_as_debug_does() {
    for runtime in [Runtime::Node, Runtime::Python] {
        assert_eq!(runtime.name(), format!("{:?}", runtime));
    }
    for role in [Role::Support, Role::Development, Role::Test, Role::Build, Role::Shipped] {
        assert_eq!(role.name(), format!("{:?}", role));
    }
}
