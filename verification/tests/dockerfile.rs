use driftpin::model::{Role, Runtime};
use driftpin::parsers::dockerfile::{extract_node_version, parse_dockerfile};

#[test]
fn parses_single_node_image_as_shipped() {
    let declarations = parse_dockerfile("FROM node:22\n", "Dockerfile");

    assert_eq!(declarations.len(), 1);
    assert_eq!(declarations[0].runtime, Runtime::Node);
    assert_eq!(declarations[0].constraint, "22");
    assert_eq!(declarations[0].role, Role::Shipped);
    assert_eq!(declarations[0].source, "Dockerfile");
}

#[test]
fn removes_node_image_variant_suffix() {
    let declarations = parse_dockerfile("FROM node:22.4.1-alpine\n", "Dockerfile");

    assert_eq!(declarations.len(), 1);
    assert_eq!(declarations[0].constraint, "22.4.1");
}

#[test]
fn distinguishes_build_and_shipped_stages() {
    let dockerfile = r#"
FROM node:22 AS builder
RUN npm run build

FROM node:20-alpine
CMD ["node", "server.js"]
"#;

    let declarations = parse_dockerfile(dockerfile, "Dockerfile");

    assert_eq!(declarations.len(), 2);

    assert_eq!(declarations[0].constraint, "22");
    assert_eq!(declarations[0].role, Role::Build);

    assert_eq!(declarations[1].constraint, "20");
    assert_eq!(declarations[1].role, Role::Shipped);
}

#[test]
fn node_stage_is_build_when_final_stage_is_not_node() {
    let dockerfile = r#"
FROM node:22 AS builder
RUN npm run build

FROM nginx:alpine
COPY --from=builder /app/dist /usr/share/nginx/html
"#;

    let declarations = parse_dockerfile(dockerfile, "Dockerfile");

    assert_eq!(declarations.len(), 1);
    assert_eq!(declarations[0].constraint, "22");
    assert_eq!(declarations[0].role, Role::Build);
}

#[test]
fn ignores_non_numeric_node_tags_and_other_images() {
    let dockerfile = r#"
FROM node:lts AS builder
FROM nginx:alpine
"#;

    let declarations = parse_dockerfile(dockerfile, "Dockerfile");

    assert!(declarations.is_empty());
}

#[test]
fn skips_platform_options_and_reads_any_letter_case() {
    let dockerfile = "  from --platform=linux/amd64 docker.io/library/node:v18.19.0-slim@sha256:abc AS base\r\n# FROM node:12\nRUN true\n";

    let declarations = parse_dockerfile(dockerfile, "build/Dockerfile");

    assert_eq!(declarations.len(), 1);
    assert_eq!(declarations[0].constraint, "18.19.0");
    assert_eq!(declarations[0].role, Role::Shipped);
    assert_eq!(declarations[0].source, "build/Dockerfile");
}

#[test]
fn stage_without_image_counts_as_last_stage() {
    let dockerfile = "FROM node:16\nFROM --platform=x\n";

    let declarations = parse_dockerfile(dockerfile, "Dockerfile");

    assert_eq!(declarations.len(), 1);
    assert_eq!(declarations[0].role, Role::Build);
}

#[test]
fn empty_dockerfile_declares_nothing() {
    assert!(parse_dockerfile("", "Dockerfile").is_empty());
    assert!(parse_dockerfile("\n\n   \n", "Dockerfile").is_empty());
}

#[test]
fn extracts_node_versions_from_image_references() {
    assert_eq!(extract_node_version("node:22"), Some("22".to_string()));
    assert_eq!(extract_node_version("node:v20.1-bookworm"), Some("20.1".to_string()));
    assert_eq!(extract_node_version("ghcr.io/org/node:18@sha256:ff"), Some("18".to_string()));
    assert_eq!(extract_node_version("node@sha256:1/node:9"), None);
    assert_eq!(extract_node_version("node:lts"), None);
    assert_eq!(extract_node_version("node:"), None);
    assert_eq!(extract_node_version("node:-1"), None);
    assert_eq!(extract_node_version("nodejs:22"), None);
    assert_eq!(extract_node_version("python:3.12"), None);
}
