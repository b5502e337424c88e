//! Readers of the files that declare runtime versions.

pub mod dockerfile;
pub mod github_actions;
pub mod node_version;
pub mod nvmrc;
pub mod package_json;
pub mod pyproject_toml;
pub mod python_version;
pub mod tool_versions;
