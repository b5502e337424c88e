//! Runtime declarations found in a repository's files, and the rules that
//! check them against each other.

pub mod data;
pub mod formats;
pub mod model;
pub mod parsers;
pub mod pep440;
pub mod python_rules;
pub mod report;
pub mod rules;
pub mod scanner;
pub mod semver;
pub mod semver_syntax;
pub mod text;
