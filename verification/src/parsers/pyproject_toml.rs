//! The python range that a `pyproject.toml` supports.

use vstd::prelude::*;

use crate::data::{lookup, mapping_get, mapping_of, member, text_of_value, DataValue};
use crate::formats::{parse_toml_document, toml_document};
use crate::model::{Declaration, Role, Runtime};

verus! {

/// The string at `project.requires-python` of a `pyproject.toml` document,
/// when `project` is a table.
pub open spec fn requires_python(document: DataValue) -> Option<Seq<char>> {
    match member(document, "project"@) {
        Some(project) => match mapping_of(project) {
            Some(table) => match lookup(table, "requires-python"@) {
                Some(v) => text_of_value(v),
                None => None,
            },
            None => None,
        },
        None => None,
    }
}

/// The python range that a parsed `pyproject.toml` supports: its
/// `project.requires-python` string, when it has one.
pub fn pyproject_declaration(document: &DataValue, source: &str) -> (r: Option<Declaration>)
    ensures
        match r {
            Some(d) => requires_python(*document) matches Some(c) && d.describes(
                Runtime::Python,
                c,
                Role::Support,
                source@,
            ),
            None => requires_python(*document) is None,
        },
{
    let project = match document.get("project") {
        Some(p) => match p.as_mapping() {
            Some(t) => t,
            None => return None,
        },
        None => return None,
    };
    let wanted = match mapping_get(project, "requires-python") {
        Some(v) => v,
        None => return None,
    };
    match wanted.as_str() {
        Some(constraint) => Some(
            Declaration {
                runtime: Runtime::Python,
                constraint: constraint.to_owned(),
                role: Role::Support,
                source: source.to_owned(),
            },
        ),
        None => None,
    }
}

/// The python range that a `pyproject.toml` text supports: its
/// `project.requires-python` string, when it has one; the TOML parser's
/// message when the text is no TOML table.
pub fn parse_pyproject_toml(contents: &str, source: &str) -> (r: Result<Option<Declaration>, String>)
    ensures
        match r {
            Ok(Some(d)) => toml_document(contents@) matches Ok(doc) && requires_python(doc) matches Some(
                c,
            ) && d.describes(Runtime::Python, c, Role::Support, source@),
            Ok(None) => toml_document(contents@) matches Ok(doc) && requires_python(doc) is None,
            Err(m) => toml_document(contents@) == Err::<DataValue, Seq<char>>(m@),
        },
{
    match parse_toml_document(contents) {
        Ok(document) => Ok(pyproject_declaration(&document, source)),
        Err(message) => Err(message),
    }
}

} // verus!
