//! The node range that a `package.json` supports.

use vstd::prelude::*;

use crate::data::{member, text_of_value, DataValue};
use crate::formats::{json_document, parse_json_document};
use crate::model::{Declaration, Role, Runtime};

verus! {

/// The string at `engines.node` of a `package.json` document.
pub open spec fn node_engine(document: DataValue) -> Option<Seq<char>> {
    match member(document, "engines"@) {
        Some(engines) => match member(engines, "node"@) {
            Some(node) => text_of_value(node),
            None => None,
        },
        None => None,
    }
}

/// The node range that a parsed `package.json` supports: its `engines.node`
/// string, when it has one.
pub fn package_json_declaration(document: &DataValue, source: &str) -> (r: Option<Declaration>)
    ensures
        match r {
            Some(d) => node_engine(*document) matches Some(c) && d.describes(
                Runtime::Node,
                c,
                Role::Support,
                source@,
            ),
            None => node_engine(*document) is None,
        },
{
    let engines = match document.get("engines") {
        Some(e) => e,
        None => return None,
    };
    let node = match engines.get("node") {
        Some(n) => n,
        None => return None,
    };
    match node.as_str() {
        Some(constraint) => Some(
            Declaration {
                runtime: Runtime::Node,
                constraint: constraint.to_owned(),
                role: Role::Support,
                source: source.to_owned(),
            },
        ),
        None => None,
    }
}

/// The node range that a `package.json` text supports: its `engines.node`
/// string, when it has one; the JSON parser's message when the text is no
/// JSON document.
pub fn parse_package_json(contents: &str, source: &str) -> (r: Result<Option<Declaration>, String>)
    ensures
        match r {
            Ok(Some(d)) => json_document(contents@) matches Ok(doc) && node_engine(doc) matches Some(
                c,
            ) && d.describes(Runtime::Node, c, Role::Support, source@),
            Ok(None) => json_document(contents@) matches Ok(doc) && node_engine(doc) is None,
            Err(m) => json_document(contents@) == Err::<DataValue, Seq<char>>(m@),
        },
{
    match parse_json_document(contents) {
        Ok(document) => Ok(package_json_declaration(&document, source)),
        Err(message) => Err(message),
    }
}

} // verus!
