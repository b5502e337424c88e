//! The node version of an `.nvmrc` file.

use vstd::prelude::*;

use crate::model::{Declaration, Role, Runtime};
use crate::parsers::node_version::{development_node_version, node_version_of_file};

verus! {

/// The node version that an `.nvmrc` file selects for development; an
/// `.nvmrc` is read as a `.node-version` file is.
pub fn parse_nvmrc(contents: &str, source: &str) -> (r: Option<Declaration>)
    ensures
        match r {
            Some(d) => node_version_of_file(contents@) matches Some(v) && d.describes(
                Runtime::Node,
                v,
                Role::Development,
                source@,
            ),
            None => node_version_of_file(contents@) is None,
        },
{
    development_node_version(contents, source)
}

} // verus!
