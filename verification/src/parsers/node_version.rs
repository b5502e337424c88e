//! The node version of a `.node-version` file.

use vstd::prelude::*;

use crate::model::{Declaration, Role, Runtime};
use crate::text::{chars_of, starts_with_at, strip_prefix, text_of, trim, trim_range};

verus! {

/// The version that a file holding nothing but a node version names: its
/// trimmed text without one leading `v`; `None` when it is blank.
pub open spec fn node_version_of_file(contents: Seq<char>) -> Option<Seq<char>> {
    let t = trim(contents);
    if t.len() == 0 {
        None
    } else {
        Some(strip_prefix(t, "v"@))
    }
}

/// A file of one node version declares nothing exactly when it is blank;
/// otherwise its trimmed text, with one leading `v` removed if there is one
/// and unchanged if not.
pub proof fn lemma_node_version_is_trimmed_text(contents: Seq<char>)
    ensures
        node_version_of_file(contents) is None <==> trim(contents).len() == 0,
        node_version_of_file(contents) matches Some(v) ==> if trim(contents)[0] == 'v' {
            trim(contents) == seq!['v'] + v
        } else {
            trim(contents) == v
        },
{
    reveal_strlit("v");
    let t = trim(contents);
    if t.len() > 0 {
        if t[0] == 'v' {
            assert(t.take(1) =~= "v"@);
            assert(t =~= seq!['v'] + t.skip(1));
        } else {
            assert(t.take(1)[0] != "v"@[0]);
        }
    }
}

/// The node version used in development, as a file of one version declares it.
pub(crate) fn development_node_version(contents: &str, source: &str) -> (r: Option<Declaration>)
    ensures
        match r {
            Some(d) => node_version_of_file(contents@) matches Some(v) && d.describes(
                Runtime::Node,
                v,
                Role::Development,
                source@,
            ),
            None => node_version_of_file(contents@) is None,
        },
{
    proof {
        reveal_strlit("v");
    }
    let cs = chars_of(contents);
    let (a, b) = trim_range(&cs, 0, cs.len());
    assert(cs@.subrange(0, cs@.len() as int) =~= cs@);
    if a == b {
        return None;
    }
    let start = if starts_with_at(&cs, a, b, "v") {
        assert(strip_prefix(cs@.subrange(a as int, b as int), "v"@) =~= cs@.subrange(
            a + 1,
            b as int,
        ));
        a + 1
    } else {
        a
    };
    Some(
        Declaration {
            runtime: Runtime::Node,
            constraint: text_of(contents, &cs, start, b),
            role: Role::Development,
            source: source.to_owned(),
        },
    )
}

/// The node version that a `.node-version` file selects for development.
pub fn parse_node_version(contents: &str, source: &str) -> (r: Option<Declaration>)
    ensures
        match r {
            Some(d) => node_version_of_file(contents@) matches Some(v) && d.describes(
                Runtime::Node,
                v,
                Role::Development,
                source@,
            ),
            None => node_version_of_file(contents@) is None,
        },
{
    development_node_version(contents, source)
}

} // verus!
