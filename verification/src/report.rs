//! What a check of the repository's runtime contract prints, and how it ends.

use vstd::prelude::*;
use vstd::string::StringExecFns;

use crate::model::{
    find_declaration, first_with, role_name, runtime_name, Declaration, Role, Runtime,
};
use crate::rules::{node_rule_aborts, node_verdict, try_development_outside_support};

verus! {

/// The lines that list one declaration.
pub open spec fn declaration_lines(d: Declaration) -> Seq<Seq<char>> {
    seq![
        ""@,
        "  source: "@ + d.source@,
        "  runtime: "@ + runtime_name(d.runtime),
        "  constraint: "@ + d.constraint@,
        "  role: "@ + role_name(d.role),
    ]
}

/// The lines that list the declarations of `ds`, in order.
pub open spec fn listing(ds: Seq<Declaration>) -> Seq<Seq<char>>
    decreases ds.len(),
{
    if ds.len() == 0 {
        Seq::empty()
    } else {
        listing(ds.drop_last()) + declaration_lines(ds.last())
    }
}

/// The lines that report a development version outside the supported range,
/// naming where each is declared.
pub open spec fn outside_lines(support: Declaration, development: Declaration) -> Seq<Seq<char>> {
    seq![
        ""@,
        "DP001 Development runtime is outside supported range"@,
        ""@,
        support.source@ + " declares Node "@ + support.constraint@,
        development.source@ + " selects Node "@ + development.constraint@,
    ]
}

/// The lines that an audit of the declarations `ds` writes out, with the
/// outcome: with no declarations, a line saying so and no issue; otherwise the listing of the
/// declarations, then, as the node verdict has it, the report of a
/// development version outside the supported range (an issue), a line saying
/// that all is well (no issue), or nothing more (the verdict's error).
pub open spec fn check_outcome(ds: Seq<Declaration>) -> (
    Seq<Seq<char>>,
    Option<Result<bool, Seq<char>>>,
) {
    if ds.len() == 0 {
        (seq!["No runtime declarations found."@], Some(Ok(false)))
    } else {
        let head = seq!["Found runtime declarations:"@] + listing(ds);
        if node_rule_aborts(ds) {
            (head, None)
        } else {
            match node_verdict(ds) {
                Err(m) => (head, Some(Err(m))),
                Ok(true) => (
                    head + outside_lines(
                        first_with(ds, Runtime::Node, Role::Support).unwrap(),
                        first_with(ds, Runtime::Node, Role::Development).unwrap(),
                    ),
                    Some(Ok(true)),
                ),
                Ok(false) => (
                    head + seq![""@, "No runtime contract issues found."@],
                    Some(Ok(false)),
                ),
            }
        }
    }
}

/// An audit finds an issue, or fails, exactly as the node rule does on the
/// same declarations (with none, there is nothing to find; where node-semver
/// aborts, neither decides), and it lists every declaration in five lines.
pub proof fn lemma_audit_follows_node_rule(ds: Seq<Declaration>)
    ensures
        check_outcome(ds).1 == if ds.len() == 0 {
            Some(Ok::<bool, Seq<char>>(false))
        } else if node_rule_aborts(ds) {
            None
        } else {
            Some(node_verdict(ds))
        },
        listing(ds).len() == 5 * ds.len(),
    decreases ds.len(),
{
    if ds.len() > 0 {
        lemma_audit_follows_node_rule(ds.drop_last());
    }
}

/// `s` followed by `t`.
fn joined(s: &str, t: &str) -> (r: String)
    ensures
        r@ == s@ + t@,
{
    let mut r = s.to_owned();
    r.append(t);
    r
}

/// The lines that an audit of `declarations` writes out, with the outcome:
/// whether there is an issue to report, or the message of an error, or
/// `None` where node-semver would abort, as `check_outcome` says.
pub fn check_report(declarations: &[Declaration]) -> (r: (
    Vec<String>,
    Option<Result<bool, String>>,
))
    ensures
        r.0@.map_values(|l: String| l@) == check_outcome(declarations@).0,
        match r.1 {
            Some(Ok(b)) => check_outcome(declarations@).1 == Some(Ok::<bool, Seq<char>>(b)),
            Some(Err(m)) => check_outcome(declarations@).1 == Some(Err::<bool, Seq<char>>(m@)),
            None => check_outcome(declarations@).1 is None,
        },
{
    let ghost ds = declarations@;
    let mut lines: Vec<String> = Vec::new();
    if declarations.len() == 0 {
        lines.push("No runtime declarations found.".to_owned());
        assert(lines@.map_values(|l: String| l@) =~= check_outcome(ds).0);
        return (lines, Some(Ok(false)));
    }
    lines.push("Found runtime declarations:".to_owned());
    let mut i: usize = 0;
    assert(ds.take(0) =~= Seq::<Declaration>::empty());
    assert(lines@.map_values(|l: String| l@) =~= seq!["Found runtime declarations:"@] + listing(
        ds.take(0),
    ));
    while i < declarations.len()
        invariant
            i <= ds.len(),
            ds == declarations@,
            lines@.map_values(|l: String| l@) == seq!["Found runtime declarations:"@] + listing(
                ds.take(i as int),
            ),
        decreases declarations.len() - i,
    {
        let d = &declarations[i];
        let ghost before = lines@.map_values(|l: String| l@);
        lines.push("".to_owned());
        lines.push(joined("  source: ", d.source.as_str()));
        lines.push(joined("  runtime: ", d.runtime.name()));
        lines.push(joined("  constraint: ", d.constraint.as_str()));
        lines.push(joined("  role: ", d.role.name()));
        proof {
            assert(ds.take(i + 1).drop_last() =~= ds.take(i as int));
            assert(ds.take(i + 1).last() == *d);
            assert(lines@.map_values(|l: String| l@) =~= before + declaration_lines(*d));
        }
        i = i + 1;
    }
    assert(ds.take(ds.len() as int) =~= ds);
    let ghost head = lines@.map_values(|l: String| l@);
    match try_development_outside_support(declarations) {
        None => (lines, None),
        Some(Err(m)) => (lines, Some(Err(m))),
        Some(Ok(true)) => {
            let support = find_declaration(declarations, Runtime::Node, Role::Support);
            let development = find_declaration(declarations, Runtime::Node, Role::Development);
            match (support, development) {
                (Some(s), Some(d)) => {
                    lines.push("".to_owned());
                    lines.push("DP001 Development runtime is outside supported range".to_owned());
                    lines.push("".to_owned());
                    let mut declares = joined(s.source.as_str(), " declares Node ");
                    declares.append(s.constraint.as_str());
                    lines.push(declares);
                    let mut selects = joined(d.source.as_str(), " selects Node ");
                    selects.append(d.constraint.as_str());
                    lines.push(selects);
                    assert(lines@.map_values(|l: String| l@) =~= head + outside_lines(*s, *d));
                },
                _ => {},
            }
            (lines, Some(Ok(true)))
        },
        Some(Ok(false)) => {
            lines.push("".to_owned());
            lines.push("No runtime contract issues found.".to_owned());
            assert(lines@.map_values(|l: String| l@) =~= head + seq![
                ""@,
                "No runtime contract issues found."@,
            ]);
            (lines, Some(Ok(false)))
        },
    }
}

} // verus!
