//! Whether the node version used in development lies outside the range a
//! project supports.

use vstd::prelude::*;
use vstd::string::StringExecFns;

use crate::model::{
    find_declaration, first_with, lemma_first_with_append, lemma_first_with_other, Declaration,
    Role, Runtime,
};
use crate::semver_syntax::{range_parse_aborts, range_parse_would_abort};
use crate::semver::{
    intersect_ranges, parse_node_range, same_range, semver_range_error, semver_ranges_equal,
    semver_ranges_meet, RangeOrigin,
};

verus! {

/// Whether the development range lies outside the supported one: unless the
/// intersection of the supported and the development range exists and is
/// the development range itself.
pub open spec fn node_development_outside(support: Seq<char>, development: Seq<char>) -> bool {
    let s = RangeOrigin::Parsed(support);
    let d = RangeOrigin::Parsed(development);
    !(semver_ranges_meet(s, d) && semver_ranges_equal(
        RangeOrigin::Intersection(Box::new(s), Box::new(d)),
        d,
    ))
}

/// The verdict on the node declarations of `ds`: nothing to report (`false`)
/// unless `ds` holds both a node support range and a node development
/// version (the first of each counts); an error when either does not parse
/// as a node range (the support range checked first); otherwise whether the
/// development range lies outside the supported one.
pub open spec fn node_verdict(ds: Seq<Declaration>) -> Result<bool, Seq<char>> {
    match (first_with(ds, Runtime::Node, Role::Support), first_with(ds, Runtime::Node, Role::Development)) {
        (Some(s), Some(d)) => match semver_range_error(s.constraint@) {
            Some(m) => Err("Invalid support range: "@ + m),
            None => match semver_range_error(d.constraint@) {
                Some(m) => Err("Invalid development range: "@ + m),
                None => Ok(node_development_outside(s.constraint@, d.constraint@)),
            },
        },
        _ => Ok(false),
    }
}

/// The node rule cannot be decided because node-semver's parser aborts: on
/// the support range, or on the development range once the support range
/// has parsed.
pub open spec fn node_rule_aborts(ds: Seq<Declaration>) -> bool {
    match (first_with(ds, Runtime::Node, Role::Support), first_with(ds, Runtime::Node, Role::Development)) {
        (Some(s), Some(d)) => range_parse_aborts(s.constraint@) || (semver_range_error(
            s.constraint@,
        ) is None && range_parse_aborts(d.constraint@)),
        _ => false,
    }
}

/// Whether the node version used in development lies outside the range that
/// the project supports, as `node_verdict` says; for declarations on which
/// node-semver does not abort.
pub fn development_outside_support(declarations: &[Declaration]) -> (r: Result<bool, String>)
    requires
        !node_rule_aborts(declarations@),
    ensures
        match r {
            Ok(b) => node_verdict(declarations@) == Ok::<bool, Seq<char>>(b),
            Err(m) => node_verdict(declarations@) == Err::<bool, Seq<char>>(m@),
        },
{
    let support = find_declaration(declarations, Runtime::Node, Role::Support);
    let development = find_declaration(declarations, Runtime::Node, Role::Development);
    let (support, development) = match (support, development) {
        (Some(s), Some(d)) => (s, d),
        _ => return Ok(false),
    };
    let support_range = match parse_node_range(support.constraint.as_str()) {
        Ok(range) => range,
        Err(error) => {
            let mut message = "Invalid support range: ".to_owned();
            message.append(error.as_str());
            return Err(message);
        },
    };
    let development_range = match parse_node_range(development.constraint.as_str()) {
        Ok(range) => range,
        Err(error) => {
            let mut message = "Invalid development range: ".to_owned();
            message.append(error.as_str());
            return Err(message);
        },
    };
    let outside = match intersect_ranges(&support_range, &development_range) {
        Some(overlap) => !same_range(&overlap, &development_range),
        None => true,
    };
    Ok(outside)
}

/// The node rule on any declarations: `None` where node-semver would abort
/// (as `node_rule_aborts` says), otherwise what
/// `development_outside_support` answers.
pub fn try_development_outside_support(declarations: &[Declaration]) -> (r: Option<
    Result<bool, String>,
>)
    ensures
        r is None <==> node_rule_aborts(declarations@),
        match r {
            Some(Ok(b)) => node_verdict(declarations@) == Ok::<bool, Seq<char>>(b),
            Some(Err(m)) => node_verdict(declarations@) == Err::<bool, Seq<char>>(m@),
            None => true,
        },
{
    let support = find_declaration(declarations, Runtime::Node, Role::Support);
    let development = find_declaration(declarations, Runtime::Node, Role::Development);
    if let (Some(s), Some(d)) = (support, development) {
        if range_parse_would_abort(s.constraint.as_str()) {
            return None;
        }
        if parse_node_range(s.constraint.as_str()).is_ok() && range_parse_would_abort(
            d.constraint.as_str(),
        ) {
            return None;
        }
    }
    Some(development_outside_support(declarations))
}

/// Outside means not contained: once both ranges parse, the development
/// range counts as inside exactly when node-semver finds the intersection of
/// the support range with it and that intersection is the development range
/// itself. Ranges that merely overlap, and ranges that do not meet, are
/// outside. A range that does not parse is an error naming which one failed.
pub proof fn lemma_node_outside_means_not_contained(
    ds: Seq<Declaration>,
    s: Declaration,
    d: Declaration,
)
    requires
        first_with(ds, Runtime::Node, Role::Support) == Some(s),
        first_with(ds, Runtime::Node, Role::Development) == Some(d),
    ensures
        semver_range_error(s.constraint@) matches Some(m) ==> node_verdict(ds) == Err::<
            bool,
            Seq<char>,
        >("Invalid support range: "@ + m),
        semver_range_error(s.constraint@) is None ==> (semver_range_error(d.constraint@) matches Some(
            m,
        ) ==> node_verdict(ds) == Err::<bool, Seq<char>>("Invalid development range: "@ + m)),
        semver_range_error(s.constraint@) is None && semver_range_error(d.constraint@) is None ==> {
            let sr = RangeOrigin::Parsed(s.constraint@);
            let dr = RangeOrigin::Parsed(d.constraint@);
            &&& node_verdict(ds) is Ok
            &&& node_verdict(ds) == Ok::<bool, Seq<char>>(false) <==> (semver_ranges_meet(sr, dr)
                && semver_ranges_equal(RangeOrigin::Intersection(Box::new(sr), Box::new(dr)), dr))
            &&& !semver_ranges_meet(sr, dr) ==> node_verdict(ds) == Ok::<bool, Seq<char>>(true)
        },
{
}

/// Nothing is reported unless there is both a node support range and a node
/// development version.
pub proof fn lemma_node_verdict_needs_both(ds: Seq<Declaration>)
    requires
        first_with(ds, Runtime::Node, Role::Support) is None || first_with(
            ds,
            Runtime::Node,
            Role::Development,
        ) is None,
    ensures
        node_verdict(ds) == Ok::<bool, Seq<char>>(false),
{
}

/// Only node declarations count: a declaration of another runtime, wherever
/// it stands, leaves the verdict as it is.
pub proof fn lemma_node_verdict_ignores_other_runtimes(
    before: Seq<Declaration>,
    d: Declaration,
    after: Seq<Declaration>,
)
    requires
        d.runtime != Runtime::Node,
    ensures
        node_verdict(before + seq![d] + after) == node_verdict(before + after),
{
    lemma_first_with_other(before, d, after, Runtime::Node, Role::Support);
    lemma_first_with_other(before, d, after, Runtime::Node, Role::Development);
}

/// Only the first node support range and the first node development version
/// count: once both are there, later declarations leave the verdict as it is.
pub proof fn lemma_node_verdict_first_counts(ds: Seq<Declaration>, extra: Seq<Declaration>)
    requires
        first_with(ds, Runtime::Node, Role::Support) is Some,
        first_with(ds, Runtime::Node, Role::Development) is Some,
    ensures
        node_verdict(ds + extra) == node_verdict(ds),
{
    lemma_first_with_append(ds, extra, Runtime::Node, Role::Support);
    lemma_first_with_append(ds, extra, Runtime::Node, Role::Development);
}

} // verus!
