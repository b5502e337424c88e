//! Node version ranges, as the `node-semver` crate parses and compares them.

use vstd::prelude::*;

use node_semver::Range;

use crate::semver_syntax::range_parse_aborts;

verus! {

/// `node_semver::Range`, opaque: a node range is known here only by how it
/// came to be.
#[verifier::external_type_specification]
#[verifier::external_body]
pub struct ExRange(Range);

/// How a node range came to be: parsed from a text, or as the intersection
/// of two ranges.
pub enum RangeOrigin {
    Parsed(Seq<char>),
    Intersection(Box<RangeOrigin>, Box<RangeOrigin>),
}

/// A node range, with how it came to be.
pub struct NodeRange {
    range: Range,
    origin: Ghost<RangeOrigin>,
}

impl View for NodeRange {
    type V = RangeOrigin;

    closed spec fn view(&self) -> RangeOrigin {
        self.origin@
    }
}

/// The message with which `Range::from_str` refuses `text` (its error's
/// `Display`); `None` when it accepts `text`.
pub uninterp spec fn semver_range_error(text: Seq<char>) -> Option<Seq<char>>;

/// Whether `Range::intersect` finds a nonempty intersection of two ranges.
pub uninterp spec fn semver_ranges_meet(left: RangeOrigin, right: RangeOrigin) -> bool;

/// Whether `Range`'s `==` holds of two ranges.
pub uninterp spec fn semver_ranges_equal(left: RangeOrigin, right: RangeOrigin) -> bool;

/// `node_semver::Range::from_str`. Claimed: whether it accepts a text, and
/// the message of its error when it does not, depend on the text alone. It
/// aborts (an `unreachable!` in its parser) on the texts that
/// `range_parse_aborts` describes, which are left out.
#[verifier::external_body]
pub fn parse_node_range(text: &str) -> (r: Result<NodeRange, String>)
    requires
        !range_parse_aborts(text@),
    ensures
        match r {
            Ok(range) => semver_range_error(text@) is None && range@ == RangeOrigin::Parsed(text@),
            Err(message) => semver_range_error(text@) == Some(message@),
        },
{
    match text.parse::<Range>() {
        Ok(range) => Ok(NodeRange { range, origin: Ghost(RangeOrigin::Parsed(text@)) }),
        Err(error) => Err(error.to_string()),
    }
}

/// `node_semver::Range::intersect`. Claimed: whether it finds an
/// intersection depends on the two ranges alone.
#[verifier::external_body]
pub fn intersect_ranges(left: &NodeRange, right: &NodeRange) -> (r: Option<NodeRange>)
    ensures
        r is Some == semver_ranges_meet(left@, right@),
        r matches Some(m) ==> m@ == RangeOrigin::Intersection(Box::new(left@), Box::new(right@)),
{
    match left.range.intersect(&right.range) {
        Some(range) => Some(
            NodeRange {
                range,
                origin: Ghost(RangeOrigin::Intersection(Box::new(left@), Box::new(right@))),
            },
        ),
        None => None,
    }
}

/// `==` of `node_semver::Range` (derived: the two ranges have equal
/// comparator sets). Claimed: its answer depends on the two ranges alone.
#[verifier::external_body]
pub fn same_range(left: &NodeRange, right: &NodeRange) -> (b: bool)
    ensures
        b == semver_ranges_equal(left@, right@),
{
    left.range == right.range
}

} // verus!
