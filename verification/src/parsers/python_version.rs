//! The python version of a `.python-version` file.

use vstd::prelude::*;

use crate::model::{Declaration, Role, Runtime};
use crate::text::{
    chars_of, cuts, line_ranges, pieces, starts_with, starts_with_at, strip_prefix, text_of, trim,
    trim_range,
};

verus! {

/// The first of `lines` that, trimmed, is neither blank nor a `#` comment;
/// trimmed.
pub open spec fn first_version_line(lines: Seq<Seq<char>>) -> Option<Seq<char>>
    decreases lines.len(),
{
    if lines.len() == 0 {
        None
    } else {
        let t = trim(lines[0]);
        if t.len() > 0 && !starts_with(t, "#"@) {
            Some(t)
        } else {
            first_version_line(lines.drop_first())
        }
    }
}

/// The version that a `.python-version` file names: its first line that is
/// neither blank nor a comment, trimmed, without a leading `python-`.
pub open spec fn python_version_of_file(contents: Seq<char>) -> Option<Seq<char>> {
    match first_version_line(pieces(contents, '\n')) {
        Some(v) => Some(strip_prefix(v, "python-"@)),
        None => None,
    }
}

/// The python version that a `.python-version` file selects for development.
pub fn parse_python_version(contents: &str, source: &str) -> (r: Option<Declaration>)
    ensures
        match r {
            Some(d) => python_version_of_file(contents@) matches Some(v) && d.describes(
                Runtime::Python,
                v,
                Role::Development,
                source@,
            ),
            None => python_version_of_file(contents@) is None,
        },
{
    let cs = chars_of(contents);
    let lines = line_ranges(&cs);
    let ghost lv = pieces(cs@, '\n');
    let mut k: usize = 0;
    assert(lv.skip(0) =~= lv);
    while k < lines.len()
        invariant
            k <= lines@.len(),
            cs@ == contents@,
            cuts(cs@, lines@, lv),
            lv == pieces(contents@, '\n'),
            first_version_line(lv) == first_version_line(lv.skip(k as int)),
        decreases lines.len() - k,
    {
        proof {
            reveal_strlit("python-");
        }
        let (lo, hi) = lines[k];
        let (a, b) = trim_range(&cs, lo, hi);
        assert(lv.skip(k as int)[0] == lv[k as int]);
        if a < b && !starts_with_at(&cs, a, b, "#") {
            let start = if starts_with_at(&cs, a, b, "python-") {
                assert(strip_prefix(cs@.subrange(a as int, b as int), "python-"@) =~= cs@.subrange(
                    a + 7,
                    b as int,
                ));
                a + 7
            } else {
                a
            };
            return Some(
                Declaration {
                    runtime: Runtime::Python,
                    constraint: text_of(contents, &cs, start, b),
                    role: Role::Development,
                    source: source.to_owned(),
                },
            );
        }
        assert(lv.skip(k as int).drop_first() =~= lv.skip(k + 1));
        k = k + 1;
    }
    assert(lv.skip(k as int) =~= Seq::<Seq<char>>::empty());
    None
}

} // verus!
