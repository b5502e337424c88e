//! The runtime versions of an asdf `.tool-versions` file.

use vstd::prelude::*;

use crate::model::{all_describe, Declaration, Role, Runtime};
use crate::text::{
    chars_of, cuts, equals_at, lemma_pieces_concat, line_ranges, pieces, starts_with,
    starts_with_at, text_of, trim, trim_range, word_ranges, words,
};

verus! {

/// The runtime that a tool name stands for: `nodejs` and `node` for node,
/// `python` for python; no other tool counts.
pub open spec fn tool_runtime(tool: Seq<char>) -> Option<Runtime> {
    if tool == "nodejs"@ || tool == "node"@ {
        Some(Runtime::Node)
    } else if tool == "python"@ {
        Some(Runtime::Python)
    } else {
        None
    }
}

/// What a line declares: for `<tool> <version> ...` with a known tool, its
/// runtime and version; nothing for blank lines, comments, lines of one word
/// and other tools.
pub open spec fn tool_of_line(line: Seq<char>) -> Option<(Runtime, Seq<char>)> {
    let t = trim(line);
    let ws = words(t);
    if t.len() == 0 || starts_with(t, "#"@) || ws.len() < 2 {
        None
    } else {
        match tool_runtime(ws[0]) {
            Some(r) => Some((r, ws[1])),
            None => None,
        }
    }
}

/// What `lines` declare, in order; every version is the one used in
/// development.
pub open spec fn tools_of_lines(lines: Seq<Seq<char>>) -> Seq<(Runtime, Seq<char>, Role)>
    decreases lines.len(),
{
    if lines.len() == 0 {
        Seq::empty()
    } else {
        let e = tools_of_lines(lines.drop_last());
        match tool_of_line(lines.last()) {
            Some((r, v)) => e.push((r, v, Role::Development)),
            None => e,
        }
    }
}

/// What a `.tool-versions` file declares.
pub open spec fn tool_versions_entries(contents: Seq<char>) -> Seq<(Runtime, Seq<char>, Role)> {
    tools_of_lines(pieces(contents, '\n'))
}

/// Every version of a `.tool-versions` file is one used in development, of
/// node or python, and no line declares more than one.
pub proof fn lemma_tool_versions_roles(contents: Seq<char>)
    ensures
        ({
            let e = tool_versions_entries(contents);
            &&& e.len() <= pieces(contents, '\n').len()
            &&& forall|i: int| 0 <= i < e.len() ==> (#[trigger] e[i]).2 == Role::Development
        }),
{
    lemma_tools_of_lines_roles(pieces(contents, '\n'));
}

proof fn lemma_tools_of_lines_concat(a: Seq<Seq<char>>, b: Seq<Seq<char>>)
    ensures
        tools_of_lines(a + b) == tools_of_lines(a) + tools_of_lines(b),
    decreases b.len(),
{
    if b.len() == 0 {
        assert(a + b =~= a);
        assert(tools_of_lines(a) + tools_of_lines(b) =~= tools_of_lines(a));
    } else {
        lemma_tools_of_lines_concat(a, b.drop_last());
        assert((a + b).drop_last() =~= a + b.drop_last());
        assert((a + b).last() == b.last());
        let e = tools_of_lines(a);
        let f = tools_of_lines(b.drop_last());
        match tool_of_line(b.last()) {
            Some((r, v)) => {
                assert((e + f).push((r, v, Role::Development)) =~= e + f.push(
                    (r, v, Role::Development),
                ));
            },
            None => {},
        }
    }
}

/// A `.tool-versions` file read line by line: two files joined by a line
/// feed declare what the first does, then what the second does.
pub proof fn lemma_tool_versions_concat(a: Seq<char>, b: Seq<char>)
    ensures
        tool_versions_entries(a + seq!['\n'] + b) == tool_versions_entries(a)
            + tool_versions_entries(b),
{
    lemma_pieces_concat(a, b, '\n');
    lemma_tools_of_lines_concat(pieces(a, '\n'), pieces(b, '\n'));
}

proof fn lemma_tools_of_lines_roles(lines: Seq<Seq<char>>)
    ensures
        tools_of_lines(lines).len() <= lines.len(),
        forall|i: int|
            0 <= i < tools_of_lines(lines).len() ==> (#[trigger] tools_of_lines(lines)[i]).2
                == Role::Development,
    decreases lines.len(),
{
    if lines.len() > 0 {
        lemma_tools_of_lines_roles(lines.drop_last());
    }
}

/// What the line `cs[lo..hi]` declares, with the range of its version.
fn tool_at(cs: &Vec<char>, lo: usize, hi: usize) -> (r: Option<(Runtime, usize, usize)>)
    requires
        lo <= hi <= cs.len(),
    ensures
        match r {
            Some((rt, a, b)) => a <= b <= cs.len() && tool_of_line(
                cs@.subrange(lo as int, hi as int),
            ) == Some((rt, cs@.subrange(a as int, b as int))),
            None => tool_of_line(cs@.subrange(lo as int, hi as int)) is None,
        },
{
    let (a, b) = trim_range(cs, lo, hi);
    if a == b || starts_with_at(cs, a, b, "#") {
        return None;
    }
    let ws = word_ranges(cs, a, b);
    let ghost wv = words(cs@.subrange(a as int, b as int));
    if ws.len() < 2 {
        return None;
    }
    let (t0, t1) = ws[0];
    let (v0, v1) = ws[1];
    assert(cs@.subrange(t0 as int, t1 as int) == wv[0]);
    assert(cs@.subrange(v0 as int, v1 as int) == wv[1]);
    let runtime = if equals_at(cs, t0, t1, "nodejs") || equals_at(cs, t0, t1, "node") {
        Runtime::Node
    } else if equals_at(cs, t0, t1, "python") {
        Runtime::Python
    } else {
        return None;
    };
    Some((runtime, v0, v1))
}

/// The node and python versions that a `.tool-versions` file selects for
/// development, in the order of its lines.
pub fn parse_tool_versions(contents: &str, source: &str) -> (ds: Vec<Declaration>)
    ensures
        all_describe(ds@, tool_versions_entries(contents@), source@),
{
    let cs = chars_of(contents);
    let lines = line_ranges(&cs);
    let ghost lv = pieces(cs@, '\n');
    let mut ds: Vec<Declaration> = Vec::new();
    let mut k: usize = 0;
    while k < lines.len()
        invariant
            k <= lines@.len(),
            cs@ == contents@,
            cuts(cs@, lines@, lv),
            lv == pieces(contents@, '\n'),
            all_describe(ds@, tools_of_lines(lv.take(k as int)), source@),
        decreases lines.len() - k,
    {
        let (lo, hi) = lines[k];
        let ghost e = tools_of_lines(lv.take(k as int));
        proof {
            assert(lv.take(k + 1).drop_last() =~= lv.take(k as int));
            assert(lv.take(k + 1).last() == lv[k as int]);
        }
        match tool_at(&cs, lo, hi) {
            Some((runtime, a, b)) => {
                ds.push(
                    Declaration {
                        runtime,
                        constraint: text_of(contents, &cs, a, b),
                        role: Role::Development,
                        source: source.to_owned(),
                    },
                );
                proof {
                    let e2 = tools_of_lines(lv.take(k + 1));
                    assert(e2 == e.push(
                        (runtime, cs@.subrange(a as int, b as int), Role::Development),
                    ));
                    assert forall|j: int| 0 <= j < ds@.len() implies (#[trigger] ds@[j]).describes(
                        e2[j].0,
                        e2[j].1,
                        e2[j].2,
                        source@,
                    ) by {
                        if j < ds@.len() - 1 {
                            assert(ds@[j] == ds@.drop_last()[j]);
                        }
                    }
                }
            },
            None => {},
        }
        k = k + 1;
    }
    assert(lv.take(lines@.len() as int) =~= lv);
    ds
}

} // verus!
