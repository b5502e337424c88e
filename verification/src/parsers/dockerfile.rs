//! The node versions of a Dockerfile's build stages.

use vstd::prelude::*;

use crate::model::{all_describe, Declaration, Role, Runtime};
use crate::text::{
    after_last, before_first, lemma_before_first_shape, chars_of, cuts, find_after_last, find_first, is_digit,
    line_ranges, pieces, same_ignoring_ascii_case, same_ignoring_ascii_case_at, starts_with,
    starts_with_at, strip_prefix, text_of, trim, trim_range, word_ranges, words,
};

verus! {

/// The node version that an image reference names: for `node:<tag>`, with
/// any registry path in front and any `@digest` behind, the tag up to its
/// first `-`, without one leading `v`, when it begins with a digit.
pub open spec fn node_version_of_image(image: Seq<char>) -> Option<Seq<char>> {
    let name = after_last(before_first(image, '@'), '/');
    if starts_with(name, "node:"@) {
        let version = before_first(strip_prefix(strip_prefix(name, "node:"@), "v"@), '-');
        if version.len() > 0 && is_digit(version[0]) {
            Some(version)
        } else {
            None
        }
    } else {
        None
    }
}

/// The first word that is no option (does not begin with `--`).
pub open spec fn first_non_option(ws: Seq<Seq<char>>) -> Option<Seq<char>>
    decreases ws.len(),
{
    if ws.len() == 0 {
        None
    } else if !starts_with(ws[0], "--"@) {
        Some(ws[0])
    } else {
        first_non_option(ws.drop_first())
    }
}

/// What a line says of a build stage: `None` when it is blank, a comment, or
/// no `FROM` instruction (in any letter case); otherwise the node version of
/// the stage's image, if it has one.
pub open spec fn stage_of_line(line: Seq<char>) -> Option<Option<Seq<char>>> {
    let t = trim(line);
    let ws = words(t);
    if t.len() == 0 || starts_with(t, "#"@) || ws.len() == 0 || !same_ignoring_ascii_case(
        ws[0],
        "FROM"@,
    ) {
        None
    } else {
        Some(
            match first_non_option(ws.drop_first()) {
                Some(image) => node_version_of_image(image),
                None => None,
            },
        )
    }
}

/// The build stages of `lines`, in order, each with its node version if any.
pub open spec fn stages_of_lines(lines: Seq<Seq<char>>) -> Seq<Option<Seq<char>>>
    decreases lines.len(),
{
    if lines.len() == 0 {
        Seq::empty()
    } else {
        let st = stages_of_lines(lines.drop_last());
        match stage_of_line(lines.last()) {
            Some(v) => st.push(v),
            None => st,
        }
    }
}

/// The build stages of a Dockerfile.
pub open spec fn dockerfile_stages(contents: Seq<char>) -> Seq<Option<Seq<char>>> {
    stages_of_lines(pieces(contents, '\n'))
}

/// The node stages among the first `k` of `stages`, in order: the last stage
/// of the file is shipped, every earlier one is built with.
pub open spec fn stage_entries(stages: Seq<Option<Seq<char>>>, k: int) -> Seq<
    (Runtime, Seq<char>, Role),
>
    decreases k,
{
    if k <= 0 {
        Seq::empty()
    } else {
        let e = stage_entries(stages, k - 1);
        match stages[k - 1] {
            Some(v) => e.push(
                (Runtime::Node, v, if k == stages.len() { Role::Shipped } else { Role::Build }),
            ),
            None => e,
        }
    }
}

/// What a Dockerfile declares: its node stages, in order.
pub open spec fn dockerfile_entries(contents: Seq<char>) -> Seq<(Runtime, Seq<char>, Role)> {
    let st = dockerfile_stages(contents);
    stage_entries(st, st.len() as int)
}

proof fn lemma_stage_entries_roles(stages: Seq<Option<Seq<char>>>, k: int)
    requires
        0 <= k <= stages.len(),
    ensures
        ({
            let e = stage_entries(stages, k);
            &&& forall|i: int| 0 <= i < e.len() ==> (#[trigger] e[i]).0 == Runtime::Node
            &&& forall|i: int|
                0 <= i < e.len() ==> (#[trigger] e[i]).2 == Role::Build || (e[i].2 == Role::Shipped
                    && i == e.len() - 1 && k == stages.len() && stages[k - 1] is Some)
            &&& k == stages.len() && k > 0 && stages[k - 1] is Some ==> e.len() > 0 && e.last().2
                == Role::Shipped
        }),
    decreases k,
{
    if k > 0 {
        lemma_stage_entries_roles(stages, k - 1);
        let e0 = stage_entries(stages, k - 1);
        let e = stage_entries(stages, k);
        if stages[k - 1] is Some {
            assert forall|i: int| 0 <= i < e.len() - 1 implies #[trigger] e[i] == e0[i] by {}
        }
    }
}

/// The roles of a Dockerfile's declarations: all are node versions; every
/// one is built with but possibly the last, which is shipped exactly when
/// the file's last stage is a node stage.
pub proof fn lemma_dockerfile_roles(contents: Seq<char>)
    ensures
        ({
            let e = dockerfile_entries(contents);
            let st = dockerfile_stages(contents);
            &&& forall|i: int| 0 <= i < e.len() ==> (#[trigger] e[i]).0 == Runtime::Node
            &&& forall|i: int| 0 <= i < e.len() - 1 ==> (#[trigger] e[i]).2 == Role::Build
            &&& e.len() > 0 ==> (e.last().2 == Role::Shipped <==> st.last() is Some)
            &&& e.len() > 0 ==> (e.last().2 == Role::Shipped || e.last().2 == Role::Build)
        }),
{
    let st = dockerfile_stages(contents);
    lemma_stage_entries_roles(st, st.len() as int);
}

/// The version read from a node image reference is its tag (without one
/// leading `v`) up to the tag's first `-`: it begins with a digit, holds no
/// `-`, and the tag is the version or goes on with `-`. And a node image
/// whose tag begins with a digit always yields a version.
pub proof fn lemma_image_version_is_tag_prefix(image: Seq<char>)
    ensures
        ({
            let name = after_last(before_first(image, '@'), '/');
            let tag = strip_prefix(strip_prefix(name, "node:"@), "v"@);
            &&& node_version_of_image(image) matches Some(v) ==> {
                &&& starts_with(name, "node:"@)
                &&& v.len() > 0 && is_digit(v[0])
                &&& forall|i: int| 0 <= i < v.len() ==> #[trigger] v[i] != '-'
                &&& v.len() <= tag.len() && tag.take(v.len() as int) == v
                &&& (v.len() == tag.len() || tag[v.len() as int] == '-')
            }
            &&& (starts_with(name, "node:"@) && tag.len() > 0 && is_digit(tag[0]))
                ==> node_version_of_image(image) is Some
        }),
{
    let name = after_last(before_first(image, '@'), '/');
    let tag = strip_prefix(strip_prefix(name, "node:"@), "v"@);
    lemma_before_first_shape(tag, '-');
    let b = before_first(tag, '-');
    if tag.len() > 0 && is_digit(tag[0]) && b.len() > 0 {
        assert(b[0] == tag.take(b.len() as int)[0]);
    }
}

proof fn lemma_stages_numbered(lines: Seq<Seq<char>>)
    ensures
        forall|i: int|
            0 <= i < stages_of_lines(lines).len() ==> (#[trigger] stages_of_lines(lines)[i] matches Some(v)
                ==> v.len() > 0 && is_digit(v[0]) && forall|j: int| 0 <= j < v.len() ==> v[j] != '-'),
    decreases lines.len(),
{
    if lines.len() > 0 {
        lemma_stages_numbered(lines.drop_last());
        let ws = words(trim(lines.last()));
        if let Some(image) = first_non_option(ws.drop_first()) {
            lemma_image_version_is_tag_prefix(image);
        }
    }
}

proof fn lemma_stage_entries_from(stages: Seq<Option<Seq<char>>>, k: int)
    requires
        0 <= k <= stages.len(),
    ensures
        forall|i: int|
            0 <= i < stage_entries(stages, k).len() ==> exists|j: int|
                0 <= j < k && stages[j] == Some(#[trigger] stage_entries(stages, k)[i].1),
    decreases k,
{
    if k > 0 {
        lemma_stage_entries_from(stages, k - 1);
        let e = stage_entries(stages, k);
        let e0 = stage_entries(stages, k - 1);
        assert forall|i: int| 0 <= i < e.len() implies exists|j: int|
            0 <= j < k && stages[j] == Some(#[trigger] e[i].1) by {
            if i < e0.len() {
                assert(e[i] == e0[i]);
                let j = choose|j: int| 0 <= j < k - 1 && stages[j] == Some(e0[i].1);
                assert(0 <= j < k && stages[j] == Some(e[i].1));
            } else {
                assert(stages[k - 1] == Some(e[i].1));
            }
        }
    }
}

/// Every version a Dockerfile declares begins with a digit and holds no `-`
/// (an image variant such as `-alpine` is never part of it).
pub proof fn lemma_dockerfile_versions_numbered(contents: Seq<char>)
    ensures
        forall|i: int|
            0 <= i < dockerfile_entries(contents).len() ==> {
                let v = (#[trigger] dockerfile_entries(contents)[i]).1;
                v.len() > 0 && is_digit(v[0]) && forall|j: int| 0 <= j < v.len() ==> v[j] != '-'
            },
{
    let st = dockerfile_stages(contents);
    lemma_stages_numbered(pieces(contents, '\n'));
    lemma_stage_entries_from(st, st.len() as int);
    assert forall|i: int| 0 <= i < dockerfile_entries(contents).len() implies {
        let v = (#[trigger] dockerfile_entries(contents)[i]).1;
        v.len() > 0 && is_digit(v[0]) && forall|j: int| 0 <= j < v.len() ==> v[j] != '-'
    } by {
        let e = dockerfile_entries(contents);
        let j = choose|j: int| 0 <= j < st.len() && st[j] == Some(#[trigger] e[i].1);
        assert(st[j] matches Some(v) ==> v.len() > 0 && is_digit(v[0]) && forall|k: int|
            0 <= k < v.len() ==> v[k] != '-');
    }
}

proof fn lemma_first_non_option(ws: Seq<Seq<char>>, k: int)
    requires
        0 <= k <= ws.len(),
        forall|j: int| 0 <= j < k ==> starts_with(#[trigger] ws[j], "--"@),
        k == ws.len() || !starts_with(ws[k], "--"@),
    ensures
        first_non_option(ws) == if k == ws.len() {
            None
        } else {
            Some(ws[k])
        },
    decreases k,
{
    if k > 0 {
        assert forall|j: int| 0 <= j < k - 1 implies starts_with(
            #[trigger] ws.drop_first()[j],
            "--"@,
        ) by {
            assert(starts_with(ws[j + 1], "--"@));
        }
        lemma_first_non_option(ws.drop_first(), k - 1);
    }
}

/// The range of the node version that the image reference `cs[lo..hi]` names.
fn node_version_range(cs: &Vec<char>, lo: usize, hi: usize) -> (r: Option<(usize, usize)>)
    requires
        lo <= hi <= cs.len(),
    ensures
        match r {
            Some((a, b)) => lo <= a <= b <= hi && node_version_of_image(
                cs@.subrange(lo as int, hi as int),
            ) == Some(cs@.subrange(a as int, b as int)),
            None => node_version_of_image(cs@.subrange(lo as int, hi as int)) is None,
        },
{
    proof {
        reveal_strlit("node:");
        reveal_strlit("v");
    }
    let at = find_first(cs, lo, hi, '@');
    let slash = find_after_last(cs, lo, at, '/');
    if !starts_with_at(cs, slash, at, "node:") {
        return None;
    }
    let ghost name = cs@.subrange(slash as int, at as int);
    let t0 = slash + 5;
    assert(strip_prefix(name, "node:"@) =~= cs@.subrange(t0 as int, at as int));
    let t = if starts_with_at(cs, t0, at, "v") {
        assert(strip_prefix(cs@.subrange(t0 as int, at as int), "v"@) =~= cs@.subrange(
            t0 + 1,
            at as int,
        ));
        t0 + 1
    } else {
        t0
    };
    let dash = find_first(cs, t, at, '-');
    if dash > t && '0' <= cs[t] && cs[t] <= '9' {
        assert(cs@.subrange(t as int, dash as int)[0] == cs@[t as int]);
        Some((t, dash))
    } else {
        proof {
            if dash > t {
                assert(cs@.subrange(t as int, dash as int)[0] == cs@[t as int]);
            }
        }
        None
    }
}

/// The node version that an image reference names, as
/// `node_version_of_image` says.
pub fn extract_node_version(image: &str) -> (r: Option<String>)
    ensures
        match r {
            Some(v) => node_version_of_image(image@) == Some(v@),
            None => node_version_of_image(image@) is None,
        },
{
    let cs = chars_of(image);
    assert(cs@.subrange(0, cs@.len() as int) =~= cs@);
    match node_version_range(&cs, 0, cs.len()) {
        Some((a, b)) => Some(text_of(image, &cs, a, b)),
        None => None,
    }
}

/// What the line `cs[lo..hi]` says of a build stage, with the range of the
/// stage's node version.
fn stage_at(cs: &Vec<char>, lo: usize, hi: usize) -> (r: Option<Option<(usize, usize)>>)
    requires
        lo <= hi <= cs.len(),
    ensures
        match r {
            None => stage_of_line(cs@.subrange(lo as int, hi as int)) is None,
            Some(None) => stage_of_line(cs@.subrange(lo as int, hi as int)) == Some(
                None::<Seq<char>>,
            ),
            Some(Some((a, b))) => a <= b <= cs.len() && stage_of_line(
                cs@.subrange(lo as int, hi as int),
            ) == Some(Some(cs@.subrange(a as int, b as int))),
        },
{
    let (a, b) = trim_range(cs, lo, hi);
    if a == b {
        return None;
    }
    if starts_with_at(cs, a, b, "#") {
        return None;
    }
    let ws = word_ranges(cs, a, b);
    let ghost wv = words(cs@.subrange(a as int, b as int));
    if ws.len() == 0 {
        return None;
    }
    let (f0, f1) = ws[0];
    if !same_ignoring_ascii_case_at(cs, f0, f1, "FROM") {
        return None;
    }
    let mut k: usize = 1;
    while k < ws.len() && starts_with_at(cs, ws[k].0, ws[k].1, "--")
        invariant
            1 <= k <= ws@.len(),
            cuts(cs@, ws@, wv),
            forall|j: int| 1 <= j < k ==> starts_with(#[trigger] wv[j], "--"@),
        decreases ws.len() - k,
    {
        k = k + 1;
    }
    proof {
        let rest = wv.drop_first();
        assert forall|j: int| 0 <= j < k - 1 implies starts_with(#[trigger] rest[j], "--"@) by {
            assert(starts_with(wv[j + 1], "--"@));
        }
        lemma_first_non_option(rest, k - 1);
    }
    if k == ws.len() {
        return Some(None);
    }
    let (i0, i1) = ws[k];
    Some(node_version_range(cs, i0, i1))
}

/// The node versions of a Dockerfile's stages, in order: the stage of the
/// last `FROM` instruction is shipped, the earlier ones are built with;
/// stages whose image is no numbered node image declare nothing.
pub fn parse_dockerfile(contents: &str, source: &str) -> (ds: Vec<Declaration>)
    ensures
        all_describe(ds@, dockerfile_entries(contents@), source@),
{
    let cs = chars_of(contents);
    let lines = line_ranges(&cs);
    let ghost lv = pieces(cs@, '\n');
    let mut stages: Vec<Option<(usize, usize)>> = Vec::new();
    let ghost mut sv: Seq<Option<Seq<char>>> = Seq::empty();
    let mut k: usize = 0;
    while k < lines.len()
        invariant
            k <= lines@.len(),
            cuts(cs@, lines@, lv),
            sv == stages_of_lines(lv.take(k as int)),
            stages@.len() == sv.len(),
            forall|i: int|
                0 <= i < sv.len() ==> match #[trigger] stages@[i] {
                    Some((a, b)) => a <= b <= cs@.len() && sv[i] == Some(
                        cs@.subrange(a as int, b as int),
                    ),
                    None => sv[i] is None,
                },
        decreases lines.len() - k,
    {
        let (lo, hi) = lines[k];
        let st = stage_at(&cs, lo, hi);
        proof {
            assert(lv.take(k + 1).drop_last() =~= lv.take(k as int));
            assert(lv.take(k + 1).last() == lv[k as int]);
        }
        match st {
            Some(v) => {
                stages.push(v);
                proof {
                    let t = match v {
                        Some((a, b)) => Some(cs@.subrange(a as int, b as int)),
                        None => None,
                    };
                    sv = sv.push(t);
                }
            },
            None => {},
        }
        k = k + 1;
    }
    assert(lv.take(lines@.len() as int) =~= lv);
    let n = stages.len();
    let mut ds: Vec<Declaration> = Vec::new();
    let mut i: usize = 0;
    while i < n
        invariant
            n == stages@.len() == sv.len(),
            i <= n,
            sv == dockerfile_stages(contents@),
            cs@ == contents@,
            forall|j: int|
                0 <= j < sv.len() ==> match #[trigger] stages@[j] {
                    Some((a, b)) => a <= b <= cs@.len() && sv[j] == Some(
                        cs@.subrange(a as int, b as int),
                    ),
                    None => sv[j] is None,
                },
            all_describe(ds@, stage_entries(sv, i as int), source@),
        decreases n - i,
    {
        let ghost e = stage_entries(sv, i as int);
        match stages[i] {
            Some((a, b)) => {
                let role = if i + 1 == n {
                    Role::Shipped
                } else {
                    Role::Build
                };
                let d = Declaration {
                    runtime: Runtime::Node,
                    constraint: text_of(contents, &cs, a, b),
                    role,
                    source: source.to_owned(),
                };
                ds.push(d);
                proof {
                    let e2 = stage_entries(sv, i + 1);
                    assert(e2 == e.push((Runtime::Node, cs@.subrange(a as int, b as int), role)));
                    assert forall|j: int| 0 <= j < ds@.len() implies (#[trigger] ds@[j]).describes(
                        e2[j].0,
                        e2[j].1,
                        e2[j].2,
                        source@,
                    ) by {
                        if j < ds@.len() - 1 {
                            assert(ds@[j] == ds@.drop_last()[j]);
                        }
                    }
                }
            },
            None => {},
        }
        i = i + 1;
    }
    ds
}

} // verus!
