//! The node range texts on which node-semver's parser aborts (it reaches an
//! `unreachable!`) instead of answering: an `=` comparator whose major
//! version is a wildcard, and a `~` (or `~>`) comparator whose major version
//! is a wildcard or whose minor version is a wildcard followed by a numbered
//! patch. Such a comparator counts where the parser starts one: at the start
//! of the text, after a space or tab, and after a `||` that the parser reads
//! as an alternative (the last two of an even run of `|`).

use vstd::prelude::*;

use crate::text::{chars_of, is_digit};

verus! {

/// A space or a tab: the blanks of node-semver's grammar.
pub open spec fn is_blank(c: char) -> bool {
    c == ' ' || c == '\t'
}

/// `x`, `X` or `*`: a wildcard version component.
pub open spec fn is_wildcard(c: char) -> bool {
    c == 'x' || c == 'X' || c == '*'
}

/// The first position at or after `i` that holds no blank.
pub open spec fn skip_blanks(s: Seq<char>, i: int) -> int
    decreases s.len() - i,
{
    if 0 <= i < s.len() && is_blank(s[i]) {
        skip_blanks(s, i + 1)
    } else {
        i
    }
}

/// Where a partial version that begins at `i` has its major component: after
/// an optional `v` and blanks.
pub open spec fn skip_v(s: Seq<char>, i: int) -> int {
    if 0 <= i < s.len() && s[i] == 'v' {
        skip_blanks(s, i + 1)
    } else {
        i
    }
}

/// The end of the run of ASCII digits that begins at `i`.
pub open spec fn digits_end(s: Seq<char>, i: int) -> int
    decreases s.len() - i,
{
    if 0 <= i < s.len() && is_digit(s[i]) {
        digits_end(s, i + 1)
    } else {
        i
    }
}

/// The value of the decimal digits `s[i..k]`.
pub open spec fn digits_value(s: Seq<char>, i: int, k: int) -> int
    decreases k - i,
{
    if k <= i {
        0
    } else {
        10 * digits_value(s, i, k - 1) + ((s[k - 1] as u32) as int - 48)
    }
}

/// The largest number node-semver reads in a version.
pub open spec fn max_component() -> int {
    900_719_925_474_099
}

/// A number component begins at `i`: a run of digits whose value node-semver
/// accepts.
pub open spec fn number_at(s: Seq<char>, i: int) -> bool {
    let k = digits_end(s, i);
    k > i && digits_value(s, i, k) <= max_component()
}

/// The run of `|` that ends just before `p` has an even length.
pub open spec fn even_pipes_before(s: Seq<char>, p: int) -> bool
    decreases p,
{
    if 0 < p <= s.len() && s[p - 1] == '|' {
        !even_pipes_before(s, p - 1)
    } else {
        true
    }
}

/// node-semver starts to read a comparator at `p`.
pub open spec fn comparator_start(s: Seq<char>, p: int) -> bool {
    p == 0 || is_blank(s[p - 1]) || (s[p - 1] == '|' && even_pipes_before(s, p))
}

/// At `p` stands `=`, then a partial version whose major is a wildcard.
pub open spec fn exact_wildcard_at(s: Seq<char>, p: int) -> bool {
    &&& s[p] == '='
    &&& {
        let j = skip_v(s, skip_blanks(s, p + 1));
        j < s.len() && is_wildcard(s[j])
    }
}

/// At `p` stands `~` or `~>`, then a partial version whose major is a
/// wildcard, or whose minor is a wildcard and whose patch is a number.
pub open spec fn tilde_unmatched_at(s: Seq<char>, p: int) -> bool {
    &&& s[p] == '~'
    &&& {
        let i = skip_blanks(s, p + 1);
        let i2 = if i < s.len() && s[i] == '>' {
            skip_blanks(s, i + 1)
        } else {
            i
        };
        let j = skip_v(s, i2);
        let k = digits_end(s, j);
        ||| j < s.len() && is_wildcard(s[j])
        ||| (number_at(s, j) && k + 2 < s.len() && s[k] == '.' && is_wildcard(s[k + 1]) && s[k
            + 2] == '.' && number_at(s, k + 3))
    }
}

/// `Range::from_str` of node-semver aborts on `s`.
pub open spec fn range_parse_aborts(s: Seq<char>) -> bool {
    exists|p: int|
        0 <= p < s.len() && comparator_start(s, p) && (exact_wildcard_at(s, p) || tilde_unmatched_at(
            s,
            p,
        ))
}

fn skip_blanks_exec(cs: &Vec<char>, i: usize) -> (j: usize)
    requires
        i <= cs.len(),
    ensures
        j == skip_blanks(cs@, i as int),
        i <= j <= cs.len(),
{
    let mut j = i;
    while j < cs.len() && (cs[j] == ' ' || cs[j] == '\t')
        invariant
            i <= j <= cs.len(),
            skip_blanks(cs@, i as int) == skip_blanks(cs@, j as int),
        decreases cs.len() - j,
    {
        j = j + 1;
    }
    j
}

fn skip_v_exec(cs: &Vec<char>, i: usize) -> (j: usize)
    requires
        i <= cs.len(),
    ensures
        j == skip_v(cs@, i as int),
        i <= j <= cs.len(),
{
    if i < cs.len() && cs[i] == 'v' {
        skip_blanks_exec(cs, i + 1)
    } else {
        i
    }
}

/// The end of the digits at `i`, and whether they form a number component.
fn number_exec(cs: &Vec<char>, i: usize) -> (r: (usize, bool))
    requires
        i <= cs.len(),
    ensures
        r.0 == digits_end(cs@, i as int),
        i <= r.0 <= cs.len(),
        r.1 == number_at(cs@, i as int),
{
    let mut k = i;
    let mut v: u64 = 0;
    let cap: u64 = 900_719_925_474_100;
    while k < cs.len() && '0' <= cs[k] && cs[k] <= '9'
        invariant
            i <= k <= cs.len(),
            digits_end(cs@, i as int) == digits_end(cs@, k as int),
            forall|j: int| i <= j < k ==> is_digit(#[trigger] cs@[j]),
            cap == 900_719_925_474_100,
            v <= cap,
            v == cap <==> digits_value(cs@, i as int, k as int) >= cap,
            v < cap ==> v == digits_value(cs@, i as int, k as int),
            digits_value(cs@, i as int, k as int) >= 0,
        decreases cs.len() - k,
    {
        let c = cs[k];
        proof {
            vstd::utf8::char_is_scalar(c);
        }
        let d: u64 = ((c as u32) - 48) as u64;
        assert(d as int == (cs@[k as int] as u32) as int - 48);
        assert(d <= 9);
        if v < cap {
            v = 10 * v + d;
            if v > cap {
                v = cap;
            }
        }
        k = k + 1;
    }
    (k, k > i && v < cap)
}

fn exact_wildcard_exec(cs: &Vec<char>, p: usize) -> (b: bool)
    requires
        p < cs.len(),
    ensures
        b == exact_wildcard_at(cs@, p as int),
{
    if cs[p] != '=' {
        return false;
    }
    let i = skip_blanks_exec(cs, p + 1);
    let j = skip_v_exec(cs, i);
    j < cs.len() && (cs[j] == 'x' || cs[j] == 'X' || cs[j] == '*')
}

fn tilde_unmatched_exec(cs: &Vec<char>, p: usize) -> (b: bool)
    requires
        p < cs.len(),
    ensures
        b == tilde_unmatched_at(cs@, p as int),
{
    if cs[p] != '~' {
        return false;
    }
    let i = skip_blanks_exec(cs, p + 1);
    let i2 = if i < cs.len() && cs[i] == '>' {
        skip_blanks_exec(cs, i + 1)
    } else {
        i
    };
    let j = skip_v_exec(cs, i2);
    if j < cs.len() && (cs[j] == 'x' || cs[j] == 'X' || cs[j] == '*') {
        return true;
    }
    let (k, major) = number_exec(cs, j);
    if !major || k >= cs.len() || cs.len() - k <= 2 {
        return false;
    }
    if cs[k] != '.' || !(cs[k + 1] == 'x' || cs[k + 1] == 'X' || cs[k + 1] == '*') || cs[k + 2]
        != '.' {
        return false;
    }
    let (_, patch) = number_exec(cs, k + 3);
    patch
}

/// Whether node-semver's `Range::from_str` would abort on `text`, as
/// `range_parse_aborts` says.
pub fn range_parse_would_abort(text: &str) -> (b: bool)
    ensures
        b == range_parse_aborts(text@),
{
    let cs = chars_of(text);
    let mut p: usize = 0;
    let mut even = true;
    while p < cs.len()
        invariant
            p <= cs@.len(),
            cs@ == text@,
            even == even_pipes_before(cs@, p as int),
            forall|q: int|
                0 <= q < p ==> !(comparator_start(cs@, q) && (exact_wildcard_at(cs@, q)
                    || tilde_unmatched_at(cs@, q))),
        decreases cs.len() - p,
    {
        let start = p == 0 || cs[p - 1] == ' ' || cs[p - 1] == '\t' || (cs[p - 1] == '|' && even);
        if start && (exact_wildcard_exec(&cs, p) || tilde_unmatched_exec(&cs, p)) {
            return true;
        }
        even = if cs[p] == '|' {
            !even
        } else {
            true
        };
        p = p + 1;
    }
    false
}

} // verus!
