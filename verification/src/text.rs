//! Text as sequences of characters: the pieces of a file between line feeds,
//! the words of a line, trimming, prefixes, and the exec helpers that compute
//! them over a `Vec<char>` by index ranges.

use vstd::prelude::*;
use vstd::string::StrSliceExecFns;

verus! {

/// Unicode `White_Space`, the characters that `char::is_whitespace` accepts.
pub open spec fn is_space(c: char) -> bool {
    ||| ('\u{9}' <= c && c <= '\u{d}')
    ||| c == ' '
    ||| c == '\u{85}'
    ||| c == '\u{a0}'
    ||| c == '\u{1680}'
    ||| ('\u{2000}' <= c && c <= '\u{200a}')
    ||| c == '\u{2028}'
    ||| c == '\u{2029}'
    ||| c == '\u{202f}'
    ||| c == '\u{205f}'
    ||| c == '\u{3000}'
}

/// An ASCII decimal digit.
pub open spec fn is_digit(c: char) -> bool {
    '0' <= c && c <= '9'
}

/// The code of `c` with ASCII capitals folded to small letters.
pub open spec fn ascii_fold(c: char) -> int {
    if 'A' <= c && c <= 'Z' {
        (c as u32) + 32
    } else {
        (c as u32) as int
    }
}

/// `a` and `b` are equal when ASCII letter case is ignored.
pub open spec fn same_ignoring_ascii_case(a: Seq<char>, b: Seq<char>) -> bool {
    &&& a.len() == b.len()
    &&& forall|i: int| 0 <= i < a.len() ==> ascii_fold(#[trigger] a[i]) == ascii_fold(b[i])
}

/// `s` begins with `p`.
pub open spec fn starts_with(s: Seq<char>, p: Seq<char>) -> bool {
    p.len() <= s.len() && s.take(p.len() as int) == p
}

/// `s` without `p` in front, when it begins with `p`; otherwise `s`.
pub open spec fn strip_prefix(s: Seq<char>, p: Seq<char>) -> Seq<char> {
    if starts_with(s, p) {
        s.skip(p.len() as int)
    } else {
        s
    }
}

/// `s` without its leading white space.
pub open spec fn trim_start(s: Seq<char>) -> Seq<char>
    decreases s.len(),
{
    if s.len() > 0 && is_space(s[0]) {
        trim_start(s.drop_first())
    } else {
        s
    }
}

/// `s` without its trailing white space.
pub open spec fn trim_end(s: Seq<char>) -> Seq<char>
    decreases s.len(),
{
    if s.len() > 0 && is_space(s.last()) {
        trim_end(s.drop_last())
    } else {
        s
    }
}

/// `s` without leading and trailing white space, as `str::trim` gives it.
pub open spec fn trim(s: Seq<char>) -> Seq<char> {
    trim_end(trim_start(s))
}

/// The pieces of `s` between the occurrences of `sep`, in order: one more
/// piece than `s` holds `sep`s. With `sep` a line feed these are the lines of
/// `s`, but for a last empty piece after a final line feed (which `str::lines`
/// leaves out) and a carriage return before a line feed (which it strips):
/// both vanish once a line is trimmed.
pub open spec fn pieces(s: Seq<char>, sep: char) -> Seq<Seq<char>>
    decreases s.len(),
{
    if s.len() == 0 {
        seq![Seq::empty()]
    } else {
        let p = pieces(s.drop_last(), sep);
        if s.last() == sep {
            p.push(Seq::empty())
        } else {
            p.update(p.len() - 1, p.last().push(s.last()))
        }
    }
}

/// The words of `s`: its longest runs of characters that are not white space,
/// in order, as `str::split_whitespace` gives them.
pub open spec fn words(s: Seq<char>) -> Seq<Seq<char>>
    decreases s.len(),
{
    if s.len() == 0 {
        Seq::empty()
    } else {
        let w = words(s.drop_last());
        let c = s.last();
        if is_space(c) {
            w
        } else if s.len() >= 2 && !is_space(s[s.len() - 2]) && w.len() > 0 {
            w.update(w.len() - 1, w.last().push(c))
        } else {
            w.push(seq![c])
        }
    }
}

/// The part of `s` before its first `c`; all of `s` when it holds no `c`.
pub open spec fn before_first(s: Seq<char>, c: char) -> Seq<char>
    decreases s.len(),
{
    if s.len() == 0 || s[0] == c {
        Seq::empty()
    } else {
        seq![s[0]] + before_first(s.drop_first(), c)
    }
}

/// The part of `s` after its last `c`; all of `s` when it holds no `c`.
pub open spec fn after_last(s: Seq<char>, c: char) -> Seq<char>
    decreases s.len(),
{
    if s.len() == 0 || s.last() == c {
        Seq::empty()
    } else {
        after_last(s.drop_last(), c).push(s.last())
    }
}

/// Each range of `r` lies in `cs`, and they cut out the sequences `parts`.
pub open spec fn cuts(cs: Seq<char>, r: Seq<(usize, usize)>, parts: Seq<Seq<char>>) -> bool {
    &&& r.len() == parts.len()
    &&& forall|k: int|
        0 <= k < r.len() ==> {
            &&& (#[trigger] r[k]).0 <= r[k].1 <= cs.len()
            &&& cs.subrange(r[k].0 as int, r[k].1 as int) == parts[k]
        }
}

proof fn lemma_pieces_nonempty(s: Seq<char>, sep: char)
    ensures
        pieces(s, sep).len() >= 1,
    decreases s.len(),
{
    if s.len() > 0 {
        lemma_pieces_nonempty(s.drop_last(), sep);
    }
}

/// Joining two texts with a separator joins their pieces.
pub proof fn lemma_pieces_concat(a: Seq<char>, b: Seq<char>, sep: char)
    ensures
        pieces(a + seq![sep] + b, sep) == pieces(a, sep) + pieces(b, sep),
    decreases b.len(),
{
    let s = a + seq![sep] + b;
    if b.len() == 0 {
        assert(s =~= (a + seq![sep]));
        assert((a + seq![sep]).drop_last() =~= a);
        assert(pieces(a, sep) + pieces(b, sep) =~= pieces(a, sep).push(Seq::empty()));
    } else {
        lemma_pieces_concat(a, b.drop_last(), sep);
        lemma_pieces_nonempty(b.drop_last(), sep);
        assert(s.drop_last() =~= a + seq![sep] + b.drop_last());
        assert(s.last() == b.last());
        let p = pieces(a, sep);
        let q = pieces(b.drop_last(), sep);
        if b.last() == sep {
            assert((p + q).push(Seq::empty()) =~= p + q.push(Seq::empty()));
        } else {
            let c = b.last();
            assert((p + q).update((p + q).len() - 1, (p + q).last().push(c)) =~= p + q.update(
                q.len() - 1,
                q.last().push(c),
            ));
        }
    }
}

proof fn lemma_trim_start_skip(s: Seq<char>, a: int)
    requires
        0 <= a <= s.len(),
        forall|j: int| 0 <= j < a ==> is_space(#[trigger] s[j]),
        a == s.len() || !is_space(s[a]),
    ensures
        trim_start(s) == s.skip(a),
    decreases a,
{
    if a > 0 {
        assert forall|j: int| 0 <= j < a - 1 implies is_space(#[trigger] s.drop_first()[j]) by {
            assert(is_space(s[j + 1]));
        }
        lemma_trim_start_skip(s.drop_first(), a - 1);
        assert(s.drop_first().skip(a - 1) =~= s.skip(a));
    } else {
        assert(s.skip(0) =~= s);
    }
}

proof fn lemma_trim_end_take(s: Seq<char>, b: int)
    requires
        0 <= b <= s.len(),
        forall|j: int| b <= j < s.len() ==> is_space(#[trigger] s[j]),
        b == 0 || !is_space(s[b - 1]),
    ensures
        trim_end(s) == s.take(b),
    decreases s.len() - b,
{
    if b < s.len() {
        assert forall|j: int| b <= j < s.len() - 1 implies is_space(#[trigger] s.drop_last()[j]) by {
            assert(is_space(s[j]));
        }
        lemma_trim_end_take(s.drop_last(), b);
        assert(s.drop_last().take(b) =~= s.take(b));
    } else {
        assert(s.take(b) =~= s);
    }
}

/// The part of `s` before its first `c` is a prefix of `s` that holds no
/// `c` and ends where `s` ends or at a `c`.
pub proof fn lemma_before_first_shape(s: Seq<char>, c: char)
    ensures
        before_first(s, c).len() <= s.len(),
        s.take(before_first(s, c).len() as int) == before_first(s, c),
        forall|i: int| 0 <= i < before_first(s, c).len() ==> #[trigger] before_first(s, c)[i] != c,
        before_first(s, c).len() == s.len() || s[before_first(s, c).len() as int] == c,
    decreases s.len(),
{
    if s.len() > 0 && s[0] != c {
        lemma_before_first_shape(s.drop_first(), c);
        let r = before_first(s.drop_first(), c);
        assert(before_first(s, c) == seq![s[0]] + r);
        assert(s.take(r.len() + 1 as int) =~= seq![s[0]] + s.drop_first().take(r.len() as int));
        assert forall|i: int| 0 <= i < r.len() + 1 implies #[trigger] (seq![s[0]] + r)[i] != c by {
            if i > 0 {
                assert((seq![s[0]] + r)[i] == r[i - 1]);
            }
        }
    } else {
        assert(s.take(0) =~= Seq::<char>::empty());
    }
}

proof fn lemma_before_first_take(s: Seq<char>, c: char, p: int)
    requires
        0 <= p <= s.len(),
        forall|j: int| 0 <= j < p ==> #[trigger] s[j] != c,
        p == s.len() || s[p] == c,
    ensures
        before_first(s, c) == s.take(p),
    decreases p,
{
    if p > 0 {
        assert forall|j: int| 0 <= j < p - 1 implies #[trigger] s.drop_first()[j] != c by {
            assert(s[j + 1] != c);
        }
        lemma_before_first_take(s.drop_first(), c, p - 1);
        assert(seq![s[0]] + s.drop_first().take(p - 1) =~= s.take(p));
    } else {
        assert(s.take(0) =~= Seq::<char>::empty());
    }
}

proof fn lemma_after_last_skip(s: Seq<char>, c: char, p: int)
    requires
        0 <= p <= s.len(),
        forall|j: int| p <= j < s.len() ==> #[trigger] s[j] != c,
        p == 0 || s[p - 1] == c,
    ensures
        after_last(s, c) == s.skip(p),
    decreases s.len() - p,
{
    if p < s.len() {
        assert forall|j: int| p <= j < s.len() - 1 implies #[trigger] s.drop_last()[j] != c by {
            assert(s[j] != c);
        }
        lemma_after_last_skip(s.drop_last(), c, p);
        assert(s.drop_last().skip(p).push(s.last()) =~= s.skip(p));
    } else {
        assert(s.skip(p) =~= Seq::<char>::empty());
    }
}

/// The characters of `s`, in order.
pub fn chars_of(s: &str) -> (cs: Vec<char>)
    ensures
        cs@ == s@,
{
    broadcast use vstd::string::axiom_spec_iter;

    let mut cs: Vec<char> = Vec::new();
    for c in it: s.chars()
        invariant
            cs@ == it.seq().take(it.index()),
    {
        cs.push(c);
    }
    cs
}

/// Whether `c` is white space, as `char::is_whitespace` decides.
pub fn is_space_char(c: char) -> (b: bool)
    ensures
        b == is_space(c),
{
    ('\u{9}' <= c && c <= '\u{d}') || c == ' ' || c == '\u{85}' || c == '\u{a0}' || c == '\u{1680}'
        || ('\u{2000}' <= c && c <= '\u{200a}') || c == '\u{2028}' || c == '\u{2029}' || c
        == '\u{202f}' || c == '\u{205f}' || c == '\u{3000}'
}

/// The bounds of `cs[lo..hi]` with its leading and trailing white space cut off.
pub fn trim_range(cs: &Vec<char>, lo: usize, hi: usize) -> (r: (usize, usize))
    requires
        lo <= hi <= cs.len(),
    ensures
        lo <= r.0 <= r.1 <= hi,
        cs@.subrange(r.0 as int, r.1 as int) == trim(cs@.subrange(lo as int, hi as int)),
{
    let mut a = lo;
    while a < hi && is_space_char(cs[a])
        invariant
            lo <= a <= hi <= cs.len(),
            forall|j: int| lo <= j < a ==> is_space(#[trigger] cs@[j]),
        decreases hi - a,
    {
        a = a + 1;
    }
    let mut b = hi;
    while b > a && is_space_char(cs[b - 1])
        invariant
            lo <= a <= b <= hi <= cs.len(),
            forall|j: int| b <= j < hi ==> is_space(#[trigger] cs@[j]),
        decreases b - a,
    {
        b = b - 1;
    }
    proof {
        let s = cs@.subrange(lo as int, hi as int);
        assert forall|j: int| 0 <= j < a - lo implies is_space(#[trigger] s[j]) by {
            assert(is_space(cs@[lo + j]));
        }
        lemma_trim_start_skip(s, a - lo);
        let t = cs@.subrange(a as int, hi as int);
        assert(s.skip(a - lo) =~= t);
        assert forall|j: int| b - a <= j < t.len() implies is_space(#[trigger] t[j]) by {
            assert(is_space(cs@[a + j]));
        }
        lemma_trim_end_take(t, b - a);
        assert(t.take(b - a) =~= cs@.subrange(a as int, b as int));
    }
    (a, b)
}

/// The ranges of the pieces of `cs` between line feeds.
pub fn line_ranges(cs: &Vec<char>) -> (r: Vec<(usize, usize)>)
    ensures
        cuts(cs@, r@, pieces(cs@, '\n')),
{
    let mut r: Vec<(usize, usize)> = Vec::new();
    let mut start: usize = 0;
    let mut i: usize = 0;
    while i < cs.len()
        invariant
            start <= i <= cs.len(),
            cuts(cs@, r@, pieces(cs@.take(i as int), '\n').drop_last()),
            pieces(cs@.take(i as int), '\n').last() == cs@.subrange(start as int, i as int),
            pieces(cs@.take(i as int), '\n').len() == r@.len() + 1,
        decreases cs.len() - i,
    {
        let ghost before = pieces(cs@.take(i as int), '\n');
        proof {
            assert(cs@.take(i + 1).drop_last() =~= cs@.take(i as int));
        }
        if cs[i] == '\n' {
            r.push((start, i));
            start = i + 1;
            proof {
                let after = pieces(cs@.take(i + 1), '\n');
                assert(after == before.push(Seq::empty()));
                assert(after.drop_last() =~= before);
                assert(cs@.subrange(start as int, i + 1) =~= Seq::<char>::empty());
            }
        } else {
            proof {
                lemma_pieces_nonempty(cs@.take(i as int), '\n');
                let after = pieces(cs@.take(i + 1), '\n');
                assert(after.drop_last() =~= before.drop_last());
                assert(cs@.subrange(start as int, i + 1) =~= cs@.subrange(start as int, i as int).push(
                    cs@[i as int],
                ));
            }
        }
        i = i + 1;
    }
    r.push((start, i));
    proof {
        assert(cs@.take(i as int) =~= cs@);
        let all = pieces(cs@, '\n');
        assert(all =~= all.drop_last().push(all.last()));
    }
    r
}

/// The ranges of the words of `cs[lo..hi]`.
pub fn word_ranges(cs: &Vec<char>, lo: usize, hi: usize) -> (r: Vec<(usize, usize)>)
    requires
        lo <= hi <= cs.len(),
    ensures
        cuts(cs@, r@, words(cs@.subrange(lo as int, hi as int))),
        forall|k: int| 0 <= k < r@.len() ==> lo <= (#[trigger] r@[k]).0 && r@[k].1 <= hi,
{
    let mut r: Vec<(usize, usize)> = Vec::new();
    let mut i: usize = lo;
    while i < hi
        invariant
            lo <= i <= hi <= cs.len(),
            cuts(cs@, r@, words(cs@.subrange(lo as int, i as int))),
            forall|k: int| 0 <= k < r@.len() ==> lo <= (#[trigger] r@[k]).0 && r@[k].1 <= i,
            i > lo && !is_space(cs@[i - 1]) ==> r@.len() > 0 && r@.last().1 == i,
        decreases hi - i,
    {
        let ghost s = cs@.subrange(lo as int, i + 1);
        let ghost w = words(cs@.subrange(lo as int, i as int));
        proof {
            assert(s.drop_last() =~= cs@.subrange(lo as int, i as int));
        }
        let c = cs[i];
        if is_space_char(c) {
        } else if i > lo && !is_space_char(cs[i - 1]) {
            let last = r.len() - 1;
            let (a, _) = r[last];
            let ghost r0 = r@;
            r.set(last, (a, i + 1));
            proof {
                assert(s[s.len() - 2] == cs@[i - 1]);
                assert(cs@.subrange(a as int, i + 1) =~= cs@.subrange(a as int, i as int).push(c));
                assert(words(s) == w.update(w.len() - 1, w.last().push(c)));
                assert forall|k: int| 0 <= k < r@.len() implies {
                    &&& (#[trigger] r@[k]).0 <= r@[k].1 <= cs@.len()
                    &&& cs@.subrange(r@[k].0 as int, r@[k].1 as int) == words(s)[k]
                } by {
                    if k < last {
                        assert(r@[k] == r0[k]);
                    }
                }
            }
        } else {
            r.push((i, i + 1));
            proof {
                assert(cs@.subrange(i as int, i + 1) =~= seq![c]);
                assert(words(s) == w.push(seq![c]));
                assert forall|k: int| 0 <= k < r@.len() implies {
                    &&& (#[trigger] r@[k]).0 <= r@[k].1 <= cs@.len()
                    &&& cs@.subrange(r@[k].0 as int, r@[k].1 as int) == words(s)[k]
                } by {
                    if k < r@.len() - 1 {
                        assert(r@[k] == r@.drop_last()[k]);
                    }
                }
            }
        }
        i = i + 1;
    }
    r
}

/// The position of the first `c` in `cs[lo..hi]`, or `hi` when there is none.
pub fn find_first(cs: &Vec<char>, lo: usize, hi: usize, c: char) -> (p: usize)
    requires
        lo <= hi <= cs.len(),
    ensures
        lo <= p <= hi,
        cs@.subrange(lo as int, p as int) == before_first(cs@.subrange(lo as int, hi as int), c),
{
    let mut p = lo;
    while p < hi && cs[p] != c
        invariant
            lo <= p <= hi <= cs.len(),
            forall|j: int| lo <= j < p ==> #[trigger] cs@[j] != c,
        decreases hi - p,
    {
        p = p + 1;
    }
    proof {
        let s = cs@.subrange(lo as int, hi as int);
        assert forall|j: int| 0 <= j < p - lo implies #[trigger] s[j] != c by {
            assert(cs@[lo + j] != c);
        }
        lemma_before_first_take(s, c, p - lo);
        assert(s.take(p - lo) =~= cs@.subrange(lo as int, p as int));
    }
    p
}

/// The position just after the last `c` in `cs[lo..hi]`, or `lo` when there is none.
pub fn find_after_last(cs: &Vec<char>, lo: usize, hi: usize, c: char) -> (p: usize)
    requires
        lo <= hi <= cs.len(),
    ensures
        lo <= p <= hi,
        cs@.subrange(p as int, hi as int) == after_last(cs@.subrange(lo as int, hi as int), c),
{
    let mut p = hi;
    while p > lo && cs[p - 1] != c
        invariant
            lo <= p <= hi <= cs.len(),
            forall|j: int| p <= j < hi ==> #[trigger] cs@[j] != c,
        decreases p - lo,
    {
        p = p - 1;
    }
    proof {
        let s = cs@.subrange(lo as int, hi as int);
        assert forall|j: int| p - lo <= j < s.len() implies #[trigger] s[j] != c by {
            assert(cs@[lo + j] != c);
        }
        lemma_after_last_skip(s, c, p - lo);
        assert(s.skip(p - lo) =~= cs@.subrange(p as int, hi as int));
    }
    p
}

/// Whether `cs[lo..hi]` begins with `pat`.
pub fn starts_with_at(cs: &Vec<char>, lo: usize, hi: usize, pat: &str) -> (b: bool)
    requires
        lo <= hi <= cs.len(),
    ensures
        b == starts_with(cs@.subrange(lo as int, hi as int), pat@),
{
    let n = pat.unicode_len();
    if n > hi - lo {
        return false;
    }
    let mut i: usize = 0;
    while i < n
        invariant
            n == pat@.len(),
            lo + n <= hi <= cs.len(),
            i <= n,
            forall|j: int| 0 <= j < i ==> cs@[lo + j] == pat@[j],
        decreases n - i,
    {
        if cs[lo + i] != pat.get_char(i) {
            proof {
                assert(cs@.subrange(lo as int, hi as int).take(n as int)[i as int] != pat@[i as int]);
            }
            return false;
        }
        i = i + 1;
    }
    proof {
        assert(cs@.subrange(lo as int, hi as int).take(n as int) =~= pat@);
    }
    true
}

/// Whether `cs[lo..hi]` equals `pat` when ASCII letter case is ignored.
pub fn same_ignoring_ascii_case_at(cs: &Vec<char>, lo: usize, hi: usize, pat: &str) -> (b: bool)
    requires
        lo <= hi <= cs.len(),
    ensures
        b == same_ignoring_ascii_case(cs@.subrange(lo as int, hi as int), pat@),
{
    let n = pat.unicode_len();
    if n != hi - lo {
        return false;
    }
    let mut i: usize = 0;
    while i < n
        invariant
            n == pat@.len(),
            lo + n == hi <= cs.len(),
            i <= n,
            forall|j: int| 0 <= j < i ==> ascii_fold(cs@[lo + j]) == ascii_fold(pat@[j]),
        decreases n - i,
    {
        let a = cs[lo + i];
        let b = pat.get_char(i);
        let ua = a as u32;
        let ub = b as u32;
        proof {
            vstd::utf8::char_is_scalar(a);
            vstd::utf8::char_is_scalar(b);
        }
        let fa: u32 = if 'A' <= a && a <= 'Z' { ua + 32 } else { ua };
        let fb: u32 = if 'A' <= b && b <= 'Z' { ub + 32 } else { ub };
        if fa != fb {
            proof {
                assert(cs@.subrange(lo as int, hi as int)[i as int] == a);
            }
            return false;
        }
        i = i + 1;
    }
    proof {
        let s = cs@.subrange(lo as int, hi as int);
        assert forall|j: int| 0 <= j < s.len() implies ascii_fold(#[trigger] s[j]) == ascii_fold(
            pat@[j],
        ) by {
            assert(s[j] == cs@[lo + j]);
        }
    }
    true
}

/// Whether `cs[lo..hi]` is `pat`.
pub fn equals_at(cs: &Vec<char>, lo: usize, hi: usize, pat: &str) -> (b: bool)
    requires
        lo <= hi <= cs.len(),
    ensures
        b == (cs@.subrange(lo as int, hi as int) == pat@),
{
    let n = pat.unicode_len();
    if hi - lo != n {
        proof {
            if cs@.subrange(lo as int, hi as int) == pat@ {
                assert(cs@.subrange(lo as int, hi as int).len() == pat@.len());
            }
        }
        return false;
    }
    let b = starts_with_at(cs, lo, hi, pat);
    proof {
        assert(cs@.subrange(lo as int, hi as int).take(n as int) =~= cs@.subrange(lo as int, hi as int));
    }
    b
}

/// The text of `cs[lo..hi]`, where `cs` holds the characters of `s`.
pub fn text_of(s: &str, cs: &Vec<char>, lo: usize, hi: usize) -> (t: String)
    requires
        cs@ == s@,
        lo <= hi <= cs.len(),
    ensures
        t@ == cs@.subrange(lo as int, hi as int),
{
    s.substring_char(lo, hi).to_owned()
}

} // verus!
