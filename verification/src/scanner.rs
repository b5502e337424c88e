//! Which files of a workflow directory are read, and the order in which
//! their declarations are reported.

use vstd::prelude::*;
use vstd::utf8::encode_utf8;

use crate::model::Declaration;
use crate::text::{after_last, chars_of, equals_at, find_after_last};

verus! {

/// The extension of a file name, as `Path::extension` gives it: the part
/// after the last `.`; none when the name holds no `.`, when its only `.`
/// leads it, and for `..`.
pub open spec fn file_extension(name: Seq<char>) -> Option<Seq<char>> {
    let after = after_last(name, '.');
    if name == ".."@ || after.len() == name.len() || after.len() + 1 == name.len() {
        None
    } else {
        Some(after)
    }
}

/// A workflow file is one whose extension is `yml` or `yaml`.
pub open spec fn is_workflow_file(name: Seq<char>) -> bool {
    file_extension(name) == Some("yml"@) || file_extension(name) == Some("yaml"@)
}

/// Whether a file of this name holds a workflow.
pub fn is_workflow_file_name(name: &str) -> (b: bool)
    ensures
        b == is_workflow_file(name@),
{
    let cs = chars_of(name);
    let n = cs.len();
    assert(cs@.subrange(0, n as int) =~= cs@);
    let p = find_after_last(&cs, 0, n, '.');
    if equals_at(&cs, 0, n, "..") || p <= 1 {
        proof {
            if p == 0 {
                assert(after_last(name@, '.').len() == name@.len());
            }
        }
        return false;
    }
    equals_at(&cs, p, n, "yml") || equals_at(&cs, p, n, "yaml")
}

/// The bytes of `d`'s source: `String`s compare by their UTF-8 bytes.
pub open spec fn source_key(d: Declaration) -> Seq<u8> {
    encode_utf8(d.source@)
}

/// `a` comes no later than `b` in lexicographic order.
pub open spec fn bytes_le(a: Seq<u8>, b: Seq<u8>) -> bool
    decreases a.len(),
{
    if a.len() == 0 {
        true
    } else if b.len() == 0 {
        false
    } else if a[0] != b[0] {
        a[0] < b[0]
    } else {
        bytes_le(a.drop_first(), b.drop_first())
    }
}

/// `ds` is ordered by source.
pub open spec fn sorted_by_source(ds: Seq<Declaration>) -> bool {
    forall|i: int, j: int|
        0 <= i < j < ds.len() ==> bytes_le(source_key(#[trigger] ds[i]), source_key(#[trigger] ds[j]))
}

/// The declarations of `ds` whose source has the bytes `key`, in order.
pub open spec fn with_source(ds: Seq<Declaration>, key: Seq<u8>) -> Seq<Declaration>
    decreases ds.len(),
{
    if ds.len() == 0 {
        Seq::empty()
    } else if source_key(ds.last()) == key {
        with_source(ds.drop_last(), key).push(ds.last())
    } else {
        with_source(ds.drop_last(), key)
    }
}

/// Lexicographic order holds of every sequence with itself.
pub proof fn lemma_bytes_le_reflexive(a: Seq<u8>)
    ensures
        bytes_le(a, a),
    decreases a.len(),
{
    if a.len() > 0 {
        lemma_bytes_le_reflexive(a.drop_first());
    }
}

/// Lexicographic order is total.
pub proof fn lemma_bytes_le_total(a: Seq<u8>, b: Seq<u8>)
    ensures
        bytes_le(a, b) || bytes_le(b, a),
    decreases a.len(),
{
    if a.len() > 0 && b.len() > 0 && a[0] == b[0] {
        lemma_bytes_le_total(a.drop_first(), b.drop_first());
    }
}

/// Lexicographic order is transitive.
pub proof fn lemma_bytes_le_transitive(a: Seq<u8>, b: Seq<u8>, c: Seq<u8>)
    requires
        bytes_le(a, b),
        bytes_le(b, c),
    ensures
        bytes_le(a, c),
    decreases a.len(),
{
    if a.len() > 0 && b.len() > 0 && c.len() > 0 && a[0] == b[0] && b[0] == c[0] {
        lemma_bytes_le_transitive(a.drop_first(), b.drop_first(), c.drop_first());
    }
}

proof fn lemma_with_source_concat(a: Seq<Declaration>, b: Seq<Declaration>, key: Seq<u8>)
    ensures
        with_source(a + b, key) == with_source(a, key) + with_source(b, key),
    decreases b.len(),
{
    if b.len() == 0 {
        assert(a + b =~= a);
        assert(with_source(a, key) + with_source(b, key) =~= with_source(a, key));
    } else {
        lemma_with_source_concat(a, b.drop_last(), key);
        assert((a + b).drop_last() =~= a + b.drop_last());
        assert((a + b).last() == b.last());
        if source_key(b.last()) == key {
            assert(with_source(a, key) + with_source(b, key) =~= (with_source(a, key)
                + with_source(b.drop_last(), key)).push(b.last()));
        }
    }
}

proof fn lemma_with_source_none(s: Seq<Declaration>, key: Seq<u8>)
    requires
        forall|i: int| 0 <= i < s.len() ==> source_key(#[trigger] s[i]) != key,
    ensures
        with_source(s, key) == Seq::<Declaration>::empty(),
    decreases s.len(),
{
    if s.len() > 0 {
        assert forall|i: int| 0 <= i < s.len() - 1 implies source_key(
            #[trigger] s.drop_last()[i],
        ) != key by {
            assert(s.drop_last()[i] == s[i]);
        }
        assert(source_key(s[s.len() - 1]) != key);
        lemma_with_source_none(s.drop_last(), key);
    }
}

/// Whether `a` comes no later than `b` in lexicographic order.
fn bytes_le_exec(a: &[u8], b: &[u8]) -> (r: bool)
    ensures
        r == bytes_le(a@, b@),
{
    let mut i: usize = 0;
    assert(a@.skip(0) =~= a@ && b@.skip(0) =~= b@);
    loop
        invariant
            i <= a@.len(),
            i <= b@.len(),
            bytes_le(a@, b@) == bytes_le(a@.skip(i as int), b@.skip(i as int)),
        decreases a@.len() - i,
    {
        if i == a.len() {
            return true;
        }
        if i == b.len() {
            return false;
        }
        assert(a@.skip(i as int)[0] == a@[i as int] && b@.skip(i as int)[0] == b@[i as int]);
        if a[i] != b[i] {
            return a[i] < b[i];
        }
        assert(a@.skip(i as int).drop_first() =~= a@.skip(i + 1));
        assert(b@.skip(i as int).drop_first() =~= b@.skip(i + 1));
        i = i + 1;
    }
}

/// Whether `a`'s source comes no later than `b`'s.
fn source_le(a: &Declaration, b: &Declaration) -> (r: bool)
    ensures
        r == bytes_le(source_key(*a), source_key(*b)),
{
    bytes_le_exec(a.source.as_str().as_bytes(), b.source.as_str().as_bytes())
}

/// The declarations ordered by source; those of one source keep their order
/// (a stable sort, as `sort_by` on the sources is).
pub fn sort_by_source(declarations: Vec<Declaration>) -> (sorted: Vec<Declaration>)
    ensures
        sorted@.len() == declarations@.len(),
        sorted_by_source(sorted@),
        forall|key: Seq<u8>| #[trigger]
            with_source(sorted@, key) == with_source(declarations@, key),
{
    let ghost input = declarations@;
    let total = declarations.len();
    let mut rest = declarations;
    let mut sorted: Vec<Declaration> = Vec::new();
    let mut n: usize = 0;
    while rest.len() > 0
        invariant
            n + rest@.len() == input.len(),
            total == input.len(),
            rest@ == input.skip(n as int),
            sorted@.len() == n,
            sorted_by_source(sorted@),
            forall|key: Seq<u8>| #[trigger]
                with_source(sorted@, key) == with_source(input.take(n as int), key),
        decreases rest@.len(),
    {
        let x = rest.remove(0);
        assert(x == input[n as int]);
        let mut p: usize = 0;
        while p < sorted.len() && source_le(&sorted[p], &x)
            invariant
                p <= sorted@.len(),
                forall|i: int| 0 <= i < p ==> bytes_le(source_key(#[trigger] sorted@[i]), source_key(x)),
            decreases sorted.len() - p,
        {
            p = p + 1;
        }
        let ghost before = sorted@;
        sorted.insert(p, x);
        proof {
            if p < before.len() {
                assert(!bytes_le(source_key(before[p as int]), source_key(x)));
                lemma_bytes_le_total(source_key(before[p as int]), source_key(x));
            }
            assert forall|i: int, j: int| 0 <= i < j < sorted@.len() implies bytes_le(
                source_key(#[trigger] sorted@[i]),
                source_key(#[trigger] sorted@[j]),
            ) by {
                if j < p {
                    assert(sorted@[i] == before[i] && sorted@[j] == before[j]);
                } else if j == p {
                    assert(sorted@[i] == before[i]);
                } else if i == p {
                    assert(sorted@[j] == before[j - 1]);
                    if j - 1 > p {
                        lemma_bytes_le_transitive(
                            source_key(x),
                            source_key(before[p as int]),
                            source_key(before[j - 1]),
                        );
                    }
                } else if i < p {
                    assert(sorted@[i] == before[i] && sorted@[j] == before[j - 1]);
                    lemma_bytes_le_transitive(
                        source_key(before[i]),
                        source_key(x),
                        source_key(before[p as int]),
                    );
                    if j - 1 > p {
                        lemma_bytes_le_transitive(
                            source_key(before[i]),
                            source_key(before[p as int]),
                            source_key(before[j - 1]),
                        );
                    }
                } else {
                    assert(sorted@[i] == before[i - 1] && sorted@[j] == before[j - 1]);
                }
            }
            assert(input.take(n + 1) =~= input.take(n as int).push(x));
            assert(input.skip(n + 1) =~= input.skip(n as int).remove(0));
            assert forall|key: Seq<u8>| #[trigger]
                with_source(sorted@, key) == with_source(input.take(n + 1), key) by {
                let head = before.take(p as int);
                let tail = before.skip(p as int);
                assert(sorted@ =~= head + (seq![x] + tail));
                assert(before =~= head + tail);
                lemma_with_source_concat(head, seq![x] + tail, key);
                lemma_with_source_concat(seq![x], tail, key);
                lemma_with_source_concat(head, tail, key);
                assert(seq![x].drop_last() =~= Seq::<Declaration>::empty());
                assert(seq![x].last() == x);
                assert(with_source(Seq::<Declaration>::empty(), key) == Seq::<Declaration>::empty());
                assert(input.take(n + 1).drop_last() =~= input.take(n as int));
                assert(input.take(n + 1).last() == x);
                if source_key(x) == key {
                    assert forall|i: int| 0 <= i < tail.len() implies source_key(
                        #[trigger] tail[i],
                    ) != key by {
                        assert(tail[i] == before[p + i]);
                        lemma_bytes_le_total(source_key(before[p as int]), source_key(x));
                        if i > 0 {
                            lemma_bytes_le_transitive(
                                source_key(x),
                                source_key(before[p as int]),
                                source_key(before[p + i]),
                            );
                        }
                        if source_key(tail[i]) == key {
                            lemma_bytes_le_reflexive(key);
                            if i > 0 {
                                lemma_bytes_le_transitive(
                                    source_key(before[p as int]),
                                    source_key(before[p + i]),
                                    source_key(x),
                                );
                            }
                        }
                    }
                    lemma_with_source_none(tail, key);
                    assert(with_source(seq![x], key) =~= seq![x]);
                    assert(with_source(sorted@, key) =~= with_source(head, key).push(x));
                    assert(with_source(input.take(n + 1), key) == with_source(
                        input.take(n as int),
                        key,
                    ).push(x));
                } else {
                    assert(with_source(seq![x], key) =~= Seq::<Declaration>::empty());
                    assert(with_source(sorted@, key) =~= with_source(head, key) + with_source(
                        tail,
                        key,
                    ));
                }
            }
        }
        n = n + 1;
    }
    assert(input.take(n as int) =~= input);
    sorted
}

} // verus!
