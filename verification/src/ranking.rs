//! Ordering of result rows: by two integer keys, then by symbol id in the
//! order of `str` (lexicographic by character), and the integer stand-in
//! for a score held as the bits of an IEEE double.
use crate::text::to_chars;
use vstd::prelude::*;

verus! {

/// `a[i..]` sorts before `b[i..]`, character by character, a proper
/// prefix first.
pub open spec fn seq_lt_from(a: Seq<char>, b: Seq<char>, i: nat) -> bool
    decreases a.len() - i,
{
    if i >= a.len() {
        i < b.len()
    } else if i >= b.len() {
        false
    } else if a[i as int] != b[i as int] {
        a[i as int] < b[i as int]
    } else {
        seq_lt_from(a, b, i + 1)
    }
}

/// `a` sorts before `b` in the order of `str`.
pub open spec fn seq_lt(a: Seq<char>, b: Seq<char>) -> bool {
    seq_lt_from(a, b, 0)
}

pub proof fn lemma_seq_lt_asymmetric(a: Seq<char>, b: Seq<char>, i: nat)
    requires
        seq_lt_from(a, b, i),
    ensures
        !seq_lt_from(b, a, i),
    decreases a.len() - i,
{
    if i < a.len() && i < b.len() && a[i as int] == b[i as int] {
        lemma_seq_lt_asymmetric(a, b, i + 1);
    }
}

pub proof fn lemma_seq_lt_transitive(a: Seq<char>, b: Seq<char>, c: Seq<char>, i: nat)
    requires
        seq_lt_from(a, b, i),
        seq_lt_from(b, c, i),
    ensures
        seq_lt_from(a, c, i),
    decreases a.len() - i,
{
    if i < a.len() && i < b.len() && i < c.len() && a[i as int] == b[i as int] && b[i as int] == c[i as int] {
        lemma_seq_lt_transitive(a, b, c, i + 1);
    }
}

/// Two different texts are ordered one way or the other.
pub proof fn lemma_seq_lt_total(a: Seq<char>, b: Seq<char>, i: nat)
    requires
        i <= a.len(),
        i <= b.len(),
        a.take(i as int) == b.take(i as int),
        a != b,
    ensures
        seq_lt_from(a, b, i) || seq_lt_from(b, a, i),
    decreases a.len() - i,
{
    if i < a.len() && i < b.len() && a[i as int] == b[i as int] {
        assert(a.take(i + 1int) =~= a.take(i as int).push(a[i as int]));
        assert(b.take(i + 1int) =~= b.take(i as int).push(b[i as int]));
        lemma_seq_lt_total(a, b, i + 1);
    } else if i >= a.len() && i >= b.len() {
        assert(a =~= a.take(i as int));
        assert(b =~= b.take(i as int));
    }
}

/// Two different texts are ordered one way or the other.
pub proof fn lemma_seq_lt_total0(a: Seq<char>, b: Seq<char>)
    requires
        a != b,
    ensures
        seq_lt(a, b) || seq_lt(b, a),
{
    assert(a.take(0) =~= b.take(0));
    lemma_seq_lt_total(a, b, 0);
}

/// Whether `a` sorts before `b` in the order of `str`.
pub fn str_lt(a: &str, b: &str) -> (r: bool)
    ensures
        r == seq_lt(a@, b@),
{
    let ca = to_chars(a);
    let cb = to_chars(b);
    let mut i: usize = 0;
    while i < ca.len() && i < cb.len()
        invariant
            ca@ == a@,
            cb@ == b@,
            i <= ca@.len(),
            i <= cb@.len(),
            seq_lt(a@, b@) == seq_lt_from(a@, b@, i as nat),
        decreases ca.len() - i,
    {
        if ca[i] != cb[i] {
            return ca[i] < cb[i];
        }
        i = i + 1;
    }
    i < cb.len() && i >= ca.len()
}

/// A sort key: two integers, then an id.
pub open spec fn key_le(k1: (u64, u64), id1: Seq<char>, k2: (u64, u64), id2: Seq<char>) -> bool {
    ||| k1.0 < k2.0
    ||| k1.0 == k2.0 && k1.1 < k2.1
    ||| k1.0 == k2.0 && k1.1 == k2.1 && !seq_lt(id2, id1)
}

pub proof fn lemma_key_le_total(k1: (u64, u64), id1: Seq<char>, k2: (u64, u64), id2: Seq<char>)
    ensures
        key_le(k1, id1, k2, id2) || key_le(k2, id2, k1, id1),
{
    if id1 != id2 {
        lemma_seq_lt_total0(id1, id2);
    }
    if seq_lt(id1, id2) {
        lemma_seq_lt_asymmetric(id1, id2, 0);
    }
}

pub proof fn lemma_key_le_transitive(
    k1: (u64, u64),
    id1: Seq<char>,
    k2: (u64, u64),
    id2: Seq<char>,
    k3: (u64, u64),
    id3: Seq<char>,
)
    requires
        key_le(k1, id1, k2, id2),
        key_le(k2, id2, k3, id3),
    ensures
        key_le(k1, id1, k3, id3),
{
    if k1 == k2 && k2 == k3 && seq_lt(id3, id1) {
        // id1 <= id2 <= id3 < id1 is impossible
        if id1 == id2 {
            lemma_seq_lt_asymmetric(id3, id2, 0);
        } else if id2 == id3 {
            lemma_seq_lt_asymmetric(id3, id1, 0);
            lemma_seq_lt_total0(id1, id2);
        } else {
            lemma_seq_lt_total0(id1, id2);
            lemma_seq_lt_total0(id2, id3);
            lemma_seq_lt_transitive(id2, id3, id1, 0);
            lemma_seq_lt_asymmetric(id2, id1, 0);
        }
    }
}

fn key_le_exec(k1: (u64, u64), id1: &str, k2: (u64, u64), id2: &str) -> (r: bool)
    ensures
        r == key_le(k1, id1@, k2, id2@),
{
    if k1.0 != k2.0 {
        k1.0 < k2.0
    } else if k1.1 != k2.1 {
        k1.1 < k2.1
    } else {
        !str_lt(id2, id1)
    }
}

/// `p` lists every position of `keys` once, in the order of their keys;
/// positions whose keys tie keep their order (the sort is stable).
pub open spec fn is_sort_perm(p: Seq<usize>, keys: Seq<(u64, u64)>, ids: Seq<Seq<char>>) -> bool {
    &&& p.len() == keys.len()
    &&& forall|i: int| 0 <= i < p.len() ==> p[i] < keys.len()
    &&& forall|i: int, j: int| 0 <= i < j < p.len() ==> p[i] != p[j]
    &&& forall|i: int, j: int|
        0 <= i < j < p.len() ==> key_le(keys[p[i] as int], ids[p[i] as int], keys[p[j] as int], ids[p[j] as int])
    &&& forall|i: int, j: int|
        0 <= i < j < p.len() && key_le(keys[p[j] as int], ids[p[j] as int], keys[p[i] as int], ids[p[i] as int])
            ==> p[i] < p[j]
}

/// The positions of `keys` in the order of their keys (two integers, then
/// the id); positions whose keys are equal keep their order.
pub fn sort_order(keys: &[(u64, u64)], ids: &[String]) -> (p: Vec<usize>)
    requires
        keys@.len() == ids@.len(),
    ensures
        is_sort_perm(p@, keys@, ids@.map_values(|s: String| s@)),
{
    let ghost iv = ids@.map_values(|s: String| s@);
    let mut p: Vec<usize> = Vec::new();
    let mut i: usize = 0;
    while i < keys.len()
        invariant
            i <= keys@.len(),
            keys@.len() == ids@.len(),
            iv == ids@.map_values(|s: String| s@),
            p@.len() == i,
            forall|x: int| 0 <= x < p@.len() ==> p@[x] < i,
            forall|x: int, y: int| 0 <= x < y < p@.len() ==> p@[x] != p@[y],
            forall|x: int, y: int|
                0 <= x < y < p@.len() ==> key_le(keys@[p@[x] as int], iv[p@[x] as int], keys@[p@[y] as int], iv[p@[y] as int]),
            forall|x: int, y: int|
                0 <= x < y < p@.len() && key_le(keys@[p@[y] as int], iv[p@[y] as int], keys@[p@[x] as int], iv[p@[x] as int])
                    ==> p@[x] < p@[y],
        decreases keys.len() - i,
    {
        // the first position whose key is strictly greater than key `i`
        let mut pos: usize = 0;
        while pos < p.len() && key_le_exec(keys[p[pos]], ids[p[pos]].as_str(), keys[i], ids[i].as_str())
            invariant
                i < keys@.len(),
                keys@.len() == ids@.len(),
                iv == ids@.map_values(|s: String| s@),
                p@.len() == i,
                pos <= p@.len(),
                forall|x: int| 0 <= x < p@.len() ==> p@[x] < i,
                forall|x: int| 0 <= x < pos ==> key_le(keys@[p@[x] as int], iv[p@[x] as int], keys@[i as int], iv[i as int]),
            decreases p.len() - pos,
        {
            pos = pos + 1;
        }
        let ghost p0 = p@;
        proof {
            if pos < p@.len() {
                assert(!key_le(keys@[p@[pos as int] as int], iv[p@[pos as int] as int], keys@[i as int], iv[i as int]));
                lemma_key_le_total(keys@[p@[pos as int] as int], iv[p@[pos as int] as int], keys@[i as int], iv[i as int]);
            }
        }
        p.insert(pos, i);
        proof {
            assert forall|x: int, y: int| 0 <= x < y < p@.len() implies key_le(
                keys@[p@[x] as int],
                iv[p@[x] as int],
                keys@[p@[y] as int],
                iv[p@[y] as int],
            ) by {
                if y < pos {
                    assert(p@[x] == p0[x] && p@[y] == p0[y]);
                } else if y == pos {
                    assert(p@[x] == p0[x]);
                } else if x == pos {
                    assert(p@[y] == p0[y - 1]);
                    if y - 1 > pos {
                        lemma_key_le_transitive(
                            keys@[i as int],
                            iv[i as int],
                            keys@[p0[pos as int] as int],
                            iv[p0[pos as int] as int],
                            keys@[p0[y - 1] as int],
                            iv[p0[y - 1] as int],
                        );
                    }
                } else if x < pos {
                    assert(p@[x] == p0[x] && p@[y] == p0[y - 1]);
                } else {
                    assert(p@[x] == p0[x - 1] && p@[y] == p0[y - 1]);
                }
            }
            assert forall|x: int, y: int|
                0 <= x < y < p@.len() && key_le(keys@[p@[y] as int], iv[p@[y] as int], keys@[p@[x] as int], iv[p@[x] as int])
                implies p@[x] < p@[y] by {
                if y < pos {
                    assert(p@[x] == p0[x] && p@[y] == p0[y]);
                } else if y == pos {
                    assert(p@[x] == p0[x]);
                } else if x == pos {
                    assert(p@[y] == p0[y - 1]);
                    lemma_key_le_transitive(
                        keys@[p0[pos as int] as int],
                        iv[p0[pos as int] as int],
                        keys@[p0[y - 1] as int],
                        iv[p0[y - 1] as int],
                        keys@[i as int],
                        iv[i as int],
                    );
                } else if x < pos {
                    assert(p@[x] == p0[x] && p@[y] == p0[y - 1]);
                } else {
                    assert(p@[x] == p0[x - 1] && p@[y] == p0[y - 1]);
                }
            }
            assert forall|x: int, y: int| 0 <= x < y < p@.len() implies p@[x] != p@[y] by {
                if y < pos {
                    assert(p@[x] == p0[x] && p@[y] == p0[y]);
                } else if y == pos {
                    assert(p@[x] == p0[x]);
                } else if x == pos {
                    assert(p@[y] == p0[y - 1]);
                } else if x < pos {
                    assert(p@[x] == p0[x] && p@[y] == p0[y - 1]);
                } else {
                    assert(p@[x] == p0[x - 1] && p@[y] == p0[y - 1]);
                }
            }
            assert forall|x: int| 0 <= x < p@.len() implies p@[x] < i + 1 by {
                if x < pos {
                    assert(p@[x] == p0[x]);
                } else if x > pos {
                    assert(p@[x] == p0[x - 1]);
                }
            }
        }
        i = i + 1;
    }
    p
}

/// The order key of a score given by the bits of an IEEE double: for
/// scores that are not NaN, a higher score has a higher key and equal
/// scores the same key (-0.0 has the key of 0.0).
pub open spec fn score_key(bits: u64) -> u64 {
    if bits == 0x8000_0000_0000_0000u64 {
        0x8000_0000_0000_0000u64
    } else if bits < 0x8000_0000_0000_0000u64 {
        (bits + 0x8000_0000_0000_0000u64) as u64
    } else {
        (0xffff_ffff_ffff_ffffu64 - bits) as u64
    }
}

/// The order key of a score given by its bits.
pub fn score_key_exec(bits: u64) -> (r: u64)
    ensures
        r == score_key(bits),
{
    if bits == 0x8000_0000_0000_0000u64 {
        0x8000_0000_0000_0000u64
    } else if bits < 0x8000_0000_0000_0000u64 {
        bits + 0x8000_0000_0000_0000u64
    } else {
        0xffff_ffff_ffff_ffffu64 - bits
    }
}

} // verus!
