//! Character-level text operations with their specifications.
//!
//! Text is handled as sequences of `char`. Each executable function states
//! its result over the spec functions defined here, which say what the
//! corresponding operation on Rust strings means.
use vstd::prelude::*;
use vstd::std_specs::iter::IteratorSpec;

verus! {

// ───────────────────────── conversions ─────────────────────────

/// The characters of `s`, in order.
pub fn to_chars(s: &str) -> (v: Vec<char>)
    ensures
        v@ == s@,
{
    let mut v: Vec<char> = Vec::new();
    for c in it: s.chars()
        invariant
            v@ == it.seq().take(it.index()),
            it.seq() == s@,
    {
        v.push(c);
    }
    v
}

/// Collects characters into a `String` (std's `FromIterator<char>` for
/// `String`); the string holds exactly the given characters.
#[verifier::external_body]
pub(crate) fn string_from_chars(v: &[char]) -> (s: String)
    ensures
        s@ == v@,
{
    v.iter().collect()
}

/// A `String` holding the characters of `s`.
pub fn owned(s: &str) -> (r: String)
    ensures
        r@ == s@,
{
    s.to_owned()
}

/// The views of a sequence of character vectors.
pub open spec fn views(v: Seq<Vec<char>>) -> Seq<Seq<char>> {
    v.map_values(|l: Vec<char>| l@)
}

/// The views of a sequence of strings.
pub open spec fn string_views(v: Seq<String>) -> Seq<Seq<char>> {
    v.map_values(|l: String| l@)
}

/// Copies a character slice into a new vector.
pub fn copy_chars(s: &[char]) -> (v: Vec<char>)
    ensures
        v@ == s@,
{
    let mut v: Vec<char> = Vec::new();
    let mut i: usize = 0;
    while i < s.len()
        invariant
            i <= s.len(),
            v@ == s@.take(i as int),
        decreases s.len() - i,
    {
        v.push(s[i]);
        i = i + 1;
    }
    proof {
        assert(s@.take(s@.len() as int) =~= s@);
    }
    v
}

/// `a` followed by `b`.
pub fn concat_chars(a: &[char], b: &[char]) -> (v: Vec<char>)
    ensures
        v@ == a@ + b@,
{
    let mut v = copy_chars(a);
    let mut i: usize = 0;
    while i < b.len()
        invariant
            i <= b.len(),
            v@ == a@ + b@.take(i as int),
        decreases b.len() - i,
    {
        v.push(b[i]);
        proof {
            assert(b@.take(i + 1) =~= b@.take(i as int).push(b@[i as int]));
        }
        i = i + 1;
    }
    proof {
        assert(b@.take(b@.len() as int) =~= b@);
    }
    v
}

/// Appends all of `b` to `v`.
pub fn push_all(v: &mut Vec<char>, b: &[char])
    ensures
        final(v)@ == old(v)@ + b@,
{
    let mut i: usize = 0;
    while i < b.len()
        invariant
            i <= b.len(),
            v@ == old(v)@ + b@.take(i as int),
        decreases b.len() - i,
    {
        v.push(b[i]);
        proof {
            assert(b@.take(i + 1) =~= b@.take(i as int).push(b@[i as int]));
        }
        i = i + 1;
    }
    proof {
        assert(b@.take(b@.len() as int) =~= b@);
    }
}

/// Appends the characters of `b` to `v`.
pub fn push_str(v: &mut Vec<char>, b: &str)
    ensures
        final(v)@ == old(v)@ + b@,
{
    let cs = to_chars(b);
    push_all(v, cs.as_slice());
}

/// Whether two character slices hold the same characters.
pub fn chars_eq(a: &[char], b: &[char]) -> (r: bool)
    ensures
        r == (a@ == b@),
{
    if a.len() != b.len() {
        return false;
    }
    let mut i: usize = 0;
    while i < a.len()
        invariant
            i <= a.len(),
            a.len() == b.len(),
            forall|j: int| 0 <= j < i ==> a@[j] == b@[j],
        decreases a.len() - i,
    {
        if a[i] != b[i] {
            return false;
        }
        i = i + 1;
    }
    proof {
        assert(a@ =~= b@);
    }
    true
}

/// Whether `a` holds exactly the characters of `b`.
pub fn str_eq(a: &str, b: &str) -> (r: bool)
    ensures
        r == (a@ == b@),
{
    let x = to_chars(a);
    let y = to_chars(b);
    chars_eq(x.as_slice(), y.as_slice())
}

// ───────────────────────── lines and joining ─────────────────────────

/// A line without the carriage return that ends it, if any.
pub open spec fn strip_cr(l: Seq<char>) -> Seq<char> {
    if l.len() > 0 && l.last() == '\r' {
        l.drop_last()
    } else {
        l
    }
}

/// The lines of `s` given that `cur` is the part of the current line read
/// so far: lines end at `'\n'`, a `'\r'` right before it is dropped, and a
/// final line ending is optional.
pub open spec fn lines_from(s: Seq<char>, cur: Seq<char>) -> Seq<Seq<char>>
    decreases s.len(),
{
    if s.len() == 0 {
        if cur.len() == 0 {
            seq![]
        } else {
            seq![cur]
        }
    } else if s[0] == '\n' {
        seq![strip_cr(cur)] + lines_from(s.drop_first(), seq![])
    } else {
        lines_from(s.drop_first(), cur.push(s[0]))
    }
}

/// The lines of `s`, as std's `str::lines` yields them.
pub open spec fn lines_of(s: Seq<char>) -> Seq<Seq<char>> {
    lines_from(s, seq![])
}

/// Splits `s` into its lines (std's `str::lines`).
pub fn lines(s: &[char]) -> (out: Vec<Vec<char>>)
    ensures
        views(out@) == lines_of(s@),
{
    let mut out: Vec<Vec<char>> = Vec::new();
    let mut cur: Vec<char> = Vec::new();
    let mut i: usize = 0;
    proof {
        assert(s@.skip(0) =~= s@);
        assert(views(out@) =~= seq![]);
    }
    while i < s.len()
        invariant
            i <= s.len(),
            views(out@) + lines_from(s@.skip(i as int), cur@) == lines_of(s@),
        decreases s.len() - i,
    {
        let ghost rest = s@.skip(i as int);
        proof {
            assert(rest.drop_first() =~= s@.skip(i + 1));
            assert(rest[0] == s@[i as int]);
        }
        if s[i] == '\n' {
            let mut line = cur;
            if line.len() > 0 && line[line.len() - 1] == '\r' {
                line.pop();
            }
            proof {
                assert(line@ == strip_cr(cur@)) by {
                    if cur@.len() > 0 && cur@.last() == '\r' {
                        assert(cur@.drop_last() =~= line@);
                    }
                }
                assert(views(out@.push(line)) =~= views(out@).push(line@));
                assert(views(out@).push(line@) + lines_from(s@.skip(i + 1), seq![])
                    =~= views(out@) + (seq![line@] + lines_from(s@.skip(i + 1), seq![])));
            }
            out.push(line);
            cur = Vec::new();
        } else {
            cur.push(s[i]);
        }
        i = i + 1;
    }
    proof {
        assert(s@.skip(i as int) =~= seq![]);
    }
    if cur.len() > 0 {
        proof {
            assert(views(out@.push(cur)) =~= views(out@) + seq![cur@]);
        }
        out.push(cur);
    } else {
        proof {
            assert(views(out@) + seq![] =~= views(out@));
        }
    }
    out
}

/// The parts joined with `sep` between consecutive parts.
pub open spec fn join(parts: Seq<Seq<char>>, sep: Seq<char>) -> Seq<char>
    decreases parts.len(),
{
    if parts.len() == 0 {
        seq![]
    } else if parts.len() == 1 {
        parts[0]
    } else {
        join(parts.drop_last(), sep) + sep + parts.last()
    }
}

/// Joins `parts[lo..hi]` with `sep` (std's `[..].join`).
pub fn join_range(parts: &Vec<Vec<char>>, lo: usize, hi: usize, sep: &[char]) -> (out: Vec<char>)
    requires
        lo <= hi <= parts.len(),
    ensures
        out@ == join(views(parts@).subrange(lo as int, hi as int), sep@),
{
    let mut out: Vec<char> = Vec::new();
    let mut i: usize = lo;
    proof {
        assert(views(parts@).subrange(lo as int, lo as int) =~= seq![]);
    }
    while i < hi
        invariant
            lo <= i <= hi <= parts.len(),
            out@ == join(views(parts@).subrange(lo as int, i as int), sep@),
        decreases hi - i,
    {
        let ghost prev = views(parts@).subrange(lo as int, i as int);
        let ghost next = views(parts@).subrange(lo as int, i + 1);
        proof {
            assert(next.drop_last() =~= prev);
            assert(next.last() == parts@[i as int]@);
        }
        if i > lo {
            push_all(&mut out, sep);
        } else {
            proof {
                assert(next.len() == 1);
            }
        }
        push_all(&mut out, parts[i].as_slice());
        i = i + 1;
    }
    out
}

// ───────────────────────── whitespace and trimming ─────────────────────────

/// Unicode `White_Space`, the set that std's `char::is_whitespace` tests.
pub open spec fn is_ws(c: char) -> bool {
    ||| ('\u{9}' <= c && c <= '\u{d}')
    ||| c == ' '
    ||| c == '\u{85}'
    ||| c == '\u{a0}'
    ||| c == '\u{1680}'
    ||| ('\u{2000}' <= c && c <= '\u{200a}')
    ||| c == '\u{2028}'
    ||| c == '\u{2029}'
    ||| c == '\u{202f}'
    ||| c == '\u{205f}'
    ||| c == '\u{3000}'
}

/// Whether `c` is Unicode whitespace.
pub fn is_whitespace(c: char) -> (r: bool)
    ensures
        r == is_ws(c),
{
    ('\u{9}' <= c && c <= '\u{d}') || c == ' ' || c == '\u{85}' || c == '\u{a0}' || c == '\u{1680}'
        || ('\u{2000}' <= c && c <= '\u{200a}') || c == '\u{2028}' || c == '\u{2029}' || c
        == '\u{202f}' || c == '\u{205f}' || c == '\u{3000}'
}

/// `s` without its leading whitespace.
pub open spec fn trim_start(s: Seq<char>) -> Seq<char>
    decreases s.len(),
{
    if s.len() > 0 && is_ws(s[0]) {
        trim_start(s.drop_first())
    } else {
        s
    }
}

/// `s` without its trailing whitespace.
pub open spec fn trim_end(s: Seq<char>) -> Seq<char>
    decreases s.len(),
{
    if s.len() > 0 && is_ws(s.last()) {
        trim_end(s.drop_last())
    } else {
        s
    }
}

/// `s` without leading and trailing whitespace (std's `str::trim`).
pub open spec fn trim(s: Seq<char>) -> Seq<char> {
    trim_end(trim_start(s))
}

proof fn lemma_trim_start_skip(s: Seq<char>, i: int)
    requires
        0 <= i <= s.len(),
        forall|j: int| 0 <= j < i ==> is_ws(#[trigger] s[j]),
    ensures
        trim_start(s) == trim_start(s.skip(i)),
    decreases i,
{
    if i > 0 {
        assert(s.drop_first().skip(i - 1) =~= s.skip(i));
        lemma_trim_start_skip(s.drop_first(), i - 1);
    } else {
        assert(s.skip(0) =~= s);
    }
}

proof fn lemma_trim_end_take(s: Seq<char>, k: int)
    requires
        0 <= k <= s.len(),
        forall|j: int| k <= j < s.len() ==> is_ws(#[trigger] s[j]),
    ensures
        trim_end(s) == trim_end(s.take(k)),
    decreases s.len() - k,
{
    if k < s.len() {
        assert(s.drop_last().take(k) =~= s.take(k));
        lemma_trim_end_take(s.drop_last(), k);
    } else {
        assert(s.take(k) =~= s);
    }
}

/// Removes leading and trailing whitespace.
pub fn trim_chars(s: &[char]) -> (r: Vec<char>)
    ensures
        r@ == trim(s@),
{
    let mut lo: usize = 0;
    while lo < s.len() && is_whitespace(s[lo])
        invariant
            lo <= s.len(),
            forall|j: int| 0 <= j < lo ==> is_ws(#[trigger] s@[j]),
        decreases s.len() - lo,
    {
        lo = lo + 1;
    }
    let mut hi: usize = s.len();
    while hi > lo && is_whitespace(s[hi - 1])
        invariant
            lo <= hi <= s.len(),
            forall|j: int| hi <= j < s.len() ==> is_ws(#[trigger] s@[j]),
        decreases hi,
    {
        hi = hi - 1;
    }
    let mut r: Vec<char> = Vec::new();
    let mut i: usize = lo;
    while i < hi
        invariant
            lo <= i <= hi,
            hi <= s.len(),
            r@ == s@.subrange(lo as int, i as int),
        decreases hi - i,
    {
        r.push(s[i]);
        proof {
            assert(s@.subrange(lo as int, i + 1) =~= s@.subrange(lo as int, i as int).push(
                s@[i as int],
            ));
        }
        i = i + 1;
    }
    proof {
        lemma_trim_start_skip(s@, lo as int);
        let t = s@.skip(lo as int);
        assert(lo == s.len() || !is_ws(t[0]));
        assert(trim_start(t) == t);
        assert forall|j: int| hi - lo <= j < t.len() implies is_ws(#[trigger] t[j]) by {
            assert(t[j] == s@[lo + j]);
        }
        lemma_trim_end_take(t, hi - lo);
        let u = t.take(hi - lo);
        assert(u =~= s@.subrange(lo as int, hi as int));
        if u.len() > 0 {
            assert(u.last() == s@[hi - 1]);
        }
        assert(trim_end(u) == u);
    }
    r
}

/// Removes leading and trailing whitespace from `s`.
pub fn trim_str(s: &str) -> (r: Vec<char>)
    ensures
        r@ == trim(s@),
{
    let cs = to_chars(s);
    trim_chars(cs.as_slice())
}

// ───────────────────────── searching ─────────────────────────

/// `needle` occurs in `hay` at position `i`.
pub open spec fn occurs_at(hay: Seq<char>, needle: Seq<char>, i: int) -> bool {
    0 <= i && i + needle.len() <= hay.len() && hay.subrange(i, i + needle.len()) == needle
}

/// `needle` occurs somewhere in `hay` (std's `str::contains`).
pub open spec fn contains(hay: Seq<char>, needle: Seq<char>) -> bool {
    exists|i: int| occurs_at(hay, needle, i)
}

/// `hay` starts with `p`.
pub open spec fn starts_with(hay: Seq<char>, p: Seq<char>) -> bool {
    p.len() <= hay.len() && hay.take(p.len() as int) == p
}

/// `hay` ends with `p`.
pub open spec fn ends_with(hay: Seq<char>, p: Seq<char>) -> bool {
    p.len() <= hay.len() && hay.skip(hay.len() - p.len()) == p
}

/// Whether `needle` occurs in `hay` at `i`.
pub fn matches_at(hay: &[char], needle: &[char], i: usize) -> (r: bool)
    ensures
        r == occurs_at(hay@, needle@, i as int),
{
    if i > hay.len() || needle.len() > hay.len() - i {
        return false;
    }
    let mut k: usize = 0;
    while k < needle.len()
        invariant
            i + needle.len() <= hay.len(),
            k <= needle.len(),
            forall|j: int| 0 <= j < k ==> hay@[i + j] == needle@[j],
        decreases needle.len() - k,
    {
        if hay[i + k] != needle[k] {
            proof {
                assert(hay@.subrange(i as int, i + needle.len())[k as int] != needle@[k as int]);
            }
            return false;
        }
        k = k + 1;
    }
    proof {
        assert(hay@.subrange(i as int, i + needle.len()) =~= needle@);
    }
    true
}

/// The first position at which `needle` occurs in `hay`, if any
/// (std's `str::find`, counted in characters).
pub open spec fn find(hay: Seq<char>, needle: Seq<char>) -> Option<int> {
    if contains(hay, needle) {
        Some(choose|i: int| occurs_at(hay, needle, i) && forall|j: int| 0 <= j < i ==> !occurs_at(hay, needle, j))
    } else {
        None
    }
}

/// The first occurrence of `needle` in `hay`.
pub fn find_chars(hay: &[char], needle: &[char]) -> (r: Option<usize>)
    ensures
        r matches Some(i) ==> find(hay@, needle@) == Some(i as int),
        r is None ==> find(hay@, needle@) is None,
{
    let mut i: usize = 0;
    while i < hay.len()
        invariant
            i <= hay.len(),
            forall|j: int| 0 <= j < i ==> !occurs_at(hay@, needle@, j),
        decreases hay.len() - i,
    {
        if matches_at(hay, needle, i) {
            proof {
                lemma_first_occurrence(hay@, needle@, i as int);
            }
            return Some(i);
        }
        i = i + 1;
    }
    if matches_at(hay, needle, i) {
        proof {
            lemma_first_occurrence(hay@, needle@, i as int);
        }
        return Some(i);
    }
    proof {
        assert forall|j: int| !occurs_at(hay@, needle@, j) by {
            if occurs_at(hay@, needle@, j) {
                assert(j <= i);
                if j < i {
                } else {
                }
            }
        }
    }
    None
}

proof fn lemma_first_occurrence(hay: Seq<char>, needle: Seq<char>, i: int)
    requires
        occurs_at(hay, needle, i),
        forall|j: int| 0 <= j < i ==> !occurs_at(hay, needle, j),
    ensures
        find(hay, needle) == Some(i),
{
    assert(contains(hay, needle));
    let k = choose|k: int|
        occurs_at(hay, needle, k) && forall|j: int| 0 <= j < k ==> !occurs_at(hay, needle, j);
    assert(occurs_at(hay, needle, k) && forall|j: int| 0 <= j < k ==> !occurs_at(hay, needle, j));
    if k < i {
        assert(!occurs_at(hay, needle, k));
    } else if k > i {
        assert(!occurs_at(hay, needle, i));
    }
}

proof fn lemma_min_occurrence(hay: Seq<char>, needle: Seq<char>, k: int)
    requires
        occurs_at(hay, needle, k),
    ensures
        exists|m: int|
            occurs_at(hay, needle, m) && forall|j: int| 0 <= j < m ==> !occurs_at(hay, needle, j),
    decreases k,
{
    if exists|j: int| 0 <= j < k && occurs_at(hay, needle, j) {
        let j = choose|j: int| 0 <= j < k && occurs_at(hay, needle, j);
        lemma_min_occurrence(hay, needle, j);
    } else {
        assert(occurs_at(hay, needle, k) && forall|j: int| 0 <= j < k ==> !occurs_at(hay, needle, j));
    }
}

/// The last occurrence of `needle` in `hay` (std's `str::rfind`).
pub open spec fn rfind(hay: Seq<char>, needle: Seq<char>) -> Option<int> {
    if contains(hay, needle) {
        Some(choose|i: int| occurs_at(hay, needle, i) && forall|j: int| i < j ==> !occurs_at(hay, needle, j))
    } else {
        None
    }
}

proof fn lemma_last_occurrence(hay: Seq<char>, needle: Seq<char>, i: int)
    requires
        occurs_at(hay, needle, i),
        forall|j: int| i < j ==> !occurs_at(hay, needle, j),
    ensures
        rfind(hay, needle) == Some(i),
{
    assert(contains(hay, needle));
    let k = choose|k: int| occurs_at(hay, needle, k) && forall|j: int| k < j ==> !occurs_at(hay, needle, j);
    assert(occurs_at(hay, needle, k) && forall|j: int| k < j ==> !occurs_at(hay, needle, j));
    if k < i {
        assert(!occurs_at(hay, needle, i));
    } else if k > i {
        assert(!occurs_at(hay, needle, k));
    }
}

/// The last occurrence of `needle` in `hay`.
pub fn rfind_chars(hay: &[char], needle: &[char]) -> (r: Option<usize>)
    ensures
        r matches Some(i) ==> rfind(hay@, needle@) == Some(i as int) && i + needle@.len() <= hay@.len(),
        r is None ==> rfind(hay@, needle@) is None,
{
    let mut i: usize = hay.len();
    while i > 0
        invariant
            i <= hay@.len(),
            forall|j: int| i < j ==> !occurs_at(hay@, needle@, j),
        decreases i,
    {
        if matches_at(hay, needle, i) {
            proof {
                lemma_last_occurrence(hay@, needle@, i as int);
            }
            return Some(i);
        }
        i = i - 1;
    }
    if matches_at(hay, needle, 0) {
        proof {
            lemma_last_occurrence(hay@, needle@, 0);
        }
        return Some(0);
    }
    proof {
        assert forall|j: int| !occurs_at(hay@, needle@, j) by {
            if occurs_at(hay@, needle@, j) {
                assert(0 <= j);
            }
        }
    }
    None
}

/// Whether `needle` occurs in `hay`.
pub fn contains_chars(hay: &[char], needle: &[char]) -> (r: bool)
    ensures
        r == contains(hay@, needle@),
{
    match find_chars(hay, needle) {
        Some(_) => true,
        None => false,
    }
}

/// Whether `hay` starts with `p`.
pub fn starts_with_chars(hay: &[char], p: &[char]) -> (r: bool)
    ensures
        r == starts_with(hay@, p@),
{
    let r = matches_at(hay, p, 0);
    proof {
        if p@.len() <= hay@.len() {
            assert(hay@.take(p@.len() as int) =~= hay@.subrange(0, p@.len() as int));
        }
    }
    r
}

/// Whether `hay` ends with `p`.
pub fn ends_with_chars(hay: &[char], p: &[char]) -> (r: bool)
    ensures
        r == ends_with(hay@, p@),
{
    if p.len() > hay.len() {
        return false;
    }
    let r = matches_at(hay, p, hay.len() - p.len());
    proof {
        assert(hay@.skip(hay@.len() - p@.len()) =~= hay@.subrange(
            hay@.len() - p@.len(),
            hay@.len() as int,
        ));
    }
    r
}

// ───────────────────────── splitting ─────────────────────────

/// The pieces of `s` between the non-overlapping occurrences of `sep`,
/// found from the left (std's `str::split` with a string pattern).
pub open spec fn split(s: Seq<char>, sep: Seq<char>) -> Seq<Seq<char>>
    decreases s.len(),
{
    match find(s, sep) {
        Some(i) => if sep.len() > 0 && 0 <= i && i + sep.len() <= s.len() {
            seq![s.take(i)] + split(s.skip(i + sep.len()), sep)
        } else {
            seq![s]
        },
        None => seq![s],
    }
}

/// The first piece of `split(s, sep)`: `s` up to the first `sep`.
pub open spec fn before_first(s: Seq<char>, sep: Seq<char>) -> Seq<char> {
    match find(s, sep) {
        Some(i) => s.take(i),
        None => s,
    }
}

pub(crate) proof fn lemma_find_bounds(hay: Seq<char>, needle: Seq<char>)
    ensures
        find(hay, needle) matches Some(i) ==> occurs_at(hay, needle, i) && forall|j: int|
            0 <= j < i ==> !occurs_at(hay, needle, j),
{
    if contains(hay, needle) {
        let k = choose|k: int| occurs_at(hay, needle, k);
        lemma_min_occurrence(hay, needle, k);
    }
}

/// `s` up to its first occurrence of `sep` (the first item of `split`).
pub fn before_first_chars(s: &[char], sep: &[char]) -> (r: Vec<char>)
    requires
        sep@.len() > 0,
    ensures
        r@ == before_first(s@, sep@),
        r@ == split(s@, sep@)[0],
{
    proof {
        lemma_find_bounds(s@, sep@);
    }
    match find_chars(s, sep) {
        Some(i) => {
            let mut r: Vec<char> = Vec::new();
            let mut k: usize = 0;
            while k < i
                invariant
                    k <= i <= s.len(),
                    r@ == s@.take(k as int),
                decreases i - k,
            {
                r.push(s[k]);
                proof {
                    assert(s@.take(k + 1) =~= s@.take(k as int).push(s@[k as int]));
                }
                k = k + 1;
            }
            r
        },
        None => copy_chars(s),
    }
}

/// Splits `s` at every occurrence of `sep`.
#[verifier::spinoff_prover]
#[verifier::rlimit(40)]
pub fn split_chars(s: &[char], sep: &[char]) -> (r: Vec<Vec<char>>)
    requires
        sep@.len() > 0,
    ensures
        views(r@) == split(s@, sep@),
        r@.len() >= 1,
{
    let mut out: Vec<Vec<char>> = Vec::new();
    let mut rest = copy_chars(s);
    proof {
        assert(views(out@) + split(rest@, sep@) =~= split(s@, sep@));
    }
    loop
        invariant
            sep@.len() > 0,
            views(out@) + split(rest@, sep@) == split(s@, sep@),
        decreases rest@.len(),
    {
        proof {
            lemma_find_bounds(rest@, sep@);
        }
        match find_chars(rest.as_slice(), sep) {
            Some(i) => {
                let mut head: Vec<char> = Vec::new();
                let mut tail: Vec<char> = Vec::new();
                let mut k: usize = 0;
                while k < rest.len()
                    invariant
                        k <= rest.len(),
                        i + sep.len() <= rest.len(),
                        k <= i ==> head@ == rest@.take(k as int) && tail@.len() == 0,
                        k > i ==> head@ == rest@.take(i as int),
                        k >= i + sep.len() ==> tail@ == rest@.subrange(i + sep.len(), k as int),
                        i < k < i + sep.len() ==> tail@.len() == 0,
                    decreases rest.len() - k,
                {
                    if k < i {
                        head.push(rest[k]);
                        proof {
                            assert(rest@.take(k + 1) =~= rest@.take(k as int).push(rest@[k as int]));
                        }
                    } else if k >= i + sep.len() {
                        tail.push(rest[k]);
                        proof {
                            assert(rest@.subrange(i + sep.len(), k + 1) =~= rest@.subrange(
                                i + sep.len(),
                                k as int,
                            ).push(rest@[k as int]));
                        }
                    }
                    proof {
                        if k == i + sep.len() - 1 {
                            assert(rest@.subrange(i + sep.len(), k + 1).len() == 0);
                        }
                    }
                    k = k + 1;
                }
                proof {
                    if rest.len() == i + sep.len() {
                        assert(tail@ =~= rest@.subrange(i + sep.len(), rest.len() as int));
                    }
                    assert(tail@ =~= rest@.skip(i + sep.len()));
                    assert(views(out@.push(head)) =~= views(out@).push(head@));
                    assert(views(out@).push(head@) + split(tail@, sep@) =~= views(out@) + (seq![
                        head@,
                    ] + split(tail@, sep@)));
                }
                out.push(head);
                rest = tail;
            },
            None => {
                proof {
                    assert(views(out@.push(rest)) =~= views(out@) + seq![rest@]);
                }
                out.push(rest);
                return out;
            },
        }
    }
}

// ───────────────────────── character classes ─────────────────────────

/// Unicode `Alphabetic` or `Numeric`, the property that std's
/// `char::is_alphanumeric` tests.
pub uninterp spec fn alphanumeric(c: char) -> bool;

/// std's `char::is_alphanumeric`. Claimed: the result is `alphanumeric(c)`;
/// for ASCII characters it holds exactly for letters and digits, as std
/// documents. Nothing more is stated of non-ASCII characters.
#[verifier::external_body]
pub(crate) fn is_alphanumeric(c: char) -> (r: bool)
    ensures
        r == alphanumeric(c),
        (c as u32) < 128 ==> (r <==> (('a' <= c && c <= 'z') || ('A' <= c && c <= 'Z') || ('0'
            <= c && c <= '9'))),
{
    c.is_alphanumeric()
}

/// The lowercase mapping of `s`, as std's `str::to_lowercase` computes it.
pub uninterp spec fn lowercase(s: Seq<char>) -> Seq<char>;

/// std's `str::to_lowercase`. Claimed: the result is `lowercase(s)`, a
/// function of the characters of `s` alone.
#[verifier::external_body]
pub(crate) fn to_lowercase(s: &str) -> (r: String)
    ensures
        r@ == lowercase(s@),
{
    s.to_lowercase()
}

} // verus!

verus! {

// ───────────────────────── numbers ─────────────────────────

/// The decimal digit for `d < 10`.
pub open spec fn digit_char(d: nat) -> char {
    if d == 0 { '0' } else if d == 1 { '1' } else if d == 2 { '2' } else if d == 3 { '3' }
    else if d == 4 { '4' } else if d == 5 { '5' } else if d == 6 { '6' } else if d == 7 { '7' }
    else if d == 8 { '8' } else { '9' }
}

/// The decimal numeral of `n` (std's `Display` for unsigned integers).
pub open spec fn decimal(n: nat) -> Seq<char>
    decreases n,
{
    if n < 10 {
        seq![digit_char(n)]
    } else {
        decimal(n / 10).push(digit_char(n % 10))
    }
}

fn digit_exec(d: usize) -> (c: char)
    requires
        d < 10,
    ensures
        c == digit_char(d as nat),
{
    if d == 0 { '0' } else if d == 1 { '1' } else if d == 2 { '2' } else if d == 3 { '3' }
    else if d == 4 { '4' } else if d == 5 { '5' } else if d == 6 { '6' } else if d == 7 { '7' }
    else if d == 8 { '8' } else { '9' }
}

/// The decimal numeral of `n`.
pub fn decimal_chars(n: usize) -> (r: Vec<char>)
    ensures
        r@ == decimal(n as nat),
    decreases n,
{
    if n < 10 {
        let mut v: Vec<char> = Vec::new();
        v.push(digit_exec(n));
        proof {
            assert(v@ =~= seq![digit_char(n as nat)]);
        }
        v
    } else {
        let mut v = decimal_chars(n / 10);
        v.push(digit_exec(n % 10));
        v
    }
}

} // verus!
