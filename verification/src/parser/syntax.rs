//! A syntax tree held as plain values, and what the walkers read from it.
//!
//! `grammar::parse_source` turns the tree tree-sitter builds into a
//! `SyntaxNode` tree, which the language walkers then read. Every
//! question a walker asks of the tree (a node's kind, its children, the child
//! under a field name, its text, its signature line) is stated here as a spec
//! function over `SyntaxNode` and the source bytes.
use crate::text::{is_ws, to_chars, trim, trim_chars};
use vstd::prelude::*;
use vstd::string::StringSliceAdditionalSpecFns;
use vstd::utf8::{decode_utf8, valid_utf8};

verus! {

/// One node of a parsed file: its grammar kind, the field under which its
/// parent holds it, its byte range and its start and end positions
/// (zero-based rows and byte columns), and its children in order (named and
/// anonymous alike, as a tree cursor visits them).
pub struct SyntaxNode {
    pub kind: String,
    pub field: Option<String>,
    pub start_byte: usize,
    pub end_byte: usize,
    pub start_row: usize,
    pub start_col: usize,
    pub end_row: usize,
    pub end_col: usize,
    pub children: Vec<SyntaxNode>,
}

/// Every node's byte range lies within a source of `len` bytes, and its
/// positions are no larger than `len` (a row counts newlines, a column
/// counts bytes).
pub open spec fn wf(n: SyntaxNode, len: nat) -> bool
    decreases n,
{
    &&& n.start_byte <= n.end_byte <= len
    &&& n.start_row <= len
    &&& n.start_col <= len
    &&& n.end_row <= len
    &&& n.end_col <= len
    &&& len < usize::MAX
    &&& forall|i: int| 0 <= i < n.children@.len() ==> wf(#[trigger] n.children@[i], len)
}

/// Unfolds `wf` for the children of a node.
pub proof fn lemma_wf_children(n: SyntaxNode, len: nat)
    requires
        wf(n, len),
    ensures
        forall|i: int| 0 <= i < n.children@.len() ==> wf(#[trigger] n.children@[i], len),
        n.start_byte <= n.end_byte <= len,
        n.start_row < usize::MAX,
        n.start_col < usize::MAX,
        n.end_row < usize::MAX,
{
}

/// The text of a node: its bytes decoded, or nothing when they are not
/// valid UTF-8 (tree-sitter's `Node::utf8_text`).
pub open spec fn text_of(src: Seq<u8>, n: SyntaxNode) -> Option<Seq<char>> {
    let b = src.subrange(n.start_byte as int, n.end_byte as int);
    if valid_utf8(b) {
        Some(decode_utf8(b))
    } else {
        None
    }
}

/// The text of a node, or `d` when it is not valid UTF-8.
pub open spec fn text_or(src: Seq<u8>, n: SyntaxNode, d: Seq<char>) -> Seq<char> {
    match text_of(src, n) {
        Some(t) => t,
        None => d,
    }
}

/// Decodes `source[start..end]` (std's `str::from_utf8`). Claimed: the
/// result is present exactly when the bytes are valid UTF-8, and then holds
/// their decoding.
#[verifier::external_body]
fn utf8_slice(source: &[u8], start: usize, end: usize) -> (r: Option<String>)
    requires
        start <= end <= source@.len(),
    ensures
        r is Some <==> valid_utf8(source@.subrange(start as int, end as int)),
        r matches Some(s) ==> s@ == decode_utf8(source@.subrange(start as int, end as int)),
{
    std::str::from_utf8(&source[start..end]).ok().map(|s| s.to_owned())
}

/// The text of `n` within `src`.
pub fn node_text(src: &[u8], n: &SyntaxNode) -> (r: Option<Vec<char>>)
    requires
        n.start_byte <= n.end_byte <= src@.len(),
    ensures
        r matches Some(t) ==> text_of(src@, *n) == Some(t@),
        r is None ==> text_of(src@, *n) is None,
{
    match utf8_slice(src, n.start_byte, n.end_byte) {
        Some(s) => Some(to_chars(s.as_str())),
        None => None,
    }
}

/// The text of `n`, or `d` when it is not valid UTF-8.
pub fn node_text_or(src: &[u8], n: &SyntaxNode, d: &str) -> (r: Vec<char>)
    requires
        n.start_byte <= n.end_byte <= src@.len(),
    ensures
        r@ == text_or(src@, *n, d@),
{
    match node_text(src, n) {
        Some(t) => t,
        None => to_chars(d),
    }
}

/// The index of the first of `cs[i..]` held under field `name`.
pub open spec fn field_index_from(cs: Seq<SyntaxNode>, name: Seq<char>, i: int) -> Option<int>
    decreases cs.len() - i,
{
    if i < 0 || i >= cs.len() {
        None
    } else if cs[i].field matches Some(f) && f@ == name {
        Some(i)
    } else {
        field_index_from(cs, name, i + 1)
    }
}

/// The first child of `n` held under field `name` (tree-sitter's
/// `Node::child_by_field_name`).
pub open spec fn child_by_field(n: SyntaxNode, name: Seq<char>) -> Option<SyntaxNode> {
    match field_index_from(n.children@, name, 0) {
        Some(i) => Some(n.children@[i]),
        None => None,
    }
}

proof fn lemma_field_index_from(cs: Seq<SyntaxNode>, name: Seq<char>, i: int)
    ensures
        field_index_from(cs, name, i) matches Some(k) ==> i <= k < cs.len(),
    decreases cs.len() - i,
{
    if 0 <= i < cs.len() {
        lemma_field_index_from(cs, name, i + 1);
    }
}

/// Whether `n` is held under field `name`.
fn has_field(n: &SyntaxNode, name: &str) -> (r: bool)
    ensures
        r == (n.field matches Some(f) && f@ == name@),
{
    match &n.field {
        Some(f) => crate::text::str_eq(f.as_str(), name),
        None => false,
    }
}

/// The first child of `n` held under field `name`.
pub fn child_by_field_name<'a>(n: &'a SyntaxNode, name: &str) -> (r: Option<&'a SyntaxNode>)
    ensures
        r matches Some(c) ==> child_by_field(*n, name@) == Some(*c),
        r is None ==> child_by_field(*n, name@) is None,
        r matches Some(c) ==> exists|i: int| 0 <= i < n.children@.len() && n.children@[i] == *c,
{
    let mut i: usize = 0;
    while i < n.children.len()
        invariant
            i <= n.children@.len(),
            field_index_from(n.children@, name@, 0) == field_index_from(n.children@, name@, i as int),
        decreases n.children.len() - i,
    {
        if has_field(&n.children[i], name) {
            return Some(&n.children[i]);
        }
        i = i + 1;
    }
    None
}

/// Whether `n`'s kind is `k`.
pub fn kind_is(n: &SyntaxNode, k: &str) -> (r: bool)
    ensures
        r == (n.kind@ == k@),
{
    crate::text::str_eq(n.kind.as_str(), k)
}

// ───────────────────────── signatures ─────────────────────────

/// Where a declaration's signature starts: past every leading `decorator`
/// child, at the latest end among them.
pub open spec fn sig_start(cs: Seq<SyntaxNode>, i: int, start: int) -> int
    decreases cs.len() - i,
{
    if 0 <= i < cs.len() && cs[i].kind@ == "decorator"@ {
        sig_start(cs, i + 1, if cs[i].end_byte > start { cs[i].end_byte as int } else { start })
    } else {
        start
    }
}

/// ASCII whitespace as std's `u8::is_ascii_whitespace` defines it.
pub open spec fn is_ascii_ws(b: u8) -> bool {
    b == 0x20u8 || b == 0x09u8 || b == 0x0au8 || b == 0x0cu8 || b == 0x0du8
}

/// The first position at or after `p` that is not ASCII whitespace.
pub open spec fn skip_ascii_ws(src: Seq<u8>, p: int) -> int
    decreases src.len() - p,
{
    if 0 <= p < src.len() && is_ascii_ws(src[p]) {
        skip_ascii_ws(src, p + 1)
    } else {
        p
    }
}

/// The first position at or after `p` that holds a newline, or the end.
pub open spec fn line_end(src: Seq<u8>, p: int) -> int
    decreases src.len() - p,
{
    if 0 <= p < src.len() && src[p] != 0x0au8 {
        line_end(src, p + 1)
    } else {
        p
    }
}

/// The text of `b` with invalid sequences replaced, as std's
/// `String::from_utf8_lossy` decodes it.
pub uninterp spec fn utf8_lossy(b: Seq<u8>) -> Seq<char>;

/// std's `String::from_utf8_lossy`. Claimed: the result is `utf8_lossy`
/// of the bytes, and for valid UTF-8 it is their plain decoding.
#[verifier::external_body]
fn lossy_text(source: &[u8], start: usize, end: usize) -> (r: String)
    requires
        start <= end <= source@.len(),
    ensures
        r@ == utf8_lossy(source@.subrange(start as int, end as int)),
        valid_utf8(source@.subrange(start as int, end as int)) ==> r@ == decode_utf8(
            source@.subrange(start as int, end as int),
        ),
{
    String::from_utf8_lossy(&source[start..end]).into_owned()
}

/// The first line of a declaration, without leading decorators and without
/// surrounding whitespace.
pub open spec fn signature_of(src: Seq<u8>, n: SyntaxNode) -> Seq<char> {
    let s0 = sig_start(n.children@, 0, n.start_byte as int);
    let s = skip_ascii_ws(src, s0);
    let e = line_end(src, s);
    trim(utf8_lossy(src.subrange(s, e)))
}

proof fn lemma_sig_start_bounds(cs: Seq<SyntaxNode>, i: int, start: int, len: nat)
    requires
        0 <= start <= len,
        forall|j: int| 0 <= j < cs.len() ==> wf(#[trigger] cs[j], len),
    ensures
        start <= sig_start(cs, i, start) <= len,
    decreases cs.len() - i,
{
    if 0 <= i < cs.len() && cs[i].kind@ == "decorator"@ {
        assert(wf(cs[i], len));
        lemma_sig_start_bounds(
            cs,
            i + 1,
            if cs[i].end_byte > start { cs[i].end_byte as int } else { start },
            len,
        );
    }
}

proof fn lemma_skip_bounds(src: Seq<u8>, p: int)
    requires
        0 <= p <= src.len(),
    ensures
        p <= skip_ascii_ws(src, p) <= src.len(),
        p <= line_end(src, p) <= src.len(),
    decreases src.len() - p,
{
    if p < src.len() {
        lemma_skip_bounds(src, p + 1);
    }
}

/// The signature line of declaration `n` (its first line in the source,
/// after any leading decorators, trimmed).
pub fn extract_signature(n: &SyntaxNode, source: &[u8]) -> (r: String)
    requires
        wf(*n, source@.len()),
    ensures
        r@ == signature_of(source@, *n),
{
    let mut start: usize = n.start_byte;
    let mut i: usize = 0;
    proof {
        lemma_wf_children(*n, source@.len());
    }
    while i < n.children.len() && kind_is(&n.children[i], "decorator")
        invariant
            i <= n.children@.len(),
            start <= source@.len(),
            forall|j: int| 0 <= j < n.children@.len() ==> wf(#[trigger] n.children@[j], source@.len()),
            sig_start(n.children@, 0, n.start_byte as int) == sig_start(
                n.children@,
                i as int,
                start as int,
            ),
        decreases n.children.len() - i,
    {
        let e = n.children[i].end_byte;
        proof {
            assert(wf(n.children@[i as int], source@.len()));
        }
        if e > start {
            start = e;
        }
        i = i + 1;
    }
    while start < source.len() && (source[start] == 0x20u8 || source[start] == 0x09u8
        || source[start] == 0x0au8 || source[start] == 0x0cu8 || source[start] == 0x0du8)
        invariant
            start <= source@.len(),
            skip_ascii_ws(source@, sig_start(n.children@, 0, n.start_byte as int))
                == skip_ascii_ws(source@, start as int),
        decreases source.len() - start,
    {
        start = start + 1;
    }
    let mut end: usize = start;
    while end < source.len() && source[end] != 0x0au8
        invariant
            start <= end <= source@.len(),
            line_end(source@, start as int) == line_end(source@, end as int),
        decreases source.len() - end,
    {
        end = end + 1;
    }
    let text = lossy_text(source, start, end);
    let cs = to_chars(text.as_str());
    let t = trim_chars(cs.as_slice());
    crate::text::string_from_chars(t.as_slice())
}

} // verus!
