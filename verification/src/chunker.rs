//! Splitting a file into chunks for embedding: one per symbol, or
//! overlapping windows of lines when the file declares none.
use crate::file_utils::{slice_lines, slice_source_code};
use crate::text::{
    decimal, decimal_chars, join, join_range, lines, lines_of, push_all, push_str, string_from_chars,
    to_chars, views,
};
use crate::types::ast::{NodeData, NodeView};
use vstd::prelude::*;

verus! {

/// A piece of a file prepared for embedding: its id, its text and, when
/// it covers one symbol, that symbol's id.
#[derive(Debug, Clone, PartialEq)]
pub struct CodeChunk {
    pub id: String,
    pub text: String,
    pub symbol_id: Option<String>,
}

/// The abstract value of a chunk.
pub struct ChunkView {
    pub id: Seq<char>,
    pub text: Seq<char>,
    pub symbol_id: Option<Seq<char>>,
}

impl View for CodeChunk {
    type V = ChunkView;

    open spec fn view(&self) -> ChunkView {
        ChunkView {
            id: self.id@,
            text: self.text@,
            symbol_id: match self.symbol_id {
                Some(s) => Some(s@),
                None => None,
            },
        }
    }
}

/// The views of a sequence of chunks.
pub open spec fn chunk_views(s: Seq<CodeChunk>) -> Seq<ChunkView> {
    s.map_values(|c: CodeChunk| c@)
}

/// The id of chunk number `idx` of the file at `path`.
pub open spec fn chunk_id(path: Seq<char>, idx: int) -> Seq<char> {
    path + "::chunk::"@ + decimal(idx as nat)
}

/// The text of each window: `max_lines` lines from `start` (fewer at the
/// end), the next window starting `max_lines - overlap_lines` lines later
/// (one line later when the overlap is not smaller than the window), until
/// a window reaches the last line or the next would start past it.
pub open spec fn windows(ls: Seq<Seq<char>>, start: int, max_lines: int, overlap_lines: int) -> Seq<Seq<char>>
    decreases ls.len() - start,
{
    if start < 0 || start >= ls.len() {
        seq![]
    } else {
        let end = if start + max_lines < ls.len() { start + max_lines } else { ls.len() as int };
        let text = join(ls.subrange(start, end), "\n"@);
        let step = if max_lines > overlap_lines { max_lines - overlap_lines } else { 1 };
        if end == ls.len() || start + step >= ls.len() {
            seq![text]
        } else {
            seq![text] + windows(ls, start + step, max_lines, overlap_lines)
        }
    }
}

/// The chunks of a file: with symbols, one chunk per symbol holding the
/// symbol's lines; without, the windows of its lines.
pub open spec fn chunks_of(path: Seq<char>, content: Seq<char>, nodes: Seq<NodeView>, max_lines: int, overlap_lines: int) -> Seq<ChunkView> {
    if nodes.len() > 0 {
        Seq::new(
            nodes.len(),
            |i: int|
                ChunkView {
                    id: chunk_id(path, i),
                    text: slice_lines(content, nodes[i].start_line, nodes[i].end_line),
                    symbol_id: Some(nodes[i].id),
                },
        )
    } else {
        let ws = windows(lines_of(content), 0, max_lines, overlap_lines);
        Seq::new(ws.len(), |i: int| ChunkView { id: chunk_id(path, i), text: ws[i], symbol_id: None })
    }
}

/// Chunks a file with 30-line windows overlapping by 5 lines.
pub fn chunk_source(path: &str, content: &str, nodes: &[NodeData]) -> (r: Vec<CodeChunk>)
    ensures
        chunk_views(r@) == chunks_of(path@, content@, nodes@.map_values(|n: NodeData| n@), 30, 5),
{
    chunk_source_with_options(path, content, nodes, 30, 5)
}

fn make_chunk_id(path: &str, idx: usize) -> (r: String)
    ensures
        r@ == chunk_id(path@, idx as int),
{
    let mut v = to_chars(path);
    push_str(&mut v, "::chunk::");
    let d = decimal_chars(idx);
    push_all(&mut v, d.as_slice());
    string_from_chars(v.as_slice())
}

/// Chunks a file: one chunk per symbol when there are symbols, otherwise
/// windows of `max_lines` lines overlapping by `overlap_lines`.
pub fn chunk_source_with_options(path: &str, content: &str, nodes: &[NodeData], max_lines: usize, overlap_lines: usize) -> (r: Vec<CodeChunk>)
    ensures
        chunk_views(r@) == chunks_of(
            path@,
            content@,
            nodes@.map_values(|n: NodeData| n@),
            max_lines as int,
            overlap_lines as int,
        ),
{
    let ghost nv = nodes@.map_values(|n: NodeData| n@);
    let ghost want = chunks_of(path@, content@, nv, max_lines as int, overlap_lines as int);
    let mut chunks: Vec<CodeChunk> = Vec::new();
    if nodes.len() > 0 {
        let mut idx: usize = 0;
        while idx < nodes.len()
            invariant
                idx <= nodes@.len(),
                nodes@.len() > 0,
                nv == nodes@.map_values(|n: NodeData| n@),
                want == chunks_of(path@, content@, nv, max_lines as int, overlap_lines as int),
                chunk_views(chunks@) == want.take(idx as int),
            decreases nodes.len() - idx,
        {
            let node = &nodes[idx];
            let text = slice_source_code(content, node.start_line, node.end_line);
            let c = CodeChunk {
                id: make_chunk_id(path, idx),
                text,
                symbol_id: Some(node.id.clone()),
            };
            let ghost before = chunk_views(chunks@);
            chunks.push(c);
            proof {
                assert(nv[idx as int] == nodes@[idx as int]@);
                assert(c@ == want[idx as int]);
                assert(chunk_views(chunks@) =~= before.push(c@));
                assert(want.take(idx + 1) =~= want.take(idx as int).push(want[idx as int]));
            }
            idx = idx + 1;
        }
        proof {
            assert(want.take(nodes@.len() as int) =~= want);
        }
        return chunks;
    }
    let cs = to_chars(content);
    let ls = lines(cs.as_slice());
    let ghost lv = views(ls@);
    let ghost ws = windows(lv, 0, max_lines as int, overlap_lines as int);
    if ls.len() == 0 {
        proof {
            assert(chunk_views(chunks@) =~= want);
        }
        return chunks;
    }
    let nl = to_chars("\n");
    let mut start: usize = 0;
    let mut idx: usize = 0;
    proof {
        assert(chunk_views(chunks@) =~= want.take(0));
    }
    loop
        invariant
            start < ls@.len(),
            idx <= start,
            lv == views(ls@),
            nl@ == "\n"@,
            ws == windows(lv, 0, max_lines as int, overlap_lines as int),
            want == chunks_of(path@, content@, nv, max_lines as int, overlap_lines as int),
            nv.len() == 0,
            nodes@.len() == 0,
            lv == lines_of(content@),
            idx + windows(lv, start as int, max_lines as int, overlap_lines as int).len() == ws.len(),
            forall|j: int| 0 <= j < windows(lv, start as int, max_lines as int, overlap_lines as int).len()
                ==> #[trigger] ws[idx + j] == windows(lv, start as int, max_lines as int, overlap_lines as int)[j],
            chunk_views(chunks@) == want.take(idx as int),
            want.len() == ws.len(),
        decreases ls@.len() - start,
    {
        let end = if max_lines < ls.len() - start { start + max_lines } else { ls.len() };
        let text = join_range(&ls, start, end, nl.as_slice());
        let c = CodeChunk { id: make_chunk_id(path, idx), text: string_from_chars(text.as_slice()), symbol_id: None };
        let ghost rest = windows(lv, start as int, max_lines as int, overlap_lines as int);
        proof {
            assert(rest[0] == text@);
            assert(ws[idx + 0] == rest[0]);
            assert(want[idx as int] == c@);
        }
        let ghost before = chunk_views(chunks@);
        chunks.push(c);
        proof {
            assert(chunk_views(chunks@) =~= before.push(c@));
            assert(want.take(idx + 1) =~= want.take(idx as int).push(want[idx as int]));
            assert(chunk_views(chunks@) == want.take(idx + 1));
        }
        idx = idx + 1;
        if end == ls.len() {
            proof {
                assert(rest =~= seq![text@]);
                assert(idx == want.len());
                assert(want.take(idx as int) =~= want);
                assert(chunk_views(chunks@) == want);
                assert(nodes@.map_values(|n: NodeData| n@).len() == 0);
            }
            return chunks;
        }
        let step = if max_lines > overlap_lines { max_lines - overlap_lines } else { 1 };
        if step >= ls.len() - start {
            proof {
                assert(rest =~= seq![text@]);
                assert(idx == want.len());
                assert(want.take(idx as int) =~= want);
                assert(chunk_views(chunks@) == want);
                assert(nodes@.map_values(|n: NodeData| n@).len() == 0);
            }
            return chunks;
        }
        proof {
            let next = windows(lv, start + step, max_lines as int, overlap_lines as int);
            assert(rest =~= seq![text@] + next);
            assert forall|j: int| 0 <= j < next.len() implies #[trigger] ws[idx + j] == next[j] by {
                assert(ws[(idx - 1) + (j + 1)] == rest[j + 1]);
            }
        }
        start = start + step;
    }
}

/// The first line of each window that `windows` makes of `n` lines.
pub open spec fn window_starts(n: int, start: int, max_lines: int, overlap_lines: int) -> Seq<int>
    decreases n - start,
{
    if start < 0 || start >= n {
        seq![]
    } else {
        let end = if start + max_lines < n { start + max_lines } else { n };
        let step = if max_lines > overlap_lines { max_lines - overlap_lines } else { 1 };
        if end == n || start + step >= n {
            seq![start]
        } else {
            seq![start] + window_starts(n, start + step, max_lines, overlap_lines)
        }
    }
}

/// The end (exclusive) of the window starting at `start`.
pub open spec fn window_end(n: int, start: int, max_lines: int) -> int {
    if start + max_lines < n {
        start + max_lines
    } else {
        n
    }
}

proof fn lemma_windows_starts(ls: Seq<Seq<char>>, start: int, max_lines: int, overlap_lines: int)
    ensures
        windows(ls, start, max_lines, overlap_lines).len() == window_starts(ls.len() as int, start, max_lines, overlap_lines).len(),
        forall|i: int|
            0 <= i < windows(ls, start, max_lines, overlap_lines).len() ==> {
                let s = #[trigger] window_starts(ls.len() as int, start, max_lines, overlap_lines)[i];
                &&& start <= s < ls.len()
                &&& windows(ls, start, max_lines, overlap_lines)[i] == join(
                    ls.subrange(s, window_end(ls.len() as int, s, max_lines)),
                    "\n"@,
                )
            },
    decreases ls.len() - start,
{
    let n = ls.len() as int;
    if 0 <= start < n {
        let end = if start + max_lines < n { start + max_lines } else { n };
        let step = if max_lines > overlap_lines { max_lines - overlap_lines } else { 1 };
        if !(end == n || start + step >= n) {
            lemma_windows_starts(ls, start + step, max_lines, overlap_lines);
            let rest_w = windows(ls, start + step, max_lines, overlap_lines);
            let rest_s = window_starts(n, start + step, max_lines, overlap_lines);
            let text = join(ls.subrange(start, end), "\n"@);
            assert forall|i: int| 0 <= i < windows(ls, start, max_lines, overlap_lines).len() implies {
                let s = #[trigger] window_starts(n, start, max_lines, overlap_lines)[i];
                &&& start <= s < n
                &&& windows(ls, start, max_lines, overlap_lines)[i] == join(ls.subrange(s, window_end(n, s, max_lines)), "\n"@)
            } by {
                if i > 0 {
                    assert(windows(ls, start, max_lines, overlap_lines)[i] == rest_w[i - 1]);
                    assert(window_starts(n, start, max_lines, overlap_lines)[i] == rest_s[i - 1]);
                }
            }
        }
    }
}

proof fn lemma_starts_cover(n: int, start: int, max_lines: int, overlap_lines: int, k: int)
    requires
        max_lines >= 1,
        overlap_lines >= 0,
        0 <= start <= k < n,
    ensures
        exists|i: int|
            0 <= i < window_starts(n, start, max_lines, overlap_lines).len() && #[trigger] window_starts(
                n,
                start,
                max_lines,
                overlap_lines,
            )[i] <= k < window_end(n, window_starts(n, start, max_lines, overlap_lines)[i], max_lines),
    decreases n - start,
{
    let ws = window_starts(n, start, max_lines, overlap_lines);
    let end = if start + max_lines < n { start + max_lines } else { n };
    let step = if max_lines > overlap_lines { max_lines - overlap_lines } else { 1 };
    assert(ws[0] == start);
    if k >= end {
        lemma_starts_cover(n, start + step, max_lines, overlap_lines, k);
        let rest = window_starts(n, start + step, max_lines, overlap_lines);
        let j = choose|j: int| 0 <= j < rest.len() && #[trigger] rest[j] <= k < window_end(n, rest[j], max_lines);
        assert(ws[j + 1] == rest[j]);
    }
}

/// Without symbols, with windows of at least one line, every line of a
/// file lies in some window: the window starting at the first line, and
/// each next one starting `max_lines - overlap_lines` lines later (one line
/// when the overlap is not smaller), reach the last line.
pub proof fn lemma_windows_cover_lines(ls: Seq<Seq<char>>, max_lines: int, overlap_lines: int, k: int)
    requires
        max_lines >= 1,
        overlap_lines >= 0,
        0 <= k < ls.len(),
    ensures
        exists|i: int|
            0 <= i < windows(ls, 0, max_lines, overlap_lines).len() && {
                let s = #[trigger] window_starts(ls.len() as int, 0, max_lines, overlap_lines)[i];
                &&& s <= k < window_end(ls.len() as int, s, max_lines)
                &&& windows(ls, 0, max_lines, overlap_lines)[i] == join(
                    ls.subrange(s, window_end(ls.len() as int, s, max_lines)),
                    "\n"@,
                )
            },
{
    let n = ls.len() as int;
    lemma_windows_starts(ls, 0, max_lines, overlap_lines);
    lemma_starts_cover(n, 0, max_lines, overlap_lines, k);
    let i = choose|i: int|
        0 <= i < window_starts(n, 0, max_lines, overlap_lines).len() && #[trigger] window_starts(n, 0, max_lines, overlap_lines)[i]
            <= k < window_end(n, window_starts(n, 0, max_lines, overlap_lines)[i], max_lines);
    assert(0 <= i < windows(ls, 0, max_lines, overlap_lines).len());
}


/// How many lines a window starts after the previous one.
pub open spec fn window_step(max_lines: int, overlap_lines: int) -> int {
    if max_lines > overlap_lines {
        max_lines - overlap_lines
    } else {
        1
    }
}

proof fn lemma_window_starts_closed(n: int, start: int, max_lines: int, overlap_lines: int)
    requires
        max_lines >= 1,
        overlap_lines >= 0,
        0 <= start < n,
    ensures
        ({
            let ws = window_starts(n, start, max_lines, overlap_lines);
            let step = window_step(max_lines, overlap_lines);
            &&& ws.len() >= 1
            &&& forall|i: int| 0 <= i < ws.len() ==> #[trigger] ws[i] == start + i * step
            &&& start + (ws.len() - 1) * step + max_lines >= n
            &&& forall|j: int| 0 <= j < ws.len() - 1 ==> start + #[trigger] (j * step) + max_lines < n
        }),
    decreases n - start,
{
    let ws = window_starts(n, start, max_lines, overlap_lines);
    let step = window_step(max_lines, overlap_lines);
    let end = if start + max_lines < n { start + max_lines } else { n };
    if end == n || start + step >= n {
        assert(ws =~= seq![start]);
        assert(0 * step == 0) by (nonlinear_arith);
    } else {
        lemma_window_starts_closed(n, start + step, max_lines, overlap_lines);
        let rest = window_starts(n, start + step, max_lines, overlap_lines);
        assert(ws == seq![start] + rest);
        assert forall|i: int| 0 <= i < ws.len() implies #[trigger] ws[i] == start + i * step by {
            if i == 0 {
                assert(0 * step == 0) by (nonlinear_arith);
            } else {
                assert(ws[i] == rest[i - 1]);
                assert(start + step + (i - 1) * step == start + i * step) by (nonlinear_arith);
            }
        }
        assert(start + step + (rest.len() - 1) * step == start + (ws.len() - 1) * step) by (nonlinear_arith)
            requires
                ws.len() == rest.len() + 1,
        ;
        assert forall|j: int| 0 <= j < ws.len() - 1 implies start + #[trigger] (j * step) + max_lines < n by {
            if j == 0 {
                assert(0 * step == 0) by (nonlinear_arith);
            } else {
                assert(start + step + (j - 1) * step == start + j * step) by (nonlinear_arith);
            }
        }
    }
}

/// The windows of `n > 0` lines in closed form: with `step` the distance
/// between window starts, window `i` holds the lines from `i * step` up to
/// `i * step + max_lines` (fewer at the end), and there are as many
/// windows as the least count `k >= 1` with `(k - 1) * step + max_lines
/// >= n`. Without lines there are no windows.
pub proof fn lemma_windows_closed_form(ls: Seq<Seq<char>>, max_lines: int, overlap_lines: int)
    requires
        max_lines >= 1,
        overlap_lines >= 0,
    ensures
        ls.len() == 0 ==> windows(ls, 0, max_lines, overlap_lines).len() == 0,
        ls.len() > 0 ==> ({
            let ws = windows(ls, 0, max_lines, overlap_lines);
            let n = ls.len() as int;
            let step = window_step(max_lines, overlap_lines);
            &&& ws.len() >= 1
            &&& (ws.len() - 1) * step + max_lines >= n
            &&& forall|j: int| 0 <= j < ws.len() - 1 ==> #[trigger] (j * step) + max_lines < n
            &&& forall|i: int|
                0 <= i < ws.len() ==> #[trigger] ws[i] == join(
                    ls.subrange(i * step, window_end(n, i * step, max_lines)),
                    "\n"@,
                )
        }),
{
    let n = ls.len() as int;
    if n > 0 {
        lemma_windows_starts(ls, 0, max_lines, overlap_lines);
        lemma_window_starts_closed(n, 0, max_lines, overlap_lines);
        let ws = windows(ls, 0, max_lines, overlap_lines);
        let st = window_starts(n, 0, max_lines, overlap_lines);
        let step = window_step(max_lines, overlap_lines);
        assert forall|i: int| 0 <= i < ws.len() implies #[trigger] ws[i] == join(
            ls.subrange(i * step, window_end(n, i * step, max_lines)),
            "\n"@,
        ) by {
            assert(st[i] == 0 + i * step);
        }
        assert forall|j: int| 0 <= j < ws.len() - 1 implies #[trigger] (j * step) + max_lines < n by {
            assert(0 + (j * step) + max_lines < n);
        }
    }
}

} // verus!
