//! The first query front end: name-only symbol lookup and a table renderer
//! for rows no wider than the header.
use crate::query::candidates::{text_matches, text_matches_exec};
use crate::query::format::{
    ascii_table, col_widths, lemma_trim_separator, lemma_ws_view, push_line, row_views, cell_views, sep_body,
    rows_text, separator, separator_exec, table_line, widths_exec,
};
use crate::text::{copy_chars, push_all, string_from_chars, trim_end};
use vstd::prelude::*;

verus! {

#[derive(Debug, Clone)]
pub struct SymbolInfo {
    pub id: String,
    pub name: String,
    pub kind: String,
    pub start_line: usize,
    pub end_line: usize,
    pub signature: String,
}

#[derive(Debug, Clone)]
pub struct FileInfo {
    pub path: String,
    pub language: String,
}

#[derive(Debug, Clone)]
pub struct CallerInfo {
    pub id: String,
    pub name: String,
    pub kind: String,
    pub signature: String,
    pub call_site_line: usize,
}

#[derive(Debug, Clone)]
pub struct CalleeInfo {
    pub id: String,
    pub name: String,
    pub kind: String,
    pub signature: String,
    pub call_site_line: usize,
}

#[derive(Debug, Clone)]
pub struct ContainedSymbolInfo {
    pub id: String,
    pub name: String,
    pub kind: String,
    pub signature: String,
}

/// The symbols of `pool` whose name matches `target`, in pool order.
pub open spec fn name_matches(pool: Seq<SymbolInfo>, target: Seq<char>, fuzzy: bool) -> Seq<SymbolInfo>
    decreases pool.len(),
{
    if pool.len() == 0 {
        seq![]
    } else {
        let rest = name_matches(pool.drop_last(), target, fuzzy);
        if text_matches(pool.last().name@, target, fuzzy) {
            rest.push(pool.last())
        } else {
            rest
        }
    }
}

/// The files of `pool` whose path matches `target`, in pool order.
pub open spec fn path_matches(pool: Seq<FileInfo>, target: Seq<char>, fuzzy: bool) -> Seq<FileInfo>
    decreases pool.len(),
{
    if pool.len() == 0 {
        seq![]
    } else {
        let rest = path_matches(pool.drop_last(), target, fuzzy);
        if text_matches(pool.last().path@, target, fuzzy) {
            rest.push(pool.last())
        } else {
            rest
        }
    }
}

/// The symbols whose name matches `target` (exactly, or as a
/// case-insensitive substring when `fuzzy`), in pool order.
pub fn resolve_symbol_candidates(target: &str, fuzzy: bool, pool: &[SymbolInfo]) -> (r: Vec<SymbolInfo>)
    ensures
        r@ == name_matches(pool@, target@, fuzzy),
{
    let mut out: Vec<SymbolInfo> = Vec::new();
    let mut i: usize = 0;
    proof {
        assert(pool@.take(0) =~= Seq::<SymbolInfo>::empty());
    }
    while i < pool.len()
        invariant
            i <= pool@.len(),
            out@ == name_matches(pool@.take(i as int), target@, fuzzy),
        decreases pool.len() - i,
    {
        let s = &pool[i];
        proof {
            assert(pool@.take(i + 1).drop_last() =~= pool@.take(i as int));
        }
        if text_matches_exec(s.name.as_str(), target, fuzzy) {
            let c = SymbolInfo {
                id: s.id.clone(),
                name: s.name.clone(),
                kind: s.kind.clone(),
                start_line: s.start_line,
                end_line: s.end_line,
                signature: s.signature.clone(),
            };
            proof {
                assert(c == pool@[i as int]);
            }
            out.push(c);
        }
        i = i + 1;
    }
    proof {
        assert(pool@.take(pool@.len() as int) =~= pool@);
    }
    out
}

/// The files whose path matches `target` (exactly, or as a
/// case-insensitive substring when `fuzzy`), in pool order.
pub fn resolve_file_candidates(target: &str, fuzzy: bool, pool: &[FileInfo]) -> (r: Vec<FileInfo>)
    ensures
        r@ == path_matches(pool@, target@, fuzzy),
{
    let mut out: Vec<FileInfo> = Vec::new();
    let mut i: usize = 0;
    proof {
        assert(pool@.take(0) =~= Seq::<FileInfo>::empty());
    }
    while i < pool.len()
        invariant
            i <= pool@.len(),
            out@ == path_matches(pool@.take(i as int), target@, fuzzy),
        decreases pool.len() - i,
    {
        let f = &pool[i];
        proof {
            assert(pool@.take(i + 1).drop_last() =~= pool@.take(i as int));
        }
        if text_matches_exec(f.path.as_str(), target, fuzzy) {
            let c = FileInfo { path: f.path.clone(), language: f.language.clone() };
            proof {
                assert(c == pool@[i as int]);
            }
            out.push(c);
        }
        i = i + 1;
    }
    proof {
        assert(pool@.take(pool@.len() as int) =~= pool@);
    }
    out
}

/// Extracts lines `start_line..=end_line` (one-based) of `content`.
pub fn slice_source_code(content: &str, start_line: usize, end_line: usize) -> (r: String)
    ensures
        r@ == crate::file_utils::slice_lines(content@, start_line as int, end_line as int),
{
    crate::file_utils::slice_source_code(content, start_line, end_line)
}

/// The lines of the data rows, each over its own cells only.
pub open spec fn plain_rows_text(rows: Seq<Seq<Seq<char>>>, ws: Seq<nat>) -> Seq<char>
    decreases rows.len(),
{
    if rows.len() == 0 {
        seq![]
    } else {
        plain_rows_text(rows.drop_last(), ws) + table_line(rows.last(), ws, rows.last().len() as int)
    }
}

/// The table as this renderer draws it: like `ascii_table`, but each data
/// line holds only the cells its row has.
pub open spec fn plain_table(headers: Seq<Seq<char>>, rows: Seq<Seq<Seq<char>>>) -> Seq<char> {
    if headers.len() == 0 {
        seq![]
    } else {
        let ws = col_widths(headers, rows);
        let sep = separator(ws);
        sep + table_line(headers, ws, ws.len() as int) + sep + plain_rows_text(rows, ws) + trim_end(sep)
    }
}

/// Renders headers and rows as an ASCII table; no row may be wider than
/// the header (a wider row has no column width to use).
pub fn format_ascii_table(headers: &[String], rows: &[Vec<String>]) -> (r: String)
    requires
        forall|k: int| 0 <= k < rows@.len() ==> #[trigger] rows@[k]@.len() <= headers@.len(),
    ensures
        r@ == plain_table(cell_views(headers@), row_views(rows@)),
{
    if headers.len() == 0 {
        return string_from_chars(&[]);
    }
    let ws = widths_exec(headers, rows);
    let ghost wn = ws@.map_values(|w: usize| w as nat);
    proof {
        lemma_ws_view(ws@, col_widths(cell_views(headers@), row_views(rows@)));
    }
    let sep = separator_exec(&ws);
    let mut out = copy_chars(sep.as_slice());
    push_line(&mut out, headers, &ws, ws.len());
    push_all(&mut out, sep.as_slice());
    let ghost prefix = out@;
    let mut k: usize = 0;
    proof {
        assert(row_views(rows@).take(0) =~= Seq::<Seq<Seq<char>>>::empty());
        assert(out@ =~= prefix + plain_rows_text(row_views(rows@).take(0), wn));
    }
    while k < rows.len()
        invariant
            k <= rows@.len(),
            wn == ws@.map_values(|w: usize| w as nat),
            ws@.len() == headers@.len(),
            forall|j: int| 0 <= j < rows@.len() ==> #[trigger] rows@[j]@.len() <= headers@.len(),
            out@ == prefix + plain_rows_text(row_views(rows@).take(k as int), wn),
        decreases rows.len() - k,
    {
        proof {
            assert(rows@[k as int]@.len() <= headers@.len());
        }
        push_line(&mut out, rows[k].as_slice(), &ws, rows[k].len());
        proof {
            let pre = row_views(rows@).take(k + 1);
            assert(pre.drop_last() =~= row_views(rows@).take(k as int));
            assert(pre.last() == cell_views(rows@[k as int]@));
            assert(out@ =~= prefix + plain_rows_text(pre, wn));
        }
        k = k + 1;
    }
    proof {
        assert(row_views(rows@).take(rows@.len() as int) =~= row_views(rows@));
        lemma_trim_separator(wn);
    }
    let mut closing = copy_chars(sep.as_slice());
    closing.pop();
    push_all(&mut out, closing.as_slice());
    proof {
        reveal_strlit("+\n");
        assert(sep@ =~= sep_body(wn, wn.len() as int) + seq!['+', '\n']);
        assert(closing@ =~= sep_body(wn, wn.len() as int) + seq!['+']);
    }
    string_from_chars(out.as_slice())
}


proof fn lemma_full_rows_text(rows: Seq<Seq<Seq<char>>>, ws: Seq<nat>)
    requires
        forall|k: int| 0 <= k < rows.len() ==> #[trigger] rows[k].len() == ws.len(),
    ensures
        plain_rows_text(rows, ws) == rows_text(rows, ws),
    decreases rows.len(),
{
    if rows.len() > 0 {
        assert forall|k: int| 0 <= k < rows.drop_last().len() implies #[trigger] rows.drop_last()[k].len() == ws.len() by {
            assert(rows.drop_last()[k] == rows[k]);
        }
        lemma_full_rows_text(rows.drop_last(), ws);
        assert(rows.last().len() == ws.len());
    }
}

/// When every row has exactly one cell per header, this renderer draws the
/// same table as `query::format::format_ascii_table`.
pub proof fn lemma_full_rows_same_table(headers: Seq<Seq<char>>, rows: Seq<Seq<Seq<char>>>)
    requires
        forall|k: int| 0 <= k < rows.len() ==> #[trigger] rows[k].len() == headers.len(),
    ensures
        plain_table(headers, rows) == ascii_table(headers, rows),
{
    if headers.len() > 0 {
        lemma_full_rows_text(rows, col_widths(headers, rows));
    }
}


/// A symbol of the pool is among the name matches exactly when its name
/// matches the target; for a fuzzy search, when the lowercased target
/// occurs in its lowercased name.
pub proof fn lemma_name_matches_members(pool: Seq<SymbolInfo>, target: Seq<char>, fuzzy: bool, k: int)
    requires
        0 <= k < pool.len(),
    ensures
        text_matches(pool[k].name@, target, fuzzy) ==> name_matches(pool, target, fuzzy).contains(pool[k]),
        forall|x: SymbolInfo| #[trigger] name_matches(pool, target, fuzzy).contains(x) ==> text_matches(x.name@, target, fuzzy),
    decreases pool.len(),
{
    let rest = name_matches(pool.drop_last(), target, fuzzy);
    if k < pool.len() - 1 {
        assert(pool.drop_last()[k] == pool[k]);
        lemma_name_matches_members(pool.drop_last(), target, fuzzy, k);
    } else if pool.len() > 1 {
        lemma_name_matches_members(pool.drop_last(), target, fuzzy, 0);
    }
    if text_matches(pool.last().name@, target, fuzzy) {
        assert(rest.push(pool.last())[rest.len() as int] == pool.last());
        if k < pool.len() - 1 && text_matches(pool[k].name@, target, fuzzy) {
            let j = choose|j: int| 0 <= j < rest.len() && rest[j] == pool[k];
            assert(rest.push(pool.last())[j] == pool[k]);
        }
    }
    assert forall|x: SymbolInfo| #[trigger] name_matches(pool, target, fuzzy).contains(x) implies text_matches(
        x.name@,
        target,
        fuzzy,
    ) by {
        let out = name_matches(pool, target, fuzzy);
        let j = choose|j: int| 0 <= j < out.len() && out[j] == x;
        if text_matches(pool.last().name@, target, fuzzy) && j == rest.len() {
        } else {
            assert(out[j] == rest[j]);
            assert(rest.contains(x));
        }
    }
}

} // verus!
