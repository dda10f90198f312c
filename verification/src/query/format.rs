//! Output formats of the query commands, and the ASCII table renderer.
use crate::text::{
    copy_chars, ends_with, ends_with_chars, push_all, push_str, str_eq, string_from_chars, to_chars, trim_end,
};
use vstd::prelude::*;
use vstd::string::StringSliceAdditionalSpecFns;
use vstd::utf8::encode_utf8;

verus! {

// ───────────────────────── the ASCII table ─────────────────────────

/// The length in bytes of the UTF-8 encoding of `s` (std's `str::len`).
pub open spec fn byte_len(s: Seq<char>) -> nat {
    encode_utf8(s).len()
}

/// `n` copies of `c`.
pub open spec fn repeat_char(c: char, n: nat) -> Seq<char> {
    Seq::new(n, |i: int| c)
}

/// `s` padded with spaces on the right to `w` characters (`{:<w}`).
pub open spec fn padded(s: Seq<char>, w: nat) -> Seq<char> {
    if s.len() < w {
        s + repeat_char(' ', (w - s.len()) as nat)
    } else {
        s
    }
}

/// The width of column `i` given the widths seen so far in `w`: the
/// largest byte length of the cells in that column of `rows`, or `w` if
/// that is larger.
pub open spec fn rows_width(rows: Seq<Seq<Seq<char>>>, i: int, w: nat) -> nat
    decreases rows.len(),
{
    if rows.len() == 0 {
        w
    } else {
        let prev = rows_width(rows.drop_last(), i, w);
        let r = rows.last();
        if 0 <= i < r.len() && byte_len(r[i]) > prev {
            byte_len(r[i])
        } else {
            prev
        }
    }
}

/// The column widths of a table: each the largest byte length of the
/// header and of the cells below it.
pub open spec fn col_widths(headers: Seq<Seq<char>>, rows: Seq<Seq<Seq<char>>>) -> Seq<nat> {
    Seq::new(headers.len(), |i: int| rows_width(rows, i, byte_len(headers[i])))
}

/// `+`, then `w + 2` dashes, for each of the first `k` columns.
pub open spec fn sep_body(ws: Seq<nat>, k: int) -> Seq<char>
    decreases k,
{
    if k <= 0 || k > ws.len() {
        seq![]
    } else {
        sep_body(ws, k - 1) + seq!['+'] + repeat_char('-', ws[k - 1] + 2)
    }
}

/// The separator line of a table.
pub open spec fn separator(ws: Seq<nat>) -> Seq<char> {
    sep_body(ws, ws.len() as int) + "+\n"@
}

/// Cell `i` of a row, or the empty cell past its end.
pub open spec fn cell_at(cells: Seq<Seq<char>>, i: int) -> Seq<char> {
    if 0 <= i < cells.len() {
        cells[i]
    } else {
        seq![]
    }
}

/// ` cell |` for each of the first `k` columns, each cell padded to its
/// column's width.
pub open spec fn cells_body(cells: Seq<Seq<char>>, ws: Seq<nat>, k: int) -> Seq<char>
    decreases k,
{
    if k <= 0 || k > ws.len() {
        seq![]
    } else {
        cells_body(cells, ws, k - 1) + seq![' '] + padded(cell_at(cells, k - 1), ws[k - 1])
            + " |"@
    }
}

/// One table line for `cells` over `k` columns.
pub open spec fn table_line(cells: Seq<Seq<char>>, ws: Seq<nat>, k: int) -> Seq<char> {
    seq!['|'] + cells_body(cells, ws, k) + seq!['\n']
}

/// The lines of the data rows, each over every column (missing cells
/// blank, cells past the last column dropped).
pub open spec fn rows_text(rows: Seq<Seq<Seq<char>>>, ws: Seq<nat>) -> Seq<char>
    decreases rows.len(),
{
    if rows.len() == 0 {
        seq![]
    } else {
        rows_text(rows.drop_last(), ws) + table_line(rows.last(), ws, ws.len() as int)
    }
}

/// The rendered table: separator, header line, separator, one line per
/// row, and a closing separator without its line break; empty when there
/// are no headers.
pub open spec fn ascii_table(headers: Seq<Seq<char>>, rows: Seq<Seq<Seq<char>>>) -> Seq<char> {
    if headers.len() == 0 {
        seq![]
    } else {
        let ws = col_widths(headers, rows);
        let sep = separator(ws);
        sep + table_line(headers, ws, ws.len() as int) + sep + rows_text(rows, ws) + trim_end(sep)
    }
}

/// The views of a table's rows.
pub open spec fn row_views(rows: Seq<Vec<String>>) -> Seq<Seq<Seq<char>>> {
    rows.map_values(|r: Vec<String>| r@.map_values(|c: String| c@))
}

/// The views of a list of strings.
pub open spec fn cell_views(cells: Seq<String>) -> Seq<Seq<char>> {
    cells.map_values(|c: String| c@)
}

/// Appends `n` copies of `c`.
pub fn push_repeat(v: &mut Vec<char>, c: char, n: usize)
    ensures
        final(v)@ == old(v)@ + repeat_char(c, n as nat),
{
    let mut i: usize = 0;
    while i < n
        invariant
            i <= n,
            v@ == old(v)@ + repeat_char(c, i as nat),
        decreases n - i,
    {
        v.push(c);
        proof {
            assert(old(v)@ + repeat_char(c, (i + 1) as nat) =~= old(v)@ + repeat_char(c, i as nat) + seq![c]);
        }
        i = i + 1;
    }
}

/// Appends `s` padded to `w` characters.
fn push_padded(v: &mut Vec<char>, s: &str, w: usize)
    ensures
        final(v)@ == old(v)@ + padded(s@, w as nat),
{
    let cs = to_chars(s);
    push_all(v, cs.as_slice());
    if cs.len() < w {
        push_repeat(v, ' ', w - cs.len());
    }
    proof {
        if !(s@.len() < w) {
            assert(old(v)@ + s@ == old(v)@ + padded(s@, w as nat));
        } else {
            assert(final(v)@ =~= old(v)@ + padded(s@, w as nat));
        }
    }
}

/// The column widths of a table.
pub fn widths_exec(headers: &[String], rows: &[Vec<String>]) -> (ws: Vec<usize>)
    ensures
        ws@.len() == headers@.len(),
        forall|i: int| 0 <= i < ws@.len() ==> ws@[i] as nat == col_widths(cell_views(headers@), row_views(rows@))[i],
{
    let mut ws: Vec<usize> = Vec::new();
    let mut i: usize = 0;
    while i < headers.len()
        invariant
            i <= headers@.len(),
            ws@.len() == i,
            forall|j: int| 0 <= j < i ==> ws@[j] as nat == col_widths(cell_views(headers@), row_views(rows@))[j],
        decreases headers.len() - i,
    {
        let mut w: usize = headers[i].as_str().as_bytes().len();
        let mut k: usize = 0;
        proof {
            assert(row_views(rows@).take(0) =~= Seq::<Seq<Seq<char>>>::empty());
        }
        while k < rows.len()
            invariant
                k <= rows@.len(),
                i < headers@.len(),
                w as nat == rows_width(row_views(rows@).take(k as int), i as int, byte_len(headers@[i as int]@)),
            decreases rows.len() - k,
        {
            proof {
                let pre = row_views(rows@).take(k + 1);
                assert(pre.drop_last() =~= row_views(rows@).take(k as int));
                assert(pre.last() == rows@[k as int]@.map_values(|c: String| c@));
            }
            if i < rows[k].len() {
                let l = rows[k][i].as_str().as_bytes().len();
                if l > w {
                    w = l;
                }
            }
            k = k + 1;
        }
        proof {
            assert(row_views(rows@).take(rows@.len() as int) =~= row_views(rows@));
            assert(cell_views(headers@)[i as int] == headers@[i as int]@);
        }
        ws.push(w);
        i = i + 1;
    }
    ws
}

pub proof fn lemma_ws_view(ws: Seq<usize>, want: Seq<nat>)
    requires
        ws.len() == want.len(),
        forall|i: int| 0 <= i < ws.len() ==> ws[i] as nat == want[i],
    ensures
        ws.map_values(|w: usize| w as nat) == want,
{
    assert(ws.map_values(|w: usize| w as nat) =~= want);
}

/// The separator line.
pub fn separator_exec(ws: &Vec<usize>) -> (r: Vec<char>)
    ensures
        r@ == separator(ws@.map_values(|w: usize| w as nat)),
{
    let ghost wn = ws@.map_values(|w: usize| w as nat);
    let mut r: Vec<char> = Vec::new();
    let mut i: usize = 0;
    while i < ws.len()
        invariant
            i <= ws@.len(),
            wn == ws@.map_values(|w: usize| w as nat),
            r@ == sep_body(wn, i as int),
        decreases ws.len() - i,
    {
        r.push('+');
        push_repeat(&mut r, '-', ws[i]);
        push_repeat(&mut r, '-', 2);
        proof {
            assert(repeat_char('-', ws@[i as int] as nat) + repeat_char('-', 2) =~= repeat_char('-', wn[i as int] + 2));
            assert(r@ =~= sep_body(wn, i as int) + seq!['+'] + repeat_char('-', wn[i as int] + 2));
        }
        i = i + 1;
    }
    push_str(&mut r, "+\n");
    r
}

/// Appends one table line over the first `k` columns.
pub fn push_line(out: &mut Vec<char>, cells: &[String], ws: &Vec<usize>, k: usize)
    requires
        k <= ws@.len(),
    ensures
        final(out)@ == old(out)@ + table_line(cell_views(cells@), ws@.map_values(|w: usize| w as nat), k as int),
{
    let ghost wn = ws@.map_values(|w: usize| w as nat);
    let ghost cv = cell_views(cells@);
    let ghost start = out@;
    out.push('|');
    let mut i: usize = 0;
    while i < k
        invariant
            i <= k <= ws@.len(),
            wn == ws@.map_values(|w: usize| w as nat),
            cv == cell_views(cells@),
            out@ == start + seq!['|'] + cells_body(cv, wn, i as int),
        decreases k - i,
    {
        out.push(' ');
        if i < cells.len() {
            push_padded(out, cells[i].as_str(), ws[i]);
            proof {
                assert(cell_at(cv, i as int) == cells@[i as int]@);
            }
        } else {
            push_padded(out, "", ws[i]);
            proof {
                reveal_strlit("");
                assert(cell_at(cv, i as int) =~= ""@);
            }
        }
        push_str(out, " |");
        proof {
            assert(out@ =~= start + seq!['|'] + cells_body(cv, wn, i + 1));
        }
        i = i + 1;
    }
    out.push('\n');
    proof {
        assert(out@ =~= start + table_line(cv, wn, k as int));
    }
}

pub proof fn lemma_trim_separator(ws: Seq<nat>)
    ensures
        trim_end(separator(ws)) == sep_body(ws, ws.len() as int) + seq!['+'],
{
    let s = separator(ws);
    reveal_strlit("+\n");
    assert(s.last() == '\n');
    assert(s.drop_last() =~= sep_body(ws, ws.len() as int) + seq!['+']);
    assert(s.drop_last().last() == '+');
    assert(trim_end(s.drop_last()) == s.drop_last());
}

/// The width of the first `k` columns of widths `ws`, each drawn as its
/// width plus two spaces and one border.
pub open spec fn cols_width(ws: Seq<nat>, k: int) -> int
    decreases k,
{
    if k <= 0 || k > ws.len() {
        0
    } else {
        cols_width(ws, k - 1) + ws[k - 1] + 3
    }
}

proof fn lemma_sep_body_len(ws: Seq<nat>, k: int)
    requires
        0 <= k <= ws.len(),
    ensures
        sep_body(ws, k).len() == cols_width(ws, k),
    decreases k,
{
    if k > 0 {
        lemma_sep_body_len(ws, k - 1);
    }
}

proof fn lemma_cells_body_len(cells: Seq<Seq<char>>, ws: Seq<nat>, k: int)
    requires
        0 <= k <= ws.len(),
        forall|i: int| 0 <= i < k ==> #[trigger] cell_at(cells, i).len() <= ws[i],
    ensures
        cells_body(cells, ws, k).len() == cols_width(ws, k),
    decreases k,
{
    if k > 0 {
        lemma_cells_body_len(cells, ws, k - 1);
        reveal_strlit(" |");
        assert(cell_at(cells, k - 1).len() <= ws[k - 1]);
    }
}

proof fn lemma_rows_width_bounds(rows: Seq<Seq<Seq<char>>>, i: int, w: nat)
    ensures
        rows_width(rows, i, w) >= w,
        forall|r: int|
            0 <= r < rows.len() && 0 <= i < rows[r].len() ==> rows_width(rows, i, w) >= byte_len(#[trigger] rows[r][i]),
    decreases rows.len(),
{
    if rows.len() > 0 {
        lemma_rows_width_bounds(rows.drop_last(), i, w);
        assert forall|r: int| 0 <= r < rows.len() && 0 <= i < rows[r].len() implies rows_width(rows, i, w) >= byte_len(
            #[trigger] rows[r][i],
        ) by {
            if r < rows.len() - 1 {
                assert(rows.drop_last()[r] == rows[r]);
            }
        }
    }
}

/// Every header and cell is ASCII.
pub open spec fn ascii_cells(headers: Seq<Seq<char>>, rows: Seq<Seq<Seq<char>>>) -> bool {
    &&& forall|i: int| 0 <= i < headers.len() ==> vstd::utf8::is_ascii_chars(#[trigger] headers[i])
    &&& forall|r: int, i: int| 0 <= r < rows.len() && 0 <= i < rows[r].len() ==> vstd::utf8::is_ascii_chars(#[trigger] rows[r][i])
}

/// With ASCII headers and cells, every line of the table has the same
/// width: the separator, the header line and each row line are all
/// `1 + sum(w + 3)` characters over the column widths `w`, and then a line
/// break.
pub proof fn lemma_table_lines_same_width(headers: Seq<Seq<char>>, rows: Seq<Seq<Seq<char>>>)
    requires
        ascii_cells(headers, rows),
    ensures
        ({
            let ws = col_widths(headers, rows);
            let n = headers.len() as int;
            &&& separator(ws).len() == cols_width(ws, n) + 2
            &&& table_line(headers, ws, n).len() == cols_width(ws, n) + 2
            &&& forall|r: int| 0 <= r < rows.len() ==> #[trigger] table_line(rows[r], ws, n).len() == cols_width(ws, n) + 2
        }),
{
    let ws = col_widths(headers, rows);
    let n = headers.len() as int;
    reveal_strlit("+\n");
    lemma_sep_body_len(ws, n);
    assert forall|i: int| 0 <= i < n implies #[trigger] cell_at(headers, i).len() <= ws[i] by {
        vstd::utf8::is_ascii_chars_encode_utf8(headers[i]);
        lemma_rows_width_bounds(rows, i, byte_len(headers[i]));
    }
    lemma_cells_body_len(headers, ws, n);
    assert forall|r: int| 0 <= r < rows.len() implies #[trigger] table_line(rows[r], ws, n).len() == cols_width(ws, n) + 2 by {
        assert forall|i: int| 0 <= i < n implies #[trigger] cell_at(rows[r], i).len() <= ws[i] by {
            lemma_rows_width_bounds(rows, i, byte_len(headers[i]));
            if i < rows[r].len() {
                vstd::utf8::is_ascii_chars_encode_utf8(rows[r][i]);
            }
        }
        lemma_cells_body_len(rows[r], ws, n);
    }
}

/// A cell's text with each line feed written as `\n` and each carriage
/// return as `\r`, so that a table cell stays on one line.
pub open spec fn escaped_cell(s: Seq<char>) -> Seq<char>
    decreases s.len(),
{
    if s.len() == 0 {
        seq![]
    } else {
        let c = s.last();
        escaped_cell(s.drop_last()) + if c == '\n' {
            seq!['\\', 'n']
        } else if c == '\r' {
            seq!['\\', 'r']
        } else {
            seq![c]
        }
    }
}

/// Escapes the line breaks of a cell (`\n` and `\r` become the two
/// characters of their escapes).
pub fn escape_cell(s: &str) -> (r: String)
    ensures
        r@ == escaped_cell(s@),
{
    let cs = to_chars(s);
    let mut out: Vec<char> = Vec::new();
    let mut i: usize = 0;
    while i < cs.len()
        invariant
            i <= cs@.len(),
            out@ == escaped_cell(cs@.take(i as int)),
        decreases cs.len() - i,
    {
        let c = cs[i];
        proof {
            assert(cs@.take(i + 1).drop_last() =~= cs@.take(i as int));
        }
        if c == '\n' {
            out.push('\\');
            out.push('n');
        } else if c == '\r' {
            out.push('\\');
            out.push('r');
        } else {
            out.push(c);
        }
        i = i + 1;
    }
    proof {
        assert(cs@.take(cs@.len() as int) =~= cs@);
    }
    string_from_chars(out.as_slice())
}

/// Renders headers and rows as an ASCII table. Columns are as wide as
/// their widest header or cell (counted in bytes); cells past the last
/// header are dropped and missing cells are blank.
pub fn format_ascii_table(headers: &[String], rows: &[Vec<String>]) -> (r: String)
    ensures
        r@ == ascii_table(cell_views(headers@), row_views(rows@)),
{
    if headers.len() == 0 {
        return string_from_chars(&[]);
    }
    let ws = widths_exec(headers, rows);
    let ghost wn = ws@.map_values(|w: usize| w as nat);
    proof {
        lemma_ws_view(ws@, col_widths(cell_views(headers@), row_views(rows@)));
    }
    let sep = separator_exec(&ws);
    let mut out = copy_chars(sep.as_slice());
    push_line(&mut out, headers, &ws, ws.len());
    push_all(&mut out, sep.as_slice());
    let ghost prefix = out@;
    let mut k: usize = 0;
    proof {
        assert(row_views(rows@).take(0) =~= Seq::<Seq<Seq<char>>>::empty());
        assert(out@ =~= prefix + rows_text(row_views(rows@).take(0), wn));
    }
    while k < rows.len()
        invariant
            k <= rows@.len(),
            wn == ws@.map_values(|w: usize| w as nat),
            ws@.len() == headers@.len(),
            out@ == prefix + rows_text(row_views(rows@).take(k as int), wn),
        decreases rows.len() - k,
    {
        push_line(&mut out, rows[k].as_slice(), &ws, ws.len());
        proof {
            let pre = row_views(rows@).take(k + 1);
            assert(pre.drop_last() =~= row_views(rows@).take(k as int));
            assert(pre.last() == cell_views(rows@[k as int]@));
            assert(out@ =~= prefix + rows_text(pre, wn));
        }
        k = k + 1;
    }
    proof {
        assert(row_views(rows@).take(rows@.len() as int) =~= row_views(rows@));
        lemma_trim_separator(wn);
    }
    let mut closing = copy_chars(sep.as_slice());
    closing.pop();
    push_all(&mut out, closing.as_slice());
    proof {
        reveal_strlit("+\n");
        assert(sep@ =~= sep_body(wn, wn.len() as int) + seq!['+', '\n']);
        assert(closing@ =~= sep_body(wn, wn.len() as int) + seq!['+']);
    }
    string_from_chars(out.as_slice())
}

// ───────────────────────── output formats ─────────────────────────

/// How a query's result is printed.
#[derive(Debug, Clone, Copy, PartialEq, Eq)]
pub enum QueryFormat {
    Json,
    Markdown,
    Table,
}

/// The format a call-graph or dependencies command accepts for `s`, or
/// the error message for an unsupported one.
pub open spec fn parse_format(s: Seq<char>) -> Result<QueryFormat, Seq<char>> {
    if s == "table"@ {
        Ok(QueryFormat::Table)
    } else if s == "markdown"@ {
        Ok(QueryFormat::Markdown)
    } else if s == "json"@ {
        Ok(QueryFormat::Json)
    } else {
        Err("Invalid format '"@ + s + "'. Supported: table, markdown, json"@)
    }
}

/// The format the context command accepts for `s`, or the error message.
pub open spec fn parse_context_format(s: Seq<char>) -> Result<QueryFormat, Seq<char>> {
    if s == "markdown"@ {
        Ok(QueryFormat::Markdown)
    } else if s == "json"@ {
        Ok(QueryFormat::Json)
    } else {
        Err("Invalid output format '"@ + s + "'. Supported formats are: markdown, json"@)
    }
}

/// The view of a parse result.
pub open spec fn result_view(r: Result<QueryFormat, String>) -> Result<QueryFormat, Seq<char>> {
    match r {
        Ok(f) => Ok(f),
        Err(e) => Err(e@),
    }
}

fn quoted_message(before: &str, s: &str, after: &str) -> (r: String)
    ensures
        r@ == before@ + s@ + after@,
{
    let mut v = to_chars(before);
    push_str(&mut v, s);
    push_str(&mut v, after);
    string_from_chars(v.as_slice())
}

impl QueryFormat {
    /// Parses the format of the call-graph and dependencies commands:
    /// `table`, `markdown` or `json`.
    pub fn parse(s: &str) -> (r: Result<Self, String>)
        ensures
            result_view(r) == parse_format(s@),
    {
        if str_eq(s, "table") {
            Ok(QueryFormat::Table)
        } else if str_eq(s, "markdown") {
            Ok(QueryFormat::Markdown)
        } else if str_eq(s, "json") {
            Ok(QueryFormat::Json)
        } else {
            Err(quoted_message("Invalid format '", s, "'. Supported: table, markdown, json"))
        }
    }

    /// Parses the format of the context command: `markdown` or `json`.
    pub fn parse_for_context(s: &str) -> (r: Result<Self, String>)
        ensures
            result_view(r) == parse_context_format(s@),
    {
        if str_eq(s, "markdown") {
            Ok(QueryFormat::Markdown)
        } else if str_eq(s, "json") {
            Ok(QueryFormat::Json)
        } else {
            Err(quoted_message("Invalid output format '", s, "'. Supported formats are: markdown, json"))
        }
    }
}

/// The code-fence language for a file path.
pub open spec fn fence_language(path: Seq<char>) -> Seq<char> {
    if ends_with(path, ".rs"@) {
        "rust"@
    } else if ends_with(path, ".js"@) || ends_with(path, ".jsx"@) {
        "javascript"@
    } else if ends_with(path, ".ts"@) || ends_with(path, ".tsx"@) {
        "typescript"@
    } else {
        "text"@
    }
}

/// The code-fence language for a file path, by its ending.
pub fn syntax_for_path(path: &str) -> (r: &'static str)
    ensures
        r@ == fence_language(path@),
{
    let p = to_chars(path);
    let rs = to_chars(".rs");
    let js = to_chars(".js");
    let jsx = to_chars(".jsx");
    let ts = to_chars(".ts");
    let tsx = to_chars(".tsx");
    if ends_with_chars(p.as_slice(), rs.as_slice()) {
        "rust"
    } else if ends_with_chars(p.as_slice(), js.as_slice()) || ends_with_chars(p.as_slice(), jsx.as_slice()) {
        "javascript"
    } else if ends_with_chars(p.as_slice(), ts.as_slice()) || ends_with_chars(p.as_slice(), tsx.as_slice()) {
        "typescript"
    } else {
        "text"
    }
}

} // verus!
