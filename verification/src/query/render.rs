//! The Markdown and table renderings of query results. JSON output is the
//! serialization of the same values and is produced by the caller.
use crate::query::format::{
    ascii_table, cell_views, fence_language, format_ascii_table, row_views, syntax_for_path, QueryFormat,
};
use crate::text::{decimal, decimal_chars, owned, push_all, push_str, string_from_chars, to_chars};
use crate::types::query::{CalleeInfo, CallerInfo, ContainedSymbolInfo, ContextPayload, FileInfo};
use vstd::prelude::*;

verus! {

/// `* `id` (kind: k, line: n)` and a line break.
pub open spec fn edge_line(id: Seq<char>, kind: Seq<char>, line: nat) -> Seq<char> {
    "* `"@ + id + "` (kind: "@ + kind + ", line: "@ + decimal(line) + ")\n"@
}

/// One `edge_line` per caller, in order.
pub open spec fn caller_lines(es: Seq<CallerInfo>) -> Seq<char>
    decreases es.len(),
{
    if es.len() == 0 {
        seq![]
    } else {
        caller_lines(es.drop_last()) + edge_line(es.last().id@, es.last().kind@, es.last().call_site_line as nat)
    }
}

/// One `edge_line` per callee, in order.
pub open spec fn callee_lines(es: Seq<CalleeInfo>) -> Seq<char>
    decreases es.len(),
{
    if es.len() == 0 {
        seq![]
    } else {
        callee_lines(es.drop_last()) + edge_line(es.last().id@, es.last().kind@, es.last().call_site_line as nat)
    }
}

/// `* `x`` and a line break, for each item, in order.
pub open spec fn bullet_lines(xs: Seq<String>) -> Seq<char>
    decreases xs.len(),
{
    if xs.len() == 0 {
        seq![]
    } else {
        bullet_lines(xs.drop_last()) + "* `"@ + xs.last()@ + "`\n"@
    }
}

/// `* `id` (kind: k)` and a line break, for each contained symbol.
pub open spec fn contained_lines(xs: Seq<ContainedSymbolInfo>) -> Seq<char>
    decreases xs.len(),
{
    if xs.len() == 0 {
        seq![]
    } else {
        contained_lines(xs.drop_last()) + "* `"@ + xs.last().id@ + "` (kind: "@ + xs.last().kind@ + ")\n"@
    }
}

/// The Markdown listing of a call-graph result under `heading`.
pub open spec fn caller_callee_md(es: Seq<CallerInfo>, heading: Seq<char>) -> Seq<char> {
    "# "@ + heading + "\n"@ + if es.len() == 0 {
        "\nNo results found.\n"@
    } else {
        caller_lines(es)
    }
}

/// The table rows of a call-graph result.
pub open spec fn caller_rows(es: Seq<CallerInfo>) -> Seq<Seq<Seq<char>>> {
    es.map_values(|e: CallerInfo| seq![e.id@, e.kind@, e.signature@, decimal(e.call_site_line as nat)])
}

/// The table headers of a call-graph result.
pub open spec fn caller_headers() -> Seq<Seq<char>> {
    seq!["Symbol ID"@, "Kind"@, "Signature"@, "Line"@]
}

/// The Markdown listing of a file's dependencies.
pub open spec fn dependencies_md(path: Seq<char>, imports: Seq<String>, imported_by: Seq<String>) -> Seq<char> {
    "# Dependencies of `"@ + path + "`\n"@ + "\n## Imports\n"@ + (if imports.len() == 0 {
        "No imports.\n"@
    } else {
        bullet_lines(imports)
    }) + "\n## Imported By\n"@ + if imported_by.len() == 0 {
        "No files import this file.\n"@
    } else {
        bullet_lines(imported_by)
    }
}

/// The table rows of a file's dependencies: each import, then each
/// importer, with its direction.
pub open spec fn dependency_rows(imports: Seq<String>, imported_by: Seq<String>) -> Seq<Seq<Seq<char>>> {
    imports.map_values(|p: String| seq![p@, "Imports"@]) + imported_by.map_values(
        |p: String| seq![p@, "Imported By"@],
    )
}

/// A fenced block of `code` in the language of `path`, and a line break.
pub open spec fn fenced(path: Seq<char>, code: Seq<char>) -> Seq<char> {
    "```"@ + fence_language(path) + "\n"@ + code + "\n```\n"@
}

/// The heading part of a context rendering: the symbol with its signature
/// and, when a file was read, its source lines; or the file with its source.
pub open spec fn context_head(p: ContextPayload, file: Option<Seq<char>>) -> Seq<char> {
    match p.symbol {
        Some(sym) => "# Context: "@ + sym.id@ + " ("@ + sym.kind@ + ")\n"@ + "\n## Signature\n`"@
            + sym.signature@ + "`\n"@ + match file {
            Some(f) => "\n## Source Code ("@ + f + ":"@ + decimal(sym.start_line as nat) + "-"@ + decimal(
                sym.end_line as nat,
            ) + ")\n"@ + fenced(f, p.source_code@),
            None => seq![],
        },
        None => match p.file {
            Some(fl) => "# Context: "@ + fl.path@ + " ("@ + fl.language@ + ")\n"@ + "\n## Source Code ("@
                + fl.path@ + ")\n"@ + fenced(fl.path@, p.source_code@),
            None => seq![],
        },
    }
}

/// The call-graph part of a context rendering.
pub open spec fn context_calls(p: ContextPayload) -> Seq<char> {
    if p.callers@.len() > 0 || p.callees@.len() > 0 {
        "\n## Call Graph\n"@ + (if p.callers@.len() > 0 {
            "### Callers\n"@ + caller_lines(p.callers@)
        } else {
            seq![]
        }) + if p.callees@.len() > 0 {
            "### Callees\n"@ + callee_lines(p.callees@)
        } else {
            seq![]
        }
    } else {
        seq![]
    }
}

/// The dependencies part of a context rendering.
pub open spec fn context_deps(p: ContextPayload, file: Option<Seq<char>>) -> Seq<char> {
    if p.imports@.len() > 0 || p.imported_by@.len() > 0 {
        "\n## File Dependencies ("@ + (match file {
            Some(f) => f,
            None => seq![],
        }) + ")\n"@ + (if p.imports@.len() > 0 {
            "### Imports\n"@ + bullet_lines(p.imports@)
        } else {
            seq![]
        }) + if p.imported_by@.len() > 0 {
            "### Imported By\n"@ + bullet_lines(p.imported_by@)
        } else {
            seq![]
        }
    } else {
        seq![]
    }
}

/// The contained-symbols part of a context rendering.
pub open spec fn context_contained(p: ContextPayload) -> Seq<char> {
    if p.contained_symbols@.len() > 0 {
        "\n## Contained Symbols\n"@ + contained_lines(p.contained_symbols@)
    } else {
        seq![]
    }
}

/// The Markdown rendering of a context payload; `file` is the file that was
/// read for it.
pub open spec fn context_md(p: ContextPayload, file: Option<Seq<char>>) -> Seq<char> {
    context_head(p, file) + context_calls(p) + context_deps(p, file) + context_contained(p)
}

fn push_edge_line(out: &mut Vec<char>, id: &str, kind: &str, line: usize)
    ensures
        final(out)@ == old(out)@ + edge_line(id@, kind@, line as nat),
{
    push_str(out, "* `");
    push_str(out, id);
    push_str(out, "` (kind: ");
    push_str(out, kind);
    push_str(out, ", line: ");
    push_all(out, decimal_chars(line).as_slice());
    push_str(out, ")\n");
    proof {
        assert(final(out)@ =~= old(out)@ + edge_line(id@, kind@, line as nat));
    }
}

fn push_caller_lines(out: &mut Vec<char>, es: &[CallerInfo])
    ensures
        final(out)@ == old(out)@ + caller_lines(es@),
{
    let ghost start = out@;
    let mut i: usize = 0;
    proof {
        assert(es@.take(0) =~= Seq::<CallerInfo>::empty());
        assert(out@ =~= start + caller_lines(es@.take(0)));
    }
    while i < es.len()
        invariant
            i <= es@.len(),
            out@ == start + caller_lines(es@.take(i as int)),
        decreases es.len() - i,
    {
        push_edge_line(out, es[i].id.as_str(), es[i].kind.as_str(), es[i].call_site_line);
        proof {
            assert(es@.take(i + 1).drop_last() =~= es@.take(i as int));
        }
        i = i + 1;
    }
    proof {
        assert(es@.take(es@.len() as int) =~= es@);
    }
}

fn push_callee_lines(out: &mut Vec<char>, es: &[CalleeInfo])
    ensures
        final(out)@ == old(out)@ + callee_lines(es@),
{
    let ghost start = out@;
    let mut i: usize = 0;
    proof {
        assert(es@.take(0) =~= Seq::<CalleeInfo>::empty());
        assert(out@ =~= start + callee_lines(es@.take(0)));
    }
    while i < es.len()
        invariant
            i <= es@.len(),
            out@ == start + callee_lines(es@.take(i as int)),
        decreases es.len() - i,
    {
        push_edge_line(out, es[i].id.as_str(), es[i].kind.as_str(), es[i].call_site_line);
        proof {
            assert(es@.take(i + 1).drop_last() =~= es@.take(i as int));
        }
        i = i + 1;
    }
    proof {
        assert(es@.take(es@.len() as int) =~= es@);
    }
}

fn push_bullet_lines(out: &mut Vec<char>, xs: &[String])
    ensures
        final(out)@ == old(out)@ + bullet_lines(xs@),
{
    let ghost start = out@;
    let mut i: usize = 0;
    proof {
        assert(xs@.take(0) =~= Seq::<String>::empty());
        assert(out@ =~= start + bullet_lines(xs@.take(0)));
    }
    while i < xs.len()
        invariant
            i <= xs@.len(),
            out@ == start + bullet_lines(xs@.take(i as int)),
        decreases xs.len() - i,
    {
        push_str(out, "* `");
        push_str(out, xs[i].as_str());
        push_str(out, "`\n");
        proof {
            assert(xs@.take(i + 1).drop_last() =~= xs@.take(i as int));
            assert(out@ =~= start + bullet_lines(xs@.take(i + 1)));
        }
        i = i + 1;
    }
    proof {
        assert(xs@.take(xs@.len() as int) =~= xs@);
    }
}

fn push_contained_lines(out: &mut Vec<char>, xs: &[ContainedSymbolInfo])
    ensures
        final(out)@ == old(out)@ + contained_lines(xs@),
{
    let ghost start = out@;
    let mut i: usize = 0;
    proof {
        assert(xs@.take(0) =~= Seq::<ContainedSymbolInfo>::empty());
        assert(out@ =~= start + contained_lines(xs@.take(0)));
    }
    while i < xs.len()
        invariant
            i <= xs@.len(),
            out@ == start + contained_lines(xs@.take(i as int)),
        decreases xs.len() - i,
    {
        push_str(out, "* `");
        push_str(out, xs[i].id.as_str());
        push_str(out, "` (kind: ");
        push_str(out, xs[i].kind.as_str());
        push_str(out, ")\n");
        proof {
            assert(xs@.take(i + 1).drop_last() =~= xs@.take(i as int));
            assert(out@ =~= start + contained_lines(xs@.take(i + 1)));
        }
        i = i + 1;
    }
    proof {
        assert(xs@.take(xs@.len() as int) =~= xs@);
    }
}

/// The Markdown listing of a call-graph result under `heading`.
pub fn caller_callee_markdown(edges: &[CallerInfo], heading: &str) -> (r: String)
    ensures
        r@ == caller_callee_md(edges@, heading@),
{
    let mut out = to_chars("# ");
    push_str(&mut out, heading);
    push_str(&mut out, "\n");
    if edges.len() == 0 {
        push_str(&mut out, "\nNo results found.\n");
    } else {
        push_caller_lines(&mut out, edges);
    }
    proof {
        assert(out@ =~= caller_callee_md(edges@, heading@));
    }
    string_from_chars(out.as_slice())
}

/// The table of a call-graph result, and a line break.
pub fn caller_callee_table(edges: &[CallerInfo]) -> (r: String)
    ensures
        r@ == ascii_table(caller_headers(), caller_rows(edges@)) + "\n"@,
{
    let headers = vec![owned("Symbol ID"), owned("Kind"), owned("Signature"), owned("Line")];
    proof {
        assert(cell_views(headers@) =~= caller_headers());
    }
    let mut rows: Vec<Vec<String>> = Vec::new();
    let mut i: usize = 0;
    while i < edges.len()
        invariant
            i <= edges@.len(),
            row_views(rows@) == caller_rows(edges@.take(i as int)),
        decreases edges.len() - i,
    {
        let e = &edges[i];
        let row = vec![
            e.id.clone(),
            e.kind.clone(),
            e.signature.clone(),
            string_from_chars(decimal_chars(e.call_site_line).as_slice()),
        ];
        let ghost before = row_views(rows@);
        rows.push(row);
        proof {
            assert(row_views(rows@) =~= before.push(row_views(rows@).last()));
            assert(caller_rows(edges@.take(i + 1)) =~= caller_rows(edges@.take(i as int)).push(
                caller_rows(edges@.take(i + 1)).last(),
            ));
            assert(row_views(rows@).last() =~= caller_rows(edges@.take(i + 1)).last());
        }
        i = i + 1;
    }
    proof {
        assert(edges@.take(edges@.len() as int) =~= edges@);
    }
    let table = format_ascii_table(headers.as_slice(), rows.as_slice());
    let mut out = to_chars(table.as_str());
    push_str(&mut out, "\n");
    string_from_chars(out.as_slice())
}

/// The Markdown listing of a file's imports and importers.
pub fn dependencies_markdown(target: &FileInfo, imports: &[String], imported_by: &[String]) -> (r: String)
    ensures
        r@ == dependencies_md(target.path@, imports@, imported_by@),
{
    let mut out = to_chars("# Dependencies of `");
    push_str(&mut out, target.path.as_str());
    push_str(&mut out, "`\n");
    push_str(&mut out, "\n## Imports\n");
    if imports.len() == 0 {
        push_str(&mut out, "No imports.\n");
    } else {
        push_bullet_lines(&mut out, imports);
    }
    push_str(&mut out, "\n## Imported By\n");
    if imported_by.len() == 0 {
        push_str(&mut out, "No files import this file.\n");
    } else {
        push_bullet_lines(&mut out, imported_by);
    }
    proof {
        assert(out@ =~= dependencies_md(target.path@, imports@, imported_by@));
    }
    string_from_chars(out.as_slice())
}

/// The table of a file's imports and importers, and a line break.
pub fn dependencies_table(imports: &[String], imported_by: &[String]) -> (r: String)
    ensures
        r@ == ascii_table(seq!["File Path"@, "Direction"@], dependency_rows(imports@, imported_by@)) + "\n"@,
{
    let headers = vec![owned("File Path"), owned("Direction")];
    proof {
        assert(cell_views(headers@) =~= seq!["File Path"@, "Direction"@]);
    }
    let ghost want = dependency_rows(imports@, imported_by@);
    let mut rows: Vec<Vec<String>> = Vec::new();
    let mut i: usize = 0;
    while i < imports.len()
        invariant
            i <= imports@.len(),
            want == dependency_rows(imports@, imported_by@),
            row_views(rows@) == want.take(i as int),
        decreases imports.len() - i,
    {
        let ghost before = row_views(rows@);
        rows.push(vec![imports[i].clone(), owned("Imports")]);
        proof {
            assert(row_views(rows@) =~= before.push(row_views(rows@).last()));
            assert(row_views(rows@).last() =~= want[i as int]);
            assert(want.take(i + 1) =~= want.take(i as int).push(want[i as int]));
        }
        i = i + 1;
    }
    let mut j: usize = 0;
    while j < imported_by.len()
        invariant
            j <= imported_by@.len(),
            want == dependency_rows(imports@, imported_by@),
            row_views(rows@) == want.take(imports@.len() + j),
        decreases imported_by.len() - j,
    {
        let ghost before = row_views(rows@);
        rows.push(vec![imported_by[j].clone(), owned("Imported By")]);
        proof {
            assert(row_views(rows@) =~= before.push(row_views(rows@).last()));
            assert(row_views(rows@).last() =~= want[imports@.len() + j]);
            assert(want.take(imports@.len() + j + 1) =~= want.take(imports@.len() + j).push(want[imports@.len() + j]));
        }
        j = j + 1;
    }
    proof {
        assert(want.take((imports@.len() + imported_by@.len()) as int) =~= want);
    }
    let table = format_ascii_table(headers.as_slice(), rows.as_slice());
    let mut out = to_chars(table.as_str());
    push_str(&mut out, "\n");
    string_from_chars(out.as_slice())
}

fn push_fenced(out: &mut Vec<char>, path: &str, code: &str)
    ensures
        final(out)@ == old(out)@ + fenced(path@, code@),
{
    push_str(out, "```");
    push_str(out, syntax_for_path(path));
    push_str(out, "\n");
    push_str(out, code);
    push_str(out, "\n```\n");
    proof {
        assert(final(out)@ =~= old(out)@ + fenced(path@, code@));
    }
}

fn push_context_head(out: &mut Vec<char>, p: &ContextPayload, file: Option<&str>)
    ensures
        final(out)@ == old(out)@ + context_head(*p, match file {
            Some(f) => Some(f@),
            None => None,
        }),
{
    let ghost start = out@;
    let ghost fv = match file {
        Some(f) => Some(f@),
        None => None::<Seq<char>>,
    };
    match &p.symbol {
        Some(sym) => {
            push_str(out, "# Context: ");
            push_str(out, sym.id.as_str());
            push_str(out, " (");
            push_str(out, sym.kind.as_str());
            push_str(out, ")\n");
            push_str(out, "\n## Signature\n`");
            push_str(out, sym.signature.as_str());
            push_str(out, "`\n");
            let ghost mid = out@;
            match file {
                Some(f) => {
                    push_str(out, "\n## Source Code (");
                    push_str(out, f);
                    push_str(out, ":");
                    push_all(out, decimal_chars(sym.start_line).as_slice());
                    push_str(out, "-");
                    push_all(out, decimal_chars(sym.end_line).as_slice());
                    push_str(out, ")\n");
                    push_fenced(out, f, p.source_code.as_str());
                },
                None => {},
            }
            proof {
                assert(out@ =~= start + context_head(*p, fv));
            }
        },
        None => match &p.file {
            Some(fl) => {
                push_str(out, "# Context: ");
                push_str(out, fl.path.as_str());
                push_str(out, " (");
                push_str(out, fl.language.as_str());
                push_str(out, ")\n");
                push_str(out, "\n## Source Code (");
                push_str(out, fl.path.as_str());
                push_str(out, ")\n");
                push_fenced(out, fl.path.as_str(), p.source_code.as_str());
                proof {
                    assert(out@ =~= start + context_head(*p, fv));
                }
            },
            None => {
                proof {
                    assert(out@ =~= start + context_head(*p, fv));
                }
            },
        },
    }
}

fn push_context_calls(out: &mut Vec<char>, p: &ContextPayload)
    ensures
        final(out)@ == old(out)@ + context_calls(*p),
{
    let ghost start = out@;
    if p.callers.len() > 0 || p.callees.len() > 0 {
        push_str(out, "\n## Call Graph\n");
        let ghost a = out@;
        if p.callers.len() > 0 {
            push_str(out, "### Callers\n");
            push_caller_lines(out, p.callers.as_slice());
        }
        let ghost b = out@;
        proof {
            assert(b =~= a + (if p.callers@.len() > 0 { "### Callers\n"@ + caller_lines(p.callers@) } else { seq![] }));
        }
        if p.callees.len() > 0 {
            push_str(out, "### Callees\n");
            push_callee_lines(out, p.callees.as_slice());
        }
        proof {
            assert(out@ =~= b + (if p.callees@.len() > 0 { "### Callees\n"@ + callee_lines(p.callees@) } else { seq![] }));
        }
    }
    proof {
        assert(out@ =~= start + context_calls(*p));
    }
}

fn push_context_deps(out: &mut Vec<char>, p: &ContextPayload, file: Option<&str>)
    ensures
        final(out)@ == old(out)@ + context_deps(*p, match file {
            Some(f) => Some(f@),
            None => None,
        }),
{
    let ghost start = out@;
    let ghost fv = match file {
        Some(f) => Some(f@),
        None => None::<Seq<char>>,
    };
    if p.imports.len() > 0 || p.imported_by.len() > 0 {
        push_str(out, "\n## File Dependencies (");
        match file {
            Some(f) => push_str(out, f),
            None => {},
        }
        push_str(out, ")\n");
        let ghost a = out@;
        if p.imports.len() > 0 {
            push_str(out, "### Imports\n");
            push_bullet_lines(out, p.imports.as_slice());
        }
        let ghost b = out@;
        proof {
            assert(b =~= a + (if p.imports@.len() > 0 { "### Imports\n"@ + bullet_lines(p.imports@) } else { seq![] }));
        }
        if p.imported_by.len() > 0 {
            push_str(out, "### Imported By\n");
            push_bullet_lines(out, p.imported_by.as_slice());
        }
        proof {
            assert(out@ =~= b + (if p.imported_by@.len() > 0 { "### Imported By\n"@ + bullet_lines(p.imported_by@) } else { seq![] }));
        }
    }
    proof {
        assert(out@ =~= start + context_deps(*p, fv));
    }
}

/// The Markdown rendering of a context payload; `file` is the file that was
/// read for it.
pub fn context_markdown(p: &ContextPayload, file: Option<&str>) -> (r: String)
    ensures
        r@ == context_md(*p, match file {
            Some(f) => Some(f@),
            None => None,
        }),
{
    let mut out: Vec<char> = Vec::new();
    push_context_head(&mut out, p, file);
    push_context_calls(&mut out, p);
    push_context_deps(&mut out, p, file);
    let ghost h3 = out@;
    if p.contained_symbols.len() > 0 {
        push_str(&mut out, "\n## Contained Symbols\n");
        push_contained_lines(&mut out, p.contained_symbols.as_slice());
    }
    proof {
        assert(out@ =~= h3 + context_contained(*p));
        let fv = match file {
            Some(f) => Some(f@),
            None => None::<Seq<char>>,
        };
        assert(out@ =~= context_md(*p, fv));
    }
    string_from_chars(out.as_slice())
}

impl QueryFormat {
    /// The text of a call-graph result in this format; `None` for JSON,
    /// which is the serialization of the target and the edges.
    pub fn render_caller_callee_text(&self, edges: &[CallerInfo], heading: &str) -> (r: Option<String>)
        ensures
            match *self {
                QueryFormat::Json => r is None,
                QueryFormat::Markdown => r matches Some(t) && t@ == caller_callee_md(edges@, heading@) + "\n"@,
                QueryFormat::Table => r matches Some(t) && t@ == ascii_table(caller_headers(), caller_rows(edges@)) + "\n"@,
            },
    {
        match self {
            QueryFormat::Json => None,
            QueryFormat::Markdown => {
                let mut out = to_chars(caller_callee_markdown(edges, heading).as_str());
                push_str(&mut out, "\n");
                Some(string_from_chars(out.as_slice()))
            },
            QueryFormat::Table => Some(caller_callee_table(edges)),
        }
    }

    /// The text of a dependencies result in this format; `None` for JSON,
    /// which is the serialization of the target and both lists.
    pub fn render_dependencies_text(&self, target: &FileInfo, imports: &[String], imported_by: &[String]) -> (r: Option<String>)
        ensures
            match *self {
                QueryFormat::Json => r is None,
                QueryFormat::Markdown => r matches Some(t) && t@ == dependencies_md(target.path@, imports@, imported_by@),
                QueryFormat::Table => r matches Some(t) && t@ == ascii_table(
                    seq!["File Path"@, "Direction"@],
                    dependency_rows(imports@, imported_by@),
                ) + "\n"@,
            },
    {
        match self {
            QueryFormat::Json => None,
            QueryFormat::Markdown => Some(dependencies_markdown(target, imports, imported_by)),
            QueryFormat::Table => Some(dependencies_table(imports, imported_by)),
        }
    }

    /// The text of a context result in this format; `None` for JSON, which
    /// is the serialization of the payload. A context has no tabular form:
    /// the table format falls back to the Markdown text.
    pub fn render_context_text(&self, p: &ContextPayload, file: Option<&str>) -> (r: Option<String>)
        ensures
            match *self {
                QueryFormat::Json => r is None,
                _ => r matches Some(t) && t@ == context_md(*p, match file {
                    Some(f) => Some(f@),
                    None => None,
                }),
            },
    {
        match self {
            QueryFormat::Json => None,
            QueryFormat::Markdown | QueryFormat::Table => Some(context_markdown(p, file)),
        }
    }
}

impl CalleeInfo {
    /// The same call edge as a `CallerInfo`.
    pub fn to_caller(&self) -> (r: CallerInfo)
        ensures
            r.id@ == self.id@,
            r.name@ == self.name@,
            r.kind@ == self.kind@,
            r.signature@ == self.signature@,
            r.call_site_line == self.call_site_line,
    {
        CallerInfo {
            id: self.id.clone(),
            name: self.name.clone(),
            kind: self.kind.clone(),
            signature: self.signature.clone(),
            call_site_line: self.call_site_line,
        }
    }
}

} // verus!
