//! The decisions of the query commands: which symbol or file a target
//! resolves to, what is reported when it resolves to several, the headings
//! of a call-graph listing, and what a context query reads. The commands
//! fetch rows from the database and print; everything they decide is here.
use crate::file_utils::{slice_lines, slice_source_code};
use crate::query::candidates::{
    file_views, matching_files, matching_symbols, resolve_file_candidates, resolve_symbol_candidates,
    symbol_views,
};
use crate::text::{before_first, before_first_chars, owned, push_str, string_from_chars, to_chars};
use crate::types::query::{FileInfo, FileView, SymbolInfo, SymbolView};
use vstd::prelude::*;

verus! {

/// Which side of the CALLS relation a call-graph query lists.
#[derive(Debug, Clone, Copy, PartialEq, Eq)]
pub enum Direction {
    Callers,
    Callees,
}

/// The lines reported when a target matches several entries: a warning
/// naming the target, one line per match, and which one is used.
pub open spec fn multiple_warning(what: Seq<char>, target: Seq<char>, ids: Seq<Seq<char>>) -> Seq<Seq<char>> {
    seq!["Warning: Multiple matches found for "@ + what + " '"@ + target + "':"@] + ids.map_values(
        |id: Seq<char>| "  - "@ + id,
    ) + seq!["Showing details for the first match: "@ + ids[0]]
}

/// The message for a target that matches nothing.
pub open spec fn not_found(what: Seq<char>, target: Seq<char>) -> Seq<char> {
    what + " '"@ + target + "' not found"@
}

/// The views of a list of strings.
pub open spec fn texts(v: Seq<String>) -> Seq<Seq<char>> {
    v.map_values(|s: String| s@)
}

fn warning_lines(what: &str, target: &str, ids: &Vec<String>) -> (r: Vec<String>)
    requires
        ids@.len() > 0,
    ensures
        texts(r@) == multiple_warning(what@, target@, texts(ids@)),
{
    let ghost want = multiple_warning(what@, target@, texts(ids@));
    let mut out: Vec<String> = Vec::new();
    let mut head = to_chars("Warning: Multiple matches found for ");
    push_str(&mut head, what);
    push_str(&mut head, " '");
    push_str(&mut head, target);
    push_str(&mut head, "':");
    out.push(string_from_chars(head.as_slice()));
    proof {
        assert(texts(out@) =~= want.take(1));
    }
    let mut i: usize = 0;
    while i < ids.len()
        invariant
            i <= ids@.len(),
            want == multiple_warning(what@, target@, texts(ids@)),
            texts(out@) == want.take(i + 1),
        decreases ids.len() - i,
    {
        let mut line = to_chars("  - ");
        push_str(&mut line, ids[i].as_str());
        let ghost before = texts(out@);
        out.push(string_from_chars(line.as_slice()));
        proof {
            assert(texts(out@) =~= before.push(line@));
            assert(want[i + 1] == "  - "@ + ids@[i as int]@);
            assert(want.take(i + 2) =~= want.take(i + 1).push(want[i + 1]));
        }
        i = i + 1;
    }
    let mut last = to_chars("Showing details for the first match: ");
    push_str(&mut last, ids[0].as_str());
    let ghost before = texts(out@);
    out.push(string_from_chars(last.as_slice()));
    proof {
        assert(texts(out@) =~= before.push(last@));
        assert(want.len() == ids@.len() + 2);
        assert(want.take((ids@.len() + 2) as int) =~= want);
    }
    out
}

fn not_found_message(what: &str, target: &str) -> (r: String)
    ensures
        r@ == not_found(what@, target@),
{
    let mut m = to_chars(what);
    push_str(&mut m, " '");
    push_str(&mut m, target);
    push_str(&mut m, "' not found");
    string_from_chars(m.as_slice())
}

/// The symbol a query target resolves to among `all`: the first match
/// (fuzzy unless `exact`), with the warning lines to print when
/// `warn_multiple` and it matched several; `Symbol '<target>' not found`
/// when nothing matches.
pub fn resolve_one_symbol(target: &str, exact: bool, warn_multiple: bool, all: &[SymbolInfo]) -> (r: Result<(SymbolInfo, Vec<String>), String>)
    ensures
        ({
            let m = matching_symbols(symbol_views(all@), target@, !exact);
            match r {
                Ok((s, warnings)) => m.len() > 0 && s@ == m[0] && texts(warnings@) == if warn_multiple && m.len() > 1 {
                    multiple_warning("symbol"@, target@, m.map_values(|v: SymbolView| v.id))
                } else {
                    seq![]
                },
                Err(e) => m.len() == 0 && e@ == not_found("Symbol"@, target@),
            }
        }),
{
    let candidates = resolve_symbol_candidates(target, !exact, all);
    let ghost m = matching_symbols(symbol_views(all@), target@, !exact);
    if candidates.len() == 0 {
        return Err(not_found_message("Symbol", target));
    }
    proof {
        assert(symbol_views(candidates@)[0] == candidates@[0]@);
    }
    let mut warnings: Vec<String> = Vec::new();
    if warn_multiple && candidates.len() > 1 {
        let mut ids: Vec<String> = Vec::new();
        let mut i: usize = 0;
        while i < candidates.len()
            invariant
                i <= candidates@.len(),
                m == symbol_views(candidates@),
                texts(ids@) == m.map_values(|v: SymbolView| v.id).take(i as int),
            decreases candidates.len() - i,
        {
            let ghost before = texts(ids@);
            ids.push(candidates[i].id.clone());
            proof {
                assert(texts(ids@) =~= before.push(candidates@[i as int].id@));
                assert(m.map_values(|v: SymbolView| v.id).take(i + 1) =~= m.map_values(|v: SymbolView| v.id).take(
                    i as int,
                ).push(m[i as int].id));
            }
            i = i + 1;
        }
        proof {
            assert(m.map_values(|v: SymbolView| v.id).take(i as int) =~= m.map_values(|v: SymbolView| v.id));
        }
        warnings = warning_lines("symbol", target, &ids);
    }
    Ok((candidates[0].copy(), warnings))
}

/// The file a query target resolves to among `all`: the first match (fuzzy
/// unless `exact`), with the warning lines to print when `warn_multiple`
/// and it matched several; `File '<target>' not found` when nothing
/// matches.
pub fn resolve_one_file(target: &str, exact: bool, warn_multiple: bool, all: &[FileInfo]) -> (r: Result<(FileInfo, Vec<String>), String>)
    ensures
        ({
            let m = matching_files(file_views(all@), target@, !exact);
            match r {
                Ok((f, warnings)) => m.len() > 0 && f@ == m[0] && texts(warnings@) == if warn_multiple && m.len() > 1 {
                    multiple_warning("file"@, target@, m.map_values(|v: FileView| v.path))
                } else {
                    seq![]
                },
                Err(e) => m.len() == 0 && e@ == not_found("File"@, target@),
            }
        }),
{
    let candidates = resolve_file_candidates(target, !exact, all);
    let ghost m = matching_files(file_views(all@), target@, !exact);
    if candidates.len() == 0 {
        return Err(not_found_message("File", target));
    }
    proof {
        assert(file_views(candidates@)[0] == candidates@[0]@);
    }
    let mut warnings: Vec<String> = Vec::new();
    if warn_multiple && candidates.len() > 1 {
        let mut paths: Vec<String> = Vec::new();
        let mut i: usize = 0;
        while i < candidates.len()
            invariant
                i <= candidates@.len(),
                m == file_views(candidates@),
                texts(paths@) == m.map_values(|v: FileView| v.path).take(i as int),
            decreases candidates.len() - i,
        {
            let ghost before = texts(paths@);
            paths.push(candidates[i].path.clone());
            proof {
                assert(texts(paths@) =~= before.push(candidates@[i as int].path@));
                assert(m.map_values(|v: FileView| v.path).take(i + 1) =~= m.map_values(|v: FileView| v.path).take(
                    i as int,
                ).push(m[i as int].path));
            }
            i = i + 1;
        }
        proof {
            assert(m.map_values(|v: FileView| v.path).take(i as int) =~= m.map_values(|v: FileView| v.path));
        }
        warnings = warning_lines("file", target, &paths);
    }
    Ok((candidates[0].copy(), warnings))
}

/// The heading and the JSON key of a call-graph listing.
pub open spec fn call_graph_labels(direction: Direction, target_id: Seq<char>) -> (Seq<char>, Seq<char>) {
    match direction {
        Direction::Callers => ("Callers of `"@ + target_id + "`"@, "callers"@),
        Direction::Callees => ("Callees of `"@ + target_id + "`"@, "callees"@),
    }
}

/// The heading and the JSON key of a call-graph listing.
pub fn call_graph_heading(direction: Direction, target_id: &str) -> (r: (String, &'static str))
    ensures
        (r.0@, r.1@) == call_graph_labels(direction, target_id@),
{
    let (head, key) = match direction {
        Direction::Callers => ("Callers of `", "callers"),
        Direction::Callees => ("Callees of `", "callees"),
    };
    let mut h = to_chars(head);
    push_str(&mut h, target_id);
    push_str(&mut h, "`");
    (string_from_chars(h.as_slice()), key)
}

/// What a context query's options are refused for: both a symbol and a
/// file, or neither.
pub open spec fn context_options_error(has_symbol: bool, has_file: bool) -> Option<Seq<char>> {
    if has_symbol && has_file {
        Some("Options --symbol and --file are mutually exclusive"@)
    } else if !has_symbol && !has_file {
        Some("Either --symbol or --file must be specified"@)
    } else {
        None
    }
}

/// Checks that a context query names exactly one of a symbol and a file.
pub fn check_context_options(symbol: Option<&str>, file: Option<&str>) -> (r: Result<(), String>)
    ensures
        match context_options_error(symbol is Some, file is Some) {
            Some(m) => r matches Err(e) && e@ == m,
            None => r is Ok,
        },
{
    if symbol.is_some() && file.is_some() {
        return Err(owned("Options --symbol and --file are mutually exclusive"));
    }
    if symbol.is_none() && file.is_none() {
        return Err(owned("Either --symbol or --file must be specified"));
    }
    Ok(())
}

/// The file a symbol's context is read from: its id before the first `::`.
pub fn context_file_of(symbol_id: &str) -> (r: String)
    ensures
        r@ == before_first(symbol_id@, "::"@),
{
    let cs = to_chars(symbol_id);
    let sep = to_chars("::");
    proof {
        reveal_strlit("::");
        assert(sep@.len() > 0);
    }
    string_from_chars(before_first_chars(cs.as_slice(), sep.as_slice()).as_slice())
}

/// The source shown by a context query: nothing when the file could not be
/// read; the symbol's lines when a line range is given; the whole file
/// otherwise.
pub fn context_source(content: Option<&str>, range: Option<(usize, usize)>) -> (r: String)
    ensures
        r@ == match content {
            None => seq![],
            Some(c) => match range {
                Some((s, e)) => slice_lines(c@, s as int, e as int),
                None => c@,
            },
        },
{
    match content {
        None => String::new(),
        Some(c) => match range {
            Some((s, e)) => slice_source_code(c, s, e),
            None => owned(c),
        },
    }
}

} // verus!
