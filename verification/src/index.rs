//! The decisions of the indexer's walk and writer: which files are the
//! database's own, which calls belong to a symbol, and which containment
//! statement an edge needs.
use crate::types::ast::{call_views, CallView, EdgeData, RawCall};
use vstd::prelude::*;

verus! {

/// `abs_file` is the database file at `abs_db` or one of its companions
/// (`<db>.wal`, `<db>.tmp`, ...), which the indexer never parses.
pub open spec fn is_database_file(abs_file: Seq<char>, abs_db: Seq<char>) -> bool {
    abs_file == abs_db || crate::text::starts_with(abs_file, abs_db + "."@)
}

/// Whether `abs_file` is the database file at `abs_db` or a companion.
pub fn is_db_file(abs_file: &str, abs_db: &str) -> (r: bool)
    ensures
        r == is_database_file(abs_file@, abs_db@),
{
    if crate::text::str_eq(abs_file, abs_db) {
        return true;
    }
    let f = crate::text::to_chars(abs_file);
    let mut prefix = crate::text::to_chars(abs_db);
    crate::text::push_str(&mut prefix, ".");
    crate::text::starts_with_chars(f.as_slice(), prefix.as_slice())
}

/// The calls whose line lies within `start..=end`, in order.
pub open spec fn calls_within(calls: Seq<CallView>, start: int, end: int) -> Seq<CallView> {
    calls.filter(|c: CallView| start <= c.line && c.line <= end)
}

/// The calls of a file made within the lines `start..=end` of a symbol.
pub fn calls_in_span(calls: &[RawCall], start: usize, end: usize) -> (r: Vec<RawCall>)
    ensures
        call_views(r@) == calls_within(call_views(calls@), start as int, end as int),
{
    let ghost cv = call_views(calls@);
    let mut out: Vec<RawCall> = Vec::new();
    let mut i: usize = 0;
    proof {
        assert(cv.take(0) =~= seq![]);
        assert(call_views(out@) =~= calls_within(cv.take(0), start as int, end as int));
    }
    while i < calls.len()
        invariant
            i <= calls@.len(),
            cv == call_views(calls@),
            call_views(out@) == calls_within(cv.take(i as int), start as int, end as int),
        decreases calls.len() - i,
    {
        let ghost before = call_views(out@);
        proof {
            assert(cv.take(i + 1).drop_last() =~= cv.take(i as int));
            reveal(Seq::filter);
        }
        if calls[i].line >= start && calls[i].line <= end {
            out.push(RawCall { name: calls[i].name.clone(), line: calls[i].line, is_method: calls[i].is_method });
            proof {
                assert(call_views(out@) =~= before.push(cv[i as int]));
            }
        }
        proof {
            assert(call_views(out@) =~= calls_within(cv.take(i + 1), start as int, end as int));
        }
        i = i + 1;
    }
    proof {
        assert(cv.take(calls@.len() as int) =~= cv);
    }
    out
}

/// Whether a containment edge starts at the file itself (its source is the
/// file's path) rather than at a symbol.
pub fn edge_from_file(edge: &EdgeData, relative_path: &str) -> (r: bool)
    ensures
        r == (edge.from_id@ == relative_path@),
{
    crate::text::str_eq(edge.from_id.as_str(), relative_path)
}

} // verus!
