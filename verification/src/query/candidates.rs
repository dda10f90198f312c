//! Resolving a user's target (a symbol or a file) against what is indexed.
use crate::text::{contains, contains_chars, lowercase, str_eq, to_chars, to_lowercase};
use crate::types::query::{FileInfo, FileView, SymbolInfo, SymbolView};
use vstd::prelude::*;

verus! {

/// `text` matches `target`: exactly, or, when `fuzzy`, as a
/// case-insensitive substring.
pub open spec fn text_matches(text: Seq<char>, target: Seq<char>, fuzzy: bool) -> bool {
    if fuzzy {
        contains(lowercase(text), lowercase(target))
    } else {
        text == target
    }
}

/// A symbol matches `target`: by its id when the target holds `::`, by its
/// name otherwise.
pub open spec fn symbol_matches(s: SymbolView, target: Seq<char>, fuzzy: bool) -> bool {
    if contains(target, "::"@) {
        text_matches(s.id, target, fuzzy)
    } else {
        text_matches(s.name, target, fuzzy)
    }
}

/// The symbols of `pool` that match, in pool order.
pub open spec fn matching_symbols(pool: Seq<SymbolView>, target: Seq<char>, fuzzy: bool) -> Seq<SymbolView>
    decreases pool.len(),
{
    if pool.len() == 0 {
        seq![]
    } else {
        let rest = matching_symbols(pool.drop_last(), target, fuzzy);
        if symbol_matches(pool.last(), target, fuzzy) {
            rest.push(pool.last())
        } else {
            rest
        }
    }
}

/// The files of `pool` whose path matches, in pool order.
pub open spec fn matching_files(pool: Seq<FileView>, target: Seq<char>, fuzzy: bool) -> Seq<FileView>
    decreases pool.len(),
{
    if pool.len() == 0 {
        seq![]
    } else {
        let rest = matching_files(pool.drop_last(), target, fuzzy);
        if text_matches(pool.last().path, target, fuzzy) {
            rest.push(pool.last())
        } else {
            rest
        }
    }
}

/// The views of a slice of symbols.
pub open spec fn symbol_views(s: Seq<SymbolInfo>) -> Seq<SymbolView> {
    s.map_values(|x: SymbolInfo| x@)
}

/// The views of a slice of files.
pub open spec fn file_views(s: Seq<FileInfo>) -> Seq<FileView> {
    s.map_values(|x: FileInfo| x@)
}

/// Whether `text` matches `target`.
pub fn text_matches_exec(text: &str, target: &str, fuzzy: bool) -> (r: bool)
    ensures
        r == text_matches(text@, target@, fuzzy),
{
    if fuzzy {
        let a = to_lowercase(text);
        let b = to_lowercase(target);
        let x = to_chars(a.as_str());
        let y = to_chars(b.as_str());
        contains_chars(x.as_slice(), y.as_slice())
    } else {
        str_eq(text, target)
    }
}

/// The symbols of `pool` matching `target`, in pool order: by id when the
/// target holds `::`, else by name; exactly, or as a case-insensitive
/// substring when `fuzzy`.
pub fn resolve_symbol_candidates(target: &str, fuzzy: bool, pool: &[SymbolInfo]) -> (r: Vec<SymbolInfo>)
    ensures
        symbol_views(r@) == matching_symbols(symbol_views(pool@), target@, fuzzy),
{
    let t = to_chars(target);
    let sep = to_chars("::");
    let by_id = contains_chars(t.as_slice(), sep.as_slice());
    let mut out: Vec<SymbolInfo> = Vec::new();
    let mut i: usize = 0;
    proof {
        assert(symbol_views(pool@).take(0) =~= seq![]);
        assert(symbol_views(out@) =~= seq![]);
    }
    while i < pool.len()
        invariant
            i <= pool@.len(),
            by_id == contains(target@, "::"@),
            symbol_views(out@) == matching_symbols(symbol_views(pool@).take(i as int), target@, fuzzy),
        decreases pool.len() - i,
    {
        let s = &pool[i];
        let m = if by_id {
            text_matches_exec(s.id.as_str(), target, fuzzy)
        } else {
            text_matches_exec(s.name.as_str(), target, fuzzy)
        };
        proof {
            let pre = symbol_views(pool@).take(i + 1);
            assert(pre.drop_last() =~= symbol_views(pool@).take(i as int));
            assert(pre.last() == pool@[i as int]@);
        }
        if m {
            let c = s.copy();
            let ghost before = symbol_views(out@);
            out.push(c);
            proof {
                assert(symbol_views(out@) =~= before.push(c@));
            }
        }
        i = i + 1;
    }
    proof {
        assert(symbol_views(pool@).take(pool@.len() as int) =~= symbol_views(pool@));
    }
    out
}

/// The files of `pool` whose path matches `target`, in pool order:
/// exactly, or as a case-insensitive substring when `fuzzy`.
pub fn resolve_file_candidates(target: &str, fuzzy: bool, pool: &[FileInfo]) -> (r: Vec<FileInfo>)
    ensures
        file_views(r@) == matching_files(file_views(pool@), target@, fuzzy),
{
    let mut out: Vec<FileInfo> = Vec::new();
    let mut i: usize = 0;
    proof {
        assert(file_views(pool@).take(0) =~= seq![]);
        assert(file_views(out@) =~= seq![]);
    }
    while i < pool.len()
        invariant
            i <= pool@.len(),
            file_views(out@) == matching_files(file_views(pool@).take(i as int), target@, fuzzy),
        decreases pool.len() - i,
    {
        let f = &pool[i];
        let m = text_matches_exec(f.path.as_str(), target, fuzzy);
        proof {
            let pre = file_views(pool@).take(i + 1);
            assert(pre.drop_last() =~= file_views(pool@).take(i as int));
            assert(pre.last() == pool@[i as int]@);
        }
        if m {
            let c = f.copy();
            let ghost before = file_views(out@);
            out.push(c);
            proof {
                assert(file_views(out@) =~= before.push(c@));
            }
        }
        i = i + 1;
    }
    proof {
        assert(file_views(pool@).take(pool@.len() as int) =~= file_views(pool@));
    }
    out
}


/// Fuzzy matching ignores case on both sides: two texts with the same
/// lowercase form match the same targets, and two targets with the same
/// lowercase form are matched by the same texts.
pub proof fn lemma_fuzzy_match_ignores_case(t1: Seq<char>, t2: Seq<char>, q1: Seq<char>, q2: Seq<char>)
    requires
        lowercase(t1) == lowercase(t2),
        lowercase(q1) == lowercase(q2),
    ensures
        text_matches(t1, q1, true) == text_matches(t2, q2, true),
{
}

/// A fuzzy match is exactly an occurrence of the lowercased target inside
/// the lowercased text.
pub proof fn lemma_fuzzy_match_is_lowercase_substring(text: Seq<char>, target: Seq<char>)
    ensures
        text_matches(text, target, true) <==> exists|i: int|
            0 <= i && i + lowercase(target).len() <= lowercase(text).len() && #[trigger] lowercase(text).subrange(
                i,
                i + lowercase(target).len(),
            ) == lowercase(target),
{
    let a = lowercase(text);
    let b = lowercase(target);
    if text_matches(text, target, true) {
        let i = choose|i: int| crate::text::occurs_at(a, b, i);
        assert(a.subrange(i, i + b.len()) == b);
    }
    if exists|i: int| 0 <= i && i + b.len() <= a.len() && #[trigger] a.subrange(i, i + b.len()) == b {
        let i = choose|i: int| 0 <= i && i + b.len() <= a.len() && #[trigger] a.subrange(i, i + b.len()) == b;
        assert(crate::text::occurs_at(a, b, i));
    }
}

/// An exact match is equality of the texts.
pub proof fn lemma_exact_match_is_equality(text: Seq<char>, target: Seq<char>)
    ensures
        text_matches(text, target, false) <==> text == target,
{
}

} // verus!
