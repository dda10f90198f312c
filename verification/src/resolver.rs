//! Turning raw imports into file-to-file edges and raw calls into
//! symbol-to-symbol edges.
//!
//! The JSON the indexer stored for each file's imports and each symbol's
//! calls is parsed by the caller; an entry that did not parse is `None` and
//! contributes nothing. Both results hold every edge once, in the order in
//! which it is first found.
use crate::paths::{
    component_texts, components, join, parent_or_empty, path_extension, path_join, path_parent,
    path_pop, path_push, path_with_extension, pop, push, with_extension,
};
use crate::text::{
    before_first, before_first_chars, join_range, owned, push_str, split, split_chars, starts_with,
    str_eq, string_from_chars, string_views, to_chars, views,
};
use crate::types::ast::{RawCall, RawImport};
use crate::types::db::{FileRecord, SymbolRecord};
use vstd::prelude::*;

verus! {

// ───────────────────────── shared pieces ─────────────────────────

/// `acc` with `x` appended unless it already holds it.
pub open spec fn add_one<T>(acc: Seq<T>, x: T) -> Seq<T> {
    if acc.contains(x) {
        acc
    } else {
        acc.push(x)
    }
}

/// The normalization of a path whose component texts are `cs`, from
/// component `i` on, onto `acc`: `..` pops, `.` is dropped, anything else
/// is pushed.
pub open spec fn normalize_from(cs: Seq<Seq<char>>, i: int, acc: Seq<char>) -> Seq<char>
    decreases cs.len() - i,
{
    if i < 0 || i >= cs.len() {
        acc
    } else if cs[i] == ".."@ {
        normalize_from(cs, i + 1, path_pop(acc))
    } else if cs[i] == "."@ {
        normalize_from(cs, i + 1, acc)
    } else {
        normalize_from(cs, i + 1, path_push(acc, cs[i]))
    }
}

/// The path `p` with `.` and `..` components resolved lexically.
pub open spec fn normalized(p: Seq<char>) -> Seq<char> {
    normalize_from(component_texts(p), 0, seq![])
}

/// Resolves `.` and `..` components of `p` lexically.
pub fn normalize_path(p: &str) -> (r: String)
    ensures
        r@ == normalized(p@),
{
    let cs = components(p);
    let ghost cv = component_texts(p@);
    let mut acc = String::new();
    let mut i: usize = 0;
    proof {
        reveal_strlit("..");
        reveal_strlit(".");
    }
    while i < cs.len()
        invariant
            i <= cs@.len(),
            string_views(cs@) == cv,
            normalize_from(cv, i as int, acc@) == normalize_from(cv, 0, seq![]),
        decreases cs.len() - i,
    {
        proof {
            assert(cv[i as int] == cs@[i as int]@);
        }
        if str_eq(cs[i].as_str(), "..") {
            acc = pop(acc.as_str());
        } else if str_eq(cs[i].as_str(), ".") {
        } else {
            acc = push(acc.as_str(), cs[i].as_str());
        }
        i = i + 1;
    }
    acc
}

// ───────────────────────── imports ─────────────────────────

/// The paths of the indexed files.
pub open spec fn file_paths(files: Seq<FileRecord>) -> Seq<Seq<char>> {
    files.map_values(|f: FileRecord| f.path@)
}

/// The first of `cands[k..]` that is a known path.
pub open spec fn first_known(known: Seq<Seq<char>>, cands: Seq<Seq<char>>, k: int) -> Option<Seq<char>>
    decreases cands.len() - k,
{
    if k < 0 || k >= cands.len() {
        None
    } else if known.contains(cands[k]) {
        Some(cands[k])
    } else {
        first_known(known, cands, k + 1)
    }
}

/// The files a relative import may mean, in the order they are tried:
/// the target with a `.ts`, `.tsx`, `.js` or `.jsx` extension, then its
/// `index.ts` or `index.js`.
pub open spec fn relative_candidates(t: Seq<char>) -> Seq<Seq<char>> {
    seq![
        path_with_extension(t, "ts"@),
        path_with_extension(t, "tsx"@),
        path_with_extension(t, "js"@),
        path_with_extension(t, "jsx"@),
        path_join(t, "index.ts"@),
        path_join(t, "index.js"@),
    ]
}

/// Where the segments of a Rust path start, and the directory the first
/// of them lives in: after `crate` in `src`, after `self` in the file's
/// directory, after leading `super`s in the matching ancestor, and
/// otherwise in `src`.
pub open spec fn rust_start(segs: Seq<Seq<char>>, base_dir: Seq<char>) -> (int, Seq<char>) {
    if segs[0] == "crate"@ {
        (1, "src"@)
    } else if segs[0] == "self"@ {
        (1, base_dir)
    } else {
        rust_supers(segs, 0, base_dir, "src"@)
    }
}

/// Skips the `super` segments from `i` on, each moving one directory up.
pub open spec fn rust_supers(segs: Seq<Seq<char>>, i: int, cur: Seq<char>, resolved: Seq<char>) -> (int, Seq<char>)
    decreases segs.len() - i,
{
    if 0 <= i < segs.len() && segs[i] == "super"@ {
        rust_supers(segs, i + 1, path_parent(cur), path_parent(cur))
    } else {
        (i, resolved)
    }
}

/// The deepest module file that the segments from `i` on reach from
/// directory `cur`: each segment is `seg.rs` or `seg/mod.rs` there, and the
/// walk stops at the first segment that is neither.
pub open spec fn rust_walk(known: Seq<Seq<char>>, segs: Seq<Seq<char>>, i: int, cur: Seq<char>, last: Option<Seq<char>>) -> Option<Seq<char>>
    decreases segs.len() - i,
{
    if i < 0 || i >= segs.len() {
        last
    } else {
        let rs = normalized(path_join(cur, segs[i] + ".rs"@));
        let md = normalized(path_join(path_join(cur, segs[i]), "mod.rs"@));
        if known.contains(rs) {
            rust_walk(known, segs, i + 1, path_join(cur, segs[i]), Some(rs))
        } else if known.contains(md) {
            rust_walk(known, segs, i + 1, path_join(cur, segs[i]), Some(md))
        } else {
            last
        }
    }
}

/// The indexed file that the import `imp` of the file at `file` refers to:
/// a relative path (starting with `.`) by the JavaScript rules, a path in
/// a Rust file by the module rules, nothing otherwise.
pub open spec fn import_target(known: Seq<Seq<char>>, file: Seq<char>, imp: Seq<char>) -> Option<Seq<char>> {
    let base_dir = path_parent(file);
    if starts_with(imp, "."@) {
        first_known(known, relative_candidates(normalized(path_join(base_dir, imp))), 0)
    } else if path_extension(file) == Some("rs"@) {
        let segs = split(imp, "::"@);
        if segs.len() == 0 {
            None
        } else {
            let (start, dir) = rust_start(segs, base_dir);
            rust_walk(known, segs, start, dir, None)
        }
    } else {
        None
    }
}

/// The edges of one file's imports from position `j` on, added to `acc`.
pub open spec fn link_file(acc: Seq<(Seq<char>, Seq<char>)>, file: Seq<char>, imps: Seq<Seq<char>>, known: Seq<Seq<char>>, j: int) -> Seq<(Seq<char>, Seq<char>)>
    decreases imps.len() - j,
{
    if j < 0 || j >= imps.len() {
        acc
    } else {
        let next = match import_target(known, file, imps[j]) {
            Some(t) => add_one(acc, (file, t)),
            None => acc,
        };
        link_file(next, file, imps, known, j + 1)
    }
}

/// The parsed imports of file `i`, when they parsed.
pub open spec fn imports_at(parsed: Seq<Option<Seq<Seq<char>>>>, i: int) -> Option<Seq<Seq<char>>> {
    if 0 <= i < parsed.len() {
        parsed[i]
    } else {
        None
    }
}

/// The edges of the files from position `i` on, added to `acc`.
pub open spec fn link_files(acc: Seq<(Seq<char>, Seq<char>)>, paths: Seq<Seq<char>>, parsed: Seq<Option<Seq<Seq<char>>>>, i: int) -> Seq<(Seq<char>, Seq<char>)>
    decreases paths.len() - i,
{
    if i < 0 || i >= paths.len() {
        acc
    } else {
        let next = match imports_at(parsed, i) {
            Some(imps) => link_file(acc, paths[i], imps, paths, 0),
            None => acc,
        };
        link_files(next, paths, parsed, i + 1)
    }
}

/// The import paths of each file's parsed imports.
pub open spec fn parsed_import_views(p: Seq<Option<Vec<RawImport>>>) -> Seq<Option<Seq<Seq<char>>>> {
    p.map_values(|o: Option<Vec<RawImport>>| match o {
        Some(v) => Some(v@.map_values(|r: RawImport| r.path@)),
        None => None,
    })
}

/// The views of text pairs.
pub open spec fn pair_views(s: Seq<(String, String)>) -> Seq<(Seq<char>, Seq<char>)> {
    s.map_values(|e: (String, String)| (e.0@, e.1@))
}

/// Appends the pair `(a, b)` unless `out` already holds it.
fn push_unique_pair(out: &mut Vec<(String, String)>, a: String, b: String)
    ensures
        pair_views(final(out)@) == add_one(pair_views(old(out)@), (a@, b@)),
{
    let ghost before = pair_views(out@);
    let ghost e = (a@, b@);
    let mut k: usize = 0;
    while k < out.len()
        invariant
            k <= out@.len(),
            before == pair_views(out@),
            e == (a@, b@),
            forall|m: int| 0 <= m < k ==> before[m] != e,
        decreases out.len() - k,
    {
        if str_eq(out[k].0.as_str(), a.as_str()) && str_eq(out[k].1.as_str(), b.as_str()) {
            proof {
                assert(before[k as int] == e);
                assert(before.contains(e));
            }
            return;
        }
        k = k + 1;
    }
    proof {
        assert(!before.contains(e));
    }
    out.push((a, b));
    proof {
        assert(pair_views(out@) =~= before.push(e));
    }
}

/// Whether `p` is the path of an indexed file.
fn is_known(files: &[FileRecord], p: &str) -> (r: bool)
    ensures
        r == file_paths(files@).contains(p@),
{
    let ghost known = file_paths(files@);
    let mut i: usize = 0;
    while i < files.len()
        invariant
            i <= files@.len(),
            known == file_paths(files@),
            forall|k: int| 0 <= k < i ==> known[k] != p@,
        decreases files.len() - i,
    {
        if str_eq(files[i].path.as_str(), p) {
            proof {
                assert(known[i as int] == p@);
            }
            return true;
        }
        i = i + 1;
    }
    false
}

fn first_known_exec(files: &[FileRecord], cands: &Vec<String>) -> (r: Option<String>)
    ensures
        r matches Some(t) ==> first_known(file_paths(files@), string_views(cands@), 0) == Some(t@),
        r is None ==> first_known(file_paths(files@), string_views(cands@), 0) is None,
{
    let ghost cv = string_views(cands@);
    let mut k: usize = 0;
    while k < cands.len()
        invariant
            k <= cands@.len(),
            cv == string_views(cands@),
            first_known(file_paths(files@), cv, 0) == first_known(file_paths(files@), cv, k as int),
        decreases cands.len() - k,
    {
        proof {
            assert(cv[k as int] == cands@[k as int]@);
        }
        if is_known(files, cands[k].as_str()) {
            return Some(cands[k].clone());
        }
        k = k + 1;
    }
    None
}

fn rust_start_exec(segs: &Vec<Vec<char>>, base_dir: &str) -> (r: (usize, String))
    requires
        segs@.len() > 0,
    ensures
        r.0 <= segs@.len(),
        (r.0 as int, r.1@) == rust_start(views(segs@), base_dir@),
{
    let ghost sv = views(segs@);
    proof {
        assert(sv[0] == segs@[0]@);
    }
    let crate_kw = to_chars("crate");
    let self_kw = to_chars("self");
    let super_kw = to_chars("super");
    if crate::text::chars_eq(segs[0].as_slice(), crate_kw.as_slice()) {
        return (1, owned("src"));
    }
    if crate::text::chars_eq(segs[0].as_slice(), self_kw.as_slice()) {
        return (1, owned(base_dir));
    }
    let mut i: usize = 0;
    let mut cur = owned(base_dir);
    let mut resolved = owned("src");
    while i < segs.len() && crate::text::chars_eq(segs[i].as_slice(), super_kw.as_slice())
        invariant
            i <= segs@.len(),
            sv == views(segs@),
            super_kw@ == "super"@,
            rust_supers(sv, 0, base_dir@, "src"@) == rust_supers(sv, i as int, cur@, resolved@),
        decreases segs.len() - i,
    {
        proof {
            assert(sv[i as int] == segs@[i as int]@);
        }
        cur = parent_or_empty(cur.as_str());
        resolved = owned(cur.as_str());
        i = i + 1;
    }
    proof {
        if i < segs@.len() {
            assert(sv[i as int] == segs@[i as int]@);
        }
    }
    (i, resolved)
}

fn rust_walk_exec(files: &[FileRecord], segs: &Vec<Vec<char>>, start: usize, dir: String) -> (r: Option<String>)
    requires
        start <= segs@.len(),
    ensures
        r matches Some(t) ==> rust_walk(file_paths(files@), views(segs@), start as int, dir@, None) == Some(t@),
        r is None ==> rust_walk(file_paths(files@), views(segs@), start as int, dir@, None) is None,
{
    let ghost sv = views(segs@);
    let ghost known = file_paths(files@);
    let mut i: usize = start;
    let mut cur = dir;
    let mut last: Option<String> = None;
    let mut done = false;
    while i < segs.len() && !done
        invariant
            start <= i <= segs@.len(),
            sv == views(segs@),
            known == file_paths(files@),
            done ==> rust_walk(known, sv, start as int, dir@, None) == crate::parser::opt_view(last),
            !done ==> rust_walk(known, sv, start as int, dir@, None) == rust_walk(
                known,
                sv,
                i as int,
                cur@,
                crate::parser::opt_view(last),
            ),
        decreases segs.len() - i, if done { 0int } else { 1int },
    {
        proof {
            assert(sv[i as int] == segs@[i as int]@);
            reveal_strlit(".rs");
        }
        let seg = string_from_chars(segs[i].as_slice());
        let mut file_name = to_chars(seg.as_str());
        push_str(&mut file_name, ".rs");
        let rs_name = string_from_chars(file_name.as_slice());
        let rs = normalize_path(join(cur.as_str(), rs_name.as_str()).as_str());
        let sub = join(cur.as_str(), seg.as_str());
        let md = normalize_path(join(sub.as_str(), "mod.rs").as_str());
        if is_known(files, rs.as_str()) {
            last = Some(rs);
            cur = sub;
            i = i + 1;
        } else if is_known(files, md.as_str()) {
            last = Some(md);
            cur = sub;
            i = i + 1;
        } else {
            done = true;
        }
    }
    last
}

/// The indexed file that the import `imp` of the file at `file` refers to.
pub fn resolve_import(files: &[FileRecord], file: &str, imp: &str) -> (r: Option<String>)
    ensures
        r matches Some(t) ==> import_target(file_paths(files@), file@, imp@) == Some(t@),
        r is None ==> import_target(file_paths(files@), file@, imp@) is None,
{
    let base_dir = parent_or_empty(file);
    let imp_chars = to_chars(imp);
    let dot = to_chars(".");
    if crate::text::starts_with_chars(imp_chars.as_slice(), dot.as_slice()) {
        let t = normalize_path(join(base_dir.as_str(), imp).as_str());
        let mut cands: Vec<String> = Vec::new();
        cands.push(with_extension(t.as_str(), "ts"));
        cands.push(with_extension(t.as_str(), "tsx"));
        cands.push(with_extension(t.as_str(), "js"));
        cands.push(with_extension(t.as_str(), "jsx"));
        cands.push(join(t.as_str(), "index.ts"));
        cands.push(join(t.as_str(), "index.js"));
        proof {
            assert(string_views(cands@) =~= relative_candidates(t@));
        }
        return first_known_exec(files, &cands);
    }
    let is_rust = match crate::paths::extension(file) {
        Some(e) => str_eq(e.as_str(), "rs"),
        None => false,
    };
    if is_rust {
        let sep = to_chars("::");
        proof {
            reveal_strlit("::");
            assert(sep@.len() > 0);
        }
        let segs = split_chars(imp_chars.as_slice(), sep.as_slice());
        if segs.len() == 0 {
            return None;
        }
        let (start, dir) = rust_start_exec(&segs, base_dir.as_str());
        rust_walk_exec(files, &segs, start, dir)
    } else {
        None
    }
}

/// The file-to-file edges that the files' parsed imports resolve to: for
/// each file in order whose imports parsed, each import that refers to an
/// indexed file gives an edge from the importing file to that file; each
/// edge is listed once.
pub fn resolve_imports(files: &[FileRecord], parsed: &[Option<Vec<RawImport>>]) -> (r: Vec<(String, String)>)
    ensures
        pair_views(r@) == link_files(seq![], file_paths(files@), parsed_import_views(parsed@), 0),
{
    let ghost paths = file_paths(files@);
    let ghost pv = parsed_import_views(parsed@);
    let mut out: Vec<(String, String)> = Vec::new();
    let mut i: usize = 0;
    proof {
        assert(pair_views(out@) =~= seq![]);
    }
    while i < files.len()
        invariant
            i <= files@.len(),
            paths == file_paths(files@),
            pv == parsed_import_views(parsed@),
            link_files(pair_views(out@), paths, pv, i as int) == link_files(seq![], paths, pv, 0),
        decreases files.len() - i,
    {
        proof {
            assert(paths[i as int] == files@[i as int].path@);
        }
        if i < parsed.len() {
            match &parsed[i] {
                Some(imps) => {
                    let ghost iv = imps@.map_values(|r: RawImport| r.path@);
                    proof {
                        assert(pv[i as int] == Some(iv));
                    }
                    let mut j: usize = 0;
                    let ghost start = pair_views(out@);
                    while j < imps.len()
                        invariant
                            j <= imps@.len(),
                            i < files@.len(),
                            paths == file_paths(files@),
                            paths[i as int] == files@[i as int].path@,
                            iv == imps@.map_values(|r: RawImport| r.path@),
                            link_file(pair_views(out@), paths[i as int], iv, paths, j as int)
                                == link_file(start, paths[i as int], iv, paths, 0),
                        decreases imps.len() - j,
                    {
                        proof {
                            assert(iv[j as int] == imps@[j as int].path@);
                        }
                        match resolve_import(files, files[i].path.as_str(), imps[j].path.as_str()) {
                            Some(t) => {
                                push_unique_pair(&mut out, files[i].path.clone(), t);
                            },
                            None => {},
                        }
                        j = j + 1;
                    }
                },
                None => {
                    proof {
                        assert(pv[i as int] is None);
                    }
                },
            }
        }
        i = i + 1;
    }
    out
}

// ───────────────────────── calls ─────────────────────────

/// The file a symbol id belongs to: the id's text before its first `::`.
pub open spec fn id_file(id: Seq<char>) -> Seq<char> {
    before_first(id, "::"@)
}

/// The id that a method call named `name` inside the symbol `id` would have
/// as a sibling of `id` (same owner): `A::B::name` for `A::B::f`, when the
/// id has at least three `::`-separated segments.
pub open spec fn sibling_id(id: Seq<char>, name: Seq<char>) -> Option<Seq<char>> {
    let segs = split(id, "::"@);
    if segs.len() >= 3 {
        Some(crate::text::join(segs.take(segs.len() - 1), "::"@) + "::"@ + name)
    } else {
        None
    }
}

/// The ids of the symbols.
pub open spec fn symbol_ids(syms: Seq<SymbolRecord>) -> Seq<Seq<char>> {
    syms.map_values(|s: SymbolRecord| s.id@)
}

/// The first symbol, from position `k` on, of file `file` named `name`.
pub open spec fn first_in_file(syms: Seq<SymbolRecord>, file: Seq<char>, name: Seq<char>, k: int) -> Option<Seq<char>>
    decreases syms.len() - k,
{
    if k < 0 || k >= syms.len() {
        None
    } else if id_file(syms[k].id@) == file && syms[k].name@ == name {
        Some(syms[k].id@)
    } else {
        first_in_file(syms, file, name, k + 1)
    }
}

/// The first symbol named `name` in a file that `file` imports, trying the
/// import edges from position `e` on in order.
pub open spec fn first_in_imports(syms: Seq<SymbolRecord>, edges: Seq<(Seq<char>, Seq<char>)>, file: Seq<char>, name: Seq<char>, e: int) -> Option<Seq<char>>
    decreases edges.len() - e,
{
    if e < 0 || e >= edges.len() {
        None
    } else if edges[e].0 == file && first_in_file(syms, edges[e].1, name, 0) is Some {
        first_in_file(syms, edges[e].1, name, 0)
    } else {
        first_in_imports(syms, edges, file, name, e + 1)
    }
}

/// The ids of the symbols from position `k` on named `name`; only
/// functions and methods when `callable`.
pub open spec fn named_ids(syms: Seq<SymbolRecord>, name: Seq<char>, callable: bool, k: int) -> Seq<Seq<char>>
    decreases syms.len() - k,
{
    if k < 0 || k >= syms.len() {
        seq![]
    } else {
        let s = syms[k];
        let keep = s.name@ == name && (!callable || s.kind@ == "Function"@ || s.kind@ == "Method"@);
        (if keep { seq![s.id@] } else { seq![] }) + named_ids(syms, name, callable, k + 1)
    }
}

/// The global fallback for a call of `name`: every function or method of
/// that name, or, when there is none, every symbol of that name.
pub open spec fn global_targets(syms: Seq<SymbolRecord>, name: Seq<char>) -> Seq<Seq<char>> {
    let c = named_ids(syms, name, true, 0);
    if c.len() > 0 {
        c
    } else {
        named_ids(syms, name, false, 0)
    }
}

/// What a call of `name` made inside the symbol `id` resolves to, trying in
/// turn: for a method call, the sibling method of the same owner; the
/// first symbol of that name in the caller's file; the first in a file the
/// caller's file imports; and otherwise the global fallback.
pub open spec fn call_targets(syms: Seq<SymbolRecord>, edges: Seq<(Seq<char>, Seq<char>)>, id: Seq<char>, name: Seq<char>, is_method: bool) -> Seq<Seq<char>> {
    let sibling = if is_method {
        match sibling_id(id, name) {
            Some(m) => if symbol_ids(syms).contains(m) { Some(m) } else { None },
            None => None,
        }
    } else {
        None
    };
    match sibling {
        Some(m) => seq![m],
        None => match first_in_file(syms, id_file(id), name, 0) {
            Some(t) => seq![t],
            None => match first_in_imports(syms, edges, id_file(id), name, 0) {
                Some(t) => seq![t],
                None => global_targets(syms, name),
            },
        },
    }
}

/// The edges from `from` to the targets from position `k` on, added to `acc`.
pub open spec fn link_targets(acc: Seq<(Seq<char>, Seq<char>, int)>, from: Seq<char>, ts: Seq<Seq<char>>, line: int, k: int) -> Seq<(Seq<char>, Seq<char>, int)>
    decreases ts.len() - k,
{
    if k < 0 || k >= ts.len() {
        acc
    } else {
        link_targets(add_one(acc, (from, ts[k], line)), from, ts, line, k + 1)
    }
}

/// The edges of the calls of symbol `id` from position `j` on, added to `acc`.
pub open spec fn link_symbol(acc: Seq<(Seq<char>, Seq<char>, int)>, syms: Seq<SymbolRecord>, edges: Seq<(Seq<char>, Seq<char>)>, id: Seq<char>, calls: Seq<crate::types::ast::CallView>, j: int) -> Seq<(Seq<char>, Seq<char>, int)>
    decreases calls.len() - j,
{
    if j < 0 || j >= calls.len() {
        acc
    } else {
        let c = calls[j];
        link_symbol(link_targets(acc, id, call_targets(syms, edges, id, c.name, c.is_method), c.line, 0), syms, edges, id, calls, j + 1)
    }
}

/// The parsed calls of symbol `i`, when they parsed.
pub open spec fn calls_at(parsed: Seq<Option<Seq<crate::types::ast::CallView>>>, i: int) -> Option<Seq<crate::types::ast::CallView>> {
    if 0 <= i < parsed.len() {
        parsed[i]
    } else {
        None
    }
}

/// The edges of the symbols from position `i` on, added to `acc`.
pub open spec fn link_calls(acc: Seq<(Seq<char>, Seq<char>, int)>, syms: Seq<SymbolRecord>, parsed: Seq<Option<Seq<crate::types::ast::CallView>>>, edges: Seq<(Seq<char>, Seq<char>)>, i: int) -> Seq<(Seq<char>, Seq<char>, int)>
    decreases syms.len() - i,
{
    if i < 0 || i >= syms.len() {
        acc
    } else {
        let next = match calls_at(parsed, i) {
            Some(calls) => link_symbol(acc, syms, edges, syms[i].id@, calls, 0),
            None => acc,
        };
        link_calls(next, syms, parsed, edges, i + 1)
    }
}

/// The calls of each symbol's parsed calls.
pub open spec fn parsed_call_views(p: Seq<Option<Vec<RawCall>>>) -> Seq<Option<Seq<crate::types::ast::CallView>>> {
    p.map_values(|o: Option<Vec<RawCall>>| match o {
        Some(v) => Some(crate::types::ast::call_views(v@)),
        None => None,
    })
}

/// The views of call edges.
pub open spec fn triple_views(s: Seq<(String, String, usize)>) -> Seq<(Seq<char>, Seq<char>, int)> {
    s.map_values(|e: (String, String, usize)| (e.0@, e.1@, e.2 as int))
}

fn push_unique_triple(out: &mut Vec<(String, String, usize)>, a: String, b: String, line: usize)
    ensures
        triple_views(final(out)@) == add_one(triple_views(old(out)@), (a@, b@, line as int)),
{
    let ghost before = triple_views(out@);
    let ghost e = (a@, b@, line as int);
    let mut k: usize = 0;
    while k < out.len()
        invariant
            k <= out@.len(),
            before == triple_views(out@),
            e == (a@, b@, line as int),
            forall|m: int| 0 <= m < k ==> before[m] != e,
        decreases out.len() - k,
    {
        if str_eq(out[k].0.as_str(), a.as_str()) && str_eq(out[k].1.as_str(), b.as_str()) && out[k].2 == line {
            proof {
                assert(before[k as int] == e);
                assert(before.contains(e));
            }
            return;
        }
        k = k + 1;
    }
    proof {
        assert(!before.contains(e));
    }
    out.push((a, b, line));
    proof {
        assert(triple_views(out@) =~= before.push(e));
    }
}

fn id_file_exec(id: &str) -> (r: Vec<char>)
    ensures
        r@ == id_file(id@),
{
    let cs = to_chars(id);
    let sep = to_chars("::");
    proof {
        reveal_strlit("::");
        assert(sep@.len() > 0);
    }
    before_first_chars(cs.as_slice(), sep.as_slice())
}

fn sibling_id_exec(id: &str, name: &str) -> (r: Option<String>)
    ensures
        r matches Some(m) ==> sibling_id(id@, name@) == Some(m@),
        r is None ==> sibling_id(id@, name@) is None,
{
    let cs = to_chars(id);
    let sep = to_chars("::");
    proof {
        reveal_strlit("::");
        assert(sep@.len() > 0);
    }
    let segs = split_chars(cs.as_slice(), sep.as_slice());
    if segs.len() >= 3 {
        let mut m = join_range(&segs, 0, segs.len() - 1, sep.as_slice());
        proof {
            assert(views(segs@).subrange(0, segs@.len() - 1) =~= views(segs@).take(segs@.len() - 1));
        }
        push_str(&mut m, "::");
        crate::text::push_all(&mut m, to_chars(name).as_slice());
        Some(string_from_chars(m.as_slice()))
    } else {
        None
    }
}

fn has_id(syms: &[SymbolRecord], id: &str) -> (r: bool)
    ensures
        r == symbol_ids(syms@).contains(id@),
{
    let ghost ids = symbol_ids(syms@);
    let mut i: usize = 0;
    while i < syms.len()
        invariant
            i <= syms@.len(),
            ids == symbol_ids(syms@),
            forall|k: int| 0 <= k < i ==> ids[k] != id@,
        decreases syms.len() - i,
    {
        if str_eq(syms[i].id.as_str(), id) {
            proof {
                assert(ids[i as int] == id@);
            }
            return true;
        }
        i = i + 1;
    }
    false
}

fn first_in_file_exec(syms: &[SymbolRecord], file: &[char], name: &str) -> (r: Option<String>)
    ensures
        r matches Some(t) ==> first_in_file(syms@, file@, name@, 0) == Some(t@),
        r is None ==> first_in_file(syms@, file@, name@, 0) is None,
{
    let mut k: usize = 0;
    while k < syms.len()
        invariant
            k <= syms@.len(),
            first_in_file(syms@, file@, name@, 0) == first_in_file(syms@, file@, name@, k as int),
        decreases syms.len() - k,
    {
        let f = id_file_exec(syms[k].id.as_str());
        if crate::text::chars_eq(f.as_slice(), file) && str_eq(syms[k].name.as_str(), name) {
            return Some(syms[k].id.clone());
        }
        k = k + 1;
    }
    None
}

fn first_in_imports_exec(syms: &[SymbolRecord], edges: &[(String, String)], file: &[char], name: &str) -> (r: Option<String>)
    ensures
        r matches Some(t) ==> first_in_imports(syms@, pair_views(edges@), file@, name@, 0) == Some(t@),
        r is None ==> first_in_imports(syms@, pair_views(edges@), file@, name@, 0) is None,
{
    let ghost ev = pair_views(edges@);
    let mut e: usize = 0;
    while e < edges.len()
        invariant
            e <= edges@.len(),
            ev == pair_views(edges@),
            first_in_imports(syms@, ev, file@, name@, 0) == first_in_imports(syms@, ev, file@, name@, e as int),
        decreases edges.len() - e,
    {
        proof {
            assert(ev[e as int] == (edges@[e as int].0@, edges@[e as int].1@));
        }
        let from = to_chars(edges[e].0.as_str());
        if crate::text::chars_eq(from.as_slice(), file) {
            let to = to_chars(edges[e].1.as_str());
            match first_in_file_exec(syms, to.as_slice(), name) {
                Some(t) => {
                    return Some(t);
                },
                None => {},
            }
        }
        e = e + 1;
    }
    None
}

fn named_ids_exec(syms: &[SymbolRecord], name: &str, callable: bool) -> (r: Vec<String>)
    ensures
        string_views(r@) == named_ids(syms@, name@, callable, 0),
{
    proof {
        reveal_strlit("Function");
        reveal_strlit("Method");
    }
    let mut out: Vec<String> = Vec::new();
    let mut k: usize = 0;
    while k < syms.len()
        invariant
            k <= syms@.len(),
            string_views(out@) + named_ids(syms@, name@, callable, k as int) == named_ids(syms@, name@, callable, 0),
        decreases syms.len() - k,
    {
        let ghost before = string_views(out@);
        let keep = str_eq(syms[k].name.as_str(), name) && (!callable || str_eq(syms[k].kind.as_str(), "Function")
            || str_eq(syms[k].kind.as_str(), "Method"));
        if keep {
            out.push(syms[k].id.clone());
            proof {
                assert(string_views(out@) =~= before + seq![syms@[k as int].id@]);
            }
        }
        proof {
            assert(string_views(out@) + named_ids(syms@, name@, callable, k + 1) =~= before + named_ids(syms@, name@, callable, k as int));
        }
        k = k + 1;
    }
    proof {
        assert(named_ids(syms@, name@, callable, k as int) =~= seq![]);
        assert(string_views(out@) =~= string_views(out@) + named_ids(syms@, name@, callable, k as int));
    }
    out
}

/// What a call of `name` made inside the symbol `id` resolves to.
pub fn resolve_call(syms: &[SymbolRecord], edges: &[(String, String)], id: &str, name: &str, is_method: bool) -> (r: Vec<String>)
    ensures
        string_views(r@) == call_targets(syms@, pair_views(edges@), id@, name@, is_method),
{
    let sibling = if is_method {
        match sibling_id_exec(id, name) {
            Some(m) => if has_id(syms, m.as_str()) {
                Some(m)
            } else {
                None
            },
            None => None,
        }
    } else {
        None
    };
    let mut out: Vec<String> = Vec::new();
    match sibling {
        Some(m) => {
            out.push(m);
        },
        None => {
            let file = id_file_exec(id);
            match first_in_file_exec(syms, file.as_slice(), name) {
                Some(t) => {
                    out.push(t);
                },
                None => match first_in_imports_exec(syms, edges, file.as_slice(), name) {
                    Some(t) => {
                        out.push(t);
                    },
                    None => {
                        let c = named_ids_exec(syms, name, true);
                        if c.len() > 0 {
                            return c;
                        }
                        return named_ids_exec(syms, name, false);
                    },
                },
            }
        },
    }
    proof {
        assert(string_views(out@) =~= call_targets(syms@, pair_views(edges@), id@, name@, is_method));
    }
    out
}

/// The symbol-to-symbol call edges that the symbols' parsed calls resolve
/// to, with the line of each call: for each symbol in order whose calls
/// parsed, each call gives an edge to every symbol it resolves to; each
/// edge is listed once.
pub fn resolve_calls(symbols: &[SymbolRecord], parsed: &[Option<Vec<RawCall>>], import_edges: &[(String, String)]) -> (r: Vec<(String, String, usize)>)
    ensures
        triple_views(r@) == link_calls(seq![], symbols@, parsed_call_views(parsed@), pair_views(import_edges@), 0),
{
    let ghost pv = parsed_call_views(parsed@);
    let ghost ev = pair_views(import_edges@);
    let mut out: Vec<(String, String, usize)> = Vec::new();
    let mut i: usize = 0;
    proof {
        assert(triple_views(out@) =~= seq![]);
    }
    while i < symbols.len()
        invariant
            i <= symbols@.len(),
            pv == parsed_call_views(parsed@),
            ev == pair_views(import_edges@),
            link_calls(triple_views(out@), symbols@, pv, ev, i as int) == link_calls(seq![], symbols@, pv, ev, 0),
        decreases symbols.len() - i,
    {
        if i < parsed.len() {
            match &parsed[i] {
                Some(calls) => {
                    let ghost cv = crate::types::ast::call_views(calls@);
                    proof {
                        assert(pv[i as int] == Some(cv));
                    }
                    let ghost start = triple_views(out@);
                    let mut j: usize = 0;
                    while j < calls.len()
                        invariant
                            j <= calls@.len(),
                            i < symbols@.len(),
                            ev == pair_views(import_edges@),
                            cv == crate::types::ast::call_views(calls@),
                            link_symbol(triple_views(out@), symbols@, ev, symbols@[i as int].id@, cv, j as int)
                                == link_symbol(start, symbols@, ev, symbols@[i as int].id@, cv, 0),
                        decreases calls.len() - j,
                    {
                        proof {
                            assert(cv[j as int] == calls@[j as int]@);
                        }
                        let targets = resolve_call(symbols, import_edges, symbols[i].id.as_str(), calls[j].name.as_str(), calls[j].is_method);
                        let ghost tv = string_views(targets@);
                        let ghost line = calls@[j as int].line as int;
                        let ghost id = symbols@[i as int].id@;
                        let ghost start_k = triple_views(out@);
                        let mut k: usize = 0;
                        while k < targets.len()
                            invariant
                                k <= targets@.len(),
                                i < symbols@.len(),
                                j < calls@.len(),
                                id == symbols@[i as int].id@,
                                line == calls@[j as int].line as int,
                                tv == string_views(targets@),
                                link_targets(triple_views(out@), id, tv, line, k as int)
                                    == link_targets(start_k, id, tv, line, 0),
                            decreases targets.len() - k,
                        {
                            proof {
                                assert(tv[k as int] == targets@[k as int]@);
                            }
                            push_unique_triple(&mut out, symbols[i].id.clone(), targets[k].clone(), calls[j].line);
                            k = k + 1;
                        }
                        j = j + 1;
                    }
                },
                None => {},
            }
        }
        i = i + 1;
    }
    out
}

// ───────────────────────── laws ─────────────────────────

proof fn lemma_add_one_keeps<T>(acc: Seq<T>, x: T, good: spec_fn(T) -> bool)
    requires
        acc.no_duplicates(),
        forall|i: int| 0 <= i < acc.len() ==> good(#[trigger] acc[i]),
        good(x),
    ensures
        add_one(acc, x).no_duplicates(),
        forall|i: int| 0 <= i < add_one(acc, x).len() ==> good(#[trigger] add_one(acc, x)[i]),
{
}

proof fn lemma_first_known_known(known: Seq<Seq<char>>, cands: Seq<Seq<char>>, k: int)
    ensures
        first_known(known, cands, k) matches Some(x) ==> known.contains(x),
    decreases cands.len() - k,
{
    if 0 <= k < cands.len() && !known.contains(cands[k]) {
        lemma_first_known_known(known, cands, k + 1);
    }
}

proof fn lemma_rust_walk_known(known: Seq<Seq<char>>, segs: Seq<Seq<char>>, i: int, cur: Seq<char>, last: Option<Seq<char>>)
    requires
        last matches Some(l) ==> known.contains(l),
    ensures
        rust_walk(known, segs, i, cur, last) matches Some(x) ==> known.contains(x),
    decreases segs.len() - i,
{
    if 0 <= i < segs.len() {
        let rs = normalized(path_join(cur, segs[i] + ".rs"@));
        let md = normalized(path_join(path_join(cur, segs[i]), "mod.rs"@));
        if known.contains(rs) {
            lemma_rust_walk_known(known, segs, i + 1, path_join(cur, segs[i]), Some(rs));
        } else if known.contains(md) {
            lemma_rust_walk_known(known, segs, i + 1, path_join(cur, segs[i]), Some(md));
        }
    }
}

/// An import resolves only to an indexed file.
pub proof fn lemma_import_target_known(known: Seq<Seq<char>>, file: Seq<char>, imp: Seq<char>)
    ensures
        import_target(known, file, imp) matches Some(t) ==> known.contains(t),
{
    let base_dir = path_parent(file);
    if starts_with(imp, "."@) {
        lemma_first_known_known(known, relative_candidates(normalized(path_join(base_dir, imp))), 0);
    } else if path_extension(file) == Some("rs"@) {
        let segs = split(imp, "::"@);
        if segs.len() != 0 {
            let (start, dir) = rust_start(segs, base_dir);
            lemma_rust_walk_known(known, segs, start, dir, None);
        }
    }
}

/// An import edge joins two indexed files.
pub open spec fn indexed_edge(paths: Seq<Seq<char>>, e: (Seq<char>, Seq<char>)) -> bool {
    paths.contains(e.0) && paths.contains(e.1)
}

proof fn lemma_link_file_edges(
    acc: Seq<(Seq<char>, Seq<char>)>,
    file: Seq<char>,
    imps: Seq<Seq<char>>,
    known: Seq<Seq<char>>,
    j: int,
)
    requires
        known.contains(file),
        acc.no_duplicates(),
        forall|i: int| 0 <= i < acc.len() ==> indexed_edge(known, #[trigger] acc[i]),
    ensures
        link_file(acc, file, imps, known, j).no_duplicates(),
        forall|i: int|
            0 <= i < link_file(acc, file, imps, known, j).len() ==> indexed_edge(
                known,
                #[trigger] link_file(acc, file, imps, known, j)[i],
            ),
    decreases imps.len() - j,
{
    if 0 <= j < imps.len() {
        let good = |e: (Seq<char>, Seq<char>)| indexed_edge(known, e);
        let next = match import_target(known, file, imps[j]) {
            Some(t) => add_one(acc, (file, t)),
            None => acc,
        };
        lemma_import_target_known(known, file, imps[j]);
        if let Some(t) = import_target(known, file, imps[j]) {
            lemma_add_one_keeps(acc, (file, t), good);
        }
        lemma_link_file_edges(next, file, imps, known, j + 1);
    }
}

proof fn lemma_link_files_edges(
    acc: Seq<(Seq<char>, Seq<char>)>,
    paths: Seq<Seq<char>>,
    parsed: Seq<Option<Seq<Seq<char>>>>,
    i: int,
)
    requires
        i >= 0,
        acc.no_duplicates(),
        forall|k: int| 0 <= k < acc.len() ==> indexed_edge(paths, #[trigger] acc[k]),
    ensures
        link_files(acc, paths, parsed, i).no_duplicates(),
        forall|k: int|
            0 <= k < link_files(acc, paths, parsed, i).len() ==> indexed_edge(
                paths,
                #[trigger] link_files(acc, paths, parsed, i)[k],
            ),
    decreases paths.len() - i,
{
    if i < paths.len() {
        let next = match imports_at(parsed, i) {
            Some(imps) => link_file(acc, paths[i], imps, paths, 0),
            None => acc,
        };
        if let Some(imps) = imports_at(parsed, i) {
            assert(paths.contains(paths[i]));
            lemma_link_file_edges(acc, paths[i], imps, paths, 0);
        }
        lemma_link_files_edges(next, paths, parsed, i + 1);
    }
}

/// The import edges that `resolve_imports` gives join indexed files, and
/// none is listed twice.
pub proof fn lemma_import_edges_indexed_and_unique(paths: Seq<Seq<char>>, parsed: Seq<Option<Seq<Seq<char>>>>)
    ensures
        link_files(seq![], paths, parsed, 0).no_duplicates(),
        forall|k: int|
            0 <= k < link_files(seq![], paths, parsed, 0).len() ==> indexed_edge(
                paths,
                #[trigger] link_files(seq![], paths, parsed, 0)[k],
            ),
{
    lemma_link_files_edges(seq![], paths, parsed, 0);
}

proof fn lemma_first_in_file_indexed(syms: Seq<SymbolRecord>, file: Seq<char>, name: Seq<char>, k: int)
    ensures
        first_in_file(syms, file, name, k) matches Some(x) ==> symbol_ids(syms).contains(x),
    decreases syms.len() - k,
{
    if 0 <= k < syms.len() {
        if id_file(syms[k].id@) == file && syms[k].name@ == name {
            assert(symbol_ids(syms)[k] == syms[k].id@);
        } else {
            lemma_first_in_file_indexed(syms, file, name, k + 1);
        }
    }
}

proof fn lemma_first_in_imports_indexed(
    syms: Seq<SymbolRecord>,
    edges: Seq<(Seq<char>, Seq<char>)>,
    file: Seq<char>,
    name: Seq<char>,
    e: int,
)
    ensures
        first_in_imports(syms, edges, file, name, e) matches Some(x) ==> symbol_ids(syms).contains(x),
    decreases edges.len() - e,
{
    if 0 <= e < edges.len() {
        lemma_first_in_file_indexed(syms, edges[e].1, name, 0);
        lemma_first_in_imports_indexed(syms, edges, file, name, e + 1);
    }
}

proof fn lemma_named_ids_indexed(syms: Seq<SymbolRecord>, name: Seq<char>, callable: bool, k: int)
    requires
        k >= 0,
    ensures
        forall|i: int|
            0 <= i < named_ids(syms, name, callable, k).len() ==> symbol_ids(syms).contains(
                #[trigger] named_ids(syms, name, callable, k)[i],
            ),
    decreases syms.len() - k,
{
    if k < syms.len() {
        lemma_named_ids_indexed(syms, name, callable, k + 1);
        let s = syms[k];
        let keep = s.name@ == name && (!callable || s.kind@ == "Function"@ || s.kind@ == "Method"@);
        let head: Seq<Seq<char>> = if keep {
            seq![s.id@]
        } else {
            seq![]
        };
        let rest = named_ids(syms, name, callable, k + 1);
        assert(symbol_ids(syms)[k] == s.id@);
        assert forall|i: int| 0 <= i < (head + rest).len() implies symbol_ids(syms).contains(#[trigger] (head + rest)[i]) by {
            if i >= head.len() {
                assert((head + rest)[i] == rest[i - head.len()]);
            }
        }
    }
}

/// A call resolves only to indexed symbols.
pub proof fn lemma_call_targets_indexed(
    syms: Seq<SymbolRecord>,
    edges: Seq<(Seq<char>, Seq<char>)>,
    id: Seq<char>,
    name: Seq<char>,
    is_method: bool,
)
    ensures
        forall|i: int|
            0 <= i < call_targets(syms, edges, id, name, is_method).len() ==> symbol_ids(syms).contains(
                #[trigger] call_targets(syms, edges, id, name, is_method)[i],
            ),
{
    lemma_first_in_file_indexed(syms, id_file(id), name, 0);
    lemma_first_in_imports_indexed(syms, edges, id_file(id), name, 0);
    lemma_named_ids_indexed(syms, name, true, 0);
    lemma_named_ids_indexed(syms, name, false, 0);
}

/// A call edge joins two indexed symbols.
pub open spec fn indexed_call(syms: Seq<SymbolRecord>, e: (Seq<char>, Seq<char>, int)) -> bool {
    symbol_ids(syms).contains(e.0) && symbol_ids(syms).contains(e.1)
}

proof fn lemma_link_targets_edges(
    acc: Seq<(Seq<char>, Seq<char>, int)>,
    syms: Seq<SymbolRecord>,
    from: Seq<char>,
    ts: Seq<Seq<char>>,
    line: int,
    k: int,
)
    requires
        symbol_ids(syms).contains(from),
        forall|i: int| 0 <= i < ts.len() ==> symbol_ids(syms).contains(#[trigger] ts[i]),
        acc.no_duplicates(),
        forall|i: int| 0 <= i < acc.len() ==> indexed_call(syms, #[trigger] acc[i]),
    ensures
        link_targets(acc, from, ts, line, k).no_duplicates(),
        forall|i: int|
            0 <= i < link_targets(acc, from, ts, line, k).len() ==> indexed_call(
                syms,
                #[trigger] link_targets(acc, from, ts, line, k)[i],
            ),
    decreases ts.len() - k,
{
    if 0 <= k < ts.len() {
        let good = |e: (Seq<char>, Seq<char>, int)| indexed_call(syms, e);
        lemma_add_one_keeps(acc, (from, ts[k], line), good);
        lemma_link_targets_edges(add_one(acc, (from, ts[k], line)), syms, from, ts, line, k + 1);
    }
}

proof fn lemma_link_symbol_edges(
    acc: Seq<(Seq<char>, Seq<char>, int)>,
    syms: Seq<SymbolRecord>,
    edges: Seq<(Seq<char>, Seq<char>)>,
    id: Seq<char>,
    calls: Seq<crate::types::ast::CallView>,
    j: int,
)
    requires
        symbol_ids(syms).contains(id),
        acc.no_duplicates(),
        forall|i: int| 0 <= i < acc.len() ==> indexed_call(syms, #[trigger] acc[i]),
    ensures
        link_symbol(acc, syms, edges, id, calls, j).no_duplicates(),
        forall|i: int|
            0 <= i < link_symbol(acc, syms, edges, id, calls, j).len() ==> indexed_call(
                syms,
                #[trigger] link_symbol(acc, syms, edges, id, calls, j)[i],
            ),
    decreases calls.len() - j,
{
    if 0 <= j < calls.len() {
        let c = calls[j];
        lemma_call_targets_indexed(syms, edges, id, c.name, c.is_method);
        lemma_link_targets_edges(acc, syms, id, call_targets(syms, edges, id, c.name, c.is_method), c.line, 0);
        lemma_link_symbol_edges(
            link_targets(acc, id, call_targets(syms, edges, id, c.name, c.is_method), c.line, 0),
            syms,
            edges,
            id,
            calls,
            j + 1,
        );
    }
}

proof fn lemma_link_calls_edges(
    acc: Seq<(Seq<char>, Seq<char>, int)>,
    syms: Seq<SymbolRecord>,
    parsed: Seq<Option<Seq<crate::types::ast::CallView>>>,
    edges: Seq<(Seq<char>, Seq<char>)>,
    i: int,
)
    requires
        i >= 0,
        acc.no_duplicates(),
        forall|k: int| 0 <= k < acc.len() ==> indexed_call(syms, #[trigger] acc[k]),
    ensures
        link_calls(acc, syms, parsed, edges, i).no_duplicates(),
        forall|k: int|
            0 <= k < link_calls(acc, syms, parsed, edges, i).len() ==> indexed_call(
                syms,
                #[trigger] link_calls(acc, syms, parsed, edges, i)[k],
            ),
    decreases syms.len() - i,
{
    if i < syms.len() {
        let next = match calls_at(parsed, i) {
            Some(calls) => link_symbol(acc, syms, edges, syms[i].id@, calls, 0),
            None => acc,
        };
        if let Some(calls) = calls_at(parsed, i) {
            assert(symbol_ids(syms)[i] == syms[i].id@);
            lemma_link_symbol_edges(acc, syms, edges, syms[i].id@, calls, 0);
        }
        lemma_link_calls_edges(next, syms, parsed, edges, i + 1);
    }
}

/// The call edges that `resolve_calls` gives join indexed symbols, and
/// none is listed twice.
pub proof fn lemma_call_edges_indexed_and_unique(
    syms: Seq<SymbolRecord>,
    parsed: Seq<Option<Seq<crate::types::ast::CallView>>>,
    edges: Seq<(Seq<char>, Seq<char>)>,
)
    ensures
        link_calls(seq![], syms, parsed, edges, 0).no_duplicates(),
        forall|k: int|
            0 <= k < link_calls(seq![], syms, parsed, edges, 0).len() ==> indexed_call(
                syms,
                #[trigger] link_calls(seq![], syms, parsed, edges, 0)[k],
            ),
{
    lemma_link_calls_edges(seq![], syms, parsed, edges, 0);
}


/// Call `j` of symbol `i`, whose calls parsed, gives edge `e`: the edge
/// runs from the symbol, on the call's line, to one of the call's targets.
pub open spec fn edge_of_call(
    syms: Seq<SymbolRecord>,
    parsed: Seq<Option<Seq<crate::types::ast::CallView>>>,
    edges: Seq<(Seq<char>, Seq<char>)>,
    e: (Seq<char>, Seq<char>, int),
    i: int,
    j: int,
) -> bool {
    &&& 0 <= i < syms.len()
    &&& calls_at(parsed, i) matches Some(cs)
    &&& 0 <= j < cs.len()
    &&& e.0 == syms[i].id@
    &&& e.2 == cs[j].line
    &&& call_targets(syms, edges, syms[i].id@, cs[j].name, cs[j].is_method).contains(e.1)
}

/// Edge `e` is given by some parsed call.
#[verifier::opaque]
pub open spec fn from_some_call(
    syms: Seq<SymbolRecord>,
    parsed: Seq<Option<Seq<crate::types::ast::CallView>>>,
    edges: Seq<(Seq<char>, Seq<char>)>,
    e: (Seq<char>, Seq<char>, int),
) -> bool {
    exists|i: int, j: int| #[trigger] edge_of_call(syms, parsed, edges, e, i, j)
}

proof fn lemma_link_targets_from(
    acc: Seq<(Seq<char>, Seq<char>, int)>,
    syms: Seq<SymbolRecord>,
    parsed: Seq<Option<Seq<crate::types::ast::CallView>>>,
    edges: Seq<(Seq<char>, Seq<char>)>,
    i: int,
    j: int,
    from: Seq<char>,
    ts: Seq<Seq<char>>,
    line: int,
    k: int,
)
    requires
        0 <= i < syms.len(),
        calls_at(parsed, i) matches Some(cs) && 0 <= j < cs.len() && from == syms[i].id@ && line == cs[j].line
            && ts == call_targets(syms, edges, from, cs[j].name, cs[j].is_method),
        forall|x: int| 0 <= x < acc.len() ==> from_some_call(syms, parsed, edges, #[trigger] acc[x]),
    ensures
        forall|x: int|
            0 <= x < link_targets(acc, from, ts, line, k).len() ==> from_some_call(
                syms,
                parsed,
                edges,
                #[trigger] link_targets(acc, from, ts, line, k)[x],
            ),
    decreases ts.len() - k,
{
    if 0 <= k < ts.len() {
        let e = (from, ts[k], line);
        assert(ts.contains(ts[k]));
        assert(edge_of_call(syms, parsed, edges, e, i, j));
        assert(from_some_call(syms, parsed, edges, e)) by {
            reveal(from_some_call);
        }
        let next = add_one(acc, e);
        assert forall|x: int| 0 <= x < next.len() implies from_some_call(syms, parsed, edges, #[trigger] next[x]) by {
            if x >= acc.len() {
                assert(next[x] == e);
            } else {
                assert(next[x] == acc[x]);
            }
        }
        lemma_link_targets_from(next, syms, parsed, edges, i, j, from, ts, line, k + 1);
        assert(link_targets(acc, from, ts, line, k) == link_targets(next, from, ts, line, k + 1));
    } else {
        assert(link_targets(acc, from, ts, line, k) == acc);
    }
}

proof fn lemma_link_symbol_from(
    acc: Seq<(Seq<char>, Seq<char>, int)>,
    syms: Seq<SymbolRecord>,
    parsed: Seq<Option<Seq<crate::types::ast::CallView>>>,
    edges: Seq<(Seq<char>, Seq<char>)>,
    i: int,
    calls: Seq<crate::types::ast::CallView>,
    j: int,
)
    requires
        0 <= i < syms.len(),
        calls_at(parsed, i) == Some(calls),
        forall|x: int| 0 <= x < acc.len() ==> from_some_call(syms, parsed, edges, #[trigger] acc[x]),
    ensures
        forall|x: int|
            0 <= x < link_symbol(acc, syms, edges, syms[i].id@, calls, j).len() ==> from_some_call(
                syms,
                parsed,
                edges,
                #[trigger] link_symbol(acc, syms, edges, syms[i].id@, calls, j)[x],
            ),
    decreases calls.len() - j,
{
    if 0 <= j < calls.len() {
        let c = calls[j];
        let id = syms[i].id@;
        let ts = call_targets(syms, edges, id, c.name, c.is_method);
        lemma_link_targets_from(acc, syms, parsed, edges, i, j, id, ts, c.line, 0);
        lemma_link_symbol_from(link_targets(acc, id, ts, c.line, 0), syms, parsed, edges, i, calls, j + 1);
        assert(link_symbol(acc, syms, edges, id, calls, j) == link_symbol(
            link_targets(acc, id, ts, c.line, 0),
            syms,
            edges,
            id,
            calls,
            j + 1,
        ));
    } else {
        assert(link_symbol(acc, syms, edges, syms[i].id@, calls, j) == acc);
    }
}

proof fn lemma_link_calls_from(
    acc: Seq<(Seq<char>, Seq<char>, int)>,
    syms: Seq<SymbolRecord>,
    parsed: Seq<Option<Seq<crate::types::ast::CallView>>>,
    edges: Seq<(Seq<char>, Seq<char>)>,
    i: int,
)
    requires
        i >= 0,
        forall|x: int| 0 <= x < acc.len() ==> from_some_call(syms, parsed, edges, #[trigger] acc[x]),
    ensures
        forall|x: int|
            0 <= x < link_calls(acc, syms, parsed, edges, i).len() ==> from_some_call(
                syms,
                parsed,
                edges,
                #[trigger] link_calls(acc, syms, parsed, edges, i)[x],
            ),
    decreases syms.len() - i,
{
    if i < syms.len() {
        let next = match calls_at(parsed, i) {
            Some(calls) => link_symbol(acc, syms, edges, syms[i].id@, calls, 0),
            None => acc,
        };
        if let Some(calls) = calls_at(parsed, i) {
            lemma_link_symbol_from(acc, syms, parsed, edges, i, calls, 0);
        }
        lemma_link_calls_from(next, syms, parsed, edges, i + 1);
        assert(link_calls(acc, syms, parsed, edges, i) == link_calls(next, syms, parsed, edges, i + 1));
    } else {
        assert(link_calls(acc, syms, parsed, edges, i) == acc);
    }
}

/// Every call edge that `resolve_calls` gives comes from a call that was
/// parsed for its source symbol: it runs from that symbol, on the call's
/// line, to one of the call's targets. A symbol whose calls did not parse
/// gives no edge.
pub proof fn lemma_call_edges_come_from_calls(
    syms: Seq<SymbolRecord>,
    parsed: Seq<Option<Seq<crate::types::ast::CallView>>>,
    edges: Seq<(Seq<char>, Seq<char>)>,
)
    ensures
        forall|x: int|
            0 <= x < link_calls(seq![], syms, parsed, edges, 0).len() ==> from_some_call(
                syms,
                parsed,
                edges,
                #[trigger] link_calls(seq![], syms, parsed, edges, 0)[x],
            ),
{
    lemma_link_calls_from(seq![], syms, parsed, edges, 0);
}

/// `t` is the id of a symbol named `name`.
pub open spec fn names_symbol(syms: Seq<SymbolRecord>, t: Seq<char>, name: Seq<char>) -> bool {
    exists|m: int| 0 <= m < syms.len() && #[trigger] syms[m].id@ == t && syms[m].name@ == name
}

/// `t` is the id of a function or method named `name`.
pub open spec fn names_callable(syms: Seq<SymbolRecord>, t: Seq<char>, name: Seq<char>) -> bool {
    exists|m: int|
        0 <= m < syms.len() && #[trigger] syms[m].id@ == t && syms[m].name@ == name && (syms[m].kind@ == "Function"@
            || syms[m].kind@ == "Method"@)
}

proof fn lemma_named_ids_members(syms: Seq<SymbolRecord>, name: Seq<char>, callable: bool, k: int)
    requires
        k >= 0,
    ensures
        forall|t: Seq<char>|
            #[trigger] named_ids(syms, name, callable, k).contains(t) <==> exists|m: int|
                k <= m < syms.len() && #[trigger] syms[m].id@ == t && syms[m].name@ == name && (!callable
                    || syms[m].kind@ == "Function"@ || syms[m].kind@ == "Method"@),
    decreases syms.len() - k,
{
    if k < syms.len() {
        lemma_named_ids_members(syms, name, callable, k + 1);
        let s = syms[k];
        let keep = s.name@ == name && (!callable || s.kind@ == "Function"@ || s.kind@ == "Method"@);
        let head: Seq<Seq<char>> = if keep {
            seq![s.id@]
        } else {
            seq![]
        };
        let rest = named_ids(syms, name, callable, k + 1);
        assert(named_ids(syms, name, callable, k) == head + rest);
        assert forall|t: Seq<char>|
            #[trigger] (head + rest).contains(t) <==> exists|m: int|
                k <= m < syms.len() && #[trigger] syms[m].id@ == t && syms[m].name@ == name && (!callable
                    || syms[m].kind@ == "Function"@ || syms[m].kind@ == "Method"@) by {
            if (head + rest).contains(t) {
                let x = choose|x: int| 0 <= x < (head + rest).len() && (head + rest)[x] == t;
                if x >= head.len() {
                    assert(rest[x - head.len()] == t);
                    assert(rest.contains(t));
                } else {
                    assert(syms[k].id@ == t);
                }
            }
            if exists|m: int|
                k <= m < syms.len() && #[trigger] syms[m].id@ == t && syms[m].name@ == name && (!callable
                    || syms[m].kind@ == "Function"@ || syms[m].kind@ == "Method"@) {
                let m = choose|m: int|
                    k <= m < syms.len() && #[trigger] syms[m].id@ == t && syms[m].name@ == name && (!callable
                        || syms[m].kind@ == "Function"@ || syms[m].kind@ == "Method"@);
                if m == k {
                    assert((head + rest)[0] == t);
                } else {
                    assert(rest.contains(t));
                    let y = choose|y: int| 0 <= y < rest.len() && rest[y] == t;
                    assert((head + rest)[head.len() + y] == t);
                }
            }
        }
    } else {
        assert(named_ids(syms, name, callable, k) =~= seq![]);
    }
}

/// The global fallback for a call of `name` is every function or method of
/// that name when there is one, and every symbol of that name otherwise.
pub proof fn lemma_global_targets(syms: Seq<SymbolRecord>, name: Seq<char>)
    ensures
        (exists|t: Seq<char>| names_callable(syms, t, name)) ==> forall|t: Seq<char>|
            #[trigger] global_targets(syms, name).contains(t) <==> names_callable(syms, t, name),
        !(exists|t: Seq<char>| names_callable(syms, t, name)) ==> forall|t: Seq<char>|
            #[trigger] global_targets(syms, name).contains(t) <==> names_symbol(syms, t, name),
{
    lemma_named_ids_members(syms, name, true, 0);
    lemma_named_ids_members(syms, name, false, 0);
    let c = named_ids(syms, name, true, 0);
    if exists|t: Seq<char>| names_callable(syms, t, name) {
        let t = choose|t: Seq<char>| names_callable(syms, t, name);
        let m = choose|m: int|
            0 <= m < syms.len() && #[trigger] syms[m].id@ == t && syms[m].name@ == name && (syms[m].kind@ == "Function"@
                || syms[m].kind@ == "Method"@);
        assert(c.contains(t));
        assert(c.len() > 0);
    } else {
        if c.len() > 0 {
            assert(c.contains(c[0]));
            let m = choose|m: int|
                0 <= m < syms.len() && #[trigger] syms[m].id@ == c[0] && syms[m].name@ == name && (syms[m].kind@
                    == "Function"@ || syms[m].kind@ == "Method"@);
            assert(names_callable(syms, c[0], name));
        }
    }
}

proof fn lemma_first_in_file_named(syms: Seq<SymbolRecord>, file: Seq<char>, name: Seq<char>, k: int)
    ensures
        first_in_file(syms, file, name, k) matches Some(x) ==> names_symbol(syms, x, name) && id_file(x) == file,
    decreases syms.len() - k,
{
    if 0 <= k < syms.len() {
        if id_file(syms[k].id@) == file && syms[k].name@ == name {
            assert(syms[k].id@ == syms[k].id@);
        } else {
            lemma_first_in_file_named(syms, file, name, k + 1);
        }
    }
}

proof fn lemma_first_in_imports_named(
    syms: Seq<SymbolRecord>,
    edges: Seq<(Seq<char>, Seq<char>)>,
    file: Seq<char>,
    name: Seq<char>,
    e: int,
)
    ensures
        first_in_imports(syms, edges, file, name, e) matches Some(x) ==> names_symbol(syms, x, name),
    decreases edges.len() - e,
{
    if 0 <= e < edges.len() {
        lemma_first_in_file_named(syms, edges[e].1, name, 0);
        lemma_first_in_imports_named(syms, edges, file, name, e + 1);
    }
}

/// A call of `name` made inside the symbol `id` resolves to symbols named
/// `name`, or, for a method call, to the sibling of `id` of that name.
pub proof fn lemma_call_targets_named(
    syms: Seq<SymbolRecord>,
    edges: Seq<(Seq<char>, Seq<char>)>,
    id: Seq<char>,
    name: Seq<char>,
    is_method: bool,
)
    ensures
        forall|t: Seq<char>|
            #[trigger] call_targets(syms, edges, id, name, is_method).contains(t) ==> names_symbol(syms, t, name)
                || (is_method && sibling_id(id, name) == Some(t)),
{
    lemma_first_in_file_named(syms, id_file(id), name, 0);
    lemma_first_in_imports_named(syms, edges, id_file(id), name, 0);
    lemma_named_ids_members(syms, name, true, 0);
    lemma_named_ids_members(syms, name, false, 0);
    assert forall|t: Seq<char>|
        #[trigger] call_targets(syms, edges, id, name, is_method).contains(t) implies names_symbol(syms, t, name)
            || (is_method && sibling_id(id, name) == Some(t)) by {
        let ts = call_targets(syms, edges, id, name, is_method);
        let x = choose|x: int| 0 <= x < ts.len() && ts[x] == t;
        if global_targets(syms, name).contains(t) {
            if named_ids(syms, name, true, 0).contains(t) {
                let m = choose|m: int|
                    0 <= m < syms.len() && #[trigger] syms[m].id@ == t && syms[m].name@ == name && (!true
                        || syms[m].kind@ == "Function"@ || syms[m].kind@ == "Method"@);
            } else {
                let m = choose|m: int|
                    0 <= m < syms.len() && #[trigger] syms[m].id@ == t && syms[m].name@ == name && (!false
                        || syms[m].kind@ == "Function"@ || syms[m].kind@ == "Method"@);
            }
        }
    }
}


/// Import `j` of file `i`, whose imports parsed, gives edge `e`: the edge
/// runs from the file to the file that import resolves to.
pub open spec fn edge_of_import(
    paths: Seq<Seq<char>>,
    parsed: Seq<Option<Seq<Seq<char>>>>,
    e: (Seq<char>, Seq<char>),
    i: int,
    j: int,
) -> bool {
    &&& 0 <= i < paths.len()
    &&& imports_at(parsed, i) matches Some(imps)
    &&& 0 <= j < imps.len()
    &&& e.0 == paths[i]
    &&& import_target(paths, paths[i], imps[j]) == Some(e.1)
}

/// Edge `e` is given by some parsed import.
#[verifier::opaque]
pub open spec fn from_some_import(paths: Seq<Seq<char>>, parsed: Seq<Option<Seq<Seq<char>>>>, e: (Seq<char>, Seq<char>)) -> bool {
    exists|i: int, j: int| #[trigger] edge_of_import(paths, parsed, e, i, j)
}

proof fn lemma_link_file_from(
    acc: Seq<(Seq<char>, Seq<char>)>,
    paths: Seq<Seq<char>>,
    parsed: Seq<Option<Seq<Seq<char>>>>,
    i: int,
    imps: Seq<Seq<char>>,
    j: int,
)
    requires
        0 <= i < paths.len(),
        imports_at(parsed, i) == Some(imps),
        forall|x: int| 0 <= x < acc.len() ==> from_some_import(paths, parsed, #[trigger] acc[x]),
    ensures
        forall|x: int|
            0 <= x < link_file(acc, paths[i], imps, paths, j).len() ==> from_some_import(
                paths,
                parsed,
                #[trigger] link_file(acc, paths[i], imps, paths, j)[x],
            ),
    decreases imps.len() - j,
{
    if 0 <= j < imps.len() {
        let next = match import_target(paths, paths[i], imps[j]) {
            Some(t) => add_one(acc, (paths[i], t)),
            None => acc,
        };
        if let Some(t) = import_target(paths, paths[i], imps[j]) {
            let e = (paths[i], t);
            assert(edge_of_import(paths, parsed, e, i, j));
            assert(from_some_import(paths, parsed, e)) by {
                reveal(from_some_import);
            }
            assert forall|x: int| 0 <= x < next.len() implies from_some_import(paths, parsed, #[trigger] next[x]) by {
                if x >= acc.len() {
                    assert(next[x] == e);
                } else {
                    assert(next[x] == acc[x]);
                }
            }
        }
        lemma_link_file_from(next, paths, parsed, i, imps, j + 1);
        assert(link_file(acc, paths[i], imps, paths, j) == link_file(next, paths[i], imps, paths, j + 1));
    } else {
        assert(link_file(acc, paths[i], imps, paths, j) == acc);
    }
}

proof fn lemma_link_files_from(
    acc: Seq<(Seq<char>, Seq<char>)>,
    paths: Seq<Seq<char>>,
    parsed: Seq<Option<Seq<Seq<char>>>>,
    i: int,
)
    requires
        i >= 0,
        forall|x: int| 0 <= x < acc.len() ==> from_some_import(paths, parsed, #[trigger] acc[x]),
    ensures
        forall|x: int|
            0 <= x < link_files(acc, paths, parsed, i).len() ==> from_some_import(
                paths,
                parsed,
                #[trigger] link_files(acc, paths, parsed, i)[x],
            ),
    decreases paths.len() - i,
{
    if i < paths.len() {
        let next = match imports_at(parsed, i) {
            Some(imps) => link_file(acc, paths[i], imps, paths, 0),
            None => acc,
        };
        if let Some(imps) = imports_at(parsed, i) {
            lemma_link_file_from(acc, paths, parsed, i, imps, 0);
        }
        lemma_link_files_from(next, paths, parsed, i + 1);
        assert(link_files(acc, paths, parsed, i) == link_files(next, paths, parsed, i + 1));
    } else {
        assert(link_files(acc, paths, parsed, i) == acc);
    }
}

/// Every import edge that `resolve_imports` gives comes from an import
/// that was parsed for its source file and resolves to its target; a file
/// whose imports did not parse gives no edge.
pub proof fn lemma_import_edges_come_from_imports(paths: Seq<Seq<char>>, parsed: Seq<Option<Seq<Seq<char>>>>)
    ensures
        forall|x: int|
            0 <= x < link_files(seq![], paths, parsed, 0).len() ==> from_some_import(
                paths,
                parsed,
                #[trigger] link_files(seq![], paths, parsed, 0)[x],
            ),
{
    lemma_link_files_from(seq![], paths, parsed, 0);
}


proof fn lemma_first_in_file_is(syms: Seq<SymbolRecord>, file: Seq<char>, name: Seq<char>, k: int, m: int)
    requires
        0 <= k <= m < syms.len(),
        id_file(syms[m].id@) == file && syms[m].name@ == name,
        forall|j: int| 0 <= j < m ==> !(id_file(#[trigger] syms[j].id@) == file && syms[j].name@ == name),
    ensures
        first_in_file(syms, file, name, k) == Some(syms[m].id@),
    decreases m - k,
{
    if k < m {
        lemma_first_in_file_is(syms, file, name, k + 1, m);
    }
}

/// A plain (non-method) call of `name` made inside the symbol `id`, when
/// some symbol of `id`'s own file is named `name`, resolves to exactly one
/// target: the first symbol of that file with that name. Symbols of other
/// files with the same name, and import edges, play no part.
pub proof fn lemma_plain_call_prefers_own_file(
    syms: Seq<SymbolRecord>,
    edges: Seq<(Seq<char>, Seq<char>)>,
    id: Seq<char>,
    name: Seq<char>,
    m: int,
)
    requires
        0 <= m < syms.len(),
        before_first(syms[m].id@, "::"@) == before_first(id, "::"@),
        syms[m].name@ == name,
        forall|j: int|
            0 <= j < m ==> !(before_first(#[trigger] syms[j].id@, "::"@) == before_first(id, "::"@) && syms[j].name@
                == name),
    ensures
        call_targets(syms, edges, id, name, false) == seq![syms[m].id@],
{
    lemma_first_in_file_is(syms, id_file(id), name, 0, m);
}

/// The same for a method call whose sibling of that name (same owner) is
/// not indexed.
pub proof fn lemma_method_call_without_sibling_prefers_own_file(
    syms: Seq<SymbolRecord>,
    edges: Seq<(Seq<char>, Seq<char>)>,
    id: Seq<char>,
    name: Seq<char>,
    m: int,
)
    requires
        0 <= m < syms.len(),
        forall|s: Seq<char>| sibling_id(id, name) == Some(s) ==> forall|j: int| 0 <= j < syms.len() ==> #[trigger] syms[j].id@ != s,
        before_first(syms[m].id@, "::"@) == before_first(id, "::"@),
        syms[m].name@ == name,
        forall|j: int|
            0 <= j < m ==> !(before_first(#[trigger] syms[j].id@, "::"@) == before_first(id, "::"@) && syms[j].name@
                == name),
    ensures
        call_targets(syms, edges, id, name, true) == seq![syms[m].id@],
{
    lemma_first_in_file_is(syms, id_file(id), name, 0, m);
    if let Some(sib) = sibling_id(id, name) {
        if symbol_ids(syms).contains(sib) {
            let j = choose|j: int| 0 <= j < symbol_ids(syms).len() && symbol_ids(syms)[j] == sib;
            assert(syms[j].id@ == sib);
        }
    }
}


/// A relative import (one beginning with `.`) of the file at `file`,
/// joined to the file's directory and normalized into `t`, resolves to the
/// first indexed file among `t.ts`, `t.tsx`, `t.js`, `t.jsx`, `t/index.ts`
/// and `t/index.js`, tried in that order, and to nothing when none is
/// indexed.
pub proof fn lemma_relative_import_resolution(known: Seq<Seq<char>>, file: Seq<char>, imp: Seq<char>)
    requires
        imp.len() > 0,
        imp[0] == '.',
    ensures
        ({
            let t = normalized(path_join(path_parent(file), imp));
            let ts = path_with_extension(t, "ts"@);
            let tsx = path_with_extension(t, "tsx"@);
            let js = path_with_extension(t, "js"@);
            let jsx = path_with_extension(t, "jsx"@);
            let its = path_join(t, "index.ts"@);
            let ijs = path_join(t, "index.js"@);
            let r = import_target(known, file, imp);
            &&& known.contains(ts) ==> r == Some(ts)
            &&& !known.contains(ts) && known.contains(tsx) ==> r == Some(tsx)
            &&& !known.contains(ts) && !known.contains(tsx) && known.contains(js) ==> r == Some(js)
            &&& !known.contains(ts) && !known.contains(tsx) && !known.contains(js) && known.contains(jsx) ==> r == Some(jsx)
            &&& !known.contains(ts) && !known.contains(tsx) && !known.contains(js) && !known.contains(jsx) && known.contains(
                its,
            ) ==> r == Some(its)
            &&& !known.contains(ts) && !known.contains(tsx) && !known.contains(js) && !known.contains(jsx)
                && !known.contains(its) && known.contains(ijs) ==> r == Some(ijs)
            &&& !known.contains(ts) && !known.contains(tsx) && !known.contains(js) && !known.contains(jsx)
                && !known.contains(its) && !known.contains(ijs) ==> r is None
        }),
{
    reveal_strlit(".");
    assert(starts_with(imp, "."@)) by {
        assert(imp.take(1) =~= "."@);
    }
    let t = normalized(path_join(path_parent(file), imp));
    let c = relative_candidates(t);
    assert(first_known(known, c, 6) is None);
    assert(first_known(known, c, 5) == (if known.contains(c[5]) { Some(c[5]) } else { None }));
    assert(first_known(known, c, 4) == (if known.contains(c[4]) { Some(c[4]) } else { first_known(known, c, 5) }));
    assert(first_known(known, c, 3) == (if known.contains(c[3]) { Some(c[3]) } else { first_known(known, c, 4) }));
    assert(first_known(known, c, 2) == (if known.contains(c[2]) { Some(c[2]) } else { first_known(known, c, 3) }));
    assert(first_known(known, c, 1) == (if known.contains(c[1]) { Some(c[1]) } else { first_known(known, c, 2) }));
    assert(first_known(known, c, 0) == (if known.contains(c[0]) { Some(c[0]) } else { first_known(known, c, 1) }));
}

proof fn lemma_link_file_keeps(acc: Seq<(Seq<char>, Seq<char>)>, file: Seq<char>, imps: Seq<Seq<char>>, known: Seq<Seq<char>>, j: int)
    requires
        j >= 0,
    ensures
        forall|e: (Seq<char>, Seq<char>)| acc.contains(e) ==> #[trigger] link_file(acc, file, imps, known, j).contains(e),
        forall|x: int|
            j <= x < imps.len() && import_target(known, file, imps[x]) is Some ==> #[trigger] link_file(
                acc,
                file,
                imps,
                known,
                j,
            ).contains((file, import_target(known, file, imps[x])->0)),
    decreases imps.len() - j,
{
    if j < imps.len() {
        let next = match import_target(known, file, imps[j]) {
            Some(t) => add_one(acc, (file, t)),
            None => acc,
        };
        assert forall|e: (Seq<char>, Seq<char>)| acc.contains(e) implies next.contains(e) by {
            if let Some(t) = import_target(known, file, imps[j]) {
                if !acc.contains((file, t)) {
                    let i = choose|i: int| 0 <= i < acc.len() && acc[i] == e;
                    assert(acc.push((file, t))[i] == e);
                }
            }
        }
        if let Some(t) = import_target(known, file, imps[j]) {
            if !acc.contains((file, t)) {
                assert(acc.push((file, t))[acc.len() as int] == (file, t));
            }
            assert(next.contains((file, t)));
        }
        lemma_link_file_keeps(next, file, imps, known, j + 1);
        assert(link_file(acc, file, imps, known, j) == link_file(next, file, imps, known, j + 1));
    } else {
        assert(link_file(acc, file, imps, known, j) == acc);
    }
}

proof fn lemma_link_files_keeps(acc: Seq<(Seq<char>, Seq<char>)>, paths: Seq<Seq<char>>, parsed: Seq<Option<Seq<Seq<char>>>>, i: int)
    requires
        i >= 0,
    ensures
        forall|e: (Seq<char>, Seq<char>)| acc.contains(e) ==> #[trigger] link_files(acc, paths, parsed, i).contains(e),
        forall|f: int, x: int|
            i <= f < paths.len() && imports_at(parsed, f) is Some && 0 <= x < imports_at(parsed, f)->0.len()
                && import_target(paths, paths[f], imports_at(parsed, f)->0[x]) is Some ==> #[trigger] link_files(acc, paths, parsed, i).contains(
                (paths[f], import_target(paths, paths[f], imports_at(parsed, f)->0[x])->0),
            ),
    decreases paths.len() - i,
{
    if i < paths.len() {
        let next = match imports_at(parsed, i) {
            Some(imps) => link_file(acc, paths[i], imps, paths, 0),
            None => acc,
        };
        if let Some(imps) = imports_at(parsed, i) {
            lemma_link_file_keeps(acc, paths[i], imps, paths, 0);
        }
        lemma_link_files_keeps(next, paths, parsed, i + 1);
        assert(link_files(acc, paths, parsed, i) == link_files(next, paths, parsed, i + 1));
        let out = link_files(acc, paths, parsed, i);
        assert forall|f: int, x: int|
            i <= f < paths.len() && imports_at(parsed, f) is Some && 0 <= x < imports_at(parsed, f)->0.len()
                && import_target(paths, paths[f], imports_at(parsed, f)->0[x]) is Some implies #[trigger] out.contains(
            (paths[f], import_target(paths, paths[f], imports_at(parsed, f)->0[x])->0),
        ) by {
            if f == i {
                let imps = imports_at(parsed, f)->0;
                let e = (paths[f], import_target(paths, paths[f], imps[x])->0);
                assert(next.contains(e));
            }
        }
    } else {
        assert(link_files(acc, paths, parsed, i) == acc);
    }
}

/// Every import that was parsed for a file and resolves to an indexed file
/// gives an edge from that file to it: `resolve_imports` drops no resolved
/// import.
pub proof fn lemma_resolved_imports_give_edges(paths: Seq<Seq<char>>, parsed: Seq<Option<Seq<Seq<char>>>>, f: int, x: int)
    requires
        0 <= f < paths.len(),
        imports_at(parsed, f) matches Some(imps) && 0 <= x < imps.len(),
        import_target(paths, paths[f], imports_at(parsed, f)->0[x]) is Some,
    ensures
        link_files(seq![], paths, parsed, 0).contains(
            (paths[f], import_target(paths, paths[f], imports_at(parsed, f)->0[x])->0),
        ),
{
    lemma_link_files_keeps(seq![], paths, parsed, 0);
}

} // verus!
