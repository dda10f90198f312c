//! The Rust walker and the expansion of grouped `use` paths.
use crate::parser::syntax::{
    child_by_field, child_by_field_name, extract_signature, kind_is, lemma_wf_children, node_text,
    node_text_or, signature_of, text_of, text_or, wf, SyntaxNode,
};
use crate::parser::grammar::{parse_source, Grammar, LoadedGrammar};
use crate::parser::{analyze_tree, opt_view, parse_outcome, SourceLanguage, LanguageParser, Visit, Walker};
use crate::parser::shared::{
    call_visit, call_visit_exec, decl_visit, decl_visit_exec, imports_visit, imports_visit_exec,
    lemma_child_wf, line_of, no_visit, no_visit_exec, skip_chars, sub_chars,
};
use crate::text::{
    alphanumeric, chars_eq, contains, contains_chars, copy_chars, ends_with, ends_with_chars, find,
    find_chars, is_alphanumeric, occurs_at, owned, push_all, push_str, split, split_chars,
    starts_with, starts_with_chars, string_from_chars, string_views, to_chars, trim, trim_chars,
    views,
};
use crate::types::ast::{
    empty_analysis, AnalysisView, CallView, EdgeData, EdgeView, FileAnalysis, ImportView, NodeData,
    NodeView, RawCall, RawImport,
};
use vstd::prelude::*;

verus! {

/// The Rust parser.
pub struct RustParser;

impl RustParser {
    /// Parses Rust source: the walk of the tree tree-sitter's Rust grammar
    /// yields for `content`, or nothing when no tree comes back.
    pub fn parse_rust(&self, content: &str, file_path: &str) -> (r: FileAnalysis)
        ensures
            parse_outcome(SourceLanguage::Rust(*self), content@, file_path@, r@),
    {
        let grammar = LoadedGrammar::load(Grammar::Rust);
        match parse_source(&grammar, content, None) {
            Some(t) => analyze_tree(Walker::Rust, &t, content.as_bytes(), file_path),
            None => FileAnalysis::empty(),
        }
    }
}

impl LanguageParser for RustParser {
    open spec fn source_language(&self) -> SourceLanguage {
        SourceLanguage::Rust(*self)
    }

    fn parse(&self, content: &str, file_path: &str) -> FileAnalysis {
        self.parse_rust(content, file_path)
    }
}

// ───────────────────────── the Rust walker ─────────────────────────

/// A character that a Rust call name may hold.
pub open spec fn rust_name_char(c: char) -> bool {
    alphanumeric(c) || c == '_' || c == '$' || c == ':'
}

/// Every character of `s` may stand in a Rust call name.
pub open spec fn all_rust_name_chars(s: Seq<char>) -> bool {
    forall|i: int| 0 <= i < s.len() ==> rust_name_char(#[trigger] s[i])
}

/// `s` with every trailing `c` removed (std's `trim_end_matches` with a
/// character).
pub open spec fn trim_end_char(s: Seq<char>, c: char) -> Seq<char>
    decreases s.len(),
{
    if s.len() > 0 && s.last() == c {
        trim_end_char(s.drop_last(), c)
    } else {
        s
    }
}

/// The last piece of `split(s, sep)`.
pub open spec fn last_piece(s: Seq<char>, sep: Seq<char>) -> Seq<char> {
    split(s, sep).last()
}

/// The imports that a `use` declaration with text `text` yields.
pub open spec fn use_paths(text: Seq<char>) -> Seq<Seq<char>> {
    let trimmed = trim(trim_end_char(trim(text), ';'));
    match find(trimmed, "use "@) {
        Some(i) => expand_rust(trim(trimmed.skip(i + 4))),
        None => seq![],
    }
}

/// The kind label of a Rust declaration kind, if it is one.
pub open spec fn rust_decl_label(k: Seq<char>) -> Option<Seq<char>> {
    if k == "function_item"@ {
        Some("Function"@)
    } else if k == "struct_item"@ {
        Some("Struct"@)
    } else if k == "enum_item"@ {
        Some("Enum"@)
    } else if k == "trait_item"@ {
        Some("Interface"@)
    } else if k == "impl_item"@ {
        Some("Implementation"@)
    } else {
        None
    }
}

/// The name recorded for a Rust declaration.
pub open spec fn rust_decl_name(n: SyntaxNode, src: Seq<u8>) -> Seq<char> {
    match child_by_field(n, "name"@) {
        Some(nm) => text_or(src, nm, "anonymous"@),
        None => if n.kind@ == "impl_item"@ {
            let ty_name = match child_by_field(n, "type"@) {
                Some(t) => text_or(src, t, "Type"@),
                None => "Type"@,
            };
            match child_by_field(n, "trait"@) {
                Some(tr) => "impl "@ + text_or(src, tr, "Trait"@) + " for "@ + ty_name,
                None => "impl "@ + ty_name,
            }
        } else {
            "anonymous"@
        },
    }
}

/// What a Rust `use_declaration` contributes.
pub open spec fn rust_use_visit(n: SyntaxNode, parent: Option<Seq<char>>, src: Seq<u8>) -> Visit {
    match text_of(src, n) {
        Some(text) => imports_visit(parent, use_paths(text), line_of(n)),
        None => no_visit(parent),
    }
}

/// What a Rust `method_call_expression` contributes.
pub open spec fn rust_method_visit(n: SyntaxNode, parent: Option<Seq<char>>, src: Seq<u8>) -> Visit {
    match child_by_field(n, "name"@) {
        Some(nm) => {
            let name = text_or(src, nm, seq![]);
            if name.len() > 0 && all_rust_name_chars(name) {
                call_visit(parent, name, line_of(n), true)
            } else {
                no_visit(parent)
            }
        },
        None => no_visit(parent),
    }
}

/// The name a plain Rust call records: the last `::` segment of the
/// callee's text.
pub open spec fn rust_callee_name(raw: Seq<char>) -> Seq<char> {
    if contains(raw, "::"@) {
        last_piece(raw, "::"@)
    } else {
        raw
    }
}

/// What a Rust `call_expression` contributes.
pub open spec fn rust_call_visit(n: SyntaxNode, parent: Option<Seq<char>>, src: Seq<u8>) -> Visit {
    match child_by_field(n, "function"@) {
        Some(f) => if f.kind@ == "field_expression"@ {
            match child_by_field(f, "field"@) {
                Some(fld) => {
                    let m = text_or(src, fld, seq![]);
                    if m.len() > 0 && all_rust_name_chars(m) {
                        call_visit(parent, m, line_of(n), true)
                    } else {
                        no_visit(parent)
                    }
                },
                None => no_visit(parent),
            }
        } else {
            let name = rust_callee_name(text_or(src, f, seq![]));
            if name.len() > 0 && name != "require"@ && all_rust_name_chars(name) {
                call_visit(parent, name, line_of(n), false)
            } else {
                no_visit(parent)
            }
        },
        None => no_visit(parent),
    }
}

/// What a Rust syntax node contributes.
pub open spec fn rust_visit(n: SyntaxNode, parent: Option<Seq<char>>, src: Seq<u8>, path: Seq<char>) -> Visit {
    let k = n.kind@;
    if k == "use_declaration"@ {
        rust_use_visit(n, parent, src)
    } else if k == "method_call_expression"@ {
        rust_method_visit(n, parent, src)
    } else if k == "call_expression"@ {
        rust_call_visit(n, parent, src)
    } else {
        match rust_decl_label(k) {
            Some(label) => decl_visit(n, parent, path, rust_decl_name(n, src), label, src),
            None => no_visit(parent),
        }
    }
}

/// Whether every character of `s` may stand in a Rust call name.
fn all_rust_name_chars_exec(s: &[char]) -> (r: bool)
    ensures
        r == all_rust_name_chars(s@),
{
    let mut i: usize = 0;
    while i < s.len()
        invariant
            i <= s.len(),
            forall|j: int| 0 <= j < i ==> rust_name_char(#[trigger] s@[j]),
        decreases s.len() - i,
    {
        let c = s[i];
        if !(is_alphanumeric(c) || c == '_' || c == '$' || c == ':') {
            return false;
        }
        i = i + 1;
    }
    true
}

/// Removes every trailing `c`.
fn trim_end_char_exec(s: &[char], c: char) -> (r: Vec<char>)
    ensures
        r@ == trim_end_char(s@, c),
{
    let mut hi: usize = s.len();
    proof {
        assert(s@.take(s@.len() as int) =~= s@);
    }
    while hi > 0 && s[hi - 1] == c
        invariant
            hi <= s.len(),
            trim_end_char(s@, c) == trim_end_char(s@.take(hi as int), c),
        decreases hi,
    {
        proof {
            assert(s@.take(hi as int).drop_last() =~= s@.take(hi - 1));
        }
        hi = hi - 1;
    }
    let mut r: Vec<char> = Vec::new();
    let mut i: usize = 0;
    while i < hi
        invariant
            i <= hi <= s.len(),
            r@ == s@.take(i as int),
        decreases hi - i,
    {
        r.push(s[i]);
        proof {
            assert(s@.take(i + 1) =~= s@.take(i as int).push(s@[i as int]));
        }
        i = i + 1;
    }
    r
}

/// The imports of a `use` declaration's text.
fn use_paths_exec(text: &[char]) -> (r: Vec<Vec<char>>)
    ensures
        views(r@) == use_paths(text@),
{
    let t1 = trim_chars(text);
    let t2 = trim_end_char_exec(t1.as_slice(), ';');
    let trimmed = trim_chars(t2.as_slice());
    let pat = to_chars("use ");
    proof {
        reveal_strlit("use ");
    }
    let tl = trimmed.len();
    match find_chars(trimmed.as_slice(), pat.as_slice()) {
        Some(i) => {
            proof {
                lemma_find_some(trimmed@, pat@);
                assert(pat@.len() == 4);
                assert(find(trimmed@, pat@) == Some(i as int));
                assert(i + 4 <= tl);
            }
            let rest = skip_chars(trimmed.as_slice(), i + 4);
            let p = trim_chars(rest.as_slice());
            expand_rust_chars(p.as_slice())
        },
        None => {
            let r: Vec<Vec<char>> = Vec::new();
            proof {
                assert(views(r@) =~= seq![]);
            }
            r
        },
    }
}

fn rust_use_visit_exec(n: &SyntaxNode, src: &[u8], parent: &Option<String>) -> (r: (FileAnalysis, Option<String>))
    requires
        wf(*n, src@.len()),
    ensures
        r.0@ == rust_use_visit(*n, opt_view(*parent), src@).out,
        opt_view(r.1) == rust_use_visit(*n, opt_view(*parent), src@).active,
{
    match node_text(src, n) {
        Some(text) => {
            let paths = use_paths_exec(text.as_slice());
            imports_visit_exec(parent, &paths, n.start_row + 1)
        },
        None => no_visit_exec(parent),
    }
}

fn rust_method_visit_exec(n: &SyntaxNode, src: &[u8], parent: &Option<String>) -> (r: (FileAnalysis, Option<String>))
    requires
        wf(*n, src@.len()),
    ensures
        r.0@ == rust_method_visit(*n, opt_view(*parent), src@).out,
        opt_view(r.1) == rust_method_visit(*n, opt_view(*parent), src@).active,
{
    match child_by_field_name(n, "name") {
        Some(nm) => {
            proof {
                lemma_child_wf(*n, *nm, src@.len());
            }
            let name = node_text_or(src, nm, "");
            proof {
                reveal_strlit("");
                assert(""@ =~= Seq::<char>::empty());
            }
            if name.len() > 0 && all_rust_name_chars_exec(name.as_slice()) {
                call_visit_exec(parent, name.as_slice(), n.start_row + 1, true)
            } else {
                no_visit_exec(parent)
            }
        },
        None => no_visit_exec(parent),
    }
}

pub fn rust_callee_name_exec(raw: Vec<char>) -> (r: Vec<char>)
    ensures
        r@ == rust_callee_name(raw@),
{
    let sep = to_chars("::");
    if contains_chars(raw.as_slice(), sep.as_slice()) {
        proof {
            reveal_strlit("::");
        }
        let pieces = split_chars(raw.as_slice(), sep.as_slice());
        let last = pieces.len() - 1;
        proof {
            assert(views(pieces@)[last as int] == pieces@[last as int]@);
        }
        copy_chars(pieces[last].as_slice())
    } else {
        raw
    }
}

fn rust_call_visit_exec(n: &SyntaxNode, src: &[u8], parent: &Option<String>) -> (r: (FileAnalysis, Option<String>))
    requires
        wf(*n, src@.len()),
    ensures
        r.0@ == rust_call_visit(*n, opt_view(*parent), src@).out,
        opt_view(r.1) == rust_call_visit(*n, opt_view(*parent), src@).active,
{
    proof {
        reveal_strlit("");
        assert(""@ =~= Seq::<char>::empty());
    }
    match child_by_field_name(n, "function") {
        Some(f) => {
            proof {
                lemma_child_wf(*n, *f, src@.len());
            }
            if kind_is(f, "field_expression") {
                match child_by_field_name(f, "field") {
                    Some(fld) => {
                        proof {
                            lemma_child_wf(*f, *fld, src@.len());
                        }
                        let m = node_text_or(src, fld, "");
                        if m.len() > 0 && all_rust_name_chars_exec(m.as_slice()) {
                            call_visit_exec(parent, m.as_slice(), n.start_row + 1, true)
                        } else {
                            no_visit_exec(parent)
                        }
                    },
                    None => no_visit_exec(parent),
                }
            } else {
                let raw = node_text_or(src, f, "");
                let name = rust_callee_name_exec(raw);
                let req = to_chars("require");
                if name.len() > 0 && !chars_eq(name.as_slice(), req.as_slice())
                    && all_rust_name_chars_exec(name.as_slice()) {
                    call_visit_exec(parent, name.as_slice(), n.start_row + 1, false)
                } else {
                    no_visit_exec(parent)
                }
            }
        },
        None => no_visit_exec(parent),
    }
}

/// What a Rust syntax node contributes, computed.
pub fn rust_visit_node(n: &SyntaxNode, src: &[u8], path: &str, parent: &Option<String>) -> (r: (FileAnalysis, Option<String>))
    requires
        wf(*n, src@.len()),
    ensures
        r.0@ == rust_visit(*n, opt_view(*parent), src@, path@).out,
        opt_view(r.1) == rust_visit(*n, opt_view(*parent), src@, path@).active,
{
    if kind_is(n, "use_declaration") {
        rust_use_visit_exec(n, src, parent)
    } else if kind_is(n, "method_call_expression") {
        rust_method_visit_exec(n, src, parent)
    } else if kind_is(n, "call_expression") {
        rust_call_visit_exec(n, src, parent)
    } else {
        let label: &str = if kind_is(n, "function_item") {
            "Function"
        } else if kind_is(n, "struct_item") {
            "Struct"
        } else if kind_is(n, "enum_item") {
            "Enum"
        } else if kind_is(n, "trait_item") {
            "Interface"
        } else if kind_is(n, "impl_item") {
            "Implementation"
        } else {
            return no_visit_exec(parent);
        };
        let name = rust_decl_name_exec(n, src);
        decl_visit_exec(n, parent, path, name.as_slice(), label, src)
    }
}

/// The name recorded for a Rust declaration, computed.
fn rust_decl_name_exec(n: &SyntaxNode, src: &[u8]) -> (r: Vec<char>)
    requires
        wf(*n, src@.len()),
    ensures
        r@ == rust_decl_name(*n, src@),
{
    proof {
        lemma_wf_children(*n, src@.len());
    }
    match child_by_field_name(n, "name") {
        Some(nm) => {
            proof {
                lemma_child_wf(*n, *nm, src@.len());
            }
            node_text_or(src, nm, "anonymous")
        },
        None => if kind_is(n, "impl_item") {
            let ty_name = match child_by_field_name(n, "type") {
                Some(t) => {
                    proof {
                        lemma_child_wf(*n, *t, src@.len());
                    }
                    node_text_or(src, t, "Type")
                },
                None => to_chars("Type"),
            };
            match child_by_field_name(n, "trait") {
                Some(tr) => {
                    proof {
                        lemma_child_wf(*n, *tr, src@.len());
                    }
                    let mut r = to_chars("impl ");
                    let tn = node_text_or(src, tr, "Trait");
                    push_all(&mut r, tn.as_slice());
                    push_str(&mut r, " for ");
                    push_all(&mut r, ty_name.as_slice());
                    r
                },
                None => {
                    let mut r = to_chars("impl ");
                    push_all(&mut r, ty_name.as_slice());
                    r
                },
            }
        } else {
            to_chars("anonymous")
        },
    }
}

// ───────────────────────── grouped use paths ─────────────────────────

/// The position of the `}` that closes the `{` counted so far, scanning
/// `s` from `i` with `depth` braces open.
pub open spec fn closing_from(s: Seq<char>, i: int, depth: int) -> Option<int>
    decreases s.len() - i,
{
    if i < 0 || i >= s.len() {
        None
    } else if s[i] == '{' {
        closing_from(s, i + 1, depth + 1)
    } else if s[i] == '}' {
        if depth - 1 == 0 {
            Some(i)
        } else {
            closing_from(s, i + 1, depth - 1)
        }
    } else {
        closing_from(s, i + 1, depth)
    }
}

/// The comma-separated items of a brace group's inside, split only at
/// commas outside nested braces and trimmed; a blank last item is dropped.
pub open spec fn group_items(s: Seq<char>, cur: Seq<char>, depth: int) -> Seq<Seq<char>>
    decreases s.len(),
{
    if s.len() == 0 {
        if trim(cur).len() > 0 {
            seq![trim(cur)]
        } else {
            seq![]
        }
    } else if s[0] == ',' && depth == 0 {
        seq![trim(cur)] + group_items(s.drop_first(), seq![], depth)
    } else {
        let d = if s[0] == '{' {
            depth + 1
        } else if s[0] == '}' {
            depth - 1
        } else {
            depth
        };
        group_items(s.drop_first(), cur.push(s[0]), d)
    }
}

/// `prefix`, the item, and `suffix` put back together with `::` where a
/// separator is missing.
pub open spec fn combine(prefix: Seq<char>, part: Seq<char>, suffix: Seq<char>) -> Seq<char> {
    let cp = if ends_with(prefix, "::"@) || starts_with(part, "::"@) {
        prefix + part
    } else {
        prefix + "::"@ + part
    };
    if starts_with(suffix, "::"@) || suffix.len() == 0 {
        cp + suffix
    } else {
        cp + "::"@ + suffix
    }
}

/// The expansion of a `use` path, with `fuel` nested groups allowed.
pub open spec fn expand_fuel(s: Seq<char>, fuel: nat) -> Seq<Seq<char>>
    decreases fuel, 0nat,
{
    let path = trim(s);
    match find(path, seq!['{']) {
        Some(b) => if 0 <= b < path.len() {
            match closing_from(path, b, 0) {
                Some(e) => if fuel > 0 && b < e < path.len() {
                    let items = group_items(path.subrange(b + 1, e), seq![], 0);
                    let prefix = path.take(b);
                    let suffix = path.skip(e + 1);
                    expand_all(
                        items.map_values(|p: Seq<char>| combine(prefix, p, suffix)),
                        (fuel - 1) as nat,
                    )
                } else {
                    seq![path]
                },
                None => seq![path],
            }
        } else {
            seq![path]
        },
        None => match find(path, " as "@) {
            Some(a) => if 0 <= a <= path.len() {
                seq![trim(path.take(a))]
            } else {
                seq![path]
            },
            None => seq![path],
        },
    }
}

/// The expansions of each of `items`, one after another.
pub open spec fn expand_all(items: Seq<Seq<char>>, fuel: nat) -> Seq<Seq<char>>
    decreases fuel, items.len(),
{
    if items.len() == 0 {
        seq![]
    } else {
        expand_all(items.drop_last(), fuel) + expand_fuel(items.last(), fuel)
    }
}

/// The single paths that a `use` path stands for: every `{a, b}` group is
/// distributed over its items (nested groups too), and an `as` rename is
/// dropped. Each level of grouping removes a `{`, so the path's length bounds
/// the depth of nesting.
pub open spec fn expand_rust(s: Seq<char>) -> Seq<Seq<char>> {
    expand_fuel(s, s.len())
}

proof fn lemma_find_some(hay: Seq<char>, needle: Seq<char>)
    ensures
        find(hay, needle) matches Some(i) ==> 0 <= i && i + needle.len() <= hay.len()
            && hay.subrange(i, i + needle.len()) == needle,
{
    if contains(hay, needle) {
        let k = choose|k: int| occurs_at(hay, needle, k);
        assert(occurs_at(hay, needle, k));
        let m = choose|i: int|
            occurs_at(hay, needle, i) && forall|j: int| 0 <= j < i ==> !occurs_at(hay, needle, j);
        if !(occurs_at(hay, needle, m) && forall|j: int| 0 <= j < m ==> !occurs_at(hay, needle, j)) {
            lemma_min(hay, needle, k);
        }
    }
}

proof fn lemma_min(hay: Seq<char>, needle: Seq<char>, k: int)
    requires
        occurs_at(hay, needle, k),
    ensures
        exists|m: int|
            occurs_at(hay, needle, m) && forall|j: int| 0 <= j < m ==> !occurs_at(hay, needle, j),
    decreases k,
{
    if exists|j: int| 0 <= j < k && occurs_at(hay, needle, j) {
        let j = choose|j: int| 0 <= j < k && occurs_at(hay, needle, j);
        lemma_min(hay, needle, j);
    } else {
        assert(occurs_at(hay, needle, k) && forall|j: int| 0 <= j < k ==> !occurs_at(hay, needle, j));
    }
}

/// The position of the `}` closing the `{` at `b`.
fn closing_exec(s: &[char], b: usize) -> (r: Option<usize>)
    requires
        b < s.len(),
    ensures
        r matches Some(e) ==> closing_from(s@, b as int, 0) == Some(e as int) && b <= e < s.len(),
        r is None ==> closing_from(s@, b as int, 0) is None,
{
    let mut opens: usize = 0;
    let mut closes: usize = 0;
    let mut i: usize = b;
    while i < s.len()
        invariant
            b <= i <= s.len(),
            opens + closes <= i - b,
            closing_from(s@, b as int, 0) == closing_from(s@, i as int, opens - closes),
        decreases s.len() - i,
    {
        if s[i] == '{' {
            opens = opens + 1;
        } else if s[i] == '}' {
            if opens == closes + 1 {
                return Some(i);
            }
            closes = closes + 1;
        }
        i = i + 1;
    }
    None
}

proof fn lemma_closing_bounds(s: Seq<char>, i: int, d: int)
    ensures
        closing_from(s, i, d) matches Some(x) ==> i <= x < s.len(),
    decreases s.len() - i,
{
    if 0 <= i < s.len() {
        lemma_closing_bounds(s, i + 1, d + 1);
        lemma_closing_bounds(s, i + 1, d - 1);
        lemma_closing_bounds(s, i + 1, d);
    }
}

/// The items of a brace group's inside.
fn group_items_exec(s: &[char]) -> (r: Vec<Vec<char>>)
    ensures
        views(r@) == group_items(s@, seq![], 0),
{
    let mut out: Vec<Vec<char>> = Vec::new();
    let mut cur: Vec<char> = Vec::new();
    let mut opens: usize = 0;
    let mut closes: usize = 0;
    let mut i: usize = 0;
    proof {
        assert(s@.skip(0) =~= s@);
        assert(views(out@) =~= seq![]);
    }
    while i < s.len()
        invariant
            i <= s.len(),
            opens + closes <= i,
            views(out@) + group_items(s@.skip(i as int), cur@, opens - closes) == group_items(s@, seq![], 0),
        decreases s.len() - i,
    {
        let ghost rest = s@.skip(i as int);
        proof {
            assert(rest.drop_first() =~= s@.skip(i + 1));
            assert(rest[0] == s@[i as int]);
        }
        if s[i] == ',' && opens == closes {
            let item = trim_chars(cur.as_slice());
            proof {
                assert(views(out@.push(item)) =~= views(out@).push(item@));
                assert(views(out@).push(item@) + group_items(s@.skip(i + 1), seq![], 0)
                    =~= views(out@) + (seq![item@] + group_items(s@.skip(i + 1), seq![], 0)));
            }
            out.push(item);
            cur = Vec::new();
        } else {
            if s[i] == '{' {
                opens = opens + 1;
            } else if s[i] == '}' {
                closes = closes + 1;
            }
            cur.push(s[i]);
        }
        i = i + 1;
    }
    proof {
        assert(s@.skip(i as int) =~= seq![]);
    }
    let last = trim_chars(cur.as_slice());
    if last.len() > 0 {
        proof {
            assert(views(out@.push(last)) =~= views(out@) + seq![last@]);
        }
        out.push(last);
    } else {
        proof {
            assert(views(out@) + seq![] =~= views(out@));
        }
    }
    out
}

/// Puts a group item back between its prefix and suffix.
fn combine_exec(prefix: &[char], part: &[char], suffix: &[char]) -> (r: Vec<char>)
    ensures
        r@ == combine(prefix@, part@, suffix@),
{
    let sep = to_chars("::");
    let mut r = copy_chars(prefix);
    if !(ends_with_chars(prefix, sep.as_slice()) || starts_with_chars(part, sep.as_slice())) {
        push_all(&mut r, sep.as_slice());
    }
    push_all(&mut r, part);
    if !(starts_with_chars(suffix, sep.as_slice()) || suffix.len() == 0) {
        push_all(&mut r, sep.as_slice());
    }
    push_all(&mut r, suffix);
    r
}

/// Puts every group item back between its prefix and suffix.
fn combine_all(prefix: &[char], items: &Vec<Vec<char>>, suffix: &[char]) -> (r: Vec<Vec<char>>)
    ensures
        views(r@) == views(items@).map_values(|p: Seq<char>| combine(prefix@, p, suffix@)),
{
    let mut combined: Vec<Vec<char>> = Vec::new();
    let mut i: usize = 0;
    let ghost want = views(items@).map_values(|p: Seq<char>| combine(prefix@, p, suffix@));
    while i < items.len()
        invariant
            i <= items@.len(),
            want == views(items@).map_values(|p: Seq<char>| combine(prefix@, p, suffix@)),
            views(combined@) == want.take(i as int),
        decreases items.len() - i,
    {
        let ghost before = views(combined@);
        let c = combine_exec(prefix, items[i].as_slice(), suffix);
        proof {
            assert(views(items@)[i as int] == items@[i as int]@);
            assert(c@ == want[i as int]);
        }
        combined.push(c);
        proof {
            assert(views(combined@) =~= before.push(c@));
            assert(want.take(i + 1) =~= want.take(i as int).push(want[i as int]));
        }
        i = i + 1;
    }
    proof {
        assert(want.take(items@.len() as int) =~= want);
    }
    combined
}

/// Expands a `use` path with `fuel` nested groups allowed.
#[verifier::rlimit(60)]
fn expand_fuel_exec(s: &[char], fuel: usize) -> (r: Vec<Vec<char>>)
    ensures
        views(r@) == expand_fuel(s@, fuel as nat),
    decreases fuel, 0nat,
{
    let path = trim_chars(s);
    let mut open: Vec<char> = Vec::new();
    open.push('{');
    proof {
        assert(open@ =~= seq!['{']);
    }
    match find_chars(path.as_slice(), open.as_slice()) {
        Some(b) => {
            proof {
                lemma_find_some(path@, open@);
            }
            match closing_exec(path.as_slice(), b) {
                Some(e) => {
                    if fuel > 0 && b < e {
                        let inner = sub_chars(path.as_slice(), b + 1, e);
                        let items = group_items_exec(inner.as_slice());
                        let prefix = sub_chars(path.as_slice(), 0, b);
                        let suffix = skip_chars(path.as_slice(), e + 1);
                        let combined = combine_all(prefix.as_slice(), &items, suffix.as_slice());
                        proof {
                            assert(path@.take(b as int) =~= prefix@);
                        }
                        expand_all_exec(&combined, fuel - 1)
                    } else {
                        let r = vec![path];
                        proof {
                            assert(views(r@) =~= seq![path@]);
                        }
                        r
                    }
                },
                None => {
                    let r = vec![path];
                    proof {
                        assert(views(r@) =~= seq![path@]);
                    }
                    r
                },
            }
        },
        None => {
            let pat = to_chars(" as ");
            match find_chars(path.as_slice(), pat.as_slice()) {
                Some(a) => {
                    proof {
                        lemma_find_some(path@, pat@);
                    }
                    let head = sub_chars(path.as_slice(), 0, a);
                    let r = vec![trim_chars(head.as_slice())];
                    proof {
                        assert(path@.take(a as int) =~= head@);
                        assert(views(r@) =~= seq![trim(head@)]);
                    }
                    r
                },
                None => {
                    let r = vec![path];
                    proof {
                        assert(views(r@) =~= seq![path@]);
                    }
                    r
                },
            }
        },
    }
}

/// Expands each of `items`, one after another.
#[verifier::spinoff_prover]
#[verifier::rlimit(40)]
fn expand_all_exec(items: &Vec<Vec<char>>, fuel: usize) -> (r: Vec<Vec<char>>)
    ensures
        views(r@) == expand_all(views(items@), fuel as nat),
    decreases fuel, items@.len(),
{
    let mut out: Vec<Vec<char>> = Vec::new();
    let mut i: usize = 0;
    proof {
        assert(views(items@).take(0) =~= seq![]);
        assert(views(out@) =~= seq![]);
    }
    while i < items.len()
        invariant
            i <= items@.len(),
            views(out@) == expand_all(views(items@).take(i as int), fuel as nat),
        decreases items.len() - i,
    {
        let mut part = expand_fuel_exec(items[i].as_slice(), fuel);
        proof {
            assert(views(items@).take(i + 1).drop_last() =~= views(items@).take(i as int));
            assert(views(items@).take(i + 1).last() == items@[i as int]@);
        }
        let ghost before = views(out@);
        let ghost added = views(part@);
        out.append(&mut part);
        proof {
            assert(views(out@) =~= before + added);
        }
        i = i + 1;
    }
    proof {
        assert(views(items@).take(items@.len() as int) =~= views(items@));
    }
    out
}

/// Expands a `use` path given as characters.
pub fn expand_rust_chars(s: &[char]) -> (r: Vec<Vec<char>>)
    ensures
        views(r@) == expand_rust(s@),
{
    let fuel = s.len();
    expand_fuel_exec(s, fuel)
}

/// The single paths that a `use` path stands for: each `{..}` group is
/// distributed over its comma-separated items (recursively), and an
/// `as` rename is dropped.
pub fn expand_rust_import(path: &str) -> (r: Vec<String>)
    ensures
        string_views(r@) == expand_rust(path@),
{
    let cs = to_chars(path);
    let parts = expand_rust_chars(cs.as_slice());
    let mut out: Vec<String> = Vec::new();
    let mut i: usize = 0;
    while i < parts.len()
        invariant
            i <= parts@.len(),
            string_views(out@) == views(parts@).take(i as int),
        decreases parts.len() - i,
    {
        let ghost before = string_views(out@);
        let piece = string_from_chars(parts[i].as_slice());
        out.push(piece);
        proof {
            assert(views(parts@)[i as int] == parts@[i as int]@);
            assert(string_views(out@) =~= before.push(piece@));
            assert(views(parts@).take(i + 1) =~= views(parts@).take(i as int).push(views(parts@)[i as int]));
        }
        i = i + 1;
    }
    proof {
        assert(views(parts@).take(parts@.len() as int) =~= views(parts@));
    }
    out
}

} // verus!
