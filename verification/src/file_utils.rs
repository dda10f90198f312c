//! Content hashing, line slicing and language names.
use crate::text::{
    join, join_range, lines, lines_of, owned, str_eq, string_from_chars, to_chars, views,
};
use vstd::prelude::*;

verus! {

/// The SHA-256 digest of `data`, as the `sha2` crate computes it.
pub uninterp spec fn sha256(data: Seq<u8>) -> Seq<u8>;

/// `sha2::Sha256::digest`. Claimed: the result is `sha256(data)`, 32 bytes.
#[verifier::external_body]
fn sha256_digest(data: &[u8]) -> (r: Vec<u8>)
    ensures
        r@ == sha256(data@),
        r@.len() == 32,
{
    <sha2::Sha256 as sha2::Digest>::digest(data).to_vec()
}

/// The lowercase hexadecimal digit for `d < 16`.
pub open spec fn hex_digit(d: int) -> char {
    if d < 10 {
        crate::text::digit_char(d as nat)
    } else if d == 10 { 'a' } else if d == 11 { 'b' } else if d == 12 { 'c' }
    else if d == 13 { 'd' } else if d == 14 { 'e' } else { 'f' }
}

/// Two lowercase hex digits per byte, high nibble first.
pub open spec fn hex_lower(b: Seq<u8>) -> Seq<char>
    decreases b.len(),
{
    if b.len() == 0 {
        seq![]
    } else {
        seq![hex_digit(b[0] as int / 16), hex_digit(b[0] as int % 16)] + hex_lower(b.drop_first())
    }
}

/// `hex::encode`. Claimed: two lowercase hex digits per byte, in order.
#[verifier::external_body]
fn hex_encode(data: &[u8]) -> (r: String)
    ensures
        r@ == hex_lower(data@),
{
    hex::encode(data)
}

/// The lowercase hex SHA-256 of a file's bytes, which incremental indexing
/// compares to tell whether a file changed.
pub fn hash_content(data: &[u8]) -> (r: String)
    ensures
        r@ == hex_lower(sha256(data@)),
        r@.len() == 64,
{
    let digest = sha256_digest(data);
    let r = hex_encode(digest.as_slice());
    proof {
        lemma_hex_len(digest@);
    }
    r
}

proof fn lemma_hex_len(b: Seq<u8>)
    ensures
        hex_lower(b).len() == 2 * b.len(),
    decreases b.len(),
{
    if b.len() > 0 {
        lemma_hex_len(b.drop_first());
    }
}

/// Lines `start_line..=end_line` (one-based) of `content`, joined with
/// `\n`; empty when either bound is 0, the range is reversed, or it starts
/// past the last line; a range running past the end stops at the last
/// line.
pub open spec fn slice_lines(content: Seq<char>, start_line: int, end_line: int) -> Seq<char> {
    let ls = lines_of(content);
    if start_line == 0 || end_line == 0 || start_line > end_line || start_line - 1 >= ls.len() {
        seq![]
    } else {
        join(
            ls.subrange(start_line - 1, if end_line < ls.len() { end_line } else { ls.len() as int }),
            "\n"@,
        )
    }
}

/// Extracts lines `start_line..=end_line` (one-based) of `content`.
pub fn slice_source_code(content: &str, start_line: usize, end_line: usize) -> (r: String)
    ensures
        r@ == slice_lines(content@, start_line as int, end_line as int),
{
    let cs = to_chars(content);
    let ls = lines(cs.as_slice());
    if start_line == 0 || end_line == 0 || start_line > end_line || start_line - 1 >= ls.len() {
        return string_from_chars(&[]);
    }
    let end_idx = if end_line < ls.len() { end_line } else { ls.len() };
    let nl = to_chars("\n");
    let joined = join_range(&ls, start_line - 1, end_idx, nl.as_slice());
    string_from_chars(joined.as_slice())
}

/// The language name recorded for a file extension.
pub open spec fn language_name(ext: Option<Seq<char>>) -> Seq<char> {
    match ext {
        Some(e) => if e == "rs"@ {
            "Rust"@
        } else if e == "js"@ || e == "jsx"@ {
            "JavaScript"@
        } else if e == "ts"@ || e == "tsx"@ {
            "TypeScript"@
        } else if e == "py"@ {
            "Python"@
        } else if e == "go"@ {
            "Go"@
        } else if e == "cpp"@ || e == "cc"@ || e == "cxx"@ || e == "hpp"@ {
            "C++"@
        } else if e == "c"@ || e == "h"@ {
            "C"@
        } else if e == "java"@ {
            "Java"@
        } else if e == "kt"@ || e == "kts"@ {
            "Kotlin"@
        } else if e == "html"@ {
            "HTML"@
        } else if e == "css"@ {
            "CSS"@
        } else if e == "md"@ {
            "Markdown"@
        } else if e == "json"@ {
            "JSON"@
        } else {
            "Unknown"@
        },
        None => "Unknown"@,
    }
}

/// The language name of a file, from its extension.
pub fn detect_language(path: &str) -> (r: String)
    ensures
        r@ == language_name(crate::paths::path_extension(path@)),
{
    match crate::paths::extension(path) {
        Some(e) => {
            let e = e.as_str();
            if str_eq(e, "rs") {
                owned("Rust")
            } else if str_eq(e, "js") || str_eq(e, "jsx") {
                owned("JavaScript")
            } else if str_eq(e, "ts") || str_eq(e, "tsx") {
                owned("TypeScript")
            } else if str_eq(e, "py") {
                owned("Python")
            } else if str_eq(e, "go") {
                owned("Go")
            } else if str_eq(e, "cpp") || str_eq(e, "cc") || str_eq(e, "cxx") || str_eq(e, "hpp") {
                owned("C++")
            } else if str_eq(e, "c") || str_eq(e, "h") {
                owned("C")
            } else if str_eq(e, "java") {
                owned("Java")
            } else if str_eq(e, "kt") || str_eq(e, "kts") {
                owned("Kotlin")
            } else if str_eq(e, "html") {
                owned("HTML")
            } else if str_eq(e, "css") {
                owned("CSS")
            } else if str_eq(e, "md") {
                owned("Markdown")
            } else if str_eq(e, "json") {
                owned("JSON")
            } else {
                owned("Unknown")
            }
        },
        None => owned("Unknown"),
    }
}

} // verus!
