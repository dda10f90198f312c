//! What the indexer writes for one file, once the file's bytes, size and
//! hash are known.
use crate::parser::{parse_file_outcome, ASTParser, MAX_PARSE_BYTES};
use crate::types::db::ParsedPayload;
use vstd::prelude::*;

verus! {

/// Whether a file whose content hashes to `hash` is unchanged since it was
/// last indexed with hash `stored`.
pub fn is_unchanged(stored: Option<&str>, hash: &str) -> (r: bool)
    ensures
        r == (stored matches Some(s) && s@ == hash@),
{
    match stored {
        Some(s) => crate::text::str_eq(s, hash),
        None => false,
    }
}

/// Whether the indexer reads the text of a file of `size` bytes at `path`:
/// only when it is within the parse limit and a parser handles its
/// extension.
pub fn should_read_text(size: u64, path: &str) -> (r: bool)
    ensures
        r == (size <= MAX_PARSE_BYTES && crate::parser::language_for_path(path@) is Some),
{
    size <= MAX_PARSE_BYTES && crate::parser::language_from_path(path).is_some()
}

/// The record of one file of `size` bytes whose content hashes to `hash`.
/// A file over the parse limit is recorded without being parsed; so is one
/// whose text was not read (no parser handles it, or reading failed).
/// Otherwise its text is parsed as the file at `relative_path` and kept.
pub fn file_payload(relative_path: String, language: String, size: u64, hash: String, text: Option<String>) -> (r: ParsedPayload)
    ensures
        r.relative_path@ == relative_path@,
        r.language@ == language@,
        r.size == size,
        r.hash@ == hash@,
        size > MAX_PARSE_BYTES ==> r.analysis is None && r.content is None,
        size <= MAX_PARSE_BYTES ==> match text {
            None => r.analysis is None && r.content is None,
            Some(t) => (r.content matches Some(c) && c@ == t@) && (r.analysis matches Some(a)
                && parse_file_outcome(relative_path@, t@, a@)),
        },
{
    if size > MAX_PARSE_BYTES {
        return ParsedPayload { relative_path, language, size, hash, analysis: None, content: None };
    }
    match text {
        Some(t) => {
            let analysis = ASTParser::parse_file(relative_path.as_str(), t.as_str());
            ParsedPayload { relative_path, language, size, hash, analysis: Some(analysis), content: Some(t) }
        },
        None => ParsedPayload { relative_path, language, size, hash, analysis: None, content: None },
    }
}

} // verus!
