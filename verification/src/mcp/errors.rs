//! How the server reports a failure to an agent: an error code that the
//! agent acts on, a message, and, for an ambiguous target, the candidates.
use crate::mcp::repo_registry::{registry_error_message, RegistryError};
use crate::mcp::tools::McpToolError;
use crate::text::{contains, contains_chars, join, owned, push_str, string_from_chars, to_chars};
use vstd::prelude::*;

verus! {

/// A symbol or file lookup that did not yield exactly one target.
#[derive(Debug)]
pub enum CandidateError {
    /// Nothing matched the name.
    NoMatch(String),
    /// Several candidates matched the name; each is given as JSON text.
    Ambiguous(String, Vec<String>),
}

/// What a tool message that reports an ambiguous target holds: the name,
/// and the candidates as JSON text.
#[derive(Debug)]
pub struct AmbiguousMarker {
    pub name: String,
    pub candidates: String,
}

/// An error raised while serving a request.
#[derive(Debug)]
pub enum DomainError {
    Candidate(CandidateError),
    Registry(RegistryError),
    Tool(McpToolError),
    /// Any other error, by its message.
    Other(String),
}

/// The error codes that agents act on.
#[derive(Debug, PartialEq, Eq, Structural, Clone, Copy)]
pub enum ErrorCode {
    InvalidParams,
    InternalError,
}

/// The error sent back: its code, its message, and the candidates (as
/// JSON text) when the target was ambiguous.
#[derive(Debug)]
pub struct ErrorReply {
    pub code: ErrorCode,
    pub message: String,
    pub candidates: Option<String>,
}

/// The abstract value of a reply.
pub struct ReplyView {
    pub code: ErrorCode,
    pub message: Seq<char>,
    pub candidates: Option<Seq<char>>,
}

impl View for ErrorReply {
    type V = ReplyView;

    open spec fn view(&self) -> ReplyView {
        ReplyView {
            code: self.code,
            message: self.message@,
            candidates: match self.candidates {
                Some(c) => Some(c@),
                None => None,
            },
        }
    }
}

pub open spec fn strs(v: Seq<String>) -> Seq<Seq<char>> {
    v.map_values(|s: String| s@)
}

/// A JSON array of the given JSON texts.
pub open spec fn json_array(items: Seq<Seq<char>>) -> Seq<char> {
    "["@ + join(items, ","@) + "]"@
}

pub open spec fn ambiguous_message(name: Seq<char>) -> Seq<char> {
    "'"@ + name + "' matches multiple candidates"@
}

/// The reply for an error; `marker` is what the message of an
/// invalid-parameters tool error holds when it reports an ambiguous target.
pub open spec fn reply_for(err: DomainError, marker: Option<(Seq<char>, Seq<char>)>) -> ReplyView {
    match err {
        DomainError::Candidate(CandidateError::NoMatch(name)) => ReplyView {
            code: ErrorCode::InvalidParams,
            message: "no symbol matches '"@ + name@ + "'"@,
            candidates: None,
        },
        DomainError::Candidate(CandidateError::Ambiguous(name, cands)) => ReplyView {
            code: ErrorCode::InvalidParams,
            message: ambiguous_message(name@),
            candidates: Some(json_array(strs(cands@))),
        },
        DomainError::Registry(r) => match r {
            RegistryError::NoHome => ReplyView {
                code: ErrorCode::InvalidParams,
                message: "HOME is unset; cannot locate ~/.synapse/repos.json"@,
                candidates: None,
            },
            RegistryError::DuplicatePath { path, existing_name } => ReplyView {
                code: ErrorCode::InvalidParams,
                message: "repo already registered as '"@ + existing_name@ + "'"@,
                candidates: None,
            },
            RegistryError::DuplicateName { name, existing_path } => ReplyView {
                code: ErrorCode::InvalidParams,
                message: "repo name already used by '"@ + existing_path@ + "'"@,
                candidates: None,
            },
            _ => ReplyView {
                code: ErrorCode::InternalError,
                message: "registry error: "@ + registry_error_message(r),
                candidates: None,
            },
        },
        DomainError::Tool(t) => match t {
            McpToolError::InvalidParams(m) => match marker {
                Some((name, cands)) => ReplyView {
                    code: ErrorCode::InvalidParams,
                    message: ambiguous_message(name),
                    candidates: Some(cands),
                },
                None => ReplyView {
                    code: ErrorCode::InvalidParams,
                    message: "invalid parameters: "@ + m@,
                    candidates: None,
                },
            },
            McpToolError::NotFound(m) => ReplyView {
                code: ErrorCode::InvalidParams,
                message: "not found: "@ + m@,
                candidates: None,
            },
            McpToolError::Internal(m) => ReplyView {
                code: ErrorCode::InternalError,
                message: "internal error: "@ + m@,
                candidates: None,
            },
        },
        DomainError::Other(m) => if contains(m@, "embedding"@) && contains(m@, "not"@) {
            ReplyView {
                code: ErrorCode::InvalidParams,
                message: "run 'synapse embed' to populate embeddings"@,
                candidates: None,
            }
        } else {
            ReplyView { code: ErrorCode::InternalError, message: "internal error: "@ + m@, candidates: None }
        },
    }
}

pub open spec fn marker_view(m: Option<&AmbiguousMarker>) -> Option<(Seq<char>, Seq<char>)> {
    match m {
        Some(k) => Some((k.name@, k.candidates@)),
        None => None,
    }
}

fn cat2(a: &str, b: &str) -> (s: String)
    ensures
        s@ == a@ + b@,
{
    let mut v = to_chars(a);
    push_str(&mut v, b);
    string_from_chars(v.as_slice())
}

fn cat3(a: &str, b: &str, c: &str) -> (s: String)
    ensures
        s@ == a@ + b@ + c@,
{
    let mut v = to_chars(a);
    push_str(&mut v, b);
    push_str(&mut v, c);
    string_from_chars(v.as_slice())
}

fn reply(code: ErrorCode, message: String) -> (r: ErrorReply)
    ensures
        r@ == (ReplyView { code, message: message@, candidates: None }),
{
    ErrorReply { code, message, candidates: None }
}

/// The JSON array of the given JSON texts.
fn json_array_text(items: &Vec<String>) -> (s: String)
    ensures
        s@ == json_array(strs(items@)),
{
    let mut v: Vec<char> = Vec::new();
    push_str(&mut v, "[");
    let mut i: usize = 0;
    proof {
        assert(strs(items@).take(0) =~= Seq::<Seq<char>>::empty());
    }
    while i < items.len()
        invariant
            i <= items@.len(),
            v@ == "["@ + join(strs(items@).take(i as int), ","@),
        decreases items.len() - i,
    {
        let ghost before = v@;
        if i > 0 {
            push_str(&mut v, ",");
        }
        push_str(&mut v, items[i].as_str());
        proof {
            let pre = strs(items@).take(i + 1);
            assert(pre.drop_last() =~= strs(items@).take(i as int));
            assert(pre.last() == items@[i as int]@);
        }
        i = i + 1;
    }
    push_str(&mut v, "]");
    proof {
        assert(strs(items@).take(items@.len() as int) =~= strs(items@));
    }
    string_from_chars(v.as_slice())
}

/// Turns an error raised while serving a request into what the agent
/// receives: unknown or ambiguous targets, registry conflicts and bad
/// parameters are the agent's to fix; anything else is internal. An
/// ambiguous target carries its candidates, also when a tool reports it by
/// a marker message (`marker`, parsed from that message).
pub fn map_domain_error(err: &DomainError, marker: Option<&AmbiguousMarker>) -> (r: ErrorReply)
    ensures
        r@ == reply_for(*err, marker_view(marker)),
{
    match err {
        DomainError::Candidate(CandidateError::NoMatch(name)) => {
            reply(ErrorCode::InvalidParams, cat3("no symbol matches '", name.as_str(), "'"))
        },
        DomainError::Candidate(CandidateError::Ambiguous(name, cands)) => {
            let message = cat3("'", name.as_str(), "' matches multiple candidates");
            ErrorReply { code: ErrorCode::InvalidParams, message, candidates: Some(json_array_text(cands)) }
        },
        DomainError::Registry(r) => match r {
            RegistryError::NoHome => reply(
                ErrorCode::InvalidParams,
                owned("HOME is unset; cannot locate ~/.synapse/repos.json"),
            ),
            RegistryError::DuplicatePath { path, existing_name } => reply(
                ErrorCode::InvalidParams,
                cat3("repo already registered as '", existing_name.as_str(), "'"),
            ),
            RegistryError::DuplicateName { name, existing_path } => reply(
                ErrorCode::InvalidParams,
                cat3("repo name already used by '", existing_path.as_str(), "'"),
            ),
            _ => {
                let m = r.message();
                reply(ErrorCode::InternalError, cat2("registry error: ", m.as_str()))
            },
        },
        DomainError::Tool(t) => match t {
            McpToolError::InvalidParams(m) => match marker {
                Some(k) => {
                    let message = cat3("'", k.name.as_str(), "' matches multiple candidates");
                    ErrorReply {
                        code: ErrorCode::InvalidParams,
                        message,
                        candidates: Some(k.candidates.clone()),
                    }
                },
                None => reply(ErrorCode::InvalidParams, cat2("invalid parameters: ", m.as_str())),
            },
            McpToolError::NotFound(m) => reply(ErrorCode::InvalidParams, cat2("not found: ", m.as_str())),
            McpToolError::Internal(m) => reply(ErrorCode::InternalError, cat2("internal error: ", m.as_str())),
        },
        DomainError::Other(m) => {
            let mc = to_chars(m.as_str());
            let e = to_chars("embedding");
            let n = to_chars("not");
            if contains_chars(mc.as_slice(), e.as_slice()) && contains_chars(mc.as_slice(), n.as_slice()) {
                reply(ErrorCode::InvalidParams, owned("run 'synapse embed' to populate embeddings"))
            } else {
                reply(ErrorCode::InternalError, cat2("internal error: ", m.as_str()))
            }
        },
    }
}

} // verus!
