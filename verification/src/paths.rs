//! What the library reads of a file path, given as text. Each function
//! here asks std's `std::path::Path` and states the answer over a name for
//! it, a function of the path text alone.
use vstd::prelude::*;

verus! {

/// The extension of the path `p`, as std's `Path::extension` finds it
/// (the part of the final component after its last `.`), when it is
/// valid Unicode.
pub uninterp spec fn path_extension(p: Seq<char>) -> Option<Seq<char>>;

/// The final component of the path `p`, as std's `Path::file_name` finds
/// it, when it is valid Unicode.
pub uninterp spec fn path_file_name(p: Seq<char>) -> Option<Seq<char>>;

/// Whether the path `p` is absolute, as std's `Path::is_absolute` decides.
pub uninterp spec fn path_is_absolute(p: Seq<char>) -> bool;

/// Whether two path texts name the same path, as std's `Path` equality
/// (component by component) decides.
pub uninterp spec fn same_path(a: Seq<char>, b: Seq<char>) -> bool;

/// std's `PartialEq` for `Path`. Claimed: the result is `same_path(a, b)`;
/// identical texts are the same path.
#[verifier::external_body]
pub(crate) fn paths_equal(a: &str, b: &str) -> (r: bool)
    ensures
        r == same_path(a@, b@),
        a@ == b@ ==> r,
{
    std::path::Path::new(a) == std::path::Path::new(b)
}

/// std's `Path::extension` followed by `OsStr::to_str`. Claimed: the result
/// is `path_extension(p)`.
#[verifier::external_body]
pub(crate) fn extension(p: &str) -> (r: Option<String>)
    ensures
        r matches Some(e) ==> path_extension(p@) == Some(e@),
        r is None ==> path_extension(p@) is None,
{
    std::path::Path::new(p).extension().and_then(|e| e.to_str()).map(|e| e.to_owned())
}

/// std's `Path::file_name` followed by `OsStr::to_str`. Claimed: the
/// result is `path_file_name(p)`.
#[verifier::external_body]
pub(crate) fn file_name(p: &str) -> (r: Option<String>)
    ensures
        r matches Some(e) ==> path_file_name(p@) == Some(e@),
        r is None ==> path_file_name(p@) is None,
{
    std::path::Path::new(p).file_name().and_then(|e| e.to_str()).map(|e| e.to_owned())
}

/// std's `Path::is_absolute`. Claimed: the result is `path_is_absolute(p)`.
#[verifier::external_body]
pub(crate) fn is_absolute(p: &str) -> (r: bool)
    ensures
        r == path_is_absolute(p@),
{
    std::path::Path::new(p).is_absolute()
}

/// The path `p` without its final component, as std's `Path::parent`
/// finds it, or the empty path where it has none.
pub uninterp spec fn path_parent(p: Seq<char>) -> Seq<char>;

/// The path `a` with `b` adjoined, as std's `Path::join` builds it.
pub uninterp spec fn path_join(a: Seq<char>, b: Seq<char>) -> Seq<char>;

/// The path `p` with its extension set to `ext`, as std's
/// `Path::with_extension` builds it.
pub uninterp spec fn path_with_extension(p: Seq<char>, ext: Seq<char>) -> Seq<char>;

/// The texts of the components of `p`, as std's `Path::components` splits
/// it (`/` for the root, `.` and `..` for the current and parent
/// directory).
pub uninterp spec fn component_texts(p: Seq<char>) -> Seq<Seq<char>>;

/// The path `p` with `c` pushed onto it, as std's `PathBuf::push` does.
pub uninterp spec fn path_push(p: Seq<char>, c: Seq<char>) -> Seq<char>;

/// The path `p` truncated to its parent, as std's `PathBuf::pop` does (it
/// stays as it is when it has no parent).
pub uninterp spec fn path_pop(p: Seq<char>) -> Seq<char>;

/// std's `Path::parent`, with the empty path where there is none.
/// Claimed: the result is `path_parent(p)`.
#[verifier::external_body]
pub(crate) fn parent_or_empty(p: &str) -> (r: String)
    ensures
        r@ == path_parent(p@),
{
    std::path::Path::new(p).parent().unwrap_or(std::path::Path::new("")).to_string_lossy().into_owned()
}

/// std's `Path::join`. Claimed: the result is `path_join(a, b)`.
#[verifier::external_body]
pub(crate) fn join(a: &str, b: &str) -> (r: String)
    ensures
        r@ == path_join(a@, b@),
{
    std::path::Path::new(a).join(b).to_string_lossy().into_owned()
}

/// std's `Path::with_extension`. Claimed: the result is
/// `path_with_extension(p, ext)`.
#[verifier::external_body]
pub(crate) fn with_extension(p: &str, ext: &str) -> (r: String)
    ensures
        r@ == path_with_extension(p@, ext@),
{
    std::path::Path::new(p).with_extension(ext).to_string_lossy().into_owned()
}

/// std's `Path::components`, each component taken as its text
/// (`Component::as_os_str`). Claimed: the result is `component_texts(p)`.
#[verifier::external_body]
pub(crate) fn components(p: &str) -> (r: Vec<String>)
    ensures
        crate::text::string_views(r@) == component_texts(p@),
{
    std::path::Path::new(p).components().map(|c| c.as_os_str().to_string_lossy().into_owned()).collect()
}

/// std's `PathBuf::push`. Claimed: the result is `path_push(p, c)`.
#[verifier::external_body]
pub(crate) fn push(p: &str, c: &str) -> (r: String)
    ensures
        r@ == path_push(p@, c@),
{
    let mut b = std::path::PathBuf::from(p);
    b.push(c);
    b.to_string_lossy().into_owned()
}

/// std's `PathBuf::pop`. Claimed: the result is `path_pop(p)`.
#[verifier::external_body]
pub(crate) fn pop(p: &str) -> (r: String)
    ensures
        r@ == path_pop(p@),
{
    let mut b = std::path::PathBuf::from(p);
    b.pop();
    b.to_string_lossy().into_owned()
}

} // verus!
