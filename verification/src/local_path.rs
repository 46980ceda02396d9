//! Host file-system paths, taken apart and put together by `std::path`.
use vstd::prelude::*;

verus! {

/// The path `base` joined with `name`, as `Path::join` builds it.
pub uninterp spec fn path_joined(base: Seq<char>, name: Seq<char>) -> Seq<char>;

/// Calls `Path::join` and reads the result back as text; the result is a function
/// of the two arguments and is named `path_joined`.
#[verifier::external_body]
pub(crate) fn join_path(base: &str, name: &str) -> (r: String)
    ensures
        r@ == path_joined(base@, name@),
{
    std::path::Path::new(base).join(name).to_string_lossy().into_owned()
}

/// The last component of a path, as `Path::file_name` gives it when it is valid text.
pub uninterp spec fn path_file_name(p: Seq<char>) -> Option<Seq<char>>;

/// Calls `Path::file_name` on `p` and keeps the name when it is valid UTF-8; the
/// result is a function of `p` alone and is named `path_file_name`.
#[verifier::external_body]
pub(crate) fn file_name_of(p: &str) -> (r: Option<String>)
    ensures
        match r {
            Some(s) => path_file_name(p@) == Some(s@),
            None => path_file_name(p@) is None,
        },
{
    std::path::Path::new(p).file_name().and_then(|v| v.to_str()).map(|v| v.to_string())
}

/// The path without its last component, as `Path::parent` gives it.
pub uninterp spec fn path_parent(p: Seq<char>) -> Option<Seq<char>>;

/// Calls `Path::parent`, which is `None` for a root or an empty path; the result
/// is a function of `p` alone and is named `path_parent`.
#[verifier::external_body]
pub(crate) fn parent_of_path(p: &str) -> (r: Option<String>)
    ensures
        match r {
            Some(s) => path_parent(p@) == Some(s@),
            None => path_parent(p@) is None,
        },
{
    std::path::Path::new(p).parent().map(|v| v.to_string_lossy().into_owned())
}

/// The path with its last component replaced by `name`, as `Path::with_file_name`
/// builds it.
pub uninterp spec fn path_with_file_name(p: Seq<char>, name: Seq<char>) -> Seq<char>;

/// Calls `Path::with_file_name` and reads the result back as text; the result is a
/// function of the two arguments and is named `path_with_file_name`.
#[verifier::external_body]
pub(crate) fn with_file_name(p: &str, name: &str) -> (r: String)
    ensures
        r@ == path_with_file_name(p@, name@),
{
    std::path::Path::new(p).with_file_name(name).to_string_lossy().into_owned()
}

} // verus!
