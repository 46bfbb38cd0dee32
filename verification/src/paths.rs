//! Paths, as `std::path` reads them. Each name below stands for what `std::path` gives on
//! the target the crate is compiled for (whose path syntax is fixed at compile time): the same
//! text always gives the same result there.
use vstd::prelude::*;
use vstd::string::*;

use crate::text::opt_view;

verus! {

/// The extension of a path (`Path::extension`, read as text), if it has one.
pub uninterp spec fn path_extension(p: Seq<char>) -> Option<Seq<char>>;

/// The file stem of a path (`Path::file_stem`, read as text), if it has one.
pub uninterp spec fn path_file_stem(p: Seq<char>) -> Option<Seq<char>>;

/// The parent of a path (`Path::parent`), if it has one.
pub uninterp spec fn path_parent(p: Seq<char>) -> Option<Seq<char>>;

/// The last component of a path (`Path::components` then `next_back`), if it has one.
pub uninterp spec fn path_last_component(p: Seq<char>) -> Option<Seq<char>>;

/// `base` joined with `part` (`Path::join`).
pub uninterp spec fn path_join(base: Seq<char>, part: Seq<char>) -> Seq<char>;

/// `Path::file_stem`: names the result.
#[verifier::external_body]
pub(crate) fn file_stem(p: &str) -> (r: Option<String>)
    ensures
        opt_view(r) == path_file_stem(p@),
{
    std::path::Path::new(p).file_stem().map(|s| s.to_string_lossy().into_owned())
}

/// `Path::parent`: names the result.
#[verifier::external_body]
pub(crate) fn parent(p: &str) -> (r: Option<String>)
    ensures
        opt_view(r) == path_parent(p@),
{
    std::path::Path::new(p).parent().map(|q| q.to_string_lossy().into_owned())
}

/// The last item of `Path::components`: names the result.
#[verifier::external_body]
pub(crate) fn last_component(p: &str) -> (r: Option<String>)
    ensures
        opt_view(r) == path_last_component(p@),
{
    std::path::Path::new(p).components().next_back().map(|c| c.as_os_str().to_string_lossy().into_owned())
}

/// `Path::join`: names the result.
#[verifier::external_body]
pub(crate) fn join_path(base: &str, part: &str) -> (r: String)
    ensures
        r@ == path_join(base@, part@),
{
    std::path::Path::new(base).join(part).to_string_lossy().into_owned()
}

/// `Path::extension`: names the result.
#[verifier::external_body]
pub(crate) fn extension(p: &str) -> (r: Option<String>)
    ensures
        opt_view(r) == path_extension(p@),
{
    std::path::Path::new(p).extension().map(|e| e.to_string_lossy().into_owned())
}

} // verus!
