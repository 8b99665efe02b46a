//! Path arithmetic.
//!
//! The library holds paths as text and never looks at the file system.  It
//! takes a path apart and puts paths together as the standard library does,
//! and leaves it to the standard library to say what a path's components
//! are.

use vstd::prelude::*;
use vstd::string::*;

verus! {

/// The last component of `path`, as `std::path::Path::file_name` gives it:
/// the name of the file or directory that the path leads to, and nothing
/// where the path ends in `..` or has no component at all.
pub uninterp spec fn final_component(path: Seq<char>) -> Option<Seq<char>>;

/// `child` adjoined to `base`, as `std::path::Path::join` gives it.
pub uninterp spec fn joined(base: Seq<char>, child: Seq<char>) -> Seq<char>;

/// The last component of a path.
///
/// Calls `std::path::Path::file_name` on `path`.  The contract claims that
/// what comes back depends on the text of `path` alone, and gives it the
/// name `final_component`; it claims nothing of what that component is.
#[verifier::external_body]
pub(crate) fn file_name(path: &str) -> (name: Option<String>)
    ensures
        match name {
            Some(name) => final_component(path@) == Some(name@),
            None => final_component(path@) is None,
        },
{
    std::path::Path::new(path).file_name().map(|name| name.to_string_lossy().into_owned())
}

/// A path with another adjoined.
///
/// Calls `std::path::Path::join` on `base` with `child`.  The contract
/// claims that what comes back depends on the two texts alone, and gives it
/// the name `joined`; it claims nothing of how the two are put together.
#[verifier::external_body]
pub(crate) fn join(base: &str, child: &str) -> (path: String)
    ensures
        path@ == joined(base@, child@),
{
    std::path::Path::new(base).join(child).to_string_lossy().into_owned()
}

/// The name under which a subvolume is snapshotted: the last component of
/// its path, or `unknown` where the path has none.
pub open spec fn source_name_of(component: Option<Seq<char>>) -> Seq<char> {
    match component {
        Some(name) => name,
        None => "unknown"@,
    }
}

/// The name under which a subvolume is snapshotted, given the last
/// component of its path.
pub fn name_or_unknown(component: Option<String>) -> (name: String)
    ensures
        name@ == source_name_of(
            match component {
                Some(name) => Some(name@),
                None => None,
            },
        ),
{
    match component {
        Some(name) => name,
        None => String::from_str("unknown"),
    }
}

/// The name under which the subvolume at `path` is snapshotted.
pub fn source_name(path: &str) -> (name: String)
    ensures
        name@ == source_name_of(final_component(path@)),
{
    name_or_unknown(file_name(path))
}

} // verus!
