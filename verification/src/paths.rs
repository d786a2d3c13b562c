//! Filesystem paths, which the library carries but does not interpret.
use vstd::prelude::*;
use std::path::{Path, PathBuf};

verus! {

#[verifier::external_type_specification]
#[verifier::external_body]
pub struct ExPathBuf(PathBuf);

/// `PathBuf::clone`: the copy is the same path.
pub assume_specification[ <PathBuf as Clone>::clone ](p: &PathBuf) -> (r: PathBuf)
    ensures
        r == *p,
;

/// `Path::join`: `base` with the relative component `name` appended, by the
/// platform's rules; nothing is stated of the result.
#[verifier::external_body]
pub(crate) fn join_name(base: &PathBuf, name: &str) -> PathBuf {
    base.join(name)
}

/// Text that is relative on every platform: it is empty, or it starts
/// with neither `/` nor `\` and has no `:` as its second character (no
/// root, no drive or UNC prefix).
pub open spec fn certainly_relative(path: Seq<char>) -> bool {
    path.len() == 0 || (path[0] != '/' && path[0] != '\\' && !(path.len() >= 2 && path[1] == ':'))
}

/// `Path::is_absolute` of a path given as text. On Unix a path is absolute
/// when it starts with the root `/`; on Windows when it has a prefix (a
/// drive `C:` or a `\\` form) and a root. What else counts as absolute
/// depends on the platform and is not stated; stated is only that text
/// relative on every platform is not absolute.
#[verifier::external_body]
pub(crate) fn path_is_absolute(path: &str) -> (r: bool)
    ensures
        certainly_relative(path@) ==> !r,
{
    Path::new(path).is_absolute()
}

} // verus!
