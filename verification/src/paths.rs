//! The two questions asked of a path: is it absolute (decided on its text),
//! and does it name a directory (asked of the filesystem).

use vstd::prelude::*;

verus! {

/// A Unix path is absolute when it starts at the root.
pub open spec fn is_absolute(path: Seq<char>) -> bool {
    path.len() > 0 && path[0] == '/'
}

pub fn path_is_absolute(path: &str) -> (r: bool)
    ensures
        r == is_absolute(path@),
{
    let chars = crate::text::chars_of(path);
    chars.len() > 0 && chars[0] == '/'
}

/// `std::path::Path::is_dir`: whether the path names an existing directory
/// at the moment of the call. The answer depends on the filesystem, so the
/// contract states nothing about it; callers state what holds for either
/// answer.
#[verifier::external_body]
pub(crate) fn path_is_dir(path: &str) -> bool {
    std::path::Path::new(path).is_dir()
}

} // verus!
