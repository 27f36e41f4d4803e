//! Where the files that a program ships with are found.

use std::path::PathBuf;
use vstd::prelude::*;

verus! {

#[verifier::external_type_specification]
#[verifier::external_body]
pub struct ExPathBuf(PathBuf);

/// The path that a string spells.
pub uninterp spec fn path_of(s: Seq<char>) -> PathBuf;

/// `base` with `part` adjoined as the platform adjoins paths.
pub uninterp spec fn path_joined(base: PathBuf, part: Seq<char>) -> PathBuf;

/// `std::path::PathBuf::from` on a string slice: the path that the string
/// spells. The contract names the result.
#[verifier::external_body]
fn path_from(s: &str) -> (r: PathBuf)
    ensures
        r == path_of(s@),
{
    PathBuf::from(s)
}

/// `std::path::Path::join`: `base` with `part` adjoined, which on one
/// platform depends on the two alone. The contract names the result.
#[verifier::external_body]
fn path_join(base: &PathBuf, part: &str) -> (r: PathBuf)
    ensures
        r == path_joined(*base, part@),
{
    base.join(part)
}

/// The path of resource `file_name` under the output directory `out_dir`:
/// the file of that name in the directory `res` there.
pub fn get_path(out_dir: &str, file_name: &str) -> (r: PathBuf)
    ensures
        r == path_joined(path_joined(path_of(out_dir@), "res"@), file_name@),
{
    let root = path_from(out_dir);
    let resources = path_join(&root, "res");
    path_join(&resources, file_name)
}

} // verus!
