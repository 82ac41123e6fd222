//! Which executable of a helper tool to run: the bundled one, where the
//! application ships a real one, else the one found on the search path.
use vstd::prelude::*;
use crate::catalog::{join_path, join_path_exec};

verus! {

/// The path of helper `name`: under the resource directory when that
/// holds a real (non-empty) copy, else the bare name.
pub open spec fn resolved(resource_dir: Option<Seq<char>>, bundled_is_real: bool, name: Seq<char>) -> Seq<char> {
    match resource_dir {
        Some(d) => if bundled_is_real {
            join_path(d, name)
        } else {
            name
        },
        None => name,
    }
}

pub open spec fn opt_str(s: Option<&str>) -> Option<Seq<char>> {
    match s {
        Some(x) => Some(x@),
        None => None,
    }
}

pub fn resolve(resource_dir: Option<&str>, bundled_is_real: bool, name: &str) -> (r: String)
    ensures
        r@ == resolved(opt_str(resource_dir), bundled_is_real, name@),
{
    match resource_dir {
        Some(d) => if bundled_is_real {
            join_path_exec(d, name)
        } else {
            name.to_owned()
        },
        None => name.to_owned(),
    }
}

/// The debug-bridge executable.
pub fn adb(resource_dir: Option<&str>, bundled_is_real: bool) -> (r: String)
    ensures
        r@ == resolved(opt_str(resource_dir), bundled_is_real, "adb"@),
{
    resolve(resource_dir, bundled_is_real, "adb")
}

/// The sync-engine executable.
pub fn rclone(resource_dir: Option<&str>, bundled_is_real: bool) -> (r: String)
    ensures
        r@ == resolved(opt_str(resource_dir), bundled_is_real, "rclone"@),
{
    resolve(resource_dir, bundled_is_real, "rclone")
}

/// The archive tool.
pub fn sevenz(resource_dir: Option<&str>, bundled_is_real: bool) -> (r: String)
    ensures
        r@ == resolved(opt_str(resource_dir), bundled_is_real, "7z"@),
{
    resolve(resource_dir, bundled_is_real, "7z")
}

} // verus!
