//! The root directory the tools work below.
use vstd::prelude::*;

verus! {

/// The root directory a tool works below: the one given, else `/`.
pub open spec fn root_of(root_dir: Option<String>) -> Seq<char> {
    match root_dir {
        Some(r) => r@,
        None => "/"@,
    }
}

/// The root directory a tool works below: the one given, else `/`.
pub fn root_path(root_dir: &Option<String>) -> (r: &str)
    ensures
        r@ == root_of(*root_dir),
{
    match root_dir {
        Some(r) => r.as_str(),
        None => "/",
    }
}

} // verus!
