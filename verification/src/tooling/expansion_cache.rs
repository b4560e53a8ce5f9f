//! Where expanded sources are cached.

use vstd::prelude::*;
use crate::paths::{join_path, joined};

verus! {

/// The cache directory for the crate `crate_name` under the target
/// directory `target_dir`: `<target_dir>/.evenframe-expanded/<crate_name>`.
pub fn crate_cache_dir(target_dir: &str, crate_name: &str) -> (r: String)
    ensures
        r@ == joined(joined(target_dir@, ".evenframe-expanded"@), crate_name@),
{
    let dir = join_path(target_dir, ".evenframe-expanded");
    join_path(dir.as_str(), crate_name)
}

} // verus!
