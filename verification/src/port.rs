//! Identification of the rendering port this build links against.

use vstd::prelude::*;

verus! {

/// Name of the rendering port selected at build time; this build links
/// no port and reports so.
pub fn selected_port() -> (r: &'static str)
    ensures
        r@ == "unknown"@,
        r@.len() > 0,
{
    proof {
        reveal_strlit("unknown");
    }
    "unknown"
}

} // verus!
