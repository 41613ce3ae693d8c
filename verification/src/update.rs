//! Update service stub: reports a fixed placeholder version and accepts
//! any patch without applying it.

use vstd::prelude::*;

verus! {

/// Description of an available update.
#[derive(Debug)]
pub struct UpdateInfo {
    /// Version string of the update on offer.
    pub version: String,
}

impl Clone for UpdateInfo {
    fn clone(&self) -> (r: Self)
        ensures
            r.version@ == self.version@,
    {
        UpdateInfo { version: self.version.clone() }
    }
}

/// Failure of an update operation.
#[derive(Debug, Clone, Copy, PartialEq, Eq, Structural)]
pub enum UpdateError {
    /// Updating is not supported by this build.
    Unsupported,
}

impl UpdateError {
    /// Human-readable description of the error.
    pub fn message(&self) -> (r: &'static str)
        ensures
            r@ == "update not supported in stub"@,
    {
        "update not supported in stub"
    }
}

/// Check for an available update; this build always reports the
/// placeholder version.
pub fn check_update() -> (r: Result<UpdateInfo, UpdateError>)
    ensures
        r is Ok,
        r matches Ok(info) && info.version@ == "0.0.0-stub"@,
{
    Ok(UpdateInfo { version: String::from_str("0.0.0-stub") })
}

/// Accept a patch blob; this build applies nothing and always succeeds.
pub fn apply_patch(patch: &[u8]) -> (r: Result<(), UpdateError>)
    ensures
        r is Ok,
{
    let _ = patch;
    Ok(())
}

} // verus!
