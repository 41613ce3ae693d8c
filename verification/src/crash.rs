//! Crash reporting types; the reporting itself is an edge of the
//! process, not of this library.

use vstd::prelude::*;

verus! {

/// Failure to initialise the crash reporter.
#[derive(Debug, Clone, Copy, PartialEq, Eq, Structural)]
pub struct InitError;

impl InitError {
    /// Human-readable description of the error.
    pub fn message(&self) -> (r: &'static str)
        ensures
            r@ == "init failed"@,
    {
        "init failed"
    }
}

} // verus!
