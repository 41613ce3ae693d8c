//! The retry policy of the network fetcher: up to three attempts with
//! fixed backoff. The fetching itself is an edge of the process; the
//! policy it follows is decided here.

use vstd::prelude::*;

verus! {

/// Backoff before attempt number `attempt` (counted from 0): the first
/// attempt is immediate, the next two wait 50 ms and 100 ms, and no
/// further attempt is made.
pub fn retry_delay_ms(attempt: usize) -> (r: Option<u64>)
    ensures
        attempt == 0 ==> r == Some(0u64),
        attempt == 1 ==> r == Some(50u64),
        attempt == 2 ==> r == Some(100u64),
        attempt >= 3 ==> r is None,
{
    if attempt == 0 {
        Some(0)
    } else if attempt == 1 {
        Some(50)
    } else if attempt == 2 {
        Some(100)
    } else {
        None
    }
}

} // verus!
