//! The health check.
use vstd::prelude::*;

verus! {

/// The answer to a health check.
pub fn health_handler() -> (body: &'static str)
    ensures
        body@ == "OK"@,
{
    "OK"
}

} // verus!
