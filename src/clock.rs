//! The wall clock. Its readings are handed to the verified logic as plain
//! values; nothing is claimed of them but their range.
use vstd::prelude::*;

verus! {

/// Relies on `std::time::SystemTime::now`: whole seconds since the Unix
/// epoch (0 for a clock set before it).
#[verifier::external_body]
pub fn now_epoch_secs() -> u64 {
    std::time::SystemTime::now().duration_since(std::time::UNIX_EPOCH).unwrap_or_default().as_secs()
}

/// Relies on `std::time::Duration::subsec_nanos` of the time since the Unix
/// epoch: the fractional part of the current second, below one billion.
#[verifier::external_body]
pub fn now_subsec_nanos() -> (r: u32)
    ensures
        r < 1_000_000_000,
{
    std::time::SystemTime::now().duration_since(std::time::UNIX_EPOCH).unwrap_or_default().subsec_nanos()
}

} // verus!
