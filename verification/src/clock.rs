//! Wall-clock time in seconds since the Unix epoch.

use vstd::prelude::*;
use crate::backend::unix_time_secs;
use crate::error::{CryptoError, CryptoResult};

verus! {

/// Seconds since the Unix epoch, or `ClockError` when the system clock reads
/// earlier than the epoch.
pub fn current_timestamp() -> (r: CryptoResult<u64>)
    ensures
        r matches Err(e) ==> e == CryptoError::ClockError,
{
    match unix_time_secs() {
        Some(t) => Ok(t),
        None => Err(CryptoError::ClockError),
    }
}

} // verus!
