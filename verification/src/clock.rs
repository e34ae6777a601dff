use crate::error::ErrorCode;
use crate::sysvar::clock_unix_timestamp;
use vstd::prelude::*;

verus! {

/// What a reading of the clock can be: a timestamp, or the error that the
/// runtime gives when the clock cannot be read.
pub open spec fn clock_reading(now: Result<i64, ErrorCode>) -> bool {
    now matches Err(e) ==> e == ErrorCode::UnsupportedSysvar
}

/// The current unix timestamp of the runtime. `solana_sysvar` folds every
/// failure of the sysvar read into `UnsupportedSysvar`, which is the error
/// returned here.
pub fn current_timestamp() -> (now: Result<i64, ErrorCode>)
    ensures
        clock_reading(now),
{
    match clock_unix_timestamp() {
        Ok(t) => Ok(t),
        Err(_) => Err(ErrorCode::UnsupportedSysvar),
    }
}

} // verus!
