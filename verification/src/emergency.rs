use crate::error::{em_err, EmergencyError, ErrorCode};
use crate::key::Pubkey;
use crate::types::{EmergencyPause, PoolView, SharedLiquidityPool};
use vstd::prelude::*;

verus! {

/// `x - y` does not fit in an `i64`.
pub open spec fn i64_sub_overflows(x: i64, y: i64) -> bool {
    x - y < i64::MIN || x - y > i64::MAX
}

/// Whether a pause configuration keeps the pool paused at the time `now`
/// (the clock's reading): a pause lasts at most `max_pause_duration` seconds.
pub open spec fn paused_status(pause: EmergencyPause, now: Result<i64, ErrorCode>) -> Result<
    bool,
    ErrorCode,
> {
    if !pause.is_paused {
        Ok(false)
    } else {
        match now {
            Err(e) => Err(e),
            Ok(t) => if i64_sub_overflows(t, pause.pause_timestamp) {
                Err(em_err(EmergencyError::ArithmeticOverflow))
            } else if t - pause.pause_timestamp > pause.max_pause_duration {
                Ok(false)
            } else {
                Ok(true)
            },
        }
    }
}

/// Seconds left in a pause at the time `now`.
pub open spec fn remaining_pause(pause: EmergencyPause, now: Result<i64, ErrorCode>) -> Result<
    i64,
    ErrorCode,
> {
    if !pause.is_paused {
        Ok(0)
    } else {
        match now {
            Err(e) => Err(e),
            Ok(t) => if i64_sub_overflows(t, pause.pause_timestamp) {
                Err(em_err(EmergencyError::ArithmeticOverflow))
            } else if i64_sub_overflows(
                pause.max_pause_duration,
                (t - pause.pause_timestamp) as i64,
            ) {
                Err(em_err(EmergencyError::ArithmeticOverflow))
            } else {
                Ok((pause.max_pause_duration - (t - pause.pause_timestamp)) as i64)
            },
        }
    }
}

pub struct EmergencyManager;

impl EmergencyManager {
    /// Initialize emergency pause for a pool
    pub fn initialize_pause(
        pool: &mut SharedLiquidityPool,
        max_pause_duration: i64,
        admin_pubkey: Pubkey,
    ) -> (r: Result<(), ErrorCode>)
        ensures
            initialize_pause_outcome(*old(pool), *final(pool), r, max_pause_duration, admin_pubkey),
    {
        if max_pause_duration <= 0 {
            return Err(EmergencyError::InvalidPauseDuration.into());
        }
        let pause = EmergencyPause {
            is_paused: false,
            pause_timestamp: 0,
            max_pause_duration,
            admin: admin_pubkey,
        };
        pool.emergency_pause = pause;
        Ok(())
    }

    /// Pause pool operations; `now` is the clock's reading, taken when the
    /// pause starts.
    pub fn pause_pool(pool: &mut SharedLiquidityPool, admin_pubkey: Pubkey, now: Result<
        i64,
        ErrorCode,
    >) -> (r: Result<(), ErrorCode>)
        ensures
            pause_outcome(*old(pool), *final(pool), r, admin_pubkey, now),
    {
        if !pool.emergency_pause.admin.same_as(&admin_pubkey) {
            return Err(EmergencyError::UnauthorizedAdmin.into());
        }
        if pool.emergency_pause.is_paused {
            return Err(EmergencyError::AlreadyPaused.into());
        }
        pool.emergency_pause.is_paused = true;
        pool.emergency_pause.pause_timestamp = now?;
        Ok(())
    }

    /// Resume pool operations
    pub fn resume_pool(pool: &mut SharedLiquidityPool, admin_pubkey: Pubkey) -> (r: Result<
        (),
        ErrorCode,
    >)
        ensures
            resume_outcome(*old(pool), *final(pool), r, admin_pubkey),
    {
        if !pool.emergency_pause.admin.same_as(&admin_pubkey) {
            return Err(EmergencyError::UnauthorizedAdmin.into());
        }
        if !pool.emergency_pause.is_paused {
            return Err(EmergencyError::AlreadyResumed.into());
        }
        pool.emergency_pause.is_paused = false;
        pool.emergency_pause.pause_timestamp = 0;
        Ok(())
    }

    /// Check if the pool is paused at the time `now` (the clock's reading)
    pub fn is_paused(pool: &SharedLiquidityPool, now: Result<i64, ErrorCode>) -> (r: Result<
        bool,
        ErrorCode,
    >)
        ensures
            r == paused_status(pool.emergency_pause, now),
    {
        if !pool.emergency_pause.is_paused {
            return Ok(false);
        }
        let current_time = now?;
        let pause_duration = match current_time.checked_sub(pool.emergency_pause.pause_timestamp) {
            Some(d) => d,
            None => return Err(EmergencyError::ArithmeticOverflow.into()),
        };
        if pause_duration > pool.emergency_pause.max_pause_duration {
            return Ok(false);
        }
        Ok(true)
    }

    /// Get the remaining pause time at the time `now` (the clock's reading)
    pub fn get_remaining_pause_time(pool: &SharedLiquidityPool, now: Result<i64, ErrorCode>) -> (r:
        Result<i64, ErrorCode>)
        ensures
            r == remaining_pause(pool.emergency_pause, now),
    {
        if !pool.emergency_pause.is_paused {
            return Ok(0);
        }
        let current_time = now?;
        let pause_duration = match current_time.checked_sub(pool.emergency_pause.pause_timestamp) {
            Some(d) => d,
            None => return Err(EmergencyError::ArithmeticOverflow.into()),
        };
        let remaining_time = match pool.emergency_pause.max_pause_duration.checked_sub(
            pause_duration,
        ) {
            Some(d) => d,
            None => return Err(EmergencyError::ArithmeticOverflow.into()),
        };
        Ok(remaining_time)
    }
}

/// Outcome of `pause_pool`: how `post` and `r` relate to `pre`.
pub open spec fn pause_outcome(
    pre: SharedLiquidityPool,
    post: SharedLiquidityPool,
    r: Result<(), ErrorCode>,
    admin_pubkey: Pubkey,
    now: Result<i64, ErrorCode>,
) -> bool {
    &&& (pre.emergency_pause.admin@ != admin_pubkey@ ==> r == Err::<(), ErrorCode>(
        em_err(EmergencyError::UnauthorizedAdmin),
    ) && post@ == pre@)
    &&& (pre.emergency_pause.admin@ == admin_pubkey@ && pre.emergency_pause.is_paused
        ==> r == Err::<(), ErrorCode>(em_err(EmergencyError::AlreadyPaused)) && post@ == pre@)
    &&& (pre.emergency_pause.admin@ == admin_pubkey@ && !pre.emergency_pause.is_paused ==> match now {
        Err(e) => r == Err::<(), ErrorCode>(e) && post@ == (PoolView {
            emergency_pause: EmergencyPause {
                is_paused: true,
                ..pre.emergency_pause
            },
            ..pre@
        }),
        Ok(t) => r is Ok && post@ == (PoolView {
            emergency_pause: EmergencyPause {
                is_paused: true,
                pause_timestamp: t,
                ..pre.emergency_pause
            },
            ..pre@
        }),
    })
}

/// Outcome of `initialize_pause`: how `post` and `r` relate to `pre`.
pub open spec fn initialize_pause_outcome(
    pre: SharedLiquidityPool,
    post: SharedLiquidityPool,
    r: Result<(), ErrorCode>,
    max_pause_duration: i64,
    admin_pubkey: Pubkey,
) -> bool {
    &&& (max_pause_duration <= 0 ==> r == Err::<(), ErrorCode>(
        em_err(EmergencyError::InvalidPauseDuration),
    ) && post@ == pre@)
    &&& (max_pause_duration > 0 ==> r is Ok && post@ == (PoolView {
        emergency_pause: EmergencyPause {
            is_paused: false,
            pause_timestamp: 0,
            max_pause_duration,
            admin: admin_pubkey,
        },
        ..pre@
    }))
}

/// Outcome of `resume_pool`: how `post` and `r` relate to `pre`.
pub open spec fn resume_outcome(
    pre: SharedLiquidityPool,
    post: SharedLiquidityPool,
    r: Result<(), ErrorCode>,
    admin_pubkey: Pubkey,
) -> bool {
    &&& (pre.emergency_pause.admin@ != admin_pubkey@ ==> r == Err::<(), ErrorCode>(
        em_err(EmergencyError::UnauthorizedAdmin),
    ) && post@ == pre@)
    &&& (pre.emergency_pause.admin@ == admin_pubkey@ && !pre.emergency_pause.is_paused ==> r == Err::<(), ErrorCode>(
        em_err(EmergencyError::AlreadyResumed),
    ) && post@ == pre@)
    &&& (pre.emergency_pause.admin@ == admin_pubkey@ && pre.emergency_pause.is_paused
        ==> r is Ok && post@ == (PoolView {
        emergency_pause: EmergencyPause {
            is_paused: false,
            pause_timestamp: 0,
            ..pre.emergency_pause
        },
        ..pre@
    }))
}

/// Resuming a pool that its admin has just paused succeeds and brings the
/// pool back to what it was before the pause: running, with every other
/// field untouched and the pause timestamp cleared.
pub proof fn law_resume_undoes_pause(
    before: SharedLiquidityPool,
    paused: SharedLiquidityPool,
    resumed: SharedLiquidityPool,
    r: Result<(), ErrorCode>,
    admin_pubkey: Pubkey,
    now: Result<i64, ErrorCode>,
)
    requires
        pause_outcome(before, paused, Ok(()), admin_pubkey, now),
        resume_outcome(paused, resumed, r, admin_pubkey),
    ensures
        r is Ok,
        !resumed@.emergency_pause.is_paused,
        resumed@ == (PoolView {
            emergency_pause: EmergencyPause { pause_timestamp: 0, ..before@.emergency_pause },
            ..before@
        }),
{
}

} // verus!
