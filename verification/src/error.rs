use vstd::prelude::*;
use vstd::std_specs::convert::FromSpecImpl;

verus! {

/// Errors returned by the shared-liquidity operations.
///
/// `Custom(code)` carries the code of a module-specific error (the position of
/// its variant in that module's error enum), or one of the pool-wide codes
/// `POOL_PAUSED_CODE` and `SLIPPAGE_CODE`.
#[derive(Debug, Clone, Copy, PartialEq, Eq, Structural)]
pub enum ErrorCode {
    Custom(u32),
    InvalidArgument,
    InvalidAccountData,
    InsufficientFunds,
    UninitializedAccount,
    ArithmeticOverflow,
    UnsupportedSysvar,
}

/// Custom code of "pool is paused"
pub const POOL_PAUSED_CODE: u32 = 1;

/// Custom code of "slippage too high"
pub const SLIPPAGE_CODE: u32 = 9;

/// Custom error types for concentrated liquidity operations
#[derive(Debug, Clone, Copy, PartialEq, Eq, Structural)]
pub enum ConcentratedLiquidityError {
    InvalidPriceRange,
    RangeLimitExceeded,
    RangeOverlap,
    PositionNotFound,
    InvalidRangeIndex,
    ArithmeticOverflow,
    InvalidOwnership,
    InsufficientLiquidity,
    InvalidFeeCalculation,
    PoolPaused,
}

impl ConcentratedLiquidityError {
    /// Position of the variant in the enum.
    pub open spec fn index(self) -> u32 {
        match self {
            ConcentratedLiquidityError::InvalidPriceRange => 0,
            ConcentratedLiquidityError::RangeLimitExceeded => 1,
            ConcentratedLiquidityError::RangeOverlap => 2,
            ConcentratedLiquidityError::PositionNotFound => 3,
            ConcentratedLiquidityError::InvalidRangeIndex => 4,
            ConcentratedLiquidityError::ArithmeticOverflow => 5,
            ConcentratedLiquidityError::InvalidOwnership => 6,
            ConcentratedLiquidityError::InsufficientLiquidity => 7,
            ConcentratedLiquidityError::InvalidFeeCalculation => 8,
            ConcentratedLiquidityError::PoolPaused => 9,
        }
    }
}

impl From<ConcentratedLiquidityError> for ErrorCode {
    fn from(e: ConcentratedLiquidityError) -> (r: ErrorCode) {
        ErrorCode::Custom(
            match e {
                ConcentratedLiquidityError::InvalidPriceRange => 0,
                ConcentratedLiquidityError::RangeLimitExceeded => 1,
                ConcentratedLiquidityError::RangeOverlap => 2,
                ConcentratedLiquidityError::PositionNotFound => 3,
                ConcentratedLiquidityError::InvalidRangeIndex => 4,
                ConcentratedLiquidityError::ArithmeticOverflow => 5,
                ConcentratedLiquidityError::InvalidOwnership => 6,
                ConcentratedLiquidityError::InsufficientLiquidity => 7,
                ConcentratedLiquidityError::InvalidFeeCalculation => 8,
                ConcentratedLiquidityError::PoolPaused => 9,
            },
        )
    }
}

impl FromSpecImpl<ConcentratedLiquidityError> for ErrorCode {
    open spec fn obeys_from_spec() -> bool {
        true
    }

    open spec fn from_spec(e: ConcentratedLiquidityError) -> ErrorCode {
        ErrorCode::Custom(e.index())
    }
}

/// Custom error types for emergency operations
#[derive(Debug, Clone, Copy, PartialEq, Eq, Structural)]
pub enum EmergencyError {
    InvalidPauseDuration,
    UnauthorizedAdmin,
    AlreadyPaused,
    AlreadyResumed,
    InvalidAccountData,
    ArithmeticOverflow,
}

impl EmergencyError {
    /// Position of the variant in the enum.
    pub open spec fn index(self) -> u32 {
        match self {
            EmergencyError::InvalidPauseDuration => 0,
            EmergencyError::UnauthorizedAdmin => 1,
            EmergencyError::AlreadyPaused => 2,
            EmergencyError::AlreadyResumed => 3,
            EmergencyError::InvalidAccountData => 4,
            EmergencyError::ArithmeticOverflow => 5,
        }
    }
}

impl From<EmergencyError> for ErrorCode {
    fn from(e: EmergencyError) -> (r: ErrorCode) {
        ErrorCode::Custom(
            match e {
                EmergencyError::InvalidPauseDuration => 0,
                EmergencyError::UnauthorizedAdmin => 1,
                EmergencyError::AlreadyPaused => 2,
                EmergencyError::AlreadyResumed => 3,
                EmergencyError::InvalidAccountData => 4,
                EmergencyError::ArithmeticOverflow => 5,
            },
        )
    }
}

impl FromSpecImpl<EmergencyError> for ErrorCode {
    open spec fn obeys_from_spec() -> bool {
        true
    }

    open spec fn from_spec(e: EmergencyError) -> ErrorCode {
        ErrorCode::Custom(e.index())
    }
}

/// Custom error types for liquidity mining operations
#[derive(Debug, Clone, Copy, PartialEq, Eq, Structural)]
pub enum MiningError {
    InvalidRewardRate,
    InvalidStakingPeriod,
    StakingPeriodNotEnded,
    InsufficientStake,
    StakeNotFound,
    RewardCalculationFailed,
    ArithmeticOverflow,
}

impl MiningError {
    /// Position of the variant in the enum.
    pub open spec fn index(self) -> u32 {
        match self {
            MiningError::InvalidRewardRate => 0,
            MiningError::InvalidStakingPeriod => 1,
            MiningError::StakingPeriodNotEnded => 2,
            MiningError::InsufficientStake => 3,
            MiningError::StakeNotFound => 4,
            MiningError::RewardCalculationFailed => 5,
            MiningError::ArithmeticOverflow => 6,
        }
    }
}

impl From<MiningError> for ErrorCode {
    fn from(e: MiningError) -> (r: ErrorCode) {
        ErrorCode::Custom(
            match e {
                MiningError::InvalidRewardRate => 0,
                MiningError::InvalidStakingPeriod => 1,
                MiningError::StakingPeriodNotEnded => 2,
                MiningError::InsufficientStake => 3,
                MiningError::StakeNotFound => 4,
                MiningError::RewardCalculationFailed => 5,
                MiningError::ArithmeticOverflow => 6,
            },
        )
    }
}

impl FromSpecImpl<MiningError> for ErrorCode {
    open spec fn obeys_from_spec() -> bool {
        true
    }

    open spec fn from_spec(e: MiningError) -> ErrorCode {
        ErrorCode::Custom(e.index())
    }
}

/// Custom error types for price oracle operations
#[derive(Debug, Clone, Copy, PartialEq, Eq, Structural)]
pub enum OracleError {
    InvalidUpdateInterval,
    InvalidPriceDeviation,
    OracleNotActive,
    UpdateTooSoon,
    PriceDeviationTooHigh,
    PriceStale,
    InvalidPrice,
    ArithmeticOverflow,
}

impl OracleError {
    /// Position of the variant in the enum.
    pub open spec fn index(self) -> u32 {
        match self {
            OracleError::InvalidUpdateInterval => 0,
            OracleError::InvalidPriceDeviation => 1,
            OracleError::OracleNotActive => 2,
            OracleError::UpdateTooSoon => 3,
            OracleError::PriceDeviationTooHigh => 4,
            OracleError::PriceStale => 5,
            OracleError::InvalidPrice => 6,
            OracleError::ArithmeticOverflow => 7,
        }
    }
}

impl From<OracleError> for ErrorCode {
    fn from(e: OracleError) -> (r: ErrorCode) {
        ErrorCode::Custom(
            match e {
                OracleError::InvalidUpdateInterval => 0,
                OracleError::InvalidPriceDeviation => 1,
                OracleError::OracleNotActive => 2,
                OracleError::UpdateTooSoon => 3,
                OracleError::PriceDeviationTooHigh => 4,
                OracleError::PriceStale => 5,
                OracleError::InvalidPrice => 6,
                OracleError::ArithmeticOverflow => 7,
            },
        )
    }
}

impl FromSpecImpl<OracleError> for ErrorCode {
    open spec fn obeys_from_spec() -> bool {
        true
    }

    open spec fn from_spec(e: OracleError) -> ErrorCode {
        ErrorCode::Custom(e.index())
    }
}

/// The error code of a concentrated liquidity error.
pub open spec fn cl_err(e: ConcentratedLiquidityError) -> ErrorCode {
    ErrorCode::Custom(e.index())
}

/// The error code of an emergency error.
pub open spec fn em_err(e: EmergencyError) -> ErrorCode {
    ErrorCode::Custom(e.index())
}

/// The error code of a mining error.
pub open spec fn mi_err(e: MiningError) -> ErrorCode {
    ErrorCode::Custom(e.index())
}

/// The error code of an oracle error.
pub open spec fn or_err(e: OracleError) -> ErrorCode {
    ErrorCode::Custom(e.index())
}

} // verus!
