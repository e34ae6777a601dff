//! Verified shared-liquidity layer of the SuperSol token program: token
//! compatibility checks, cross-chain transfers, constant-product pools,
//! concentrated liquidity, flash loans, liquidity mining, a price oracle and
//! an emergency pause.
pub mod clock;
pub mod compatibility;
pub mod concentrated;
pub mod constants;
pub mod emergency;
pub mod error;
pub mod flash_loan;
pub mod key;
pub mod math;
pub mod mining;
pub mod operations;
pub mod oracle;
pub mod pool;
pub mod routing;
pub mod shared_liquidity;
pub mod sort;
pub mod swap;
pub mod state;
mod sysvar;
pub mod types;
