use crate::constants::{
    MAX_SHARED_LIQUIDITY_DECIMALS, MAX_SHARED_LIQUIDITY_SUPPLY, MIN_SHARED_LIQUIDITY_SUPPLY,
};
use crate::error::ErrorCode;
use crate::state::{Account, AccountState, Mint};
use vstd::prelude::*;

verus! {

/// Shared liquidity compatibility check result
#[derive(Debug, Clone, Copy, PartialEq, Eq, Structural)]
pub enum SharedLiquidityCompatibility {
    /// Token meets all shared liquidity requirements
    Compatible,
    /// Token is not initialized
    NotInitialized,
    /// Token has a mint authority (not fixed supply)
    HasMintAuthority,
    /// Token has too many decimals
    InvalidDecimals,
    /// Token supply is outside allowed range
    InvalidSupply,
    /// Token has frozen accounts
    FrozenAccounts,
    /// Token has delegated accounts
    HasDelegates,
}

/// The error that a compatibility result stands for, `None` for `Compatible`.
pub open spec fn compatibility_error(c: SharedLiquidityCompatibility) -> Option<ErrorCode> {
    match c {
        SharedLiquidityCompatibility::Compatible => None,
        SharedLiquidityCompatibility::NotInitialized => Some(ErrorCode::UninitializedAccount),
        SharedLiquidityCompatibility::HasMintAuthority => Some(ErrorCode::InvalidAccountData),
        SharedLiquidityCompatibility::InvalidDecimals => Some(ErrorCode::InvalidArgument),
        SharedLiquidityCompatibility::InvalidSupply => Some(ErrorCode::InvalidArgument),
        SharedLiquidityCompatibility::FrozenAccounts => Some(ErrorCode::InvalidAccountData),
        SharedLiquidityCompatibility::HasDelegates => Some(ErrorCode::InvalidAccountData),
    }
}

/// Whether a supply lies in the range that shared liquidity accepts.
pub open spec fn supply_in_range(supply: u64) -> bool {
    MIN_SHARED_LIQUIDITY_SUPPLY <= supply <= MAX_SHARED_LIQUIDITY_SUPPLY
}

/// The first requirement on a mint that fails, in the order initialized,
/// fixed supply, decimals, supply range.
pub open spec fn mint_compatibility(mint: Mint) -> SharedLiquidityCompatibility {
    if !mint.is_initialized {
        SharedLiquidityCompatibility::NotInitialized
    } else if mint.mint_authority.is_some() {
        SharedLiquidityCompatibility::HasMintAuthority
    } else if mint.decimals > MAX_SHARED_LIQUIDITY_DECIMALS {
        SharedLiquidityCompatibility::InvalidDecimals
    } else if !supply_in_range(mint.supply) {
        SharedLiquidityCompatibility::InvalidSupply
    } else {
        SharedLiquidityCompatibility::Compatible
    }
}

/// The first requirement on an account that fails: not frozen, no delegate.
pub open spec fn account_compatibility(account: Account) -> SharedLiquidityCompatibility {
    if account.state == AccountState::Frozen {
        SharedLiquidityCompatibility::FrozenAccounts
    } else if account.delegate.is_some() {
        SharedLiquidityCompatibility::HasDelegates
    } else {
        SharedLiquidityCompatibility::Compatible
    }
}

/// The result of the first account that is not compatible, or `Compatible`.
pub open spec fn accounts_compatibility(accounts: Seq<Account>) -> SharedLiquidityCompatibility
    decreases accounts.len(),
{
    if accounts.len() == 0 {
        SharedLiquidityCompatibility::Compatible
    } else if account_compatibility(accounts[0]) != SharedLiquidityCompatibility::Compatible {
        account_compatibility(accounts[0])
    } else {
        accounts_compatibility(accounts.drop_first())
    }
}

/// The mint's result if it is not compatible, else that of the accounts.
pub open spec fn compatibility(mint: Mint, accounts: Seq<Account>) -> SharedLiquidityCompatibility {
    if mint_compatibility(mint) != SharedLiquidityCompatibility::Compatible {
        mint_compatibility(mint)
    } else {
        accounts_compatibility(accounts)
    }
}

impl SharedLiquidityCompatibility {
    /// Convert compatibility result to a program result
    pub fn to_program_result(&self) -> (r: Result<(), ErrorCode>)
        ensures
            r matches Ok(_) <==> compatibility_error(*self) is None,
            r matches Err(e) ==> compatibility_error(*self) == Some(e),
    {
        match self {
            SharedLiquidityCompatibility::Compatible => Ok(()),
            SharedLiquidityCompatibility::NotInitialized => Err(ErrorCode::UninitializedAccount),
            SharedLiquidityCompatibility::HasMintAuthority => Err(ErrorCode::InvalidAccountData),
            SharedLiquidityCompatibility::InvalidDecimals => Err(ErrorCode::InvalidArgument),
            SharedLiquidityCompatibility::InvalidSupply => Err(ErrorCode::InvalidArgument),
            SharedLiquidityCompatibility::FrozenAccounts => Err(ErrorCode::InvalidAccountData),
            SharedLiquidityCompatibility::HasDelegates => Err(ErrorCode::InvalidAccountData),
        }
    }
}

pub struct SharedLiquidityChecker;

impl SharedLiquidityChecker {
    /// Check if a mint is compatible with shared liquidity
    pub fn check_mint_compatibility(mint: &Mint) -> (r: SharedLiquidityCompatibility)
        ensures
            r == mint_compatibility(*mint),
    {
        if !mint.is_initialized {
            return SharedLiquidityCompatibility::NotInitialized;
        }
        if mint.mint_authority.is_some() {
            return SharedLiquidityCompatibility::HasMintAuthority;
        }
        if mint.decimals > MAX_SHARED_LIQUIDITY_DECIMALS {
            return SharedLiquidityCompatibility::InvalidDecimals;
        }
        if mint.supply < MIN_SHARED_LIQUIDITY_SUPPLY || mint.supply > MAX_SHARED_LIQUIDITY_SUPPLY {
            return SharedLiquidityCompatibility::InvalidSupply;
        }
        SharedLiquidityCompatibility::Compatible
    }

    /// Check if an account is compatible with shared liquidity
    pub fn check_account_compatibility(account: &Account) -> (r: SharedLiquidityCompatibility)
        ensures
            r == account_compatibility(*account),
    {
        if account.is_frozen() {
            return SharedLiquidityCompatibility::FrozenAccounts;
        }
        if account.delegate.is_some() {
            return SharedLiquidityCompatibility::HasDelegates;
        }
        SharedLiquidityCompatibility::Compatible
    }

    /// Comprehensive check for shared liquidity compatibility
    pub fn check_compatibility(mint: &Mint, accounts: &[Account]) -> (r:
        SharedLiquidityCompatibility)
        ensures
            r == compatibility(*mint, accounts@),
    {
        let mint_result = Self::check_mint_compatibility(mint);
        if mint_result != SharedLiquidityCompatibility::Compatible {
            return mint_result;
        }
        let mut i: usize = 0;
        assert(accounts@.skip(0) =~= accounts@);
        while i < accounts.len()
            invariant
                0 <= i <= accounts@.len(),
                mint_compatibility(*mint) == SharedLiquidityCompatibility::Compatible,
                accounts_compatibility(accounts@) == accounts_compatibility(
                    accounts@.skip(i as int),
                ),
            decreases accounts.len() - i,
        {
            let account_result = Self::check_account_compatibility(&accounts[i]);
            assert(accounts@.skip(i as int)[0] == accounts@[i as int]);
            assert(accounts@.skip(i as int).drop_first() =~= accounts@.skip(i + 1));
            if account_result != SharedLiquidityCompatibility::Compatible {
                return account_result;
            }
            i = i + 1;
        }
        assert(accounts@.skip(i as int).len() == 0);
        SharedLiquidityCompatibility::Compatible
    }
}

} // verus!
