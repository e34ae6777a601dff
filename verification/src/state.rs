use crate::key::Pubkey;
use vstd::prelude::*;

verus! {

/// State of a token account.
#[derive(Clone, Copy, Debug, PartialEq, Eq)]
pub enum AccountState {
    Uninitialized,
    Initialized,
    Frozen,
}

/// A token mint.
#[derive(Clone, Copy, Debug, PartialEq, Eq)]
pub struct Mint {
    /// Authority allowed to mint new tokens; `None` means a fixed supply
    pub mint_authority: Option<Pubkey>,
    /// Total supply of tokens
    pub supply: u64,
    /// Number of base-10 digits to the right of the decimal place
    pub decimals: u8,
    /// Whether the mint has been initialized
    pub is_initialized: bool,
    /// Authority allowed to freeze token accounts
    pub freeze_authority: Option<Pubkey>,
}

/// A token account.
#[derive(Clone, Copy, Debug, PartialEq, Eq)]
pub struct Account {
    /// The mint of the tokens held
    pub mint: Pubkey,
    /// The owner of the account
    pub owner: Pubkey,
    /// Number of tokens held
    pub amount: u64,
    /// Delegate allowed to spend `delegated_amount`
    pub delegate: Option<Pubkey>,
    /// The account's state
    pub state: AccountState,
    /// Rent-exempt reserve of a native account
    pub is_native: Option<u64>,
    /// Amount the delegate may spend
    pub delegated_amount: u64,
    /// Authority allowed to close the account
    pub close_authority: Option<Pubkey>,
}

impl Account {
    /// Whether the account is frozen.
    pub fn is_frozen(&self) -> (frozen: bool)
        ensures
            frozen == (self.state == AccountState::Frozen),
    {
        match self.state {
            AccountState::Frozen => true,
            _ => false,
        }
    }
}

} // verus!
