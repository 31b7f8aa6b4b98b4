//! The pool record, and the accounts that each instruction works on.
//!
//! Balances are not part of the pool record: the reserves are what the two
//! vaults hold and the share supply is what the share mint has issued. Each
//! instruction gets them as a snapshot of the accounts it touches, and on
//! success leaves in that snapshot the balances that its effects produce.

use vstd::prelude::*;
use anchor_lang::prelude::Pubkey;

verus! {

/// `anchor_lang::prelude::Pubkey`, the address of an account on the ledger.
/// The pool stores such addresses and hands them on, and never looks into
/// one.
#[verifier::external_type_specification]
#[verifier::external_body]
pub struct ExPubkey(Pubkey);

/// A token account, as far as the pool reads it: the amount it holds.
#[derive(Clone, Copy, Debug, PartialEq, Eq)]
pub struct TokenAccount {
    pub amount: u64,
}

/// A token mint, as far as the pool reads it: the supply it has issued.
#[derive(Clone, Copy, Debug, PartialEq, Eq)]
pub struct Mint {
    pub supply: u64,
}

/// The record of one pool. It is written once, when the pool is created, and
/// never changed afterwards.
#[derive(Clone, Copy, Debug, PartialEq, Eq)]
pub struct Pool {
    /// The mint of the first traded asset.
    pub token_a_mint: Pubkey,
    /// The mint of the second traded asset.
    pub token_b_mint: Pubkey,
    /// The vault that holds the reserve of the first asset.
    pub token_a_vault: Pubkey,
    /// The vault that holds the reserve of the second asset.
    pub token_b_vault: Pubkey,
    /// The mint of the pool's shares.
    pub lp_mint: Pubkey,
    /// The fee on a swap is `fee_numerator / fee_denominator` of its input.
    pub fee_numerator: u64,
    pub fee_denominator: u64,
    /// The nonce that completes the derivation of the pool's own address.
    pub bump: u8,
}

impl Pool {
    /// The fee is a fraction in `[0, 1)`.
    pub open spec fn wf(&self) -> bool {
        &&& self.fee_denominator > 0
        &&& self.fee_numerator < self.fee_denominator
    }

    /// Whether the fee is a fraction in `[0, 1)`, as it is in every record
    /// that `initialize_pool` made.
    pub fn is_well_formed(&self) -> (b: bool)
        ensures
            b == self.wf(),
    {
        self.fee_denominator > 0 && self.fee_numerator < self.fee_denominator
    }
}

/// The accounts of `initialize_pool`: the identifiers that the new record
/// will hold. The vaults and the share mint are created empty beforehand.
#[derive(Clone, Copy, Debug, PartialEq, Eq)]
pub struct InitializePool {
    pub token_a_mint: Pubkey,
    pub token_b_mint: Pubkey,
    pub token_a_vault: Pubkey,
    pub token_b_vault: Pubkey,
    pub lp_mint: Pubkey,
    /// The nonce found when the pool's address was derived.
    pub bump: u8,
}

/// The accounts of `add_liquidity`.
#[derive(Clone, Copy, Debug, PartialEq, Eq)]
pub struct AddLiquidity {
    pub pool: Pool,
    pub token_a_vault: TokenAccount,
    pub token_b_vault: TokenAccount,
    pub lp_mint: Mint,
}

/// The accounts of `remove_liquidity`.
#[derive(Clone, Copy, Debug, PartialEq, Eq)]
pub struct RemoveLiquidity {
    pub pool: Pool,
    pub token_a_vault: TokenAccount,
    pub token_b_vault: TokenAccount,
    pub lp_mint: Mint,
}

/// The accounts of `swap`. A swap does not read the share supply.
#[derive(Clone, Copy, Debug, PartialEq, Eq)]
pub struct Swap {
    pub pool: Pool,
    pub token_a_vault: TokenAccount,
    pub token_b_vault: TokenAccount,
}

/// Shares that exist are backed by both reserves.
pub open spec fn shares_are_backed(reserve_a: u64, reserve_b: u64, lp_supply: u64) -> bool {
    lp_supply > 0 ==> reserve_a > 0 && reserve_b > 0
}

impl AddLiquidity {
    /// Shares that exist are backed by both reserves.
    pub open spec fn wf(&self) -> bool {
        shares_are_backed(self.token_a_vault.amount, self.token_b_vault.amount, self.lp_mint.supply)
    }

    /// Whether the shares that exist are backed by both reserves, as they are
    /// in every state that the instructions lead to.
    pub fn is_well_formed(&self) -> (b: bool)
        ensures
            b == self.wf(),
    {
        self.lp_mint.supply == 0 || (self.token_a_vault.amount > 0 && self.token_b_vault.amount
            > 0)
    }
}

impl RemoveLiquidity {
    /// Shares that exist are backed by both reserves.
    pub open spec fn wf(&self) -> bool {
        shares_are_backed(self.token_a_vault.amount, self.token_b_vault.amount, self.lp_mint.supply)
    }
}

impl Swap {
    /// The product of the two reserves.
    pub open spec fn k(&self) -> int {
        self.token_a_vault.amount * self.token_b_vault.amount
    }
}

} // verus!
