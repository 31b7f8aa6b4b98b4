//! The four instructions of the pool.
//!
//! Each one works on a snapshot of its accounts. It either succeeds, returns
//! the amounts to move and leaves in the snapshot the balances that moving
//! them produces, or fails and leaves the snapshot as it was.

use vstd::prelude::*;
use crate::error::AmmError;
use crate::math::{floor_sqrt, integer_sqrt, lemma_div_bounds};
use crate::pricing::{
    amount_in_with_fee,
    lemma_swap_amount_out_bounds,
    lemma_swap_product,
    lemma_swap_without_fee,
    lemma_withdrawal_bounds,
    shares_for_deposit,
    swap_amount_out,
    swap_denominator,
    swap_numerator,
    withdrawal_amount,
};
use crate::state::{AddLiquidity, InitializePool, Mint, Pool, RemoveLiquidity, Swap, TokenAccount};

verus! {

impl InitializePool {
    /// The record of a pool on these accounts with the given fee.
    pub open spec fn record(&self, fee_numerator: u64, fee_denominator: u64) -> Pool {
        Pool {
            token_a_mint: self.token_a_mint,
            token_b_mint: self.token_b_mint,
            token_a_vault: self.token_a_vault,
            token_b_vault: self.token_b_vault,
            lp_mint: self.lp_mint,
            fee_numerator,
            fee_denominator,
            bump: self.bump,
        }
    }
}

/// Makes the record of a new pool that charges `fee_numerator /
/// fee_denominator` of every swap's input.
///
/// The fee has to be a fraction below one: a zero denominator, or a numerator
/// that is not below the denominator, is refused as `InvalidFee`.
pub fn initialize_pool(ctx: &InitializePool, fee_numerator: u64, fee_denominator: u64) -> (res:
    Result<Pool, AmmError>)
    ensures
        fee_denominator > 0 && fee_numerator < fee_denominator ==> res == Ok::<Pool, AmmError>(
            ctx.record(fee_numerator, fee_denominator),
        ),
        !(fee_denominator > 0 && fee_numerator < fee_denominator) ==> res == Err::<Pool, AmmError>(
            AmmError::InvalidFee,
        ),
        res matches Ok(pool) ==> pool.wf(),
{
    if fee_denominator == 0 {
        return Err(AmmError::InvalidFee);
    }
    if fee_numerator >= fee_denominator {
        return Err(AmmError::InvalidFee);
    }
    Ok(
        Pool {
            token_a_mint: ctx.token_a_mint,
            token_b_mint: ctx.token_b_mint,
            token_a_vault: ctx.token_a_vault,
            token_b_vault: ctx.token_b_vault,
            lp_mint: ctx.lp_mint,
            fee_numerator,
            fee_denominator,
            bump: ctx.bump,
        },
    )
}

impl AddLiquidity {
    /// The shares that depositing `amount_a` and `amount_b` earns, before any
    /// check.
    pub open spec fn shares(&self, amount_a: u64, amount_b: u64) -> int {
        shares_for_deposit(
            self.token_a_vault.amount as int,
            self.token_b_vault.amount as int,
            self.lp_mint.supply as int,
            amount_a as int,
            amount_b as int,
        )
    }

    /// The ledger can take the deposit and issue the shares.
    pub open spec fn ledger_accepts(&self, amount_a: u64, amount_b: u64, lp_tokens: int) -> bool {
        &&& self.token_a_vault.amount + amount_a <= u64::MAX
        &&& self.token_b_vault.amount + amount_b <= u64::MAX
        &&& self.lp_mint.supply + lp_tokens <= u64::MAX
    }

    /// The accounts after both amounts have come in and `lp_tokens` shares
    /// have been issued.
    pub open spec fn after_deposit(
        &self,
        amount_a: u64,
        amount_b: u64,
        lp_tokens: u64,
    ) -> AddLiquidity {
        AddLiquidity {
            pool: self.pool,
            token_a_vault: TokenAccount { amount: (self.token_a_vault.amount + amount_a) as u64 },
            token_b_vault: TokenAccount { amount: (self.token_b_vault.amount + amount_b) as u64 },
            lp_mint: Mint { supply: (self.lp_mint.supply + lp_tokens) as u64 },
        }
    }

    /// What `add_liquidity` returns on these accounts.
    pub open spec fn outcome(
        &self,
        amount_a: u64,
        amount_b: u64,
        min_lp_tokens: u64,
    ) -> Result<u64, AmmError> {
        if amount_a == 0 || amount_b == 0 {
            Err(AmmError::InvalidAmount)
        } else if self.shares(amount_a, amount_b) < min_lp_tokens {
            Err(AmmError::SlippageExceeded)
        } else if self.shares(amount_a, amount_b) > u64::MAX {
            Err(AmmError::ArithmeticOverflow)
        } else if !self.ledger_accepts(amount_a, amount_b, self.shares(amount_a, amount_b)) {
            Err(AmmError::LedgerFailure)
        } else {
            Ok(self.shares(amount_a, amount_b) as u64)
        }
    }
}

/// Deposits `amount_a` of the first asset and `amount_b` of the second, and
/// issues shares for them.
///
/// The first deposit into a pool earns the floor of the square root of
/// `amount_a * amount_b`. A later deposit earns for each asset the part of the
/// share supply that the amount is of the reserve, rounded down, and is
/// credited with the smaller of the two. Both amounts go to the vaults in
/// full all the same: what a deposit holds of one asset beyond the pool's
/// ratio is a gift to those who hold shares.
///
/// On success the result is the number of shares issued: the caller owes the
/// two vaults `amount_a` and `amount_b`, and the share mint owes the caller
/// the result.
pub fn add_liquidity(
    ctx: &mut AddLiquidity,
    amount_a: u64,
    amount_b: u64,
    min_lp_tokens: u64,
) -> (res: Result<u64, AmmError>)
    requires
        old(ctx).wf(),
    ensures
        res == old(ctx).outcome(amount_a, amount_b, min_lp_tokens),
        res matches Ok(lp_tokens) ==> *final(ctx) == old(ctx).after_deposit(
            amount_a,
            amount_b,
            lp_tokens,
        ),
        res is Err ==> *final(ctx) == *old(ctx),
        final(ctx).pool == old(ctx).pool,
        final(ctx).wf(),
        res matches Ok(lp_tokens) ==> min_lp_tokens <= lp_tokens,
        res matches Ok(lp_tokens) ==> final(ctx).token_a_vault.amount == old(ctx).token_a_vault.amount + amount_a,
        res matches Ok(lp_tokens) ==> final(ctx).token_b_vault.amount == old(ctx).token_b_vault.amount + amount_b,
        res matches Ok(lp_tokens) ==> final(ctx).lp_mint.supply == old(ctx).lp_mint.supply
            + lp_tokens,
        // the first deposit earns the floor of the geometric mean
        res matches Ok(lp_tokens) ==> (old(ctx).lp_mint.supply == 0 ==> lp_tokens == floor_sqrt(
            (amount_a * amount_b) as nat,
        )),
        // a later deposit earns no more than its part of either reserve
        res matches Ok(lp_tokens) ==> (old(ctx).lp_mint.supply > 0 ==> lp_tokens * old(ctx).token_a_vault.amount <= amount_a * old(ctx).lp_mint.supply),
        res matches Ok(lp_tokens) ==> (old(ctx).lp_mint.supply > 0 ==> lp_tokens * old(ctx).token_b_vault.amount <= amount_b * old(ctx).lp_mint.supply),
        // into an empty pool every deposit without a minimum succeeds
        old(ctx).lp_mint.supply == 0 && old(ctx).token_a_vault.amount == 0 && old(ctx).token_b_vault.amount == 0 && amount_a > 0 && amount_b > 0 && min_lp_tokens == 0 ==> res
            == Ok::<u64, AmmError>(floor_sqrt((amount_a * amount_b) as nat) as u64),
{
    if amount_a == 0 || amount_b == 0 {
        return Err(AmmError::InvalidAmount);
    }
    let vault_a_amount: u64 = ctx.token_a_vault.amount;
    let vault_b_amount: u64 = ctx.token_b_vault.amount;
    let lp_supply: u64 = ctx.lp_mint.supply;
    proof {
        assert(amount_a * amount_b <= u64::MAX * u64::MAX) by (nonlinear_arith)
            requires
                0 <= amount_a <= u64::MAX,
                0 <= amount_b <= u64::MAX,
        ;
        assert(amount_a * lp_supply <= u64::MAX * u64::MAX) by (nonlinear_arith)
            requires
                0 <= amount_a <= u64::MAX,
                0 <= lp_supply <= u64::MAX,
        ;
        assert(amount_b * lp_supply <= u64::MAX * u64::MAX) by (nonlinear_arith)
            requires
                0 <= amount_b <= u64::MAX,
                0 <= lp_supply <= u64::MAX,
        ;
    }
    let shares: u128 = if lp_supply == 0 {
        let root: u128 = integer_sqrt((amount_a as u128) * (amount_b as u128));
        proof {
            let product = amount_a * amount_b;
            assert(root <= u64::MAX) by (nonlinear_arith)
                requires
                    root * root <= product,
                    product <= u64::MAX * u64::MAX,
                    root >= 0,
            ;
        }
        root
    } else {
        let from_a: u128 = (amount_a as u128) * (lp_supply as u128) / (vault_a_amount as u128);
        let from_b: u128 = (amount_b as u128) * (lp_supply as u128) / (vault_b_amount as u128);
        proof {
            lemma_div_bounds(amount_a * lp_supply, vault_a_amount as int);
            lemma_div_bounds(amount_b * lp_supply, vault_b_amount as int);
            assert(from_a * vault_a_amount >= 0 && from_b * vault_b_amount >= 0)
                by (nonlinear_arith);
            if from_a <= from_b {
                assert(from_a * vault_b_amount <= from_b * vault_b_amount) by (nonlinear_arith)
                    requires
                        from_a <= from_b,
                ;
            } else {
                assert(from_b * vault_a_amount <= from_a * vault_a_amount) by (nonlinear_arith)
                    requires
                        from_b <= from_a,
                ;
            }
        }
        if from_a <= from_b {
            from_a
        } else {
            from_b
        }
    };
    assert(shares == old(ctx).shares(amount_a, amount_b));
    if shares < min_lp_tokens as u128 {
        return Err(AmmError::SlippageExceeded);
    }
    if shares > u64::MAX as u128 {
        return Err(AmmError::ArithmeticOverflow);
    }
    let lp_tokens: u64 = shares as u64;
    let new_vault_a: u64 = match vault_a_amount.checked_add(amount_a) {
        Some(v) => v,
        None => {
            return Err(AmmError::LedgerFailure);
        },
    };
    let new_vault_b: u64 = match vault_b_amount.checked_add(amount_b) {
        Some(v) => v,
        None => {
            return Err(AmmError::LedgerFailure);
        },
    };
    let new_supply: u64 = match lp_supply.checked_add(lp_tokens) {
        Some(v) => v,
        None => {
            return Err(AmmError::LedgerFailure);
        },
    };
    ctx.token_a_vault = TokenAccount { amount: new_vault_a };
    ctx.token_b_vault = TokenAccount { amount: new_vault_b };
    ctx.lp_mint = Mint { supply: new_supply };
    Ok(lp_tokens)
}

impl RemoveLiquidity {
    /// What burning `lp_amount` shares returns of the first asset, before
    /// any check.
    pub open spec fn amount_a(&self, lp_amount: u64) -> int {
        withdrawal_amount(
            self.token_a_vault.amount as int,
            self.lp_mint.supply as int,
            lp_amount as int,
        )
    }

    /// What burning `lp_amount` shares returns of the second asset, before
    /// any check.
    pub open spec fn amount_b(&self, lp_amount: u64) -> int {
        withdrawal_amount(
            self.token_b_vault.amount as int,
            self.lp_mint.supply as int,
            lp_amount as int,
        )
    }

    /// The accounts after `lp_amount` shares have been burned and the two
    /// amounts have gone out.
    pub open spec fn after_withdrawal(
        &self,
        lp_amount: u64,
        amount_a: u64,
        amount_b: u64,
    ) -> RemoveLiquidity {
        RemoveLiquidity {
            pool: self.pool,
            token_a_vault: TokenAccount { amount: (self.token_a_vault.amount - amount_a) as u64 },
            token_b_vault: TokenAccount { amount: (self.token_b_vault.amount - amount_b) as u64 },
            lp_mint: Mint { supply: (self.lp_mint.supply - lp_amount) as u64 },
        }
    }

    /// What `remove_liquidity` returns on these accounts.
    pub open spec fn outcome(&self, lp_amount: u64, min_amount_a: u64, min_amount_b: u64) -> Result<
        (u64, u64),
        AmmError,
    > {
        if lp_amount == 0 {
            Err(AmmError::InvalidAmount)
        } else if lp_amount > self.lp_mint.supply {
            Err(AmmError::LedgerFailure)
        } else if self.amount_a(lp_amount) < min_amount_a || self.amount_b(lp_amount)
            < min_amount_b {
            Err(AmmError::SlippageExceeded)
        } else {
            Ok((self.amount_a(lp_amount) as u64, self.amount_b(lp_amount) as u64))
        }
    }
}

/// Burns `lp_amount` shares and returns their part of both reserves.
///
/// Of each reserve the shares return the part that they are of the share
/// supply, rounded down, so that a withdrawal never takes more than its
/// claim. On success the result is the pair of amounts returned, of the
/// first asset and of the second: the caller owes the share mint `lp_amount`,
/// and the two vaults owe the caller the result.
pub fn remove_liquidity(
    ctx: &mut RemoveLiquidity,
    lp_amount: u64,
    min_amount_a: u64,
    min_amount_b: u64,
) -> (res: Result<(u64, u64), AmmError>)
    ensures
        res == old(ctx).outcome(lp_amount, min_amount_a, min_amount_b),
        res matches Ok((amount_a, amount_b)) ==> *final(ctx) == old(ctx).after_withdrawal(
            lp_amount,
            amount_a,
            amount_b,
        ),
        res is Err ==> *final(ctx) == *old(ctx),
        final(ctx).pool == old(ctx).pool,
        old(ctx).wf() ==> final(ctx).wf(),
        res matches Ok((amount_a, amount_b)) ==> min_amount_a <= amount_a <= old(ctx).token_a_vault.amount,
        res matches Ok((amount_a, amount_b)) ==> min_amount_b <= amount_b <= old(ctx).token_b_vault.amount,
        res matches Ok((amount_a, amount_b)) ==> final(ctx).token_a_vault.amount == old(ctx).token_a_vault.amount - amount_a,
        res matches Ok((amount_a, amount_b)) ==> final(ctx).token_b_vault.amount == old(ctx).token_b_vault.amount - amount_b,
        res is Ok ==> final(ctx).lp_mint.supply == old(ctx).lp_mint.supply - lp_amount,
        // a withdrawal takes no more than its part of either reserve
        res matches Ok((amount_a, amount_b)) ==> amount_a * old(ctx).lp_mint.supply <= lp_amount
            * old(ctx).token_a_vault.amount,
        res matches Ok((amount_a, amount_b)) ==> amount_b * old(ctx).lp_mint.supply <= lp_amount
            * old(ctx).token_b_vault.amount,
{
    if lp_amount == 0 {
        return Err(AmmError::InvalidAmount);
    }
    let vault_a_amount: u64 = ctx.token_a_vault.amount;
    let vault_b_amount: u64 = ctx.token_b_vault.amount;
    let lp_supply: u64 = ctx.lp_mint.supply;
    if lp_amount > lp_supply {
        return Err(AmmError::LedgerFailure);
    }
    proof {
        lemma_withdrawal_bounds(vault_a_amount as int, lp_supply as int, lp_amount as int);
        lemma_withdrawal_bounds(vault_b_amount as int, lp_supply as int, lp_amount as int);
        assert(lp_amount * vault_a_amount <= u64::MAX * u64::MAX) by (nonlinear_arith)
            requires
                0 <= lp_amount <= u64::MAX,
                0 <= vault_a_amount <= u64::MAX,
        ;
        assert(lp_amount * vault_b_amount <= u64::MAX * u64::MAX) by (nonlinear_arith)
            requires
                0 <= lp_amount <= u64::MAX,
                0 <= vault_b_amount <= u64::MAX,
        ;
    }
    let share_a: u128 = (lp_amount as u128) * (vault_a_amount as u128) / (lp_supply as u128);
    let share_b: u128 = (lp_amount as u128) * (vault_b_amount as u128) / (lp_supply as u128);
    let amount_a: u64 = share_a as u64;
    let amount_b: u64 = share_b as u64;
    assert(amount_a == old(ctx).amount_a(lp_amount));
    assert(amount_b == old(ctx).amount_b(lp_amount));
    if amount_a < min_amount_a || amount_b < min_amount_b {
        return Err(AmmError::SlippageExceeded);
    }
    ctx.token_a_vault = TokenAccount { amount: vault_a_amount - amount_a };
    ctx.token_b_vault = TokenAccount { amount: vault_b_amount - amount_b };
    ctx.lp_mint = Mint { supply: lp_supply - lp_amount };
    Ok((amount_a, amount_b))
}

impl Swap {
    /// The reserve of the asset that a swap in the given direction takes in.
    pub open spec fn reserve_in(&self, a_to_b: bool) -> u64 {
        if a_to_b {
            self.token_a_vault.amount
        } else {
            self.token_b_vault.amount
        }
    }

    /// The reserve of the asset that a swap in the given direction pays out.
    pub open spec fn reserve_out(&self, a_to_b: bool) -> u64 {
        if a_to_b {
            self.token_b_vault.amount
        } else {
            self.token_a_vault.amount
        }
    }

    /// What the formula pays out for `amount_in`, before any check.
    pub open spec fn amount_out(&self, amount_in: u64, a_to_b: bool) -> int {
        swap_amount_out(
            self.reserve_in(a_to_b) as int,
            self.reserve_out(a_to_b) as int,
            amount_in as int,
            self.pool.fee_numerator as int,
            self.pool.fee_denominator as int,
        )
    }

    /// The formula's products and sum stay within 128 bits.
    pub open spec fn formula_fits(&self, amount_in: u64, a_to_b: bool) -> bool {
        &&& swap_numerator(
            self.reserve_out(a_to_b) as int,
            amount_in as int,
            self.pool.fee_numerator as int,
            self.pool.fee_denominator as int,
        ) <= u128::MAX
        &&& swap_denominator(
            self.reserve_in(a_to_b) as int,
            amount_in as int,
            self.pool.fee_numerator as int,
            self.pool.fee_denominator as int,
        ) <= u128::MAX
    }

    /// The accounts after `amount_in` has come in and `amount_out` has gone
    /// out.
    pub open spec fn after_swap(&self, amount_in: u64, amount_out: u64, a_to_b: bool) -> Swap {
        if a_to_b {
            Swap {
                pool: self.pool,
                token_a_vault: TokenAccount {
                    amount: (self.token_a_vault.amount + amount_in) as u64,
                },
                token_b_vault: TokenAccount {
                    amount: (self.token_b_vault.amount - amount_out) as u64,
                },
            }
        } else {
            Swap {
                pool: self.pool,
                token_a_vault: TokenAccount {
                    amount: (self.token_a_vault.amount - amount_out) as u64,
                },
                token_b_vault: TokenAccount {
                    amount: (self.token_b_vault.amount + amount_in) as u64,
                },
            }
        }
    }

    /// What `swap` returns on these accounts.
    pub open spec fn outcome(
        &self,
        amount_in: u64,
        minimum_amount_out: u64,
        a_to_b: bool,
    ) -> Result<u64, AmmError> {
        if amount_in == 0 {
            Err(AmmError::InvalidAmount)
        } else if !self.formula_fits(amount_in, a_to_b) {
            Err(AmmError::ArithmeticOverflow)
        } else if self.amount_out(amount_in, a_to_b) < minimum_amount_out {
            Err(AmmError::SlippageExceeded)
        } else if self.amount_out(amount_in, a_to_b) == 0 {
            Err(AmmError::InvalidAmount)
        } else if self.reserve_in(a_to_b) + amount_in > u64::MAX {
            Err(AmmError::LedgerFailure)
        } else {
            Ok(self.amount_out(amount_in, a_to_b) as u64)
        }
    }
}

/// Trades `amount_in` of one asset for the other.
///
/// The fee is taken from the input, and the rest is priced by the
/// constant-product formula, rounded down. The direction is from the first
/// asset to the second where `a_to_b` holds, and the other way round where it
/// does not. On success the result is the amount paid out: the caller owes the
/// vault of the input side `amount_in`, and the vault of the output side owes
/// the caller the result.
///
/// The product of the two reserves never shrinks in a swap. It grows where the
/// pool charges a fee and the input side held a reserve.
pub fn swap(ctx: &mut Swap, amount_in: u64, minimum_amount_out: u64, a_to_b: bool) -> (res: Result<
    u64,
    AmmError,
>)
    requires
        old(ctx).pool.wf(),
    ensures
        res == old(ctx).outcome(amount_in, minimum_amount_out, a_to_b),
        res matches Ok(amount_out) ==> *final(ctx) == old(ctx).after_swap(
            amount_in,
            amount_out,
            a_to_b,
        ),
        res is Err ==> *final(ctx) == *old(ctx),
        final(ctx).pool == old(ctx).pool,
        res matches Ok(amount_out) ==> 0 < amount_out <= old(ctx).reserve_out(a_to_b),
        res matches Ok(amount_out) ==> minimum_amount_out <= amount_out,
        res matches Ok(amount_out) ==> final(ctx).reserve_in(a_to_b) == old(ctx).reserve_in(a_to_b)
            + amount_in,
        res matches Ok(amount_out) ==> final(ctx).reserve_out(a_to_b) == old(ctx).reserve_out(
            a_to_b,
        ) - amount_out,
        // reserves that both hold something still do so afterwards
        old(ctx).token_a_vault.amount > 0 && old(ctx).token_b_vault.amount > 0 ==> final(ctx).token_a_vault.amount > 0 && final(ctx).token_b_vault.amount > 0,
        // the product of the reserves never shrinks, and grows under a fee
        res is Ok ==> final(ctx).k() >= old(ctx).k(),
        res is Ok && old(ctx).pool.fee_numerator > 0 && old(ctx).reserve_in(a_to_b) > 0
            ==> final(ctx).k() > old(ctx).k(),
        // without a fee the product is kept but for the rounding
        res matches Ok(amount_out) ==> (old(ctx).pool.fee_numerator == 0 ==> amount_out == (
        amount_in * old(ctx).reserve_out(a_to_b)) / (old(ctx).reserve_in(a_to_b) + amount_in)),
        res is Ok && old(ctx).pool.fee_numerator == 0 ==> final(ctx).k() < old(ctx).k() + final(ctx).reserve_in(a_to_b),
{
    if amount_in == 0 {
        return Err(AmmError::InvalidAmount);
    }
    let reserve_in: u64 = if a_to_b {
        ctx.token_a_vault.amount
    } else {
        ctx.token_b_vault.amount
    };
    let reserve_out: u64 = if a_to_b {
        ctx.token_b_vault.amount
    } else {
        ctx.token_a_vault.amount
    };
    let fee_numerator: u64 = ctx.pool.fee_numerator;
    let fee_denominator: u64 = ctx.pool.fee_denominator;
    proof {
        lemma_swap_amount_out_bounds(
            reserve_in as int,
            reserve_out as int,
            amount_in as int,
            fee_numerator as int,
            fee_denominator as int,
        );
        lemma_swap_product(
            reserve_in as int,
            reserve_out as int,
            amount_in as int,
            fee_numerator as int,
            fee_denominator as int,
        );
        if fee_numerator == 0 {
            lemma_swap_without_fee(
                reserve_in as int,
                reserve_out as int,
                amount_in as int,
                fee_denominator as int,
            );
        }
        assert(amount_in * (fee_denominator - fee_numerator) <= u128::MAX) by (nonlinear_arith)
            requires
                0 <= amount_in <= u64::MAX,
                0 <= fee_denominator - fee_numerator <= u64::MAX,
        ;
        assert(reserve_in * fee_denominator <= u128::MAX) by (nonlinear_arith)
            requires
                0 <= reserve_in <= u64::MAX,
                0 <= fee_denominator <= u64::MAX,
        ;
    }
    let kept: u64 = fee_denominator - fee_numerator;
    let with_fee: u128 = (amount_in as u128) * (kept as u128);
    assert(with_fee == amount_in_with_fee(
        amount_in as int,
        fee_numerator as int,
        fee_denominator as int,
    ));
    let numerator: u128 = match with_fee.checked_mul(reserve_out as u128) {
        Some(n) => n,
        None => {
            return Err(AmmError::ArithmeticOverflow);
        },
    };
    let scaled_reserve: u128 = (reserve_in as u128) * (fee_denominator as u128);
    let denominator: u128 = match scaled_reserve.checked_add(with_fee) {
        Some(d) => d,
        None => {
            return Err(AmmError::ArithmeticOverflow);
        },
    };
    let quotient: u128 = numerator / denominator;
    let amount_out: u64 = quotient as u64;
    assert(amount_out == old(ctx).amount_out(amount_in, a_to_b));
    if amount_out < minimum_amount_out {
        return Err(AmmError::SlippageExceeded);
    }
    if amount_out == 0 {
        return Err(AmmError::InvalidAmount);
    }
    let new_reserve_in: u64 = match reserve_in.checked_add(amount_in) {
        Some(r) => r,
        None => {
            return Err(AmmError::LedgerFailure);
        },
    };
    let new_reserve_out: u64 = reserve_out - amount_out;
    proof {
        if a_to_b {
            assert(new_reserve_in * new_reserve_out == (reserve_in + amount_in) * (reserve_out
                - amount_out));
        } else {
            assert(new_reserve_out * new_reserve_in == (reserve_in + amount_in) * (reserve_out
                - amount_out)) by (nonlinear_arith)
                requires
                    new_reserve_in == reserve_in + amount_in,
                    new_reserve_out == reserve_out - amount_out,
            ;
            assert(reserve_out * reserve_in == reserve_in * reserve_out) by (nonlinear_arith);
        }
    }
    if a_to_b {
        ctx.token_a_vault = TokenAccount { amount: new_reserve_in };
        ctx.token_b_vault = TokenAccount { amount: new_reserve_out };
    } else {
        ctx.token_b_vault = TokenAccount { amount: new_reserve_in };
        ctx.token_a_vault = TokenAccount { amount: new_reserve_out };
    }
    Ok(amount_out)
}

} // verus!
