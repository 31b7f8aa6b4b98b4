//! What holds of the instructions taken together.

use vstd::prelude::*;
use crate::error::AmmError;
use crate::math::{floor_sqrt, lemma_floor_sqrt_exists};
use crate::pricing::{
    lemma_redeposit_earns_no_more,
    lemma_swap_amount_out_bounds,
    lemma_swap_product,
    lemma_swap_without_fee,
    lemma_withdrawal_bounds,
};
use crate::state::{AddLiquidity, RemoveLiquidity, Swap};

verus! {

impl RemoveLiquidity {
    /// The same accounts, handed to `add_liquidity`.
    pub open spec fn as_add_liquidity(&self) -> AddLiquidity {
        AddLiquidity {
            pool: self.pool,
            token_a_vault: self.token_a_vault,
            token_b_vault: self.token_b_vault,
            lp_mint: self.lp_mint,
        }
    }
}

/// A withdrawal followed at once by the deposit of what it returned issues no
/// more shares than the withdrawal burned.
///
/// This holds wherever the withdrawal leaves shares in the pool. Where it
/// burns all of them the deposit is a first deposit, which earns the floor
/// of the square root of the product of what it puts back. So there it holds
/// as long as the product of the reserves is below the square of the supply
/// plus one, and does not once fees or gifts have raised the reserves beyond
/// that.
pub proof fn lemma_withdraw_then_deposit(
    ctx: RemoveLiquidity,
    lp_amount: u64,
    min_amount_a: u64,
    min_amount_b: u64,
    amount_a: u64,
    amount_b: u64,
    min_lp_tokens: u64,
    lp_tokens: u64,
)
    requires
        ctx.wf(),
        ctx.outcome(lp_amount, min_amount_a, min_amount_b) == Ok::<(u64, u64), AmmError>(
            (amount_a, amount_b),
        ),
        ctx.after_withdrawal(lp_amount, amount_a, amount_b).as_add_liquidity().outcome(
            amount_a,
            amount_b,
            min_lp_tokens,
        ) == Ok::<u64, AmmError>(lp_tokens),
        lp_amount < ctx.lp_mint.supply || ctx.token_a_vault.amount * ctx.token_b_vault.amount < (
        lp_amount + 1) * (lp_amount + 1),
    ensures
        lp_tokens <= lp_amount,
{
    let reserve_a = ctx.token_a_vault.amount as int;
    let reserve_b = ctx.token_b_vault.amount as int;
    let lp_supply = ctx.lp_mint.supply as int;
    lemma_withdrawal_bounds(reserve_a, lp_supply, lp_amount as int);
    lemma_withdrawal_bounds(reserve_b, lp_supply, lp_amount as int);
    assert(amount_a > 0 && amount_b > 0);
    if lp_amount < lp_supply {
        lemma_redeposit_earns_no_more(reserve_a, lp_supply, lp_amount as int);
        lemma_redeposit_earns_no_more(reserve_b, lp_supply, lp_amount as int);
    } else {
        let product = (amount_a * amount_b) as nat;
        let root = floor_sqrt(product);
        assert(amount_a * amount_b >= 0) by (nonlinear_arith)
            requires
                amount_a >= 0,
                amount_b >= 0,
        ;
        lemma_floor_sqrt_exists(product);
        if root > lp_amount {
            assert((lp_amount + 1) * (lp_amount + 1) <= root * root) by (nonlinear_arith)
                requires
                    lp_amount + 1 <= root,
                    lp_amount >= 0,
            ;
        }
    }
}

/// The accounts that a withdrawal leaves are fit for a deposit.
pub proof fn lemma_withdrawal_leaves_shares_backed(
    ctx: RemoveLiquidity,
    lp_amount: u64,
    min_amount_a: u64,
    min_amount_b: u64,
    amount_a: u64,
    amount_b: u64,
)
    requires
        ctx.wf(),
        ctx.outcome(lp_amount, min_amount_a, min_amount_b) == Ok::<(u64, u64), AmmError>(
            (amount_a, amount_b),
        ),
    ensures
        ctx.after_withdrawal(lp_amount, amount_a, amount_b).as_add_liquidity().wf(),
{
    lemma_withdrawal_bounds(
        ctx.token_a_vault.amount as int,
        ctx.lp_mint.supply as int,
        lp_amount as int,
    );
    lemma_withdrawal_bounds(
        ctx.token_b_vault.amount as int,
        ctx.lp_mint.supply as int,
        lp_amount as int,
    );
}

/// The product of the two reserves does not shrink in a swap that succeeds.
/// It grows where the pool charges a fee and the input side held a reserve;
/// with an empty input side the swap takes the whole output reserve, and the
/// product is zero before and after.
pub proof fn lemma_swap_keeps_product(
    ctx: Swap,
    amount_in: u64,
    minimum_amount_out: u64,
    a_to_b: bool,
    amount_out: u64,
)
    requires
        ctx.pool.wf(),
        ctx.outcome(amount_in, minimum_amount_out, a_to_b) == Ok::<u64, AmmError>(amount_out),
    ensures
        ctx.after_swap(amount_in, amount_out, a_to_b).k() >= ctx.k(),
        ctx.pool.fee_numerator > 0 && ctx.reserve_in(a_to_b) > 0 ==> ctx.after_swap(
            amount_in,
            amount_out,
            a_to_b,
        ).k() > ctx.k(),
{
    let reserve_in = ctx.reserve_in(a_to_b) as int;
    let reserve_out = ctx.reserve_out(a_to_b) as int;
    lemma_swap_amount_out_bounds(
        reserve_in,
        reserve_out,
        amount_in as int,
        ctx.pool.fee_numerator as int,
        ctx.pool.fee_denominator as int,
    );
    lemma_swap_product(
        reserve_in,
        reserve_out,
        amount_in as int,
        ctx.pool.fee_numerator as int,
        ctx.pool.fee_denominator as int,
    );
    lemma_product_of_reserves(ctx, amount_in, amount_out, a_to_b);
}

/// In a pool without a fee a swap that succeeds keeps the product of the
/// reserves but for the rounding of what it pays out: the product grows by
/// less than the new reserve of the input side, so that paying out one unit
/// more would have shrunk it.
pub proof fn lemma_swap_without_fee_keeps_product(
    ctx: Swap,
    amount_in: u64,
    minimum_amount_out: u64,
    a_to_b: bool,
    amount_out: u64,
)
    requires
        ctx.pool.wf(),
        ctx.pool.fee_numerator == 0,
        ctx.outcome(amount_in, minimum_amount_out, a_to_b) == Ok::<u64, AmmError>(amount_out),
    ensures
        amount_out == (amount_in * ctx.reserve_out(a_to_b)) / (ctx.reserve_in(a_to_b) + amount_in),
        ctx.k() <= ctx.after_swap(amount_in, amount_out, a_to_b).k() < ctx.k() + ctx.reserve_in(
            a_to_b,
        ) + amount_in,
{
    let reserve_in = ctx.reserve_in(a_to_b) as int;
    let reserve_out = ctx.reserve_out(a_to_b) as int;
    lemma_swap_amount_out_bounds(
        reserve_in,
        reserve_out,
        amount_in as int,
        0,
        ctx.pool.fee_denominator as int,
    );
    lemma_swap_without_fee(reserve_in, reserve_out, amount_in as int, ctx.pool.fee_denominator as int);
    lemma_product_of_reserves(ctx, amount_in, amount_out, a_to_b);
}

/// The product of the reserves before and after a swap, by the reserves of
/// the input and the output side.
proof fn lemma_product_of_reserves(ctx: Swap, amount_in: u64, amount_out: u64, a_to_b: bool)
    requires
        ctx.reserve_in(a_to_b) + amount_in <= u64::MAX,
        amount_out <= ctx.reserve_out(a_to_b),
    ensures
        ctx.k() == ctx.reserve_in(a_to_b) * ctx.reserve_out(a_to_b),
        ctx.after_swap(amount_in, amount_out, a_to_b).k() == (ctx.reserve_in(a_to_b) + amount_in)
            * (ctx.reserve_out(a_to_b) - amount_out),
{
    let reserve_in = ctx.reserve_in(a_to_b) as int;
    let reserve_out = ctx.reserve_out(a_to_b) as int;
    assert(reserve_out * reserve_in == reserve_in * reserve_out) by (nonlinear_arith);
    assert((reserve_out - amount_out) * (reserve_in + amount_in) == (reserve_in + amount_in) * (
    reserve_out - amount_out)) by (nonlinear_arith);
}

} // verus!
