use anchor_lang::prelude::Pubkey;
use simple_amm::{
    add_liquidity, initialize_pool, remove_liquidity, swap, AddLiquidity, AmmError,
    InitializePool, Mint, Pool, RemoveLiquidity, Swap, TokenAccount,
};

fn accounts() -> InitializePool {
    InitializePool {
        token_a_mint: Pubkey::new_from_array([1u8; 32]),
        token_b_mint: Pubkey::new_from_array([2u8; 32]),
        token_a_vault: Pubkey::new_from_array([3u8; 32]),
        token_b_vault: Pubkey::new_from_array([4u8; 32]),
        lp_mint: Pubkey::new_from_array([5u8; 32]),
        bump: 254,
    }
}

fn pool(fee_numerator: u64, fee_denominator: u64) -> Pool {
    initialize_pool(&accounts(), fee_numerator, fee_denominator).unwrap()
}

fn deposit_accounts(pool: Pool, a: u64, b: u64, supply: u64) -> AddLiquidity {
    AddLiquidity {
        pool,
        token_a_vault: TokenAccount { amount: a },
        token_b_vault: TokenAccount { amount: b },
        lp_mint: Mint { supply },
    }
}

fn withdrawal_accounts(pool: Pool, a: u64, b: u64, supply: u64) -> RemoveLiquidity {
    RemoveLiquidity {
        pool,
        token_a_vault: TokenAccount { amount: a },
        token_b_vault: TokenAccount { amount: b },
        lp_mint: Mint { supply },
    }
}

fn swap_accounts(pool: Pool, a: u64, b: u64) -> Swap {
    Swap { pool, token_a_vault: TokenAccount { amount: a }, token_b_vault: TokenAccount { amount: b } }
}

#[test]
fn initialize_pool_accepts_a_fee_below_one() {
    let ctx = accounts();
    let pool = initialize_pool(&ctx, 3, 1000).unwrap();
    assert_eq!(pool.token_a_mint, Pubkey::new_from_array([1u8; 32]));
    assert_eq!(pool.token_b_mint, Pubkey::new_from_array([2u8; 32]));
    assert_eq!(pool.token_a_vault, Pubkey::new_from_array([3u8; 32]));
    assert_eq!(pool.token_b_vault, Pubkey::new_from_array([4u8; 32]));
    assert_eq!(pool.lp_mint, Pubkey::new_from_array([5u8; 32]));
    assert_eq!(pool.fee_numerator, 3);
    assert_eq!(pool.fee_denominator, 1000);
    assert_eq!(pool.bump, 254);
    assert!(pool.is_well_formed());
}

#[test]
fn initialize_pool_accepts_a_zero_fee() {
    let pool = initialize_pool(&accounts(), 0, 1).unwrap();
    assert_eq!(pool.fee_numerator, 0);
    assert_eq!(pool.fee_denominator, 1);
}

#[test]
fn initialize_pool_refuses_a_fee_of_one() {
    assert_eq!(initialize_pool(&accounts(), 1000, 1000), Err(AmmError::InvalidFee));
}

#[test]
fn initialize_pool_refuses_a_fee_above_one() {
    assert_eq!(initialize_pool(&accounts(), 1001, 1000), Err(AmmError::InvalidFee));
}

#[test]
fn initialize_pool_refuses_a_zero_denominator() {
    assert_eq!(initialize_pool(&accounts(), 0, 0), Err(AmmError::InvalidFee));
    assert_eq!(initialize_pool(&accounts(), 3, 0), Err(AmmError::InvalidFee));
}

#[test]
fn first_deposit_mints_the_geometric_mean() {
    let p = pool(3, 1000);
    let mut ctx = deposit_accounts(p, 0, 0, 0);
    assert_eq!(add_liquidity(&mut ctx, 100_000, 400_000, 0), Ok(200_000));
    assert_eq!(ctx.token_a_vault.amount, 100_000);
    assert_eq!(ctx.token_b_vault.amount, 400_000);
    assert_eq!(ctx.lp_mint.supply, 200_000);
    assert_eq!(ctx.pool, p);
}

#[test]
fn first_deposit_rounds_the_root_down() {
    let p = pool(3, 1000);
    let mut ctx = deposit_accounts(p, 0, 0, 0);
    // 2 * 4 = 8, whose root lies between 2 and 3
    assert_eq!(add_liquidity(&mut ctx, 2, 4, 0), Ok(2));
    let mut ctx = deposit_accounts(p, 0, 0, 0);
    // 3 * 5 = 15, one below 16
    assert_eq!(add_liquidity(&mut ctx, 3, 5, 0), Ok(3));
    let mut ctx = deposit_accounts(p, 0, 0, 0);
    assert_eq!(add_liquidity(&mut ctx, 1, 1, 0), Ok(1));
}

#[test]
fn first_deposit_of_the_largest_amounts() {
    let p = pool(3, 1000);
    let mut ctx = deposit_accounts(p, 0, 0, 0);
    assert_eq!(add_liquidity(&mut ctx, u64::MAX, u64::MAX, u64::MAX), Ok(u64::MAX));
    assert_eq!(ctx.token_a_vault.amount, u64::MAX);
    assert_eq!(ctx.token_b_vault.amount, u64::MAX);
    assert_eq!(ctx.lp_mint.supply, u64::MAX);
}

#[test]
fn second_deposit_mints_in_proportion() {
    let p = pool(3, 1000);
    let mut ctx = deposit_accounts(p, 100_100, 400_400, 200_000);
    assert_eq!(add_liquidity(&mut ctx, 1000, 4000, 0), Ok(1998));
    assert_eq!(ctx.token_a_vault.amount, 101_100);
    assert_eq!(ctx.token_b_vault.amount, 404_400);
    assert_eq!(ctx.lp_mint.supply, 201_998);
}

#[test]
fn imbalanced_deposit_is_credited_for_the_limiting_asset() {
    let p = pool(3, 1000);
    let mut ctx = deposit_accounts(p, 100_100, 400_400, 200_000);
    // 1000 of A would earn 1998, 1000 of B earns 499
    assert_eq!(add_liquidity(&mut ctx, 1000, 1000, 0), Ok(499));
    // both amounts went to the vaults in full
    assert_eq!(ctx.token_a_vault.amount, 101_100);
    assert_eq!(ctx.token_b_vault.amount, 401_400);
    assert_eq!(ctx.lp_mint.supply, 200_499);
}

#[test]
fn deposit_of_nothing_is_refused() {
    let p = pool(3, 1000);
    let before = deposit_accounts(p, 100_100, 400_400, 200_000);
    let mut ctx = before;
    assert_eq!(add_liquidity(&mut ctx, 0, 4000, 0), Err(AmmError::InvalidAmount));
    assert_eq!(ctx, before);
    assert_eq!(add_liquidity(&mut ctx, 1000, 0, 0), Err(AmmError::InvalidAmount));
    assert_eq!(ctx, before);
    assert_eq!(add_liquidity(&mut ctx, 0, 0, 0), Err(AmmError::InvalidAmount));
    assert_eq!(ctx, before);
}

#[test]
fn deposit_below_the_minimum_is_refused() {
    let p = pool(3, 1000);
    let before = deposit_accounts(p, 100_100, 400_400, 200_000);
    let mut ctx = before;
    assert_eq!(add_liquidity(&mut ctx, 1000, 4000, 1999), Err(AmmError::SlippageExceeded));
    assert_eq!(ctx, before);
    assert_eq!(add_liquidity(&mut ctx, 1000, 4000, 1998), Ok(1998));
}

#[test]
fn deposit_whose_shares_leave_the_range_is_refused() {
    let p = pool(3, 1000);
    let before = deposit_accounts(p, 1, 1, u64::MAX);
    let mut ctx = before;
    assert_eq!(add_liquidity(&mut ctx, 2, 2, 0), Err(AmmError::ArithmeticOverflow));
    assert_eq!(ctx, before);
}

#[test]
fn deposit_that_the_ledger_cannot_hold_is_refused() {
    let p = pool(3, 1000);
    let before = deposit_accounts(p, u64::MAX, 400_400, 200_000);
    let mut ctx = before;
    assert_eq!(add_liquidity(&mut ctx, 1, 4000, 0), Err(AmmError::LedgerFailure));
    assert_eq!(ctx, before);
    let before = deposit_accounts(p, 100, 100, u64::MAX);
    let mut ctx = before;
    // earns shares that the supply has no room for
    assert_eq!(add_liquidity(&mut ctx, 1, 1, 0), Err(AmmError::LedgerFailure));
    assert_eq!(ctx, before);
    let before = deposit_accounts(p, u64::MAX, u64::MAX, u64::MAX);
    let mut ctx = before;
    assert_eq!(add_liquidity(&mut ctx, 1, 1, 0), Err(AmmError::LedgerFailure));
    assert_eq!(ctx, before);
}

#[test]
fn withdrawal_returns_the_proportional_claim() {
    let p = pool(3, 1000);
    let mut ctx = withdrawal_accounts(p, 100_100, 400_400, 200_000);
    assert_eq!(remove_liquidity(&mut ctx, 777, 0, 0), Ok((388, 1555)));
    assert_eq!(ctx.token_a_vault.amount, 100_100 - 388);
    assert_eq!(ctx.token_b_vault.amount, 400_400 - 1555);
    assert_eq!(ctx.lp_mint.supply, 200_000 - 777);
    assert_eq!(ctx.pool, p);
}

#[test]
fn withdrawal_of_all_shares_empties_the_pool() {
    let p = pool(3, 1000);
    let mut ctx = withdrawal_accounts(p, 100_100, 400_400, 200_000);
    assert_eq!(remove_liquidity(&mut ctx, 200_000, 100_100, 400_400), Ok((100_100, 400_400)));
    assert_eq!(ctx.token_a_vault.amount, 0);
    assert_eq!(ctx.token_b_vault.amount, 0);
    assert_eq!(ctx.lp_mint.supply, 0);
}

#[test]
fn withdrawal_of_nothing_is_refused() {
    let p = pool(3, 1000);
    let before = withdrawal_accounts(p, 100_100, 400_400, 200_000);
    let mut ctx = before;
    assert_eq!(remove_liquidity(&mut ctx, 0, 0, 0), Err(AmmError::InvalidAmount));
    assert_eq!(ctx, before);
}

#[test]
fn withdrawal_below_a_minimum_is_refused() {
    let p = pool(3, 1000);
    let before = withdrawal_accounts(p, 100_100, 400_400, 200_000);
    let mut ctx = before;
    assert_eq!(remove_liquidity(&mut ctx, 777, 389, 0), Err(AmmError::SlippageExceeded));
    assert_eq!(ctx, before);
    assert_eq!(remove_liquidity(&mut ctx, 777, 0, 1556), Err(AmmError::SlippageExceeded));
    assert_eq!(ctx, before);
    assert_eq!(remove_liquidity(&mut ctx, 777, 388, 1555), Ok((388, 1555)));
}

#[test]
fn withdrawal_of_more_shares_than_exist_is_refused() {
    let p = pool(3, 1000);
    let before = withdrawal_accounts(p, 100_100, 400_400, 200_000);
    let mut ctx = before;
    assert_eq!(remove_liquidity(&mut ctx, 200_001, 0, 0), Err(AmmError::LedgerFailure));
    assert_eq!(ctx, before);
    let before = withdrawal_accounts(p, 0, 0, 0);
    let mut ctx = before;
    assert_eq!(remove_liquidity(&mut ctx, 1, 0, 0), Err(AmmError::LedgerFailure));
    assert_eq!(ctx, before);
}

#[test]
fn withdrawal_of_the_largest_amounts() {
    let p = pool(3, 1000);
    let mut ctx = withdrawal_accounts(p, u64::MAX, u64::MAX, u64::MAX);
    assert_eq!(remove_liquidity(&mut ctx, u64::MAX - 1, 0, 0), Ok((u64::MAX - 1, u64::MAX - 1)));
    assert_eq!(ctx.token_a_vault.amount, 1);
    assert_eq!(ctx.lp_mint.supply, 1);
}

#[test]
fn withdrawal_then_deposit_mints_no_more_than_was_burned() {
    let p = pool(3, 1000);
    let mut out = withdrawal_accounts(p, 100_100, 400_400, 200_000);
    let (a, b) = remove_liquidity(&mut out, 777, 0, 0).unwrap();
    let mut back = deposit_accounts(
        out.pool,
        out.token_a_vault.amount,
        out.token_b_vault.amount,
        out.lp_mint.supply,
    );
    let minted = add_liquidity(&mut back, a, b, 0).unwrap();
    assert_eq!(minted, 775);
    assert!(minted <= 777);
}

#[test]
fn swap_a_to_b_follows_the_formula() {
    let p = pool(3, 1000);
    let mut ctx = swap_accounts(p, 101_100, 404_400);
    let before = 101_100u128 * 404_400u128;
    assert_eq!(swap(&mut ctx, 1000, 0, true), Ok(3949));
    assert_eq!(ctx.token_a_vault.amount, 102_100);
    assert_eq!(ctx.token_b_vault.amount, 400_451);
    assert_eq!(ctx.pool, p);
    let after = (ctx.token_a_vault.amount as u128) * (ctx.token_b_vault.amount as u128);
    assert_eq!(after, 40_886_047_100);
    assert!(after > before);
}

#[test]
fn swap_b_to_a_follows_the_formula() {
    let p = pool(3, 1000);
    let mut ctx = swap_accounts(p, 101_100, 404_400);
    let before = 101_100u128 * 404_400u128;
    assert_eq!(swap(&mut ctx, 5000, 1231, false), Ok(1231));
    assert_eq!(ctx.token_a_vault.amount, 101_100 - 1231);
    assert_eq!(ctx.token_b_vault.amount, 404_400 + 5000);
    let after = (ctx.token_a_vault.amount as u128) * (ctx.token_b_vault.amount as u128);
    assert!(after > before);
}

#[test]
fn swap_without_fee_is_the_plain_constant_product() {
    let p = pool(0, 1000);
    let mut ctx = swap_accounts(p, 101_100, 404_400);
    let before = 101_100u128 * 404_400u128;
    assert_eq!(swap(&mut ctx, 1000, 0, true), Ok(3960));
    let after = (ctx.token_a_vault.amount as u128) * (ctx.token_b_vault.amount as u128);
    assert!(before <= after);
    assert!(after < before + ctx.token_a_vault.amount as u128);
}

#[test]
fn swap_of_nothing_is_refused() {
    let p = pool(3, 1000);
    let before = swap_accounts(p, 101_100, 404_400);
    let mut ctx = before;
    assert_eq!(swap(&mut ctx, 0, 0, true), Err(AmmError::InvalidAmount));
    assert_eq!(ctx, before);
}

#[test]
fn swap_below_the_minimum_is_refused() {
    let p = pool(3, 1000);
    let before = swap_accounts(p, 101_100, 404_400);
    let mut ctx = before;
    assert_eq!(swap(&mut ctx, 1000, 3950, true), Err(AmmError::SlippageExceeded));
    assert_eq!(ctx, before);
    assert_eq!(swap(&mut ctx, 1000, 3949, true), Ok(3949));
}

#[test]
fn swap_that_rounds_to_nothing_is_refused() {
    let p = pool(3, 1000);
    let before = swap_accounts(p, 1_000_000, 1000);
    let mut ctx = before;
    assert_eq!(swap(&mut ctx, 1, 0, true), Err(AmmError::InvalidAmount));
    assert_eq!(ctx, before);
    // with a minimum it is the minimum that is missed
    assert_eq!(swap(&mut ctx, 1, 1, true), Err(AmmError::SlippageExceeded));
    assert_eq!(ctx, before);
}

#[test]
fn swap_from_an_empty_output_reserve_is_refused() {
    let p = pool(3, 1000);
    let before = swap_accounts(p, 1000, 0);
    let mut ctx = before;
    assert_eq!(swap(&mut ctx, 10, 0, true), Err(AmmError::InvalidAmount));
    assert_eq!(ctx, before);
}

#[test]
fn swap_whose_formula_leaves_the_range_is_refused() {
    let p = pool(0, u64::MAX);
    let before = swap_accounts(p, 1, u64::MAX);
    let mut ctx = before;
    assert_eq!(swap(&mut ctx, u64::MAX, 0, true), Err(AmmError::ArithmeticOverflow));
    assert_eq!(ctx, before);
    // the sum of the denominator alone leaves the range
    let before = swap_accounts(p, u64::MAX, 1);
    let mut ctx = before;
    assert_eq!(swap(&mut ctx, u64::MAX, 0, true), Err(AmmError::ArithmeticOverflow));
    assert_eq!(ctx, before);
}

#[test]
fn swap_that_the_ledger_cannot_hold_is_refused() {
    let p = pool(3, 1000);
    let before = swap_accounts(p, u64::MAX - 5, 1_000_000);
    let mut ctx = before;
    assert_eq!(swap(&mut ctx, 1 << 62, 0, true), Err(AmmError::LedgerFailure));
    assert_eq!(ctx, before);
}

#[test]
fn swap_into_an_empty_input_reserve_takes_the_whole_output() {
    let p = pool(3, 1000);
    let mut ctx = swap_accounts(p, 0, 500);
    assert_eq!(swap(&mut ctx, 7, 0, true), Ok(500));
    assert_eq!(ctx.token_a_vault.amount, 7);
    assert_eq!(ctx.token_b_vault.amount, 0);
    // the product was zero and stays zero, fee or no fee
    assert_eq!(ctx.token_a_vault.amount * ctx.token_b_vault.amount, 0);
}

#[test]
fn swap_keeps_both_reserves_positive() {
    let p = pool(3, 1000);
    let mut ctx = swap_accounts(p, 1, 2);
    assert_eq!(swap(&mut ctx, u64::MAX - 1, 0, true), Ok(1));
    assert_eq!(ctx.token_a_vault.amount, u64::MAX);
    assert_eq!(ctx.token_b_vault.amount, 1);
}

#[test]
fn withdrawal_of_all_shares_then_deposit_starts_the_pool_anew() {
    let p = pool(3, 1000);
    // fees have raised the reserves above what the shares were issued for
    let mut out = withdrawal_accounts(p, 200, 200, 100);
    assert_eq!(remove_liquidity(&mut out, 100, 0, 0), Ok((200, 200)));
    let mut back = deposit_accounts(
        out.pool,
        out.token_a_vault.amount,
        out.token_b_vault.amount,
        out.lp_mint.supply,
    );
    assert_eq!(add_liquidity(&mut back, 200, 200, 0), Ok(200));
    // where the reserves are what the shares were issued for, no more comes back
    let mut out = withdrawal_accounts(p, 100, 400, 200);
    assert_eq!(remove_liquidity(&mut out, 200, 0, 0), Ok((100, 400)));
    let mut back = deposit_accounts(p, 0, 0, 0);
    assert_eq!(add_liquidity(&mut back, 100, 400, 0), Ok(200));
}

#[test]
fn deposit_swap_withdraw_in_turn() {
    let p = pool(3, 1000);
    let mut add = deposit_accounts(p, 0, 0, 0);
    assert_eq!(add_liquidity(&mut add, 100_000, 400_000, 200_000), Ok(200_000));
    let mut trade = swap_accounts(p, add.token_a_vault.amount, add.token_b_vault.amount);
    let out = swap(&mut trade, 100, 0, true).unwrap();
    assert_eq!(out, 398);
    let mut remove = withdrawal_accounts(
        p,
        trade.token_a_vault.amount,
        trade.token_b_vault.amount,
        add.lp_mint.supply,
    );
    assert_eq!(remove_liquidity(&mut remove, 200_000, 0, 0), Ok((100_100, 399_602)));
}

#[test]
fn well_formedness_of_accounts() {
    let p = pool(3, 1000);
    assert!(deposit_accounts(p, 0, 0, 0).is_well_formed());
    assert!(deposit_accounts(p, 5, 0, 0).is_well_formed());
    assert!(deposit_accounts(p, 5, 6, 7).is_well_formed());
    assert!(!deposit_accounts(p, 0, 6, 7).is_well_formed());
    assert!(!deposit_accounts(p, 5, 0, 7).is_well_formed());
    let broken = Pool { fee_numerator: 5, fee_denominator: 5, ..p };
    assert!(!broken.is_well_formed());
    let broken = Pool { fee_numerator: 0, fee_denominator: 0, ..p };
    assert!(!broken.is_well_formed());
}

#[test]
fn error_messages() {
    assert_eq!(AmmError::InvalidAmount.message(), "Invalid amount provided");
    assert_eq!(AmmError::SlippageExceeded.message(), "Slippage tolerance exceeded");
    assert_eq!(AmmError::InvalidFee.message(), "Invalid fee configuration");
    assert_eq!(AmmError::ArithmeticOverflow.message(), "Arithmetic overflow");
    assert_eq!(AmmError::LedgerFailure.message(), "Ledger cannot apply the operation");
}
