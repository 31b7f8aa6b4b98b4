//! The amounts that the pool's formulas give, as mathematical integers, and
//! what follows from the formulas.

use vstd::prelude::*;
use crate::math::{floor_sqrt, lemma_div_bounds, lemma_div_is};

verus! {

/// The input of a swap after the fee has been taken from it, scaled by the
/// fee denominator.
pub open spec fn amount_in_with_fee(amount_in: int, fee_numerator: int, fee_denominator: int) -> int {
    amount_in * (fee_denominator - fee_numerator)
}

/// The numerator of the swap formula.
pub open spec fn swap_numerator(
    reserve_out: int,
    amount_in: int,
    fee_numerator: int,
    fee_denominator: int,
) -> int {
    amount_in_with_fee(amount_in, fee_numerator, fee_denominator) * reserve_out
}

/// The denominator of the swap formula.
pub open spec fn swap_denominator(
    reserve_in: int,
    amount_in: int,
    fee_numerator: int,
    fee_denominator: int,
) -> int {
    reserve_in * fee_denominator + amount_in_with_fee(amount_in, fee_numerator, fee_denominator)
}

/// What a swap pays out: the constant-product formula on the input less the
/// fee, rounded down.
pub open spec fn swap_amount_out(
    reserve_in: int,
    reserve_out: int,
    amount_in: int,
    fee_numerator: int,
    fee_denominator: int,
) -> int {
    swap_numerator(reserve_out, amount_in, fee_numerator, fee_denominator) / swap_denominator(
        reserve_in,
        amount_in,
        fee_numerator,
        fee_denominator,
    )
}

/// The shares that a deposit earns. The first deposit earns the floor of the
/// geometric mean of its two amounts. A later one earns, for each asset, the
/// part of the supply that its amount is of the reserve, rounded down, and of
/// the two the smaller.
pub open spec fn shares_for_deposit(
    reserve_a: int,
    reserve_b: int,
    lp_supply: int,
    amount_a: int,
    amount_b: int,
) -> int {
    if lp_supply == 0 {
        floor_sqrt((amount_a * amount_b) as nat) as int
    } else {
        let from_a = (amount_a * lp_supply) / reserve_a;
        let from_b = (amount_b * lp_supply) / reserve_b;
        if from_a <= from_b {
            from_a
        } else {
            from_b
        }
    }
}

/// What burning `lp_amount` shares returns of one reserve: the part of the
/// reserve that the shares are of the supply, rounded down.
pub open spec fn withdrawal_amount(reserve: int, lp_supply: int, lp_amount: int) -> int {
    (lp_amount * reserve) / lp_supply
}

/// A withdrawal takes no more than its claim on the reserve, all of the
/// reserve where all shares are burned, and less than all of it where some
/// shares stay.
pub proof fn lemma_withdrawal_bounds(reserve: int, lp_supply: int, lp_amount: int)
    requires
        reserve >= 0,
        0 < lp_amount <= lp_supply,
    ensures
        0 <= withdrawal_amount(reserve, lp_supply, lp_amount) <= reserve,
        withdrawal_amount(reserve, lp_supply, lp_amount) * lp_supply <= lp_amount * reserve,
        lp_amount == lp_supply ==> withdrawal_amount(reserve, lp_supply, lp_amount) == reserve,
        lp_amount < lp_supply && reserve > 0 ==> withdrawal_amount(reserve, lp_supply, lp_amount)
            < reserve,
{
    let claim = lp_amount * reserve;
    let amount = claim / lp_supply;
    lemma_div_bounds(claim, lp_supply);
    assert(claim >= 0) by (nonlinear_arith)
        requires
            claim == lp_amount * reserve,
            lp_amount > 0,
            reserve >= 0,
    ;
    assert(amount >= 0) by (nonlinear_arith)
        requires
            (amount + 1) * lp_supply > claim,
            claim >= 0,
            lp_supply > 0,
    ;
    assert(amount <= reserve) by (nonlinear_arith)
        requires
            amount * lp_supply <= claim,
            claim == lp_amount * reserve,
            0 < lp_amount <= lp_supply,
            reserve >= 0,
    ;
    if lp_amount == lp_supply {
        assert(amount >= reserve) by (nonlinear_arith)
            requires
                (amount + 1) * lp_supply > claim,
                claim == lp_supply * reserve,
                lp_supply > 0,
        ;
    }
    if lp_amount < lp_supply && reserve > 0 {
        assert(amount < reserve) by (nonlinear_arith)
            requires
                amount * lp_supply <= claim,
                claim == lp_amount * reserve,
                0 < lp_amount < lp_supply,
                reserve > 0,
        ;
    }
}

/// Putting back what a withdrawal returned, into the pool that the withdrawal
/// left with shares still in it, earns for that asset no more shares than
/// were burned.
pub proof fn lemma_redeposit_earns_no_more(reserve: int, lp_supply: int, lp_amount: int)
    requires
        reserve >= 0,
        0 < lp_amount < lp_supply,
        withdrawal_amount(reserve, lp_supply, lp_amount) > 0,
    ensures
        ({
            let amount = withdrawal_amount(reserve, lp_supply, lp_amount);
            &&& amount < reserve
            &&& (amount * (lp_supply - lp_amount)) / (reserve - amount) <= lp_amount
        }),
{
    let amount = withdrawal_amount(reserve, lp_supply, lp_amount);
    lemma_withdrawal_bounds(reserve, lp_supply, lp_amount);
    assert(amount * (lp_supply - lp_amount) <= (reserve - amount) * lp_amount) by (nonlinear_arith)
        requires
            amount * lp_supply <= lp_amount * reserve,
    ;
    vstd::arithmetic::div_mod::lemma_multiply_divide_le(
        amount * (lp_supply - lp_amount),
        reserve - amount,
        lp_amount,
    );
}

/// A swap never pays out more than the reserve holds, and with a reserve on
/// the input side it leaves something of a reserve on the output side.
pub proof fn lemma_swap_amount_out_bounds(
    reserve_in: int,
    reserve_out: int,
    amount_in: int,
    fee_numerator: int,
    fee_denominator: int,
)
    requires
        reserve_in >= 0,
        reserve_out >= 0,
        amount_in > 0,
        0 <= fee_numerator < fee_denominator,
    ensures
        amount_in_with_fee(amount_in, fee_numerator, fee_denominator) >= 1,
        swap_denominator(reserve_in, amount_in, fee_numerator, fee_denominator) >= 1,
        swap_numerator(reserve_out, amount_in, fee_numerator, fee_denominator) >= 0,
        0 <= swap_amount_out(reserve_in, reserve_out, amount_in, fee_numerator, fee_denominator)
            <= reserve_out,
        reserve_in > 0 && reserve_out > 0 ==> swap_amount_out(
            reserve_in,
            reserve_out,
            amount_in,
            fee_numerator,
            fee_denominator,
        ) < reserve_out,
{
    let w = amount_in_with_fee(amount_in, fee_numerator, fee_denominator);
    let num = swap_numerator(reserve_out, amount_in, fee_numerator, fee_denominator);
    let den = swap_denominator(reserve_in, amount_in, fee_numerator, fee_denominator);
    let out = num / den;
    assert(w >= 1) by (nonlinear_arith)
        requires
            w == amount_in * (fee_denominator - fee_numerator),
            amount_in >= 1,
            fee_denominator - fee_numerator >= 1,
    ;
    assert(reserve_in * fee_denominator >= 0) by (nonlinear_arith)
        requires
            reserve_in >= 0,
            fee_denominator >= 0,
    ;
    assert(num >= 0) by (nonlinear_arith)
        requires
            num == w * reserve_out,
            w >= 0,
            reserve_out >= 0,
    ;
    lemma_div_bounds(num, den);
    assert(out >= 0) by (nonlinear_arith)
        requires
            (out + 1) * den > num,
            num >= 0,
            den >= 1,
    ;
    assert(out <= reserve_out) by (nonlinear_arith)
        requires
            out * den <= num,
            num == w * reserve_out,
            1 <= w <= den,
            reserve_out >= 0,
    ;
    if reserve_in > 0 && reserve_out > 0 {
        assert(reserve_in * fee_denominator >= 1) by (nonlinear_arith)
            requires
                reserve_in >= 1,
                fee_denominator >= 1,
        ;
        assert(out < reserve_out) by (nonlinear_arith)
            requires
                out * den <= num,
                num == w * reserve_out,
                1 <= w < den,
                reserve_out >= 1,
                out <= reserve_out,
        ;
    }
}

/// The product of the reserves does not shrink in a swap, and it grows where
/// a fee is charged and both reserves hold something.
pub proof fn lemma_swap_product(
    reserve_in: int,
    reserve_out: int,
    amount_in: int,
    fee_numerator: int,
    fee_denominator: int,
)
    requires
        reserve_in >= 0,
        reserve_out >= 0,
        amount_in > 0,
        0 <= fee_numerator < fee_denominator,
    ensures
        ({
            let out = swap_amount_out(
                reserve_in,
                reserve_out,
                amount_in,
                fee_numerator,
                fee_denominator,
            );
            &&& (reserve_in + amount_in) * (reserve_out - out) >= reserve_in * reserve_out
            &&& fee_numerator > 0 && reserve_in > 0 && reserve_out > 0 ==> (reserve_in + amount_in)
                * (reserve_out - out) > reserve_in * reserve_out
        }),
{
    let w = amount_in_with_fee(amount_in, fee_numerator, fee_denominator);
    let num = swap_numerator(reserve_out, amount_in, fee_numerator, fee_denominator);
    let den = swap_denominator(reserve_in, amount_in, fee_numerator, fee_denominator);
    let out = num / den;
    let rest = reserve_out - out;
    lemma_swap_amount_out_bounds(reserve_in, reserve_out, amount_in, fee_numerator, fee_denominator);
    lemma_div_bounds(num, den);
    // out * (reserve_in * fd + w) <= w * reserve_out, so out * reserve_in * fd <= w * rest
    assert(out * (reserve_in * fee_denominator) <= w * rest) by (nonlinear_arith)
        requires
            out * den <= num,
            num == w * reserve_out,
            den == reserve_in * fee_denominator + w,
            rest == reserve_out - out,
    ;
    assert(w * rest <= (amount_in * fee_denominator) * rest) by (nonlinear_arith)
        requires
            w == amount_in * (fee_denominator - fee_numerator),
            amount_in > 0,
            fee_numerator >= 0,
            rest >= 0,
    ;
    assert(out * reserve_in <= amount_in * rest) by (nonlinear_arith)
        requires
            out * (reserve_in * fee_denominator) <= (amount_in * fee_denominator) * rest,
            fee_denominator > 0,
    ;
    assert((reserve_in + amount_in) * rest >= reserve_in * reserve_out) by (nonlinear_arith)
        requires
            out * reserve_in <= amount_in * rest,
            rest == reserve_out - out,
    ;
    if fee_numerator > 0 && reserve_in > 0 && reserve_out > 0 {
        assert(rest >= 1);
        assert(w * rest < (amount_in * fee_denominator) * rest) by (nonlinear_arith)
            requires
                w == amount_in * (fee_denominator - fee_numerator),
                amount_in > 0,
                fee_numerator > 0,
                rest >= 1,
        ;
        assert(out * reserve_in < amount_in * rest) by (nonlinear_arith)
            requires
                out * (reserve_in * fee_denominator) < (amount_in * fee_denominator) * rest,
                fee_denominator > 0,
        ;
        assert((reserve_in + amount_in) * rest > reserve_in * reserve_out) by (nonlinear_arith)
            requires
                out * reserve_in < amount_in * rest,
                rest == reserve_out - out,
        ;
    }
}

/// Without a fee a swap pays out what the plain constant-product equation
/// gives, rounded down: the product of the reserves after the swap is the
/// product before it, but for what the rounding leaves in the pool, which is
/// less than the new reserve of the input side.
pub proof fn lemma_swap_without_fee(
    reserve_in: int,
    reserve_out: int,
    amount_in: int,
    fee_denominator: int,
)
    requires
        reserve_in >= 0,
        reserve_out >= 0,
        amount_in > 0,
        fee_denominator > 0,
    ensures
        ({
            let out = swap_amount_out(reserve_in, reserve_out, amount_in, 0, fee_denominator);
            &&& out == (amount_in * reserve_out) / (reserve_in + amount_in)
            &&& reserve_in * reserve_out <= (reserve_in + amount_in) * (reserve_out - out)
                < reserve_in * reserve_out + (reserve_in + amount_in)
        }),
{
    let total = reserve_in + amount_in;
    let q = (amount_in * reserve_out) / total;
    let num = swap_numerator(reserve_out, amount_in, 0, fee_denominator);
    let den = swap_denominator(reserve_in, amount_in, 0, fee_denominator);
    lemma_div_bounds(amount_in * reserve_out, total);
    assert(num == (amount_in * reserve_out) * fee_denominator) by (nonlinear_arith)
        requires
            num == (amount_in * (fee_denominator - 0)) * reserve_out,
    ;
    assert(den == total * fee_denominator) by (nonlinear_arith)
        requires
            den == reserve_in * fee_denominator + amount_in * (fee_denominator - 0),
            total == reserve_in + amount_in,
    ;
    assert(q * den <= num) by (nonlinear_arith)
        requires
            q * total <= amount_in * reserve_out,
            num == (amount_in * reserve_out) * fee_denominator,
            den == total * fee_denominator,
            fee_denominator > 0,
    ;
    assert(num < (q + 1) * den) by (nonlinear_arith)
        requires
            amount_in * reserve_out < (q + 1) * total,
            num == (amount_in * reserve_out) * fee_denominator,
            den == total * fee_denominator,
            fee_denominator > 0,
    ;
    assert(den > 0) by (nonlinear_arith)
        requires
            den == total * fee_denominator,
            total > 0,
            fee_denominator > 0,
    ;
    lemma_div_is(num, den, q);
    assert(reserve_in * reserve_out <= total * (reserve_out - q)) by (nonlinear_arith)
        requires
            q * total <= amount_in * reserve_out,
            total == reserve_in + amount_in,
    ;
    assert(total * (reserve_out - q) < reserve_in * reserve_out + total) by (nonlinear_arith)
        requires
            amount_in * reserve_out < (q + 1) * total,
            total == reserve_in + amount_in,
    ;
}

} // verus!
