//! Integer arithmetic that the pool's formulas rest on: floor division and
//! the integer square root on 128-bit values.

use vstd::prelude::*;

verus! {

/// `r` is the floor of the square root of `n`.
pub open spec fn is_floor_sqrt(n: nat, r: nat) -> bool {
    r * r <= n < (r + 1) * (r + 1)
}

/// The floor of the square root of `n`: the one `r` with
/// `r * r <= n < (r + 1) * (r + 1)`.
pub open spec fn floor_sqrt(n: nat) -> nat {
    choose|r: nat| is_floor_sqrt(n, r)
}

/// A number has at most one floor square root.
pub proof fn lemma_floor_sqrt_unique(n: nat, a: nat, b: nat)
    requires
        is_floor_sqrt(n, a),
        is_floor_sqrt(n, b),
    ensures
        a == b,
{
    if a < b {
        assert((a + 1) * (a + 1) <= b * b) by (nonlinear_arith)
            requires
                a + 1 <= b,
        ;
    } else if b < a {
        assert((b + 1) * (b + 1) <= a * a) by (nonlinear_arith)
            requires
                b + 1 <= a,
        ;
    }
}

/// Every number has a floor square root, and `floor_sqrt` is it.
pub proof fn lemma_floor_sqrt_exists(n: nat)
    ensures
        is_floor_sqrt(n, floor_sqrt(n)),
    decreases n,
{
    if n == 0 {
        assert(is_floor_sqrt(0, 0)) by (nonlinear_arith);
    } else {
        let m = (n - 1) as nat;
        lemma_floor_sqrt_exists(m);
        let r = floor_sqrt(m);
        if (r + 1) * (r + 1) <= n {
            assert((r + 2) * (r + 2) > n) by (nonlinear_arith)
                requires
                    (r + 1) * (r + 1) > n - 1,
                    r >= 0,
            ;
            assert(is_floor_sqrt(n, r + 1));
        } else {
            assert(is_floor_sqrt(n, r));
        }
    }
}

/// Whatever satisfies the defining inequalities is the floor square root.
pub proof fn lemma_floor_sqrt_is(n: nat, r: nat)
    requires
        is_floor_sqrt(n, r),
    ensures
        floor_sqrt(n) == r,
{
    lemma_floor_sqrt_unique(n, floor_sqrt(n), r);
}

/// Floor division by a positive divisor: the quotient `q` is the one integer
/// with `q * d <= x < (q + 1) * d`.
pub proof fn lemma_div_bounds(x: int, d: int)
    requires
        d > 0,
    ensures
        (x / d) * d <= x < (x / d + 1) * d,
{
    vstd::arithmetic::div_mod::lemma_fundamental_div_mod(x, d);
    vstd::arithmetic::div_mod::lemma_mod_bound(x, d);
    assert((x / d + 1) * d == d * (x / d) + d) by (nonlinear_arith);
    assert((x / d) * d == d * (x / d)) by (nonlinear_arith);
}

/// The converse: an integer between the two multiples is the quotient.
pub proof fn lemma_div_is(x: int, d: int, q: int)
    requires
        d > 0,
        q * d <= x < (q + 1) * d,
    ensures
        x / d == q,
{
    let r = x - q * d;
    assert((q + 1) * d == q * d + d) by (nonlinear_arith);
    vstd::arithmetic::div_mod::lemma_fundamental_div_mod_converse(x, d, q, r);
}

/// One refinement step from any positive estimate lands at or above the
/// floor square root.
proof fn lemma_refine_stays_above(n: int, x: int)
    requires
        n >= 0,
        x >= 1,
    ensures
        ((x + n / x) / 2 + 1) * ((x + n / x) / 2 + 1) > n,
{
    let q = n / x;
    let t = (x + q) / 2 + 1;
    lemma_div_bounds(n, x);
    assert(q >= 0) by {
        vstd::arithmetic::div_mod::lemma_div_pos_is_pos(n, x);
    }
    assert(2 * t >= x + (q + 1));
    assert(t * t >= x * (q + 1)) by (nonlinear_arith)
        requires
            2 * t >= x + (q + 1),
            x >= 1,
            q >= 0,
    ;
    assert(x * (q + 1) == (q + 1) * x) by (nonlinear_arith);
}

/// The floor of the square root of `n`.
///
/// Starts from the estimate `(n + 1) / 2` and refines it by the step
/// `x -> (x + n / x) / 2` until the estimate stops decreasing. No
/// intermediate sum leaves the 128-bit range, whatever `n` is.
pub fn integer_sqrt(n: u128) -> (r: u128)
    ensures
        r * r <= n < (r + 1) * (r + 1),
        r == floor_sqrt(n as nat),
{
    let mut x: u128 = n;
    let mut y: u128 = n / 2 + n % 2;
    proof {
        assert((n + 1) * (n + 1) > n) by (nonlinear_arith)
            requires
                n >= 0,
        ;
        assert((y + 1) * (y + 1) > n) by (nonlinear_arith)
            requires
                2 * y >= n,
                n >= 0,
        ;
        if y >= x {
            assert(n <= 1);
            assert(x * x <= n) by (nonlinear_arith)
                requires
                    x == n,
                    0 <= n <= 1,
            ;
        }
    }
    while y < x
        invariant
            x <= n,
            y <= n / 2 + 1,
            n >= 1 ==> y >= 1,
            (x + 1) * (x + 1) > n,
            (y + 1) * (y + 1) > n,
            y >= x ==> x * x <= n,
        decreases x,
    {
        x = y;
        proof {
            if x >= 2 {
                vstd::arithmetic::div_mod::lemma_div_is_ordered_by_denominator(
                    n as int,
                    2,
                    x as int,
                );
            } else {
                assert(n < 4) by (nonlinear_arith)
                    requires
                        x == 1,
                        (x + 1) * (x + 1) > n,
                ;
            }
            lemma_div_bounds(n as int, x as int);
            lemma_refine_stays_above(n as int, x as int);
        }
        let q: u128 = n / x;
        y = (x + q) / 2;
        proof {
            assert(q >= 1) by (nonlinear_arith)
                requires
                    x >= 1,
                    x <= n,
                    (q + 1) * x > n,
            ;
            if y >= x {
                assert(q >= x);
                assert(x * x <= n) by (nonlinear_arith)
                    requires
                        q >= x,
                        x >= 1,
                        q * x <= n,
                ;
            }
        }
    }
    proof {
        lemma_floor_sqrt_is(n as nat, x as nat);
    }
    x
}

} // verus!
