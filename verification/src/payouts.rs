//! The arithmetic of the pools: what a winner is paid, what the odds are.

use vstd::prelude::*;

use crate::params::BPS_DENOMINATOR;
use crate::types::Challenge;
use crate::types::ChallengeView;

verus! {

pub open spec fn fits_i128(x: int) -> bool {
    i128::MIN <= x <= i128::MAX
}

/// The quotient of `a` and a positive `b`, rounded toward zero.
pub open spec fn quotient(a: int, b: int) -> int {
    if a >= 0 {
        a / b
    } else {
        -((-a) / b)
    }
}

/// The pool of the side that won and the pool of the side that lost.
pub open spec fn pools(challenge: ChallengeView) -> (i128, i128) {
    if challenge.outcome_yes {
        (challenge.pool_yes, challenge.pool_no)
    } else {
        (challenge.pool_no, challenge.pool_yes)
    }
}

/// The pool of the side that won and the pool of the side that lost.
pub fn get_pools(challenge: &Challenge) -> (result: (i128, i128))
    ensures
        result == pools(challenge@),
{
    if challenge.outcome_yes {
        (challenge.pool_yes, challenge.pool_no)
    } else {
        (challenge.pool_no, challenge.pool_yes)
    }
}

/// What a stake of `amount` in the winning pool gains of the losing pool: the
/// share that it is of the winning pool.
pub open spec fn bonus(amount: int, winning_pool: int, losing_pool: int) -> int {
    if winning_pool > 0 {
        quotient(amount * losing_pool, winning_pool)
    } else {
        0
    }
}

/// A winning stake and what it gains.
pub open spec fn gross_payout(amount: int, winning_pool: int, losing_pool: int) -> int {
    amount + bonus(amount, winning_pool, losing_pool)
}

/// What the protocol keeps of a payout.
pub open spec fn payout_fee(gross: int, fee_bps: int) -> int {
    quotient(gross * fee_bps, BPS_DENOMINATOR as int)
}

/// What a winner is paid, the fee taken off.
pub open spec fn net_payout(
    amount: int,
    winning_pool: int,
    losing_pool: int,
    fee_bps: int,
) -> int {
    let gross = gross_payout(amount, winning_pool, losing_pool);
    gross - payout_fee(gross, fee_bps)
}

/// Every number on the way to a payout is in range.
pub open spec fn payout_in_range(
    amount: int,
    winning_pool: int,
    losing_pool: int,
    fee_bps: int,
) -> bool {
    let gross = gross_payout(amount, winning_pool, losing_pool);
    &&& winning_pool > 0 ==> fits_i128(amount * losing_pool)
    &&& fits_i128(gross)
    &&& fits_i128(gross * fee_bps)
    &&& fits_i128(gross - payout_fee(gross, fee_bps))
}

/// What a winning stake is paid, and what the protocol keeps of it.
pub fn calculate_payout(
    winning_amount: i128,
    winning_pool: i128,
    losing_pool: i128,
    fee_bps: u32,
) -> (result: (i128, i128))
    requires
        payout_in_range(
            winning_amount as int,
            winning_pool as int,
            losing_pool as int,
            fee_bps as int,
        ),
    ensures
        result.0 == net_payout(
            winning_amount as int,
            winning_pool as int,
            losing_pool as int,
            fee_bps as int,
        ),
        result.1 == payout_fee(
            gross_payout(winning_amount as int, winning_pool as int, losing_pool as int),
            fee_bps as int,
        ),
{
    let bonus: i128 = if winning_pool > 0 {
        (winning_amount * losing_pool) / winning_pool
    } else {
        0
    };
    let gross_payout: i128 = winning_amount + bonus;
    let fee: i128 = (gross_payout * fee_bps as i128) / BPS_DENOMINATOR as i128;
    let net_payout: i128 = gross_payout - fee;
    (net_payout, fee)
}

/// The chance of YES, in basis points, that the pools speak for: the share of
/// YES in what was staked, one half where nothing was.
pub open spec fn yes_odds(pool_yes: int, pool_no: int) -> int {
    if pool_yes + pool_no == 0 {
        5000
    } else {
        (pool_yes * BPS_DENOMINATOR) / (pool_yes + pool_no)
    }
}

/// Both pools are real pools, and the numbers on the way to the odds are in
/// range.
pub open spec fn odds_in_range(pool_yes: int, pool_no: int) -> bool {
    &&& 0 <= pool_yes
    &&& 0 <= pool_no
    &&& fits_i128(pool_yes + pool_no)
    &&& pool_yes + pool_no != 0 ==> fits_i128(pool_yes * BPS_DENOMINATOR)
}

/// The odds of YES and of NO, in basis points.
pub fn pool_odds(pool_yes: i128, pool_no: i128) -> (result: (u32, u32))
    requires
        odds_in_range(pool_yes as int, pool_no as int),
    ensures
        result.0 == yes_odds(pool_yes as int, pool_no as int),
        result.0 + result.1 == BPS_DENOMINATOR,
{
    let total_pool: i128 = pool_yes + pool_no;
    if total_pool == 0 {
        return (5000, 5000);
    }
    let yes: i128 = (pool_yes * BPS_DENOMINATOR as i128) / total_pool;
    proof {
        lemma_share_of_whole(pool_yes as int, total_pool as int);
    }
    (yes as u32, BPS_DENOMINATOR - yes as u32)
}

/// A part of a whole is at most the whole, in basis points too.
proof fn lemma_share_of_whole(part: int, whole: int)
    requires
        0 <= part <= whole,
        0 < whole,
    ensures
        0 <= (part * BPS_DENOMINATOR) / whole <= BPS_DENOMINATOR,
{
    assert(0 <= (part * 10000) / whole <= 10000) by (nonlinear_arith)
        requires
            0 <= part <= whole,
            0 < whole,
    ;
}

} // verus!
