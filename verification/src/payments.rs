//! What users pay and are paid, in numbers: stakes, claims, refunds and fees.

use vstd::prelude::*;

use crate::context::State;
use crate::guards::rate_counted;
use crate::guards::rate_limited;
use crate::guards::window_start;
use crate::payouts::bonus;
use crate::payouts::gross_payout;
use crate::payouts::net_payout;
use crate::payouts::odds_in_range;
use crate::payouts::payout_fee;
use crate::payouts::payout_in_range;
use crate::payouts::pools;
use crate::payouts::quotient;
use crate::payouts::yes_odds;
use crate::settings::collect_fees_step;
use crate::staking::claim_in_range;
use crate::staking::claim_step;
use crate::staking::fee_balance;
use crate::staking::min_stake;
use crate::staking::potential_payout;
use crate::staking::potential_payout_in_range;
use crate::staking::refund_in_range;
use crate::staking::refund_step;
use crate::staking::stake_in_range;
use crate::staking::stake_refusal;
use crate::staking::stake_step;
use crate::staking::still_vesting;
use crate::staking::vesting_of;
use crate::types::Action;
use crate::types::Address;
use crate::types::ChallengeStats;
use crate::types::ChallengeView;
use crate::types::DataKey;
use crate::types::Error;
use crate::types::Event;
use crate::types::Stake;
use crate::types::UserReputation;

verus! {

/// A number divided by another is the greatest number that the other goes into
/// it so often.
proof fn lemma_quotient_bounds(a: int, b: int)
    requires
        a >= 0,
        b > 0,
    ensures
        0 <= quotient(a, b) <= a,
        b * quotient(a, b) <= a < b * (quotient(a, b) + 1),
        quotient(a, b) * b <= a < (quotient(a, b) + 1) * b,
{
    assert(0 <= a / b <= a && b * (a / b) <= a < b * (a / b + 1) && (a / b) * b <= a < (a / b + 1)
        * b) by (nonlinear_arith)
        requires
            a >= 0,
            b > 0,
    ;
}

/// Division rounds toward zero: what is less than nothing is divided as its
/// opposite is, and the result is the opposite.
pub proof fn law_division_rounds_toward_zero(a: int, b: int)
    requires
        b > 0,
    ensures
        a >= 0 ==> quotient(a, b) * b <= a < (quotient(a, b) + 1) * b,
        a <= 0 ==> (quotient(a, b) - 1) * b < a <= quotient(a, b) * b,
{
    if a >= 0 {
        lemma_quotient_bounds(a, b);
    } else {
        lemma_quotient_bounds(-a, b);
    }
    let q = quotient(a, b);
    assert(a < 0 ==> (q - 1) * b < a <= q * b) by (nonlinear_arith)
        requires
            a < 0 ==> (-q) * b <= -a < (-q + 1) * b,
    ;
    assert(a == 0 ==> q * b == 0 && (q - 1) * b < 0) by (nonlinear_arith)
        requires
            a == 0 ==> 0 <= q <= a,
            b > 0,
    ;
}

/// The fee is so many basis points of a payout, rounded down, and the winner
/// gets the rest.
pub proof fn law_fees_are_so_many_basis_points(gross: int, fee_bps: int)
    requires
        0 <= gross,
        0 <= fee_bps,
    ensures
        payout_fee(gross, fee_bps) * 10000 <= gross * fee_bps < (payout_fee(gross, fee_bps) + 1)
            * 10000,
        0 <= payout_fee(gross, fee_bps),
        fee_bps <= 10000 ==> payout_fee(gross, fee_bps) <= gross,
        payout_fee(-gross, fee_bps) == -payout_fee(gross, fee_bps),
{
    assert(0 <= gross * fee_bps) by (nonlinear_arith)
        requires
            0 <= gross,
            0 <= fee_bps,
    ;
    assert(fee_bps <= 10000 ==> gross * fee_bps <= gross * 10000) by (nonlinear_arith)
        requires
            0 <= gross,
    ;
    assert((-gross) * fee_bps == -(gross * fee_bps)) by (nonlinear_arith);
    lemma_quotient_bounds(gross * fee_bps, 10000);
}

/// A stake in the winning pool gains as much of the losing pool as it is of the
/// winning pool, rounded down, and nothing where there is no winning pool; what
/// it is paid and the fee are together the stake and the gain.
pub proof fn law_payouts_are_stake_and_share(
    amount: int,
    winning_pool: int,
    losing_pool: int,
    fee_bps: int,
)
    requires
        0 <= amount,
        0 <= losing_pool,
        0 <= fee_bps,
    ensures
        ({
            let gain = bonus(amount, winning_pool, losing_pool);
            let gross = gross_payout(amount, winning_pool, losing_pool);
            let fee = payout_fee(gross, fee_bps);
            let net = net_payout(amount, winning_pool, losing_pool, fee_bps);
            &&& winning_pool > 0 ==> gain * winning_pool <= amount * losing_pool < (gain + 1)
                * winning_pool
            &&& winning_pool <= 0 ==> gain == 0
            &&& 0 <= gain
            &&& amount <= winning_pool ==> gain <= losing_pool
            &&& gross == amount + gain
            &&& net + fee == amount + gain
            &&& fee * 10000 <= (amount + gain) * fee_bps < (fee + 1) * 10000
            &&& fee_bps <= 10000 ==> 0 <= net
        }),
{
    let gain = bonus(amount, winning_pool, losing_pool);
    assert(0 <= amount * losing_pool) by (nonlinear_arith)
        requires
            0 <= amount,
            0 <= losing_pool,
    ;
    if winning_pool > 0 {
        lemma_quotient_bounds(amount * losing_pool, winning_pool);
        assert(amount <= winning_pool ==> gain <= losing_pool) by (nonlinear_arith)
            requires
                gain * winning_pool <= amount * losing_pool,
                0 < winning_pool,
                0 <= amount,
                0 <= losing_pool,
        ;
    }
    law_fees_are_so_many_basis_points(amount + gain, fee_bps);
}

/// Pools, stakes and fees of any size make the same sums: a winning stake and
/// the quotient of its product with the losing pool and the winning pool, less
/// so many ten thousandths of both.
pub proof fn law_payouts_of_any_size_add_up(
    amount: int,
    winning_pool: int,
    losing_pool: int,
    fee_bps: int,
)
    ensures
        ({
            let gross = gross_payout(amount, winning_pool, losing_pool);
            let fee = payout_fee(gross, fee_bps);
            let gain = gross - amount;
            let made = amount * losing_pool;
            let share = gross * fee_bps;
            &&& winning_pool <= 0 ==> gain == 0
            &&& winning_pool > 0 && made >= 0 ==> gain * winning_pool <= made < (gain + 1)
                * winning_pool
            &&& winning_pool > 0 && made <= 0 ==> (gain - 1) * winning_pool < made <= gain
                * winning_pool
            &&& share >= 0 ==> fee * 10000 <= share < (fee + 1) * 10000
            &&& share <= 0 ==> (fee - 1) * 10000 < share <= fee * 10000
            &&& net_payout(amount, winning_pool, losing_pool, fee_bps) == gross - fee
            &&& bonus(amount, winning_pool, losing_pool) == gain
        }),
{
    let gross = gross_payout(amount, winning_pool, losing_pool);
    if winning_pool > 0 {
        law_division_rounds_toward_zero(amount * losing_pool, winning_pool);
    }
    law_division_rounds_toward_zero(gross * fee_bps, 10000);
}

/// The numbers on the way to a payout are in range where the largest of them
/// are.
pub proof fn law_payouts_that_fit_are_in_range(
    amount: int,
    winning_pool: int,
    losing_pool: int,
    fee_bps: int,
)
    requires
        0 <= amount <= winning_pool,
        0 < winning_pool,
        0 <= losing_pool,
        0 <= fee_bps <= 10000,
        amount * losing_pool <= i128::MAX,
        (amount + losing_pool) * 10000 <= i128::MAX,
    ensures
        payout_in_range(amount, winning_pool, losing_pool, fee_bps),
{
    law_payouts_are_stake_and_share(amount, winning_pool, losing_pool, fee_bps);
    assert(0 <= amount * losing_pool) by (nonlinear_arith)
        requires
            0 <= amount,
            0 <= losing_pool,
    ;
    let gross = gross_payout(amount, winning_pool, losing_pool);
    assert(0 <= gross * fee_bps <= (amount + losing_pool) * 10000) by (nonlinear_arith)
        requires
            0 <= gross <= amount + losing_pool,
            0 <= fee_bps <= 10000,
    ;
}

/// The pool of the outcome wins and the other one loses.
pub proof fn law_the_outcome_says_which_pool_wins(challenge: ChallengeView)
    ensures
        challenge.outcome_yes ==> pools(challenge) == (challenge.pool_yes, challenge.pool_no),
        !challenge.outcome_yes ==> pools(challenge) == (challenge.pool_no, challenge.pool_yes),
{
}

/// When a claim is served, and why it is refused if it is not.
pub proof fn law_claims_are_refused_for_a_reason(s: State, who: Address, challenge_id: u64)
    ensures
        ({
            let result = claim_step(s, who, challenge_id).1;
            let challenge = s.challenges[challenge_id];
            let stake = s.stakes[(challenge_id, who)];
            if !s.challenges.contains_key(challenge_id) {
                result == Err::<i128, Error>(Error::ChallengeNotFound)
            } else if !challenge.resolved {
                result == Err::<i128, Error>(Error::NotResolved)
            } else if challenge.cancelled {
                result == Err::<i128, Error>(Error::AlreadyCancelled)
            } else if !s.stakes.contains_key((challenge_id, who)) {
                result == Err::<i128, Error>(Error::NoStake)
            } else if !stake.is_vested && s.timestamp < stake.vesting_start
                + stake.vesting_duration {
                result == Err::<i128, Error>(Error::StakeStillVesting)
            } else if challenge.outcome_yes && stake.claimed_yes || !challenge.outcome_yes
                && stake.claimed_no {
                result == Err::<i128, Error>(Error::AlreadyClaimed)
            } else if challenge.outcome_yes && stake.yes_amount <= 0 || !challenge.outcome_yes
                && stake.no_amount <= 0 {
                result == Err::<i128, Error>(Error::NothingWon)
            } else {
                result is Ok
            }
        }),
{
}

/// A winner whose numbers fit can claim: the stake is vested, its winning side
/// was not paid, and it is part of the winning pool.
pub proof fn law_claims_that_fit_are_paid(s: State, who: Address, challenge_id: u64)
    requires
        s.challenges.contains_key(challenge_id),
        s.challenges[challenge_id].resolved,
        !s.challenges[challenge_id].cancelled,
        s.stakes.contains_key((challenge_id, who)),
        s.stakes[(challenge_id, who)].is_vested || s.stakes[(challenge_id, who)].vesting_start
            + s.stakes[(challenge_id, who)].vesting_duration <= s.timestamp,
        s.challenges[challenge_id].pool_yes >= 0,
        s.challenges[challenge_id].pool_no >= 0,
        s.challenges[challenge_id].outcome_yes ==> !s.stakes[(challenge_id, who)].claimed_yes && 0
            < s.stakes[(challenge_id, who)].yes_amount <= s.challenges[challenge_id].pool_yes
            && s.stakes[(challenge_id, who)].yes_amount * s.challenges[challenge_id].pool_no
            <= i128::MAX,
        !s.challenges[challenge_id].outcome_yes ==> !s.stakes[(challenge_id, who)].claimed_no && 0
            < s.stakes[(challenge_id, who)].no_amount <= s.challenges[challenge_id].pool_no
            && s.stakes[(challenge_id, who)].no_amount * s.challenges[challenge_id].pool_yes
            <= i128::MAX,
        (s.challenges[challenge_id].pool_yes + s.challenges[challenge_id].pool_no) * 10000
            <= i128::MAX,
        s.protocol_fee_bps matches Some(bps) ==> bps <= 10000,
        s.fee_balances.contains_key(s.challenges[challenge_id].token)
            ==> s.fee_balances[s.challenges[challenge_id].token] <= i128::MAX
            - s.challenges[challenge_id].pool_yes - s.challenges[challenge_id].pool_no,
        s.reputations.contains_key(who) ==> s.reputations[who].score <= i32::MAX - 2
            && s.reputations[who].successful_predictions < u32::MAX,
    ensures
        claim_in_range(s, who, challenge_id),
        claim_step(s, who, challenge_id).1 is Ok,
{
    let challenge = s.challenges[challenge_id];
    let stake = s.stakes[(challenge_id, who)];
    let (won, winning_pool, losing_pool) = if challenge.outcome_yes {
        (stake.yes_amount as int, challenge.pool_yes as int, challenge.pool_no as int)
    } else {
        (stake.no_amount as int, challenge.pool_no as int, challenge.pool_yes as int)
    };
    let bps = match s.protocol_fee_bps {
        Some(bps) => bps as int,
        None => 0,
    };
    law_payouts_are_stake_and_share(won, winning_pool, losing_pool, bps);
    law_payouts_that_fit_are_in_range(won, winning_pool, losing_pool, bps);
}

/// A winner who can claim gets the stake back and the share of the losing pool
/// that the stake is of the winning pool, rounded down, less so many basis
/// points of both, rounded down, which are kept for the protocol. The winning
/// side of the stake is marked as paid, the user gains reputation, the host is
/// asked for the transfer, and nothing else changes.
pub proof fn law_claims_pay_stake_and_share(s: State, who: Address, challenge_id: u64)
    requires
        claim_in_range(s, who, challenge_id),
        claim_step(s, who, challenge_id).1 is Ok,
        s.challenges[challenge_id].pool_yes >= 0,
        s.challenges[challenge_id].pool_no >= 0,
    ensures
        ({
            let (t, result) = claim_step(s, who, challenge_id);
            let challenge = s.challenges[challenge_id];
            let stake = s.stakes[(challenge_id, who)];
            let token = challenge.token;
            let (won, winning_pool, losing_pool) = if challenge.outcome_yes {
                (stake.yes_amount, challenge.pool_yes, challenge.pool_no)
            } else {
                (stake.no_amount, challenge.pool_no, challenge.pool_yes)
            };
            let bps = match s.protocol_fee_bps {
                Some(bps) => bps as int,
                None => 0,
            };
            let payout = result->Ok_0;
            let fee = (if t.fee_balances.contains_key(token) {
                t.fee_balances[token] as int
            } else {
                0
            }) - (if s.fee_balances.contains_key(token) {
                s.fee_balances[token] as int
            } else {
                0
            });
            let gain = payout + fee - won;
            let before = if s.reputations.contains_key(who) {
                s.reputations[who]
            } else {
                UserReputation {
                    user: who,
                    score: 0,
                    challenges_created: 0,
                    challenges_resolved: 0,
                    total_staked: 0,
                    successful_predictions: 0,
                    last_updated: s.timestamp,
                }
            };
            &&& winning_pool > 0 ==> gain * winning_pool <= won * losing_pool < (gain + 1)
                * winning_pool
            &&& winning_pool == 0 ==> gain == 0
            &&& fee * 10000 <= (won + gain) * bps < (fee + 1) * 10000
            &&& t.fee_balances == (if fee == 0 {
                s.fee_balances
            } else {
                s.fee_balances.insert(token, t.fee_balances[token])
            })
            &&& t.stakes == s.stakes.insert(
                (challenge_id, who),
                Stake {
                    is_vested: true,
                    claimed_yes: challenge.outcome_yes || stake.claimed_yes,
                    claimed_no: !challenge.outcome_yes || stake.claimed_no,
                    ..stake
                },
            )
            &&& t.reputations == s.reputations.insert(
                who,
                UserReputation {
                    score: (before.score + 2) as i32,
                    successful_predictions: (before.successful_predictions + 1) as u32,
                    last_updated: s.timestamp,
                    ..before
                },
            )
            &&& t.actions == s.actions + seq![
                Action::RequireAuth(who),
                Action::ExtendTtl {
                    key: DataKey::Challenge(challenge_id),
                    threshold: 50000,
                    extend_to: 100000,
                },
                Action::ExtendTtl {
                    key: DataKey::Stake(challenge_id, who),
                    threshold: 50000,
                    extend_to: 100000,
                },
                Action::Transfer { token, from: s.contract, to: who, amount: payout },
                Action::Publish(Event::Claimed { challenge_id, who, payout }),
                Action::Publish(
                    Event::ReputationUpdated { user: who, score: (before.score + 2) as i32 },
                ),
            ]
            &&& t == (State {
                fee_balances: t.fee_balances,
                stakes: t.stakes,
                reputations: t.reputations,
                actions: t.actions,
                ..s
            })
        }),
{
    let challenge = s.challenges[challenge_id];
    let stake = s.stakes[(challenge_id, who)];
    let (won, winning_pool, losing_pool) = if challenge.outcome_yes {
        (stake.yes_amount as int, challenge.pool_yes as int, challenge.pool_no as int)
    } else {
        (stake.no_amount as int, challenge.pool_no as int, challenge.pool_yes as int)
    };
    let bps = match s.protocol_fee_bps {
        Some(bps) => bps as int,
        None => 0,
    };
    law_payouts_are_stake_and_share(won, winning_pool, losing_pool, bps);
}

/// When a refund is served, and why it is refused if it is not.
pub proof fn law_refunds_are_refused_for_a_reason(s: State, who: Address, challenge_id: u64)
    ensures
        ({
            let result = refund_step(s, who, challenge_id).1;
            let stake = s.stakes[(challenge_id, who)];
            let left = (if stake.claimed_yes {
                0
            } else {
                stake.yes_amount as int
            }) + (if stake.claimed_no {
                0
            } else {
                stake.no_amount as int
            });
            if !s.challenges.contains_key(challenge_id) {
                result == Err::<i128, Error>(Error::ChallengeNotFound)
            } else if !s.challenges[challenge_id].cancelled {
                result == Err::<i128, Error>(Error::CannotCancel)
            } else if !s.stakes.contains_key((challenge_id, who)) {
                result == Err::<i128, Error>(Error::NoStake)
            } else if left <= 0 {
                result == Err::<i128, Error>(Error::AlreadyClaimed)
            } else {
                result is Ok
            }
        }),
{
}

/// Stakes that fit, and that were not all paid back, are paid back.
pub proof fn law_refunds_that_fit_are_paid(s: State, who: Address, challenge_id: u64)
    requires
        s.challenges.contains_key(challenge_id),
        s.challenges[challenge_id].cancelled,
        s.stakes.contains_key((challenge_id, who)),
        s.stakes[(challenge_id, who)].yes_amount >= 0,
        s.stakes[(challenge_id, who)].no_amount >= 0,
        s.stakes[(challenge_id, who)].yes_amount + s.stakes[(challenge_id, who)].no_amount
            <= i128::MAX,
        s.stakes[(challenge_id, who)].yes_amount > 0 && !s.stakes[(challenge_id, who)].claimed_yes
            || s.stakes[(challenge_id, who)].no_amount > 0 && !s.stakes[(
            challenge_id,
            who,
        )].claimed_no,
    ensures
        refund_in_range(s, who, challenge_id),
        refund_step(s, who, challenge_id).1 is Ok,
{
}

/// A refund of a cancelled challenge pays back both sides of the stake, as far
/// as they were not paid before, and marks both as paid. Nothing else changes.
pub proof fn law_refunds_pay_both_sides_back(s: State, who: Address, challenge_id: u64)
    requires
        refund_in_range(s, who, challenge_id),
        refund_step(s, who, challenge_id).1 is Ok,
    ensures
        ({
            let (t, result) = refund_step(s, who, challenge_id);
            let stake = s.stakes[(challenge_id, who)];
            let amount = result->Ok_0;
            &&& !stake.claimed_yes && !stake.claimed_no ==> amount == stake.yes_amount
                + stake.no_amount
            &&& stake.claimed_yes && !stake.claimed_no ==> amount == stake.no_amount
            &&& !stake.claimed_yes && stake.claimed_no ==> amount == stake.yes_amount
            &&& t.stakes == s.stakes.insert(
                (challenge_id, who),
                Stake { claimed_yes: true, claimed_no: true, ..stake },
            )
            &&& t.actions == s.actions + seq![
                Action::RequireAuth(who),
                Action::ExtendTtl {
                    key: DataKey::Challenge(challenge_id),
                    threshold: 50000,
                    extend_to: 100000,
                },
                Action::ExtendTtl {
                    key: DataKey::Stake(challenge_id, who),
                    threshold: 50000,
                    extend_to: 100000,
                },
                Action::Transfer {
                    token: s.challenges[challenge_id].token,
                    from: s.contract,
                    to: who,
                    amount,
                },
                Action::Publish(Event::Refunded { challenge_id, who, amount }),
            ]
            &&& t == (State { stakes: t.stakes, actions: t.actions, ..s })
        }),
{
}

/// The window of time that a moment lies in starts at a full hour, no later
/// than the moment and less than an hour before it.
pub proof fn law_windows_are_hours(now: u64)
    ensures
        window_start(now) % 3600 == 0,
        window_start(now) <= now < window_start(now) + 3600,
{
}

/// Who has acted fewer times in the hour than is allowed is not limited, and
/// who has acted as many times is; one more action is counted as one.
pub proof fn law_limits_count_actions_of_the_hour(
    counts: Map<(Address, u64), (u64, u32)>,
    user: Address,
    now: u64,
    max_count: u32,
)
    ensures
        ({
            let hour = (now - now % 3600) as u64;
            let acted = if counts.contains_key((user, hour)) && counts[(user, hour)].0 >= hour {
                counts[(user, hour)].1
            } else {
                0
            };
            &&& rate_limited(counts, user, now, max_count) <==> acted >= max_count
            &&& acted < u32::MAX ==> rate_counted(counts, user, now) == counts.insert(
                (user, hour),
                (hour, (acted + 1) as u32),
            )
        }),
{
}

/// When a stake is placed, and why it is refused if it is not.
pub proof fn law_stakes_are_refused_for_a_reason(
    s: State,
    who: Address,
    challenge_id: u64,
    side_yes: bool,
    amount: i128,
)
    ensures
        ({
            let result = stake_step(s, who, challenge_id, side_yes, amount).1;
            let hour = (s.timestamp - s.timestamp % 3600) as u64;
            let least = match s.min_stake {
                Some(least) => least as int,
                None => 1,
            };
            if s.paused == Some(true) {
                result == Err::<(), Error>(Error::ContractPaused)
            } else if s.stake_counts.contains_key((who, hour)) && s.stake_counts[(who, hour)].0
                >= hour && s.stake_counts[(who, hour)].1 >= 20 {
                result == Err::<(), Error>(Error::RateLimitExceeded)
            } else if amount <= 0 {
                result == Err::<(), Error>(Error::InvalidAmount)
            } else if amount < least {
                result == Err::<(), Error>(Error::AmountBelowMinimum)
            } else if !s.challenges.contains_key(challenge_id) {
                result == Err::<(), Error>(Error::ChallengeNotFound)
            } else if s.challenges[challenge_id].resolved || s.challenges[challenge_id].cancelled {
                result == Err::<(), Error>(Error::AlreadyFinalized)
            } else if s.sequence > s.challenges[challenge_id].staking_deadline_seq {
                result == Err::<(), Error>(Error::StakingClosed)
            } else {
                result is Ok
            }
        }),
{
}

/// A stake that is allowed, and whose sums fit, is placed.
pub proof fn law_stakes_that_fit_are_placed(
    s: State,
    who: Address,
    challenge_id: u64,
    side_yes: bool,
    amount: i128,
)
    requires
        s.paused != Some(true),
        ({
            let hour = (s.timestamp - s.timestamp % 3600) as u64;
            s.stake_counts.contains_key((who, hour)) && s.stake_counts[(who, hour)].0 >= hour
                ==> s.stake_counts[(who, hour)].1 < 20
        }),
        amount > 0,
        s.min_stake matches Some(least) ==> amount >= least,
        s.challenges.contains_key(challenge_id),
        !s.challenges[challenge_id].resolved,
        !s.challenges[challenge_id].cancelled,
        s.sequence <= s.challenges[challenge_id].staking_deadline_seq,
        s.challenges[challenge_id].pool_yes >= 0,
        s.challenges[challenge_id].pool_no >= 0,
        (s.challenges[challenge_id].pool_yes + s.challenges[challenge_id].pool_no + amount) * 10000
            <= i128::MAX,
        s.stakes.contains_key((challenge_id, who)) ==> {
            &&& 0 <= s.stakes[(challenge_id, who)].yes_amount
                <= s.challenges[challenge_id].pool_yes
            &&& 0 <= s.stakes[(challenge_id, who)].no_amount <= s.challenges[challenge_id].pool_no
        },
        s.challenge_stats.contains_key(challenge_id) ==> {
            &&& s.challenge_stats[challenge_id].total_staked <= i128::MAX - amount
            &&& s.challenge_stats[challenge_id].total_participants < u32::MAX
        },
        s.reputations.contains_key(who) ==> s.reputations[who].total_staked <= i128::MAX - amount,
    ensures
        stake_in_range(s, who, challenge_id, side_yes, amount),
        stake_step(s, who, challenge_id, side_yes, amount).1 is Ok,
{
}

/// A stake that can be placed moves its amount from the user to the market and
/// adds it to the user's stake and to the pool of the side that it is on, and
/// to no other. The statistics, the user's reputation and the count of the hour
/// follow, the new odds are told, and nothing else changes.
pub proof fn law_stakes_go_to_their_side(
    s: State,
    who: Address,
    challenge_id: u64,
    side_yes: bool,
    amount: i128,
)
    requires
        stake_in_range(s, who, challenge_id, side_yes, amount),
        stake_step(s, who, challenge_id, side_yes, amount).1 is Ok,
    ensures
        ({
            let (t, result) = stake_step(s, who, challenge_id, side_yes, amount);
            let key = (challenge_id, who);
            let challenge = s.challenges[challenge_id];
            let hour = (s.timestamp - s.timestamp % 3600) as u64;
            let vesting = if s.user_vesting.contains_key(who) {
                s.user_vesting[who]
            } else {
                0
            };
            let before = if s.stakes.contains_key(key) {
                s.stakes[key]
            } else {
                Stake {
                    yes_amount: 0,
                    no_amount: 0,
                    claimed_yes: false,
                    claimed_no: false,
                    vesting_start: s.timestamp,
                    vesting_duration: vesting,
                    is_vested: vesting == 0,
                    token: challenge.token,
                }
            };
            let on_yes = if side_yes {
                amount as int
            } else {
                0
            };
            let on_no = if side_yes {
                0
            } else {
                amount as int
            };
            let stats = if s.challenge_stats.contains_key(challenge_id) {
                s.challenge_stats[challenge_id]
            } else {
                ChallengeStats { total_participants: 0, total_staked: 0 }
            };
            let known = if s.reputations.contains_key(who) {
                s.reputations[who]
            } else {
                UserReputation {
                    user: who,
                    score: 0,
                    challenges_created: 0,
                    challenges_resolved: 0,
                    total_staked: 0,
                    successful_predictions: 0,
                    last_updated: s.timestamp,
                }
            };
            let acted = if s.stake_counts.contains_key((who, hour)) && s.stake_counts[(
                who,
                hour,
            )].0 >= hour {
                s.stake_counts[(who, hour)].1
            } else {
                0
            };
            let pool = challenge.pool_yes + challenge.pool_no + amount;
            let odds = if pool == 0 {
                5000
            } else {
                ((challenge.pool_yes + on_yes) * 10000) / pool
            };
            &&& t.challenges == s.challenges.insert(
                challenge_id,
                ChallengeView {
                    pool_yes: (challenge.pool_yes + on_yes) as i128,
                    pool_no: (challenge.pool_no + on_no) as i128,
                    ..challenge
                },
            )
            &&& t.stakes == s.stakes.insert(
                key,
                Stake {
                    yes_amount: (before.yes_amount + on_yes) as i128,
                    no_amount: (before.no_amount + on_no) as i128,
                    ..before
                },
            )
            &&& t.challenge_stats == s.challenge_stats.insert(
                challenge_id,
                ChallengeStats {
                    total_participants: if before.yes_amount == 0 && before.no_amount == 0 {
                        (stats.total_participants + 1) as u32
                    } else {
                        stats.total_participants
                    },
                    total_staked: (stats.total_staked + amount) as i128,
                },
            )
            &&& t.reputations == s.reputations.insert(
                who,
                UserReputation {
                    total_staked: (known.total_staked + amount) as i128,
                    last_updated: s.timestamp,
                    ..known
                },
            )
            &&& t.stake_counts == s.stake_counts.insert((who, hour), (hour, (acted + 1) as u32))
            &&& t.actions == s.actions + seq![
                Action::RequireAuth(who),
                Action::ExtendTtl {
                    key: DataKey::Challenge(challenge_id),
                    threshold: 50000,
                    extend_to: 100000,
                },
                Action::Transfer { token: challenge.token, from: who, to: s.contract, amount },
                Action::ExtendTtl {
                    key: DataKey::Stake(challenge_id, who),
                    threshold: 50000,
                    extend_to: 100000,
                },
                Action::Publish(
                    Event::OddsUpdated {
                        challenge_id,
                        yes_odds: odds as u32,
                        no_odds: (10000 - odds as u32) as u32,
                    },
                ),
                Action::Publish(Event::Staked { challenge_id, who, side_yes, amount }),
                Action::Publish(Event::ReputationUpdated { user: who, score: known.score }),
            ]
            &&& t == (State {
                challenges: t.challenges,
                stakes: t.stakes,
                challenge_stats: t.challenge_stats,
                reputations: t.reputations,
                stake_counts: t.stake_counts,
                actions: t.actions,
                ..s
            })
        }),
{
    let challenge = s.challenges[challenge_id];
    let on_yes = if side_yes {
        amount as int
    } else {
        0
    };
    let on_no = amount - on_yes;
    assert(stake_refusal(s, who, challenge_id, amount) is None);
    assert(challenge.pool_yes + on_yes + (challenge.pool_no + on_no) == challenge.pool_yes
        + challenge.pool_no + amount);
}

/// The odds of YES are the part of YES in what was staked, in basis points and
/// rounded down; where nothing was staked both sides are even.
pub proof fn law_odds_are_the_part_of_yes(pool_yes: int, pool_no: int)
    requires
        0 <= pool_yes,
        0 <= pool_no,
    ensures
        pool_yes + pool_no == 0 ==> yes_odds(pool_yes, pool_no) == 5000,
        pool_yes + pool_no > 0 ==> yes_odds(pool_yes, pool_no) * (pool_yes + pool_no) <= pool_yes
            * 10000 < (yes_odds(pool_yes, pool_no) + 1) * (pool_yes + pool_no),
        0 <= yes_odds(pool_yes, pool_no) <= 10000,
        pool_yes + pool_no <= i128::MAX && pool_yes * 10000 <= i128::MAX ==> odds_in_range(
            pool_yes,
            pool_no,
        ),
{
    if pool_yes + pool_no > 0 {
        let total = pool_yes + pool_no;
        lemma_quotient_bounds(pool_yes * 10000, total);
        let odds = yes_odds(pool_yes, pool_no);
        assert(odds <= 10000) by (nonlinear_arith)
            requires
                odds * total <= pool_yes * 10000,
                pool_yes <= total,
                total > 0,
        ;
    }
}

/// What a stake would be paid if its side won with the pools as they are: the
/// stake, and of the other pool the part that the stake is of its own, rounded
/// down; the stake alone where its pool is empty.
pub proof fn law_potential_payouts_are_stake_and_share(
    challenge: ChallengeView,
    side_yes: bool,
    amount: i128,
)
    requires
        challenge.pool_yes >= 0,
        challenge.pool_no >= 0,
    ensures
        ({
            let own = if side_yes {
                challenge.pool_yes
            } else {
                challenge.pool_no
            };
            let other = if side_yes {
                challenge.pool_no
            } else {
                challenge.pool_yes
            };
            let gain = potential_payout(challenge, side_yes, amount) - amount;
            &&& own == 0 ==> gain == 0
            &&& own > 0 && amount >= 0 ==> gain * own <= amount * other < (gain + 1) * own
            &&& own > 0 && amount <= 0 ==> (gain - 1) * own < amount * other <= gain * own
            &&& amount >= 0 && amount * other + amount <= i128::MAX
                ==> potential_payout_in_range(challenge, side_yes, amount)
        }),
{
    let own = if side_yes {
        challenge.pool_yes as int
    } else {
        challenge.pool_no as int
    };
    let other = if side_yes {
        challenge.pool_no as int
    } else {
        challenge.pool_yes as int
    };
    assert(amount >= 0 ==> amount * other >= 0) by (nonlinear_arith)
        requires
            other >= 0,
    ;
    assert(amount <= 0 ==> amount * other <= 0) by (nonlinear_arith)
        requires
            other >= 0,
    ;
    if own > 0 {
        law_division_rounds_toward_zero(amount * other, own);
        if amount >= 0 {
            lemma_quotient_bounds(amount * other, own);
        }
    }
}

/// A stake vests until its time has passed, unless it was vested before.
pub proof fn law_stakes_vest_for_their_time(stake: Stake, now: u64)
    ensures
        still_vesting(stake, now) <==> !stake.is_vested && now < stake.vesting_start
            + stake.vesting_duration,
{
}

/// What the market says of its stakes, fees and vesting is what it keeps: the
/// least stake is one unit until the admin sets another, there is no vesting
/// until it is set, and there are no fees in a token until some are kept.
pub proof fn law_terms_of_staking_are_kept(s: State, user: Address, token: Address)
    ensures
        min_stake(s) == (match s.min_stake {
            Some(least) => least,
            None => 1i128,
        }),
        vesting_of(s, user) == (if s.user_vesting.contains_key(user) {
            s.user_vesting[user]
        } else {
            0
        }),
        fee_balance(s, token) == (if s.fee_balances.contains_key(token) {
            s.fee_balances[token]
        } else {
            0
        }),
{
}

/// The admin collects all the fees that are kept in a token: the recipient gets
/// them, none are left, and nothing else changes. There have to be some.
pub proof fn law_collection_empties_the_fees(s: State, token: Address, recipient: Address)
    ensures
        ({
            let (t, result) = collect_fees_step(s, token, recipient);
            let amount = if s.fee_balances.contains_key(token) {
                s.fee_balances[token]
            } else {
                0
            };
            if s.admin is None {
                result == Err::<i128, Error>(Error::NotInitialized)
            } else if amount <= 0 {
                result == Err::<i128, Error>(Error::InvalidAmount)
            } else {
                &&& result == Ok::<i128, Error>(amount)
                &&& t.actions == s.actions + seq![
                    Action::RequireAuth(s.admin->0),
                    Action::Transfer { token, from: s.contract, to: recipient, amount },
                    Action::Publish(Event::FeeCollected { token, amount }),
                ]
                &&& t == (State {
                    fee_balances: s.fee_balances.insert(token, 0),
                    actions: t.actions,
                    ..s
                })
            }
        }),
{
}

} // verus!
