//! What liquidity providers put in, take out and earn, in numbers.

use vstd::prelude::*;

use crate::context::State;
use crate::guards::cooling_down;
use crate::guards::withdrawal_in_past;
use crate::guards::withdrawal_noted;
use crate::liquidity::accrual_in_range;
use crate::liquidity::accrued;
use crate::liquidity::add_liquidity_in_range;
use crate::liquidity::add_liquidity_step;
use crate::liquidity::claim_rewards_in_range;
use crate::liquidity::claim_rewards_step;
use crate::liquidity::get_pending_rewards_step;
use crate::liquidity::index_step_in_range;
use crate::liquidity::index_stepped;
use crate::liquidity::position_accrual_in_range;
use crate::liquidity::remove_liquidity_in_range;
use crate::liquidity::remove_liquidity_step;
use crate::liquidity::reward_index;
use crate::liquidity::total_liquidity;
use crate::liquidity::update_challenge_reward_index_in_range;
use crate::liquidity::update_challenge_reward_index_step;
use crate::payments::law_division_rounds_toward_zero;
use crate::types::Action;
use crate::types::Address;
use crate::types::Error;
use crate::types::Event;
use crate::types::LiquidityPosition;
use crate::types::RewardAccrual;

verus! {

/// A number divided by another is the greatest number that the other goes into
/// it so often.
proof fn lemma_division(a: int, b: int)
    requires
        a >= 0,
        b > 0,
    ensures
        0 <= a / b <= a,
        (a / b) * b <= a < (a / b + 1) * b,
{
    assert(0 <= a / b <= a && (a / b) * b <= a < (a / b + 1) * b) by (nonlinear_arith)
        requires
            a >= 0,
            b > 0,
    ;
}

/// The liquidity and the reward index of a challenge are what is kept of it, and
/// nothing where nothing is.
pub proof fn law_liquidity_and_indices_are_kept(s: State, challenge_id: u64)
    ensures
        total_liquidity(s, challenge_id) == (if s.total_liquidity.contains_key(challenge_id) {
            s.total_liquidity[challenge_id]
        } else {
            0
        }),
        reward_index(s, challenge_id) == (if s.reward_indices.contains_key(challenge_id) {
            s.reward_indices[challenge_id]
        } else {
            0
        }),
{
}

/// A withdrawal of ten thousand or more has to wait until ten seconds after the
/// last such withdrawal by the same user from the same challenge. One that has
/// waited is noted with its time, one that has not flags the user and is told,
/// and a smaller one leaves no trace.
pub proof fn law_large_withdrawals_wait_ten_seconds(
    s: State,
    user: Address,
    challenge_id: u64,
    amount: i128,
)
    ensures
        ({
            let key = (user, challenge_id);
            let too_soon = amount >= 10000 && s.last_withdrawals.contains_key(key) && s.timestamp
                < s.last_withdrawals[key] + 10;
            &&& cooling_down(s, user, challenge_id, amount) <==> too_soon
            &&& too_soon ==> withdrawal_noted(s, user, challenge_id, amount) == (State {
                flash_loan_flags: s.flash_loan_flags.insert(user, true),
                actions: s.actions.push(
                    Action::Publish(Event::FlashLoanDetected { user, challenge_id, amount }),
                ),
                ..s
            })
            &&& !too_soon && amount >= 10000 ==> withdrawal_noted(s, user, challenge_id, amount)
                == (State {
                last_withdrawals: s.last_withdrawals.insert(key, s.timestamp),
                ..s
            })
            &&& amount < 10000 ==> withdrawal_noted(s, user, challenge_id, amount) == s
            &&& (s.last_withdrawals.contains_key(key) ==> s.last_withdrawals[key] <= s.timestamp)
                ==> withdrawal_in_past(s, user, challenge_id, amount)
        }),
{
}

/// Rewards that fit can be brought up to date.
pub proof fn law_rewards_that_fit_accrue(
    s: State,
    challenge_id: u64,
    provider: Address,
    shares: i128,
)
    requires
        shares >= 0,
        s.total_liquidity.contains_key(challenge_id) ==> s.total_liquidity[challenge_id] >= 0,
        ({
            let index = if s.reward_indices.contains_key(challenge_id) {
                s.reward_indices[challenge_id] as int
            } else {
                0
            };
            let accrual = s.reward_accruals[(challenge_id, provider)];
            let known = s.reward_accruals.contains_key((challenge_id, provider));
            let moved = if known {
                index - accrual.reward_index
            } else {
                0
            };
            &&& 0 <= moved <= i128::MAX
            &&& moved * shares <= i128::MAX
            &&& known ==> accrual.pending_rewards + moved * shares <= i128::MAX
        }),
    ensures
        accrual_in_range(s, challenge_id, provider, shares),
{
    let index = if s.reward_indices.contains_key(challenge_id) {
        s.reward_indices[challenge_id] as int
    } else {
        0
    };
    let moved = if s.reward_accruals.contains_key((challenge_id, provider)) {
        index - s.reward_accruals[(challenge_id, provider)].reward_index
    } else {
        0
    };
    let total = if s.total_liquidity.contains_key(challenge_id) {
        s.total_liquidity[challenge_id] as int
    } else {
        0
    };
    assert(moved * shares >= 0) by (nonlinear_arith)
        requires
            moved >= 0,
            shares >= 0,
    ;
    if total > 0 {
        lemma_division(moved * shares, total);
    }
}

/// A provider's rewards are brought up to date by how far the reward index of
/// the challenge has moved since, for the part that the shares are of the
/// liquidity, rounded down. Without liquidity or shares nothing happens.
pub proof fn law_rewards_accrue_by_share(
    s: State,
    challenge_id: u64,
    provider: Address,
    shares: i128,
)
    requires
        accrual_in_range(s, challenge_id, provider, shares),
        s.reward_accruals.contains_key((challenge_id, provider)) ==> ({
            let index = if s.reward_indices.contains_key(challenge_id) {
                s.reward_indices[challenge_id] as int
            } else {
                0
            };
            0 <= index - s.reward_accruals[(challenge_id, provider)].reward_index <= i128::MAX
        }),
    ensures
        ({
            let t = accrued(s, challenge_id, provider, shares);
            let key = (challenge_id, provider);
            let known = s.reward_accruals.contains_key(key);
            let index = if s.reward_indices.contains_key(challenge_id) {
                s.reward_indices[challenge_id]
            } else {
                0
            };
            let total = if s.total_liquidity.contains_key(challenge_id) {
                s.total_liquidity[challenge_id]
            } else {
                0
            };
            let before = s.reward_accruals[key];
            let after = t.reward_accruals[key];
            let moved = if known {
                index - before.reward_index
            } else {
                0
            };
            let gain = after.pending_rewards - if known {
                before.pending_rewards as int
            } else {
                0
            };
            if total == 0 || shares == 0 {
                t == s
            } else {
                &&& shares > 0 ==> gain * total <= moved * shares < (gain + 1) * total
                &&& shares < 0 ==> (gain - 1) * total < moved * shares <= gain * total
                &&& after.reward_index == index
                &&& after.last_update == s.timestamp
                &&& after.provider == (if known {
                    before.provider
                } else {
                    provider
                })
                &&& after.challenge_id == (if known {
                    before.challenge_id
                } else {
                    challenge_id
                })
                &&& t == (State {
                    reward_accruals: s.reward_accruals.insert(key, after),
                    ..s
                })
            }
        }),
{
    let index = if s.reward_indices.contains_key(challenge_id) {
        s.reward_indices[challenge_id] as int
    } else {
        0
    };
    let moved = if s.reward_accruals.contains_key((challenge_id, provider)) {
        index - s.reward_accruals[(challenge_id, provider)].reward_index
    } else {
        0
    };
    let total = if s.total_liquidity.contains_key(challenge_id) {
        s.total_liquidity[challenge_id] as int
    } else {
        0
    };
    assert(shares >= 0 ==> moved * shares >= 0) by (nonlinear_arith)
        requires
            moved >= 0,
    ;
    assert(shares <= 0 ==> moved * shares <= 0) by (nonlinear_arith)
        requires
            moved >= 0,
    ;
    if total > 0 {
        law_division_rounds_toward_zero(moved * shares, total);
    }
}

/// A step of a reward index adds half a percent of it, rounded down, and one
/// where that is nothing. No other index moves, and nothing else changes.
pub proof fn law_reward_indices_grow_by_half_a_percent(s: State, challenge_id: u64)
    requires
        s.reward_indices.contains_key(challenge_id) ==> s.reward_indices[challenge_id] * 50
            <= u128::MAX,
    ensures
        index_step_in_range(s, challenge_id),
        update_challenge_reward_index_in_range(s, challenge_id),
        ({
            let t = index_stepped(s, challenge_id);
            let before = if s.reward_indices.contains_key(challenge_id) {
                s.reward_indices[challenge_id] as int
            } else {
                0
            };
            let step = t.reward_indices[challenge_id] - before;
            &&& before < 200 ==> step == 1
            &&& before >= 200 ==> step * 200 <= before < (step + 1) * 200
            &&& t == (State {
                reward_indices: s.reward_indices.insert(
                    challenge_id,
                    t.reward_indices[challenge_id],
                ),
                ..s
            })
            &&& s.paused == Some(true) ==> update_challenge_reward_index_step(s, challenge_id) == (
                s,
                Err::<(), Error>(Error::ContractPaused),
            )
            &&& s.paused != Some(true) ==> update_challenge_reward_index_step(s, challenge_id) == (
                t,
                Ok::<(), Error>(()),
            )
        }),
{
}

/// When liquidity is added, and why it is not otherwise.
pub proof fn law_adding_liquidity_is_refused_for_a_reason(
    s: State,
    provider: Address,
    challenge_id: u64,
    amount: i128,
)
    ensures
        ({
            let result = add_liquidity_step(s, provider, challenge_id, amount).1;
            if s.paused == Some(true) {
                result == Err::<i128, Error>(Error::ContractPaused)
            } else if amount <= 0 {
                result == Err::<i128, Error>(Error::InvalidLiquidityAmount)
            } else if !s.challenges.contains_key(challenge_id) {
                result == Err::<i128, Error>(Error::ChallengeNotFound)
            } else if s.challenges[challenge_id].resolved || s.challenges[challenge_id].cancelled {
                result == Err::<i128, Error>(Error::AlreadyFinalized)
            } else {
                result is Ok
            }
        }),
{
}

/// Liquidity that is allowed, and whose sums fit, is added where the rewards of
/// its shares fit.
pub proof fn law_liquidity_that_fits_is_added(
    s: State,
    provider: Address,
    challenge_id: u64,
    amount: i128,
)
    requires
        s.paused != Some(true),
        amount > 0,
        amount * 1000000 <= i128::MAX,
        s.challenges.contains_key(challenge_id),
        !s.challenges[challenge_id].resolved,
        !s.challenges[challenge_id].cancelled,
        s.total_liquidity.contains_key(challenge_id) ==> 0 <= s.total_liquidity[challenge_id]
            <= i128::MAX - amount,
        s.liquidity_positions.contains_key((challenge_id, provider)) ==> {
            &&& s.liquidity_positions[(challenge_id, provider)].amount <= i128::MAX - amount
            &&& s.liquidity_positions[(challenge_id, provider)].shares <= i128::MAX - amount
                * 1000000
        },
    ensures
        ({
            let (t, result) = add_liquidity_step(s, provider, challenge_id, amount);
            &&& result is Ok
            &&& accrual_in_range(
                State { total_liquidity: t.total_liquidity, ..s },
                challenge_id,
                provider,
                result->Ok_0,
            ) ==> add_liquidity_in_range(s, challenge_id, provider, amount)
        }),
{
    let total = if s.total_liquidity.contains_key(challenge_id) {
        s.total_liquidity[challenge_id] as int
    } else {
        0
    };
    if total > 0 {
        lemma_division(amount * 1000000, total);
    }
}

/// Liquidity moves from the provider to the market and buys shares: as many as
/// the amount where there is no liquidity, else the part that it is of what is
/// there, in millionths and rounded down. The provider's position and the
/// liquidity of the challenge grow by it, the rewards are brought up to date,
/// and nothing else changes.
pub proof fn law_liquidity_buys_its_part(
    s: State,
    provider: Address,
    challenge_id: u64,
    amount: i128,
)
    requires
        add_liquidity_in_range(s, challenge_id, provider, amount),
        add_liquidity_step(s, provider, challenge_id, amount).1 is Ok,
    ensures
        ({
            let (t, result) = add_liquidity_step(s, provider, challenge_id, amount);
            let key = (challenge_id, provider);
            let total = if s.total_liquidity.contains_key(challenge_id) {
                s.total_liquidity[challenge_id] as int
            } else {
                0
            };
            let before = if s.liquidity_positions.contains_key(key) {
                s.liquidity_positions[key]
            } else {
                LiquidityPosition {
                    provider,
                    amount: 0,
                    shares: 0,
                    reward_debt: 0,
                    last_update: s.timestamp,
                }
            };
            let shares = result->Ok_0;
            &&& total == 0 ==> shares == amount
            &&& total > 0 ==> shares * total <= amount * 1000000 < (shares + 1) * total
            &&& t.liquidity_positions == s.liquidity_positions.insert(
                key,
                LiquidityPosition {
                    amount: (before.amount + amount) as i128,
                    shares: (before.shares + shares) as i128,
                    last_update: s.timestamp,
                    ..before
                },
            )
            &&& t.total_liquidity == s.total_liquidity.insert(challenge_id, (total + amount) as i128)
            &&& t.reward_accruals == accrued(
                State { total_liquidity: t.total_liquidity, ..s },
                challenge_id,
                provider,
                shares,
            ).reward_accruals
            &&& t.actions == s.actions + seq![
                Action::RequireAuth(provider),
                Action::Transfer {
                    token: s.challenges[challenge_id].token,
                    from: provider,
                    to: s.contract,
                    amount,
                },
                Action::Publish(Event::LiquidityAdded { challenge_id, provider, amount, shares }),
            ]
            &&& t == (State {
                liquidity_positions: t.liquidity_positions,
                total_liquidity: t.total_liquidity,
                reward_accruals: t.reward_accruals,
                actions: t.actions,
                ..s
            })
        }),
{
    let total = if s.total_liquidity.contains_key(challenge_id) {
        s.total_liquidity[challenge_id] as int
    } else {
        0
    };
    if total > 0 {
        lemma_division(amount * 1000000, total);
    }
}

/// When liquidity is taken out, and why it is not otherwise: what the shares are
/// worth is their part of the provider's shares, of all the liquidity of the
/// challenge, rounded down.
pub proof fn law_removing_liquidity_is_refused_for_a_reason(
    s: State,
    provider: Address,
    challenge_id: u64,
    shares: i128,
)
    requires
        s.total_liquidity.contains_key(challenge_id) ==> s.total_liquidity[challenge_id] >= 0
            && shares * s.total_liquidity[challenge_id] <= i128::MAX,
    ensures
        ({
            let result = remove_liquidity_step(s, provider, challenge_id, shares).1;
            let key = (challenge_id, provider);
            let total = if s.total_liquidity.contains_key(challenge_id) {
                s.total_liquidity[challenge_id] as int
            } else {
                0
            };
            let held = s.liquidity_positions[key].shares;
            let worth = (shares * total) / (held as int);
            let noted = s.last_withdrawals.contains_key((provider, challenge_id));
            let last = s.last_withdrawals[(provider, challenge_id)];
            if shares <= 0 {
                result == Err::<i128, Error>(Error::InvalidLiquidityAmount)
            } else if !s.challenges.contains_key(challenge_id) {
                result == Err::<i128, Error>(Error::ChallengeNotFound)
            } else if !s.liquidity_positions.contains_key(key) || held < shares || worth <= 0 {
                result == Err::<i128, Error>(Error::InsufficientLiquidity)
            } else if worth >= 10000 && noted && s.timestamp < last + 10 {
                result == Err::<i128, Error>(Error::CooldownNotElapsed)
            } else {
                result is Ok && result->Ok_0 == worth
            }
        }),
{
    let total = if s.total_liquidity.contains_key(challenge_id) {
        s.total_liquidity[challenge_id] as int
    } else {
        0
    };
    let held = s.liquidity_positions[(challenge_id, provider)].shares as int;
    if 0 < shares <= held {
        assert(0 <= shares * total) by (nonlinear_arith)
            requires
                0 < shares,
                0 <= total,
        ;
        lemma_division(shares * total, held);
    }
}

/// Liquidity whose sums fit is removed where the rewards of the shares fit.
pub proof fn law_liquidity_that_fits_is_removed(
    s: State,
    provider: Address,
    challenge_id: u64,
    shares: i128,
)
    requires
        shares > 0,
        s.challenges.contains_key(challenge_id),
        s.liquidity_positions.contains_key((challenge_id, provider)),
        s.liquidity_positions[(challenge_id, provider)].shares >= shares,
        s.total_liquidity.contains_key(challenge_id),
        s.total_liquidity[challenge_id] >= 0,
        shares * s.total_liquidity[challenge_id] <= i128::MAX,
        s.liquidity_positions[(challenge_id, provider)].amount >= i128::MIN
            + s.total_liquidity[challenge_id],
        s.last_withdrawals.contains_key((provider, challenge_id)) ==> s.last_withdrawals[(
            provider,
            challenge_id,
        )] <= s.timestamp,
    ensures
        accrual_in_range(
            s,
            challenge_id,
            provider,
            s.liquidity_positions[(challenge_id, provider)].shares,
        ) ==> remove_liquidity_in_range(s, challenge_id, provider, shares),
{
    let total = s.total_liquidity[challenge_id] as int;
    let held = s.liquidity_positions[(challenge_id, provider)].shares as int;
    assert(0 <= shares * total <= held * total) by (nonlinear_arith)
        requires
            0 < shares <= held,
            0 <= total,
    ;
    lemma_division(shares * total, held);
    let amount = (shares * total) / held;
    assert(amount <= total) by (nonlinear_arith)
        requires
            amount * held <= held * total,
            0 < held,
    ;
}

/// Liquidity that is taken out moves from the market to the provider, leaves the
/// provider's position and the liquidity of the challenge by as much, and the
/// shares are given up. The rewards are brought up to date first, a large
/// withdrawal is noted, and nothing else changes.
pub proof fn law_liquidity_leaves_with_its_shares(
    s: State,
    provider: Address,
    challenge_id: u64,
    shares: i128,
)
    requires
        remove_liquidity_in_range(s, challenge_id, provider, shares),
        remove_liquidity_step(s, provider, challenge_id, shares).1 is Ok,
    ensures
        ({
            let (t, result) = remove_liquidity_step(s, provider, challenge_id, shares);
            let key = (challenge_id, provider);
            let before = s.liquidity_positions[key];
            let total = if s.total_liquidity.contains_key(challenge_id) {
                s.total_liquidity[challenge_id]
            } else {
                0
            };
            let amount = result->Ok_0;
            &&& amount * before.shares <= shares * total < (amount + 1) * before.shares
            &&& 0 < amount <= total
            &&& t.liquidity_positions == s.liquidity_positions.insert(
                key,
                LiquidityPosition {
                    amount: (before.amount - amount) as i128,
                    shares: (before.shares - shares) as i128,
                    last_update: s.timestamp,
                    ..before
                },
            )
            &&& t.total_liquidity == s.total_liquidity.insert(challenge_id, (total - amount) as i128)
            &&& t.last_withdrawals == (if amount >= 10000 {
                s.last_withdrawals.insert((provider, challenge_id), s.timestamp)
            } else {
                s.last_withdrawals
            })
            &&& t.reward_accruals == accrued(
                s,
                challenge_id,
                provider,
                before.shares,
            ).reward_accruals
            &&& t.actions == s.actions + seq![
                Action::RequireAuth(provider),
                Action::Transfer {
                    token: s.challenges[challenge_id].token,
                    from: s.contract,
                    to: provider,
                    amount,
                },
                Action::Publish(Event::LiquidityRemoved { challenge_id, provider, amount, shares }),
            ]
            &&& t == (State {
                liquidity_positions: t.liquidity_positions,
                total_liquidity: t.total_liquidity,
                last_withdrawals: t.last_withdrawals,
                reward_accruals: t.reward_accruals,
                actions: t.actions,
                ..s
            })
        }),
{
    let total = if s.total_liquidity.contains_key(challenge_id) {
        s.total_liquidity[challenge_id] as int
    } else {
        0
    };
    let held = s.liquidity_positions[(challenge_id, provider)].shares as int;
    assert(0 <= shares * total <= held * total) by (nonlinear_arith)
        requires
            0 < shares <= held,
            0 <= total,
    ;
    lemma_division(shares * total, held);
    let amount = (shares * total) / held;
    assert(amount <= total) by (nonlinear_arith)
        requires
            amount * held <= held * total,
            0 < held,
    ;
}

/// A provider who has a position sees the rewards that are waiting, brought up
/// to date; who never had one and has no rewards sees none.
pub proof fn law_pending_rewards_are_those_kept(s: State, challenge_id: u64, provider: Address)
    ensures
        ({
            let (t, result) = get_pending_rewards_step(s, challenge_id, provider);
            let key = (challenge_id, provider);
            let current = if s.liquidity_positions.contains_key(key) {
                accrued(s, challenge_id, provider, s.liquidity_positions[key].shares)
            } else {
                s
            };
            &&& t == current
            &&& current.reward_accruals.contains_key(key) ==> result == Ok::<i128, Error>(
                current.reward_accruals[key].pending_rewards,
            )
            &&& !current.reward_accruals.contains_key(key) ==> result == Err::<i128, Error>(
                Error::NoPendingRewards,
            )
            &&& (s.liquidity_positions.contains_key(key) ==> accrual_in_range(
                s,
                challenge_id,
                provider,
                s.liquidity_positions[key].shares,
            )) ==> position_accrual_in_range(s, challenge_id, provider)
        }),
{
}

/// A provider who claims gets all the rewards that are waiting, brought up to
/// date, and none wait any more; without any the claim is refused. Nothing else
/// changes.
pub proof fn law_claimed_rewards_are_those_kept(s: State, provider: Address, challenge_id: u64)
    ensures
        ({
            let (t, result) = claim_rewards_step(s, provider, challenge_id);
            let key = (challenge_id, provider);
            let current = if s.liquidity_positions.contains_key(key) {
                accrued(s, challenge_id, provider, s.liquidity_positions[key].shares)
            } else {
                s
            };
            let accrual = current.reward_accruals[key];
            let rewards = accrual.pending_rewards;
            if !s.reward_accruals.contains_key(key) || rewards <= 0 {
                result == Err::<i128, Error>(Error::NoPendingRewards)
            } else if !s.challenges.contains_key(challenge_id) {
                result == Err::<i128, Error>(Error::ChallengeNotFound)
            } else {
                &&& result == Ok::<i128, Error>(rewards)
                &&& t.actions == s.actions + seq![
                    Action::RequireAuth(provider),
                    Action::Transfer {
                        token: s.challenges[challenge_id].token,
                        from: s.contract,
                        to: provider,
                        amount: rewards,
                    },
                    Action::Publish(Event::RewardClaimed { challenge_id, provider, rewards }),
                ]
                &&& t == (State {
                    reward_accruals: current.reward_accruals.insert(
                        key,
                        RewardAccrual { pending_rewards: 0, ..accrual },
                    ),
                    actions: t.actions,
                    ..s
                })
            }
        }),
        ({
            let key = (challenge_id, provider);
            (s.liquidity_positions.contains_key(key) ==> accrual_in_range(
                s,
                challenge_id,
                provider,
                s.liquidity_positions[key].shares,
            )) ==> claim_rewards_in_range(s, provider, challenge_id)
        }),
{
}

} // verus!
