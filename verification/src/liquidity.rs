//! Liquidity: adding it, removing it, and what it earns.

use vstd::prelude::*;

use crate::context::Context;
use crate::context::State;
use crate::guards::check_flash_loan_protection;
use crate::guards::check_paused;
use crate::guards::cooling_down;
use crate::guards::decided;
use crate::guards::withdrawal_in_past;
use crate::guards::withdrawal_noted;
use crate::market::ChallengeMarket;
use crate::params::BPS_DENOMINATOR;
use crate::params::REWARD_ACCRUAL_BPS;
use crate::params::SHARE_SCALE;
use crate::payouts::fits_i128;
use crate::payouts::quotient;
use crate::types::Action;
use crate::types::Address;
use crate::types::Error;
use crate::types::Event;
use crate::types::LiquidityPosition;
use crate::types::RewardAccrual;

verus! {

/// All the liquidity of a challenge.
pub open spec fn total_liquidity(s: State, challenge_id: u64) -> i128 {
    if s.total_liquidity.contains_key(challenge_id) {
        s.total_liquidity[challenge_id]
    } else {
        0
    }
}

/// The reward index of a challenge.
pub open spec fn reward_index(s: State, challenge_id: u64) -> u128 {
    if s.reward_indices.contains_key(challenge_id) {
        s.reward_indices[challenge_id]
    } else {
        0
    }
}

/// What a provider has earned on a challenge, or nothing from now on.
pub open spec fn accrual_or_blank(s: State, challenge_id: u64, provider: Address) -> RewardAccrual {
    if s.reward_accruals.contains_key((challenge_id, provider)) {
        s.reward_accruals[(challenge_id, provider)]
    } else {
        RewardAccrual {
            provider,
            challenge_id,
            reward_index: reward_index(s, challenge_id),
            pending_rewards: 0,
            last_update: s.timestamp,
        }
    }
}

/// How far the index has moved since the provider's rewards were last brought
/// up to date. What is too far for a signed number comes out negative.
pub open spec fn index_moved(s: State, challenge_id: u64, provider: Address) -> i128 {
    let before = accrual_or_blank(s, challenge_id, provider);
    (reward_index(s, challenge_id) - before.reward_index) as u128 as i128
}

/// What shares have earned since the provider's rewards were last brought up
/// to date: how far the index has moved, for their part of the liquidity.
pub open spec fn new_rewards(
    s: State,
    challenge_id: u64,
    provider: Address,
    shares: i128,
) -> int {
    quotient(
        index_moved(s, challenge_id, provider) * shares,
        total_liquidity(s, challenge_id) as int,
    )
}

/// The state once the rewards of a provider have been brought up to date.
pub open spec fn accrued(s: State, challenge_id: u64, provider: Address, shares: i128) -> State {
    if total_liquidity(s, challenge_id) == 0 || shares == 0 {
        s
    } else {
        let before = accrual_or_blank(s, challenge_id, provider);
        State {
            reward_accruals: s.reward_accruals.insert(
                (challenge_id, provider),
                RewardAccrual {
                    pending_rewards: (before.pending_rewards + new_rewards(
                        s,
                        challenge_id,
                        provider,
                        shares,
                    )) as i128,
                    reward_index: reward_index(s, challenge_id),
                    last_update: s.timestamp,
                    ..before
                },
            ),
            ..s
        }
    }
}

/// Every number on the way to the rewards of a provider is in range.
pub open spec fn accrual_in_range(
    s: State,
    challenge_id: u64,
    provider: Address,
    shares: i128,
) -> bool {
    let before = accrual_or_blank(s, challenge_id, provider);
    total_liquidity(s, challenge_id) != 0 && shares != 0 ==> {
        &&& total_liquidity(s, challenge_id) > 0
        &&& before.reward_index <= reward_index(s, challenge_id)
        &&& fits_i128(index_moved(s, challenge_id, provider) * shares)
        &&& fits_i128(
            before.pending_rewards + new_rewards(s, challenge_id, provider, shares),
        )
    }
}

/// Brings the rewards of a provider up to date.
pub fn update_reward_accrual(ctx: &mut Context, challenge_id: u64, provider: Address, shares: i128)
    requires
        accrual_in_range(old(ctx)@, challenge_id, provider, shares),
    ensures
        final(ctx)@ == accrued(old(ctx)@, challenge_id, provider, shares),
{
    let total_liquidity: i128 = match ctx.total_liquidity.get(&challenge_id) {
        Some(total) => *total,
        None => 0,
    };
    if total_liquidity == 0 || shares == 0 {
        return;
    }
    let global_index: u128 = match ctx.reward_indices.get(&challenge_id) {
        Some(index) => *index,
        None => 0,
    };
    let mut accrual: RewardAccrual = match ctx.reward_accruals.get(&(challenge_id, provider)) {
        Some(accrual) => *accrual,
        None => RewardAccrual {
            provider,
            challenge_id,
            reward_index: global_index,
            pending_rewards: 0,
            last_update: ctx.timestamp,
        },
    };
    let index_delta: u128 = global_index - accrual.reward_index;
    let moved: i128 = #[verifier::truncate] (index_delta as i128);
    let rewards: i128 = (moved * shares) / total_liquidity;
    accrual.pending_rewards = accrual.pending_rewards + rewards;
    accrual.reward_index = global_index;
    accrual.last_update = ctx.timestamp;
    ctx.reward_accruals.set((challenge_id, provider), accrual);
}

/// What one step adds to a reward index: the part of it that the reward rate
/// gives, and at least one.
pub open spec fn index_increment(index: u128) -> int {
    let part = (index * REWARD_ACCRUAL_BPS) / (BPS_DENOMINATOR as int);
    if part < 1 {
        1
    } else {
        part
    }
}

/// The state once a reward index has made a step.
pub open spec fn index_stepped(s: State, challenge_id: u64) -> State {
    let index = reward_index(s, challenge_id);
    State {
        reward_indices: s.reward_indices.insert(
            challenge_id,
            (index + index_increment(index)) as u128,
        ),
        ..s
    }
}

/// A step of a reward index is in range.
pub open spec fn index_step_in_range(s: State, challenge_id: u64) -> bool {
    let index = reward_index(s, challenge_id);
    &&& index * REWARD_ACCRUAL_BPS <= u128::MAX
    &&& index + index_increment(index) <= u128::MAX
}

/// Moves the reward index of a challenge on by a step, so that its liquidity
/// providers earn rewards.
pub fn increment_global_reward_index(ctx: &mut Context, challenge_id: u64)
    requires
        index_step_in_range(old(ctx)@, challenge_id),
    ensures
        final(ctx)@ == index_stepped(old(ctx)@, challenge_id),
        reward_index(final(ctx)@, challenge_id) > reward_index(old(ctx)@, challenge_id),
{
    let global_index: u128 = match ctx.reward_indices.get(&challenge_id) {
        Some(index) => *index,
        None => 0,
    };
    let part: u128 = (global_index * REWARD_ACCRUAL_BPS as u128) / BPS_DENOMINATOR as u128;
    let increment: u128 = if part < 1 {
        1
    } else {
        part
    };
    ctx.reward_indices.set(challenge_id, global_index + increment);
}

/// Why liquidity is not added.
pub open spec fn add_liquidity_refusal(s: State, challenge_id: u64, amount: i128) -> Option<Error> {
    if s.is_paused() {
        Some(Error::ContractPaused)
    } else if amount <= 0 {
        Some(Error::InvalidLiquidityAmount)
    } else if !s.challenges.contains_key(challenge_id) {
        Some(Error::ChallengeNotFound)
    } else if s.challenges[challenge_id].finalized() {
        Some(Error::AlreadyFinalized)
    } else {
        None
    }
}

/// The shares that an amount of liquidity buys: as many as the amount where
/// there is no liquidity yet, else its part of what is there, in millionths.
pub open spec fn minted_shares(s: State, challenge_id: u64, amount: i128) -> int {
    let total = total_liquidity(s, challenge_id);
    if total == 0 {
        amount as int
    } else {
        quotient(amount * SHARE_SCALE, total as int)
    }
}

/// The position of a provider, or an empty one.
pub open spec fn position_or_blank(
    s: State,
    challenge_id: u64,
    provider: Address,
) -> LiquidityPosition {
    if s.liquidity_positions.contains_key((challenge_id, provider)) {
        s.liquidity_positions[(challenge_id, provider)]
    } else {
        LiquidityPosition {
            provider,
            amount: 0,
            shares: 0,
            reward_debt: 0,
            last_update: s.timestamp,
        }
    }
}

/// The state with an amount and shares added to a provider's position, and
/// the amount to the liquidity of the challenge.
pub open spec fn liquidity_shifted(
    s: State,
    challenge_id: u64,
    provider: Address,
    amount: int,
    shares: int,
) -> State {
    let before = position_or_blank(s, challenge_id, provider);
    State {
        liquidity_positions: s.liquidity_positions.insert(
            (challenge_id, provider),
            LiquidityPosition {
                amount: (before.amount + amount) as i128,
                shares: (before.shares + shares) as i128,
                last_update: s.timestamp,
                ..before
            },
        ),
        total_liquidity: s.total_liquidity.insert(
            challenge_id,
            (total_liquidity(s, challenge_id) + amount) as i128,
        ),
        ..s
    }
}

/// What [`liquidity_shifted`] adds up is in range.
pub open spec fn shift_in_range(
    s: State,
    challenge_id: u64,
    provider: Address,
    amount: int,
    shares: int,
) -> bool {
    let before = position_or_blank(s, challenge_id, provider);
    &&& fits_i128(before.amount + amount)
    &&& fits_i128(before.shares + shares)
    &&& fits_i128(total_liquidity(s, challenge_id) + amount)
}

/// The state once liquidity has been added.
pub open spec fn liquidity_added(
    s: State,
    challenge_id: u64,
    provider: Address,
    amount: i128,
) -> State {
    let shares = minted_shares(s, challenge_id, amount) as i128;
    accrued(
        liquidity_shifted(s, challenge_id, provider, amount as int, shares as int),
        challenge_id,
        provider,
        shares,
    ).asking(
        Action::Transfer {
            token: s.challenges[challenge_id].token,
            from: provider,
            to: s.contract,
            amount,
        },
    ).publishing(Event::LiquidityAdded { challenge_id, provider, amount, shares })
}

/// Liquidity is not added, or every number on the way is in range.
pub open spec fn add_liquidity_in_range(
    s: State,
    challenge_id: u64,
    provider: Address,
    amount: i128,
) -> bool {
    add_liquidity_refusal(s, challenge_id, amount) is None ==> {
        let total = total_liquidity(s, challenge_id);
        let shares = minted_shares(s, challenge_id, amount);
        &&& total >= 0
        &&& total > 0 ==> fits_i128(amount * SHARE_SCALE)
        &&& shift_in_range(s, challenge_id, provider, amount as int, shares)
        &&& accrual_in_range(
            liquidity_shifted(s, challenge_id, provider, amount as int, shares),
            challenge_id,
            provider,
            shares as i128,
        )
    }
}

/// A provider has the shares that are to be given up.
pub open spec fn holds_shares(
    s: State,
    challenge_id: u64,
    provider: Address,
    shares: i128,
) -> bool {
    &&& shares > 0
    &&& s.challenges.contains_key(challenge_id)
    &&& s.liquidity_positions.contains_key((challenge_id, provider))
    &&& s.liquidity_positions[(challenge_id, provider)].shares >= shares
}

/// What shares of a provider are worth: the part that they are of the
/// provider's shares, of all the liquidity of the challenge.
pub open spec fn share_value(
    s: State,
    challenge_id: u64,
    provider: Address,
    shares: i128,
) -> int {
    quotient(
        shares * total_liquidity(s, challenge_id),
        s.liquidity_positions[(challenge_id, provider)].shares as int,
    )
}

/// Why liquidity is not removed.
pub open spec fn remove_liquidity_refusal(
    s: State,
    challenge_id: u64,
    provider: Address,
    shares: i128,
) -> Option<Error> {
    if shares <= 0 {
        Some(Error::InvalidLiquidityAmount)
    } else if !s.challenges.contains_key(challenge_id) {
        Some(Error::ChallengeNotFound)
    } else if !holds_shares(s, challenge_id, provider, shares) {
        Some(Error::InsufficientLiquidity)
    } else if share_value(s, challenge_id, provider, shares) <= 0 {
        Some(Error::InsufficientLiquidity)
    } else if cooling_down(
        s,
        provider,
        challenge_id,
        share_value(s, challenge_id, provider, shares) as i128,
    ) {
        Some(Error::CooldownNotElapsed)
    } else {
        None
    }
}

/// The state once the removal of liquidity has been looked at, whether it is
/// refused or not.
pub open spec fn remove_liquidity_examined(
    s: State,
    challenge_id: u64,
    provider: Address,
    shares: i128,
) -> State {
    if !holds_shares(s, challenge_id, provider, shares) || share_value(
        s,
        challenge_id,
        provider,
        shares,
    ) <= 0 {
        s
    } else {
        withdrawal_noted(
            s,
            provider,
            challenge_id,
            share_value(s, challenge_id, provider, shares) as i128,
        )
    }
}

/// The state once liquidity has been removed.
pub open spec fn liquidity_removed(
    s: State,
    challenge_id: u64,
    provider: Address,
    shares: i128,
) -> State {
    let amount = share_value(s, challenge_id, provider, shares) as i128;
    liquidity_shifted(
        accrued(
            s,
            challenge_id,
            provider,
            s.liquidity_positions[(challenge_id, provider)].shares,
        ),
        challenge_id,
        provider,
        -amount,
        -shares,
    ).asking(
        Action::Transfer {
            token: s.challenges[challenge_id].token,
            from: s.contract,
            to: provider,
            amount,
        },
    ).publishing(Event::LiquidityRemoved { challenge_id, provider, amount, shares })
}

/// Every number that the removal of liquidity comes to is in range.
pub open spec fn remove_liquidity_in_range(
    s: State,
    challenge_id: u64,
    provider: Address,
    shares: i128,
) -> bool {
    let amount = share_value(s, challenge_id, provider, shares);
    &&& holds_shares(s, challenge_id, provider, shares) ==> {
        &&& total_liquidity(s, challenge_id) >= 0
        &&& fits_i128(shares * total_liquidity(s, challenge_id))
        &&& withdrawal_in_past(s, provider, challenge_id, amount as i128)
    }
    &&& remove_liquidity_refusal(s, challenge_id, provider, shares) is None ==> {
        &&& accrual_in_range(
            s,
            challenge_id,
            provider,
            s.liquidity_positions[(challenge_id, provider)].shares,
        )
        &&& shift_in_range(s, challenge_id, provider, -amount, -shares)
    }
}

/// The state once the rewards of a provider who has a position have been
/// brought up to date.
pub open spec fn position_accrued(s: State, challenge_id: u64, provider: Address) -> State {
    if s.liquidity_positions.contains_key((challenge_id, provider)) {
        accrued(
            s,
            challenge_id,
            provider,
            s.liquidity_positions[(challenge_id, provider)].shares,
        )
    } else {
        s
    }
}

/// Every number on the way to the rewards of a provider who has a position is
/// in range.
pub open spec fn position_accrual_in_range(
    s: State,
    challenge_id: u64,
    provider: Address,
) -> bool {
    s.liquidity_positions.contains_key((challenge_id, provider)) ==> accrual_in_range(
        s,
        challenge_id,
        provider,
        s.liquidity_positions[(challenge_id, provider)].shares,
    )
}

/// What adding liquidity comes to.
pub open spec fn add_liquidity_step(
    s: State,
    provider: Address,
    challenge_id: u64,
    amount: i128,
) -> (State, Result<i128, Error>) {
    let asked = s.asking(Action::RequireAuth(provider));
    decided(
        add_liquidity_refusal(s, challenge_id, amount),
        asked,
        liquidity_added(asked, challenge_id, provider, amount),
        minted_shares(s, challenge_id, amount) as i128,
    )
}

/// What removing liquidity comes to.
pub open spec fn remove_liquidity_step(
    s: State,
    provider: Address,
    challenge_id: u64,
    shares: i128,
) -> (State, Result<i128, Error>) {
    let examined = remove_liquidity_examined(
        s.asking(Action::RequireAuth(provider)),
        challenge_id,
        provider,
        shares,
    );
    decided(
        remove_liquidity_refusal(s, challenge_id, provider, shares),
        examined,
        liquidity_removed(examined, challenge_id, provider, shares),
        share_value(s, challenge_id, provider, shares) as i128,
    )
}

/// What looking at pending rewards comes to.
pub open spec fn get_pending_rewards_step(s: State, challenge_id: u64, provider: Address) -> (
    State,
    Result<i128, Error>,
) {
    let current = position_accrued(s, challenge_id, provider);
    if current.reward_accruals.contains_key((challenge_id, provider)) {
        (current, Ok(current.reward_accruals[(challenge_id, provider)].pending_rewards))
    } else {
        (current, Err(Error::NoPendingRewards))
    }
}

/// A reward index does not move, or its step is in range.
pub open spec fn update_challenge_reward_index_in_range(s: State, challenge_id: u64) -> bool {
    !s.is_paused() ==> index_step_in_range(s, challenge_id)
}

/// What moving a reward index on comes to.
pub open spec fn update_challenge_reward_index_step(s: State, challenge_id: u64) -> (
    State,
    Result<(), Error>,
) {
    if s.is_paused() {
        (s, Err(Error::ContractPaused))
    } else {
        (index_stepped(s, challenge_id), Ok(()))
    }
}

/// What claiming rewards comes to, once the provider has been asked to
/// authorize it.
pub open spec fn rewards_paid(s: State, challenge_id: u64, provider: Address) -> (
    State,
    Result<i128, Error>,
) {
    let key = (challenge_id, provider);
    let current = position_accrued(s, challenge_id, provider);
    let accrual = current.reward_accruals[key];
    let emptied = State {
        reward_accruals: current.reward_accruals.insert(
            key,
            RewardAccrual { pending_rewards: 0, ..accrual },
        ),
        ..current
    };
    let rewards = accrual.pending_rewards;
    if !s.reward_accruals.contains_key(key) {
        (s, Err(Error::NoPendingRewards))
    } else if rewards <= 0 {
        (current, Err(Error::NoPendingRewards))
    } else if !s.challenges.contains_key(challenge_id) {
        (emptied, Err(Error::ChallengeNotFound))
    } else {
        (
            emptied.asking(
                Action::Transfer {
                    token: s.challenges[challenge_id].token,
                    from: s.contract,
                    to: provider,
                    amount: rewards,
                },
            ).publishing(Event::RewardClaimed { challenge_id, provider, rewards }),
            Ok(rewards),
        )
    }
}

/// What claiming rewards comes to.
pub open spec fn claim_rewards_step(s: State, provider: Address, challenge_id: u64) -> (
    State,
    Result<i128, Error>,
) {
    rewards_paid(s.asking(Action::RequireAuth(provider)), challenge_id, provider)
}

/// There are no rewards, or every number on the way to them is in range.
pub open spec fn claim_rewards_in_range(s: State, provider: Address, challenge_id: u64) -> bool {
    s.reward_accruals.contains_key((challenge_id, provider)) ==> position_accrual_in_range(
        s,
        challenge_id,
        provider,
    )
}

impl ChallengeMarket {
    /// Adds liquidity to a challenge, and says how many shares it bought.
    pub fn add_liquidity(ctx: &mut Context, provider: Address, challenge_id: u64, amount: i128) -> (result:
        Result<i128, Error>)
        requires
            add_liquidity_in_range(old(ctx)@, challenge_id, provider, amount),
        ensures
            (final(ctx)@, result) == add_liquidity_step(old(ctx)@, provider, challenge_id, amount),
    {
        ctx.ask(Action::RequireAuth(provider));
        check_paused(ctx)?;
        if amount <= 0 {
            return Err(Error::InvalidLiquidityAmount);
        }
        let token: Address = match ctx.challenges.get(&challenge_id) {
            Some(challenge) => {
                if challenge.resolved || challenge.cancelled {
                    return Err(Error::AlreadyFinalized);
                }
                challenge.token
            },
            None => {
                return Err(Error::ChallengeNotFound);
            },
        };
        let total_liquidity: i128 = match ctx.total_liquidity.get(&challenge_id) {
            Some(total) => *total,
            None => 0,
        };
        let shares: i128 = if total_liquidity == 0 {
            amount
        } else {
            (amount * SHARE_SCALE) / total_liquidity
        };
        let mut position: LiquidityPosition = match ctx.liquidity_positions.get(
            &(challenge_id, provider),
        ) {
            Some(position) => *position,
            None => LiquidityPosition {
                provider,
                amount: 0,
                shares: 0,
                reward_debt: 0,
                last_update: ctx.timestamp,
            },
        };
        position.amount = position.amount + amount;
        position.shares = position.shares + shares;
        position.last_update = ctx.timestamp;
        ctx.liquidity_positions.set((challenge_id, provider), position);
        ctx.total_liquidity.set(challenge_id, total_liquidity + amount);
        update_reward_accrual(ctx, challenge_id, provider, shares);
        ctx.ask(Action::Transfer { token, from: provider, to: ctx.contract, amount });
        ctx.publish(Event::LiquidityAdded { challenge_id, provider, amount, shares });
        Ok(shares)
    }

    /// Gives up shares, and says how much liquidity was paid for them.
    pub fn remove_liquidity(
        ctx: &mut Context,
        provider: Address,
        challenge_id: u64,
        shares: i128,
    ) -> (result: Result<i128, Error>)
        requires
            remove_liquidity_in_range(old(ctx)@, challenge_id, provider, shares),
        ensures
            (final(ctx)@, result) == remove_liquidity_step(
                old(ctx)@,
                provider,
                challenge_id,
                shares,
            ),
    {
        ctx.ask(Action::RequireAuth(provider));
        if shares <= 0 {
            return Err(Error::InvalidLiquidityAmount);
        }
        let token: Address = match ctx.challenges.get(&challenge_id) {
            Some(challenge) => challenge.token,
            None => {
                return Err(Error::ChallengeNotFound);
            },
        };
        let mut position: LiquidityPosition = match ctx.liquidity_positions.get(
            &(challenge_id, provider),
        ) {
            Some(position) => *position,
            None => {
                return Err(Error::InsufficientLiquidity);
            },
        };
        if position.shares < shares {
            return Err(Error::InsufficientLiquidity);
        }
        let total_liquidity: i128 = match ctx.total_liquidity.get(&challenge_id) {
            Some(total) => *total,
            None => 0,
        };
        let amount: i128 = (shares * total_liquidity) / position.shares;
        if amount <= 0 {
            return Err(Error::InsufficientLiquidity);
        }
        check_flash_loan_protection(ctx, provider, challenge_id, amount)?;
        update_reward_accrual(ctx, challenge_id, provider, position.shares);
        position.shares = position.shares - shares;
        position.amount = position.amount - amount;
        position.last_update = ctx.timestamp;
        ctx.liquidity_positions.set((challenge_id, provider), position);
        ctx.total_liquidity.set(challenge_id, total_liquidity - amount);
        ctx.ask(Action::Transfer { token, from: ctx.contract, to: provider, amount });
        ctx.publish(Event::LiquidityRemoved { challenge_id, provider, amount, shares });
        Ok(amount)
    }

    /// The position of a provider.
    pub fn get_liquidity_position(ctx: &Context, challenge_id: u64, provider: Address) -> (result:
        Result<LiquidityPosition, Error>)
        ensures
            result == (if ctx@.liquidity_positions.contains_key((challenge_id, provider)) {
                Ok::<LiquidityPosition, Error>(ctx@.liquidity_positions[(challenge_id, provider)])
            } else {
                Err::<LiquidityPosition, Error>(Error::InsufficientLiquidity)
            }),
    {
        match ctx.liquidity_positions.get(&(challenge_id, provider)) {
            Some(position) => Ok(*position),
            None => Err(Error::InsufficientLiquidity),
        }
    }

    /// Claims the rewards of a provider.
    pub fn claim_rewards(ctx: &mut Context, provider: Address, challenge_id: u64) -> (result:
        Result<i128, Error>)
        requires
            claim_rewards_in_range(old(ctx)@, provider, challenge_id),
        ensures
            (final(ctx)@, result) == claim_rewards_step(old(ctx)@, provider, challenge_id),
    {
        ctx.ask(Action::RequireAuth(provider));
        let mut accrual: RewardAccrual = match ctx.reward_accruals.get(
            &(challenge_id, provider),
        ) {
            Some(accrual) => *accrual,
            None => {
                return Err(Error::NoPendingRewards);
            },
        };
        let shares: Option<i128> = match ctx.liquidity_positions.get(&(challenge_id, provider)) {
            Some(position) => Some(position.shares),
            None => None,
        };
        if let Some(shares) = shares {
            update_reward_accrual(ctx, challenge_id, provider, shares);
            if let Some(updated) = ctx.reward_accruals.get(&(challenge_id, provider)) {
                accrual = *updated;
            }
        }
        if accrual.pending_rewards <= 0 {
            return Err(Error::NoPendingRewards);
        }
        let rewards: i128 = accrual.pending_rewards;
        accrual.pending_rewards = 0;
        ctx.reward_accruals.set((challenge_id, provider), accrual);
        let token: Address = match ctx.challenges.get(&challenge_id) {
            Some(challenge) => challenge.token,
            None => {
                return Err(Error::ChallengeNotFound);
            },
        };
        ctx.ask(Action::Transfer { token, from: ctx.contract, to: provider, amount: rewards });
        ctx.publish(Event::RewardClaimed { challenge_id, provider, rewards });
        Ok(rewards)
    }

    /// The rewards that a provider can claim, brought up to date.
    pub fn get_pending_rewards(ctx: &mut Context, challenge_id: u64, provider: Address) -> (result:
        Result<i128, Error>)
        requires
            position_accrual_in_range(old(ctx)@, challenge_id, provider),
        ensures
            (final(ctx)@, result) == get_pending_rewards_step(old(ctx)@, challenge_id, provider),
    {
        let shares: Option<i128> = match ctx.liquidity_positions.get(&(challenge_id, provider)) {
            Some(position) => Some(position.shares),
            None => None,
        };
        if let Some(shares) = shares {
            update_reward_accrual(ctx, challenge_id, provider, shares);
        }
        match ctx.reward_accruals.get(&(challenge_id, provider)) {
            Some(accrual) => Ok(accrual.pending_rewards),
            None => Err(Error::NoPendingRewards),
        }
    }

    /// Moves the reward index of a challenge on by a step. Anyone can.
    pub fn update_challenge_reward_index(ctx: &mut Context, challenge_id: u64) -> (result: Result<
        (),
        Error,
    >)
        requires
            update_challenge_reward_index_in_range(old(ctx)@, challenge_id),
        ensures
            (final(ctx)@, result) == update_challenge_reward_index_step(old(ctx)@, challenge_id),
    {
        check_paused(ctx)?;
        increment_global_reward_index(ctx, challenge_id);
        Ok(())
    }
}

} // verus!
