//! Whether the numbers that a request makes are in range.
//!
//! A request is only to be made where they are. Code that is not verified
//! asks here first.

use vstd::prelude::*;

use crate::challenges::add_challenge_token_in_range;
use crate::challenges::cleanup_old_challenges_in_range;
use crate::challenges::create_challenge_in_range;
use crate::challenges::create_from_template_in_range;
use crate::challenges::create_template_in_range;
use crate::challenges::creation_in_range;
use crate::challenges::next_template_id;
use crate::challenges::over_count;
use crate::context::Context;
use crate::context::State;
use crate::disputes::file_dispute_in_range;
use crate::disputes::resolve_dispute_in_range;
use crate::guards::check_paused;
use crate::guards::check_token_whitelist;
use crate::guards::rate_limited;
use crate::guards::rate_window;
use crate::liquidity::accrual_in_range;
use crate::liquidity::add_liquidity_in_range;
use crate::liquidity::claim_rewards_in_range;
use crate::liquidity::position_accrual_in_range;
use crate::liquidity::position_or_blank;
use crate::liquidity::remove_liquidity_in_range;
use crate::liquidity::total_liquidity;
use crate::liquidity::update_challenge_reward_index_in_range;
use crate::lists::stake_items;
use crate::lists::stake_readings;
use crate::lists::stakes_len;
use crate::lists::u64_items;
use crate::lists::u64_readings;
use crate::lists::u64s_len;
use crate::market::ChallengeMarket;
use crate::numbers::number_read;
use crate::numbers::stake_read;
use crate::params::BPS_DENOMINATOR;
use crate::params::DEFAULT_EXPIRY_LEDGERS;
use crate::params::DEFAULT_PROTOCOL_FEE_BPS;
use crate::params::DISPUTE_BONUS_DIVISOR;
use crate::params::DISPUTE_STAKE_THRESHOLD;
use crate::params::DISPUTE_WINDOW_LEDGERS;
use crate::params::FLASH_LOAN_COOLDOWN;
use crate::params::FLASH_LOAN_THRESHOLD;
use crate::params::MAX_CHALLENGES_PER_WINDOW;
use crate::params::MAX_DISPUTES_PER_WINDOW;
use crate::params::MAX_SLASH_COUNT;
use crate::params::MAX_STAKES_PER_WINDOW;
use crate::params::MAX_TEMPLATES_PER_USER;
use crate::params::REWARD_ACCRUAL_BPS;
use crate::params::SHARE_SCALE;
use crate::payouts::calculate_payout;
use crate::payouts::fits_i128;
use crate::payouts::get_pools;
use crate::payouts::odds_in_range;
use crate::payouts::payout_in_range;
use crate::queries::Filter;
use crate::queries::ascending;
use crate::queries::descending;
use crate::queries::lemma_filter_push;
use crate::queries::list_challenges_in_range;
use crate::queries::meets;
use crate::queries::templates_of;
use crate::relayers::add_relayer_in_range;
use crate::relayers::removal_in_range;
use crate::relayers::remove_relayer_in_range;
use crate::relayers::slash_relayer_in_range;
use crate::reputation::ReputationGain;
use crate::reputation::reputation_in_range;
use crate::soundness::lemma_share_value_bounds;
use crate::staking::batch_claim_in_range;
use crate::staking::batch_claim_reads;
use crate::staking::batch_claim_step;
use crate::staking::batch_stake_in_range;
use crate::staking::batch_stake_reads;
use crate::staking::batch_stake_step;
use crate::staking::claim_in_range;
use crate::staking::claims_in_range;
use crate::staking::claims_read;
use crate::staking::pay_claim;
use crate::staking::payouts_view;
use crate::staking::place_stake;
use crate::staking::potential_payout_in_range;
use crate::staking::refund_in_range;
use crate::staking::stake_in_range;
use crate::staking::stakes_in_range;
use crate::staking::stakes_read;
use crate::table::Table;
use crate::types::Action;
use crate::types::Address;
use crate::types::Challenge;
use crate::types::ChallengeStats;
use crate::types::Error;
use crate::types::LiquidityPosition;
use crate::types::Stake;
use crate::types::UserReputation;

verus! {

/// Whether a sum of amounts is in range.
fn sum_fits(a: i128, b: i128) -> (fits: bool)
    ensures
        fits == fits_i128(a + b),
{
    a.checked_add(b).is_some()
}

/// Whether a product of amounts is in range.
fn product_fits(a: i128, b: i128) -> (fits: bool)
    ensures
        fits == fits_i128(a * b),
{
    a.checked_mul(b).is_some()
}

/// Whether every number on the way to odds is in range.
fn odds_fit(pool_yes: i128, pool_no: i128) -> (fits: bool)
    ensures
        fits == odds_in_range(pool_yes as int, pool_no as int),
{
    if pool_yes < 0 || pool_no < 0 || !sum_fits(pool_yes, pool_no) {
        return false;
    }
    pool_yes + pool_no == 0 || product_fits(pool_yes, BPS_DENOMINATOR as i128)
}

/// Whether every number on the way to a payout is in range.
fn payout_fits(amount: i128, winning_pool: i128, losing_pool: i128, fee_bps: u32) -> (fits: bool)
    ensures
        fits == payout_in_range(
            amount as int,
            winning_pool as int,
            losing_pool as int,
            fee_bps as int,
        ),
{
    if winning_pool > 0 && !product_fits(amount, losing_pool) {
        return false;
    }
    let bonus: i128 = if winning_pool > 0 {
        (amount * losing_pool) / winning_pool
    } else {
        0
    };
    if !sum_fits(amount, bonus) {
        return false;
    }
    let gross: i128 = amount + bonus;
    if !product_fits(gross, fee_bps as i128) {
        return false;
    }
    let fee: i128 = (gross * fee_bps as i128) / BPS_DENOMINATOR as i128;
    gross.checked_sub(fee).is_some()
}

/// Whether the reputation of a user stays in range.
fn reputation_fits(ctx: &Context, user: Address, gain: &ReputationGain) -> (fits: bool)
    ensures
        fits == reputation_in_range(ctx@, user, *gain),
{
    let before: UserReputation = ChallengeMarket::get_user_reputation(ctx, user);
    before.score.checked_add(gain.score).is_some() && before.challenges_created.checked_add(
        gain.challenges_created,
    ).is_some() && before.challenges_resolved.checked_add(gain.challenges_resolved).is_some()
        && sum_fits(before.total_staked, gain.staked) && before.successful_predictions.checked_add(
        gain.successful_predictions,
    ).is_some()
}

/// Whether a user has acted as often as is allowed.
fn limit_reached(
    counts: &Table<(Address, u64), (u64, u32)>,
    user: Address,
    now: u64,
    max_count: u32,
) -> (reached: bool)
    ensures
        reached == rate_limited(counts@, user, now, max_count),
{
    let start: u64 = rate_window(now);
    match counts.get(&(user, start)) {
        Some(entry) => (if entry.0 >= start {
            entry.1
        } else {
            0
        }) >= max_count,
        None => 0 >= max_count,
    }
}

impl ChallengeMarket {
    /// Whether the numbers that a stake makes are in range.
    pub fn stake_fits(
        ctx: &Context,
        who: Address,
        challenge_id: u64,
        side_yes: bool,
        amount: i128,
    ) -> (fits: bool)
        ensures
            fits == stake_in_range(ctx@, who, challenge_id, side_yes, amount),
    {
        if check_paused(ctx).is_err() || limit_reached(
            &ctx.stake_counts,
            who,
            ctx.timestamp,
            MAX_STAKES_PER_WINDOW,
        ) || amount <= 0 || amount < Self::get_min_stake(ctx) {
            return true;
        }
        let challenge: &Challenge = match ctx.challenges.get(&challenge_id) {
            Some(challenge) => challenge,
            None => {
                return true;
            },
        };
        if challenge.resolved || challenge.cancelled || ctx.sequence
            > challenge.staking_deadline_seq {
            return true;
        }
        let (has_yes, has_no): (i128, i128) = match ctx.stakes.get(&(challenge_id, who)) {
            Some(stake) => (stake.yes_amount, stake.no_amount),
            None => (0, 0),
        };
        let stats: ChallengeStats = match ctx.challenge_stats.get(&challenge_id) {
            Some(stats) => *stats,
            None => ChallengeStats { total_participants: 0, total_staked: 0 },
        };
        let (yes, no): (i128, i128) = if side_yes {
            (amount, 0)
        } else {
            (0, amount)
        };
        if !sum_fits(has_yes, yes) || !sum_fits(has_no, no) || !sum_fits(stats.total_staked, amount)
            || has_yes == 0 && has_no == 0 && stats.total_participants == u32::MAX || !sum_fits(
            challenge.pool_yes,
            yes,
        ) || !sum_fits(challenge.pool_no, no) {
            return false;
        }
        odds_fit(challenge.pool_yes + yes, challenge.pool_no + no) && reputation_fits(
            ctx,
            who,
            &ReputationGain {
                score: 0,
                challenges_created: 0,
                challenges_resolved: 0,
                staked: amount,
                successful_predictions: 0,
            },
        )
    }

    /// Whether the numbers that a claim makes are in range.
    pub fn claim_fits(ctx: &Context, who: Address, challenge_id: u64) -> (fits: bool)
        ensures
            fits == claim_in_range(ctx@, who, challenge_id),
    {
        let challenge: &Challenge = match ctx.challenges.get(&challenge_id) {
            Some(challenge) => challenge,
            None => {
                return true;
            },
        };
        if !challenge.resolved || challenge.cancelled {
            return true;
        }
        let stake: Stake = match ctx.stakes.get(&(challenge_id, who)) {
            Some(stake) => *stake,
            None => {
                return true;
            },
        };
        if !stake.is_vested {
            match stake.vesting_start.checked_add(stake.vesting_duration) {
                Some(vested_time) => {
                    if ctx.timestamp < vested_time {
                        return true;
                    }
                },
                None => {
                    return false;
                },
            }
        }
        let (amount, claimed): (i128, bool) = if challenge.outcome_yes {
            (stake.yes_amount, stake.claimed_yes)
        } else {
            (stake.no_amount, stake.claimed_no)
        };
        if claimed || amount <= 0 {
            return true;
        }
        let (winning_pool, losing_pool) = get_pools(challenge);
        let fee_bps: u32 = match ctx.protocol_fee_bps {
            Some(bps) => bps,
            None => DEFAULT_PROTOCOL_FEE_BPS,
        };
        if !payout_fits(amount, winning_pool, losing_pool, fee_bps) {
            return false;
        }
        let (_, fee) = calculate_payout(amount, winning_pool, losing_pool, fee_bps);
        sum_fits(Self::get_fee_balance(ctx, challenge.token), fee) && reputation_fits(
            ctx,
            who,
            &ReputationGain {
                score: 2,
                challenges_created: 0,
                challenges_resolved: 0,
                staked: 0,
                successful_predictions: 1,
            },
        )
    }

    /// Whether what a refund adds up is in range.
    pub fn refund_fits(ctx: &Context, who: Address, challenge_id: u64) -> (fits: bool)
        ensures
            fits == refund_in_range(ctx@, who, challenge_id),
    {
        match ctx.challenges.get(&challenge_id) {
            Some(challenge) => {
                if !challenge.cancelled {
                    return true;
                }
            },
            None => {
                return true;
            },
        }
        match ctx.stakes.get(&(challenge_id, who)) {
            Some(stake) => stake.claimed_yes || stake.claimed_no || sum_fits(
                stake.yes_amount,
                stake.no_amount,
            ),
            None => true,
        }
    }

    /// Whether there is a next number, and the creator's reputation stays in
    /// range.
    fn creation_fits(ctx: &Context, creator: Address) -> (fits: bool)
        ensures
            fits == creation_in_range(ctx@, creator),
    {
        let next: u64 = match ctx.next_challenge_id {
            Some(id) => id,
            None => 0,
        };
        next < u64::MAX && reputation_fits(
            ctx,
            creator,
            &ReputationGain {
                score: 1,
                challenges_created: 1,
                challenges_resolved: 0,
                staked: 0,
                successful_predictions: 0,
            },
        )
    }

    /// Whether what a new challenge counts up is in range.
    pub fn create_challenge_fits(
        ctx: &Context,
        creator: Address,
        resolve_ledger_seq: u32,
        staking_deadline_seq: u32,
        token: Address,
    ) -> (fits: bool)
        ensures
            fits == create_challenge_in_range(
                ctx@,
                creator,
                resolve_ledger_seq,
                staking_deadline_seq,
                token,
            ),
    {
        check_paused(ctx).is_err() || check_token_whitelist(ctx, token).is_err() || limit_reached(
            &ctx.challenge_creation_counts,
            creator,
            ctx.timestamp,
            MAX_CHALLENGES_PER_WINDOW,
        ) || staking_deadline_seq <= ctx.sequence || resolve_ledger_seq <= ctx.sequence
            || resolve_ledger_seq.checked_add(DEFAULT_EXPIRY_LEDGERS).is_none()
            || Self::creation_fits(ctx, creator)
    }

    /// Whether there is a number for a new template.
    pub fn create_template_fits(ctx: &Context, creator: Address, token: Address) -> (fits: bool)
        ensures
            fits == create_template_in_range(ctx@, creator, token),
    {
        let count: u32 = match ctx.template_counts.get(&creator) {
            Some(count) => *count,
            None => 0,
        };
        let next: u64 = match ctx.next_template_id {
            Some(id) => id,
            None => 0,
        };
        check_paused(ctx).is_err() || check_token_whitelist(ctx, token).is_err() || count
            >= MAX_TEMPLATES_PER_USER || next < u64::MAX
    }

    /// Whether the numbers that a challenge from a template makes are in range.
    pub fn create_from_template_fits(ctx: &Context, creator: Address, template_id: u64) -> (fits:
        bool)
        ensures
            fits == create_from_template_in_range(ctx@, creator, template_id),
    {
        if check_paused(ctx).is_err() {
            return true;
        }
        let (deadline, resolve, usage): (u32, u32, u32) = match ctx.templates.get(
            &(template_id, creator),
        ) {
            Some(template) => (
                template.staking_deadline_offset,
                template.resolve_ledger_offset,
                template.usage_count,
            ),
            None => {
                return true;
            },
        };
        if ctx.sequence.checked_add(deadline).is_none() {
            return false;
        }
        match ctx.sequence.checked_add(resolve) {
            Some(resolve_seq) => deadline == 0 || resolve <= deadline || resolve_seq.checked_add(
                DEFAULT_EXPIRY_LEDGERS,
            ).is_some() && usage < u32::MAX && Self::creation_fits(ctx, creator),
            None => false,
        }
    }

    /// Whether there is room for a further token.
    pub fn add_challenge_token_fits(ctx: &Context, challenge_id: u64, token: Address) -> (fits:
        bool)
        ensures
            fits == add_challenge_token_in_range(ctx@, challenge_id, token),
    {
        match ctx.challenges.get(&challenge_id) {
            Some(challenge) => ctx.admin.is_none() || challenge.resolved || challenge.cancelled
                || challenge.token == token || challenge.additional_tokens.contains(token.id)
                || challenge.additional_tokens.len() < u32::MAX,
            None => true,
        }
    }

    /// Whether the challenges that a sweep is for can be counted.
    pub fn cleanup_old_challenges_fits(ctx: &Context, before_id: u64) -> (fits: bool)
        ensures
            fits == cleanup_old_challenges_in_range(ctx@, before_id),
    {
        if ctx.admin.is_none() {
            return true;
        }
        let mut count: u64 = 0;
        let mut id: u64 = 0;
        while id < before_id
            invariant
                id <= before_id,
                count <= id,
                count == over_count(ctx@, id as nat),
            decreases before_id - id,
        {
            let over: bool = match ctx.challenges.get(&id) {
                Some(challenge) => challenge.resolved || challenge.cancelled,
                None => false,
            };
            if over {
                count = count + 1;
            }
            id = id + 1;
        }
        count <= u32::MAX as u64
    }

    /// Whether there is room for one more relayer.
    pub fn add_relayer_fits(ctx: &Context, relayer: Address) -> (fits: bool)
        ensures
            fits == add_relayer_in_range(ctx@, relayer),
    {
        if ctx.admin.is_none() || check_paused(ctx).is_err() {
            return true;
        }
        let total: u32 = match ctx.relayer_quorum {
            Some(quorum) => quorum.total_relayers,
            None => 0,
        };
        match &ctx.relayer_set {
            Some(set) => set.contains(relayer.id) || total < u32::MAX && set.len()
                < u32::MAX,
            None => total < u32::MAX,
        }
    }

    /// Whether the quorum counts a relayer that is to go, the admin aside.
    fn removal_fits(ctx: &Context, relayer: Address) -> (fits: bool)
        ensures
            fits == removal_in_range(ctx@, relayer),
    {
        if check_paused(ctx).is_err() {
            return true;
        }
        match (&ctx.relayer_set, &ctx.relayer_quorum) {
            (Some(set), Some(quorum)) => !set.contains(relayer.id) || quorum.total_relayers
                > 0,
            _ => true,
        }
    }

    /// Whether the quorum counts a relayer that is to be removed.
    pub fn remove_relayer_fits(ctx: &Context, relayer: Address) -> (fits: bool)
        ensures
            fits == remove_relayer_in_range(ctx@, relayer),
    {
        ctx.admin.is_none() || Self::removal_fits(ctx, relayer)
    }

    /// Whether the quorum counts a relayer that is to be slashed for the last
    /// time.
    pub fn slash_relayer_fits(ctx: &Context, relayer: Address) -> (fits: bool)
        ensures
            fits == slash_relayer_in_range(ctx@, relayer),
    {
        if ctx.admin.is_none() || ctx.relayer_set.is_none() {
            return true;
        }
        let count: u32 = Self::get_relayer_slash_count(ctx, relayer);
        count < MAX_SLASH_COUNT - 1 || Self::removal_fits(ctx, relayer)
    }

    /// Whether the numbers that adding liquidity makes are in range.
    pub fn add_liquidity_fits(
        ctx: &Context,
        provider: Address,
        challenge_id: u64,
        amount: i128,
    ) -> (fits: bool)
        ensures
            fits == add_liquidity_in_range(ctx@, challenge_id, provider, amount),
    {
        if check_paused(ctx).is_err() || amount <= 0 {
            return true;
        }
        match ctx.challenges.get(&challenge_id) {
            Some(challenge) => {
                if challenge.resolved || challenge.cancelled {
                    return true;
                }
            },
            None => {
                return true;
            },
        }
        let total: i128 = liquidity_of(ctx, challenge_id);
        if total < 0 || total > 0 && !product_fits(amount, SHARE_SCALE) {
            return false;
        }
        let shares: i128 = if total == 0 {
            amount
        } else {
            (amount * SHARE_SCALE) / total
        };
        let (held_amount, held_shares) = position_of(ctx, challenge_id, provider);
        if !sum_fits(held_amount, amount) || !sum_fits(held_shares, shares) || !sum_fits(
            total,
            amount,
        ) {
            return false;
        }
        accrual_fits(ctx, challenge_id, provider, shares, total + amount)
    }

    /// Whether the numbers that removing liquidity makes are in range.
    pub fn remove_liquidity_fits(
        ctx: &Context,
        provider: Address,
        challenge_id: u64,
        shares: i128,
    ) -> (fits: bool)
        ensures
            fits == remove_liquidity_in_range(ctx@, challenge_id, provider, shares),
    {
        if shares <= 0 || !ctx.challenges.contains_key(&challenge_id) {
            return true;
        }
        let position: LiquidityPosition = match ctx.liquidity_positions.get(
            &(challenge_id, provider),
        ) {
            Some(position) => *position,
            None => {
                return true;
            },
        };
        if position.shares < shares {
            return true;
        }
        let total: i128 = liquidity_of(ctx, challenge_id);
        if total < 0 || !product_fits(shares, total) {
            return false;
        }
        let amount: i128 = (shares * total) / position.shares;
        proof {
            lemma_share_value_bounds(ctx@, challenge_id, provider, shares);
        }
        if amount >= FLASH_LOAN_THRESHOLD {
            if let Some(last) = ctx.last_withdrawals.get(&(provider, challenge_id)) {
                if *last > ctx.timestamp {
                    return false;
                }
                if ctx.timestamp - *last < FLASH_LOAN_COOLDOWN {
                    return true;
                }
            }
        }
        amount <= 0 || accrual_fits(ctx, challenge_id, provider, position.shares, total)
            && position.amount.checked_sub(amount).is_some()
    }

    /// Whether the numbers on the way to the rewards of a provider who has a
    /// position are in range.
    pub fn get_pending_rewards_fits(ctx: &Context, challenge_id: u64, provider: Address) -> (fits:
        bool)
        ensures
            fits == position_accrual_in_range(ctx@, challenge_id, provider),
    {
        match ctx.liquidity_positions.get(&(challenge_id, provider)) {
            Some(position) => accrual_fits(
                ctx,
                challenge_id,
                provider,
                position.shares,
                liquidity_of(ctx, challenge_id),
            ),
            None => true,
        }
    }

    /// Whether the numbers on the way to rewards that are claimed are in range.
    pub fn claim_rewards_fits(ctx: &Context, provider: Address, challenge_id: u64) -> (fits: bool)
        ensures
            fits == claim_rewards_in_range(ctx@, provider, challenge_id),
    {
        !ctx.reward_accruals.contains_key(&(challenge_id, provider))
            || Self::get_pending_rewards_fits(ctx, challenge_id, provider)
    }

    /// Whether the step of a reward index is in range.
    pub fn update_challenge_reward_index_fits(ctx: &Context, challenge_id: u64) -> (fits: bool)
        ensures
            fits == update_challenge_reward_index_in_range(ctx@, challenge_id),
    {
        if check_paused(ctx).is_err() {
            return true;
        }
        let index: u128 = match ctx.reward_indices.get(&challenge_id) {
            Some(index) => *index,
            None => 0,
        };
        match index.checked_mul(REWARD_ACCRUAL_BPS as u128) {
            Some(product) => {
                let part: u128 = product / BPS_DENOMINATOR as u128;
                index.checked_add(
                    if part < 1 {
                        1
                    } else {
                        part
                    },
                ).is_some()
            },
            None => false,
        }
    }

    /// Whether the numbers that a dispute makes are in range.
    pub fn file_dispute_fits(
        ctx: &Context,
        disputer: Address,
        challenge_id: u64,
        stake: i128,
    ) -> (fits: bool)
        ensures
            fits == file_dispute_in_range(ctx@, disputer, challenge_id, stake),
    {
        if check_paused(ctx).is_err() || limit_reached(
            &ctx.dispute_filing_counts,
            disputer,
            ctx.timestamp,
            MAX_DISPUTES_PER_WINDOW,
        ) {
            return true;
        }
        let resolve_seq: u32 = match ctx.challenges.get(&challenge_id) {
            Some(challenge) => {
                if !challenge.resolved {
                    return true;
                }
                challenge.resolve_ledger_seq
            },
            None => {
                return true;
            },
        };
        let count: u32 = match ctx.dispute_counts.get(&challenge_id) {
            Some(count) => *count,
            None => 0,
        };
        match resolve_seq.checked_add(DISPUTE_WINDOW_LEDGERS) {
            Some(end) => ctx.sequence > end || stake < DISPUTE_STAKE_THRESHOLD
                || ctx.disputes.contains_key(&(challenge_id, disputer)) || count < u32::MAX,
            None => false,
        }
    }

    /// Whether what a decision pays the disputer is in range.
    pub fn resolve_dispute_fits(
        ctx: &Context,
        challenge_id: u64,
        disputer: Address,
        successful: bool,
    ) -> (fits: bool)
        ensures
            fits == resolve_dispute_in_range(ctx@, challenge_id, disputer, successful),
    {
        if !successful || ctx.admin.is_none() || !ctx.challenges.contains_key(&challenge_id) {
            return true;
        }
        match ctx.disputes.get(&(challenge_id, disputer)) {
            Some(dispute) => dispute.resolved || sum_fits(
                dispute.stake,
                dispute.stake / DISPUTE_BONUS_DIVISOR,
            ),
            None => true,
        }
    }

    /// Whether the numbers on the way to the odds are in range.
    pub fn calculate_odds_fits(ctx: &Context, challenge_id: u64) -> (fits: bool)
        ensures
            fits == (ctx@.challenges.contains_key(challenge_id) ==> odds_in_range(
                ctx@.challenges[challenge_id].pool_yes as int,
                ctx@.challenges[challenge_id].pool_no as int,
            )),
    {
        match ctx.challenges.get(&challenge_id) {
            Some(challenge) => odds_fit(challenge.pool_yes, challenge.pool_no),
            None => true,
        }
    }

    /// Whether the numbers on the way to a potential payout are in range.
    pub fn calculate_potential_payout_fits(
        ctx: &Context,
        challenge_id: u64,
        side_yes: bool,
        amount: i128,
    ) -> (fits: bool)
        ensures
            fits == (ctx@.challenges.contains_key(challenge_id) ==> potential_payout_in_range(
                ctx@.challenges[challenge_id],
                side_yes,
                amount,
            )),
    {
        let (winning_pool, losing_pool): (i128, i128) = match ctx.challenges.get(&challenge_id) {
            Some(challenge) => if side_yes {
                (challenge.pool_yes, challenge.pool_no)
            } else {
                (challenge.pool_no, challenge.pool_yes)
            },
            None => {
                return true;
            },
        };
        if winning_pool <= 0 {
            return winning_pool == 0;
        }
        product_fits(amount, losing_pool) && sum_fits(
            amount,
            (amount * losing_pool) / winning_pool,
        )
    }

    /// Whether the end of the vesting of a stake is in range.
    pub fn get_stake_vesting_status_fits(ctx: &Context, challenge_id: u64, user: Address) -> (fits:
        bool)
        ensures
            fits == (ctx@.stakes.contains_key((challenge_id, user)) ==> ctx@.stakes[(
                challenge_id,
                user,
            )].vesting_start + ctx@.stakes[(challenge_id, user)].vesting_duration <= u64::MAX),
    {
        match ctx.stakes.get(&(challenge_id, user)) {
            Some(stake) => stake.vesting_start.checked_add(stake.vesting_duration).is_some(),
            None => true,
        }
    }

    /// Whether a list of challenges is short enough for the host.
    pub fn list_challenges_fits(ctx: &Context, offset: u64, limit: u64) -> (fits: bool)
        ensures
            fits == list_challenges_in_range(ctx@, offset, limit),
    {
        let high: u64 = match ctx.next_challenge_id {
            Some(next_id) => next_id.saturating_sub(offset),
            None => {
                return true;
            },
        };
        if limit <= u32::MAX as u64 {
            return true;
        }
        let ghost keep = |id: u64| meets(ctx@, Filter::Any, id);
        let mut count: u64 = 0;
        let mut next: u64 = high;
        proof {
            reveal(Seq::filter);
            assert(descending(high as int, high as int) =~= Seq::<u64>::empty());
            assert(descending(high as int, high as int).filter(keep) =~= Seq::<u64>::empty());
        }
        while next > 0
            invariant
                next <= high,
                count <= high - next,
                keep == (|id: u64| meets(ctx@, Filter::Any, id)),
                count == descending(high as int, next as int).filter(keep).len(),
            decreases next,
        {
            proof {
                assert(descending(high as int, next - 1) =~= descending(
                    high as int,
                    next as int,
                ).push((next - 1) as u64));
                lemma_filter_push(descending(high as int, next as int), (next - 1) as u64, keep);
            }
            next = next - 1;
            if ctx.challenges.contains_key(&next) {
                count = count + 1;
            }
        }
        count <= u32::MAX as u64
    }

    /// Whether a list of templates is short enough for the host.
    pub fn list_user_templates_fits(ctx: &Context, creator: Address) -> (fits: bool)
        ensures
            fits == (templates_of(ctx@, creator, next_template_id(ctx@) as int).len() <= u32::MAX),
    {
        let ghost keep = |id: u64| ctx@.templates.contains_key((id, creator));
        let next_id: u64 = match ctx.next_template_id {
            Some(id) => id,
            None => 0,
        };
        let mut count: u64 = 0;
        let mut id: u64 = 0;
        proof {
            reveal(Seq::filter);
            assert(ascending(0) =~= Seq::<u64>::empty());
            assert(ascending(0).filter(keep) =~= Seq::<u64>::empty());
        }
        while id < next_id
            invariant
                id <= next_id,
                count <= id,
                keep == (|id: u64| ctx@.templates.contains_key((id, creator))),
                count == ascending(id as int).filter(keep).len(),
            decreases next_id - id,
        {
            proof {
                assert(ascending(id + 1) =~= ascending(id as int).push(id));
                lemma_filter_push(ascending(id as int), id, keep);
            }
            if ctx.templates.contains_key(&(id, creator)) {
                count = count + 1;
            }
            id = id + 1;
        }
        count <= u32::MAX as u64
    }
}

impl ChallengeMarket {
    /// Whether several stakes can be read, as far as they are come to, and the
    /// numbers that they make are in range.
    fn batch_stake_fits(
        ctx: &Context,
        who: Address,
        stakes: &soroban_sdk::Vec<(u64, bool, i128)>,
    ) -> (fits: bool)
        ensures
            fits == (batch_stake_in_range(ctx@, who, stake_items(*stakes)) && batch_stake_reads(
                ctx@,
                who,
                stake_readings(*stakes),
            )),
    {
        if check_paused(ctx).is_err() {
            return true;
        }
        let mut scratch: Context = ctx.clone();
        scratch.ask(Action::RequireAuth(who));
        let ghost items = stake_items(*stakes);
        let ghost readings = stake_readings(*stakes);
        let ghost fit = stakes_in_range(scratch@, who, items) && stakes_read(
            scratch@,
            who,
            readings,
        );
        let len: u32 = stakes_len(stakes);
        let mut i: u32 = 0;
        assert(items.skip(0) =~= items);
        assert(readings.skip(0) =~= readings);
        while i < len
            invariant
                i <= len,
                len == items.len(),
                items == stake_items(*stakes),
                readings == stake_readings(*stakes),
                !ctx@.is_paused(),
                fit == (stakes_in_range(ctx@.asking(Action::RequireAuth(who)), who, items)
                    && stakes_read(ctx@.asking(Action::RequireAuth(who)), who, readings)),
                fit == (stakes_in_range(scratch@, who, items.skip(i as int)) && stakes_read(
                    scratch@,
                    who,
                    readings.skip(i as int),
                )),
            decreases len - i,
        {
            proof {
                assert(items.skip(i as int).skip(1) =~= items.skip(i + 1));
                assert(readings.skip(i as int).skip(1) =~= readings.skip(i + 1));
            }
            match stake_read(stakes, i) {
                Some((challenge_id, side_yes, amount)) => {
                    if !Self::stake_fits(&scratch, who, challenge_id, side_yes, amount) {
                        return false;
                    }
                    if place_stake(&mut scratch, who, challenge_id, side_yes, amount).is_err() {
                        return true;
                    }
                },
                None => {
                    return false;
                },
            }
            i = i + 1;
        }
        true
    }

    /// Places several stakes at once, if they can be read, as far as they are
    /// come to, and the numbers that they make are in range. If not, nothing
    /// happens.
    pub fn try_batch_stake(
        ctx: &mut Context,
        who: Address,
        stakes: soroban_sdk::Vec<(u64, bool, i128)>,
    ) -> (result: Option<Result<(), Error>>)
        ensures
            result is Some <==> batch_stake_in_range(old(ctx)@, who, stake_items(stakes))
                && batch_stake_reads(old(ctx)@, who, stake_readings(stakes)),
            match result {
                Some(result) => (final(ctx)@, result) == batch_stake_step(
                    old(ctx)@,
                    who,
                    stake_items(stakes),
                ),
                None => final(ctx)@ == old(ctx)@,
            },
    {
        if Self::batch_stake_fits(ctx, who, &stakes) {
            Some(Self::batch_stake(ctx, who, stakes))
        } else {
            None
        }
    }

    /// Whether several claims can be read, as far as they are come to, and the
    /// numbers that they make are in range.
    fn batch_claim_fits(
        ctx: &Context,
        who: Address,
        challenge_ids: &soroban_sdk::Vec<u64>,
    ) -> (fits: bool)
        ensures
            fits == (batch_claim_in_range(ctx@, who, u64_items(*challenge_ids))
                && batch_claim_reads(ctx@, who, u64_readings(*challenge_ids))),
    {
        let mut scratch: Context = ctx.clone();
        scratch.ask(Action::RequireAuth(who));
        let ghost items = u64_items(*challenge_ids);
        let ghost readings = u64_readings(*challenge_ids);
        let ghost fit = claims_in_range(scratch@, who, items) && claims_read(
            scratch@,
            who,
            readings,
        );
        let len: u32 = u64s_len(challenge_ids);
        let mut i: u32 = 0;
        assert(items.skip(0) =~= items);
        assert(readings.skip(0) =~= readings);
        while i < len
            invariant
                i <= len,
                len == items.len(),
                items == u64_items(*challenge_ids),
                readings == u64_readings(*challenge_ids),
                fit == (claims_in_range(ctx@.asking(Action::RequireAuth(who)), who, items)
                    && claims_read(ctx@.asking(Action::RequireAuth(who)), who, readings)),
                fit == (claims_in_range(scratch@, who, items.skip(i as int)) && claims_read(
                    scratch@,
                    who,
                    readings.skip(i as int),
                )),
            decreases len - i,
        {
            proof {
                assert(items.skip(i as int).skip(1) =~= items.skip(i + 1));
                assert(readings.skip(i as int).skip(1) =~= readings.skip(i + 1));
            }
            match number_read(challenge_ids, i) {
                Some(challenge_id) => {
                    if !Self::claim_fits(&scratch, who, challenge_id) {
                        return false;
                    }
                    if pay_claim(&mut scratch, who, challenge_id).is_err() {
                        return true;
                    }
                },
                None => {
                    return false;
                },
            }
            i = i + 1;
        }
        true
    }

    /// Claims what `who` won on several challenges at once, if the claims can be
    /// read, as far as they are come to, and the numbers that they make are in
    /// range. If not, nothing happens.
    pub fn try_batch_claim(
        ctx: &mut Context,
        who: Address,
        challenge_ids: soroban_sdk::Vec<u64>,
    ) -> (result: Option<Result<soroban_sdk::Vec<i128>, Error>>)
        ensures
            result is Some <==> batch_claim_in_range(old(ctx)@, who, u64_items(challenge_ids))
                && batch_claim_reads(old(ctx)@, who, u64_readings(challenge_ids)),
            match result {
                Some(result) => (final(ctx)@, payouts_view(result)) == batch_claim_step(
                    old(ctx)@,
                    who,
                    u64_items(challenge_ids),
                ),
                None => final(ctx)@ == old(ctx)@,
            },
    {
        if Self::batch_claim_fits(ctx, who, &challenge_ids) {
            Some(Self::batch_claim(ctx, who, challenge_ids))
        } else {
            None
        }
    }
}

/// The liquidity of a challenge.
fn liquidity_of(ctx: &Context, challenge_id: u64) -> (total: i128)
    ensures
        total == total_liquidity(ctx@, challenge_id),
{
    match ctx.total_liquidity.get(&challenge_id) {
        Some(total) => *total,
        None => 0,
    }
}

/// The amount and the shares of a provider.
fn position_of(ctx: &Context, challenge_id: u64, provider: Address) -> (position: (i128, i128))
    ensures
        position.0 == position_or_blank(ctx@, challenge_id, provider).amount,
        position.1 == position_or_blank(ctx@, challenge_id, provider).shares,
{
    match ctx.liquidity_positions.get(&(challenge_id, provider)) {
        Some(position) => (position.amount, position.shares),
        None => (0, 0),
    }
}

/// Whether the numbers on the way to the rewards of a provider are in range,
/// with the given liquidity in place of what there is.
fn accrual_fits(
    ctx: &Context,
    challenge_id: u64,
    provider: Address,
    shares: i128,
    total: i128,
) -> (fits: bool)
    ensures
        fits == accrual_in_range(
            State { total_liquidity: ctx@.total_liquidity.insert(challenge_id, total), ..ctx@ },
            challenge_id,
            provider,
            shares,
        ),
{
    if total == 0 || shares == 0 {
        return true;
    }
    if total < 0 {
        return false;
    }
    let index: u128 = match ctx.reward_indices.get(&challenge_id) {
        Some(index) => *index,
        None => 0,
    };
    let (before_index, pending): (u128, i128) = match ctx.reward_accruals.get(
        &(challenge_id, provider),
    ) {
        Some(accrual) => (accrual.reward_index, accrual.pending_rewards),
        None => (index, 0),
    };
    if index < before_index {
        return false;
    }
    let moved: i128 = #[verifier::truncate] ((index - before_index) as i128);
    product_fits(moved, shares) && sum_fits(pending, (moved * shares) / total)
}

} // verus!
