//! Requests as values: what a market goes through, one request after the
//! other.

use vstd::prelude::*;

use crate::challenges::add_challenge_token_in_range;
use crate::challenges::add_challenge_token_step;
use crate::challenges::cancel_challenge_step;
use crate::challenges::cleanup_old_challenges_in_range;
use crate::challenges::cleanup_old_challenges_step;
use crate::challenges::create_challenge_in_range;
use crate::challenges::create_challenge_step;
use crate::challenges::create_from_template_in_range;
use crate::challenges::create_from_template_step;
use crate::challenges::create_template_in_range;
use crate::challenges::create_template_step;
use crate::challenges::expire_challenge_step;
use crate::challenges::resolve_native_step;
use crate::challenges::resolve_via_oracle_step;
use crate::context::State;
use crate::disputes::file_dispute_in_range;
use crate::disputes::file_dispute_step;
use crate::disputes::resolve_dispute_in_range;
use crate::disputes::resolve_dispute_step;
use crate::liquidity::add_liquidity_in_range;
use crate::liquidity::add_liquidity_step;
use crate::liquidity::claim_rewards_in_range;
use crate::liquidity::claim_rewards_step;
use crate::liquidity::get_pending_rewards_step;
use crate::liquidity::position_accrual_in_range;
use crate::liquidity::remove_liquidity_in_range;
use crate::liquidity::remove_liquidity_step;
use crate::liquidity::update_challenge_reward_index_in_range;
use crate::liquidity::update_challenge_reward_index_step;
use crate::relayers::add_relayer_in_range;
use crate::relayers::add_relayer_step;
use crate::relayers::aggregate_oracle_outcomes_step;
use crate::relayers::remove_relayer_in_range;
use crate::relayers::remove_relayer_step;
use crate::relayers::set_quorum_size_step;
use crate::relayers::slash_relayer_in_range;
use crate::relayers::slash_relayer_step;
use crate::relayers::submit_oracle_outcome_step;
use crate::settings::clear_flash_loan_flag_step;
use crate::settings::collect_fees_step;
use crate::settings::initialize_step;
use crate::settings::pause_step;
use crate::settings::set_min_stake_step;
use crate::settings::set_oracle_relayer_step;
use crate::settings::set_protocol_fee_step;
use crate::settings::set_self_vesting_step;
use crate::settings::set_user_vesting_step;
use crate::settings::unpause_step;
use crate::settings::whitelist_step;
use crate::staking::batch_claim_in_range;
use crate::staking::batch_claim_step;
use crate::staking::batch_stake_in_range;
use crate::staking::batch_stake_step;
use crate::staking::claim_in_range;
use crate::staking::claim_step;
use crate::staking::refund_in_range;
use crate::staking::refund_step;
use crate::staking::stake_in_range;
use crate::staking::stake_step;
use crate::types::Address;
use crate::types::Condition;
use crate::types::Error;

verus! {

/// A request that can change a market, by the name of the function that
/// serves it, with its arguments.
pub enum Request {
    Initialize { admin: Address, oracle_relayer: Address },
    SetOracleRelayer { new_relayer: Address },
    SetProtocolFee { fee_bps: u32 },
    Pause,
    Unpause,
    SetMinStake { min_amount: i128 },
    AddTokenToWhitelist { token: Address },
    RemoveTokenFromWhitelist { token: Address },
    SetUserVesting { user: Address, vesting_duration: u64 },
    SetSelfVesting { user: Address, vesting_duration: u64 },
    CollectFees { token: Address, recipient: Address },
    ClearFlashLoanFlag { user: Address },
    CreateChallenge {
        creator: Address,
        description: Seq<char>,
        condition: Condition,
        resolve_ledger_seq: u32,
        staking_deadline_seq: u32,
        token: Address,
        category: Seq<char>,
    },
    CreateTemplate {
        creator: Address,
        description_template: Seq<char>,
        condition: Condition,
        resolve_ledger_offset: u32,
        staking_deadline_offset: u32,
        token: Address,
        category: Seq<char>,
    },
    CreateFromTemplate { creator: Address, template_id: u64, description: Seq<char> },
    Stake { who: Address, challenge_id: u64, side_yes: bool, amount: i128 },
    BatchStake { who: Address, stakes: Seq<(u64, bool, i128)> },
    ResolveNative { challenge_id: u64 },
    ResolveViaOracle { challenge_id: u64, outcome_yes: bool },
    Claim { who: Address, challenge_id: u64 },
    BatchClaim { who: Address, challenge_ids: Seq<u64> },
    CancelChallenge { caller: Address, challenge_id: u64 },
    Refund { who: Address, challenge_id: u64 },
    ExpireChallenge { challenge_id: u64 },
    AddChallengeToken { challenge_id: u64, token: Address },
    CleanupOldChallenges { before_id: u64 },
    AddRelayer { relayer: Address },
    RemoveRelayer { relayer: Address },
    SetQuorumSize { required_signatures: u32 },
    SlashRelayer { relayer: Address, reason: String },
    SubmitOracleOutcome { oracle: Address, challenge_id: u64, outcome_yes: bool },
    AggregateOracleOutcomes { challenge_id: u64 },
    AddLiquidity { provider: Address, challenge_id: u64, amount: i128 },
    RemoveLiquidity { provider: Address, challenge_id: u64, shares: i128 },
    ClaimRewards { provider: Address, challenge_id: u64 },
    GetPendingRewards { challenge_id: u64, provider: Address },
    UpdateChallengeRewardIndex { challenge_id: u64 },
    FileDispute {
        disputer: Address,
        challenge_id: u64,
        disputed_outcome: bool,
        evidence: Seq<char>,
        stake: i128,
    },
    ResolveDispute { challenge_id: u64, disputer: Address, successful: bool },
}

/// What a request leaves behind: the state, and the error if it is refused.
pub open spec fn ended<T>(result: (State, Result<T, Error>)) -> (State, Option<Error>) {
    match result.1 {
        Ok(_) => (result.0, None),
        Err(error) => (result.0, Some(error)),
    }
}

/// What a request comes to.
pub open spec fn served(s: State, request: Request) -> (State, Option<Error>) {
    match request {
        Request::Initialize { admin, oracle_relayer } => ended(
            initialize_step(s, admin, oracle_relayer),
        ),
        Request::SetOracleRelayer { new_relayer } => ended(
            set_oracle_relayer_step(s, new_relayer),
        ),
        Request::SetProtocolFee { fee_bps } => ended(set_protocol_fee_step(s, fee_bps)),
        Request::Pause => ended(pause_step(s)),
        Request::Unpause => ended(unpause_step(s)),
        Request::SetMinStake { min_amount } => ended(set_min_stake_step(s, min_amount)),
        Request::AddTokenToWhitelist { token } => ended(whitelist_step(s, token, true)),
        Request::RemoveTokenFromWhitelist { token } => ended(whitelist_step(s, token, false)),
        Request::SetUserVesting { user, vesting_duration } => ended(
            set_user_vesting_step(s, user, vesting_duration),
        ),
        Request::SetSelfVesting { user, vesting_duration } => ended(
            set_self_vesting_step(s, user, vesting_duration),
        ),
        Request::CollectFees { token, recipient } => ended(collect_fees_step(s, token, recipient)),
        Request::ClearFlashLoanFlag { user } => ended(clear_flash_loan_flag_step(s, user)),
        Request::CreateChallenge {
            creator,
            description,
            condition,
            resolve_ledger_seq,
            staking_deadline_seq,
            token,
            category,
        } => ended(
            create_challenge_step(
                s,
                creator,
                description,
                condition,
                resolve_ledger_seq,
                staking_deadline_seq,
                token,
                category,
            ),
        ),
        Request::CreateTemplate {
            creator,
            description_template,
            condition,
            resolve_ledger_offset,
            staking_deadline_offset,
            token,
            category,
        } => ended(
            create_template_step(
                s,
                creator,
                description_template,
                condition,
                resolve_ledger_offset,
                staking_deadline_offset,
                token,
                category,
            ),
        ),
        Request::CreateFromTemplate { creator, template_id, description } => ended(
            create_from_template_step(s, creator, template_id, description),
        ),
        Request::Stake { who, challenge_id, side_yes, amount } => ended(
            stake_step(s, who, challenge_id, side_yes, amount),
        ),
        Request::BatchStake { who, stakes } => ended(batch_stake_step(s, who, stakes)),
        Request::ResolveNative { challenge_id } => ended(resolve_native_step(s, challenge_id)),
        Request::ResolveViaOracle { challenge_id, outcome_yes } => ended(
            resolve_via_oracle_step(s, challenge_id, outcome_yes),
        ),
        Request::Claim { who, challenge_id } => ended(claim_step(s, who, challenge_id)),
        Request::BatchClaim { who, challenge_ids } => ended(
            batch_claim_step(s, who, challenge_ids),
        ),
        Request::CancelChallenge { caller, challenge_id } => ended(
            cancel_challenge_step(s, caller, challenge_id),
        ),
        Request::Refund { who, challenge_id } => ended(refund_step(s, who, challenge_id)),
        Request::ExpireChallenge { challenge_id } => ended(expire_challenge_step(s, challenge_id)),
        Request::AddChallengeToken { challenge_id, token } => ended(
            add_challenge_token_step(s, challenge_id, token),
        ),
        Request::CleanupOldChallenges { before_id } => ended(
            cleanup_old_challenges_step(s, before_id),
        ),
        Request::AddRelayer { relayer } => ended(add_relayer_step(s, relayer)),
        Request::RemoveRelayer { relayer } => ended(remove_relayer_step(s, relayer)),
        Request::SetQuorumSize { required_signatures } => ended(
            set_quorum_size_step(s, required_signatures),
        ),
        Request::SlashRelayer { relayer, reason } => ended(slash_relayer_step(s, relayer, reason)),
        Request::SubmitOracleOutcome { oracle, challenge_id, outcome_yes } => ended(
            submit_oracle_outcome_step(s, oracle, challenge_id, outcome_yes),
        ),
        Request::AggregateOracleOutcomes { challenge_id } => ended(
            aggregate_oracle_outcomes_step(s, challenge_id),
        ),
        Request::AddLiquidity { provider, challenge_id, amount } => ended(
            add_liquidity_step(s, provider, challenge_id, amount),
        ),
        Request::RemoveLiquidity { provider, challenge_id, shares } => ended(
            remove_liquidity_step(s, provider, challenge_id, shares),
        ),
        Request::ClaimRewards { provider, challenge_id } => ended(
            claim_rewards_step(s, provider, challenge_id),
        ),
        Request::GetPendingRewards { challenge_id, provider } => ended(
            get_pending_rewards_step(s, challenge_id, provider),
        ),
        Request::UpdateChallengeRewardIndex { challenge_id } => ended(
            update_challenge_reward_index_step(s, challenge_id),
        ),
        Request::FileDispute { disputer, challenge_id, disputed_outcome, evidence, stake } => ended(
            file_dispute_step(s, disputer, challenge_id, disputed_outcome, evidence, stake),
        ),
        Request::ResolveDispute { challenge_id, disputer, successful } => ended(
            resolve_dispute_step(s, challenge_id, disputer, successful),
        ),
    }
}

/// Every number that a request makes is in range.
pub open spec fn in_range(s: State, request: Request) -> bool {
    match request {
        Request::CreateChallenge {
            creator,
            resolve_ledger_seq,
            staking_deadline_seq,
            token,
            ..
        } => create_challenge_in_range(
            s,
            creator,
            resolve_ledger_seq,
            staking_deadline_seq,
            token,
        ),
        Request::CreateTemplate { creator, token, .. } => create_template_in_range(
            s,
            creator,
            token,
        ),
        Request::CreateFromTemplate { creator, template_id, .. } => create_from_template_in_range(
            s,
            creator,
            template_id,
        ),
        Request::Stake { who, challenge_id, side_yes, amount } => stake_in_range(
            s,
            who,
            challenge_id,
            side_yes,
            amount,
        ),
        Request::BatchStake { who, stakes } => batch_stake_in_range(s, who, stakes),
        Request::Claim { who, challenge_id } => claim_in_range(s, who, challenge_id),
        Request::BatchClaim { who, challenge_ids } => batch_claim_in_range(s, who, challenge_ids),
        Request::Refund { who, challenge_id } => refund_in_range(s, who, challenge_id),
        Request::AddChallengeToken { challenge_id, token } => add_challenge_token_in_range(
            s,
            challenge_id,
            token,
        ),
        Request::CleanupOldChallenges { before_id } => cleanup_old_challenges_in_range(
            s,
            before_id,
        ),
        Request::AddRelayer { relayer } => add_relayer_in_range(s, relayer),
        Request::RemoveRelayer { relayer } => remove_relayer_in_range(s, relayer),
        Request::SlashRelayer { relayer, .. } => slash_relayer_in_range(s, relayer),
        Request::AddLiquidity { provider, challenge_id, amount } => add_liquidity_in_range(
            s,
            challenge_id,
            provider,
            amount,
        ),
        Request::RemoveLiquidity { provider, challenge_id, shares } => remove_liquidity_in_range(
            s,
            challenge_id,
            provider,
            shares,
        ),
        Request::ClaimRewards { provider, challenge_id } => claim_rewards_in_range(
            s,
            provider,
            challenge_id,
        ),
        Request::GetPendingRewards { challenge_id, provider } => position_accrual_in_range(
            s,
            challenge_id,
            provider,
        ),
        Request::UpdateChallengeRewardIndex {
            challenge_id,
        } => update_challenge_reward_index_in_range(
            s,
            challenge_id,
        ),
        Request::FileDispute { disputer, challenge_id, stake, .. } => file_dispute_in_range(
            s,
            disputer,
            challenge_id,
            stake,
        ),
        Request::ResolveDispute { challenge_id, disputer, successful } => resolve_dispute_in_range(
            s,
            challenge_id,
            disputer,
            successful,
        ),
        _ => true,
    }
}

/// The market when the next request comes: time has not gone back, and what
/// was asked of the host has been done.
pub open spec fn later(s: State, timestamp: u64, sequence: u32) -> State {
    State { timestamp, sequence, actions: Seq::empty(), ..s }
}

/// A request, and when it comes.
pub struct Visit {
    pub timestamp: u64,
    pub sequence: u32,
    pub request: Request,
}

/// What a visit comes to.
pub open spec fn visited(s: State, visit: Visit) -> State {
    served(later(s, visit.timestamp, visit.sequence), visit.request).0
}

/// A visit comes no earlier than the one before, its numbers are in range, and
/// it does not set up a market that challenges were created in already.
pub open spec fn orderly(s: State, visit: Visit) -> bool {
    &&& s.timestamp <= visit.timestamp
    &&& s.sequence <= visit.sequence
    &&& in_range(later(s, visit.timestamp, visit.sequence), visit.request)
    &&& visit.request is Initialize && s.admin is None ==> s.next_challenge_id is None
}

/// What visits come to, one after the other.
pub open spec fn after_visits(s: State, visits: Seq<Visit>) -> State
    decreases visits.len(),
{
    if visits.len() == 0 {
        s
    } else {
        visited(after_visits(s, visits.drop_last()), visits.last())
    }
}

/// Each visit is orderly in the market that it comes to.
pub open spec fn all_orderly(s: State, visits: Seq<Visit>) -> bool
    decreases visits.len(),
{
    visits.len() > 0 ==> all_orderly(s, visits.drop_last()) && orderly(
        after_visits(s, visits.drop_last()),
        visits.last(),
    )
}

} // verus!
