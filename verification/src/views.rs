//! What the market's values are taken for: their fields, their numbers and
//! their names.

use vstd::prelude::*;

use crate::context::Context;
use crate::types::AuditLogEntry;
use crate::types::Challenge;
use crate::types::ChallengeTemplate;
use crate::types::Dispute;
use crate::types::Error;
use crate::types::Event;

verus! {

/// The state shows everything that the context keeps, each thing under its own
/// name.
pub proof fn law_states_show_what_is_kept(ctx: Context)
    ensures
        ctx@.contract == ctx.contract,
        ctx@.timestamp == ctx.timestamp,
        ctx@.sequence == ctx.sequence,
        ctx@.actions == ctx.actions@,
        ctx@.admin == ctx.admin,
        ctx@.oracle_relayer == ctx.oracle_relayer,
        ctx@.next_challenge_id == ctx.next_challenge_id,
        ctx@.protocol_fee_bps == ctx.protocol_fee_bps,
        ctx@.relayer_quorum == ctx.relayer_quorum,
        ctx@.relayer_slash_counts == ctx.relayer_slash_counts@,
        ctx@.paused == ctx.paused,
        ctx@.min_stake == ctx.min_stake,
        ctx@.token_whitelist == ctx.token_whitelist@,
        ctx@.fee_balances == ctx.fee_balances@,
        ctx@.user_vesting == ctx.user_vesting@,
        ctx@.challenge_creation_counts == ctx.challenge_creation_counts@,
        ctx@.stake_counts == ctx.stake_counts@,
        ctx@.dispute_filing_counts == ctx.dispute_filing_counts@,
        ctx@.last_withdrawals == ctx.last_withdrawals@,
        ctx@.flash_loan_flags == ctx.flash_loan_flags@,
        ctx@.template_counts == ctx.template_counts@,
        ctx@.next_template_id == ctx.next_template_id,
        ctx@.challenges == ctx.challenges@,
        ctx@.stakes == ctx.stakes@,
        ctx@.challenge_stats == ctx.challenge_stats@,
        ctx@.challenge_categories == ctx.challenge_categories@,
        ctx@.disputes == ctx.disputes@,
        ctx@.dispute_counts == ctx.dispute_counts@,
        ctx@.multi_token_pools == ctx.multi_token_pools@,
        ctx@.liquidity_positions == ctx.liquidity_positions@,
        ctx@.total_liquidity == ctx.total_liquidity@,
        ctx@.oracle_submissions == ctx.oracle_submissions@,
        ctx@.oracle_results == ctx.oracle_results@,
        ctx@.audit_log == ctx.audit_log@,
        ctx@.audit_log_counts == ctx.audit_log_counts@,
        ctx@.reward_accruals == ctx.reward_accruals@,
        ctx@.reward_indices == ctx.reward_indices@,
        ctx@.templates == ctx.templates@,
        ctx@.reputations == ctx.reputations@,
        ctx@.creator_reputations == ctx.creator_reputations@,
        ctx.relayer_set is None <==> ctx@.relayer_set is None,
        ctx.relayer_set is Some ==> ctx@.relayer_set->0 == ctx.relayer_set->0@,
{
}

/// Challenges, log entries, templates and disputes show every field, texts and
/// lists by what they hold.
pub proof fn law_values_show_their_fields(
    challenge: Challenge,
    entry: AuditLogEntry,
    template: ChallengeTemplate,
    dispute: Dispute,
)
    ensures
        challenge@.id == challenge.id,
        challenge@.creator == challenge.creator,
        challenge@.description == challenge.description@,
        challenge@.condition == challenge.condition,
        challenge@.resolve_ledger_seq == challenge.resolve_ledger_seq,
        challenge@.created_timestamp == challenge.created_timestamp,
        challenge@.staking_deadline_seq == challenge.staking_deadline_seq,
        challenge@.token == challenge.token,
        challenge@.pool_yes == challenge.pool_yes,
        challenge@.pool_no == challenge.pool_no,
        challenge@.resolved == challenge.resolved,
        challenge@.cancelled == challenge.cancelled,
        challenge@.outcome_yes == challenge.outcome_yes,
        challenge@.expiry_seq == challenge.expiry_seq,
        challenge@.additional_tokens == challenge.additional_tokens@,
        entry@.entry_id == entry.entry_id,
        entry@.challenge_id == entry.challenge_id,
        entry@.action_type == entry.action_type@,
        entry@.actor == entry.actor,
        entry@.timestamp == entry.timestamp,
        entry@.details == entry.details@,
        template@.template_id == template.template_id,
        template@.creator == template.creator,
        template@.description_template == template.description_template@,
        template@.condition == template.condition,
        template@.resolve_ledger_offset == template.resolve_ledger_offset,
        template@.staking_deadline_offset == template.staking_deadline_offset,
        template@.token == template.token,
        template@.category == template.category@,
        template@.created_at == template.created_at,
        template@.usage_count == template.usage_count,
        dispute@.challenge_id == dispute.challenge_id,
        dispute@.disputer == dispute.disputer,
        dispute@.disputed_outcome == dispute.disputed_outcome,
        dispute@.evidence == dispute.evidence@,
        dispute@.stake == dispute.stake,
        dispute@.resolved == dispute.resolved,
        dispute@.successful == dispute.successful,
        dispute@.created_at == dispute.created_at,
{
}

/// Every error is reported by its own number.
pub proof fn law_errors_have_numbers_of_their_own(error: Error, other: Error)
    ensures
        error.number() == other.number() ==> error == other,
        error.number() == 1 <==> error is AlreadyInitialized,
        error.number() == 2 <==> error is NotInitialized,
        error.number() == 3 <==> error is NotAuthorized,
        error.number() == 4 <==> error is ChallengeNotFound,
        error.number() == 5 <==> error is StakingClosed,
        error.number() == 6 <==> error is TooEarlyToResolve,
        error.number() == 7 <==> error is AlreadyFinalized,
        error.number() == 8 <==> error is NotResolved,
        error.number() == 9 <==> error is NoStake,
        error.number() == 10 <==> error is AlreadyClaimed,
        error.number() == 11 <==> error is NothingWon,
        error.number() == 12 <==> error is InvalidAmount,
        error.number() == 13 <==> error is WrongConditionForResolutionPath,
        error.number() == 14 <==> error is InvalidLedgerSequence,
        error.number() == 15 <==> error is AmountBelowMinimum,
        error.number() == 16 <==> error is AlreadyCancelled,
        error.number() == 17 <==> error is CannotCancel,
        error.number() == 18 <==> error is ContractPaused,
        error.number() == 19 <==> error is TokenNotWhitelisted,
        error.number() == 20 <==> error is InsufficientQuorum,
        error.number() == 21 <==> error is RelayerNotAuthorized,
        error.number() == 22 <==> error is DuplicateSubmission,
        error.number() == 23 <==> error is ChallengeExpired,
        error.number() == 24 <==> error is InvalidExpirySequence,
        error.number() == 25 <==> error is RelayerSlashed,
        error.number() == 26 <==> error is CannotSlashRelayer,
        error.number() == 27 <==> error is StakeStillVesting,
        error.number() == 28 <==> error is InvalidVestingDuration,
        error.number() == 29 <==> error is DisputeWindowClosed,
        error.number() == 30 <==> error is InsufficientDisputeStake,
        error.number() == 31 <==> error is DisputeAlreadyExists,
        error.number() == 32 <==> error is NotDisputed,
        error.number() == 33 <==> error is DisputeAlreadyResolved,
        error.number() == 34 <==> error is RateLimitExceeded,
        error.number() == 35 <==> error is TokenNotSupported,
        error.number() == 36 <==> error is InsufficientLiquidity,
        error.number() == 37 <==> error is InvalidLiquidityAmount,
        error.number() == 38 <==> error is OracleNotAuthorized,
        error.number() == 39 <==> error is InsufficientOracleSubmissions,
        error.number() == 40 <==> error is OracleAlreadySubmitted,
        error.number() == 41 <==> error is FlashLoanDetected,
        error.number() == 42 <==> error is CooldownNotElapsed,
        error.number() == 43 <==> error is AuditLogFull,
        error.number() == 44 <==> error is NoPendingRewards,
        error.number() == 45 <==> error is TemplateNotFound,
        error.number() == 46 <==> error is TooManyTemplates,
        error.number() == 47 <==> error is ReputationTooLow,
{
}

/// Every event is published under its name, the removal and the slashing of a
/// relayer under one, and says which challenge it is about, or which template
/// where one is used.
pub proof fn law_events_have_their_names(event: Event)
    ensures
        event is Created ==> event.name() == "created"@,
        event is Staked ==> event.name() == "staked"@,
        event is Resolved ==> event.name() == "resolved"@,
        event is Claimed ==> event.name() == "claimed"@,
        event is Cancelled ==> event.name() == "cancelled"@,
        event is Refunded ==> event.name() == "refunded"@,
        event is Paused ==> event.name() == "paused"@,
        event is Unpaused ==> event.name() == "unpaused"@,
        event is FeeCollected ==> event.name() == "fee_coll"@,
        event is RelayerAdded ==> event.name() == "rel_add"@,
        event is RelayerRemoved ==> event.name() == "rel_rem"@,
        event is RelayerSlashed ==> event.name() == "rel_rem"@,
        event is VestingConfigured ==> event.name() == "vest_cfg"@,
        event is OddsUpdated ==> event.name() == "odds_upd"@,
        event is DisputeCreated ==> event.name() == "disp_cre"@,
        event is DisputeResolved ==> event.name() == "disp_res"@,
        event is LiquidityAdded ==> event.name() == "liq_add"@,
        event is LiquidityRemoved ==> event.name() == "liq_rem"@,
        event is OracleSubmitted ==> event.name() == "ora_sub"@,
        event is OracleAggregated ==> event.name() == "ora_agg"@,
        event is FlashLoanDetected ==> event.name() == "flash_det"@,
        event is RewardClaimed ==> event.name() == "rew_clm"@,
        event is TemplateCreated ==> event.name() == "tmpl_cre"@,
        event is TemplateUsed ==> event.name() == "tmpl_use"@,
        event is ReputationUpdated ==> event.name() == "rep_upd"@,
        event is Created ==> event.about() == Some(event->Created_challenge_id),
        event is Staked ==> event.about() == Some(event->Staked_challenge_id),
        event is Resolved ==> event.about() == Some(event->Resolved_challenge_id),
        event is Claimed ==> event.about() == Some(event->Claimed_challenge_id),
        event is Cancelled ==> event.about() == Some(event->Cancelled_challenge_id),
        event is Refunded ==> event.about() == Some(event->Refunded_challenge_id),
        event is OddsUpdated ==> event.about() == Some(event->OddsUpdated_challenge_id),
        event is DisputeCreated ==> event.about() == Some(event->DisputeCreated_challenge_id),
        event is DisputeResolved ==> event.about() == Some(event->DisputeResolved_challenge_id),
        event is LiquidityAdded ==> event.about() == Some(event->LiquidityAdded_challenge_id),
        event is LiquidityRemoved ==> event.about() == Some(event->LiquidityRemoved_challenge_id),
        event is OracleSubmitted ==> event.about() == Some(event->OracleSubmitted_challenge_id),
        event is OracleAggregated ==> event.about() == Some(event->OracleAggregated_challenge_id),
        event is RewardClaimed ==> event.about() == Some(event->RewardClaimed_challenge_id),
        event is TemplateUsed ==> event.about() == Some(event->TemplateUsed_template_id),
        event is Paused ==> event.about() is None,
        event is Unpaused ==> event.about() is None,
        event is FeeCollected ==> event.about() is None,
        event is RelayerAdded ==> event.about() is None,
        event is RelayerRemoved ==> event.about() is None,
        event is RelayerSlashed ==> event.about() is None,
        event is VestingConfigured ==> event.about() is None,
        event is FlashLoanDetected ==> event.about() is None,
        event is TemplateCreated ==> event.about() is None,
        event is ReputationUpdated ==> event.about() is None,
{
}

} // verus!
