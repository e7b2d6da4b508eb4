//! What a market never takes back.

use vstd::prelude::*;

use crate::challenges::next_challenge_id;
use crate::challenges::next_template_id;
use crate::context::State;
use crate::requests::after_visits;
use crate::requests::all_orderly;
use crate::requests::in_range;
use crate::requests::later;
use crate::requests::served;
use crate::requests::Request;
use crate::requests::Visit;
use crate::soundness::law_visits_keep_markets_sound;
use crate::soundness::lemma_placement_sound;
use crate::soundness::lemma_settlement_sound;
use crate::soundness::sound;
use crate::staking::claim_in_range;
use crate::staking::claims_in_range;
use crate::staking::claims_paid_in_turn;
use crate::staking::placement;
use crate::staking::refund_in_range;
use crate::staking::repayment;
use crate::staking::settlement;
use crate::staking::stake_in_range;
use crate::staking::stakes_in_range;
use crate::staking::stakes_placed_in_turn;
use crate::types::Action;
use crate::types::Address;
use crate::types::ChallengeTemplateView;
use crate::types::ChallengeView;
use crate::types::DisputeView;
use crate::types::Stake;

verus! {

/// What a challenge can become: its terms stay as they are, its pools only
/// grow, it stays resolved or cancelled once it is, and then its pools stay as
/// they are too.
pub open spec fn challenge_follows(before: ChallengeView, after: ChallengeView) -> bool {
    &&& after == (ChallengeView {
        pool_yes: after.pool_yes,
        pool_no: after.pool_no,
        resolved: after.resolved,
        cancelled: after.cancelled,
        outcome_yes: after.outcome_yes,
        additional_tokens: after.additional_tokens,
        ..before
    })
    &&& before.pool_yes <= after.pool_yes
    &&& before.pool_no <= after.pool_no
    &&& before.resolved ==> after.resolved
    &&& before.cancelled ==> after.cancelled
    &&& before.finalized() ==> {
        &&& after.pool_yes == before.pool_yes
        &&& after.pool_no == before.pool_no
        &&& after.resolved == before.resolved
        &&& after.cancelled == before.cancelled
        &&& after.additional_tokens == before.additional_tokens
    }
    &&& before.cancelled ==> after == before
}

/// What a stake can become: its amounts only grow, it vests as it did, and
/// what was paid of it stays paid.
pub open spec fn stake_follows(before: Stake, after: Stake) -> bool {
    &&& after.token == before.token
    &&& after.vesting_start == before.vesting_start
    &&& after.vesting_duration == before.vesting_duration
    &&& before.is_vested ==> after.is_vested
    &&& before.yes_amount <= after.yes_amount
    &&& before.no_amount <= after.no_amount
    &&& before.claimed_yes ==> after.claimed_yes
    &&& before.claimed_no ==> after.claimed_no
}

/// What a dispute can become: decided, once.
pub open spec fn dispute_follows(before: DisputeView, after: DisputeView) -> bool {
    &&& after == (DisputeView {
        resolved: after.resolved,
        successful: after.successful,
        ..before
    })
    &&& before.resolved ==> after == before
}

/// What a template can become: used more often.
pub open spec fn template_follows(
    before: ChallengeTemplateView,
    after: ChallengeTemplateView,
) -> bool {
    &&& after == (ChallengeTemplateView { usage_count: after.usage_count, ..before })
    &&& before.usage_count <= after.usage_count
}

/// What challenges can become.
pub open spec fn challenges_follow(
    before: Map<u64, ChallengeView>,
    after: Map<u64, ChallengeView>,
) -> bool {
    forall|id: u64| #[trigger]
        before.contains_key(id) ==> after.contains_key(id) && challenge_follows(
            before[id],
            after[id],
        )
}

/// What stakes can become.
pub open spec fn stakes_follow(
    before: Map<(u64, Address), Stake>,
    after: Map<(u64, Address), Stake>,
) -> bool {
    forall|key: (u64, Address)| #[trigger]
        before.contains_key(key) ==> after.contains_key(key) && stake_follows(
            before[key],
            after[key],
        )
}

/// What disputes can become.
pub open spec fn disputes_follow(
    before: Map<(u64, Address), DisputeView>,
    after: Map<(u64, Address), DisputeView>,
) -> bool {
    forall|key: (u64, Address)| #[trigger]
        before.contains_key(key) ==> after.contains_key(key) && dispute_follows(
            before[key],
            after[key],
        )
}

/// What templates can become.
pub open spec fn templates_follow(
    before: Map<(u64, Address), ChallengeTemplateView>,
    after: Map<(u64, Address), ChallengeTemplateView>,
) -> bool {
    forall|key: (u64, Address)| #[trigger]
        before.contains_key(key) ==> after.contains_key(key) && template_follows(
            before[key],
            after[key],
        )
}

/// What was said stays on record as it was said.
pub open spec fn stays_on_record<K, V>(before: Map<K, V>, after: Map<K, V>) -> bool {
    forall|key: K| #[trigger]
        before.contains_key(key) ==> after.contains_key(key) && after[key] == before[key]
}

/// What a market can become.
pub open spec fn follows(s: State, t: State) -> bool {
    &&& t.contract == s.contract
    &&& s.timestamp <= t.timestamp
    &&& s.sequence <= t.sequence
    &&& s.admin is Some ==> t.admin == s.admin
    &&& next_challenge_id(s) <= next_challenge_id(t)
    &&& next_template_id(s) <= next_template_id(t)
    &&& challenges_follow(s.challenges, t.challenges)
    &&& stakes_follow(s.stakes, t.stakes)
    &&& disputes_follow(s.disputes, t.disputes)
    &&& stays_on_record(s.oracle_submissions, t.oracle_submissions)
    &&& stays_on_record(s.oracle_results, t.oracle_results)
    &&& templates_follow(s.templates, t.templates)
    &&& stays_on_record(s.creator_reputations, t.creator_reputations)
}

/// The outcome of a challenge that is resolved is what it was.
pub open spec fn outcomes_kept(
    before: Map<u64, ChallengeView>,
    after: Map<u64, ChallengeView>,
) -> bool {
    forall|id: u64| #[trigger]
        before.contains_key(id) && before[id].resolved ==> after.contains_key(id)
            && after[id].outcome_yes == before[id].outcome_yes
}

/// A dispute is decided for the disputer.
pub open spec fn overturns(request: Request) -> bool {
    request matches Request::ResolveDispute { successful, .. } && successful
}

/// What follows what follows a market follows the market.
proof fn lemma_follows_transitive(s: State, t: State, u: State)
    requires
        follows(s, t),
        follows(t, u),
    ensures
        follows(s, u),
{
}

/// A request about the settings takes nothing back.
#[verifier::rlimit(50)]
proof fn lemma_setting_requests_follow(s: State, request: Request)
    requires
        sound(s),
        in_range(s, request),
        request is Initialize || request is SetOracleRelayer || request is SetProtocolFee
            || request is Pause || request is Unpause || request is SetMinStake
            || request is AddTokenToWhitelist || request is RemoveTokenFromWhitelist
            || request is SetUserVesting || request is SetSelfVesting || request is CollectFees
            || request is ClearFlashLoanFlag,
        request is Initialize && s.admin is None ==> s.next_challenge_id is None,
    ensures
        follows(s, served(s, request).0),
        outcomes_kept(s.challenges, served(s, request).0.challenges),
{
}

/// A request about challenges takes nothing back.
#[verifier::rlimit(50)]
proof fn lemma_challenge_requests_follow(s: State, request: Request)
    requires
        sound(s),
        in_range(s, request),
        request is CreateChallenge || request is CreateTemplate || request is CreateFromTemplate
            || request is ResolveNative || request is ResolveViaOracle
            || request is CancelChallenge || request is ExpireChallenge
            || request is AddChallengeToken || request is AggregateOracleOutcomes
            || request is CleanupOldChallenges,
    ensures
        follows(s, served(s, request).0),
        outcomes_kept(s.challenges, served(s, request).0.challenges),
{
}

/// A request about relayers, liquidity or disputes takes nothing back.
#[verifier::rlimit(50)]
proof fn lemma_other_requests_follow(s: State, request: Request)
    requires
        sound(s),
        in_range(s, request),
        request is AddRelayer || request is RemoveRelayer || request is SetQuorumSize
            || request is SlashRelayer || request is SubmitOracleOutcome || request is AddLiquidity
            || request is RemoveLiquidity || request is ClaimRewards
            || request is GetPendingRewards || request is UpdateChallengeRewardIndex
            || request is FileDispute || request is ResolveDispute,
    ensures
        follows(s, served(s, request).0),
        !overturns(request) ==> outcomes_kept(s.challenges, served(s, request).0.challenges),
{
}

/// What is asked of the host is not part of what is kept.
proof fn lemma_follows_asking(s: State, action: Action, t: State)
    requires
        follows(s.asking(action), t),
        outcomes_kept(s.asking(action).challenges, t.challenges),
    ensures
        follows(s, t),
        outcomes_kept(s.challenges, t.challenges),
{
}

/// A stake takes nothing back.
proof fn lemma_placement_follows(
    s: State,
    who: Address,
    challenge_id: u64,
    side_yes: bool,
    amount: i128,
)
    requires
        sound(s),
        stake_in_range(s, who, challenge_id, side_yes, amount),
    ensures
        follows(s, placement(s, who, challenge_id, side_yes, amount).0),
        outcomes_kept(s.challenges, placement(s, who, challenge_id, side_yes, amount).0.challenges),
{
}

/// A claim takes nothing back.
proof fn lemma_settlement_follows(s: State, who: Address, challenge_id: u64)
    requires
        sound(s),
        claim_in_range(s, who, challenge_id),
    ensures
        follows(s, settlement(s, who, challenge_id).0),
        outcomes_kept(s.challenges, settlement(s, who, challenge_id).0.challenges),
{
}

/// A refund takes nothing back.
proof fn lemma_repayment_follows(s: State, who: Address, challenge_id: u64)
    requires
        sound(s),
        refund_in_range(s, who, challenge_id),
    ensures
        follows(s, repayment(s, who, challenge_id).0),
        outcomes_kept(s.challenges, repayment(s, who, challenge_id).0.challenges),
{
}

/// Several stakes take nothing back.
proof fn lemma_stakes_follow(s: State, who: Address, stakes: Seq<(u64, bool, i128)>)
    requires
        sound(s),
        stakes_in_range(s, who, stakes),
    ensures
        follows(s, stakes_placed_in_turn(s, who, stakes).0),
        outcomes_kept(s.challenges, stakes_placed_in_turn(s, who, stakes).0.challenges),
    decreases stakes.len(),
{
    if stakes.len() > 0 {
        let (challenge_id, side_yes, amount) = stakes[0];
        let (after, result) = placement(s, who, challenge_id, side_yes, amount);
        lemma_placement_follows(s, who, challenge_id, side_yes, amount);
        lemma_placement_sound(s, who, challenge_id, side_yes, amount);
        if result is Ok {
            lemma_stakes_follow(after, who, stakes.skip(1));
            lemma_follows_transitive(s, after, stakes_placed_in_turn(s, who, stakes).0);
        }
    }
}

/// Several claims take nothing back.
proof fn lemma_claims_follow(s: State, who: Address, challenge_ids: Seq<u64>)
    requires
        sound(s),
        claims_in_range(s, who, challenge_ids),
    ensures
        follows(s, claims_paid_in_turn(s, who, challenge_ids).0),
        outcomes_kept(s.challenges, claims_paid_in_turn(s, who, challenge_ids).0.challenges),
    decreases challenge_ids.len(),
{
    if challenge_ids.len() > 0 {
        let (after, result) = settlement(s, who, challenge_ids[0]);
        lemma_settlement_follows(s, who, challenge_ids[0]);
        lemma_settlement_sound(s, who, challenge_ids[0]);
        if result is Ok {
            lemma_claims_follow(after, who, challenge_ids.skip(1));
            lemma_follows_transitive(s, after, claims_paid_in_turn(s, who, challenge_ids).0);
        }
    }
}

/// A request about stakes takes nothing back, and no outcome either.
#[verifier::rlimit(50)]
proof fn lemma_staking_requests_follow(s: State, request: Request)
    requires
        sound(s),
        in_range(s, request),
        request is Stake || request is BatchStake || request is Claim || request is BatchClaim
            || request is Refund,
    ensures
        follows(s, served(s, request).0),
        outcomes_kept(s.challenges, served(s, request).0.challenges),
{
    let t = served(s, request).0;
    match request {
        Request::Stake { who, challenge_id, side_yes, amount } => {
            let asked = s.asking(Action::RequireAuth(who));
            lemma_placement_follows(asked, who, challenge_id, side_yes, amount);
            lemma_follows_asking(s, Action::RequireAuth(who), t);
        },
        Request::BatchStake { who, stakes } => {
            if !s.is_paused() {
                lemma_stakes_follow(s.asking(Action::RequireAuth(who)), who, stakes);
                lemma_follows_asking(s, Action::RequireAuth(who), t);
            }
        },
        Request::Claim { who, challenge_id } => {
            lemma_settlement_follows(s.asking(Action::RequireAuth(who)), who, challenge_id);
            lemma_follows_asking(s, Action::RequireAuth(who), t);
        },
        Request::BatchClaim { who, challenge_ids } => {
            lemma_claims_follow(s.asking(Action::RequireAuth(who)), who, challenge_ids);
            lemma_follows_asking(s, Action::RequireAuth(who), t);
        },
        Request::Refund { who, challenge_id } => {
            lemma_repayment_follows(s.asking(Action::RequireAuth(who)), who, challenge_id);
            lemma_follows_asking(s, Action::RequireAuth(who), t);
        },
        _ => {},
    }
}

/// No request takes anything back, and only one takes back an outcome.
#[verifier::rlimit(50)]
proof fn lemma_requests_follow(s: State, request: Request)
    requires
        sound(s),
        in_range(s, request),
        request is Initialize && s.admin is None ==> s.next_challenge_id is None,
    ensures
        follows(s, served(s, request).0),
        !overturns(request) ==> outcomes_kept(s.challenges, served(s, request).0.challenges),
{
    match request {
        Request::Initialize { .. }
        | Request::SetOracleRelayer { .. }
        | Request::SetProtocolFee { .. }
        | Request::Pause
        | Request::Unpause
        | Request::SetMinStake { .. }
        | Request::AddTokenToWhitelist { .. }
        | Request::RemoveTokenFromWhitelist { .. }
        | Request::SetUserVesting { .. }
        | Request::SetSelfVesting { .. }
        | Request::CollectFees { .. }
        | Request::ClearFlashLoanFlag { .. } => {
            lemma_setting_requests_follow(s, request);
        },
        Request::CreateChallenge { .. }
        | Request::CreateTemplate { .. }
        | Request::CreateFromTemplate { .. }
        | Request::ResolveNative { .. }
        | Request::ResolveViaOracle { .. }
        | Request::CancelChallenge { .. }
        | Request::ExpireChallenge { .. }
        | Request::AddChallengeToken { .. }
        | Request::AggregateOracleOutcomes { .. }
        | Request::CleanupOldChallenges { .. } => {
            lemma_challenge_requests_follow(s, request);
        },
        Request::Stake { .. }
        | Request::BatchStake { .. }
        | Request::Claim { .. }
        | Request::BatchClaim { .. }
        | Request::Refund { .. } => {
            lemma_staking_requests_follow(s, request);
        },
        _ => {
            lemma_other_requests_follow(s, request);
        },
    }
}

/// No request takes anything back: challenges, stakes, disputes, templates, what
/// the relayers said and the score that a creator had stay on record, terms stay as they are, amounts
/// only grow, what is resolved, cancelled, paid or decided stays so, and the
/// pools of a challenge that is over do not change.
pub proof fn law_requests_take_nothing_back(s: State, request: Request)
    requires
        sound(s),
        in_range(s, request),
        request is Initialize && s.admin is None ==> s.next_challenge_id is None,
    ensures
        follows(s, served(s, request).0),
{
    lemma_requests_follow(s, request);
}

/// A market never takes anything back, whatever is asked of it.
pub proof fn law_markets_take_nothing_back(s: State, visits: Seq<Visit>)
    requires
        sound(s),
        all_orderly(s, visits),
    ensures
        follows(s, after_visits(s, visits)),
    decreases visits.len(),
{
    if visits.len() > 0 {
        law_markets_take_nothing_back(s, visits.drop_last());
        law_visits_keep_markets_sound(s, visits.drop_last());
        let before = after_visits(s, visits.drop_last());
        let visit = visits.last();
        let start = later(before, visit.timestamp, visit.sequence);
        law_requests_take_nothing_back(start, visit.request);
        lemma_follows_transitive(s, before, start);
        lemma_follows_transitive(s, start, after_visits(s, visits));
    }
}

/// Only a dispute that is decided for the disputer changes the outcome of a
/// challenge that is resolved.
pub proof fn law_only_disputes_change_outcomes(s: State, request: Request)
    requires
        sound(s),
        in_range(s, request),
        request is Initialize && s.admin is None ==> s.next_challenge_id is None,
        !overturns(request),
    ensures
        outcomes_kept(s.challenges, served(s, request).0.challenges),
{
    lemma_requests_follow(s, request);
}

} // verus!
