//! What users are held to, and what they can count on finding.

use vstd::prelude::*;

use crate::challenges::create_challenge_in_range;
use crate::challenges::create_challenge_step;
use crate::challenges::create_from_template_in_range;
use crate::challenges::create_from_template_step;
use crate::challenges::next_challenge_id;
use crate::context::State;
use crate::context::empty_state;
use crate::disputes::resolve_dispute_step;
use crate::guards::cooling_down;
use crate::guards::rate_counted;
use crate::guards::rate_limited;
use crate::guards::times_acted;
use crate::guards::token_barred;
use crate::guards::window_start;
use crate::history::follows;
use crate::liquidity::add_liquidity_in_range;
use crate::liquidity::add_liquidity_step;
use crate::liquidity::claim_rewards_in_range;
use crate::liquidity::claim_rewards_step;
use crate::liquidity::get_pending_rewards_step;
use crate::liquidity::holds_shares;
use crate::liquidity::index_increment;
use crate::liquidity::index_moved;
use crate::liquidity::new_rewards;
use crate::liquidity::position_accrual_in_range;
use crate::liquidity::position_or_blank;
use crate::liquidity::remove_liquidity_in_range;
use crate::liquidity::remove_liquidity_step;
use crate::liquidity::reward_index;
use crate::liquidity::share_value;
use crate::liquidity::total_liquidity;
use crate::liquidity::update_challenge_reward_index_in_range;
use crate::liquidity::update_challenge_reward_index_step;
use crate::params::FLASH_LOAN_COOLDOWN;
use crate::params::FLASH_LOAN_THRESHOLD;
use crate::params::MAX_CHALLENGES_PER_WINDOW;
use crate::params::MAX_DISPUTES_PER_WINDOW;
use crate::params::MAX_SLASH_COUNT;
use crate::params::MAX_STAKES_PER_WINDOW;
use crate::payouts::quotient;
use crate::queries::Filter;
use crate::queries::at_most;
use crate::queries::beyond;
use crate::queries::descending;
use crate::queries::matches_beyond;
use crate::queries::meets;
use crate::queries::passed_over;
use crate::queries::selection;
use crate::relayers::aggregate_oracle_outcomes_step;
use crate::relayers::quorum_size;
use crate::relayers::relayers;
use crate::relayers::slash_count;
use crate::relayers::slash_relayer_step;
use crate::relayers::submit_oracle_outcome_step;
use crate::relayers::vote_count;
use crate::requests::Request;
use crate::requests::Visit;
use crate::requests::after_visits;
use crate::requests::all_orderly;
use crate::requests::later;
use crate::requests::served;
use crate::settings::collect_fees_step;
use crate::settings::whitelist_step;
use crate::soundness::law_every_market_is_sound;
use crate::soundness::law_requests_keep_markets_sound;
use crate::soundness::lemma_votes_at_most_relayers;
use crate::soundness::provided_total;
use crate::soundness::sound;
use crate::staking::claim_fee;
use crate::staking::claim_in_range;
use crate::staking::claim_refusal;
use crate::staking::claim_step;
use crate::staking::claims_paid_in_turn;
use crate::staking::fee_balance;
use crate::staking::placement;
use crate::staking::settlement;
use crate::staking::stakes_placed_in_turn;
use crate::staking::still_vesting;
use crate::types::Action;
use crate::types::Address;
use crate::types::Condition;
use crate::types::Error;
use crate::types::Event;

verus! {

/// The counts after a user has acted at some times, one after the other.
pub open spec fn counted_at(
    counts: Map<(Address, u64), (u64, u32)>,
    user: Address,
    times: Seq<u64>,
) -> Map<(Address, u64), (u64, u32)>
    decreases times.len(),
{
    if times.len() == 0 {
        counts
    } else {
        rate_counted(counted_at(counts, user, times.drop_last()), user, times.last())
    }
}

/// A user who has not acted in a window of time yet can act as often as is
/// allowed in it and no more often, whenever in the window that is. Nobody
/// else's limit is touched, and no other window.
pub proof fn law_rate_limit_admits_so_many(
    counts: Map<(Address, u64), (u64, u32)>,
    user: Address,
    times: Seq<u64>,
    now: u64,
    max_count: u32,
)
    requires
        times_acted(counts, user, now) == 0,
        forall|i: int|
            0 <= i < times.len() ==> window_start(#[trigger] times[i]) == window_start(now),
        times.len() <= max_count,
    ensures
        times_acted(counted_at(counts, user, times), user, now) == times.len(),
        rate_limited(counted_at(counts, user, times), user, now, max_count) <==> times.len()
            == max_count,
        forall|other: Address, moment: u64|
            other != user || window_start(moment) != window_start(now) ==> #[trigger] times_acted(
                counted_at(counts, user, times),
                other,
                moment,
            ) == times_acted(counts, other, moment),
    decreases times.len(),
{
    if times.len() > 0 {
        let earlier = times.drop_last();
        assert forall|i: int| 0 <= i < earlier.len() implies window_start(#[trigger] earlier[i])
            == window_start(now) by {
            assert(earlier[i] == times[i]);
        }
        law_rate_limit_admits_so_many(counts, user, earlier, now, max_count);
        assert(window_start(times[times.len() - 1]) == window_start(now));
        assert forall|other: Address, moment: u64|
            other != user || window_start(moment) != window_start(
                now,
            ) implies #[trigger] times_acted(counted_at(counts, user, times), other, moment)
            == times_acted(counts, other, moment) by {
            assert(times_acted(counted_at(counts, user, earlier), other, moment) == times_acted(
                counts,
                other,
                moment,
            ));
        }
    }
}

/// A stake, a new challenge or a dispute counts against the user's limit if it
/// is served, and is refused for it exactly where the limit is reached, unless
/// the market is paused or the token barred.
pub proof fn law_actions_are_limited(s: State, request: Request)
    requires
        request is Stake || request is CreateChallenge || request is FileDispute,
        !s.is_paused(),
        request matches Request::CreateChallenge { token, .. } ==> !token_barred(s, token),
    ensures
        ({
            let (t, error) = served(s, request);
            let (before, after, user, max_count) = match request {
                Request::Stake { who, .. } => (
                    s.stake_counts,
                    t.stake_counts,
                    who,
                    MAX_STAKES_PER_WINDOW,
                ),
                Request::CreateChallenge { creator, .. } => (
                    s.challenge_creation_counts,
                    t.challenge_creation_counts,
                    creator,
                    MAX_CHALLENGES_PER_WINDOW,
                ),
                Request::FileDispute { disputer, .. } => (
                    s.dispute_filing_counts,
                    t.dispute_filing_counts,
                    disputer,
                    MAX_DISPUTES_PER_WINDOW,
                ),
                _ => (s.stake_counts, t.stake_counts, s.contract, 0),
            };
            &&& error == Some(Error::RateLimitExceeded) <==> rate_limited(
                before,
                user,
                s.timestamp,
                max_count,
            )
            &&& error is None ==> after == rate_counted(before, user, s.timestamp)
        }),
{
}

/// The actions that a user can take only so often in a window of time.
pub enum Limited {
    Challenges,
    Stakes,
    Disputes,
}

/// What has been counted of an action.
pub open spec fn counts_of(s: State, kind: Limited) -> Map<(Address, u64), (u64, u32)> {
    match kind {
        Limited::Challenges => s.challenge_creation_counts,
        Limited::Stakes => s.stake_counts,
        Limited::Disputes => s.dispute_filing_counts,
    }
}

/// How often a user can take an action in a window of time.
pub open spec fn most_of(kind: Limited) -> u32 {
    match kind {
        Limited::Challenges => MAX_CHALLENGES_PER_WINDOW,
        Limited::Stakes => MAX_STAKES_PER_WINDOW,
        Limited::Disputes => MAX_DISPUTES_PER_WINDOW,
    }
}

/// The request is that a user takes an action once.
pub open spec fn takes(request: Request, kind: Limited, user: Address) -> bool {
    match kind {
        Limited::Challenges => request matches Request::CreateChallenge { creator, .. } && creator
            == user,
        Limited::Stakes => request matches Request::Stake { who, .. } && who == user,
        Limited::Disputes => request matches Request::FileDispute { disputer, .. } && disputer
            == user,
    }
}

/// How often a user was let take an action in the window of time that a moment
/// lies in.
pub open spec fn times_let(
    s: State,
    visits: Seq<Visit>,
    kind: Limited,
    user: Address,
    moment: u64,
) -> nat
    decreases visits.len(),
{
    if visits.len() == 0 {
        0
    } else {
        let earlier = visits.drop_last();
        let visit = visits.last();
        let before = later(after_visits(s, earlier), visit.timestamp, visit.sequence);
        times_let(s, earlier, kind, user, moment) + if takes(visit.request, kind, user)
            && window_start(visit.timestamp) == window_start(moment) && served(
            before,
            visit.request,
        ).1 is None {
            1nat
        } else {
            0
        }
    }
}

/// One more stake in a window of time, or none.
proof fn lemma_placement_counts(
    s: State,
    who: Address,
    challenge_id: u64,
    side_yes: bool,
    amount: i128,
    user: Address,
    moment: u64,
)
    requires
        times_acted(s.stake_counts, user, moment) <= MAX_STAKES_PER_WINDOW,
    ensures
        ({
            let (t, result) = placement(s, who, challenge_id, side_yes, amount);
            let before = times_acted(s.stake_counts, user, moment);
            let after = times_acted(t.stake_counts, user, moment);
            &&& before <= after <= MAX_STAKES_PER_WINDOW
            &&& result is Ok && who == user && window_start(s.timestamp) == window_start(moment)
                ==> after == before + 1
        }),
{
}

/// Several stakes in a window of time, or none.
proof fn lemma_stakes_count(
    s: State,
    who: Address,
    stakes: Seq<(u64, bool, i128)>,
    user: Address,
    moment: u64,
)
    requires
        times_acted(s.stake_counts, user, moment) <= MAX_STAKES_PER_WINDOW,
    ensures
        times_acted(s.stake_counts, user, moment) <= times_acted(
            stakes_placed_in_turn(s, who, stakes).0.stake_counts,
            user,
            moment,
        ) <= MAX_STAKES_PER_WINDOW,
    decreases stakes.len(),
{
    if stakes.len() > 0 {
        let (challenge_id, side_yes, amount) = stakes[0];
        let (after, result) = placement(s, who, challenge_id, side_yes, amount);
        lemma_placement_counts(s, who, challenge_id, side_yes, amount, user, moment);
        if result is Ok {
            lemma_stakes_count(after, who, stakes.skip(1), user, moment);
        }
    }
}

/// Claims count against no limit.
proof fn lemma_claims_count_nothing(s: State, who: Address, challenge_ids: Seq<u64>)
    ensures
        nothing_counted(s, claims_paid_in_turn(s, who, challenge_ids).0),
    decreases challenge_ids.len(),
{
    if challenge_ids.len() > 0 {
        let (after, result) = settlement(s, who, challenge_ids[0]);
        if result is Ok {
            lemma_claims_count_nothing(after, who, challenge_ids.skip(1));
        }
    }
}

/// Nothing has been counted.
pub open spec fn nothing_counted(s: State, t: State) -> bool {
    &&& t.stake_counts == s.stake_counts
    &&& t.challenge_creation_counts == s.challenge_creation_counts
    &&& t.dispute_filing_counts == s.dispute_filing_counts
}

/// A request about settings or templates counts against no limit.
#[verifier::rlimit(50)]
proof fn lemma_settings_count_nothing(s: State, request: Request)
    requires
        request is Initialize || request is SetOracleRelayer || request is SetProtocolFee
            || request is Pause || request is Unpause || request is SetMinStake
            || request is AddTokenToWhitelist || request is RemoveTokenFromWhitelist
            || request is SetUserVesting || request is SetSelfVesting || request is CollectFees
            || request is ClearFlashLoanFlag || request is CreateTemplate
            || request is CreateFromTemplate,
    ensures
        nothing_counted(s, served(s, request).0),
{
}

/// A request that ends or keeps a challenge, or pays back, counts against no
/// limit.
#[verifier::rlimit(50)]
proof fn lemma_endings_count_nothing(s: State, request: Request)
    requires
        request is ResolveNative || request is ResolveViaOracle || request is CancelChallenge
            || request is ExpireChallenge || request is AggregateOracleOutcomes || request is Claim
            || request is Refund || request is AddChallengeToken || request is CleanupOldChallenges
            || request is ResolveDispute,
    ensures
        nothing_counted(s, served(s, request).0),
{
}

/// A request about relayers or liquidity counts against no limit.
#[verifier::rlimit(50)]
proof fn lemma_upkeep_counts_nothing(s: State, request: Request)
    requires
        request is AddRelayer || request is RemoveRelayer || request is SetQuorumSize
            || request is SlashRelayer || request is SubmitOracleOutcome || request is AddLiquidity
            || request is RemoveLiquidity || request is ClaimRewards || request is GetPendingRewards
            || request is UpdateChallengeRewardIndex,
    ensures
        nothing_counted(s, served(s, request).0),
{
}

/// How a new challenge or a dispute counts against the limits.
proof fn lemma_creation_counts(
    s: State,
    request: Request,
    kind: Limited,
    user: Address,
    moment: u64,
)
    requires
        request is CreateChallenge || request is FileDispute,
        times_acted(counts_of(s, kind), user, moment) <= most_of(kind),
    ensures
        ({
            let (t, error) = served(s, request);
            let before = times_acted(counts_of(s, kind), user, moment);
            let after = times_acted(counts_of(t, kind), user, moment);
            &&& before <= after <= most_of(kind)
            &&& error is None && takes(request, kind, user) && window_start(s.timestamp)
                == window_start(moment) ==> after == before + 1
        }),
{
}

/// How a request counts against the limits.
proof fn lemma_request_counts(
    s: State,
    request: Request,
    kind: Limited,
    user: Address,
    moment: u64,
)
    requires
        times_acted(counts_of(s, kind), user, moment) <= most_of(kind),
    ensures
        ({
            let (t, error) = served(s, request);
            let before = times_acted(counts_of(s, kind), user, moment);
            let after = times_acted(counts_of(t, kind), user, moment);
            &&& before <= after <= most_of(kind)
            &&& error is None && takes(request, kind, user) && window_start(s.timestamp)
                == window_start(moment) ==> after == before + 1
        }),
{
    match request {
        Request::CreateChallenge { .. } | Request::FileDispute { .. } => {
            lemma_creation_counts(s, request, kind, user, moment);
        },
        Request::Stake { who, challenge_id, side_yes, amount } => {
            let asked = s.asking(Action::RequireAuth(who));
            if kind is Stakes {
                lemma_placement_counts(asked, who, challenge_id, side_yes, amount, user, moment);
            }
        },
        Request::BatchStake { who, stakes } => {
            let asked = s.asking(Action::RequireAuth(who));
            if kind is Stakes {
                lemma_stakes_count(asked, who, stakes, user, moment);
            } else {
                lemma_batch_counts_stakes_only(asked, who, stakes);
            }
        },
        Request::BatchClaim { who, challenge_ids } => {
            lemma_claims_count_nothing(s.asking(Action::RequireAuth(who)), who, challenge_ids);
        },
        Request::ResolveNative { .. }
        | Request::ResolveViaOracle { .. }
        | Request::CancelChallenge { .. }
        | Request::ExpireChallenge { .. }
        | Request::AggregateOracleOutcomes { .. }
        | Request::Claim { .. }
        | Request::Refund { .. }
        | Request::AddChallengeToken { .. }
        | Request::CleanupOldChallenges { .. }
        | Request::ResolveDispute { .. } => {
            lemma_endings_count_nothing(s, request);
        },
        Request::AddRelayer { .. }
        | Request::RemoveRelayer { .. }
        | Request::SetQuorumSize { .. }
        | Request::SlashRelayer { .. }
        | Request::SubmitOracleOutcome { .. }
        | Request::AddLiquidity { .. }
        | Request::RemoveLiquidity { .. }
        | Request::ClaimRewards { .. }
        | Request::GetPendingRewards { .. }
        | Request::UpdateChallengeRewardIndex { .. } => {
            lemma_upkeep_counts_nothing(s, request);
        },
        _ => {
            lemma_settings_count_nothing(s, request);
        },
    }
}

/// Several stakes count as stakes and as nothing else.
proof fn lemma_batch_counts_stakes_only(
    s: State,
    who: Address,
    stakes: Seq<(u64, bool, i128)>,
)
    ensures
        ({
            let t = stakes_placed_in_turn(s, who, stakes).0;
            &&& t.challenge_creation_counts == s.challenge_creation_counts
            &&& t.dispute_filing_counts == s.dispute_filing_counts
        }),
    decreases stakes.len(),
{
    if stakes.len() > 0 {
        let (challenge_id, side_yes, amount) = stakes[0];
        let (after, result) = placement(s, who, challenge_id, side_yes, amount);
        if result is Ok {
            lemma_batch_counts_stakes_only(after, who, stakes.skip(1));
        }
    }
}

/// Whatever is asked of a market and whenever, no user is let stake, create
/// challenges or file disputes more often in one window of time than is
/// allowed.
pub proof fn law_windows_admit_so_many(
    contract: Address,
    timestamp: u64,
    sequence: u32,
    visits: Seq<Visit>,
    kind: Limited,
    user: Address,
    moment: u64,
)
    ensures
        ({
            let s = empty_state(contract, timestamp, sequence);
            times_let(s, visits, kind, user, moment) <= times_acted(
                counts_of(after_visits(s, visits), kind),
                user,
                moment,
            ) <= most_of(kind)
        }),
    decreases visits.len(),
{
    if visits.len() > 0 {
        let s = empty_state(contract, timestamp, sequence);
        let earlier = visits.drop_last();
        let visit = visits.last();
        law_windows_admit_so_many(contract, timestamp, sequence, earlier, kind, user, moment);
        let before = later(after_visits(s, earlier), visit.timestamp, visit.sequence);
        lemma_request_counts(before, visit.request, kind, user, moment);
    }
}

/// After a large withdrawal of liquidity the user waits before the next large
/// one from the same challenge: one that comes too soon is refused.
pub proof fn law_large_withdrawals_wait(
    s: State,
    provider: Address,
    challenge_id: u64,
    shares: i128,
    t: State,
    more_shares: i128,
)
    requires
        sound(s),
        remove_liquidity_in_range(s, challenge_id, provider, shares),
        remove_liquidity_step(s, provider, challenge_id, shares).1 is Ok,
        remove_liquidity_step(s, provider, challenge_id, shares).1->Ok_0 >= FLASH_LOAN_THRESHOLD,
        t.last_withdrawals == remove_liquidity_step(
            s,
            provider,
            challenge_id,
            shares,
        ).0.last_withdrawals,
        s.timestamp <= t.timestamp < s.timestamp + FLASH_LOAN_COOLDOWN,
        t.challenges.contains_key(challenge_id),
        holds_shares(t, challenge_id, provider, more_shares),
        FLASH_LOAN_THRESHOLD <= share_value(t, challenge_id, provider, more_shares) <= i128::MAX,
    ensures
        remove_liquidity_step(t, provider, challenge_id, more_shares).1 == Err::<i128, Error>(
            Error::CooldownNotElapsed,
        ),
        remove_liquidity_step(t, provider, challenge_id, more_shares).0.flash_loan_flags.contains_pair(
            provider,
            true,
        ),
{
}

/// A provider who gives up all their shares gets all the liquidity of the
/// challenge, whoever provided it.
pub proof fn law_all_shares_are_worth_all_liquidity(
    s: State,
    challenge_id: u64,
    provider: Address,
    shares: i128,
)
    requires
        sound(s),
        holds_shares(s, challenge_id, provider, shares),
        shares == s.liquidity_positions[(challenge_id, provider)].shares,
    ensures
        share_value(s, challenge_id, provider, shares) == total_liquidity(s, challenge_id),
{
    let total = total_liquidity(s, challenge_id) as int;
    assert(shares * total >= 0 && (shares * total) / (shares as int) == total) by (nonlinear_arith)
        requires
            shares > 0,
            total >= 0,
    ;
}

/// A reward index grows with every step, and no other index moves.
pub proof fn law_reward_indices_grow(s: State, challenge_id: u64)
    requires
        update_challenge_reward_index_in_range(s, challenge_id),
        !s.is_paused(),
    ensures
        ({
            let (t, result) = update_challenge_reward_index_step(s, challenge_id);
            &&& result is Ok
            &&& reward_index(t, challenge_id) > reward_index(s, challenge_id)
            &&& forall|other: u64|
                other != challenge_id ==> #[trigger] reward_index(t, other) == reward_index(
                    s,
                    other,
                )
        }),
{
}

/// A provider whose rewards are up to date earns their part of a step of the
/// reward index.
pub proof fn law_providers_earn_rewards(s: State, provider: Address, challenge_id: u64)
    requires
        sound(s),
        !s.is_paused(),
        update_challenge_reward_index_in_range(s, challenge_id),
        s.liquidity_positions.contains_key((challenge_id, provider)),
        s.liquidity_positions[(challenge_id, provider)].shares > 0,
        total_liquidity(s, challenge_id) > 0,
        s.reward_accruals.contains_key((challenge_id, provider)),
        s.reward_accruals[(challenge_id, provider)].reward_index == reward_index(s, challenge_id),
        position_accrual_in_range(
            update_challenge_reward_index_step(s, challenge_id).0,
            challenge_id,
            provider,
        ),
    ensures
        get_pending_rewards_step(
            update_challenge_reward_index_step(s, challenge_id).0,
            challenge_id,
            provider,
        ).1 matches Ok(rewards) && rewards == s.reward_accruals[(
            challenge_id,
            provider,
        )].pending_rewards + quotient(
            index_increment(reward_index(s, challenge_id)) * s.liquidity_positions[(
                challenge_id,
                provider,
            )].shares,
            total_liquidity(s, challenge_id) as int,
        ),
{
    let t = update_challenge_reward_index_step(s, challenge_id).0;
    assert(index_moved(t, challenge_id, provider) == index_increment(
        reward_index(s, challenge_id),
    ));
}

/// Rewards that are claimed are more than nothing and are paid to the provider,
/// and what was claimed cannot be claimed again.
pub proof fn law_rewards_are_paid_once(s: State, provider: Address, challenge_id: u64)
    requires
        sound(s),
        claim_rewards_in_range(s, provider, challenge_id),
        claim_rewards_step(s, provider, challenge_id).1 is Ok,
    ensures
        ({
            let (t, result) = claim_rewards_step(s, provider, challenge_id);
            let rewards = result->Ok_0;
            &&& rewards > 0
            &&& t.actions == s.actions.push(Action::RequireAuth(provider)).push(
                Action::Transfer {
                    token: s.challenges[challenge_id].token,
                    from: s.contract,
                    to: provider,
                    amount: rewards,
                },
            ).push(Action::Publish(Event::RewardClaimed { challenge_id, provider, rewards }))
            &&& claim_rewards_step(t, provider, challenge_id).1 == Err::<i128, Error>(
                Error::NoPendingRewards,
            )
        }),
{
    let t = claim_rewards_step(s, provider, challenge_id).0;
    let again = t.asking(Action::RequireAuth(provider));
    if t.liquidity_positions.contains_key((challenge_id, provider)) {
        let shares = t.liquidity_positions[(challenge_id, provider)].shares;
        let total = total_liquidity(t, challenge_id) as int;
        if total != 0 && shares != 0 {
            assert(index_moved(again, challenge_id, provider) == 0);
            assert(0 * shares == 0 && 0int / total == 0) by (nonlinear_arith)
                requires
                    total != 0,
            ;
            assert(new_rewards(again, challenge_id, provider, shares) == 0);
        }
    }
}

/// Liquidity that is added is the provider's: the liquidity of the challenge
/// and what the provider has put in grow by the amount, the provider's shares
/// by what is answered, and nothing else of anybody's liquidity, of the
/// challenges and their pools changes.
pub proof fn law_added_liquidity_is_the_providers(
    s: State,
    provider: Address,
    challenge_id: u64,
    amount: i128,
)
    requires
        sound(s),
        add_liquidity_in_range(s, challenge_id, provider, amount),
        add_liquidity_step(s, provider, challenge_id, amount).1 is Ok,
    ensures
        ({
            let (t, result) = add_liquidity_step(s, provider, challenge_id, amount);
            let key = (challenge_id, provider);
            let before = position_or_blank(s, challenge_id, provider);
            &&& total_liquidity(t, challenge_id) == total_liquidity(s, challenge_id) + amount
            &&& total_liquidity(t, challenge_id) == provided_total(
                t.liquidity_positions,
                challenge_id,
            )
            &&& t.liquidity_positions.contains_key(key)
            &&& t.liquidity_positions[key].amount == before.amount + amount
            &&& t.liquidity_positions[key].shares == before.shares + result->Ok_0
            &&& forall|other: (u64, Address)|
                other != key ==> {
                    &&& t.liquidity_positions.contains_key(other)
                        == #[trigger] s.liquidity_positions.contains_key(other)
                    &&& t.liquidity_positions[other] == s.liquidity_positions[other]
                }
            &&& forall|id: u64|
                id != challenge_id ==> #[trigger] total_liquidity(t, id) == total_liquidity(s, id)
            &&& t.challenges == s.challenges
        }),
{
    let t = add_liquidity_step(s, provider, challenge_id, amount).0;
    law_requests_keep_markets_sound(s, Request::AddLiquidity { provider, challenge_id, amount });
    assert(provided_total(t.liquidity_positions, challenge_id) == total_liquidity(t, challenge_id));
}

/// The liquidity of a challenge is what its providers have put in, less what
/// they took out, whatever was asked of the market.
pub proof fn law_liquidity_is_what_was_provided(
    contract: Address,
    timestamp: u64,
    sequence: u32,
    visits: Seq<Visit>,
    challenge_id: u64,
)
    requires
        all_orderly(empty_state(contract, timestamp, sequence), visits),
    ensures
        ({
            let t = after_visits(empty_state(contract, timestamp, sequence), visits);
            total_liquidity(t, challenge_id) == provided_total(t.liquidity_positions, challenge_id)
        }),
{
    law_every_market_is_sound(contract, timestamp, sequence, visits);
    let t = after_visits(empty_state(contract, timestamp, sequence), visits);
    assert(provided_total(t.liquidity_positions, challenge_id) == total_liquidity(t, challenge_id));
}

/// While a stake vests nothing can be claimed of it.
pub proof fn law_vesting_stakes_wait(s: State, who: Address, challenge_id: u64)
    requires
        sound(s),
        s.stakes.contains_key((challenge_id, who)),
        s.challenges[challenge_id].resolved,
    ensures
        claim_step(s, who, challenge_id).1 == Err::<i128, Error>(Error::StakeStillVesting)
            <==> still_vesting(s.stakes[(challenge_id, who)], s.timestamp),
{
}

/// A challenge that is created gets a number that no challenge had, and keeps
/// it.
pub proof fn law_challenge_numbers_are_fresh(
    s: State,
    creator: Address,
    description: Seq<char>,
    condition: Condition,
    resolve_ledger_seq: u32,
    staking_deadline_seq: u32,
    token: Address,
    category: Seq<char>,
    t: State,
)
    requires
        sound(s),
        create_challenge_in_range(s, creator, resolve_ledger_seq, staking_deadline_seq, token),
        create_challenge_step(
            s,
            creator,
            description,
            condition,
            resolve_ledger_seq,
            staking_deadline_seq,
            token,
            category,
        ).1 is Ok,
        follows(
            create_challenge_step(
                s,
                creator,
                description,
                condition,
                resolve_ledger_seq,
                staking_deadline_seq,
                token,
                category,
            ).0,
            t,
        ),
    ensures
        ({
            let id = create_challenge_step(
                s,
                creator,
                description,
                condition,
                resolve_ledger_seq,
                staking_deadline_seq,
                token,
                category,
            ).1->Ok_0;
            &&& !s.challenges.contains_key(id)
            &&& t.challenges.contains_key(id)
            &&& t.challenges[id].id == id
            &&& t.challenges[id].creator == creator
            &&& t.challenges[id].description == description
            &&& t.challenges[id].condition == condition
            &&& t.challenges[id].resolve_ledger_seq == resolve_ledger_seq
            &&& t.challenges[id].staking_deadline_seq == staking_deadline_seq
            &&& t.challenges[id].token == token
            &&& id < next_challenge_id(t)
        }),
{
    let after = create_challenge_step(
        s,
        creator,
        description,
        condition,
        resolve_ledger_seq,
        staking_deadline_seq,
        token,
        category,
    ).0;
    assert(after.challenges.contains_key(next_challenge_id(s)));
}

/// A challenge from a template has the terms of the template, counted from the
/// ledger it is created in, and a number that no challenge had.
pub proof fn law_templates_set_the_terms(
    s: State,
    creator: Address,
    template_id: u64,
    description: Seq<char>,
)
    requires
        sound(s),
        create_from_template_in_range(s, creator, template_id),
        create_from_template_step(s, creator, template_id, description).1 is Ok,
    ensures
        ({
            let (t, result) = create_from_template_step(s, creator, template_id, description);
            let template = s.templates[(template_id, creator)];
            let id = result->Ok_0;
            &&& !s.challenges.contains_key(id)
            &&& t.challenges.contains_key(id)
            &&& t.challenges[id].creator == template.creator
            &&& t.challenges[id].description == description
            &&& t.challenges[id].condition == template.condition
            &&& t.challenges[id].token == template.token
            &&& t.challenges[id].staking_deadline_seq == s.sequence
                + template.staking_deadline_offset
            &&& t.challenges[id].resolve_ledger_seq == s.sequence + template.resolve_ledger_offset
            &&& s.sequence < t.challenges[id].staking_deadline_seq
                < t.challenges[id].resolve_ledger_seq
            &&& t.challenge_categories[id] == template.category
            &&& t.templates[(template_id, creator)].usage_count == template.usage_count + 1
        }),
{
}

/// A token that was taken off the whitelist is barred until it is put back.
pub proof fn law_whitelist_decides(
    s: State,
    token: Address,
    welcome: bool,
    creator: Address,
    description: Seq<char>,
    condition: Condition,
    resolve_ledger_seq: u32,
    staking_deadline_seq: u32,
    category: Seq<char>,
)
    requires
        s.admin is Some,
        !s.is_paused(),
    ensures
        ({
            let listed = whitelist_step(s, token, welcome).0;
            &&& token_barred(listed, token) == !welcome
            &&& (create_challenge_step(
                listed,
                creator,
                description,
                condition,
                resolve_ledger_seq,
                staking_deadline_seq,
                token,
                category,
            ).1 == Err::<u64, Error>(Error::TokenNotWhitelisted)) == !welcome
        }),
{
}

/// A relayer speaks once on a challenge, and what it says is counted once.
pub proof fn law_relayers_speak_once(
    s: State,
    oracle: Address,
    challenge_id: u64,
    outcome_yes: bool,
    t: State,
    second_outcome: bool,
)
    requires
        submit_oracle_outcome_step(s, oracle, challenge_id, outcome_yes).1 is Ok,
        follows(submit_oracle_outcome_step(s, oracle, challenge_id, outcome_yes).0, t),
    ensures
        submit_oracle_outcome_step(t, oracle, challenge_id, second_outcome).1 is Err,
        t.oracle_submissions[(challenge_id, oracle)].outcome_yes == outcome_yes,
        vote_count(t, challenge_id, relayers(t), true) + vote_count(
            t,
            challenge_id,
            relayers(t),
            false,
        ) <= relayers(t).len(),
{
    let after = submit_oracle_outcome_step(s, oracle, challenge_id, outcome_yes).0;
    assert(after.oracle_submissions.contains_key((challenge_id, oracle)));
    lemma_votes_at_most_relayers(t, challenge_id, relayers(t));
}

/// The relayers settle a challenge by majority, once enough of them have
/// spoken.
pub proof fn law_majority_of_a_quorum_decides(s: State, challenge_id: u64)
    requires
        sound(s),
        s.challenges.contains_key(challenge_id),
        !s.challenges[challenge_id].finalized(),
    ensures
        ({
            let (t, result) = aggregate_oracle_outcomes_step(s, challenge_id);
            let yes = vote_count(s, challenge_id, relayers(s), true);
            let no = vote_count(s, challenge_id, relayers(s), false);
            &&& result is Ok <==> yes + no >= quorum_size(s)
            &&& result is Ok ==> t.challenges[challenge_id].resolved
                && t.challenges[challenge_id].outcome_yes == (yes > no)
                && t.oracle_results[challenge_id].yes_votes == yes
                && t.oracle_results[challenge_id].no_votes == no
        }),
{
    lemma_votes_at_most_relayers(s, challenge_id, relayers(s));
}

/// A dispute is decided once.
pub proof fn law_disputes_are_decided_once(
    s: State,
    challenge_id: u64,
    disputer: Address,
    successful: bool,
    t: State,
    second: bool,
)
    requires
        resolve_dispute_step(s, challenge_id, disputer, successful).1 is Ok,
        follows(resolve_dispute_step(s, challenge_id, disputer, successful).0, t),
    ensures
        resolve_dispute_step(t, challenge_id, disputer, second).1 == Err::<(), Error>(
            Error::DisputeAlreadyResolved,
        ),
        t.disputes[(challenge_id, disputer)].successful == successful,
{
    let after = resolve_dispute_step(s, challenge_id, disputer, successful).0;
    assert(after.disputes.contains_key((challenge_id, disputer)));
}

/// The last slash that a relayer is allowed removes it and starts its count
/// over; any other is counted and leaves it where it is.
pub proof fn law_last_slash_removes_relayer(s: State, relayer: Address, reason: String)
    requires
        sound(s),
        slash_relayer_step(s, relayer, reason).1 is Ok,
    ensures
        ({
            let t = slash_relayer_step(s, relayer, reason).0;
            let count = slash_count(s, relayer) + 1;
            if count == MAX_SLASH_COUNT {
                &&& !relayers(t).contains(relayer.id)
                &&& relayers(t).len() == relayers(s).len() - 1
                &&& slash_count(t, relayer) == 0
            } else {
                &&& relayers(t) == relayers(s)
                &&& slash_count(t, relayer) == count
            }
        }),
{
    let set = relayers(s);
    set.index_of_first_ensures(relayer.id);
    let at = set.index_of_first(relayer.id)->0;
    let rest = set.remove(at);
    assert forall|i: int| 0 <= i < rest.len() implies rest[i] != relayer.id by {
        let before = if i < at { i } else { i + 1 };
        assert(rest[i] == set[before]);
    }
}

/// Whoever is the only one to provide liquidity gets back what they put in.
pub proof fn law_sole_provider_loses_nothing(
    s: State,
    provider: Address,
    challenge_id: u64,
    amount: i128,
)
    requires
        sound(s),
        add_liquidity_in_range(s, challenge_id, provider, amount),
        add_liquidity_step(s, provider, challenge_id, amount).1 is Ok,
        total_liquidity(s, challenge_id) == 0,
        !s.liquidity_positions.contains_key((challenge_id, provider)),
        !cooling_down(s, provider, challenge_id, amount),
    ensures
        ({
            let (t, shares) = add_liquidity_step(s, provider, challenge_id, amount);
            remove_liquidity_step(t, provider, challenge_id, shares->Ok_0).1 == Ok::<i128, Error>(
                amount,
            )
        }),
{
    assert(amount * amount >= 0 && (amount * amount) / (amount as int) == amount)
        by (nonlinear_arith)
        requires
            amount > 0,
    ;
}

/// The fee of a claim waits for the admin, who collects it with the other fees
/// in the same token.
pub proof fn law_fees_are_collected(
    s: State,
    who: Address,
    challenge_id: u64,
    recipient: Address,
)
    requires
        sound(s),
        s.admin is Some,
        claim_in_range(s, who, challenge_id),
        claim_refusal(s, who, challenge_id) is None,
        claim_fee(s, who, challenge_id) > 0,
    ensures
        ({
            let token = s.challenges[challenge_id].token;
            let (collected, result) = collect_fees_step(
                claim_step(s, who, challenge_id).0,
                token,
                recipient,
            );
            &&& result is Ok
            &&& result->Ok_0 == fee_balance(s, token) + claim_fee(s, who, challenge_id)
            &&& fee_balance(collected, token) == 0
        }),
{
}

/// A list that is long enough holds every challenge in its range that is as it
/// is asked to be, and no other; any list holds only such challenges, the
/// newest first.
pub proof fn law_lists_are_exact(
    s: State,
    filter: Filter,
    high: u64,
    low: u64,
    limit: int,
)
    requires
        low <= high,
        0 <= limit,
    ensures
        ({
            let list = selection(s, filter, high as int, low as int, limit);
            &&& list.len() <= limit
            &&& forall|i: int|
                0 <= i < list.len() ==> low <= #[trigger] list[i] < high && meets(s, filter, list[i])
            &&& forall|i: int, j: int| 0 <= i < j < list.len() ==> list[i] > list[j]
            &&& high - low <= limit ==> forall|id: u64|
                low <= id < high && #[trigger] meets(s, filter, id) ==> list.contains(id)
        }),
{
    let keep = |id: u64| meets(s, filter, id);
    let all = descending(high as int, low as int);
    lemma_kept_descend(all, keep);
    let kept = all.filter(keep);
    let list = selection(s, filter, high as int, low as int, limit);
    assert forall|i: int| 0 <= i < list.len() implies low <= #[trigger] list[i] < high && meets(
        s,
        filter,
        list[i],
    ) by {
        assert(list[i] == kept[i]);
        assert(keep(kept[i]));
        assert(all.contains(kept[i]));
    }
    if high - low <= limit {
        assert forall|id: u64| low <= id < high && #[trigger] meets(s, filter, id) implies list.contains(
            id,
        ) by {
            assert(all[high - 1 - id] == id);
            assert(keep(id));
            assert(kept.contains(id));
        }
    }
}

/// A page goes on where the one before it ended: the two together are the page
/// that is as long as both.
pub proof fn law_pages_go_on(
    s: State,
    filter: Filter,
    high: u64,
    offset: int,
    limit: int,
    next_limit: int,
)
    requires
        0 <= offset,
        0 <= limit,
        0 <= next_limit,
    ensures
        matches_beyond(s, filter, high as int, offset, limit) + matches_beyond(
            s,
            filter,
            high as int,
            offset + limit,
            next_limit,
        ) == matches_beyond(s, filter, high as int, offset, limit + next_limit),
{
    let all = descending(high as int, 0).filter(|id: u64| meets(s, filter, id));
    assert(at_most(beyond(all, offset), limit) + at_most(beyond(all, offset + limit), next_limit)
        =~= at_most(beyond(all, offset), limit + next_limit));
}

/// A list of all challenges passes over as many challenges as it is told to, so
/// its pages go on where they ended too.
pub proof fn law_lists_pass_over_challenges(s: State, offset: u64, limit: int)
    requires
        sound(s),
        s.next_challenge_id is Some,
        0 <= limit,
    ensures
        selection(s, Filter::Any, passed_over(s.next_challenge_id->0, offset), 0, limit)
            == matches_beyond(
            s,
            Filter::Any,
            s.next_challenge_id->0 as int,
            offset as int,
            limit,
        ),
{
    let next = s.next_challenge_id->0;
    let keep = |id: u64| meets(s, Filter::Any, id);
    lemma_all_kept(descending(next as int, 0), keep);
    lemma_all_kept(descending(passed_over(next, offset), 0), keep);
    assert(beyond(descending(next as int, 0), offset as int) =~= descending(
        passed_over(next, offset),
        0,
    ));
}

/// Where all items are to be kept, all are.
proof fn lemma_all_kept(items: Seq<u64>, keep: spec_fn(u64) -> bool)
    requires
        forall|i: int| 0 <= i < items.len() ==> keep(#[trigger] items[i]),
    ensures
        items.filter(keep) == items,
    decreases items.len(),
{
    reveal(Seq::filter);
    if items.len() > 0 {
        let fewer = items.drop_last();
        assert forall|i: int| 0 <= i < fewer.len() implies keep(#[trigger] fewer[i]) by {
            assert(fewer[i] == items[i]);
        }
        lemma_all_kept(fewer, keep);
        assert(keep(items[items.len() - 1]));
        assert(fewer.push(items.last()) =~= items);
    } else {
        assert(items.filter(keep) =~= items);
    }
}

/// What is kept of numbers that descend are some of them, they descend, and
/// none that is to be kept is missing.
proof fn lemma_kept_descend(all: Seq<u64>, keep: spec_fn(u64) -> bool)
    requires
        forall|i: int, j: int| 0 <= i < j < all.len() ==> all[i] > all[j],
    ensures
        all.filter(keep).len() <= all.len(),
        forall|i: int|
            0 <= i < all.filter(keep).len() ==> keep(#[trigger] all.filter(keep)[i]) && all.contains(
                all.filter(keep)[i],
            ),
        forall|i: int, j: int|
            0 <= i < j < all.filter(keep).len() ==> all.filter(keep)[i] > all.filter(keep)[j],
        forall|i: int|
            0 <= i < all.len() && keep(#[trigger] all[i]) ==> all.filter(keep).contains(all[i]),
    decreases all.len(),
{
    reveal(Seq::filter);
    if all.len() > 0 {
        let rest = all.drop_last();
        let kept = rest.filter(keep);
        lemma_kept_descend(rest, keep);
        assert forall|i: int| 0 <= i < kept.len() implies all.contains(#[trigger] kept[i])
            && kept[i] > all.last() by {
            let at = choose|k: int| 0 <= k < rest.len() && rest[k] == kept[i];
            assert(all[at] == kept[i]);
        }
        assert forall|i: int| 0 <= i < all.len() && keep(#[trigger] all[i]) implies all.filter(
            keep,
        ).contains(all[i]) by {
            if i < rest.len() {
                assert(rest[i] == all[i]);
                let at = choose|k: int| 0 <= k < kept.len() && kept[k] == all[i];
                assert(all.filter(keep)[at] == all[i]);
            } else {
                assert(all.filter(keep)[kept.len() as int] == all[i]);
            }
        }
    }
}

} // verus!
