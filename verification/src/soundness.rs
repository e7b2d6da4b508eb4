//! What holds of every market, whatever was asked of it and in whatever order.

use vstd::prelude::*;

use crate::challenges::add_token_refusal;
use crate::challenges::cancel_refusal;
use crate::challenges::cleanup_old_challenges_step;
use crate::challenges::create_challenge_in_range;
use crate::challenges::create_challenge_refusal;
use crate::challenges::create_challenge_step;
use crate::challenges::create_from_template_in_range;
use crate::challenges::create_from_template_refusal;
use crate::challenges::create_from_template_step;
use crate::challenges::create_template_refusal;
use crate::challenges::expire_refusal;
use crate::challenges::next_challenge_id;
use crate::challenges::next_template_id;
use crate::challenges::resolve_native_refusal;
use crate::challenges::resolve_via_oracle_refusal;
use crate::challenges::template_count;
use crate::context::State;
use crate::context::empty_state;
use crate::disputes::resolve_dispute_refusal;
use crate::guards::admin_asked;
use crate::liquidity::accrual_in_range;
use crate::liquidity::accrued;
use crate::liquidity::add_liquidity_in_range;
use crate::liquidity::add_liquidity_refusal;
use crate::liquidity::add_liquidity_step;
use crate::liquidity::holds_shares;
use crate::liquidity::index_moved;
use crate::liquidity::liquidity_shifted;
use crate::liquidity::minted_shares;
use crate::liquidity::position_or_blank;
use crate::liquidity::remove_liquidity_examined;
use crate::liquidity::remove_liquidity_in_range;
use crate::liquidity::remove_liquidity_refusal;
use crate::liquidity::remove_liquidity_step;
use crate::liquidity::share_value;
use crate::liquidity::shift_in_range;
use crate::liquidity::total_liquidity;
use crate::params::BPS_DENOMINATOR;
use crate::params::DEFAULT_EXPIRY_LEDGERS;
use crate::params::DISPUTE_STAKE_THRESHOLD;
use crate::params::MAX_SLASH_COUNT;
use crate::params::MAX_TEMPLATES_PER_USER;
use crate::params::MAX_VESTING_DURATION;
use crate::params::SHARE_SCALE;
use crate::payouts::odds_in_range;
use crate::payouts::quotient;
use crate::relayers::aggregation_refusal;
use crate::relayers::is_last_slash;
use crate::relayers::relayer_removed;
use crate::relayers::relayers;
use crate::relayers::removal_refusal;
use crate::relayers::remove_relayer_refusal;
use crate::relayers::slash_refusal;
use crate::relayers::vote_count;
use crate::requests::Request;
use crate::requests::Visit;
use crate::requests::after_visits;
use crate::requests::all_orderly;
use crate::requests::in_range;
use crate::requests::later;
use crate::requests::served;
use crate::staking::claim_in_range;
use crate::staking::claim_refusal;
use crate::staking::claims_in_range;
use crate::staking::claims_paid_in_turn;
use crate::staking::placement;
use crate::staking::refund_finds_stake;
use crate::staking::refund_in_range;
use crate::staking::refund_refusal;
use crate::staking::repayment;
use crate::staking::settlement;
use crate::staking::stake_claimed;
use crate::staking::stake_examined;
use crate::staking::stake_in_range;
use crate::staking::stake_or_blank;
use crate::staking::stake_placed;
use crate::staking::stake_plus;
use crate::staking::stake_refusal;
use crate::staking::stake_sums_in_range;
use crate::staking::stakes_in_range;
use crate::staking::stakes_placed_in_turn;
use crate::sums::lemma_sum_bounds_part;
use crate::sums::lemma_sum_update;
use crate::sums::lemma_sum_zero;
use crate::sums::sum;
use crate::types::Action;
use crate::types::Address;
use crate::types::AggregatedOracleResult;
use crate::types::ChallengeStats;
use crate::types::ChallengeTemplateView;
use crate::types::ChallengeView;
use crate::types::Condition;
use crate::types::DisputeView;
use crate::types::LiquidityPosition;
use crate::types::OracleSubmission;
use crate::types::RelayerQuorum;
use crate::types::RewardAccrual;
use crate::types::Stake;

verus! {

/// What the owner of a stake has on a side of a challenge.
pub open spec fn side_amount(
    stakes: Map<(u64, Address), Stake>,
    challenge_id: u64,
    side_yes: bool,
) -> spec_fn((u64, Address)) -> int {
    |key: (u64, Address)|
        if key.0 != challenge_id {
            0
        } else if side_yes {
            stakes[key].yes_amount as int
        } else {
            stakes[key].no_amount as int
        }
}

/// What all users together have on a side of a challenge.
pub open spec fn side_total(
    stakes: Map<(u64, Address), Stake>,
    challenge_id: u64,
    side_yes: bool,
) -> int {
    sum(stakes.dom(), side_amount(stakes, challenge_id, side_yes))
}

/// One for each stake on a challenge.
pub open spec fn one_for(challenge_id: u64) -> spec_fn((u64, Address)) -> int {
    |key: (u64, Address)|
        if key.0 == challenge_id {
            1
        } else {
            0
        }
}

/// How many users have a stake on a challenge.
pub open spec fn staker_count(stakes: Map<(u64, Address), Stake>, challenge_id: u64) -> int {
    sum(stakes.dom(), one_for(challenge_id))
}

/// Every stake is on a challenge, something is on it, and nothing was paid of
/// it while the challenge is open.
pub open spec fn stakes_real(
    stakes: Map<(u64, Address), Stake>,
    challenges: Map<u64, ChallengeView>,
) -> bool {
    &&& stakes.dom().finite()
    &&& forall|key: (u64, Address)| #[trigger]
        stakes.contains_key(key) ==> {
            &&& challenges.contains_key(key.0)
            &&& stakes[key].yes_amount >= 0
            &&& stakes[key].no_amount >= 0
            &&& stakes[key].yes_amount + stakes[key].no_amount > 0
            &&& !challenges[key.0].finalized() ==> !stakes[key].claimed_yes
                && !stakes[key].claimed_no
        }
}

/// A challenge is filed under its own number, it is not both resolved and
/// cancelled, its pools are what was staked and speak for some odds, and its
/// statistics say the same.
pub open spec fn challenge_real(
    challenge_id: u64,
    challenge: ChallengeView,
    stakes: Map<(u64, Address), Stake>,
    stats: Map<u64, ChallengeStats>,
) -> bool {
    &&& challenge.id == challenge_id
    &&& !(challenge.resolved && challenge.cancelled)
    &&& challenge.expiry_seq == challenge.resolve_ledger_seq + DEFAULT_EXPIRY_LEDGERS
    &&& challenge.pool_yes == side_total(stakes, challenge_id, true)
    &&& challenge.pool_no == side_total(stakes, challenge_id, false)
    &&& odds_in_range(challenge.pool_yes as int, challenge.pool_no as int)
    &&& stats.contains_key(challenge_id) ==> {
        &&& stats[challenge_id].total_staked == challenge.pool_yes + challenge.pool_no
        &&& stats[challenge_id].total_participants == staker_count(stakes, challenge_id)
    }
    &&& !stats.contains_key(challenge_id) && !challenge.finalized() ==> {
        &&& challenge.pool_yes == 0
        &&& challenge.pool_no == 0
        &&& staker_count(stakes, challenge_id) == 0
    }
}

/// The books are balanced: challenges, stakes and statistics agree, and the
/// challenges have the numbers that have been given, each of them.
pub open spec fn books_balanced(
    challenges: Map<u64, ChallengeView>,
    stakes: Map<(u64, Address), Stake>,
    stats: Map<u64, ChallengeStats>,
    next_id: u64,
) -> bool {
    &&& stakes_real(stakes, challenges)
    &&& challenges.dom().finite()
    &&& forall|id: u64| #[trigger]
        challenges.contains_key(id) ==> id < next_id && challenge_real(
            id,
            challenges[id],
            stakes,
            stats,
        )
    &&& forall|id: u64| id < next_id ==> #[trigger] challenges.contains_key(id)
    &&& forall|id: u64| #[trigger] stats.contains_key(id) ==> challenges.contains_key(id)
}

/// The relayers differ, and the quorum knows how many there are and asks for
/// no more signatures than that.
pub open spec fn relayers_agree(set: Option<Seq<u64>>, quorum: Option<RelayerQuorum>) -> bool {
    match (set, quorum) {
        (None, None) => true,
        (Some(relayers), Some(quorum)) => {
            &&& relayers.no_duplicates()
            &&& quorum.total_relayers == relayers.len()
            &&& quorum.required_signatures <= quorum.total_relayers
        },
        _ => false,
    }
}

/// No relayer is one that was slashed as often as is allowed.
pub open spec fn slashes_bounded(counts: Map<Address, u32>) -> bool {
    forall|relayer: Address| #[trigger]
        counts.contains_key(relayer) ==> counts[relayer] < MAX_SLASH_COUNT
}

/// The settings lie where they have to.
pub open spec fn settings_bounded(
    protocol_fee_bps: Option<u32>,
    min_stake: Option<i128>,
    user_vesting: Map<Address, u64>,
) -> bool {
    &&& protocol_fee_bps matches Some(bps) ==> bps <= BPS_DENOMINATOR
    &&& min_stake matches Some(amount) ==> amount > 0
    &&& forall|user: Address| #[trigger]
        user_vesting.contains_key(user) ==> user_vesting[user] <= MAX_VESTING_DURATION
}

/// No stake vests for longer than is allowed.
pub open spec fn vesting_bounded(stakes: Map<(u64, Address), Stake>) -> bool {
    forall|key: (u64, Address)| #[trigger]
        stakes.contains_key(key) ==> stakes[key].vesting_duration <= MAX_VESTING_DURATION
}

/// No balance of fees is negative.
pub open spec fn fees_real(fee_balances: Map<Address, i128>) -> bool {
    forall|token: Address| #[trigger] fee_balances.contains_key(token) ==> fee_balances[token] >= 0
}

/// What a provider has put into a challenge, less what they took out.
pub open spec fn provided(
    positions: Map<(u64, Address), LiquidityPosition>,
    challenge_id: u64,
) -> spec_fn((u64, Address)) -> int {
    |key: (u64, Address)|
        if key.0 == challenge_id {
            positions[key].amount as int
        } else {
            0
        }
}

/// What all providers together have put into a challenge, less what they took
/// out.
pub open spec fn provided_total(
    positions: Map<(u64, Address), LiquidityPosition>,
    challenge_id: u64,
) -> int {
    sum(positions.dom(), provided(positions, challenge_id))
}

/// There is liquidity of challenges only, none of it is negative, it is what
/// the providers have put in, and no provider has negative shares.
pub open spec fn liquidity_real(
    total_liquidity: Map<u64, i128>,
    positions: Map<(u64, Address), LiquidityPosition>,
    challenges: Map<u64, ChallengeView>,
) -> bool {
    &&& positions.dom().finite()
    &&& forall|id: u64| #[trigger]
        total_liquidity.contains_key(id) ==> total_liquidity[id] >= 0 && challenges.contains_key(id)
    &&& forall|id: u64| #[trigger]
        provided_total(positions, id) == (if total_liquidity.contains_key(id) {
            total_liquidity[id] as int
        } else {
            0
        })
    &&& forall|key: (u64, Address)| #[trigger]
        positions.contains_key(key) ==> positions[key].shares >= 0
}

/// No reward index is too far for a signed number, nobody's rewards have been
/// brought up to an index that has not been reached, and nobody has earned less
/// than nothing.
pub open spec fn rewards_real(
    indices: Map<u64, u128>,
    accruals: Map<(u64, Address), RewardAccrual>,
) -> bool {
    &&& forall|id: u64| #[trigger] indices.contains_key(id) ==> indices[id] <= i128::MAX
    &&& forall|key: (u64, Address)| #[trigger]
        accruals.contains_key(key) ==> {
            &&& accruals[key].pending_rewards >= 0
            &&& accruals[key].reward_index <= (if indices.contains_key(key.0) {
                indices[key.0]
            } else {
                0
            })
        }
}

/// One for each template of a user.
pub open spec fn one_by(user: Address) -> spec_fn((u64, Address)) -> int {
    |key: (u64, Address)|
        if key.1 == user {
            1
        } else {
            0
        }
}

/// How many templates are filed under a user.
pub open spec fn templates_filed(
    templates: Map<(u64, Address), ChallengeTemplateView>,
    user: Address,
) -> int {
    sum(templates.dom(), one_by(user))
}

/// A template is filed under its number and its creator, no template has a
/// number that is still to be given, and every user is said to have as many
/// templates as they have, and no more than are allowed.
pub open spec fn templates_real(
    templates: Map<(u64, Address), ChallengeTemplateView>,
    counts: Map<Address, u32>,
    next_id: u64,
) -> bool {
    &&& forall|key: (u64, Address)| #[trigger]
        templates.contains_key(key) ==> {
            &&& key.0 < next_id
            &&& templates[key].template_id == key.0
            &&& templates[key].creator == key.1
        }
    &&& templates.dom().finite()
    &&& forall|user: Address| #[trigger]
        templates_filed(templates, user) == (if counts.contains_key(user) {
            counts[user] as int
        } else {
            0
        })
    &&& forall|user: Address| #[trigger]
        counts.contains_key(user) ==> counts[user] <= MAX_TEMPLATES_PER_USER
}

/// The score of a creator is noted with challenges only.
pub open spec fn creators_noted(
    creator_reputations: Map<u64, i32>,
    challenges: Map<u64, ChallengeView>,
) -> bool {
    forall|id: u64| #[trigger]
        creator_reputations.contains_key(id) ==> challenges.contains_key(id)
}

/// Only challenges that are resolved are disputed, and never for less than the
/// threshold.
pub open spec fn disputes_real(
    disputes: Map<(u64, Address), DisputeView>,
    challenges: Map<u64, ChallengeView>,
) -> bool {
    &&& disputes.dom().finite()
    &&& forall|key: (u64, Address)| #[trigger]
        disputes.contains_key(key) ==> {
            &&& challenges.contains_key(key.0)
            &&& challenges[key.0].resolved
            &&& disputes[key].challenge_id == key.0
            &&& disputes[key].disputer == key.1
            &&& disputes[key].stake >= DISPUTE_STAKE_THRESHOLD
        }
}

/// What a relayer said is filed under the challenge and the relayer.
pub open spec fn submissions_real(
    submissions: Map<(u64, Address), OracleSubmission>,
    challenges: Map<u64, ChallengeView>,
) -> bool {
    forall|key: (u64, Address)| #[trigger]
        submissions.contains_key(key) ==> {
            &&& challenges.contains_key(key.0)
            &&& submissions[key].challenge_id == key.0
            &&& submissions[key].submitted_by == key.1
        }
}

/// Votes are counted of challenges that are resolved, and YES wins with more
/// of them than NO.
pub open spec fn results_real(
    results: Map<u64, AggregatedOracleResult>,
    challenges: Map<u64, ChallengeView>,
) -> bool {
    forall|id: u64| #[trigger]
        results.contains_key(id) ==> {
            &&& challenges.contains_key(id)
            &&& challenges[id].resolved
            &&& results[id].challenge_id == id
            &&& results[id].outcome_yes == (results[id].yes_votes > results[id].no_votes)
            &&& results[id].yes_votes + results[id].no_votes <= results[id].total_oracles
        }
}

/// No withdrawal is noted for a time that is still to come.
pub open spec fn withdrawals_past(withdrawals: Map<(Address, u64), u64>, now: u64) -> bool {
    forall|key: (Address, u64)| #[trigger]
        withdrawals.contains_key(key) ==> withdrawals[key] <= now
}

/// What holds of every market.
pub open spec fn sound(s: State) -> bool {
    &&& books_balanced(s.challenges, s.stakes, s.challenge_stats, next_challenge_id(s))
    &&& relayers_agree(s.relayer_set, s.relayer_quorum)
    &&& slashes_bounded(s.relayer_slash_counts)
    &&& settings_bounded(s.protocol_fee_bps, s.min_stake, s.user_vesting)
    &&& vesting_bounded(s.stakes)
    &&& fees_real(s.fee_balances)
    &&& liquidity_real(s.total_liquidity, s.liquidity_positions, s.challenges)
    &&& rewards_real(s.reward_indices, s.reward_accruals)
    &&& templates_real(s.templates, s.template_counts, next_template_id(s))
    &&& disputes_real(s.disputes, s.challenges)
    &&& submissions_real(s.oracle_submissions, s.challenges)
    &&& results_real(s.oracle_results, s.challenges)
    &&& withdrawals_past(s.last_withdrawals, s.timestamp)
    &&& creators_noted(s.creator_reputations, s.challenges)
}

/// How what is on a side of a challenge changes with one stake.
proof fn lemma_side_total_insert(
    stakes: Map<(u64, Address), Stake>,
    key: (u64, Address),
    stake: Stake,
    challenge_id: u64,
    side_yes: bool,
)
    requires
        stakes.dom().finite(),
    ensures
        side_total(stakes.insert(key, stake), challenge_id, side_yes) == side_total(
            stakes,
            challenge_id,
            side_yes,
        ) + (if key.0 != challenge_id {
            0
        } else if side_yes {
            stake.yes_amount - if stakes.contains_key(key) {
                stakes[key].yes_amount as int
            } else {
                0
            }
        } else {
            stake.no_amount - if stakes.contains_key(key) {
                stakes[key].no_amount as int
            } else {
                0
            }
        }),
{
    let after = stakes.insert(key, stake);
    assert(after.dom() =~= stakes.dom().insert(key));
    lemma_sum_update(
        stakes.dom(),
        side_amount(stakes, challenge_id, side_yes),
        side_amount(after, challenge_id, side_yes),
        key,
    );
}

/// How the number of users with a stake on a challenge changes with one stake.
proof fn lemma_staker_count_insert(
    stakes: Map<(u64, Address), Stake>,
    key: (u64, Address),
    stake: Stake,
    challenge_id: u64,
)
    requires
        stakes.dom().finite(),
    ensures
        staker_count(stakes.insert(key, stake), challenge_id) == staker_count(stakes, challenge_id)
            + (if key.0 == challenge_id && !stakes.contains_key(key) {
            1int
        } else {
            0
        }),
{
    assert(stakes.insert(key, stake).dom() =~= stakes.dom().insert(key));
    lemma_sum_update(stakes.dom(), one_for(challenge_id), one_for(challenge_id), key);
}

/// Nothing is on a challenge that no stake is on.
proof fn lemma_nothing_staked(stakes: Map<(u64, Address), Stake>, challenge_id: u64)
    requires
        stakes.dom().finite(),
        forall|key: (u64, Address)| #[trigger] stakes.contains_key(key) ==> key.0 != challenge_id,
    ensures
        side_total(stakes, challenge_id, true) == 0,
        side_total(stakes, challenge_id, false) == 0,
        staker_count(stakes, challenge_id) == 0,
{
    lemma_sum_zero(stakes.dom(), side_amount(stakes, challenge_id, true));
    lemma_sum_zero(stakes.dom(), side_amount(stakes, challenge_id, false));
    lemma_sum_zero(stakes.dom(), one_for(challenge_id));
}

/// The books stay balanced where a challenge gets another status and nothing
/// else that they speak of changes.
proof fn lemma_books_after_status(
    challenges: Map<u64, ChallengeView>,
    stakes: Map<(u64, Address), Stake>,
    stats: Map<u64, ChallengeStats>,
    next_id: u64,
    challenge_id: u64,
    after: ChallengeView,
    stats_after: Map<u64, ChallengeStats>,
)
    requires
        books_balanced(challenges, stakes, stats, next_id),
        challenges.contains_key(challenge_id),
        after.id == challenges[challenge_id].id,
        after.pool_yes == challenges[challenge_id].pool_yes,
        after.pool_no == challenges[challenge_id].pool_no,
        after.resolve_ledger_seq == challenges[challenge_id].resolve_ledger_seq,
        after.expiry_seq == challenges[challenge_id].expiry_seq,
        !(after.resolved && after.cancelled),
        challenges[challenge_id].finalized() ==> after.finalized(),
        stats_after == stats || after.finalized() && stats_after == stats.remove(challenge_id),
    ensures
        books_balanced(challenges.insert(challenge_id, after), stakes, stats_after, next_id),
{
}

/// The books stay balanced where a stake changes and its amounts do not.
proof fn lemma_books_after_payment(
    challenges: Map<u64, ChallengeView>,
    stakes: Map<(u64, Address), Stake>,
    stats: Map<u64, ChallengeStats>,
    next_id: u64,
    key: (u64, Address),
    after: Stake,
)
    requires
        books_balanced(challenges, stakes, stats, next_id),
        stakes.contains_key(key),
        challenges[key.0].finalized(),
        after.yes_amount == stakes[key].yes_amount,
        after.no_amount == stakes[key].no_amount,
    ensures
        books_balanced(challenges, stakes.insert(key, after), stats, next_id),
{
    assert forall|id: u64| #[trigger] challenges.contains_key(id) implies challenge_real(
        id,
        challenges[id],
        stakes.insert(key, after),
        stats,
    ) by {
        lemma_side_total_insert(stakes, key, after, id, true);
        lemma_side_total_insert(stakes, key, after, id, false);
        lemma_staker_count_insert(stakes, key, after, id);
    }
    assert(stakes.insert(key, after).dom() =~= stakes.dom());
}

/// The books stay balanced where a challenge joins under the next number.
proof fn lemma_books_after_creation(
    challenges: Map<u64, ChallengeView>,
    stakes: Map<(u64, Address), Stake>,
    stats: Map<u64, ChallengeStats>,
    next_id: u64,
    challenge: ChallengeView,
    stats_after: Map<u64, ChallengeStats>,
)
    requires
        books_balanced(challenges, stakes, stats, next_id),
        next_id < u64::MAX,
        challenge.id == next_id,
        challenge.pool_yes == 0,
        challenge.pool_no == 0,
        !challenge.finalized(),
        challenge.expiry_seq == challenge.resolve_ledger_seq + DEFAULT_EXPIRY_LEDGERS,
        stats_after == stats || stats_after == stats.insert(
            next_id,
            ChallengeStats { total_participants: 0, total_staked: 0 },
        ),
    ensures
        books_balanced(
            challenges.insert(next_id, challenge),
            stakes,
            stats_after,
            (next_id + 1) as u64,
        ),
{
    assert(!challenges.contains_key(next_id));
    lemma_nothing_staked(stakes, next_id);
}

/// The books stay balanced where a stake is placed.
proof fn lemma_books_after_stake(
    s: State,
    who: Address,
    challenge_id: u64,
    side_yes: bool,
    amount: i128,
)
    requires
        books_balanced(s.challenges, s.stakes, s.challenge_stats, next_challenge_id(s)),
        s.challenges.contains_key(challenge_id),
        !s.challenges[challenge_id].finalized(),
        amount > 0,
        stake_sums_in_range(s, who, challenge_id, side_yes, amount),
    ensures
        ({
            let t = stake_placed(s, who, challenge_id, side_yes, amount);
            books_balanced(t.challenges, t.stakes, t.challenge_stats, next_challenge_id(t))
        }),
{
    let t = stake_placed(s, who, challenge_id, side_yes, amount);
    let key = (challenge_id, who);
    let after = stake_plus(stake_or_blank(s, who, challenge_id), side_yes, amount);
    assert(t.stakes == s.stakes.insert(key, after));
    assert(t.stakes.dom() =~= s.stakes.dom().insert(key));
    assert forall|id: u64| #[trigger] t.challenges.contains_key(id) implies id < next_challenge_id(
        t,
    ) && challenge_real(id, t.challenges[id], t.stakes, t.challenge_stats) by {
        lemma_side_total_insert(s.stakes, key, after, id, true);
        lemma_side_total_insert(s.stakes, key, after, id, false);
        lemma_staker_count_insert(s.stakes, key, after, id);
        assert(s.challenges.contains_key(id));
    }
}

/// A stake keeps the market sound.
pub proof fn lemma_placement_sound(
    s: State,
    who: Address,
    challenge_id: u64,
    side_yes: bool,
    amount: i128,
)
    requires
        sound(s),
        stake_in_range(s, who, challenge_id, side_yes, amount),
    ensures
        sound(placement(s, who, challenge_id, side_yes, amount).0),
{
    if stake_refusal(s, who, challenge_id, amount) is None {
        let examined = stake_examined(s, who, challenge_id, amount);
        lemma_books_after_stake(examined, who, challenge_id, side_yes, amount);
    }
}

/// A claim keeps the market sound.
pub proof fn lemma_settlement_sound(s: State, who: Address, challenge_id: u64)
    requires
        sound(s),
        claim_in_range(s, who, challenge_id),
    ensures
        sound(settlement(s, who, challenge_id).0),
{
    if claim_refusal(s, who, challenge_id) is None {
        lemma_books_after_payment(
            s.challenges,
            s.stakes,
            s.challenge_stats,
            next_challenge_id(s),
            (challenge_id, who),
            stake_claimed(s.challenges[challenge_id], s.stakes[(challenge_id, who)]),
        );
    }
}

/// A refund keeps the market sound.
proof fn lemma_repayment_sound(s: State, who: Address, challenge_id: u64)
    requires
        sound(s),
        refund_in_range(s, who, challenge_id),
    ensures
        sound(repayment(s, who, challenge_id).0),
{
    if refund_refusal(s, who, challenge_id) is None {
        lemma_books_after_payment(
            s.challenges,
            s.stakes,
            s.challenge_stats,
            next_challenge_id(s),
            (challenge_id, who),
            Stake { claimed_yes: true, claimed_no: true, ..s.stakes[(challenge_id, who)] },
        );
    }
}

/// Several stakes keep the market sound.
proof fn lemma_stakes_sound(s: State, who: Address, stakes: Seq<(u64, bool, i128)>)
    requires
        sound(s),
        stakes_in_range(s, who, stakes),
    ensures
        sound(stakes_placed_in_turn(s, who, stakes).0),
    decreases stakes.len(),
{
    if stakes.len() > 0 {
        let (challenge_id, side_yes, amount) = stakes[0];
        let (after, result) = placement(s, who, challenge_id, side_yes, amount);
        lemma_placement_sound(s, who, challenge_id, side_yes, amount);
        if result is Ok {
            lemma_stakes_sound(after, who, stakes.skip(1));
        }
    }
}

/// Several claims keep the market sound.
proof fn lemma_claims_sound(s: State, who: Address, challenge_ids: Seq<u64>)
    requires
        sound(s),
        claims_in_range(s, who, challenge_ids),
    ensures
        sound(claims_paid_in_turn(s, who, challenge_ids).0),
    decreases challenge_ids.len(),
{
    if challenge_ids.len() > 0 {
        let (after, result) = settlement(s, who, challenge_ids[0]);
        lemma_settlement_sound(s, who, challenge_ids[0]);
        if result is Ok {
            lemma_claims_sound(after, who, challenge_ids.skip(1));
        }
    }
}

/// A new challenge keeps the market sound.
proof fn lemma_create_challenge_sound(
    s: State,
    creator: Address,
    description: Seq<char>,
    condition: Condition,
    resolve_ledger_seq: u32,
    staking_deadline_seq: u32,
    token: Address,
    category: Seq<char>,
)
    requires
        sound(s),
        create_challenge_in_range(s, creator, resolve_ledger_seq, staking_deadline_seq, token),
    ensures
        sound(
            create_challenge_step(
                s,
                creator,
                description,
                condition,
                resolve_ledger_seq,
                staking_deadline_seq,
                token,
                category,
            ).0,
        ),
{
    let t = create_challenge_step(
        s,
        creator,
        description,
        condition,
        resolve_ledger_seq,
        staking_deadline_seq,
        token,
        category,
    ).0;
    if create_challenge_refusal(
        s,
        creator,
        resolve_ledger_seq,
        staking_deadline_seq,
        token,
    ) is None {
        let next = next_challenge_id(s);
        lemma_books_after_creation(
            s.challenges,
            s.stakes,
            s.challenge_stats,
            next,
            t.challenges[next],
            t.challenge_stats,
        );
    }
}

/// A template that is filed is counted.
proof fn lemma_template_filed(s: State, t: State, creator: Address)
    requires
        sound(s),
        next_template_id(s) < u64::MAX,
        template_count(s, creator) < MAX_TEMPLATES_PER_USER,
        t.templates == s.templates.insert(
            (next_template_id(s), creator),
            t.templates[(next_template_id(s), creator)],
        ),
        t.templates[(next_template_id(s), creator)].template_id == next_template_id(s),
        t.templates[(next_template_id(s), creator)].creator == creator,
        t.template_counts == s.template_counts.insert(
            creator,
            (template_count(s, creator) + 1) as u32,
        ),
        t.next_template_id == Some((next_template_id(s) + 1) as u64),
    ensures
        templates_real(t.templates, t.template_counts, next_template_id(t)),
{
    let key = (next_template_id(s), creator);
    assert(!s.templates.contains_key(key));
    assert(t.templates.dom() =~= s.templates.dom().insert(key));
    assert forall|user: Address| #[trigger]
        templates_filed(t.templates, user) == (if t.template_counts.contains_key(user) {
            t.template_counts[user] as int
        } else {
            0
        }) by {
        assert(templates_filed(s.templates, user) == template_count(s, user));
        lemma_sum_update(s.templates.dom(), one_by(user), one_by(user), key);
    }
}

/// A challenge from a template keeps the market sound.
proof fn lemma_create_from_template_sound(
    s: State,
    creator: Address,
    template_id: u64,
    description: Seq<char>,
)
    requires
        sound(s),
        create_from_template_in_range(s, creator, template_id),
    ensures
        sound(create_from_template_step(s, creator, template_id, description).0),
{
    let t = create_from_template_step(s, creator, template_id, description).0;
    if create_from_template_refusal(s, creator, template_id) is None {
        let next = next_challenge_id(s);
        assert(t.templates.dom() =~= s.templates.dom());
        assert forall|user: Address| #[trigger]
            templates_filed(t.templates, user) == templates_filed(s.templates, user) by {}
        lemma_books_after_creation(
            s.challenges,
            s.stakes,
            s.challenge_stats,
            next,
            t.challenges[next],
            t.challenge_stats,
        );
    }
}

/// A challenge that gets another status and nothing else keeps the market
/// sound.
proof fn lemma_status_sound(s: State, challenge_id: u64, after: ChallengeView, t: State)
    requires
        sound(s),
        s.challenges.contains_key(challenge_id),
        t.challenges == s.challenges.insert(challenge_id, after),
        after == (ChallengeView {
            resolved: after.resolved,
            cancelled: after.cancelled,
            outcome_yes: after.outcome_yes,
            additional_tokens: after.additional_tokens,
            ..s.challenges[challenge_id]
        }),
        !(after.resolved && after.cancelled),
        s.challenges[challenge_id].finalized() ==> after.finalized(),
        s.challenges[challenge_id].resolved ==> after.resolved,
        t.challenge_stats == s.challenge_stats || after.finalized() && t.challenge_stats
            == s.challenge_stats.remove(challenge_id),
        t == (State {
            challenges: t.challenges,
            challenge_stats: t.challenge_stats,
            actions: t.actions,
            multi_token_pools: t.multi_token_pools,
            ..s
        }),
    ensures
        sound(t),
{
    lemma_books_after_status(
        s.challenges,
        s.stakes,
        s.challenge_stats,
        next_challenge_id(s),
        challenge_id,
        after,
        t.challenge_stats,
    );
}

/// A sweep keeps the market sound.
proof fn lemma_cleanup_sound(s: State, before_id: u64)
    requires
        sound(s),
    ensures
        sound(cleanup_old_challenges_step(s, before_id).0),
{
}

/// No more votes are cast than there are relayers.
pub proof fn lemma_votes_at_most_relayers(s: State, challenge_id: u64, set: Seq<u64>)
    ensures
        vote_count(s, challenge_id, set, true) + vote_count(s, challenge_id, set, false)
            <= set.len(),
    decreases set.len(),
{
    reveal(Seq::filter);
    if set.len() > 0 {
        lemma_votes_at_most_relayers(s, challenge_id, set.drop_last());
    }
}

/// One relayer less keeps the relayers in agreement.
proof fn lemma_removal_agrees(s: State, relayer: Address)
    requires
        relayers_agree(s.relayer_set, s.relayer_quorum),
        removal_refusal(s, relayer) is None,
    ensures
        relayers_agree(
            relayer_removed(s, relayer).relayer_set,
            relayer_removed(s, relayer).relayer_quorum,
        ),
{
    let set = relayers(s);
    set.index_of_first_ensures(relayer.id);
    let at = set.index_of_first(relayer.id)->0;
    let rest = set.remove(at);
    assert forall|i: int, j: int| 0 <= i < rest.len() && 0 <= j < rest.len() && i != j implies rest[i]
        != rest[j] by {
        let before_i = if i < at { i } else { i + 1 };
        let before_j = if j < at { j } else { j + 1 };
        assert(rest[i] == set[before_i] && rest[j] == set[before_j]);
    }
}

/// What all providers have put in changes with one of them.
proof fn lemma_provided_after_shift(
    s: State,
    challenge_id: u64,
    provider: Address,
    amount: int,
    shares: int,
)
    requires
        liquidity_real(s.total_liquidity, s.liquidity_positions, s.challenges),
        s.challenges.contains_key(challenge_id),
        shift_in_range(s, challenge_id, provider, amount, shares),
        total_liquidity(s, challenge_id) + amount >= 0,
        position_or_blank(s, challenge_id, provider).shares + shares >= 0,
    ensures
        ({
            let t = liquidity_shifted(s, challenge_id, provider, amount, shares);
            liquidity_real(t.total_liquidity, t.liquidity_positions, t.challenges)
        }),
{
    let t = liquidity_shifted(s, challenge_id, provider, amount, shares);
    let key = (challenge_id, provider);
    let before = s.liquidity_positions;
    let after = t.liquidity_positions;
    assert(after.dom() =~= before.dom().insert(key));
    assert forall|id: u64| #[trigger]
        provided_total(after, id) == (if t.total_liquidity.contains_key(id) {
            t.total_liquidity[id] as int
        } else {
            0
        }) by {
        assert(provided_total(before, id) == (if s.total_liquidity.contains_key(id) {
            s.total_liquidity[id] as int
        } else {
            0
        }));
        lemma_sum_update(before.dom(), provided(before, id), provided(after, id), key);
    }
}

/// Liquidity that is added keeps the market sound.
proof fn lemma_add_liquidity_sound(
    s: State,
    provider: Address,
    challenge_id: u64,
    amount: i128,
)
    requires
        sound(s),
        add_liquidity_in_range(s, challenge_id, provider, amount),
    ensures
        sound(add_liquidity_step(s, provider, challenge_id, amount).0),
{
    if add_liquidity_refusal(s, challenge_id, amount) is None {
        let asked = s.asking(Action::RequireAuth(provider));
        let total = total_liquidity(s, challenge_id);
        let shares = minted_shares(s, challenge_id, amount);
        if total > 0 {
            lemma_quotient_bounds(amount * SHARE_SCALE, total as int);
        }
        lemma_provided_after_shift(asked, challenge_id, provider, amount as int, shares);
        let shifted = liquidity_shifted(asked, challenge_id, provider, amount as int, shares);
        lemma_rewards_after_accrual(shifted, challenge_id, provider, shares as i128);
    }
}

/// A quotient of numbers that are not negative lies between zero and its
/// numerator.
proof fn lemma_quotient_bounds(a: int, b: int)
    requires
        a >= 0,
        b > 0,
    ensures
        0 <= quotient(a, b) <= a,
{
    assert(0 <= a / b <= a) by (nonlinear_arith)
        requires
            a >= 0,
            b > 0,
    ;
}

/// Rewards that are brought up to date are real.
pub proof fn lemma_rewards_after_accrual(
    s: State,
    challenge_id: u64,
    provider: Address,
    shares: i128,
)
    requires
        rewards_real(s.reward_indices, s.reward_accruals),
        accrual_in_range(s, challenge_id, provider, shares),
        shares >= 0,
    ensures
        rewards_real(
            accrued(s, challenge_id, provider, shares).reward_indices,
            accrued(s, challenge_id, provider, shares).reward_accruals,
        ),
{
    if total_liquidity(s, challenge_id) != 0 && shares != 0 {
        let moved = index_moved(s, challenge_id, provider) as int;
        assert(moved * shares >= 0) by (nonlinear_arith)
            requires
                moved >= 0,
                shares >= 0,
        ;
        lemma_quotient_bounds(moved * shares, total_liquidity(s, challenge_id) as int);
    }
}

/// Shares are worth no more than all the liquidity.
pub proof fn lemma_share_value_bounds(
    s: State,
    challenge_id: u64,
    provider: Address,
    shares: i128,
)
    requires
        holds_shares(s, challenge_id, provider, shares),
        total_liquidity(s, challenge_id) >= 0,
    ensures
        0 <= share_value(s, challenge_id, provider, shares) <= total_liquidity(s, challenge_id),
{
    let total = total_liquidity(s, challenge_id) as int;
    let held = s.liquidity_positions[(challenge_id, provider)].shares as int;
    assert(0 <= shares * total <= held * total) by (nonlinear_arith)
        requires
            0 < shares <= held,
            0 <= total,
    ;
    assert(0 <= (shares * total) / held <= total) by (nonlinear_arith)
        requires
            0 <= shares * total <= held * total,
            0 < held,
    ;
}

/// Liquidity that is removed keeps the market sound.
proof fn lemma_remove_liquidity_sound(
    s: State,
    provider: Address,
    challenge_id: u64,
    shares: i128,
)
    requires
        sound(s),
        remove_liquidity_in_range(s, challenge_id, provider, shares),
    ensures
        sound(remove_liquidity_step(s, provider, challenge_id, shares).0),
{
    let asked = s.asking(Action::RequireAuth(provider));
    let examined = remove_liquidity_examined(asked, challenge_id, provider, shares);
    if remove_liquidity_refusal(s, challenge_id, provider, shares) is None {
        lemma_share_value_bounds(s, challenge_id, provider, shares);
        let held = s.liquidity_positions[(challenge_id, provider)].shares;
        lemma_rewards_after_accrual(examined, challenge_id, provider, held);
        lemma_provided_after_shift(
            accrued(examined, challenge_id, provider, held),
            challenge_id,
            provider,
            -share_value(s, challenge_id, provider, shares),
            -shares,
        );
    }
}

/// A request about the settings keeps the market sound.
#[verifier::rlimit(50)]
proof fn lemma_setting_requests_sound(s: State, request: Request)
    requires
        sound(s),
        in_range(s, request),
        request is Initialize
            || request is SetOracleRelayer
            || request is SetProtocolFee
            || request is Pause
            || request is Unpause
            || request is SetMinStake
            || request is AddTokenToWhitelist
            || request is RemoveTokenFromWhitelist
            || request is SetUserVesting
            || request is SetSelfVesting
            || request is CollectFees
            || request is ClearFlashLoanFlag,
        request is Initialize && s.admin is None ==> s.next_challenge_id is None,
    ensures
        sound(served(s, request).0),
{
}

/// A request that creates something keeps the market sound.
#[verifier::rlimit(50)]
proof fn lemma_creation_requests_sound(s: State, request: Request)
    requires
        sound(s),
        in_range(s, request),
        request is CreateChallenge
            || request is CreateTemplate
            || request is CreateFromTemplate,
    ensures
        sound(served(s, request).0),
{
    match request {
        Request::CreateChallenge {
            creator,
            description,
            condition,
            resolve_ledger_seq,
            staking_deadline_seq,
            token,
            category,
        } => {
            lemma_create_challenge_sound(
                s,
                creator,
                description,
                condition,
                resolve_ledger_seq,
                staking_deadline_seq,
                token,
                category,
            );
        },
        Request::CreateTemplate { creator, token, .. } => {
            if create_template_refusal(s, creator, token) is None {
                lemma_template_filed(s, served(s, request).0, creator);
            }
        },
        Request::CreateFromTemplate { creator, template_id, description } => {
            lemma_create_from_template_sound(s, creator, template_id, description);
        },
        _ => {},
    }
}

/// A request that changes the status of a challenge keeps the market sound.
#[verifier::rlimit(50)]
proof fn lemma_resolution_requests_sound(s: State, request: Request)
    requires
        sound(s),
        in_range(s, request),
        request is ResolveNative
            || request is ResolveViaOracle
            || request is CancelChallenge
            || request is ExpireChallenge
            || request is AddChallengeToken
            || request is AggregateOracleOutcomes
            || request is CleanupOldChallenges,
    ensures
        sound(served(s, request).0),
{
    match request {
        Request::ResolveNative { challenge_id } => {
            if resolve_native_refusal(s, challenge_id) is None {
                let t = served(s, request).0;
                lemma_status_sound(s, challenge_id, t.challenges[challenge_id], t);
            }
        },
        Request::ResolveViaOracle { challenge_id, outcome_yes } => {
            if resolve_via_oracle_refusal(s, challenge_id) is None {
                let t = served(s, request).0;
                lemma_status_sound(s, challenge_id, t.challenges[challenge_id], t);
            }
        },
        Request::CancelChallenge { caller, challenge_id } => {
            if cancel_refusal(s, caller, challenge_id) is None {
                let t = served(s, request).0;
                lemma_status_sound(s, challenge_id, t.challenges[challenge_id], t);
            }
        },
        Request::ExpireChallenge { challenge_id } => {
            if expire_refusal(s, challenge_id) is None {
                let t = served(s, request).0;
                lemma_status_sound(s, challenge_id, t.challenges[challenge_id], t);
            }
        },
        Request::AddChallengeToken { challenge_id, token } => {
            if add_token_refusal(s, challenge_id, token) is None {
                let t = served(s, request).0;
                lemma_status_sound(s, challenge_id, t.challenges[challenge_id], t);
            }
        },
        Request::AggregateOracleOutcomes { challenge_id } => {
            if aggregation_refusal(s, challenge_id) is None {
                let t = served(s, request).0;
                let uncounted = State { oracle_results: s.oracle_results, ..t };
                lemma_status_sound(s, challenge_id, t.challenges[challenge_id], uncounted);
                lemma_votes_at_most_relayers(s, challenge_id, relayers(s));
            }
        },
        Request::CleanupOldChallenges { before_id } => {
            lemma_cleanup_sound(s, before_id);
        },
        _ => {},
    }
}

/// A request about stakes keeps the market sound.
#[verifier::rlimit(50)]
proof fn lemma_staking_requests_sound(s: State, request: Request)
    requires
        sound(s),
        in_range(s, request),
        request is Stake
            || request is BatchStake
            || request is Claim
            || request is BatchClaim
            || request is Refund,
    ensures
        sound(served(s, request).0),
{
    match request {
        Request::Stake { who, challenge_id, side_yes, amount } => {
            let asked = s.asking(Action::RequireAuth(who));
            lemma_placement_sound(asked, who, challenge_id, side_yes, amount);
        },
        Request::BatchStake { who, stakes } => {
            if !s.is_paused() {
                lemma_stakes_sound(s.asking(Action::RequireAuth(who)), who, stakes);
            }
        },
        Request::Claim { who, challenge_id } => {
            lemma_settlement_sound(s.asking(Action::RequireAuth(who)), who, challenge_id);
        },
        Request::BatchClaim { who, challenge_ids } => {
            lemma_claims_sound(s.asking(Action::RequireAuth(who)), who, challenge_ids);
        },
        Request::Refund { who, challenge_id } => {
            lemma_repayment_sound(s.asking(Action::RequireAuth(who)), who, challenge_id);
        },
        _ => {},
    }
}

/// A request about relayers keeps the market sound.
#[verifier::rlimit(50)]
proof fn lemma_relayer_requests_sound(s: State, request: Request)
    requires
        sound(s),
        in_range(s, request),
        request is AddRelayer
            || request is RemoveRelayer
            || request is SetQuorumSize
            || request is SlashRelayer
            || request is SubmitOracleOutcome,
    ensures
        sound(served(s, request).0),
{
    match request {
        Request::RemoveRelayer { relayer } => {
            if remove_relayer_refusal(s, relayer) is None {
                lemma_removal_agrees(admin_asked(s), relayer);
            }
        },
        Request::SlashRelayer { relayer, .. } => {
            if slash_refusal(s, relayer) is None && is_last_slash(s, relayer) {
                lemma_removal_agrees(admin_asked(s), relayer);
            }
        },
        _ => {},
    }
}

/// A request about liquidity keeps the market sound.
#[verifier::rlimit(50)]
proof fn lemma_liquidity_requests_sound(s: State, request: Request)
    requires
        sound(s),
        in_range(s, request),
        request is AddLiquidity
            || request is RemoveLiquidity
            || request is ClaimRewards
            || request is GetPendingRewards
            || request is UpdateChallengeRewardIndex,
    ensures
        sound(served(s, request).0),
{
    match request {
        Request::AddLiquidity { provider, challenge_id, amount } => {
            lemma_add_liquidity_sound(s, provider, challenge_id, amount);
        },
        Request::RemoveLiquidity { provider, challenge_id, shares } => {
            lemma_remove_liquidity_sound(s, provider, challenge_id, shares);
        },
        Request::ClaimRewards { provider, challenge_id } => {
            let asked = s.asking(Action::RequireAuth(provider));
            let shares = s.liquidity_positions[(challenge_id, provider)].shares;
            if s.reward_accruals.contains_key((challenge_id, provider))
                && s.liquidity_positions.contains_key((challenge_id, provider)) {
                lemma_rewards_after_accrual(asked, challenge_id, provider, shares);
            }
        },
        Request::GetPendingRewards { challenge_id, provider } => {
            let shares = s.liquidity_positions[(challenge_id, provider)].shares;
            if s.liquidity_positions.contains_key((challenge_id, provider)) {
                lemma_rewards_after_accrual(s, challenge_id, provider, shares);
            }
        },
        _ => {},
    }
}

/// A request about disputes keeps the market sound.
#[verifier::rlimit(50)]
proof fn lemma_dispute_requests_sound(s: State, request: Request)
    requires
        sound(s),
        in_range(s, request),
        request is FileDispute
            || request is ResolveDispute,
    ensures
        sound(served(s, request).0),
{
    match request {
        Request::ResolveDispute { challenge_id, disputer, successful } => {
            if resolve_dispute_refusal(s, challenge_id, disputer) is None && successful {
                let t = served(s, request).0;
                let closed = State { disputes: t.disputes, ..s };
                lemma_status_sound(closed, challenge_id, t.challenges[challenge_id], t);
            }
        },
        _ => {},
    }
}

/// Whatever is asked of a sound market leaves it sound, except to set it up
/// after challenges were created in it.
#[verifier::rlimit(50)]
pub proof fn law_requests_keep_markets_sound(s: State, request: Request)
    requires
        sound(s),
        in_range(s, request),
        request is Initialize && s.admin is None ==> s.next_challenge_id is None,
    ensures
        sound(served(s, request).0),
{
    match request {
        Request::Initialize { .. }
        | Request::SetOracleRelayer { .. }
        | Request::SetProtocolFee { .. }
        | Request::Pause
        | Request::Unpause
        | Request::SetMinStake { .. }
        | Request::AddTokenToWhitelist { .. }
        | Request::RemoveTokenFromWhitelist { .. }
        | Request::SetUserVesting { .. }
        | Request::SetSelfVesting { .. }
        | Request::CollectFees { .. }
        | Request::ClearFlashLoanFlag { .. } => {
            lemma_setting_requests_sound(s, request);
        },
        Request::CreateChallenge { .. }
        | Request::CreateTemplate { .. }
        | Request::CreateFromTemplate { .. } => {
            lemma_creation_requests_sound(s, request);
        },
        Request::ResolveNative { .. }
        | Request::ResolveViaOracle { .. }
        | Request::CancelChallenge { .. }
        | Request::ExpireChallenge { .. }
        | Request::AddChallengeToken { .. }
        | Request::AggregateOracleOutcomes { .. }
        | Request::CleanupOldChallenges { .. } => {
            lemma_resolution_requests_sound(s, request);
        },
        Request::Stake { .. }
        | Request::BatchStake { .. }
        | Request::Claim { .. }
        | Request::BatchClaim { .. }
        | Request::Refund { .. } => {
            lemma_staking_requests_sound(s, request);
        },
        Request::AddRelayer { .. }
        | Request::RemoveRelayer { .. }
        | Request::SetQuorumSize { .. }
        | Request::SlashRelayer { .. }
        | Request::SubmitOracleOutcome { .. } => {
            lemma_relayer_requests_sound(s, request);
        },
        Request::AddLiquidity { .. }
        | Request::RemoveLiquidity { .. }
        | Request::ClaimRewards { .. }
        | Request::GetPendingRewards { .. }
        | Request::UpdateChallengeRewardIndex { .. } => {
            lemma_liquidity_requests_sound(s, request);
        },
        Request::FileDispute { .. }
        | Request::ResolveDispute { .. } => {
            lemma_dispute_requests_sound(s, request);
        },
    }
}

/// A sound market stays sound whatever is asked of it, in whatever order.
pub proof fn law_visits_keep_markets_sound(s: State, visits: Seq<Visit>)
    requires
        sound(s),
        all_orderly(s, visits),
    ensures
        sound(after_visits(s, visits)),
    decreases visits.len(),
{
    if visits.len() > 0 {
        law_visits_keep_markets_sound(s, visits.drop_last());
        let before = after_visits(s, visits.drop_last());
        let visit = visits.last();
        law_requests_keep_markets_sound(
            later(before, visit.timestamp, visit.sequence),
            visit.request,
        );
    }
}

/// A market starts out sound, and so it is sound whatever was asked of it.
pub proof fn law_every_market_is_sound(
    contract: Address,
    timestamp: u64,
    sequence: u32,
    visits: Seq<Visit>,
)
    requires
        all_orderly(empty_state(contract, timestamp, sequence), visits),
    ensures
        sound(empty_state(contract, timestamp, sequence)),
        sound(after_visits(empty_state(contract, timestamp, sequence), visits)),
{
    let s = empty_state(contract, timestamp, sequence);
    assert forall|id: u64| #[trigger] provided_total(s.liquidity_positions, id) == 0 by {
        lemma_sum_zero(s.liquidity_positions.dom(), provided(s.liquidity_positions, id));
    }
    assert forall|user: Address| #[trigger] templates_filed(s.templates, user) == 0 by {
        lemma_sum_zero(s.templates.dom(), one_by(user));
    }
    law_visits_keep_markets_sound(s, visits);
}

/// No request of these kinds runs into a number that is out of range while the
/// market is sound: to pay a stake back, or to remove or slash a relayer.
pub proof fn law_sound_markets_stay_in_range(s: State, request: Request)
    requires
        sound(s),
        request is Refund || request is RemoveRelayer || request is SlashRelayer,
    ensures
        in_range(s, request),
{
    match request {
        Request::Refund { who, challenge_id } => {
            if refund_finds_stake(s, who, challenge_id) {
                lemma_stake_within_pools(s, who, challenge_id);
            }
        },
        _ => {},
    }
}

/// What a user has on a side is at most what is in the pool.
pub proof fn lemma_stake_within_pools(s: State, who: Address, challenge_id: u64)
    requires
        sound(s),
        s.stakes.contains_key((challenge_id, who)),
    ensures
        0 <= s.stakes[(challenge_id, who)].yes_amount <= s.challenges[challenge_id].pool_yes,
        0 <= s.stakes[(challenge_id, who)].no_amount <= s.challenges[challenge_id].pool_no,
{
    let key = (challenge_id, who);
    assert(s.challenges.contains_key(challenge_id));
    lemma_sum_bounds_part(s.stakes.dom(), side_amount(s.stakes, challenge_id, true), key);
    lemma_sum_bounds_part(s.stakes.dom(), side_amount(s.stakes, challenge_id, false), key);
}

} // verus!
