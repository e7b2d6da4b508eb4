//! What the market owes, and that it holds as much.

use vstd::prelude::*;

use crate::challenges::next_challenge_id;
use crate::context::State;
use crate::context::empty_state;
use crate::disputes::dispute_bonus;
use crate::disputes::dispute_return;
use crate::disputes::resolve_dispute_in_range;
use crate::disputes::resolve_dispute_step;
use crate::history::law_requests_take_nothing_back;
use crate::laws::continues;
use crate::laws::due;
use crate::laws::law_claims_draw_on_what_is_due;
use crate::laws::law_claims_pay_what_is_due;
use crate::laws::law_fee_is_part_of_payout;
use crate::laws::law_payouts_are_covered;
use crate::laws::law_refunds_are_covered;
use crate::laws::law_refunds_draw_on_what_is_owed;
use crate::laws::law_refused_requests_move_nothing;
use crate::laws::owed_back;
use crate::laws::still_due;
use crate::liquidity::claim_rewards_in_range;
use crate::liquidity::claim_rewards_step;
use crate::liquidity::total_liquidity;
use crate::payouts::pools;
use crate::requests::Request;
use crate::requests::Visit;
use crate::requests::after_visits;
use crate::requests::all_orderly;
use crate::requests::in_range;
use crate::requests::later;
use crate::requests::served;
use crate::settings::collect_fees_step;
use crate::soundness::law_every_market_is_sound;
use crate::soundness::law_requests_keep_markets_sound;
use crate::soundness::law_visits_keep_markets_sound;
use crate::soundness::lemma_placement_sound;
use crate::soundness::lemma_settlement_sound;
use crate::soundness::lemma_share_value_bounds;
use crate::soundness::lemma_stake_within_pools;
use crate::soundness::sound;
use crate::staking::claim_in_range;
use crate::staking::claim_step;
use crate::staking::claims_in_range;
use crate::staking::claims_paid_in_turn;
use crate::staking::fee_balance;
use crate::staking::placement;
use crate::staking::refund_step;
use crate::staking::repayment;
use crate::staking::settlement;
use crate::staking::stake_in_range;
use crate::staking::stakes_in_range;
use crate::staking::stakes_placed_in_turn;
use crate::staking::winning_amount;
use crate::sums::lemma_sum_nonnegative;
use crate::sums::lemma_sum_same;
use crate::sums::lemma_sum_scaled_at_most;
use crate::sums::lemma_sum_update;
use crate::sums::lemma_sum_zero;
use crate::sums::sum;
use crate::types::Action;
use crate::types::Address;
use crate::types::DisputeView;

verus! {

/// What the market owes to those who staked on a challenge: all of it as long
/// as the challenge is open, what the winners have not claimed once it is
/// resolved, what was not paid back if it was cancelled.
pub open spec fn owed_to_stakers(s: State, challenge_id: u64) -> int {
    let challenge = s.challenges[challenge_id];
    if challenge.cancelled {
        sum(s.stakes.dom(), owed_back(s, challenge_id))
    } else if challenge.resolved {
        sum(s.stakes.dom(), still_due(s, challenge_id))
    } else {
        challenge.pool_yes + challenge.pool_no
    }
}

/// What was staked on a dispute that is not decided yet.
pub open spec fn open_stake(
    disputes: Map<(u64, Address), DisputeView>,
    challenge_id: u64,
) -> spec_fn((u64, Address)) -> int {
    |key: (u64, Address)|
        if key.0 == challenge_id && !disputes[key].resolved {
            disputes[key].stake as int
        } else {
            0
        }
}

/// What the market holds for those who dispute a challenge.
pub open spec fn owed_to_disputers(
    disputes: Map<(u64, Address), DisputeView>,
    challenge_id: u64,
) -> int {
    sum(disputes.dom(), open_stake(disputes, challenge_id))
}

/// What the market owes on account of a challenge.
pub open spec fn owed_on(s: State, challenge_id: u64) -> int {
    owed_to_stakers(s, challenge_id) + owed_to_disputers(s.disputes, challenge_id)
        + total_liquidity(s, challenge_id)
}

/// What the market owes on account of each challenge, in a token.
pub open spec fn owed_in(s: State, token: Address) -> spec_fn(u64) -> int {
    |id: u64|
        if s.challenges[id].token == token {
            owed_on(s, id)
        } else {
            0
        }
}

/// What the market owes in a token: to stakers, disputers and liquidity
/// providers, and the fees that the admin can collect.
pub open spec fn owed(s: State, token: Address) -> int {
    sum(s.challenges.dom(), owed_in(s, token)) + fee_balance(s, token)
}

/// What an action brings the market in a token.
pub open spec fn inflow(action: Action, market: Address, token: Address) -> int {
    match action {
        Action::Transfer { token: moved, from, to, amount } => if moved != token {
            0
        } else {
            (if to == market {
                amount as int
            } else {
                0
            }) - (if from == market {
                amount as int
            } else {
                0
            })
        },
        _ => 0,
    }
}

/// What actions bring the market in a token, taken together.
pub open spec fn net_inflow(actions: Seq<Action>, market: Address, token: Address) -> int
    decreases actions.len(),
{
    if actions.len() == 0 {
        0
    } else {
        net_inflow(actions.drop_last(), market, token) + inflow(actions.last(), market, token)
    }
}

/// What a step brings the market is at least what it adds to what is owed.
pub open spec fn stays_covered(s: State, t: State, token: Address) -> bool {
    net_inflow(t.actions, s.contract, token) - net_inflow(s.actions, s.contract, token) >= owed(
        t,
        token,
    ) - owed(s, token)
}

/// The accounts of a challenge are the same.
pub open spec fn same_account(s: State, t: State, challenge_id: u64) -> bool {
    let before = s.challenges[challenge_id];
    let after = t.challenges[challenge_id];
    &&& after.pool_yes == before.pool_yes
    &&& after.pool_no == before.pool_no
    &&& after.resolved == before.resolved
    &&& after.cancelled == before.cancelled
    &&& after.outcome_yes == before.outcome_yes
}

/// What is owed to those who staked on a challenge depends on its accounts and
/// their stakes alone.
proof fn lemma_stakers_same(s: State, t: State, challenge_id: u64)
    requires
        s.stakes.dom().finite(),
        t.stakes == s.stakes,
        same_account(s, t, challenge_id),
    ensures
        owed_to_stakers(t, challenge_id) == owed_to_stakers(s, challenge_id),
{
    lemma_sum_same(s.stakes.dom(), owed_back(s, challenge_id), owed_back(t, challenge_id));
    lemma_sum_same(s.stakes.dom(), still_due(s, challenge_id), still_due(t, challenge_id));
}

/// A stake on one challenge does not touch what is owed on another.
proof fn lemma_stakers_elsewhere(s: State, t: State, key: (u64, Address), challenge_id: u64)
    requires
        s.stakes.dom().finite(),
        t.stakes == s.stakes.insert(key, t.stakes[key]),
        key.0 != challenge_id,
        t.challenges[challenge_id] == s.challenges[challenge_id],
    ensures
        owed_to_stakers(t, challenge_id) == owed_to_stakers(s, challenge_id),
{
    assert(t.stakes.dom() =~= s.stakes.dom().insert(key));
    lemma_sum_update(s.stakes.dom(), owed_back(s, challenge_id), owed_back(t, challenge_id), key);
    lemma_sum_update(s.stakes.dom(), still_due(s, challenge_id), still_due(t, challenge_id), key);
}

/// Where every challenge's account stands as it did, so does what is owed.
proof fn lemma_owed_same(s: State, t: State, token: Address)
    requires
        s.challenges.dom().finite(),
        t.challenges.dom() == s.challenges.dom(),
        t.fee_balances == s.fee_balances,
        forall|id: u64| #[trigger]
            s.challenges.contains_key(id) ==> t.challenges[id].token == s.challenges[id].token
                && owed_on(t, id) == owed_on(s, id),
    ensures
        owed(t, token) == owed(s, token),
{
    lemma_sum_same(s.challenges.dom(), owed_in(s, token), owed_in(t, token));
}

/// Where one challenge's account changes, what is owed changes with it.
proof fn lemma_owed_one(s: State, t: State, token: Address, challenge_id: u64)
    requires
        s.challenges.dom().finite(),
        t.challenges.dom() == s.challenges.dom(),
        s.challenges.contains_key(challenge_id),
        t.challenges[challenge_id].token == s.challenges[challenge_id].token,
        forall|id: u64| #[trigger]
            s.challenges.contains_key(id) && id != challenge_id ==> t.challenges[id].token
                == s.challenges[id].token && owed_on(t, id) == owed_on(s, id),
    ensures
        owed(t, token) - owed(s, token) == fee_balance(t, token) - fee_balance(s, token) + (
        if s.challenges[challenge_id].token == token {
            owed_on(t, challenge_id) - owed_on(s, challenge_id)
        } else {
            0
        }),
{
    assert(s.challenges.dom().insert(challenge_id) =~= s.challenges.dom());
    lemma_sum_update(
        s.challenges.dom(),
        owed_in(s, token),
        owed_in(t, token),
        challenge_id,
    );
}

/// Actions among which there is no transfer bring nothing.
proof fn lemma_no_inflow(earlier: Seq<Action>, later: Seq<Action>, market: Address, token: Address)
    requires
        continues(earlier, later),
        forall|i: int| earlier.len() <= i < later.len() ==> !(#[trigger] later[i] is Transfer),
    ensures
        net_inflow(later, market, token) == net_inflow(earlier, market, token),
    decreases later.len(),
{
    if later.len() == earlier.len() {
        assert(later =~= earlier);
    } else {
        lemma_no_inflow(earlier, later.drop_last(), market, token);
    }
}

/// Actions among which there is one transfer bring what that brings.
proof fn lemma_one_inflow(
    earlier: Seq<Action>,
    later: Seq<Action>,
    at: int,
    market: Address,
    token: Address,
)
    requires
        continues(earlier, later),
        earlier.len() <= at < later.len(),
        forall|i: int|
            earlier.len() <= i < later.len() && i != at ==> !(#[trigger] later[i] is Transfer),
    ensures
        net_inflow(later, market, token) == net_inflow(earlier, market, token) + inflow(
            later[at],
            market,
            token,
        ),
    decreases later.len(),
{
    let shorter = later.drop_last();
    if at == later.len() - 1 {
        lemma_no_inflow(earlier, shorter, market, token);
    } else {
        lemma_one_inflow(earlier, shorter, at, market, token);
    }
}

/// No tokens move and no account changes.
pub open spec fn quiet(s: State, t: State) -> bool {
    &&& continues(s.actions, t.actions)
    &&& forall|i: int|
        s.actions.len() <= i < t.actions.len() ==> !(#[trigger] t.actions[i] is Transfer)
    &&& t.stakes == s.stakes
    &&& t.disputes == s.disputes
    &&& t.total_liquidity == s.total_liquidity
    &&& t.fee_balances == s.fee_balances
    &&& t.challenges.dom() == s.challenges.dom()
    &&& forall|id: u64| #[trigger]
        s.challenges.contains_key(id) ==> same_account(s, t, id) && t.challenges[id].token
            == s.challenges[id].token
}

/// Where no tokens move and no account changes, nothing is gained or owed.
proof fn lemma_quiet_covered(s: State, t: State, token: Address)
    requires
        sound(s),
        quiet(s, t),
    ensures
        stays_covered(s, t, token),
{
    assert forall|id: u64| #[trigger] s.challenges.contains_key(id) implies owed_on(t, id) == owed_on(
        s,
        id,
    ) by {
        lemma_stakers_same(s, t, id);
    }
    lemma_owed_same(s, t, token);
    lemma_no_inflow(s.actions, t.actions, s.contract, token);
}

/// A request about settings that is served is quiet.
#[verifier::rlimit(50)]
proof fn lemma_settings_quiet(s: State, request: Request)
    requires
        served(s, request).1 is None,
        request is Initialize || request is SetOracleRelayer || request is SetProtocolFee
            || request is Pause || request is Unpause || request is SetMinStake
            || request is AddTokenToWhitelist || request is RemoveTokenFromWhitelist
            || request is SetUserVesting || request is SetSelfVesting
            || request is ClearFlashLoanFlag || request is CreateTemplate,
    ensures
        quiet(s, served(s, request).0),
{
    assert(served(s, request).0.challenges =~= s.challenges);
}

/// A request about relayers or rewards, or to add a token to a challenge or
/// sweep old ones, is quiet if it is served.
#[verifier::rlimit(50)]
proof fn lemma_upkeep_quiet(s: State, request: Request)
    requires
        served(s, request).1 is None,
        request is AddRelayer || request is RemoveRelayer || request is SetQuorumSize
            || request is SlashRelayer || request is SubmitOracleOutcome
            || request is AddChallengeToken || request is CleanupOldChallenges
            || request is GetPendingRewards || request is UpdateChallengeRewardIndex,
    ensures
        quiet(s, served(s, request).0),
{
    assert(served(s, request).0.challenges.dom() =~= s.challenges.dom());
}

/// A request that is refused leaves the market as it was.
proof fn lemma_refused_covered(s: State, request: Request, token: Address)
    requires
        sound(s),
        served(s, request).1 is Some,
        !(request is BatchStake),
        !(request is BatchClaim),
    ensures
        stays_covered(s, served(s, request).0, token),
{
    law_refused_requests_move_nothing(s, request);
    lemma_quiet_covered(s, served(s, request).0, token);
}

/// A new challenge owes nothing.
proof fn lemma_creation_covered(s: State, t: State, token: Address)
    requires
        sound(s),
        !s.challenges.contains_key(next_challenge_id(s)),
        t.challenges == s.challenges.insert(
            next_challenge_id(s),
            t.challenges[next_challenge_id(s)],
        ),
        t.challenges[next_challenge_id(s)].pool_yes == 0,
        t.challenges[next_challenge_id(s)].pool_no == 0,
        !t.challenges[next_challenge_id(s)].finalized(),
        t.stakes == s.stakes,
        t.disputes == s.disputes,
        t.total_liquidity == s.total_liquidity,
        t.fee_balances == s.fee_balances,
        continues(s.actions, t.actions),
        forall|i: int|
            s.actions.len() <= i < t.actions.len() ==> !(#[trigger] t.actions[i] is Transfer),
    ensures
        stays_covered(s, t, token),
{
    let id = next_challenge_id(s);
    let keys = s.challenges.dom();
    lemma_sum_zero(s.disputes.dom(), open_stake(s.disputes, id));
    assert(owed_on(t, id) == 0);
    assert forall|other: u64| keys.contains(other) && other != id implies #[trigger] owed_in(
        s,
        token,
    )(other) == owed_in(t, token)(other) by {
        lemma_stakers_same(s, t, other);
    }
    assert(t.challenges.dom() =~= keys.insert(id));
    lemma_sum_update(keys, owed_in(s, token), owed_in(t, token), id);
    lemma_no_inflow(s.actions, t.actions, s.contract, token);
}

/// A challenge that ends owes no more than was staked on it.
proof fn lemma_ended_owes_no_more(s: State, challenge_id: u64)
    requires
        sound(s),
        s.challenges.contains_key(challenge_id),
    ensures
        owed_to_stakers(s, challenge_id) <= s.challenges[challenge_id].pool_yes
            + s.challenges[challenge_id].pool_no,
{
    law_refunds_are_covered(s, challenge_id);
    law_payouts_are_covered(s, challenge_id);
    let keys = s.stakes.dom();
    assert forall|k: (u64, Address)| keys.contains(k) implies 1 * #[trigger] still_due(
        s,
        challenge_id,
    )(k) <= 1 * due(s, challenge_id)(k) by {
        assert(s.stakes.contains_key(k));
        if k.0 == challenge_id {
            let challenge = s.challenges[challenge_id];
            let (winning_pool, losing_pool) = pools(challenge);
            law_fee_is_part_of_payout(
                winning_amount(challenge, s.stakes[k]) as int,
                winning_pool as int,
                losing_pool as int,
                0,
            );
        }
    }
    lemma_sum_scaled_at_most(keys, still_due(s, challenge_id), 1, due(s, challenge_id), 1);
}

/// To end a challenge takes nothing and owes no more.
proof fn lemma_ending_covered(s: State, t: State, challenge_id: u64, token: Address)
    requires
        sound(s),
        sound(t),
        s.challenges.contains_key(challenge_id),
        !s.challenges[challenge_id].finalized(),
        t.challenges == s.challenges.insert(challenge_id, t.challenges[challenge_id]),
        t.challenges[challenge_id].token == s.challenges[challenge_id].token,
        t.challenges[challenge_id].pool_yes == s.challenges[challenge_id].pool_yes,
        t.challenges[challenge_id].pool_no == s.challenges[challenge_id].pool_no,
        t.stakes == s.stakes,
        t.disputes == s.disputes,
        t.total_liquidity == s.total_liquidity,
        t.fee_balances == s.fee_balances,
        continues(s.actions, t.actions),
        forall|i: int|
            s.actions.len() <= i < t.actions.len() ==> !(#[trigger] t.actions[i] is Transfer),
    ensures
        stays_covered(s, t, token),
{
    assert forall|id: u64| #[trigger]
        s.challenges.contains_key(id) && id != challenge_id implies t.challenges[id].token
        == s.challenges[id].token && owed_on(t, id) == owed_on(s, id) by {
        lemma_stakers_same(s, t, id);
    }
    assert(t.challenges.dom() =~= s.challenges.dom());
    lemma_owed_one(s, t, token, challenge_id);
    lemma_ended_owes_no_more(t, challenge_id);
    lemma_no_inflow(s.actions, t.actions, s.contract, token);
}

/// The market itself is the one who would pay the market.
pub open spec fn pays_itself(market: Address, request: Request) -> bool {
    match request {
        Request::Stake { who, .. } => who == market,
        Request::BatchStake { who, .. } => who == market,
        Request::AddLiquidity { provider, .. } => provider == market,
        Request::FileDispute { disputer, .. } => disputer == market,
        _ => false,
    }
}

/// To decide a dispute for the disputer takes at least the bonus off what is
/// due to the stakers, since another side has won.
pub open spec fn bonus_funded(s: State, challenge_id: u64, disputer: Address) -> bool {
    let t = resolve_dispute_step(s, challenge_id, disputer, true).0;
    owed_to_stakers(t, challenge_id) + dispute_bonus(s.disputes[(challenge_id, disputer)].stake)
        <= owed_to_stakers(s, challenge_id)
}

/// Somebody pays for the request: the market does not pay itself, a bonus for
/// a disputer comes out of what was due to the stakers, and rewards, which come
/// out of what the market holds for others, go to nobody else.
pub open spec fn funded(s: State, request: Request) -> bool {
    served(s, request).1 is None || request is BatchStake ==> {
        &&& !pays_itself(s.contract, request)
        &&& request matches Request::ClaimRewards { provider, .. } ==> provider == s.contract
        &&& request matches Request::ResolveDispute { challenge_id, disputer, successful }
            ==> successful ==> bonus_funded(s, challenge_id, disputer)
    }
}

/// A stake brings what it adds to what is owed.
proof fn lemma_placement_covered(
    s: State,
    who: Address,
    challenge_id: u64,
    side_yes: bool,
    amount: i128,
    token: Address,
)
    requires
        sound(s),
        stake_in_range(s, who, challenge_id, side_yes, amount),
        who != s.contract || placement(s, who, challenge_id, side_yes, amount).1 is Err,
    ensures
        stays_covered(s, placement(s, who, challenge_id, side_yes, amount).0, token),
{
    let (t, result) = placement(s, who, challenge_id, side_yes, amount);
    if result is Ok {
        let key = (challenge_id, who);
        assert forall|id: u64| #[trigger]
            s.challenges.contains_key(id) && id != challenge_id implies t.challenges[id].token
            == s.challenges[id].token && owed_on(t, id) == owed_on(s, id) by {
            lemma_stakers_elsewhere(s, t, key, id);
        }
        assert(t.challenges.dom() =~= s.challenges.dom());
        lemma_owed_one(s, t, token, challenge_id);
        lemma_one_inflow(s.actions, t.actions, s.actions.len() as int + 1, s.contract, token);
    } else {
        assert(t.challenges.dom() =~= s.challenges.dom());
        lemma_quiet_covered(s, t, token);
    }
}

/// A claim takes no more than it takes off what is owed.
proof fn lemma_settlement_covered(s: State, who: Address, challenge_id: u64, token: Address)
    requires
        sound(s),
        claim_in_range(s, who, challenge_id),
    ensures
        stays_covered(s, settlement(s, who, challenge_id).0, token),
{
    let (t, result) = settlement(s, who, challenge_id);
    if result is Ok {
        let key = (challenge_id, who);
        assert forall|id: u64| #[trigger]
            s.challenges.contains_key(id) && id != challenge_id implies t.challenges[id].token
            == s.challenges[id].token && owed_on(t, id) == owed_on(s, id) by {
            lemma_stakers_elsewhere(s, t, key, id);
        }
        lemma_owed_one(s, t, token, challenge_id);
        law_claims_pay_what_is_due(s, who, challenge_id);
        law_claims_draw_on_what_is_due(s, who, challenge_id);
        let claimed = claim_step(s, who, challenge_id).0;
        assert(claimed.stakes == t.stakes);
        lemma_sum_same(
            t.stakes.dom(),
            still_due(claimed, challenge_id),
            still_due(t, challenge_id),
        );
        lemma_one_inflow(s.actions, t.actions, s.actions.len() as int + 2, s.contract, token);
    } else {
        lemma_quiet_covered(s, t, token);
    }
}

/// A refund takes no more than it takes off what is owed.
proof fn lemma_repayment_covered(s: State, who: Address, challenge_id: u64, token: Address)
    requires
        sound(s),
    ensures
        stays_covered(s, repayment(s, who, challenge_id).0, token),
{
    let (t, result) = repayment(s, who, challenge_id);
    if result is Ok {
        let key = (challenge_id, who);
        assert forall|id: u64| #[trigger]
            s.challenges.contains_key(id) && id != challenge_id implies t.challenges[id].token
            == s.challenges[id].token && owed_on(t, id) == owed_on(s, id) by {
            lemma_stakers_elsewhere(s, t, key, id);
        }
        lemma_owed_one(s, t, token, challenge_id);
        law_refunds_draw_on_what_is_owed(s, who, challenge_id);
        let repaid = refund_step(s, who, challenge_id).0;
        assert(repaid.stakes == t.stakes);
        lemma_sum_same(
            t.stakes.dom(),
            owed_back(repaid, challenge_id),
            owed_back(t, challenge_id),
        );
        lemma_stake_within_pools(s, who, challenge_id);
        lemma_one_inflow(s.actions, t.actions, s.actions.len() as int + 2, s.contract, token);
    } else {
        lemma_quiet_covered(s, t, token);
    }
}

/// To collect fees takes what is owed in fees.
proof fn lemma_collection_covered(s: State, collected: Address, recipient: Address, token: Address)
    requires
        sound(s),
        collect_fees_step(s, collected, recipient).1 is Ok,
    ensures
        stays_covered(s, collect_fees_step(s, collected, recipient).0, token),
{
    let t = collect_fees_step(s, collected, recipient).0;
    assert forall|id: u64| s.challenges.dom().contains(id) implies #[trigger] owed_in(s, token)(id)
        == owed_in(t, token)(id) by {
        lemma_stakers_same(s, t, id);
    }
    lemma_sum_same(s.challenges.dom(), owed_in(s, token), owed_in(t, token));
    lemma_one_inflow(s.actions, t.actions, s.actions.len() as int + 1, s.contract, token);
}

/// What liquidity brings or takes is what it adds to what is owed, or takes
/// off it.
proof fn lemma_liquidity_covered(s: State, request: Request, token: Address)
    requires
        sound(s),
        in_range(s, request),
        served(s, request).1 is None,
        request is AddLiquidity || request is RemoveLiquidity,
        request matches Request::AddLiquidity { provider, .. } ==> provider != s.contract,
    ensures
        stays_covered(s, served(s, request).0, token),
{
    let t = served(s, request).0;
    let challenge_id = match request {
        Request::AddLiquidity { challenge_id, .. } => challenge_id,
        Request::RemoveLiquidity { challenge_id, .. } => challenge_id,
        _ => 0,
    };
    if let Request::RemoveLiquidity { provider, shares, .. } = request {
        lemma_share_value_bounds(s, challenge_id, provider, shares);
    }
    assert forall|id: u64| #[trigger]
        s.challenges.contains_key(id) && id != challenge_id implies t.challenges[id].token
        == s.challenges[id].token && owed_on(t, id) == owed_on(s, id) by {
        lemma_stakers_same(s, t, id);
    }
    lemma_owed_one(s, t, token, challenge_id);
    lemma_stakers_same(s, t, challenge_id);
    lemma_one_inflow(s.actions, t.actions, s.actions.len() as int + 1, s.contract, token);
}

/// What a dispute brings is what it adds to what is owed.
proof fn lemma_filing_covered(s: State, request: Request, token: Address)
    requires
        sound(s),
        in_range(s, request),
        served(s, request).1 is None,
        request matches Request::FileDispute { disputer, .. } && disputer != s.contract,
    ensures
        stays_covered(s, served(s, request).0, token),
{
    let t = served(s, request).0;
    let key = match request {
        Request::FileDispute { challenge_id, disputer, .. } => (challenge_id, disputer),
        _ => (0, s.contract),
    };
    assert(t.disputes.dom() =~= s.disputes.dom().insert(key));
    assert forall|id: u64| #[trigger] s.challenges.contains_key(id) implies owed_to_stakers(t, id)
        == owed_to_stakers(s, id) && (id != key.0 ==> owed_on(t, id) == owed_on(s, id)) by {
        lemma_stakers_same(s, t, id);
        lemma_sum_update(
            s.disputes.dom(),
            open_stake(s.disputes, id),
            open_stake(t.disputes, id),
            key,
        );
    }
    lemma_owed_one(s, t, token, key.0);
    lemma_sum_update(
        s.disputes.dom(),
        open_stake(s.disputes, key.0),
        open_stake(t.disputes, key.0),
        key,
    );
    lemma_one_inflow(s.actions, t.actions, s.actions.len() as int + 1, s.contract, token);
}

/// What the decision of a dispute takes off what is owed, and what it takes
/// out of the market: the stake, and if it is decided for the disputer, the
/// bonus.
proof fn lemma_decision_costs(
    s: State,
    challenge_id: u64,
    disputer: Address,
    successful: bool,
    token: Address,
)
    requires
        sound(s),
        resolve_dispute_in_range(s, challenge_id, disputer, successful),
        resolve_dispute_step(s, challenge_id, disputer, successful).1 is Ok,
    ensures
        ({
            let t = resolve_dispute_step(s, challenge_id, disputer, successful).0;
            let stake = s.disputes[(challenge_id, disputer)].stake;
            let paid = if successful {
                dispute_return(stake)
            } else {
                stake as int
            };
            let recipient = if successful {
                disputer
            } else {
                s.admin->0
            };
            let ours = s.challenges[challenge_id].token == token;
            &&& owed(t, token) == owed(s, token) + (if ours {
                owed_to_stakers(t, challenge_id) - owed_to_stakers(s, challenge_id) - stake
            } else {
                0
            })
            &&& net_inflow(t.actions, s.contract, token) == net_inflow(s.actions, s.contract, token)
                - (if ours && recipient != s.contract {
                paid
            } else {
                0
            })
            &&& !successful ==> owed_to_stakers(t, challenge_id) == owed_to_stakers(s, challenge_id)
        }),
{
    let t = resolve_dispute_step(s, challenge_id, disputer, successful).0;
    let key = (challenge_id, disputer);
    assert(t.disputes.dom() =~= s.disputes.dom().insert(key));
    assert(t.challenges.dom() =~= s.challenges.dom());
    assert forall|id: u64| #[trigger]
        s.challenges.contains_key(id) && id != challenge_id implies t.challenges[id].token
        == s.challenges[id].token && owed_on(t, id) == owed_on(s, id) by {
        lemma_stakers_same(s, t, id);
        lemma_sum_update(
            s.disputes.dom(),
            open_stake(s.disputes, id),
            open_stake(t.disputes, id),
            key,
        );
    }
    lemma_owed_one(s, t, token, challenge_id);
    if !successful {
        lemma_stakers_same(s, t, challenge_id);
    }
    lemma_sum_update(
        s.disputes.dom(),
        open_stake(s.disputes, challenge_id),
        open_stake(t.disputes, challenge_id),
        key,
    );
    lemma_one_inflow(s.actions, t.actions, s.actions.len() as int + 1, s.contract, token);
}

/// Rewards that are claimed change nothing in what is owed, and leave the
/// market.
proof fn lemma_rewards_cost(s: State, provider: Address, challenge_id: u64, token: Address)
    requires
        sound(s),
        claim_rewards_step(s, provider, challenge_id).1 is Ok,
    ensures
        ({
            let (t, result) = claim_rewards_step(s, provider, challenge_id);
            &&& owed(t, token) == owed(s, token)
            &&& net_inflow(t.actions, s.contract, token) == net_inflow(s.actions, s.contract, token)
                - (if s.challenges[challenge_id].token == token && provider != s.contract {
                result->Ok_0 as int
            } else {
                0
            })
        }),
{
    let t = claim_rewards_step(s, provider, challenge_id).0;
    assert forall|id: u64| #[trigger] s.challenges.contains_key(id) implies owed_on(t, id) == owed_on(
        s,
        id,
    ) by {
        lemma_stakers_same(s, t, id);
    }
    lemma_owed_same(s, t, token);
    lemma_one_inflow(s.actions, t.actions, s.actions.len() as int + 1, s.contract, token);
}

/// Several stakes bring what they add to what is owed.
proof fn lemma_stakes_covered(
    s: State,
    who: Address,
    stakes: Seq<(u64, bool, i128)>,
    token: Address,
)
    requires
        sound(s),
        stakes_in_range(s, who, stakes),
        who != s.contract,
    ensures
        stays_covered(s, stakes_placed_in_turn(s, who, stakes).0, token),
    decreases stakes.len(),
{
    if stakes.len() > 0 {
        let (challenge_id, side_yes, amount) = stakes[0];
        let (after, result) = placement(s, who, challenge_id, side_yes, amount);
        lemma_placement_covered(s, who, challenge_id, side_yes, amount, token);
        lemma_placement_sound(s, who, challenge_id, side_yes, amount);
        if result is Ok {
            lemma_stakes_covered(after, who, stakes.skip(1), token);
        }
    }
}

/// Several claims take no more than they take off what is owed.
proof fn lemma_claims_covered(s: State, who: Address, challenge_ids: Seq<u64>, token: Address)
    requires
        sound(s),
        claims_in_range(s, who, challenge_ids),
    ensures
        stays_covered(s, claims_paid_in_turn(s, who, challenge_ids).0, token),
    decreases challenge_ids.len(),
{
    if challenge_ids.len() > 0 {
        let (after, result) = settlement(s, who, challenge_ids[0]);
        lemma_settlement_covered(s, who, challenge_ids[0], token);
        lemma_settlement_sound(s, who, challenge_ids[0]);
        if result is Ok {
            lemma_claims_covered(after, who, challenge_ids.skip(1), token);
        }
    }
}

/// A request about stakes takes no more than it takes off what is owed.
proof fn lemma_staking_covered(s: State, request: Request, token: Address)
    requires
        sound(s),
        in_range(s, request),
        funded(s, request),
        request is Stake || request is BatchStake || request is Claim || request is BatchClaim
            || request is Refund,
    ensures
        stays_covered(s, served(s, request).0, token),
{
    let who = match request {
        Request::Stake { who, .. } => who,
        Request::BatchStake { who, .. } => who,
        Request::Claim { who, .. } => who,
        Request::BatchClaim { who, .. } => who,
        Request::Refund { who, .. } => who,
        _ => s.contract,
    };
    let asked = s.asking(Action::RequireAuth(who));
    assert(asked.challenges.dom() =~= s.challenges.dom());
    lemma_quiet_covered(s, asked, token);
    match request {
        Request::Stake { challenge_id, side_yes, amount, .. } => {
            lemma_placement_covered(asked, who, challenge_id, side_yes, amount, token);
        },
        Request::BatchStake { stakes, .. } => {
            if !s.is_paused() {
                lemma_stakes_covered(asked, who, stakes, token);
            }
        },
        Request::Claim { challenge_id, .. } => {
            lemma_settlement_covered(asked, who, challenge_id, token);
        },
        Request::BatchClaim { challenge_ids, .. } => {
            lemma_claims_covered(asked, who, challenge_ids, token);
        },
        Request::Refund { challenge_id, .. } => {
            lemma_repayment_covered(asked, who, challenge_id, token);
        },
        _ => {},
    }
}

/// A request that ends a challenge takes nothing and owes no more.
#[verifier::rlimit(50)]
proof fn lemma_resolution_covered(s: State, request: Request, token: Address)
    requires
        sound(s),
        in_range(s, request),
        served(s, request).1 is None,
        request is ResolveNative || request is ResolveViaOracle || request is CancelChallenge
            || request is ExpireChallenge || request is AggregateOracleOutcomes,
    ensures
        stays_covered(s, served(s, request).0, token),
{
    let challenge_id = match request {
        Request::ResolveNative { challenge_id } => challenge_id,
        Request::ResolveViaOracle { challenge_id, .. } => challenge_id,
        Request::CancelChallenge { challenge_id, .. } => challenge_id,
        Request::ExpireChallenge { challenge_id } => challenge_id,
        Request::AggregateOracleOutcomes { challenge_id } => challenge_id,
        _ => 0,
    };
    law_requests_keep_markets_sound(s, request);
    lemma_ending_covered(s, served(s, request).0, challenge_id, token);
}

/// Whatever is asked of a market, what comes in is at least what it comes to
/// owe, and what goes out at most what it ceases to owe: to stakers, to
/// disputers, to liquidity providers and in fees. It has to be a request that
/// somebody pays for.
#[verifier::rlimit(50)]
pub proof fn law_requests_are_covered(s: State, request: Request, token: Address)
    requires
        sound(s),
        in_range(s, request),
        request is Initialize && s.admin is None ==> s.next_challenge_id is None,
        funded(s, request),
    ensures
        stays_covered(s, served(s, request).0, token),
{
    if request is Stake || request is BatchStake || request is Claim || request is BatchClaim
        || request is Refund {
        lemma_staking_covered(s, request, token);
    } else if served(s, request).1 is Some {
        lemma_refused_covered(s, request, token);
    } else if request is ResolveNative || request is ResolveViaOracle || request is CancelChallenge
        || request is ExpireChallenge || request is AggregateOracleOutcomes {
        lemma_resolution_covered(s, request, token);
    } else if request is AddLiquidity || request is RemoveLiquidity {
        lemma_liquidity_covered(s, request, token);
    } else if request is FileDispute {
        lemma_filing_covered(s, request, token);
    } else if request is CreateChallenge || request is CreateFromTemplate {
        lemma_creation_covered(s, served(s, request).0, token);
    } else if request is AddRelayer || request is RemoveRelayer || request is SetQuorumSize
        || request is SlashRelayer || request is SubmitOracleOutcome || request is AddChallengeToken
        || request is CleanupOldChallenges || request is GetPendingRewards
        || request is UpdateChallengeRewardIndex {
        lemma_upkeep_quiet(s, request);
        lemma_quiet_covered(s, served(s, request).0, token);
    } else {
        match request {
            Request::CollectFees { token: collected, recipient } => {
                lemma_collection_covered(s, collected, recipient, token);
            },
            Request::ResolveDispute { challenge_id, disputer, successful } => {
                lemma_decision_costs(s, challenge_id, disputer, successful, token);
            },
            Request::ClaimRewards { provider, challenge_id } => {
                lemma_rewards_cost(s, provider, challenge_id, token);
            },
            _ => {
                lemma_settings_quiet(s, request);
                lemma_quiet_covered(s, served(s, request).0, token);
            },
        }
    }
}

/// What is owed on account of a challenge is not negative.
proof fn lemma_account_not_negative(s: State, challenge_id: u64)
    requires
        sound(s),
        s.challenges.contains_key(challenge_id),
    ensures
        owed_on(s, challenge_id) >= 0,
{
    let challenge = s.challenges[challenge_id];
    let (winning_pool, losing_pool) = pools(challenge);
    assert forall|k: (u64, Address)| s.stakes.dom().contains(k) implies #[trigger] still_due(
        s,
        challenge_id,
    )(k) >= 0 by {
        assert(s.stakes.contains_key(k));
        if k.0 == challenge_id {
            law_fee_is_part_of_payout(
                winning_amount(challenge, s.stakes[k]) as int,
                winning_pool as int,
                losing_pool as int,
                0,
            );
        }
    }
    lemma_sum_nonnegative(s.stakes.dom(), still_due(s, challenge_id));
    law_refunds_are_covered(s, challenge_id);
    assert forall|k: (u64, Address)| s.disputes.dom().contains(k) implies #[trigger] open_stake(
        s.disputes,
        challenge_id,
    )(k) >= 0 by {
        assert(s.disputes.contains_key(k));
    }
    lemma_sum_nonnegative(s.disputes.dom(), open_stake(s.disputes, challenge_id));
}

/// What is owed is not negative.
proof fn lemma_owed_not_negative(s: State, token: Address)
    requires
        sound(s),
    ensures
        owed(s, token) >= 0,
{
    assert forall|id: u64| s.challenges.dom().contains(id) implies #[trigger] owed_in(s, token)(id)
        >= 0 by {
        lemma_account_not_negative(s, id);
    }
    lemma_sum_nonnegative(s.challenges.dom(), owed_in(s, token));
}

/// No request that somebody pays for takes more of a token out of the market
/// than the market owes in it.
pub proof fn law_no_request_takes_more_than_is_owed(s: State, request: Request, token: Address)
    requires
        sound(s),
        in_range(s, request),
        request is Initialize && s.admin is None ==> s.next_challenge_id is None,
        funded(s, request),
    ensures
        net_inflow(s.actions, s.contract, token) - net_inflow(
            served(s, request).0.actions,
            s.contract,
            token,
        ) <= owed(s, token),
{
    law_requests_are_covered(s, request, token);
    law_requests_keep_markets_sound(s, request);
    lemma_owed_not_negative(served(s, request).0, token);
}

/// A dispute that is decided for the disputer costs the market the bonus: what
/// it holds falls by that much more than what it owes, but for what the new
/// outcome changes in what is due to the stakers.
pub proof fn law_upheld_disputes_cost_the_bonus(s: State, challenge_id: u64, disputer: Address)
    requires
        sound(s),
        resolve_dispute_in_range(s, challenge_id, disputer, true),
        resolve_dispute_step(s, challenge_id, disputer, true).1 is Ok,
        disputer != s.contract,
    ensures
        ({
            let t = resolve_dispute_step(s, challenge_id, disputer, true).0;
            let token = s.challenges[challenge_id].token;
            let lost = net_inflow(s.actions, s.contract, token) - net_inflow(
                t.actions,
                s.contract,
                token,
            );
            &&& lost == owed(s, token) - owed(t, token) + owed_to_stakers(t, challenge_id)
                - owed_to_stakers(s, challenge_id) + dispute_bonus(
                s.disputes[(challenge_id, disputer)].stake,
            )
            &&& dispute_bonus(s.disputes[(challenge_id, disputer)].stake) > 0
            &&& stays_covered(s, t, token) <==> bonus_funded(s, challenge_id, disputer)
        }),
{
    lemma_decision_costs(
        s,
        challenge_id,
        disputer,
        true,
        s.challenges[challenge_id].token,
    );
    assert(s.disputes.contains_key((challenge_id, disputer)));
}

/// Rewards are paid out of what the market holds for others: what it holds
/// falls by them, what it owes does not.
pub proof fn law_rewards_cost_the_market(s: State, provider: Address, challenge_id: u64)
    requires
        sound(s),
        claim_rewards_in_range(s, provider, challenge_id),
        claim_rewards_step(s, provider, challenge_id).1 is Ok,
        provider != s.contract,
    ensures
        ({
            let (t, result) = claim_rewards_step(s, provider, challenge_id);
            let token = s.challenges[challenge_id].token;
            &&& owed(t, token) == owed(s, token)
            &&& net_inflow(s.actions, s.contract, token) - net_inflow(t.actions, s.contract, token)
                == result->Ok_0
            &&& result->Ok_0 > 0
        }),
{
    lemma_rewards_cost(s, provider, challenge_id, s.challenges[challenge_id].token);
}

/// What visits bring the market in a token, one after the other.
pub open spec fn held_after(s: State, visits: Seq<Visit>, token: Address) -> int
    decreases visits.len(),
{
    if visits.len() == 0 {
        0
    } else {
        held_after(s, visits.drop_last(), token) + net_inflow(
            after_visits(s, visits).actions,
            s.contract,
            token,
        )
    }
}

/// Each visit is paid for in the market that it comes to.
pub open spec fn all_funded(s: State, visits: Seq<Visit>) -> bool
    decreases visits.len(),
{
    visits.len() > 0 ==> {
        let before = after_visits(s, visits.drop_last());
        let visit = visits.last();
        &&& all_funded(s, visits.drop_last())
        &&& funded(later(before, visit.timestamp, visit.sequence), visit.request)
    }
}

/// What comes in over the visits covers what they add to what is owed.
proof fn lemma_visits_covered(s: State, visits: Seq<Visit>, token: Address)
    requires
        sound(s),
        all_orderly(s, visits),
        all_funded(s, visits),
    ensures
        after_visits(s, visits).contract == s.contract,
        held_after(s, visits, token) >= owed(after_visits(s, visits), token) - owed(s, token),
    decreases visits.len(),
{
    if visits.len() > 0 {
        let earlier = visits.drop_last();
        lemma_visits_covered(s, earlier, token);
        law_visits_keep_markets_sound(s, earlier);
        let before = after_visits(s, earlier);
        let visit = visits.last();
        let now = later(before, visit.timestamp, visit.sequence);
        law_requests_are_covered(now, visit.request, token);
        law_requests_take_nothing_back(now, visit.request);
        assert(net_inflow(now.actions, s.contract, token) == 0);
        assert(owed(now, token) == owed(before, token)) by {
            assert forall|id: u64| #[trigger] before.challenges.contains_key(id) implies owed_on(
                now,
                id,
            ) == owed_on(before, id) by {
                lemma_stakers_same(before, now, id);
            }
            lemma_owed_same(before, now, token);
        }
    }
}

/// A market that starts with nothing holds at least what it owes, whatever was
/// asked of it, as long as every visit was paid for.
pub proof fn law_markets_hold_what_they_owe(
    contract: Address,
    timestamp: u64,
    sequence: u32,
    visits: Seq<Visit>,
    token: Address,
)
    requires
        all_orderly(empty_state(contract, timestamp, sequence), visits),
        all_funded(empty_state(contract, timestamp, sequence), visits),
    ensures
        held_after(empty_state(contract, timestamp, sequence), visits, token) >= owed(
            after_visits(empty_state(contract, timestamp, sequence), visits),
            token,
        ) >= 0,
{
    let s = empty_state(contract, timestamp, sequence);
    law_every_market_is_sound(contract, timestamp, sequence, visits);
    lemma_visits_covered(s, visits, token);
    lemma_sum_zero(s.challenges.dom(), owed_in(s, token));
    lemma_owed_not_negative(after_visits(s, visits), token);
}

} // verus!
