//! What can be relied on, over several requests and over all users.

use vstd::prelude::*;

use crate::context::State;
use crate::guards::challenge_extension;
use crate::history::follows;
use crate::params::BPS_DENOMINATOR;
use crate::payouts::bonus;
use crate::payouts::fits_i128;
use crate::payouts::gross_payout;
use crate::payouts::net_payout;
use crate::payouts::payout_fee;
use crate::payouts::pools;
use crate::payouts::quotient;
use crate::relayers::add_relayer_in_range;
use crate::relayers::add_relayer_step;
use crate::relayers::quorum_or_default;
use crate::relayers::relayers;
use crate::relayers::remove_relayer_step;
use crate::requests::Request;
use crate::requests::served;
use crate::settings::initialize_step;
use crate::settings::pause_step;
use crate::settings::unpause_step;
use crate::soundness::law_sound_markets_stay_in_range;
use crate::soundness::lemma_stake_within_pools;
use crate::soundness::side_amount;
use crate::soundness::sound;
use crate::staking::claim_fee;
use crate::staking::claim_in_range;
use crate::staking::claim_payout;
use crate::staking::claim_refusal;
use crate::staking::claim_step;
use crate::staking::claims_paid_in_turn;
use crate::staking::fee_bps;
use crate::staking::placement;
use crate::staking::potential_payout;
use crate::staking::refund_refusal;
use crate::staking::refund_step;
use crate::staking::refundable;
use crate::staking::settlement;
use crate::staking::stake_examined;
use crate::staking::stake_in_range;
use crate::staking::stake_or_blank;
use crate::staking::stake_step;
use crate::staking::stakes_placed_in_turn;
use crate::staking::still_vesting;
use crate::staking::winning_amount;
use crate::staking::winnings_claimed;
use crate::sums::lemma_sum_bounds_part;
use crate::sums::lemma_sum_nonnegative;
use crate::sums::lemma_sum_plus;
use crate::sums::lemma_sum_same;
use crate::sums::lemma_sum_scaled_at_most;
use crate::sums::lemma_sum_update;
use crate::sums::lemma_sum_zero;
use crate::sums::sum;
use crate::types::Action;
use crate::types::Address;
use crate::types::Error;

verus! {

/// What the owner of a stake on a challenge is due, before fees, if they have
/// anything on the side that won.
pub open spec fn due(s: State, challenge_id: u64) -> spec_fn((u64, Address)) -> int {
    let challenge = s.challenges[challenge_id];
    let (winning_pool, losing_pool) = pools(challenge);
    |key: (u64, Address)|
        if key.0 == challenge_id {
            gross_payout(
                winning_amount(challenge, s.stakes[key]) as int,
                winning_pool as int,
                losing_pool as int,
            )
        } else {
            0
        }
}

/// What the owner of a stake on a challenge can still be paid back.
pub open spec fn owed_back(s: State, challenge_id: u64) -> spec_fn((u64, Address)) -> int {
    |key: (u64, Address)|
        if key.0 == challenge_id {
            refundable(s.stakes[key])
        } else {
            0
        }
}

/// A quotient, times its divisor, comes close to its numerator from below.
proof fn lemma_quotient_close(a: int, b: int)
    requires
        a >= 0,
        b > 0,
    ensures
        quotient(a, b) >= 0,
        b * quotient(a, b) <= a < b * (quotient(a, b) + 1),
{
    assert(a / b >= 0 && b * (a / b) <= a < b * (a / b + 1)) by (nonlinear_arith)
        requires
            a >= 0,
            b > 0,
    ;
}

/// A winner's share of the losing pool is what their stake is of the winning
/// pool, rounded down.
pub proof fn law_winners_share_pro_rata(amount: int, winning_pool: int, losing_pool: int)
    requires
        0 <= amount,
        0 < winning_pool,
        0 <= losing_pool,
    ensures
        bonus(amount, winning_pool, losing_pool) >= 0,
        winning_pool * bonus(amount, winning_pool, losing_pool) <= amount * losing_pool
            < winning_pool * (bonus(amount, winning_pool, losing_pool) + 1),
{
    assert(amount * losing_pool >= 0) by (nonlinear_arith)
        requires
            0 <= amount,
            0 <= losing_pool,
    ;
    lemma_quotient_close(amount * losing_pool, winning_pool);
}

/// Who has all of the winning pool wins all of the losing pool.
pub proof fn law_sole_winner_takes_all(winning_pool: int, losing_pool: int)
    requires
        0 < winning_pool,
        0 <= losing_pool,
    ensures
        gross_payout(winning_pool, winning_pool, losing_pool) == winning_pool + losing_pool,
{
    assert(winning_pool * losing_pool >= 0 && (winning_pool * losing_pool) / winning_pool
        == losing_pool) by (nonlinear_arith)
        requires
            0 < winning_pool,
            0 <= losing_pool,
    ;
}

/// The fee is part of the payout that it is taken of, nothing is lost between
/// the two, and without a fee a winner gets at least their stake back.
pub proof fn law_fee_is_part_of_payout(
    amount: int,
    winning_pool: int,
    losing_pool: int,
    fee_bps: int,
)
    requires
        0 <= amount,
        0 <= winning_pool,
        0 <= losing_pool,
        0 <= fee_bps <= BPS_DENOMINATOR,
    ensures
        ({
            let gross = gross_payout(amount, winning_pool, losing_pool);
            let fee = payout_fee(gross, fee_bps);
            let net = net_payout(amount, winning_pool, losing_pool, fee_bps);
            &&& amount <= gross
            &&& 0 <= fee <= gross
            &&& net + fee == gross
            &&& 0 <= net
            &&& fee_bps == 0 ==> fee == 0 && net >= amount
        }),
{
    if winning_pool > 0 {
        law_winners_share_pro_rata(amount, winning_pool, losing_pool);
    }
    let gross = gross_payout(amount, winning_pool, losing_pool);
    assert(0 <= gross * fee_bps <= gross * 10000) by (nonlinear_arith)
        requires
            0 <= gross,
            0 <= fee_bps <= 10000,
    ;
    assert(fee_bps == 0 ==> gross * fee_bps == 0) by (nonlinear_arith);
}

/// What all winners of a challenge are due together, fees included, is at most
/// what was staked on it.
pub proof fn law_payouts_are_covered(s: State, challenge_id: u64)
    requires
        sound(s),
        s.challenges.contains_key(challenge_id),
    ensures
        sum(s.stakes.dom(), due(s, challenge_id)) <= s.challenges[challenge_id].pool_yes
            + s.challenges[challenge_id].pool_no,
{
    let challenge = s.challenges[challenge_id];
    let (winning_pool, losing_pool) = pools(challenge);
    let winning = winning_pool as int;
    let losing = losing_pool as int;
    let keys = s.stakes.dom();
    let amounts = side_amount(s.stakes, challenge_id, challenge.outcome_yes);
    let gains = |key: (u64, Address)|
        if key.0 == challenge_id {
            bonus(amounts(key), winning, losing)
        } else {
            0
        };
    assert(sum(keys, amounts) == winning);
    lemma_sum_plus(keys, amounts, gains, due(s, challenge_id));
    if winning > 0 {
        assert forall|key: (u64, Address)| keys.contains(key) implies winning * #[trigger] gains(key)
            <= losing * amounts(key) by {
            assert(s.stakes.contains_key(key));
            if key.0 == challenge_id {
                law_winners_share_pro_rata(amounts(key), winning, losing);
                assert(amounts(key) * losing == losing * amounts(key)) by (nonlinear_arith);
            }
        }
        lemma_sum_scaled_at_most(keys, gains, winning, amounts, losing);
        let gained = sum(keys, gains);
        assert(gained <= losing) by (nonlinear_arith)
            requires
                winning * gained <= losing * winning,
                winning > 0,
        ;
    } else {
        lemma_sum_zero(keys, gains);
    }
}

/// One for each winner of a challenge.
pub open spec fn one_per_winner(s: State, challenge_id: u64) -> spec_fn((u64, Address)) -> int {
    |key: (u64, Address)|
        if key.0 == challenge_id && winning_amount(s.challenges[challenge_id], s.stakes[key]) > 0 {
            1
        } else {
            0
        }
}

/// How many users have something on the side of a challenge that won.
pub open spec fn winner_count(s: State, challenge_id: u64) -> int {
    sum(s.stakes.dom(), one_per_winner(s, challenge_id))
}

/// What all winners of a challenge are due together, fees included, is what was
/// staked on it, but for less than one unit per winner that rounding keeps
/// back.
pub proof fn law_rounding_keeps_back_little(s: State, challenge_id: u64)
    requires
        sound(s),
        s.challenges.contains_key(challenge_id),
        pools(s.challenges[challenge_id]).0 > 0,
    ensures
        ({
            let staked = s.challenges[challenge_id].pool_yes + s.challenges[challenge_id].pool_no;
            let left = staked - sum(s.stakes.dom(), due(s, challenge_id));
            0 <= left < winner_count(s, challenge_id)
        }),
{
    law_payouts_are_covered(s, challenge_id);
    let challenge = s.challenges[challenge_id];
    let (winning_pool, losing_pool) = pools(challenge);
    let winning = winning_pool as int;
    let losing = losing_pool as int;
    let keys = s.stakes.dom();
    let amounts = side_amount(s.stakes, challenge_id, challenge.outcome_yes);
    let gains = |key: (u64, Address)|
        if key.0 == challenge_id {
            bonus(amounts(key), winning, losing)
        } else {
            0
        };
    let winners = one_per_winner(s, challenge_id);
    let shares = |key: (u64, Address)| losing * amounts(key);
    let owing = |key: (u64, Address)| shares(key) + winners(key);
    let rounded_up = |key: (u64, Address)| gains(key) + winners(key);
    assert(sum(keys, amounts) == winning);
    lemma_sum_plus(keys, amounts, gains, due(s, challenge_id));
    lemma_sum_plus(keys, shares, winners, owing);
    lemma_sum_plus(keys, gains, winners, rounded_up);
    lemma_sum_scaled_at_most(keys, amounts, losing, shares, 1);
    assert forall|key: (u64, Address)| keys.contains(key) implies 1 * #[trigger] owing(key)
        <= winning * rounded_up(key) by {
        assert(s.stakes.contains_key(key));
        assert(losing * 0 == 0 && winning * 0 == 0) by (nonlinear_arith);
        if key.0 == challenge_id {
            law_winners_share_pro_rata(amounts(key), winning, losing);
            assert(amounts(key) * losing == losing * amounts(key)) by (nonlinear_arith);
        }
    }
    lemma_sum_scaled_at_most(keys, owing, 1, rounded_up, winning);
    assert forall|key: (u64, Address)| keys.contains(key) implies 1 * #[trigger] amounts(key)
        <= winning * winners(key) by {
        assert(s.stakes.contains_key(key));
        assert(winning * 0 == 0 && winning * 1 == winning) by (nonlinear_arith);
        lemma_sum_bounds_part(keys, amounts, key);
    }
    lemma_sum_scaled_at_most(keys, amounts, 1, winners, winning);
    let gained = sum(keys, gains);
    let count = sum(keys, winners);
    assert(losing < gained + count) by (nonlinear_arith)
        requires
            losing * winning + count <= winning * (gained + count),
            winning <= winning * count,
            winning > 0,
    ;
}

/// A claim that is not refused pays the winner what they are due, less the
/// fee, and keeps the fee.
pub proof fn law_claims_pay_what_is_due(s: State, who: Address, challenge_id: u64)
    requires
        sound(s),
        claim_in_range(s, who, challenge_id),
        claim_refusal(s, who, challenge_id) is None,
    ensures
        claim_payout(s, who, challenge_id) + claim_fee(s, who, challenge_id) == due(
            s,
            challenge_id,
        )((challenge_id, who)),
        0 <= claim_payout(s, who, challenge_id),
        0 <= claim_fee(s, who, challenge_id),
        fee_bps(s) == 0 ==> claim_payout(s, who, challenge_id) >= winning_amount(
            s.challenges[challenge_id],
            s.stakes[(challenge_id, who)],
        ),
{
    let challenge = s.challenges[challenge_id];
    let (winning_pool, losing_pool) = pools(challenge);
    law_fee_is_part_of_payout(
        winning_amount(challenge, s.stakes[(challenge_id, who)]) as int,
        winning_pool as int,
        losing_pool as int,
        fee_bps(s) as int,
    );
}

/// What all users can be paid back of a challenge is at most what was staked
/// on it, and exactly that as long as nobody was paid.
pub proof fn law_refunds_are_covered(s: State, challenge_id: u64)
    requires
        sound(s),
        s.challenges.contains_key(challenge_id),
    ensures
        0 <= sum(s.stakes.dom(), owed_back(s, challenge_id)) <= s.challenges[challenge_id].pool_yes
            + s.challenges[challenge_id].pool_no,
        (forall|key: (u64, Address)| #[trigger]
            s.stakes.contains_key(key) && key.0 == challenge_id ==> !s.stakes[key].claimed_yes
                && !s.stakes[key].claimed_no) ==> sum(s.stakes.dom(), owed_back(s, challenge_id))
            == s.challenges[challenge_id].pool_yes + s.challenges[challenge_id].pool_no,
{
    let keys = s.stakes.dom();
    let yes = side_amount(s.stakes, challenge_id, true);
    let no = side_amount(s.stakes, challenge_id, false);
    let both = |key: (u64, Address)| yes(key) + no(key);
    lemma_sum_plus(keys, yes, no, both);
    assert forall|key: (u64, Address)| keys.contains(key) implies 1 * #[trigger] owed_back(
        s,
        challenge_id,
    )(key) <= 1 * both(key) && owed_back(s, challenge_id)(key) >= 0 by {
        assert(s.stakes.contains_key(key));
    }
    lemma_sum_scaled_at_most(keys, owed_back(s, challenge_id), 1, both, 1);
    lemma_sum_nonnegative(keys, owed_back(s, challenge_id));
    if forall|key: (u64, Address)| #[trigger]
        s.stakes.contains_key(key) && key.0 == challenge_id ==> !s.stakes[key].claimed_yes
            && !s.stakes[key].claimed_no {
        lemma_sum_same(keys, owed_back(s, challenge_id), both);
    }
}

/// What the owner of a stake on a challenge is due and has not claimed yet.
pub open spec fn still_due(s: State, challenge_id: u64) -> spec_fn((u64, Address)) -> int {
    |key: (u64, Address)|
        if key.0 == challenge_id && winnings_claimed(s.challenges[challenge_id], s.stakes[key]) {
            0
        } else {
            due(s, challenge_id)(key)
        }
}

/// What is still due of a challenge is at most what was staked on it, and a
/// claim that is not refused takes away exactly what it pays and keeps as a
/// fee.
pub proof fn law_claims_draw_on_what_is_due(s: State, who: Address, challenge_id: u64)
    requires
        sound(s),
        claim_in_range(s, who, challenge_id),
        claim_refusal(s, who, challenge_id) is None,
    ensures
        ({
            let t = claim_step(s, who, challenge_id).0;
            let paid = claim_payout(s, who, challenge_id) + claim_fee(s, who, challenge_id);
            let left = sum(s.stakes.dom(), still_due(s, challenge_id));
            &&& left <= s.challenges[challenge_id].pool_yes + s.challenges[challenge_id].pool_no
            &&& paid <= left
            &&& sum(t.stakes.dom(), still_due(t, challenge_id)) == left - paid
        }),
{
    let key = (challenge_id, who);
    let t = claim_step(s, who, challenge_id).0;
    let keys = s.stakes.dom();
    assert forall|k: (u64, Address)| keys.contains(k) implies 1 * #[trigger] still_due(
        s,
        challenge_id,
    )(k) <= 1 * due(s, challenge_id)(k) && still_due(s, challenge_id)(k) >= 0 by {
        assert(s.stakes.contains_key(k));
        if k.0 == challenge_id {
            let challenge = s.challenges[challenge_id];
            let (winning_pool, losing_pool) = pools(challenge);
            law_fee_is_part_of_payout(
                winning_amount(challenge, s.stakes[k]) as int,
                winning_pool as int,
                losing_pool as int,
                0,
            );
        }
    }
    lemma_sum_scaled_at_most(keys, still_due(s, challenge_id), 1, due(s, challenge_id), 1);
    law_payouts_are_covered(s, challenge_id);
    law_claims_pay_what_is_due(s, who, challenge_id);
    lemma_sum_bounds_part(keys, still_due(s, challenge_id), key);
    assert(t.stakes.dom() =~= keys.insert(key));
    lemma_sum_update(keys, still_due(s, challenge_id), still_due(t, challenge_id), key);
}

/// A refund that is not refused takes away exactly what it pays of what the
/// users can be paid back.
pub proof fn law_refunds_draw_on_what_is_owed(s: State, who: Address, challenge_id: u64)
    requires
        sound(s),
        refund_refusal(s, who, challenge_id) is None,
    ensures
        ({
            let (t, result) = refund_step(s, who, challenge_id);
            let left = sum(s.stakes.dom(), owed_back(s, challenge_id));
            &&& result is Ok
            &&& result->Ok_0 <= left
            &&& sum(t.stakes.dom(), owed_back(t, challenge_id)) == left - result->Ok_0
        }),
{
    let key = (challenge_id, who);
    let t = refund_step(s, who, challenge_id).0;
    let keys = s.stakes.dom();
    law_sound_markets_stay_in_range(s, Request::Refund { who, challenge_id });
    assert forall|k: (u64, Address)| keys.contains(k) implies #[trigger] owed_back(s, challenge_id)(
        k,
    ) >= 0 by {
        assert(s.stakes.contains_key(k));
    }
    lemma_sum_bounds_part(keys, owed_back(s, challenge_id), key);
    assert(t.stakes.dom() =~= keys.insert(key));
    lemma_sum_update(keys, owed_back(s, challenge_id), owed_back(t, challenge_id), key);
}

/// Whoever has claimed what they won is refused ever after, as long as the
/// outcome stands.
pub proof fn law_winnings_are_paid_once(s: State, who: Address, challenge_id: u64, t: State)
    requires
        sound(s),
        claim_in_range(s, who, challenge_id),
        claim_step(s, who, challenge_id).1 is Ok,
        follows(claim_step(s, who, challenge_id).0, t),
        t.challenges[challenge_id].outcome_yes == s.challenges[challenge_id].outcome_yes,
    ensures
        claim_step(t, who, challenge_id).1 == Err::<i128, Error>(Error::AlreadyClaimed),
{
    let after = claim_step(s, who, challenge_id).0;
    assert(after.stakes.contains_key((challenge_id, who)));
    assert(after.challenges.contains_key(challenge_id));
}

/// Whoever was paid back is refused ever after.
pub proof fn law_stakes_are_paid_back_once(s: State, who: Address, challenge_id: u64, t: State)
    requires
        sound(s),
        refund_step(s, who, challenge_id).1 is Ok,
        follows(refund_step(s, who, challenge_id).0, t),
    ensures
        refund_step(t, who, challenge_id).1 == Err::<i128, Error>(Error::AlreadyClaimed),
{
    let after = refund_step(s, who, challenge_id).0;
    assert(after.stakes.contains_key((challenge_id, who)));
    assert(after.challenges.contains_key(challenge_id));
}

/// Whoever has nothing on the side that won gets nothing.
pub proof fn law_losers_win_nothing(s: State, who: Address, challenge_id: u64)
    requires
        sound(s),
        s.stakes.contains_key((challenge_id, who)),
        s.challenges[challenge_id].resolved,
        winning_amount(s.challenges[challenge_id], s.stakes[(challenge_id, who)]) == 0,
    ensures
        claim_step(s, who, challenge_id).1 is Err,
        !still_vesting(s.stakes[(challenge_id, who)], s.timestamp) && !winnings_claimed(
            s.challenges[challenge_id],
            s.stakes[(challenge_id, who)],
        ) ==> claim_step(s, who, challenge_id).1 == Err::<i128, Error>(Error::NothingWon),
{
}

/// Once a challenge is cancelled or has expired, whoever staked on it gets
/// exactly that back.
pub proof fn law_cancelled_stakes_are_paid_back(
    s: State,
    request: Request,
    who: Address,
    challenge_id: u64,
)
    requires
        sound(s),
        request == (Request::ExpireChallenge { challenge_id }) || (request matches
            Request::CancelChallenge { challenge_id: id, .. } && id == challenge_id),
        served(s, request).1 is None,
        s.stakes.contains_key((challenge_id, who)),
        !s.stakes[(challenge_id, who)].claimed_yes,
        !s.stakes[(challenge_id, who)].claimed_no,
    ensures
        ({
            let stake = s.stakes[(challenge_id, who)];
            refund_step(served(s, request).0, who, challenge_id).1 == Ok::<i128, Error>(
                (stake.yes_amount + stake.no_amount) as i128,
            ) && fits_i128(stake.yes_amount + stake.no_amount)
        }),
{
    lemma_stake_within_pools(s, who, challenge_id);
}

/// A stake that is accepted moves its amount from the user to the market, and
/// the user's stake and the pool of the side grow by it.
pub proof fn law_stakes_are_held_by_the_market(
    s: State,
    who: Address,
    challenge_id: u64,
    side_yes: bool,
    amount: i128,
)
    requires
        sound(s),
        stake_in_range(s, who, challenge_id, side_yes, amount),
        stake_step(s, who, challenge_id, side_yes, amount).1 is Ok,
    ensures
        ({
            let t = stake_step(s, who, challenge_id, side_yes, amount).0;
            let before = stake_or_blank(s, who, challenge_id);
            let after = t.stakes[(challenge_id, who)];
            let yes = if side_yes { amount as int } else { 0 };
            let no = if side_yes { 0 } else { amount as int };
            &&& amount > 0
            &&& transfers(t.actions) == transfers(s.actions).push(
                Action::Transfer {
                    token: s.challenges[challenge_id].token,
                    from: who,
                    to: s.contract,
                    amount,
                },
            )
            &&& after.yes_amount == before.yes_amount + yes
            &&& after.no_amount == before.no_amount + no
            &&& t.challenges[challenge_id].pool_yes == s.challenges[challenge_id].pool_yes + yes
            &&& t.challenges[challenge_id].pool_no == s.challenges[challenge_id].pool_no + no
        }),
{
    reveal(Seq::filter);
    let asked = s.asking(Action::RequireAuth(who));
    let examined = stake_examined(asked, who, challenge_id, amount);
    let t = stake_step(s, who, challenge_id, side_yes, amount).0;
    lemma_transfers_push(s.actions, Action::RequireAuth(who));
    lemma_transfers_push(asked.actions, challenge_extension(challenge_id));
    let transfer = Action::Transfer {
        token: s.challenges[challenge_id].token,
        from: who,
        to: s.contract,
        amount,
    };
    lemma_transfers_push(examined.actions, transfer);
    let one = examined.actions.push(transfer);
    lemma_transfers_push(one, t.actions[one.len() as int]);
    let two = one.push(t.actions[one.len() as int]);
    lemma_transfers_push(two, t.actions[two.len() as int]);
    let three = two.push(t.actions[two.len() as int]);
    lemma_transfers_push(three, t.actions[three.len() as int]);
    let four = three.push(t.actions[three.len() as int]);
    lemma_transfers_push(four, t.actions[four.len() as int]);
    assert(t.actions =~= four.push(t.actions[four.len() as int]));
}

/// The transfers among the actions.
pub open spec fn transfers(actions: Seq<Action>) -> Seq<Action> {
    actions.filter(|action: Action| action is Transfer)
}

/// One more action is one more transfer, or none.
proof fn lemma_transfers_push(actions: Seq<Action>, action: Action)
    ensures
        transfers(actions.push(action)) == (if action is Transfer {
            transfers(actions).push(action)
        } else {
            transfers(actions)
        }),
{
    reveal(Seq::filter);
    assert(actions.push(action).drop_last() =~= actions);
}

/// Whose authorization a request needs, if anybody's.
pub open spec fn authority(s: State, request: Request) -> Option<Address> {
    match request {
        Request::Initialize { admin, .. } => Some(admin),
        Request::SetOracleRelayer { .. }
        | Request::SetProtocolFee { .. }
        | Request::Pause
        | Request::Unpause
        | Request::SetMinStake { .. }
        | Request::AddTokenToWhitelist { .. }
        | Request::RemoveTokenFromWhitelist { .. }
        | Request::SetUserVesting { .. }
        | Request::CollectFees { .. }
        | Request::ClearFlashLoanFlag { .. }
        | Request::AddChallengeToken { .. }
        | Request::CleanupOldChallenges { .. }
        | Request::AddRelayer { .. }
        | Request::RemoveRelayer { .. }
        | Request::SetQuorumSize { .. }
        | Request::SlashRelayer { .. }
        | Request::ResolveDispute { .. } => s.admin,
        Request::ResolveViaOracle { .. } => s.oracle_relayer,
        Request::SetSelfVesting { user, .. } => Some(user),
        Request::CreateChallenge { creator, .. } => Some(creator),
        Request::CreateTemplate { creator, .. } => Some(creator),
        Request::CreateFromTemplate { creator, .. } => Some(creator),
        Request::Stake { who, .. } => Some(who),
        Request::BatchStake { who, .. } => Some(who),
        Request::Claim { who, .. } => Some(who),
        Request::BatchClaim { who, .. } => Some(who),
        Request::Refund { who, .. } => Some(who),
        Request::CancelChallenge { caller, .. } => Some(caller),
        Request::SubmitOracleOutcome { oracle, .. } => Some(oracle),
        Request::AddLiquidity { provider, .. } => Some(provider),
        Request::RemoveLiquidity { provider, .. } => Some(provider),
        Request::ClaimRewards { provider, .. } => Some(provider),
        Request::FileDispute { disputer, .. } => Some(disputer),
        Request::ResolveNative { .. }
        | Request::ExpireChallenge { .. }
        | Request::AggregateOracleOutcomes { .. }
        | Request::GetPendingRewards { .. }
        | Request::UpdateChallengeRewardIndex { .. } => None,
    }
}

/// The later actions are the earlier ones and then some.
pub open spec fn continues(earlier: Seq<Action>, later: Seq<Action>) -> bool {
    &&& earlier.len() <= later.len()
    &&& forall|i: int| 0 <= i < earlier.len() ==> later[i] == #[trigger] earlier[i]
}

/// Several stakes only add to the actions.
proof fn lemma_stakes_continue(s: State, who: Address, stakes: Seq<(u64, bool, i128)>)
    ensures
        continues(s.actions, stakes_placed_in_turn(s, who, stakes).0.actions),
    decreases stakes.len(),
{
    if stakes.len() > 0 {
        let (challenge_id, side_yes, amount) = stakes[0];
        let (after, result) = placement(s, who, challenge_id, side_yes, amount);
        assert(continues(s.actions, after.actions));
        if result is Ok {
            lemma_stakes_continue(after, who, stakes.skip(1));
        }
    }
}

/// Several claims only add to the actions.
proof fn lemma_claims_continue(s: State, who: Address, challenge_ids: Seq<u64>)
    ensures
        continues(s.actions, claims_paid_in_turn(s, who, challenge_ids).0.actions),
    decreases challenge_ids.len(),
{
    if challenge_ids.len() > 0 {
        let (after, result) = settlement(s, who, challenge_ids[0]);
        assert(continues(s.actions, after.actions));
        if result is Ok {
            lemma_claims_continue(after, who, challenge_ids.skip(1));
        }
    }
}

/// What continues an action and what came before it continues what came
/// before it.
proof fn lemma_continues_after(earlier: Seq<Action>, action: Action, later: Seq<Action>)
    requires
        continues(earlier.push(action), later),
    ensures
        continues(earlier, later),
        later.len() > earlier.len(),
        later[earlier.len() as int] == action,
{
    let pushed = earlier.push(action);
    assert(pushed[earlier.len() as int] == action);
    assert forall|i: int| 0 <= i < earlier.len() implies later[i] == #[trigger] earlier[i] by {
        assert(pushed[i] == earlier[i]);
    }
}

/// The first action that is new is to ask for the authorization.
pub open spec fn asks_first(s: State, t: State, authority: Address) -> bool {
    &&& continues(s.actions, t.actions)
    &&& t.actions.len() > s.actions.len()
    &&& t.actions[s.actions.len() as int] == Action::RequireAuth(authority)
}

/// A request about payments asks for authorization first.
#[verifier::rlimit(50)]
proof fn lemma_payments_ask_first(s: State, request: Request)
    requires
        served(s, request).1 is None,
        authority(s, request) is Some,
        request is Stake || request is Claim || request is Refund || request is AddLiquidity
            || request is RemoveLiquidity || request is ClaimRewards || request is FileDispute
            || request is ResolveDispute,
    ensures
        asks_first(s, served(s, request).0, authority(s, request)->0),
{
}

/// A request about challenges asks for authorization first.
#[verifier::rlimit(50)]
proof fn lemma_challenges_ask_first(s: State, request: Request)
    requires
        served(s, request).1 is None,
        authority(s, request) is Some,
        request is CreateChallenge || request is CreateTemplate || request is CreateFromTemplate
            || request is ResolveViaOracle || request is CancelChallenge
            || request is AddChallengeToken || request is CleanupOldChallenges,
    ensures
        asks_first(s, served(s, request).0, authority(s, request)->0),
{
}

/// A request about settings or relayers asks for authorization first.
#[verifier::rlimit(50)]
proof fn lemma_settings_ask_first(s: State, request: Request)
    requires
        served(s, request).1 is None,
        authority(s, request) is Some,
        request is Initialize || request is SetOracleRelayer || request is SetProtocolFee
            || request is Pause || request is Unpause || request is SetMinStake
            || request is AddTokenToWhitelist || request is RemoveTokenFromWhitelist
            || request is SetUserVesting || request is SetSelfVesting || request is CollectFees
            || request is ClearFlashLoanFlag || request is AddRelayer || request is RemoveRelayer
            || request is SetQuorumSize || request is SlashRelayer
            || request is SubmitOracleOutcome,
    ensures
        asks_first(s, served(s, request).0, authority(s, request)->0),
{
}

/// A request that is served asks for the authorization that it needs before it
/// asks for anything else.
pub proof fn law_requests_ask_for_authority(s: State, request: Request)
    requires
        served(s, request).1 is None,
        authority(s, request) is Some,
    ensures
        asks_first(s, served(s, request).0, authority(s, request)->0),
{
    match request {
        Request::BatchStake { who, stakes } => {
            lemma_stakes_continue(s.asking(Action::RequireAuth(who)), who, stakes);
            lemma_continues_after(
                s.actions,
                Action::RequireAuth(who),
                served(s, request).0.actions,
            );
        },
        Request::BatchClaim { who, challenge_ids } => {
            lemma_claims_continue(s.asking(Action::RequireAuth(who)), who, challenge_ids);
            lemma_continues_after(
                s.actions,
                Action::RequireAuth(who),
                served(s, request).0.actions,
            );
        },
        Request::Stake { .. }
        | Request::Claim { .. }
        | Request::Refund { .. }
        | Request::AddLiquidity { .. }
        | Request::RemoveLiquidity { .. }
        | Request::ClaimRewards { .. }
        | Request::FileDispute { .. }
        | Request::ResolveDispute { .. } => {
            lemma_payments_ask_first(s, request);
        },
        Request::CreateChallenge { .. }
        | Request::CreateTemplate { .. }
        | Request::CreateFromTemplate { .. }
        | Request::ResolveViaOracle { .. }
        | Request::CancelChallenge { .. }
        | Request::AddChallengeToken { .. }
        | Request::CleanupOldChallenges { .. } => {
            lemma_challenges_ask_first(s, request);
        },
        Request::ResolveNative { .. }
        | Request::ExpireChallenge { .. }
        | Request::AggregateOracleOutcomes { .. }
        | Request::GetPendingRewards { .. }
        | Request::UpdateChallengeRewardIndex { .. } => {},
        _ => {
            lemma_settings_ask_first(s, request);
        },
    }
}

/// Nobody has to be trusted with a challenge that resolves by the ledger's own
/// time, nor with one that has expired: no authorization is asked for.
pub proof fn law_native_resolution_asks_nobody(s: State, request: Request)
    requires
        request is ResolveNative || request is ExpireChallenge,
    ensures
        ({
            let t = served(s, request).0;
            &&& continues(s.actions, t.actions)
            &&& forall|i: int|
                s.actions.len() <= i < t.actions.len() ==> !(#[trigger] t.actions[i] is RequireAuth)
        }),
{
}

/// While the market is paused nothing new is begun, and what is refused for it
/// changes nothing that the market keeps.
#[verifier::rlimit(50)]
pub proof fn law_paused_markets_begin_nothing(s: State, request: Request)
    requires
        s.is_paused(),
        request is CreateChallenge || request is CreateTemplate || request is CreateFromTemplate
            || request is Stake || request is BatchStake || request is CancelChallenge
            || request is SubmitOracleOutcome || request is AddLiquidity
            || request is UpdateChallengeRewardIndex || request is FileDispute
            || s.admin is Some && (request is AddRelayer || request is RemoveRelayer
            || request is SetQuorumSize),
    ensures
        served(s, request).1 == Some(Error::ContractPaused),
        served(s, request).0 == (State { actions: served(s, request).0.actions, ..s }),
{
}

/// To pause a market and to let it go on again changes nothing else.
pub proof fn law_unpausing_undoes_pausing(s: State)
    requires
        s.admin is Some,
        !s.is_paused(),
    ensures
        ({
            let (paused, first) = pause_step(s);
            let (running, second) = unpause_step(paused);
            &&& first is Ok
            &&& paused.is_paused()
            &&& pause_step(paused).1 is Err
            &&& second is Ok
            &&& !running.is_paused()
            &&& running == (State { actions: running.actions, paused: running.paused, ..s })
        }),
{
}

/// A market is set up once.
pub proof fn law_markets_are_set_up_once(
    s: State,
    admin: Address,
    oracle_relayer: Address,
    t: State,
    other_admin: Address,
    other_relayer: Address,
)
    requires
        initialize_step(s, admin, oracle_relayer).1 is Ok,
        follows(initialize_step(s, admin, oracle_relayer).0, t),
    ensures
        initialize_step(t, other_admin, other_relayer) == (
            t,
            Err::<(), Error>(Error::AlreadyInitialized),
        ),
        t.admin == Some(admin),
{
}

/// What the market keeps is the same, counts of requests, flags and rewards
/// aside.
pub open spec fn keeps(s: State, t: State) -> bool {
    t == (State {
        actions: t.actions,
        challenge_creation_counts: t.challenge_creation_counts,
        stake_counts: t.stake_counts,
        dispute_filing_counts: t.dispute_filing_counts,
        flash_loan_flags: t.flash_loan_flags,
        reward_accruals: t.reward_accruals,
        ..s
    })
}

/// Nothing that the market keeps has changed, and no tokens are moved.
pub open spec fn moves_nothing(s: State, t: State) -> bool {
    &&& keeps(s, t)
    &&& continues(s.actions, t.actions)
    &&& forall|i: int|
        s.actions.len() <= i < t.actions.len() ==> !(#[trigger] t.actions[i] is Transfer)
}

/// A request about payments that is refused moves nothing.
#[verifier::rlimit(50)]
proof fn lemma_refused_payments_move_nothing(s: State, request: Request)
    requires
        served(s, request).1 is Some,
        request is Stake || request is Claim || request is Refund || request is AddLiquidity
            || request is RemoveLiquidity || request is ClaimRewards
            || request is GetPendingRewards || request is UpdateChallengeRewardIndex
            || request is FileDispute || request is ResolveDispute,
    ensures
        moves_nothing(s, served(s, request).0),
{
}

/// A request about challenges that is refused moves nothing.
#[verifier::rlimit(50)]
proof fn lemma_refused_challenges_move_nothing(s: State, request: Request)
    requires
        served(s, request).1 is Some,
        request is CreateChallenge || request is CreateTemplate || request is CreateFromTemplate
            || request is ResolveNative || request is ResolveViaOracle
            || request is CancelChallenge || request is ExpireChallenge
            || request is AddChallengeToken || request is AggregateOracleOutcomes
            || request is CleanupOldChallenges,
    ensures
        moves_nothing(s, served(s, request).0),
{
}

/// A request about settings or relayers that is refused moves nothing.
#[verifier::rlimit(50)]
proof fn lemma_refused_settings_move_nothing(s: State, request: Request)
    requires
        served(s, request).1 is Some,
        request is Initialize || request is SetOracleRelayer || request is SetProtocolFee
            || request is Pause || request is Unpause || request is SetMinStake
            || request is AddTokenToWhitelist || request is RemoveTokenFromWhitelist
            || request is SetUserVesting || request is SetSelfVesting || request is CollectFees
            || request is ClearFlashLoanFlag || request is AddRelayer || request is RemoveRelayer
            || request is SetQuorumSize || request is SlashRelayer
            || request is SubmitOracleOutcome,
    ensures
        moves_nothing(s, served(s, request).0),
{
}

/// A request that is refused moves no tokens, and changes nothing that the
/// market keeps but counts of requests, flags and rewards. Several stakes or
/// claims at once are another matter: those before the one that is refused
/// have been made.
pub proof fn law_refused_requests_move_nothing(s: State, request: Request)
    requires
        served(s, request).1 is Some,
        !(request is BatchStake),
        !(request is BatchClaim),
    ensures
        moves_nothing(s, served(s, request).0),
{
    match request {
        Request::Stake { .. }
        | Request::Claim { .. }
        | Request::Refund { .. }
        | Request::AddLiquidity { .. }
        | Request::RemoveLiquidity { .. }
        | Request::ClaimRewards { .. }
        | Request::GetPendingRewards { .. }
        | Request::UpdateChallengeRewardIndex { .. }
        | Request::FileDispute { .. }
        | Request::ResolveDispute { .. } => {
            lemma_refused_payments_move_nothing(s, request);
        },
        Request::CreateChallenge { .. }
        | Request::CreateTemplate { .. }
        | Request::CreateFromTemplate { .. }
        | Request::ResolveNative { .. }
        | Request::ResolveViaOracle { .. }
        | Request::CancelChallenge { .. }
        | Request::ExpireChallenge { .. }
        | Request::AddChallengeToken { .. }
        | Request::AggregateOracleOutcomes { .. }
        | Request::CleanupOldChallenges { .. } => {
            lemma_refused_challenges_move_nothing(s, request);
        },
        _ => {
            lemma_refused_settings_move_nothing(s, request);
        },
    }
}

/// To remove a relayer that was added last leaves the relayers as they were.
pub proof fn law_removing_undoes_adding(s: State, relayer: Address)
    requires
        sound(s),
        add_relayer_in_range(s, relayer),
        add_relayer_step(s, relayer).1 is Ok,
    ensures
        ({
            let added = add_relayer_step(s, relayer).0;
            let (removed, result) = remove_relayer_step(added, relayer);
            &&& relayers(added) == relayers(s).push(relayer.id)
            &&& add_relayer_step(added, relayer).1 == Err::<(), Error>(Error::RelayerNotAuthorized)
            &&& result is Ok
            &&& relayers(removed) == relayers(s)
            &&& quorum_or_default(removed).total_relayers == quorum_or_default(s).total_relayers
        }),
{
    let set = relayers(s);
    let added = set.push(relayer.id);
    assert(added.contains(relayer.id)) by {
        assert(added[set.len() as int] == relayer.id);
    }
    added.index_of_first_ensures(relayer.id);
    let at = added.index_of_first(relayer.id)->0;
    assert(at == set.len()) by {
        if at < set.len() {
            assert(set[at] == relayer.id);
        }
    }
    assert(added.remove(at) =~= set);
}

/// However a challenge ends, it ends without touching what was staked: pools,
/// stakes, fees and liquidity are what they were.
#[verifier::rlimit(50)]
pub proof fn law_resolution_leaves_stakes_alone(s: State, request: Request, challenge_id: u64)
    requires
        request is ResolveNative || request is ResolveViaOracle
            || request is AggregateOracleOutcomes || request is CancelChallenge
            || request is ExpireChallenge || request is ResolveDispute,
        s.challenges.contains_key(challenge_id),
    ensures
        ({
            let t = served(s, request).0;
            &&& t.stakes == s.stakes
            &&& t.fee_balances == s.fee_balances
            &&& t.total_liquidity == s.total_liquidity
            &&& t.challenges.contains_key(challenge_id)
            &&& t.challenges[challenge_id].pool_yes == s.challenges[challenge_id].pool_yes
            &&& t.challenges[challenge_id].pool_no == s.challenges[challenge_id].pool_no
        }),
{
}

/// What a stake in a pool could be paid, by the odds, is what its owner is due
/// if its side wins.
pub proof fn law_potential_payouts_are_due(s: State, who: Address, challenge_id: u64)
    requires
        sound(s),
        s.stakes.contains_key((challenge_id, who)),
        s.challenges[challenge_id].resolved,
    ensures
        ({
            let challenge = s.challenges[challenge_id];
            let amount = winning_amount(challenge, s.stakes[(challenge_id, who)]);
            potential_payout(challenge, challenge.outcome_yes, amount) == due(s, challenge_id)(
                (challenge_id, who),
            )
        }),
{
}

} // verus!
