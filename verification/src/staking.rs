//! Stakes: placing them, claiming what they won, getting them back.

use vstd::prelude::*;

use crate::context::Context;
use crate::context::State;
use crate::guards::bump_challenge;
use crate::guards::bump_stake;
use crate::guards::challenge_extension;
use crate::guards::check_flash_loan_protection;
use crate::guards::check_paused;
use crate::guards::check_rate_limit;
use crate::guards::decided;
use crate::guards::rate_counted;
use crate::guards::rate_limited;
use crate::guards::stake_extension;
use crate::lists::i128_items;
use crate::lists::i128s_push_back;
use crate::lists::new_i128s;
use crate::lists::stake_items;
use crate::lists::stake_readings;
use crate::lists::stakes_len;
use crate::lists::u64_items;
use crate::lists::u64_readings;
use crate::lists::u64s_len;
use crate::market::ChallengeMarket;
use crate::numbers::number_read;
use crate::numbers::stake_read;
use crate::params::BPS_DENOMINATOR;
use crate::params::DEFAULT_MIN_STAKE;
use crate::params::DEFAULT_PROTOCOL_FEE_BPS;
use crate::params::DEFAULT_VESTING_DURATION;
use crate::params::MAX_STAKES_PER_WINDOW;
use crate::payouts::bonus;
use crate::payouts::calculate_payout;
use crate::payouts::fits_i128;
use crate::payouts::get_pools;
use crate::payouts::gross_payout;
use crate::payouts::net_payout;
use crate::payouts::odds_in_range;
use crate::payouts::payout_fee;
use crate::payouts::payout_in_range;
use crate::payouts::pool_odds;
use crate::payouts::pools;
use crate::payouts::yes_odds;
use crate::reputation::ReputationGain;
use crate::reputation::reputation_in_range;
use crate::reputation::staking_gain;
use crate::reputation::update_reputation;
use crate::reputation::winning_gain;
use crate::reputation::with_reputation;
use crate::types::Action;
use crate::types::Address;
use crate::types::Challenge;
use crate::types::ChallengeStats;
use crate::types::ChallengeView;
use crate::types::Error;
use crate::types::Event;
use crate::types::Stake;

verus! {

/// The least stake that is accepted.
pub open spec fn min_stake(s: State) -> i128 {
    match s.min_stake {
        Some(amount) => amount,
        None => DEFAULT_MIN_STAKE,
    }
}

/// How long the stakes of a user vest, in seconds.
pub open spec fn vesting_of(s: State, user: Address) -> u64 {
    if s.user_vesting.contains_key(user) {
        s.user_vesting[user]
    } else {
        DEFAULT_VESTING_DURATION
    }
}

/// The stake of a user on a challenge, or the one that a first amount will be
/// added to.
pub open spec fn stake_or_blank(s: State, who: Address, challenge_id: u64) -> Stake {
    if s.stakes.contains_key((challenge_id, who)) {
        s.stakes[(challenge_id, who)]
    } else {
        Stake {
            yes_amount: 0,
            no_amount: 0,
            claimed_yes: false,
            claimed_no: false,
            vesting_start: s.timestamp,
            vesting_duration: vesting_of(s, who),
            is_vested: vesting_of(s, who) == 0,
            token: s.challenges[challenge_id].token,
        }
    }
}

/// A stake with an amount added to one of its sides.
pub open spec fn stake_plus(stake: Stake, side_yes: bool, amount: i128) -> Stake {
    if side_yes {
        Stake { yes_amount: (stake.yes_amount + amount) as i128, ..stake }
    } else {
        Stake { no_amount: (stake.no_amount + amount) as i128, ..stake }
    }
}

/// A challenge with an amount added to one of its pools.
pub open spec fn pool_plus(challenge: ChallengeView, side_yes: bool, amount: i128) -> ChallengeView {
    if side_yes {
        ChallengeView { pool_yes: (challenge.pool_yes + amount) as i128, ..challenge }
    } else {
        ChallengeView { pool_no: (challenge.pool_no + amount) as i128, ..challenge }
    }
}

/// The statistics of a challenge, or those of one without any.
pub open spec fn stats_or_blank(s: State, challenge_id: u64) -> ChallengeStats {
    if s.challenge_stats.contains_key(challenge_id) {
        s.challenge_stats[challenge_id]
    } else {
        ChallengeStats { total_participants: 0, total_staked: 0 }
    }
}

/// The user has nothing on the challenge yet.
pub open spec fn is_first_stake(s: State, who: Address, challenge_id: u64) -> bool {
    let stake = stake_or_blank(s, who, challenge_id);
    stake.yes_amount == 0 && stake.no_amount == 0
}

/// The statistics of a challenge after a stake.
pub open spec fn stats_after_stake(
    s: State,
    who: Address,
    challenge_id: u64,
    amount: i128,
) -> ChallengeStats {
    let stats = stats_or_blank(s, challenge_id);
    ChallengeStats {
        total_staked: (stats.total_staked + amount) as i128,
        total_participants: if is_first_stake(s, who, challenge_id) {
            (stats.total_participants + 1) as u32
        } else {
            stats.total_participants
        },
    }
}

/// Why a stake is refused.
pub open spec fn stake_refusal(
    s: State,
    who: Address,
    challenge_id: u64,
    amount: i128,
) -> Option<Error> {
    if s.is_paused() {
        Some(Error::ContractPaused)
    } else if rate_limited(s.stake_counts, who, s.timestamp, MAX_STAKES_PER_WINDOW) {
        Some(Error::RateLimitExceeded)
    } else if amount <= 0 {
        Some(Error::InvalidAmount)
    } else if amount < min_stake(s) {
        Some(Error::AmountBelowMinimum)
    } else if !s.challenges.contains_key(challenge_id) {
        Some(Error::ChallengeNotFound)
    } else if s.challenges[challenge_id].finalized() {
        Some(Error::AlreadyFinalized)
    } else if s.sequence > s.challenges[challenge_id].staking_deadline_seq {
        Some(Error::StakingClosed)
    } else {
        None
    }
}

/// The state once a stake has been looked at, whether it is refused or not:
/// it counts toward the user's limit, and a challenge that is found is kept
/// alive.
pub open spec fn stake_examined(
    s: State,
    who: Address,
    challenge_id: u64,
    amount: i128,
) -> State {
    if s.is_paused() || rate_limited(s.stake_counts, who, s.timestamp, MAX_STAKES_PER_WINDOW) {
        s
    } else {
        let counted = State {
            stake_counts: rate_counted(s.stake_counts, who, s.timestamp),
            ..s
        };
        if amount <= 0 || amount < min_stake(s) || !s.challenges.contains_key(challenge_id) {
            counted
        } else {
            counted.asking(challenge_extension(challenge_id))
        }
    }
}

/// The state once a stake that is not refused has been placed: the amount has
/// moved from the user to the market, and the user's stake, the pool and the
/// statistics have grown by it.
pub open spec fn stake_placed(
    s: State,
    who: Address,
    challenge_id: u64,
    side_yes: bool,
    amount: i128,
) -> State {
    let before = s.challenges[challenge_id];
    let challenge = pool_plus(before, side_yes, amount);
    let yes = yes_odds(challenge.pool_yes as int, challenge.pool_no as int) as u32;
    let placed = State {
        stakes: s.stakes.insert(
            (challenge_id, who),
            stake_plus(stake_or_blank(s, who, challenge_id), side_yes, amount),
        ),
        challenge_stats: s.challenge_stats.insert(
            challenge_id,
            stats_after_stake(s, who, challenge_id, amount),
        ),
        challenges: s.challenges.insert(challenge_id, challenge),
        ..s
    };
    with_reputation(
        placed.asking(
            Action::Transfer { token: before.token, from: who, to: s.contract, amount },
        ).asking(stake_extension(challenge_id, who)).publishing(
            Event::OddsUpdated {
                challenge_id,
                yes_odds: yes,
                no_odds: (BPS_DENOMINATOR - yes) as u32,
            },
        ).publishing(Event::Staked { challenge_id, who, side_yes, amount }),
        who,
        staking_gain(amount),
    )
}

/// What a stake comes to, once the user has been asked to authorize it.
pub open spec fn placement(
    s: State,
    who: Address,
    challenge_id: u64,
    side_yes: bool,
    amount: i128,
) -> (State, Result<(), Error>) {
    let examined = stake_examined(s, who, challenge_id, amount);
    decided(
        stake_refusal(s, who, challenge_id, amount),
        examined,
        stake_placed(examined, who, challenge_id, side_yes, amount),
        (),
    )
}

/// A stake is refused, or every sum that it makes is in range.
pub open spec fn stake_in_range(
    s: State,
    who: Address,
    challenge_id: u64,
    side_yes: bool,
    amount: i128,
) -> bool {
    stake_refusal(s, who, challenge_id, amount) is None ==> stake_sums_in_range(
        s,
        who,
        challenge_id,
        side_yes,
        amount,
    )
}

/// Every sum that a stake on an existing challenge makes is in range.
pub open spec fn stake_sums_in_range(
    s: State,
    who: Address,
    challenge_id: u64,
    side_yes: bool,
    amount: i128,
) -> bool {
    let stake = stake_or_blank(s, who, challenge_id);
    let stats = stats_or_blank(s, challenge_id);
    let challenge = s.challenges[challenge_id];
    let yes = if side_yes { amount as int } else { 0 };
    let no = if side_yes { 0 } else { amount as int };
    &&& fits_i128(stake.yes_amount + yes)
    &&& fits_i128(stake.no_amount + no)
    &&& fits_i128(stats.total_staked + amount)
    &&& is_first_stake(s, who, challenge_id) ==> stats.total_participants < u32::MAX
    &&& fits_i128(challenge.pool_yes + yes)
    &&& fits_i128(challenge.pool_no + no)
    &&& odds_in_range(challenge.pool_yes + yes, challenge.pool_no + no)
    &&& reputation_in_range(s, who, staking_gain(amount))
}

/// What stakes that are placed one after the other come to: the first that is
/// refused ends it.
pub open spec fn stakes_placed_in_turn(s: State, who: Address, stakes: Seq<(u64, bool, i128)>) -> (
    State,
    Result<(), Error>,
)
    decreases stakes.len(),
{
    if stakes.len() == 0 {
        (s, Ok(()))
    } else {
        let (challenge_id, side_yes, amount) = stakes[0];
        let (after, result) = placement(s, who, challenge_id, side_yes, amount);
        match result {
            Err(error) => (after, Err(error)),
            Ok(_) => stakes_placed_in_turn(after, who, stakes.skip(1)),
        }
    }
}

/// Every stake that is come to is in range.
pub open spec fn stakes_in_range(
    s: State,
    who: Address,
    stakes: Seq<(u64, bool, i128)>,
) -> bool
    decreases stakes.len(),
{
    stakes.len() > 0 ==> {
        let (challenge_id, side_yes, amount) = stakes[0];
        let (after, result) = placement(s, who, challenge_id, side_yes, amount);
        &&& stake_in_range(s, who, challenge_id, side_yes, amount)
        &&& result is Ok ==> stakes_in_range(after, who, stakes.skip(1))
    }
}

/// Every stake that is come to can be read.
pub open spec fn stakes_read(
    s: State,
    who: Address,
    stakes: Seq<Option<(u64, bool, i128)>>,
) -> bool
    decreases stakes.len(),
{
    stakes.len() > 0 ==> match stakes[0] {
        Some((challenge_id, side_yes, amount)) => {
            let (after, result) = placement(s, who, challenge_id, side_yes, amount);
            result is Ok ==> stakes_read(after, who, stakes.skip(1))
        },
        None => false,
    }
}

/// What a user has on the side that won.
pub open spec fn winning_amount(challenge: ChallengeView, stake: Stake) -> i128 {
    if challenge.outcome_yes {
        stake.yes_amount
    } else {
        stake.no_amount
    }
}

/// The side that won has been paid out already.
pub open spec fn winnings_claimed(challenge: ChallengeView, stake: Stake) -> bool {
    if challenge.outcome_yes {
        stake.claimed_yes
    } else {
        stake.claimed_no
    }
}

/// The stake cannot be claimed yet.
pub open spec fn still_vesting(stake: Stake, now: u64) -> bool {
    !stake.is_vested && now < stake.vesting_start + stake.vesting_duration
}

/// The protocol fee, in basis points.
pub open spec fn fee_bps(s: State) -> u32 {
    match s.protocol_fee_bps {
        Some(bps) => bps,
        None => DEFAULT_PROTOCOL_FEE_BPS,
    }
}

/// Why a claim is refused.
pub open spec fn claim_refusal(s: State, who: Address, challenge_id: u64) -> Option<Error> {
    let challenge = s.challenges[challenge_id];
    let stake = s.stakes[(challenge_id, who)];
    if !s.challenges.contains_key(challenge_id) {
        Some(Error::ChallengeNotFound)
    } else if !challenge.resolved {
        Some(Error::NotResolved)
    } else if challenge.cancelled {
        Some(Error::AlreadyCancelled)
    } else if !s.stakes.contains_key((challenge_id, who)) {
        Some(Error::NoStake)
    } else if still_vesting(stake, s.timestamp) {
        Some(Error::StakeStillVesting)
    } else if winnings_claimed(challenge, stake) {
        Some(Error::AlreadyClaimed)
    } else if winning_amount(challenge, stake) <= 0 {
        Some(Error::NothingWon)
    } else {
        None
    }
}

/// A claim comes as far as the stake.
pub open spec fn claim_finds_stake(s: State, who: Address, challenge_id: u64) -> bool {
    &&& s.challenges.contains_key(challenge_id)
    &&& s.challenges[challenge_id].resolved
    &&& !s.challenges[challenge_id].cancelled
    &&& s.stakes.contains_key((challenge_id, who))
}

/// The state once a claim has been looked at, whether it is refused or not:
/// the challenge and the stake that are found are kept alive.
pub open spec fn claim_examined(s: State, who: Address, challenge_id: u64) -> State {
    if !s.challenges.contains_key(challenge_id) {
        s
    } else if !claim_finds_stake(s, who, challenge_id) {
        s.asking(challenge_extension(challenge_id))
    } else {
        s.asking(challenge_extension(challenge_id)).asking(stake_extension(challenge_id, who))
    }
}

/// What a claim pays.
pub open spec fn claim_payout(s: State, who: Address, challenge_id: u64) -> i128 {
    let challenge = s.challenges[challenge_id];
    let (winning_pool, losing_pool) = pools(challenge);
    net_payout(
        winning_amount(challenge, s.stakes[(challenge_id, who)]) as int,
        winning_pool as int,
        losing_pool as int,
        fee_bps(s) as int,
    ) as i128
}

/// What the protocol keeps of a claim.
pub open spec fn claim_fee(s: State, who: Address, challenge_id: u64) -> i128 {
    let challenge = s.challenges[challenge_id];
    let (winning_pool, losing_pool) = pools(challenge);
    payout_fee(
        gross_payout(
            winning_amount(challenge, s.stakes[(challenge_id, who)]) as int,
            winning_pool as int,
            losing_pool as int,
        ),
        fee_bps(s) as int,
    ) as i128
}

/// The fees of a token that are waiting to be collected.
pub open spec fn fee_balance(s: State, token: Address) -> i128 {
    if s.fee_balances.contains_key(token) {
        s.fee_balances[token]
    } else {
        0
    }
}

/// The stake of a user whose winnings have been paid out.
pub open spec fn stake_claimed(challenge: ChallengeView, stake: Stake) -> Stake {
    Stake {
        is_vested: true,
        claimed_yes: stake.claimed_yes || challenge.outcome_yes,
        claimed_no: stake.claimed_no || !challenge.outcome_yes,
        ..stake
    }
}

/// The state once a claim that is not refused has been paid.
pub open spec fn claim_paid(s: State, who: Address, challenge_id: u64) -> State {
    let challenge = s.challenges[challenge_id];
    let payout = claim_payout(s, who, challenge_id);
    let fee = claim_fee(s, who, challenge_id);
    let paid = State {
        fee_balances: if fee > 0 {
            s.fee_balances.insert(
                challenge.token,
                (fee_balance(s, challenge.token) + fee) as i128,
            )
        } else {
            s.fee_balances
        },
        stakes: s.stakes.insert(
            (challenge_id, who),
            stake_claimed(challenge, s.stakes[(challenge_id, who)]),
        ),
        ..s
    };
    with_reputation(
        paid.asking(
            Action::Transfer {
                token: challenge.token,
                from: s.contract,
                to: who,
                amount: payout,
            },
        ).publishing(Event::Claimed { challenge_id, who, payout }),
        who,
        winning_gain(),
    )
}

/// What a claim comes to, once the user has been asked to authorize it.
pub open spec fn settlement(s: State, who: Address, challenge_id: u64) -> (
    State,
    Result<i128, Error>,
) {
    let examined = claim_examined(s, who, challenge_id);
    decided(
        claim_refusal(s, who, challenge_id),
        examined,
        claim_paid(examined, who, challenge_id),
        claim_payout(s, who, challenge_id),
    )
}

/// The end of the vesting that a claim looks at, if it looks at any, is in
/// range, and so is every number that a claim that is not refused makes.
pub open spec fn claim_in_range(s: State, who: Address, challenge_id: u64) -> bool {
    &&& claim_finds_stake(s, who, challenge_id) ==> vesting_in_range(
        s.stakes[(challenge_id, who)],
    )
    &&& claim_refusal(s, who, challenge_id) is None ==> claim_sums_in_range(s, who, challenge_id)
}

/// The end of the vesting, where it matters, is in range.
pub open spec fn vesting_in_range(stake: Stake) -> bool {
    !stake.is_vested ==> stake.vesting_start + stake.vesting_duration <= u64::MAX
}

/// Every number that the claim of an existing stake makes is in range.
pub open spec fn claim_sums_in_range(s: State, who: Address, challenge_id: u64) -> bool {
    let challenge = s.challenges[challenge_id];
    let (winning_pool, losing_pool) = pools(challenge);
    let amount = winning_amount(challenge, s.stakes[(challenge_id, who)]);
    &&& payout_in_range(amount as int, winning_pool as int, losing_pool as int, fee_bps(s) as int)
    &&& fits_i128(fee_balance(s, challenge.token) + claim_fee(s, who, challenge_id))
    &&& reputation_in_range(s, who, winning_gain())
}

/// What claims that are made one after the other come to: the payouts, unless
/// one is refused, which ends it.
pub open spec fn claims_paid_in_turn(s: State, who: Address, challenge_ids: Seq<u64>) -> (
    State,
    Result<Seq<i128>, Error>,
)
    decreases challenge_ids.len(),
{
    if challenge_ids.len() == 0 {
        (s, Ok(Seq::empty()))
    } else {
        let (after, result) = settlement(s, who, challenge_ids[0]);
        match result {
            Err(error) => (after, Err(error)),
            Ok(payout) => {
                let (end, rest) = claims_paid_in_turn(after, who, challenge_ids.skip(1));
                match rest {
                    Err(error) => (end, Err(error)),
                    Ok(payouts) => (end, Ok(seq![payout] + payouts)),
                }
            },
        }
    }
}

/// Every claim that is come to is in range.
pub open spec fn claims_in_range(s: State, who: Address, challenge_ids: Seq<u64>) -> bool
    decreases challenge_ids.len(),
{
    challenge_ids.len() > 0 ==> {
        let (after, result) = settlement(s, who, challenge_ids[0]);
        &&& claim_in_range(s, who, challenge_ids[0])
        &&& result is Ok ==> claims_in_range(after, who, challenge_ids.skip(1))
    }
}

/// What a list of payouts says.
pub open spec fn payouts_view(result: Result<soroban_sdk::Vec<i128>, Error>) -> Result<
    Seq<i128>,
    Error,
> {
    match result {
        Ok(payouts) => Ok(i128_items(payouts)),
        Err(error) => Err(error),
    }
}

/// What a user has on a challenge that was not paid back yet.
pub open spec fn refundable(stake: Stake) -> int {
    (if stake.claimed_yes {
        0
    } else {
        stake.yes_amount as int
    }) + (if stake.claimed_no {
        0
    } else {
        stake.no_amount as int
    })
}

/// Why a refund is refused.
pub open spec fn refund_refusal(s: State, who: Address, challenge_id: u64) -> Option<Error> {
    if !s.challenges.contains_key(challenge_id) {
        Some(Error::ChallengeNotFound)
    } else if !s.challenges[challenge_id].cancelled {
        Some(Error::CannotCancel)
    } else if !s.stakes.contains_key((challenge_id, who)) {
        Some(Error::NoStake)
    } else if refundable(s.stakes[(challenge_id, who)]) <= 0 {
        Some(Error::AlreadyClaimed)
    } else {
        None
    }
}

/// A refund comes as far as the stake.
pub open spec fn refund_finds_stake(s: State, who: Address, challenge_id: u64) -> bool {
    &&& s.challenges.contains_key(challenge_id)
    &&& s.challenges[challenge_id].cancelled
    &&& s.stakes.contains_key((challenge_id, who))
}

/// The state once a refund has been looked at, whether it is refused or not.
pub open spec fn refund_examined(s: State, who: Address, challenge_id: u64) -> State {
    if !s.challenges.contains_key(challenge_id) {
        s
    } else if !refund_finds_stake(s, who, challenge_id) {
        s.asking(challenge_extension(challenge_id))
    } else {
        s.asking(challenge_extension(challenge_id)).asking(stake_extension(challenge_id, who))
    }
}

/// The state once a refund that is not refused has been paid.
pub open spec fn refund_paid(s: State, who: Address, challenge_id: u64) -> State {
    let stake = s.stakes[(challenge_id, who)];
    let amount = refundable(stake) as i128;
    State {
        stakes: s.stakes.insert(
            (challenge_id, who),
            Stake { claimed_yes: true, claimed_no: true, ..stake },
        ),
        ..s
    }.asking(
        Action::Transfer {
            token: s.challenges[challenge_id].token,
            from: s.contract,
            to: who,
            amount,
        },
    ).publishing(Event::Refunded { challenge_id, who, amount })
}

/// What a refund comes to, once the user has been asked to authorize it.
pub open spec fn repayment(s: State, who: Address, challenge_id: u64) -> (
    State,
    Result<i128, Error>,
) {
    let examined = refund_examined(s, who, challenge_id);
    decided(
        refund_refusal(s, who, challenge_id),
        examined,
        refund_paid(examined, who, challenge_id),
        refundable(s.stakes[(challenge_id, who)]) as i128,
    )
}

/// What a refund adds up is in range.
pub open spec fn refund_in_range(s: State, who: Address, challenge_id: u64) -> bool {
    refund_finds_stake(s, who, challenge_id) ==> fits_i128(
        refundable(s.stakes[(challenge_id, who)]),
    )
}

/// What a stake comes to.
pub open spec fn stake_step(
    s: State,
    who: Address,
    challenge_id: u64,
    side_yes: bool,
    amount: i128,
) -> (State, Result<(), Error>) {
    placement(s.asking(Action::RequireAuth(who)), who, challenge_id, side_yes, amount)
}

/// What several stakes come to.
pub open spec fn batch_stake_step(s: State, who: Address, stakes: Seq<(u64, bool, i128)>) -> (
    State,
    Result<(), Error>,
) {
    let asked = s.asking(Action::RequireAuth(who));
    if s.is_paused() {
        (asked, Err(Error::ContractPaused))
    } else {
        stakes_placed_in_turn(asked, who, stakes)
    }
}

/// The stakes are refused as a whole, or each that is come to is in range.
pub open spec fn batch_stake_in_range(
    s: State,
    who: Address,
    stakes: Seq<(u64, bool, i128)>,
) -> bool {
    !s.is_paused() ==> stakes_in_range(s.asking(Action::RequireAuth(who)), who, stakes)
}

/// The stakes are refused as a whole, or each that is come to can be read.
pub open spec fn batch_stake_reads(
    s: State,
    who: Address,
    stakes: Seq<Option<(u64, bool, i128)>>,
) -> bool {
    !s.is_paused() ==> stakes_read(s.asking(Action::RequireAuth(who)), who, stakes)
}

/// What a claim comes to.
pub open spec fn claim_step(s: State, who: Address, challenge_id: u64) -> (
    State,
    Result<i128, Error>,
) {
    settlement(s.asking(Action::RequireAuth(who)), who, challenge_id)
}

/// What several claims come to.
pub open spec fn batch_claim_step(s: State, who: Address, challenge_ids: Seq<u64>) -> (
    State,
    Result<Seq<i128>, Error>,
) {
    claims_paid_in_turn(s.asking(Action::RequireAuth(who)), who, challenge_ids)
}

/// Each claim that is come to is in range.
pub open spec fn batch_claim_in_range(s: State, who: Address, challenge_ids: Seq<u64>) -> bool {
    claims_in_range(s.asking(Action::RequireAuth(who)), who, challenge_ids)
}

/// Each claim that is come to can be read.
pub open spec fn batch_claim_reads(
    s: State,
    who: Address,
    challenge_ids: Seq<Option<u64>>,
) -> bool {
    claims_read(s.asking(Action::RequireAuth(who)), who, challenge_ids)
}

/// Every claim that is come to can be read.
pub open spec fn claims_read(s: State, who: Address, challenge_ids: Seq<Option<u64>>) -> bool
    decreases challenge_ids.len(),
{
    challenge_ids.len() > 0 ==> match challenge_ids[0] {
        Some(challenge_id) => {
            let (after, result) = settlement(s, who, challenge_id);
            result is Ok ==> claims_read(after, who, challenge_ids.skip(1))
        },
        None => false,
    }
}

/// What a refund comes to.
pub open spec fn refund_step(s: State, who: Address, challenge_id: u64) -> (
    State,
    Result<i128, Error>,
) {
    repayment(s.asking(Action::RequireAuth(who)), who, challenge_id)
}

/// Places a stake that the user has been asked to authorize.
pub(crate) fn place_stake(
    ctx: &mut Context,
    who: Address,
    challenge_id: u64,
    side_yes: bool,
    amount: i128,
) -> (result: Result<(), Error>)
    requires
        stake_in_range(old(ctx)@, who, challenge_id, side_yes, amount),
    ensures
        (final(ctx)@, result) == placement(old(ctx)@, who, challenge_id, side_yes, amount),
{
    check_paused(ctx)?;
    check_rate_limit(&mut ctx.stake_counts, who, ctx.timestamp, MAX_STAKES_PER_WINDOW)?;
    if amount <= 0 {
        return Err(Error::InvalidAmount);
    }
    let min_stake: i128 = ChallengeMarket::get_min_stake(ctx);
    if amount < min_stake {
        return Err(Error::AmountBelowMinimum);
    }
    let mut challenge: Challenge = match ctx.challenges.get(&challenge_id) {
        Some(challenge) => challenge.clone(),
        None => {
            return Err(Error::ChallengeNotFound);
        },
    };
    bump_challenge(ctx, challenge_id);
    if challenge.resolved || challenge.cancelled {
        return Err(Error::AlreadyFinalized);
    }
    if ctx.sequence > challenge.staking_deadline_seq {
        return Err(Error::StakingClosed);
    }
    // The stake is held by the market until it is claimed or refunded.
    ctx.ask(
        Action::Transfer { token: challenge.token, from: who, to: ctx.contract, amount },
    );
    // It joins what the user has on the challenge already.
    let vesting_config: u64 = ChallengeMarket::get_user_vesting(ctx, who);
    let mut stake: Stake = match ctx.stakes.get(&(challenge_id, who)) {
        Some(stake) => *stake,
        None => Stake {
            yes_amount: 0,
            no_amount: 0,
            claimed_yes: false,
            claimed_no: false,
            vesting_start: ctx.timestamp,
            vesting_duration: vesting_config,
            is_vested: vesting_config == 0,
            token: challenge.token,
        },
    };
    let is_new_user: bool = stake.yes_amount == 0 && stake.no_amount == 0;
    if side_yes {
        stake.yes_amount = stake.yes_amount + amount;
    } else {
        stake.no_amount = stake.no_amount + amount;
    }
    ctx.stakes.set((challenge_id, who), stake);
    bump_stake(ctx, challenge_id, who);
    let mut stats: ChallengeStats = match ctx.challenge_stats.get(&challenge_id) {
        Some(stats) => *stats,
        None => ChallengeStats { total_participants: 0, total_staked: 0 },
    };
    stats.total_staked = stats.total_staked + amount;
    if is_new_user {
        stats.total_participants = stats.total_participants + 1;
    }
    ctx.challenge_stats.set(challenge_id, stats);
    if side_yes {
        challenge.pool_yes = challenge.pool_yes + amount;
    } else {
        challenge.pool_no = challenge.pool_no + amount;
    }
    ctx.challenges.set(challenge_id, challenge);
    let (yes_odds, no_odds) = ChallengeMarket::calculate_odds(ctx, challenge_id)?;
    ctx.publish(Event::OddsUpdated { challenge_id, yes_odds, no_odds });
    ctx.publish(Event::Staked { challenge_id, who, side_yes, amount });
    update_reputation(
        ctx,
        who,
        ReputationGain {
            score: 0,
            challenges_created: 0,
            challenges_resolved: 0,
            staked: amount,
            successful_predictions: 0,
        },
    );
    Ok(())
}

/// Pays out a claim that the user has been asked to authorize.
pub(crate) fn pay_claim(ctx: &mut Context, who: Address, challenge_id: u64) -> (result: Result<i128, Error>)
    requires
        claim_in_range(old(ctx)@, who, challenge_id),
    ensures
        (final(ctx)@, result) == settlement(old(ctx)@, who, challenge_id),
{
    check_flash_loan_protection(ctx, who, challenge_id, 0)?;
    let challenge: Challenge = match ctx.challenges.get(&challenge_id) {
        Some(challenge) => challenge.clone(),
        None => {
            return Err(Error::ChallengeNotFound);
        },
    };
    bump_challenge(ctx, challenge_id);
    if !challenge.resolved {
        return Err(Error::NotResolved);
    }
    if challenge.cancelled {
        return Err(Error::AlreadyCancelled);
    }
    let mut stake: Stake = match ctx.stakes.get(&(challenge_id, who)) {
        Some(stake) => *stake,
        None => {
            return Err(Error::NoStake);
        },
    };
    bump_stake(ctx, challenge_id, who);
    if !stake.is_vested {
        let vested_time: u64 = stake.vesting_start + stake.vesting_duration;
        if ctx.timestamp < vested_time {
            return Err(Error::StakeStillVesting);
        }
        stake.is_vested = true;
    }
    let (winning_pool, losing_pool) = get_pools(&challenge);
    let winning_amount: i128 = if challenge.outcome_yes {
        stake.yes_amount
    } else {
        stake.no_amount
    };
    let is_claimed: bool = if challenge.outcome_yes {
        stake.claimed_yes
    } else {
        stake.claimed_no
    };
    if is_claimed {
        return Err(Error::AlreadyClaimed);
    }
    if winning_amount <= 0 {
        return Err(Error::NothingWon);
    }
    let fee_bps: u32 = match ctx.protocol_fee_bps {
        Some(bps) => bps,
        None => DEFAULT_PROTOCOL_FEE_BPS,
    };
    let (payout, fee) = calculate_payout(winning_amount, winning_pool, losing_pool, fee_bps);
    // The fee stays with the market until it is collected.
    if fee > 0 {
        let balance: i128 = ChallengeMarket::get_fee_balance(ctx, challenge.token);
        ctx.fee_balances.set(challenge.token, balance + fee);
    }
    if challenge.outcome_yes {
        stake.claimed_yes = true;
    } else {
        stake.claimed_no = true;
    }
    ctx.stakes.set((challenge_id, who), stake);
    ctx.ask(
        Action::Transfer { token: challenge.token, from: ctx.contract, to: who, amount: payout },
    );
    ctx.publish(Event::Claimed { challenge_id, who, payout });
    update_reputation(
        ctx,
        who,
        ReputationGain {
            score: 2,
            challenges_created: 0,
            challenges_resolved: 0,
            staked: 0,
            successful_predictions: 1,
        },
    );
    Ok(payout)
}

impl ChallengeMarket {
    /// Stakes `amount` of the challenge's token on YES or NO. The amount moves
    /// from `who` to the market at once.
    pub fn stake(
        ctx: &mut Context,
        who: Address,
        challenge_id: u64,
        side_yes: bool,
        amount: i128,
    ) -> (result: Result<(), Error>)
        requires
            stake_in_range(old(ctx)@, who, challenge_id, side_yes, amount),
        ensures
            (final(ctx)@, result) == stake_step(old(ctx)@, who, challenge_id, side_yes, amount),
    {
        ctx.ask(Action::RequireAuth(who));
        place_stake(ctx, who, challenge_id, side_yes, amount)
    }

    /// Places several stakes at once.
    pub fn batch_stake(
        ctx: &mut Context,
        who: Address,
        stakes: soroban_sdk::Vec<(u64, bool, i128)>,
    ) -> (result: Result<(), Error>)
        requires
            batch_stake_reads(old(ctx)@, who, stake_readings(stakes)),
            batch_stake_in_range(old(ctx)@, who, stake_items(stakes)),
        ensures
            (final(ctx)@, result) == batch_stake_step(old(ctx)@, who, stake_items(stakes)),
    {
        ctx.ask(Action::RequireAuth(who));
        check_paused(ctx)?;
        let ghost items = stake_items(stakes);
        let ghost readings = stake_readings(stakes);
        let ghost end = stakes_placed_in_turn(ctx@, who, items);
        let len: u32 = stakes_len(&stakes);
        let mut i: u32 = 0;
        assert(items.skip(0) =~= items);
        assert(readings.skip(0) =~= readings);
        while i < len
            invariant
                i <= len,
                len == items.len(),
                items == stake_items(stakes),
                readings == stake_readings(stakes),
                stakes_read(ctx@, who, readings.skip(i as int)),
                !old(ctx)@.is_paused(),
                end == stakes_placed_in_turn(
                    old(ctx)@.asking(Action::RequireAuth(who)),
                    who,
                    items,
                ),
                stakes_in_range(ctx@, who, items.skip(i as int)),
                end == stakes_placed_in_turn(ctx@, who, items.skip(i as int)),
            decreases len - i,
        {
            if let Some((challenge_id, side_yes, amount)) = stake_read(&stakes, i) {
                assert(items.skip(i as int).skip(1) =~= items.skip(i + 1));
                assert(readings.skip(i as int).skip(1) =~= readings.skip(i + 1));
                place_stake(ctx, who, challenge_id, side_yes, amount)?;
            }
            i = i + 1;
        }
        Ok(())
    }

    /// Claims what `who` won: the stake on the winning side, and its share of
    /// the losing pool, less the protocol fee.
    pub fn claim(ctx: &mut Context, who: Address, challenge_id: u64) -> (result: Result<
        i128,
        Error,
    >)
        requires
            claim_in_range(old(ctx)@, who, challenge_id),
        ensures
            (final(ctx)@, result) == claim_step(old(ctx)@, who, challenge_id),
    {
        ctx.ask(Action::RequireAuth(who));
        pay_claim(ctx, who, challenge_id)
    }

    /// Claims what `who` won on several challenges at once.
    pub fn batch_claim(
        ctx: &mut Context,
        who: Address,
        challenge_ids: soroban_sdk::Vec<u64>,
    ) -> (result: Result<soroban_sdk::Vec<i128>, Error>)
        requires
            batch_claim_reads(old(ctx)@, who, u64_readings(challenge_ids)),
            batch_claim_in_range(old(ctx)@, who, u64_items(challenge_ids)),
        ensures
            (final(ctx)@, payouts_view(result)) == batch_claim_step(
                old(ctx)@,
                who,
                u64_items(challenge_ids),
            ),
    {
        ctx.ask(Action::RequireAuth(who));
        let ghost items = u64_items(challenge_ids);
        let ghost readings = u64_readings(challenge_ids);
        let ghost end = claims_paid_in_turn(ctx@, who, items);
        let mut payouts: soroban_sdk::Vec<i128> = new_i128s(&ctx.host);
        let len: u32 = u64s_len(&challenge_ids);
        let mut i: u32 = 0;
        assert(items.skip(0) =~= items);
        assert(readings.skip(0) =~= readings);
        while i < len
            invariant
                i <= len,
                len == items.len(),
                items == u64_items(challenge_ids),
                readings == u64_readings(challenge_ids),
                claims_read(ctx@, who, readings.skip(i as int)),
                end == claims_paid_in_turn(
                    old(ctx)@.asking(Action::RequireAuth(who)),
                    who,
                    items,
                ),
                i128_items(payouts).len() == i,
                claims_in_range(ctx@, who, items.skip(i as int)),
                end.0 == claims_paid_in_turn(ctx@, who, items.skip(i as int)).0,
                end.1 == (match claims_paid_in_turn(ctx@, who, items.skip(i as int)).1 {
                    Err(error) => Err::<Seq<i128>, Error>(error),
                    Ok(rest) => Ok::<Seq<i128>, Error>(i128_items(payouts) + rest),
                }),
            decreases len - i,
        {
            if let Some(challenge_id) = number_read(&challenge_ids, i) {
                assert(items.skip(i as int).skip(1) =~= items.skip(i + 1));
                assert(readings.skip(i as int).skip(1) =~= readings.skip(i + 1));
                let ghost so_far = i128_items(payouts);
                let payout: i128 = pay_claim(ctx, who, challenge_id)?;
                i128s_push_back(&mut payouts, payout);
                assert(forall|rest: Seq<i128>|
                    so_far.push(payout) + rest =~= #[trigger] (so_far + (seq![payout] + rest)));
            }
            i = i + 1;
        }
        assert(i128_items(payouts) + Seq::<i128>::empty() =~= i128_items(payouts));
        Ok(payouts)
    }

    /// Gives back what `who` staked on a challenge that was cancelled.
    pub fn refund(ctx: &mut Context, who: Address, challenge_id: u64) -> (result: Result<
        i128,
        Error,
    >)
        requires
            refund_in_range(old(ctx)@, who, challenge_id),
        ensures
            (final(ctx)@, result) == refund_step(old(ctx)@, who, challenge_id),
    {
        ctx.ask(Action::RequireAuth(who));
        let challenge: Challenge = match ctx.challenges.get(&challenge_id) {
            Some(challenge) => challenge.clone(),
            None => {
                return Err(Error::ChallengeNotFound);
            },
        };
        bump_challenge(ctx, challenge_id);
        if !challenge.cancelled {
            return Err(Error::CannotCancel);
        }
        let mut stake: Stake = match ctx.stakes.get(&(challenge_id, who)) {
            Some(stake) => *stake,
            None => {
                return Err(Error::NoStake);
            },
        };
        bump_stake(ctx, challenge_id, who);
        let mut total_refund: i128 = 0;
        if !stake.claimed_yes {
            total_refund = total_refund + stake.yes_amount;
            stake.claimed_yes = true;
        }
        if !stake.claimed_no {
            total_refund = total_refund + stake.no_amount;
            stake.claimed_no = true;
        }
        if total_refund <= 0 {
            return Err(Error::AlreadyClaimed);
        }
        ctx.stakes.set((challenge_id, who), stake);
        ctx.ask(
            Action::Transfer {
                token: challenge.token,
                from: ctx.contract,
                to: who,
                amount: total_refund,
            },
        );
        ctx.publish(Event::Refunded { challenge_id, who, amount: total_refund });
        Ok(total_refund)
    }

    /// The odds of YES and of NO on a challenge, in basis points.
    pub fn calculate_odds(ctx: &Context, challenge_id: u64) -> (result: Result<(u32, u32), Error>)
        requires
            ctx@.challenges.contains_key(challenge_id) ==> odds_in_range(
                ctx@.challenges[challenge_id].pool_yes as int,
                ctx@.challenges[challenge_id].pool_no as int,
            ),
        ensures
            result == (if ctx@.challenges.contains_key(challenge_id) {
                let challenge = ctx@.challenges[challenge_id];
                let yes = yes_odds(challenge.pool_yes as int, challenge.pool_no as int) as u32;
                Ok::<(u32, u32), Error>((yes, (BPS_DENOMINATOR - yes) as u32))
            } else {
                Err::<(u32, u32), Error>(Error::ChallengeNotFound)
            }),
    {
        match ctx.challenges.get(&challenge_id) {
            Some(challenge) => Ok(pool_odds(challenge.pool_yes, challenge.pool_no)),
            None => Err(Error::ChallengeNotFound),
        }
    }

    /// What a stake of `amount` on a side would be paid, before fees, if the
    /// side won with the pools as they are.
    pub fn calculate_potential_payout(
        ctx: &Context,
        challenge_id: u64,
        side_yes: bool,
        amount: i128,
    ) -> (result: Result<i128, Error>)
        requires
            ctx@.challenges.contains_key(challenge_id) ==> potential_payout_in_range(
                ctx@.challenges[challenge_id],
                side_yes,
                amount,
            ),
        ensures
            result == (if ctx@.challenges.contains_key(challenge_id) {
                Ok::<i128, Error>(
                    potential_payout(ctx@.challenges[challenge_id], side_yes, amount) as i128,
                )
            } else {
                Err::<i128, Error>(Error::ChallengeNotFound)
            }),
    {
        let (winning_pool, losing_pool): (i128, i128) = match ctx.challenges.get(&challenge_id) {
            Some(challenge) => if side_yes {
                (challenge.pool_yes, challenge.pool_no)
            } else {
                (challenge.pool_no, challenge.pool_yes)
            },
            None => {
                return Err(Error::ChallengeNotFound);
            },
        };
        if winning_pool == 0 {
            return Ok(amount);
        }
        let bonus: i128 = (amount * losing_pool) / winning_pool;
        Ok(amount + bonus)
    }

    /// The stake of a user on a challenge.
    pub fn get_stake(ctx: &Context, challenge_id: u64, who: Address) -> (stake: Option<Stake>)
        ensures
            stake == ctx@.stakes.get((challenge_id, who)),
    {
        match ctx.stakes.get(&(challenge_id, who)) {
            Some(stake) => Some(*stake),
            None => None,
        }
    }

    /// The least stake that is accepted.
    pub fn get_min_stake(ctx: &Context) -> (amount: i128)
        ensures
            amount == min_stake(ctx@),
    {
        match ctx.min_stake {
            Some(amount) => amount,
            None => DEFAULT_MIN_STAKE,
        }
    }

    /// How long the stakes of a user vest, in seconds.
    pub fn get_user_vesting(ctx: &Context, user: Address) -> (duration: u64)
        ensures
            duration == vesting_of(ctx@, user),
    {
        match ctx.user_vesting.get(&user) {
            Some(duration) => *duration,
            None => DEFAULT_VESTING_DURATION,
        }
    }

    /// Whether a stake has vested, and how many seconds it still takes.
    pub fn get_stake_vesting_status(ctx: &Context, challenge_id: u64, user: Address) -> (result:
        Result<(bool, u64), Error>)
        requires
            ctx@.stakes.contains_key((challenge_id, user)) ==> ctx@.stakes[(
                challenge_id,
                user,
            )].vesting_start + ctx@.stakes[(challenge_id, user)].vesting_duration <= u64::MAX,
        ensures
            result == (if ctx@.stakes.contains_key((challenge_id, user)) {
                let stake = ctx@.stakes[(challenge_id, user)];
                if still_vesting(stake, ctx@.timestamp) {
                    Ok::<(bool, u64), Error>(
                        (
                            false,
                            (stake.vesting_start + stake.vesting_duration - ctx@.timestamp) as u64,
                        ),
                    )
                } else {
                    Ok::<(bool, u64), Error>((true, 0))
                }
            } else {
                Err::<(bool, u64), Error>(Error::NoStake)
            }),
    {
        let stake: Stake = match ctx.stakes.get(&(challenge_id, user)) {
            Some(stake) => *stake,
            None => {
                return Err(Error::NoStake);
            },
        };
        let vested_time: u64 = stake.vesting_start + stake.vesting_duration;
        let is_vested: bool = stake.is_vested || ctx.timestamp >= vested_time;
        let time_remaining: u64 = if is_vested {
            0
        } else {
            vested_time - ctx.timestamp
        };
        Ok((is_vested, time_remaining))
    }

    /// The fees of a token that are waiting to be collected.
    pub fn get_fee_balance(ctx: &Context, token: Address) -> (balance: i128)
        ensures
            balance == fee_balance(ctx@, token),
    {
        match ctx.fee_balances.get(&token) {
            Some(balance) => *balance,
            None => 0,
        }
    }
}

/// The pool of a side and the pool of the other.
pub open spec fn side_pools(challenge: ChallengeView, side_yes: bool) -> (i128, i128) {
    if side_yes {
        (challenge.pool_yes, challenge.pool_no)
    } else {
        (challenge.pool_no, challenge.pool_yes)
    }
}

/// What a stake on a side would be paid, before fees.
pub open spec fn potential_payout(challenge: ChallengeView, side_yes: bool, amount: i128) -> int {
    let (winning_pool, losing_pool) = side_pools(challenge, side_yes);
    amount + bonus(amount as int, winning_pool as int, losing_pool as int)
}

/// The pool of the side is a real pool, and every number on the way to a
/// potential payout is in range.
pub open spec fn potential_payout_in_range(
    challenge: ChallengeView,
    side_yes: bool,
    amount: i128,
) -> bool {
    let (winning_pool, losing_pool) = side_pools(challenge, side_yes);
    &&& 0 <= winning_pool
    &&& winning_pool > 0 ==> fits_i128(amount * losing_pool)
    &&& fits_i128(potential_payout(challenge, side_yes, amount))
}

} // verus!
