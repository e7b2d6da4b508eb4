//! What is left of a request that is refused: what the host was asked on the
//! way, and the count of requests where it was counted. The host undoes both.

use vstd::prelude::*;

use crate::challenges::add_challenge_token_in_range;
use crate::challenges::add_challenge_token_step;
use crate::challenges::cancel_challenge_step;
use crate::challenges::cleanup_old_challenges_step;
use crate::challenges::create_challenge_in_range;
use crate::challenges::create_challenge_step;
use crate::challenges::create_from_template_step;
use crate::challenges::create_template_in_range;
use crate::challenges::create_template_step;
use crate::challenges::expire_challenge_step;
use crate::challenges::resolve_native_step;
use crate::challenges::resolve_via_oracle_step;
use crate::context::State;
use crate::disputes::file_dispute_step;
use crate::disputes::resolve_dispute_in_range;
use crate::disputes::resolve_dispute_step;
use crate::liquidity::accrued;
use crate::liquidity::add_liquidity_in_range;
use crate::liquidity::add_liquidity_step;
use crate::liquidity::claim_rewards_step;
use crate::liquidity::remove_liquidity_step;
use crate::relayers::add_relayer_in_range;
use crate::relayers::add_relayer_step;
use crate::relayers::aggregate_oracle_outcomes_step;
use crate::relayers::remove_relayer_in_range;
use crate::relayers::remove_relayer_step;
use crate::relayers::set_quorum_size_step;
use crate::relayers::slash_relayer_in_range;
use crate::relayers::slash_relayer_step;
use crate::relayers::submit_oracle_outcome_step;
use crate::settings::clear_flash_loan_flag_step;
use crate::settings::collect_fees_step;
use crate::settings::initialize_step;
use crate::settings::pause_step;
use crate::settings::set_min_stake_step;
use crate::settings::set_oracle_relayer_step;
use crate::settings::set_protocol_fee_step;
use crate::settings::set_self_vesting_step;
use crate::settings::set_user_vesting_step;
use crate::settings::unpause_step;
use crate::settings::whitelist_step;
use crate::staking::claim_step;
use crate::staking::refund_step;
use crate::staking::stake_in_range;
use crate::staking::stake_step;
use crate::types::Action;
use crate::types::Address;
use crate::types::Condition;
use crate::types::DataKey;
use crate::types::Event;
use crate::types::RewardAccrual;

verus! {

/// A stake that is refused counts toward the limit of the hour, unless the
/// market is paused or the limit is reached. The challenge is kept alive where
/// the stake came as far as that. Nothing else is left of it.
pub proof fn law_refused_stakes_only_count(
    s: State,
    who: Address,
    challenge_id: u64,
    side_yes: bool,
    amount: i128,
)
    requires
        stake_step(s, who, challenge_id, side_yes, amount).1 is Err,
    ensures
        ({
            let (t, result) = stake_step(s, who, challenge_id, side_yes, amount);
            let error = result->Err_0;
            let hour = (s.timestamp - s.timestamp % 3600) as u64;
            let known = s.stake_counts.contains_key((who, hour)) && s.stake_counts[(who, hour)].0
                >= hour;
            let acted = if known {
                s.stake_counts[(who, hour)].1 as int
            } else {
                0
            };
            &&& t.stake_counts == (if error is ContractPaused || error is RateLimitExceeded {
                s.stake_counts
            } else {
                s.stake_counts.insert((who, hour), (hour, (acted + 1) as u32))
            })
            &&& t.actions == s.actions + (if error is AlreadyFinalized || error is StakingClosed {
                seq![
                    Action::RequireAuth(who),
                    Action::ExtendTtl {
                        key: DataKey::Challenge(challenge_id),
                        threshold: 50000,
                        extend_to: 100000,
                    },
                ]
            } else {
                seq![Action::RequireAuth(who)]
            })
            &&& t == (State { stake_counts: t.stake_counts, actions: t.actions, ..s })
        }),
{
}

/// A claim that is refused keeps the challenge and the stake alive as far as it
/// came. Nothing else is left of it.
pub proof fn law_refused_claims_change_nothing(s: State, who: Address, challenge_id: u64)
    requires
        claim_step(s, who, challenge_id).1 is Err,
    ensures
        ({
            let (t, result) = claim_step(s, who, challenge_id);
            let error = result->Err_0;
            let challenge_kept = Action::ExtendTtl {
                key: DataKey::Challenge(challenge_id),
                threshold: 50000,
                extend_to: 100000,
            };
            let stake_kept = Action::ExtendTtl {
                key: DataKey::Stake(challenge_id, who),
                threshold: 50000,
                extend_to: 100000,
            };
            &&& t.actions == s.actions + (if error is ChallengeNotFound {
                seq![Action::RequireAuth(who)]
            } else if error is NotResolved || error is AlreadyCancelled || error is NoStake {
                seq![Action::RequireAuth(who), challenge_kept]
            } else {
                seq![Action::RequireAuth(who), challenge_kept, stake_kept]
            })
            &&& t == (State { actions: t.actions, ..s })
        }),
{
}

/// A refund that is refused keeps the challenge and the stake alive as far as it
/// came. Nothing else is left of it.
pub proof fn law_refused_refunds_change_nothing(s: State, who: Address, challenge_id: u64)
    requires
        refund_step(s, who, challenge_id).1 is Err,
    ensures
        ({
            let (t, result) = refund_step(s, who, challenge_id);
            let error = result->Err_0;
            let challenge_kept = Action::ExtendTtl {
                key: DataKey::Challenge(challenge_id),
                threshold: 50000,
                extend_to: 100000,
            };
            let stake_kept = Action::ExtendTtl {
                key: DataKey::Stake(challenge_id, who),
                threshold: 50000,
                extend_to: 100000,
            };
            &&& t.actions == s.actions + (if error is ChallengeNotFound {
                seq![Action::RequireAuth(who)]
            } else if error is CannotCancel || error is NoStake {
                seq![Action::RequireAuth(who), challenge_kept]
            } else {
                seq![Action::RequireAuth(who), challenge_kept, stake_kept]
            })
            &&& t == (State { actions: t.actions, ..s })
        }),
{
}

/// A challenge that is looked at is kept alive, though it is not resolved or
/// cancelled. Nothing else is left of the request.
pub proof fn law_refused_resolutions_change_nothing(
    s: State,
    caller: Address,
    challenge_id: u64,
    outcome_yes: bool,
)
    ensures
        ({
            let kept = if s.challenges.contains_key(challenge_id) {
                seq![
                    Action::ExtendTtl {
                        key: DataKey::Challenge(challenge_id),
                        threshold: 50000,
                        extend_to: 100000,
                    },
                ]
            } else {
                Seq::empty()
            };
            let (native, native_result) = resolve_native_step(s, challenge_id);
            let (told, told_result) = resolve_via_oracle_step(s, challenge_id, outcome_yes);
            let (cancelled, cancel_result) = cancel_challenge_step(s, caller, challenge_id);
            let (expired, expire_result) = expire_challenge_step(s, challenge_id);
            &&& native_result is Err ==> {
                &&& native.actions == s.actions + kept
                &&& native == (State { actions: native.actions, ..s })
            }
            &&& told_result is Err ==> match s.oracle_relayer {
                Some(relayer) => {
                    &&& told.actions == s.actions + seq![Action::RequireAuth(relayer)] + kept
                    &&& told == (State { actions: told.actions, ..s })
                },
                None => told == s,
            }
            &&& cancel_result is Err ==> {
                &&& cancelled.actions == s.actions + seq![Action::RequireAuth(caller)] + (
                if s.paused == Some(true) {
                    Seq::empty()
                } else {
                    kept
                })
                &&& cancelled == (State { actions: cancelled.actions, ..s })
            }
            &&& expire_result is Err ==> {
                &&& expired.actions == s.actions + kept
                &&& expired == (State { actions: expired.actions, ..s })
            }
        }),
{
    let extension = Action::ExtendTtl {
        key: DataKey::Challenge(challenge_id),
        threshold: 50000,
        extend_to: 100000,
    };
    assert(s.actions + Seq::<Action>::empty() =~= s.actions);
    assert(s.actions + seq![extension] =~= s.actions.push(extension));
}

/// A challenge that is not created counts toward the limit of the hour, unless
/// the market is paused, the token is barred or the limit is reached. Nothing
/// else is left of the request.
pub proof fn law_refused_creations_only_count(
    s: State,
    creator: Address,
    description: Seq<char>,
    condition: Condition,
    resolve_ledger_seq: u32,
    staking_deadline_seq: u32,
    token: Address,
    category: Seq<char>,
)
    requires
        create_challenge_step(
            s,
            creator,
            description,
            condition,
            resolve_ledger_seq,
            staking_deadline_seq,
            token,
            category,
        ).1 is Err,
    ensures
        ({
            let (t, result) = create_challenge_step(
                s,
                creator,
                description,
                condition,
                resolve_ledger_seq,
                staking_deadline_seq,
                token,
                category,
            );
            let error = result->Err_0;
            let hour = (s.timestamp - s.timestamp % 3600) as u64;
            let counts = s.challenge_creation_counts;
            let acted = if counts.contains_key((creator, hour)) && counts[(creator, hour)].0
                >= hour {
                counts[(creator, hour)].1 as int
            } else {
                0
            };
            &&& t.challenge_creation_counts == (if error is ContractPaused
                || error is TokenNotWhitelisted || error is RateLimitExceeded {
                counts
            } else {
                counts.insert((creator, hour), (hour, (acted + 1) as u32))
            })
            &&& t == (State {
                challenge_creation_counts: t.challenge_creation_counts,
                actions: s.actions.push(Action::RequireAuth(creator)),
                ..s
            })
        }),
{
}

/// A template that is not created or not used leaves nothing.
pub proof fn law_refused_templates_change_nothing(
    s: State,
    creator: Address,
    description: Seq<char>,
    condition: Condition,
    resolve_ledger_offset: u32,
    staking_deadline_offset: u32,
    token: Address,
    category: Seq<char>,
    template_id: u64,
)
    ensures
        ({
            let asked = State { actions: s.actions.push(Action::RequireAuth(creator)), ..s };
            let (created, create_result) = create_template_step(
                s,
                creator,
                description,
                condition,
                resolve_ledger_offset,
                staking_deadline_offset,
                token,
                category,
            );
            let (used, use_result) = create_from_template_step(
                s,
                creator,
                template_id,
                description,
            );
            &&& create_result is Err ==> created == asked
            &&& use_result is Err ==> used == asked
        }),
{
}

/// A dispute that is not taken down counts toward the limit of the hour, unless
/// the market is paused or the limit is reached. Nothing else is left of it.
pub proof fn law_refused_disputes_only_count(
    s: State,
    disputer: Address,
    challenge_id: u64,
    disputed_outcome: bool,
    evidence: Seq<char>,
    stake: i128,
)
    requires
        file_dispute_step(s, disputer, challenge_id, disputed_outcome, evidence, stake).1 is Err,
    ensures
        ({
            let (t, result) = file_dispute_step(
                s,
                disputer,
                challenge_id,
                disputed_outcome,
                evidence,
                stake,
            );
            let error = result->Err_0;
            let hour = (s.timestamp - s.timestamp % 3600) as u64;
            let counts = s.dispute_filing_counts;
            let acted = if counts.contains_key((disputer, hour)) && counts[(disputer, hour)].0
                >= hour {
                counts[(disputer, hour)].1 as int
            } else {
                0
            };
            &&& t.dispute_filing_counts == (if error is ContractPaused
                || error is RateLimitExceeded {
                counts
            } else {
                counts.insert((disputer, hour), (hour, (acted + 1) as u32))
            })
            &&& t == (State {
                dispute_filing_counts: t.dispute_filing_counts,
                actions: s.actions.push(Action::RequireAuth(disputer)),
                ..s
            })
        }),
{
}

/// A request to the admin that is refused leaves nothing but the question to
/// the admin, where there is one.
pub proof fn law_refused_decisions_change_nothing(
    s: State,
    challenge_id: u64,
    user: Address,
    successful: bool,
    reason: String,
    count: u32,
    duration: u64,
    amount: i128,
)
    ensures
        ({
            let asked = match s.admin {
                Some(admin) => State { actions: s.actions.push(Action::RequireAuth(admin)), ..s },
                None => s,
            };
            let decision = resolve_dispute_step(s, challenge_id, user, successful);
            let token = add_challenge_token_step(s, challenge_id, user);
            let sweep = cleanup_old_challenges_step(s, challenge_id);
            let addition = add_relayer_step(s, user);
            let removal = remove_relayer_step(s, user);
            let quorum = set_quorum_size_step(s, count);
            let slash = slash_relayer_step(s, user, reason);
            let fee = set_protocol_fee_step(s, count);
            let relayer = set_oracle_relayer_step(s, user);
            let pause = pause_step(s);
            let unpause = unpause_step(s);
            let least = set_min_stake_step(s, amount);
            let welcome = whitelist_step(s, user, successful);
            let vesting = set_user_vesting_step(s, user, duration);
            let fees = collect_fees_step(s, user, user);
            let flag = clear_flash_loan_flag_step(s, user);
            let start = initialize_step(s, user, user);
            &&& decision.1 is Err ==> decision.0 == asked
            &&& token.1 is Err ==> token.0 == asked
            &&& sweep.1 is Err ==> sweep.0 == s
            &&& addition.1 is Err ==> addition.0 == asked
            &&& removal.1 is Err ==> removal.0 == asked
            &&& quorum.1 is Err ==> quorum.0 == asked
            &&& slash.1 is Err ==> slash.0 == asked
            &&& fee.1 is Err ==> fee.0 == asked
            &&& relayer.1 is Err ==> relayer.0 == s
            &&& pause.1 is Err ==> pause.0 == asked
            &&& unpause.1 is Err ==> unpause.0 == asked
            &&& least.1 is Err ==> least.0 == asked
            &&& welcome.1 is Err ==> welcome.0 == s
            &&& vesting.1 is Err ==> vesting.0 == asked
            &&& fees.1 is Err ==> fees.0 == asked
            &&& flag.1 is Err ==> flag.0 == s
            &&& start.1 is Err ==> start.0 == s
        }),
{
}

/// A user's own vesting, a relayer's word and the majority of the relayers leave
/// nothing where they are refused.
pub proof fn law_refused_words_change_nothing(
    s: State,
    user: Address,
    challenge_id: u64,
    outcome_yes: bool,
    duration: u64,
)
    ensures
        ({
            let asked = State { actions: s.actions.push(Action::RequireAuth(user)), ..s };
            let vesting = set_self_vesting_step(s, user, duration);
            let word = submit_oracle_outcome_step(s, user, challenge_id, outcome_yes);
            let majority = aggregate_oracle_outcomes_step(s, challenge_id);
            &&& vesting.1 is Err ==> vesting.0 == asked
            &&& word.1 is Err ==> word.0 == asked
            &&& majority.1 is Err ==> majority.0 == s
        }),
{
}

/// Liquidity that is not added or not removed leaves nothing, but that a large
/// withdrawal that comes too soon flags the provider and is told, with what the
/// shares are worth.
pub proof fn law_refused_liquidity_changes_nothing(
    s: State,
    provider: Address,
    challenge_id: u64,
    amount: i128,
)
    requires
        s.total_liquidity.contains_key(challenge_id) ==> s.total_liquidity[challenge_id] >= 0
            && amount * s.total_liquidity[challenge_id] <= i128::MAX,
    ensures
        ({
            let asked = State { actions: s.actions.push(Action::RequireAuth(provider)), ..s };
            let held = s.liquidity_positions[(challenge_id, provider)].shares;
            let total = if s.total_liquidity.contains_key(challenge_id) {
                s.total_liquidity[challenge_id] as int
            } else {
                0
            };
            let (added, add_result) = add_liquidity_step(s, provider, challenge_id, amount);
            let (removed, result) = remove_liquidity_step(s, provider, challenge_id, amount);
            &&& add_result is Err ==> added == asked
            &&& result is Err && !(result->Err_0 is CooldownNotElapsed) ==> removed == asked
            &&& result is Err && result->Err_0 is CooldownNotElapsed ==> removed == (State {
                flash_loan_flags: s.flash_loan_flags.insert(provider, true),
                actions: asked.actions.push(
                    Action::Publish(
                        Event::FlashLoanDetected {
                            user: provider,
                            challenge_id,
                            amount: ((amount * total) / (held as int)) as i128,
                        },
                    ),
                ),
                ..s
            })
        }),
{
    let total = if s.total_liquidity.contains_key(challenge_id) {
        s.total_liquidity[challenge_id] as int
    } else {
        0
    };
    if amount > 0 {
        assert(0 <= amount * total) by (nonlinear_arith)
            requires
                0 < amount,
                0 <= total,
        ;
    }
}

/// Rewards that are not paid are brought up to date where there are any, and
/// given up where the challenge is gone. Nothing else is left of the claim.
pub proof fn law_refused_rewards_are_brought_up_to_date(
    s: State,
    provider: Address,
    challenge_id: u64,
)
    requires
        claim_rewards_step(s, provider, challenge_id).1 is Err,
    ensures
        ({
            let (t, result) = claim_rewards_step(s, provider, challenge_id);
            let key = (challenge_id, provider);
            let current = if s.liquidity_positions.contains_key(key) {
                accrued(s, challenge_id, provider, s.liquidity_positions[key].shares)
            } else {
                s
            };
            &&& t.reward_accruals == (if !s.reward_accruals.contains_key(key) {
                s.reward_accruals
            } else if result->Err_0 is ChallengeNotFound {
                current.reward_accruals.insert(
                    key,
                    RewardAccrual { pending_rewards: 0, ..current.reward_accruals[key] },
                )
            } else {
                current.reward_accruals
            })
            &&& t == (State {
                reward_accruals: t.reward_accruals,
                actions: s.actions.push(Action::RequireAuth(provider)),
                ..s
            })
        }),
{
}

/// A request that is refused before it makes any sum is in range.
pub proof fn law_refused_requests_are_in_range(
    s: State,
    user: Address,
    challenge_id: u64,
    side_yes: bool,
    amount: i128,
    description: Seq<char>,
    condition: Condition,
    resolve_ledger_seq: u32,
    staking_deadline_seq: u32,
    token: Address,
    reason: String,
)
    ensures
        stake_step(s, user, challenge_id, side_yes, amount).1 is Err ==> stake_in_range(
            s,
            user,
            challenge_id,
            side_yes,
            amount,
        ),
        create_challenge_step(
            s,
            user,
            description,
            condition,
            resolve_ledger_seq,
            staking_deadline_seq,
            token,
            description,
        ).1 is Err ==> create_challenge_in_range(
            s,
            user,
            resolve_ledger_seq,
            staking_deadline_seq,
            token,
        ),
        create_template_step(
            s,
            user,
            description,
            condition,
            resolve_ledger_seq,
            staking_deadline_seq,
            token,
            description,
        ).1 is Err ==> create_template_in_range(s, user, token),
        add_challenge_token_step(s, challenge_id, token).1 is Err ==> add_challenge_token_in_range(
            s,
            challenge_id,
            token,
        ),
        resolve_dispute_step(s, challenge_id, user, side_yes).1 is Err ==> resolve_dispute_in_range(
            s,
            challenge_id,
            user,
            side_yes,
        ),
        add_liquidity_step(s, user, challenge_id, amount).1 is Err ==> add_liquidity_in_range(
            s,
            challenge_id,
            user,
            amount,
        ),
        add_relayer_step(s, user).1 is Err ==> add_relayer_in_range(s, user),
        remove_relayer_step(s, user).1 is Err ==> remove_relayer_in_range(s, user),
        slash_relayer_step(s, user, reason).1 is Err ==> slash_relayer_in_range(s, user),
{
}

} // verus!
