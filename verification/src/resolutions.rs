//! How challenges end, in plain terms: who decides the outcome, when, and what
//! becomes of it.

use vstd::prelude::*;

use crate::challenges::cancel_challenge_step;
use crate::challenges::challenge_touched;
use crate::challenges::expire_challenge_step;
use crate::challenges::resolve_native_step;
use crate::challenges::resolve_via_oracle_step;
use crate::context::State;
use crate::disputes::file_dispute_in_range;
use crate::disputes::file_dispute_step;
use crate::disputes::resolve_dispute_in_range;
use crate::disputes::resolve_dispute_step;
use crate::guards::challenge_extension;
use crate::relayers::aggregate_oracle_outcomes_step;
use crate::relayers::submit_oracle_outcome_step;
use crate::types::Action;
use crate::types::Address;
use crate::types::ChallengeView;
use crate::types::Condition;
use crate::types::DataKey;
use crate::types::DisputeView;
use crate::types::Error;
use crate::types::Event;
use crate::types::OracleSubmission;

verus! {

/// To look at a challenge asks the host to keep it for another hundred thousand
/// ledgers once fewer than half of that are left to it.
pub proof fn law_challenges_that_are_looked_at_are_kept(s: State, challenge_id: u64)
    ensures
        challenge_extension(challenge_id) == (Action::ExtendTtl {
            key: DataKey::Challenge(challenge_id),
            threshold: 50000,
            extend_to: 100000,
        }),
        s.challenges.contains_key(challenge_id) ==> challenge_touched(s, challenge_id) == (State {
            actions: s.actions.push(
                Action::ExtendTtl {
                    key: DataKey::Challenge(challenge_id),
                    threshold: 50000,
                    extend_to: 100000,
                },
            ),
            ..s
        }),
        !s.challenges.contains_key(challenge_id) ==> challenge_touched(s, challenge_id) == s,
{
}

/// When a challenge is resolved by the ledger's own time, and why it is not
/// otherwise.
pub proof fn law_native_resolution_is_refused_for_a_reason(s: State, challenge_id: u64)
    ensures
        ({
            let result = resolve_native_step(s, challenge_id).1;
            let challenge = s.challenges[challenge_id];
            if !s.challenges.contains_key(challenge_id) {
                result == Err::<(), Error>(Error::ChallengeNotFound)
            } else if challenge.resolved || challenge.cancelled {
                result == Err::<(), Error>(Error::AlreadyFinalized)
            } else if s.sequence < challenge.resolve_ledger_seq {
                result == Err::<(), Error>(Error::TooEarlyToResolve)
            } else if s.sequence > challenge.expiry_seq {
                result == Err::<(), Error>(Error::ChallengeExpired)
            } else if !(challenge.condition is LedgerCloseUnder) {
                result == Err::<(), Error>(Error::WrongConditionForResolutionPath)
            } else {
                result == Ok::<(), Error>(())
            }
        }),
{
}

/// A challenge on the time that a ledger takes resolves to YES if no more than
/// the seconds of its own condition have passed since it was created, and to NO
/// if more have. Its statistics go, the outcome is told, and nothing else
/// changes.
pub proof fn law_native_resolution_goes_by_the_seconds(
    s: State,
    challenge_id: u64,
    seconds: u32,
)
    requires
        s.challenges.contains_key(challenge_id),
        s.challenges[challenge_id].condition == Condition::LedgerCloseUnder(seconds),
        !s.challenges[challenge_id].resolved,
        !s.challenges[challenge_id].cancelled,
        s.challenges[challenge_id].resolve_ledger_seq <= s.sequence
            <= s.challenges[challenge_id].expiry_seq,
    ensures
        ({
            let (t, result) = resolve_native_step(s, challenge_id);
            let challenge = s.challenges[challenge_id];
            let outcome_yes = t.challenges[challenge_id].outcome_yes;
            &&& result is Ok
            &&& t.challenges[challenge_id].resolved
            &&& outcome_yes <==> s.timestamp <= challenge.created_timestamp + seconds
            &&& t.challenges == s.challenges.insert(
                challenge_id,
                ChallengeView { resolved: true, outcome_yes, ..challenge },
            )
            &&& t.challenge_stats == s.challenge_stats.remove(challenge_id)
            &&& t.actions == s.actions + seq![
                Action::ExtendTtl {
                    key: DataKey::Challenge(challenge_id),
                    threshold: 50000,
                    extend_to: 100000,
                },
                Action::Publish(Event::Resolved { challenge_id, outcome_yes }),
            ]
            &&& t == (State {
                challenges: t.challenges,
                challenge_stats: t.challenge_stats,
                actions: t.actions,
                ..s
            })
        }),
{
}

/// Of two challenges that were created at the same time and differ in their
/// seconds, the one with fewer seconds resolves to NO and the other to YES when
/// the time that has passed lies between the two.
pub proof fn law_native_resolution_tells_seconds_apart(
    s: State,
    shorter_id: u64,
    shorter: u32,
    longer_id: u64,
    longer: u32,
)
    requires
        s.challenges.contains_key(shorter_id),
        s.challenges.contains_key(longer_id),
        s.challenges[shorter_id].condition == Condition::LedgerCloseUnder(shorter),
        s.challenges[longer_id].condition == Condition::LedgerCloseUnder(longer),
        !s.challenges[shorter_id].resolved && !s.challenges[shorter_id].cancelled,
        !s.challenges[longer_id].resolved && !s.challenges[longer_id].cancelled,
        s.challenges[shorter_id].resolve_ledger_seq <= s.sequence
            <= s.challenges[shorter_id].expiry_seq,
        s.challenges[longer_id].resolve_ledger_seq <= s.sequence
            <= s.challenges[longer_id].expiry_seq,
        s.challenges[shorter_id].created_timestamp == s.challenges[longer_id].created_timestamp,
        shorter < s.timestamp - s.challenges[shorter_id].created_timestamp <= longer,
    ensures
        !resolve_native_step(s, shorter_id).0.challenges[shorter_id].outcome_yes,
        resolve_native_step(s, longer_id).0.challenges[longer_id].outcome_yes,
{
}

/// When a challenge is resolved on the relayer's word, and why it is not
/// otherwise.
pub proof fn law_oracle_resolution_is_refused_for_a_reason(
    s: State,
    challenge_id: u64,
    outcome_yes: bool,
)
    ensures
        ({
            let result = resolve_via_oracle_step(s, challenge_id, outcome_yes).1;
            let challenge = s.challenges[challenge_id];
            if s.oracle_relayer is None {
                result == Err::<(), Error>(Error::NotInitialized)
            } else if !s.challenges.contains_key(challenge_id) {
                result == Err::<(), Error>(Error::ChallengeNotFound)
            } else if challenge.resolved || challenge.cancelled {
                result == Err::<(), Error>(Error::AlreadyFinalized)
            } else if s.sequence < challenge.resolve_ledger_seq {
                result == Err::<(), Error>(Error::TooEarlyToResolve)
            } else if s.sequence > challenge.expiry_seq {
                result == Err::<(), Error>(Error::ChallengeExpired)
            } else if challenge.condition is LedgerCloseUnder {
                result == Err::<(), Error>(Error::WrongConditionForResolutionPath)
            } else {
                result == Ok::<(), Error>(())
            }
        }),
{
}

/// A challenge that the ledger does not decide resolves to what the relayer
/// says, whatever its condition is and whatever that is. Its statistics go, the
/// outcome is told, and nothing else changes.
pub proof fn law_oracle_resolution_is_what_the_relayer_says(
    s: State,
    challenge_id: u64,
    outcome_yes: bool,
)
    requires
        s.oracle_relayer is Some,
        s.challenges.contains_key(challenge_id),
        !(s.challenges[challenge_id].condition is LedgerCloseUnder),
        !s.challenges[challenge_id].resolved,
        !s.challenges[challenge_id].cancelled,
        s.challenges[challenge_id].resolve_ledger_seq <= s.sequence
            <= s.challenges[challenge_id].expiry_seq,
    ensures
        ({
            let (t, result) = resolve_via_oracle_step(s, challenge_id, outcome_yes);
            &&& result is Ok
            &&& t.challenges[challenge_id].resolved
            &&& t.challenges[challenge_id].outcome_yes == outcome_yes
            &&& t.challenges == s.challenges.insert(
                challenge_id,
                ChallengeView { resolved: true, outcome_yes, ..s.challenges[challenge_id] },
            )
            &&& t.challenge_stats == s.challenge_stats.remove(challenge_id)
            &&& t.actions == s.actions + seq![
                Action::RequireAuth(s.oracle_relayer->0),
                Action::ExtendTtl {
                    key: DataKey::Challenge(challenge_id),
                    threshold: 50000,
                    extend_to: 100000,
                },
                Action::Publish(Event::Resolved { challenge_id, outcome_yes }),
            ]
            &&& t == (State {
                challenges: t.challenges,
                challenge_stats: t.challenge_stats,
                actions: t.actions,
                ..s
            })
        }),
{
}

/// When the word of a relayer is taken down, and why it is not otherwise. What
/// is taken down is what was said, and nothing else changes.
pub proof fn law_relayers_are_taken_at_their_word(
    s: State,
    oracle: Address,
    challenge_id: u64,
    outcome_yes: bool,
)
    ensures
        ({
            let (t, result) = submit_oracle_outcome_step(s, oracle, challenge_id, outcome_yes);
            let challenge = s.challenges[challenge_id];
            let is_relayer = s.relayer_set matches Some(set) && set.contains(oracle.id);
            if s.paused == Some(true) {
                result == Err::<(), Error>(Error::ContractPaused)
            } else if !is_relayer {
                result == Err::<(), Error>(Error::OracleNotAuthorized)
            } else if !s.challenges.contains_key(challenge_id) {
                result == Err::<(), Error>(Error::ChallengeNotFound)
            } else if challenge.resolved || challenge.cancelled {
                result == Err::<(), Error>(Error::AlreadyFinalized)
            } else if s.sequence < challenge.resolve_ledger_seq {
                result == Err::<(), Error>(Error::TooEarlyToResolve)
            } else if s.oracle_submissions.contains_key((challenge_id, oracle)) {
                result == Err::<(), Error>(Error::OracleAlreadySubmitted)
            } else {
                &&& result == Ok::<(), Error>(())
                &&& t.actions == s.actions + seq![
                    Action::RequireAuth(oracle),
                    Action::Publish(Event::OracleSubmitted { challenge_id, oracle, outcome_yes }),
                ]
                &&& t == (State {
                    oracle_submissions: s.oracle_submissions.insert(
                        (challenge_id, oracle),
                        OracleSubmission { challenge_id, outcome_yes, submitted_by: oracle },
                    ),
                    actions: t.actions,
                    ..s
                })
            }
        }),
{
}

/// A challenge resolves on what the relayers say to YES if more of them have
/// said YES than NO, and to NO otherwise, once as many have spoken as have to.
/// The count is kept, the outcome is told, and nothing else changes.
pub proof fn law_the_majority_of_the_relayers_decides(s: State, challenge_id: u64)
    requires
        s.relayer_set matches Some(set) ==> set.len() <= u32::MAX,
    ensures
        ({
            let (t, result) = aggregate_oracle_outcomes_step(s, challenge_id);
            let challenge = s.challenges[challenge_id];
            let set = match s.relayer_set {
                Some(set) => set,
                None => Seq::empty(),
            };
            let said = |relayer: u64, side_yes: bool|
                s.oracle_submissions.contains_key((challenge_id, Address { id: relayer }))
                    && s.oracle_submissions[(challenge_id, Address { id: relayer })].outcome_yes
                    == side_yes;
            let yes = set.filter(|relayer: u64| said(relayer, true)).len();
            let no = set.filter(|relayer: u64| said(relayer, false)).len();
            let required = match s.relayer_quorum {
                Some(quorum) => quorum.required_signatures as int,
                None => 1,
            };
            if !s.challenges.contains_key(challenge_id) {
                result == Err::<(), Error>(Error::ChallengeNotFound)
            } else if challenge.resolved || challenge.cancelled {
                result == Err::<(), Error>(Error::AlreadyFinalized)
            } else if yes + no < required {
                result == Err::<(), Error>(Error::InsufficientOracleSubmissions)
            } else {
                let counted = t.oracle_results[challenge_id];
                &&& result == Ok::<(), Error>(())
                &&& t.challenges == s.challenges.insert(
                    challenge_id,
                    ChallengeView { resolved: true, outcome_yes: yes > no, ..challenge },
                )
                &&& t.oracle_results == s.oracle_results.insert(challenge_id, counted)
                &&& counted.challenge_id == challenge_id
                &&& counted.yes_votes == yes
                &&& counted.no_votes == no
                &&& counted.outcome_yes == (yes > no)
                &&& counted.total_oracles == set.len()
                &&& counted.aggregated_at == s.timestamp
                &&& t.actions == s.actions.push(
                    Action::Publish(
                        Event::OracleAggregated {
                            challenge_id,
                            yes_votes: yes as u32,
                            no_votes: no as u32,
                            outcome_yes: yes > no,
                        },
                    ),
                )
                &&& t == (State {
                    challenges: t.challenges,
                    oracle_results: t.oracle_results,
                    actions: t.actions,
                    ..s
                })
            }
        }),
{
    let set = match s.relayer_set {
        Some(set) => set,
        None => Seq::empty(),
    };
    let said = |relayer: u64, side_yes: bool|
        s.oracle_submissions.contains_key((challenge_id, Address { id: relayer }))
            && s.oracle_submissions[(challenge_id, Address { id: relayer })].outcome_yes
            == side_yes;
    lemma_same_kept(
        set,
        |relayer: u64| said(relayer, true),
        |relayer: u64| crate::relayers::votes_for(s, challenge_id, relayer, true),
    );
    lemma_same_kept(
        set,
        |relayer: u64| said(relayer, false),
        |relayer: u64| crate::relayers::votes_for(s, challenge_id, relayer, false),
    );
    lemma_kept_are_fewer(set, |relayer: u64| said(relayer, true));
    lemma_kept_are_fewer(set, |relayer: u64| said(relayer, false));
}

/// Two ways to say which items are kept keep the same items.
proof fn lemma_same_kept(items: Seq<u64>, one: spec_fn(u64) -> bool, other: spec_fn(u64) -> bool)
    requires
        forall|item: u64| #[trigger] one(item) == other(item),
    ensures
        items.filter(one) == items.filter(other),
    decreases items.len(),
{
    reveal(Seq::filter);
    if items.len() > 0 {
        lemma_same_kept(items.drop_last(), one, other);
        assert(one(items.last()) == other(items.last()));
    }
}

/// No more items are kept than there are.
proof fn lemma_kept_are_fewer(items: Seq<u64>, keep: spec_fn(u64) -> bool)
    ensures
        items.filter(keep).len() <= items.len(),
    decreases items.len(),
{
    reveal(Seq::filter);
    if items.len() > 0 {
        lemma_kept_are_fewer(items.drop_last(), keep);
    }
}

/// When a dispute is filed, and why it is refused if it is not.
pub proof fn law_disputes_are_refused_for_a_reason(
    s: State,
    disputer: Address,
    challenge_id: u64,
    disputed_outcome: bool,
    evidence: Seq<char>,
    stake: i128,
)
    ensures
        ({
            let result = file_dispute_step(
                s,
                disputer,
                challenge_id,
                disputed_outcome,
                evidence,
                stake,
            ).1;
            let hour = (s.timestamp - s.timestamp % 3600) as u64;
            let counts = s.dispute_filing_counts;
            let challenge = s.challenges[challenge_id];
            if s.paused == Some(true) {
                result == Err::<(), Error>(Error::ContractPaused)
            } else if counts.contains_key((disputer, hour)) && counts[(disputer, hour)].0 >= hour
                && counts[(disputer, hour)].1 >= 3 {
                result == Err::<(), Error>(Error::RateLimitExceeded)
            } else if !s.challenges.contains_key(challenge_id) {
                result == Err::<(), Error>(Error::ChallengeNotFound)
            } else if !challenge.resolved {
                result == Err::<(), Error>(Error::NotResolved)
            } else if s.sequence > challenge.resolve_ledger_seq + 100 {
                result == Err::<(), Error>(Error::DisputeWindowClosed)
            } else if stake < 100 {
                result == Err::<(), Error>(Error::InsufficientDisputeStake)
            } else if s.disputes.contains_key((challenge_id, disputer)) {
                result == Err::<(), Error>(Error::DisputeAlreadyExists)
            } else {
                result == Ok::<(), Error>(())
            }
        }),
{
}

/// A dispute that is allowed, and whose count fits, is taken down.
pub proof fn law_disputes_that_fit_are_taken_down(
    s: State,
    disputer: Address,
    challenge_id: u64,
    disputed_outcome: bool,
    evidence: Seq<char>,
    stake: i128,
)
    requires
        s.paused != Some(true),
        ({
            let hour = (s.timestamp - s.timestamp % 3600) as u64;
            let counts = s.dispute_filing_counts;
            counts.contains_key((disputer, hour)) && counts[(disputer, hour)].0 >= hour ==> counts[(
                disputer,
                hour,
            )].1 < 3
        }),
        s.challenges.contains_key(challenge_id),
        s.challenges[challenge_id].resolved,
        s.sequence <= s.challenges[challenge_id].resolve_ledger_seq + 100 <= u32::MAX,
        stake >= 100,
        !s.disputes.contains_key((challenge_id, disputer)),
        s.dispute_counts.contains_key(challenge_id) ==> s.dispute_counts[challenge_id] < u32::MAX,
    ensures
        file_dispute_in_range(s, disputer, challenge_id, stake),
        file_dispute_step(s, disputer, challenge_id, disputed_outcome, evidence, stake).1 is Ok,
{
}

/// A dispute that can be filed is taken down as it was filed and not decided
/// yet, its stake moves from the disputer to the market, it is counted, and
/// nothing else changes: the outcome stays as it is until the dispute is
/// decided.
pub proof fn law_disputes_are_taken_down_as_filed(
    s: State,
    disputer: Address,
    challenge_id: u64,
    disputed_outcome: bool,
    evidence: Seq<char>,
    stake: i128,
)
    requires
        file_dispute_in_range(s, disputer, challenge_id, stake),
        file_dispute_step(s, disputer, challenge_id, disputed_outcome, evidence, stake).1 is Ok,
    ensures
        ({
            let (t, result) = file_dispute_step(
                s,
                disputer,
                challenge_id,
                disputed_outcome,
                evidence,
                stake,
            );
            let hour = (s.timestamp - s.timestamp % 3600) as u64;
            let counts = s.dispute_filing_counts;
            let acted = if counts.contains_key((disputer, hour)) && counts[(disputer, hour)].0
                >= hour {
                counts[(disputer, hour)].1
            } else {
                0
            };
            let filed = if s.dispute_counts.contains_key(challenge_id) {
                s.dispute_counts[challenge_id]
            } else {
                0
            };
            &&& t.disputes == s.disputes.insert(
                (challenge_id, disputer),
                DisputeView {
                    challenge_id,
                    disputer,
                    disputed_outcome,
                    evidence,
                    stake,
                    resolved: false,
                    successful: false,
                    created_at: s.timestamp,
                },
            )
            &&& t.dispute_counts == s.dispute_counts.insert(challenge_id, (filed + 1) as u32)
            &&& t.dispute_filing_counts == counts.insert((disputer, hour), (hour, (acted + 1) as u32))
            &&& t.actions == s.actions + seq![
                Action::RequireAuth(disputer),
                Action::Transfer {
                    token: s.challenges[challenge_id].token,
                    from: disputer,
                    to: s.contract,
                    amount: stake,
                },
                Action::Publish(
                    Event::DisputeCreated { challenge_id, disputer, disputed_outcome },
                ),
            ]
            &&& t == (State {
                disputes: t.disputes,
                dispute_counts: t.dispute_counts,
                dispute_filing_counts: t.dispute_filing_counts,
                actions: t.actions,
                ..s
            })
        }),
{
}

/// When a dispute is decided, and why it is not otherwise.
pub proof fn law_decisions_are_refused_for_a_reason(
    s: State,
    challenge_id: u64,
    disputer: Address,
    successful: bool,
)
    ensures
        ({
            let result = resolve_dispute_step(s, challenge_id, disputer, successful).1;
            if s.admin is None {
                result == Err::<(), Error>(Error::NotInitialized)
            } else if !s.disputes.contains_key((challenge_id, disputer)) {
                result == Err::<(), Error>(Error::NotDisputed)
            } else if s.disputes[(challenge_id, disputer)].resolved {
                result == Err::<(), Error>(Error::DisputeAlreadyResolved)
            } else if !s.challenges.contains_key(challenge_id) {
                result == Err::<(), Error>(Error::ChallengeNotFound)
            } else {
                result == Ok::<(), Error>(())
            }
        }),
{
}

/// A dispute that is open is decided where what is paid for it fits.
pub proof fn law_decisions_that_fit_are_made(
    s: State,
    challenge_id: u64,
    disputer: Address,
    successful: bool,
)
    requires
        s.admin is Some,
        s.disputes.contains_key((challenge_id, disputer)),
        !s.disputes[(challenge_id, disputer)].resolved,
        s.challenges.contains_key(challenge_id),
        successful ==> 0 <= s.disputes[(challenge_id, disputer)].stake * 11 <= i128::MAX * 10,
    ensures
        resolve_dispute_in_range(s, challenge_id, disputer, successful),
        resolve_dispute_step(s, challenge_id, disputer, successful).1 is Ok,
{
}

/// A dispute that is decided for the disputer gives the challenge the outcome
/// that the disputer said it has, and the disputer the stake back with a tenth
/// of it, rounded down, on top. One that is decided against the disputer leaves
/// the challenge alone and gives the stake to the admin. Nothing else changes.
pub proof fn law_decisions_give_what_was_disputed(
    s: State,
    challenge_id: u64,
    disputer: Address,
    successful: bool,
)
    requires
        resolve_dispute_in_range(s, challenge_id, disputer, successful),
        resolve_dispute_step(s, challenge_id, disputer, successful).1 is Ok,
    ensures
        ({
            let (t, result) = resolve_dispute_step(s, challenge_id, disputer, successful);
            let key = (challenge_id, disputer);
            let dispute = s.disputes[key];
            let challenge = s.challenges[challenge_id];
            let paid = t.actions[s.actions.len() as int + 1]->amount;
            &&& t.disputes == s.disputes.insert(
                key,
                DisputeView { resolved: true, successful, ..dispute },
            )
            &&& successful ==> {
                &&& t.challenges[challenge_id].resolved
                &&& t.challenges[challenge_id].outcome_yes == dispute.disputed_outcome
                &&& t.challenges == s.challenges.insert(
                    challenge_id,
                    ChallengeView {
                        resolved: true,
                        outcome_yes: dispute.disputed_outcome,
                        ..challenge
                    },
                )
                &&& dispute.stake >= 0 ==> (paid - dispute.stake) * 10 <= dispute.stake < (paid
                    - dispute.stake + 1) * 10
                &&& dispute.stake <= 0 ==> (paid - dispute.stake - 1) * 10 < dispute.stake <= (paid
                    - dispute.stake) * 10
            }
            &&& !successful ==> t.challenges == s.challenges && paid == dispute.stake
            &&& t.actions == s.actions + seq![
                Action::RequireAuth(s.admin->0),
                Action::Transfer {
                    token: challenge.token,
                    from: s.contract,
                    to: if successful {
                        disputer
                    } else {
                        s.admin->0
                    },
                    amount: paid,
                },
                Action::Publish(Event::DisputeResolved { challenge_id, disputer, successful }),
            ]
            &&& t == (State {
                disputes: t.disputes,
                challenges: t.challenges,
                actions: t.actions,
                ..s
            })
        }),
{
}

/// A dispute that is filed and then decided for the disputer, whatever happens
/// to the market in between that leaves it on record, gives the challenge the
/// outcome that was filed.
pub proof fn law_upheld_disputes_turn_the_outcome(
    s: State,
    disputer: Address,
    challenge_id: u64,
    disputed_outcome: bool,
    evidence: Seq<char>,
    stake: i128,
    t: State,
)
    requires
        file_dispute_step(s, disputer, challenge_id, disputed_outcome, evidence, stake).1 is Ok,
        t.disputes.contains_key((challenge_id, disputer)),
        t.disputes[(challenge_id, disputer)] == file_dispute_step(
            s,
            disputer,
            challenge_id,
            disputed_outcome,
            evidence,
            stake,
        ).0.disputes[(challenge_id, disputer)],
        resolve_dispute_step(t, challenge_id, disputer, true).1 is Ok,
    ensures
        resolve_dispute_step(t, challenge_id, disputer, true).0.challenges[challenge_id].resolved,
        resolve_dispute_step(t, challenge_id, disputer, true).0.challenges[challenge_id].outcome_yes
            == disputed_outcome,
{
}

/// When a challenge is cancelled, and why it is not otherwise.
pub proof fn law_cancelling_is_refused_for_a_reason(s: State, caller: Address, challenge_id: u64)
    ensures
        ({
            let result = cancel_challenge_step(s, caller, challenge_id).1;
            let challenge = s.challenges[challenge_id];
            if s.paused == Some(true) {
                result == Err::<(), Error>(Error::ContractPaused)
            } else if !s.challenges.contains_key(challenge_id) {
                result == Err::<(), Error>(Error::ChallengeNotFound)
            } else if s.admin is None {
                result == Err::<(), Error>(Error::NotInitialized)
            } else if caller != s.admin->0 && caller != challenge.creator {
                result == Err::<(), Error>(Error::NotAuthorized)
            } else if challenge.resolved {
                result == Err::<(), Error>(Error::CannotCancel)
            } else if challenge.cancelled {
                result == Err::<(), Error>(Error::AlreadyCancelled)
            } else if s.sequence > challenge.expiry_seq {
                result == Err::<(), Error>(Error::ChallengeExpired)
            } else {
                result == Ok::<(), Error>(())
            }
        }),
{
}

/// The admin and the creator can cancel a challenge that is neither resolved nor
/// expired. It is marked as cancelled, its statistics go, it is told who did
/// it, and nothing else changes.
pub proof fn law_cancelling_cancels(s: State, caller: Address, challenge_id: u64)
    requires
        cancel_challenge_step(s, caller, challenge_id).1 is Ok,
    ensures
        ({
            let t = cancel_challenge_step(s, caller, challenge_id).0;
            &&& t.challenges == s.challenges.insert(
                challenge_id,
                ChallengeView { cancelled: true, ..s.challenges[challenge_id] },
            )
            &&& t.actions == s.actions + seq![
                Action::RequireAuth(caller),
                Action::ExtendTtl {
                    key: DataKey::Challenge(challenge_id),
                    threshold: 50000,
                    extend_to: 100000,
                },
                Action::Publish(Event::Cancelled { challenge_id, by: caller }),
            ]
            &&& t == (State {
                challenges: t.challenges,
                challenge_stats: s.challenge_stats.remove(challenge_id),
                actions: t.actions,
                ..s
            })
        }),
{
}

/// Anyone can have a challenge cancelled that nobody resolved until its expiry
/// had passed, and not before. It is marked as cancelled, its statistics go, it
/// is told in the market's name, and nothing else changes.
pub proof fn law_expired_challenges_are_cancelled(s: State, challenge_id: u64)
    ensures
        ({
            let (t, result) = expire_challenge_step(s, challenge_id);
            let challenge = s.challenges[challenge_id];
            if !s.challenges.contains_key(challenge_id) {
                result == Err::<(), Error>(Error::ChallengeNotFound)
            } else if challenge.resolved || challenge.cancelled {
                result == Err::<(), Error>(Error::AlreadyFinalized)
            } else if s.sequence <= challenge.expiry_seq {
                result == Err::<(), Error>(Error::TooEarlyToResolve)
            } else {
                &&& result == Ok::<(), Error>(())
                &&& t.challenges == s.challenges.insert(
                    challenge_id,
                    ChallengeView { cancelled: true, ..challenge },
                )
                &&& t.actions == s.actions + seq![
                    Action::ExtendTtl {
                        key: DataKey::Challenge(challenge_id),
                        threshold: 50000,
                        extend_to: 100000,
                    },
                    Action::Publish(Event::Cancelled { challenge_id, by: s.contract }),
                ]
                &&& t == (State {
                    challenges: t.challenges,
                    challenge_stats: s.challenge_stats.remove(challenge_id),
                    actions: t.actions,
                    ..s
                })
            }
        }),
{
}

} // verus!
