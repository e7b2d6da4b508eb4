//! The relayers: who they are, what they say of a challenge, and what that
//! comes to.

use vstd::prelude::*;

use crate::challenges::outcome_set;
use crate::context::Context;
use crate::context::State;
use crate::guards::admin_asked;
use crate::guards::check_paused;
use crate::guards::decided;
use crate::guards::require_admin;
use crate::lists::all_numbers;
use crate::lists::u64_items;
use crate::market::ChallengeMarket;
use crate::numbers::Numbers;
use crate::params::DEFAULT_QUORUM_SIZE;
use crate::params::MAX_SLASH_COUNT;
use crate::types::Action;
use crate::types::Address;
use crate::types::AggregatedOracleResult;
use crate::types::Challenge;
use crate::types::Error;
use crate::types::Event;
use crate::types::OracleSubmission;
use crate::types::RelayerQuorum;

verus! {

/// The numbers of the relayers' addresses, in the order they were added.
pub open spec fn relayers(s: State) -> Seq<u64> {
    match s.relayer_set {
        Some(set) => set,
        None => Seq::empty(),
    }
}

/// The quorum, or the one that the first relayer is added to.
pub open spec fn quorum_or_default(s: State) -> RelayerQuorum {
    match s.relayer_quorum {
        Some(quorum) => quorum,
        None => RelayerQuorum { required_signatures: DEFAULT_QUORUM_SIZE, total_relayers: 0 },
    }
}

/// Why a relayer is not added.
pub open spec fn add_relayer_refusal(s: State, relayer: Address) -> Option<Error> {
    if s.admin is None {
        Some(Error::NotInitialized)
    } else if s.is_paused() {
        Some(Error::ContractPaused)
    } else if relayers(s).contains(relayer.id) {
        Some(Error::RelayerNotAuthorized)
    } else {
        None
    }
}

/// The state once a relayer has been added.
pub open spec fn relayer_added(s: State, relayer: Address) -> State {
    let quorum = quorum_or_default(s);
    State {
        relayer_set: Some(relayers(s).push(relayer.id)),
        relayer_quorum: Some(
            RelayerQuorum { total_relayers: (quorum.total_relayers + 1) as u32, ..quorum },
        ),
        ..s
    }.publishing(Event::RelayerAdded { relayer })
}

/// Why a relayer is not removed, the admin aside.
pub open spec fn removal_refusal(s: State, relayer: Address) -> Option<Error> {
    if s.is_paused() {
        Some(Error::ContractPaused)
    } else if s.relayer_quorum is None || s.relayer_set is None {
        Some(Error::NotInitialized)
    } else if !relayers(s).contains(relayer.id) {
        Some(Error::RelayerNotAuthorized)
    } else {
        None
    }
}

/// Why a relayer is not removed.
pub open spec fn remove_relayer_refusal(s: State, relayer: Address) -> Option<Error> {
    if s.admin is None {
        Some(Error::NotInitialized)
    } else {
        removal_refusal(s, relayer)
    }
}

/// The quorum with one relayer less. It never asks for more signatures than
/// there are relayers.
pub open spec fn quorum_shrunk(quorum: RelayerQuorum) -> RelayerQuorum {
    let total = (quorum.total_relayers - 1) as u32;
    RelayerQuorum {
        required_signatures: if quorum.required_signatures > total {
            total
        } else {
            quorum.required_signatures
        },
        total_relayers: total,
    }
}

/// The state once a relayer has been removed.
pub open spec fn relayer_removed(s: State, relayer: Address) -> State {
    State {
        relayer_set: Some(relayers(s).remove(relayers(s).index_of_first(relayer.id)->0)),
        relayer_quorum: Some(quorum_shrunk(quorum_or_default(s))),
        ..s
    }.publishing(Event::RelayerRemoved { relayer })
}

/// How often a relayer was slashed.
pub open spec fn slash_count(s: State, relayer: Address) -> u32 {
    if s.relayer_slash_counts.contains_key(relayer) {
        s.relayer_slash_counts[relayer]
    } else {
        0
    }
}

/// The slash is the last that the relayer is allowed.
pub open spec fn is_last_slash(s: State, relayer: Address) -> bool {
    slash_count(s, relayer) + 1 >= MAX_SLASH_COUNT
}

/// Why a relayer is not slashed.
pub open spec fn slash_refusal(s: State, relayer: Address) -> Option<Error> {
    if s.admin is None || s.relayer_set is None {
        Some(Error::NotInitialized)
    } else if !relayers(s).contains(relayer.id) {
        Some(Error::RelayerNotAuthorized)
    } else if is_last_slash(s, relayer) {
        removal_refusal(s, relayer)
    } else {
        None
    }
}

/// The state once a relayer has been slashed: the slash is counted, and the
/// last one removes the relayer and starts the count over.
pub open spec fn relayer_slashed(s: State, relayer: Address, reason: String) -> State {
    let counted = if is_last_slash(s, relayer) {
        let removed = relayer_removed(s, relayer);
        State { relayer_slash_counts: removed.relayer_slash_counts.insert(relayer, 0), ..removed }
    } else {
        State {
            relayer_slash_counts: s.relayer_slash_counts.insert(
                relayer,
                (slash_count(s, relayer) + 1) as u32,
            ),
            ..s
        }
    };
    counted.publishing(Event::RelayerSlashed { relayer, reason })
}

/// Why the size of the quorum is not set.
pub open spec fn quorum_size_refusal(s: State, required_signatures: u32) -> Option<Error> {
    if s.admin is None {
        Some(Error::NotInitialized)
    } else if s.is_paused() {
        Some(Error::ContractPaused)
    } else if s.relayer_quorum is None {
        Some(Error::NotInitialized)
    } else if required_signatures > s.relayer_quorum->0.total_relayers {
        Some(Error::InsufficientQuorum)
    } else {
        None
    }
}

/// Why what a relayer says of a challenge is not taken down.
pub open spec fn submission_refusal(s: State, oracle: Address, challenge_id: u64) -> Option<Error> {
    if s.is_paused() {
        Some(Error::ContractPaused)
    } else if !relayers(s).contains(oracle.id) {
        Some(Error::OracleNotAuthorized)
    } else if !s.challenges.contains_key(challenge_id) {
        Some(Error::ChallengeNotFound)
    } else if s.challenges[challenge_id].finalized() {
        Some(Error::AlreadyFinalized)
    } else if s.sequence < s.challenges[challenge_id].resolve_ledger_seq {
        Some(Error::TooEarlyToResolve)
    } else if s.oracle_submissions.contains_key((challenge_id, oracle)) {
        Some(Error::OracleAlreadySubmitted)
    } else {
        None
    }
}

/// A relayer has spoken for a side of a challenge.
pub open spec fn votes_for(s: State, challenge_id: u64, relayer: u64, side_yes: bool) -> bool {
    let key = (challenge_id, Address { id: relayer });
    s.oracle_submissions.contains_key(key) && s.oracle_submissions[key].outcome_yes == side_yes
}

/// How many of the relayers have spoken for a side of a challenge.
pub open spec fn vote_count(s: State, challenge_id: u64, set: Seq<u64>, side_yes: bool) -> nat {
    set.filter(|relayer: u64| votes_for(s, challenge_id, relayer, side_yes)).len()
}

/// How many relayers have to have spoken.
pub open spec fn quorum_size(s: State) -> u32 {
    quorum_or_default(s).required_signatures
}

/// Why a challenge is not resolved on what the relayers say.
pub open spec fn aggregation_refusal(s: State, challenge_id: u64) -> Option<Error> {
    if !s.challenges.contains_key(challenge_id) {
        Some(Error::ChallengeNotFound)
    } else if s.challenges[challenge_id].finalized() {
        Some(Error::AlreadyFinalized)
    } else if vote_count(s, challenge_id, relayers(s), true) + vote_count(
        s,
        challenge_id,
        relayers(s),
        false,
    ) < quorum_size(s) {
        Some(Error::InsufficientOracleSubmissions)
    } else {
        None
    }
}

/// What the relayers say of a challenge, counted: YES wins with more votes
/// than NO.
pub open spec fn aggregate(s: State, challenge_id: u64) -> AggregatedOracleResult {
    let yes = vote_count(s, challenge_id, relayers(s), true);
    let no = vote_count(s, challenge_id, relayers(s), false);
    AggregatedOracleResult {
        challenge_id,
        outcome_yes: yes > no,
        yes_votes: yes as u32,
        no_votes: no as u32,
        total_oracles: relayers(s).len() as u32,
        aggregated_at: s.timestamp,
    }
}

/// The state once a challenge has been resolved on what the relayers say.
pub open spec fn aggregated(s: State, challenge_id: u64) -> State {
    let result = aggregate(s, challenge_id);
    outcome_set(
        State { oracle_results: s.oracle_results.insert(challenge_id, result), ..s },
        challenge_id,
        result.outcome_yes,
    ).publishing(
        Event::OracleAggregated {
            challenge_id,
            yes_votes: result.yes_votes,
            no_votes: result.no_votes,
            outcome_yes: result.outcome_yes,
        },
    )
}

/// A relayer is not added, or there is room for one more.
pub open spec fn add_relayer_in_range(s: State, relayer: Address) -> bool {
    add_relayer_refusal(s, relayer) is None ==> {
        &&& quorum_or_default(s).total_relayers < u32::MAX
        &&& relayers(s).len() < u32::MAX
    }
}

/// A relayer is not removed, or the quorum counts it.
pub open spec fn removal_in_range(s: State, relayer: Address) -> bool {
    removal_refusal(s, relayer) is None ==> quorum_or_default(s).total_relayers > 0
}

/// A relayer is not removed, or the quorum counts it.
pub open spec fn remove_relayer_in_range(s: State, relayer: Address) -> bool {
    s.admin is Some ==> removal_in_range(s, relayer)
}

/// A relayer is not slashed for the last time, or the quorum counts it.
pub open spec fn slash_relayer_in_range(s: State, relayer: Address) -> bool {
    slash_refusal(s, relayer) is None && is_last_slash(s, relayer) ==> removal_in_range(s, relayer)
}

/// What adding a relayer comes to.
pub open spec fn add_relayer_step(s: State, relayer: Address) -> (State, Result<(), Error>) {
    decided(
        add_relayer_refusal(s, relayer),
        admin_asked(s),
        relayer_added(admin_asked(s), relayer),
        (),
    )
}

/// What removing a relayer comes to.
pub open spec fn remove_relayer_step(s: State, relayer: Address) -> (State, Result<(), Error>) {
    decided(
        remove_relayer_refusal(s, relayer),
        admin_asked(s),
        relayer_removed(admin_asked(s), relayer),
        (),
    )
}

/// What setting the size of the quorum comes to.
pub open spec fn set_quorum_size_step(s: State, required_signatures: u32) -> (
    State,
    Result<(), Error>,
) {
    decided(
        quorum_size_refusal(s, required_signatures),
        admin_asked(s),
        State {
            relayer_quorum: Some(RelayerQuorum { required_signatures, ..s.relayer_quorum->0 }),
            ..admin_asked(s)
        },
        (),
    )
}

/// What slashing a relayer comes to.
pub open spec fn slash_relayer_step(s: State, relayer: Address, reason: String) -> (
    State,
    Result<(), Error>,
) {
    decided(
        slash_refusal(s, relayer),
        admin_asked(s),
        relayer_slashed(admin_asked(s), relayer, reason),
        (),
    )
}

/// What a relayer's word on a challenge comes to.
pub open spec fn submit_oracle_outcome_step(
    s: State,
    oracle: Address,
    challenge_id: u64,
    outcome_yes: bool,
) -> (State, Result<(), Error>) {
    let asked = s.asking(Action::RequireAuth(oracle));
    decided(
        submission_refusal(s, oracle, challenge_id),
        asked,
        State {
            oracle_submissions: asked.oracle_submissions.insert(
                (challenge_id, oracle),
                OracleSubmission { challenge_id, outcome_yes, submitted_by: oracle },
            ),
            ..asked
        }.publishing(Event::OracleSubmitted { challenge_id, oracle, outcome_yes }),
        (),
    )
}

/// What resolving a challenge on what the relayers say comes to.
pub open spec fn aggregate_oracle_outcomes_step(s: State, challenge_id: u64) -> (
    State,
    Result<(), Error>,
) {
    decided(aggregation_refusal(s, challenge_id), s, aggregated(s, challenge_id), ())
}

/// One more relayer changes the count by whether it has spoken for the side.
proof fn lemma_vote_count_push(
    s: State,
    challenge_id: u64,
    set: Seq<u64>,
    relayer: u64,
    side_yes: bool,
)
    ensures
        vote_count(s, challenge_id, set.push(relayer), side_yes) == vote_count(
            s,
            challenge_id,
            set,
            side_yes,
        ) + if votes_for(s, challenge_id, relayer, side_yes) {
            1nat
        } else {
            0
        },
{
    reveal(Seq::filter);
    assert(set.push(relayer).drop_last() =~= set);
}

/// Where an item stands first in a sequence.
proof fn lemma_first_index(items: Seq<u64>, item: u64, at: int)
    requires
        0 <= at < items.len(),
        items[at] == item,
        forall|i: int| 0 <= i < at ==> items[i] != item,
    ensures
        items.index_of_first(item) == Some(at),
{
    items.index_of_first_ensures(item);
}

/// The relayers, none if there is no set of them.
fn known_relayers(ctx: &Context) -> (set: Numbers)
    ensures
        set@ == relayers(ctx@),
{
    match &ctx.relayer_set {
        Some(set) => set.clone(),
        None => Numbers::new(&ctx.host),
    }
}

/// Removes a relayer once the admin has been asked.
fn drop_relayer(ctx: &mut Context, relayer: Address) -> (result: Result<(), Error>)
    requires
        removal_in_range(old(ctx)@, relayer),
    ensures
        (final(ctx)@, result) == decided(
            removal_refusal(old(ctx)@, relayer),
            old(ctx)@,
            relayer_removed(old(ctx)@, relayer),
            (),
        ),
{
    check_paused(ctx)?;
    let mut quorum: RelayerQuorum = match ctx.relayer_quorum {
        Some(quorum) => quorum,
        None => {
            return Err(Error::NotInitialized);
        },
    };
    let mut set: Numbers = match &ctx.relayer_set {
        Some(set) => set.clone(),
        None => {
            return Err(Error::NotInitialized);
        },
    };
    let ghost items = set@;
    let len: u32 = set.len();
    let mut index: u32 = 0;
    while index < len && set.get(index) != Some(relayer.id)
        invariant
            index <= len,
            len == items.len(),
            items == set@,
            forall|i: int| 0 <= i < index ==> items[i] != relayer.id,
        decreases len - index,
    {
        index = index + 1;
    }
    if index == len {
        return Err(Error::RelayerNotAuthorized);
    }
    proof {
        lemma_first_index(items, relayer.id, index as int);
    }
    set.remove(index);
    quorum.total_relayers = quorum.total_relayers - 1;
    if quorum.required_signatures > quorum.total_relayers {
        quorum.required_signatures = quorum.total_relayers;
    }
    ctx.relayer_set = Some(set);
    ctx.relayer_quorum = Some(quorum);
    ctx.publish(Event::RelayerRemoved { relayer });
    Ok(())
}

impl ChallengeMarket {
    /// Adds a relayer to the set. Only the admin can.
    pub fn add_relayer(ctx: &mut Context, relayer: Address) -> (result: Result<(), Error>)
        requires
            add_relayer_in_range(old(ctx)@, relayer),
        ensures
            (final(ctx)@, result) == add_relayer_step(old(ctx)@, relayer),
    {
        require_admin(ctx)?;
        check_paused(ctx)?;
        let mut quorum: RelayerQuorum = match ctx.relayer_quorum {
            Some(quorum) => quorum,
            None => RelayerQuorum {
                required_signatures: DEFAULT_QUORUM_SIZE,
                total_relayers: 0,
            },
        };
        let mut set: Numbers = known_relayers(ctx);
        if set.contains(relayer.id) {
            return Err(Error::RelayerNotAuthorized);
        }
        set.push_back(relayer.id);
        quorum.total_relayers = quorum.total_relayers + 1;
        ctx.relayer_set = Some(set);
        ctx.relayer_quorum = Some(quorum);
        ctx.publish(Event::RelayerAdded { relayer });
        Ok(())
    }

    /// Removes a relayer from the set. Only the admin can.
    pub fn remove_relayer(ctx: &mut Context, relayer: Address) -> (result: Result<(), Error>)
        requires
            remove_relayer_in_range(old(ctx)@, relayer),
        ensures
            (final(ctx)@, result) == remove_relayer_step(old(ctx)@, relayer),
    {
        require_admin(ctx)?;
        drop_relayer(ctx, relayer)
    }

    /// Sets how many relayers have to have spoken. Only the admin can.
    pub fn set_quorum_size(ctx: &mut Context, required_signatures: u32) -> (result: Result<
        (),
        Error,
    >)
        ensures
            (final(ctx)@, result) == set_quorum_size_step(old(ctx)@, required_signatures),
    {
        require_admin(ctx)?;
        check_paused(ctx)?;
        let mut quorum: RelayerQuorum = match ctx.relayer_quorum {
            Some(quorum) => quorum,
            None => {
                return Err(Error::NotInitialized);
            },
        };
        if required_signatures > quorum.total_relayers {
            return Err(Error::InsufficientQuorum);
        }
        quorum.required_signatures = required_signatures;
        ctx.relayer_quorum = Some(quorum);
        Ok(())
    }

    /// Slashes a relayer that misbehaved. The last slash that is allowed
    /// removes it. Only the admin can.
    pub fn slash_relayer(ctx: &mut Context, relayer: Address, reason: String) -> (result: Result<
        (),
        Error,
    >)
        requires
            slash_relayer_in_range(old(ctx)@, relayer),
        ensures
            (final(ctx)@, result) == slash_relayer_step(old(ctx)@, relayer, reason),
    {
        require_admin(ctx)?;
        let is_relayer: bool = match &ctx.relayer_set {
            Some(set) => set.contains(relayer.id),
            None => {
                return Err(Error::NotInitialized);
            },
        };
        if !is_relayer {
            return Err(Error::RelayerNotAuthorized);
        }
        let count: u32 = Self::get_relayer_slash_count(ctx, relayer);
        if count >= MAX_SLASH_COUNT - 1 {
            drop_relayer(ctx, relayer)?;
            ctx.relayer_slash_counts.set(relayer, 0);
        } else {
            ctx.relayer_slash_counts.set(relayer, count + 1);
        }
        ctx.publish(Event::RelayerSlashed { relayer, reason });
        Ok(())
    }

    /// Takes down what a relayer says of a challenge.
    pub fn submit_oracle_outcome(
        ctx: &mut Context,
        oracle: Address,
        challenge_id: u64,
        outcome_yes: bool,
    ) -> (result: Result<(), Error>)
        ensures
            (final(ctx)@, result) == submit_oracle_outcome_step(
                old(ctx)@,
                oracle,
                challenge_id,
                outcome_yes,
            ),
    {
        ctx.ask(Action::RequireAuth(oracle));
        check_paused(ctx)?;
        let is_authorized: bool = match &ctx.relayer_set {
            Some(set) => set.contains(oracle.id),
            None => false,
        };
        if !is_authorized {
            return Err(Error::OracleNotAuthorized);
        }
        let challenge: Challenge = match ctx.challenges.get(&challenge_id) {
            Some(challenge) => challenge.clone(),
            None => {
                return Err(Error::ChallengeNotFound);
            },
        };
        if challenge.resolved || challenge.cancelled {
            return Err(Error::AlreadyFinalized);
        }
        if ctx.sequence < challenge.resolve_ledger_seq {
            return Err(Error::TooEarlyToResolve);
        }
        if ctx.oracle_submissions.contains_key(&(challenge_id, oracle)) {
            return Err(Error::OracleAlreadySubmitted);
        }
        ctx.oracle_submissions.set(
            (challenge_id, oracle),
            OracleSubmission { challenge_id, outcome_yes, submitted_by: oracle },
        );
        ctx.publish(Event::OracleSubmitted { challenge_id, oracle, outcome_yes });
        Ok(())
    }

    /// Resolves a challenge on what the relayers say, if enough have spoken.
    /// Anyone can.
    pub fn aggregate_oracle_outcomes(ctx: &mut Context, challenge_id: u64) -> (result: Result<
        (),
        Error,
    >)
        ensures
            (final(ctx)@, result) == aggregate_oracle_outcomes_step(old(ctx)@, challenge_id),
    {
        let mut challenge: Challenge = match ctx.challenges.get(&challenge_id) {
            Some(challenge) => challenge.clone(),
            None => {
                return Err(Error::ChallengeNotFound);
            },
        };
        if challenge.resolved || challenge.cancelled {
            return Err(Error::AlreadyFinalized);
        }
        let set: Numbers = known_relayers(ctx);
        let ghost items = set@;
        let total_oracles: u32 = set.len();
        let quorum_size: u32 = match ctx.relayer_quorum {
            Some(quorum) => quorum.required_signatures,
            None => DEFAULT_QUORUM_SIZE,
        };
        let mut yes_votes: u32 = 0;
        let mut no_votes: u32 = 0;
        let mut i: u32 = 0;
        proof {
            reveal(Seq::filter);
            assert(items.take(0) =~= Seq::<u64>::empty());
        }
        while i < total_oracles
            invariant
                i <= total_oracles,
                total_oracles == items.len(),
                items == set@,
                yes_votes == vote_count(ctx@, challenge_id, items.take(i as int), true),
                no_votes == vote_count(ctx@, challenge_id, items.take(i as int), false),
                yes_votes + no_votes <= i,
                ctx@ == old(ctx)@,
            decreases total_oracles - i,
        {
            if let Some(relayer) = set.get(i) {
                proof {
                    assert(items.take(i + 1) =~= items.take(i as int).push(relayer));
                    lemma_vote_count_push(
                        ctx@,
                        challenge_id,
                        items.take(i as int),
                        relayer,
                        true,
                    );
                    lemma_vote_count_push(
                        ctx@,
                        challenge_id,
                        items.take(i as int),
                        relayer,
                        false,
                    );
                }
                if let Some(submission) = ctx.oracle_submissions.get(
                    &(challenge_id, Address { id: relayer }),
                ) {
                    if submission.outcome_yes {
                        yes_votes = yes_votes + 1;
                    } else {
                        no_votes = no_votes + 1;
                    }
                }
            }
            i = i + 1;
        }
        assert(items.take(total_oracles as int) =~= items);
        if yes_votes + no_votes < quorum_size {
            return Err(Error::InsufficientOracleSubmissions);
        }
        let outcome_yes: bool = yes_votes > no_votes;
        ctx.oracle_results.set(
            challenge_id,
            AggregatedOracleResult {
                challenge_id,
                outcome_yes,
                yes_votes,
                no_votes,
                total_oracles,
                aggregated_at: ctx.timestamp,
            },
        );
        challenge.resolved = true;
        challenge.outcome_yes = outcome_yes;
        ctx.challenges.set(challenge_id, challenge);
        ctx.publish(Event::OracleAggregated { challenge_id, yes_votes, no_votes, outcome_yes });
        Ok(())
    }

    /// What the relayers said of a challenge that was resolved on it.
    pub fn get_aggregated_oracle_result(ctx: &Context, challenge_id: u64) -> (result: Option<
        AggregatedOracleResult,
    >)
        ensures
            result == ctx@.oracle_results.get(challenge_id),
    {
        match ctx.oracle_results.get(&challenge_id) {
            Some(result) => Some(*result),
            None => None,
        }
    }

    /// How often a relayer was slashed.
    pub fn get_relayer_slash_count(ctx: &Context, relayer: Address) -> (count: u32)
        ensures
            count == slash_count(ctx@, relayer),
    {
        match ctx.relayer_slash_counts.get(&relayer) {
            Some(count) => *count,
            None => 0,
        }
    }

    /// The quorum of relayers, if there ever was a relayer.
    pub fn get_relayer_quorum(ctx: &Context) -> (quorum: Option<RelayerQuorum>)
        ensures
            quorum == ctx@.relayer_quorum,
    {
        ctx.relayer_quorum
    }

    /// The numbers of the relayers' addresses.
    pub fn get_relayer_set(ctx: &Context) -> (set: soroban_sdk::Vec<u64>)
        ensures
            all_numbers(set),
            u64_items(set) == relayers(ctx@),
    {
        known_relayers(ctx).into_list()
    }
}

} // verus!
