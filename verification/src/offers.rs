//! What is offered, in plain terms: how challenges and templates come to be,
//! and what is known of those who create them.

use vstd::prelude::*;

use crate::challenges::add_challenge_token_in_range;
use crate::challenges::add_challenge_token_step;
use crate::challenges::cleanup_old_challenges_in_range;
use crate::challenges::cleanup_old_challenges_step;
use crate::challenges::create_challenge_in_range;
use crate::challenges::create_challenge_step;
use crate::challenges::create_from_template_in_range;
use crate::challenges::create_from_template_step;
use crate::challenges::create_template_in_range;
use crate::challenges::create_template_step;
use crate::challenges::over_count;
use crate::context::State;
use crate::guards::token_barred;
use crate::guards::without_stats;
use crate::reputation::ReputationGain;
use crate::reputation::reputation_in_range;
use crate::reputation::reputation_or_blank;
use crate::reputation::with_reputation;
use crate::types::Action;
use crate::types::Address;
use crate::types::ChallengeStats;
use crate::types::ChallengeTemplateView;
use crate::types::ChallengeView;
use crate::types::Condition;
use crate::types::DataKey;
use crate::types::Error;
use crate::types::Event;
use crate::types::UserReputation;

verus! {

/// A token is barred exactly if it was taken off the whitelist.
pub proof fn law_tokens_are_barred_by_name(s: State, token: Address)
    ensures
        token_barred(s, token) <==> s.token_whitelist.contains_key(token)
            && s.token_whitelist[token] == false,
{
}

/// The statistics of a challenge can be dropped and nothing else with them.
pub proof fn law_dropping_statistics_drops_them_only(s: State, challenge_id: u64)
    ensures
        without_stats(s, challenge_id) == (State {
            challenge_stats: s.challenge_stats.remove(challenge_id),
            ..s
        }),
{
}

/// Of a user of whom nothing is known, nothing has been counted.
pub proof fn law_unknown_users_have_done_nothing(s: State, user: Address, last_updated: u64)
    ensures
        s.reputations.contains_key(user) ==> reputation_or_blank(s, user, last_updated)
            == s.reputations[user],
        !s.reputations.contains_key(user) ==> reputation_or_blank(s, user, last_updated) == (
        UserReputation {
            user,
            score: 0,
            challenges_created: 0,
            challenges_resolved: 0,
            total_staked: 0,
            successful_predictions: 0,
            last_updated,
        }),
{
}

/// What a user gains is added to what is known of them, each number to its own,
/// and the new score is told. Nothing else changes.
pub proof fn law_reputation_adds_up(s: State, user: Address, gain: ReputationGain)
    requires
        s.reputations.contains_key(user) ==> {
            let before = s.reputations[user];
            &&& i32::MIN <= before.score + gain.score <= i32::MAX
            &&& before.challenges_created + gain.challenges_created <= u32::MAX
            &&& before.challenges_resolved + gain.challenges_resolved <= u32::MAX
            &&& i128::MIN <= before.total_staked + gain.staked <= i128::MAX
            &&& before.successful_predictions + gain.successful_predictions <= u32::MAX
        },
    ensures
        reputation_in_range(s, user, gain),
        ({
            let t = with_reputation(s, user, gain);
            let known = s.reputations.contains_key(user);
            let before = s.reputations[user];
            let after = t.reputations[user];
            &&& t.reputations == s.reputations.insert(user, after)
            &&& after.user == (if known {
                before.user
            } else {
                user
            })
            &&& after.score == gain.score + (if known {
                before.score as int
            } else {
                0
            })
            &&& after.challenges_created == gain.challenges_created + (if known {
                before.challenges_created as int
            } else {
                0
            })
            &&& after.challenges_resolved == gain.challenges_resolved + (if known {
                before.challenges_resolved as int
            } else {
                0
            })
            &&& after.total_staked == gain.staked + (if known {
                before.total_staked as int
            } else {
                0
            })
            &&& after.successful_predictions == gain.successful_predictions + (if known {
                before.successful_predictions as int
            } else {
                0
            })
            &&& after.last_updated == s.timestamp
            &&& t == (State {
                reputations: t.reputations,
                actions: s.actions.push(
                    Action::Publish(Event::ReputationUpdated { user, score: after.score }),
                ),
                ..s
            })
        }),
{
}

/// When a challenge is created, and why it is not otherwise.
pub proof fn law_creation_is_refused_for_a_reason(
    s: State,
    creator: Address,
    description: Seq<char>,
    condition: Condition,
    resolve_ledger_seq: u32,
    staking_deadline_seq: u32,
    token: Address,
    category: Seq<char>,
)
    ensures
        ({
            let result = create_challenge_step(
                s,
                creator,
                description,
                condition,
                resolve_ledger_seq,
                staking_deadline_seq,
                token,
                category,
            ).1;
            let hour = (s.timestamp - s.timestamp % 3600) as u64;
            let counts = s.challenge_creation_counts;
            if s.paused == Some(true) {
                result == Err::<u64, Error>(Error::ContractPaused)
            } else if s.token_whitelist.contains_key(token) && !s.token_whitelist[token] {
                result == Err::<u64, Error>(Error::TokenNotWhitelisted)
            } else if counts.contains_key((creator, hour)) && counts[(creator, hour)].0 >= hour
                && counts[(creator, hour)].1 >= 5 {
                result == Err::<u64, Error>(Error::RateLimitExceeded)
            } else if staking_deadline_seq <= s.sequence || resolve_ledger_seq <= s.sequence {
                result == Err::<u64, Error>(Error::InvalidLedgerSequence)
            } else if resolve_ledger_seq + 1000 > u32::MAX {
                result == Err::<u64, Error>(Error::InvalidExpirySequence)
            } else {
                result is Ok
            }
        }),
{
}

/// A challenge that is allowed, and whose counts fit, is created.
pub proof fn law_challenges_that_fit_are_created(
    s: State,
    creator: Address,
    description: Seq<char>,
    condition: Condition,
    resolve_ledger_seq: u32,
    staking_deadline_seq: u32,
    token: Address,
    category: Seq<char>,
)
    requires
        s.paused != Some(true),
        s.token_whitelist.contains_key(token) ==> s.token_whitelist[token],
        ({
            let hour = (s.timestamp - s.timestamp % 3600) as u64;
            let counts = s.challenge_creation_counts;
            counts.contains_key((creator, hour)) && counts[(creator, hour)].0 >= hour ==> counts[(
                creator,
                hour,
            )].1 < 5
        }),
        s.sequence < staking_deadline_seq,
        s.sequence < resolve_ledger_seq,
        resolve_ledger_seq + 1000 <= u32::MAX,
        s.next_challenge_id matches Some(next) ==> next < u64::MAX,
        s.reputations.contains_key(creator) ==> s.reputations[creator].score < i32::MAX
            && s.reputations[creator].challenges_created < u32::MAX,
    ensures
        create_challenge_in_range(s, creator, resolve_ledger_seq, staking_deadline_seq, token),
        create_challenge_step(
            s,
            creator,
            description,
            condition,
            resolve_ledger_seq,
            staking_deadline_seq,
            token,
            category,
        ).1 is Ok,
{
}

/// A challenge that can be created gets the next number and the terms that it
/// was asked for, with empty pools and no outcome, and expires a thousand
/// ledgers after it can be resolved. Its creator gains one point, the new score
/// is noted with it, and nothing else changes.
pub proof fn law_challenges_are_created_as_asked(
    s: State,
    creator: Address,
    description: Seq<char>,
    condition: Condition,
    resolve_ledger_seq: u32,
    staking_deadline_seq: u32,
    token: Address,
    category: Seq<char>,
)
    requires
        create_challenge_in_range(s, creator, resolve_ledger_seq, staking_deadline_seq, token),
        create_challenge_step(
            s,
            creator,
            description,
            condition,
            resolve_ledger_seq,
            staking_deadline_seq,
            token,
            category,
        ).1 is Ok,
    ensures
        ({
            let (t, result) = create_challenge_step(
                s,
                creator,
                description,
                condition,
                resolve_ledger_seq,
                staking_deadline_seq,
                token,
                category,
            );
            let id = match s.next_challenge_id {
                Some(next) => next,
                None => 0,
            };
            let hour = (s.timestamp - s.timestamp % 3600) as u64;
            let counts = s.challenge_creation_counts;
            let acted = if counts.contains_key((creator, hour)) && counts[(creator, hour)].0
                >= hour {
                counts[(creator, hour)].1
            } else {
                0
            };
            let known = if s.reputations.contains_key(creator) {
                s.reputations[creator]
            } else {
                UserReputation {
                    user: creator,
                    score: 0,
                    challenges_created: 0,
                    challenges_resolved: 0,
                    total_staked: 0,
                    successful_predictions: 0,
                    last_updated: s.timestamp,
                }
            };
            let score = (known.score + 1) as i32;
            &&& result == Ok::<u64, Error>(id)
            &&& t.challenges == s.challenges.insert(
                id,
                ChallengeView {
                    id,
                    creator,
                    description,
                    condition,
                    resolve_ledger_seq,
                    created_timestamp: s.timestamp,
                    staking_deadline_seq,
                    token,
                    pool_yes: 0,
                    pool_no: 0,
                    resolved: false,
                    cancelled: false,
                    outcome_yes: false,
                    expiry_seq: (resolve_ledger_seq + 1000) as u32,
                    additional_tokens: Seq::empty(),
                },
            )
            &&& t.next_challenge_id == Some((id + 1) as u64)
            &&& t.challenge_categories == s.challenge_categories.insert(id, category)
            &&& t.challenge_stats == s.challenge_stats.insert(
                id,
                ChallengeStats { total_participants: 0, total_staked: 0 },
            )
            &&& t.challenge_creation_counts == counts.insert(
                (creator, hour),
                (hour, (acted + 1) as u32),
            )
            &&& t.reputations == s.reputations.insert(
                creator,
                UserReputation {
                    score,
                    challenges_created: (known.challenges_created + 1) as u32,
                    last_updated: s.timestamp,
                    ..known
                },
            )
            &&& t.creator_reputations == s.creator_reputations.insert(id, score)
            &&& t.actions == s.actions + seq![
                Action::RequireAuth(creator),
                Action::ExtendTtl {
                    key: DataKey::Challenge(id),
                    threshold: 50000,
                    extend_to: 100000,
                },
                Action::Publish(Event::ReputationUpdated { user: creator, score }),
                Action::Publish(Event::Created { challenge_id: id, creator }),
            ]
            &&& t == (State {
                challenges: t.challenges,
                next_challenge_id: t.next_challenge_id,
                challenge_categories: t.challenge_categories,
                challenge_stats: t.challenge_stats,
                challenge_creation_counts: t.challenge_creation_counts,
                reputations: t.reputations,
                creator_reputations: t.creator_reputations,
                actions: t.actions,
                ..s
            })
        }),
{
}

/// There is room for one more template while numbers are left, and for one more
/// token while the list of a challenge can hold it.
pub proof fn law_templates_and_tokens_that_fit_are_added(
    s: State,
    creator: Address,
    challenge_id: u64,
    token: Address,
)
    ensures
        (s.next_template_id matches Some(next) ==> next < u64::MAX) ==> create_template_in_range(
            s,
            creator,
            token,
        ),
        s.challenges[challenge_id].additional_tokens.len() < u32::MAX
            ==> add_challenge_token_in_range(s, challenge_id, token),
{
}

/// A template is refused while the market is paused, in a barred token, and to
/// users who have ten. Any other gets the next number and what it was asked
/// with, and has not been used. It is counted, and nothing else changes.
pub proof fn law_templates_are_created_as_asked(
    s: State,
    creator: Address,
    description_template: Seq<char>,
    condition: Condition,
    resolve_ledger_offset: u32,
    staking_deadline_offset: u32,
    token: Address,
    category: Seq<char>,
)
    requires
        create_template_in_range(s, creator, token),
    ensures
        ({
            let (t, result) = create_template_step(
                s,
                creator,
                description_template,
                condition,
                resolve_ledger_offset,
                staking_deadline_offset,
                token,
                category,
            );
            let template_id = match s.next_template_id {
                Some(next) => next,
                None => 0,
            };
            let count = if s.template_counts.contains_key(creator) {
                s.template_counts[creator]
            } else {
                0
            };
            if s.paused == Some(true) {
                result == Err::<u64, Error>(Error::ContractPaused)
            } else if s.token_whitelist.contains_key(token) && !s.token_whitelist[token] {
                result == Err::<u64, Error>(Error::TokenNotWhitelisted)
            } else if count >= 10 {
                result == Err::<u64, Error>(Error::TooManyTemplates)
            } else {
                &&& result == Ok::<u64, Error>(template_id)
                &&& t.templates == s.templates.insert(
                    (template_id, creator),
                    ChallengeTemplateView {
                        template_id,
                        creator,
                        description_template,
                        condition,
                        resolve_ledger_offset,
                        staking_deadline_offset,
                        token,
                        category,
                        created_at: s.timestamp,
                        usage_count: 0,
                    },
                )
                &&& t.actions == s.actions + seq![
                    Action::RequireAuth(creator),
                    Action::Publish(Event::TemplateCreated { creator, template_id }),
                ]
                &&& t == (State {
                    templates: t.templates,
                    next_template_id: Some((template_id + 1) as u64),
                    template_counts: s.template_counts.insert(creator, (count + 1) as u32),
                    actions: t.actions,
                    ..s
                })
            }
        }),
{
}

/// When a challenge is created from a template of its creator, and why it is
/// not otherwise.
pub proof fn law_use_of_templates_is_refused_for_a_reason(
    s: State,
    creator: Address,
    template_id: u64,
    description: Seq<char>,
)
    ensures
        ({
            let result = create_from_template_step(s, creator, template_id, description).1;
            let template = s.templates[(template_id, creator)];
            if s.paused == Some(true) {
                result == Err::<u64, Error>(Error::ContractPaused)
            } else if !s.templates.contains_key((template_id, creator)) {
                result == Err::<u64, Error>(Error::TemplateNotFound)
            } else if template.staking_deadline_offset == 0 || template.resolve_ledger_offset
                <= template.staking_deadline_offset {
                result == Err::<u64, Error>(Error::InvalidLedgerSequence)
            } else {
                result is Ok
            }
        }),
{
}

/// A template that is allowed to be used, and whose counts fit, is used.
pub proof fn law_templates_that_fit_are_used(
    s: State,
    creator: Address,
    template_id: u64,
    description: Seq<char>,
)
    requires
        s.paused != Some(true),
        s.templates.contains_key((template_id, creator)),
        0 < s.templates[(template_id, creator)].staking_deadline_offset < s.templates[(
            template_id,
            creator,
        )].resolve_ledger_offset,
        s.sequence + s.templates[(template_id, creator)].resolve_ledger_offset + 1000 <= u32::MAX,
        s.templates[(template_id, creator)].usage_count < u32::MAX,
        s.next_challenge_id matches Some(next) ==> next < u64::MAX,
        s.reputations.contains_key(creator) ==> s.reputations[creator].score < i32::MAX
            && s.reputations[creator].challenges_created < u32::MAX,
    ensures
        create_from_template_in_range(s, creator, template_id),
        create_from_template_step(s, creator, template_id, description).1 is Ok,
{
}

/// A challenge from a template gets the next number and the template's terms,
/// its ledger sequences counted from the current one, with the description that
/// is given. The use is counted, the creator gains one point, and nothing else
/// changes.
pub proof fn law_templates_make_the_challenges_they_describe(
    s: State,
    creator: Address,
    template_id: u64,
    description: Seq<char>,
)
    requires
        create_from_template_in_range(s, creator, template_id),
        create_from_template_step(s, creator, template_id, description).1 is Ok,
    ensures
        ({
            let (t, result) = create_from_template_step(s, creator, template_id, description);
            let template = s.templates[(template_id, creator)];
            let id = match s.next_challenge_id {
                Some(next) => next,
                None => 0,
            };
            let known = if s.reputations.contains_key(creator) {
                s.reputations[creator]
            } else {
                UserReputation {
                    user: creator,
                    score: 0,
                    challenges_created: 0,
                    challenges_resolved: 0,
                    total_staked: 0,
                    successful_predictions: 0,
                    last_updated: s.timestamp,
                }
            };
            let score = (known.score + 1) as i32;
            &&& result == Ok::<u64, Error>(id)
            &&& t.challenges == s.challenges.insert(
                id,
                ChallengeView {
                    id,
                    creator,
                    description,
                    condition: template.condition,
                    resolve_ledger_seq: (s.sequence + template.resolve_ledger_offset) as u32,
                    created_timestamp: s.timestamp,
                    staking_deadline_seq: (s.sequence + template.staking_deadline_offset) as u32,
                    token: template.token,
                    pool_yes: 0,
                    pool_no: 0,
                    resolved: false,
                    cancelled: false,
                    outcome_yes: false,
                    expiry_seq: (s.sequence + template.resolve_ledger_offset + 1000) as u32,
                    additional_tokens: Seq::empty(),
                },
            )
            &&& t.next_challenge_id == Some((id + 1) as u64)
            &&& t.challenge_categories == s.challenge_categories.insert(id, template.category)
            &&& t.templates == s.templates.insert(
                (template_id, creator),
                ChallengeTemplateView {
                    usage_count: (template.usage_count + 1) as u32,
                    ..template
                },
            )
            &&& t.reputations == s.reputations.insert(
                creator,
                UserReputation {
                    score,
                    challenges_created: (known.challenges_created + 1) as u32,
                    last_updated: s.timestamp,
                    ..known
                },
            )
            &&& t.creator_reputations == s.creator_reputations.insert(id, score)
            &&& t.actions == s.actions + seq![
                Action::RequireAuth(creator),
                Action::Publish(Event::ReputationUpdated { user: creator, score }),
                Action::Publish(Event::Created { challenge_id: id, creator }),
                Action::Publish(Event::TemplateUsed { template_id, creator, challenge_id: id }),
            ]
            &&& t == (State {
                challenges: t.challenges,
                next_challenge_id: t.next_challenge_id,
                challenge_categories: t.challenge_categories,
                templates: t.templates,
                reputations: t.reputations,
                creator_reputations: t.creator_reputations,
                actions: t.actions,
                ..s
            })
        }),
{
}

/// The admin can add a further token, once and other than the challenge's own,
/// to a challenge that is open. It comes last, with empty pools, and nothing
/// else changes.
pub proof fn law_further_tokens_are_added(s: State, challenge_id: u64, token: Address)
    requires
        add_challenge_token_in_range(s, challenge_id, token),
    ensures
        ({
            let (t, result) = add_challenge_token_step(s, challenge_id, token);
            let challenge = s.challenges[challenge_id];
            if s.admin is None {
                result == Err::<(), Error>(Error::NotInitialized)
            } else if !s.challenges.contains_key(challenge_id) {
                result == Err::<(), Error>(Error::ChallengeNotFound)
            } else if challenge.resolved || challenge.cancelled {
                result == Err::<(), Error>(Error::AlreadyFinalized)
            } else if challenge.token == token || challenge.additional_tokens.contains(token.id) {
                result == Err::<(), Error>(Error::TokenNotSupported)
            } else {
                &&& result == Ok::<(), Error>(())
                &&& t == (State {
                    challenges: s.challenges.insert(
                        challenge_id,
                        ChallengeView {
                            additional_tokens: challenge.additional_tokens.push(token.id),
                            ..challenge
                        },
                    ),
                    multi_token_pools: s.multi_token_pools.insert((challenge_id, token), (0, 0)),
                    actions: s.actions.push(Action::RequireAuth(s.admin->0)),
                    ..s
                })
            }
        }),
{
}

/// A sweep by the admin drops the categories and the statistics of the
/// challenges below a number that are resolved or cancelled, those of no other,
/// and nothing else.
pub proof fn law_sweeps_drop_what_is_over(s: State, before_id: u64)
    requires
        s.admin is Some,
    ensures
        ({
            let (t, result) = cleanup_old_challenges_step(s, before_id);
            let over = |id: u64|
                id < before_id && s.challenges.contains_key(id) && (s.challenges[id].resolved
                    || s.challenges[id].cancelled);
            &&& result is Ok
            &&& forall|id: u64| #[trigger]
                t.challenge_categories.contains_key(id) <==> s.challenge_categories.contains_key(id)
                    && !over(id)
            &&& forall|id: u64| #[trigger]
                t.challenge_categories.contains_key(id) ==> t.challenge_categories[id]
                    == s.challenge_categories[id]
            &&& forall|id: u64| #[trigger]
                t.challenge_stats.contains_key(id) <==> s.challenge_stats.contains_key(id) && !over(
                    id,
                )
            &&& forall|id: u64| #[trigger]
                t.challenge_stats.contains_key(id) ==> t.challenge_stats[id]
                    == s.challenge_stats[id]
            &&& t == (State {
                challenge_categories: t.challenge_categories,
                challenge_stats: t.challenge_stats,
                actions: s.actions.push(Action::RequireAuth(s.admin->0)),
                ..s
            })
        }),
{
}

/// There are no more challenges over below a number than the number.
proof fn lemma_over_count_bounds(s: State, below: nat)
    ensures
        over_count(s, below) <= below,
    decreases below,
{
    if below > 0 {
        lemma_over_count_bounds(s, (below - 1) as nat);
    }
}

/// A sweep says how many challenges it was for: none below the lowest number,
/// and one more for each further challenge that is resolved or cancelled. A
/// market that was not set up is not swept.
pub proof fn law_sweeps_count_what_is_over(s: State, before_id: u64)
    ensures
        s.admin is None ==> cleanup_old_challenges_step(s, before_id).1 == Err::<u32, Error>(
            Error::NotInitialized,
        ),
        before_id <= u32::MAX ==> cleanup_old_challenges_in_range(s, before_id),
        s.admin is Some ==> cleanup_old_challenges_step(s, 0).1 == Ok::<u32, Error>(0),
        s.admin is Some && before_id > 0 && cleanup_old_challenges_in_range(s, before_id) ==> {
            let last = (before_id - 1) as u64;
            let fewer = cleanup_old_challenges_step(s, last).1->Ok_0;
            let over = s.challenges.contains_key(last) && (s.challenges[last].resolved
                || s.challenges[last].cancelled);
            cleanup_old_challenges_step(s, before_id).1->Ok_0 == fewer + (if over {
                1int
            } else {
                0
            })
        },
{
    lemma_over_count_bounds(s, before_id as nat);
    if before_id > 0 {
        lemma_over_count_bounds(s, (before_id - 1) as nat);
    }
}

} // verus!
