//! The life of a challenge: creation, from scratch or from a template,
//! resolution, cancellation, expiry.

use vstd::prelude::*;

use crate::context::Context;
use crate::context::State;
use crate::guards::admin_asked;
use crate::guards::admin_refusal;
use crate::guards::bump_challenge;
use crate::guards::challenge_extension;
use crate::guards::check_paused;
use crate::guards::check_rate_limit;
use crate::guards::check_token_whitelist;
use crate::guards::cleanup_challenge_storage;
use crate::guards::decided;
use crate::guards::rate_counted;
use crate::guards::rate_limited;
use crate::guards::require_admin;
use crate::guards::token_barred;
use crate::guards::without_stats;
use crate::market::ChallengeMarket;
use crate::numbers::Numbers;
use crate::params::DEFAULT_EXPIRY_LEDGERS;
use crate::params::MAX_CHALLENGES_PER_WINDOW;
use crate::params::MAX_TEMPLATES_PER_USER;
use crate::reputation::ReputationGain;
use crate::reputation::creation_gain;
use crate::reputation::reputation_after;
use crate::reputation::reputation_in_range;
use crate::reputation::update_reputation;
use crate::reputation::with_reputation;
use crate::types::Action;
use crate::types::Address;
use crate::types::Challenge;
use crate::types::ChallengeStats;
use crate::types::ChallengeTemplate;
use crate::types::ChallengeTemplateView;
use crate::types::ChallengeView;
use crate::types::Condition;
use crate::types::Error;
use crate::types::Event;

verus! {

/// The number that the next challenge gets.
pub open spec fn next_challenge_id(s: State) -> u64 {
    match s.next_challenge_id {
        Some(id) => id,
        None => 0,
    }
}

/// The number that the next template gets.
pub open spec fn next_template_id(s: State) -> u64 {
    match s.next_template_id {
        Some(id) => id,
        None => 0,
    }
}

/// A challenge that nothing was staked on yet.
pub open spec fn fresh_challenge(
    s: State,
    creator: Address,
    description: Seq<char>,
    condition: Condition,
    resolve_ledger_seq: u32,
    staking_deadline_seq: u32,
    token: Address,
) -> ChallengeView {
    ChallengeView {
        id: next_challenge_id(s),
        creator,
        description,
        condition,
        resolve_ledger_seq,
        created_timestamp: s.timestamp,
        staking_deadline_seq,
        token,
        pool_yes: 0,
        pool_no: 0,
        resolved: false,
        cancelled: false,
        outcome_yes: false,
        expiry_seq: (resolve_ledger_seq + DEFAULT_EXPIRY_LEDGERS) as u32,
        additional_tokens: Seq::empty(),
    }
}

/// The state once a challenge has been entered in the books, under the next
/// number and with its category.
pub open spec fn challenge_entered(
    s: State,
    challenge: ChallengeView,
    category: Seq<char>,
) -> State {
    State {
        challenges: s.challenges.insert(challenge.id, challenge),
        challenge_categories: s.challenge_categories.insert(challenge.id, category),
        next_challenge_id: Some((challenge.id + 1) as u64),
        ..s
    }
}

/// The state once a user has gained the reputation of a creator, and the
/// score has been noted with the challenge.
pub open spec fn creator_rewarded(s: State, creator: Address, challenge_id: u64) -> State {
    let rewarded = with_reputation(s, creator, creation_gain());
    State {
        creator_reputations: rewarded.creator_reputations.insert(
            challenge_id,
            reputation_after(s, creator, creation_gain()).score,
        ),
        ..rewarded
    }
}

/// Why a challenge is not created.
pub open spec fn create_challenge_refusal(
    s: State,
    creator: Address,
    resolve_ledger_seq: u32,
    staking_deadline_seq: u32,
    token: Address,
) -> Option<Error> {
    if s.is_paused() {
        Some(Error::ContractPaused)
    } else if token_barred(s, token) {
        Some(Error::TokenNotWhitelisted)
    } else if rate_limited(
        s.challenge_creation_counts,
        creator,
        s.timestamp,
        MAX_CHALLENGES_PER_WINDOW,
    ) {
        Some(Error::RateLimitExceeded)
    } else if staking_deadline_seq <= s.sequence || resolve_ledger_seq <= s.sequence {
        Some(Error::InvalidLedgerSequence)
    } else if resolve_ledger_seq + DEFAULT_EXPIRY_LEDGERS > u32::MAX {
        Some(Error::InvalidExpirySequence)
    } else {
        None
    }
}

/// The state once a request to create a challenge has been looked at, whether
/// it is refused or not.
pub open spec fn create_challenge_examined(s: State, creator: Address, token: Address) -> State {
    if s.is_paused() || token_barred(s, token) || rate_limited(
        s.challenge_creation_counts,
        creator,
        s.timestamp,
        MAX_CHALLENGES_PER_WINDOW,
    ) {
        s
    } else {
        State {
            challenge_creation_counts: rate_counted(
                s.challenge_creation_counts,
                creator,
                s.timestamp,
            ),
            ..s
        }
    }
}

/// The state once a challenge has been created.
pub open spec fn challenge_created(
    s: State,
    challenge: ChallengeView,
    category: Seq<char>,
) -> State {
    let entered = challenge_entered(s, challenge, category).asking(
        challenge_extension(challenge.id),
    );
    creator_rewarded(
        State {
            challenge_stats: entered.challenge_stats.insert(
                challenge.id,
                ChallengeStats { total_participants: 0, total_staked: 0 },
            ),
            ..entered
        },
        challenge.creator,
        challenge.id,
    ).publishing(Event::Created { challenge_id: challenge.id, creator: challenge.creator })
}

/// There is a next number, and the creator's reputation stays in range.
pub open spec fn creation_in_range(s: State, creator: Address) -> bool {
    &&& next_challenge_id(s) < u64::MAX
    &&& reputation_in_range(s, creator, creation_gain())
}

/// Why a template is not created.
pub open spec fn create_template_refusal(s: State, creator: Address, token: Address) -> Option<
    Error,
> {
    if s.is_paused() {
        Some(Error::ContractPaused)
    } else if token_barred(s, token) {
        Some(Error::TokenNotWhitelisted)
    } else if template_count(s, creator) >= MAX_TEMPLATES_PER_USER {
        Some(Error::TooManyTemplates)
    } else {
        None
    }
}

/// How many templates a user has.
pub open spec fn template_count(s: State, user: Address) -> u32 {
    if s.template_counts.contains_key(user) {
        s.template_counts[user]
    } else {
        0
    }
}

/// The state once a template has been created.
pub open spec fn template_created(s: State, template: ChallengeTemplateView) -> State {
    State {
        templates: s.templates.insert((template.template_id, template.creator), template),
        next_template_id: Some((template.template_id + 1) as u64),
        template_counts: s.template_counts.insert(
            template.creator,
            (template_count(s, template.creator) + 1) as u32,
        ),
        ..s
    }.publishing(
        Event::TemplateCreated { creator: template.creator, template_id: template.template_id },
    )
}

/// Why a challenge is not created from a template.
pub open spec fn create_from_template_refusal(
    s: State,
    creator: Address,
    template_id: u64,
) -> Option<Error> {
    let template = s.templates[(template_id, creator)];
    if s.is_paused() {
        Some(Error::ContractPaused)
    } else if !s.templates.contains_key((template_id, creator)) {
        Some(Error::TemplateNotFound)
    } else if template.staking_deadline_offset == 0 {
        Some(Error::InvalidLedgerSequence)
    } else if template.resolve_ledger_offset <= template.staking_deadline_offset {
        Some(Error::InvalidLedgerSequence)
    } else {
        None
    }
}

/// The challenge that a template makes now.
pub open spec fn challenge_from_template(
    s: State,
    creator: Address,
    template: ChallengeTemplateView,
    description: Seq<char>,
) -> ChallengeView {
    fresh_challenge(
        s,
        creator,
        description,
        template.condition,
        (s.sequence + template.resolve_ledger_offset) as u32,
        (s.sequence + template.staking_deadline_offset) as u32,
        template.token,
    )
}

/// The state once a challenge has been created from a template of the
/// creator.
pub open spec fn template_used(
    s: State,
    creator: Address,
    template_id: u64,
    description: Seq<char>,
) -> State {
    let template = s.templates[(template_id, creator)];
    let challenge = challenge_from_template(s, creator, template, description);
    let entered = challenge_entered(s, challenge, template.category);
    creator_rewarded(
        State {
            templates: entered.templates.insert(
                (template_id, creator),
                ChallengeTemplateView {
                    usage_count: (template.usage_count + 1) as u32,
                    ..template
                },
            ),
            ..entered
        },
        creator,
        challenge.id,
    ).publishing(Event::Created { challenge_id: challenge.id, creator }).publishing(
        Event::TemplateUsed { template_id, creator, challenge_id: challenge.id },
    )
}

/// The ledger sequences that a template makes are in range, and so is what
/// else is counted up if the challenge is created.
pub open spec fn create_from_template_in_range(
    s: State,
    creator: Address,
    template_id: u64,
) -> bool {
    let template = s.templates[(template_id, creator)];
    &&& !s.is_paused() && s.templates.contains_key((template_id, creator)) ==> {
        &&& s.sequence + template.staking_deadline_offset <= u32::MAX
        &&& s.sequence + template.resolve_ledger_offset <= u32::MAX
    }
    &&& create_from_template_refusal(s, creator, template_id) is None ==> {
        &&& s.sequence + template.resolve_ledger_offset + DEFAULT_EXPIRY_LEDGERS <= u32::MAX
        &&& template.usage_count < u32::MAX
        &&& creation_in_range(s, creator)
    }
}

/// Why a challenge is not resolved, whichever way it resolves.
pub open spec fn resolution_refusal(s: State, challenge_id: u64) -> Option<Error> {
    if !s.challenges.contains_key(challenge_id) {
        Some(Error::ChallengeNotFound)
    } else if s.challenges[challenge_id].finalized() {
        Some(Error::AlreadyFinalized)
    } else if s.sequence < s.challenges[challenge_id].resolve_ledger_seq {
        Some(Error::TooEarlyToResolve)
    } else if s.sequence > s.challenges[challenge_id].expiry_seq {
        Some(Error::ChallengeExpired)
    } else {
        None
    }
}

/// Why a challenge is not resolved by the ledger's own time.
pub open spec fn resolve_native_refusal(s: State, challenge_id: u64) -> Option<Error> {
    match resolution_refusal(s, challenge_id) {
        Some(error) => Some(error),
        None => if s.challenges[challenge_id].condition is LedgerCloseUnder {
            None
        } else {
            Some(Error::WrongConditionForResolutionPath)
        },
    }
}

/// Why a challenge is not resolved by the relayer.
pub open spec fn resolve_via_oracle_refusal(s: State, challenge_id: u64) -> Option<Error> {
    if s.oracle_relayer is None {
        Some(Error::NotInitialized)
    } else {
        match resolution_refusal(s, challenge_id) {
            Some(error) => Some(error),
            None => if s.challenges[challenge_id].condition is LedgerCloseUnder {
                Some(Error::WrongConditionForResolutionPath)
            } else {
                None
            },
        }
    }
}

/// YES wins if no more than the given number of seconds have passed since the
/// challenge was created.
pub open spec fn closed_in_time(s: State, challenge_id: u64) -> bool {
    s.timestamp - s.challenges[challenge_id].created_timestamp
        <= s.challenges[challenge_id].condition->LedgerCloseUnder_0
}

/// The state once a challenge that is found has been kept alive.
pub open spec fn challenge_touched(s: State, challenge_id: u64) -> State {
    if s.challenges.contains_key(challenge_id) {
        s.asking(challenge_extension(challenge_id))
    } else {
        s
    }
}

/// The state with the outcome of a challenge settled.
pub open spec fn outcome_set(s: State, challenge_id: u64, outcome_yes: bool) -> State {
    State {
        challenges: s.challenges.insert(
            challenge_id,
            ChallengeView { resolved: true, outcome_yes, ..s.challenges[challenge_id] },
        ),
        ..s
    }
}

/// The state once a challenge has been resolved.
pub open spec fn challenge_resolved(s: State, challenge_id: u64, outcome_yes: bool) -> State {
    without_stats(outcome_set(s, challenge_id, outcome_yes), challenge_id).publishing(
        Event::Resolved { challenge_id, outcome_yes },
    )
}

/// The state once a challenge has been cancelled.
pub open spec fn challenge_cancelled(s: State, challenge_id: u64, by: Address) -> State {
    without_stats(
        State {
            challenges: s.challenges.insert(
                challenge_id,
                ChallengeView { cancelled: true, ..s.challenges[challenge_id] },
            ),
            ..s
        },
        challenge_id,
    ).publishing(Event::Cancelled { challenge_id, by })
}

/// Why a challenge is not cancelled.
pub open spec fn cancel_refusal(s: State, caller: Address, challenge_id: u64) -> Option<Error> {
    if s.is_paused() {
        Some(Error::ContractPaused)
    } else if !s.challenges.contains_key(challenge_id) {
        Some(Error::ChallengeNotFound)
    } else if s.admin is None {
        Some(Error::NotInitialized)
    } else if s.admin != Some(caller) && s.challenges[challenge_id].creator != caller {
        Some(Error::NotAuthorized)
    } else if s.challenges[challenge_id].resolved {
        Some(Error::CannotCancel)
    } else if s.challenges[challenge_id].cancelled {
        Some(Error::AlreadyCancelled)
    } else if s.sequence > s.challenges[challenge_id].expiry_seq {
        Some(Error::ChallengeExpired)
    } else {
        None
    }
}

/// Why a challenge is not expired.
pub open spec fn expire_refusal(s: State, challenge_id: u64) -> Option<Error> {
    if !s.challenges.contains_key(challenge_id) {
        Some(Error::ChallengeNotFound)
    } else if s.challenges[challenge_id].finalized() {
        Some(Error::AlreadyFinalized)
    } else if s.sequence <= s.challenges[challenge_id].expiry_seq {
        Some(Error::TooEarlyToResolve)
    } else {
        None
    }
}

/// A challenge is over, and its number lies below the given one.
pub open spec fn is_over_below(s: State, id: u64, below: int) -> bool {
    id < below && s.challenges.contains_key(id) && s.challenges[id].finalized()
}

/// How many challenges below a number are over.
pub open spec fn over_count(s: State, below: nat) -> nat
    decreases below,
{
    if below == 0 {
        0
    } else {
        let last = (below - 1) as nat;
        over_count(s, last) + if is_over_below(s, last as u64, below as int) {
            1nat
        } else {
            0
        }
    }
}

/// The state without the categories and statistics of the challenges below a
/// number that are over.
pub open spec fn swept(s: State, below: int) -> State {
    let over = Set::new(|id: u64| is_over_below(s, id, below));
    State {
        challenge_categories: s.challenge_categories.remove_keys(over),
        challenge_stats: s.challenge_stats.remove_keys(over),
        ..s
    }
}

/// Why a further token is not added to a challenge.
pub open spec fn add_token_refusal(s: State, challenge_id: u64, token: Address) -> Option<Error> {
    let challenge = s.challenges[challenge_id];
    if s.admin is None {
        Some(Error::NotInitialized)
    } else if !s.challenges.contains_key(challenge_id) {
        Some(Error::ChallengeNotFound)
    } else if challenge.finalized() {
        Some(Error::AlreadyFinalized)
    } else if challenge.additional_tokens.contains(token.id) || challenge.token == token {
        Some(Error::TokenNotSupported)
    } else {
        None
    }
}

/// What creating a challenge comes to.
pub open spec fn create_challenge_step(
    s: State,
    creator: Address,
    description: Seq<char>,
    condition: Condition,
    resolve_ledger_seq: u32,
    staking_deadline_seq: u32,
    token: Address,
    category: Seq<char>,
) -> (State, Result<u64, Error>) {
    let examined = create_challenge_examined(
        s.asking(Action::RequireAuth(creator)),
        creator,
        token,
    );
    decided(
        create_challenge_refusal(s, creator, resolve_ledger_seq, staking_deadline_seq, token),
        examined,
        challenge_created(
            examined,
            fresh_challenge(
                examined,
                creator,
                description,
                condition,
                resolve_ledger_seq,
                staking_deadline_seq,
                token,
            ),
            category,
        ),
        next_challenge_id(s),
    )
}

/// A challenge is not created, or what is counted up is in range.
pub open spec fn create_challenge_in_range(
    s: State,
    creator: Address,
    resolve_ledger_seq: u32,
    staking_deadline_seq: u32,
    token: Address,
) -> bool {
    create_challenge_refusal(s, creator, resolve_ledger_seq, staking_deadline_seq, token) is None
        ==> creation_in_range(s, creator)
}

/// What creating a template comes to.
pub open spec fn create_template_step(
    s: State,
    creator: Address,
    description_template: Seq<char>,
    condition: Condition,
    resolve_ledger_offset: u32,
    staking_deadline_offset: u32,
    token: Address,
    category: Seq<char>,
) -> (State, Result<u64, Error>) {
    let asked = s.asking(Action::RequireAuth(creator));
    decided(
        create_template_refusal(s, creator, token),
        asked,
        template_created(
            asked,
            ChallengeTemplateView {
                template_id: next_template_id(s),
                creator,
                description_template,
                condition,
                resolve_ledger_offset,
                staking_deadline_offset,
                token,
                category,
                created_at: s.timestamp,
                usage_count: 0,
            },
        ),
        next_template_id(s),
    )
}

/// A template is not created, or there is a next number.
pub open spec fn create_template_in_range(s: State, creator: Address, token: Address) -> bool {
    create_template_refusal(s, creator, token) is None ==> next_template_id(s) < u64::MAX
}

/// What creating a challenge from a template comes to.
pub open spec fn create_from_template_step(
    s: State,
    creator: Address,
    template_id: u64,
    description: Seq<char>,
) -> (State, Result<u64, Error>) {
    let asked = s.asking(Action::RequireAuth(creator));
    decided(
        create_from_template_refusal(s, creator, template_id),
        asked,
        template_used(asked, creator, template_id, description),
        next_challenge_id(s),
    )
}

/// What resolving a challenge by the ledger's own time comes to.
pub open spec fn resolve_native_step(s: State, challenge_id: u64) -> (State, Result<(), Error>) {
    let touched = challenge_touched(s, challenge_id);
    decided(
        resolve_native_refusal(s, challenge_id),
        touched,
        challenge_resolved(touched, challenge_id, closed_in_time(s, challenge_id)),
        (),
    )
}

/// What resolving a challenge by the relayer comes to.
pub open spec fn resolve_via_oracle_step(s: State, challenge_id: u64, outcome_yes: bool) -> (
    State,
    Result<(), Error>,
) {
    match s.oracle_relayer {
        None => (s, Err(Error::NotInitialized)),
        Some(relayer) => {
            let touched = challenge_touched(
                s.asking(Action::RequireAuth(relayer)),
                challenge_id,
            );
            decided(
                resolve_via_oracle_refusal(s, challenge_id),
                touched,
                challenge_resolved(touched, challenge_id, outcome_yes),
                (),
            )
        },
    }
}

/// What cancelling a challenge comes to.
pub open spec fn cancel_challenge_step(s: State, caller: Address, challenge_id: u64) -> (
    State,
    Result<(), Error>,
) {
    let asked = s.asking(Action::RequireAuth(caller));
    let touched = challenge_touched(asked, challenge_id);
    decided(
        cancel_refusal(s, caller, challenge_id),
        if s.is_paused() {
            asked
        } else {
            touched
        },
        challenge_cancelled(touched, challenge_id, caller),
        (),
    )
}

/// What expiring a challenge comes to.
pub open spec fn expire_challenge_step(s: State, challenge_id: u64) -> (State, Result<(), Error>) {
    let touched = challenge_touched(s, challenge_id);
    decided(
        expire_refusal(s, challenge_id),
        touched,
        challenge_cancelled(touched, challenge_id, s.contract),
        (),
    )
}

/// The state with a further token on a challenge, and empty pools for it.
pub open spec fn token_added(s: State, challenge_id: u64, token: Address) -> State {
    let challenge = s.challenges[challenge_id];
    State {
        challenges: s.challenges.insert(
            challenge_id,
            ChallengeView {
                additional_tokens: challenge.additional_tokens.push(token.id),
                ..challenge
            },
        ),
        multi_token_pools: s.multi_token_pools.insert((challenge_id, token), (0, 0)),
        ..s
    }
}

/// A further token is not added, or there is room for one more.
pub open spec fn add_challenge_token_in_range(s: State, challenge_id: u64, token: Address) -> bool {
    add_token_refusal(s, challenge_id, token) is None
        ==> s.challenges[challenge_id].additional_tokens.len() < u32::MAX
}

/// What adding a further token to a challenge comes to.
pub open spec fn add_challenge_token_step(s: State, challenge_id: u64, token: Address) -> (
    State,
    Result<(), Error>,
) {
    decided(
        add_token_refusal(s, challenge_id, token),
        admin_asked(s),
        token_added(admin_asked(s), challenge_id, token),
        (),
    )
}

/// Nothing is swept, or what is swept can be counted.
pub open spec fn cleanup_old_challenges_in_range(s: State, before_id: u64) -> bool {
    s.admin is Some ==> over_count(s, before_id as nat) <= u32::MAX
}

/// What sweeping old challenges comes to.
pub open spec fn cleanup_old_challenges_step(s: State, before_id: u64) -> (
    State,
    Result<u32, Error>,
) {
    decided(
        admin_refusal(s),
        s,
        swept(admin_asked(s), before_id as int),
        over_count(s, before_id as nat) as u32,
    )
}

impl ChallengeMarket {
    /// Creates a challenge. Anyone can. Both its deadline for stakes and its
    /// resolution ledger have to lie ahead.
    pub fn create_challenge(
        ctx: &mut Context,
        creator: Address,
        description: String,
        condition: Condition,
        resolve_ledger_seq: u32,
        staking_deadline_seq: u32,
        token: Address,
        category: String,
    ) -> (result: Result<u64, Error>)
        requires
            create_challenge_in_range(
                old(ctx)@,
                creator,
                resolve_ledger_seq,
                staking_deadline_seq,
                token,
            ),
        ensures
            (final(ctx)@, result) == create_challenge_step(
                old(ctx)@,
                creator,
                description@,
                condition,
                resolve_ledger_seq,
                staking_deadline_seq,
                token,
                category@,
            ),
    {
        ctx.ask(Action::RequireAuth(creator));
        check_paused(ctx)?;
        check_token_whitelist(ctx, token)?;
        check_rate_limit(
            &mut ctx.challenge_creation_counts,
            creator,
            ctx.timestamp,
            MAX_CHALLENGES_PER_WINDOW,
        )?;
        let current_seq: u32 = ctx.sequence;
        if staking_deadline_seq <= current_seq {
            return Err(Error::InvalidLedgerSequence);
        }
        if resolve_ledger_seq <= current_seq {
            return Err(Error::InvalidLedgerSequence);
        }
        let expiry_seq: u32 = match resolve_ledger_seq.checked_add(DEFAULT_EXPIRY_LEDGERS) {
            Some(expiry_seq) => expiry_seq,
            None => {
                return Err(Error::InvalidExpirySequence);
            },
        };
        let id: u64 = match ctx.next_challenge_id {
            Some(id) => id,
            None => 0,
        };
        let challenge = Challenge {
            id,
            creator,
            description,
            condition,
            resolve_ledger_seq,
            created_timestamp: ctx.timestamp,
            staking_deadline_seq,
            token,
            pool_yes: 0,
            pool_no: 0,
            resolved: false,
            cancelled: false,
            outcome_yes: false,
            expiry_seq,
            additional_tokens: Numbers::new(&ctx.host),
        };
        ctx.challenge_categories.set(id, category);
        ctx.challenges.set(id, challenge);
        bump_challenge(ctx, id);
        ctx.next_challenge_id = Some(id + 1);
        ctx.challenge_stats.set(id, ChallengeStats { total_participants: 0, total_staked: 0 });
        update_reputation(
            ctx,
            creator,
            ReputationGain {
                score: 1,
                challenges_created: 1,
                challenges_resolved: 0,
                staked: 0,
                successful_predictions: 0,
            },
        );
        let score: i32 = Self::get_user_reputation(ctx, creator).score;
        ctx.creator_reputations.set(id, score);
        ctx.publish(Event::Created { challenge_id: id, creator });
        Ok(id)
    }

    /// Creates a template that its creator can make challenges from.
    pub fn create_template(
        ctx: &mut Context,
        creator: Address,
        description_template: String,
        condition: Condition,
        resolve_ledger_offset: u32,
        staking_deadline_offset: u32,
        token: Address,
        category: String,
    ) -> (result: Result<u64, Error>)
        requires
            create_template_in_range(old(ctx)@, creator, token),
        ensures
            (final(ctx)@, result) == create_template_step(
                old(ctx)@,
                creator,
                description_template@,
                condition,
                resolve_ledger_offset,
                staking_deadline_offset,
                token,
                category@,
            ),
    {
        ctx.ask(Action::RequireAuth(creator));
        check_paused(ctx)?;
        check_token_whitelist(ctx, token)?;
        let template_count: u32 = match ctx.template_counts.get(&creator) {
            Some(count) => *count,
            None => 0,
        };
        if template_count >= MAX_TEMPLATES_PER_USER {
            return Err(Error::TooManyTemplates);
        }
        let template_id: u64 = match ctx.next_template_id {
            Some(id) => id,
            None => 0,
        };
        let template = ChallengeTemplate {
            template_id,
            creator,
            description_template,
            condition,
            resolve_ledger_offset,
            staking_deadline_offset,
            token,
            category,
            created_at: ctx.timestamp,
            usage_count: 0,
        };
        ctx.templates.set((template_id, creator), template);
        ctx.next_template_id = Some(template_id + 1);
        ctx.template_counts.set(creator, template_count + 1);
        ctx.publish(Event::TemplateCreated { creator, template_id });
        Ok(template_id)
    }

    /// Creates a challenge from one of the creator's templates.
    pub fn create_from_template(
        ctx: &mut Context,
        creator: Address,
        template_id: u64,
        description: String,
    ) -> (result: Result<u64, Error>)
        requires
            create_from_template_in_range(old(ctx)@, creator, template_id),
        ensures
            (final(ctx)@, result) == create_from_template_step(
                old(ctx)@,
                creator,
                template_id,
                description@,
            ),
    {
        ctx.ask(Action::RequireAuth(creator));
        check_paused(ctx)?;
        let mut template: ChallengeTemplate = match ctx.templates.get(&(template_id, creator)) {
            Some(template) => template.clone(),
            None => {
                return Err(Error::TemplateNotFound);
            },
        };
        let current_seq: u32 = ctx.sequence;
        let staking_deadline_seq: u32 = current_seq + template.staking_deadline_offset;
        let resolve_ledger_seq: u32 = current_seq + template.resolve_ledger_offset;
        if staking_deadline_seq <= current_seq {
            return Err(Error::InvalidLedgerSequence);
        }
        if resolve_ledger_seq <= staking_deadline_seq {
            return Err(Error::InvalidLedgerSequence);
        }
        let expiry_seq: u32 = resolve_ledger_seq + DEFAULT_EXPIRY_LEDGERS;
        let id: u64 = match ctx.next_challenge_id {
            Some(id) => id,
            None => 0,
        };
        let challenge = Challenge {
            id,
            creator,
            description,
            condition: template.condition,
            resolve_ledger_seq,
            created_timestamp: ctx.timestamp,
            staking_deadline_seq,
            token: template.token,
            pool_yes: 0,
            pool_no: 0,
            resolved: false,
            cancelled: false,
            outcome_yes: false,
            expiry_seq,
            additional_tokens: Numbers::new(&ctx.host),
        };
        ctx.challenges.set(id, challenge);
        ctx.next_challenge_id = Some(id + 1);
        ctx.challenge_categories.set(id, template.category.clone());
        template.usage_count = template.usage_count + 1;
        ctx.templates.set((template_id, creator), template);
        update_reputation(
            ctx,
            creator,
            ReputationGain {
                score: 1,
                challenges_created: 1,
                challenges_resolved: 0,
                staked: 0,
                successful_predictions: 0,
            },
        );
        let score: i32 = Self::get_user_reputation(ctx, creator).score;
        ctx.creator_reputations.set(id, score);
        ctx.publish(Event::Created { challenge_id: id, creator });
        ctx.publish(Event::TemplateUsed { template_id, creator, challenge_id: id });
        Ok(id)
    }

    /// Resolves a challenge on the time that a ledger takes to close. Anyone
    /// can, once the resolution ledger is reached: nobody is trusted, only the
    /// ledger's own timestamp counts.
    pub fn resolve_native(ctx: &mut Context, challenge_id: u64) -> (result: Result<(), Error>)
        ensures
            (final(ctx)@, result) == resolve_native_step(old(ctx)@, challenge_id),
    {
        let mut challenge: Challenge = match ctx.challenges.get(&challenge_id) {
            Some(challenge) => challenge.clone(),
            None => {
                return Err(Error::ChallengeNotFound);
            },
        };
        bump_challenge(ctx, challenge_id);
        if challenge.resolved || challenge.cancelled {
            return Err(Error::AlreadyFinalized);
        }
        if ctx.sequence < challenge.resolve_ledger_seq {
            return Err(Error::TooEarlyToResolve);
        }
        if ctx.sequence > challenge.expiry_seq {
            return Err(Error::ChallengeExpired);
        }
        let max_close_seconds: u32 = match challenge.condition {
            Condition::LedgerCloseUnder(seconds) => seconds,
            _ => {
                return Err(Error::WrongConditionForResolutionPath);
            },
        };
        let elapsed: u64 = ctx.timestamp.saturating_sub(challenge.created_timestamp);
        let outcome_yes: bool = elapsed <= max_close_seconds as u64;
        challenge.resolved = true;
        challenge.outcome_yes = outcome_yes;
        ctx.challenges.set(challenge_id, challenge);
        cleanup_challenge_storage(ctx, challenge_id);
        ctx.publish(Event::Resolved { challenge_id, outcome_yes });
        Ok(())
    }

    /// Resolves a challenge on what the trusted relayer has seen, for what the
    /// ledger does not tell by itself.
    pub fn resolve_via_oracle(ctx: &mut Context, challenge_id: u64, outcome_yes: bool) -> (result:
        Result<(), Error>)
        ensures
            (final(ctx)@, result) == resolve_via_oracle_step(old(ctx)@, challenge_id, outcome_yes),
    {
        let relayer: Address = match ctx.oracle_relayer {
            Some(relayer) => relayer,
            None => {
                return Err(Error::NotInitialized);
            },
        };
        ctx.ask(Action::RequireAuth(relayer));
        let mut challenge: Challenge = match ctx.challenges.get(&challenge_id) {
            Some(challenge) => challenge.clone(),
            None => {
                return Err(Error::ChallengeNotFound);
            },
        };
        bump_challenge(ctx, challenge_id);
        if challenge.resolved || challenge.cancelled {
            return Err(Error::AlreadyFinalized);
        }
        if ctx.sequence < challenge.resolve_ledger_seq {
            return Err(Error::TooEarlyToResolve);
        }
        if ctx.sequence > challenge.expiry_seq {
            return Err(Error::ChallengeExpired);
        }
        if let Condition::LedgerCloseUnder(_) = challenge.condition {
            return Err(Error::WrongConditionForResolutionPath);
        }
        challenge.resolved = true;
        challenge.outcome_yes = outcome_yes;
        ctx.challenges.set(challenge_id, challenge);
        cleanup_challenge_storage(ctx, challenge_id);
        ctx.publish(Event::Resolved { challenge_id, outcome_yes });
        Ok(())
    }

    /// Cancels a challenge that is not resolved. The admin and the creator
    /// can.
    pub fn cancel_challenge(ctx: &mut Context, caller: Address, challenge_id: u64) -> (result:
        Result<(), Error>)
        ensures
            (final(ctx)@, result) == cancel_challenge_step(old(ctx)@, caller, challenge_id),
    {
        ctx.ask(Action::RequireAuth(caller));
        check_paused(ctx)?;
        let mut challenge: Challenge = match ctx.challenges.get(&challenge_id) {
            Some(challenge) => challenge.clone(),
            None => {
                return Err(Error::ChallengeNotFound);
            },
        };
        bump_challenge(ctx, challenge_id);
        let admin: Address = match ctx.admin {
            Some(admin) => admin,
            None => {
                return Err(Error::NotInitialized);
            },
        };
        if caller != admin && caller != challenge.creator {
            return Err(Error::NotAuthorized);
        }
        if challenge.resolved {
            return Err(Error::CannotCancel);
        }
        if challenge.cancelled {
            return Err(Error::AlreadyCancelled);
        }
        if ctx.sequence > challenge.expiry_seq {
            return Err(Error::ChallengeExpired);
        }
        challenge.cancelled = true;
        ctx.challenges.set(challenge_id, challenge);
        cleanup_challenge_storage(ctx, challenge_id);
        ctx.publish(Event::Cancelled { challenge_id, by: caller });
        Ok(())
    }

    /// Cancels a challenge that has expired unresolved. Anyone can.
    pub fn expire_challenge(ctx: &mut Context, challenge_id: u64) -> (result: Result<(), Error>)
        ensures
            (final(ctx)@, result) == expire_challenge_step(old(ctx)@, challenge_id),
    {
        let mut challenge: Challenge = match ctx.challenges.get(&challenge_id) {
            Some(challenge) => challenge.clone(),
            None => {
                return Err(Error::ChallengeNotFound);
            },
        };
        bump_challenge(ctx, challenge_id);
        if challenge.resolved || challenge.cancelled {
            return Err(Error::AlreadyFinalized);
        }
        if ctx.sequence <= challenge.expiry_seq {
            return Err(Error::TooEarlyToResolve);
        }
        challenge.cancelled = true;
        ctx.challenges.set(challenge_id, challenge);
        cleanup_challenge_storage(ctx, challenge_id);
        let by: Address = ctx.contract;
        ctx.publish(Event::Cancelled { challenge_id, by });
        Ok(())
    }

    /// Lets a challenge accept a further token. Only the admin can.
    pub fn add_challenge_token(ctx: &mut Context, challenge_id: u64, token: Address) -> (result:
        Result<(), Error>)
        requires
            add_challenge_token_in_range(old(ctx)@, challenge_id, token),
        ensures
            (final(ctx)@, result) == add_challenge_token_step(old(ctx)@, challenge_id, token),
    {
        require_admin(ctx)?;
        let mut challenge: Challenge = match ctx.challenges.get(&challenge_id) {
            Some(challenge) => challenge.clone(),
            None => {
                return Err(Error::ChallengeNotFound);
            },
        };
        if challenge.resolved || challenge.cancelled {
            return Err(Error::AlreadyFinalized);
        }
        if challenge.additional_tokens.contains(token.id) {
            return Err(Error::TokenNotSupported);
        }
        if challenge.token == token {
            return Err(Error::TokenNotSupported);
        }
        challenge.additional_tokens.push_back(token.id);
        ctx.challenges.set(challenge_id, challenge);
        ctx.multi_token_pools.set((challenge_id, token), (0, 0));
        Ok(())
    }

    /// Drops the categories and statistics of the challenges below a number
    /// that are over, and says of how many. Only the admin can.
    pub fn cleanup_old_challenges(ctx: &mut Context, before_id: u64) -> (result: Result<u32, Error>)
        requires
            cleanup_old_challenges_in_range(old(ctx)@, before_id),
        ensures
            (final(ctx)@, result) == cleanup_old_challenges_step(old(ctx)@, before_id),
    {
        require_admin(ctx)?;
        let ghost asked = ctx@;
        let mut cleaned: u32 = 0;
        let mut id: u64 = 0;
        proof {
            lemma_sweep_nothing(asked);
            lemma_over_count_of_asked(old(ctx)@, asked, before_id as nat);
        }
        while id < before_id
            invariant
                id <= before_id,
                cleaned == over_count(asked, id as nat),
                over_count(asked, before_id as nat) <= u32::MAX,
                ctx@ == swept(asked, id as int),
                asked == admin_asked(old(ctx)@),
            decreases before_id - id,
        {
            let over: bool = match ctx.challenges.get(&id) {
                Some(challenge) => challenge.resolved || challenge.cancelled,
                None => false,
            };
            proof {
                lemma_sweep_one(asked, id);
                lemma_over_count_grows(asked, id as nat + 1, before_id as nat);
            }
            if over {
                ctx.challenge_categories.remove(&id);
                ctx.challenge_stats.remove(&id);
                cleaned = cleaned + 1;
            }
            id = id + 1;
        }
        Ok(cleaned)
    }

    /// The challenge of a number.
    pub fn get_challenge(ctx: &mut Context, challenge_id: u64) -> (result: Result<Challenge, Error>)
        ensures
            match result {
                Ok(challenge) => old(ctx)@.challenges.contains_key(challenge_id) && challenge@
                    == old(ctx)@.challenges[challenge_id],
                Err(error) => !old(ctx)@.challenges.contains_key(challenge_id) && error
                    == Error::ChallengeNotFound,
            },
            final(ctx)@ == challenge_touched(old(ctx)@, challenge_id),
    {
        let challenge: Challenge = match ctx.challenges.get(&challenge_id) {
            Some(challenge) => challenge.clone(),
            None => {
                return Err(Error::ChallengeNotFound);
            },
        };
        bump_challenge(ctx, challenge_id);
        Ok(challenge)
    }

    /// The statistics of a challenge that is not over yet.
    pub fn get_challenge_stats(ctx: &mut Context, challenge_id: u64) -> (stats: Option<
        ChallengeStats,
    >)
        ensures
            stats == old(ctx)@.challenge_stats.get(challenge_id),
            final(ctx)@ == (if stats is Some {
                old(ctx)@.asking(challenge_extension(challenge_id))
            } else {
                old(ctx)@
            }),
    {
        let stats: Option<ChallengeStats> = match ctx.challenge_stats.get(&challenge_id) {
            Some(stats) => Some(*stats),
            None => None,
        };
        if stats.is_some() {
            bump_challenge(ctx, challenge_id);
        }
        stats
    }

    /// The number that the next challenge gets.
    pub fn get_next_challenge_id(ctx: &Context) -> (result: Result<u64, Error>)
        ensures
            result == (match ctx@.next_challenge_id {
                Some(id) => Ok::<u64, Error>(id),
                None => Err::<u64, Error>(Error::NotInitialized),
            }),
    {
        match ctx.next_challenge_id {
            Some(id) => Ok(id),
            None => Err(Error::NotInitialized),
        }
    }

    /// The category of a challenge.
    pub fn get_challenge_category(ctx: &Context, challenge_id: u64) -> (category: Option<String>)
        ensures
            match category {
                Some(category) => ctx@.challenge_categories.contains_key(challenge_id) && category@
                    == ctx@.challenge_categories[challenge_id],
                None => !ctx@.challenge_categories.contains_key(challenge_id),
            },
    {
        match ctx.challenge_categories.get(&challenge_id) {
            Some(category) => Some(category.clone()),
            None => None,
        }
    }

    /// The YES pool and the NO pool of a further token of a challenge.
    pub fn get_multi_token_pool(ctx: &Context, challenge_id: u64, token: Address) -> (result:
        Result<(i128, i128), Error>)
        ensures
            result == Ok::<(i128, i128), Error>(
                if ctx@.multi_token_pools.contains_key((challenge_id, token)) {
                    ctx@.multi_token_pools[(challenge_id, token)]
                } else {
                    (0, 0)
                },
            ),
    {
        match ctx.multi_token_pools.get(&(challenge_id, token)) {
            Some(pools) => Ok(*pools),
            None => Ok((0, 0)),
        }
    }

    /// A template of a user.
    pub fn get_template(ctx: &Context, template_id: u64, creator: Address) -> (template: Option<
        ChallengeTemplate,
    >)
        ensures
            match template {
                Some(template) => ctx@.templates.contains_key((template_id, creator)) && template@
                    == ctx@.templates[(template_id, creator)],
                None => !ctx@.templates.contains_key((template_id, creator)),
            },
    {
        match ctx.templates.get(&(template_id, creator)) {
            Some(template) => Some(template.clone()),
            None => None,
        }
    }
}

/// Below zero there is nothing to sweep.
proof fn lemma_sweep_nothing(s: State)
    ensures
        swept(s, 0) == s,
{
    assert(swept(s, 0).challenge_categories =~= s.challenge_categories);
    assert(swept(s, 0).challenge_stats =~= s.challenge_stats);
}

/// Sweeping up to and including a number is sweeping below it, and then it.
proof fn lemma_sweep_one(s: State, id: u64)
    ensures
        swept(s, id + 1) == (if is_over_below(s, id, id + 1) {
            State {
                challenge_categories: swept(s, id as int).challenge_categories.remove(id),
                challenge_stats: swept(s, id as int).challenge_stats.remove(id),
                ..s
            }
        } else {
            swept(s, id as int)
        }),
{
    let next = swept(s, id + 1);
    let now = swept(s, id as int);
    if is_over_below(s, id, id + 1) {
        assert(next.challenge_categories =~= now.challenge_categories.remove(id));
        assert(next.challenge_stats =~= now.challenge_stats.remove(id));
    } else {
        assert(next.challenge_categories =~= now.challenge_categories);
        assert(next.challenge_stats =~= now.challenge_stats);
    }
}

/// There are no more challenges over below a smaller number.
proof fn lemma_over_count_grows(s: State, low: nat, high: nat)
    requires
        low <= high,
    ensures
        over_count(s, low) <= over_count(s, high),
    decreases high,
{
    if low < high {
        lemma_over_count_grows(s, low, (high - 1) as nat);
    }
}

/// What the host is asked does not change which challenges are over.
proof fn lemma_over_count_of_asked(s: State, asked: State, below: nat)
    requires
        s.challenges == asked.challenges,
    ensures
        over_count(s, below) == over_count(asked, below),
    decreases below,
{
    if below > 0 {
        lemma_over_count_of_asked(s, asked, (below - 1) as nat);
    }
}

} // verus!
