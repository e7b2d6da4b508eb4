//! What is known of the users.

use vstd::prelude::*;

use crate::context::Context;
use crate::context::State;
use crate::market::ChallengeMarket;
use crate::payouts::fits_i128;
use crate::types::Address;
use crate::types::Event;
use crate::types::UserReputation;

verus! {

/// The reputation of a user, or that of a user nothing is known of.
pub open spec fn reputation_or_blank(s: State, user: Address, last_updated: u64) -> UserReputation {
    if s.reputations.contains_key(user) {
        s.reputations[user]
    } else {
        UserReputation {
            user,
            score: 0,
            challenges_created: 0,
            challenges_resolved: 0,
            total_staked: 0,
            successful_predictions: 0,
            last_updated,
        }
    }
}

/// What is added to a user's reputation at once.
pub struct ReputationGain {
    pub score: i32,
    pub challenges_created: u32,
    pub challenges_resolved: u32,
    pub staked: i128,
    pub successful_predictions: u32,
}

/// The reputation of a user after a gain.
pub open spec fn reputation_after(s: State, user: Address, gain: ReputationGain) -> UserReputation {
    let before = reputation_or_blank(s, user, s.timestamp);
    UserReputation {
        user: before.user,
        score: (before.score + gain.score) as i32,
        challenges_created: (before.challenges_created + gain.challenges_created) as u32,
        challenges_resolved: (before.challenges_resolved + gain.challenges_resolved) as u32,
        total_staked: (before.total_staked + gain.staked) as i128,
        successful_predictions: (before.successful_predictions
            + gain.successful_predictions) as u32,
        last_updated: s.timestamp,
    }
}

/// The state once a user has gained in reputation and it has been told.
pub open spec fn with_reputation(s: State, user: Address, gain: ReputationGain) -> State {
    let after = reputation_after(s, user, gain);
    State { reputations: s.reputations.insert(user, after), ..s }.publishing(
        Event::ReputationUpdated { user, score: after.score },
    )
}

/// Every sum of a gain is in range.
pub open spec fn reputation_in_range(s: State, user: Address, gain: ReputationGain) -> bool {
    let before = reputation_or_blank(s, user, s.timestamp);
    &&& i32::MIN <= before.score + gain.score <= i32::MAX
    &&& before.challenges_created + gain.challenges_created <= u32::MAX
    &&& before.challenges_resolved + gain.challenges_resolved <= u32::MAX
    &&& fits_i128(before.total_staked + gain.staked)
    &&& before.successful_predictions + gain.successful_predictions <= u32::MAX
}

/// What a user gains who creates a challenge.
pub open spec fn creation_gain() -> ReputationGain {
    ReputationGain {
        score: 1,
        challenges_created: 1,
        challenges_resolved: 0,
        staked: 0,
        successful_predictions: 0,
    }
}

/// What a user gains who stakes.
pub open spec fn staking_gain(amount: i128) -> ReputationGain {
    ReputationGain {
        score: 0,
        challenges_created: 0,
        challenges_resolved: 0,
        staked: amount,
        successful_predictions: 0,
    }
}

/// What a user gains who claims what they won.
pub open spec fn winning_gain() -> ReputationGain {
    ReputationGain {
        score: 2,
        challenges_created: 0,
        challenges_resolved: 0,
        staked: 0,
        successful_predictions: 1,
    }
}

/// Adds to the reputation of a user.
pub fn update_reputation(ctx: &mut Context, user: Address, gain: ReputationGain)
    requires
        reputation_in_range(old(ctx)@, user, gain),
    ensures
        final(ctx)@ == with_reputation(old(ctx)@, user, gain),
{
    let mut reputation: UserReputation = match ctx.reputations.get(&user) {
        Some(reputation) => *reputation,
        None => UserReputation {
            user,
            score: 0,
            challenges_created: 0,
            challenges_resolved: 0,
            total_staked: 0,
            successful_predictions: 0,
            last_updated: ctx.timestamp,
        },
    };
    reputation.score = reputation.score + gain.score;
    reputation.challenges_created = reputation.challenges_created + gain.challenges_created;
    reputation.challenges_resolved = reputation.challenges_resolved + gain.challenges_resolved;
    reputation.total_staked = reputation.total_staked + gain.staked;
    reputation.successful_predictions =
    reputation.successful_predictions + gain.successful_predictions;
    reputation.last_updated = ctx.timestamp;
    let score: i32 = reputation.score;
    ctx.reputations.set(user, reputation);
    ctx.publish(Event::ReputationUpdated { user, score });
}

impl ChallengeMarket {
    /// The reputation of a user.
    pub fn get_user_reputation(ctx: &Context, user: Address) -> (reputation: UserReputation)
        ensures
            reputation == reputation_or_blank(ctx@, user, 0),
    {
        match ctx.reputations.get(&user) {
            Some(reputation) => *reputation,
            None => UserReputation {
                user,
                score: 0,
                challenges_created: 0,
                challenges_resolved: 0,
                total_staked: 0,
                successful_predictions: 0,
                last_updated: 0,
            },
        }
    }

    /// Whether the score of a user is at least `threshold`.
    pub fn check_reputation_threshold(ctx: &Context, user: Address, threshold: i32) -> (enough: bool)
        ensures
            enough == (reputation_or_blank(ctx@, user, 0).score >= threshold),
    {
        Self::get_user_reputation(ctx, user).score >= threshold
    }

    /// The score that the creator of a challenge had once it was created.
    pub fn get_challenge_creator_reputation(ctx: &Context, challenge_id: u64) -> (score: Option<i32>)
        ensures
            score == ctx@.creator_reputations.get(challenge_id),
    {
        match ctx.creator_reputations.get(&challenge_id) {
            Some(score) => Some(*score),
            None => None,
        }
    }
}

} // verus!
