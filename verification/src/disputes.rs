//! Disputes about how a challenge was resolved.

use vstd::prelude::*;

use crate::challenges::outcome_set;
use crate::context::Context;
use crate::context::State;
use crate::guards::admin_asked;
use crate::guards::check_paused;
use crate::guards::check_rate_limit;
use crate::guards::decided;
use crate::guards::rate_counted;
use crate::guards::rate_limited;
use crate::guards::require_admin;
use crate::market::ChallengeMarket;
use crate::params::DISPUTE_BONUS_DIVISOR;
use crate::params::DISPUTE_STAKE_THRESHOLD;
use crate::params::DISPUTE_WINDOW_LEDGERS;
use crate::params::MAX_DISPUTES_PER_WINDOW;
use crate::payouts::fits_i128;
use crate::payouts::quotient;
use crate::types::Action;
use crate::types::Address;
use crate::types::Challenge;
use crate::types::Dispute;
use crate::types::DisputeView;
use crate::types::Error;
use crate::types::Event;

verus! {

/// Why a dispute is not taken down.
pub open spec fn file_dispute_refusal(
    s: State,
    disputer: Address,
    challenge_id: u64,
    stake: i128,
) -> Option<Error> {
    let challenge = s.challenges[challenge_id];
    if s.is_paused() {
        Some(Error::ContractPaused)
    } else if rate_limited(
        s.dispute_filing_counts,
        disputer,
        s.timestamp,
        MAX_DISPUTES_PER_WINDOW,
    ) {
        Some(Error::RateLimitExceeded)
    } else if !s.challenges.contains_key(challenge_id) {
        Some(Error::ChallengeNotFound)
    } else if !challenge.resolved {
        Some(Error::NotResolved)
    } else if s.sequence > challenge.resolve_ledger_seq + DISPUTE_WINDOW_LEDGERS {
        Some(Error::DisputeWindowClosed)
    } else if stake < DISPUTE_STAKE_THRESHOLD {
        Some(Error::InsufficientDisputeStake)
    } else if s.disputes.contains_key((challenge_id, disputer)) {
        Some(Error::DisputeAlreadyExists)
    } else {
        None
    }
}

/// The state once a dispute has been looked at, whether it is refused or not:
/// it counts toward the user's limit.
pub open spec fn dispute_examined(s: State, disputer: Address) -> State {
    if s.is_paused() || rate_limited(
        s.dispute_filing_counts,
        disputer,
        s.timestamp,
        MAX_DISPUTES_PER_WINDOW,
    ) {
        s
    } else {
        State {
            dispute_filing_counts: rate_counted(s.dispute_filing_counts, disputer, s.timestamp),
            ..s
        }
    }
}

/// How many disputes a challenge has seen.
pub open spec fn dispute_count(s: State, challenge_id: u64) -> u32 {
    if s.dispute_counts.contains_key(challenge_id) {
        s.dispute_counts[challenge_id]
    } else {
        0
    }
}

/// The state once a dispute has been taken down and its stake has moved to
/// the market.
pub open spec fn dispute_filed(s: State, dispute: DisputeView) -> State {
    let challenge_id = dispute.challenge_id;
    State {
        disputes: s.disputes.insert((challenge_id, dispute.disputer), dispute),
        dispute_counts: s.dispute_counts.insert(
            challenge_id,
            (dispute_count(s, challenge_id) + 1) as u32,
        ),
        ..s
    }.asking(
        Action::Transfer {
            token: s.challenges[challenge_id].token,
            from: dispute.disputer,
            to: s.contract,
            amount: dispute.stake,
        },
    ).publishing(
        Event::DisputeCreated {
            challenge_id,
            disputer: dispute.disputer,
            disputed_outcome: dispute.disputed_outcome,
        },
    )
}

/// The end of the dispute window, if it is looked at, is in range, and so is
/// the number of disputes.
pub open spec fn file_dispute_in_range(
    s: State,
    disputer: Address,
    challenge_id: u64,
    stake: i128,
) -> bool {
    let challenge = s.challenges[challenge_id];
    &&& !s.is_paused() && !rate_limited(
        s.dispute_filing_counts,
        disputer,
        s.timestamp,
        MAX_DISPUTES_PER_WINDOW,
    ) && s.challenges.contains_key(challenge_id) && challenge.resolved
        ==> challenge.resolve_ledger_seq + DISPUTE_WINDOW_LEDGERS <= u32::MAX
    &&& file_dispute_refusal(s, disputer, challenge_id, stake) is None ==> dispute_count(
        s,
        challenge_id,
    ) < u32::MAX
}

/// Why a dispute is not resolved.
pub open spec fn resolve_dispute_refusal(
    s: State,
    challenge_id: u64,
    disputer: Address,
) -> Option<Error> {
    if s.admin is None {
        Some(Error::NotInitialized)
    } else if !s.disputes.contains_key((challenge_id, disputer)) {
        Some(Error::NotDisputed)
    } else if s.disputes[(challenge_id, disputer)].resolved {
        Some(Error::DisputeAlreadyResolved)
    } else if !s.challenges.contains_key(challenge_id) {
        Some(Error::ChallengeNotFound)
    } else {
        None
    }
}

/// What a disputer who was right gets on top of the stake.
pub open spec fn dispute_bonus(stake: i128) -> int {
    quotient(stake as int, DISPUTE_BONUS_DIVISOR as int)
}

/// What a disputer who was right is paid: the stake, and a bonus.
pub open spec fn dispute_return(stake: i128) -> int {
    stake + dispute_bonus(stake)
}

/// The state once a dispute has been resolved: if it was successful, its
/// outcome holds from now on and the disputer is paid, else the admin gets
/// the stake.
pub open spec fn dispute_resolved(
    s: State,
    challenge_id: u64,
    disputer: Address,
    successful: bool,
) -> State {
    let dispute = s.disputes[(challenge_id, disputer)];
    let token = s.challenges[challenge_id].token;
    let closed = State {
        disputes: s.disputes.insert(
            (challenge_id, disputer),
            DisputeView { resolved: true, successful, ..dispute },
        ),
        ..s
    };
    let paid = if successful {
        outcome_set(closed, challenge_id, dispute.disputed_outcome).asking(
            Action::Transfer {
                token,
                from: s.contract,
                to: disputer,
                amount: dispute_return(dispute.stake) as i128,
            },
        )
    } else {
        closed.asking(
            Action::Transfer {
                token,
                from: s.contract,
                to: s.admin->0,
                amount: dispute.stake,
            },
        )
    };
    paid.publishing(Event::DisputeResolved { challenge_id, disputer, successful })
}

/// What disputing an outcome comes to.
pub open spec fn file_dispute_step(
    s: State,
    disputer: Address,
    challenge_id: u64,
    disputed_outcome: bool,
    evidence: Seq<char>,
    stake: i128,
) -> (State, Result<(), Error>) {
    let examined = dispute_examined(s.asking(Action::RequireAuth(disputer)), disputer);
    decided(
        file_dispute_refusal(s, disputer, challenge_id, stake),
        examined,
        dispute_filed(
            examined,
            DisputeView {
                challenge_id,
                disputer,
                disputed_outcome,
                evidence,
                stake,
                resolved: false,
                successful: false,
                created_at: s.timestamp,
            },
        ),
        (),
    )
}

/// What deciding a dispute comes to.
pub open spec fn resolve_dispute_step(
    s: State,
    challenge_id: u64,
    disputer: Address,
    successful: bool,
) -> (State, Result<(), Error>) {
    decided(
        resolve_dispute_refusal(s, challenge_id, disputer),
        admin_asked(s),
        dispute_resolved(admin_asked(s), challenge_id, disputer, successful),
        (),
    )
}

/// What a decision that pays the disputer adds up is in range.
pub open spec fn resolve_dispute_in_range(
    s: State,
    challenge_id: u64,
    disputer: Address,
    successful: bool,
) -> bool {
    resolve_dispute_refusal(s, challenge_id, disputer) is None && successful ==> fits_i128(
        dispute_return(s.disputes[(challenge_id, disputer)].stake),
    )
}

impl ChallengeMarket {
    /// Disputes the outcome of a challenge, with a stake.
    pub fn file_dispute(
        ctx: &mut Context,
        disputer: Address,
        challenge_id: u64,
        disputed_outcome: bool,
        evidence: String,
        stake: i128,
    ) -> (result: Result<(), Error>)
        requires
            file_dispute_in_range(old(ctx)@, disputer, challenge_id, stake),
        ensures
            (final(ctx)@, result) == file_dispute_step(
                old(ctx)@,
                disputer,
                challenge_id,
                disputed_outcome,
                evidence@,
                stake,
            ),
    {
        ctx.ask(Action::RequireAuth(disputer));
        check_paused(ctx)?;
        check_rate_limit(
            &mut ctx.dispute_filing_counts,
            disputer,
            ctx.timestamp,
            MAX_DISPUTES_PER_WINDOW,
        )?;
        let challenge: Challenge = match ctx.challenges.get(&challenge_id) {
            Some(challenge) => challenge.clone(),
            None => {
                return Err(Error::ChallengeNotFound);
            },
        };
        if !challenge.resolved {
            return Err(Error::NotResolved);
        }
        let dispute_deadline: u32 = challenge.resolve_ledger_seq + DISPUTE_WINDOW_LEDGERS;
        if ctx.sequence > dispute_deadline {
            return Err(Error::DisputeWindowClosed);
        }
        if stake < DISPUTE_STAKE_THRESHOLD {
            return Err(Error::InsufficientDisputeStake);
        }
        if ctx.disputes.contains_key(&(challenge_id, disputer)) {
            return Err(Error::DisputeAlreadyExists);
        }
        ctx.ask(
            Action::Transfer {
                token: challenge.token,
                from: disputer,
                to: ctx.contract,
                amount: stake,
            },
        );
        let dispute = Dispute {
            challenge_id,
            disputer,
            disputed_outcome,
            evidence,
            stake,
            resolved: false,
            successful: false,
            created_at: ctx.timestamp,
        };
        ctx.disputes.set((challenge_id, disputer), dispute);
        let count: u32 = match ctx.dispute_counts.get(&challenge_id) {
            Some(count) => *count,
            None => 0,
        };
        ctx.dispute_counts.set(challenge_id, count + 1);
        ctx.publish(Event::DisputeCreated { challenge_id, disputer, disputed_outcome });
        Ok(())
    }

    /// Decides a dispute. Only the admin can.
    pub fn resolve_dispute(
        ctx: &mut Context,
        challenge_id: u64,
        disputer: Address,
        successful: bool,
    ) -> (result: Result<(), Error>)
        requires
            resolve_dispute_in_range(old(ctx)@, challenge_id, disputer, successful),
        ensures
            (final(ctx)@, result) == resolve_dispute_step(
                old(ctx)@,
                challenge_id,
                disputer,
                successful,
            ),
    {
        let admin: Address = require_admin(ctx)?;
        let mut dispute: Dispute = match ctx.disputes.get(&(challenge_id, disputer)) {
            Some(dispute) => dispute.clone(),
            None => {
                return Err(Error::NotDisputed);
            },
        };
        if dispute.resolved {
            return Err(Error::DisputeAlreadyResolved);
        }
        let mut challenge: Challenge = match ctx.challenges.get(&challenge_id) {
            Some(challenge) => challenge.clone(),
            None => {
                return Err(Error::ChallengeNotFound);
            },
        };
        dispute.resolved = true;
        dispute.successful = successful;
        let stake: i128 = dispute.stake;
        let disputed_outcome: bool = dispute.disputed_outcome;
        ctx.disputes.set((challenge_id, disputer), dispute);
        let token: Address = challenge.token;
        if successful {
            let total_return: i128 = stake + stake / DISPUTE_BONUS_DIVISOR;
            ctx.ask(
                Action::Transfer {
                    token,
                    from: ctx.contract,
                    to: disputer,
                    amount: total_return,
                },
            );
            challenge.outcome_yes = disputed_outcome;
            challenge.resolved = true;
            ctx.challenges.set(challenge_id, challenge);
        } else {
            ctx.ask(Action::Transfer { token, from: ctx.contract, to: admin, amount: stake });
        }
        ctx.publish(Event::DisputeResolved { challenge_id, disputer, successful });
        Ok(())
    }
}

} // verus!
