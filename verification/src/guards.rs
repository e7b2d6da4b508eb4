//! What most requests check before they do anything, and the upkeep of the
//! entries that they touch.

use vstd::prelude::*;

use crate::context::Context;
use crate::context::State;
use crate::params::DEFAULT_TTL;
use crate::params::FLASH_LOAN_COOLDOWN;
use crate::params::FLASH_LOAN_THRESHOLD;
use crate::params::RATE_LIMIT_WINDOW;
use crate::params::TTL_THRESHOLD;
use crate::table::Table;
use crate::types::Action;
use crate::types::Address;
use crate::types::DataKey;
use crate::types::Error;
use crate::types::Event;

verus! {

/// What a request comes to: the state that it leaves where it is refused, or
/// the one that it leaves where it is not and the value that it returns.
pub open spec fn decided<T>(refusal: Option<Error>, refused: State, done: State, value: T) -> (
    State,
    Result<T, Error>,
) {
    match refusal {
        Some(error) => (refused, Err(error)),
        None => (done, Ok(value)),
    }
}

/// The action that keeps a challenge alive.
pub open spec fn challenge_extension(id: u64) -> Action {
    Action::ExtendTtl {
        key: DataKey::Challenge(id),
        threshold: TTL_THRESHOLD,
        extend_to: DEFAULT_TTL,
    }
}

/// The action that keeps a stake alive.
pub open spec fn stake_extension(id: u64, who: Address) -> Action {
    Action::ExtendTtl {
        key: DataKey::Stake(id, who),
        threshold: TTL_THRESHOLD,
        extend_to: DEFAULT_TTL,
    }
}

/// Keeps a challenge alive.
pub fn bump_challenge(ctx: &mut Context, id: u64)
    ensures
        final(ctx)@ == old(ctx)@.asking(challenge_extension(id)),
{
    ctx.ask(
        Action::ExtendTtl {
            key: DataKey::Challenge(id),
            threshold: TTL_THRESHOLD,
            extend_to: DEFAULT_TTL,
        },
    );
}

/// Keeps a stake alive.
pub fn bump_stake(ctx: &mut Context, id: u64, who: Address)
    ensures
        final(ctx)@ == old(ctx)@.asking(stake_extension(id, who)),
{
    ctx.ask(
        Action::ExtendTtl {
            key: DataKey::Stake(id, who),
            threshold: TTL_THRESHOLD,
            extend_to: DEFAULT_TTL,
        },
    );
}

/// The state without the statistics of a challenge.
pub open spec fn without_stats(s: State, challenge_id: u64) -> State {
    State { challenge_stats: s.challenge_stats.remove(challenge_id), ..s }
}

/// Drops what is not needed of a challenge that is resolved or cancelled: its
/// statistics. The challenge itself and its stakes are kept.
pub fn cleanup_challenge_storage(ctx: &mut Context, challenge_id: u64)
    ensures
        final(ctx)@ == without_stats(old(ctx)@, challenge_id),
{
    ctx.challenge_stats.remove(&challenge_id);
}

/// Why a request that only the admin may make is refused.
pub open spec fn admin_refusal(s: State) -> Option<Error> {
    if s.admin is None {
        Some(Error::NotInitialized)
    } else {
        None
    }
}

/// The state once the admin, if there is one, has been asked to authorize
/// the request.
pub open spec fn admin_asked(s: State) -> State {
    match s.admin {
        Some(admin) => s.asking(Action::RequireAuth(admin)),
        None => s,
    }
}

/// Asks the admin to authorize the request.
pub fn require_admin(ctx: &mut Context) -> (result: Result<Address, Error>)
    ensures
        result == (match old(ctx)@.admin {
            Some(admin) => Ok::<Address, Error>(admin),
            None => Err::<Address, Error>(Error::NotInitialized),
        }),
        final(ctx)@ == admin_asked(old(ctx)@),
{
    match ctx.admin {
        Some(admin) => {
            ctx.ask(Action::RequireAuth(admin));
            Ok(admin)
        },
        None => Err(Error::NotInitialized),
    }
}

/// Refuses the request while the market is paused.
pub fn check_paused(ctx: &Context) -> (result: Result<(), Error>)
    ensures
        result == (if ctx@.is_paused() {
            Err::<(), Error>(Error::ContractPaused)
        } else {
            Ok::<(), Error>(())
        }),
{
    match ctx.paused {
        Some(true) => Err(Error::ContractPaused),
        _ => Ok(()),
    }
}

/// A token is barred if it was taken off the whitelist. A token that was
/// never on it is welcome.
pub open spec fn token_barred(s: State, token: Address) -> bool {
    s.token_whitelist.contains_key(token) && !s.token_whitelist[token]
}

/// Refuses a token that is barred from the market.
pub fn check_token_whitelist(ctx: &Context, token: Address) -> (result: Result<(), Error>)
    ensures
        result == (if token_barred(ctx@, token) {
            Err::<(), Error>(Error::TokenNotWhitelisted)
        } else {
            Ok::<(), Error>(())
        }),
{
    if let Some(is_whitelisted) = ctx.token_whitelist.get(&token) {
        if !*is_whitelisted {
            return Err(Error::TokenNotWhitelisted);
        }
    }
    Ok(())
}

/// Where the window of time that a moment lies in starts.
pub open spec fn window_start(now: u64) -> u64 {
    (now - now % RATE_LIMIT_WINDOW) as u64
}

/// Where the window of time that a moment lies in starts.
pub fn rate_window(now: u64) -> (start: u64)
    ensures
        start == window_start(now),
{
    now - now % RATE_LIMIT_WINDOW
}

/// How often a user has acted in the window of time that a moment lies in.
pub open spec fn times_acted(
    counts: Map<(Address, u64), (u64, u32)>,
    user: Address,
    now: u64,
) -> u32 {
    let key = (user, window_start(now));
    if counts.contains_key(key) && counts[key].0 >= window_start(now) {
        counts[key].1
    } else {
        0
    }
}

/// The user has acted as often as the window allows.
pub open spec fn rate_limited(
    counts: Map<(Address, u64), (u64, u32)>,
    user: Address,
    now: u64,
    max_count: u32,
) -> bool {
    times_acted(counts, user, now) >= max_count
}

/// The counts with one more action of the user.
pub open spec fn rate_counted(
    counts: Map<(Address, u64), (u64, u32)>,
    user: Address,
    now: u64,
) -> Map<(Address, u64), (u64, u32)> {
    counts.insert(
        (user, window_start(now)),
        (window_start(now), (times_acted(counts, user, now) + 1) as u32),
    )
}

/// Counts an action of a user, or refuses it if there were too many in the
/// window.
pub fn check_rate_limit(
    counts: &mut Table<(Address, u64), (u64, u32)>,
    user: Address,
    now: u64,
    max_count: u32,
) -> (result: Result<(), Error>)
    ensures
        result == (if rate_limited(old(counts)@, user, now, max_count) {
            Err::<(), Error>(Error::RateLimitExceeded)
        } else {
            Ok::<(), Error>(())
        }),
        final(counts)@ == (if rate_limited(old(counts)@, user, now, max_count) {
            old(counts)@
        } else {
            rate_counted(old(counts)@, user, now)
        }),
{
    let start: u64 = rate_window(now);
    let (last_window, count): (u64, u32) = match counts.get(&(user, start)) {
        Some(entry) => *entry,
        None => (start, 0),
    };
    let acted: u32 = if last_window < start {
        0
    } else {
        count
    };
    if acted >= max_count {
        return Err(Error::RateLimitExceeded);
    }
    counts.set((user, start), (start, acted + 1));
    Ok(())
}

/// A large withdrawal follows another by the same user from the same
/// challenge too soon.
pub open spec fn cooling_down(s: State, user: Address, challenge_id: u64, amount: i128) -> bool {
    &&& amount >= FLASH_LOAN_THRESHOLD
    &&& s.last_withdrawals.contains_key((user, challenge_id))
    &&& s.timestamp - s.last_withdrawals[(user, challenge_id)] < FLASH_LOAN_COOLDOWN
}

/// The state once a withdrawal has been looked at: a small one leaves no
/// trace, a large one is noted with its time, and one that comes too soon
/// flags the user.
pub open spec fn withdrawal_noted(
    s: State,
    user: Address,
    challenge_id: u64,
    amount: i128,
) -> State {
    if amount < FLASH_LOAN_THRESHOLD {
        s
    } else if cooling_down(s, user, challenge_id, amount) {
        State { flash_loan_flags: s.flash_loan_flags.insert(user, true), ..s }.publishing(
            Event::FlashLoanDetected { user, challenge_id, amount },
        )
    } else {
        State {
            last_withdrawals: s.last_withdrawals.insert((user, challenge_id), s.timestamp),
            ..s
        }
    }
}

/// No withdrawal that counts is noted for a time that is still to come.
pub open spec fn withdrawal_in_past(
    s: State,
    user: Address,
    challenge_id: u64,
    amount: i128,
) -> bool {
    amount >= FLASH_LOAN_THRESHOLD && s.last_withdrawals.contains_key((user, challenge_id))
        ==> s.last_withdrawals[(user, challenge_id)] <= s.timestamp
}

/// Refuses a large withdrawal that follows another too soon, and flags the
/// user for it.
pub fn check_flash_loan_protection(
    ctx: &mut Context,
    user: Address,
    challenge_id: u64,
    amount: i128,
) -> (result: Result<(), Error>)
    requires
        withdrawal_in_past(old(ctx)@, user, challenge_id, amount),
    ensures
        result == (if cooling_down(old(ctx)@, user, challenge_id, amount) {
            Err::<(), Error>(Error::CooldownNotElapsed)
        } else {
            Ok::<(), Error>(())
        }),
        final(ctx)@ == withdrawal_noted(old(ctx)@, user, challenge_id, amount),
{
    if amount < FLASH_LOAN_THRESHOLD {
        return Ok(());
    }
    let current_time: u64 = ctx.timestamp;
    if let Some(last_withdrawal) = ctx.last_withdrawals.get(&(user, challenge_id)) {
        let time_since_last: u64 = current_time - *last_withdrawal;
        if time_since_last < FLASH_LOAN_COOLDOWN {
            ctx.flash_loan_flags.set(user, true);
            ctx.publish(Event::FlashLoanDetected { user, challenge_id, amount });
            return Err(Error::CooldownNotElapsed);
        }
    }
    ctx.last_withdrawals.set((user, challenge_id), current_time);
    Ok(())
}

} // verus!
