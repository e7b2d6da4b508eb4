//! Setting the market up, and what its admin and its users set.

use vstd::prelude::*;

use crate::context::Context;
use crate::context::State;
use crate::guards::admin_asked;
use crate::guards::admin_refusal;
use crate::guards::decided;
use crate::guards::require_admin;
use crate::guards::token_barred;
use crate::market::ChallengeMarket;
use crate::params::BPS_DENOMINATOR;
use crate::params::DEFAULT_PROTOCOL_FEE_BPS;
use crate::params::MAX_VESTING_DURATION;
use crate::staking::fee_balance;
use crate::types::Action;
use crate::types::Address;
use crate::types::Error;
use crate::types::Event;

verus! {

/// Why the admin's request is refused: there is no admin, or what is asked
/// for is not allowed.
pub open spec fn admin_request_refusal(s: State, forbidden: bool, error: Error) -> Option<Error> {
    if s.admin is None {
        Some(Error::NotInitialized)
    } else if forbidden {
        Some(error)
    } else {
        None
    }
}

/// The state once the vesting of a user has been set, and it has been told.
pub open spec fn vesting_set(s: State, user: Address, vesting_duration: u64) -> State {
    State { user_vesting: s.user_vesting.insert(user, vesting_duration), ..s }.publishing(
        Event::VestingConfigured { user, vesting_duration },
    )
}

/// What setting the market up comes to.
pub open spec fn initialize_step(s: State, admin: Address, oracle_relayer: Address) -> (
    State,
    Result<(), Error>,
) {
    if s.admin is Some {
        (s, Err(Error::AlreadyInitialized))
    } else {
        (
            State {
                admin: Some(admin),
                oracle_relayer: Some(oracle_relayer),
                next_challenge_id: Some(0),
                protocol_fee_bps: Some(DEFAULT_PROTOCOL_FEE_BPS),
                ..s.asking(Action::RequireAuth(admin))
            },
            Ok(()),
        )
    }
}

/// What replacing the trusted relayer comes to.
pub open spec fn set_oracle_relayer_step(s: State, new_relayer: Address) -> (
    State,
    Result<(), Error>,
) {
    decided(
        admin_refusal(s),
        s,
        State { oracle_relayer: Some(new_relayer), ..admin_asked(s) },
        (),
    )
}

/// What setting the protocol fee comes to.
pub open spec fn set_protocol_fee_step(s: State, fee_bps: u32) -> (State, Result<(), Error>) {
    decided(
        admin_request_refusal(s, fee_bps > BPS_DENOMINATOR, Error::InvalidAmount),
        admin_asked(s),
        State { protocol_fee_bps: Some(fee_bps), ..admin_asked(s) },
        (),
    )
}

/// What stopping the market comes to.
pub open spec fn pause_step(s: State) -> (State, Result<(), Error>) {
    decided(
        admin_request_refusal(s, s.is_paused(), Error::AlreadyCancelled),
        admin_asked(s),
        State { paused: Some(true), ..admin_asked(s) }.publishing(Event::Paused),
        (),
    )
}

/// What letting the market go on comes to.
pub open spec fn unpause_step(s: State) -> (State, Result<(), Error>) {
    decided(
        admin_request_refusal(s, !s.is_paused(), Error::NotAuthorized),
        admin_asked(s),
        State { paused: Some(false), ..admin_asked(s) }.publishing(Event::Unpaused),
        (),
    )
}

/// What setting the least stake comes to.
pub open spec fn set_min_stake_step(s: State, min_amount: i128) -> (State, Result<(), Error>) {
    decided(
        admin_request_refusal(s, min_amount <= 0, Error::InvalidAmount),
        admin_asked(s),
        State { min_stake: Some(min_amount), ..admin_asked(s) },
        (),
    )
}

/// What putting a token on the whitelist, or taking it off, comes to.
pub open spec fn whitelist_step(s: State, token: Address, welcome: bool) -> (
    State,
    Result<(), Error>,
) {
    decided(
        admin_refusal(s),
        s,
        State { token_whitelist: s.token_whitelist.insert(token, welcome), ..admin_asked(s) },
        (),
    )
}

/// What setting the vesting of a user comes to.
pub open spec fn set_user_vesting_step(s: State, user: Address, vesting_duration: u64) -> (
    State,
    Result<(), Error>,
) {
    decided(
        admin_request_refusal(
            s,
            vesting_duration > MAX_VESTING_DURATION,
            Error::InvalidVestingDuration,
        ),
        admin_asked(s),
        vesting_set(admin_asked(s), user, vesting_duration),
        (),
    )
}

/// What setting one's own vesting comes to.
pub open spec fn set_self_vesting_step(s: State, user: Address, vesting_duration: u64) -> (
    State,
    Result<(), Error>,
) {
    let asked = s.asking(Action::RequireAuth(user));
    if vesting_duration > MAX_VESTING_DURATION {
        (asked, Err(Error::InvalidVestingDuration))
    } else {
        (vesting_set(asked, user, vesting_duration), Ok(()))
    }
}

/// What collecting the fees of a token comes to.
pub open spec fn collect_fees_step(s: State, token: Address, recipient: Address) -> (
    State,
    Result<i128, Error>,
) {
    let asked = admin_asked(s);
    let amount = fee_balance(s, token);
    decided(
        admin_request_refusal(s, amount <= 0, Error::InvalidAmount),
        asked,
        State { fee_balances: asked.fee_balances.insert(token, 0), ..asked }.asking(
            Action::Transfer { token, from: s.contract, to: recipient, amount },
        ).publishing(Event::FeeCollected { token, amount }),
        amount,
    )
}

/// What taking the flag for flash loan activity off a user comes to.
pub open spec fn clear_flash_loan_flag_step(s: State, user: Address) -> (
    State,
    Result<(), Error>,
) {
    decided(
        admin_refusal(s),
        s,
        State { flash_loan_flags: s.flash_loan_flags.insert(user, false), ..admin_asked(s) },
        (),
    )
}

impl ChallengeMarket {
    /// Sets the market up, once. `oracle_relayer` is trusted with the
    /// resolution of what the ledger does not tell by itself.
    pub fn initialize(ctx: &mut Context, admin: Address, oracle_relayer: Address) -> (result:
        Result<(), Error>)
        ensures
            (final(ctx)@, result) == initialize_step(old(ctx)@, admin, oracle_relayer),
    {
        if ctx.admin.is_some() {
            return Err(Error::AlreadyInitialized);
        }
        ctx.ask(Action::RequireAuth(admin));
        ctx.admin = Some(admin);
        ctx.oracle_relayer = Some(oracle_relayer);
        ctx.next_challenge_id = Some(0);
        ctx.protocol_fee_bps = Some(DEFAULT_PROTOCOL_FEE_BPS);
        Ok(())
    }

    /// Replaces the trusted relayer. Only the admin can.
    pub fn set_oracle_relayer(ctx: &mut Context, new_relayer: Address) -> (result: Result<
        (),
        Error,
    >)
        ensures
            (final(ctx)@, result) == set_oracle_relayer_step(old(ctx)@, new_relayer),
    {
        require_admin(ctx)?;
        ctx.oracle_relayer = Some(new_relayer);
        Ok(())
    }

    /// Sets the protocol fee, in basis points. Only the admin can.
    pub fn set_protocol_fee(ctx: &mut Context, fee_bps: u32) -> (result: Result<(), Error>)
        ensures
            (final(ctx)@, result) == set_protocol_fee_step(old(ctx)@, fee_bps),
    {
        require_admin(ctx)?;
        if fee_bps > BPS_DENOMINATOR {
            return Err(Error::InvalidAmount);
        }
        ctx.protocol_fee_bps = Some(fee_bps);
        Ok(())
    }

    /// Stops the market. Only the admin can.
    pub fn pause(ctx: &mut Context) -> (result: Result<(), Error>)
        ensures
            (final(ctx)@, result) == pause_step(old(ctx)@),
    {
        require_admin(ctx)?;
        if Self::get_paused(ctx) {
            return Err(Error::AlreadyCancelled);
        }
        ctx.paused = Some(true);
        ctx.publish(Event::Paused);
        Ok(())
    }

    /// Lets the market go on. Only the admin can.
    pub fn unpause(ctx: &mut Context) -> (result: Result<(), Error>)
        ensures
            (final(ctx)@, result) == unpause_step(old(ctx)@),
    {
        require_admin(ctx)?;
        if !Self::get_paused(ctx) {
            return Err(Error::NotAuthorized);
        }
        ctx.paused = Some(false);
        ctx.publish(Event::Unpaused);
        Ok(())
    }

    /// Sets the least stake that is accepted. Only the admin can.
    pub fn set_min_stake(ctx: &mut Context, min_amount: i128) -> (result: Result<(), Error>)
        ensures
            (final(ctx)@, result) == set_min_stake_step(old(ctx)@, min_amount),
    {
        require_admin(ctx)?;
        if min_amount <= 0 {
            return Err(Error::InvalidAmount);
        }
        ctx.min_stake = Some(min_amount);
        Ok(())
    }

    /// Puts a token on the whitelist. Only the admin can.
    pub fn add_token_to_whitelist(ctx: &mut Context, token: Address) -> (result: Result<(), Error>)
        ensures
            (final(ctx)@, result) == whitelist_step(old(ctx)@, token, true),
    {
        require_admin(ctx)?;
        ctx.token_whitelist.set(token, true);
        Ok(())
    }

    /// Takes a token off the whitelist, which bars it. Only the admin can.
    pub fn remove_token_from_whitelist(ctx: &mut Context, token: Address) -> (result: Result<
        (),
        Error,
    >)
        ensures
            (final(ctx)@, result) == whitelist_step(old(ctx)@, token, false),
    {
        require_admin(ctx)?;
        ctx.token_whitelist.set(token, false);
        Ok(())
    }

    /// Sets how long the stakes of a user vest, in seconds. Only the admin
    /// can.
    pub fn set_user_vesting(ctx: &mut Context, user: Address, vesting_duration: u64) -> (result:
        Result<(), Error>)
        ensures
            (final(ctx)@, result) == set_user_vesting_step(old(ctx)@, user, vesting_duration),
    {
        require_admin(ctx)?;
        if vesting_duration > MAX_VESTING_DURATION {
            return Err(Error::InvalidVestingDuration);
        }
        ctx.user_vesting.set(user, vesting_duration);
        ctx.publish(Event::VestingConfigured { user, vesting_duration });
        Ok(())
    }

    /// Sets how long one's own stakes vest, in seconds.
    pub fn set_self_vesting(ctx: &mut Context, user: Address, vesting_duration: u64) -> (result:
        Result<(), Error>)
        ensures
            (final(ctx)@, result) == set_self_vesting_step(old(ctx)@, user, vesting_duration),
    {
        ctx.ask(Action::RequireAuth(user));
        if vesting_duration > MAX_VESTING_DURATION {
            return Err(Error::InvalidVestingDuration);
        }
        ctx.user_vesting.set(user, vesting_duration);
        ctx.publish(Event::VestingConfigured { user, vesting_duration });
        Ok(())
    }

    /// Pays the fees of a token that have come in to a recipient. Only the
    /// admin can.
    pub fn collect_fees(ctx: &mut Context, token: Address, recipient: Address) -> (result: Result<
        i128,
        Error,
    >)
        ensures
            (final(ctx)@, result) == collect_fees_step(old(ctx)@, token, recipient),
    {
        require_admin(ctx)?;
        let amount: i128 = Self::get_fee_balance(ctx, token);
        if amount <= 0 {
            return Err(Error::InvalidAmount);
        }
        ctx.fee_balances.set(token, 0);
        ctx.ask(Action::Transfer { token, from: ctx.contract, to: recipient, amount });
        ctx.publish(Event::FeeCollected { token, amount });
        Ok(amount)
    }

    /// Whether a user is flagged for flash loan activity.
    pub fn is_flash_loan_flagged(ctx: &Context, user: Address) -> (flagged: bool)
        ensures
            flagged == (ctx@.flash_loan_flags.contains_key(user) && ctx@.flash_loan_flags[user]),
    {
        match ctx.flash_loan_flags.get(&user) {
            Some(flagged) => *flagged,
            None => false,
        }
    }

    /// Takes the flag for flash loan activity off a user. Only the admin can.
    pub fn clear_flash_loan_flag(ctx: &mut Context, user: Address) -> (result: Result<(), Error>)
        ensures
            (final(ctx)@, result) == clear_flash_loan_flag_step(old(ctx)@, user),
    {
        require_admin(ctx)?;
        ctx.flash_loan_flags.set(user, false);
        Ok(())
    }

    /// The admin.
    pub fn get_admin(ctx: &Context) -> (result: Result<Address, Error>)
        ensures
            result == (match ctx@.admin {
                Some(admin) => Ok::<Address, Error>(admin),
                None => Err::<Address, Error>(Error::NotInitialized),
            }),
    {
        match ctx.admin {
            Some(admin) => Ok(admin),
            None => Err(Error::NotInitialized),
        }
    }

    /// The trusted relayer.
    pub fn get_oracle_relayer(ctx: &Context) -> (result: Result<Address, Error>)
        ensures
            result == (match ctx@.oracle_relayer {
                Some(relayer) => Ok::<Address, Error>(relayer),
                None => Err::<Address, Error>(Error::NotInitialized),
            }),
    {
        match ctx.oracle_relayer {
            Some(relayer) => Ok(relayer),
            None => Err(Error::NotInitialized),
        }
    }

    /// The protocol fee, in basis points.
    pub fn get_protocol_fee(ctx: &Context) -> (result: Result<u32, Error>)
        ensures
            result == (match ctx@.protocol_fee_bps {
                Some(bps) => Ok::<u32, Error>(bps),
                None => Err::<u32, Error>(Error::NotInitialized),
            }),
    {
        match ctx.protocol_fee_bps {
            Some(bps) => Ok(bps),
            None => Err(Error::NotInitialized),
        }
    }

    /// The admin, if there is one.
    pub fn get_admin_opt(ctx: &Context) -> (admin: Option<Address>)
        ensures
            admin == ctx@.admin,
    {
        ctx.admin
    }

    /// The trusted relayer, if there is one.
    pub fn get_oracle_relayer_opt(ctx: &Context) -> (relayer: Option<Address>)
        ensures
            relayer == ctx@.oracle_relayer,
    {
        ctx.oracle_relayer
    }

    /// The protocol fee, in basis points, if it was set.
    pub fn get_protocol_fee_opt(ctx: &Context) -> (bps: Option<u32>)
        ensures
            bps == ctx@.protocol_fee_bps,
    {
        ctx.protocol_fee_bps
    }

    /// Whether the market is paused.
    pub fn get_paused(ctx: &Context) -> (paused: bool)
        ensures
            paused == ctx@.is_paused(),
    {
        match ctx.paused {
            Some(paused) => paused,
            None => false,
        }
    }

    /// Whether a token is welcome in the market.
    pub fn is_token_whitelisted(ctx: &Context, token: Address) -> (welcome: bool)
        ensures
            welcome == !token_barred(ctx@, token),
    {
        match ctx.token_whitelist.get(&token) {
            Some(welcome) => *welcome,
            None => true,
        }
    }
}

} // verus!
