//! What the admin does, in plain terms: the settings of the market and its
//! relayers.

use vstd::prelude::*;

use crate::context::State;
use crate::context::empty_state;
use crate::guards::admin_asked;
use crate::guards::stake_extension;
use crate::relayers::add_relayer_in_range;
use crate::relayers::add_relayer_step;
use crate::relayers::relayers;
use crate::relayers::remove_relayer_in_range;
use crate::relayers::remove_relayer_step;
use crate::relayers::set_quorum_size_step;
use crate::relayers::slash_count;
use crate::relayers::slash_relayer_in_range;
use crate::relayers::slash_relayer_step;
use crate::settings::clear_flash_loan_flag_step;
use crate::settings::initialize_step;
use crate::settings::pause_step;
use crate::settings::set_min_stake_step;
use crate::settings::set_oracle_relayer_step;
use crate::settings::set_protocol_fee_step;
use crate::settings::set_self_vesting_step;
use crate::settings::set_user_vesting_step;
use crate::settings::unpause_step;
use crate::settings::whitelist_step;
use crate::types::Action;
use crate::types::Address;
use crate::types::DataKey;
use crate::types::Error;
use crate::types::Event;
use crate::types::RelayerQuorum;

verus! {

/// A market that nothing has happened in yet keeps nothing and asks for
/// nothing.
pub proof fn law_new_markets_are_empty(contract: Address, timestamp: u64, sequence: u32)
    ensures
        ({
            let s = empty_state(contract, timestamp, sequence);
            &&& s.contract == contract && s.timestamp == timestamp && s.sequence == sequence
            &&& s.actions.len() == 0
            &&& s.admin is None && s.oracle_relayer is None && s.next_challenge_id is None
            &&& s.protocol_fee_bps is None && s.relayer_quorum is None && s.relayer_set is None
            &&& s.paused is None && s.min_stake is None && s.next_template_id is None
            &&& s.relayer_slash_counts == Map::<Address, u32>::empty()
            &&& s.token_whitelist == Map::<Address, bool>::empty()
            &&& s.fee_balances == Map::<Address, i128>::empty()
            &&& s.user_vesting == Map::<Address, u64>::empty()
            &&& s.challenge_creation_counts == Map::<(Address, u64), (u64, u32)>::empty()
            &&& s.stake_counts == Map::<(Address, u64), (u64, u32)>::empty()
            &&& s.dispute_filing_counts == Map::<(Address, u64), (u64, u32)>::empty()
            &&& s.last_withdrawals == Map::<(Address, u64), u64>::empty()
            &&& s.flash_loan_flags == Map::<Address, bool>::empty()
            &&& s.template_counts == Map::<Address, u32>::empty()
            &&& s.challenges.dom() == Set::<u64>::empty()
            &&& s.stakes.dom() == Set::<(u64, Address)>::empty()
            &&& s.challenge_stats.dom() == Set::<u64>::empty()
            &&& s.challenge_categories.dom() == Set::<u64>::empty()
            &&& s.disputes.dom() == Set::<(u64, Address)>::empty()
            &&& s.dispute_counts.dom() == Set::<u64>::empty()
            &&& s.multi_token_pools.dom() == Set::<(u64, Address)>::empty()
            &&& s.liquidity_positions.dom() == Set::<(u64, Address)>::empty()
            &&& s.total_liquidity.dom() == Set::<u64>::empty()
            &&& s.oracle_submissions.dom() == Set::<(u64, Address)>::empty()
            &&& s.oracle_results.dom() == Set::<u64>::empty()
            &&& s.audit_log.dom() == Set::<(u64, u64)>::empty()
            &&& s.audit_log_counts.dom() == Set::<u64>::empty()
            &&& s.reward_accruals.dom() == Set::<(u64, Address)>::empty()
            &&& s.reward_indices.dom() == Set::<u64>::empty()
            &&& s.templates.dom() == Set::<(u64, Address)>::empty()
            &&& s.reputations.dom() == Set::<Address>::empty()
            &&& s.creator_reputations.dom() == Set::<u64>::empty()
        }),
{
}

/// To ask for an action, publish an event, ask the admin or keep a stake adds
/// that action to what is asked of the host, last, and does nothing else.
pub proof fn law_asking_adds_an_action(
    s: State,
    action: Action,
    event: Event,
    challenge_id: u64,
    who: Address,
)
    ensures
        s.asking(action) == (State { actions: s.actions.push(action), ..s }),
        s.publishing(event) == (State { actions: s.actions.push(Action::Publish(event)), ..s }),
        admin_asked(s) == (State {
            actions: match s.admin {
                Some(admin) => s.actions.push(Action::RequireAuth(admin)),
                None => s.actions,
            },
            ..s
        }),
        stake_extension(challenge_id, who) == (Action::ExtendTtl {
            key: DataKey::Stake(challenge_id, who),
            threshold: 50000,
            extend_to: 100000,
        }),
        s.is_paused() <==> s.paused == Some(true),
{
}

/// A market is set up once: with its admin, its relayer, no fee, and challenges
/// numbered from zero. The admin has to agree.
pub proof fn law_markets_are_set_up_as_asked(s: State, admin: Address, oracle_relayer: Address)
    ensures
        s.admin is Some ==> initialize_step(s, admin, oracle_relayer) == (
            s,
            Err::<(), Error>(Error::AlreadyInitialized),
        ),
        s.admin is None ==> initialize_step(s, admin, oracle_relayer) == (
            State {
                admin: Some(admin),
                oracle_relayer: Some(oracle_relayer),
                next_challenge_id: Some(0),
                protocol_fee_bps: Some(0),
                actions: s.actions.push(Action::RequireAuth(admin)),
                ..s
            },
            Ok::<(), Error>(()),
        ),
{
}

/// What the admin sets is set to what the admin says, within its bounds, and
/// nothing else changes: the relayer, the fee up to all of a payout, the least
/// stake above nothing, which tokens are welcome, and who is flagged.
pub proof fn law_settings_are_what_the_admin_says(
    s: State,
    new_relayer: Address,
    fee_bps: u32,
    min_amount: i128,
    token: Address,
    welcome: bool,
    user: Address,
)
    ensures
        s.admin is None ==> {
            &&& set_oracle_relayer_step(s, new_relayer) == (
                s,
                Err::<(), Error>(Error::NotInitialized),
            )
            &&& set_protocol_fee_step(s, fee_bps) == (s, Err::<(), Error>(Error::NotInitialized))
            &&& set_min_stake_step(s, min_amount) == (s, Err::<(), Error>(Error::NotInitialized))
            &&& whitelist_step(s, token, welcome) == (s, Err::<(), Error>(Error::NotInitialized))
            &&& clear_flash_loan_flag_step(s, user) == (
                s,
                Err::<(), Error>(Error::NotInitialized),
            )
        },
        s.admin is Some ==> {
            let actions = s.actions.push(Action::RequireAuth(s.admin->0));
            let asked = State { actions, ..s };
            &&& set_oracle_relayer_step(s, new_relayer) == (
                State { oracle_relayer: Some(new_relayer), actions, ..s },
                Ok::<(), Error>(()),
            )
            &&& fee_bps <= 10000 ==> set_protocol_fee_step(s, fee_bps) == (
                State { protocol_fee_bps: Some(fee_bps), actions, ..s },
                Ok::<(), Error>(()),
            )
            &&& fee_bps > 10000 ==> set_protocol_fee_step(s, fee_bps) == (
                asked,
                Err::<(), Error>(Error::InvalidAmount),
            )
            &&& min_amount > 0 ==> set_min_stake_step(s, min_amount) == (
                State { min_stake: Some(min_amount), actions, ..s },
                Ok::<(), Error>(()),
            )
            &&& min_amount <= 0 ==> set_min_stake_step(s, min_amount) == (
                asked,
                Err::<(), Error>(Error::InvalidAmount),
            )
            &&& whitelist_step(s, token, welcome) == (
                State {
                    token_whitelist: s.token_whitelist.insert(token, welcome),
                    actions,
                    ..s
                },
                Ok::<(), Error>(()),
            )
            &&& clear_flash_loan_flag_step(s, user) == (
                State { flash_loan_flags: s.flash_loan_flags.insert(user, false), actions, ..s },
                Ok::<(), Error>(()),
            )
        },
{
}

/// The admin can pause a market that is not paused and unpause one that is.
pub proof fn law_the_admin_pauses_and_unpauses(s: State)
    ensures
        s.admin is None ==> pause_step(s) == (s, Err::<(), Error>(Error::NotInitialized))
            && unpause_step(s) == (s, Err::<(), Error>(Error::NotInitialized)),
        s.admin is Some ==> {
            let asked = s.actions.push(Action::RequireAuth(s.admin->0));
            &&& s.paused == Some(true) ==> pause_step(s) == (
                State { actions: asked, ..s },
                Err::<(), Error>(Error::AlreadyCancelled),
            )
            &&& s.paused != Some(true) ==> pause_step(s) == (
                State {
                    paused: Some(true),
                    actions: asked.push(Action::Publish(Event::Paused)),
                    ..s
                },
                Ok::<(), Error>(()),
            )
            &&& s.paused == Some(true) ==> unpause_step(s) == (
                State {
                    paused: Some(false),
                    actions: asked.push(Action::Publish(Event::Unpaused)),
                    ..s
                },
                Ok::<(), Error>(()),
            )
            &&& s.paused != Some(true) ==> unpause_step(s) == (
                State { actions: asked, ..s },
                Err::<(), Error>(Error::NotAuthorized),
            )
        },
{
}

/// Users set their own vesting, and the admin that of anybody, up to a year of
/// seconds. It is told, and nothing else changes.
pub proof fn law_vesting_is_set_up_to_a_year(s: State, user: Address, vesting_duration: u64)
    ensures
        ({
            let set = s.user_vesting.insert(user, vesting_duration);
            let told = Action::Publish(Event::VestingConfigured { user, vesting_duration });
            let by_user = s.actions.push(Action::RequireAuth(user));
            let by_admin = s.actions.push(Action::RequireAuth(s.admin->0));
            &&& vesting_duration <= 31536000 ==> set_self_vesting_step(
                s,
                user,
                vesting_duration,
            ) == (
                State { user_vesting: set, actions: by_user.push(told), ..s },
                Ok::<(), Error>(()),
            )
            &&& vesting_duration > 31536000 ==> set_self_vesting_step(s, user, vesting_duration)
                == (
                State { actions: by_user, ..s },
                Err::<(), Error>(Error::InvalidVestingDuration),
            )
            &&& s.admin is None ==> set_user_vesting_step(s, user, vesting_duration) == (
                s,
                Err::<(), Error>(Error::NotInitialized),
            )
            &&& s.admin is Some && vesting_duration <= 31536000 ==> set_user_vesting_step(
                s,
                user,
                vesting_duration,
            ) == (
                State { user_vesting: set, actions: by_admin.push(told), ..s },
                Ok::<(), Error>(()),
            )
            &&& s.admin is Some && vesting_duration > 31536000 ==> set_user_vesting_step(
                s,
                user,
                vesting_duration,
            ) == (
                State { actions: by_admin, ..s },
                Err::<(), Error>(Error::InvalidVestingDuration),
            )
        }),
{
}

/// The relayers are those of the set, and a relayer that was never slashed was
/// slashed no times.
pub proof fn law_relayers_are_those_of_the_set(s: State, relayer: Address)
    ensures
        s.relayer_set matches Some(set) ==> relayers(s) == set,
        s.relayer_set is None ==> relayers(s).len() == 0,
        slash_count(s, relayer) == (if s.relayer_slash_counts.contains_key(relayer) {
            s.relayer_slash_counts[relayer]
        } else {
            0
        }),
{
}

/// There is room for one more relayer while the set and the quorum can count
/// one more, and for one less while the quorum counts any.
pub proof fn law_relayers_that_fit_come_and_go(s: State, relayer: Address)
    ensures
        (s.relayer_quorum matches Some(quorum) ==> quorum.total_relayers < u32::MAX) && (
        s.relayer_set matches Some(set) ==> set.len() < u32::MAX) ==> add_relayer_in_range(
            s,
            relayer,
        ),
        (s.relayer_quorum matches Some(quorum) ==> quorum.total_relayers > 0)
            ==> remove_relayer_in_range(s, relayer) && slash_relayer_in_range(s, relayer),
{
}

/// The admin adds a relayer that is not in the set, last, and the quorum counts
/// one relayer more. A first relayer comes to a quorum of one. Nothing else
/// changes.
pub proof fn law_relayers_are_added_last(s: State, relayer: Address)
    requires
        add_relayer_in_range(s, relayer),
    ensures
        ({
            let (t, result) = add_relayer_step(s, relayer);
            let set = match s.relayer_set {
                Some(set) => set,
                None => Seq::empty(),
            };
            let (required, total) = match s.relayer_quorum {
                Some(quorum) => (quorum.required_signatures, quorum.total_relayers),
                None => (1, 0),
            };
            if s.admin is None {
                result == Err::<(), Error>(Error::NotInitialized)
            } else if s.paused == Some(true) {
                result == Err::<(), Error>(Error::ContractPaused)
            } else if set.contains(relayer.id) {
                result == Err::<(), Error>(Error::RelayerNotAuthorized)
            } else {
                &&& result == Ok::<(), Error>(())
                &&& t == (State {
                    relayer_set: Some(set.push(relayer.id)),
                    relayer_quorum: Some(
                        RelayerQuorum {
                            required_signatures: required,
                            total_relayers: (total + 1) as u32,
                        },
                    ),
                    actions: s.actions.push(Action::RequireAuth(s.admin->0)).push(
                        Action::Publish(Event::RelayerAdded { relayer }),
                    ),
                    ..s
                })
            }
        }),
{
}

/// The admin removes a relayer: it leaves the set where it stands first, the
/// others keep their order, the quorum counts one relayer less and asks for no
/// more signatures than there are. Nothing else changes.
pub proof fn law_relayers_leave_where_they_stand(s: State, relayer: Address)
    requires
        remove_relayer_in_range(s, relayer),
    ensures
        ({
            let (t, result) = remove_relayer_step(s, relayer);
            let set = s.relayer_set->0;
            let quorum = s.relayer_quorum->0;
            if s.admin is None {
                result == Err::<(), Error>(Error::NotInitialized)
            } else if s.paused == Some(true) {
                result == Err::<(), Error>(Error::ContractPaused)
            } else if s.relayer_quorum is None || s.relayer_set is None {
                result == Err::<(), Error>(Error::NotInitialized)
            } else if !set.contains(relayer.id) {
                result == Err::<(), Error>(Error::RelayerNotAuthorized)
            } else {
                let left = t.relayer_quorum->0;
                &&& result == Ok::<(), Error>(())
                &&& exists|i: int|
                    #![trigger set[i]]
                    {
                        &&& 0 <= i < set.len()
                        &&& set[i] == relayer.id
                        &&& forall|j: int| 0 <= j < i ==> set[j] != relayer.id
                        &&& t.relayer_set == Some(set.remove(i))
                    }
                &&& t.relayer_quorum is Some
                &&& left.total_relayers == quorum.total_relayers - 1
                &&& quorum.required_signatures <= left.total_relayers ==> left.required_signatures
                    == quorum.required_signatures
                &&& quorum.required_signatures > left.total_relayers ==> left.required_signatures
                    == left.total_relayers
                &&& t == (State {
                    relayer_set: t.relayer_set,
                    relayer_quorum: t.relayer_quorum,
                    actions: s.actions.push(Action::RequireAuth(s.admin->0)).push(
                        Action::Publish(Event::RelayerRemoved { relayer }),
                    ),
                    ..s
                })
            }
        }),
{
    if s.relayer_set is Some {
        s.relayer_set->0.index_of_first_ensures(relayer.id);
    }
}

/// The admin says how many relayers have to have spoken: no more than there
/// are. Nothing else changes.
pub proof fn law_the_quorum_is_what_the_admin_says(s: State, required_signatures: u32)
    ensures
        ({
            let (t, result) = set_quorum_size_step(s, required_signatures);
            if s.admin is None {
                result == Err::<(), Error>(Error::NotInitialized)
            } else if s.paused == Some(true) {
                result == Err::<(), Error>(Error::ContractPaused)
            } else if s.relayer_quorum is None {
                result == Err::<(), Error>(Error::NotInitialized)
            } else if required_signatures > s.relayer_quorum->0.total_relayers {
                result == Err::<(), Error>(Error::InsufficientQuorum)
            } else {
                &&& result == Ok::<(), Error>(())
                &&& t == (State {
                    relayer_quorum: Some(
                        RelayerQuorum {
                            required_signatures,
                            total_relayers: s.relayer_quorum->0.total_relayers,
                        },
                    ),
                    actions: s.actions.push(Action::RequireAuth(s.admin->0)),
                    ..s
                })
            }
        }),
{
}

/// The first two slashes of a relayer are counted and told and change nothing
/// else; the third removes the relayer as the admin would, starts the count
/// over and is told.
pub proof fn law_the_third_slash_removes(s: State, relayer: Address, reason: String)
    requires
        slash_relayer_in_range(s, relayer),
    ensures
        ({
            let (t, result) = slash_relayer_step(s, relayer, reason);
            let (removed, removal) = remove_relayer_step(s, relayer);
            let count = if s.relayer_slash_counts.contains_key(relayer) {
                s.relayer_slash_counts[relayer]
            } else {
                0
            };
            let told = Action::Publish(Event::RelayerSlashed { relayer, reason });
            if s.admin is None || s.relayer_set is None {
                result == Err::<(), Error>(Error::NotInitialized)
            } else if !s.relayer_set->0.contains(relayer.id) {
                result == Err::<(), Error>(Error::RelayerNotAuthorized)
            } else if count < 2 {
                &&& result == Ok::<(), Error>(())
                &&& t == (State {
                    relayer_slash_counts: s.relayer_slash_counts.insert(
                        relayer,
                        (count + 1) as u32,
                    ),
                    actions: s.actions.push(Action::RequireAuth(s.admin->0)).push(told),
                    ..s
                })
            } else {
                &&& result == removal
                &&& result is Ok ==> t == (State {
                    relayer_slash_counts: s.relayer_slash_counts.insert(relayer, 0),
                    actions: removed.actions.push(told),
                    ..removed
                })
            }
        }),
{
}

} // verus!
