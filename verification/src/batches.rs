//! What several stakes or claims at once come to: what they would come to one
//! after the other, with one authorization for all of them.

use vstd::prelude::*;

use crate::context::State;
use crate::staking::batch_claim_in_range;
use crate::staking::batch_claim_reads;
use crate::staking::batch_claim_step;
use crate::staking::batch_stake_in_range;
use crate::staking::batch_stake_reads;
use crate::staking::batch_stake_step;
use crate::staking::claim_in_range;
use crate::staking::claim_step;
use crate::staking::claims_in_range;
use crate::staking::claims_paid_in_turn;
use crate::staking::claims_read;
use crate::staking::placement;
use crate::staking::settlement;
use crate::staking::stake_in_range;
use crate::staking::stake_step;
use crate::staking::stakes_in_range;
use crate::staking::stakes_placed_in_turn;
use crate::staking::stakes_read;
use crate::types::Action;
use crate::types::Address;
use crate::types::Error;

verus! {

/// One more stake at the end.
proof fn lemma_one_more_stake(
    s: State,
    who: Address,
    stakes: Seq<(u64, bool, i128)>,
    last: (u64, bool, i128),
)
    ensures
        ({
            let (t, result) = stakes_placed_in_turn(s, who, stakes);
            &&& stakes_placed_in_turn(s, who, stakes.push(last)) == (if result is Ok {
                placement(t, who, last.0, last.1, last.2)
            } else {
                (t, result)
            })
            &&& stakes_in_range(s, who, stakes.push(last)) <==> stakes_in_range(s, who, stakes) && (
            result is Ok ==> stake_in_range(t, who, last.0, last.1, last.2))
            &&& t.paused == s.paused
        }),
    decreases stakes.len(),
{
    let more = stakes.push(last);
    if stakes.len() == 0 {
        reveal_with_fuel(stakes_placed_in_turn, 2);
        reveal_with_fuel(stakes_in_range, 2);
        assert(more[0] == last);
        assert(more.skip(1) =~= Seq::<(u64, bool, i128)>::empty());
    } else {
        let (challenge_id, side_yes, amount) = stakes[0];
        let after = placement(s, who, challenge_id, side_yes, amount).0;
        assert(more[0] == stakes[0]);
        assert(more.skip(1) =~= stakes.skip(1).push(last));
        lemma_one_more_stake(after, who, stakes.skip(1), last);
    }
}

/// An authorization changes nothing but what the host is asked.
proof fn lemma_stakes_do_not_look_back(
    t: State,
    who: Address,
    challenge_id: u64,
    side_yes: bool,
    amount: i128,
)
    ensures
        ({
            let (u, single) = stake_step(t, who, challenge_id, side_yes, amount);
            let (v, result) = placement(t, who, challenge_id, side_yes, amount);
            &&& result == single
            &&& v == (State { actions: v.actions, ..u })
            &&& u.actions.len() > t.actions.len()
            &&& v.actions =~= t.actions + u.actions.skip(t.actions.len() as int + 1)
        }),
{
}

/// Several stakes at once are placed one after the other until one is refused,
/// which ends it: with one more at the end, a batch comes to what it came to
/// before where that was a refusal, else to that stake on top of it. The user is
/// asked once, and a market that is paused takes none.
pub proof fn law_batches_stake_one_after_the_other(
    s: State,
    who: Address,
    stakes: Seq<(u64, bool, i128)>,
    last: (u64, bool, i128),
)
    ensures
        s.paused == Some(true) ==> {
            &&& batch_stake_step(s, who, stakes) == (
                State { actions: s.actions.push(Action::RequireAuth(who)), ..s },
                Err::<(), Error>(Error::ContractPaused),
            )
            &&& batch_stake_in_range(s, who, stakes)
        },
        s.paused != Some(true) ==> {
            let (t, result) = batch_stake_step(s, who, stakes);
            let (v, more) = batch_stake_step(s, who, stakes.push(last));
            let (u, single) = stake_step(t, who, last.0, last.1, last.2);
            &&& stakes.len() == 0 ==> {
                &&& (t, result) == (
                    State { actions: s.actions.push(Action::RequireAuth(who)), ..s },
                    Ok::<(), Error>(()),
                )
                &&& batch_stake_in_range(s, who, stakes)
            }
            &&& result is Err ==> (v, more) == (t, result)
            &&& result is Ok ==> {
                &&& more == single
                &&& v == (State { actions: v.actions, ..u })
                &&& v.actions == t.actions + u.actions.skip(t.actions.len() as int + 1)
            }
            &&& batch_stake_in_range(s, who, stakes.push(last)) <==> batch_stake_in_range(
                s,
                who,
                stakes,
            ) && (result is Ok ==> stake_in_range(t, who, last.0, last.1, last.2))
        },
{
    let asked = State { actions: s.actions.push(Action::RequireAuth(who)), ..s };
    lemma_one_more_stake(asked, who, stakes, last);
    let t = batch_stake_step(s, who, stakes).0;
    lemma_stakes_do_not_look_back(t, who, last.0, last.1, last.2);
}

/// A list of stakes that can all be read can be read.
proof fn lemma_readable_stakes_are_read(
    s: State,
    who: Address,
    stakes: Seq<Option<(u64, bool, i128)>>,
)
    requires
        forall|i: int| 0 <= i < stakes.len() ==> #[trigger] stakes[i] is Some,
    ensures
        stakes_read(s, who, stakes),
    decreases stakes.len(),
{
    if stakes.len() > 0 {
        assert(stakes[0] is Some);
        let (challenge_id, side_yes, amount) = stakes[0]->0;
        let after = placement(s, who, challenge_id, side_yes, amount).0;
        assert forall|i: int| 0 <= i < stakes.skip(1).len() implies #[trigger] stakes.skip(
            1,
        )[i] is Some by {
            assert(stakes[i + 1] is Some);
        }
        lemma_readable_stakes_are_read(after, who, stakes.skip(1));
    }
}

/// A list of claims that can all be read can be read.
proof fn lemma_readable_claims_are_read(s: State, who: Address, challenge_ids: Seq<Option<u64>>)
    requires
        forall|i: int| 0 <= i < challenge_ids.len() ==> #[trigger] challenge_ids[i] is Some,
    ensures
        claims_read(s, who, challenge_ids),
    decreases challenge_ids.len(),
{
    if challenge_ids.len() > 0 {
        assert(challenge_ids[0] is Some);
        let after = settlement(s, who, challenge_ids[0]->0).0;
        assert forall|i: int| 0 <= i < challenge_ids.skip(1).len() implies #[trigger] challenge_ids.skip(
            1,
        )[i] is Some by {
            assert(challenge_ids[i + 1] is Some);
        }
        lemma_readable_claims_are_read(after, who, challenge_ids.skip(1));
    }
}

/// A list whose items all read as what they should be is taken.
pub proof fn law_readable_batches_are_taken(
    s: State,
    who: Address,
    stakes: Seq<Option<(u64, bool, i128)>>,
    challenge_ids: Seq<Option<u64>>,
)
    requires
        forall|i: int| 0 <= i < stakes.len() ==> #[trigger] stakes[i] is Some,
        forall|i: int| 0 <= i < challenge_ids.len() ==> #[trigger] challenge_ids[i] is Some,
    ensures
        batch_stake_reads(s, who, stakes),
        batch_claim_reads(s, who, challenge_ids),
{
    let asked = s.asking(Action::RequireAuth(who));
    lemma_readable_stakes_are_read(asked, who, stakes);
    lemma_readable_claims_are_read(asked, who, challenge_ids);
}

/// One more claim at the end.
proof fn lemma_one_more_claim(s: State, who: Address, challenge_ids: Seq<u64>, last: u64)
    ensures
        ({
            let (t, result) = claims_paid_in_turn(s, who, challenge_ids);
            let (u, single) = settlement(t, who, last);
            &&& claims_paid_in_turn(s, who, challenge_ids.push(last)) == (match result {
                Err(error) => (t, Err::<Seq<i128>, Error>(error)),
                Ok(payouts) => (
                    u,
                    match single {
                        Err(error) => Err::<Seq<i128>, Error>(error),
                        Ok(payout) => Ok::<Seq<i128>, Error>(payouts.push(payout)),
                    },
                ),
            })
            &&& claims_in_range(s, who, challenge_ids.push(last)) <==> claims_in_range(
                s,
                who,
                challenge_ids,
            ) && (result is Ok ==> claim_in_range(t, who, last))
        }),
    decreases challenge_ids.len(),
{
    let more = challenge_ids.push(last);
    if challenge_ids.len() == 0 {
        reveal_with_fuel(claims_paid_in_turn, 2);
        reveal_with_fuel(claims_in_range, 2);
        assert(more[0] == last);
        assert(more.skip(1) =~= Seq::<u64>::empty());
        assert(forall|payout: i128|
            #![trigger seq![payout]]
            seq![payout] + Seq::<i128>::empty() =~= Seq::<i128>::empty().push(payout));
    } else {
        let (after, first) = settlement(s, who, challenge_ids[0]);
        assert(more[0] == challenge_ids[0]);
        assert(more.skip(1) =~= challenge_ids.skip(1).push(last));
        lemma_one_more_claim(after, who, challenge_ids.skip(1), last);
        let (t, rest) = claims_paid_in_turn(after, who, challenge_ids.skip(1));
        let single = settlement(t, who, last).1;
        if first is Ok && rest is Ok && single is Ok {
            assert(seq![first->Ok_0] + rest->Ok_0.push(single->Ok_0) =~= (seq![first->Ok_0]
                + rest->Ok_0).push(single->Ok_0));
        }
    }
}

/// An authorization changes nothing but what the host is asked.
proof fn lemma_claims_do_not_look_back(t: State, who: Address, challenge_id: u64)
    ensures
        ({
            let (u, single) = claim_step(t, who, challenge_id);
            let (v, result) = settlement(t, who, challenge_id);
            &&& result == single
            &&& v == (State { actions: v.actions, ..u })
            &&& u.actions.len() > t.actions.len()
            &&& v.actions =~= t.actions + u.actions.skip(t.actions.len() as int + 1)
        }),
{
}

/// Several claims at once are paid one after the other until one is refused,
/// which ends it: with one more at the end, a batch comes to what it came to
/// before where that was a refusal, else to that claim on top of it, and its
/// payout stands last. The user is asked once.
pub proof fn law_batches_claim_one_after_the_other(
    s: State,
    who: Address,
    challenge_ids: Seq<u64>,
    last: u64,
)
    ensures
        ({
            let (t, result) = batch_claim_step(s, who, challenge_ids);
            let (v, more) = batch_claim_step(s, who, challenge_ids.push(last));
            let (u, single) = claim_step(t, who, last);
            &&& challenge_ids.len() == 0 ==> {
                &&& t == (State { actions: s.actions.push(Action::RequireAuth(who)), ..s })
                &&& result == Ok::<Seq<i128>, Error>(Seq::empty())
                &&& batch_claim_in_range(s, who, challenge_ids)
            }
            &&& result is Err ==> (v, more) == (t, result)
            &&& result is Ok ==> {
                &&& more is Ok <==> single is Ok
                &&& single is Err ==> more->Err_0 == single->Err_0
                &&& single is Ok ==> more->Ok_0 == result->Ok_0.push(single->Ok_0)
                &&& v == (State { actions: v.actions, ..u })
                &&& v.actions == t.actions + u.actions.skip(t.actions.len() as int + 1)
            }
            &&& batch_claim_in_range(s, who, challenge_ids.push(last)) <==> batch_claim_in_range(
                s,
                who,
                challenge_ids,
            ) && (result is Ok ==> claim_in_range(t, who, last))
        }),
{
    let asked = State { actions: s.actions.push(Action::RequireAuth(who)), ..s };
    lemma_one_more_claim(asked, who, challenge_ids, last);
    let t = batch_claim_step(s, who, challenge_ids).0;
    lemma_claims_do_not_look_back(t, who, last);
}

} // verus!
