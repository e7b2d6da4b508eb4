//! What the lists of challenges, templates and log entries hold.

use vstd::prelude::*;

use crate::challenges::next_template_id;
use crate::context::State;
use crate::lists::all_numbers;
use crate::lists::i128_items;
use crate::lists::stake_items;
use crate::lists::stake_readings;
use crate::lists::u64_items;
use crate::lists::u64_readings;
use crate::queries::Filter;
use crate::queries::ascending;
use crate::queries::at_most;
use crate::queries::audit_log_count;
use crate::queries::audit_log_page;
use crate::queries::beyond;
use crate::queries::descending;
use crate::queries::lemma_filter_push;
use crate::queries::list_challenges_in_range;
use crate::queries::meets;
use crate::queries::page;
use crate::queries::page_of_matches;
use crate::queries::passed_over;
use crate::queries::says;
use crate::queries::selection;
use crate::queries::templates_of;
use crate::staking::payouts_view;
use crate::types::Address;
use crate::types::Error;

verus! {

/// Two falling sequences of the same numbers are the same.
proof fn lemma_falling_sequences_agree(a: Seq<u64>, b: Seq<u64>)
    requires
        forall|i: int, j: int| 0 <= i < j < a.len() ==> a[i] > a[j],
        forall|i: int, j: int| 0 <= i < j < b.len() ==> b[i] > b[j],
        forall|x: u64| a.contains(x) <==> b.contains(x),
    ensures
        a == b,
    decreases a.len(),
{
    if a.len() == 0 {
        if b.len() > 0 {
            assert(b.contains(b[0]));
        }
        assert(a =~= b);
    } else {
        assert(a.contains(a[0]));
        let j = choose|j: int| 0 <= j < b.len() && b[j] == a[0];
        assert(b.contains(b[0]));
        let i = choose|i: int| 0 <= i < a.len() && a[i] == b[0];
        assert(a[0] == b[0]);
        let a_rest = a.skip(1);
        let b_rest = b.skip(1);
        assert forall|x: u64| a_rest.contains(x) <==> b_rest.contains(x) by {
            if a_rest.contains(x) {
                let k = choose|k: int| 0 <= k < a_rest.len() && a_rest[k] == x;
                assert(a[k + 1] == x);
                assert(b.contains(x));
                let l = choose|l: int| 0 <= l < b.len() && b[l] == x;
                assert(b_rest[l - 1] == x);
            }
            if b_rest.contains(x) {
                let k = choose|k: int| 0 <= k < b_rest.len() && b_rest[k] == x;
                assert(b[k + 1] == x);
                assert(a.contains(x));
                let l = choose|l: int| 0 <= l < a.len() && a[l] == x;
                assert(a_rest[l - 1] == x);
            }
        }
        lemma_falling_sequences_agree(a_rest, b_rest);
        assert(a =~= seq![a[0]] + a_rest);
        assert(b =~= seq![b[0]] + b_rest);
    }
}

/// What is kept of the falling numbers falls, and is what should be kept.
proof fn lemma_kept_numbers_fall(high: int, low: int, keep: spec_fn(u64) -> bool)
    requires
        0 <= low <= high <= u64::MAX,
    ensures
        ({
            let kept = descending(high, low).filter(keep);
            &&& forall|i: int, j: int| 0 <= i < j < kept.len() ==> kept[i] > kept[j]
            &&& forall|x: u64| kept.contains(x) <==> low <= x < high && keep(x)
        }),
    decreases high - low,
{
    reveal(Seq::filter);
    if low == high {
        assert(descending(high, low) =~= Seq::<u64>::empty());
    } else {
        let before = descending(high, low + 1);
        let item = low as u64;
        lemma_kept_numbers_fall(high, low + 1, keep);
        assert(descending(high, low) =~= before.push(item));
        lemma_filter_push(before, item, keep);
        let kept = before.filter(keep);
        let grown = descending(high, low).filter(keep);
        assert forall|i: int| 0 <= i < kept.len() implies kept[i] > low by {
            assert(kept.contains(kept[i]));
        }
        assert forall|x: u64| grown.contains(x) <==> low <= x < high && keep(x) by {
            if grown.contains(x) {
                let k = choose|k: int| 0 <= k < grown.len() && grown[k] == x;
                if k < kept.len() {
                    assert(kept.contains(kept[k]));
                }
            }
            if low <= x < high && keep(x) {
                if x == item {
                    assert(grown[kept.len() as int] == x);
                } else {
                    assert(kept.contains(x));
                    let k = choose|k: int| 0 <= k < kept.len() && kept[k] == x;
                    assert(grown[k] == x);
                }
            }
        }
    }
}

/// A filter lets a challenge through that is what the filter names: in the
/// category, by the creator, of the status, staked in the token, or with a
/// condition of the kind, where 0 stands for the time a ledger takes to close, 1
/// for the number of transactions and 2 for the base fee.
pub proof fn law_filters_ask_for_what_they_name(
    s: State,
    id: u64,
    category: String,
    user: Address,
    resolved: bool,
    cancelled: bool,
    kind: u32,
)
    ensures
        meets(s, Filter::Any, id) <==> s.challenges.contains_key(id),
        meets(s, Filter::Category(category), id) <==> s.challenge_categories.contains_key(id)
            && s.challenge_categories[id] == category@,
        meets(s, Filter::Creator(user), id) <==> s.challenges.contains_key(id)
            && s.challenges[id].creator == user,
        meets(s, Filter::Status(resolved, cancelled), id) <==> s.challenges.contains_key(id) && (
        s.challenges[id].resolved <==> resolved) && (s.challenges[id].cancelled <==> cancelled),
        meets(s, Filter::Token(user), id) <==> s.challenges.contains_key(id)
            && s.challenges[id].token == user,
        meets(s, Filter::ConditionType(kind), id) <==> s.challenges.contains_key(id) && {
            ||| kind == 0 && s.challenges[id].condition is LedgerCloseUnder
            ||| kind == 1 && s.challenges[id].condition is TxCountAtLeast
            ||| kind == 2 && s.challenges[id].condition is BaseFeeAtLeast
        },
{
}

/// A list of challenges passes over the `offset` highest numbers that were given
/// out. Whatever sequence holds the challenges below those that a filter lets
/// through, the newest first and each once, the list is its first `limit` items,
/// or all of it where it has no more.
pub proof fn law_lists_hold_the_newest(
    s: State,
    filter: Filter,
    offset: u64,
    limit: u64,
    next_id: u64,
    all: Seq<u64>,
)
    requires
        s.next_challenge_id == Some(next_id),
        forall|i: int, j: int| 0 <= i < j < all.len() ==> all[i] > all[j],
        forall|id: u64| #[trigger]
            all.contains(id) <==> id + offset < next_id && meets(s, filter, id),
    ensures
        selection(s, filter, passed_over(next_id, offset), 0, limit as int) == (if all.len()
            <= limit {
            all
        } else {
            all.subrange(0, limit as int)
        }),
        limit <= u32::MAX ==> page(s, filter, offset, limit as u32) == Ok::<Seq<u64>, Error>(
            selection(s, filter, passed_over(next_id, offset), 0, limit as int),
        ),
        limit <= u32::MAX || all.len() <= u32::MAX ==> filter is Any ==> list_challenges_in_range(
            s,
            offset,
            limit,
        ),
{
    let keep = |id: u64| meets(s, filter, id);
    let high = passed_over(next_id, offset);
    let kept = descending(high, 0).filter(keep);
    lemma_kept_numbers_fall(high, 0, keep);
    assert forall|id: u64| all.contains(id) <==> kept.contains(id) by {
        assert(keep(id) == meets(s, filter, id));
    }
    lemma_falling_sequences_agree(all, kept);
    assert(filter is Any ==> filter == Filter::Any);
}

/// A list of the challenges that a filter lets through passes over the `offset`
/// newest of them. Whatever sequence holds all of them, the newest first and
/// each once, the list is what follows in it, up to `limit` items.
pub proof fn law_lists_of_matches_hold_the_newest_of_them(
    s: State,
    filter: Filter,
    offset: u64,
    limit: u32,
    next_id: u64,
    all: Seq<u64>,
)
    requires
        s.next_challenge_id == Some(next_id),
        forall|i: int, j: int| 0 <= i < j < all.len() ==> all[i] > all[j],
        forall|id: u64| #[trigger] all.contains(id) <==> id < next_id && meets(s, filter, id),
    ensures
        page_of_matches(s, filter, offset, limit) == Ok::<Seq<u64>, Error>(
            if all.len() <= offset {
                Seq::empty()
            } else if all.len() <= offset + limit {
                all.subrange(offset as int, all.len() as int)
            } else {
                all.subrange(offset as int, offset + limit)
            },
        ),
{
    let keep = |id: u64| meets(s, filter, id);
    let kept = descending(next_id as int, 0).filter(keep);
    lemma_kept_numbers_fall(next_id as int, 0, keep);
    assert forall|id: u64| all.contains(id) <==> kept.contains(id) by {
        assert(keep(id) == meets(s, filter, id));
    }
    lemma_falling_sequences_agree(all, kept);
    let found = page_of_matches(s, filter, offset, limit)->Ok_0;
    if all.len() <= offset {
        assert(found =~= Seq::<u64>::empty());
    } else if all.len() <= offset + limit {
        assert(found =~= all.subrange(offset as int, all.len() as int));
    } else {
        assert(found =~= all.subrange(offset as int, offset + limit));
    }
}

/// Before the market is set up there is nothing to list.
pub proof fn law_nothing_is_listed_before_the_start(
    s: State,
    filter: Filter,
    offset: u64,
    limit: u32,
    long: u64,
)
    requires
        s.next_challenge_id is None,
    ensures
        page(s, filter, offset, limit) == Err::<Seq<u64>, Error>(Error::NotInitialized),
        page_of_matches(s, filter, offset, limit) == Err::<Seq<u64>, Error>(Error::NotInitialized),
        list_challenges_in_range(s, offset, long),
{
}

/// What is kept of the rising numbers rises, and is what should be kept.
proof fn lemma_kept_numbers_rise(high: int, keep: spec_fn(u64) -> bool)
    requires
        0 <= high <= u64::MAX,
    ensures
        ({
            let kept = ascending(high).filter(keep);
            &&& forall|i: int, j: int| 0 <= i < j < kept.len() ==> kept[i] < kept[j]
            &&& forall|x: u64| kept.contains(x) <==> x < high && keep(x)
        }),
    decreases high,
{
    reveal(Seq::filter);
    if high == 0 {
        assert(ascending(high) =~= Seq::<u64>::empty());
    } else {
        let before = ascending(high - 1);
        let item = (high - 1) as u64;
        lemma_kept_numbers_rise(high - 1, keep);
        assert(ascending(high) =~= before.push(item));
        lemma_filter_push(before, item, keep);
        let kept = before.filter(keep);
        let grown = ascending(high).filter(keep);
        assert forall|i: int| 0 <= i < kept.len() implies kept[i] < item by {
            assert(kept.contains(kept[i]));
        }
        assert forall|x: u64| grown.contains(x) <==> x < high && keep(x) by {
            if grown.contains(x) {
                let k = choose|k: int| 0 <= k < grown.len() && grown[k] == x;
                if k < kept.len() {
                    assert(kept.contains(kept[k]));
                }
            }
            if x < high && keep(x) {
                if x == item {
                    assert(grown[kept.len() as int] == x);
                } else {
                    assert(kept.contains(x));
                    let k = choose|k: int| 0 <= k < kept.len() && kept[k] == x;
                    assert(grown[k] == x);
                }
            }
        }
    }
}

/// A user's list of templates holds the user's templates and no others, the
/// oldest first and each once.
pub proof fn law_templates_are_listed_oldest_first(s: State, creator: Address)
    ensures
        ({
            let ids = templates_of(s, creator, next_template_id(s) as int);
            let next_id = match s.next_template_id {
                Some(id) => id,
                None => 0,
            };
            &&& forall|i: int, j: int| 0 <= i < j < ids.len() ==> ids[i] < ids[j]
            &&& forall|id: u64| #[trigger]
                ids.contains(id) <==> id < next_id && s.templates.contains_key((id, creator))
        }),
{
    let keep = |id: u64| s.templates.contains_key((id, creator));
    lemma_kept_numbers_rise(next_template_id(s) as int, keep);
}

/// A page of the log of a challenge passes over the `offset` newest entries.
/// Whatever sequence holds the numbers of all the entries, the newest first and
/// each once, the page shows the entries that follow in it, up to `limit`.
pub proof fn law_pages_of_the_log_show_the_newest(
    s: State,
    challenge_id: u64,
    offset: u64,
    limit: u32,
    all: Seq<u64>,
)
    requires
        forall|i: int, j: int| 0 <= i < j < all.len() ==> all[i] > all[j],
        s.audit_log_counts.contains_key(challenge_id) ==> forall|id: u64| #[trigger]
            all.contains(id) <==> id < s.audit_log_counts[challenge_id] && s.audit_log.contains_key(
                (challenge_id, id),
            ),
        !s.audit_log_counts.contains_key(challenge_id) ==> all.len() == 0,
    ensures
        audit_log_count(s, challenge_id) == (if s.audit_log_counts.contains_key(challenge_id) {
            s.audit_log_counts[challenge_id]
        } else {
            0
        }),
        ({
            let entries = audit_log_page(s, challenge_id, offset, limit);
            &&& all.len() <= offset ==> entries.len() == 0
            &&& offset <= all.len() <= offset + limit ==> entries.len() == all.len() - offset
            &&& offset + limit <= all.len() ==> entries.len() == limit
            &&& forall|i: int|
                0 <= i < entries.len() ==> #[trigger] entries[i] == s.audit_log[(
                    challenge_id,
                    all[offset + i],
                )]
        }),
{
    let keep = |id: u64| s.audit_log.contains_key((challenge_id, id));
    let count = audit_log_count(s, challenge_id) as int;
    let kept = descending(count, 0).filter(keep);
    lemma_kept_numbers_fall(count, 0, keep);
    assert forall|id: u64| all.contains(id) <==> kept.contains(id) by {
        assert(keep(id) == s.audit_log.contains_key((challenge_id, id)));
    }
    lemma_falling_sequences_agree(all, kept);
    let ids = at_most(beyond(kept, offset as int), limit as int);
    let entries = audit_log_page(s, challenge_id, offset, limit);
    assert(entries.len() == ids.len());
    assert forall|i: int| 0 <= i < entries.len() implies entries[i] == s.audit_log[(
        challenge_id,
        all[offset + i],
    )] by {
        assert(ids[i] == all[offset + i]);
    }
}

/// A list of the host says what its items read as, in their order; every item of
/// a list that is an answer reads as the number it stands for.
pub proof fn law_lists_say_what_they_read_as(
    numbers: soroban_sdk::Vec<u64>,
    stakes: soroban_sdk::Vec<(u64, bool, i128)>,
    amounts: soroban_sdk::Vec<i128>,
    items: Seq<u64>,
    error: Error,
    other: Error,
)
    ensures
        says(Ok(numbers), Ok(items)) <==> u64_readings(numbers).len() == items.len() && forall|
            i: int,
        |
            0 <= i < items.len() ==> #[trigger] u64_readings(numbers)[i] == Some(items[i]),
        says(Err(error), Err(other)) <==> error == other,
        !says(Ok(numbers), Err(error)),
        !says(Err(error), Ok(items)),
        all_numbers(numbers) <==> forall|i: int|
            0 <= i < u64_readings(numbers).len() ==> #[trigger] u64_readings(numbers)[i] is Some,
        u64_items(numbers).len() == u64_readings(numbers).len(),
        forall|i: int|
            0 <= i < u64_readings(numbers).len() && u64_readings(numbers)[i] is Some
                ==> #[trigger] u64_readings(numbers)[i] == Some(u64_items(numbers)[i]),
        stake_items(stakes).len() == stake_readings(stakes).len(),
        forall|i: int|
            0 <= i < stake_readings(stakes).len() && stake_readings(stakes)[i] is Some
                ==> #[trigger] stake_readings(stakes)[i] == Some(stake_items(stakes)[i]),
        payouts_view(Ok(amounts)) == Ok::<Seq<i128>, Error>(i128_items(amounts)),
        payouts_view(Err(error)) == Err::<Seq<i128>, Error>(error),
{
    if u64_readings(numbers).len() == items.len() && forall|i: int|
        0 <= i < items.len() ==> #[trigger] u64_readings(numbers)[i] == Some(items[i]) {
        assert(u64_items(numbers) =~= items);
    }
    if says(Ok(numbers), Ok(items)) {
        assert forall|i: int| 0 <= i < items.len() implies #[trigger] u64_readings(numbers)[i]
            == Some(items[i]) by {
            assert(u64_items(numbers)[i] == items[i]);
        }
    }
}

} // verus!
