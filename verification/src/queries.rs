//! Looking challenges, templates and log entries up.

use vstd::prelude::*;

use crate::challenges::next_template_id;
use crate::context::Context;
use crate::context::State;
use crate::lists::all_numbers;
use crate::lists::u64_items;
use crate::market::ChallengeMarket;
use crate::numbers::Numbers;
use crate::types::Address;
use crate::types::AuditLogEntry;
use crate::types::AuditLogEntryView;
use crate::types::Condition;
use crate::types::Error;

verus! {

/// The numbers from `low` up to but not including `high`, the highest first.
pub open spec fn descending(high: int, low: int) -> Seq<u64> {
    Seq::new(
        if low < high {
            (high - low) as nat
        } else {
            0
        },
        |i: int| (high - 1 - i) as u64,
    )
}

/// The numbers below `high`, the lowest first.
pub open spec fn ascending(high: int) -> Seq<u64> {
    Seq::new(high as nat, |i: int| i as u64)
}

/// The first items of a sequence, `limit` of them if there are so many.
pub open spec fn at_most(items: Seq<u64>, limit: int) -> Seq<u64> {
    if items.len() <= limit {
        items
    } else {
        items.take(limit)
    }
}

/// What is left of a sequence when the first `count` items are passed over.
pub open spec fn beyond(items: Seq<u64>, count: int) -> Seq<u64> {
    if count <= items.len() {
        items.skip(count)
    } else {
        Seq::empty()
    }
}

/// What is asked of a challenge.
pub enum Filter {
    Any,
    Category(String),
    Creator(Address),
    /// Whether it is resolved, and whether it is cancelled.
    Status(bool, bool),
    Token(Address),
    /// The number of the kind of its condition.
    ConditionType(u32),
}

/// The number of the kind of a condition.
pub open spec fn condition_type(condition: Condition) -> u32 {
    match condition {
        Condition::LedgerCloseUnder(_) => 0,
        Condition::TxCountAtLeast(_) => 1,
        Condition::BaseFeeAtLeast(_) => 2,
    }
}

/// A number is that of a challenge that is as it is asked to be.
pub open spec fn meets(s: State, filter: Filter, id: u64) -> bool {
    match filter {
        Filter::Any => s.challenges.contains_key(id),
        Filter::Category(category) => s.challenge_categories.contains_key(id)
            && s.challenge_categories[id] == category@,
        Filter::Creator(creator) => s.challenges.contains_key(id) && s.challenges[id].creator
            == creator,
        Filter::Status(resolved, cancelled) => s.challenges.contains_key(id)
            && s.challenges[id].resolved == resolved && s.challenges[id].cancelled == cancelled,
        Filter::Token(token) => s.challenges.contains_key(id) && s.challenges[id].token == token,
        Filter::ConditionType(kind) => s.challenges.contains_key(id) && condition_type(
            s.challenges[id].condition,
        ) == kind,
    }
}

/// The challenges from `low` up to but not including `high` that are as they
/// are asked to be, the newest first, at most `limit`.
pub open spec fn selection(s: State, filter: Filter, high: int, low: int, limit: int) -> Seq<u64> {
    at_most(descending(high, low).filter(|id: u64| meets(s, filter, id)), limit)
}

/// The challenges that are as they are asked to be, the newest first, at most
/// `limit`, when the `offset` newest of them are passed over.
pub open spec fn matches_beyond(
    s: State,
    filter: Filter,
    high: int,
    offset: int,
    limit: int,
) -> Seq<u64> {
    at_most(
        beyond(descending(high, 0).filter(|id: u64| meets(s, filter, id)), offset),
        limit,
    )
}

/// The numbers that are left when the `offset` newest challenges are passed
/// over lie below this one.
pub open spec fn passed_over(next_id: u64, offset: u64) -> int {
    if next_id > offset {
        next_id - offset
    } else {
        0
    }
}

/// A list of challenges is no longer than a list of the host can be.
pub open spec fn list_challenges_in_range(s: State, offset: u64, limit: u64) -> bool {
    s.next_challenge_id matches Some(next_id) ==> selection(
        s,
        Filter::Any,
        passed_over(next_id, offset),
        0,
        limit as int,
    ).len() <= u32::MAX
}

/// The templates of a user below a number, the oldest first.
pub open spec fn templates_of(s: State, creator: Address, below: int) -> Seq<u64> {
    ascending(below).filter(|id: u64| s.templates.contains_key((id, creator)))
}

/// There are no fewer templates below a greater number.
pub proof fn lemma_templates_grow(s: State, creator: Address, low: int, high: int)
    requires
        0 <= low <= high,
    ensures
        templates_of(s, creator, low).len() <= templates_of(s, creator, high).len(),
    decreases high,
{
    if low < high {
        let keep = |id: u64| s.templates.contains_key((id, creator));
        lemma_templates_grow(s, creator, low, high - 1);
        assert(ascending(high) =~= ascending(high - 1).push((high - 1) as u64));
        lemma_filter_push(ascending(high - 1), (high - 1) as u64, keep);
    }
}

/// The answer to a request for a list: the numbers in it, each of them one, or
/// the error.
pub open spec fn says(
    result: Result<soroban_sdk::Vec<u64>, Error>,
    expected: Result<Seq<u64>, Error>,
) -> bool {
    match (result, expected) {
        (Ok(ids), Ok(items)) => all_numbers(ids) && u64_items(ids) == items,
        (Err(error), Err(other)) => error == other,
        _ => false,
    }
}

/// The page of challenges that are as they are asked to be: the `offset`
/// newest challenges are passed over, whether they are so or not.
pub open spec fn page(s: State, filter: Filter, offset: u64, limit: u32) -> Result<
    Seq<u64>,
    Error,
> {
    match s.next_challenge_id {
        Some(next_id) => Ok(
            selection(s, filter, passed_over(next_id, offset), 0, limit as int),
        ),
        None => Err(Error::NotInitialized),
    }
}

/// The page of challenges that are as they are asked to be: the `offset`
/// newest of those are passed over.
pub open spec fn page_of_matches(s: State, filter: Filter, offset: u64, limit: u32) -> Result<
    Seq<u64>,
    Error,
> {
    match s.next_challenge_id {
        Some(next_id) => Ok(
            matches_beyond(s, filter, next_id as int, offset as int, limit as int),
        ),
        None => Err(Error::NotInitialized),
    }
}

/// Whether a challenge is as it is asked to be.
fn meets_filter(ctx: &Context, filter: &Filter, id: u64) -> (met: bool)
    ensures
        met == meets(ctx@, *filter, id),
{
    if let Filter::Category(category) = filter {
        return match ctx.challenge_categories.get(&id) {
            Some(challenge_category) => *challenge_category == *category,
            None => false,
        };
    }
    match ctx.challenges.get(&id) {
        Some(challenge) => match filter {
            Filter::Any => true,
            Filter::Category(_) => false,
            Filter::Creator(creator) => challenge.creator == *creator,
            Filter::Status(resolved, cancelled) => challenge.resolved == *resolved
                && challenge.cancelled == *cancelled,
            Filter::Token(token) => challenge.token == *token,
            Filter::ConditionType(kind) => match challenge.condition {
                Condition::LedgerCloseUnder(_) => *kind == 0,
                Condition::TxCountAtLeast(_) => *kind == 1,
                Condition::BaseFeeAtLeast(_) => *kind == 2,
            },
        },
        None => false,
    }
}

/// Filtering one more item keeps it or not.
pub proof fn lemma_filter_push(items: Seq<u64>, item: u64, keep: spec_fn(u64) -> bool)
    ensures
        items.push(item).filter(keep) == (if keep(item) {
            items.filter(keep).push(item)
        } else {
            items.filter(keep)
        }),
{
    reveal(Seq::filter);
    assert(items.push(item).drop_last() =~= items);
}

/// What is found first stays first when the search goes on.
proof fn lemma_filter_prefix(high: int, middle: int, low: int, keep: spec_fn(u64) -> bool)
    requires
        0 <= low <= middle <= high,
    ensures
        descending(high, middle).filter(keep).len() <= descending(high, low).filter(keep).len(),
        descending(high, middle).filter(keep) == descending(high, low).filter(keep).take(
            descending(high, middle).filter(keep).len() as int,
        ),
{
    let first = descending(high, middle);
    let rest = descending(middle, low);
    assert(descending(high, low) =~= first + rest);
    Seq::filter_distributes_over_add(first, rest, keep);
    assert((first.filter(keep) + rest.filter(keep)).take(first.filter(keep).len() as int)
        =~= first.filter(keep));
}

/// Where nothing is passed over, everything is left.
proof fn lemma_nothing_passed_over(s: State, filter: Filter, high: int, limit: int)
    ensures
        matches_beyond(s, filter, high, 0, limit) == selection(s, filter, high, 0, limit),
{
    let all = descending(high, 0).filter(|id: u64| meets(s, filter, id));
    assert(beyond(all, 0) =~= all);
}

/// Collects the challenges below `high` that are as they are asked to be, the
/// newest first, when the `offset` newest of them are passed over.
fn select(ctx: &Context, filter: &Filter, high: u64, offset: u64, limit: u64) -> (ids: Numbers)
    requires
        matches_beyond(ctx@, *filter, high as int, offset as int, limit as int).len() <= u32::MAX,
    ensures
        ids@ == matches_beyond(ctx@, *filter, high as int, offset as int, limit as int),
{
    let ghost keep = |id: u64| meets(ctx@, *filter, id);
    let ghost all = descending(high as int, 0).filter(keep);
    let mut ids: Numbers = Numbers::new(&ctx.host);
    let mut count: u64 = 0;
    let mut skipped: u64 = 0;
    let mut next: u64 = high;
    let ghost mut found = Seq::<u64>::empty();
    proof {
        reveal(Seq::filter);
        assert(descending(high as int, high as int) =~= Seq::<u64>::empty());
        assert(descending(high as int, high as int).filter(keep) =~= Seq::<u64>::empty());
        assert(beyond(found, offset as int) =~= Seq::<u64>::empty());
    }
    while next > 0 && count < limit
        invariant
            next <= high,
            matches_beyond(ctx@, *filter, high as int, offset as int, limit as int).len()
                <= u32::MAX,
            keep == (|id: u64| meets(ctx@, *filter, id)),
            all == descending(high as int, 0).filter(keep),
            found == descending(high as int, next as int).filter(keep),
            skipped == (if found.len() < offset {
                found.len() as int
            } else {
                offset as int
            }),
            count == ids@.len(),
            count <= limit,
            ids@ == beyond(found, offset as int),
        decreases next,
    {
        proof {
            assert(descending(high as int, next - 1) =~= descending(
                high as int,
                next as int,
            ).push((next - 1) as u64));
            lemma_filter_push(descending(high as int, next as int), (next - 1) as u64, keep);
            lemma_filter_prefix(high as int, next - 1, 0, keep);
        }
        next = next - 1;
        if meets_filter(ctx, filter, next) {
            proof {
                let grown = found.push(next);
                if found.len() < offset {
                    assert(beyond(grown, offset as int) =~= Seq::<u64>::empty());
                } else {
                    assert(beyond(grown, offset as int) =~= beyond(found, offset as int).push(
                        next,
                    ));
                    assert(grown.len() <= all.len());
                }
                found = grown;
            }
            if skipped < offset {
                skipped = skipped + 1;
            } else {
                ids.push_back(next);
                count = count + 1;
            }
        }
    }
    proof {
        lemma_filter_prefix(high as int, next as int, 0, keep);
        let wanted = beyond(all, offset as int);
        if next > 0 && wanted.len() > 0 {
            assert(wanted.take(count as int) =~= ids@);
            if wanted.len() <= limit {
                assert(wanted.take(count as int) =~= wanted);
            }
        } else if next > 0 {
            assert(ids@ =~= wanted);
        }
    }
    ids
}

impl ChallengeMarket {
    /// Lists the challenges, the newest first, when the `offset` newest are
    /// passed over.
    pub fn list_challenges(ctx: &Context, offset: u64, limit: u64) -> (result: Result<
        soroban_sdk::Vec<u64>,
        Error,
    >)
        requires
            list_challenges_in_range(ctx@, offset, limit),
        ensures
            says(
                result,
                match ctx@.next_challenge_id {
                    Some(next_id) => Ok(
                        selection(
                            ctx@,
                            Filter::Any,
                            passed_over(next_id, offset),
                            0,
                            limit as int,
                        ),
                    ),
                    None => Err(Error::NotInitialized),
                },
            ),
    {
        match ctx.next_challenge_id {
            Some(next_id) => {
                let high: u64 = next_id.saturating_sub(offset);
                proof {
                    lemma_nothing_passed_over(ctx@, Filter::Any, high as int, limit as int);
                }
                Ok(select(ctx, &Filter::Any, high, 0, limit).into_list())
            },
            None => Err(Error::NotInitialized),
        }
    }

    /// A page of what a filter lets through.
    fn select_page(ctx: &Context, filter: &Filter, offset: u64, limit: u32) -> (result: Result<
        soroban_sdk::Vec<u64>,
        Error,
    >)
        ensures
            says(result, page(ctx@, *filter, offset, limit)),
    {
        match ctx.next_challenge_id {
            Some(next_id) => {
                let high: u64 = next_id.saturating_sub(offset);
                proof {
                    lemma_nothing_passed_over(ctx@, *filter, high as int, limit as int);
                }
                Ok(select(ctx, filter, high, 0, limit as u64).into_list())
            },
            None => Err(Error::NotInitialized),
        }
    }

    /// A page of the challenges that a filter lets through, by their own
    /// count.
    fn select_matches(ctx: &Context, filter: &Filter, offset: u64, limit: u32) -> (result: Result<
        soroban_sdk::Vec<u64>,
        Error,
    >)
        ensures
            says(result, page_of_matches(ctx@, *filter, offset, limit)),
    {
        match ctx.next_challenge_id {
            Some(next_id) => Ok(select(ctx, filter, next_id, offset, limit as u64).into_list()),
            None => Err(Error::NotInitialized),
        }
    }

    /// Lists the challenges of a category, the newest first, when the `offset`
    /// newest of them are passed over.
    pub fn list_challenges_by_category(
        ctx: &Context,
        category: String,
        offset: u64,
        limit: u32,
    ) -> (result: Result<soroban_sdk::Vec<u64>, Error>)
        ensures
            says(result, page_of_matches(ctx@, Filter::Category(category), offset, limit)),
    {
        Self::select_matches(ctx, &Filter::Category(category), offset, limit)
    }

    /// Lists the challenges of a creator, the newest first, when the `offset`
    /// newest of them are passed over.
    pub fn list_challenges_by_creator(
        ctx: &Context,
        creator: Address,
        offset: u64,
        limit: u32,
    ) -> (result: Result<soroban_sdk::Vec<u64>, Error>)
        ensures
            says(result, page_of_matches(ctx@, Filter::Creator(creator), offset, limit)),
    {
        Self::select_matches(ctx, &Filter::Creator(creator), offset, limit)
    }

    /// Lists the challenges that are resolved or not, and cancelled or not.
    pub fn search_challenges_by_status(
        ctx: &Context,
        resolved: bool,
        cancelled: bool,
        offset: u64,
        limit: u32,
    ) -> (result: Result<soroban_sdk::Vec<u64>, Error>)
        ensures
            says(result, page(ctx@, Filter::Status(resolved, cancelled), offset, limit)),
    {
        Self::select_page(ctx, &Filter::Status(resolved, cancelled), offset, limit)
    }

    /// Lists the challenges that are staked in a token.
    pub fn search_challenges_by_token(
        ctx: &Context,
        token: Address,
        offset: u64,
        limit: u32,
    ) -> (result: Result<soroban_sdk::Vec<u64>, Error>)
        ensures
            says(result, page(ctx@, Filter::Token(token), offset, limit)),
    {
        Self::select_page(ctx, &Filter::Token(token), offset, limit)
    }

    /// Lists the challenges whose condition is of a kind: the time a ledger
    /// takes to close (0), the number of transactions (1), the base fee (2).
    pub fn search_challenges_by_condition(
        ctx: &Context,
        condition_type: u32,
        offset: u64,
        limit: u32,
    ) -> (result: Result<soroban_sdk::Vec<u64>, Error>)
        ensures
            says(result, page(ctx@, Filter::ConditionType(condition_type), offset, limit)),
    {
        Self::select_page(ctx, &Filter::ConditionType(condition_type), offset, limit)
    }

    /// Lists the templates of a user, the oldest first.
    pub fn list_user_templates(ctx: &Context, creator: Address) -> (result: Result<
        soroban_sdk::Vec<u64>,
        Error,
    >)
        requires
            templates_of(ctx@, creator, next_template_id(ctx@) as int).len() <= u32::MAX,
        ensures
            says(result, Ok(templates_of(ctx@, creator, next_template_id(ctx@) as int))),
    {
        let ghost keep = |id: u64| ctx@.templates.contains_key((id, creator));
        let next_id: u64 = match ctx.next_template_id {
            Some(id) => id,
            None => 0,
        };
        let mut ids: Numbers = Numbers::new(&ctx.host);
        let mut id: u64 = 0;
        proof {
            reveal(Seq::filter);
            assert(ascending(0) =~= Seq::<u64>::empty());
            assert(ascending(0).filter(keep) =~= Seq::<u64>::empty());
        }
        while id < next_id
            invariant
                id <= next_id,
                templates_of(ctx@, creator, next_id as int).len() <= u32::MAX,
                keep == (|id: u64| ctx@.templates.contains_key((id, creator))),
                ids@ == ascending(id as int).filter(keep),
            decreases next_id - id,
        {
            proof {
                assert(ascending(id + 1) =~= ascending(id as int).push(id));
                lemma_filter_push(ascending(id as int), id, keep);
                lemma_templates_grow(ctx@, creator, id + 1, next_id as int);
            }
            if ctx.templates.contains_key(&(id, creator)) {
                ids.push_back(id);
            }
            id = id + 1;
        }
        Ok(ids.into_list())
    }

    /// An entry of the log of a challenge.
    pub fn get_audit_log_entry(ctx: &Context, challenge_id: u64, entry_id: u64) -> (entry: Option<
        AuditLogEntry,
    >)
        ensures
            match entry {
                Some(entry) => ctx@.audit_log.contains_key((challenge_id, entry_id)) && entry@
                    == ctx@.audit_log[(challenge_id, entry_id)],
                None => !ctx@.audit_log.contains_key((challenge_id, entry_id)),
            },
    {
        match ctx.audit_log.get(&(challenge_id, entry_id)) {
            Some(entry) => Some(entry.clone()),
            None => None,
        }
    }

    /// How many entries the log of a challenge has.
    pub fn get_audit_log_count(ctx: &Context, challenge_id: u64) -> (count: u32)
        ensures
            count == audit_log_count(ctx@, challenge_id),
    {
        match ctx.audit_log_counts.get(&challenge_id) {
            Some(count) => *count,
            None => 0,
        }
    }

    /// The entries of the log of a challenge, the newest first, when the
    /// `offset` newest are passed over.
    pub fn get_audit_log_entries(ctx: &Context, challenge_id: u64, offset: u64, limit: u32) -> (result:
        Result<Vec<AuditLogEntry>, Error>)
        ensures
            result matches Ok(entries) && entries@.map_values(|entry: AuditLogEntry| entry@)
                == audit_log_page(ctx@, challenge_id, offset, limit),
    {
        let ghost keep = |id: u64| ctx@.audit_log.contains_key((challenge_id, id));
        let ghost read = |id: u64| ctx@.audit_log[(challenge_id, id)];
        let ghost shown = |entry: AuditLogEntry| entry@;
        let count: u64 = Self::get_audit_log_count(ctx, challenge_id) as u64;
        let ghost all = descending(count as int, 0).filter(keep);
        let mut entries: Vec<AuditLogEntry> = Vec::new();
        let mut collected: u32 = 0;
        let mut skipped: u64 = 0;
        let mut next: u64 = count;
        let ghost mut found = Seq::<u64>::empty();
        proof {
            reveal(Seq::filter);
            assert(descending(count as int, count as int) =~= Seq::<u64>::empty());
            assert(descending(count as int, count as int).filter(keep) =~= Seq::<u64>::empty());
            assert(beyond(found, offset as int) =~= Seq::<u64>::empty());
            assert(entries@.map_values(shown) =~= beyond(found, offset as int).map_values(read));
        }
        while next > 0 && collected < limit
            invariant
                next <= count,
                keep == (|id: u64| ctx@.audit_log.contains_key((challenge_id, id))),
                read == (|id: u64| ctx@.audit_log[(challenge_id, id)]),
                shown == (|entry: AuditLogEntry| entry@),
                found == descending(count as int, next as int).filter(keep),
                skipped == (if found.len() < offset {
                    found.len() as int
                } else {
                    offset as int
                }),
                collected == beyond(found, offset as int).len(),
                collected <= limit,
                entries@.map_values(shown) == beyond(found, offset as int).map_values(read),
            decreases next,
        {
            proof {
                assert(descending(count as int, next - 1) =~= descending(
                    count as int,
                    next as int,
                ).push((next - 1) as u64));
                lemma_filter_push(descending(count as int, next as int), (next - 1) as u64, keep);
            }
            next = next - 1;
            if let Some(entry) = ctx.audit_log.get(&(challenge_id, next)) {
                let ghost grown = found.push(next);
                if skipped < offset {
                    skipped = skipped + 1;
                    proof {
                        assert(beyond(grown, offset as int) =~= beyond(found, offset as int));
                    }
                } else {
                    let ghost before = entries@;
                    entries.push(entry.clone());
                    collected = collected + 1;
                    proof {
                        let kept = beyond(found, offset as int);
                        assert(beyond(grown, offset as int) =~= kept.push(next));
                        assert(entries@.map_values(shown) =~= before.map_values(shown).push(
                            read(next),
                        ));
                        assert(kept.push(next).map_values(read) =~= kept.map_values(read).push(
                            read(next),
                        ));
                    }
                }
                proof {
                    found = grown;
                }
            }
        }
        proof {
            lemma_filter_prefix(count as int, next as int, 0, keep);
            let wanted = beyond(all, offset as int);
            let kept = beyond(found, offset as int);
            if next > 0 && wanted.len() > 0 {
                assert(wanted.take(collected as int) =~= kept);
                if wanted.len() <= limit {
                    assert(wanted.take(collected as int) =~= wanted);
                }
            } else if next > 0 {
                assert(kept =~= wanted);
            }
        }
        Ok(entries)
    }
}

/// How many entries the log of a challenge has.
pub open spec fn audit_log_count(s: State, challenge_id: u64) -> u32 {
    if s.audit_log_counts.contains_key(challenge_id) {
        s.audit_log_counts[challenge_id]
    } else {
        0
    }
}

/// The entries of the log of a challenge, the newest first, at most `limit`,
/// when the `offset` newest are passed over.
pub open spec fn audit_log_page(s: State, challenge_id: u64, offset: u64, limit: u32) -> Seq<
    AuditLogEntryView,
> {
    at_most(
        beyond(
            descending(audit_log_count(s, challenge_id) as int, 0).filter(
                |id: u64| s.audit_log.contains_key((challenge_id, id)),
            ),
            offset as int,
        ),
        limit as int,
    ).map_values(|id: u64| s.audit_log[(challenge_id, id)])
}

} // verus!
