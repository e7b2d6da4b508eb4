//! The lists of the host: [`soroban_sdk::Vec`] and what is trusted of it.
//!
//! A host list is a handle on an object that the host never changes: an
//! operation on the list puts a handle on a new object in its place, so a
//! copy of a list keeps what it held. What type a list says its items have is
//! not checked when the list arrives, so an item may not read as that type:
//! each list here has a sequence of readings, `None` where an item does not.
//! Every operation is metered, and the host ends a request that runs out of
//! its allowance; that is left unsaid below, as running out of memory is of a
//! list in memory.

use vstd::prelude::*;

verus! {

/// The environment of the host, which new lists are made in.
#[verifier::external_type_specification]
#[verifier::external_body]
pub struct ExEnv(soroban_sdk::Env);

/// The list of the host.
#[verifier::external_type_specification]
#[verifier::external_body]
#[verifier::reject_recursive_types(T)]
pub struct ExVec<T>(soroban_sdk::Vec<T>);

/// What the items of a list of numbers read as, first to last: `None` for an
/// item that is no number.
pub uninterp spec fn u64_readings(list: soroban_sdk::Vec<u64>) -> Seq<Option<u64>>;

/// What a list of amounts holds, first to last.
pub uninterp spec fn i128_items(list: soroban_sdk::Vec<i128>) -> Seq<i128>;

/// What the items of a list of stakes to place read as, first to last: for
/// each the challenge, whether it goes on YES, and the amount, or `None` for an
/// item that is no such triple.
pub uninterp spec fn stake_readings(list: soroban_sdk::Vec<(u64, bool, i128)>) -> Seq<
    Option<(u64, bool, i128)>,
>;

/// Of how many values the items of a list of stakes are made, first to last:
/// `None` for an item that is not made of values at all.
pub uninterp spec fn stake_widths(list: soroban_sdk::Vec<(u64, bool, i128)>) -> Seq<Option<u32>>;

/// Every item of a list reads as a number.
pub open spec fn all_numbers(list: soroban_sdk::Vec<u64>) -> bool {
    forall|i: int| 0 <= i < u64_readings(list).len() ==> #[trigger] u64_readings(list)[i] is Some
}

/// The numbers that a list holds, first to last, as far as it holds numbers.
pub open spec fn u64_items(list: soroban_sdk::Vec<u64>) -> Seq<u64> {
    Seq::new(u64_readings(list).len(), |i: int| u64_readings(list)[i]->0)
}

/// The stakes that a list holds, first to last, as far as it holds stakes.
pub open spec fn stake_items(list: soroban_sdk::Vec<(u64, bool, i128)>) -> Seq<(u64, bool, i128)> {
    Seq::new(stake_readings(list).len(), |i: int| stake_readings(list)[i]->0)
}

/// `soroban_sdk::Env::clone`: a handle on the same environment. Nothing is
/// claimed of it.
#[verifier::external_body]
pub(crate) fn copy_env(env: &soroban_sdk::Env) -> (copy: soroban_sdk::Env) {
    env.clone()
}

/// `soroban_sdk::Vec::new`: the new list is empty.
#[verifier::external_body]
pub(crate) fn new_u64s(env: &soroban_sdk::Env) -> (list: soroban_sdk::Vec<u64>)
    ensures
        u64_readings(list) == Seq::<Option<u64>>::empty(),
{
    soroban_sdk::Vec::new(env)
}

/// `soroban_sdk::Vec::len`: the number of items, whatever they read as.
#[verifier::external_body]
pub(crate) fn u64s_len(list: &soroban_sdk::Vec<u64>) -> (len: u32)
    ensures
        len == u64_readings(*list).len(),
{
    list.len()
}

/// `soroban_sdk::Vec::try_get`: the item at a position, `None` past the end,
/// and an error where the item does not read as a number.
#[verifier::external_body]
pub(crate) fn u64s_try_get(list: &soroban_sdk::Vec<u64>, i: u32) -> (item: Result<Option<u64>, ()>)
    ensures
        item == (if i < u64_readings(*list).len() {
            match u64_readings(*list)[i as int] {
                Some(number) => Ok::<Option<u64>, ()>(Some(number)),
                None => Err::<Option<u64>, ()>(()),
            }
        } else {
            Ok::<Option<u64>, ()>(None)
        }),
{
    match list.try_get(i) {
        Ok(item) => Ok(item),
        Err(_) => Err(()),
    }
}

/// `soroban_sdk::Vec::contains`: whether some item reads as the given number.
#[verifier::external_body]
pub(crate) fn u64s_contain(list: &soroban_sdk::Vec<u64>, item: u64) -> (found: bool)
    ensures
        found == u64_readings(*list).contains(Some(item)),
{
    list.contains(item)
}

/// `soroban_sdk::Vec::push_back`: one more item at the end.
#[verifier::external_body]
pub(crate) fn u64s_push_back(list: &mut soroban_sdk::Vec<u64>, item: u64)
    requires
        u64_readings(*old(list)).len() < u32::MAX,
    ensures
        u64_readings(*final(list)) == u64_readings(*old(list)).push(Some(item)),
{
    list.push_back(item);
}

/// `soroban_sdk::Vec::remove`: the item at a position leaves, those behind it
/// move up. Past the end nothing changes and the result is `None`.
#[verifier::external_body]
pub(crate) fn u64s_remove(list: &mut soroban_sdk::Vec<u64>, i: u32) -> (removed: Option<()>)
    ensures
        removed is Some <==> i < u64_readings(*old(list)).len(),
        u64_readings(*final(list)) == (if i < u64_readings(*old(list)).len() {
            u64_readings(*old(list)).remove(i as int)
        } else {
            u64_readings(*old(list))
        }),
{
    list.remove(i)
}

/// `soroban_sdk::Vec::clone`: a list of the same items.
#[verifier::external_body]
pub(crate) fn copy_u64s(list: &soroban_sdk::Vec<u64>) -> (copy: soroban_sdk::Vec<u64>)
    ensures
        u64_readings(copy) == u64_readings(*list),
{
    list.clone()
}

/// `soroban_sdk::Vec::new`: the new list is empty.
#[verifier::external_body]
pub(crate) fn new_i128s(env: &soroban_sdk::Env) -> (list: soroban_sdk::Vec<i128>)
    ensures
        i128_items(list) == Seq::<i128>::empty(),
{
    soroban_sdk::Vec::new(env)
}

/// `soroban_sdk::Vec::push_back`: one more item at the end.
#[verifier::external_body]
pub(crate) fn i128s_push_back(list: &mut soroban_sdk::Vec<i128>, item: i128)
    requires
        i128_items(*old(list)).len() < u32::MAX,
    ensures
        i128_items(*final(list)) == i128_items(*old(list)).push(item),
{
    list.push_back(item);
}

/// `soroban_sdk::Vec::len`: the number of items, whatever they read as.
#[verifier::external_body]
pub(crate) fn stakes_len(list: &soroban_sdk::Vec<(u64, bool, i128)>) -> (len: u32)
    ensures
        len == stake_readings(*list).len(),
{
    list.len()
}

/// `soroban_sdk::Vec::len` of the item at a position, itself taken as a list of
/// values of any type: of how many values the item is made, `None` where it is
/// no list. Only what is made of three values reads as a stake.
#[verifier::external_body]
pub(crate) fn stakes_width(list: &soroban_sdk::Vec<(u64, bool, i128)>, i: u32) -> (width: Option<
    u32,
>)
    requires
        i < stake_readings(*list).len(),
    ensures
        width == stake_widths(*list)[i as int],
        width != Some(3u32) ==> stake_readings(*list)[i as int] is None,
{
    let item: soroban_sdk::Val = list.to_vals().get_unchecked(i);
    match <soroban_sdk::Vec<soroban_sdk::Val> as soroban_sdk::TryFromVal<
        soroban_sdk::Env,
        soroban_sdk::Val,
    >>::try_from_val(list.env(), &item) {
        Ok(values) => Some(values.len()),
        Err(_) => None,
    }
}

/// `soroban_sdk::Vec::try_get`: the item at a position, and an error where the
/// item does not read as a stake. Where the item is made of more or fewer than
/// three values the host ends the request, so such an item is left out.
#[verifier::external_body]
pub(crate) fn stakes_try_get(list: &soroban_sdk::Vec<(u64, bool, i128)>, i: u32) -> (item: Result<
    Option<(u64, bool, i128)>,
    (),
>)
    requires
        i < stake_readings(*list).len(),
        stake_widths(*list)[i as int] == Some(3u32),
    ensures
        item == (match stake_readings(*list)[i as int] {
            Some(stake) => Ok::<Option<(u64, bool, i128)>, ()>(Some(stake)),
            None => Err::<Option<(u64, bool, i128)>, ()>(()),
        }),
{
    match list.try_get(i) {
        Ok(item) => Ok(item),
        Err(_) => Err(()),
    }
}

} // verus!
