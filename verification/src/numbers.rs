//! Reading the lists of the host, and lists that are known to hold numbers.

use vstd::prelude::*;

use crate::lists::all_numbers;
use crate::lists::copy_u64s;
use crate::lists::new_u64s;
use crate::lists::stake_readings;
use crate::lists::stakes_try_get;
use crate::lists::stakes_width;
use crate::lists::u64_items;
use crate::lists::u64_readings;
use crate::lists::u64s_contain;
use crate::lists::u64s_len;
use crate::lists::u64s_push_back;
use crate::lists::u64s_remove;
use crate::lists::u64s_try_get;

verus! {

/// Whether every item of a list reads as a number.
pub fn reads_as_numbers(list: &soroban_sdk::Vec<u64>) -> (reads: bool)
    ensures
        reads == all_numbers(*list),
{
    let len: u32 = u64s_len(list);
    let mut i: u32 = 0;
    while i < len
        invariant
            i <= len,
            len == u64_readings(*list).len(),
            forall|j: int| 0 <= j < i ==> #[trigger] u64_readings(*list)[j] is Some,
        decreases len - i,
    {
        if number_read(list, i).is_none() {
            return false;
        }
        i = i + 1;
    }
    true
}

/// What the item at a position of a list reads as, if it is a number.
pub(crate) fn number_read(list: &soroban_sdk::Vec<u64>, i: u32) -> (item: Option<u64>)
    requires
        i < u64_readings(*list).len(),
    ensures
        item == u64_readings(*list)[i as int],
{
    match u64s_try_get(list, i) {
        Ok(item) => item,
        Err(_) => None,
    }
}

/// What the item at a position of a list reads as, if it is a stake.
pub(crate) fn stake_read(list: &soroban_sdk::Vec<(u64, bool, i128)>, i: u32) -> (item: Option<
    (u64, bool, i128),
>)
    requires
        i < stake_readings(*list).len(),
    ensures
        item == stake_readings(*list)[i as int],
{
    match stakes_width(list, i) {
        Some(3) => match stakes_try_get(list, i) {
            Ok(item) => item,
            Err(_) => None,
        },
        _ => None,
    }
}

/// A list of the host that holds numbers and nothing else.
#[derive(Debug, PartialEq, Eq)]
pub struct Numbers {
    list: soroban_sdk::Vec<u64>,
}

impl View for Numbers {
    type V = Seq<u64>;

    closed spec fn view(&self) -> Seq<u64> {
        u64_items(self.list)
    }
}

impl Numbers {
    #[verifier::type_invariant]
    spec fn holds_numbers(self) -> bool {
        all_numbers(self.list)
    }

    /// A list without numbers.
    pub fn new(env: &soroban_sdk::Env) -> (numbers: Self)
        ensures
            numbers@ == Seq::<u64>::empty(),
    {
        let numbers = Numbers { list: new_u64s(env) };
        assert(numbers@ =~= Seq::<u64>::empty());
        numbers
    }

    /// The numbers of a list, if it holds nothing else.
    pub fn read(list: soroban_sdk::Vec<u64>) -> (numbers: Option<Self>)
        ensures
            numbers is Some <==> all_numbers(list),
            numbers matches Some(numbers) ==> numbers@ == u64_items(list),
    {
        if reads_as_numbers(&list) {
            Some(Numbers { list })
        } else {
            None
        }
    }

    /// How many numbers there are.
    pub fn len(&self) -> (len: u32)
        ensures
            len == self@.len(),
    {
        u64s_len(&self.list)
    }

    /// The number at a position.
    pub fn get(&self, i: u32) -> (item: Option<u64>)
        ensures
            item == (if i < self@.len() {
                Some(self@[i as int])
            } else {
                None
            }),
    {
        proof {
            use_type_invariant(self);
        }
        if i < self.len() {
            number_read(&self.list, i)
        } else {
            None
        }
    }

    /// Whether a number is among them.
    pub fn contains(&self, item: u64) -> (found: bool)
        ensures
            found == self@.contains(item),
    {
        proof {
            use_type_invariant(self);
            let readings = u64_readings(self.list);
            if readings.contains(Some(item)) {
                let i = choose|i: int| 0 <= i < readings.len() && readings[i] == Some(item);
                assert(self@[i] == item);
            }
            if self@.contains(item) {
                let i = choose|i: int| 0 <= i < self@.len() && self@[i] == item;
                assert(readings[i] is Some);
                assert(readings[i] == Some(item));
            }
        }
        u64s_contain(&self.list, item)
    }

    /// Adds a number at the end.
    pub fn push_back(&mut self, item: u64)
        requires
            old(self)@.len() < u32::MAX,
        ensures
            final(self)@ == old(self)@.push(item),
    {
        proof {
            use_type_invariant(&*self);
        }
        let mut list: soroban_sdk::Vec<u64> = copy_u64s(&self.list);
        u64s_push_back(&mut list, item);
        self.list = list;
        assert(self@ =~= old(self)@.push(item));
    }

    /// Takes the number at a position out; those behind it move up.
    pub fn remove(&mut self, i: u32)
        requires
            i < old(self)@.len(),
        ensures
            final(self)@ == old(self)@.remove(i as int),
    {
        proof {
            use_type_invariant(&*self);
        }
        let mut list: soroban_sdk::Vec<u64> = copy_u64s(&self.list);
        u64s_remove(&mut list, i);
        self.list = list;
        assert(self@ =~= old(self)@.remove(i as int));
    }

    /// The list of the host.
    pub fn into_list(self) -> (list: soroban_sdk::Vec<u64>)
        ensures
            all_numbers(list),
            u64_items(list) == self@,
    {
        proof {
            use_type_invariant(&self);
        }
        self.list
    }
}

impl Clone for Numbers {
    fn clone(&self) -> (copy: Self)
        ensures
            copy@ == self@,
    {
        proof {
            use_type_invariant(self);
        }
        let copy = Numbers { list: copy_u64s(&self.list) };
        assert(copy@ =~= self@);
        copy
    }
}

} // verus!
