//! Sums over finite sets of keys.

use vstd::prelude::*;

verus! {

/// The sum of `value` over the keys.
pub open spec fn sum<K>(keys: Set<K>, value: spec_fn(K) -> int) -> int
    decreases keys.len(),
    when keys.finite()
{
    if keys.len() == 0 {
        0
    } else {
        let key = keys.choose();
        value(key) + sum(keys.remove(key), value)
    }
}

/// Any key can be taken out of a sum first.
pub proof fn lemma_sum_split<K>(keys: Set<K>, value: spec_fn(K) -> int, key: K)
    requires
        keys.finite(),
        keys.contains(key),
    ensures
        sum(keys, value) == value(key) + sum(keys.remove(key), value),
    decreases keys.len(),
{
    let chosen = keys.choose();
    if chosen != key {
        lemma_sum_split(keys.remove(chosen), value, key);
        assert(keys.remove(chosen).remove(key) =~= keys.remove(key).remove(chosen));
        lemma_sum_split(keys.remove(key), value, chosen);
    }
}

/// A sum depends on the values of its keys alone.
pub proof fn lemma_sum_same<K>(keys: Set<K>, one: spec_fn(K) -> int, other: spec_fn(K) -> int)
    requires
        keys.finite(),
        forall|key: K| keys.contains(key) ==> #[trigger] one(key) == other(key),
    ensures
        sum(keys, one) == sum(keys, other),
    decreases keys.len(),
{
    if keys.len() > 0 {
        lemma_sum_same(keys.remove(keys.choose()), one, other);
    }
}

/// A sum of nothing but zeros is zero.
pub proof fn lemma_sum_zero<K>(keys: Set<K>, value: spec_fn(K) -> int)
    requires
        keys.finite(),
        forall|key: K| keys.contains(key) ==> #[trigger] value(key) == 0,
    ensures
        sum(keys, value) == 0,
    decreases keys.len(),
{
    if keys.len() > 0 {
        lemma_sum_zero(keys.remove(keys.choose()), value);
    }
}

/// A sum of parts that are not negative is at least each of them.
pub proof fn lemma_sum_bounds_part<K>(keys: Set<K>, value: spec_fn(K) -> int, key: K)
    requires
        keys.finite(),
        keys.contains(key),
        forall|k: K| keys.contains(k) ==> #[trigger] value(k) >= 0,
    ensures
        value(key) <= sum(keys, value),
{
    lemma_sum_split(keys, value, key);
    lemma_sum_nonnegative(keys.remove(key), value);
}

/// A sum of parts that are not negative is not negative.
pub proof fn lemma_sum_nonnegative<K>(keys: Set<K>, value: spec_fn(K) -> int)
    requires
        keys.finite(),
        forall|k: K| keys.contains(k) ==> #[trigger] value(k) >= 0,
    ensures
        sum(keys, value) >= 0,
    decreases keys.len(),
{
    if keys.len() > 0 {
        lemma_sum_nonnegative(keys.remove(keys.choose()), value);
    }
}

/// Larger parts make a larger sum, also where both are scaled.
pub proof fn lemma_sum_scaled_at_most<K>(
    keys: Set<K>,
    small: spec_fn(K) -> int,
    by_small: int,
    large: spec_fn(K) -> int,
    by_large: int,
)
    requires
        keys.finite(),
        forall|k: K| keys.contains(k) ==> by_small * #[trigger] small(k) <= by_large * large(k),
    ensures
        by_small * sum(keys, small) <= by_large * sum(keys, large),
    decreases keys.len(),
{
    if keys.len() > 0 {
        let key = keys.choose();
        let rest = keys.remove(key);
        lemma_sum_scaled_at_most(rest, small, by_small, large, by_large);
        assert(by_small * (small(key) + sum(rest, small)) == by_small * small(key) + by_small * sum(
            rest,
            small,
        )) by (nonlinear_arith);
        assert(by_large * (large(key) + sum(rest, large)) == by_large * large(key) + by_large * sum(
            rest,
            large,
        )) by (nonlinear_arith);
    } else {
        assert(by_small * 0 == 0 && by_large * 0 == 0) by (nonlinear_arith);
    }
}

/// How a sum changes where the value of one key changes, or a key joins.
pub proof fn lemma_sum_update<K>(
    keys: Set<K>,
    before: spec_fn(K) -> int,
    after: spec_fn(K) -> int,
    key: K,
)
    requires
        keys.finite(),
        forall|k: K| keys.contains(k) && k != key ==> #[trigger] before(k) == after(k),
    ensures
        sum(keys.insert(key), after) == sum(keys, before) + after(key) - (if keys.contains(key) {
            before(key)
        } else {
            0
        }),
{
    lemma_sum_split(keys.insert(key), after, key);
    assert(keys.insert(key).remove(key) =~= keys.remove(key));
    lemma_sum_same(keys.remove(key), before, after);
    if keys.contains(key) {
        lemma_sum_split(keys, before, key);
    } else {
        assert(keys.remove(key) =~= keys);
    }
}

/// The sum of sums is the sum.
pub proof fn lemma_sum_plus<K>(
    keys: Set<K>,
    one: spec_fn(K) -> int,
    other: spec_fn(K) -> int,
    both: spec_fn(K) -> int,
)
    requires
        keys.finite(),
        forall|k: K| keys.contains(k) ==> #[trigger] both(k) == one(k) + other(k),
    ensures
        sum(keys, both) == sum(keys, one) + sum(keys, other),
    decreases keys.len(),
{
    if keys.len() > 0 {
        lemma_sum_plus(keys.remove(keys.choose()), one, other, both);
    }
}

} // verus!
