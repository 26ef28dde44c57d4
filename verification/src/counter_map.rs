//! Maps that count references.
use rustc_hash::FxBuildHasher;
use rustc_hash::FxHashMap;
use std::collections::hash_map::Entry;
use std::hash::Hash;
use std::ops::{Add, Sub};
use vstd::prelude::*;
use vstd::std_specs::hash::*;
use vstd::std_specs::ops::AddSpec;

verus! {

broadcast use vstd::std_specs::hash::group_hash_axioms;

/// Counter map storage for reference-counted associations.
/// The operations of [`CounterMapExt`] remove an entry when its count reaches 0.
pub type CounterMap<K, V> = FxHashMap<K, V>;

/// Counter values.
pub trait CounterValue:
    Copy + Default + PartialEq + PartialOrd + Add<Output = Self> + Sub<Output = Self> {
    /// The integer that the value stands for.
    spec fn count(self) -> int;

    /// Whether a value of the type stands for `count`.
    spec fn representable(count: int) -> bool;

    /// A value is the only one that stands for its integer, and that integer is in the type's
    /// range, as zero is.
    proof fn lemma_count(self, other: Self)
        ensures
            Self::representable(0),
            Self::representable(self.count()),
            self.count() == other.count() ==> self == other,
    ;

    /// `+` adds the integers whenever the type can represent the sum.
    proof fn lemma_sum(self, delta: Self)
        ensures
            Self::obeys_add_spec(),
            Self::representable(self.count() + delta.count()) ==> {
                &&& self.add_req(delta)
                &&& self.add_spec(delta).count() == self.count() + delta.count()
            },
    ;

    /// Whether this value is zero.
    fn is_zero(&self) -> (zero: bool)
        ensures
            zero == (self.count() == 0),
    ;

    /// Whether this value is positive (> 0).
    fn is_positive(&self) -> (positive: bool)
        ensures
            positive == (self.count() > 0),
    ;
}

impl CounterValue for u32 {
    open spec fn count(self) -> int {
        self as int
    }

    open spec fn representable(count: int) -> bool {
        0 <= count <= u32::MAX
    }

    proof fn lemma_count(self, other: Self) {
    }

    proof fn lemma_sum(self, delta: Self) {
    }

    fn is_zero(&self) -> (zero: bool) {
        *self == 0
    }

    fn is_positive(&self) -> (positive: bool) {
        *self > 0
    }
}

impl CounterValue for i32 {
    open spec fn count(self) -> int {
        self as int
    }

    open spec fn representable(count: int) -> bool {
        i32::MIN <= count <= i32::MAX
    }

    proof fn lemma_count(self, other: Self) {
    }

    proof fn lemma_sum(self, delta: Self) {
    }

    fn is_zero(&self) -> (zero: bool) {
        *self == 0
    }

    fn is_positive(&self) -> (positive: bool) {
        *self > 0
    }
}

/// The count of `key`: zero where the map has no entry.
pub open spec fn count_of<K, V: CounterValue>(counts: Map<K, V>, key: K) -> int {
    if counts.contains_key(key) {
        counts[key].count()
    } else {
        0
    }
}

/// The value that `key` reaches when `delta` is added to its counter.
pub open spec fn updated_value<K, V: CounterValue>(counts: Map<K, V>, key: K, delta: V) -> V {
    if counts.contains_key(key) {
        counts[key].add_spec(delta)
    } else {
        delta
    }
}

/// The map after `delta` has been added to the counter of `key`: an entry that reaches zero is
/// dropped.
pub open spec fn updated<K, V: CounterValue>(counts: Map<K, V>, key: K, delta: V) -> Map<K, V> {
    let value = updated_value(counts, key, delta);
    if value.count() == 0 {
        counts.remove(key)
    } else {
        counts.insert(key, value)
    }
}

/// The map after a counter has been set to `new`: `None` and zero leave no entry.
pub open spec fn written<K, V: CounterValue>(counts: Map<K, V>, key: K, new: Option<V>) -> Map<
    K,
    V,
> {
    match new {
        Some(value) => if value.count() == 0 {
            counts.remove(key)
        } else {
            counts.insert(key, value)
        },
        None => counts.remove(key),
    }
}

/// Extension trait for counter map operations.
///
/// Provides common operations for maps that track reference counts, where
/// entries are automatically removed when their count reaches zero.
pub trait CounterMapExt<K, V: CounterValue> {
    /// The entries of the map.
    spec fn counts(&self) -> Map<K, V>;

    /// Updates a counter by the given delta, returning `true` if the count
    /// crossed zero (became zero or became non-zero).
    fn update_count(&mut self, key: K, delta: V) -> (crossed: bool)
        requires
            obeys_key_model::<K>(),
            V::representable(count_of(old(self).counts(), key) + delta.count()),
        ensures
            final(self).counts() == updated(old(self).counts(), key, delta),
            crossed == ((count_of(old(self).counts(), key) == 0) != (count_of(
                final(self).counts(),
                key,
            ) == 0)),
    ;

    /// Updates a counter by the given delta and returns the new value.
    fn update_and_get(&mut self, key: K, delta: V) -> (value: V)
        requires
            obeys_key_model::<K>(),
            V::representable(count_of(old(self).counts(), key) + delta.count()),
        ensures
            final(self).counts() == updated(old(self).counts(), key, delta),
            value.count() == count_of(old(self).counts(), key) + delta.count(),
    ;

    /// Updates a counter using a closure that receives the current value
    /// (or `None` if not present) and returns the new value (or `None` to remove).
    /// A new value of zero removes the entry as well.
    fn update_with<F>(&mut self, key: K, f: F) where F: FnOnce(Option<V>) -> Option<V>
        requires
            obeys_key_model::<K>(),
            f.requires((old(self).counts().get(key),)),
        ensures
            exists|new: Option<V>| #[trigger]
                f.ensures((old(self).counts().get(key),), new) && final(self).counts() == written(
                    old(self).counts(),
                    key,
                    new,
                ),
    ;

    /// Adds a new entry for a key that has none.
    fn add_entry(&mut self, key: K, value: V)
        requires
            obeys_key_model::<K>(),
            !old(self).counts().contains_key(key),
        ensures
            final(self).counts() == old(self).counts().insert(key, value),
    ;

    /// Updates a signed counter by the given delta, returning `true` if the count
    /// crossed the positive boundary (became positive or became non-positive).
    fn update_positive_crossing(&mut self, key: K, delta: V) -> (crossed: bool)
        requires
            obeys_key_model::<K>(),
            V::representable(count_of(old(self).counts(), key) + delta.count()),
        ensures
            final(self).counts() == updated(old(self).counts(), key, delta),
            crossed == ((count_of(old(self).counts(), key) > 0) != (count_of(
                final(self).counts(),
                key,
            ) > 0)),
    ;
}

impl<K: Hash + Eq, V: CounterValue> CounterMapExt<K, V> for CounterMap<K, V> {
    open spec fn counts(&self) -> Map<K, V> {
        self@
    }

    fn update_count(&mut self, key: K, delta: V) -> (crossed: bool) {
        let _hasher = FxBuildHasher::default();
        match self.entry(key) {
            Entry::Occupied(mut e) => {
                let old = *e.get();
                proof {
                    old.lemma_sum(delta);
                }
                let new = old + delta;
                let state_change = (old.is_zero() && !new.is_zero()) || (!old.is_zero()
                    && new.is_zero());
                if new.is_zero() {
                    e.remove();
                } else {
                    *e.get_mut() = new;
                }
                state_change
            },
            Entry::Vacant(e) => {
                if !delta.is_zero() {
                    e.insert(delta);
                    true
                } else {
                    false
                }
            },
        }
    }

    fn update_and_get(&mut self, key: K, delta: V) -> (value: V) {
        let _hasher = FxBuildHasher::default();
        match self.entry(key) {
            Entry::Occupied(mut e) => {
                let old = *e.get();
                proof {
                    old.lemma_sum(delta);
                }
                let new_value = old + delta;
                if new_value.is_zero() {
                    e.remove();
                } else {
                    *e.get_mut() = new_value;
                }
                new_value
            },
            Entry::Vacant(e) => {
                if !delta.is_zero() {
                    e.insert(delta);
                }
                delta
            },
        }
    }

    fn update_with<F>(&mut self, key: K, f: F) where F: FnOnce(Option<V>) -> Option<V> {
        let _hasher = FxBuildHasher::default();
        match self.entry(key) {
            Entry::Occupied(mut e) => {
                match f(Some(*e.get())) {
                    Some(new) => {
                        if new.is_zero() {
                            e.remove();
                        } else {
                            *e.get_mut() = new;
                        }
                    },
                    None => {
                        e.remove();
                    },
                }
            },
            Entry::Vacant(e) => {
                if let Some(new) = f(None) {
                    if !new.is_zero() {
                        e.insert(new);
                    }
                }
            },
        }
    }

    fn add_entry(&mut self, key: K, value: V) {
        let _hasher = FxBuildHasher::default();
        let _old = self.insert(key, value);
        assert(self.counts() == old(self).counts().insert(key, value));
    }

    fn update_positive_crossing(&mut self, key: K, delta: V) -> (crossed: bool) {
        let _hasher = FxBuildHasher::default();
        match self.entry(key) {
            Entry::Occupied(mut e) => {
                let old = *e.get();
                proof {
                    old.lemma_sum(delta);
                }
                let new = old + delta;
                let state_change = (!old.is_positive() && new.is_positive()) || (old.is_positive()
                    && !new.is_positive());
                if new.is_zero() {
                    e.remove();
                } else {
                    *e.get_mut() = new;
                }
                state_change
            },
            Entry::Vacant(e) => {
                if !delta.is_zero() {
                    e.insert(delta);
                    delta.is_positive()
                } else {
                    false
                }
            },
        }
    }
}

/// No entry of the map stands at zero.
pub open spec fn no_zero_entry<K, V: CounterValue>(counts: Map<K, V>) -> bool {
    forall|key: K| #[trigger] counts.contains_key(key) ==> counts[key].count() != 0
}

/// An update moves the counter of its key by the delta, and no other entry.
pub proof fn law_update_moves_one_counter<K, V: CounterValue>(
    counts: Map<K, V>,
    key: K,
    delta: V,
    other: K,
)
    requires
        V::representable(count_of(counts, key) + delta.count()),
    ensures
        count_of(updated(counts, key, delta), key) == count_of(counts, key) + delta.count(),
        other != key ==> updated(counts, key, delta).get(other) == counts.get(other),
{
    if counts.contains_key(key) {
        counts[key].lemma_sum(delta);
    }
}

/// A map without an entry at zero stays so, whether a counter is moved or set, and whether an entry
/// that counts something is added: an entry goes when it reaches zero.
pub proof fn law_update_keeps_no_zero_entry<K, V: CounterValue>(
    counts: Map<K, V>,
    key: K,
    delta: V,
    new: Option<V>,
    added: V,
)
    requires
        no_zero_entry(counts),
        added.count() != 0,
    ensures
        no_zero_entry(updated(counts, key, delta)),
        updated(counts, key, delta).contains_key(key) <==> updated_value(
            counts,
            key,
            delta,
        ).count() != 0,
        no_zero_entry(written(counts, key, new)),
        written(counts, key, new).contains_key(key) <==> new is Some && new->0.count() != 0,
        no_zero_entry(counts.insert(key, added)),
{
}

/// Setting a counter is read back, and touches no other entry: zero and nothing are the same.
pub proof fn law_set_counter_is_read_back<K, V: CounterValue>(
    counts: Map<K, V>,
    key: K,
    new: Option<V>,
    other: K,
)
    ensures
        count_of(written(counts, key, new), key) == (match new {
            Some(value) => value.count(),
            None => 0,
        }),
        other != key ==> written(counts, key, new).get(other) == counts.get(other),
{
}

/// Two updates of one key come to the same as one update by the sum of the deltas.
pub proof fn law_updates_combine<K, V: CounterValue>(
    counts: Map<K, V>,
    key: K,
    first: V,
    second: V,
)
    requires
        V::representable(count_of(counts, key) + first.count()),
        V::representable(first.count() + second.count()),
        V::representable(count_of(counts, key) + first.count() + second.count()),
    ensures
        updated(updated(counts, key, first), key, second) == updated(
            counts,
            key,
            first.add_spec(second),
        ),
{
    first.lemma_sum(second);
    let once = updated(counts, key, first);
    let twice = updated_value(once, key, second);
    let sum = updated_value(counts, key, first.add_spec(second));
    if counts.contains_key(key) {
        counts[key].lemma_sum(first);
        counts[key].lemma_sum(first.add_spec(second));
    }
    if once.contains_key(key) {
        once[key].lemma_sum(second);
    }
    twice.lemma_count(sum);
    assert(updated(once, key, second) =~= updated(counts, key, first.add_spec(second)));
}

/// An update is undone by an update with the opposite delta.
pub proof fn law_update_is_undone_by_opposite<K, V: CounterValue>(
    counts: Map<K, V>,
    key: K,
    delta: V,
    opposite: V,
)
    requires
        counts.contains_key(key) ==> counts[key].count() != 0,
        V::representable(count_of(counts, key) + delta.count()),
        delta.count() + opposite.count() == 0,
    ensures
        updated(updated(counts, key, delta), key, opposite) == counts,
{
    let once = updated(counts, key, delta);
    let value = updated_value(once, key, opposite);
    if counts.contains_key(key) {
        counts[key].lemma_count(counts[key]);
        counts[key].lemma_sum(delta);
    } else {
        delta.lemma_count(delta);
        opposite.lemma_count(opposite);
    }
    if once.contains_key(key) {
        if counts.contains_key(key) {
            once[key].lemma_sum(opposite);
            value.lemma_count(counts[key]);
        } else {
            once[key].lemma_sum(opposite);
        }
    } else if counts.contains_key(key) {
        opposite.lemma_count(counts[key]);
    }
    assert(updated(once, key, opposite) =~= counts);
}

/// Moving a counter adds: the map of counters of type `u32` holds the sum afterwards, or no entry
/// where the sum is zero, and no other counter is touched. The counters that count something are
/// those above zero.
pub proof fn law_u32_counters_add_up<K>(counts: Map<K, u32>, key: K, delta: u32, other: K)
    ensures
        delta.count() == delta as int,
        <u32 as CounterValue>::representable(delta as int),
        forall|count: int| #[trigger]
            <u32 as CounterValue>::representable(count) <==> u32::MIN <= count <= u32::MAX,
        count_of(counts, key) == (if counts.contains_key(key) {
            counts[key] as int
        } else {
            0
        }),
        ({
            let before = if counts.contains_key(key) {
                counts[key] as int
            } else {
                0
            };
            let after = updated(counts, key, delta);
            u32::MIN <= before + delta <= u32::MAX ==> {
                &&& after.contains_key(key) <==> before + delta != 0
                &&& after.contains_key(key) ==> after[key] == before + delta
                &&& other != key ==> after.contains_key(other) == counts.contains_key(other)
                &&& other != key && counts.contains_key(other) ==> after[other] == counts[other]
            }
        }),
{
    if counts.contains_key(key) {
        counts[key].lemma_sum(delta);
    }
}

/// A counter of type `u32` that is set to a value holds it afterwards, or has no entry where the
/// value is zero or there is none; no other counter is touched.
pub proof fn law_u32_counters_are_set<K>(counts: Map<K, u32>, key: K, new: Option<u32>, other: K)
    ensures
        ({
            let after = written(counts, key, new);
            &&& after.contains_key(key) <==> new is Some && new->0 != 0
            &&& after.contains_key(key) ==> after[key] == new->0
            &&& other != key ==> after.contains_key(other) == counts.contains_key(other)
            &&& other != key && counts.contains_key(other) ==> after[other] == counts[other]
        }),
{
}

/// Moving a counter adds: the map of counters of type `i32` holds the sum afterwards, or no entry
/// where the sum is zero, and no other counter is touched. The counters that count something are
/// those above zero.
pub proof fn law_i32_counters_add_up<K>(counts: Map<K, i32>, key: K, delta: i32, other: K)
    ensures
        delta.count() == delta as int,
        <i32 as CounterValue>::representable(delta as int),
        forall|count: int| #[trigger]
            <i32 as CounterValue>::representable(count) <==> i32::MIN <= count <= i32::MAX,
        count_of(counts, key) == (if counts.contains_key(key) {
            counts[key] as int
        } else {
            0
        }),
        ({
            let before = if counts.contains_key(key) {
                counts[key] as int
            } else {
                0
            };
            let after = updated(counts, key, delta);
            i32::MIN <= before + delta <= i32::MAX ==> {
                &&& after.contains_key(key) <==> before + delta != 0
                &&& after.contains_key(key) ==> after[key] == before + delta
                &&& other != key ==> after.contains_key(other) == counts.contains_key(other)
                &&& other != key && counts.contains_key(other) ==> after[other] == counts[other]
            }
        }),
{
    if counts.contains_key(key) {
        counts[key].lemma_sum(delta);
    }
}

/// A counter of type `i32` that is set to a value holds it afterwards, or has no entry where the
/// value is zero or there is none; no other counter is touched.
pub proof fn law_i32_counters_are_set<K>(counts: Map<K, i32>, key: K, new: Option<i32>, other: K)
    ensures
        ({
            let after = written(counts, key, new);
            &&& after.contains_key(key) <==> new is Some && new->0 != 0
            &&& after.contains_key(key) ==> after[key] == new->0
            &&& other != key ==> after.contains_key(other) == counts.contains_key(other)
            &&& other != key && counts.contains_key(other) ==> after[other] == counts[other]
        }),
{
}

} // verus!
