//! The hash tables of the engine, and their hasher.
//!
//! What a hash table holds is known only while its hashers agree with each other. Making a hasher
//! tells so: a function that relies on it makes one, which takes no room and no time.
use rustc_hash::FxBuildHasher;
use rustc_hash::{FxHashMap, FxHashSet};
use std::hash::Hash;
use vstd::prelude::*;
use vstd::std_specs::hash::*;
use vstd::std_specs::iter::IteratorSpec;

use crate::counter_map::CounterValue;

verus! {

broadcast use vstd::std_specs::hash::group_hash_axioms;

/// `rustc_hash::FxBuildHasher`, a unit struct, carried through without looking inside.
#[verifier::external_type_specification]
#[verifier::external_body]
pub struct ExFxBuildHasher(rustc_hash::FxBuildHasher);

/// The hashers that a `hasher` builds agree: fed with the same writes, any two of them
/// end with the same digest.
pub open spec fn hashes_consistently<S>(hasher: S) -> bool {
    builds_valid_hashers::<S>()
}

/// `rustc_hash::FxBuildHasher::default` gives the one value of its type. Each hasher that it
/// builds starts from the digest zero, and every write is a fixed function of the digest so
/// far and of what is written, so the hashers agree.
pub assume_specification[ <FxBuildHasher as core::default::Default>::default ]() -> (hasher:
    FxBuildHasher)
    ensures
        hashes_consistently(hasher),
;

/// The keys of a map, each once, in no particular order.
pub fn keys_of<K: Copy + Hash + Eq, V>(map: &FxHashMap<K, V>) -> (keys: Vec<K>)
    requires
        obeys_key_model::<K>(),
    ensures
        keys@.no_duplicates(),
        keys@.to_set() == map@.dom(),
{
    let _hasher = FxBuildHasher::default();
    let mut keys: Vec<K> = Vec::new();
    let ghost all = spec_keys_iter(map).remaining().unref();
    for key in it: map.keys()
        invariant
            it.seq().unref() == all,
            keys@ == all.take(it.index() as int),
    {
        keys.push(*key);
    }
    assert(keys@ =~= all);
    keys
}

/// The elements of a set, each once, in no particular order.
pub fn elements_of<K: Copy + Hash + Eq>(set: &FxHashSet<K>) -> (elements: Vec<K>)
    requires
        obeys_key_model::<K>(),
    ensures
        elements@.no_duplicates(),
        elements@.to_set() == set@,
{
    let _hasher = FxBuildHasher::default();
    let mut elements: Vec<K> = Vec::new();
    let ghost all = spec_hash_keys_iter(set).remaining().unref();
    for element in it: set.iter()
        invariant
            it.seq().unref() == all,
            elements@ == all.take(it.index() as int),
    {
        elements.push(*element);
    }
    assert(elements@ =~= all);
    elements
}

/// Whether `entries` lists the entries of `map`, each once, in whatever order.
pub open spec fn lists<K, V>(entries: Seq<(K, V)>, map: Map<K, V>) -> bool {
    &&& forall|i: int, j: int|
        0 <= i < j < entries.len() ==> (#[trigger] entries[i]).0 != (#[trigger] entries[j]).0
    &&& forall|i: int|
        0 <= i < entries.len() ==> map.contains_key((#[trigger] entries[i]).0)
            && map[entries[i].0] == entries[i].1
    &&& forall|key: K| #[trigger]
        map.contains_key(key) ==> exists|i: int|
            0 <= i < entries.len() && (#[trigger] entries[i]).0 == key
}

/// Listing one more entry.
pub(crate) proof fn lemma_lists_push<K, V>(entries: Seq<(K, V)>, map: Map<K, V>, key: K, value: V)
    requires
        lists(entries, map),
        !map.contains_key(key),
    ensures
        lists(entries.push((key, value)), map.insert(key, value)),
{
    let after = entries.push((key, value));
    assert forall|k: K| #[trigger] map.insert(key, value).contains_key(k) implies exists|i: int|
        0 <= i < after.len() && (#[trigger] after[i]).0 == k by {
        if k == key {
            assert(after[entries.len() as int].0 == k);
        } else {
            assert(map.contains_key(k));
            let i = choose|i: int| 0 <= i < entries.len() && (#[trigger] entries[i]).0 == k;
            assert(after[i].0 == k);
        }
    }
}

/// The first keys of a list, and one more.
pub(crate) proof fn lemma_take_set<K>(keys: Seq<K>, i: int)
    requires
        0 <= i < keys.len(),
    ensures
        keys.take(i + 1).to_set() == keys.take(i).to_set().insert(keys[i]),
{
    assert forall|key: K| keys.take(i).to_set().insert(keys[i]).contains(key) implies keys.take(
        i + 1,
    ).contains(key) by {
        if key == keys[i] {
            assert(keys.take(i + 1)[i] == key);
        } else {
            let j = choose|j: int| 0 <= j < i && keys.take(i)[j] == key;
            assert(keys.take(i + 1)[j] == key);
        }
    }
    assert forall|key: K| keys.take(i + 1).contains(key) implies keys.take(i).to_set().insert(
        keys[i],
    ).contains(key) by {
        let next = keys.take(i + 1);
        let j = choose|j: int| 0 <= j < next.len() && next[j] == key;
        if j < i {
            assert(keys.take(i)[j] == key);
        }
    }
    assert(keys.take(i + 1).to_set() =~= keys.take(i).to_set().insert(keys[i]));
}

/// The first keys of a list that has none twice, and one more, which is not among them.
pub(crate) proof fn lemma_take_next<K>(keys: Seq<K>, i: int)
    requires
        keys.no_duplicates(),
        0 <= i < keys.len(),
    ensures
        keys.take(i + 1).to_set() == keys.take(i).to_set().insert(keys[i]),
        !keys.take(i).to_set().contains(keys[i]),
{
    lemma_take_set(keys, i);
}

/// The entries that count something.
pub open spec fn positive<K, V: CounterValue>(counts: Map<K, V>) -> Map<K, V> {
    Map::new(
        |key: K| counts.contains_key(key) && counts[key].count() > 0,
        |key: K| counts[key],
    )
}

/// The entries of `counts` that count something.
pub fn positive_entries<K: Copy + Hash + Eq, V: CounterValue>(
    counts: &FxHashMap<K, V>,
) -> (entries: Vec<(K, V)>)
    requires
        obeys_key_model::<K>(),
    ensures
        lists(entries@, positive(counts@)),
{
    let _hasher = FxBuildHasher::default();
    let keys = keys_of(counts);
    let mut entries: Vec<(K, V)> = Vec::new();
    let mut i: usize = 0;
    while i < keys.len()
        invariant
            obeys_key_model::<K>(),
            hashes_consistently(_hasher),
            keys@.no_duplicates(),
            keys@.to_set() == counts@.dom(),
            i <= keys@.len(),
            lists(
                entries@,
                positive(counts@).restrict(keys@.take(i as int).to_set()),
            ),
        decreases keys@.len() - i,
    {
        let key = keys[i];
        let ghost done = positive(counts@).restrict(keys@.take(i as int).to_set());
        let ghost next = positive(counts@).restrict(keys@.take(i + 1).to_set());
        proof {
            lemma_take_next(keys@, i as int);
            assert(keys@.contains(key));
            assert(counts@.contains_key(key));
            if counts@[key].count() > 0 {
                lemma_lists_push(entries@, done, key, counts@[key]);
                assert(next =~= done.insert(key, counts@[key]));
            } else {
                assert(next =~= done);
            }
        }
        if let Some(value) = counts.get(&key) {
            if value.is_positive() {
                entries.push((key, *value));
            }
        }
        i += 1;
    }
    assert(keys@.take(i as int) =~= keys@);
    assert(positive(counts@).restrict(keys@.to_set()) =~= positive(counts@));
    entries
}

/// Entries that list a map are the map's entries, each of them once: as many as the map has, one
/// for each key, with that key's value, and none besides.
pub proof fn law_a_list_holds_each_entry_once<K, V>(entries: Seq<(K, V)>, map: Map<K, V>, key: K)
    requires
        lists(entries, map),
    ensures
        map.contains_key(key) <==> exists|i: int|
            0 <= i < entries.len() && (#[trigger] entries[i]).0 == key,
        map.contains_key(key) ==> entries.contains((key, map[key])),
        forall|value: V| #[trigger]
            entries.contains((key, value)) ==> map.contains_key(key) && map[key] == value,
        entries.no_duplicates(),
        entries.len() == map.dom().len(),
        map.dom().finite(),
{
    if map.contains_key(key) {
        let i = choose|i: int| 0 <= i < entries.len() && (#[trigger] entries[i]).0 == key;
        assert(entries[i] == (key, map[key]));
    }
    assert forall|value: V| #[trigger] entries.contains((key, value)) implies map.contains_key(key)
        && map[key] == value by {
        let i = choose|i: int| 0 <= i < entries.len() && entries[i] == (key, value);
        assert(entries[i].0 == key);
    }
    let keys = Seq::new(entries.len(), |i: int| entries[i].0);
    assert forall|i: int, j: int| 0 <= i < keys.len() && 0 <= j < keys.len() && i != j implies keys[i]
        != keys[j] by {
        if i < j {
            assert(entries[i].0 != entries[j].0);
        } else {
            assert(entries[j].0 != entries[i].0);
        }
    }
    assert forall|i: int, j: int|
        0 <= i < entries.len() && 0 <= j < entries.len() && i != j implies entries[i]
        != entries[j] by {
        assert(keys[i] != keys[j]);
    }
    assert forall|k: K| map.dom().contains(k) implies keys.contains(k) by {
        assert(map.contains_key(k));
        let i = choose|i: int| 0 <= i < entries.len() && (#[trigger] entries[i]).0 == k;
        assert(keys[i] == k);
    }
    assert forall|k: K| keys.contains(k) implies map.dom().contains(k) by {
        let i = choose|i: int| 0 <= i < keys.len() && keys[i] == k;
        assert(map.contains_key(entries[i].0));
    }
    assert(keys.to_set() =~= map.dom());
    keys.unique_seq_to_set();
}

/// What counts something are the counters of at least one, with their counts.
pub proof fn law_counters_from_one_on_count<K>(
    counts: Map<K, u32>,
    signed_counts: Map<K, i32>,
    key: K,
)
    ensures
        positive(counts).contains_key(key) <==> counts.contains_key(key) && counts[key] >= 1,
        positive(counts).contains_key(key) ==> positive(counts)[key] == counts[key],
        positive(signed_counts).contains_key(key) <==> signed_counts.contains_key(key)
            && signed_counts[key] >= 1,
        positive(signed_counts).contains_key(key) ==> positive(signed_counts)[key]
            == signed_counts[key],
{
}

} // verus!
