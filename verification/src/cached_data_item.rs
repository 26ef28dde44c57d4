//! Stored data as items, each with a key and a value.
use vstd::prelude::*;

use crate::cell_removal::pick;
use crate::fx::lemma_take_next;
use crate::unpacked::entry_keys;

verus! {

/// An item of stored data.
#[derive(PartialEq, Eq, Debug)]
pub struct CachedDataItem<Key, Value> {
    pub key: Key,
    pub value: Value,
}

impl<Key, Value> CachedDataItem<Key, Value> {
    /// The item with the given key and value.
    pub fn from_key_and_value(key: Key, value: Value) -> (item: Self)
        ensures
            item.key == key,
            item.value == value,
    {
        CachedDataItem { key, value }
    }

    /// The item's key and value.
    pub fn into_key_and_value(self) -> (parts: (Key, Value))
        ensures
            parts == (self.key, self.value),
    {
        (self.key, self.value)
    }
}

/// Whether `entries` holds each of the items once, in whatever order.
pub open spec fn lists_items<Key, Value>(
    entries: Seq<(Key, &Value)>,
    items: Map<Key, Value>,
) -> bool {
    &&& forall|i: int, j: int|
        0 <= i < j < entries.len() ==> (#[trigger] entries[i]).0 != (#[trigger] entries[j]).0
    &&& forall|i: int|
        0 <= i < entries.len() ==> items.contains_key((#[trigger] entries[i]).0)
            && items[entries[i].0] == *entries[i].1
    &&& forall|key: Key| #[trigger]
        items.contains_key(key) ==> exists|i: int|
            0 <= i < entries.len() && (#[trigger] entries[i]).0 == key
}

/// Core operations on stored items.
pub trait CachedDataItemAdapter: Sized {
    type Key: Copy;

    type Value;

    /// Items are grouped by type.
    type Type: Copy;

    /// The values that are stored, by key.
    spec fn items(&self) -> Map<Self::Key, Self::Value>;

    /// The type of the items with a key.
    spec fn type_of(key: Self::Key) -> Self::Type;

    /// Inserts a key-value pair, returning the old value if present.
    fn insert_kv(&mut self, key: Self::Key, value: Self::Value) -> (replaced: Option<Self::Value>)
        ensures
            final(self).items() == old(self).items().insert(key, value),
            replaced == old(self).items().get(key),
    ;

    /// Gets a reference to a value by key.
    fn get(&self, key: &Self::Key) -> (value: Option<&Self::Value>)
        ensures
            match value {
                Some(value) => self.items().get(*key) == Some(*value),
                None => !self.items().contains_key(*key),
            },
    ;

    /// Removes an item by key, returning the value if present.
    fn remove(&mut self, key: &Self::Key) -> (removed: Option<Self::Value>)
        ensures
            final(self).items() == old(self).items().remove(*key),
            removed == old(self).items().get(*key),
    ;

    /// Gets a mutable reference to a value by key.
    fn get_mut(&mut self, key: &Self::Key) -> (value: Option<&mut Self::Value>)
        ensures
            match value {
                Some(value) => {
                    &&& old(self).items().get(*key) == Some(*value)
                    &&& final(self).items() == old(self).items().insert(*key, *final(value))
                },
                None => {
                    &&& !old(self).items().contains_key(*key)
                    &&& final(self).items() == old(self).items()
                },
            },
    ;

    /// Counts the items of a specific type.
    fn count(&self, ty: Self::Type) -> (count: usize)
        ensures
            count == self.items().restrict(
                Set::new(|key: Self::Key| Self::type_of(key) == ty),
            ).len(),
    ;

    /// The items of a specific type, in no particular order.
    fn iter(&self, ty: Self::Type) -> (entries: Vec<(Self::Key, &Self::Value)>)
        ensures
            lists_items(
                entries@,
                self.items().restrict(Set::new(|key: Self::Key| Self::type_of(key) == ty)),
            ),
    ;
}

/// The items once `added` have been added one after the other: an item whose key is there already
/// is left out.
pub open spec fn with_added<Key, Value>(
    items: Map<Key, Value>,
    added: Seq<CachedDataItem<Key, Value>>,
) -> Map<Key, Value>
    decreases added.len(),
{
    if added.len() == 0 {
        items
    } else {
        let before = with_added(items, added.drop_last());
        let last = added.last();
        if before.contains_key(last.key) {
            before
        } else {
            before.insert(last.key, last.value)
        }
    }
}

/// Whether no two of the items share a key, and none has a key that is there already.
pub open spec fn all_fresh<Key, Value>(
    items: Map<Key, Value>,
    added: Seq<CachedDataItem<Key, Value>>,
) -> bool {
    &&& forall|i: int| 0 <= i < added.len() ==> !items.contains_key((#[trigger] added[i]).key)
    &&& forall|i: int, j: int|
        0 <= i < j < added.len() ==> (#[trigger] added[i]).key != (#[trigger] added[j]).key
}

/// Convenience operations on stored items.
pub trait CachedDataItemAdapterExt: CachedDataItemAdapter {
    /// Adds an item.
    ///
    /// Returns `true` if the item was newly added, `false` if it already existed.
    /// Does NOT overwrite if the key already exists.
    fn add(&mut self, item: CachedDataItem<Self::Key, Self::Value>) -> (added: bool)
        ensures
            added == !old(self).items().contains_key(item.key),
            final(self).items() == (if added {
                old(self).items().insert(item.key, item.value)
            } else {
                old(self).items()
            }),
    {
        let (key, value) = item.into_key_and_value();
        // Check first - add should not overwrite existing values
        if self.contains_key(&key) {
            return false;
        }
        self.insert_kv(key, value);
        true
    }

    /// Inserts an item, returning the old value if present.
    fn insert(&mut self, item: CachedDataItem<Self::Key, Self::Value>) -> (replaced: Option<
        Self::Value,
    >)
        ensures
            final(self).items() == old(self).items().insert(item.key, item.value),
            replaced == old(self).items().get(item.key),
    {
        let (key, value) = item.into_key_and_value();
        self.insert_kv(key, value)
    }

    /// Checks if a key exists.
    fn contains_key(&self, key: &Self::Key) -> (contained: bool)
        ensures
            contained == self.items().contains_key(*key),
    {
        self.get(key).is_some()
    }

    /// Updates a value, creating it if it doesn't exist: `update` receives the value, if any, and
    /// returns the new one, or `None` to have none.
    fn update<F: FnOnce(Option<Self::Value>) -> Option<Self::Value>>(
        &mut self,
        key: Self::Key,
        update: F,
    )
        requires
            update.requires((old(self).items().get(key),)),
        ensures
            exists|new: Option<Self::Value>| #[trigger]
                update.ensures((old(self).items().get(key),), new) && final(self).items() == (
                match new {
                    Some(value) => old(self).items().insert(key, value),
                    None => old(self).items().remove(key),
                }),
    {
        let ghost before = self.items();
        let old_value = self.remove(&key);
        if let Some(new_value) = update(old_value) {
            let item = CachedDataItem::from_key_and_value(key, new_value);
            self.add(item);
            assert(before.remove(key).insert(key, new_value) =~= before.insert(key, new_value));
        }
    }

    /// Gets a mutable reference, inserting a value created by the given closure if there is none.
    fn get_mut_or_insert_with<F: FnOnce() -> Self::Value>(
        &mut self,
        key: Self::Key,
        insert: F,
    ) -> (value: &mut Self::Value)
        requires
            !old(self).items().contains_key(key) ==> insert.requires(()),
        ensures
            match old(self).items().get(key) {
                Some(present) => *value == present,
                None => insert.ensures((), *value),
            },
            final(self).items() == old(self).items().insert(key, *final(value)),
    {
        let ghost before = self.items();
        if self.get(&key).is_none() {
            let value = insert();
            self.insert_kv(key, value);
            assert(forall|other: Self::Value|
                #![trigger before.insert(key, other)]
                before.insert(key, value).insert(key, other) =~= before.insert(key, other));
        }
        self.get_mut(&key).unwrap()
    }

    /// Adds the items one after the other.
    /// Returns `true` if all items were newly added, `false` if any already existed.
    fn extend(
        &mut self,
        _ty: Self::Type,
        items: Vec<CachedDataItem<Self::Key, Self::Value>>,
    ) -> (all_new: bool)
        ensures
            final(self).items() == with_added(old(self).items(), items@),
            all_new == all_fresh(old(self).items(), items@),
    {
        let ghost before = self.items();
        let ghost all = items@;
        let mut all_new = true;
        for item in it: items
            invariant
                it.seq() == all,
                self.items() == with_added(before, all.take(it.index() as int)),
                all_new == all_fresh(before, all.take(it.index() as int)),
        {
            let ghost i = it.index() as int;
            proof {
                lemma_added_keys(before, all.take(i));
                assert(all.take(i + 1).drop_last() =~= all.take(i));
                assert(all.take(i + 1).last() == item);
                lemma_fresh_next(before, all, i);
            }
            if !self.add(item) {
                all_new = false;
            }
        }
        assert(all.take(all.len() as int) =~= all);
        all_new
    }

    /// Removes the items of a type that match a predicate.
    fn extract_if<F: FnMut(Self::Key, &Self::Value) -> bool>(
        &mut self,
        ty: Self::Type,
        predicate: F,
    ) -> (extracted: Vec<CachedDataItem<Self::Key, Self::Value>>)
        requires
            forall|key: Self::Key| #[trigger]
                old(self).items().contains_key(key) && Self::type_of(key) == ty
                    ==> predicate.requires((key, &old(self).items()[key])),
        ensures
            lists_removed(extracted@, old(self).items(), final(self).items()),
            forall|key: Self::Key| #[trigger]
                old(self).items().contains_key(key) ==> if Self::type_of(key) == ty {
                    predicate.ensures(
                        (key, &old(self).items()[key]),
                        !final(self).items().contains_key(key),
                    )
                } else {
                    final(self).items().contains_key(key)
                },
    {
        let ghost before = self.items();
        let ghost of_type = Set::new(|key: Self::Key| Self::type_of(key) == ty);
        // Collect keys to remove (can't mutate while iterating)
        let entries = self.iter(ty);
        let ghost listed = entries@;
        assert forall|i: int| 0 <= i < listed.len() implies predicate.requires(
            ((#[trigger] listed[i]).0, listed[i].1),
        ) by {
            assert(before.restrict(of_type).contains_key(listed[i].0));
            assert(before.contains_key(listed[i].0));
        }
        let keys_to_remove = matching_keys(&entries, predicate);
        let mut extracted: Vec<CachedDataItem<Self::Key, Self::Value>> = Vec::new();
        let mut i: usize = 0;
        while i < keys_to_remove.len()
            invariant
                i <= keys_to_remove@.len(),
                keys_to_remove@.no_duplicates(),
                forall|j: int|
                    0 <= j < keys_to_remove@.len() ==> before.contains_key(
                        #[trigger] keys_to_remove@[j],
                    ),
                extracted@.len() == i,
                forall|j: int|
                    0 <= j < i ==> (#[trigger] extracted@[j]).key == keys_to_remove@[j]
                        && extracted@[j].value == before[keys_to_remove@[j]],
                self.items() == before.remove_keys(keys_to_remove@.take(i as int).to_set()),
            decreases keys_to_remove@.len() - i,
        {
            let key = keys_to_remove[i];
            proof {
                lemma_take_next(keys_to_remove@, i as int);
            }
            if let Some(value) = self.remove(&key) {
                extracted.push(CachedDataItem::from_key_and_value(key, value));
            }
            assert(self.items() =~= before.remove_keys(keys_to_remove@.take(i + 1).to_set()));
            i += 1;
        }
        proof {
            assert(keys_to_remove@.take(i as int) =~= keys_to_remove@);
            assert forall|key: Self::Key| #[trigger] before.contains_key(key) implies if Self::type_of(
                key,
            ) == ty {
                predicate.ensures((key, &before[key]), !self.items().contains_key(key))
            } else {
                self.items().contains_key(key)
            } by {
                if Self::type_of(key) == ty {
                    assert(before.restrict(of_type).contains_key(key));
                    let k = choose|k: int| 0 <= k < listed.len() && (#[trigger] listed[k]).0 == key;
                    assert(predicate.ensures(
                        (listed[k].0, listed[k].1),
                        keys_to_remove@.contains(listed[k].0),
                    ));
                } else if keys_to_remove@.contains(key) {
                    let j = choose|j: int|
                        0 <= j < keys_to_remove@.len() && keys_to_remove@[j] == key;
                    assert(lists_key(listed, keys_to_remove@[j]));
                    let k = choose|k: int| 0 <= k < listed.len() && (#[trigger] listed[k]).0 == key;
                    assert(before.restrict(of_type).contains_key(listed[k].0));
                }
            }
            assert forall|key: Self::Key|
                before.contains_key(key) && !self.items().contains_key(key) implies exists|j: int|
                0 <= j < extracted@.len() && (#[trigger] extracted@[j]).key == key by {
                assert(keys_to_remove@.contains(key));
                let j = choose|j: int| 0 <= j < keys_to_remove@.len() && keys_to_remove@[j] == key;
                assert(extracted@[j].key == key);
            }
            assert forall|j: int, k: int| 0 <= j < k < extracted@.len() implies (
            #[trigger] extracted@[j]).key != (#[trigger] extracted@[k]).key by {
                assert(keys_to_remove@[j] != keys_to_remove@[k]);
            }
            assert forall|j: int| 0 <= j < extracted@.len() implies !self.items().contains_key(
                (#[trigger] extracted@[j]).key,
            ) by {
                assert(keys_to_remove@.contains(keys_to_remove@[j]));
            }
        }
        extracted
    }
}

/// Whether `key` is among the keys of `entries`.
pub open spec fn lists_key<Key, Value>(entries: Seq<(Key, &Value)>, key: Key) -> bool {
    exists|i: int| 0 <= i < entries.len() && (#[trigger] entries[i]).0 == key
}

/// The keys of the entries that match the predicate.
fn matching_keys<Key: Copy, Value, F: FnMut(Key, &Value) -> bool>(
    entries: &Vec<(Key, &Value)>,
    mut predicate: F,
) -> (keys: Vec<Key>)
    requires
        forall|i: int|
            0 <= i < entries@.len() ==> predicate.requires(
                ((#[trigger] entries@[i]).0, entries@[i].1),
            ),
        forall|i: int, j: int|
            0 <= i < j < entries@.len() ==> (#[trigger] entries@[i]).0 != (#[trigger] entries@[j]).0,
    ensures
        keys@.no_duplicates(),
        forall|i: int| 0 <= i < keys@.len() ==> lists_key(entries@, #[trigger] keys@[i]),
        forall|i: int|
            0 <= i < entries@.len() ==> predicate.ensures(
                ((#[trigger] entries@[i]).0, entries@[i].1),
                keys@.contains(entries@[i].0),
            ),
{
    let ghost given = predicate;
    let keys = entry_keys(entries);
    assert forall|i: int, j: int|
        0 <= i < keys@.len() && 0 <= j < keys@.len() && i != j implies keys@[i] != keys@[j] by {
        if i < j {
            assert(entries@[i].0 != entries@[j].0);
        } else {
            assert(entries@[j].0 != entries@[i].0);
        }
    }
    let mut verdicts: Vec<bool> = Vec::new();
    let mut i: usize = 0;
    while i < entries.len()
        invariant
            predicate == given,
            forall|j: int|
                0 <= j < entries@.len() ==> predicate.requires(
                    ((#[trigger] entries@[j]).0, entries@[j].1),
                ),
            i <= entries@.len(),
            verdicts@.len() == i,
            forall|j: int|
                0 <= j < i ==> predicate.ensures(
                    ((#[trigger] entries@[j]).0, entries@[j].1),
                    verdicts@[j],
                ),
        decreases entries@.len() - i,
    {
        verdicts.push(predicate(entries[i].0, entries[i].1));
        i += 1;
    }
    let picked = pick(&keys, &verdicts);
    proof {
        assert forall|k: int| 0 <= k < picked@.len() implies lists_key(
            entries@,
            #[trigger] picked@[k],
        ) by {
            let j = choose|j: int| 0 <= j < keys@.len() && keys@[j] == picked@[k];
            assert(entries@[j].0 == picked@[k]);
        }
        assert forall|j: int| 0 <= j < entries@.len() implies predicate.ensures(
            ((#[trigger] entries@[j]).0, entries@[j].1),
            picked@.contains(entries@[j].0),
        ) by {
            assert(keys@[j] == entries@[j].0);
        }
    }
    picked
}

/// Whether `extracted` lists what is there before and not after, and all else stays.
pub open spec fn lists_removed<Key, Value>(
    extracted: Seq<CachedDataItem<Key, Value>>,
    before: Map<Key, Value>,
    after: Map<Key, Value>,
) -> bool {
    &&& after.submap_of(before)
    &&& forall|i: int, j: int|
        0 <= i < j < extracted.len() ==> (#[trigger] extracted[i]).key != (
        #[trigger] extracted[j]).key
    &&& forall|i: int|
        0 <= i < extracted.len() ==> before.contains_key((#[trigger] extracted[i]).key)
            && before[extracted[i].key] == extracted[i].value && !after.contains_key(
            extracted[i].key,
        )
    &&& forall|key: Key|
        #![trigger after.contains_key(key)]
        before.contains_key(key) && !after.contains_key(key) ==> exists|i: int|
            0 <= i < extracted.len() && (#[trigger] extracted[i]).key == key
}

/// Auto-implement for all types that implement [`CachedDataItemAdapter`].
impl<T: CachedDataItemAdapter> CachedDataItemAdapterExt for T {

}

/// The keys that are there once items have been added.
proof fn lemma_added_keys<Key, Value>(
    items: Map<Key, Value>,
    added: Seq<CachedDataItem<Key, Value>>,
)
    ensures
        forall|key: Key| #[trigger]
            with_added(items, added).contains_key(key) <==> items.contains_key(key) || exists|
                i: int,
            | 0 <= i < added.len() && (#[trigger] added[i]).key == key,
    decreases added.len(),
{
    if added.len() > 0 {
        lemma_added_keys(items, added.drop_last());
        let before = with_added(items, added.drop_last());
        assert forall|key: Key| #[trigger]
            with_added(items, added).contains_key(key) <==> items.contains_key(key) || exists|
                i: int,
            | 0 <= i < added.len() && (#[trigger] added[i]).key == key by {
            if exists|i: int| 0 <= i < added.len() && (#[trigger] added[i]).key == key {
                let i = choose|i: int| 0 <= i < added.len() && (#[trigger] added[i]).key == key;
                if i < added.len() - 1 {
                    assert(added.drop_last()[i].key == key);
                    assert(before.contains_key(key));
                }
            }
            if before.contains_key(key) && !items.contains_key(key) {
                let i = choose|i: int|
                    0 <= i < added.drop_last().len() && (#[trigger] added.drop_last()[i]).key
                        == key;
                assert(added[i].key == key);
            }
            if key == added.last().key {
                assert(added[added.len() - 1].key == key);
            }
        }
    }
}

/// Whether all items are fresh, with one more of them.
proof fn lemma_fresh_next<Key, Value>(
    items: Map<Key, Value>,
    added: Seq<CachedDataItem<Key, Value>>,
    i: int,
)
    requires
        0 <= i < added.len(),
    ensures
        all_fresh(items, added.take(i + 1)) == (all_fresh(items, added.take(i)) && !with_added(
            items,
            added.take(i),
        ).contains_key(added[i].key)),
{
    lemma_added_keys(items, added.take(i));
    let now = added.take(i);
    let next = added.take(i + 1);
    assert(next =~= now.push(added[i]));
    if all_fresh(items, next) {
        assert forall|k: int| 0 <= k < now.len() implies !items.contains_key(
            (#[trigger] now[k]).key,
        ) by {
            assert(next[k] == now[k]);
        }
        assert forall|k: int, j: int| 0 <= k < j < now.len() implies (#[trigger] now[k]).key != (
        #[trigger] now[j]).key by {
            assert(next[k] == now[k] && next[j] == now[j]);
        }
        assert(!items.contains_key(next[i].key));
        assert forall|k: int| 0 <= k < now.len() implies (#[trigger] now[k]).key
            != added[i].key by {
            assert(next[k].key != next[i].key);
        }
    }
    if all_fresh(items, now) && !with_added(items, now).contains_key(added[i].key) {
        assert forall|k: int| 0 <= k < next.len() implies !items.contains_key(
            (#[trigger] next[k]).key,
        ) by {
            if k < i {
                assert(next[k] == now[k]);
            }
        }
        assert forall|k: int, j: int| 0 <= k < j < next.len() implies (#[trigger] next[k]).key != (
        #[trigger] next[j]).key by {
            assert(next[k] == now[k]);
            if j < i {
                assert(next[j] == now[j]);
            } else {
                assert(now[k].key != added[i].key);
            }
        }
    }
}

/// Adding items overwrites nothing; items that are all new are there with their values afterwards.
pub proof fn law_adding_overwrites_nothing<Key, Value>(
    items: Map<Key, Value>,
    added: Seq<CachedDataItem<Key, Value>>,
)
    ensures
        items.submap_of(with_added(items, added)),
        all_fresh(items, added) ==> forall|i: int|
            0 <= i < added.len() ==> with_added(items, added).get((#[trigger] added[i]).key) == Some(
                added[i].value,
            ),
    decreases added.len(),
{
    if added.len() > 0 {
        let n = added.len() - 1;
        law_adding_overwrites_nothing(items, added.drop_last());
        let before = with_added(items, added.drop_last());
        let after = with_added(items, added);
        assert forall|key: Key| #[trigger] items.dom().contains(key) implies after.dom().contains(
            key,
        ) && items[key] == after[key] by {
            assert(before.dom().contains(key));
        }
        lemma_fresh_next(items, added, n);
        assert(added.take(n) =~= added.drop_last());
        assert(added.take(n + 1) =~= added);
        if all_fresh(items, added) {
            assert forall|i: int| 0 <= i < added.len() implies with_added(items, added).get(
                (#[trigger] added[i]).key,
            ) == Some(added[i].value) by {
                if i < n {
                    assert(added.drop_last()[i] == added[i]);
                }
            }
        }
    }
}

/// Of the items that are added, the first with a key that is not there gets in; one with a key that
/// is there already, or that an earlier one had, does not. No key gets in besides. All of the items
/// are new exactly where each of them gets in.
pub proof fn law_the_first_item_of_a_key_gets_in<Key, Value>(
    items: Map<Key, Value>,
    added: Seq<CachedDataItem<Key, Value>>,
    key: Key,
    i: int,
)
    ensures
        items.contains_key(key) ==> with_added(items, added).contains_key(key) && with_added(
            items,
            added,
        )[key] == items[key],
        0 <= i < added.len() && added[i].key == key && !items.contains_key(key) && (forall|j: int|
            0 <= j < i ==> (#[trigger] added[j]).key != key) ==> with_added(
            items,
            added,
        ).contains_key(key) && with_added(items, added)[key] == added[i].value,
        with_added(items, added).contains_key(key) ==> items.contains_key(key) || exists|j: int|
            0 <= j < added.len() && (#[trigger] added[j]).key == key,
        all_fresh(items, added) <==> forall|j: int|
            0 <= j < added.len() ==> !with_added(items, #[trigger] added.take(j)).contains_key(
                added[j].key,
            ),
    decreases added.len(),
{
    lemma_added_keys(items, added);
    if added.len() > 0 {
        let n = added.len() - 1;
        let rest = added.drop_last();
        law_the_first_item_of_a_key_gets_in(items, rest, key, i);
        assert(added.take(n) =~= rest);
        assert(added.take(n + 1) =~= added);
        lemma_fresh_next(items, added, n);
        if 0 <= i < added.len() && added[i].key == key && !items.contains_key(key) && (forall|j: int|
            0 <= j < i ==> (#[trigger] added[j]).key != key) {
            if i < n {
                assert(rest[i] == added[i]);
                assert forall|j: int| 0 <= j < i implies (#[trigger] rest[j]).key != key by {
                    assert(added[j].key != key);
                }
            } else {
                lemma_added_keys(items, rest);
                assert forall|j: int| 0 <= j < rest.len() implies (#[trigger] rest[j]).key
                    != key by {
                    assert(added[j].key != key);
                }
            }
        }
        assert forall|j: int| 0 <= j < n implies #[trigger] added.take(j) == rest.take(j) by {
            assert(added.take(j) =~= rest.take(j));
        }
        if all_fresh(items, added) {
            assert forall|j: int| 0 <= j < added.len() implies !with_added(
                items,
                #[trigger] added.take(j),
            ).contains_key(added[j].key) by {
                if j < n {
                    assert(rest.take(j) == added.take(j));
                    assert(rest[j] == added[j]);
                }
            }
        }
        if forall|j: int|
            0 <= j < added.len() ==> !with_added(items, #[trigger] added.take(j)).contains_key(
                added[j].key,
            ) {
            assert forall|j: int| 0 <= j < rest.len() implies !with_added(
                items,
                #[trigger] rest.take(j),
            ).contains_key(rest[j].key) by {
                assert(added.take(j) == rest.take(j));
                assert(rest[j] == added[j]);
            }
            assert(!with_added(items, added.take(n)).contains_key(added[n].key));
        }
    }
}

/// Entries that list items hold each item once with its value, and no other.
pub proof fn law_listed_items_are_the_items<Key, Value>(
    entries: Seq<(Key, &Value)>,
    items: Map<Key, Value>,
    key: Key,
)
    requires
        lists_items(entries, items),
    ensures
        items.contains_key(key) <==> exists|i: int|
            0 <= i < entries.len() && (#[trigger] entries[i]).0 == key,
        forall|i: int|
            0 <= i < entries.len() && (#[trigger] entries[i]).0 == key ==> *entries[i].1
                == items[key],
        forall|i: int, j: int|
            0 <= i < entries.len() && 0 <= j < entries.len() && (#[trigger] entries[i]).0 == (
            #[trigger] entries[j]).0 ==> i == j,
{
    assert forall|i: int, j: int|
        0 <= i < entries.len() && 0 <= j < entries.len() && (#[trigger] entries[i]).0 == (
        #[trigger] entries[j]).0 implies i == j by {
        if i < j {
            assert(entries[i].0 != entries[j].0);
        }
        if j < i {
            assert(entries[j].0 != entries[i].0);
        }
    }
}

/// What is extracted and what is left make up what was there: an item is in one of the two, with
/// its value, and never in both.
pub proof fn law_extracting_splits_the_items<Key, Value>(
    extracted: Seq<CachedDataItem<Key, Value>>,
    before: Map<Key, Value>,
    after: Map<Key, Value>,
    key: Key,
)
    requires
        lists_removed(extracted, before, after),
    ensures
        before.contains_key(key) <==> after.contains_key(key) || exists|i: int|
            0 <= i < extracted.len() && (#[trigger] extracted[i]).key == key,
        after.contains_key(key) ==> after[key] == before[key] && forall|i: int|
            0 <= i < extracted.len() ==> (#[trigger] extracted[i]).key != key,
        forall|i: int|
            0 <= i < extracted.len() && (#[trigger] extracted[i]).key == key
                ==> extracted[i].value == before[key],
        forall|i: int, j: int|
            0 <= i < extracted.len() && 0 <= j < extracted.len() && (#[trigger] extracted[i]).key
                == (#[trigger] extracted[j]).key ==> i == j,
{
    assert forall|i: int, j: int|
        0 <= i < extracted.len() && 0 <= j < extracted.len() && (#[trigger] extracted[i]).key == (
        #[trigger] extracted[j]).key implies i == j by {
        if i < j {
            assert(extracted[i].key != extracted[j].key);
        }
        if j < i {
            assert(extracted[j].key != extracted[i].key);
        }
    }
    assert(after.dom().contains(key) ==> before.dom().contains(key));
    assert(after.contains_key(key) || !after.contains_key(key));
}

} // verus!
