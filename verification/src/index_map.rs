//! Maps that remember the order in which their keys came.
use indexmap::IndexMap;
use rustc_hash::FxBuildHasher;
use vstd::prelude::*;

use crate::category::TaskDataCategory;
use crate::ids::TaskId;

verus! {

/// A map that remembers the order in which its keys came.
pub type FxIndexMap<K, V> = IndexMap<K, V, FxBuildHasher>;

/// `indexmap::IndexMap`, carried through without looking inside.
#[verifier::external_type_specification]
#[verifier::external_body]
#[verifier::reject_recursive_types(K)]
#[verifier::reject_recursive_types(V)]
#[verifier::reject_recursive_types(S)]
pub struct ExIndexMap<K, V, S>(indexmap::IndexMap<K, V, S>);

/// The entries of a map from tasks to categories, in the map's order.
pub uninterp spec fn index_entries(map: FxIndexMap<TaskId, TaskDataCategory>) -> Seq<
    (TaskId, TaskDataCategory),
>;

/// The entries after `value` has been stored for `key`: an entry that is there keeps its place and
/// gets the new value, a new one goes to the end.
pub open spec fn index_inserted(
    entries: Seq<(TaskId, TaskDataCategory)>,
    key: TaskId,
    value: TaskDataCategory,
) -> Seq<(TaskId, TaskDataCategory)> {
    if exists|i: int| 0 <= i < entries.len() && (#[trigger] entries[i]).0 == key {
        let i = choose|i: int| 0 <= i < entries.len() && (#[trigger] entries[i]).0 == key;
        entries.update(i, (key, value))
    } else {
        entries.push((key, value))
    }
}

/// `indexmap::IndexMap::default`: a map without entries.
#[verifier::external_body]
pub(crate) fn new_index_map() -> (map: FxIndexMap<TaskId, TaskDataCategory>)
    ensures
        index_entries(map) == Seq::<(TaskId, TaskDataCategory)>::empty(),
{
    IndexMap::default()
}

/// `indexmap::IndexMap::insert`: a key that is there keeps its place, gets the new value and its
/// old value is given back; a new key goes to the end. No key is ever there twice, so it is clear
/// which entry gets the new value.
#[verifier::external_body]
pub(crate) fn insert_index(
    map: &mut FxIndexMap<TaskId, TaskDataCategory>,
    key: TaskId,
    value: TaskDataCategory,
) -> (replaced: Option<TaskDataCategory>)
    ensures
        index_entries(*final(map)) == index_inserted(index_entries(*old(map)), key, value),
        match replaced {
            Some(before) => index_entries(*old(map)).contains((key, before)),
            None => forall|i: int|
                0 <= i < index_entries(*old(map)).len() ==> (#[trigger] index_entries(
                    *old(map),
                )[i]).0 != key,
        },
{
    map.insert(key, value)
}

/// `indexmap::IndexMap::len`: the number of entries.
#[verifier::external_body]
pub(crate) fn index_len(map: &FxIndexMap<TaskId, TaskDataCategory>) -> (len: usize)
    ensures
        len == index_entries(*map).len(),
{
    map.len()
}

/// Storing a value for a key leaves every other entry where and as it is: a key that is there keeps
/// its place, a new one goes to the end.
pub proof fn law_an_entry_keeps_its_place(
    entries: Seq<(TaskId, TaskDataCategory)>,
    key: TaskId,
    value: TaskDataCategory,
    i: int,
)
    requires
        forall|a: int, b: int|
            0 <= a < b < entries.len() ==> (#[trigger] entries[a]).0 != (#[trigger] entries[b]).0,
        0 <= i < entries.len(),
    ensures
        ({
            let after = index_inserted(entries, key, value);
            &&& after[i].0 == entries[i].0
            &&& after[i].1 == (if entries[i].0 == key {
                value
            } else {
                entries[i].1
            })
            &&& entries[i].0 == key ==> after.len() == entries.len()
            &&& (forall|a: int| 0 <= a < entries.len() ==> (#[trigger] entries[a]).0 != key)
                ==> after.len() == entries.len() + 1 && after.last() == (key, value)
        }),
{
    if exists|a: int| 0 <= a < entries.len() && (#[trigger] entries[a]).0 == key {
        let a = choose|a: int| 0 <= a < entries.len() && (#[trigger] entries[a]).0 == key;
        if a < i {
            assert(entries[a].0 != entries[i].0);
        }
        if i < a {
            assert(entries[i].0 != entries[a].0);
        }
    }
}

} // verus!
