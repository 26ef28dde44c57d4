//! Finding and creating lazy fields.
use vstd::prelude::*;

use crate::storage_schema::{LazyField, TaskStorage};

verus! {

/// Whether `extract` may reject `field`.
pub open spec fn rejects<T, F: for<'a> Fn(&'a mut LazyField) -> Option<&'a mut T>>(
    extract: F,
    field: LazyField,
) -> bool {
    exists|lent: &mut LazyField|
        *lent == field && #[trigger] extract.ensures((lent,), None::<&mut T>)
}

/// Whether `extract` may reject every one of `fields`.
pub open spec fn rejects_all<T, F: for<'a> Fn(&'a mut LazyField) -> Option<&'a mut T>>(
    extract: F,
    fields: Seq<LazyField>,
) -> bool {
    forall|j: int| 0 <= j < fields.len() ==> rejects::<T, F>(extract, #[trigger] fields[j])
}

/// Whether looking through `before`, up to the field at `k`, may have left `after`.
pub open spec fn scanned(before: Seq<LazyField>, k: int, after: Seq<LazyField>) -> bool {
    &&& after.len() == before.len()
    &&& 0 <= k <= before.len()
    &&& forall|j: int| k < j < before.len() ==> after[j] == #[trigger] before[j]
}

/// Finds the first field that `extract` accepts, with its position.
fn find_in<'f, T, F>(fields: &'f mut [LazyField], extract: &F) -> (result: (
    usize,
    Option<&'f mut T>,
)) where F: for<'a> Fn(&'a mut LazyField) -> Option<&'a mut T>
    requires
        forall|lent: &mut LazyField|
            old(fields)@.contains(*lent) ==> #[trigger] extract.requires((lent,)),
    ensures
        final(fields)@.len() == old(fields)@.len(),
        result.0 <= old(fields)@.len(),
        result.1 is Some <==> result.0 < old(fields)@.len(),
        forall|j: int|
            0 <= j < result.0 ==> rejects::<T, F>(*extract, #[trigger] old(fields)@[j]) && (
            exists|lent: &mut LazyField|
                *lent == old(fields)@[j] && *final(lent) == final(fields)@[j]
                    && #[trigger] extract.ensures((lent,), None::<&mut T>)),
        result.1 is Some ==> exists|lent: &mut LazyField|
            *lent == old(fields)@[result.0 as int] && *final(lent) == final(
                fields)@[result.0 as int] && #[trigger] extract.ensures((lent,), result.1),
        forall|j: int|
            result.0 < j < old(fields)@.len() ==> final(fields)@[j] == #[trigger] old(fields)@[j],
    decreases old(fields)@.len(),
{
    if fields.len() == 0 {
        return (0, None);
    }
    let ghost all = fields@;
    let (first, rest) = fields.split_at_mut(1);
    let ghost tail = rest@;
    assert(forall|j: int| 0 < j < all.len() ==> #[trigger] all[j] == tail[j - 1]);
    assert(all.contains(all[0]));
    assert forall|field: LazyField| tail.contains(field) implies all.contains(field) by {
        let j = choose|j: int| 0 <= j < tail.len() && tail[j] == field;
        assert(all[j + 1] == field);
    }
    let found = extract(&mut first[0]);
    if found.is_some() {
        (0, found)
    } else {
        let (i, found) = find_in(rest, extract);
        (i + 1, found)
    }
}

impl TaskStorage {
    /// Finds a lazy field by predicate (immutable).
    ///
    /// The `extract` closure should return `Some(&T)` for the matching variant,
    /// or `None` for non-matching variants.
    pub fn find_lazy<T>(&self, extract: impl Fn(&LazyField) -> Option<&T>) -> (found: Option<&T>)
        requires
            forall|i: int|
                0 <= i < self.lazy@.len() ==> extract.requires((&#[trigger] self.lazy@[i],)),
        ensures
            match found {
                Some(_) => exists|i: int|
                    {
                        &&& 0 <= i < self.lazy@.len()
                        &&& #[trigger] extract.ensures((&self.lazy@[i],), found)
                        &&& forall|j: int|
                            0 <= j < i ==> extract.ensures((&self.lazy@[j],), None::<&T>)
                    },
                None => forall|i: int|
                    0 <= i < self.lazy@.len() ==> extract.ensures((&self.lazy@[i],), None::<&T>),
            },
    {
        let mut i: usize = 0;
        while i < self.lazy.len()
            invariant
                i <= self.lazy@.len(),
                forall|j: int|
                    0 <= j < self.lazy@.len() ==> extract.requires((&#[trigger] self.lazy@[j],)),
                forall|j: int| 0 <= j < i ==> extract.ensures((&self.lazy@[j],), None::<&T>),
            decreases self.lazy@.len() - i,
        {
            let found = extract(&self.lazy[i]);
            if found.is_some() {
                return found;
            }
            i += 1;
        }
        None
    }

    /// Finds a lazy field by predicate (mutable).
    ///
    /// The `extract` closure should return `Some(&mut T)` for the matching variant,
    /// or `None` for non-matching variants.
    pub fn find_lazy_mut<T, F>(&mut self, extract: F) -> (found: Option<&mut T>) where
        F: for<'a> Fn(&'a mut LazyField) -> Option<&'a mut T>,

        requires
            forall|lent: &mut LazyField|
                old(self).lazy@.contains(*lent) ==> #[trigger] extract.requires((lent,)),
        ensures
            *final(self) == (TaskStorage { lazy: final(self).lazy, ..*old(self) }),
            final(self).lazy@.len() == old(self).lazy@.len(),
            match found {
                Some(_) => exists|i: int|
                    {
                        &&& 0 <= i < old(self).lazy@.len()
                        &&& forall|j: int|
                            0 <= j < i ==> rejects::<T, F>(extract, #[trigger] old(self).lazy@[j])
                                && (exists|lent: &mut LazyField|
                                *lent == old(self).lazy@[j] && *final(lent) == final(self).lazy@[j]
                                    && #[trigger] extract.ensures((lent,), None::<&mut T>))
                        &&& exists|lent: &mut LazyField|
                            *lent == (#[trigger] old(self).lazy@[i]) && *final(lent)
                                == final(self).lazy@[i] && #[trigger] extract.ensures(
                                (lent,),
                                found,
                            )
                        &&& forall|j: int|
                            i < j < old(self).lazy@.len() ==> final(self).lazy@[j]
                                == #[trigger] old(self).lazy@[j]
                    },
                None => forall|j: int|
                    0 <= j < old(self).lazy@.len() ==> rejects::<T, F>(
                        extract,
                        #[trigger] old(self).lazy@[j],
                    ) && (exists|lent: &mut LazyField|
                        *lent == old(self).lazy@[j] && *final(lent) == final(self).lazy@[j]
                            && #[trigger] extract.ensures((lent,), None::<&mut T>)),
            },
    {
        let ghost before = self.lazy@;
        let (i, found) = find_in(self.lazy.as_mut_slice(), &extract);
        assert(found is Some ==> before.contains(before[i as int]));
        found
    }

    /// Gets or creates a lazy field, returning a mutable reference.
    ///
    /// Uses a single `extract` closure that serves as both the matcher (by returning `Some` or
    /// `None`) and the value extractor: it is first used to find the field's position, then to
    /// extract the mutable reference. So it has to accept a field that it has just accepted and,
    /// where it accepts none, the field that `create` makes.
    pub fn get_or_create_lazy<T, F, C>(&mut self, extract: F, create: C) -> (value: &mut T) where
        F: for<'a> Fn(&'a mut LazyField) -> Option<&'a mut T>,
        C: FnOnce() -> LazyField,

        requires
            forall|lent: &mut LazyField|
                old(self).lazy@.contains(*lent) ==> #[trigger] extract.requires((lent,)),
            forall|lent: &mut LazyField, seen: Option<&mut T>, again: &mut LazyField|
                #[trigger] extract.ensures((lent,), seen) && old(self).lazy@.contains(*lent)
                    && seen is Some && *final(seen->0) == *seen->0 && *again == *final(lent)
                    ==> #[trigger] extract.requires((again,)),
            forall|
                lent: &mut LazyField,
                seen: Option<&mut T>,
                again: &mut LazyField,
                found: Option<&mut T>,
            |
                #[trigger] extract.ensures((lent,), seen) && old(self).lazy@.contains(*lent)
                    && seen is Some && *final(seen->0) == *seen->0 && *again == *final(lent)
                    && #[trigger] extract.ensures((again,), found) ==> found is Some,
            // `create` is called only where no field is accepted
            rejects_all::<T, F>(extract, old(self).lazy@) ==> create.requires(()),
            rejects_all::<T, F>(extract, old(self).lazy@) ==> forall|lent: &mut LazyField|
                create.ensures((), *lent) ==> #[trigger] extract.requires((lent,)),
            rejects_all::<T, F>(extract, old(self).lazy@) ==> forall|
                lent: &mut LazyField,
                found: Option<&mut T>,
            |
                create.ensures((), *lent) && #[trigger] extract.ensures((lent,), found)
                    ==> found is Some,
        ensures
            *final(self) == (TaskStorage { lazy: final(self).lazy, ..*old(self) }),
            exists|k: int, seen: Seq<LazyField>|
                {
                    &&& #[trigger] scanned(old(self).lazy@, k, seen)
                    &&& forall|j: int|
                        0 <= j < k ==> rejects::<T, F>(extract, #[trigger] old(self).lazy@[j]) && (
                        exists|lent: &mut LazyField|
                            *lent == old(self).lazy@[j] && *final(lent) == seen[j]
                                && #[trigger] extract.ensures((lent,), None::<&mut T>))
                    &&& if k < old(self).lazy@.len() {
                        &&& exists|lent: &mut LazyField, first: Option<&mut T>|
                            *lent == old(self).lazy@[k] && *final(lent) == seen[k] && first is Some
                                && *final(first->0) == *first->0 && #[trigger] extract.ensures(
                                (lent,),
                                first,
                            )
                        &&& exists|lent: &mut LazyField|
                            *lent == seen[k] && final(self).lazy@ == seen.update(k, *final(lent))
                                && #[trigger] extract.ensures((lent,), Some(value))
                    } else {
                        exists|lent: &mut LazyField|
                            create.ensures((), *lent) && final(self).lazy@ == seen.push(
                                *final(lent),
                            ) && #[trigger] extract.ensures((lent,), Some(value))
                    }
                },
    {
        let ghost before = self.lazy@;
        let (i, found) = find_in(self.lazy.as_mut_slice(), &extract);
        if found.is_some() {
            assert(scanned(before, i as int, self.lazy@));
            extract(&mut self.lazy[i]).unwrap()
        } else {
            assert(scanned(before, i as int, self.lazy@));
            self.lazy.push(create());
            let last: usize = self.lazy.len() - 1;
            extract(&mut self.lazy[last]).unwrap()
        }
    }
}

/// Looking through fields adds none and takes none away, and leaves those behind the last one that
/// was looked at as they are.
pub proof fn law_looking_keeps_the_fields(
    before: Seq<LazyField>,
    k: int,
    after: Seq<LazyField>,
    j: int,
)
    requires
        scanned(before, k, after),
    ensures
        after.len() == before.len(),
        0 <= k <= before.len(),
        k < j < before.len() ==> after[j] == before[j],
        k == 0 && before.len() > 0 ==> after.skip(1) == before.skip(1),
{
    assert(k == 0 && before.len() > 0 ==> after.skip(1) =~= before.skip(1));
}

/// A field is rejected only by an `extract` that may give nothing for it, and fields are all
/// rejected where each of them is.
pub proof fn law_rejecting_is_giving_nothing<
    T,
    F: for<'a> Fn(&'a mut LazyField) -> Option<&'a mut T>,
>(extract: F, field: LazyField, fields: Seq<LazyField>)
    ensures
        (forall|lent: &mut LazyField, found: Option<&mut T>|
            *lent == field && #[trigger] extract.ensures((lent,), found) ==> found is Some)
            ==> !rejects::<T, F>(extract, field),
        rejects_all::<T, F>(extract, fields.push(field)) <==> rejects_all::<T, F>(extract, fields)
            && rejects::<T, F>(extract, field),
        rejects_all::<T, F>(extract, Seq::empty()),
{
    let more = fields.push(field);
    assert(more[fields.len() as int] == field);
    if rejects_all::<T, F>(extract, more) {
        assert forall|j: int| 0 <= j < fields.len() implies rejects::<T, F>(
            extract,
            #[trigger] fields[j],
        ) by {
            assert(more[j] == fields[j]);
        }
    }
}

} // verus!
