//! Reading persisted data through a read transaction.
use vstd::prelude::*;

use crate::category::{SpecificTaskDataCategory, TaskDataCategory};
use crate::ids::TaskId;
use crate::storage_schema::{TaskStorage, TaskStorageSchema};

verus! {

/// The read transaction of an operation.
pub enum TransactionState<'a, T> {
    /// None has been needed so far.
    NotStarted,
    /// One that somebody else has started, if it is more than the empty one.
    Borrowed(Option<&'a T>),
    /// One that has been started here, if it is more than the empty one.
    Owned(Option<T>),
}

/// Persisted data that could not be read.
#[derive(Debug)]
pub struct RestoreError<E> {
    /// Whether reading the metadata failed while everything was to be read.
    pub meta_of_all: bool,
    /// What was being read.
    pub category: TaskDataCategory,
    /// Why it could not be read.
    pub error: E,
}

impl<'a, T> TransactionState<'a, T> {
    /// The transaction.
    pub open spec fn transaction(self) -> Option<&'a T> {
        match self {
            TransactionState::NotStarted => None,
            TransactionState::Borrowed(tx) => tx,
            TransactionState::Owned(Some(tx)) => Some(&tx),
            TransactionState::Owned(None) => None,
        }
    }

    /// Whether persisted data may be looked at with `tx`: with the transaction that there is, or
    /// else with one that is started because data has to be restored.
    pub open spec fn may_look_with<S: FnOnce() -> Option<T>>(
        self,
        should_restore: bool,
        local_is_partial: bool,
        start_read_transaction: S,
        tx: Option<&T>,
    ) -> bool {
        if self is NotStarted {
            should_restore && local_is_partial && exists|started: Option<T>| #[trigger]
                start_read_transaction.ensures((), started) && tx
                    == TransactionState::<'a, T>::Owned(started).transaction()
        } else {
            tx == self.transaction()
        }
    }

    /// Makes sure that there is a transaction, where persisted data has to be looked at.
    ///
    /// Returns whether it has to: it need not if no data is restored, or if all of it is in
    /// memory, unless there is a transaction already.
    pub fn ensure_transaction<S: FnOnce() -> Option<T>>(
        &mut self,
        should_restore: bool,
        local_is_partial: bool,
        start_read_transaction: S,
    ) -> (check_backing_storage: bool)
        requires
            *old(self) is NotStarted && should_restore && local_is_partial
                ==> start_read_transaction.requires(()),
        ensures
            check_backing_storage == (!(*old(self) is NotStarted) || should_restore && local_is_partial),
            if *old(self) is NotStarted && check_backing_storage {
                exists|tx: Option<T>| #[trigger]
                    start_read_transaction.ensures((), tx) && *final(self)
                        == TransactionState::<'a, T>::Owned(tx)
            } else {
                *final(self) == *old(self)
            },
    {
        if matches!(self, TransactionState::NotStarted) {
            let check_backing_storage = should_restore && local_is_partial;
            if !check_backing_storage {
                return false;
            }
            let tx = start_read_transaction();
            *self = TransactionState::Owned(tx);
        }
        true
    }

    /// The transaction, once there is one.
    pub fn get_tx(&self) -> (tx: Option<&T>)
        requires
            !(*self is NotStarted),
        ensures
            tx == self.transaction(),
    {
        match self {
            TransactionState::NotStarted => None,
            TransactionState::Borrowed(tx) => *tx,
            TransactionState::Owned(tx) => tx.as_ref(),
        }
    }

    /// Reads the persisted data of `category` into `storage`, where persisted data has to be looked
    /// at. Otherwise `storage` stays as it is.
    pub fn restore_task_data_typed<S, M, D, E>(
        &mut self,
        should_restore: bool,
        local_is_partial: bool,
        start_read_transaction: S,
        task_id: TaskId,
        category: TaskDataCategory,
        storage: &mut TaskStorage,
        lookup_typed_meta: M,
        lookup_typed_data: D,
    ) -> (result: Result<(), RestoreError<E>>) where
        S: FnOnce() -> Option<T>,
        M: FnOnce(Option<&T>, TaskId, &mut TaskStorage) -> Result<(), E>,
        D: FnOnce(Option<&T>, TaskId, &mut TaskStorage) -> Result<(), E>,

        requires
            *old(self) is NotStarted && should_restore && local_is_partial
                ==> start_read_transaction.requires(()),
            category.covers(SpecificTaskDataCategory::Meta) ==> forall|
                tx: Option<&T>,
                lent: &mut TaskStorage,
            |
                old(self).may_look_with(should_restore, local_is_partial, start_read_transaction, tx)
                    && *lent == *old(storage) ==> #[trigger] lookup_typed_meta.requires(
                    (tx, task_id, lent),
                ),
            category is Data ==> forall|tx: Option<&T>, lent: &mut TaskStorage|
                old(self).may_look_with(should_restore, local_is_partial, start_read_transaction, tx)
                    && *lent == *old(storage) ==> #[trigger] lookup_typed_data.requires(
                    (tx, task_id, lent),
                ),
            category is All ==> forall|
                tx: Option<&T>,
                first: &mut TaskStorage,
                read: Result<(), E>,
                lent: &mut TaskStorage,
            |
                old(self).may_look_with(should_restore, local_is_partial, start_read_transaction, tx)
                    && *first == *old(storage) && #[trigger] lookup_typed_meta.ensures(
                    (tx, task_id, first),
                    read,
                ) && read is Ok && *lent == *final(first) ==> #[trigger] lookup_typed_data.requires(
                    (tx, task_id, lent),
                ),
        ensures
            if *old(self) is NotStarted && should_restore && local_is_partial {
                exists|tx: Option<T>| #[trigger]
                    start_read_transaction.ensures((), tx) && *final(self)
                        == TransactionState::<'a, T>::Owned(tx)
            } else {
                *final(self) == *old(self)
            },
            if *old(self) is NotStarted && !(should_restore && local_is_partial) {
                *final(storage) == *old(storage) && result is Ok
            } else {
                match category {
                    TaskDataCategory::Meta => exists|lent: &mut TaskStorage, read: Result<(), E>|
                        {
                            &&& #[trigger] lookup_typed_meta.ensures((final(self).transaction(), task_id, lent), read)
                            &&& *lent == *old(storage)
                            &&& *final(lent) == *final(storage) && result == reading(read, false, category)
                        },
                    TaskDataCategory::Data => exists|lent: &mut TaskStorage, read: Result<(), E>|
                        {
                            &&& #[trigger] lookup_typed_data.ensures((final(self).transaction(), task_id, lent), read)
                            &&& *lent == *old(storage)
                            &&& *final(lent) == *final(storage) && result == reading(read, false, category)
                        },
                    TaskDataCategory::All => exists|lent: &mut TaskStorage, read: Result<(), E>|
                        {
                            &&& #[trigger] lookup_typed_meta.ensures((final(self).transaction(), task_id, lent), read)
                            &&& *lent == *old(storage)
                            &&& match read {
                                Err(_) => *final(lent) == *final(storage) && result == reading(read, true, TaskDataCategory::Meta),
                                Ok(_) => exists|again: &mut TaskStorage, read: Result<(), E>|
                                    {
                                        &&& #[trigger] lookup_typed_data.ensures((final(self).transaction(), task_id, again), read)
                                        &&& *again == *final(lent)
                                        &&& *final(again) == *final(storage) && result == reading(read, false, category)
                                    },
                            }
                        },
                }
            },
    {
        if !self.ensure_transaction(should_restore, local_is_partial, start_read_transaction) {
            // If we don't need to restore, nothing to do
            return Ok(());
        }
        lookup_typed(
            self.get_tx(),
            task_id,
            category,
            storage,
            lookup_typed_meta,
            lookup_typed_data,
        )
    }

    /// Reads the persisted data of `category` into a new storage, where persisted data has to be
    /// looked at. Otherwise the new storage is empty.
    pub fn restore_task_data_typed_single<S, M, D, E>(
        &mut self,
        should_restore: bool,
        local_is_partial: bool,
        start_read_transaction: S,
        task_id: TaskId,
        category: TaskDataCategory,
        lookup_typed_meta: M,
        lookup_typed_data: D,
    ) -> (result: Result<TaskStorage, RestoreError<E>>) where
        S: FnOnce() -> Option<T>,
        M: FnOnce(Option<&T>, TaskId, &mut TaskStorage) -> Result<(), E>,
        D: FnOnce(Option<&T>, TaskId, &mut TaskStorage) -> Result<(), E>,

        requires
            *old(self) is NotStarted && should_restore && local_is_partial
                ==> start_read_transaction.requires(()),
            category.covers(SpecificTaskDataCategory::Meta) ==> forall|
                tx: Option<&T>,
                lent: &mut TaskStorage,
            |
                old(self).may_look_with(should_restore, local_is_partial, start_read_transaction, tx)
                    && lent.wf() && lent@ == TaskStorageSchema::empty()
                    ==> #[trigger] lookup_typed_meta.requires((tx, task_id, lent)),
            category is Data ==> forall|tx: Option<&T>, lent: &mut TaskStorage|
                old(self).may_look_with(should_restore, local_is_partial, start_read_transaction, tx)
                    && lent.wf() && lent@ == TaskStorageSchema::empty()
                    ==> #[trigger] lookup_typed_data.requires((tx, task_id, lent)),
            category is All ==> forall|
                tx: Option<&T>,
                first: &mut TaskStorage,
                read: Result<(), E>,
                lent: &mut TaskStorage,
            |
                old(self).may_look_with(should_restore, local_is_partial, start_read_transaction, tx)
                    && first.wf() && first@ == TaskStorageSchema::empty()
                    && #[trigger] lookup_typed_meta.ensures((tx, task_id, first), read)
                    && read is Ok && *lent == *final(first)
                    ==> #[trigger] lookup_typed_data.requires((tx, task_id, lent)),
        ensures
            if *old(self) is NotStarted && should_restore && local_is_partial {
                exists|tx: Option<T>| #[trigger]
                    start_read_transaction.ensures((), tx) && *final(self)
                        == TransactionState::<'a, T>::Owned(tx)
            } else {
                *final(self) == *old(self)
            },
            if *old(self) is NotStarted && !(should_restore && local_is_partial) {
                result matches Ok(storage) && storage.wf() && storage@ == TaskStorageSchema::empty()
            } else {
                match category {
                    TaskDataCategory::Meta => exists|lent: &mut TaskStorage, read: Result<(), E>|
                        {
                            &&& #[trigger] lookup_typed_meta.ensures((final(self).transaction(), task_id, lent), read)
                            &&& lent.wf() && lent@ == TaskStorageSchema::empty()
                            &&& result == holding(read, *final(lent), false, category)
                        },
                    TaskDataCategory::Data => exists|lent: &mut TaskStorage, read: Result<(), E>|
                        {
                            &&& #[trigger] lookup_typed_data.ensures((final(self).transaction(), task_id, lent), read)
                            &&& lent.wf() && lent@ == TaskStorageSchema::empty()
                            &&& result == holding(read, *final(lent), false, category)
                        },
                    TaskDataCategory::All => exists|lent: &mut TaskStorage, read: Result<(), E>|
                        {
                            &&& #[trigger] lookup_typed_meta.ensures((final(self).transaction(), task_id, lent), read)
                            &&& lent.wf() && lent@ == TaskStorageSchema::empty()
                            &&& match read {
                                Err(_) => result == holding(read, *final(lent), true, TaskDataCategory::Meta),
                                Ok(_) => exists|again: &mut TaskStorage, read: Result<(), E>|
                                    {
                                        &&& #[trigger] lookup_typed_data.ensures((final(self).transaction(), task_id, again), read)
                                        &&& *again == *final(lent)
                                        &&& result == holding(read, *final(again), false, category)
                                    },
                            }
                        },
                }
            },
    {
        let mut storage = TaskStorage::new();
        self.restore_task_data_typed(
            should_restore,
            local_is_partial,
            start_read_transaction,
            task_id,
            category,
            &mut storage,
            lookup_typed_meta,
            lookup_typed_data,
        )?;
        Ok(storage)
    }

    /// Reads the persisted data of several tasks, one storage for each of them, where persisted
    /// data has to be looked at. Otherwise returns `None`.
    ///
    /// For one task there is [`TransactionState::restore_task_data_typed_single`].
    pub fn restore_task_data_typed_batch<S, L, E>(
        &mut self,
        should_restore: bool,
        local_is_partial: bool,
        start_read_transaction: S,
        task_ids: &Vec<TaskId>,
        category: TaskDataCategory,
        batch_lookup_typed: L,
    ) -> (result: Result<Option<Vec<TaskStorage>>, RestoreError<E>>) where
        S: FnOnce() -> Option<T>,
        L: FnOnce(Option<&T>, &Vec<TaskId>, TaskDataCategory) -> Result<Vec<TaskStorage>, E>,

        requires
            task_ids@.len() > 1,
            *old(self) is NotStarted && should_restore && local_is_partial
                ==> start_read_transaction.requires(()),
            forall|tx: Option<&T>|
                old(self).may_look_with(should_restore, local_is_partial, start_read_transaction, tx)
                    ==> #[trigger] batch_lookup_typed.requires((tx, task_ids, category)),
        ensures
            if *old(self) is NotStarted && should_restore && local_is_partial {
                exists|tx: Option<T>| #[trigger]
                    start_read_transaction.ensures((), tx) && *final(self)
                        == TransactionState::<'a, T>::Owned(tx)
            } else {
                *final(self) == *old(self)
            },
            if *old(self) is NotStarted && !(should_restore && local_is_partial) {
                result matches Ok(None)
            } else {
                exists|read: Result<Vec<TaskStorage>, E>| #[trigger]
                    batch_lookup_typed.ensures(
                        (final(self).transaction(), task_ids, category),
                        read,
                    ) && result == (match read {
                        Ok(storages) => Ok(Some(storages)),
                        Err(error) => Err(RestoreError { meta_of_all: false, category, error }),
                    })
            },
    {
        if !self.ensure_transaction(should_restore, local_is_partial, start_read_transaction) {
            // If we don't need to restore, we return None
            return Ok(None);
        }
        match batch_lookup_typed(self.get_tx(), task_ids, category) {
            Ok(storages) => Ok(Some(storages)),
            Err(error) => Err(RestoreError { meta_of_all: false, category, error }),
        }
    }
}

/// Reads the persisted data of `category` into `storage`: for everything the metadata first, and
/// the rest only if that went well.
pub fn lookup_typed<T, M, D, E>(
    tx: Option<&T>,
    task_id: TaskId,
    category: TaskDataCategory,
    storage: &mut TaskStorage,
    lookup_typed_meta: M,
    lookup_typed_data: D,
) -> (result: Result<(), RestoreError<E>>) where
    M: FnOnce(Option<&T>, TaskId, &mut TaskStorage) -> Result<(), E>,
    D: FnOnce(Option<&T>, TaskId, &mut TaskStorage) -> Result<(), E>,

    requires
        category.covers(SpecificTaskDataCategory::Meta) ==> forall|lent: &mut TaskStorage|
            *lent == *old(storage) ==> #[trigger] lookup_typed_meta.requires((tx, task_id, lent)),
        category is Data ==> forall|lent: &mut TaskStorage|
            *lent == *old(storage) ==> #[trigger] lookup_typed_data.requires((tx, task_id, lent)),
        category is All ==> forall|
            first: &mut TaskStorage,
            read: Result<(), E>,
            lent: &mut TaskStorage,
        |
            *first == *old(storage) && #[trigger] lookup_typed_meta.ensures(
                (tx, task_id, first),
                read,
            ) && read is Ok && *lent == *final(first) ==> #[trigger] lookup_typed_data.requires(
                (tx, task_id, lent),
            ),
    ensures
        match category {
            TaskDataCategory::Meta => exists|lent: &mut TaskStorage, read: Result<(), E>|
                {
                    &&& #[trigger] lookup_typed_meta.ensures((tx, task_id, lent), read)
                    &&& *lent == *old(storage)
                    &&& *final(lent) == *final(storage)
                    &&& result == reading(read, false, category)
                },
            TaskDataCategory::Data => exists|lent: &mut TaskStorage, read: Result<(), E>|
                {
                    &&& #[trigger] lookup_typed_data.ensures((tx, task_id, lent), read)
                    &&& *lent == *old(storage)
                    &&& *final(lent) == *final(storage)
                    &&& result == reading(read, false, category)
                },
            TaskDataCategory::All => exists|lent: &mut TaskStorage, read: Result<(), E>|
                {
                    &&& #[trigger] lookup_typed_meta.ensures((tx, task_id, lent), read)
                    &&& *lent == *old(storage)
                    &&& match read {
                        Err(_) => {
                            &&& *final(lent) == *final(storage)
                            &&& result == reading(read, true, TaskDataCategory::Meta)
                        },
                        Ok(_) => exists|again: &mut TaskStorage, read: Result<(), E>|
                            {
                                &&& #[trigger] lookup_typed_data.ensures((tx, task_id, again), read)
                                &&& *again == *final(lent)
                                &&& *final(again) == *final(storage)
                                &&& result == reading(read, false, category)
                            },
                    }
                },
        },
{
    let result = match category {
        TaskDataCategory::Meta => lookup_typed_meta(tx, task_id, storage),
        TaskDataCategory::Data => lookup_typed_data(tx, task_id, storage),
        TaskDataCategory::All => {
            if let Err(error) = lookup_typed_meta(tx, task_id, storage) {
                return Err(
                    RestoreError { meta_of_all: true, category: TaskDataCategory::Meta, error },
                );
            }
            lookup_typed_data(tx, task_id, storage)
        },
    };
    match result {
        Ok(()) => Ok(()),
        Err(error) => Err(RestoreError { meta_of_all: false, category, error }),
    }
}

/// What comes of having read persisted data into `storage`.
pub open spec fn holding<E>(
    read: Result<(), E>,
    storage: TaskStorage,
    meta_of_all: bool,
    category: TaskDataCategory,
) -> Result<TaskStorage, RestoreError<E>> {
    match read {
        Ok(_) => Ok(storage),
        Err(error) => Err(RestoreError { meta_of_all, category, error }),
    }
}

/// What comes of having read persisted data.
pub open spec fn reading<E>(
    read: Result<(), E>,
    meta_of_all: bool,
    category: TaskDataCategory,
) -> Result<(), RestoreError<E>> {
    match read {
        Ok(_) => Ok(()),
        Err(error) => Err(RestoreError { meta_of_all, category, error }),
    }
}

/// There is no transaction before one is started or borrowed, and then it is that one. What has not
/// been started can be looked at only where data is to be restored and not all of it is in memory,
/// with a transaction that has been started for it.
pub proof fn law_the_transaction_that_there_is<'a, T, S: FnOnce() -> Option<T>>(
    borrowed: Option<&'a T>,
    owned: Option<T>,
    should_restore: bool,
    local_is_partial: bool,
    start_read_transaction: S,
    tx: Option<&'a T>,
)
    ensures
        TransactionState::<'a, T>::NotStarted.transaction() is None,
        TransactionState::<'a, T>::Borrowed(borrowed).transaction() == borrowed,
        TransactionState::<'a, T>::Owned(owned).transaction() is Some <==> owned is Some,
        owned matches Some(started) ==> TransactionState::<'a, T>::Owned(owned).transaction()
            == Some(&started),
        TransactionState::<'a, T>::Borrowed(borrowed).may_look_with(
            should_restore,
            local_is_partial,
            start_read_transaction,
            tx,
        ) <==> tx == borrowed,
        TransactionState::<'a, T>::NotStarted.may_look_with(
            should_restore,
            local_is_partial,
            start_read_transaction,
            tx,
        ) ==> should_restore && local_is_partial,
        should_restore && local_is_partial && start_read_transaction.ensures((), owned)
            ==> TransactionState::<'a, T>::NotStarted.may_look_with(
            should_restore,
            local_is_partial,
            start_read_transaction,
            TransactionState::<'a, T>::Owned(owned).transaction(),
        ),
{
}

/// Reading succeeds exactly where the lookup does, and gives what was read; a failure is passed on
/// with what was being read.
pub proof fn law_a_lookup_decides<E>(
    read: Result<(), E>,
    storage: TaskStorage,
    meta_of_all: bool,
    category: TaskDataCategory,
)
    ensures
        reading(read, meta_of_all, category) is Ok <==> read is Ok,
        holding(read, storage, meta_of_all, category) is Ok <==> read is Ok,
        read is Ok ==> holding(read, storage, meta_of_all, category)->Ok_0 == storage,
        read matches Err(error) ==> {
            let failure = reading(read, meta_of_all, category)->Err_0;
            &&& failure.error == error
            &&& failure.category == category
            &&& failure.meta_of_all == meta_of_all
            &&& holding(read, storage, meta_of_all, category)->Err_0 == failure
        },
{
}

} // verus!
