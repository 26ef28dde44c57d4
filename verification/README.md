# turbo_tasks_backend

Per-task storage of a task engine, and the decisions taken around it, verified with Verus.

- `task_flags`, `storage_schema`, `lazy`, `task_storage`, `restore_from`: what is stored for a task.
  The storage is a few inline fields and a list of lazy ones; `TaskStorageSchema` is what it means.
- `counter_map`: maps that count references and drop an entry when its count reaches zero.
- `ids`, `data`, `unpacked`, `fx`, `index_map`, `category`: identifiers, values, hash tables.
- `task_storage_accessors`, `task_guard`, `task_guard_impl`, `cell_removal`, `prefetch`: what can be
  asked and done of a task while it is accessed, with modifications noted.
- `transaction`, `task_access`, `prepare`, `context`: accessing tasks whose data may have to be read
  from persistent storage first. Reading happens with the task unlocked, so these are steps between
  which the caller locks, unlocks and reads.
- `prepare_runs`: what holds of a preparation from its first step to its last.
- `operation`: the operations, executed alone or nested.
- `cached_data_item`, `cell_items`: stored data as items with a key and a value.

`app/` locks the tasks, reads the persisted data and turns failures into panics.
