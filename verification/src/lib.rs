//! Per-task storage of a task engine, and the decisions taken around it.

pub mod cached_data_item;
pub mod category;
pub mod cell_items;
mod cell_removal;
pub mod context;
pub mod counter_map;
pub mod data;
pub mod fx;
pub mod ids;
pub mod index_map;
pub mod lazy;
pub mod operation;
pub mod prefetch;
pub mod prepare;
pub mod prepare_runs;
pub mod restore_from;
pub mod storage_schema;
pub mod task_access;
pub mod task_flags;
pub mod task_guard;
pub mod task_guard_impl;
pub mod task_storage;
pub mod task_storage_accessors;
pub mod transaction;
pub mod unpacked;
