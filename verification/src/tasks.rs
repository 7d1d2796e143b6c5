//! Tasks and their store.

pub mod error;
pub mod scheduler;
pub mod task;
pub mod task_store;
