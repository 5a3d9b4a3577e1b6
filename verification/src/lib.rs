//! Trust and coordination layer between a job scheduler and its executors.

pub mod codec;
pub mod event;
pub mod health;
pub mod keys;
pub mod lifecycle;
pub mod number;
pub mod operation_log;
pub mod payload;
pub mod process;
pub mod query;
pub mod response;
pub mod security;
pub mod task_log;
