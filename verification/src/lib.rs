//! Execution core of a blockchain rollup: a revertible key-value working set
//! with nested scopes, a batch/blob state-transition pipeline that turns signed
//! transactions into receipts and a new state commitment, and a FIFO mempool
//! that packs pending transactions into size-bounded batches.

pub mod address;
pub mod app_template;
pub mod basic_hooks;
pub mod batch_builder;
pub mod batch;
pub mod bytes;
pub mod default_signature;
pub mod prefix;
pub mod dispatch;
pub mod hooks;
pub mod stf;
pub mod storage;
pub mod transaction;
pub mod value_setter;
pub mod working_set;
