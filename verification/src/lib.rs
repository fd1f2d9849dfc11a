//! A SQLite manager that queues its writes for one dedicated worker and reads
//! through a pool of connections.
//!
//! The crate holds the decisions of the manager and of the worker, with their
//! contracts: which task goes into the queue, which answer a caller gets, and
//! what the worker does next with its connection. Running SQL, spawning the
//! worker and waiting on its readiness are left to the code around it.

pub mod async_sqlite;
pub mod callers;
pub mod channel;
pub mod error;
pub mod history;
pub mod laws;
pub mod lifetime;
pub mod path;
pub mod pool;
pub mod read;
pub mod ready;
pub mod task;
pub mod worker;

pub use async_sqlite::{AsyncSqlite, WorkerSeat};
pub use error::{ReadError, ScriptError, WriteError};
pub use read::RowCollector;
pub use ready::Readiness;
pub use rusqlite::types::Value;
pub use task::{Statement, TaskStep, WriteTask};
pub use worker::{DatabaseWorker, Pragma, WorkerAction, WorkerEvent};
