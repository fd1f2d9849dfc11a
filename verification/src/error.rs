//! The errors the library answers with.

use vstd::prelude::*;

verus! {

/// A write task could not be handed to the worker.
#[derive(Debug)]
pub struct WriteError;

impl WriteError {
    /// The text shown for the error.
    pub fn message(&self) -> (text: String)
        ensures
            text@ == "Failed to send write task"@,
    {
        "Failed to send write task".to_owned()
    }
}

/// A script could not be handed to the worker.
#[derive(Debug)]
pub enum ScriptError {
    /// No worker has been started.
    NotRunning,
    /// The worker has gone and no longer receives.
    Disconnected,
}

impl ScriptError {
    /// The text shown for the error.
    pub fn message(&self) -> (text: String)
        ensures
            *self is NotRunning ==> text@ == "Worker thread is not running"@,
            *self is Disconnected ==> text@ == "sending on a disconnected channel"@,
    {
        match self {
            ScriptError::NotRunning => "Worker thread is not running".to_owned(),
            ScriptError::Disconnected => "sending on a disconnected channel".to_owned(),
        }
    }
}

/// A read did not give its rows.
#[derive(Debug)]
pub enum ReadError<E> {
    /// The database is not ready, or the pool gave no connection.
    InvalidQuery,
    /// The database refused the query or one of its rows.
    Database(E),
}

} // verus!
