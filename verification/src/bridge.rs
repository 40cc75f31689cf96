//! The execution bridge: a caller that must not run asynchronous work itself
//! hands one task to the runtime, waits for it, and takes back what it
//! yielded. Scheduling and waiting are the runtime's part; told how the task
//! ended, this module says what the caller gets.

use crate::error::Error;
use vstd::prelude::*;

verus! {

/// How the one task of a call ended.
pub enum TaskEnd<T> {
    /// The task ran to its end and yielded a result or a failure.
    Returned(Result<T, Error>),
    /// The task ended abnormally; the text says what the runtime caught.
    Panicked(String),
}

/// What the caller gets once its task has ended: the task's own result or
/// failure unchanged, and `InternalFault`, with the text the runtime caught,
/// in place of an abnormal end. Nothing is retried and no partial result is
/// handed out.
pub fn settle<T>(end: TaskEnd<T>) -> (out: Result<T, Error>)
    ensures
        out == match end {
            TaskEnd::Returned(result) => result,
            TaskEnd::Panicked(text) => Err(Error::InternalFault(text)),
        },
{
    match end {
        TaskEnd::Returned(result) => result,
        TaskEnd::Panicked(text) => Err(Error::InternalFault(text)),
    }
}

} // verus!
