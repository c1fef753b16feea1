//! The errors of a task forge.

use crate::task_book::{OpId, TaskFault};
use tokio::sync::mpsc::Receiver as TokioReceiver;
use vstd::prelude::*;

verus! {

/// What can go wrong in a task forge.
#[derive(Debug, Clone, Copy, PartialEq, Eq, Structural)]
pub enum ForgeError {
    /// Sending a message to the task failed.
    SendError(OpId),
    /// Receiving a message failed.
    ReceiveError,
    /// The task is already closed.
    TaskClosed(OpId),
    /// The task could not be created.
    TaskCreationError(OpId),
    /// The end of a cleaning could not be told.
    CleaningNotifierError,
    /// The task already exists and is running.
    TaskAlreadyExists(OpId),
    /// A waiter of the task's creation could not be told.
    TaskCreationSendingError(OpId),
    /// Waiting for the creation of the task failed.
    FailedToWaitCreation(OpId),
    /// No running task has this identifier.
    TaskNotExist(OpId),
    /// The task could not hand its output to the forge.
    FailedToOutput(OpId),
}

pub type ForgeResult<T> = Result<T, ForgeError>;

pub type ErrorReceiver = TokioReceiver<ForgeError>;

impl ForgeError {
    /// The forge error for a refusal of the task book about task `id`.
    pub fn from_fault(fault: TaskFault, id: OpId) -> (error: ForgeError)
        ensures
            error == match fault {
                TaskFault::AlreadyRunning => ForgeError::TaskAlreadyExists(id),
                TaskFault::Closed => ForgeError::TaskClosed(id),
            },
    {
        match fault {
            TaskFault::AlreadyRunning => ForgeError::TaskAlreadyExists(id),
            TaskFault::Closed => ForgeError::TaskClosed(id),
        }
    }
}

} // verus!
