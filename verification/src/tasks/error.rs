//! The errors of the task store.

use vstd::prelude::*;
use vstd::string::*;
use crate::error::{Code, ErrorCode};
use crate::tasks::task::TaskId;
use crate::text::{decimal, spec_decimal};

verus! {

/// An error of the task store.
#[derive(Debug)]
pub enum TaskError {
    /// No task has this id.
    UnexistingTask(TaskId),
    /// The task is finished or being processed, so it cannot be cancelled.
    InvalidTaskCancellation(TaskId),
    /// A task was to be registered under `received`, which is not greater
    /// than every id given so far: the next one is `expected`.
    BadTaskId { received: TaskId, expected: TaskId },
    /// The event cannot follow the last event of the task.
    InvalidTaskEvent(TaskId),
    /// Something else went wrong; the text says what.
    Internal(String),
}

/// What a [`TaskError`] stands for.
pub enum TaskErrorView {
    UnexistingTask(TaskId),
    InvalidTaskCancellation(TaskId),
    BadTaskId { received: TaskId, expected: TaskId },
    InvalidTaskEvent(TaskId),
    Internal(Seq<char>),
}

impl View for TaskError {
    type V = TaskErrorView;

    open spec fn view(&self) -> TaskErrorView {
        match self {
            TaskError::UnexistingTask(id) => TaskErrorView::UnexistingTask(*id),
            TaskError::InvalidTaskCancellation(id) => TaskErrorView::InvalidTaskCancellation(*id),
            TaskError::BadTaskId { received, expected } => TaskErrorView::BadTaskId {
                received: *received,
                expected: *expected,
            },
            TaskError::InvalidTaskEvent(id) => TaskErrorView::InvalidTaskEvent(*id),
            TaskError::Internal(why) => TaskErrorView::Internal(why@),
        }
    }
}

impl TaskError {
    /// The message of the error.
    pub open spec fn spec_message(&self) -> Seq<char> {
        match self {
            TaskError::UnexistingTask(id) => "Task `"@ + spec_decimal(*id as nat)
                + "` not found."@,
            TaskError::InvalidTaskCancellation(id) => "Task `"@ + spec_decimal(*id as nat)
                + "` cannot be cancel as it is already finished or being processed."@,
            TaskError::BadTaskId { received, expected } => "Received bad task id: "@
                + spec_decimal(*received as nat) + " should be >= to "@ + spec_decimal(
                *expected as nat,
            ) + "."@,
            TaskError::InvalidTaskEvent(id) => "Task `"@ + spec_decimal(*id as nat)
                + "` cannot take this event after its last one."@,
            TaskError::Internal(why) => "Internal error: "@ + why@,
        }
    }

    /// The message of the error.
    pub fn to_string(&self) -> (message: String)
        ensures
            message@ == self.spec_message(),
    {
        match self {
            TaskError::UnexistingTask(id) => {
                let mut message = String::from_str("Task `");
                message.append(decimal(*id).as_str());
                message.append("` not found.");
                message
            },
            TaskError::InvalidTaskCancellation(id) => {
                let mut message = String::from_str("Task `");
                message.append(decimal(*id).as_str());
                message.append("` cannot be cancel as it is already finished or being processed.");
                message
            },
            TaskError::BadTaskId { received, expected } => {
                let mut message = String::from_str("Received bad task id: ");
                message.append(decimal(*received).as_str());
                message.append(" should be >= to ");
                message.append(decimal(*expected).as_str());
                message.append(".");
                message
            },
            TaskError::InvalidTaskEvent(id) => {
                let mut message = String::from_str("Task `");
                message.append(decimal(*id).as_str());
                message.append("` cannot take this event after its last one.");
                message
            },
            TaskError::Internal(why) => {
                let mut message = String::from_str("Internal error: ");
                message.append(why.as_str());
                message
            },
        }
    }
}

impl ErrorCode for TaskError {
    open spec fn spec_error_code(&self) -> Code {
        match self {
            TaskError::UnexistingTask(_) => Code::TaskNotFound,
            TaskError::InvalidTaskCancellation(_) => Code::InvalidTaskCancellation,
            TaskError::BadTaskId { .. } => Code::BadRequest,
            TaskError::InvalidTaskEvent(_) => Code::InvalidState,
            TaskError::Internal(_) => Code::Internal,
        }
    }

    fn error_code(&self) -> (code: Code) {
        match self {
            TaskError::UnexistingTask(_) => Code::TaskNotFound,
            TaskError::InvalidTaskCancellation(_) => Code::InvalidTaskCancellation,
            TaskError::BadTaskId { .. } => Code::BadRequest,
            TaskError::InvalidTaskEvent(_) => Code::InvalidState,
            TaskError::Internal(_) => Code::Internal,
        }
    }
}

} // verus!
