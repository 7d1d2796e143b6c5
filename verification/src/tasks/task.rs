//! Tasks, the durable units of work, and jobs, the volatile ones.

use vstd::prelude::*;
use crate::documents::payload::IndexDocumentsMethod;
use crate::error::ResponseError;

verus! {

/// The id of a task: tasks are numbered in the order in which they are
/// registered, over all indexes.
pub type TaskId = u64;

/// The id of a batch.
pub type BatchId = u64;

/// A point in time, in nanoseconds since the epoch.
pub type Timestamp = i64;

/// What an addition of documents has done.
#[derive(Debug, Clone, Copy, PartialEq, Eq, Structural)]
pub struct DocumentAdditionResult {
    /// The number of documents that were indexed.
    pub indexed_documents: u64,
    /// The number of documents of the index after the addition.
    pub number_of_documents: u64,
}

/// What a task has done.
#[derive(Debug, Clone, Copy, PartialEq, Eq, Structural)]
pub enum TaskResult {
    DocumentAddition { indexed_documents: u64 },
    DocumentDeletion { deleted_documents: u64 },
    ClearAll { deleted_documents: u64 },
    Other,
}

impl From<DocumentAdditionResult> for TaskResult {
    fn from(other: DocumentAdditionResult) -> (r: TaskResult) {
        TaskResult::DocumentAddition { indexed_documents: other.indexed_documents }
    }
}

impl vstd::std_specs::convert::FromSpecImpl<DocumentAdditionResult> for TaskResult {
    open spec fn obeys_from_spec() -> bool {
        true
    }

    open spec fn from_spec(other: DocumentAdditionResult) -> TaskResult {
        TaskResult::DocumentAddition { indexed_documents: other.indexed_documents }
    }
}

/// A step in the life of a task.
#[derive(Debug, Clone)]
pub enum TaskEvent {
    Created(Timestamp),
    Batched { timestamp: Timestamp, batch_id: BatchId },
    Processing(Timestamp),
    Succeeded { result: TaskResult, timestamp: Timestamp },
    Failed { error: ResponseError, timestamp: Timestamp },
}

impl TaskEvent {
    /// When the event happened.
    pub open spec fn spec_timestamp(&self) -> Timestamp {
        match self {
            TaskEvent::Created(timestamp) => *timestamp,
            TaskEvent::Batched { timestamp, .. } => *timestamp,
            TaskEvent::Processing(timestamp) => *timestamp,
            TaskEvent::Succeeded { timestamp, .. } => *timestamp,
            TaskEvent::Failed { timestamp, .. } => *timestamp,
        }
    }

    /// When the event happened.
    pub fn timestamp(&self) -> (t: Timestamp)
        ensures
            t == self.spec_timestamp(),
    {
        match self {
            TaskEvent::Created(timestamp) => *timestamp,
            TaskEvent::Batched { timestamp, .. } => *timestamp,
            TaskEvent::Processing(timestamp) => *timestamp,
            TaskEvent::Succeeded { timestamp, .. } => *timestamp,
            TaskEvent::Failed { timestamp, .. } => *timestamp,
        }
    }

    /// How far in its life the event brings a task: created, batched,
    /// processing, over.
    pub open spec fn spec_stage(&self) -> nat {
        match self {
            TaskEvent::Created(_) => 0,
            TaskEvent::Batched { .. } => 1,
            TaskEvent::Processing(_) => 2,
            TaskEvent::Succeeded { .. } => 3,
            TaskEvent::Failed { .. } => 3,
        }
    }

    /// How far in its life the event brings a task.
    pub fn stage(&self) -> (s: u8)
        ensures
            s == self.spec_stage(),
    {
        match self {
            TaskEvent::Created(_) => 0,
            TaskEvent::Batched { .. } => 1,
            TaskEvent::Processing(_) => 2,
            TaskEvent::Succeeded { .. } => 3,
            TaskEvent::Failed { .. } => 3,
        }
    }

    /// Whether the event ends a task.
    pub open spec fn spec_is_terminal(&self) -> bool {
        self is Succeeded || self is Failed
    }
}

/// Whether a task with these events is finished: its last event is
/// `Succeeded` or `Failed`.
pub open spec fn spec_is_finished(events: Seq<TaskEvent>) -> bool {
    events.len() > 0 && events.last().spec_is_terminal()
}

/// The status of a task, read from its last event.
#[derive(Debug, Clone, Copy, PartialEq, Eq, Structural)]
pub enum Status {
    Enqueued,
    Processing,
    Succeeded,
    Failed,
}

/// The deletion of documents: of all of them, or of those with the given ids.
#[derive(Debug, Clone, PartialEq)]
pub enum DocumentDeletion {
    Clear,
    Ids(Vec<String>),
}

/// What a task is to do.
#[derive(Debug, Clone, PartialEq)]
pub enum TaskContent {
    DocumentAddition {
        /// The payload file that holds the documents.
        content_uuid: u128,
        merge_strategy: IndexDocumentsMethod,
        primary_key: Option<String>,
        documents_count: u64,
        allow_index_creation: bool,
    },
    DocumentDeletion(DocumentDeletion),
    /// The deletion of the documents that a filter selects; the filter is
    /// held as JSON text.
    DocumentDeletionByFilter { filter: String },
    /// The settings are held as JSON text.
    SettingsUpdate {
        settings: String,
        /// Indicates whether the task was a deletion
        is_deletion: bool,
    },
    IndexDeletion,
    IndexCreation { primary_key: Option<String> },
    IndexUpdate { primary_key: Option<String> },
    DumpCreation,
    SnapshotCreation,
}

/// The kinds of task that are batched alike.
#[derive(Debug, Clone, Copy, PartialEq, Eq, Structural)]
pub enum Kind {
    DocumentAddition,
    DocumentDeletion,
    Settings,
    IndexLifecycle,
    DumpOrSnapshot,
}

impl TaskContent {
    /// The kind of the task.
    pub open spec fn spec_kind(&self) -> Kind {
        match self {
            TaskContent::DocumentAddition { .. } => Kind::DocumentAddition,
            TaskContent::DocumentDeletion(_) => Kind::DocumentDeletion,
            TaskContent::DocumentDeletionByFilter { .. } => Kind::DocumentDeletion,
            TaskContent::SettingsUpdate { .. } => Kind::Settings,
            TaskContent::IndexDeletion => Kind::IndexLifecycle,
            TaskContent::IndexCreation { .. } => Kind::IndexLifecycle,
            TaskContent::IndexUpdate { .. } => Kind::IndexLifecycle,
            TaskContent::DumpCreation => Kind::DumpOrSnapshot,
            TaskContent::SnapshotCreation => Kind::DumpOrSnapshot,
        }
    }

    /// The kind of the task.
    pub fn kind(&self) -> (k: Kind)
        ensures
            k == self.spec_kind(),
    {
        match self {
            TaskContent::DocumentAddition { .. } => Kind::DocumentAddition,
            TaskContent::DocumentDeletion(_) => Kind::DocumentDeletion,
            TaskContent::DocumentDeletionByFilter { .. } => Kind::DocumentDeletion,
            TaskContent::SettingsUpdate { .. } => Kind::Settings,
            TaskContent::IndexDeletion => Kind::IndexLifecycle,
            TaskContent::IndexCreation { .. } => Kind::IndexLifecycle,
            TaskContent::IndexUpdate { .. } => Kind::IndexLifecycle,
            TaskContent::DumpCreation => Kind::DumpOrSnapshot,
            TaskContent::SnapshotCreation => Kind::DumpOrSnapshot,
        }
    }

    /// The payload file that the task owns, if it is an addition.
    pub open spec fn spec_content_uuid(&self) -> Option<u128> {
        match self {
            TaskContent::DocumentAddition { content_uuid, .. } => Some(*content_uuid),
            _ => None,
        }
    }

    /// The payload file that the task owns, if it is an addition.
    pub fn content_uuid(&self) -> (uuid: Option<u128>)
        ensures
            uuid == self.spec_content_uuid(),
    {
        match self {
            TaskContent::DocumentAddition { content_uuid, .. } => Some(*content_uuid),
            _ => None,
        }
    }
}

/// A task represents an operation that the engine must do. It is stored
/// and executed from the lowest to the highest task id: every new task has
/// a higher id than the one before it. See also `Job`.
#[derive(Debug, Clone)]
pub struct Task {
    pub id: TaskId,
    pub index_uid: String,
    pub content: TaskContent,
    pub events: Vec<TaskEvent>,
}

impl Task {
    /// Returns true when a task is finished: its last event is either
    /// `Succeeded` or `Failed`.
    pub fn is_finished(&self) -> (r: bool)
        ensures
            r == spec_is_finished(self.events@),
    {
        let n = self.events.len();
        if n == 0 {
            false
        } else {
            match &self.events[n - 1] {
                TaskEvent::Succeeded { .. } => true,
                TaskEvent::Failed { .. } => true,
                _ => false,
            }
        }
    }

    /// The status of a task with these events.
    pub open spec fn spec_status(events: Seq<TaskEvent>) -> Status {
        if events.len() == 0 {
            Status::Enqueued
        } else {
            match events.last() {
                TaskEvent::Created(_) => Status::Enqueued,
                TaskEvent::Batched { .. } => Status::Enqueued,
                TaskEvent::Processing(_) => Status::Processing,
                TaskEvent::Succeeded { .. } => Status::Succeeded,
                TaskEvent::Failed { .. } => Status::Failed,
            }
        }
    }

    /// The status of the task: enqueued until it is processed, then
    /// processing until it has succeeded or failed.
    pub fn status(&self) -> (s: Status)
        ensures
            s == Task::spec_status(self.events@),
    {
        let n = self.events.len();
        if n == 0 {
            Status::Enqueued
        } else {
            match &self.events[n - 1] {
                TaskEvent::Created(_) => Status::Enqueued,
                TaskEvent::Batched { .. } => Status::Enqueued,
                TaskEvent::Processing(_) => Status::Processing,
                TaskEvent::Succeeded { .. } => Status::Succeeded,
                TaskEvent::Failed { .. } => Status::Failed,
            }
        }
    }
}

/// A job is like a volatile priority `Task`. It should be processed as fast
/// as possible and is not stored: when the engine is closed the jobs that
/// were not processed are gone.
#[derive(Debug, PartialEq)]
pub enum Job {
    /// The making of a dump at the given path.
    Dump { path: String },
    Empty,
}

impl Default for Job {
    fn default() -> (job: Job)
        ensures
            job == Job::Empty,
    {
        Job::Empty
    }
}

/// A task is finished exactly when its status is `Succeeded` or `Failed`.
pub proof fn lemma_finished_is_terminal_status(events: Seq<TaskEvent>)
    ensures
        spec_is_finished(events) <==> (Task::spec_status(events) == Status::Succeeded
            || Task::spec_status(events) == Status::Failed),
{
}

} // verus!
