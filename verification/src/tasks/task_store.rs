//! The store of the tasks: an ordered log, read by id.

use vstd::prelude::*;
use vstd::string::*;
use crate::error::{Code, ResponseError};
use crate::tasks::error::{TaskError, TaskErrorView};
use crate::text::str_eq;
use crate::tasks::task::{
    spec_is_finished, Kind, Status, Task, TaskContent, TaskEvent, TaskId, Timestamp,
};

verus! {

/// The events of a task are in order: the first is `Created`, and each
/// later one happened after the one before it and brings the task further.
pub open spec fn events_in_order(events: Seq<TaskEvent>) -> bool {
    &&& events.len() > 0
    &&& events[0] is Created
    &&& forall|i: int, j: int|
        0 <= i < j < events.len() ==> (#[trigger] events[i]).spec_timestamp() < (
        #[trigger] events[j]).spec_timestamp() && events[i].spec_stage() < events[j].spec_stage()
}

/// The tasks are in order: their ids grow, and the events of each are in order.
pub open spec fn tasks_in_order(tasks: Seq<Task>) -> bool {
    &&& forall|i: int, j: int|
        0 <= i < j < tasks.len() ==> (#[trigger] tasks[i]).id < (#[trigger] tasks[j]).id
    &&& forall|i: int| 0 <= i < tasks.len() ==> events_in_order((#[trigger] tasks[i]).events@)
}

/// The index of the task with this id, if there is one.
pub open spec fn spec_position(tasks: Seq<Task>, id: TaskId) -> Option<int> {
    if exists|i: int| 0 <= i < tasks.len() && (#[trigger] tasks[i]).id == id {
        Some(choose|i: int| 0 <= i < tasks.len() && (#[trigger] tasks[i]).id == id)
    } else {
        None
    }
}

/// Whether `event` can follow the events of a task: it happened after the
/// last of them and brings the task further. Nothing can follow the end of
/// a task.
pub open spec fn can_follow(events: Seq<TaskEvent>, event: TaskEvent) -> bool {
    events.len() > 0 && events.last().spec_timestamp() < event.spec_timestamp()
        && events.last().spec_stage() < event.spec_stage()
}

/// Whether a task with these events can still be cancelled: it is neither
/// finished nor being processed.
pub open spec fn can_be_cancelled(events: Seq<TaskEvent>) -> bool {
    events.len() > 0 && events.last().spec_stage() < 2
}

/// The id that the next task is given: one more than the last, 0 for the
/// first task. None where the last id is the largest one.
pub open spec fn spec_next_task_id(tasks: Seq<Task>) -> Option<TaskId> {
    if tasks.len() == 0 {
        Some(0)
    } else if tasks.last().id == u64::MAX {
        None
    } else {
        Some((tasks.last().id + 1) as TaskId)
    }
}

/// What a caller is told of a task that was registered.
#[derive(Debug, Clone, PartialEq, Eq)]
pub struct TaskSummary {
    pub task_uid: TaskId,
    pub index_uid: String,
    pub status: Status,
    pub kind: Kind,
    pub enqueued_at: Timestamp,
}

/// What the tasks of a listing have in common. A field that is `None`
/// leaves every task in.
#[derive(Debug)]
pub struct TaskFilter {
    pub index_uid: Option<String>,
    pub status: Option<Status>,
    pub kind: Option<Kind>,
}

/// Whether a task is one of those that the filter lists.
pub open spec fn is_listed(task: Task, filter: TaskFilter) -> bool {
    &&& filter.index_uid matches Some(index_uid) ==> task.index_uid@ == index_uid@
    &&& filter.status matches Some(status) ==> Task::spec_status(task.events@) == status
    &&& filter.kind matches Some(kind) ==> task.content.spec_kind() == kind
}

/// The ids of the first `upto` tasks that the filter lists, in order.
pub open spec fn listed_ids(tasks: Seq<Task>, filter: TaskFilter, upto: nat) -> Seq<TaskId>
    decreases upto,
{
    if upto == 0 || upto > tasks.len() {
        Seq::empty()
    } else if is_listed(tasks[upto - 1], filter) {
        listed_ids(tasks, filter, (upto - 1) as nat).push(tasks[upto - 1].id)
    } else {
        listed_ids(tasks, filter, (upto - 1) as nat)
    }
}

/// The page of a list of ids: what is left after `offset` ids, up to
/// `limit` ids.
pub open spec fn spec_page_of(ids: Seq<TaskId>, offset: nat, limit: nat) -> Seq<TaskId> {
    let from = if offset < ids.len() {
        offset
    } else {
        ids.len()
    };
    let to = if from + limit < ids.len() {
        from + limit
    } else {
        ids.len()
    };
    ids.subrange(from as int, to as int)
}

/// The message of the error that ends a cancelled task.
pub open spec fn spec_cancelled_message() -> Seq<char> {
    "Task was cancelled before it was processed."@
}

/// The tasks in the order of their ids.
#[derive(Debug)]
pub struct TaskStore {
    tasks: Vec<Task>,
}

impl View for TaskStore {
    type V = Seq<Task>;

    closed spec fn view(&self) -> Seq<Task> {
        self.tasks@
    }
}

/// Ids that grow name at most one task each.
pub proof fn lemma_position(tasks: Seq<Task>, id: TaskId, at: int)
    requires
        tasks_in_order(tasks),
        0 <= at < tasks.len(),
        tasks[at].id == id,
    ensures
        spec_position(tasks, id) == Some(at),
{
    let c = choose|i: int| 0 <= i < tasks.len() && (#[trigger] tasks[i]).id == id;
    if c < at {
        assert(tasks[c].id < tasks[at].id);
    } else if c > at {
        assert(tasks[at].id < tasks[c].id);
    }
}

proof fn lemma_events_push(events: Seq<TaskEvent>, event: TaskEvent)
    requires
        events_in_order(events),
        can_follow(events, event),
    ensures
        events_in_order(events.push(event)),
{
    let after = events.push(event);
    assert forall|i: int, j: int| 0 <= i < j < after.len() implies (#[trigger] after[i])
        .spec_timestamp() < (#[trigger] after[j]).spec_timestamp() && after[i].spec_stage()
        < after[j].spec_stage() by {
        if j == events.len() {
            if i < events.len() - 1 {
                assert(events[i].spec_timestamp() < events[events.len() - 1].spec_timestamp());
                assert(events[i].spec_stage() < events[events.len() - 1].spec_stage());
            }
        } else {
            assert(events[i].spec_timestamp() < events[j].spec_timestamp());
        }
    }
}

impl TaskStore {
    #[verifier::type_invariant]
    spec fn well_formed(&self) -> bool {
        tasks_in_order(self.tasks@)
    }

    /// A store without tasks.
    pub fn new() -> (store: TaskStore)
        ensures
            store@.len() == 0,
    {
        TaskStore { tasks: Vec::new() }
    }

    /// The tasks of a store are always in order.
    pub fn check_order(&self)
        ensures
            tasks_in_order(self@),
    {
        proof {
            use_type_invariant(self);
        }
    }

    /// The tasks, in the order of their ids.
    pub fn tasks(&self) -> (tasks: &Vec<Task>)
        ensures
            tasks@ == self@,
            tasks_in_order(self@),
    {
        proof {
            use_type_invariant(self);
        }
        &self.tasks
    }

    /// The number of tasks.
    pub fn len(&self) -> (n: usize)
        ensures
            n == self@.len(),
    {
        self.tasks.len()
    }

    /// The id that the next task is given.
    pub fn next_task_id(&self) -> (id: Option<TaskId>)
        ensures
            id == spec_next_task_id(self@),
    {
        let n = self.tasks.len();
        if n == 0 {
            Some(0)
        } else if self.tasks[n - 1].id == u64::MAX {
            None
        } else {
            Some(self.tasks[n - 1].id + 1)
        }
    }

    /// The index of the task with this id.
    fn position(&self, id: TaskId) -> (at: Option<usize>)
        ensures
            tasks_in_order(self@),
            match at {
                Some(i) => spec_position(self@, id) == Some(i as int) && i < self@.len()
                    && self@[i as int].id == id,
                None => spec_position(self@, id) is None,
            },
    {
        proof {
            use_type_invariant(self);
        }
        let mut i: usize = 0;
        while i < self.tasks.len()
            invariant
                i <= self.tasks@.len(),
                tasks_in_order(self.tasks@),
                forall|k: int| 0 <= k < i ==> (#[trigger] self.tasks@[k]).id != id,
            decreases self.tasks.len() - i,
        {
            if self.tasks[i].id == id {
                proof {
                    lemma_position(self.tasks@, id, i as int);
                }
                return Some(i);
            }
            i += 1;
        }
        None
    }

    /// The task with this id, if there is one.
    pub fn get(&self, id: TaskId) -> (task: Option<&Task>)
        ensures
            match task {
                Some(t) => spec_position(self@, id) matches Some(i) && *t == self@[i] && t.id
                    == id,
                None => spec_position(self@, id) is None,
            },
    {
        match self.position(id) {
            Some(i) => Some(&self.tasks[i]),
            None => None,
        }
    }

    /// Lists the ids of the tasks that the filter leaves in, in the order of
    /// the ids: those after the first `offset`, up to `limit` of them.
    pub fn list(&self, filter: &TaskFilter, offset: usize, limit: usize) -> (ids: Vec<TaskId>)
        ensures
            ids@ == spec_page_of(
                listed_ids(self@, *filter, self@.len()),
                offset as nat,
                limit as nat,
            ),
    {
        let mut listed: Vec<TaskId> = Vec::new();
        let mut i: usize = 0;
        while i < self.tasks.len()
            invariant
                i <= self.tasks@.len(),
                listed@ == listed_ids(self.tasks@, *filter, i as nat),
            decreases self.tasks.len() - i,
        {
            let task = &self.tasks[i];
            let of_index = match &filter.index_uid {
                Some(index_uid) => str_eq(task.index_uid.as_str(), index_uid.as_str()),
                None => true,
            };
            let of_status = match filter.status {
                Some(status) => task.status() == status,
                None => true,
            };
            let of_kind = match filter.kind {
                Some(kind) => task.content.kind() == kind,
                None => true,
            };
            if of_index && of_status && of_kind {
                listed.push(task.id);
            }
            i += 1;
        }
        let from = if offset < listed.len() {
            offset
        } else {
            listed.len()
        };
        let to = if limit < listed.len() - from {
            from + limit
        } else {
            listed.len()
        };
        let mut ids: Vec<TaskId> = Vec::new();
        let mut k: usize = from;
        while k < to
            invariant
                from <= k <= to <= listed.len(),
                ids@ == listed@.subrange(from as int, k as int),
            decreases to - k,
        {
            ids.push(listed[k]);
            k += 1;
            assert(ids@ =~= listed@.subrange(from as int, k as int));
        }
        ids
    }

    /// Registers a task and returns what its caller is told of it.
    ///
    /// The task is given the next id, or the requested one, which must not
    /// be below the next. Its first event is `Created`, at `now`. In a dry
    /// run the task is made and told of, but not stored.
    pub fn register(
        &mut self,
        index_uid: String,
        content: TaskContent,
        requested_id: Option<TaskId>,
        dry_run: bool,
        now: Timestamp,
    ) -> (r: Result<TaskSummary, TaskError>)
        ensures
            tasks_in_order(final(self)@),
            match spec_next_task_id(old(self)@) {
                None => r is Err && r->Err_0@ is Internal && final(self)@ == old(self)@,
                Some(expected) => match requested_id {
                    Some(received) if received < expected => {
                        &&& r is Err
                        &&& r->Err_0@ == TaskErrorView::BadTaskId { received, expected }
                        &&& final(self)@ == old(self)@
                    },
                    _ => {
                        let id = match requested_id {
                            Some(received) => received,
                            None => expected,
                        };
                        &&& r matches Ok(summary)
                        &&& summary.task_uid == id
                        &&& summary.index_uid == index_uid
                        &&& summary.status == Status::Enqueued
                        &&& summary.kind == content.spec_kind()
                        &&& summary.enqueued_at == now
                        &&& if dry_run {
                            final(self)@ == old(self)@
                        } else {
                            &&& final(self)@.len() == old(self)@.len() + 1
                            &&& final(self)@.drop_last() == old(self)@
                            &&& final(self)@.last().id == id
                            &&& final(self)@.last().index_uid == index_uid
                            &&& final(self)@.last().content == content
                            &&& final(self)@.last().events@ == seq![TaskEvent::Created(now)]
                        }
                    },
                },
            },
    {
        proof {
            use_type_invariant(&*self);
        }
        let expected = match self.next_task_id() {
            Some(expected) => expected,
            None => {
                return Err(TaskError::Internal(String::from_str("no task id is left")));
            },
        };
        let id = match requested_id {
            Some(received) => {
                if received < expected {
                    return Err(TaskError::BadTaskId { received, expected });
                }
                received
            },
            None => expected,
        };
        let summary = TaskSummary {
            task_uid: id,
            index_uid: index_uid.clone(),
            status: Status::Enqueued,
            kind: content.kind(),
            enqueued_at: now,
        };
        if !dry_run {
            let mut events: Vec<TaskEvent> = Vec::new();
            events.push(TaskEvent::Created(now));
            let task = Task { id, index_uid, content, events };
            let ghost before = self.tasks@;
            proof {
                let after = before.push(task);
                assert(events_in_order(task.events@));
                assert forall|i: int, j: int| 0 <= i < j < after.len() implies (
                #[trigger] after[i]).id < (#[trigger] after[j]).id by {
                    if j == before.len() {
                        if i < before.len() - 1 {
                            assert(before[i].id < before[before.len() - 1].id);
                        }
                    } else {
                        assert(before[i].id < before[j].id);
                    }
                }
                assert(tasks_in_order(after));
            }
            let mut tasks: Vec<Task> = Vec::new();
            core::mem::swap(&mut tasks, &mut self.tasks);
            tasks.push(task);
            self.tasks = tasks;
            assert(self.tasks@.drop_last() =~= before);
        }
        Ok(summary)
    }

    /// Adds an event to the task with this id.
    ///
    /// The event must have happened after the last event of the task and
    /// bring the task further: an event on a finished task is refused.
    pub fn append_event(&mut self, id: TaskId, event: TaskEvent) -> (r: Result<(), TaskError>)
        ensures
            tasks_in_order(final(self)@),
            match spec_position(old(self)@, id) {
                None => r is Err && r->Err_0@ == TaskErrorView::UnexistingTask(id) && final(self)@
                    == old(self)@,
                Some(i) => if can_follow(old(self)@[i].events@, event) {
                    &&& r is Ok
                    &&& final(self)@.len() == old(self)@.len()
                    &&& forall|k: int|
                        0 <= k < old(self)@.len() && k != i ==> final(self)@[k] == old(self)@[k]
                    &&& final(self)@[i].id == id
                    &&& final(self)@[i].index_uid == old(self)@[i].index_uid
                    &&& final(self)@[i].content == old(self)@[i].content
                    &&& final(self)@[i].events@ == old(self)@[i].events@.push(event)
                } else {
                    &&& r is Err
                    &&& r->Err_0@ == TaskErrorView::InvalidTaskEvent(id)
                    &&& final(self)@ == old(self)@
                },
            },
    {
        let i = match self.position(id) {
            Some(i) => i,
            None => {
                return Err(TaskError::UnexistingTask(id));
            },
        };
        let n = self.tasks[i].events.len();
        let fits = n > 0 && self.tasks[i].events[n - 1].timestamp() < event.timestamp()
            && self.tasks[i].events[n - 1].stage() < event.stage();
        if !fits {
            return Err(TaskError::InvalidTaskEvent(id));
        }
        let ghost before = self.tasks@;
        let mut tasks: Vec<Task> = Vec::new();
        core::mem::swap(&mut tasks, &mut self.tasks);
        let mut task = tasks.remove(i);
        task.events.push(event);
        proof {
            lemma_events_push(before[i as int].events@, event);
            let cut = before.remove(i as int);
            let after = cut.insert(i as int, task);
            assert forall|a: int, b: int| 0 <= a < b < after.len() implies (#[trigger] after[a]).id
                < (#[trigger] after[b]).id by {
                assert(after[a].id == before[a].id);
                assert(after[b].id == before[b].id);
                assert(before[a].id < before[b].id);
            }
            assert forall|a: int| 0 <= a < after.len() implies events_in_order(
                (#[trigger] after[a]).events@,
            ) by {
                if a != i {
                    assert(after[a] == before[a]);
                    assert(events_in_order(before[a].events@));
                }
            }
            assert(tasks_in_order(after));
        }
        tasks.insert(i, task);
        self.tasks = tasks;
        proof {
            assert forall|k: int| 0 <= k < before.len() && k != i implies self.tasks@[k]
                == before[k] by {}
        }
        Ok(())
    }

    /// Cancels the task with this id: a task that is neither finished nor
    /// being processed ends as failed, with the code `TaskCancelled`. A
    /// task that is finished or being processed is left as it is and the
    /// request fails with `InvalidTaskCancellation`.
    pub fn cancel(&mut self, id: TaskId, now: Timestamp) -> (r: Result<(), TaskError>)
        ensures
            tasks_in_order(final(self)@),
            match spec_position(old(self)@, id) {
                None => r is Err && r->Err_0@ == TaskErrorView::UnexistingTask(id) && final(self)@
                    == old(self)@,
                Some(i) => if !can_be_cancelled(old(self)@[i].events@) {
                    &&& r is Err
                    &&& r->Err_0@ == TaskErrorView::InvalidTaskCancellation(id)
                    &&& final(self)@ == old(self)@
                } else if old(self)@[i].events@.last().spec_timestamp() >= now {
                    &&& r is Err
                    &&& r->Err_0@ == TaskErrorView::InvalidTaskEvent(id)
                    &&& final(self)@ == old(self)@
                } else {
                    &&& r is Ok
                    &&& final(self)@.len() == old(self)@.len()
                    &&& forall|k: int|
                        0 <= k < old(self)@.len() && k != i ==> final(self)@[k] == old(self)@[k]
                    &&& final(self)@[i].id == id
                    &&& final(self)@[i].events@.drop_last() == old(self)@[i].events@
                    &&& final(self)@[i].events@.last() matches TaskEvent::Failed {
                        error,
                        timestamp,
                    }
                    &&& timestamp == now
                    &&& error.code == Code::TaskCancelled
                    &&& error.message@ == spec_cancelled_message()
                },
            },
    {
        let i = match self.position(id) {
            Some(i) => i,
            None => {
                return Err(TaskError::UnexistingTask(id));
            },
        };
        let n = self.tasks[i].events.len();
        if n == 0 || self.tasks[i].events[n - 1].stage() >= 2 {
            return Err(TaskError::InvalidTaskCancellation(id));
        }
        let error = ResponseError::from_msg(
            String::from_str("Task was cancelled before it was processed."),
            Code::TaskCancelled,
        );
        let event = TaskEvent::Failed { error, timestamp: now };
        let ghost before = self.tasks@;
        let r = self.append_event(id, event);
        proof {
            if r is Ok {
                assert(self@[i as int].events@.drop_last() =~= before[i as int].events@);
            }
        }
        r
    }
}

/// A finished task takes no further event: nothing can follow its last one.
pub proof fn lemma_finished_is_immutable(events: Seq<TaskEvent>, event: TaskEvent)
    requires
        spec_is_finished(events),
    ensures
        !can_follow(events, event),
        !can_be_cancelled(events),
{
}

/// Events in order end a task at most once, and only with their last
/// event: the last state is terminal exactly when the task is finished, and
/// no earlier event is terminal.
pub proof fn lemma_only_last_event_is_terminal(events: Seq<TaskEvent>, i: int)
    requires
        events_in_order(events),
        0 <= i < events.len() - 1,
    ensures
        !events[i].spec_is_terminal(),
        spec_is_finished(events) <==> events.last().spec_is_terminal(),
{
    assert(events[i].spec_stage() < events[events.len() - 1].spec_stage());
}

} // verus!
