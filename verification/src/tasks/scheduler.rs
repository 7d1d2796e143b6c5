//! The choice of the next batch of tasks, and what a batch does to its tasks.
//!
//! One batch is executed at a time. A batch holds tasks of one index that
//! can be executed together: the next additions of documents, or the next
//! deletions (followed by the next additions where the policy allows it),
//! or one task of another kind. A dump or a snapshot goes first and alone.

use vstd::prelude::*;
use vstd::string::*;
use crate::error::ResponseError;
use crate::tasks::error::{TaskError, TaskErrorView};
use crate::tasks::task::{
    spec_is_finished, BatchId, Job, Kind, Task, TaskEvent, TaskId, TaskResult, Timestamp,
};
use crate::tasks::task_store::{
    can_follow, lemma_position, spec_position, tasks_in_order, TaskStore,
};
use crate::text::str_eq;

verus! {

/// What the scheduler is allowed to put together.
#[derive(Debug, Clone, Copy, PartialEq, Eq, Structural)]
pub struct BatchPolicy {
    /// Whether the additions that follow a run of deletions join its batch.
    pub additions_after_deletions: bool,
}

/// Whether a task waits to be executed.
pub open spec fn is_pending(task: Task) -> bool {
    !spec_is_finished(task.events@)
}

/// The position of the first pending task from `from` on; with `dumps`,
/// of the first pending dump or snapshot.
pub open spec fn first_pending(tasks: Seq<Task>, from: nat, dumps: bool) -> Option<nat>
    decreases tasks.len() - from,
{
    if from >= tasks.len() {
        None
    } else if is_pending(tasks[from as int]) && (!dumps || tasks[from as int].content.spec_kind()
        == Kind::DumpOrSnapshot) {
        Some(from)
    } else {
        first_pending(tasks, from + 1, dumps)
    }
}

/// A run of tasks: their positions, and the position at which the run ended.
pub struct Run {
    pub positions: Seq<int>,
    pub end: nat,
}

/// The run of the pending tasks of an index that are of one kind, from
/// `from` on: tasks of other indexes and finished tasks are passed over,
/// and the run ends before the first pending task of the index that is of
/// another kind.
pub open spec fn run_from(tasks: Seq<Task>, from: nat, index_uid: Seq<char>, kind: Kind) -> Run
    decreases tasks.len() - from,
{
    if from >= tasks.len() {
        Run { positions: Seq::empty(), end: from }
    } else {
        let task = tasks[from as int];
        if !is_pending(task) || task.index_uid@ != index_uid {
            run_from(tasks, from + 1, index_uid, kind)
        } else if task.content.spec_kind() == kind {
            let rest = run_from(tasks, from + 1, index_uid, kind);
            Run { positions: seq![from as int] + rest.positions, end: rest.end }
        } else {
            Run { positions: Seq::empty(), end: from }
        }
    }
}

/// The positions of the tasks of the next batch.
pub open spec fn next_batch_positions(tasks: Seq<Task>, policy: BatchPolicy) -> Seq<int> {
    match first_pending(tasks, 0, true) {
        Some(i) => seq![i as int],
        None => match first_pending(tasks, 0, false) {
            None => Seq::empty(),
            Some(i) => {
                let first = tasks[i as int];
                match first.content.spec_kind() {
                    Kind::DocumentAddition => run_from(
                        tasks,
                        i,
                        first.index_uid@,
                        Kind::DocumentAddition,
                    ).positions,
                    Kind::DocumentDeletion => {
                        let deletions = run_from(
                            tasks,
                            i,
                            first.index_uid@,
                            Kind::DocumentDeletion,
                        );
                        if policy.additions_after_deletions {
                            deletions.positions + run_from(
                                tasks,
                                deletions.end,
                                first.index_uid@,
                                Kind::DocumentAddition,
                            ).positions
                        } else {
                            deletions.positions
                        }
                    },
                    _ => seq![i as int],
                }
            },
        },
    }
}

/// The ids of the tasks at the given positions.
pub open spec fn ids_at(tasks: Seq<Task>, positions: Seq<int>) -> Seq<TaskId> {
    Seq::new(positions.len(), |k: int| tasks[positions[k]].id)
}

/// The ids of the tasks of the next batch.
pub open spec fn spec_next_batch(tasks: Seq<Task>, policy: BatchPolicy) -> Seq<TaskId> {
    ids_at(tasks, next_batch_positions(tasks, policy))
}

fn pending(task: &Task) -> (r: bool)
    ensures
        r == is_pending(*task),
{
    !task.is_finished()
}

fn find_pending(tasks: &Vec<Task>, dumps: bool) -> (r: Option<usize>)
    ensures
        match r {
            Some(i) => first_pending(tasks@, 0, dumps) == Some(i as nat) && i < tasks@.len(),
            None => first_pending(tasks@, 0, dumps) is None,
        },
{
    let mut i: usize = 0;
    while i < tasks.len()
        invariant
            i <= tasks.len(),
            first_pending(tasks@, i as nat, dumps) == first_pending(tasks@, 0, dumps),
        decreases tasks.len() - i,
    {
        if pending(&tasks[i]) && (!dumps || tasks[i].content.kind() == Kind::DumpOrSnapshot) {
            return Some(i);
        }
        i += 1;
    }
    None
}

proof fn lemma_ids_push(tasks: Seq<Task>, positions: Seq<int>, at: int)
    ensures
        ids_at(tasks, positions.push(at)) == ids_at(tasks, positions).push(tasks[at].id),
{
    assert(ids_at(tasks, positions.push(at)) =~= ids_at(tasks, positions).push(tasks[at].id));
}

/// Adds the run of the index and kind from `from` on to `batch` and returns
/// where the run ended.
fn collect_run(tasks: &Vec<Task>, from: usize, index_uid: &str, kind: Kind, batch: &mut Vec<TaskId>)
    -> (end: usize)
    requires
        from <= tasks.len(),
    ensures
        end == run_from(tasks@, from as nat, index_uid@, kind).end,
        end <= tasks.len(),
        final(batch)@ == old(batch)@ + ids_at(
            tasks@,
            run_from(tasks@, from as nat, index_uid@, kind).positions,
        ),
{
    let ghost whole = run_from(tasks@, from as nat, index_uid@, kind);
    let ghost taken: Seq<int> = Seq::empty();
    let mut i: usize = from;
    let mut ended = false;
    assert(ids_at(tasks@, taken) =~= Seq::<TaskId>::empty());
    assert(batch@ + Seq::<TaskId>::empty() =~= batch@);
    assert(taken + whole.positions =~= whole.positions);
    while i < tasks.len() && !ended
        invariant
            from <= i <= tasks.len(),
            whole == run_from(tasks@, from as nat, index_uid@, kind),
            batch@ == old(batch)@ + ids_at(tasks@, taken),
            !ended ==> taken + run_from(tasks@, i as nat, index_uid@, kind).positions
                == whole.positions,
            !ended ==> run_from(tasks@, i as nat, index_uid@, kind).end == whole.end,
            ended ==> taken == whole.positions && i == whole.end,
        decreases tasks.len() - i + if ended { 0int } else { 1int },
    {
        let task = &tasks[i];
        if !pending(task) || !str_eq(task.index_uid.as_str(), index_uid) {
            i += 1;
        } else if task.content.kind() == kind {
            proof {
                let rest = run_from(tasks@, (i + 1) as nat, index_uid@, kind);
                assert(taken.push(i as int) + rest.positions =~= taken + (seq![i as int]
                    + rest.positions));
                lemma_ids_push(tasks@, taken, i as int);
                assert(old(batch)@ + ids_at(tasks@, taken).push(task.id) =~= (old(batch)@
                    + ids_at(tasks@, taken)).push(task.id));
                taken = taken.push(i as int);
            }
            batch.push(task.id);
            i += 1;
        } else {
            proof {
                assert(taken + Seq::<int>::empty() =~= taken);
            }
            ended = true;
        }
    }
    proof {
        if !ended {
            assert(taken + Seq::<int>::empty() =~= taken);
        }
    }
    i
}

/// Chooses the tasks of the next batch and returns their ids, in order.
///
/// A pending dump or snapshot is executed first and alone. Else the batch
/// is led by the pending task with the lowest id and holds, of that task's
/// index: the run of additions that it begins; or the run of deletions that
/// it begins, with the run of additions that follows where the policy
/// allows it; or that task alone.
pub fn next_batch(store: &TaskStore, policy: BatchPolicy) -> (batch: Vec<TaskId>)
    ensures
        batch@ == spec_next_batch(store@, policy),
{
    let tasks = store.tasks();
    let mut batch: Vec<TaskId> = Vec::new();
    match find_pending(tasks, true) {
        Some(i) => {
            batch.push(tasks[i].id);
            assert(batch@ =~= ids_at(tasks@, seq![i as int]));
        },
        None => match find_pending(tasks, false) {
            None => {
                assert(batch@ =~= ids_at(tasks@, Seq::<int>::empty()));
            },
            Some(i) => {
                let first = &tasks[i];
                match first.content.kind() {
                    Kind::DocumentAddition => {
                        collect_run(
                            tasks,
                            i,
                            first.index_uid.as_str(),
                            Kind::DocumentAddition,
                            &mut batch,
                        );
                        assert(batch@ =~= ids_at(
                            tasks@,
                            run_from(
                                tasks@,
                                i as nat,
                                first.index_uid@,
                                Kind::DocumentAddition,
                            ).positions,
                        ));
                    },
                    Kind::DocumentDeletion => {
                        let end = collect_run(
                            tasks,
                            i,
                            first.index_uid.as_str(),
                            Kind::DocumentDeletion,
                            &mut batch,
                        );
                        let ghost deletions = run_from(
                            tasks@,
                            i as nat,
                            first.index_uid@,
                            Kind::DocumentDeletion,
                        );
                        assert(batch@ =~= ids_at(tasks@, deletions.positions));
                        if policy.additions_after_deletions {
                            collect_run(
                                tasks,
                                end,
                                first.index_uid.as_str(),
                                Kind::DocumentAddition,
                                &mut batch,
                            );
                            let ghost additions = run_from(
                                tasks@,
                                end as nat,
                                first.index_uid@,
                                Kind::DocumentAddition,
                            );
                            assert(batch@ =~= ids_at(
                                tasks@,
                                deletions.positions + additions.positions,
                            ));
                        }
                    },
                    _ => {
                        batch.push(first.id);
                        assert(batch@ =~= ids_at(tasks@, seq![i as int]));
                    },
                }
            },
        },
    }
    batch
}

/// What the scheduler does next.
#[derive(Debug)]
pub enum Work {
    /// Execute the job.
    Job(Job),
    /// Execute the batch of the tasks with these ids.
    Batch(Vec<TaskId>),
    /// Wait: there is nothing to do.
    Idle,
}

/// Chooses what the scheduler does next: a job that is pending goes before
/// every task; else the next batch is executed, if there is one.
pub fn next_work(job: Job, store: &TaskStore, policy: BatchPolicy) -> (work: Work)
    ensures
        match job {
            Job::Empty => if spec_next_batch(store@, policy).len() == 0 {
                work is Idle
            } else {
                work matches Work::Batch(batch) && batch@ == spec_next_batch(store@, policy)
            },
            _ => work == Work::Job(job),
        },
{
    match job {
        Job::Empty => {
            let batch = next_batch(store, policy);
            if batch.len() == 0 {
                Work::Idle
            } else {
                Work::Batch(batch)
            }
        },
        job => Work::Job(job),
    }
}

/// Where the first pending task stands: nothing before it is pending.
pub proof fn lemma_first_pending(tasks: Seq<Task>, from: nat, dumps: bool)
    requires
        from <= tasks.len(),
    ensures
        match first_pending(tasks, from, dumps) {
            Some(i) => {
                &&& from <= i < tasks.len()
                &&& is_pending(tasks[i as int])
                &&& dumps ==> tasks[i as int].content.spec_kind() == Kind::DumpOrSnapshot
                &&& forall|j: int|
                    from <= j < i ==> !(is_pending(#[trigger] tasks[j]) && (!dumps
                        || tasks[j].content.spec_kind() == Kind::DumpOrSnapshot))
            },
            None => forall|j: int|
                from <= j < tasks.len() ==> !(is_pending(#[trigger] tasks[j]) && (!dumps
                    || tasks[j].content.spec_kind() == Kind::DumpOrSnapshot)),
        },
    decreases tasks.len() - from,
{
    if from < tasks.len() {
        lemma_first_pending(tasks, from + 1, dumps);
    }
}

/// What a run holds: pending tasks of the index and of the kind, in the
/// order of their positions, and every pending task of the index that
/// stands between its start and its end.
pub proof fn lemma_run(tasks: Seq<Task>, from: nat, index_uid: Seq<char>, kind: Kind)
    requires
        from <= tasks.len(),
    ensures
        ({
            let run = run_from(tasks, from, index_uid, kind);
            &&& from <= run.end <= tasks.len()
            &&& forall|k: int|
                0 <= k < run.positions.len() ==> {
                    let at = #[trigger] run.positions[k];
                    &&& from <= at < run.end
                    &&& is_pending(tasks[at])
                    &&& tasks[at].index_uid@ == index_uid
                    &&& tasks[at].content.spec_kind() == kind
                }
            &&& forall|k: int, l: int|
                0 <= k < l < run.positions.len() ==> #[trigger] run.positions[k]
                    < #[trigger] run.positions[l]
            &&& forall|j: int|
                from <= j < run.end && is_pending(#[trigger] tasks[j]) && tasks[j].index_uid@
                    == index_uid ==> run.positions.contains(j)
        }),
    decreases tasks.len() - from,
{
    if from < tasks.len() {
        let task = tasks[from as int];
        lemma_run(tasks, from + 1, index_uid, kind);
        let rest = run_from(tasks, from + 1, index_uid, kind);
        let run = run_from(tasks, from, index_uid, kind);
        if !is_pending(task) || task.index_uid@ != index_uid {
        } else if task.content.spec_kind() == kind {
            assert(run.positions =~= seq![from as int] + rest.positions);
            assert forall|k: int| 0 <= k < run.positions.len() implies {
                let at = #[trigger] run.positions[k];
                &&& from <= at < run.end
                &&& is_pending(tasks[at])
                &&& tasks[at].index_uid@ == index_uid
                &&& tasks[at].content.spec_kind() == kind
            } by {
                if k > 0 {
                    assert(run.positions[k] == rest.positions[k - 1]);
                }
            }
            assert forall|k: int, l: int| 0 <= k < l < run.positions.len() implies (
            #[trigger] run.positions[k]) < #[trigger] run.positions[l] by {
                assert(run.positions[l] == rest.positions[l - 1]);
                if k > 0 {
                    assert(run.positions[k] == rest.positions[k - 1]);
                }
            }
            assert forall|j: int|
                from <= j < run.end && is_pending(#[trigger] tasks[j]) && tasks[j].index_uid@
                    == index_uid implies run.positions.contains(j) by {
                if j == from {
                    assert(run.positions[0] == j);
                } else {
                    assert(rest.positions.contains(j));
                    let k = choose|k: int| 0 <= k < rest.positions.len() && rest.positions[k] == j;
                    assert(run.positions[k + 1] == j);
                }
            }
        } else {
        }
    }
}

/// Whether the tasks at the given positions can be executed together:
/// there is at most one of them, or they are all additions, or all
/// deletions, or deletions followed by additions where the policy allows it.
pub open spec fn is_compatible(tasks: Seq<Task>, positions: Seq<int>, policy: BatchPolicy) -> bool {
    ||| positions.len() <= 1
    ||| forall|k: int|
        0 <= k < positions.len() ==> tasks[#[trigger] positions[k]].content.spec_kind()
            == Kind::DocumentAddition
    ||| forall|k: int|
        0 <= k < positions.len() ==> tasks[#[trigger] positions[k]].content.spec_kind()
            == Kind::DocumentDeletion
    ||| policy.additions_after_deletions && exists|m: int|
        #[trigger] deletions_then_additions(tasks, positions, m)
}

/// Whether the first `m` of the tasks at the given positions are deletions
/// and the others additions.
pub open spec fn deletions_then_additions(tasks: Seq<Task>, positions: Seq<int>, m: int) -> bool {
    &&& 0 <= m <= positions.len()
    &&& forall|k: int|
        0 <= k < m ==> tasks[#[trigger] positions[k]].content.spec_kind()
            == Kind::DocumentDeletion
    &&& forall|k: int|
        m <= k < positions.len() ==> tasks[#[trigger] positions[k]].content.spec_kind()
            == Kind::DocumentAddition
}

/// The next batch is well made.
///
/// Its tasks are pending, stand in the order of their ids, target one index
/// and can be executed together. Unless the batch is a dump or a snapshot,
/// it holds every pending task of its index that comes before one of its
/// tasks: the tasks of an index are executed in the order of their ids.
pub proof fn lemma_next_batch(tasks: Seq<Task>, policy: BatchPolicy)
    requires
        tasks_in_order(tasks),
    ensures
        ({
            let positions = next_batch_positions(tasks, policy);
            &&& forall|k: int|
                0 <= k < positions.len() ==> 0 <= #[trigger] positions[k] < tasks.len()
                    && is_pending(tasks[positions[k]])
            &&& forall|k: int, l: int|
                0 <= k < l < positions.len() ==> tasks[#[trigger] positions[k]].id
                    < tasks[#[trigger] positions[l]].id
            &&& forall|k: int, l: int|
                0 <= k < positions.len() && 0 <= l < positions.len()
                    ==> tasks[#[trigger] positions[k]].index_uid@
                    == tasks[#[trigger] positions[l]].index_uid@
            &&& is_compatible(tasks, positions, policy)
            &&& first_pending(tasks, 0, true) is None ==> forall|k: int, j: int|
                0 <= k < positions.len() && 0 <= j < #[trigger] positions[k] && is_pending(
                    #[trigger] tasks[j],
                ) && tasks[j].index_uid@ == tasks[positions[k]].index_uid@
                    ==> positions.contains(j)
        }),
{
    let positions = next_batch_positions(tasks, policy);
    lemma_first_pending(tasks, 0, true);
    lemma_first_pending(tasks, 0, false);
    match first_pending(tasks, 0, true) {
        Some(i) => {},
        None => match first_pending(tasks, 0, false) {
            None => {},
            Some(i) => {
                let first = tasks[i as int];
                let uid = first.index_uid@;
                match first.content.spec_kind() {
                    Kind::DocumentAddition => {
                        lemma_run(tasks, i, uid, Kind::DocumentAddition);
                        let run = run_from(tasks, i, uid, Kind::DocumentAddition);
                        assert forall|k: int, l: int| 0 <= k < l < positions.len() implies tasks[
                        #[trigger] positions[k]].id < tasks[#[trigger] positions[l]].id by {
                            assert(positions[k] < positions[l]);
                        }
                    },
                    Kind::DocumentDeletion => {
                        lemma_run(tasks, i, uid, Kind::DocumentDeletion);
                        let deletions = run_from(tasks, i, uid, Kind::DocumentDeletion);
                        if policy.additions_after_deletions {
                            lemma_run(tasks, deletions.end, uid, Kind::DocumentAddition);
                            let additions = run_from(
                                tasks,
                                deletions.end,
                                uid,
                                Kind::DocumentAddition,
                            );
                            let m = deletions.positions.len() as int;
                            assert forall|k: int| 0 <= k < positions.len() implies {
                                &&& (k < m ==> positions[k] == deletions.positions[k])
                                &&& (k >= m ==> positions[k] == additions.positions[k - m])
                            } by {}
                            assert forall|k: int| 0 <= k < positions.len() implies 0
                                <= #[trigger] positions[k] < tasks.len() && is_pending(
                                tasks[positions[k]],
                            ) by {
                                if k < m {
                                    assert(positions[k] == deletions.positions[k]);
                                } else {
                                    assert(positions[k] == additions.positions[k - m]);
                                }
                            }
                            assert forall|k: int, l: int|
                                0 <= k < l < positions.len() implies tasks[
                            #[trigger] positions[k]].id < tasks[#[trigger] positions[l]].id by {
                                if k < m {
                                    assert(positions[k] == deletions.positions[k]);
                                } else {
                                    assert(positions[k] == additions.positions[k - m]);
                                }
                                if l < m {
                                    assert(positions[l] == deletions.positions[l]);
                                } else {
                                    assert(positions[l] == additions.positions[l - m]);
                                }
                                assert(positions[k] < positions[l]);
                            }
                            assert forall|k: int, l: int|
                                0 <= k < positions.len() && 0 <= l < positions.len() implies tasks[
                            #[trigger] positions[k]].index_uid@
                                == tasks[#[trigger] positions[l]].index_uid@ by {
                                if k < m {
                                    assert(positions[k] == deletions.positions[k]);
                                } else {
                                    assert(positions[k] == additions.positions[k - m]);
                                }
                                if l < m {
                                    assert(positions[l] == deletions.positions[l]);
                                } else {
                                    assert(positions[l] == additions.positions[l - m]);
                                }
                            }
                            assert(is_compatible(tasks, positions, policy)) by {
                                assert forall|k: int| 0 <= k < m implies tasks[
                                #[trigger] positions[k]].content.spec_kind()
                                    == Kind::DocumentDeletion by {
                                    assert(positions[k] == deletions.positions[k]);
                                }
                                assert forall|k: int| m <= k < positions.len() implies tasks[
                                #[trigger] positions[k]].content.spec_kind()
                                    == Kind::DocumentAddition by {
                                    assert(positions[k] == additions.positions[k - m]);
                                }
                                assert(deletions_then_additions(tasks, positions, m));
                            }
                            assert forall|k: int, j: int|
                                0 <= k < positions.len() && 0 <= j < #[trigger] positions[k]
                                    && is_pending(#[trigger] tasks[j]) && tasks[j].index_uid@
                                    == tasks[positions[k]].index_uid@ implies positions.contains(
                                j,
                            ) by {
                                if k < m {
                                    assert(positions[k] == deletions.positions[k]);
                                } else {
                                    assert(positions[k] == additions.positions[k - m]);
                                }
                                assert(tasks[positions[k]].index_uid@ == uid);
                                if j < deletions.end {
                                    assert(deletions.positions.contains(j));
                                    let c = choose|c: int|
                                        0 <= c < deletions.positions.len()
                                            && deletions.positions[c] == j;
                                    assert(positions[c] == j);
                                } else {
                                    assert(additions.positions.contains(j));
                                    let c = choose|c: int|
                                        0 <= c < additions.positions.len()
                                            && additions.positions[c] == j;
                                    assert(positions[c + m] == j);
                                }
                            }
                        } else {
                            assert forall|k: int, l: int|
                                0 <= k < l < positions.len() implies tasks[
                            #[trigger] positions[k]].id < tasks[#[trigger] positions[l]].id by {
                                assert(positions[k] < positions[l]);
                            }
                        }
                    },
                    _ => {},
                }
            },
        },
    }
}

/// What happens to all the tasks of a batch at once.
#[derive(Debug)]
pub enum BatchChange {
    /// The tasks were put into the batch with this id.
    Batched { batch_id: BatchId, timestamp: Timestamp },
    /// The execution of the batch has begun.
    Processing { timestamp: Timestamp },
    /// The batch was committed; each task has its own result, in the order
    /// of the batch.
    Succeeded { results: Vec<TaskResult>, timestamp: Timestamp },
    /// The batch was aborted; every task fails with the same error.
    Failed { error: ResponseError, timestamp: Timestamp },
}

impl BatchChange {
    /// Whether the change is made for a batch of `n` tasks.
    pub open spec fn spec_fits(&self, n: int) -> bool {
        match self {
            BatchChange::Succeeded { results, .. } => results@.len() == n,
            _ => true,
        }
    }

    /// The event that the change adds to the task at rank `k` of the batch.
    pub open spec fn spec_event(&self, k: int) -> TaskEvent {
        match self {
            BatchChange::Batched { batch_id, timestamp } => TaskEvent::Batched {
                timestamp: *timestamp,
                batch_id: *batch_id,
            },
            BatchChange::Processing { timestamp } => TaskEvent::Processing(*timestamp),
            BatchChange::Succeeded { results, timestamp } => TaskEvent::Succeeded {
                result: results@[k],
                timestamp: *timestamp,
            },
            BatchChange::Failed { error, timestamp } => TaskEvent::Failed {
                error: *error,
                timestamp: *timestamp,
            },
        }
    }

    /// The event that the change adds to the task at rank `k` of the batch.
    pub fn event(&self, k: usize) -> (event: TaskEvent)
        requires
            self matches BatchChange::Succeeded { results, .. } ==> k < results@.len(),
        ensures
            event == self.spec_event(k as int),
    {
        match self {
            BatchChange::Batched { batch_id, timestamp } => TaskEvent::Batched {
                timestamp: *timestamp,
                batch_id: *batch_id,
            },
            BatchChange::Processing { timestamp } => TaskEvent::Processing(*timestamp),
            BatchChange::Succeeded { results, timestamp } => TaskEvent::Succeeded {
                result: results[k],
                timestamp: *timestamp,
            },
            BatchChange::Failed { error, timestamp } => TaskEvent::Failed {
                error: ResponseError { message: error.message.clone(), code: error.code },
                timestamp: *timestamp,
            },
        }
    }
}

/// Why the change cannot be made to the tasks of the batch from rank
/// `from` on, if it cannot: the first task that is unknown, or that stands
/// out of order in the batch, or that cannot take its event.
pub open spec fn first_refusal(tasks: Seq<Task>, batch: Seq<TaskId>, change: BatchChange, from: nat)
    -> Option<TaskErrorView>
    decreases batch.len() - from,
{
    if from >= batch.len() {
        None
    } else {
        let id = batch[from as int];
        match spec_position(tasks, id) {
            None => Some(TaskErrorView::UnexistingTask(id)),
            Some(i) => if (from > 0 && batch[from - 1] >= id) || !can_follow(
                tasks[i].events@,
                change.spec_event(from as int),
            ) {
                Some(TaskErrorView::InvalidTaskEvent(id))
            } else {
                first_refusal(tasks, batch, change, from + 1)
            },
        }
    }
}

/// The text of the error that refuses a change with the wrong number of results.
pub open spec fn spec_results_refusal() -> Seq<char> {
    "a batch takes one result for each of its tasks"@
}

/// Why the change cannot be made to the batch, if it cannot.
pub open spec fn spec_refusal(tasks: Seq<Task>, batch: Seq<TaskId>, change: BatchChange) -> Option<
    TaskErrorView,
> {
    if !change.spec_fits(batch.len() as int) {
        Some(TaskErrorView::Internal(spec_results_refusal()))
    } else {
        first_refusal(tasks, batch, change, 0)
    }
}

/// Whether `after` is `before` with the change made to the tasks of the
/// batch: each of them has its event more, every other task is as it was.
pub open spec fn is_changed(
    before: Seq<Task>,
    after: Seq<Task>,
    batch: Seq<TaskId>,
    change: BatchChange,
    done: int,
) -> bool {
    &&& after.len() == before.len()
    &&& forall|i: int|
        0 <= i < before.len() ==> {
            &&& (#[trigger] after[i]).id == before[i].id
            &&& after[i].index_uid == before[i].index_uid
            &&& after[i].content == before[i].content
            &&& (forall|k: int| 0 <= k < done ==> batch[k] != before[i].id) ==> after[i]
                == before[i]
            &&& forall|k: int|
                0 <= k < done && #[trigger] batch[k] == before[i].id ==> after[i].events@
                    == before[i].events@.push(change.spec_event(k))
        }
}

proof fn lemma_refusal_none(tasks: Seq<Task>, batch: Seq<TaskId>, change: BatchChange, from: nat)
    requires
        first_refusal(tasks, batch, change, from) is None,
    ensures
        forall|k: int|
            from <= k < batch.len() ==> {
                &&& spec_position(tasks, #[trigger] batch[k]) matches Some(i)
                &&& can_follow(tasks[i].events@, change.spec_event(k))
                &&& k > 0 ==> batch[k - 1] < batch[k]
            },
    decreases batch.len() - from,
{
    if from < batch.len() {
        lemma_refusal_none(tasks, batch, change, from + 1);
    }
}

proof fn lemma_same_ids_same_position(before: Seq<Task>, after: Seq<Task>, id: TaskId)
    requires
        tasks_in_order(before),
        tasks_in_order(after),
        after.len() == before.len(),
        forall|i: int| 0 <= i < before.len() ==> (#[trigger] after[i]).id == before[i].id,
    ensures
        spec_position(after, id) == spec_position(before, id),
{
    if spec_position(before, id) is Some {
        let i = spec_position(before, id)->Some_0;
        assert(after[i].id == id);
        lemma_position(after, id, i);
    } else {
        if spec_position(after, id) is Some {
            let i = spec_position(after, id)->Some_0;
            assert(before[i].id == id);
        }
    }
}

/// Makes a change to all the tasks of a batch, or to none: where one of the
/// tasks cannot take its event, nothing is written and the error says which.
pub fn apply_to_batch(store: &mut TaskStore, batch: &Vec<TaskId>, change: &BatchChange) -> (r:
    Result<(), TaskError>)
    ensures
        tasks_in_order(final(store)@),
        match spec_refusal(old(store)@, batch@, *change) {
            Some(refusal) => r is Err && r->Err_0@ == refusal && final(store)@ == old(store)@,
            None => r is Ok && is_changed(
                old(store)@,
                final(store)@,
                batch@,
                *change,
                batch@.len() as int,
            ),
        },
{
    let fits = match change {
        BatchChange::Succeeded { results, .. } => results.len() == batch.len(),
        _ => true,
    };
    if !fits {
        store.check_order();
        return Err(
            TaskError::Internal(
                String::from_str("a batch takes one result for each of its tasks"),
            ),
        );
    }
    let ghost before = store@;
    // first see that every task can take its event
    let mut k: usize = 0;
    while k < batch.len()
        invariant
            k <= batch.len(),
            store@ == before,
            change.spec_fits(batch@.len() as int),
            first_refusal(before, batch@, *change, k as nat) == first_refusal(
                before,
                batch@,
                *change,
                0,
            ),
        decreases batch.len() - k,
    {
        let id = batch[k];
        let event = change.event(k);
        match store.get(id) {
            None => {
                store.check_order();
                return Err(TaskError::UnexistingTask(id));
            },
            Some(task) => {
                let n = task.events.len();
                let follows = n > 0 && task.events[n - 1].timestamp() < event.timestamp()
                    && task.events[n - 1].stage() < event.stage();
                if (k > 0 && batch[k - 1] >= id) || !follows {
                    store.check_order();
                    return Err(TaskError::InvalidTaskEvent(id));
                }
            },
        }
        k += 1;
    }
    proof {
        lemma_refusal_none(before, batch@, *change, 0);
    }
    store.check_order();
    // then write them all
    let mut k: usize = 0;
    while k < batch.len()
        invariant
            k <= batch.len(),
            change.spec_fits(batch@.len() as int),
            tasks_in_order(before),
            tasks_in_order(store@),
            is_changed(before, store@, batch@, *change, k as int),
            forall|j: int|
                0 <= j < batch@.len() ==> {
                    &&& spec_position(before, #[trigger] batch@[j]) matches Some(i)
                    &&& can_follow(before[i].events@, change.spec_event(j))
                    &&& j > 0 ==> batch@[j - 1] < batch@[j]
                },
        decreases batch.len() - k,
    {
        let id = batch[k];
        let event = change.event(k);
        let ghost current = store@;
        proof {
            lemma_same_ids_same_position(before, current, id);
            let i = spec_position(before, id)->Some_0;
            assert forall|j: int| 0 <= j < k implies batch@[j] != id by {
                lemma_increasing(batch@, j, k as int);
            }
            assert(current[i] == before[i]);
        }
        let r = store.append_event(id, event);
        proof {
            let i = spec_position(before, id)->Some_0;
            let after = store@;
            assert forall|a: int| 0 <= a < before.len() implies {
                &&& (#[trigger] after[a]).id == before[a].id
                &&& after[a].index_uid == before[a].index_uid
                &&& after[a].content == before[a].content
                &&& (forall|j: int| 0 <= j < k + 1 ==> batch@[j] != before[a].id) ==> after[a]
                    == before[a]
                &&& forall|j: int|
                    0 <= j < k + 1 && #[trigger] batch@[j] == before[a].id ==> after[a].events@
                        == before[a].events@.push(change.spec_event(j))
            } by {
                if a != i {
                    assert(after[a] == current[a]);
                    assert(before[a].id != id) by {
                        if before[a].id == id {
                            lemma_position(before, id, a);
                        }
                    }
                } else {
                    assert forall|j: int|
                        0 <= j < k + 1 && #[trigger] batch@[j] == before[a].id implies j == k by {
                        if j < k {
                            lemma_increasing(batch@, j, k as int);
                        }
                    }
                }
            }
        }
        k += 1;
    }
    Ok(())
}

/// The payload files of the tasks of the batch from rank `from` on that
/// are finished additions.
pub open spec fn spec_finished_payloads(tasks: Seq<Task>, batch: Seq<TaskId>, from: nat) -> Seq<
    u128,
>
    decreases batch.len() - from,
{
    if from >= batch.len() {
        Seq::empty()
    } else {
        (match spec_position(tasks, batch[from as int]) {
            Some(i) => match tasks[i].content.spec_content_uuid() {
                Some(uuid) if spec_is_finished(tasks[i].events@) => seq![uuid],
                _ => Seq::empty(),
            },
            None => Seq::empty(),
        }) + spec_finished_payloads(tasks, batch, from + 1)
    }
}

/// The payload files to delete once a batch is over: those of its
/// additions that are finished, succeeded or failed.
pub fn finished_payloads(store: &TaskStore, batch: &Vec<TaskId>) -> (files: Vec<u128>)
    ensures
        files@ == spec_finished_payloads(store@, batch@, 0),
{
    let mut files: Vec<u128> = Vec::new();
    let mut k: usize = 0;
    assert(files@ + spec_finished_payloads(store@, batch@, 0) =~= spec_finished_payloads(
        store@,
        batch@,
        0,
    ));
    while k < batch.len()
        invariant
            k <= batch.len(),
            files@ + spec_finished_payloads(store@, batch@, k as nat) == spec_finished_payloads(
                store@,
                batch@,
                0,
            ),
        decreases batch.len() - k,
    {
        let ghost rest = spec_finished_payloads(store@, batch@, (k + 1) as nat);
        let ghost found = files@;
        let mut pushed = false;
        match store.get(batch[k]) {
            Some(task) => {
                match task.content.content_uuid() {
                    Some(uuid) => {
                        if task.is_finished() {
                            files.push(uuid);
                            pushed = true;
                            assert(found.push(uuid) + rest =~= found + (seq![uuid] + rest));
                        }
                    },
                    None => {},
                }
            },
            None => {},
        }
        proof {
            if !pushed {
                assert(found + (Seq::<u128>::empty() + rest) =~= found + rest);
            }
        }
        k += 1;
    }
    assert(files@ + Seq::<u128>::empty() =~= files@);
    files
}

proof fn lemma_increasing(batch: Seq<TaskId>, a: int, b: int)
    requires
        0 <= a < b < batch.len(),
        forall|j: int| 0 < j < batch.len() ==> batch[j - 1] < #[trigger] batch[j],
    ensures
        batch[a] < batch[b],
    decreases b - a,
{
    if a + 1 < b {
        lemma_increasing(batch, a, b - 1);
    }
}

/// Batch atomicity: a change that ends the tasks of a batch ends all of
/// them alike, every one as succeeded or every one as failed.
pub proof fn lemma_batch_ends_alike(change: BatchChange, k: int, l: int)
    ensures
        change.spec_event(k).spec_is_terminal() == change.spec_event(l).spec_is_terminal(),
        change.spec_event(k) is Succeeded == change.spec_event(l) is Succeeded,
        change.spec_event(k) is Failed == change.spec_event(l) is Failed,
        change.spec_event(k).spec_timestamp() == change.spec_event(l).spec_timestamp(),
{
}

} // verus!
