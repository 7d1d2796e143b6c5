use meili_core::documents::payload::IndexDocumentsMethod;
use meili_core::error::{Code, ErrorCode, ResponseError};
use meili_core::tasks::error::TaskError;
use meili_core::tasks::scheduler::{
    apply_to_batch, finished_payloads, next_batch, next_work, BatchChange, BatchPolicy, Work,
};
use meili_core::tasks::task::{
    DocumentAdditionResult, DocumentDeletion, Job, Kind, Status, Task, TaskContent, TaskEvent,
    TaskResult,
};
use meili_core::tasks::task_store::{TaskFilter, TaskStore};

fn addition(uuid: u128, count: u64) -> TaskContent {
    TaskContent::DocumentAddition {
        content_uuid: uuid,
        merge_strategy: IndexDocumentsMethod::ReplaceDocuments,
        primary_key: None,
        documents_count: count,
        allow_index_creation: true,
    }
}

fn clear() -> TaskContent {
    TaskContent::DocumentDeletion(DocumentDeletion::Clear)
}

const MIX: BatchPolicy = BatchPolicy { additions_after_deletions: true };
const APART: BatchPolicy = BatchPolicy { additions_after_deletions: false };

#[test]
fn enqueue_and_process_one_add() {
    let mut store = TaskStore::new();
    let summary = store.register("movies".to_string(), addition(7, 1), None, false, 100).unwrap();
    assert_eq!(summary.task_uid, 0);
    assert_eq!(summary.index_uid, "movies");
    assert_eq!(summary.status, Status::Enqueued);
    assert_eq!(summary.kind, Kind::DocumentAddition);
    assert_eq!(summary.enqueued_at, 100);

    let batch = next_batch(&store, MIX);
    assert_eq!(batch, vec![0]);
    apply_to_batch(&mut store, &batch, &BatchChange::Batched { batch_id: 0, timestamp: 101 })
        .unwrap();
    assert_eq!(store.get(0).unwrap().status(), Status::Enqueued);
    apply_to_batch(&mut store, &batch, &BatchChange::Processing { timestamp: 102 }).unwrap();
    assert_eq!(store.get(0).unwrap().status(), Status::Processing);
    assert!(finished_payloads(&store, &batch).is_empty());

    let result = TaskResult::from(DocumentAdditionResult {
        indexed_documents: 1,
        number_of_documents: 1,
    });
    apply_to_batch(
        &mut store,
        &batch,
        &BatchChange::Succeeded { results: vec![result], timestamp: 103 },
    )
    .unwrap();
    let task = store.get(0).unwrap();
    assert_eq!(task.status(), Status::Succeeded);
    assert!(task.is_finished());
    match task.events.last().unwrap() {
        TaskEvent::Succeeded { result, timestamp } => {
            assert_eq!(*result, TaskResult::DocumentAddition { indexed_documents: 1 });
            assert_eq!(*timestamp, 103);
        }
        other => panic!("unexpected event {:?}", other),
    }
    // the payload file is deleted once the addition is finished
    assert_eq!(finished_payloads(&store, &batch), vec![7]);
    assert!(next_batch(&store, MIX).is_empty());
}

#[test]
fn delete_by_filter_is_a_task_of_its_own_batch() {
    let mut store = TaskStore::new();
    store.register("movies".to_string(), addition(7, 1), None, false, 1).unwrap();
    let summary = store
        .register(
            "movies".to_string(),
            TaskContent::DocumentDeletionByFilter { filter: r#""title = X""#.to_string() },
            None,
            false,
            2,
        )
        .unwrap();
    assert_eq!(summary.task_uid, 1);
    assert_eq!(summary.kind, Kind::DocumentDeletion);
    // the addition comes first; the deletion does not join it
    assert_eq!(next_batch(&store, MIX), vec![0]);
    apply_to_batch(
        &mut store,
        &vec![0],
        &BatchChange::Succeeded {
            results: vec![TaskResult::DocumentAddition { indexed_documents: 1 }],
            timestamp: 3,
        },
    )
    .unwrap();
    assert_eq!(next_batch(&store, MIX), vec![1]);
    apply_to_batch(
        &mut store,
        &vec![1],
        &BatchChange::Succeeded {
            results: vec![TaskResult::DocumentDeletion { deleted_documents: 1 }],
            timestamp: 4,
        },
    )
    .unwrap();
    assert_eq!(store.get(1).unwrap().status(), Status::Succeeded);
}

#[test]
fn cancellation_before_processing() {
    let mut store = TaskStore::new();
    store.register("movies".to_string(), addition(1, 1000), None, false, 10).unwrap();
    store.cancel(0, 11).unwrap();
    let task = store.get(0).unwrap();
    assert!(task.is_finished());
    assert_eq!(task.status(), Status::Failed);
    match task.events.last().unwrap() {
        TaskEvent::Failed { error, timestamp } => {
            assert_eq!(error.code, Code::TaskCancelled);
            assert_eq!(error.message, "Task was cancelled before it was processed.");
            assert_eq!(*timestamp, 11);
        }
        other => panic!("unexpected event {:?}", other),
    }
    // a cancelled task is no longer pending
    assert!(next_batch(&store, MIX).is_empty());
}

#[test]
fn cancellation_race_after_processing_began() {
    let mut store = TaskStore::new();
    store.register("movies".to_string(), addition(1, 1000), None, false, 10).unwrap();
    apply_to_batch(&mut store, &vec![0], &BatchChange::Processing { timestamp: 11 }).unwrap();
    match store.cancel(0, 12) {
        Err(TaskError::InvalidTaskCancellation(0)) => {}
        other => panic!("unexpected answer {:?}", other),
    }
    assert_eq!(store.get(0).unwrap().events.len(), 2);
    // the task completes normally
    apply_to_batch(
        &mut store,
        &vec![0],
        &BatchChange::Succeeded {
            results: vec![TaskResult::DocumentAddition { indexed_documents: 1000 }],
            timestamp: 13,
        },
    )
    .unwrap();
    assert_eq!(store.get(0).unwrap().status(), Status::Succeeded);
    match store.cancel(0, 14) {
        Err(TaskError::InvalidTaskCancellation(0)) => {}
        other => panic!("unexpected answer {:?}", other),
    }
}

#[test]
fn cancelling_an_unknown_task() {
    let mut store = TaskStore::new();
    match store.cancel(3, 1) {
        Err(TaskError::UnexistingTask(3)) => {}
        other => panic!("unexpected answer {:?}", other),
    }
}

#[test]
fn task_ids_grow() {
    let mut store = TaskStore::new();
    assert_eq!(store.next_task_id(), Some(0));
    assert_eq!(store.register("a".to_string(), clear(), None, false, 1).unwrap().task_uid, 0);
    assert_eq!(store.register("b".to_string(), clear(), Some(5), false, 2).unwrap().task_uid, 5);
    assert_eq!(store.next_task_id(), Some(6));
    match store.register("c".to_string(), clear(), Some(5), false, 3) {
        Err(TaskError::BadTaskId { received: 5, expected: 6 }) => {}
        other => panic!("unexpected answer {:?}", other),
    }
    assert_eq!(store.register("c".to_string(), clear(), Some(6), false, 3).unwrap().task_uid, 6);
    assert_eq!(store.len(), 3);
    let ids: Vec<u64> = store.tasks().iter().map(|t| t.id).collect();
    assert_eq!(ids, vec![0, 5, 6]);
}

#[test]
fn a_dry_run_writes_nothing() {
    let mut store = TaskStore::new();
    let summary = store.register("a".to_string(), clear(), None, true, 1).unwrap();
    assert_eq!(summary.task_uid, 0);
    assert_eq!(store.len(), 0);
    assert!(store.get(0).is_none());
    assert_eq!(store.register("a".to_string(), clear(), None, false, 2).unwrap().task_uid, 0);
}

#[test]
fn the_last_id_is_the_last() {
    let mut store = TaskStore::new();
    store.register("a".to_string(), clear(), Some(u64::MAX), false, 1).unwrap();
    assert_eq!(store.next_task_id(), None);
    match store.register("a".to_string(), clear(), None, false, 2) {
        Err(TaskError::Internal(_)) => {}
        other => panic!("unexpected answer {:?}", other),
    }
}

#[test]
fn events_are_appended_in_order() {
    let mut store = TaskStore::new();
    store.register("a".to_string(), clear(), None, false, 10).unwrap();
    // not after the last event
    match store.append_event(0, TaskEvent::Processing(10)) {
        Err(TaskError::InvalidTaskEvent(0)) => {}
        other => panic!("unexpected answer {:?}", other),
    }
    // a task is created once
    match store.append_event(0, TaskEvent::Created(11)) {
        Err(TaskError::InvalidTaskEvent(0)) => {}
        other => panic!("unexpected answer {:?}", other),
    }
    match store.append_event(1, TaskEvent::Processing(11)) {
        Err(TaskError::UnexistingTask(1)) => {}
        other => panic!("unexpected answer {:?}", other),
    }
    store.append_event(0, TaskEvent::Processing(11)).unwrap();
    // the life of a task does not go back
    match store.append_event(0, TaskEvent::Batched { timestamp: 12, batch_id: 0 }) {
        Err(TaskError::InvalidTaskEvent(0)) => {}
        other => panic!("unexpected answer {:?}", other),
    }
    let error = ResponseError::from_msg("no".to_string(), Code::Internal);
    store.append_event(0, TaskEvent::Failed { error, timestamp: 12 }).unwrap();
    // a finished task is immutable
    match store.append_event(0, TaskEvent::Succeeded { result: TaskResult::Other, timestamp: 13 }) {
        Err(TaskError::InvalidTaskEvent(0)) => {}
        other => panic!("unexpected answer {:?}", other),
    }
    assert_eq!(store.get(0).unwrap().events.len(), 3);
}

#[test]
fn is_finished_reads_the_last_event() {
    let mut task = Task {
        id: 0,
        index_uid: "a".to_string(),
        content: TaskContent::IndexDeletion,
        events: vec![],
    };
    assert!(!task.is_finished());
    task.events.push(TaskEvent::Created(1));
    assert!(!task.is_finished());
    task.events.push(TaskEvent::Processing(2));
    assert!(!task.is_finished());
    assert_eq!(task.status(), Status::Processing);
    task.events.push(TaskEvent::Succeeded { result: TaskResult::Other, timestamp: 3 });
    assert!(task.is_finished());
    assert_eq!(task.events[2].stage(), 3);
    assert_eq!(task.events[2].timestamp(), 3);
}

#[test]
fn additions_of_one_index_are_batched_together() {
    let mut store = TaskStore::new();
    store.register("a".to_string(), addition(1, 1), None, false, 1).unwrap();
    store.register("b".to_string(), addition(2, 1), None, false, 2).unwrap();
    store.register("a".to_string(), addition(3, 1), None, false, 3).unwrap();
    store.register("a".to_string(), clear(), None, false, 4).unwrap();
    store.register("a".to_string(), addition(4, 1), None, false, 5).unwrap();
    assert_eq!(next_batch(&store, MIX), vec![0, 2]);
    assert_eq!(next_batch(&store, APART), vec![0, 2]);
}

#[test]
fn deletions_take_the_additions_that_follow_where_allowed() {
    let mut store = TaskStore::new();
    store.register("a".to_string(), clear(), None, false, 1).unwrap();
    store
        .register(
            "a".to_string(),
            TaskContent::DocumentDeletion(DocumentDeletion::Ids(vec!["1".to_string()])),
            None,
            false,
            2,
        )
        .unwrap();
    store.register("b".to_string(), addition(2, 1), None, false, 3).unwrap();
    store.register("a".to_string(), addition(3, 1), None, false, 4).unwrap();
    store.register("a".to_string(), clear(), None, false, 5).unwrap();
    assert_eq!(next_batch(&store, MIX), vec![0, 1, 3]);
    assert_eq!(next_batch(&store, APART), vec![0, 1]);
}

#[test]
fn settings_and_lifecycle_tasks_go_alone() {
    let mut store = TaskStore::new();
    store
        .register(
            "a".to_string(),
            TaskContent::SettingsUpdate { settings: "{}".to_string(), is_deletion: false },
            None,
            false,
            1,
        )
        .unwrap();
    store
        .register(
            "a".to_string(),
            TaskContent::SettingsUpdate { settings: "{}".to_string(), is_deletion: false },
            None,
            false,
            2,
        )
        .unwrap();
    assert_eq!(next_batch(&store, MIX), vec![0]);

    let mut store = TaskStore::new();
    store.register("a".to_string(), TaskContent::IndexCreation { primary_key: None }, None, false, 1).unwrap();
    store.register("a".to_string(), addition(3, 1), None, false, 2).unwrap();
    assert_eq!(next_batch(&store, MIX), vec![0]);
}

#[test]
fn a_dump_goes_first_and_alone() {
    let mut store = TaskStore::new();
    store.register("a".to_string(), addition(1, 1), None, false, 1).unwrap();
    store.register("".to_string(), TaskContent::DumpCreation, None, false, 2).unwrap();
    store.register("a".to_string(), addition(2, 1), None, false, 3).unwrap();
    assert_eq!(next_batch(&store, MIX), vec![1]);
    apply_to_batch(
        &mut store,
        &vec![1],
        &BatchChange::Succeeded { results: vec![TaskResult::Other], timestamp: 4 },
    )
    .unwrap();
    assert_eq!(next_batch(&store, MIX), vec![0, 2]);
}

#[test]
fn a_batch_fails_as_a_whole() {
    let mut store = TaskStore::new();
    store.register("a".to_string(), addition(1, 1), None, false, 1).unwrap();
    store.register("a".to_string(), addition(2, 1), None, false, 2).unwrap();
    let batch = next_batch(&store, MIX);
    let error = ResponseError::from_msg("disk full".to_string(), Code::NoSpaceLeftOnDevice);
    apply_to_batch(&mut store, &batch, &BatchChange::Failed { error, timestamp: 5 }).unwrap();
    for id in [0, 1] {
        match store.get(id).unwrap().events.last().unwrap() {
            TaskEvent::Failed { error, timestamp } => {
                assert_eq!(error.message, "disk full");
                assert_eq!(error.code, Code::NoSpaceLeftOnDevice);
                assert_eq!(*timestamp, 5);
            }
            other => panic!("unexpected event {:?}", other),
        }
    }
    assert_eq!(finished_payloads(&store, &batch), vec![1, 2]);
}

#[test]
fn a_batch_changes_all_its_tasks_or_none() {
    let mut store = TaskStore::new();
    store.register("a".to_string(), addition(1, 1), None, false, 1).unwrap();
    store.register("a".to_string(), addition(2, 1), None, false, 7).unwrap();
    // the second task was created after the time of the change
    match apply_to_batch(&mut store, &vec![0, 1], &BatchChange::Processing { timestamp: 5 }) {
        Err(TaskError::InvalidTaskEvent(1)) => {}
        other => panic!("unexpected answer {:?}", other),
    }
    assert_eq!(store.get(0).unwrap().events.len(), 1);
    assert_eq!(store.get(1).unwrap().events.len(), 1);
    // one result is missing
    match apply_to_batch(
        &mut store,
        &vec![0, 1],
        &BatchChange::Succeeded { results: vec![TaskResult::Other], timestamp: 9 },
    ) {
        Err(TaskError::Internal(_)) => {}
        other => panic!("unexpected answer {:?}", other),
    }
    match apply_to_batch(&mut store, &vec![0, 4], &BatchChange::Processing { timestamp: 9 }) {
        Err(TaskError::UnexistingTask(4)) => {}
        other => panic!("unexpected answer {:?}", other),
    }
    // a task stands once in a batch, in the order of the ids
    match apply_to_batch(&mut store, &vec![1, 0], &BatchChange::Processing { timestamp: 9 }) {
        Err(TaskError::InvalidTaskEvent(0)) => {}
        other => panic!("unexpected answer {:?}", other),
    }
    assert_eq!(store.get(0).unwrap().events.len(), 1);
    assert_eq!(store.get(1).unwrap().events.len(), 1);
    apply_to_batch(&mut store, &vec![0, 1], &BatchChange::Processing { timestamp: 9 }).unwrap();
    assert_eq!(store.get(0).unwrap().events.len(), 2);
    assert_eq!(store.get(1).unwrap().events.len(), 2);
}

#[test]
fn task_errors_have_their_codes_and_messages() {
    let e = TaskError::UnexistingTask(12);
    assert_eq!(e.to_string(), "Task `12` not found.");
    assert_eq!(e.error_code(), Code::TaskNotFound);
    assert_eq!(e.http_status(), 404);
    let e = TaskError::InvalidTaskCancellation(0);
    assert_eq!(
        e.to_string(),
        "Task `0` cannot be cancel as it is already finished or being processed."
    );
    assert_eq!(e.error_code(), Code::InvalidTaskCancellation);
    assert_eq!(e.error_name(), "invalid_task_cancellation");
    let e = TaskError::Internal("boom".to_string());
    assert_eq!(e.to_string(), "Internal error: boom");
    assert_eq!(e.error_code(), Code::Internal);
    assert_eq!(e.http_status(), 500);
    let e = TaskError::BadTaskId { received: 3, expected: 18446744073709551615 };
    assert_eq!(e.to_string(), "Received bad task id: 3 should be >= to 18446744073709551615.");
}

#[test]
fn the_default_job_is_empty() {
    assert_eq!(Job::default(), Job::Empty);
    assert_ne!(Job::default(), Job::Dump { path: "dumps/".to_string() });
}

#[test]
fn the_kind_and_the_payload_of_a_task() {
    assert_eq!(addition(9, 1).kind(), Kind::DocumentAddition);
    assert_eq!(addition(9, 1).content_uuid(), Some(9));
    assert_eq!(clear().kind(), Kind::DocumentDeletion);
    assert_eq!(clear().content_uuid(), None);
    assert_eq!(TaskContent::IndexDeletion.kind(), Kind::IndexLifecycle);
    assert_eq!(TaskContent::IndexUpdate { primary_key: None }.kind(), Kind::IndexLifecycle);
    assert_eq!(TaskContent::SnapshotCreation.kind(), Kind::DumpOrSnapshot);
}

#[test]
fn a_job_goes_before_every_task() {
    let mut store = TaskStore::new();
    assert!(matches!(next_work(Job::Empty, &store, MIX), Work::Idle));
    store.register("a".to_string(), addition(1, 1), None, false, 1).unwrap();
    assert!(matches!(next_work(Job::Empty, &store, MIX), Work::Batch(batch) if batch == vec![0]));
    match next_work(Job::Dump { path: "dumps".to_string() }, &store, MIX) {
        Work::Job(Job::Dump { path }) => assert_eq!(path, "dumps"),
        other => panic!("unexpected work {:?}", other),
    }
}

#[test]
fn tasks_are_listed_by_index_status_and_kind() {
    let mut store = TaskStore::new();
    store.register("a".to_string(), addition(1, 1), None, false, 1).unwrap();
    store.register("b".to_string(), addition(2, 1), None, false, 2).unwrap();
    store.register("a".to_string(), clear(), None, false, 3).unwrap();
    store.register("a".to_string(), addition(3, 1), None, false, 4).unwrap();
    store.cancel(3, 5).unwrap();
    let all = TaskFilter { index_uid: None, status: None, kind: None };
    assert_eq!(store.list(&all, 0, 20), vec![0, 1, 2, 3]);
    assert_eq!(store.list(&all, 1, 2), vec![1, 2]);
    assert_eq!(store.list(&all, 3, usize::MAX), vec![3]);
    assert_eq!(store.list(&all, 4, 1), Vec::<u64>::new());
    assert_eq!(store.list(&all, usize::MAX, usize::MAX), Vec::<u64>::new());
    let of_a = TaskFilter { index_uid: Some("a".to_string()), status: None, kind: None };
    assert_eq!(store.list(&of_a, 0, 20), vec![0, 2, 3]);
    let failed = TaskFilter { index_uid: None, status: Some(Status::Failed), kind: None };
    assert_eq!(store.list(&failed, 0, 20), vec![3]);
    let enqueued_additions_of_a = TaskFilter {
        index_uid: Some("a".to_string()),
        status: Some(Status::Enqueued),
        kind: Some(Kind::DocumentAddition),
    };
    assert_eq!(store.list(&enqueued_additions_of_a, 0, 20), vec![0]);
    let deletions = TaskFilter { index_uid: None, status: None, kind: Some(Kind::DocumentDeletion) };
    assert_eq!(store.list(&deletions, 0, 20), vec![2]);
}
