//! The steps of an addition of documents.
//!
//! Receiving a payload is outside work: creating files, reading the body,
//! parsing the documents, registering the task. What to do next is decided
//! here: [`begin`] and [`step`] take what has just happened and answer with
//! the next thing to do, until the answer is `Return`.

use vstd::prelude::*;
use crate::documents::payload::{
    mime_view, payload_type, spec_payload_type, MeilisearchHttpError, Mime, PayloadType,
};

verus! {

/// Why an addition fails.
#[derive(Debug)]
pub enum AdditionError<E> {
    /// The request is refused.
    Http(MeilisearchHttpError),
    /// The outside work failed with this error.
    Outside(E),
    /// An event came that the state does not wait for.
    UnexpectedEvent,
}

/// How the parsing of the received documents ended.
#[derive(Debug)]
pub enum Reading<E> {
    /// The documents were parsed and the update file persisted.
    Parsed(u64),
    /// The payload is refused; the update file was not persisted.
    Failed(E),
    /// The parsing itself broke down; the update file may have been persisted.
    Panicked(E),
}

/// How the removal of an update file ended.
#[derive(Debug)]
pub enum Removal<E> {
    Removed,
    /// There was no such file.
    NotFound(E),
    Failed(E),
}

/// What has just happened.
#[derive(Debug)]
pub enum AdditionEvent<T, E> {
    /// The update file was created under this uuid.
    UpdateFile(Result<u128, E>),
    /// The temporary file that takes the body was created.
    TempFile(Result<(), String>),
    /// The next chunk of the body came, with its length; `None` at the end
    /// of the body.
    Chunk(Option<Result<usize, E>>),
    /// The chunk was written to the temporary file.
    Written(Result<(), String>),
    Flushed(Result<(), String>),
    Rewound(Result<(), String>),
    Read(Reading<E>),
    Removed(Removal<E>),
    /// The task was registered.
    Registered(Result<T, E>),
}

/// What the addition waits for.
#[derive(Debug)]
pub enum AdditionState<E> {
    CreatingUpdateFile { format: PayloadType },
    CreatingTempFile { format: PayloadType, uuid: u128 },
    /// `writes` chunks were written so far.
    Receiving { format: PayloadType, uuid: u128, writes: usize },
    Writing { format: PayloadType, uuid: u128, writes: usize },
    Flushing { format: PayloadType, uuid: u128, writes: usize },
    Rewinding { format: PayloadType, uuid: u128 },
    Reading { uuid: u128 },
    /// The update file is removed after the parsing broke down with `error`.
    Cleaning { error: E },
    Registering { uuid: u128 },
    /// The update file is removed after the registration failed with `error`.
    Withdrawing { error: E },
    Done,
}

/// What to do next.
#[derive(Debug)]
pub enum AdditionAction<T, E> {
    CreateUpdateFile { dry_run: bool },
    CreateTempFile,
    NextChunk,
    Write,
    Flush,
    Rewind,
    /// Parse the documents in this format into the update file and persist it.
    Read { format: PayloadType },
    DeleteUpdateFile { uuid: u128 },
    /// Register the addition of `documents_count` documents held in the
    /// update file `uuid`.
    Register { uuid: u128, documents_count: u64 },
    /// The addition is over.
    Return(Result<T, AdditionError<E>>),
}

/// `writes + 1`, held at the largest count.
pub open spec fn spec_one_more(writes: usize) -> usize {
    if writes == usize::MAX {
        writes
    } else {
        (writes + 1) as usize
    }
}

/// The failure of the outside work on the body.
pub open spec fn payload_failure<T, E>(why: String) -> (AdditionState<E>, AdditionAction<T, E>) {
    (
        AdditionState::Done,
        AdditionAction::Return(Err(AdditionError::Http(MeilisearchHttpError::Payload(why)))),
    )
}

/// The end of an addition with an error of the outside work.
pub open spec fn outside_failure<T, E>(error: E) -> (AdditionState<E>, AdditionAction<T, E>) {
    (AdditionState::Done, AdditionAction::Return(Err(AdditionError::Outside(error))))
}

/// The end of an addition whose body is missing or empty.
pub open spec fn missing_payload<T, E>(format: PayloadType) -> (
    AdditionState<E>,
    AdditionAction<T, E>,
) {
    (
        AdditionState::Done,
        AdditionAction::Return(
            Err(AdditionError::Http(MeilisearchHttpError::MissingPayload(format))),
        ),
    )
}

/// The next state and the next thing to do.
///
/// - The update file is created first, then the temporary file, then the
///   body is received chunk by chunk and written.
/// - An empty first chunk, or a body without chunks, is a missing payload.
/// - An error of the outside work ends the addition with that error.
/// - Once the documents are parsed the update file may be persisted: where
///   the parsing broke down or the registration fails, the file is removed
///   before the error is returned. That the file is not there is no
///   error: the first error is returned. Any other error of the removal
///   is returned in its place.
pub open spec fn spec_step<T, E>(state: AdditionState<E>, event: AdditionEvent<T, E>) -> (
    AdditionState<E>,
    AdditionAction<T, E>,
) {
    match (state, event) {
        (AdditionState::CreatingUpdateFile { format }, AdditionEvent::UpdateFile(Ok(uuid))) => (
            AdditionState::CreatingTempFile { format, uuid },
            AdditionAction::CreateTempFile,
        ),
        (AdditionState::CreatingUpdateFile { .. }, AdditionEvent::UpdateFile(Err(e))) => {
            outside_failure(e)
        },
        (AdditionState::CreatingTempFile { format, uuid }, AdditionEvent::TempFile(Ok(()))) => (
            AdditionState::Receiving { format, uuid, writes: 0 },
            AdditionAction::NextChunk,
        ),
        (AdditionState::CreatingTempFile { .. }, AdditionEvent::TempFile(Err(why))) => {
            payload_failure(why)
        },
        (
            AdditionState::Receiving { format, uuid, writes },
            AdditionEvent::Chunk(Some(Ok(len))),
        ) => {
            if len == 0 && writes == 0 {
                missing_payload(format)
            } else {
                (AdditionState::Writing { format, uuid, writes }, AdditionAction::Write)
            }
        },
        (AdditionState::Receiving { .. }, AdditionEvent::Chunk(Some(Err(e)))) => {
            outside_failure(e)
        },
        (AdditionState::Receiving { format, uuid, writes }, AdditionEvent::Chunk(None)) => (
            AdditionState::Flushing { format, uuid, writes },
            AdditionAction::Flush,
        ),
        (AdditionState::Writing { format, uuid, writes }, AdditionEvent::Written(Ok(()))) => (
            AdditionState::Receiving { format, uuid, writes: spec_one_more(writes) },
            AdditionAction::NextChunk,
        ),
        (AdditionState::Writing { .. }, AdditionEvent::Written(Err(why))) => payload_failure(why),
        (AdditionState::Flushing { format, uuid, writes }, AdditionEvent::Flushed(Ok(()))) => {
            if writes == 0 {
                missing_payload(format)
            } else {
                (AdditionState::Rewinding { format, uuid }, AdditionAction::Rewind)
            }
        },
        (AdditionState::Flushing { .. }, AdditionEvent::Flushed(Err(why))) => payload_failure(why),
        (AdditionState::Rewinding { format, uuid }, AdditionEvent::Rewound(Ok(()))) => (
            AdditionState::Reading { uuid },
            AdditionAction::Read { format },
        ),
        (AdditionState::Rewinding { .. }, AdditionEvent::Rewound(Err(why))) => payload_failure(why),
        (
            AdditionState::Reading { uuid },
            AdditionEvent::Read(Reading::Parsed(documents_count)),
        ) => (
            AdditionState::Registering { uuid },
            AdditionAction::Register { uuid, documents_count },
        ),
        (AdditionState::Reading { .. }, AdditionEvent::Read(Reading::Failed(e))) => {
            outside_failure(e)
        },
        (AdditionState::Reading { uuid }, AdditionEvent::Read(Reading::Panicked(error))) => (
            AdditionState::Cleaning { error },
            AdditionAction::DeleteUpdateFile { uuid },
        ),
        (AdditionState::Cleaning { error }, AdditionEvent::Removed(Removal::Removed)) => {
            outside_failure(error)
        },
        (AdditionState::Cleaning { error }, AdditionEvent::Removed(Removal::NotFound(_))) => {
            outside_failure(error)
        },
        (AdditionState::Cleaning { .. }, AdditionEvent::Removed(Removal::Failed(e))) => {
            outside_failure(e)
        },
        (AdditionState::Registering { .. }, AdditionEvent::Registered(Ok(task))) => (
            AdditionState::Done,
            AdditionAction::Return(Ok(task)),
        ),
        (AdditionState::Registering { uuid }, AdditionEvent::Registered(Err(error))) => (
            AdditionState::Withdrawing { error },
            AdditionAction::DeleteUpdateFile { uuid },
        ),
        (AdditionState::Withdrawing { error }, AdditionEvent::Removed(Removal::Removed)) => {
            outside_failure(error)
        },
        (AdditionState::Withdrawing { error }, AdditionEvent::Removed(Removal::NotFound(_))) => {
            outside_failure(error)
        },
        (AdditionState::Withdrawing { .. }, AdditionEvent::Removed(Removal::Failed(e))) => {
            outside_failure(e)
        },
        _ => (AdditionState::Done, AdditionAction::Return(Err(AdditionError::UnexpectedEvent))),
    }
}

/// Begins an addition: reads the format of the payload and, where the
/// request stands, asks for the update file.
pub fn begin<T, E>(mime: Option<&Mime>, csv_delimiter: Option<u8>, dry_run: bool) -> (r: (
    AdditionState<E>,
    AdditionAction<T, E>,
))
    ensures
        match spec_payload_type(mime_view(mime), csv_delimiter) {
            Ok(format) => r == (
                AdditionState::<E>::CreatingUpdateFile { format },
                AdditionAction::<T, E>::CreateUpdateFile { dry_run },
            ),
            Err(refusal) => {
                &&& r.0 == AdditionState::<E>::Done
                &&& r.1 matches AdditionAction::Return(Err(AdditionError::Http(e)))
                &&& e@ == refusal
            },
        },
{
    match payload_type(mime, csv_delimiter) {
        Ok(format) => (
            AdditionState::CreatingUpdateFile { format },
            AdditionAction::CreateUpdateFile { dry_run },
        ),
        Err(e) => (AdditionState::Done, AdditionAction::Return(Err(AdditionError::Http(e)))),
    }
}

fn ended<T, E>(error: AdditionError<E>) -> (r: (AdditionState<E>, AdditionAction<T, E>))
    ensures
        r == (AdditionState::<E>::Done, AdditionAction::<T, E>::Return(Err(error))),
{
    (AdditionState::Done, AdditionAction::Return(Err(error)))
}

/// Takes what has just happened and answers with the next state and the
/// next thing to do.
pub fn step<T, E>(state: AdditionState<E>, event: AdditionEvent<T, E>) -> (r: (
    AdditionState<E>,
    AdditionAction<T, E>,
))
    ensures
        r == spec_step(state, event),
{
    match state {
        AdditionState::CreatingUpdateFile { format } => match event {
            AdditionEvent::UpdateFile(Ok(uuid)) => (
                AdditionState::CreatingTempFile { format, uuid },
                AdditionAction::CreateTempFile,
            ),
            AdditionEvent::UpdateFile(Err(e)) => ended(AdditionError::Outside(e)),
            _ => ended(AdditionError::UnexpectedEvent),
        },
        AdditionState::CreatingTempFile { format, uuid } => match event {
            AdditionEvent::TempFile(Ok(())) => (
                AdditionState::Receiving { format, uuid, writes: 0 },
                AdditionAction::NextChunk,
            ),
            AdditionEvent::TempFile(Err(why)) => ended(
                AdditionError::Http(MeilisearchHttpError::Payload(why)),
            ),
            _ => ended(AdditionError::UnexpectedEvent),
        },
        AdditionState::Receiving { format, uuid, writes } => match event {
            AdditionEvent::Chunk(Some(Ok(len))) => {
                if len == 0 && writes == 0 {
                    ended(AdditionError::Http(MeilisearchHttpError::MissingPayload(format)))
                } else {
                    (AdditionState::Writing { format, uuid, writes }, AdditionAction::Write)
                }
            },
            AdditionEvent::Chunk(Some(Err(e))) => ended(AdditionError::Outside(e)),
            AdditionEvent::Chunk(None) => (
                AdditionState::Flushing { format, uuid, writes },
                AdditionAction::Flush,
            ),
            _ => ended(AdditionError::UnexpectedEvent),
        },
        AdditionState::Writing { format, uuid, writes } => match event {
            AdditionEvent::Written(Ok(())) => {
                let writes = if writes == usize::MAX {
                    writes
                } else {
                    writes + 1
                };
                (AdditionState::Receiving { format, uuid, writes }, AdditionAction::NextChunk)
            },
            AdditionEvent::Written(Err(why)) => ended(
                AdditionError::Http(MeilisearchHttpError::Payload(why)),
            ),
            _ => ended(AdditionError::UnexpectedEvent),
        },
        AdditionState::Flushing { format, uuid, writes } => match event {
            AdditionEvent::Flushed(Ok(())) => {
                if writes == 0 {
                    ended(AdditionError::Http(MeilisearchHttpError::MissingPayload(format)))
                } else {
                    (AdditionState::Rewinding { format, uuid }, AdditionAction::Rewind)
                }
            },
            AdditionEvent::Flushed(Err(why)) => ended(
                AdditionError::Http(MeilisearchHttpError::Payload(why)),
            ),
            _ => ended(AdditionError::UnexpectedEvent),
        },
        AdditionState::Rewinding { format, uuid } => match event {
            AdditionEvent::Rewound(Ok(())) => (
                AdditionState::Reading { uuid },
                AdditionAction::Read { format },
            ),
            AdditionEvent::Rewound(Err(why)) => ended(
                AdditionError::Http(MeilisearchHttpError::Payload(why)),
            ),
            _ => ended(AdditionError::UnexpectedEvent),
        },
        AdditionState::Reading { uuid } => match event {
            AdditionEvent::Read(Reading::Parsed(documents_count)) => (
                AdditionState::Registering { uuid },
                AdditionAction::Register { uuid, documents_count },
            ),
            // in this case the file has not possibly be persisted
            AdditionEvent::Read(Reading::Failed(e)) => ended(AdditionError::Outside(e)),
            // here the file may have been persisted or not
            AdditionEvent::Read(Reading::Panicked(error)) => (
                AdditionState::Cleaning { error },
                AdditionAction::DeleteUpdateFile { uuid },
            ),
            _ => ended(AdditionError::UnexpectedEvent),
        },
        AdditionState::Cleaning { error } => match event {
            // the first error is still the one to return to the caller
            AdditionEvent::Removed(Removal::Removed) => ended(AdditionError::Outside(error)),
            AdditionEvent::Removed(Removal::NotFound(_)) => ended(AdditionError::Outside(error)),
            AdditionEvent::Removed(Removal::Failed(e)) => ended(AdditionError::Outside(e)),
            _ => ended(AdditionError::UnexpectedEvent),
        },
        AdditionState::Registering { uuid } => match event {
            AdditionEvent::Registered(Ok(task)) => (
                AdditionState::Done,
                AdditionAction::Return(Ok(task)),
            ),
            AdditionEvent::Registered(Err(error)) => (
                AdditionState::Withdrawing { error },
                AdditionAction::DeleteUpdateFile { uuid },
            ),
            _ => ended(AdditionError::UnexpectedEvent),
        },
        AdditionState::Withdrawing { error } => match event {
            AdditionEvent::Removed(Removal::Removed) => ended(AdditionError::Outside(error)),
            // a file that is not there needs no removal
            AdditionEvent::Removed(Removal::NotFound(_)) => ended(AdditionError::Outside(error)),
            AdditionEvent::Removed(Removal::Failed(e)) => ended(AdditionError::Outside(e)),
            _ => ended(AdditionError::UnexpectedEvent),
        },
        AdditionState::Done => ended(AdditionError::UnexpectedEvent),
    }
}

/// An addition is refused for a missing payload exactly where the first
/// chunk of the body is empty or the body ends before a chunk was written.
pub proof fn lemma_missing_payload<T, E>(state: AdditionState<E>, event: AdditionEvent<T, E>)
    ensures
        (spec_step(state, event).1 matches AdditionAction::Return(
            Err(AdditionError::Http(MeilisearchHttpError::MissingPayload(_))),
        )) <==> ({
            ||| (state matches AdditionState::Receiving { writes, .. } && (writes == 0 && (event
                matches AdditionEvent::Chunk(Some(Ok(len))) && len == 0)))
            ||| (state matches AdditionState::Flushing { writes, .. } && (writes == 0 && event
                matches AdditionEvent::Flushed(Ok(()))))
        }),
{
}

/// The update file is removed before an addition ends with the breakdown
/// of the parsing or with the failure of the registration: neither ends the
/// addition at once, both ask for the removal of the file.
pub proof fn lemma_failure_removes_update_file<T, E>(
    state: AdditionState<E>,
    event: AdditionEvent<T, E>,
)
    requires
        (state is Reading && event matches AdditionEvent::Read(Reading::Panicked(_))) || (state
            is Registering && event matches AdditionEvent::Registered(Err(_))),
    ensures
        spec_step(state, event).1 matches AdditionAction::DeleteUpdateFile { uuid } && ((state
            matches AdditionState::Reading { uuid: held } ==> uuid == held) && (state
            matches AdditionState::Registering { uuid: held } ==> uuid == held)),
{
}

/// The state after a run of events, and what was asked for at each step.
pub open spec fn spec_run<T, E>(state: AdditionState<E>, events: Seq<AdditionEvent<T, E>>) -> (
    AdditionState<E>,
    Seq<AdditionAction<T, E>>,
)
    decreases events.len(),
{
    if events.len() == 0 {
        (state, Seq::empty())
    } else {
        let before = spec_run(state, events.drop_last());
        let step = spec_step(before.0, events.last());
        (step.0, before.1.push(step.1))
    }
}

/// What happens while a body is received: each chunk comes, with its
/// length, and is written.
pub open spec fn body_events<T, E>(chunks: Seq<usize>) -> Seq<AdditionEvent<T, E>>
    decreases chunks.len(),
{
    if chunks.len() == 0 {
        Seq::empty()
    } else {
        body_events::<T, E>(chunks.drop_last()).push(
            AdditionEvent::Chunk(Some(Ok(chunks.last()))),
        ).push(AdditionEvent::Written(Ok(())))
    }
}

/// What is asked for while a body of `chunks` chunks is received: to write
/// each, and then for the next.
pub open spec fn body_actions<T, E>(chunks: nat) -> Seq<AdditionAction<T, E>>
    decreases chunks,
{
    if chunks == 0 {
        Seq::empty()
    } else {
        body_actions::<T, E>((chunks - 1) as nat).push(AdditionAction::Write).push(
            AdditionAction::NextChunk,
        )
    }
}

/// What happens in an addition in which nothing fails: the files are
/// created, the body comes in chunks, the documents are parsed and the
/// task is registered.
pub open spec fn addition_events<T, E>(
    uuid: u128,
    chunks: Seq<usize>,
    documents_count: u64,
    task: T,
) -> Seq<AdditionEvent<T, E>> {
    seq![AdditionEvent::UpdateFile(Ok(uuid)), AdditionEvent::TempFile(Ok(()))] + body_events(
        chunks,
    ) + seq![
        AdditionEvent::Chunk(None),
        AdditionEvent::Flushed(Ok(())),
        AdditionEvent::Rewound(Ok(())),
        AdditionEvent::Read(Reading::Parsed(documents_count)),
        AdditionEvent::Registered(Ok(task)),
    ]
}

/// What is asked for in an addition in which nothing fails.
pub open spec fn addition_actions<T, E>(
    format: PayloadType,
    uuid: u128,
    chunks: nat,
    documents_count: u64,
    task: T,
) -> Seq<AdditionAction<T, E>> {
    seq![AdditionAction::CreateTempFile, AdditionAction::NextChunk] + body_actions(chunks) + seq![
        AdditionAction::Flush,
        AdditionAction::Rewind,
        AdditionAction::Read { format },
        AdditionAction::Register { uuid, documents_count },
        AdditionAction::Return(Ok(task)),
    ]
}

/// The number of chunks written, held at the largest count.
pub open spec fn spec_writes(chunks: nat) -> usize
    decreases chunks,
{
    if chunks == 0 {
        0
    } else {
        spec_one_more(spec_writes((chunks - 1) as nat))
    }
}

/// A run with one more event is the run, and then the step of that event.
proof fn lemma_run_push<T, E>(
    state: AdditionState<E>,
    events: Seq<AdditionEvent<T, E>>,
    event: AdditionEvent<T, E>,
)
    ensures
        spec_run(state, events.push(event)) == (
            spec_step(spec_run(state, events).0, event).0,
            spec_run(state, events).1.push(spec_step(spec_run(state, events).0, event).1),
        ),
{
    assert(events.push(event).drop_last() =~= events);
}

/// After the files were created and the chunks of a body written, the
/// addition waits for the next chunk.
proof fn lemma_body_is_received<T, E>(format: PayloadType, uuid: u128, chunks: Seq<usize>)
    requires
        chunks.len() > 0 ==> chunks[0] > 0,
    ensures
        spec_run::<T, E>(
            AdditionState::CreatingUpdateFile { format },
            seq![AdditionEvent::UpdateFile(Ok(uuid)), AdditionEvent::TempFile(Ok(()))]
                + body_events(chunks),
        ) == (
            AdditionState::<E>::Receiving { format, uuid, writes: spec_writes(chunks.len()) },
            seq![AdditionAction::<T, E>::CreateTempFile, AdditionAction::NextChunk] + body_actions(
                chunks.len(),
            ),
        ),
        chunks.len() > 0 ==> spec_writes(chunks.len()) > 0,
    decreases chunks.len(),
{
    let start = AdditionState::<E>::CreatingUpdateFile { format };
    let files = seq![
        AdditionEvent::<T, E>::UpdateFile(Ok(uuid)),
        AdditionEvent::<T, E>::TempFile(Ok(())),
    ];
    let asked = seq![AdditionAction::<T, E>::CreateTempFile, AdditionAction::NextChunk];
    if chunks.len() == 0 {
        let none = Seq::<AdditionEvent<T, E>>::empty();
        lemma_run_push(start, none, AdditionEvent::<T, E>::UpdateFile(Ok(uuid)));
        lemma_run_push(
            start,
            none.push(AdditionEvent::<T, E>::UpdateFile(Ok(uuid))),
            AdditionEvent::<T, E>::TempFile(Ok(())),
        );
        assert(files + body_events::<T, E>(chunks) =~= none.push(
            AdditionEvent::<T, E>::UpdateFile(Ok(uuid)),
        ).push(AdditionEvent::<T, E>::TempFile(Ok(()))));
        assert(asked + body_actions::<T, E>(0) =~= Seq::<AdditionAction<T, E>>::empty().push(
            AdditionAction::CreateTempFile,
        ).push(AdditionAction::NextChunk));
    } else {
        let rest = chunks.drop_last();
        lemma_body_is_received::<T, E>(format, uuid, rest);
        let came = AdditionEvent::<T, E>::Chunk(Some(Ok(chunks.last())));
        let written = AdditionEvent::<T, E>::Written(Ok(()));
        let so_far = files + body_events::<T, E>(rest);
        lemma_run_push(start, so_far, came);
        lemma_run_push(start, so_far.push(came), written);
        assert(files + body_events::<T, E>(chunks) =~= so_far.push(came).push(written));
        assert(asked + body_actions::<T, E>(chunks.len()) =~= (asked + body_actions::<T, E>(
            rest.len(),
        )).push(AdditionAction::Write).push(AdditionAction::NextChunk));
        if rest.len() == 0 {
            assert(chunks.last() == chunks[0]);
        }
    }
}

/// An addition in which nothing fails registers its task once, with the
/// number of the documents that were parsed from the body, and ends with
/// the task that was registered. That holds of a body of any number of
/// chunks of which the first is not empty: each is written before the next
/// is asked for, and the update file is never removed.
pub proof fn lemma_addition_registers_once<T, E>(
    format: PayloadType,
    uuid: u128,
    chunks: Seq<usize>,
    documents_count: u64,
    task: T,
)
    requires
        chunks.len() > 0,
        chunks[0] > 0,
    ensures
        spec_run::<T, E>(
            AdditionState::CreatingUpdateFile { format },
            addition_events(uuid, chunks, documents_count, task),
        ) == (
            AdditionState::<E>::Done,
            addition_actions::<T, E>(format, uuid, chunks.len(), documents_count, task),
        ),
{
    let start = AdditionState::<E>::CreatingUpdateFile { format };
    let received = seq![
        AdditionEvent::<T, E>::UpdateFile(Ok(uuid)),
        AdditionEvent::<T, E>::TempFile(Ok(())),
    ] + body_events::<T, E>(chunks);
    let asked = seq![AdditionAction::<T, E>::CreateTempFile, AdditionAction::NextChunk]
        + body_actions::<T, E>(chunks.len());
    lemma_body_is_received::<T, E>(format, uuid, chunks);
    let e1 = AdditionEvent::<T, E>::Chunk(None);
    let e2 = AdditionEvent::<T, E>::Flushed(Ok(()));
    let e3 = AdditionEvent::<T, E>::Rewound(Ok(()));
    let e4 = AdditionEvent::<T, E>::Read(Reading::Parsed(documents_count));
    let e5 = AdditionEvent::<T, E>::Registered(Ok(task));
    lemma_run_push(start, received, e1);
    lemma_run_push(start, received.push(e1), e2);
    lemma_run_push(start, received.push(e1).push(e2), e3);
    lemma_run_push(start, received.push(e1).push(e2).push(e3), e4);
    lemma_run_push(start, received.push(e1).push(e2).push(e3).push(e4), e5);
    assert(addition_events::<T, E>(uuid, chunks, documents_count, task) =~= received.push(e1).push(
        e2,
    ).push(e3).push(e4).push(e5));
    assert(addition_actions::<T, E>(format, uuid, chunks.len(), documents_count, task)
        =~= asked.push(AdditionAction::Flush).push(AdditionAction::Rewind).push(
        AdditionAction::Read { format },
    ).push(AdditionAction::Register { uuid, documents_count }).push(
        AdditionAction::Return(Ok(task)),
    ));
}

/// Of the removal of an update file only the absence of the file is passed
/// over: where the removal fails otherwise, the addition ends with the
/// error of the removal; else with the error that asked for the removal.
pub proof fn lemma_removal_errors_are_surfaced<T, E>(
    state: AdditionState<E>,
    removal: Removal<E>,
)
    requires
        state is Cleaning || state is Withdrawing,
    ensures
        spec_step::<T, E>(state, AdditionEvent::Removed(removal)) == outside_failure::<T, E>(
            match removal {
                Removal::Failed(e) => e,
                _ => match state {
                    AdditionState::Cleaning { error } => error,
                    AdditionState::Withdrawing { error } => error,
                    _ => arbitrary(),
                },
            },
        ),
{
}

} // verus!
