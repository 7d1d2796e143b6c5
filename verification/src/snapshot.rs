//! Snapshots: the live copy of a database, published under one name, and
//! what to do with a snapshot at start.
//!
//! Making a snapshot is outside work, done step by step. What comes after
//! each step is decided here. The file that a snapshot is published under
//! is written by the last step alone, which renames a finished temporary
//! file: a snapshot that breaks off leaves no file of that name.

use vstd::prelude::*;
use vstd::string::*;

verus! {

/// Where the payload files lie below a database directory.
pub open spec fn spec_update_files_path() -> Seq<char> {
    "updates/updates_files/"@
}

/// Where the indexes lie below a database directory.
pub open spec fn spec_indexes_path() -> Seq<char> {
    "indexes/"@
}

/// Where the payload files lie below a database directory.
pub fn update_files_path() -> (path: &'static str)
    ensures
        path@ == spec_update_files_path(),
{
    "updates/updates_files/"
}

/// Where the indexes lie below a database directory.
pub fn indexes_path() -> (path: &'static str)
    ensures
        path@ == spec_indexes_path(),
{
    "indexes/"
}

/// The name of the file that the snapshot of a database is published under.
pub open spec fn spec_snapshot_file_name(db_name: Seq<char>) -> Seq<char> {
    db_name + ".snapshot"@
}

/// The name of the file that the snapshot of a database is published under.
pub fn snapshot_file_name(db_name: &str) -> (name: String)
    ensures
        name@ == spec_snapshot_file_name(db_name@),
{
    let mut name = String::from_str(db_name);
    name.append(".snapshot");
    name
}

/// Makes a snapshot of the database at every period.
#[derive(Debug, Clone, PartialEq, Eq)]
pub struct SnapshotService {
    pub db_path: String,
    /// The time between two snapshots, in milliseconds.
    pub snapshot_period: u64,
    pub snapshot_path: String,
    pub db_name: String,
}

impl SnapshotService {
    pub fn new(snapshot_period: u64, snapshot_path: String, db_path: String, db_name: String) -> (s:
        Self)
        ensures
            s.snapshot_period == snapshot_period,
            s.snapshot_path == snapshot_path,
            s.db_path == db_path,
            s.db_name == db_name,
    {
        SnapshotService { snapshot_period, snapshot_path, db_path, db_name }
    }

    /// The name of the file that the snapshots of this service are published under.
    pub fn snapshot_file_name(&self) -> (name: String)
        ensures
            name@ == spec_snapshot_file_name(self.db_name@),
    {
        snapshot_file_name(self.db_name.as_str())
    }
}

/// One snapshot of the database at `src_path`, to be published in `snapshot_path`.
#[derive(Debug, Clone, PartialEq, Eq)]
pub struct SnapshotJob {
    pub dest_path: String,
    pub src_path: String,
    pub snapshot_path: String,
    pub db_name: String,
    pub meta_env_size: usize,
    pub index_size: usize,
}

impl SnapshotJob {
    /// The name of the file that the snapshot is published under.
    pub fn snapshot_file_name(&self) -> (name: String)
        ensures
            name@ == spec_snapshot_file_name(self.db_name@),
    {
        snapshot_file_name(self.db_name.as_str())
    }
}

/// A step in the making of a snapshot.
#[derive(Debug, Clone, Copy, PartialEq, Eq, Structural)]
pub enum SnapshotStep {
    /// Create the directory that snapshots are published in.
    CreateSnapshotDir,
    /// Create the temporary directory that the copy is made in.
    CreateTempDir,
    /// Copy the environment of the tasks, compacting it.
    SnapshotMetaEnv,
    /// Copy the payload files.
    SnapshotFileStore,
    /// Copy the environment of each index, compacting it.
    SnapshotIndexes,
    /// Create a temporary file in the directory that snapshots are published in.
    CreateTempFile,
    /// Archive the temporary directory into the temporary file.
    Compress,
    /// Rename the temporary file to the name of the snapshot.
    Persist,
}

/// Who makes the snapshot: the service, which copies the indexes and then
/// the payload files and has nothing to publish where there is no index, or
/// a job, which copies the tasks, the payload files and the indexes.
#[derive(Debug, Clone, Copy, PartialEq, Eq, Structural)]
pub enum SnapshotKind {
    Service,
    Job,
}

/// How a step ended.
#[derive(Debug)]
pub enum StepOutcome<E> {
    Done,
    /// The indexes were copied; so many there are.
    Indexes(usize),
    Failed(E),
}

/// What to do next.
#[derive(Debug)]
pub enum SnapshotAction<E> {
    Do(SnapshotStep),
    /// The snapshot is over. `Ok(true)` where it was published, `Ok(false)`
    /// where there was nothing to publish.
    Return(Result<bool, E>),
}

/// The first step of a snapshot.
pub open spec fn spec_first_step() -> SnapshotStep {
    SnapshotStep::CreateSnapshotDir
}

/// The step that follows a step that is done, if one does.
pub open spec fn spec_step_after(kind: SnapshotKind, step: SnapshotStep) -> Option<SnapshotStep> {
    match (kind, step) {
        (_, SnapshotStep::CreateSnapshotDir) => Some(SnapshotStep::CreateTempDir),
        (SnapshotKind::Service, SnapshotStep::CreateTempDir) => Some(SnapshotStep::SnapshotIndexes),
        (SnapshotKind::Service, SnapshotStep::SnapshotIndexes) => Some(
            SnapshotStep::SnapshotFileStore,
        ),
        (SnapshotKind::Service, SnapshotStep::SnapshotFileStore) => Some(
            SnapshotStep::CreateTempFile,
        ),
        (SnapshotKind::Service, SnapshotStep::SnapshotMetaEnv) => Some(
            SnapshotStep::CreateTempFile,
        ),
        (SnapshotKind::Job, SnapshotStep::CreateTempDir) => Some(SnapshotStep::SnapshotMetaEnv),
        (SnapshotKind::Job, SnapshotStep::SnapshotMetaEnv) => Some(SnapshotStep::SnapshotFileStore),
        (SnapshotKind::Job, SnapshotStep::SnapshotFileStore) => Some(SnapshotStep::SnapshotIndexes),
        (SnapshotKind::Job, SnapshotStep::SnapshotIndexes) => Some(SnapshotStep::CreateTempFile),
        (_, SnapshotStep::CreateTempFile) => Some(SnapshotStep::Compress),
        (_, SnapshotStep::Compress) => Some(SnapshotStep::Persist),
        (_, SnapshotStep::Persist) => None,
    }
}

/// What to do after a step.
///
/// A failed step ends the snapshot with its error. The service ends without
/// a snapshot where it has copied no index. After the last step the
/// snapshot is published.
pub open spec fn spec_after_step<E>(kind: SnapshotKind, step: SnapshotStep, outcome: StepOutcome<E>)
    -> SnapshotAction<E> {
    match outcome {
        StepOutcome::Failed(e) => SnapshotAction::Return(Err(e)),
        StepOutcome::Indexes(n) if kind == SnapshotKind::Service && step
            == SnapshotStep::SnapshotIndexes && n == 0 => SnapshotAction::Return(Ok(false)),
        _ => match spec_step_after(kind, step) {
            Some(next) => SnapshotAction::Do(next),
            None => SnapshotAction::Return(Ok(true)),
        },
    }
}

/// The first step of a snapshot.
pub fn first_step() -> (step: SnapshotStep)
    ensures
        step == spec_first_step(),
{
    SnapshotStep::CreateSnapshotDir
}

/// What to do after a step.
pub fn after_step<E>(kind: SnapshotKind, step: SnapshotStep, outcome: StepOutcome<E>) -> (action:
    SnapshotAction<E>)
    ensures
        action == spec_after_step(kind, step, outcome),
{
    let none_copied = match &outcome {
        StepOutcome::Indexes(n) => *n == 0 && kind == SnapshotKind::Service && step
            == SnapshotStep::SnapshotIndexes,
        _ => false,
    };
    match outcome {
        StepOutcome::Failed(e) => SnapshotAction::Return(Err(e)),
        _ => {
            if none_copied {
                return SnapshotAction::Return(Ok(false));
            }
            let next = match (kind, step) {
                (_, SnapshotStep::CreateSnapshotDir) => Some(SnapshotStep::CreateTempDir),
                (SnapshotKind::Service, SnapshotStep::CreateTempDir) => Some(
                    SnapshotStep::SnapshotIndexes,
                ),
                (SnapshotKind::Service, SnapshotStep::SnapshotIndexes) => Some(
                    SnapshotStep::SnapshotFileStore,
                ),
                (SnapshotKind::Service, SnapshotStep::SnapshotFileStore) => Some(
                    SnapshotStep::CreateTempFile,
                ),
                (SnapshotKind::Service, SnapshotStep::SnapshotMetaEnv) => Some(
                    SnapshotStep::CreateTempFile,
                ),
                (SnapshotKind::Job, SnapshotStep::CreateTempDir) => Some(
                    SnapshotStep::SnapshotMetaEnv,
                ),
                (SnapshotKind::Job, SnapshotStep::SnapshotMetaEnv) => Some(
                    SnapshotStep::SnapshotFileStore,
                ),
                (SnapshotKind::Job, SnapshotStep::SnapshotFileStore) => Some(
                    SnapshotStep::SnapshotIndexes,
                ),
                (SnapshotKind::Job, SnapshotStep::SnapshotIndexes) => Some(
                    SnapshotStep::CreateTempFile,
                ),
                (_, SnapshotStep::CreateTempFile) => Some(SnapshotStep::Compress),
                (_, SnapshotStep::Compress) => Some(SnapshotStep::Persist),
                (_, SnapshotStep::Persist) => None,
            };
            match next {
                Some(next) => SnapshotAction::Do(next),
                None => SnapshotAction::Return(Ok(true)),
            }
        },
    }
}

/// The place of a step in the making of a snapshot.
pub open spec fn spec_rank(kind: SnapshotKind, step: SnapshotStep) -> nat {
    match (kind, step) {
        (_, SnapshotStep::CreateSnapshotDir) => 0,
        (_, SnapshotStep::CreateTempDir) => 1,
        (SnapshotKind::Service, SnapshotStep::SnapshotIndexes) => 2,
        (SnapshotKind::Service, SnapshotStep::SnapshotFileStore) => 3,
        (SnapshotKind::Service, SnapshotStep::SnapshotMetaEnv) => 3,
        (SnapshotKind::Job, SnapshotStep::SnapshotMetaEnv) => 2,
        (SnapshotKind::Job, SnapshotStep::SnapshotFileStore) => 3,
        (SnapshotKind::Job, SnapshotStep::SnapshotIndexes) => 4,
        (_, SnapshotStep::CreateTempFile) => 5,
        (_, SnapshotStep::Compress) => 6,
        (_, SnapshotStep::Persist) => 7,
    }
}

/// Snapshot crash-safety. The file of the snapshot is published by
/// `Persist` alone, and `Persist` is asked for only once the archive is
/// written: the making moves forward step by step, `Persist` follows
/// nothing but a `Compress` that is done, and nothing follows `Persist`.
/// So whatever breaks off the making before its end, no file has the name
/// of the snapshot but a finished one.
pub proof fn lemma_publication_is_last<E>(
    kind: SnapshotKind,
    step: SnapshotStep,
    outcome: StepOutcome<E>,
)
    ensures
        spec_after_step(kind, step, outcome) matches SnapshotAction::Do(next) ==> spec_rank(
            kind,
            step,
        ) < spec_rank(kind, next),
        spec_after_step(kind, step, outcome) == SnapshotAction::<E>::Do(SnapshotStep::Persist)
            ==> step == SnapshotStep::Compress && !(outcome is Failed),
        step == SnapshotStep::Persist ==> spec_after_step(kind, step, outcome) is Return,
        spec_after_step(kind, step, outcome) == SnapshotAction::<E>::Return(Ok(true)) ==> step
            == SnapshotStep::Persist && !(outcome is Failed),
{
}

/// What to do with a snapshot when the engine starts.
#[derive(Debug, Clone, Copy, PartialEq, Eq, Structural)]
pub enum SnapshotLoading {
    /// Extract the snapshot into the database directory.
    Extract,
    /// Refuse to start: the database already exists.
    DatabaseAlreadyExists,
    /// Refuse to start: there is no snapshot.
    SnapshotDoesNotExist,
    /// Start with the database as it is.
    Nothing,
}

/// What to do with a snapshot at start: it is extracted where there is no
/// database and there is a snapshot; an existing database is an error
/// unless such a snapshot is to be ignored; a missing snapshot is an error
/// unless it is to be ignored.
pub open spec fn spec_load_snapshot(
    db_exists: bool,
    snapshot_exists: bool,
    ignore_snapshot_if_db_exists: bool,
    ignore_missing_snapshot: bool,
) -> SnapshotLoading {
    if !db_exists && snapshot_exists {
        SnapshotLoading::Extract
    } else if db_exists && !ignore_snapshot_if_db_exists {
        SnapshotLoading::DatabaseAlreadyExists
    } else if !snapshot_exists && !ignore_missing_snapshot {
        SnapshotLoading::SnapshotDoesNotExist
    } else {
        SnapshotLoading::Nothing
    }
}

/// Decides what to do with a snapshot at start, from what exists on disk.
pub fn load_snapshot(
    db_exists: bool,
    snapshot_exists: bool,
    ignore_snapshot_if_db_exists: bool,
    ignore_missing_snapshot: bool,
) -> (loading: SnapshotLoading)
    ensures
        loading == spec_load_snapshot(
            db_exists,
            snapshot_exists,
            ignore_snapshot_if_db_exists,
            ignore_missing_snapshot,
        ),
{
    if !db_exists && snapshot_exists {
        SnapshotLoading::Extract
    } else if db_exists && !ignore_snapshot_if_db_exists {
        SnapshotLoading::DatabaseAlreadyExists
    } else if !snapshot_exists && !ignore_missing_snapshot {
        SnapshotLoading::SnapshotDoesNotExist
    } else {
        SnapshotLoading::Nothing
    }
}

/// What to do once the extraction of a snapshot is over.
#[derive(Debug)]
pub enum ExtractionAction<E> {
    /// Remove the database directory that the extraction has begun.
    RemoveDatabase,
    Return(Result<(), E>),
}

/// After the extraction: a failed one has the database directory removed first.
pub fn after_extraction<E>(outcome: &Result<(), E>) -> (action: ExtractionAction<E>)
    ensures
        match outcome {
            Ok(()) => action == ExtractionAction::<E>::Return(Ok(())),
            Err(_) => action is RemoveDatabase,
        },
{
    match outcome {
        Ok(()) => ExtractionAction::Return(Ok(())),
        Err(_) => ExtractionAction::RemoveDatabase,
    }
}

/// After the removal of the database directory of a failed extraction: the
/// error of the removal where it failed too, else that of the extraction.
pub fn after_removal<E>(extraction: E, removal: Result<(), E>) -> (r: Result<(), E>)
    ensures
        match removal {
            Ok(()) => r == Err::<(), E>(extraction),
            Err(e) => r == Err::<(), E>(e),
        },
{
    match removal {
        Ok(()) => Err(extraction),
        Err(e) => Err(e),
    }
}

/// A snapshot is extracted only into a database that does not exist, and a
/// database that exists is only ever left as it is or refused.
pub proof fn lemma_extraction_needs_no_database(
    db_exists: bool,
    snapshot_exists: bool,
    ignore_snapshot_if_db_exists: bool,
    ignore_missing_snapshot: bool,
)
    ensures
        spec_load_snapshot(
            db_exists,
            snapshot_exists,
            ignore_snapshot_if_db_exists,
            ignore_missing_snapshot,
        ) == SnapshotLoading::Extract <==> !db_exists && snapshot_exists,
{
}

} // verus!
