use meili_core::snapshot::{
    after_extraction, after_removal, after_step, first_step, indexes_path, load_snapshot,
    snapshot_file_name, update_files_path, ExtractionAction, SnapshotAction, SnapshotJob,
    SnapshotKind, SnapshotLoading, SnapshotService, SnapshotStep, StepOutcome,
};

fn run(kind: SnapshotKind, indexes: usize, fail_at: Option<SnapshotStep>) -> (Vec<SnapshotStep>, Result<bool, String>) {
    let mut steps = vec![];
    let mut step = first_step();
    loop {
        steps.push(step);
        let outcome = if Some(step) == fail_at {
            StepOutcome::Failed(format!("{:?} failed", step))
        } else if step == SnapshotStep::SnapshotIndexes {
            StepOutcome::Indexes(indexes)
        } else {
            StepOutcome::Done
        };
        match after_step(kind, step, outcome) {
            SnapshotAction::Do(next) => step = next,
            SnapshotAction::Return(result) => return (steps, result),
        }
    }
}

#[test]
fn the_service_snapshots_step_by_step() {
    let (steps, result) = run(SnapshotKind::Service, 3, None);
    assert_eq!(
        steps,
        vec![
            SnapshotStep::CreateSnapshotDir,
            SnapshotStep::CreateTempDir,
            SnapshotStep::SnapshotIndexes,
            SnapshotStep::SnapshotFileStore,
            SnapshotStep::CreateTempFile,
            SnapshotStep::Compress,
            SnapshotStep::Persist,
        ]
    );
    assert_eq!(result, Ok(true));
}

#[test]
fn the_service_publishes_nothing_without_indexes() {
    let (steps, result) = run(SnapshotKind::Service, 0, None);
    assert_eq!(
        steps,
        vec![
            SnapshotStep::CreateSnapshotDir,
            SnapshotStep::CreateTempDir,
            SnapshotStep::SnapshotIndexes,
        ]
    );
    assert_eq!(result, Ok(false));
}

#[test]
fn a_job_snapshots_the_tasks_the_files_and_the_indexes() {
    let (steps, result) = run(SnapshotKind::Job, 0, None);
    assert_eq!(
        steps,
        vec![
            SnapshotStep::CreateSnapshotDir,
            SnapshotStep::CreateTempDir,
            SnapshotStep::SnapshotMetaEnv,
            SnapshotStep::SnapshotFileStore,
            SnapshotStep::SnapshotIndexes,
            SnapshotStep::CreateTempFile,
            SnapshotStep::Compress,
            SnapshotStep::Persist,
        ]
    );
    assert_eq!(result, Ok(true));
}

#[test]
fn a_failed_step_ends_the_snapshot_before_it_is_published() {
    for kind in [SnapshotKind::Service, SnapshotKind::Job] {
        for step in [
            SnapshotStep::CreateSnapshotDir,
            SnapshotStep::CreateTempDir,
            SnapshotStep::SnapshotIndexes,
            SnapshotStep::SnapshotFileStore,
            SnapshotStep::CreateTempFile,
            SnapshotStep::Compress,
        ] {
            let (steps, result) = run(kind, 2, Some(step));
            assert_eq!(result, Err(format!("{:?} failed", step)));
            assert_eq!(steps.last(), Some(&step));
            assert!(!steps.contains(&SnapshotStep::Persist));
        }
        let (steps, result) = run(kind, 2, Some(SnapshotStep::Persist));
        assert_eq!(result, Err("Persist failed".to_string()));
        assert_eq!(steps.iter().filter(|s| **s == SnapshotStep::Persist).count(), 1);
    }
}

#[test]
fn the_snapshot_is_named_after_the_database() {
    assert_eq!(snapshot_file_name("data.ms"), "data.ms.snapshot");
    assert_eq!(snapshot_file_name(""), ".snapshot");
    let service = SnapshotService::new(100, "snapshots".to_string(), "db".to_string(), "data.ms".to_string());
    assert_eq!(service.snapshot_period, 100);
    assert_eq!(service.snapshot_path, "snapshots");
    assert_eq!(service.db_path, "db");
    assert_eq!(service.db_name, "data.ms");
    assert_eq!(service.snapshot_file_name(), "data.ms.snapshot");
    let job = SnapshotJob {
        dest_path: "dest".to_string(),
        src_path: "src".to_string(),
        snapshot_path: "snapshots".to_string(),
        db_name: "uuid".to_string(),
        meta_env_size: 4096 * 100,
        index_size: 4096 * 100,
    };
    assert_eq!(job.snapshot_file_name(), "uuid.snapshot");
    assert_eq!(update_files_path(), "updates/updates_files/");
    assert_eq!(indexes_path(), "indexes/");
}

#[test]
fn a_snapshot_is_loaded_into_a_missing_database() {
    for ignore_db in [false, true] {
        for ignore_missing in [false, true] {
            assert_eq!(load_snapshot(false, true, ignore_db, ignore_missing), SnapshotLoading::Extract);
        }
    }
}

#[test]
fn an_existing_database_is_refused_unless_ignored() {
    for snapshot_exists in [false, true] {
        for ignore_missing in [false, true] {
            assert_eq!(
                load_snapshot(true, snapshot_exists, false, ignore_missing),
                SnapshotLoading::DatabaseAlreadyExists
            );
        }
    }
    assert_eq!(load_snapshot(true, true, true, false), SnapshotLoading::Nothing);
    assert_eq!(load_snapshot(true, true, true, true), SnapshotLoading::Nothing);
    assert_eq!(load_snapshot(true, false, true, true), SnapshotLoading::Nothing);
}

#[test]
fn a_missing_snapshot_is_refused_unless_ignored() {
    assert_eq!(load_snapshot(false, false, false, false), SnapshotLoading::SnapshotDoesNotExist);
    assert_eq!(load_snapshot(false, false, true, false), SnapshotLoading::SnapshotDoesNotExist);
    assert_eq!(load_snapshot(true, false, true, false), SnapshotLoading::SnapshotDoesNotExist);
    assert_eq!(load_snapshot(false, false, false, true), SnapshotLoading::Nothing);
    assert_eq!(load_snapshot(false, false, true, true), SnapshotLoading::Nothing);
}

#[test]
fn a_failed_extraction_removes_the_database() {
    match after_extraction::<String>(&Ok(())) {
        ExtractionAction::Return(Ok(())) => {}
        other => panic!("unexpected action {:?}", other),
    }
    match after_extraction(&Err("broken archive".to_string())) {
        ExtractionAction::RemoveDatabase => {}
        other => panic!("unexpected action {:?}", other),
    }
    assert_eq!(after_removal("broken archive".to_string(), Ok(())), Err("broken archive".to_string()));
    assert_eq!(
        after_removal("broken archive".to_string(), Err("busy".to_string())),
        Err("busy".to_string())
    );
}
