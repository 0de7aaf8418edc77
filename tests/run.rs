use rat_updater::{Action, ErrorKind, Stage, UpdateError, UpdateRun};

#[test]
fn successful_run_visits_every_stage() {
    let mut run = UpdateRun::new();
    let expected = [
        Action::EnsureRoot,
        Action::LoadManifest,
        Action::Backup,
        Action::Quarantine,
        Action::Extract,
        Action::SaveManifest,
        Action::Finish,
    ];
    for action in expected {
        assert!(!run.is_finished());
        assert_eq!(run.action(), action);
        run.advance(Ok(()));
    }
    assert_eq!(run.stage, Stage::Done);
    assert_eq!(run.action(), Action::Stop);
    assert!(run.is_finished());
    assert_eq!(run.result(), Ok(()));
}

#[test]
fn early_failure_is_fatal() {
    let mut run = UpdateRun::new();
    run.advance(Ok(()));
    run.advance(Err(ErrorKind::ManifestCorrupt));
    assert_eq!(run.stage, Stage::Failed);
    assert!(run.is_finished());
    assert_eq!(run.result(), Err(UpdateError::new(ErrorKind::ManifestCorrupt, false)));

    let mut run = UpdateRun::new();
    run.advance(Err(ErrorKind::RootSetupFailed));
    assert_eq!(run.stage, Stage::Failed);
    assert_eq!(run.result().unwrap_err().error, ErrorKind::RootSetupFailed);
}

#[test]
fn later_failure_rolls_back() {
    let mut run = UpdateRun::new();
    run.advance(Ok(()));
    run.advance(Ok(()));
    run.advance(Ok(()));
    assert_eq!(run.action(), Action::Quarantine);
    run.advance(Err(ErrorKind::QuarantineFailed));
    assert_eq!(run.stage, Stage::RollingBack);
    assert_eq!(run.action(), Action::Recover);
    run.advance(Ok(()));
    assert_eq!(run.stage, Stage::Recovered);
    assert_eq!(run.recovery_error, None);
    assert_eq!(run.result(), Err(UpdateError::new(ErrorKind::QuarantineFailed, true)));
}

#[test]
fn failed_rollback_reports_both_errors() {
    let mut run = UpdateRun::new();
    run.advance(Ok(()));
    run.advance(Ok(()));
    run.advance(Err(ErrorKind::BackupFailed));
    run.advance(Err(ErrorKind::RecoveryFailed));
    assert_eq!(run.stage, Stage::RecoveryFailed);
    assert_eq!(run.error, Some(UpdateError::new(ErrorKind::BackupFailed, true)));
    assert_eq!(run.recovery_error, Some(UpdateError::new(ErrorKind::RecoveryFailed, false)));
    assert_eq!(run.result(), Err(UpdateError::new(ErrorKind::BackupFailed, true)));
}

#[test]
fn unsafe_entry_during_extraction_rolls_back() {
    let mut run = UpdateRun::new();
    for _ in 0..4 {
        run.advance(Ok(()));
    }
    assert_eq!(run.action(), Action::Extract);
    run.advance(Err(ErrorKind::UnsafeArchiveEntry));
    assert_eq!(run.stage, Stage::RollingBack);
}

#[test]
fn saved_manifest_means_success() {
    let mut run = UpdateRun::new();
    for _ in 0..6 {
        run.advance(Ok(()));
    }
    assert_eq!(run.stage, Stage::ManifestSaved);
    run.advance(Err(ErrorKind::ExtractFailed));
    assert_eq!(run.stage, Stage::Done);
    assert_eq!(run.result(), Ok(()));
}

#[test]
fn error_kinds_and_recovery() {
    assert!(ErrorKind::BackupFailed.is_recoverable());
    assert!(ErrorKind::UnsafeArchiveEntry.is_recoverable());
    assert!(ErrorKind::ManifestSaveFailed.is_recoverable());
    assert!(!ErrorKind::FetchFailed.is_recoverable());
    assert!(!ErrorKind::ManifestCorrupt.is_recoverable());
    assert!(!ErrorKind::RecoveryFailed.is_recoverable());
    let e = UpdateError::from_kind(ErrorKind::ExtractFailed);
    assert!(e.should_try_recover);
    let e = UpdateError::from_kind(ErrorKind::ResolutionFailed);
    assert!(!e.should_try_recover);
    let e = UpdateError::new(ErrorKind::FetchFailed, true);
    assert_eq!(e.error, ErrorKind::FetchFailed);
    assert!(e.should_try_recover);
}
