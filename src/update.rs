use vstd::prelude::*;
use crate::error::{ErrorKind, UpdateError};

verus! {

/// Where an update run stands.
#[derive(Debug, Clone, Copy, PartialEq, Eq, Structural)]
pub enum Stage {
    Start,
    RootEnsured,
    ManifestLoaded,
    BackedUp,
    Quarantined,
    Extracted,
    ManifestSaved,
    Done,
    Failed,
    RollingBack,
    Recovered,
    RecoveryFailed,
}

/// What the driver of a run does next.
#[derive(Debug, Clone, Copy, PartialEq, Eq, Structural)]
pub enum Action {
    /// Create the install root if needed, and remove the backup directory.
    EnsureRoot,
    /// Read the manifest.
    LoadManifest,
    /// Recreate the backup directory and move the known entries into it.
    Backup,
    /// Move the unrecognised entries into a fresh quarantine batch.
    Quarantine,
    /// Write the package into the root.
    Extract,
    /// Write the new manifest.
    SaveManifest,
    /// Move everything in the backup directory back into the root.
    Recover,
    /// Report success; nothing more to do.
    Finish,
    /// The run is over.
    Stop,
}

pub open spec fn is_terminal(s: Stage) -> bool {
    s is Done || s is Failed || s is Recovered || s is RecoveryFailed
}

/// Stages whose failure leaves the installation untouched.
pub open spec fn is_fatal_stage(s: Stage) -> bool {
    s is Start || s is RootEnsured
}

pub open spec fn action_of(s: Stage) -> Action {
    match s {
        Stage::Start => Action::EnsureRoot,
        Stage::RootEnsured => Action::LoadManifest,
        Stage::ManifestLoaded => Action::Backup,
        Stage::BackedUp => Action::Quarantine,
        Stage::Quarantined => Action::Extract,
        Stage::Extracted => Action::SaveManifest,
        Stage::ManifestSaved => Action::Finish,
        Stage::RollingBack => Action::Recover,
        _ => Action::Stop,
    }
}

/// The stage that a successful action leads to.
pub open spec fn next_stage(s: Stage) -> Stage {
    match s {
        Stage::Start => Stage::RootEnsured,
        Stage::RootEnsured => Stage::ManifestLoaded,
        Stage::ManifestLoaded => Stage::BackedUp,
        Stage::BackedUp => Stage::Quarantined,
        Stage::Quarantined => Stage::Extracted,
        Stage::Extracted => Stage::ManifestSaved,
        Stage::RollingBack => Stage::Recovered,
        _ => Stage::Done,
    }
}

/// An update run: its stage, the error that ended the forward path, if any,
/// and the error of the rollback, if that failed too.
#[derive(Debug, Clone, Copy, PartialEq, Eq, Structural)]
pub struct UpdateRun {
    pub stage: Stage,
    pub error: Option<UpdateError>,
    pub recovery_error: Option<UpdateError>,
}

/// The run after the current stage's action ended with `outcome`.
pub open spec fn advanced(run: UpdateRun, outcome: Result<(), ErrorKind>) -> UpdateRun {
    match outcome {
        Ok(()) => UpdateRun { stage: next_stage(run.stage), ..run },
        Err(k) => if run.stage is ManifestSaved {
            UpdateRun { stage: Stage::Done, ..run }
        } else if run.stage is RollingBack {
            UpdateRun {
                stage: Stage::RecoveryFailed,
                recovery_error: Some(UpdateError { error: ErrorKind::RecoveryFailed, should_try_recover: false }),
                ..run
            }
        } else if is_fatal_stage(run.stage) {
            UpdateRun {
                stage: Stage::Failed,
                error: Some(UpdateError { error: k, should_try_recover: false }),
                ..run
            }
        } else {
            UpdateRun {
                stage: Stage::RollingBack,
                error: Some(UpdateError { error: k, should_try_recover: true }),
                ..run
            }
        },
    }
}

impl UpdateRun {
    /// A run that left the forward path holds the error that made it leave,
    /// and a failed rollback holds its own error too.
    pub open spec fn wf(&self) -> bool {
        &&& (self.stage is Failed || self.stage is RollingBack || self.stage is Recovered
            || self.stage is RecoveryFailed) ==> self.error is Some
        &&& self.stage is RecoveryFailed ==> self.recovery_error is Some
    }

    pub fn new() -> (r: Self)
        ensures
            r.wf(),
            r.stage == Stage::Start,
            r.error is None,
            r.recovery_error is None,
    {
        UpdateRun { stage: Stage::Start, error: None, recovery_error: None }
    }

    pub fn action(&self) -> (r: Action)
        ensures
            r == action_of(self.stage),
    {
        match self.stage {
            Stage::Start => Action::EnsureRoot,
            Stage::RootEnsured => Action::LoadManifest,
            Stage::ManifestLoaded => Action::Backup,
            Stage::BackedUp => Action::Quarantine,
            Stage::Quarantined => Action::Extract,
            Stage::Extracted => Action::SaveManifest,
            Stage::ManifestSaved => Action::Finish,
            Stage::RollingBack => Action::Recover,
            _ => Action::Stop,
        }
    }

    pub fn is_finished(&self) -> (r: bool)
        ensures
            r == is_terminal(self.stage),
    {
        match self.stage {
            Stage::Done | Stage::Failed | Stage::Recovered | Stage::RecoveryFailed => true,
            _ => false,
        }
    }

    /// Records how the current stage's action ended. A failure before the
    /// backup stage is fatal; from the backup stage on it starts a rollback;
    /// a failed rollback keeps the first error and adds its own. Once the
    /// manifest is saved the run succeeds whatever comes.
    pub fn advance(&mut self, outcome: Result<(), ErrorKind>)
        requires
            old(self).wf(),
            !is_terminal(old(self).stage),
        ensures
            final(self).wf(),
            *final(self) == advanced(*old(self), outcome),
    {
        match outcome {
            Ok(()) => {
                self.stage = match self.stage {
                    Stage::Start => Stage::RootEnsured,
                    Stage::RootEnsured => Stage::ManifestLoaded,
                    Stage::ManifestLoaded => Stage::BackedUp,
                    Stage::BackedUp => Stage::Quarantined,
                    Stage::Quarantined => Stage::Extracted,
                    Stage::Extracted => Stage::ManifestSaved,
                    Stage::RollingBack => Stage::Recovered,
                    _ => Stage::Done,
                };
            },
            Err(k) => {
                match self.stage {
                    Stage::ManifestSaved => {
                        self.stage = Stage::Done;
                    },
                    Stage::RollingBack => {
                        self.stage = Stage::RecoveryFailed;
                        self.recovery_error = Some(
                            UpdateError::new(ErrorKind::RecoveryFailed, false),
                        );
                    },
                    Stage::Start | Stage::RootEnsured => {
                        self.stage = Stage::Failed;
                        self.error = Some(UpdateError::new(k, false));
                    },
                    _ => {
                        self.stage = Stage::RollingBack;
                        self.error = Some(UpdateError::new(k, true));
                    },
                }
            },
        }
    }

    /// The verdict of a finished run: success exactly when it got through.
    pub fn result(&self) -> (r: Result<(), UpdateError>)
        requires
            self.wf(),
            is_terminal(self.stage),
        ensures
            self.stage is Done ==> r is Ok,
            !(self.stage is Done) ==> r == Err::<(), UpdateError>(self.error->Some_0),
    {
        match self.stage {
            Stage::Done => Ok(()),
            _ => match self.error {
                Some(e) => Err(e),
                None => Ok(()),
            },
        }
    }
}

/// The run after `k` actions in a row that all succeed.
pub open spec fn after_successes(run: UpdateRun, k: nat) -> UpdateRun
    decreases k,
{
    if k == 0 {
        run
    } else {
        after_successes(advanced(run, Ok(())), (k - 1) as nat)
    }
}

pub open spec fn successful_actions() -> Seq<Action> {
    seq![
        Action::EnsureRoot,
        Action::LoadManifest,
        Action::Backup,
        Action::Quarantine,
        Action::Extract,
        Action::SaveManifest,
        Action::Finish,
    ]
}

/// A run whose actions all succeed asks for them in this order: root
/// setup, manifest load, backup, quarantine, extraction, manifest save; so
/// the quarantine always sweeps before the package is written. It then
/// ends done, with no error.
pub proof fn lemma_successful_run_order()
    ensures
        forall|i: int|
            0 <= i < 7 ==> action_of(
                after_successes(
                    UpdateRun { stage: Stage::Start, error: None, recovery_error: None },
                    i as nat,
                ).stage,
            ) == successful_actions()[i],
        after_successes(UpdateRun { stage: Stage::Start, error: None, recovery_error: None }, 7).stage
            == Stage::Done,
        after_successes(UpdateRun { stage: Stage::Start, error: None, recovery_error: None }, 7).error
            is None,
{
    let r0 = UpdateRun { stage: Stage::Start, error: None, recovery_error: None };
    reveal_with_fuel(after_successes, 8);
    assert(after_successes(r0, 1).stage == Stage::RootEnsured);
    assert(after_successes(r0, 2).stage == Stage::ManifestLoaded);
    assert(after_successes(r0, 3).stage == Stage::BackedUp);
    assert(after_successes(r0, 4).stage == Stage::Quarantined);
    assert(after_successes(r0, 5).stage == Stage::Extracted);
    assert(after_successes(r0, 6).stage == Stage::ManifestSaved);
}

/// Failure policy: a failure in root setup or manifest loading ends the run
/// with an error that asks for no recovery; a failure from the backup stage
/// up to extraction keeps its error, marked for recovery, and leads to the
/// recovery action.
pub proof fn lemma_failure_policy(run: UpdateRun, k: ErrorKind)
    requires
        !is_terminal(run.stage),
    ensures
        is_fatal_stage(run.stage) ==> {
            &&& is_terminal(advanced(run, Err(k)).stage)
            &&& advanced(run, Err(k)).error == Some(UpdateError { error: k, should_try_recover: false })
        },
        (run.stage is ManifestLoaded || run.stage is BackedUp || run.stage is Quarantined
            || run.stage is Extracted) ==> {
            &&& action_of(advanced(run, Err(k)).stage) == Action::Recover
            &&& advanced(run, Err(k)).error == Some(UpdateError { error: k, should_try_recover: true })
        },
{
}

} // verus!
