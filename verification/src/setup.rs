//! The setup state machine.
//!
//! Full setup is the sequential composition install-tool, then sync the
//! repository, then sync the dependencies, short-circuiting on the first
//! failure with no rollback: the system is designed to be safely re-run from
//! scratch rather than recovered in place. The install step is skipped when
//! the tool is already installed. The surrounding application performs one
//! step at a time and feeds the step's result back into the machine.

use vstd::prelude::*;

verus! {

/// The phase a setup run is in: the three steps still to perform, or a
/// terminal outcome.
pub enum SetupPhase {
    /// Download and extract the tool binary.
    Install,
    /// Replace the repository with a fresh snapshot.
    CloneRepo,
    /// Materialize the virtual environment.
    SyncDeps,
    /// Every step succeeded.
    Done { message: String },
    /// A step failed; no later step is attempted.
    Failed { message: String },
}

/// Whether a phase still asks the application to perform a step.
pub open spec fn spec_phase_is_step(p: SetupPhase) -> bool {
    p is Install || p is CloneRepo || p is SyncDeps
}

/// The first phase of a run: installation is skipped exactly when the tool
/// is already installed.
pub fn setup_start(uv_installed: bool) -> (r: SetupPhase)
    ensures
        uv_installed ==> r is CloneRepo,
        !uv_installed ==> r is Install,
{
    if uv_installed {
        SetupPhase::CloneRepo
    } else {
        SetupPhase::Install
    }
}

/// How far along a run a phase is; terminal phases are furthest.
pub open spec fn phase_rank(p: SetupPhase) -> int {
    match p {
        SetupPhase::Install => 0,
        SetupPhase::CloneRepo => 1,
        SetupPhase::SyncDeps => 2,
        SetupPhase::Done { .. } => 3,
        SetupPhase::Failed { .. } => 3,
    }
}

/// The phase after one step has run: a failed step aborts the run at once
/// with the step's error; a successful step advances to the next step, and
/// after the last one the run is complete. The machine only moves forward,
/// so a run started past the install phase never performs an install.
pub fn setup_advance(phase: &SetupPhase, step_result: Result<String, String>) -> (r: SetupPhase)
    requires
        spec_phase_is_step(*phase),
    ensures
        phase_rank(r) > phase_rank(*phase),
        step_result matches Err(e) ==> (r matches SetupPhase::Failed { message } && message@
            == e@),
        step_result is Ok && *phase is Install ==> r is CloneRepo,
        step_result is Ok && *phase is CloneRepo ==> r is SyncDeps,
        step_result is Ok && *phase is SyncDeps ==> (r matches SetupPhase::Done { message }
            && message@ == "Engine setup complete"@),
{
    match step_result {
        Err(e) => SetupPhase::Failed { message: e },
        Ok(_) => match phase {
            SetupPhase::Install => SetupPhase::CloneRepo,
            SetupPhase::CloneRepo => SetupPhase::SyncDeps,
            _ => SetupPhase::Done { message: String::from_str("Engine setup complete") },
        },
    }
}

} // verus!
