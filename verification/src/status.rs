//! Engine status computation.
//!
//! The status of the engine installation is computed fresh on every query
//! from filesystem and subprocess observations; nothing is cached. The
//! observations themselves (does a file exist, did a probe subprocess exit
//! successfully) are made by the surrounding application and handed in as
//! plain flags; any failure to observe is reported as `false`, never as an
//! error, so a status query is always safe to make.

use vstd::prelude::*;

verus! {

/// The three-flag engine status, with the engine directory it describes.
pub struct EngineStatus {
    pub uv_installed: bool,
    pub repo_cloned: bool,
    pub dependencies_synced: bool,
    pub engine_dir: String,
}

/// The raw observations a status probe gathers, in probe order. A flag that
/// could not be observed (a probe subprocess that failed to spawn or exited
/// with failure) is `false`.
pub struct ProbeFacts {
    /// The tool binary exists on disk.
    pub uv_binary_exists: bool,
    /// Invoking the tool binary with its version flag exited successfully.
    pub uv_version_ok: bool,
    /// The repository directory exists.
    pub engine_dir_exists: bool,
    /// The repository's manifest marker file exists.
    pub pyproject_exists: bool,
    /// The virtual-environment marker directory exists.
    pub venv_exists: bool,
    /// The interpreter binary inside the virtual environment exists.
    pub python_exists: bool,
    /// Running the interpreter through the tool, under the isolation
    /// environment, exited successfully.
    pub python_run_ok: bool,
}

/// The tool is installed: its binary exists and answers a version probe.
pub open spec fn spec_uv_installed(f: ProbeFacts) -> bool {
    f.uv_binary_exists && f.uv_version_ok
}

/// The repository is present: its directory and manifest marker exist.
pub open spec fn spec_repo_cloned(f: ProbeFacts) -> bool {
    f.engine_dir_exists && f.pyproject_exists
}

/// The dependencies are synced: the repository is present, the virtual
/// environment and its interpreter exist, and the interpreter runs.
pub open spec fn spec_dependencies_synced(f: ProbeFacts) -> bool {
    spec_repo_cloned(f) && f.venv_exists && f.python_exists && f.python_run_ok
}

/// The status derived from a set of observations.
pub fn compute_engine_status(facts: &ProbeFacts, engine_dir: String) -> (r: EngineStatus)
    ensures
        r.uv_installed == spec_uv_installed(*facts),
        r.repo_cloned == spec_repo_cloned(*facts),
        r.dependencies_synced == spec_dependencies_synced(*facts),
        r.engine_dir@ == engine_dir@,
{
    let uv_installed = facts.uv_binary_exists && facts.uv_version_ok;
    let repo_cloned = facts.engine_dir_exists && facts.pyproject_exists;
    let dependencies_synced = repo_cloned && facts.venv_exists && facts.python_exists
        && facts.python_run_ok;
    EngineStatus { uv_installed, repo_cloned, dependencies_synced, engine_dir }
}

/// Whether the interpreter probe subprocess needs to run at all: only when
/// every cheaper filesystem marker already holds. The probe is the sole
/// subprocess of a dependency check and is skipped otherwise.
pub fn interpreter_probe_needed(
    engine_dir_exists: bool,
    pyproject_exists: bool,
    venv_exists: bool,
    python_exists: bool,
) -> (r: bool)
    ensures
        r == (engine_dir_exists && pyproject_exists && venv_exists && python_exists),
{
    engine_dir_exists && pyproject_exists && venv_exists && python_exists
}

/// Monotonic dependency of the flags: whenever the repository is not
/// present, the dependencies cannot be synced, for every observation set.
pub proof fn lemma_synced_requires_repo(f: ProbeFacts)
    ensures
        !spec_repo_cloned(f) ==> !spec_dependencies_synced(f),
{
}

/// On a pristine installation, where nothing has been observed to exist,
/// every status flag is false.
pub proof fn lemma_pristine_status(f: ProbeFacts)
    requires
        !f.uv_binary_exists,
        !f.engine_dir_exists,
        !f.venv_exists,
    ensures
        !spec_uv_installed(f),
        !spec_repo_cloned(f),
        !spec_dependencies_synced(f),
{
}

} // verus!
