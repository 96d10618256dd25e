//! Dependency synchronization: preconditions, the subprocess isolation
//! environment, and interpretation of the tool's exit.
//!
//! The package manager itself is an external collaborator; this module pins
//! exactly which environment the tool subprocess must be given so that it
//! never reads or contaminates machine-wide state, and exactly how its exit
//! status and captured standard error become the caller's result. Spawning
//! the subprocess is the surrounding application's work.

use vstd::prelude::*;

verus! {

/// The user-facing error when the repository has not been cloned yet.
pub open spec fn spec_repo_missing_error() -> Seq<char> {
    "Engine repository not found. Please clone it first."@
}

/// The user-facing error when the tool has not been installed yet.
pub open spec fn spec_uv_missing_error() -> Seq<char> {
    "uv is not installed. Please install it first."@
}

/// The error reported for a failed sync subprocess: a fixed prefix with the
/// subprocess's standard-error text appended verbatim.
pub open spec fn spec_sync_error(stderr: Seq<char>) -> Seq<char> {
    "uv sync failed: "@ + stderr
}

/// The repository synchronizer's full-replace policy: an existing repository
/// (its directory holds the manifest marker) is deleted wholesale before the
/// fresh snapshot is extracted; nothing is merged. A directory without the
/// marker is left for the extraction to fill.
pub fn should_replace_repo(engine_dir_exists: bool, marker_exists: bool) -> (r: bool)
    ensures
        r == (engine_dir_exists && marker_exists),
{
    engine_dir_exists && marker_exists
}

/// The preconditions of a dependency sync, as distinct user-facing errors:
/// the repository directory must exist and the tool binary must exist, in
/// that order of checking.
pub fn sync_precheck(engine_dir_exists: bool, uv_binary_exists: bool) -> (r: Result<
    (),
    String,
>)
    ensures
        r is Ok <==> engine_dir_exists && uv_binary_exists,
        !engine_dir_exists ==> (r matches Err(m) && m@ == spec_repo_missing_error()),
        engine_dir_exists && !uv_binary_exists ==> (r matches Err(m) && m@
            == spec_uv_missing_error()),
{
    if !engine_dir_exists {
        Err(String::from_str("Engine repository not found. Please clone it first."))
    } else if !uv_binary_exists {
        Err(String::from_str("uv is not installed. Please install it first."))
    } else {
        Ok(())
    }
}

/// The isolation environment for `uv sync`, given the five private
/// directories (already created by the caller): frozen lockfile, copy link
/// mode, no external config, no editable installs, managed interpreter only,
/// and every cache, install and tool path redirected into the private tree.
pub fn sync_env_vars(
    cache_dir: String,
    python_install_dir: String,
    python_bin_dir: String,
    tool_dir: String,
    tool_bin_dir: String,
) -> (r: Vec<(String, String)>)
    ensures
        r@.len() == 10,
        r@[0].0@ == "UV_FROZEN"@ && r@[0].1@ == "1"@,
        r@[1].0@ == "UV_LINK_MODE"@ && r@[1].1@ == "copy"@,
        r@[2].0@ == "UV_NO_CONFIG"@ && r@[2].1@ == "1"@,
        r@[3].0@ == "UV_NO_EDITABLE"@ && r@[3].1@ == "1"@,
        r@[4].0@ == "UV_MANAGED_PYTHON"@ && r@[4].1@ == "1"@,
        r@[5].0@ == "UV_CACHE_DIR"@ && r@[5].1@ == cache_dir@,
        r@[6].0@ == "UV_PYTHON_INSTALL_DIR"@ && r@[6].1@ == python_install_dir@,
        r@[7].0@ == "UV_PYTHON_BIN_DIR"@ && r@[7].1@ == python_bin_dir@,
        r@[8].0@ == "UV_TOOL_DIR"@ && r@[8].1@ == tool_dir@,
        r@[9].0@ == "UV_TOOL_BIN_DIR"@ && r@[9].1@ == tool_bin_dir@,
{
    let mut r: Vec<(String, String)> = Vec::new();
    r.push((String::from_str("UV_FROZEN"), String::from_str("1")));
    r.push((String::from_str("UV_LINK_MODE"), String::from_str("copy")));
    r.push((String::from_str("UV_NO_CONFIG"), String::from_str("1")));
    r.push((String::from_str("UV_NO_EDITABLE"), String::from_str("1")));
    r.push((String::from_str("UV_MANAGED_PYTHON"), String::from_str("1")));
    r.push((String::from_str("UV_CACHE_DIR"), cache_dir));
    r.push((String::from_str("UV_PYTHON_INSTALL_DIR"), python_install_dir));
    r.push((String::from_str("UV_PYTHON_BIN_DIR"), python_bin_dir));
    r.push((String::from_str("UV_TOOL_DIR"), tool_dir));
    r.push((String::from_str("UV_TOOL_BIN_DIR"), tool_bin_dir));
    r
}

/// The isolation environment for the interpreter probe of a status query:
/// frozen lockfile, no external config, and the five private paths.
pub fn probe_env_vars(
    cache_dir: String,
    python_install_dir: String,
    python_bin_dir: String,
    tool_dir: String,
    tool_bin_dir: String,
) -> (r: Vec<(String, String)>)
    ensures
        r@.len() == 7,
        r@[0].0@ == "UV_FROZEN"@ && r@[0].1@ == "1"@,
        r@[1].0@ == "UV_NO_CONFIG"@ && r@[1].1@ == "1"@,
        r@[2].0@ == "UV_CACHE_DIR"@ && r@[2].1@ == cache_dir@,
        r@[3].0@ == "UV_PYTHON_INSTALL_DIR"@ && r@[3].1@ == python_install_dir@,
        r@[4].0@ == "UV_PYTHON_BIN_DIR"@ && r@[4].1@ == python_bin_dir@,
        r@[5].0@ == "UV_TOOL_DIR"@ && r@[5].1@ == tool_dir@,
        r@[6].0@ == "UV_TOOL_BIN_DIR"@ && r@[6].1@ == tool_bin_dir@,
{
    let mut r: Vec<(String, String)> = Vec::new();
    r.push((String::from_str("UV_FROZEN"), String::from_str("1")));
    r.push((String::from_str("UV_NO_CONFIG"), String::from_str("1")));
    r.push((String::from_str("UV_CACHE_DIR"), cache_dir));
    r.push((String::from_str("UV_PYTHON_INSTALL_DIR"), python_install_dir));
    r.push((String::from_str("UV_PYTHON_BIN_DIR"), python_bin_dir));
    r.push((String::from_str("UV_TOOL_DIR"), tool_dir));
    r.push((String::from_str("UV_TOOL_BIN_DIR"), tool_bin_dir));
    r
}

/// How a finished sync subprocess becomes the caller's result: success is
/// the fixed success message; a non-zero exit is an error carrying the
/// subprocess's standard-error text verbatim.
pub fn interpret_sync_exit(success: bool, stderr: String) -> (r: Result<String, String>)
    ensures
        success ==> (r matches Ok(m) && m@ == "Dependencies synced successfully"@),
        !success ==> (r matches Err(m) && m@ == spec_sync_error(stderr@)),
{
    if success {
        Ok(String::from_str("Dependencies synced successfully"))
    } else {
        let mut m = String::from_str("uv sync failed: ");
        m.append(stderr.as_str());
        Err(m)
    }
}

} // verus!
