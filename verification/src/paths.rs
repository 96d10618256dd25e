//! The on-disk layout, as names and relative paths.
//!
//! Every path of the installation is derived from the application's data and
//! config directories; nothing is user-supplied. The surrounding application
//! joins these names onto real directories with its platform's separator.

use vstd::prelude::*;

use crate::platform::Os;

verus! {

/// The name of the config file inside the app config directory.
pub fn config_file_name() -> (r: &'static str)
    ensures
        r@ == "config.json"@,
{
    "config.json"
}

/// The name of the repository directory inside the app data directory.
pub fn engine_dir_name() -> (r: &'static str)
    ensures
        r@ == "world_engine"@,
{
    "world_engine"
}

/// The name of the isolated tool directory inside the app data directory.
pub fn uv_dir_name() -> (r: &'static str)
    ensures
        r@ == ".uv"@,
{
    ".uv"
}

/// The name of the tool's binary directory inside the tool directory.
pub fn uv_bin_dir_name() -> (r: &'static str)
    ensures
        r@ == "bin"@,
{
    "bin"
}

/// The manifest marker file whose presence means the repository is cloned.
pub fn repo_marker_name() -> (r: &'static str)
    ensures
        r@ == "pyproject.toml"@,
{
    "pyproject.toml"
}

/// The virtual-environment marker directory inside the repository.
pub fn venv_dir_name() -> (r: &'static str)
    ensures
        r@ == ".venv"@,
{
    ".venv"
}

/// The five private subdirectories of the tool directory, in the order the
/// isolation environment names them.
pub fn uv_subdir_names() -> (r: Vec<&'static str>)
    ensures
        r@.len() == 5,
        r@[0]@ == "cache"@,
        r@[1]@ == "python_install"@,
        r@[2]@ == "python_bin"@,
        r@[3]@ == "tool"@,
        r@[4]@ == "tool_bin"@,
{
    let mut r: Vec<&'static str> = Vec::new();
    r.push("cache");
    r.push("python_install");
    r.push("python_bin");
    r.push("tool");
    r.push("tool_bin");
    r
}

/// The interpreter's path inside the virtual environment, as components
/// relative to the repository directory.
pub fn venv_python_rel_path(os: Os) -> (r: Vec<&'static str>)
    ensures
        r@.len() == 3,
        r@[0]@ == ".venv"@,
        os == Os::Windows ==> r@[1]@ == "Scripts"@ && r@[2]@ == "python.exe"@,
        os != Os::Windows ==> r@[1]@ == "bin"@ && r@[2]@ == "python"@,
{
    let mut r: Vec<&'static str> = Vec::new();
    r.push(".venv");
    match os {
        Os::Windows => {
            r.push("Scripts");
            r.push("python.exe");
        },
        _ => {
            r.push("bin");
            r.push("python");
        },
    }
    r
}

/// The permission bits forced onto the located tool binary after it is
/// written, where the platform bears file permissions: archive-declared
/// bits are not trusted in binary-locate mode.
pub fn forced_binary_mode() -> (r: u32)
    ensures
        r == 0o755u32,
{
    0o755
}

/// The tool binary's path inside the tool directory, as components: the
/// binary directory and the platform's binary name.
pub fn uv_binary_rel_path(os: Os) -> (r: Vec<&'static str>)
    ensures
        r@.len() == 2,
        r@[0]@ == "bin"@,
        r@[1]@ == crate::platform::spec_binary_name(os),
{
    let mut r: Vec<&'static str> = Vec::new();
    r.push("bin");
    if matches!(os, Os::Windows) {
        r.push("uv.exe");
    } else {
        r.push("uv");
    }
    r
}

} // verus!
