use engine_setup::paths::{
    config_file_name, engine_dir_name, repo_marker_name, uv_bin_dir_name, uv_binary_rel_path,
    uv_dir_name, uv_subdir_names, venv_dir_name, venv_python_rel_path,
};
use engine_setup::platform::Os;

#[test]
fn layout_names_are_fixed() {
    assert_eq!(config_file_name(), "config.json");
    assert_eq!(engine_dir_name(), "world_engine");
    assert_eq!(uv_dir_name(), ".uv");
    assert_eq!(uv_bin_dir_name(), "bin");
    assert_eq!(repo_marker_name(), "pyproject.toml");
    assert_eq!(venv_dir_name(), ".venv");
}

#[test]
fn the_five_isolated_subdirectories() {
    assert_eq!(
        uv_subdir_names(),
        vec!["cache", "python_install", "python_bin", "tool", "tool_bin"]
    );
}

#[test]
fn interpreter_path_by_platform() {
    assert_eq!(venv_python_rel_path(Os::Windows), vec![".venv", "Scripts", "python.exe"]);
    assert_eq!(venv_python_rel_path(Os::Linux), vec![".venv", "bin", "python"]);
    assert_eq!(venv_python_rel_path(Os::Macos), vec![".venv", "bin", "python"]);
}

#[test]
fn tool_binary_path_by_platform() {
    assert_eq!(uv_binary_rel_path(Os::Windows), vec!["bin", "uv.exe"]);
    assert_eq!(uv_binary_rel_path(Os::Linux), vec!["bin", "uv"]);
}
