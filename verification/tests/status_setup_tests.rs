use engine_setup::setup::{setup_advance, setup_start, SetupPhase};
use engine_setup::status::{compute_engine_status, interpreter_probe_needed, ProbeFacts};
use engine_setup::sync::{
    interpret_sync_exit, probe_env_vars, should_replace_repo, sync_env_vars, sync_precheck,
};

fn facts(bits: [bool; 7]) -> ProbeFacts {
    ProbeFacts {
        uv_binary_exists: bits[0],
        uv_version_ok: bits[1],
        engine_dir_exists: bits[2],
        pyproject_exists: bits[3],
        venv_exists: bits[4],
        python_exists: bits[5],
        python_run_ok: bits[6],
    }
}

#[test]
fn pristine_directory_reports_all_flags_false() {
    let s = compute_engine_status(&facts([false; 7]), "/data/world_engine".to_string());
    assert!(!s.uv_installed);
    assert!(!s.repo_cloned);
    assert!(!s.dependencies_synced);
    assert_eq!(s.engine_dir, "/data/world_engine");
}

#[test]
fn dependencies_synced_is_false_whenever_repo_is_absent() {
    for mask in 0..128u32 {
        let mut bits = [false; 7];
        for (i, b) in bits.iter_mut().enumerate() {
            *b = mask & (1 << i) != 0;
        }
        let f = facts(bits);
        let s = compute_engine_status(&f, String::new());
        if !s.repo_cloned {
            assert!(!s.dependencies_synced);
        }
    }
}

#[test]
fn status_flags_follow_their_observations() {
    let s = compute_engine_status(&facts([true; 7]), "d".to_string());
    assert!(s.uv_installed && s.repo_cloned && s.dependencies_synced);

    let s = compute_engine_status(&facts([true, false, true, true, true, true, true]), "d".to_string());
    assert!(!s.uv_installed);
    assert!(s.repo_cloned && s.dependencies_synced);

    let s = compute_engine_status(&facts([true, true, true, true, true, true, false]), "d".to_string());
    assert!(!s.dependencies_synced);
}

#[test]
fn interpreter_probe_only_runs_when_all_markers_hold() {
    assert!(interpreter_probe_needed(true, true, true, true));
    assert!(!interpreter_probe_needed(true, true, false, true));
    assert!(!interpreter_probe_needed(false, true, true, true));
}

#[test]
fn setup_with_tool_installed_skips_install_step() {
    let phase = setup_start(true);
    assert!(matches!(phase, SetupPhase::CloneRepo));
}

#[test]
fn setup_without_tool_starts_with_install() {
    let phase = setup_start(false);
    assert!(matches!(phase, SetupPhase::Install));
}

#[test]
fn setup_runs_all_steps_to_completion() {
    let mut phase = setup_start(false);
    assert!(matches!(phase, SetupPhase::Install));
    phase = setup_advance(&phase, Ok("uv 0.9.26 installed successfully".to_string()));
    assert!(matches!(phase, SetupPhase::CloneRepo));
    phase = setup_advance(&phase, Ok("Repository downloaded successfully".to_string()));
    assert!(matches!(phase, SetupPhase::SyncDeps));
    phase = setup_advance(&phase, Ok("Dependencies synced successfully".to_string()));
    match phase {
        SetupPhase::Done { message } => assert_eq!(message, "Engine setup complete"),
        _ => panic!("expected the run to complete"),
    }
}

#[test]
fn failing_sync_aborts_setup_with_stderr_text() {
    let mut phase = setup_start(true);
    phase = setup_advance(&phase, Ok("Repository downloaded successfully".to_string()));
    assert!(matches!(phase, SetupPhase::SyncDeps));
    let step = interpret_sync_exit(false, "error: lock mismatch".to_string());
    phase = setup_advance(&phase, step);
    match phase {
        SetupPhase::Failed { message } => {
            assert_eq!(message, "uv sync failed: error: lock mismatch");
            assert!(message.contains("error: lock mismatch"));
        },
        _ => panic!("a failing step must abort the run"),
    }
}

#[test]
fn failing_clone_aborts_before_dependency_sync() {
    let mut phase = setup_start(true);
    phase = setup_advance(&phase, Err("Failed to download world_engine: HTTP 404".to_string()));
    match phase {
        SetupPhase::Failed { message } => {
            assert_eq!(message, "Failed to download world_engine: HTTP 404")
        },
        _ => panic!("a failing step must abort the run"),
    }
}

#[test]
fn repo_is_replaced_only_when_marker_is_present() {
    assert!(should_replace_repo(true, true));
    assert!(!should_replace_repo(true, false));
    assert!(!should_replace_repo(false, false));
}

#[test]
fn sync_precheck_reports_distinct_errors_in_order() {
    assert!(sync_precheck(true, true).is_ok());
    assert_eq!(
        sync_precheck(false, true).unwrap_err(),
        "Engine repository not found. Please clone it first."
    );
    assert_eq!(
        sync_precheck(false, false).unwrap_err(),
        "Engine repository not found. Please clone it first."
    );
    assert_eq!(
        sync_precheck(true, false).unwrap_err(),
        "uv is not installed. Please install it first."
    );
}

#[test]
fn sync_environment_is_fully_isolated() {
    let vars = sync_env_vars(
        "/p/.uv/cache".to_string(),
        "/p/.uv/python_install".to_string(),
        "/p/.uv/python_bin".to_string(),
        "/p/.uv/tool".to_string(),
        "/p/.uv/tool_bin".to_string(),
    );
    let expected = [
        ("UV_FROZEN", "1"),
        ("UV_LINK_MODE", "copy"),
        ("UV_NO_CONFIG", "1"),
        ("UV_NO_EDITABLE", "1"),
        ("UV_MANAGED_PYTHON", "1"),
        ("UV_CACHE_DIR", "/p/.uv/cache"),
        ("UV_PYTHON_INSTALL_DIR", "/p/.uv/python_install"),
        ("UV_PYTHON_BIN_DIR", "/p/.uv/python_bin"),
        ("UV_TOOL_DIR", "/p/.uv/tool"),
        ("UV_TOOL_BIN_DIR", "/p/.uv/tool_bin"),
    ];
    assert_eq!(vars.len(), expected.len());
    for (got, want) in vars.iter().zip(expected.iter()) {
        assert_eq!(got.0, want.0);
        assert_eq!(got.1, want.1);
    }
}

#[test]
fn probe_environment_is_the_frozen_subset() {
    let vars = probe_env_vars(
        "c".to_string(),
        "pi".to_string(),
        "pb".to_string(),
        "t".to_string(),
        "tb".to_string(),
    );
    assert_eq!(vars.len(), 7);
    assert_eq!(vars[0].0, "UV_FROZEN");
    assert_eq!(vars[1].0, "UV_NO_CONFIG");
    assert_eq!(vars[2], ("UV_CACHE_DIR".to_string(), "c".to_string()));
    assert_eq!(vars[6], ("UV_TOOL_BIN_DIR".to_string(), "tb".to_string()));
}

#[test]
fn successful_sync_reports_success_message() {
    assert_eq!(
        interpret_sync_exit(true, String::new()).unwrap(),
        "Dependencies synced successfully"
    );
}
