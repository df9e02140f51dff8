use companion_supervisor::supervisor::{
    clear_logs_impl, detect_running_server_impl, get_logs_impl, get_server_status_impl,
    start_server_begin, start_server_commit_spawned, start_server_spawn_failed,
    stop_server_begin, stop_server_commit_managed, stop_server_external_killed,
    stop_server_kill_failed, stop_server_managed_failed, AppState, ServerError, StartStep,
    StopPlan,
};

#[test]
fn test_app_state_creation() {
    let state = AppState::new();
    let status = &state.server_status;
    assert_eq!(status.running, false);
    assert_eq!(status.port, 3001);
    assert_eq!(status.pid, None);
    assert_eq!(status.external, false);
}

#[test]
fn test_get_server_status_impl() {
    let state = AppState::new();
    let status = get_server_status_impl(&state);
    assert_eq!(status.running, false);
    assert_eq!(status.port, 3001);
    assert_eq!(status.pid, None);
    assert_eq!(status.external, false);
}

#[test]
fn test_detect_running_server_not_running() {
    let mut state = AppState::new();
    let status = detect_running_server_impl(&mut state, 65432, false);
    assert_eq!(status.running, false);
    assert_eq!(status.external, false);
    assert_eq!(status.pid, None);
}

#[test]
fn test_stop_server_not_started() {
    let state = AppState::new();
    let result = stop_server_begin(&state, None);
    assert!(result.is_err());
    assert_eq!(result.unwrap_err().message(), "Server is not running");
}

#[test]
fn test_stop_external_server_without_force() {
    let mut state = AppState::new();
    state.server_status.external = true;
    state.server_status.running = true;

    let result = stop_server_begin(&state, Some(false));
    assert!(result.is_err());
    assert!(result.unwrap_err().message().contains("not started by this app"));
}

#[test]
fn detect_running_adopts_external_server() {
    let mut state = AppState::new();
    let status = detect_running_server_impl(&mut state, 4000, true);
    assert_eq!(status.running, true);
    assert_eq!(status.port, 4000);
    assert_eq!(status.pid, None);
    assert_eq!(status.external, true);
    assert_eq!(status.health_url, "http://localhost:4000/health");
}

#[test]
fn detect_running_is_idempotent() {
    let mut state = AppState::new();
    let first = detect_running_server_impl(&mut state, 4000, true);
    let second = detect_running_server_impl(&mut state, 4000, true);
    assert_eq!(first.running, second.running);
    assert_eq!(first.port, second.port);
    assert_eq!(first.pid, second.pid);
    assert_eq!(first.health_url, second.health_url);
    assert_eq!(first.external, second.external);

    let third = detect_running_server_impl(&mut state, 4000, false);
    let fourth = detect_running_server_impl(&mut state, 4000, false);
    assert_eq!(third.running, fourth.running);
    assert_eq!(third.port, fourth.port);
    assert_eq!(third.pid, fourth.pid);
    assert_eq!(third.health_url, fourth.health_url);
    assert_eq!(third.external, fourth.external);
}

#[test]
fn start_on_quiet_port_spawns_then_refuses_restart() {
    let mut state = AppState::new();
    let step = start_server_begin(&mut state, 3005, false);
    assert!(matches!(step, Ok(StartStep::SpawnNeeded)));

    let status = start_server_commit_spawned(&mut state, 3005, 777);
    assert_eq!(status.running, true);
    assert_eq!(status.external, false);
    assert_eq!(status.pid, Some(777));
    assert_eq!(status.health_url, "http://localhost:3005/health");
    assert!(state.server_managed);

    let again = start_server_begin(&mut state, 3005, false);
    assert!(matches!(again, Err(ServerError::AlreadyManaged)));
    assert_eq!(
        again.unwrap_err().message(),
        "Server process is already managed"
    );
}

#[test]
fn start_on_answering_port_adopts_without_spawning() {
    let mut state = AppState::new();
    let step = start_server_begin(&mut state, 3006, true);
    match step {
        Ok(StartStep::External(status)) => {
            assert_eq!(status.running, true);
            assert_eq!(status.external, true);
            assert_eq!(status.pid, None);
            assert_eq!(status.port, 3006);
        }
        _ => panic!("expected the external server to be adopted"),
    }
    assert!(!state.server_managed);
}

#[test]
fn start_spawn_failure_logs_and_reports() {
    let mut state = AppState::new();
    let err = start_server_spawn_failed(&mut state, String::from("no such file"));
    assert_eq!(err.message(), "Failed to start server: no such file");
    let logs = get_logs_impl(&state);
    assert_eq!(logs.len(), 1);
    assert_eq!(logs[0].level, "error");
    assert_eq!(logs[0].message, "Failed to start server: no such file");
    assert!(!state.server_managed);
    assert_eq!(state.server_status.running, false);
}

#[test]
fn stop_managed_child_clears_status_and_logs() {
    let mut state = AppState::new();
    start_server_begin(&mut state, 3005, false).unwrap();
    start_server_commit_spawned(&mut state, 3005, 777);

    let plan = stop_server_begin(&state, None);
    assert!(matches!(plan, Ok(StopPlan::KillManaged)));

    stop_server_commit_managed(&mut state);
    assert!(!state.server_managed);
    assert_eq!(state.server_status.running, false);
    assert_eq!(state.server_status.pid, None);
    assert_eq!(state.server_status.external, false);
    let logs = get_logs_impl(&state);
    assert_eq!(logs.last().unwrap().message, "Server stopped successfully");
    assert_eq!(logs.last().unwrap().level, "info");
}

#[test]
fn stop_managed_kill_failure_keeps_status() {
    let mut state = AppState::new();
    start_server_begin(&mut state, 3005, false).unwrap();
    start_server_commit_spawned(&mut state, 3005, 777);

    let err = stop_server_managed_failed(&mut state, String::from("permission denied"));
    assert_eq!(
        err.message(),
        "Failed to stop managed server: permission denied"
    );
    assert!(!state.server_managed);
    assert_eq!(state.server_status.running, true);
    assert_eq!(state.server_status.pid, Some(777));
}

#[test]
fn forced_external_stop_resets_to_idle() {
    let mut state = AppState::new();
    detect_running_server_impl(&mut state, 3001, true);
    assert!(state.server_status.external);

    let plan = stop_server_begin(&state, Some(true));
    assert!(matches!(plan, Ok(StopPlan::KillExternal(3001))));

    stop_server_external_killed(&mut state);
    assert_eq!(state.server_status.running, false);
    assert_eq!(state.server_status.pid, None);
    assert_eq!(state.server_status.external, false);
    assert_eq!(state.server_status.port, 3001);
    let logs = get_logs_impl(&state);
    assert_eq!(
        logs.last().unwrap().message,
        "External server on port 3001 stopped successfully"
    );
}

#[test]
fn forced_external_kill_failure_logs_and_reports() {
    let mut state = AppState::new();
    detect_running_server_impl(&mut state, 3001, true);

    let err = stop_server_kill_failed(&mut state, 42, String::from("denied"));
    assert_eq!(err.message(), "Failed to kill process 42: denied");
    assert_eq!(state.server_status.running, true);
    let logs = get_logs_impl(&state);
    assert_eq!(logs.last().unwrap().level, "error");
    assert_eq!(logs.last().unwrap().message, "Failed to kill process 42: denied");
}

#[test]
fn error_messages_name_their_cause() {
    assert_eq!(
        ServerError::ProcessNotFound(3001).message(),
        "Could not find process listening on port 3001"
    );
    assert_eq!(
        ServerError::NotOwned.message(),
        "Server was not started by this app. Use force_external=true to stop it anyway."
    );
    assert_eq!(
        ServerError::ServerNotFound.message(),
        "Could not find server directory with src/index.js"
    );
    assert_eq!(
        ServerError::NoInterface(String::from("no route")).message(),
        "Failed to get local IP: no route"
    );
}

#[test]
fn clear_logs_keeps_everything_else() {
    let mut state = AppState::new();
    start_server_begin(&mut state, 3005, false).unwrap();
    start_server_commit_spawned(&mut state, 3005, 777);
    assert_eq!(get_logs_impl(&state).len(), 1);

    clear_logs_impl(&mut state);
    assert_eq!(get_logs_impl(&state).len(), 0);
    assert_eq!(state.logs.max_entries, 5000);
    assert!(state.server_managed);
    assert_eq!(state.server_status.pid, Some(777));
}
