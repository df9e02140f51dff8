use vstd::prelude::*;
use crate::decimal::{spec_dec, u64_to_string};
use crate::logs::{spec_append, LogEntry, LogsState};
use crate::status::{health_url_for, spec_health_url, ServerStatus, StatusView};

verus! {

/// Why an operation of the supervisor failed.
#[derive(Debug)]
pub enum ServerError {
    /// `start` while a managed child already exists.
    AlreadyManaged,
    /// The server's working directory or entry point was not found.
    ServerNotFound,
    /// The child process could not be spawned; carries the full message.
    SpawnFailed(String),
    /// `stop` on an external server without `force_external`.
    NotOwned,
    /// A kill did not succeed; carries the full message.
    StopFailed(String),
    /// A forced stop could not resolve a pid for the port.
    ProcessNotFound(u16),
    /// `stop` with nothing to stop.
    NotRunning,
    /// The machine's local IP could not be determined; carries the cause.
    NoInterface(String),
}

impl ServerError {
    /// The user-legible message for each failure.
    pub open spec fn spec_message(&self) -> Seq<char> {
        match self {
            ServerError::AlreadyManaged => "Server process is already managed"@,
            ServerError::ServerNotFound => "Could not find server directory with src/index.js"@,
            ServerError::SpawnFailed(m) => m@,
            ServerError::NotOwned =>
                "Server was not started by this app. Use force_external=true to stop it anyway."@,
            ServerError::StopFailed(m) => m@,
            ServerError::ProcessNotFound(port) => "Could not find process listening on port "@
                + spec_dec(*port as nat),
            ServerError::NotRunning => "Server is not running"@,
            ServerError::NoInterface(m) => "Failed to get local IP: "@ + m@,
        }
    }

    pub fn message(&self) -> (s: String)
        ensures
            s@ == self.spec_message(),
    {
        match self {
            ServerError::AlreadyManaged => String::from_str("Server process is already managed"),
            ServerError::ServerNotFound => String::from_str(
                "Could not find server directory with src/index.js",
            ),
            ServerError::SpawnFailed(m) => m.clone(),
            ServerError::NotOwned => String::from_str(
                "Server was not started by this app. Use force_external=true to stop it anyway.",
            ),
            ServerError::StopFailed(m) => m.clone(),
            ServerError::ProcessNotFound(port) => {
                let mut s = String::from_str("Could not find process listening on port ");
                let digits = u64_to_string(*port as u64);
                s.append(digits.as_str());
                s
            },
            ServerError::NotRunning => String::from_str("Server is not running"),
            ServerError::NoInterface(m) => {
                let mut s = String::from_str("Failed to get local IP: ");
                s.append(m.as_str());
                s
            },
        }
    }
}

/// The supervisor's state: the status record, whether a spawned child is
/// currently held (managed), and the log sink.
#[derive(Debug)]
pub struct AppState {
    pub server_managed: bool,
    pub server_status: ServerStatus,
    pub logs: LogsState,
}

impl AppState {
    pub open spec fn wf(self) -> bool {
        &&& self.server_status.wf()
        &&& self.logs.wf()
    }

    /// A fresh supervisor: idle on the default port, with an empty sink.
    pub fn new() -> (s: AppState)
        ensures
            s.server_managed == false,
            s.server_status.is_idle_for(3001),
            s.logs.entries@ == Seq::<LogEntry>::empty(),
            s.logs.max_entries == 5000,
            s.wf(),
    {
        AppState {
            server_managed: false,
            server_status: ServerStatus::idle(3001),
            logs: LogsState::new(),
        }
    }
}

impl Default for AppState {
    fn default() -> (s: AppState)
        ensures
            s.server_managed == false,
            s.server_status.is_idle_for(3001),
            s.logs.entries@ == Seq::<LogEntry>::empty(),
            s.logs.max_entries == 5000,
            s.wf(),
    {
        AppState::new()
    }
}

/// The current status, as a copy.
pub fn get_server_status_impl(state: &AppState) -> (s: ServerStatus)
    ensures
        s == state.server_status,
{
    state.server_status.snapshot()
}

/// A copy of the captured log records, oldest first.
pub fn get_logs_impl(state: &AppState) -> (v: Vec<LogEntry>)
    ensures
        v@ == state.logs.entries@,
{
    state.logs.snapshot_entries()
}

/// Empties the log records; everything else is kept.
pub fn clear_logs_impl(state: &mut AppState)
    ensures
        final(state).logs.entries@ == Seq::<LogEntry>::empty(),
        final(state).logs.max_entries == old(state).logs.max_entries,
        final(state).server_status == old(state).server_status,
        final(state).server_managed == old(state).server_managed,
{
    state.logs.clear();
}

/// What a reconciliation reports: alive means running on the probed port,
/// external unless a managed child is held, and no pid claim either way;
/// not alive resets to the idle shape and keeps the recorded port.
pub open spec fn spec_detect(managed: bool, v: StatusView, port: u16, healthy: bool) -> StatusView {
    if healthy {
        StatusView {
            running: true,
            port,
            pid: None,
            health_url: spec_health_url(port as nat),
            external: !managed,
        }
    } else {
        StatusView {
            running: false,
            port: v.port,
            pid: None,
            health_url: v.health_url,
            external: false,
        }
    }
}

/// Re-synchronizes the status with the observed health of the port.
/// `healthy` is the health probe's answer for `port`.
pub fn detect_running_server_impl(state: &mut AppState, port: u16, healthy: bool) -> (r:
    ServerStatus)
    ensures
        final(state).server_status@ == spec_detect(
            old(state).server_managed,
            old(state).server_status@,
            port,
            healthy,
        ),
        r == final(state).server_status,
        final(state).server_managed == old(state).server_managed,
        final(state).logs == old(state).logs,
        old(state).wf() ==> final(state).wf(),
{
    if healthy {
        let is_external = !state.server_managed;
        state.server_status = ServerStatus {
            running: true,
            port,
            pid: None,
            health_url: health_url_for(port),
            external: is_external,
        };
    } else {
        state.server_status.running = false;
        state.server_status.external = false;
        state.server_status.pid = None;
    }
    state.server_status.snapshot()
}

/// Reconciliation is idempotent: a second detection with the same
/// observation and no intervening state change reports the same status.
pub proof fn lemma_detect_idempotent(managed: bool, v: StatusView, port: u16, healthy: bool)
    ensures
        spec_detect(managed, spec_detect(managed, v, port, healthy), port, healthy) == spec_detect(
            managed,
            v,
            port,
            healthy,
        ),
{
}

/// What `start` decides from the health probe and the held child.
pub enum SpecStartOutcome {
    /// Something answers on the port: adopt it as external, spawn nothing.
    External,
    /// Nothing answers and no child is held: spawn one.
    Spawn,
    /// Nothing answers but a managed child exists: refuse.
    AlreadyManaged,
}

pub open spec fn spec_start_step(managed: bool, healthy: bool) -> SpecStartOutcome {
    if healthy {
        SpecStartOutcome::External
    } else if managed {
        SpecStartOutcome::AlreadyManaged
    } else {
        SpecStartOutcome::Spawn
    }
}

/// The status recorded when an already-running server is adopted.
pub open spec fn spec_external_status(port: u16) -> StatusView {
    StatusView {
        running: true,
        port,
        pid: None,
        health_url: spec_health_url(port as nat),
        external: true,
    }
}

/// The status recorded when a spawned child is taken as managed.
pub open spec fn spec_managed_status(port: u16, pid: u32) -> StatusView {
    StatusView {
        running: true,
        port,
        pid: Some(pid),
        health_url: spec_health_url(port as nat),
        external: false,
    }
}

/// The first phase of `start`: what to do about port `port`, given the
/// health probe's answer `healthy`.
#[derive(Debug)]
pub enum StartStep {
    /// The adopted external status, already committed.
    External(ServerStatus),
    /// The caller should spawn the child and commit the outcome.
    SpawnNeeded,
}

pub fn start_server_begin(state: &mut AppState, port: u16, healthy: bool) -> (r: Result<
    StartStep,
    ServerError,
>)
    ensures
        final(state).server_managed == old(state).server_managed,
        final(state).logs == old(state).logs,
        spec_start_step(old(state).server_managed, healthy) == SpecStartOutcome::External ==> ({
            &&& r matches Ok(StartStep::External(s)) && s == final(state).server_status
            &&& final(state).server_status@ == spec_external_status(port)
        }),
        spec_start_step(old(state).server_managed, healthy) == SpecStartOutcome::AlreadyManaged
            ==> ({
            &&& r matches Err(ServerError::AlreadyManaged)
            &&& final(state).server_status == old(state).server_status
        }),
        spec_start_step(old(state).server_managed, healthy) == SpecStartOutcome::Spawn ==> ({
            &&& r matches Ok(StartStep::SpawnNeeded)
            &&& final(state).server_status == old(state).server_status
        }),
        old(state).wf() ==> final(state).wf(),
{
    if healthy {
        state.server_status = ServerStatus {
            running: true,
            port,
            pid: None,
            health_url: health_url_for(port),
            external: true,
        };
        Ok(StartStep::External(state.server_status.snapshot()))
    } else if state.server_managed {
        Err(ServerError::AlreadyManaged)
    } else {
        Ok(StartStep::SpawnNeeded)
    }
}

/// The announcement logged after a successful spawn.
pub open spec fn spec_start_message(port: u16, pid: u32) -> Seq<char> {
    "Server started on port "@ + spec_dec(port as nat) + " (PID: "@ + spec_dec(pid as nat) + ")"@
}

/// Commits a successful spawn: the child is now managed, the status records
/// its pid, and the sink gets an informational announcement.
pub fn start_server_commit_spawned(state: &mut AppState, port: u16, pid: u32) -> (r: ServerStatus)
    ensures
        final(state).server_managed == true,
        final(state).server_status@ == spec_managed_status(port, pid),
        r == final(state).server_status,
        final(state).logs.max_entries == old(state).logs.max_entries,
        exists|e: LogEntry|
            {
                &&& final(state).logs.entries@ == #[trigger] spec_append(
                    old(state).logs.entries@,
                    old(state).logs.max_entries as nat,
                    e,
                )
                &&& e.level@ == "info"@
                &&& e.message@ == spec_start_message(port, pid)
            },
        old(state).wf() ==> final(state).wf(),
{
    state.server_managed = true;
    state.server_status = ServerStatus {
        running: true,
        port,
        pid: Some(pid),
        health_url: health_url_for(port),
        external: false,
    };
    let mut msg = String::from_str("Server started on port ");
    let port_digits = u64_to_string(port as u64);
    msg.append(port_digits.as_str());
    msg.append(" (PID: ");
    let pid_digits = u64_to_string(pid as u64);
    msg.append(pid_digits.as_str());
    msg.append(")");
    assert(msg@ =~= spec_start_message(port, pid));
    let e = state.logs.add_entry_now("info", msg);
    state.server_status.snapshot()
}

/// Records a failed spawn: an error entry is logged and the failure is
/// returned; the status and the held child are untouched.
pub fn start_server_spawn_failed(state: &mut AppState, err: String) -> (r: ServerError)
    ensures
        final(state).server_managed == old(state).server_managed,
        final(state).server_status == old(state).server_status,
        final(state).logs.max_entries == old(state).logs.max_entries,
        r matches ServerError::SpawnFailed(m) && (m@ == "Failed to start server: "@ + err@),
        exists|e: LogEntry|
            {
                &&& final(state).logs.entries@ == #[trigger] spec_append(
                    old(state).logs.entries@,
                    old(state).logs.max_entries as nat,
                    e,
                )
                &&& e.level@ == "error"@
                &&& e.message@ == "Failed to start server: "@ + err@
            },
        old(state).wf() ==> final(state).wf(),
{
    let mut msg = String::from_str("Failed to start server: ");
    msg.append(err.as_str());
    let logged = msg.clone();
    let e = state.logs.add_entry_now("error", logged);
    ServerError::SpawnFailed(msg)
}

/// What `stop` decides to do.
#[derive(Debug, PartialEq, Eq)]
pub enum StopPlan {
    /// Kill the held child.
    KillManaged,
    /// Resolve the pid listening on the port and kill it.
    KillExternal(u16),
}

/// `force_external` defaults to false when absent.
pub open spec fn spec_force(f: Option<bool>) -> bool {
    f == Some(true)
}

/// What `stop` decides: an external server is never killed unforced; a held
/// child is killed first; a forced external stop goes through the port; and
/// with nothing held and nothing external there is nothing to stop.
pub open spec fn spec_stop_plan(managed: bool, external: bool, port: u16, force: Option<
    bool,
>) -> Result<StopPlan, ServerError> {
    if external && !spec_force(force) {
        Err(ServerError::NotOwned)
    } else if managed {
        Ok(StopPlan::KillManaged)
    } else if external {
        Ok(StopPlan::KillExternal(port))
    } else {
        Err(ServerError::NotRunning)
    }
}

/// The first phase of `stop`: decide what to do; nothing changes yet.
pub fn stop_server_begin(state: &AppState, force_external: Option<bool>) -> (r: Result<
    StopPlan,
    ServerError,
>)
    ensures
        r == spec_stop_plan(
            state.server_managed,
            state.server_status.external,
            state.server_status.port,
            force_external,
        ),
{
    let force = match force_external {
        Some(b) => b,
        None => false,
    };
    if state.server_status.external && !force {
        Err(ServerError::NotOwned)
    } else if state.server_managed {
        Ok(StopPlan::KillManaged)
    } else if state.server_status.external {
        Ok(StopPlan::KillExternal(state.server_status.port))
    } else {
        Err(ServerError::NotRunning)
    }
}

/// A status cleared by a successful stop: not running, no pid, not
/// external; the port and its URL are kept.
pub open spec fn spec_cleared(v: StatusView) -> StatusView {
    StatusView { running: false, port: v.port, pid: None, health_url: v.health_url, external: false }
}

/// Commits a successful kill of the managed child.
pub fn stop_server_commit_managed(state: &mut AppState) -> (r: ())
    ensures
        final(state).server_managed == false,
        final(state).server_status@ == spec_cleared(old(state).server_status@),
        final(state).logs.max_entries == old(state).logs.max_entries,
        exists|e: LogEntry|
            {
                &&& final(state).logs.entries@ == #[trigger] spec_append(
                    old(state).logs.entries@,
                    old(state).logs.max_entries as nat,
                    e,
                )
                &&& e.level@ == "info"@
                &&& e.message@ == "Server stopped successfully"@
            },
        old(state).wf() ==> final(state).wf(),
{
    state.server_managed = false;
    state.server_status.running = false;
    state.server_status.pid = None;
    state.server_status.external = false;
    let e = state.logs.add_entry_now("info", String::from_str("Server stopped successfully"));
}

/// Records a failed kill of the managed child: the handle is gone either
/// way, the status is untouched, and the failure is returned.
pub fn stop_server_managed_failed(state: &mut AppState, err: String) -> (r: ServerError)
    ensures
        final(state).server_managed == false,
        final(state).server_status == old(state).server_status,
        final(state).logs == old(state).logs,
        r matches ServerError::StopFailed(m) && (m@ == "Failed to stop managed server: "@ + err@),
{
    state.server_managed = false;
    let mut msg = String::from_str("Failed to stop managed server: ");
    msg.append(err.as_str());
    ServerError::StopFailed(msg)
}

/// The announcement logged after a forced external stop.
pub open spec fn spec_external_stopped_message(port: u16) -> Seq<char> {
    "External server on port "@ + spec_dec(port as nat) + " stopped successfully"@
}

/// Commits a successful forced kill of an external server.
pub fn stop_server_external_killed(state: &mut AppState) -> (r: ())
    ensures
        final(state).server_managed == old(state).server_managed,
        final(state).server_status@ == spec_cleared(old(state).server_status@),
        final(state).logs.max_entries == old(state).logs.max_entries,
        exists|e: LogEntry|
            {
                &&& final(state).logs.entries@ == #[trigger] spec_append(
                    old(state).logs.entries@,
                    old(state).logs.max_entries as nat,
                    e,
                )
                &&& e.level@ == "info"@
                &&& e.message@ == spec_external_stopped_message(old(state).server_status.port)
            },
        old(state).wf() ==> final(state).wf(),
{
    let port = state.server_status.port;
    state.server_status.running = false;
    state.server_status.pid = None;
    state.server_status.external = false;
    let mut msg = String::from_str("External server on port ");
    let digits = u64_to_string(port as u64);
    msg.append(digits.as_str());
    msg.append(" stopped successfully");
    assert(msg@ =~= spec_external_stopped_message(port));
    let e = state.logs.add_entry_now("info", msg);
}

/// Records a failed forced kill: an error entry is logged and the failure
/// is returned; the status is untouched.
pub fn stop_server_kill_failed(state: &mut AppState, pid: u32, err: String) -> (r: ServerError)
    ensures
        final(state).server_managed == old(state).server_managed,
        final(state).server_status == old(state).server_status,
        final(state).logs.max_entries == old(state).logs.max_entries,
        r matches ServerError::StopFailed(m) && (m@ == "Failed to kill process "@ + spec_dec(
            pid as nat,
        ) + ": "@ + err@),
        exists|e: LogEntry|
            {
                &&& final(state).logs.entries@ == #[trigger] spec_append(
                    old(state).logs.entries@,
                    old(state).logs.max_entries as nat,
                    e,
                )
                &&& e.level@ == "error"@
                &&& e.message@ == "Failed to kill process "@ + spec_dec(pid as nat) + ": "@ + err@
            },
        old(state).wf() ==> final(state).wf(),
{
    let mut msg = String::from_str("Failed to kill process ");
    let digits = u64_to_string(pid as u64);
    msg.append(digits.as_str());
    msg.append(": ");
    msg.append(err.as_str());
    let logged = msg.clone();
    let e = state.logs.add_entry_now("error", logged);
    ServerError::StopFailed(msg)
}

/// Captures one line of child output into the sink (level policy included).
pub fn capture_server_line(state: &mut AppState, line: String, from_stderr: bool) -> (e: LogEntry)
    ensures
        final(state).server_managed == old(state).server_managed,
        final(state).server_status == old(state).server_status,
        final(state).logs.max_entries == old(state).logs.max_entries,
        final(state).logs.entries@ == spec_append(
            old(state).logs.entries@,
            old(state).logs.max_entries as nat,
            e,
        ),
        e.level@ == if from_stderr {
            "error"@
        } else {
            crate::logs::spec_level_of(line@)
        },
        e.message@ == line@,
        old(state).wf() ==> final(state).wf(),
{
    state.logs.capture_line(line, from_stderr)
}

/// Starting on a quiet port spawns and reports a managed server with its
/// pid; a second start while that child is held is refused.
pub proof fn lemma_start_then_restart(port: u16, pid: u32)
    ensures
        spec_start_step(false, false) == SpecStartOutcome::Spawn,
        spec_managed_status(port, pid).running == true,
        spec_managed_status(port, pid).external == false,
        spec_managed_status(port, pid).pid == Some(pid),
        spec_start_step(true, false) == SpecStartOutcome::AlreadyManaged,
{
}

/// Starting on a port that already answers adopts the server as external:
/// running, no pid, and nothing is spawned.
pub proof fn lemma_start_external(managed: bool, port: u16)
    ensures
        spec_start_step(managed, true) == SpecStartOutcome::External,
        spec_external_status(port).running == true,
        spec_external_status(port).external == true,
        spec_external_status(port).pid == None::<u32>,
{
}

/// A never-started supervisor has nothing to stop.
pub proof fn lemma_stop_fresh_not_running(port: u16, force: Option<bool>)
    ensures
        spec_stop_plan(false, false, port, force) == Err::<StopPlan, ServerError>(
            ServerError::NotRunning,
        ),
{
}

/// An external server is not stopped unforced; forced, the stop goes
/// through the port's pid and clears the status back to the idle shape.
pub proof fn lemma_stop_external(v: StatusView, port: u16)
    ensures
        spec_stop_plan(false, true, port, None) == Err::<StopPlan, ServerError>(
            ServerError::NotOwned,
        ),
        spec_stop_plan(false, true, port, Some(false)) == Err::<StopPlan, ServerError>(
            ServerError::NotOwned,
        ),
        spec_stop_plan(false, true, port, Some(true)) == Ok::<StopPlan, ServerError>(
            StopPlan::KillExternal(port),
        ),
        spec_cleared(v).running == false,
        spec_cleared(v).pid == None::<u32>,
        spec_cleared(v).external == false,
        spec_cleared(v).port == v.port,
{
}

} // verus!
