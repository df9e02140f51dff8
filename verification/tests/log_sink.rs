use companion_supervisor::logs::{classify_level, LogEntry, LogsState};
use companion_supervisor::supervisor::{capture_server_line, AppState};

fn entry(msg: &str) -> LogEntry {
    LogEntry {
        timestamp: String::from("t"),
        level: String::from("info"),
        message: String::from(msg),
    }
}

#[test]
fn sink_keeps_only_the_most_recent_entries() {
    let mut sink = LogsState {
        entries: Vec::new(),
        max_entries: 3,
    };
    for i in 0..5 {
        sink.append_entry(entry(&format!("m{}", i)));
    }
    let kept = sink.snapshot_entries();
    assert_eq!(kept.len(), 3);
    assert_eq!(kept[0].message, "m2");
    assert_eq!(kept[1].message, "m3");
    assert_eq!(kept[2].message, "m4");
}

#[test]
fn sink_below_cap_keeps_arrival_order() {
    let mut sink = LogsState {
        entries: Vec::new(),
        max_entries: 10,
    };
    sink.append_entry(entry("first"));
    sink.append_entry(entry("second"));
    let kept = sink.snapshot_entries();
    assert_eq!(kept.len(), 2);
    assert_eq!(kept[0].message, "first");
    assert_eq!(kept[1].message, "second");
}

#[test]
fn sink_clear_keeps_the_cap() {
    let mut sink = LogsState {
        entries: vec![entry("x")],
        max_entries: 7,
    };
    sink.clear();
    assert_eq!(sink.entries.len(), 0);
    assert_eq!(sink.max_entries, 7);
}

#[test]
fn levels_follow_the_content_heuristic() {
    assert_eq!(classify_level("ERROR: disk full"), "error");
    assert_eq!(classify_level("an error occurred"), "error");
    assert_eq!(classify_level("WARN: low memory"), "warning");
    assert_eq!(classify_level("warning: deprecated"), "warning");
    assert_eq!(classify_level("listening on 3001"), "info");
    // an error marker wins over a warning marker
    assert_eq!(classify_level("WARN then error"), "error");
}

#[test]
fn stderr_lines_are_errors_regardless_of_content() {
    let mut state = AppState::new();
    let from_err = capture_server_line(&mut state, String::from("all fine"), true);
    assert_eq!(from_err.level, "error");
    assert_eq!(from_err.message, "all fine");

    let from_out = capture_server_line(&mut state, String::from("all fine"), false);
    assert_eq!(from_out.level, "info");

    let logs = state.logs.snapshot_entries();
    assert_eq!(logs.len(), 2);
    assert_eq!(logs[0].message, "all fine");
    assert_eq!(logs[0].level, "error");
    assert_eq!(logs[1].level, "info");
}
