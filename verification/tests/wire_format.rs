use companion_supervisor::codec::{
    decode_log_entry, decode_network_info, decode_server_status, encode_log_entry,
    encode_network_info, encode_server_status,
};
use companion_supervisor::logs::LogEntry;
use companion_supervisor::status::{NetworkInfo, ServerStatus};

#[test]
fn test_server_status_serialization() {
    let status = ServerStatus {
        running: true,
        port: 3001,
        pid: Some(12345),
        health_url: String::from("http://localhost:3001/health"),
        external: false,
    };

    let json = encode_server_status(&status);
    assert!(json.contains("\"running\":true"));
    assert!(json.contains("\"port\":3001"));
    assert!(json.contains("\"pid\":12345"));
    assert!(json.contains("\"external\":false"));

    let deserialized = decode_server_status(&json).unwrap();
    assert_eq!(deserialized.running, status.running);
    assert_eq!(deserialized.port, status.port);
    assert_eq!(deserialized.pid, status.pid);
    assert_eq!(deserialized.external, status.external);
}

#[test]
fn test_network_info_serialization() {
    let info = NetworkInfo {
        ip: String::from("192.168.1.100"),
        port: 3001,
    };

    let json = encode_network_info(&info);
    assert!(json.contains("\"ip\":\"192.168.1.100\""));
    assert!(json.contains("\"port\":3001"));

    let deserialized = decode_network_info(&json).unwrap();
    assert_eq!(deserialized.ip, info.ip);
    assert_eq!(deserialized.port, info.port);
}

#[test]
fn status_exact_wire_text() {
    let status = ServerStatus {
        running: true,
        port: 3001,
        pid: Some(12345),
        health_url: String::from("http://localhost:3001/health"),
        external: false,
    };
    let json = encode_server_status(&status);
    assert_eq!(
        json,
        "{\"running\":true,\"port\":3001,\"pid\":12345,\"health_url\":\"http://localhost:3001/health\",\"external\":false}"
    );
}

#[test]
fn status_absent_pid_travels_as_null() {
    let status = ServerStatus {
        running: false,
        port: 80,
        pid: None,
        health_url: String::from("http://localhost:80/health"),
        external: false,
    };
    let json = encode_server_status(&status);
    assert!(json.contains("\"pid\":null"));
    let back = decode_server_status(&json).unwrap();
    assert_eq!(back.pid, None);
    assert_eq!(back.port, 80);
    assert_eq!(back.running, false);
    assert_eq!(back.health_url, status.health_url);
}

#[test]
fn log_entry_round_trip_preserves_escaped_text() {
    let entry = LogEntry {
        timestamp: String::from("2024-01-02 03:04:05.678"),
        level: String::from("warning"),
        message: String::from("a \"quoted\" path C:\\srv\\logs"),
    };
    let json = encode_log_entry(&entry);
    let back = decode_log_entry(&json).unwrap();
    assert_eq!(back.timestamp, entry.timestamp);
    assert_eq!(back.level, entry.level);
    assert_eq!(back.message, entry.message);
}

#[test]
fn log_entry_exact_wire_text() {
    let entry = LogEntry {
        timestamp: String::from("t"),
        level: String::from("info"),
        message: String::from("ok"),
    };
    let json = encode_log_entry(&entry);
    assert_eq!(
        json,
        "{\"timestamp\":\"t\",\"level\":\"info\",\"message\":\"ok\"}"
    );
}

#[test]
fn malformed_wire_text_is_rejected() {
    assert!(decode_server_status("").is_none());
    assert!(decode_server_status("{}").is_none());
    assert!(decode_server_status("{\"running\":maybe,\"port\":1,").is_none());
    let good = "{\"running\":true,\"port\":3001,\"pid\":null,\"health_url\":\"u\",\"external\":false}";
    assert!(decode_server_status(good).is_some());
    // trailing garbage is not accepted
    let mut with_tail = String::from(good);
    with_tail.push(' ');
    assert!(decode_server_status(&with_tail).is_none());
    // a port beyond 16 bits is not accepted
    let big_port = "{\"running\":true,\"port\":70000,\"pid\":null,\"health_url\":\"u\",\"external\":false}";
    assert!(decode_server_status(big_port).is_none());
    assert!(decode_log_entry("{\"timestamp\":\"t\"}").is_none());
    assert!(decode_network_info("{\"ip\":\"x\",\"port\":-1}").is_none());
}
