use companion_supervisor::prober::{parse_pid_text, scan_listing_for_pid};
use companion_supervisor::status::health_url_for;

#[test]
fn pid_text_reads_a_trimmed_number() {
    assert_eq!(parse_pid_text("123"), Some(123));
    assert_eq!(parse_pid_text("  123\n"), Some(123));
    assert_eq!(parse_pid_text("\t+42\r\n"), Some(42));
    assert_eq!(parse_pid_text("4294967295"), Some(u32::MAX));
}

#[test]
fn pid_text_degrades_to_none() {
    assert_eq!(parse_pid_text(""), None);
    assert_eq!(parse_pid_text("   \n"), None);
    assert_eq!(parse_pid_text("12a"), None);
    assert_eq!(parse_pid_text("123\n456\n"), None);
    assert_eq!(parse_pid_text("4294967296"), None);
    assert_eq!(parse_pid_text("99999999999999999999999"), None);
    assert_eq!(parse_pid_text("-5"), None);
}

#[test]
fn listing_scan_finds_the_listening_line() {
    let listing = "\
  Proto  Local Address          Foreign Address        State           PID\r\n\
  TCP    0.0.0.0:135            0.0.0.0:0              LISTENING       1032\r\n\
  TCP    0.0.0.0:3001           0.0.0.0:0              LISTENING       4321\r\n\
  TCP    127.0.0.1:3001         127.0.0.1:5000         ESTABLISHED     4321\r\n";
    assert_eq!(scan_listing_for_pid(listing, 3001), Some(4321));
    assert_eq!(scan_listing_for_pid(listing, 135), Some(1032));
    assert_eq!(scan_listing_for_pid(listing, 9999), None);
}

#[test]
fn listing_scan_stops_at_the_first_match() {
    let listing = "\
  TCP    0.0.0.0:3001    0.0.0.0:0    LISTENING    111\n\
  TCP    0.0.0.0:3001    0.0.0.0:0    LISTENING    222\n";
    assert_eq!(scan_listing_for_pid(listing, 3001), Some(111));
}

#[test]
fn listing_scan_degrades_to_none() {
    assert_eq!(scan_listing_for_pid("", 3001), None);
    assert_eq!(scan_listing_for_pid("garbage\nmore garbage\n", 3001), None);
    // a matching line whose trailing token is no number yields nothing
    let bad = "  TCP  0.0.0.0:3001  0.0.0.0:0  LISTENING  pid?\n";
    assert_eq!(scan_listing_for_pid(bad, 3001), None);
}

#[test]
fn health_url_is_derived_from_the_port() {
    assert_eq!(health_url_for(3001), "http://localhost:3001/health");
    assert_eq!(health_url_for(0), "http://localhost:0/health");
    assert_eq!(health_url_for(65535), "http://localhost:65535/health");
}
