use ssh_router::log::{format_log_entry, log_entry, MAX_LOG_SECS};

#[test]
fn log_entry_format() {
    assert_eq!(
        format_log_entry("2026-07-08 12:00:00.000", "port: 2222"),
        "2026-07-08 12:00:00.000 port: 2222\n"
    );
}

#[test]
fn log_entry_at_epoch() {
    assert_eq!(
        log_entry(0, 0, "ssh-router-cli starting"),
        Some("1970-01-01 00:00:00.000 ssh-router-cli starting\n".to_string())
    );
}

#[test]
fn log_entry_keeps_milliseconds() {
    // 2026-07-08 12:00:00 UTC is 1783512000 seconds after the epoch.
    assert_eq!(
        log_entry(1_783_512_000, 123_456_789, "port: 2222"),
        Some("2026-07-08 12:00:00.123 port: 2222\n".to_string())
    );
}

#[test]
fn log_entry_at_the_last_second_of_9999() {
    assert_eq!(
        log_entry(MAX_LOG_SECS, 999_000_000, "x"),
        Some("9999-12-31 23:59:59.999 x\n".to_string())
    );
}

#[test]
fn log_entry_out_of_range_time_is_none() {
    assert_eq!(log_entry(i64::MAX, 0, "x"), None);
    assert_eq!(log_entry(0, 2_000_000_000, "x"), None);
}

#[test]
fn log_entry_has_the_documented_shape() {
    let e = log_entry(1_000_000_000, 5_000_000, "msg").unwrap();
    assert!(e.ends_with(" msg\n"));
    let b = e.as_bytes();
    assert_eq!((b[4], b[7], b[10], b[13], b[16], b[19]), (b'-', b'-', b' ', b':', b':', b'.'));
    assert_eq!(&e[..23], "2001-09-09 01:46:40.005");
}
