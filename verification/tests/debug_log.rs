use client_rust::base::debug::{
    debug_err_log, debug_log, debug_log_limited, format_log_line, format_log_line_at,
    is_debug_enabled, set_debug_enabled, DebugLog,
};

const MILLI: u64 = 1_000_000;

#[test]
fn log_is_silent_until_it_is_turned_on() {
    let mut log = DebugLog::new();
    assert!(!is_debug_enabled(&log));
    assert!(debug_log(&log, "ws", "text").is_none());
    assert!(debug_err_log(&log, "ws", "text").is_none());
    assert!(debug_log_limited(&mut log, "ws", "key", 100 * MILLI as u128, 0, "text").is_none());
    set_debug_enabled(&mut log, true);
    assert!(is_debug_enabled(&log));
    assert!(debug_log(&log, "ws", "text").unwrap().ends_with("] [ws] text"));
    assert!(debug_err_log(&log, "ws", "text").unwrap().ends_with("] [ws] text"));
    // What was asked while the log was off is not remembered.
    assert_eq!(
        debug_log_limited(&mut log, "ws", "key", 100 * MILLI as u128, 0, "text"),
        Some("text".to_string())
    );
}

#[test]
fn line_has_time_component_and_message() {
    assert_eq!(
        format_log_line_at("2026-03-05 09:04:59", 123, "component", "message"),
        "[2026-03-05 09:04:59:123] [component] message"
    );
    assert_eq!(format_log_line_at("t", 0, "c", "m"), "[t:000] [c] m");
    assert_eq!(format_log_line_at("t", 7, "c", "m"), "[t:007] [c] m");
    assert_eq!(format_log_line_at("t", 42, "c", "m"), "[t:042] [c] m");
    assert_eq!(format_log_line_at("t", 1999, "c", "m"), "[t:1999] [c] m");
}

#[test]
fn line_of_this_moment_has_the_date() {
    let line = format_log_line("router", "started");
    let bytes = line.as_bytes();
    assert!(line.ends_with("] [router] started"));
    assert_eq!(bytes[0], b'[');
    assert_eq!(bytes[5], b'-');
    assert_eq!(bytes[8], b'-');
    assert_eq!(bytes[11], b' ');
    assert_eq!(bytes[14], b':');
    assert_eq!(bytes[17], b':');
    assert_eq!(bytes[20], b':');
    assert!(line[1..5].parse::<u32>().unwrap() >= 2020);
}

#[test]
fn repeated_message_is_held_back_and_counted() {
    let mut log = DebugLog::new();
    set_debug_enabled(&mut log, true);
    let mut say = |now: u64, text: &str| {
        debug_log_limited(&mut log, "audio-player", "enqueue", 1000 * MILLI as u128, now * MILLI, text)
    };
    assert_eq!(say(5, "a"), Some("a".to_string()));
    assert_eq!(say(6, "b"), None);
    assert_eq!(say(1004, "c"), None);
    assert_eq!(
        say(1005, "d"),
        Some("d (suppressed 2 similar logs in last 1000 ms)".to_string())
    );
    assert_eq!(say(1006, "e"), None);
    assert_eq!(
        say(2005, "f"),
        Some("f (suppressed 1 similar logs in last 1000 ms)".to_string())
    );
    assert_eq!(say(3005, "g"), Some("g".to_string()));
}

#[test]
fn limits_are_kept_apart_by_component_and_key() {
    let mut log = DebugLog::new();
    set_debug_enabled(&mut log, true);
    assert!(debug_log_limited(&mut log, "a", "k", 1000 * MILLI as u128, 0, "m").is_some());
    assert!(debug_log_limited(&mut log, "a", "l", 1000 * MILLI as u128, 0, "m").is_some());
    assert!(debug_log_limited(&mut log, "b", "k", 1000 * MILLI as u128, 0, "m").is_some());
    assert!(debug_log_limited(&mut log, "a", "k", 1000 * MILLI as u128, 1, "m").is_none());
    assert!(debug_log_limited(&mut log, "a", "l", 0, 1, "m").is_some());
}

#[test]
fn limits_are_kept_by_the_pair() {
    let mut log = DebugLog::new();
    set_debug_enabled(&mut log, true);
    let minute = 60_000 * MILLI as u128;
    assert_eq!(debug_log_limited(&mut log, "a:b", "c", minute, 0, "x"), Some("x".to_string()));
    assert_eq!(debug_log_limited(&mut log, "a", "b:c", minute, 1, "y"), Some("y".to_string()));
    assert_eq!(debug_log_limited(&mut log, "a:b", "c", minute, 2, "x"), None);
}

#[test]
fn interval_may_be_shorter_than_a_millisecond() {
    let mut log = DebugLog::new();
    set_debug_enabled(&mut log, true);
    let mut say = |now| debug_log_limited(&mut log, "a", "k", 500, now, "m");
    assert_eq!(say(0), Some("m".to_string()));
    assert_eq!(say(499), None);
    assert_eq!(say(500), Some("m (suppressed 1 similar logs in last 0 ms)".to_string()));
}
