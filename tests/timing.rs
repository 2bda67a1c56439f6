use golinks::config::AppConfig;
use golinks::models::{Moment, RequestTimer, StatusMessage, TimerStart};
use golinks::utils::format_duration;

#[test]
fn seconds_unit() {
    assert_eq!(format_duration(1, 500_000_000), "1.500 s");
}

#[test]
fn milliseconds_unit() {
    assert_eq!(format_duration(0, 1_500_000), "1.500 ms");
}

#[test]
fn microseconds_unit() {
    assert_eq!(format_duration(0, 150_000), "150.0 μs");
}

#[test]
fn fraction_is_not_zero_padded() {
    assert_eq!(format_duration(2, 50_000_000), "2.50 s");
    assert_eq!(format_duration(0, 7_089), "7.89 μs");
    assert_eq!(format_duration(0, 0), "0.0 μs");
}

#[test]
fn test_profiling() {
    let start = TimerStart(Some(Moment { secs: 100, nanos: 999_950_000 }));
    let end = Moment { secs: 101, nanos: 150_000 };
    let header = start.elapsed_text(end);
    assert!(header.is_some());
    assert_eq!(header.unwrap(), "200.0 μs");
}

#[test]
fn missing_start_gives_no_header() {
    let end = Moment { secs: 5, nanos: 0 };
    assert_eq!(TimerStart(None).elapsed_text(end), None);
}

#[test]
fn clock_going_backwards_gives_no_header() {
    let start = TimerStart(Some(Moment { secs: 5, nanos: 10 }));
    assert_eq!(start.elapsed_text(Moment { secs: 5, nanos: 9 }), None);
    assert_eq!(
        start.elapsed_text(Moment { secs: 5, nanos: 10 }),
        Some("0.0 μs".to_string())
    );
}

#[test]
fn log_line_layout() {
    let timer = RequestTimer::new(&AppConfig::default());
    let line = timer.log_line("T", "GET", "1.500 ms", 200, "/heartbeat");
    assert_eq!(line, "T |   GET   |     1.500 ms | 200 | \"/heartbeat\"");
    let line = timer.log_line("T", "DELETE", "1.5 s", 404, "/x");
    assert_eq!(line, "T | DELETE  |        1.5 s | 404 | \"/x\"");
}

#[test]
fn timer_takes_the_configured_format() {
    let mut configs = AppConfig::default();
    configs.enable_profiling(true);
    let timer = RequestTimer::new(&configs);
    assert_eq!(timer.date_format(), "");
}

#[test]
fn test_heartbeat() {
    let message = StatusMessage::heartbeat();
    assert_eq!(message.status, "ok");
    assert_eq!(message.message, "The server is running");
}

#[test]
fn not_found_message() {
    let message = StatusMessage::not_found("/not-found");
    assert_eq!(message.status, "error");
    assert_eq!(message.message, "'/not-found' is not a known link.");
}
