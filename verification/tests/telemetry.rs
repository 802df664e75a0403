use scuffle::bootstrap::{runtime_settings, RuntimeSettings};
use scuffle::parse::{parse_bool, parse_int, IntErrorKind};
use scuffle::telemetry::{
    flush_status, health_status, metrics_status, pprof_params, pprof_status, telemetry_route, PprofParamError,
    TelemetryEndpoint,
};

#[test]
fn test_parse_int_like_str_parse() {
    assert_eq!(parse_int(b"123", 0, u64::MAX as i128), Ok(123));
    assert_eq!(parse_int(b"+7", 0, 10), Ok(7));
    assert_eq!(parse_int(b"", 0, 10), Err(IntErrorKind::Empty));
    assert_eq!(parse_int(b"+", 0, 10), Err(IntErrorKind::InvalidDigit));
    assert_eq!(parse_int(b"-", -10, 10), Err(IntErrorKind::InvalidDigit));
    assert_eq!(parse_int(b"-5", 0, 10), Err(IntErrorKind::InvalidDigit));
    assert_eq!(parse_int(b"-5", -10, 10), Ok(-5));
    assert_eq!(parse_int(b"11", 0, 10), Err(IntErrorKind::PosOverflow));
    assert_eq!(parse_int(b"-11", -10, 10), Err(IntErrorKind::NegOverflow));
    assert_eq!(parse_int(b"99x", 0, 10), Err(IntErrorKind::PosOverflow));
    assert_eq!(parse_int(b"1x9", 0, 10), Err(IntErrorKind::InvalidDigit));
    assert_eq!(parse_int(b"-2147483648", i32::MIN as i128, i32::MAX as i128), Ok(-2147483648));
    for text in ["0", "42", "+8", "", "-1", "x", "4294967296", "4294967295"] {
        let expected = text.parse::<u32>().ok().map(|v| v as i128);
        assert_eq!(parse_int(text.as_bytes(), 0, u32::MAX as i128).ok(), expected, "{text}");
    }
    assert_eq!(parse_bool(b"true"), Some(true));
    assert_eq!(parse_bool(b"false"), Some(false));
    assert_eq!(parse_bool(b"TRUE"), None);
}

#[test]
fn test_telemetry_route() {
    assert_eq!(telemetry_route("/health"), TelemetryEndpoint::Health);
    assert_eq!(telemetry_route("/metrics"), TelemetryEndpoint::Metrics);
    assert_eq!(telemetry_route("/pprof/cpu"), TelemetryEndpoint::PprofCpu);
    assert_eq!(telemetry_route("/opentelemetry/flush"), TelemetryEndpoint::OpentelemetryFlush);
    assert_eq!(telemetry_route("/"), TelemetryEndpoint::NotFound);
    assert_eq!(telemetry_route("/health/"), TelemetryEndpoint::NotFound);
}

#[test]
fn test_telemetry_statuses() {
    assert_eq!(health_status(true), 200);
    assert_eq!(health_status(false), 500);
    assert_eq!(metrics_status(false, true), 404);
    assert_eq!(metrics_status(true, false), 500);
    assert_eq!(metrics_status(true, true), 200);
    assert_eq!(pprof_status(false, true), 400);
    assert_eq!(pprof_status(true, true), 200);
    assert_eq!(pprof_status(true, false), 500);
    assert_eq!(flush_status(false, true, true), 404);
    assert_eq!(flush_status(true, false, false), 200);
    assert_eq!(flush_status(true, true, true), 200);
    assert_eq!(flush_status(true, true, false), 500);
}

fn pairs(list: &[(&str, &str)]) -> Vec<(String, String)> {
    list.iter().map(|(k, v)| (k.to_string(), v.to_string())).collect()
}

#[test]
fn test_pprof_params() {
    let p = pprof_params(&pairs(&[])).unwrap();
    assert_eq!((p.freq, p.duration_secs, p.ignore.len()), (100, 5, 0));

    let p = pprof_params(&pairs(&[("freq", "50"), ("ignore", "a"), ("other", "x"), ("duration", "2"), ("ignore", "b"), ("freq", "7")]))
        .unwrap();
    assert_eq!(p.freq, 7);
    assert_eq!(p.duration_secs, 2);
    assert_eq!(p.ignore, vec!["a".to_string(), "b".to_string()]);

    let err = pprof_params(&pairs(&[("freq", "abc"), ("duration", "")])).unwrap_err();
    assert_eq!(err, PprofParamError::InvalidFreq(IntErrorKind::InvalidDigit));
    assert_eq!(err.message(), format!("invalid freq: {}", "abc".parse::<i32>().unwrap_err()));

    let err = pprof_params(&pairs(&[("duration", "")])).unwrap_err();
    assert_eq!(err.message(), format!("invalid duration: {}", "".parse::<u64>().unwrap_err()));
    let err = pprof_params(&pairs(&[("duration", "-1")])).unwrap_err();
    assert_eq!(err.message(), format!("invalid duration: {}", "-1".parse::<u64>().unwrap_err()));
    let err = pprof_params(&pairs(&[("freq", "99999999999")])).unwrap_err();
    assert_eq!(err.message(), format!("invalid freq: {}", "99999999999".parse::<i32>().unwrap_err()));
    let err = pprof_params(&pairs(&[("freq", "-99999999999")])).unwrap_err();
    assert_eq!(err.message(), format!("invalid freq: {}", "-99999999999".parse::<i32>().unwrap_err()));
}

#[test]
fn test_runtime_settings() {
    let s = runtime_settings("", Some(8), "", "", "", "", "", "", "");
    assert_eq!(
        s,
        RuntimeSettings {
            current_thread: false,
            worker_threads: Some(8),
            max_blocking_threads: None,
            enable_time: true,
            enable_io: true,
            thread_stack_size: None,
            global_queue_interval: None,
            event_interval: None,
            max_io_events_per_tick: None,
        }
    );
    let s = runtime_settings("1", Some(8), "16", "true", "false", "4096", "31", "61", "1024");
    assert_eq!(
        s,
        RuntimeSettings {
            current_thread: true,
            worker_threads: Some(1),
            max_blocking_threads: Some(16),
            enable_time: false,
            enable_io: true,
            thread_stack_size: Some(4096),
            global_queue_interval: Some(31),
            event_interval: Some(61),
            max_io_events_per_tick: Some(1024),
        }
    );
    let s = runtime_settings("many", None, "x", "yes", "true", "-1", "", "", "");
    assert!(!s.current_thread);
    assert_eq!(s.worker_threads, None);
    assert_eq!(s.max_blocking_threads, None);
    assert!(s.enable_time);
    assert!(!s.enable_io);
    assert_eq!(s.thread_stack_size, None);
}
