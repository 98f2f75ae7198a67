use shadow_core::log_queue::LogQueue;
use shadow_core::logger::{
    flush_after_log, host_identity, level_enabled, writer_step, FlushRequest, LogLevel,
    ShadowLogRecord, TimeParts, WriterEvent, ASYNC_FLUSH_QD_LINES_THRESHOLD,
    SYNC_FLUSH_QD_LINES_THRESHOLD,
};
use shadow_core::host::Host;
use std::time::Duration;

fn record(msg: &str) -> ShadowLogRecord {
    ShadowLogRecord {
        level: LogLevel::Info,
        file: Some("foo/bar.rs".to_string()),
        module: Some("m".to_string()),
        line: Some(12),
        message: msg.to_string(),
        wall_time_micros: 1_500_000,
        sim_time_nanos: Some(500_000),
        thread_id: Some(7),
        host_name: Some("srv~10.0.0.1".to_string()),
    }
}

#[test]
fn test_time_parts() {
    assert_eq!(
        TimeParts::from_nanos(
            (Duration::from_nanos(1) + Duration::from_secs(3600 + 60 + 1)).as_nanos()
        ),
        TimeParts {
            hours: 1,
            mins: 1,
            secs: 1,
            nanos: 1
        }
    );
}

#[test]
fn time_parts_recompose() {
    let n: u128 = 123 * 3_600_000_000_000 + 59 * 60_000_000_000 + 58 * 1_000_000_000 + 999_999_999;
    let p = TimeParts::from_nanos(n);
    assert_eq!(p, TimeParts { hours: 123, mins: 59, secs: 58, nanos: 999_999_999 });
    let back = p.hours as u128 * 3_600_000_000_000
        + p.mins as u128 * 60_000_000_000
        + p.secs as u128 * 1_000_000_000
        + p.nanos as u128;
    assert_eq!(back, n);
    assert_eq!(TimeParts::from_nanos(0), TimeParts { hours: 0, mins: 0, secs: 0, nanos: 0 });
}

#[test]
fn record_line_format() {
    assert_eq!(
        record("hi").to_line(),
        "00:00:01.500000 [thread-7] 00:00:00.000500000 [INFO] [srv~10.0.0.1] [bar.rs:12] [m] hi\n"
    );
}

#[test]
fn record_line_missing_fields() {
    let r = ShadowLogRecord {
        level: LogLevel::Error,
        file: Some("main.rs".to_string()),
        module: None,
        line: None,
        message: "boom".to_string(),
        wall_time_micros: 3_723_000_001,
        sim_time_nanos: None,
        thread_id: None,
        host_name: None,
    };
    assert_eq!(r.to_line(), "01:02:03.000001 [n/a] n/a [ERROR] [n/a] [main.rs:n/a] [n/a] boom\n");
    let r2 = ShadowLogRecord { file: None, thread_id: Some(-3), ..r };
    assert_eq!(r2.to_line(), "01:02:03.000001 [thread--3] n/a [ERROR] [n/a] [n/a:n/a] [n/a] boom\n");
}

#[test]
fn record_line_long_hours_and_trailing_slash() {
    let r = ShadowLogRecord {
        file: Some("a/b/".to_string()),
        wall_time_micros: 360_000_000_000,
        sim_time_nanos: Some(3_600_000_000_000 * 100 + 5),
        ..record("x")
    };
    assert_eq!(
        r.to_line(),
        "100:00:00.000000 [thread-7] 100:00:00.000000005 [INFO] [srv~10.0.0.1] [:12] [m] x\n"
    );
}

#[test]
fn flush_policy_thresholds() {
    assert_eq!(SYNC_FLUSH_QD_LINES_THRESHOLD, 1_000_000);
    assert_eq!(flush_after_log(LogLevel::Info, 1, true), FlushRequest::NoFlush);
    assert_eq!(flush_after_log(LogLevel::Info, 100_000, true), FlushRequest::NoFlush);
    assert_eq!(flush_after_log(LogLevel::Info, 100_001, true), FlushRequest::Async);
    assert_eq!(flush_after_log(LogLevel::Info, 1_000_000, true), FlushRequest::Async);
    assert_eq!(flush_after_log(LogLevel::Info, 1_000_001, true), FlushRequest::Sync);
    assert_eq!(flush_after_log(LogLevel::Error, 1, true), FlushRequest::Sync);
    assert_eq!(flush_after_log(LogLevel::Trace, ASYNC_FLUSH_QD_LINES_THRESHOLD + 1, false), FlushRequest::Async);
}

#[test]
fn unbuffered_record_triggers_async_flush() {
    assert_eq!(flush_after_log(LogLevel::Info, 1, false), FlushRequest::Async);
    let mut q = LogQueue::new();
    q.push(record("one"));
    let (lines, notify) = writer_step(&mut q, WriterEvent::Flush { notify: false }).unwrap();
    assert!(!notify);
    assert_eq!(lines, record("one").to_line());
    assert_eq!(q.len(), 0);
}

#[test]
fn level_filter() {
    assert!(level_enabled(LogLevel::Error, 1));
    assert!(!level_enabled(LogLevel::Warn, 1));
    assert!(level_enabled(LogLevel::Trace, 5));
    assert!(!level_enabled(LogLevel::Error, 0));
    assert_eq!(LogLevel::Warn.name(), "WARN");
}

#[test]
fn drain_exactly_the_sampled_records() {
    let mut q = LogQueue::new();
    for i in 0..5 {
        q.push(record(&format!("r{}", i)));
    }
    let n = q.len();
    assert_eq!(n, 5);
    // more records arrive after the count was taken
    q.push(record("late1"));
    q.push(record("late2"));
    let out = q.flush_records(n);
    assert_eq!(out.lines().count(), 5);
    assert!(out.ends_with("] r4\n"));
    assert_eq!(q.len(), 2);
    let rest = q.drain();
    assert_eq!(rest, format!("{}{}", record("late1").to_line(), record("late2").to_line()));
    assert_eq!(q.len(), 0);
    assert_eq!(q.drain(), "");
}

#[test]
fn drain_keeps_queue_order() {
    let mut q = LogQueue::new();
    let mut expected = String::new();
    for i in 0..200 {
        let r = record(&format!("msg {}", i));
        expected.push_str(&r.to_line());
        q.push(r);
    }
    let out = q.drain();
    assert_eq!(out, expected);
    let pos_a = out.find("msg 10\n").unwrap();
    let pos_b = out.find("msg 11\n").unwrap();
    assert!(pos_a < pos_b);
}

#[test]
fn writer_events() {
    let mut q = LogQueue::new();
    q.push(record("a"));
    let (lines, notify) = writer_step(&mut q, WriterEvent::Flush { notify: true }).unwrap();
    assert!(notify);
    assert!(lines.ends_with("] a\n"));
    q.push(record("b"));
    let (lines, notify) = writer_step(&mut q, WriterEvent::Timeout).unwrap();
    assert!(!notify);
    assert!(lines.ends_with("] b\n"));
    q.push(record("c"));
    assert!(writer_step(&mut q, WriterEvent::Disconnected).is_none());
    assert_eq!(q.len(), 1);
}

#[test]
fn host_identity_format() {
    let h = Host::new(3, "srv".to_string(), [10, 0, 0, 1]);
    assert_eq!(host_identity(&h), "srv~10.0.0.1");
    let h = Host::new(4, "peer".to_string(), [255, 255, 0, 200]);
    assert_eq!(host_identity(&h), "peer~255.255.0.200");
}

#[test]
fn times_fit_check() {
    assert!(record("x").times_fit());
    let r = ShadowLogRecord { wall_time_micros: u64::MAX, ..record("x") };
    assert!(!r.times_fit());
}
