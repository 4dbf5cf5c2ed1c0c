//! The log: what it keeps, conceals, delivers and exports.

use model_launcher::launcher::log::{
    EngineLogFramer, LogFilter, LogLevel, LogRecord, LogSource, LogStore, LogStoreLimits, MAX_ENGINE_LOG_LINE_BYTES,
};
use model_launcher::launcher::model::ModelId;
use model_launcher::launcher::redaction::{authorization_colon, redact, redact_authorization_headers};

fn model_id() -> ModelId {
    ModelId::parse("00000000-0000-0000-0000-000000000007").unwrap()
}

fn record(timestamp_ms: u64, message: &str) -> LogRecord {
    LogRecord {
        timestamp_ms,
        source: LogSource::Application,
        level: LogLevel::Info,
        generation: Some(3),
        model_id: Some(model_id()),
        message: message.to_owned(),
        truncated: false,
    }
}

#[test]
fn records_keep_all_structured_fields() {
    let mut store = LogStore::new(LogStoreLimits::new(4, 1_024, 4)).unwrap();

    store.append(record(1_725_000_123_456, "ready"));

    assert_eq!(store.snapshot(), vec![record(1_725_000_123_456, "ready")]);
}

#[test]
fn retention_enforces_record_and_utf8_byte_limits() {
    let mut by_count = LogStore::new(LogStoreLimits::new(2, 1_024, 4)).unwrap();
    by_count.append(record(1, "one"));
    by_count.append(record(2, "two"));
    by_count.append(record(3, "three"));
    assert_eq!(
        by_count
            .snapshot()
            .iter()
            .map(|record| record.message.as_str())
            .collect::<Vec<_>>(),
        ["two", "three"]
    );

    let mut by_bytes = LogStore::new(LogStoreLimits::new(10, 5, 4)).unwrap();
    by_bytes.append(record(1, "abc"));
    by_bytes.append(record(2, "éé"));
    assert_eq!(by_bytes.snapshot(), vec![record(2, "éé")]);
}

#[test]
fn filters_use_typed_source_and_minimum_level() {
    let mut store = LogStore::new(LogStoreLimits::new(8, 1_024, 4)).unwrap();
    store.append(record(1, "app info"));
    store.append(LogRecord {
        timestamp_ms: 2,
        source: LogSource::EngineStderr,
        level: LogLevel::Error,
        generation: Some(4),
        model_id: None,
        message: "engine error".into(),
        truncated: false,
    });

    let filtered = store.filtered_snapshot(LogFilter {
        source: Some(LogSource::EngineStderr),
        minimum_level: Some(LogLevel::Warn),
    });

    assert_eq!(filtered.len(), 1);
    assert_eq!(filtered[0].message, "engine error");
}

#[test]
fn export_is_stable_json_lines_in_snapshot_order() {
    let mut store = LogStore::new(LogStoreLimits::new(4, 1_024, 4)).unwrap();
    store.append(record(2, "second"));
    store.append(record(1, "first"));

    assert_eq!(
        store.export_json_lines(),
        "{\"timestamp_ms\":2,\"source\":\"application\",\"level\":\"info\",\"generation\":3,\"model_id\":\"00000000-0000-0000-0000-000000000007\",\"message\":\"second\",\"truncated\":false}\n\
{\"timestamp_ms\":1,\"source\":\"application\",\"level\":\"info\",\"generation\":3,\"model_id\":\"00000000-0000-0000-0000-000000000007\",\"message\":\"first\",\"truncated\":false}\n"
    );
}

#[test]
fn authorization_and_bearer_secrets_are_redacted_before_storage_and_broadcast() {
    let mut store = LogStore::new(LogStoreLimits::new(8, 4_096, 4)).unwrap();
    let mut subscriber = store.subscribe();
    let secret = "super-secret-token";
    store.append(record(
        1,
        &format!(
            "Authorization : Bearer {secret}\r\naUtHoRiZaTiOn:\tBasic abc123 request Bearer loose-token"
        ),
    ));

    let broadcast = subscriber.try_recv(&mut store).expect("broadcast record");
    let snapshot = store.snapshot();
    let export = store.export_json_lines();
    let combined = format!("{broadcast:?}{snapshot:?}{export}");

    assert!(!combined.contains(secret));
    assert!(!combined.contains("abc123"));
    assert!(!combined.contains("loose-token"));
    assert!(
        snapshot[0]
            .message
            .contains("Authorization : Bearer [REDACTED]")
    );
}

#[test]
fn bounded_broadcast_reports_lagged_record_count() {
    let mut store = LogStore::new(LogStoreLimits::new(8, 1_024, 2)).unwrap();
    let mut subscriber = store.subscribe();
    for timestamp in 0..5 {
        store.append(record(timestamp, "event"));
    }

    assert_eq!(subscriber.try_recv(&mut store).unwrap_err().lagged(), Some(3));
}

#[test]
fn engine_bytes_frame_crlf_split_chunks_lossy_utf8_and_eof_partial() {
    let mut store = LogStore::new(LogStoreLimits::new(16, 4_096, 4)).unwrap();
    let mut stdout = EngineLogFramer::new(
        LogSource::EngineStdout,
        LogLevel::Info,
        Some(9),
        Some(model_id()),
        64,
    )
    .unwrap();
    stdout.push(&mut store, 10, b"hel");
    stdout.push(&mut store, 11, b"lo\r\nworld\nlossy:\xff");
    stdout.finish(&mut store, 12);

    let records = store.snapshot();
    assert_eq!(
        records
            .iter()
            .map(|record| record.message.as_str())
            .collect::<Vec<_>>(),
        ["hello", "world", "lossy:\u{fffd}"]
    );
    assert!(
        records
            .iter()
            .all(|record| record.source == LogSource::EngineStdout)
    );
    assert_eq!(records[0].timestamp_ms, 11);
    assert_eq!(records[2].timestamp_ms, 12);
}

#[test]
fn oversized_lines_are_truncated_and_framing_continues_with_bounded_pending_data() {
    let mut store = LogStore::new(LogStoreLimits::new(16, 4_096, 4)).unwrap();
    let mut stderr = EngineLogFramer::new(
        LogSource::EngineStderr,
        LogLevel::Error,
        None,
        None,
        5,
    )
    .unwrap();

    stderr.push(&mut store, 1, b"abcdefghij");
    assert!(stderr.pending_len() <= 5);
    stderr.push(&mut store, 2, b"kl\nok\n");

    let records = store.snapshot();
    assert_eq!(records[0].message, "abcde");
    assert!(records[0].truncated);
    assert_eq!(records[1].message, "ok");
    assert!(!records[1].truncated);
}

#[test]
fn limits_that_leave_no_room() {
    let error = LogStore::new(LogStoreLimits::new(1, 1, 0)).err().unwrap();
    assert_eq!(error.to_string(), "invalid log limit: broadcast_capacity");
    let mut none = LogStore::new(LogStoreLimits::new(0, 1_024, 1)).unwrap();
    none.append(record(1, "lost"));
    assert!(none.snapshot().is_empty());
    for most in [0, MAX_ENGINE_LOG_LINE_BYTES + 1] {
        let framer = EngineLogFramer::new(LogSource::EngineStdout, LogLevel::Info, None, None, most);
        assert_eq!(framer.err().unwrap().code(), "invalid_log_limit");
    }
}

#[test]
fn lost_records_are_counted_and_the_rest_still_come() {
    let mut store = LogStore::new(LogStoreLimits::new(8, 1_024, 2)).unwrap();
    let mut subscriber = store.subscribe();
    assert!(subscriber.try_recv(&mut store).is_err());
    for timestamp in 0..5 {
        store.append(record(timestamp, "event"));
    }
    assert_eq!(subscriber.try_recv(&mut store).unwrap_err().lagged(), Some(3));
    assert_eq!(subscriber.local_delivery_drops(), 3);
    assert_eq!(store.total_delivery_drops(), 3);
    assert_eq!(subscriber.try_recv(&mut store).unwrap().timestamp_ms, 3);
    assert_eq!(subscriber.try_recv(&mut store).unwrap().timestamp_ms, 4);
    assert_eq!(subscriber.try_recv(&mut store).unwrap_err().lagged(), None);
}

#[test]
fn a_channel_keeps_a_power_of_two_of_records_for_each_subscriber() {
    let mut store = LogStore::new(LogStoreLimits::new(8, 1_024, 3)).unwrap();
    store.append(record(0, "before"));
    let mut early = store.subscribe();
    for timestamp in 1..5 {
        store.append(record(timestamp, "event"));
    }
    let mut late = store.subscribe();
    assert_eq!(early.try_recv(&mut store).unwrap().timestamp_ms, 1);
    assert!(late.try_recv(&mut store).is_err());
    store.append(record(5, "event"));
    store.append(record(6, "event"));
    assert_eq!(early.try_recv(&mut store).unwrap_err().lagged(), Some(1));
    assert_eq!(early.try_recv(&mut store).unwrap().timestamp_ms, 3);
    assert_eq!(late.try_recv(&mut store).unwrap().timestamp_ms, 5);
    assert_eq!(store.total_delivery_drops(), 2);
}

#[test]
fn framed_lines_reach_the_subscribers() {
    let mut store = LogStore::new(LogStoreLimits::new(8, 1_024, 8)).unwrap();
    let mut framer = EngineLogFramer::new(LogSource::EngineStdout, LogLevel::Info, None, None, 64).unwrap();
    framer.push(&mut store, 1, b"unheard\n");
    assert_eq!(store.total_delivery_drops(), 1);
    let mut subscriber = store.subscribe();
    framer.push(&mut store, 2, b"one\ntwo\nthr");
    framer.finish(&mut store, 3);
    for (timestamp, line) in [(2, "one"), (2, "two"), (3, "thr")] {
        let record = subscriber.try_recv(&mut store).unwrap();
        assert_eq!((record.timestamp_ms, record.message.as_str()), (timestamp, line));
    }
    assert!(subscriber.try_recv(&mut store).is_err());
    assert_eq!(store.total_delivery_drops(), 1);
}

#[test]
fn a_subscriber_at_hand_receives_what_is_logged() {
    let mut store = LogStore::new(LogStoreLimits::new(8, 1_024, 8)).unwrap();
    let mut framer = EngineLogFramer::new(LogSource::EngineStdout, LogLevel::Info, None, None, 64).unwrap();
    let mut subscriber = store.subscribe();
    store.append_for(record(1, "event"), &subscriber);
    framer.push_for(&mut store, 2, b"one\ntw", &subscriber);
    framer.finish_for(&mut store, 3, &subscriber);
    for (timestamp, line) in [(1, "event"), (2, "one"), (3, "tw")] {
        let record = subscriber.try_recv(&mut store).unwrap();
        assert_eq!((record.timestamp_ms, record.message.as_str()), (timestamp, line));
    }
    assert!(subscriber.try_recv(&mut store).is_err());
    assert_eq!(store.total_delivery_drops(), 0);
}

#[test]
fn exported_texts_are_escaped() {
    let mut store = LogStore::new(LogStoreLimits::new(4, 1_024, 4)).unwrap();
    store.append(LogRecord {
        timestamp_ms: 1,
        source: LogSource::EngineStderr,
        level: LogLevel::Warn,
        generation: None,
        model_id: None,
        message: "say \"hi\"\t\u{e9}".to_owned(),
        truncated: true,
    });
    assert_eq!(
        store.export_json_lines(),
        "{\"timestamp_ms\":1,\"source\":\"engine_stderr\",\"level\":\"warn\",\"generation\":null,\
\"model_id\":null,\"message\":\"say \\\"hi\\\"\\t\u{e9}\",\"truncated\":true}\n"
    );
}

#[test]
fn chunks_of_engine_output_do_not_matter() {
    let bytes = b"one\r\ntwo\rthree\nfour";
    let mut messages: Vec<Vec<String>> = Vec::new();
    for size in 1..bytes.len() {
        let mut store = LogStore::new(LogStoreLimits::new(16, 4_096, 4)).unwrap();
        let mut framer = EngineLogFramer::new(LogSource::EngineStdout, LogLevel::Info, None, None, 64).unwrap();
        for chunk in bytes.chunks(size) {
            framer.push(&mut store, 1, chunk);
        }
        framer.finish(&mut store, 1);
        messages.push(store.snapshot().into_iter().map(|record| record.message).collect());
    }
    for other in &messages {
        assert_eq!(other, &messages[0]);
    }
    assert_eq!(messages[0].last().unwrap(), "four");
}

#[test]
fn header_values_are_concealed_line_by_line() {
    assert_eq!(
        redact_authorization_headers("GET /\nProxy-Authorization: Basic x\nHost: y"),
        "GET /\nProxy-Authorization: Basic x\nHost: y"
    );
    assert_eq!(redact_authorization_headers("Authorization: Basic x"), "Authorization: [REDACTED]");
    for secret in ["Digest one", "Digest another one, much longer"] {
        assert_eq!(
            redact(&format!("GET /\r\nAuthorization: {secret}\r\n\t{secret}\r\n  {secret}\r\nHost: y\nauthorization : {secret}")),
            "GET /\r\nAuthorization: [REDACTED]\r\n\t[REDACTED]\r\n  [REDACTED]\r\nHost: y\nauthorization : [REDACTED]"
        );
    }
    assert_eq!(redact("token is bearer abc.def"), "token is Bearer [REDACTED]");
    assert_eq!(redact("nothing to hide"), "nothing to hide");
    let line: Vec<char> = "Authorization : x".chars().collect();
    assert_eq!(authorization_colon(&line), Some(14));
    let line: Vec<char> = "Author: x".chars().collect();
    assert_eq!(authorization_colon(&line), None);
}
