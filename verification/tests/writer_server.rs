//! Writer-abstraction and ingestion-side tests.

use wraith::event::{Event, EventContext, EventType, Level};
use wraith::server::{
    batch_to_stored, empty_batch_error, health_response, ingest_batch_decision, ingest_outcome,
    ingest_single_decision, ready_response, Config, IngestDecision, StoredEvent,
};
use wraith::wire::{event_json_line, parse_client_message};
use wraith::writer::{
    classify_http_response, encode_event_lines, http_status_is_success, FallbackWriter, WriteError,
    WritePlan,
};

fn fixed_event(tool: &str) -> Event {
    Event {
        id: format!("id-{}", tool),
        timestamp_ms: 1_700_000_000_000,
        level: Level::Info,
        event: EventType::ToolInvoked { tool: tool.to_string(), command: "run".to_string() },
        context: EventContext {
            installation_id: "i".to_string(),
            tool_version: "t".to_string(),
            python_version: "p".to_string(),
            os: "o".to_string(),
            os_version: None,
        },
    }
}

#[test]
fn fallback_degrades_to_file_in_order() {
    // An HTTP backend that will always fail, and a working file backend.
    let writer = FallbackWriter::new(
        Some("http://backend/events".to_string()),
        "/tmp/events.log".to_string(),
    );
    let batch = vec![fixed_event("e1"), fixed_event("e2")];

    // First attempt: the batch is posted.
    let plan = writer.plan_write(&batch);
    let body = match plan {
        WritePlan::PostHttp { endpoint, body } => {
            assert_eq!(endpoint, "http://backend/events");
            body
        }
        _ => panic!("expected an HTTP post"),
    };
    assert!(body.starts_with("{\"events\":["));

    // The backend always fails.
    let verdict = classify_http_response(500, "boom".to_string());
    match verdict {
        Err(WriteError::Protocol(status, b)) => {
            assert_eq!(status, 500);
            assert_eq!(b, "boom");
        }
        _ => panic!("expected a protocol failure"),
    }

    // Second attempt: the same batch goes to the file, in order; the file
    // backend succeeds, so the write as a whole succeeds.
    let plan = writer.plan_after_http_failure(&batch);
    match plan {
        WritePlan::AppendFile { path, payload } => {
            assert_eq!(path, "/tmp/events.log");
            let expected = format!(
                "{}\n{}\n",
                event_json_line(&batch[0]),
                event_json_line(&batch[1])
            );
            assert_eq!(payload, expected);
            let first = payload.find("e1").unwrap();
            let second = payload.find("e2").unwrap();
            assert!(first < second);
        }
        _ => panic!("expected a file append"),
    }
}

#[test]
fn empty_batch_short_circuits_http() {
    let writer = FallbackWriter::new(Some("http://backend/events".to_string()), "f".to_string());
    let plan = writer.plan_write(&Vec::new());
    assert!(matches!(plan, WritePlan::Done));
}

#[test]
fn no_http_backend_goes_straight_to_file() {
    let writer = FallbackWriter::new(None, "/tmp/events.log".to_string());
    let batch = vec![fixed_event("only")];
    match writer.plan_write(&batch) {
        WritePlan::AppendFile { path, payload } => {
            assert_eq!(path, "/tmp/events.log");
            assert_eq!(payload, encode_event_lines(&batch));
        }
        _ => panic!("expected a file append"),
    }
}

#[test]
fn http_status_classification() {
    assert!(http_status_is_success(200));
    assert!(http_status_is_success(202));
    assert!(http_status_is_success(299));
    assert!(!http_status_is_success(199));
    assert!(!http_status_is_success(300));
    assert!(!http_status_is_success(404));
    assert!(classify_http_response(202, String::new()).is_ok());
    assert!(classify_http_response(503, String::new()).is_err());
}

#[test]
fn server_config_defaults() {
    let config = Config::from_values(None, None, None, None, None, None, None, None, None);
    assert_eq!(config.host, "0.0.0.0");
    assert_eq!(config.port, 8080);
    assert_eq!(config.nats_url, "nats://localhost:4222");
    assert_eq!(config.nats_subject, "wraith.events");
    assert_eq!(config.clickhouse_url, "http://localhost:8123");
    assert_eq!(config.clickhouse_database, "wraith");
    assert_eq!(config.clickhouse_table, "events");
    assert_eq!(config.log_level, "info");
    assert!(!config.log_json);
    assert_eq!(config.server_addr(), "0.0.0.0:8080");
    assert_eq!(config.clickhouse_table_path(), "wraith.events");
}

#[test]
fn server_config_overrides() {
    let config = Config::from_values(
        Some("127.0.0.1".to_string()),
        Some("9001".to_string()),
        None,
        None,
        None,
        Some("db".to_string()),
        Some("tbl".to_string()),
        None,
        Some("true".to_string()),
    );
    assert_eq!(config.server_addr(), "127.0.0.1:9001");
    assert_eq!(config.clickhouse_table_path(), "db.tbl");
    assert!(config.log_json);

    // A malformed or out-of-range port falls back to the default.
    let config = Config::from_values(None, Some("banana".to_string()), None, None, None, None, None, None, None);
    assert_eq!(config.port, 8080);
    let config = Config::from_values(None, Some("70000".to_string()), None, None, None, None, None, None, None);
    assert_eq!(config.port, 8080);
}

#[test]
fn stored_event_flattening() {
    let event = fixed_event("migrateiq");
    let stored = StoredEvent::from_event(&event);
    assert_eq!(stored.id, "id-migrateiq");
    assert_eq!(stored.installation_id, "i");
    assert_eq!(stored.level, "INFO");
    assert_eq!(stored.event_type, "tool_invoked");
    assert_eq!(stored.tool, "migrateiq");
    assert_eq!(stored.command, "run");
    assert_eq!(stored.duration_ms, 0);
    assert_eq!(stored.error_type, "");
    assert_eq!(stored.raw_json, event_json_line(&event));
    assert!(stored.received_at_ms >= 0);
}

#[test]
fn batch_conversion_and_outcome() {
    let line = "{\"level\":\"INFO\",\"event_type\":\"tool_invoked\",\"tool\":\"x\",\"command\":\"y\",\"context\":{\"installation_id\":\"i\",\"tool_version\":\"t\",\"python_version\":\"p\",\"os\":\"o\"}}";
    let m1 = parse_client_message(line).unwrap();
    let m2 = parse_client_message(line).unwrap();
    let stored = batch_to_stored(vec![m1, m2]);
    assert_eq!(stored.len(), 2);
    assert_eq!(stored[0].tool, "x");
    assert_eq!(stored[1].command, "y");

    let outcome = ingest_outcome(2, 1);
    assert_eq!(outcome.accepted, 1);
    assert_eq!(outcome.failed, 1);
    assert_eq!(empty_batch_error().error, "Empty event batch");
}

#[test]
fn ingest_decisions() {
    match ingest_batch_decision(0, None) {
        IngestDecision::Rejected(e) => assert_eq!(e.error, "Empty event batch"),
        _ => panic!("an empty batch must be rejected"),
    }
    match ingest_batch_decision(3, Some(2)) {
        IngestDecision::Accepted(resp) => {
            assert_eq!(resp.accepted, 2);
            assert_eq!(resp.failed, 1);
        }
        _ => panic!("a published batch must be accepted"),
    }
    match ingest_batch_decision(3, None) {
        IngestDecision::Failed(e) => assert_eq!(e.error, "Failed to process events"),
        _ => panic!("a publish failure must be answered as a failure"),
    }
    match ingest_single_decision(true) {
        IngestDecision::Accepted(resp) => {
            assert_eq!(resp.accepted, 1);
            assert_eq!(resp.failed, 0);
        }
        _ => panic!("a published event must be accepted"),
    }
    match ingest_single_decision(false) {
        IngestDecision::Failed(e) => assert_eq!(e.error, "Failed to process event"),
        _ => panic!("a publish failure must be answered as a failure"),
    }

    let health = health_response("0.1.0");
    assert_eq!(health.status, "ok");
    assert_eq!(health.version, "0.1.0");
    assert_eq!(ready_response("0.1.0").status, "ready");
}
