//! Wire codec tests: exact renderings, escaping, round trips, and rejected
//! lines.

use wraith::event::{Event, EventContext, EventType, Level};
use wraith::text::{parse_u64_str, u64_to_string};
use wraith::wire::{event_json_line, parse_client_message};

fn context_without_os_version() -> EventContext {
    EventContext {
        installation_id: "iid-1".to_string(),
        tool_version: "1.2.3".to_string(),
        python_version: "3.12.1".to_string(),
        os: "linux".to_string(),
        os_version: None,
    }
}

fn fixed_event(level: Level, payload: EventType) -> Event {
    Event {
        id: "fixed-id".to_string(),
        timestamp_ms: 0,
        level,
        event: payload,
        context: context_without_os_version(),
    }
}

#[test]
fn exact_wire_line() {
    let event = fixed_event(
        Level::Info,
        EventType::ToolInvoked {
            tool: "migrateiq".to_string(),
            command: "scan".to_string(),
        },
    );
    let line = event_json_line(&event);
    let mut expected = String::new();
    expected.push_str("{\"id\":\"fixed-id\",");
    expected.push_str("\"timestamp\":\"1970-01-01T00:00:00.000Z\",");
    expected.push_str("\"level\":\"INFO\",");
    expected.push_str("\"event_type\":\"tool_invoked\",");
    expected.push_str("\"tool\":\"migrateiq\",");
    expected.push_str("\"command\":\"scan\",");
    expected.push_str("\"context\":{\"installation_id\":\"iid-1\",");
    expected.push_str("\"tool_version\":\"1.2.3\",");
    expected.push_str("\"python_version\":\"3.12.1\",");
    expected.push_str("\"os\":\"linux\"}}");
    assert_eq!(line, expected);
}

#[test]
fn round_trip_every_payload() {
    let payloads = vec![
        EventType::ToolInvoked { tool: "a".to_string(), command: "b".to_string() },
        EventType::ToolSucceeded {
            tool: "a".to_string(),
            command: "b".to_string(),
            duration_ms: 12,
        },
        EventType::ToolFailed {
            tool: "a".to_string(),
            command: "b".to_string(),
            error_type: "E".to_string(),
            duration_ms: 7,
        },
        EventType::ExceptionUnhandled {
            tool: "a".to_string(),
            exception_type: "ValueError".to_string(),
            traceback: Some("line 1\nline 2".to_string()),
        },
        EventType::ExceptionUnhandled {
            tool: "a".to_string(),
            exception_type: "ValueError".to_string(),
            traceback: None,
        },
        EventType::ValidationFailed {
            tool: "a".to_string(),
            validation_type: "plan".to_string(),
            details: Some("bad \"quote\" and \\slash".to_string()),
        },
        EventType::ValidationFailed {
            tool: "a".to_string(),
            validation_type: "plan".to_string(),
            details: None,
        },
        EventType::DaemonStarted { parent_pid: 4242 },
        EventType::DaemonStopping { reason: "Idle timeout or signal".to_string() },
    ];
    for payload in payloads {
        let event = fixed_event(Level::Warning, payload.clone());
        let line = event_json_line(&event);
        let msg = parse_client_message(line.as_str()).unwrap();
        assert_eq!(msg.level, Level::Warning);
        assert_eq!(msg.event, payload);
        assert_eq!(msg.context, context_without_os_version());
    }
}

#[test]
fn round_trip_with_os_version() {
    let mut event = fixed_event(
        Level::Critical,
        EventType::DaemonStopping { reason: "bye".to_string() },
    );
    event.context.os_version = Some("Ubuntu 22.04".to_string());
    let msg = parse_client_message(event_json_line(&event).as_str()).unwrap();
    assert_eq!(msg.context.os_version.as_deref(), Some("Ubuntu 22.04"));
}

#[test]
fn escaping_survives_round_trip() {
    let nasty = "quote\" backslash\\ newline\n tab\t bell\u{7} high\u{00e9}\u{4e16}";
    let event = fixed_event(
        Level::Error,
        EventType::ToolInvoked { tool: nasty.to_string(), command: "c".to_string() },
    );
    let line = event_json_line(&event);
    // The line itself holds no raw control characters.
    assert!(!line.contains('\n'));
    assert!(line.contains("\\u000a"));
    let msg = parse_client_message(line.as_str()).unwrap();
    assert_eq!(msg.event.tool(), Some(nasty));
}

#[test]
fn rejected_lines() {
    assert!(parse_client_message("not json").is_none());
    assert!(parse_client_message("").is_none());
    assert!(parse_client_message("{}").is_none());
    // Missing context.
    assert!(
        parse_client_message("{\"level\":\"INFO\",\"event_type\":\"daemon_stopping\",\"reason\":\"x\"}")
            .is_none()
    );
    // Unknown level.
    assert!(parse_client_message(
        "{\"level\":\"LOUD\",\"event_type\":\"daemon_started\",\"parent_pid\":1,\"context\":{\"installation_id\":\"i\",\"tool_version\":\"t\",\"python_version\":\"p\",\"os\":\"o\"}}"
    ).is_none());
    // Unknown event type.
    assert!(parse_client_message(
        "{\"level\":\"INFO\",\"event_type\":\"mystery\",\"context\":{\"installation_id\":\"i\",\"tool_version\":\"t\",\"python_version\":\"p\",\"os\":\"o\"}}"
    ).is_none());
    // A parent pid beyond the 32-bit range.
    assert!(parse_client_message(
        "{\"level\":\"INFO\",\"event_type\":\"daemon_started\",\"parent_pid\":4294967296,\"context\":{\"installation_id\":\"i\",\"tool_version\":\"t\",\"python_version\":\"p\",\"os\":\"o\"}}"
    ).is_none());
    // Trailing garbage after the object.
    assert!(parse_client_message(
        "{\"level\":\"INFO\",\"event_type\":\"daemon_started\",\"parent_pid\":1,\"context\":{\"installation_id\":\"i\",\"tool_version\":\"t\",\"python_version\":\"p\",\"os\":\"o\"}} x"
    ).is_none());
}

#[test]
fn parse_accepts_escapes_and_whitespace() {
    let msg = parse_client_message(
        " { \"level\" : \"FATAL\" , \"event_type\" : \"daemon_stopping\" , \"reason\" : \"a\\u0041\\n\\t\\\"b\\\\\" , \"context\" : { \"installation_id\" : \"i\" , \"tool_version\" : \"t\" , \"python_version\" : \"p\" , \"os\" : \"o\" , \"os_version\" : null } } ",
    )
    .unwrap();
    assert_eq!(msg.level, Level::Fatal);
    match &msg.event {
        EventType::DaemonStopping { reason } => assert_eq!(reason, "aA\n\t\"b\\"),
        _ => panic!("wrong payload"),
    }
    assert_eq!(msg.context.os_version, None);
}

#[test]
fn decimal_numerals() {
    assert_eq!(u64_to_string(0), "0");
    assert_eq!(u64_to_string(7), "7");
    assert_eq!(u64_to_string(25), "25");
    assert_eq!(u64_to_string(18446744073709551615), "18446744073709551615");
    assert_eq!(parse_u64_str("0"), Some(0));
    assert_eq!(parse_u64_str("18446744073709551615"), Some(18446744073709551615));
    assert_eq!(parse_u64_str("18446744073709551616"), None);
    assert_eq!(parse_u64_str(""), None);
    assert_eq!(parse_u64_str("+5"), None);
    assert_eq!(parse_u64_str("12a"), None);
}

#[test]
fn first_member_wins_on_duplicate_keys() {
    let msg = parse_client_message(
        "{\"level\":\"INFO\",\"event_type\":\"tool_invoked\",\"tool\":\"first\",\"tool\":\"second\",\"command\":\"c\",\"context\":{\"installation_id\":\"i\",\"tool_version\":\"t\",\"python_version\":\"p\",\"os\":\"o\"}}",
    )
    .unwrap();
    assert_eq!(msg.event.tool(), Some("first"));
}

#[test]
fn extreme_durations_round_trip() {
    let event = fixed_event(
        Level::Info,
        EventType::ToolSucceeded {
            tool: "a".to_string(),
            command: "b".to_string(),
            duration_ms: 18446744073709551615,
        },
    );
    let msg = parse_client_message(event_json_line(&event).as_str()).unwrap();
    assert_eq!(msg.event.duration_ms(), Some(18446744073709551615));
}
