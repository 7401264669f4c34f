//! Event model and wire-format tests.

use wraith::event::{Event, EventContext, EventType, Level};
use wraith::wire::{event_json_line, parse_client_message};

fn test_context() -> EventContext {
    EventContext {
        installation_id: "test-uuid".to_string(),
        tool_version: "0.1.0".to_string(),
        python_version: "3.11.0".to_string(),
        os: "linux".to_string(),
        os_version: Some("Ubuntu 22.04".to_string()),
    }
}

#[test]
fn test_urgent_levels() {
    assert!(!Level::Debug.is_urgent());
    assert!(!Level::Info.is_urgent());
    assert!(!Level::Warning.is_urgent());
    assert!(!Level::Error.is_urgent());
    assert!(Level::Critical.is_urgent());
    assert!(Level::Fatal.is_urgent());
}

#[test]
fn test_event_serialization() {
    let context = test_context();

    let event = Event::new(
        Level::Info,
        EventType::ToolInvoked {
            tool: "migrateiq".to_string(),
            command: "scan".to_string(),
        },
        context,
    );

    let json = event_json_line(&event);
    println!("{}", json);

    // Should be able to parse it back as a client message.
    let parsed = parse_client_message(json.as_str());
    assert!(parsed.is_some());
}

#[test]
fn test_client_message_deserialization() {
    let json = r#"{
            "level": "INFO",
            "event_type": "tool_invoked",
            "tool": "migrateiq",
            "command": "scan",
            "context": {
                "installation_id": "test-uuid",
                "tool_version": "0.1.0",
                "python_version": "3.11.0",
                "os": "linux"
            }
        }"#;

    let msg = parse_client_message(json).unwrap();
    assert_eq!(msg.event.tool(), Some("migrateiq"));
    assert_eq!(msg.event.command(), Some("scan"));
}

#[test]
fn test_level_names() {
    assert_eq!(Level::Debug.as_str(), "DEBUG");
    assert_eq!(Level::Info.as_str(), "INFO");
    assert_eq!(Level::Warning.as_str(), "WARNING");
    assert_eq!(Level::Error.as_str(), "ERROR");
    assert_eq!(Level::Critical.as_str(), "CRITICAL");
    assert_eq!(Level::Fatal.as_str(), "FATAL");
}

#[test]
fn test_event_type_accessors() {
    let t = EventType::ToolFailed {
        tool: "migrateiq".to_string(),
        command: "scan".to_string(),
        error_type: "Timeout".to_string(),
        duration_ms: 1500,
    };
    assert_eq!(t.event_type_name(), "tool_failed");
    assert_eq!(t.tool(), Some("migrateiq"));
    assert_eq!(t.command(), Some("scan"));
    assert_eq!(t.duration_ms(), Some(1500));
    assert_eq!(t.error_type(), Some("Timeout"));

    let started = EventType::DaemonStarted { parent_pid: 42 };
    assert_eq!(started.event_type_name(), "daemon_started");
    assert_eq!(started.tool(), None);
    assert_eq!(started.command(), None);
    assert_eq!(started.duration_ms(), None);
    assert_eq!(started.error_type(), None);
}

#[test]
fn test_new_event_identity() {
    let event = Event::new(
        Level::Info,
        EventType::DaemonStarted { parent_pid: 1 },
        test_context(),
    );
    // Fresh identifiers come in the hyphenated form; admission time is
    // clamped into the renderable range.
    assert_eq!(event.id.chars().count(), 36);
    assert!(event.timestamp_ms >= 0);
}
