//! Socket-listener line-handling tests.

use wraith::listener::{handle_line, LineOutcome};

const VALID: &str = "{\"level\":\"INFO\",\"event_type\":\"tool_invoked\",\"tool\":\"x\",\"command\":\"y\",\"context\":{\"installation_id\":\"i\",\"tool_version\":\"t\",\"python_version\":\"p\",\"os\":\"o\"}}";

#[test]
fn malformed_line_does_not_end_the_stream() {
    // A valid line, a malformed line, a second valid line: exactly two
    // admitted events and one parse failure, each outcome independent of
    // the last, so the connection loop keeps going throughout.
    let lines = [VALID, "not json", VALID];
    let mut admitted = 0;
    let mut malformed = 0;
    for line in lines {
        match handle_line(line) {
            LineOutcome::Admitted(event) => {
                assert_eq!(event.event.tool(), Some("x"));
                assert_eq!(event.event.command(), Some("y"));
                admitted += 1;
            }
            LineOutcome::Malformed => {
                malformed += 1;
            }
            LineOutcome::Blank => panic!("no blank line was sent"),
        }
    }
    assert_eq!(admitted, 2);
    assert_eq!(malformed, 1);
}

#[test]
fn blank_lines_are_ignored() {
    assert!(matches!(handle_line(""), LineOutcome::Blank));
    assert!(matches!(handle_line(" "), LineOutcome::Malformed));
}

#[test]
fn admitted_events_get_fresh_identity() {
    let first = match handle_line(VALID) {
        LineOutcome::Admitted(event) => event,
        _ => panic!("expected an admitted event"),
    };
    let second = match handle_line(VALID) {
        LineOutcome::Admitted(event) => event,
        _ => panic!("expected an admitted event"),
    };
    // The daemon is the identity authority: two admissions of the same
    // line are distinct events.
    assert_ne!(first.id, second.id);
    assert!(first.timestamp_ms >= 0);
}
