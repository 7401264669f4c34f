//! Buffer and manager-arbitration tests.

use wraith::buffer::{handle_command, handle_timer, handle_write_result, BufferCommand, EventBuffer};
use wraith::event::{Event, EventContext, EventType, Level};

fn make_event(level: Level, tool: &str) -> Event {
    Event {
        id: "id".to_string(),
        timestamp_ms: 0,
        level,
        event: EventType::ToolInvoked { tool: tool.to_string(), command: "c".to_string() },
        context: EventContext {
            installation_id: "i".to_string(),
            tool_version: "t".to_string(),
            python_version: "p".to_string(),
            os: "o".to_string(),
            os_version: None,
        },
    }
}

#[test]
fn no_flush_before_threshold() {
    let mut buffer = EventBuffer::new();
    for k in 0..24 {
        let eligible = buffer.push(make_event(Level::Info, "x"));
        assert!(!eligible, "push {} was early", k);
    }
    assert_eq!(buffer.len(), 24);
    // The 25th push reaches the threshold.
    assert!(buffer.push(make_event(Level::Info, "x")));
    assert_eq!(buffer.len(), 25);
}

#[test]
fn urgent_flushes_immediately() {
    let mut buffer = EventBuffer::new();
    assert!(buffer.is_empty());
    assert!(buffer.push(make_event(Level::Critical, "x")));
    let mut buffer = EventBuffer::new();
    assert!(buffer.push(make_event(Level::Fatal, "x")));
    let mut buffer = EventBuffer::new();
    assert!(!buffer.push(make_event(Level::Error, "x")));
}

#[test]
fn empty_buffer_never_reaches_writer() {
    let mut buffer = EventBuffer::new();
    let step = handle_timer(&mut buffer);
    assert!(step.flush.is_none());
    let step = handle_command(&mut buffer, BufferCommand::Flush);
    assert!(step.flush.is_none());
    assert!(step.reset_timer);
    let step = handle_command(&mut buffer, BufferCommand::Shutdown);
    assert!(step.flush.is_none());
    assert!(step.stop);
}

#[test]
fn failed_flush_loses_nothing() {
    let mut buffer = EventBuffer::new();
    buffer.push(make_event(Level::Info, "one"));
    buffer.push(make_event(Level::Info, "two"));
    let step = handle_command(&mut buffer, BufferCommand::Flush);
    let batch = step.flush.unwrap();
    assert_eq!(batch.len(), 2);
    assert!(buffer.is_empty());

    // The writer fails; meanwhile another event arrives.
    buffer.push(make_event(Level::Info, "three"));
    handle_write_result(&mut buffer, batch, false);
    assert_eq!(buffer.len(), 3);

    // The next successful flush carries everything, in arrival order.
    let step = handle_command(&mut buffer, BufferCommand::Flush);
    let batch = step.flush.unwrap();
    let tools: Vec<&str> = batch.iter().map(|e| e.event.tool().unwrap()).collect();
    assert_eq!(tools, vec!["one", "two", "three"]);
    handle_write_result(&mut buffer, batch, true);
    assert!(buffer.is_empty());
}

#[test]
fn urgent_push_flushes_whole_buffer() {
    let mut buffer = EventBuffer::new();
    buffer.push(make_event(Level::Info, "one"));
    let step = handle_command(
        &mut buffer,
        BufferCommand::Push(make_event(Level::Critical, "two")),
    );
    assert!(step.reset_timer);
    assert!(!step.stop);
    let batch = step.flush.unwrap();
    assert_eq!(batch.len(), 2);
    assert!(buffer.is_empty());
}

#[test]
fn timer_flushes_pending_events() {
    let mut buffer = EventBuffer::new();
    buffer.push(make_event(Level::Info, "one"));
    let step = handle_timer(&mut buffer);
    assert_eq!(step.flush.unwrap().len(), 1);
    assert!(!step.reset_timer);
    assert!(buffer.is_empty());
}

#[test]
fn shutdown_performs_final_flush() {
    let mut buffer = EventBuffer::new();
    buffer.push(make_event(Level::Info, "one"));
    let step = handle_command(&mut buffer, BufferCommand::Shutdown);
    assert!(step.stop);
    assert_eq!(step.flush.unwrap().len(), 1);
    assert!(buffer.is_empty());
}
