//! The ingestion listener's per-line rule: what one line read from a client
//! connection does. The socket itself — binding, accepting, reading lines,
//! and sending commands — is a suspension point and lives in the binary.

use vstd::prelude::*;
use crate::event::Event;
use crate::wire::{parse_client_message, spec_parse_message};

verus! {

/// What one line from a client leads to.
pub enum LineOutcome {
    /// The line was blank: it is ignored and the connection continues.
    Blank,
    /// The line was not a well-formed message: it is dropped (and logged by
    /// the caller) and the connection continues.
    Malformed,
    /// The line carried a message: the event to push, with identity and
    /// admission time freshly assigned.
    Admitted(Event),
}

/// Judge one line. A blank line is ignored; a line that parses as a client
/// message is admitted as an event carrying exactly the message's level,
/// payload and context; anything else is malformed. One malformed line
/// never ends the connection: the outcome only ever concerns the one line.
pub fn handle_line(line: &str) -> (r: LineOutcome)
    ensures
        r is Blank <==> line@.len() == 0,
        r is Malformed <==> line@.len() > 0 && spec_parse_message(line@) is None,
        r matches LineOutcome::Admitted(e) ==> spec_parse_message(line@) matches Some(m)
            && e@.level == m.level && e@.event == m.event && e@.context == m.context && e@.wf(),
{
    if line.is_empty() {
        return LineOutcome::Blank;
    }
    match parse_client_message(line) {
        Some(msg) => LineOutcome::Admitted(msg.into_event()),
        None => LineOutcome::Malformed,
    }
}

} // verus!
