//! Event vocabulary: severity levels, event payloads, the environment context
//! attached to every event, and the messages exchanged on the wire.

use vstd::prelude::*;
use crate::platform;

verus! {

/// Severity of an event, ordered from least to most severe.
#[derive(Debug, Clone, Copy, PartialEq, Eq, Structural)]
pub enum Level {
    Debug,
    Info,
    Warning,
    Error,
    Critical,
    Fatal,
}

/// Urgency is a pure function of the level: only `Critical` and `Fatal`
/// events demand an immediate flush.
pub open spec fn spec_is_urgent(l: Level) -> bool {
    l is Critical || l is Fatal
}

/// The upper-case wire name of a level.
pub open spec fn spec_level_name(l: Level) -> Seq<char> {
    match l {
        Level::Debug => "DEBUG"@,
        Level::Info => "INFO"@,
        Level::Warning => "WARNING"@,
        Level::Error => "ERROR"@,
        Level::Critical => "CRITICAL"@,
        Level::Fatal => "FATAL"@,
    }
}

impl Level {
    /// True iff this level should trigger an immediate flush.
    pub fn is_urgent(&self) -> (r: bool)
        ensures
            r == spec_is_urgent(*self),
    {
        match self {
            Level::Critical => true,
            Level::Fatal => true,
            _ => false,
        }
    }

    /// The upper-case wire name of the level.
    pub fn as_str(&self) -> (r: &'static str)
        ensures
            r@ == spec_level_name(*self),
    {
        match self {
            Level::Debug => "DEBUG",
            Level::Info => "INFO",
            Level::Warning => "WARNING",
            Level::Error => "ERROR",
            Level::Critical => "CRITICAL",
            Level::Fatal => "FATAL",
        }
    }
}

/// Mathematical image of an `EventContext`.
pub struct ContextView {
    pub installation_id: Seq<char>,
    pub tool_version: Seq<char>,
    pub python_version: Seq<char>,
    pub os: Seq<char>,
    pub os_version: Option<Seq<char>>,
}

/// Context sent with every event: anonymous environment description.
#[derive(Debug, Clone)]
pub struct EventContext {
    /// Identifier generated on first run and stored locally.
    pub installation_id: String,
    /// Version of the tool suite.
    pub tool_version: String,
    /// Version of the client runtime.
    pub python_version: String,
    /// Operating system name.
    pub os: String,
    /// Operating system version, when known.
    pub os_version: Option<String>,
}

impl View for EventContext {
    type V = ContextView;

    open spec fn view(&self) -> ContextView {
        ContextView {
            installation_id: self.installation_id@,
            tool_version: self.tool_version@,
            python_version: self.python_version@,
            os: self.os@,
            os_version: match self.os_version {
                Some(v) => Some(v@),
                None => None,
            },
        }
    }
}

/// Mathematical image of an `EventType`.
pub enum EventTypeView {
    ToolInvoked { tool: Seq<char>, command: Seq<char> },
    ToolSucceeded { tool: Seq<char>, command: Seq<char>, duration_ms: u64 },
    ToolFailed { tool: Seq<char>, command: Seq<char>, error_type: Seq<char>, duration_ms: u64 },
    ExceptionUnhandled { tool: Seq<char>, exception_type: Seq<char>, traceback: Option<Seq<char>> },
    ValidationFailed { tool: Seq<char>, validation_type: Seq<char>, details: Option<Seq<char>> },
    DaemonStarted { parent_pid: u32 },
    DaemonStopping { reason: Seq<char> },
}

/// The closed set of event payloads the pipeline tracks.
#[derive(Debug, Clone)]
pub enum EventType {
    /// A tool was invoked.
    ToolInvoked { tool: String, command: String },
    /// A tool completed successfully.
    ToolSucceeded { tool: String, command: String, duration_ms: u64 },
    /// A tool failed with a handled error.
    ToolFailed { tool: String, command: String, error_type: String, duration_ms: u64 },
    /// An unhandled exception escaped a tool.
    ExceptionUnhandled { tool: String, exception_type: String, traceback: Option<String> },
    /// Output validation failed.
    ValidationFailed { tool: String, validation_type: String, details: Option<String> },
    /// The daemon started.
    DaemonStarted { parent_pid: u32 },
    /// The daemon is shutting down.
    DaemonStopping { reason: String },
}

impl View for EventType {
    type V = EventTypeView;

    open spec fn view(&self) -> EventTypeView {
        match self {
            EventType::ToolInvoked { tool, command } => EventTypeView::ToolInvoked {
                tool: tool@,
                command: command@,
            },
            EventType::ToolSucceeded { tool, command, duration_ms } => EventTypeView::ToolSucceeded {
                tool: tool@,
                command: command@,
                duration_ms: *duration_ms,
            },
            EventType::ToolFailed { tool, command, error_type, duration_ms } => EventTypeView::ToolFailed {
                tool: tool@,
                command: command@,
                error_type: error_type@,
                duration_ms: *duration_ms,
            },
            EventType::ExceptionUnhandled { tool, exception_type, traceback } => EventTypeView::ExceptionUnhandled {
                tool: tool@,
                exception_type: exception_type@,
                traceback: match traceback {
                    Some(t) => Some(t@),
                    None => None,
                },
            },
            EventType::ValidationFailed { tool, validation_type, details } => EventTypeView::ValidationFailed {
                tool: tool@,
                validation_type: validation_type@,
                details: match details {
                    Some(d) => Some(d@),
                    None => None,
                },
            },
            EventType::DaemonStarted { parent_pid } => EventTypeView::DaemonStarted {
                parent_pid: *parent_pid,
            },
            EventType::DaemonStopping { reason } => EventTypeView::DaemonStopping { reason: reason@ },
        }
    }
}

/// The snake-case wire name of an event payload.
pub open spec fn spec_event_type_name(t: EventTypeView) -> Seq<char> {
    match t {
        EventTypeView::ToolInvoked { .. } => "tool_invoked"@,
        EventTypeView::ToolSucceeded { .. } => "tool_succeeded"@,
        EventTypeView::ToolFailed { .. } => "tool_failed"@,
        EventTypeView::ExceptionUnhandled { .. } => "exception_unhandled"@,
        EventTypeView::ValidationFailed { .. } => "validation_failed"@,
        EventTypeView::DaemonStarted { .. } => "daemon_started"@,
        EventTypeView::DaemonStopping { .. } => "daemon_stopping"@,
    }
}

/// The tool name carried by a payload, when it has one.
pub open spec fn spec_tool(t: EventTypeView) -> Option<Seq<char>> {
    match t {
        EventTypeView::ToolInvoked { tool, .. } => Some(tool),
        EventTypeView::ToolSucceeded { tool, .. } => Some(tool),
        EventTypeView::ToolFailed { tool, .. } => Some(tool),
        EventTypeView::ExceptionUnhandled { tool, .. } => Some(tool),
        EventTypeView::ValidationFailed { tool, .. } => Some(tool),
        _ => None,
    }
}

/// The command name carried by a payload, when it has one.
pub open spec fn spec_command(t: EventTypeView) -> Option<Seq<char>> {
    match t {
        EventTypeView::ToolInvoked { command, .. } => Some(command),
        EventTypeView::ToolSucceeded { command, .. } => Some(command),
        EventTypeView::ToolFailed { command, .. } => Some(command),
        _ => None,
    }
}

/// The duration carried by a payload, when it has one.
pub open spec fn spec_duration_ms(t: EventTypeView) -> Option<u64> {
    match t {
        EventTypeView::ToolSucceeded { duration_ms, .. } => Some(duration_ms),
        EventTypeView::ToolFailed { duration_ms, .. } => Some(duration_ms),
        _ => None,
    }
}

/// The error classification carried by a payload, when it has one.
pub open spec fn spec_error_type(t: EventTypeView) -> Option<Seq<char>> {
    match t {
        EventTypeView::ToolFailed { error_type, .. } => Some(error_type),
        EventTypeView::ExceptionUnhandled { exception_type, .. } => Some(exception_type),
        _ => None,
    }
}

impl EventType {
    /// The snake-case wire name of this payload.
    pub fn event_type_name(&self) -> (r: &'static str)
        ensures
            r@ == spec_event_type_name(self@),
    {
        match self {
            EventType::ToolInvoked { .. } => "tool_invoked",
            EventType::ToolSucceeded { .. } => "tool_succeeded",
            EventType::ToolFailed { .. } => "tool_failed",
            EventType::ExceptionUnhandled { .. } => "exception_unhandled",
            EventType::ValidationFailed { .. } => "validation_failed",
            EventType::DaemonStarted { .. } => "daemon_started",
            EventType::DaemonStopping { .. } => "daemon_stopping",
        }
    }

    /// The tool name, if this payload carries one.
    pub fn tool(&self) -> (r: Option<&str>)
        ensures
            r is Some <==> spec_tool(self@) is Some,
            r matches Some(s) ==> spec_tool(self@) == Some(s@),
    {
        match self {
            EventType::ToolInvoked { tool, .. } => Some(tool.as_str()),
            EventType::ToolSucceeded { tool, .. } => Some(tool.as_str()),
            EventType::ToolFailed { tool, .. } => Some(tool.as_str()),
            EventType::ExceptionUnhandled { tool, .. } => Some(tool.as_str()),
            EventType::ValidationFailed { tool, .. } => Some(tool.as_str()),
            _ => None,
        }
    }

    /// The command name, if this payload carries one.
    pub fn command(&self) -> (r: Option<&str>)
        ensures
            r is Some <==> spec_command(self@) is Some,
            r matches Some(s) ==> spec_command(self@) == Some(s@),
    {
        match self {
            EventType::ToolInvoked { command, .. } => Some(command.as_str()),
            EventType::ToolSucceeded { command, .. } => Some(command.as_str()),
            EventType::ToolFailed { command, .. } => Some(command.as_str()),
            _ => None,
        }
    }

    /// The duration in milliseconds, if this payload carries one.
    pub fn duration_ms(&self) -> (r: Option<u64>)
        ensures
            r == spec_duration_ms(self@),
    {
        match self {
            EventType::ToolSucceeded { duration_ms, .. } => Some(*duration_ms),
            EventType::ToolFailed { duration_ms, .. } => Some(*duration_ms),
            _ => None,
        }
    }

    /// The error classification, if this payload carries one.
    pub fn error_type(&self) -> (r: Option<&str>)
        ensures
            r is Some <==> spec_error_type(self@) is Some,
            r matches Some(s) ==> spec_error_type(self@) == Some(s@),
    {
        match self {
            EventType::ToolFailed { error_type, .. } => Some(error_type.as_str()),
            EventType::ExceptionUnhandled { exception_type, .. } => Some(exception_type.as_str()),
            _ => None,
        }
    }
}

/// Largest timestamp, in milliseconds since the Unix epoch, that the wire
/// rendering is known to accept.
pub const TIMESTAMP_MAX_MS: i64 = 8_000_000_000_000_000;

/// A timestamp admitted into an event: clamped into the renderable range.
pub open spec fn spec_clamp_timestamp(ms: i64) -> i64 {
    if ms < 0 {
        0
    } else if ms > TIMESTAMP_MAX_MS {
        TIMESTAMP_MAX_MS
    } else {
        ms
    }
}

/// Mathematical image of an `Event`.
pub struct EventView {
    pub id: Seq<char>,
    pub timestamp_ms: i64,
    pub level: Level,
    pub event: EventTypeView,
    pub context: ContextView,
}

/// A complete telemetry event: identity, admission time, severity, payload
/// and context. Created once, at admission, and never mutated.
#[derive(Debug, Clone)]
pub struct Event {
    /// Unique event identifier.
    pub id: String,
    /// Admission instant, in milliseconds since the Unix epoch.
    pub timestamp_ms: i64,
    /// Severity level.
    pub level: Level,
    /// The event payload.
    pub event: EventType,
    /// Environment description.
    pub context: EventContext,
}

impl View for Event {
    type V = EventView;

    open spec fn view(&self) -> EventView {
        EventView {
            id: self.id@,
            timestamp_ms: self.timestamp_ms,
            level: self.level,
            event: self.event@,
            context: self.context@,
        }
    }
}

impl EventView {
    /// The admission timestamp lies in the renderable range.
    pub open spec fn wf(self) -> bool {
        0 <= self.timestamp_ms <= TIMESTAMP_MAX_MS
    }
}

impl Event {
    /// Create a new event: the identifier is freshly generated (a
    /// 36-character hyphenated identifier) and the timestamp is the current
    /// instant, clamped into the renderable range.
    pub fn new(level: Level, event: EventType, context: EventContext) -> (r: Event)
        ensures
            r@.wf(),
            r@.id.len() == 36,
            r@.level == level,
            r@.event == event@,
            r@.context == context@,
    {
        let id = platform::new_event_id();
        let now = platform::now_millis();
        let ts: i64 = if now < 0 {
            0
        } else if now > TIMESTAMP_MAX_MS {
            TIMESTAMP_MAX_MS
        } else {
            now
        };
        Event { id, timestamp_ms: ts, level, event, context }
    }

    /// True iff this event should trigger an immediate flush.
    pub fn is_urgent(&self) -> (r: bool)
        ensures
            r == spec_is_urgent(self@.level),
    {
        self.level.is_urgent()
    }
}

/// Mathematical image of a `ClientMessage`.
pub struct MessageView {
    pub level: Level,
    pub event: EventTypeView,
    pub context: ContextView,
}

/// Wire-level input: the shape of an event before the daemon assigns
/// identity and admission time.
#[derive(Debug, Clone)]
pub struct ClientMessage {
    /// Severity level.
    pub level: Level,
    /// The event payload.
    pub event: EventType,
    /// Environment description, provided by the client.
    pub context: EventContext,
}

impl View for ClientMessage {
    type V = MessageView;

    open spec fn view(&self) -> MessageView {
        MessageView { level: self.level, event: self.event@, context: self.context@ }
    }
}

impl ClientMessage {
    /// Promote this message to a full event: the daemon is the identity and
    /// timestamp authority, everything else is taken from the message.
    pub fn into_event(self) -> (r: Event)
        ensures
            r@.wf(),
            r@.id.len() == 36,
            r@.level == self@.level,
            r@.event == self@.event,
            r@.context == self@.context,
    {
        Event::new(self.level, self.event, self.context)
    }
}

/// A batch of client messages, as accepted at the ingestion HTTP boundary.
#[derive(Debug, Clone)]
pub struct EventBatch {
    pub events: Vec<ClientMessage>,
}

} // verus!

verus! {

/// Optional-string equality, by contents.
fn opt_str_eq(a: &Option<String>, b: &Option<String>) -> (r: bool)
    ensures
        r == (match (a, b) {
            (Some(x), Some(y)) => x@ == y@,
            (None, None) => true,
            _ => false,
        }),
{
    match (a, b) {
        (Some(x), Some(y)) => *x == *y,
        (None, None) => true,
        _ => false,
    }
}

impl PartialEq for EventContext {
    /// Contexts are equal exactly when every field agrees.
    fn eq(&self, other: &EventContext) -> (r: bool) {
        self.installation_id == other.installation_id && self.tool_version == other.tool_version
            && self.python_version == other.python_version && self.os == other.os && opt_str_eq(
            &self.os_version,
            &other.os_version,
        )
    }
}

impl vstd::std_specs::cmp::PartialEqSpecImpl for EventContext {
    open spec fn obeys_eq_spec() -> bool {
        true
    }

    open spec fn eq_spec(&self, other: &EventContext) -> bool {
        self@ == other@
    }
}

impl PartialEq for EventType {
    /// Payloads are equal exactly when they are the same variant with the
    /// same fields.
    fn eq(&self, other: &EventType) -> (r: bool) {
        match (self, other) {
            (
                EventType::ToolInvoked { tool: t1, command: c1 },
                EventType::ToolInvoked { tool: t2, command: c2 },
            ) => *t1 == *t2 && *c1 == *c2,
            (
                EventType::ToolSucceeded { tool: t1, command: c1, duration_ms: d1 },
                EventType::ToolSucceeded { tool: t2, command: c2, duration_ms: d2 },
            ) => *t1 == *t2 && *c1 == *c2 && *d1 == *d2,
            (
                EventType::ToolFailed { tool: t1, command: c1, error_type: e1, duration_ms: d1 },
                EventType::ToolFailed { tool: t2, command: c2, error_type: e2, duration_ms: d2 },
            ) => *t1 == *t2 && *c1 == *c2 && *e1 == *e2 && *d1 == *d2,
            (
                EventType::ExceptionUnhandled { tool: t1, exception_type: e1, traceback: b1 },
                EventType::ExceptionUnhandled { tool: t2, exception_type: e2, traceback: b2 },
            ) => *t1 == *t2 && *e1 == *e2 && opt_str_eq(b1, b2),
            (
                EventType::ValidationFailed { tool: t1, validation_type: v1, details: d1 },
                EventType::ValidationFailed { tool: t2, validation_type: v2, details: d2 },
            ) => *t1 == *t2 && *v1 == *v2 && opt_str_eq(d1, d2),
            (
                EventType::DaemonStarted { parent_pid: p1 },
                EventType::DaemonStarted { parent_pid: p2 },
            ) => *p1 == *p2,
            (
                EventType::DaemonStopping { reason: r1 },
                EventType::DaemonStopping { reason: r2 },
            ) => *r1 == *r2,
            _ => false,
        }
    }
}

impl vstd::std_specs::cmp::PartialEqSpecImpl for EventType {
    open spec fn obeys_eq_spec() -> bool {
        true
    }

    open spec fn eq_spec(&self, other: &EventType) -> bool {
        self@ == other@
    }
}

impl PartialEq for ClientMessage {
    /// Messages are equal exactly when level, payload and context agree.
    fn eq(&self, other: &ClientMessage) -> (r: bool) {
        self.level == other.level && self.event == other.event && self.context == other.context
    }
}

impl vstd::std_specs::cmp::PartialEqSpecImpl for ClientMessage {
    open spec fn obeys_eq_spec() -> bool {
        true
    }

    open spec fn eq_spec(&self, other: &ClientMessage) -> bool {
        self@ == other@
    }
}

} // verus!
