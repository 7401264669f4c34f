//! The ingestion-service side: its configuration rules, the flattened
//! storage record, and the ingest bookkeeping. The HTTP routing, the
//! message-bus fan-out and the columnar-store persistence are plumbing
//! around these rules and live outside the library.

use vstd::prelude::*;
use vstd::string::StringExecFns;
use crate::event::{
    ClientMessage, Event, EventView, MessageView, spec_event_type_name, spec_level_name, spec_tool,
    spec_command, spec_duration_ms, spec_error_type,
};
use crate::platform;
use crate::text;
use crate::wire::{event_json_line, spec_event_json};

verus! {

/// Mathematical image of a `Config`.
pub struct ConfigView {
    pub host: Seq<char>,
    pub port: u16,
    pub nats_url: Seq<char>,
    pub nats_subject: Seq<char>,
    pub clickhouse_url: Seq<char>,
    pub clickhouse_database: Seq<char>,
    pub clickhouse_table: Seq<char>,
    pub log_level: Seq<char>,
    pub log_json: bool,
}

/// Ingestion-service configuration.
#[derive(Debug, Clone)]
pub struct Config {
    /// HTTP server host.
    pub host: String,
    /// HTTP server port.
    pub port: u16,
    /// Message-bus URL.
    pub nats_url: String,
    /// Message-bus subject for events.
    pub nats_subject: String,
    /// Columnar-store URL.
    pub clickhouse_url: String,
    /// Columnar-store database name.
    pub clickhouse_database: String,
    /// Columnar-store table name.
    pub clickhouse_table: String,
    /// Log level.
    pub log_level: String,
    /// Whether logs are emitted as JSON.
    pub log_json: bool,
}

impl View for Config {
    type V = ConfigView;

    open spec fn view(&self) -> ConfigView {
        ConfigView {
            host: self.host@,
            port: self.port,
            nats_url: self.nats_url@,
            nats_subject: self.nats_subject@,
            clickhouse_url: self.clickhouse_url@,
            clickhouse_database: self.clickhouse_database@,
            clickhouse_table: self.clickhouse_table@,
            log_level: self.log_level@,
            log_json: self.log_json,
        }
    }
}

/// A raw configuration value or its default.
pub open spec fn spec_or_default(raw: Option<Seq<char>>, dflt: Seq<char>) -> Seq<char> {
    match raw {
        Some(v) => v,
        None => dflt,
    }
}

/// The port a raw value configures: a decimal in the 16-bit range, else
/// the default.
pub open spec fn spec_port_of(raw: Option<Seq<char>>) -> u16 {
    match raw {
        Some(v) => match text::spec_parse_u64(v) {
            Some(p) => if p <= u16::MAX {
                p as u16
            } else {
                8080
            },
            None => 8080,
        },
        None => 8080,
    }
}

/// Whether a raw value switches JSON logging on: only `true` and `1` do.
pub open spec fn spec_log_json_of(raw: Option<Seq<char>>) -> bool {
    match raw {
        Some(v) => v == "true"@ || v == "1"@,
        None => false,
    }
}

fn or_default(raw: Option<String>, dflt: &str) -> (r: String)
    ensures
        r@ == spec_or_default(
            match raw {
                Some(v) => Some(v@),
                None => None,
            },
            dflt@,
        ),
{
    match raw {
        Some(v) => v,
        None => String::from_str(dflt),
    }
}

impl Config {
    /// Build the configuration from raw environment values: each absent or
    /// malformed value falls back to its documented default. Reading the
    /// environment is the caller's step; the rules are pure.
    pub fn from_values(
        host: Option<String>,
        port: Option<String>,
        nats_url: Option<String>,
        nats_subject: Option<String>,
        clickhouse_url: Option<String>,
        clickhouse_database: Option<String>,
        clickhouse_table: Option<String>,
        log_level: Option<String>,
        log_json: Option<String>,
    ) -> (r: Config)
        ensures
            r@.host == spec_or_default(
                match host {
                    Some(v) => Some(v@),
                    None => None,
                },
                "0.0.0.0"@,
            ),
            r@.port == spec_port_of(match port {
                Some(v) => Some(v@),
                None => None,
            }),
            r@.nats_url == spec_or_default(
                match nats_url {
                    Some(v) => Some(v@),
                    None => None,
                },
                "nats://localhost:4222"@,
            ),
            r@.nats_subject == spec_or_default(
                match nats_subject {
                    Some(v) => Some(v@),
                    None => None,
                },
                "wraith.events"@,
            ),
            r@.clickhouse_url == spec_or_default(
                match clickhouse_url {
                    Some(v) => Some(v@),
                    None => None,
                },
                "http://localhost:8123"@,
            ),
            r@.clickhouse_database == spec_or_default(
                match clickhouse_database {
                    Some(v) => Some(v@),
                    None => None,
                },
                "wraith"@,
            ),
            r@.clickhouse_table == spec_or_default(
                match clickhouse_table {
                    Some(v) => Some(v@),
                    None => None,
                },
                "events"@,
            ),
            r@.log_level == spec_or_default(
                match log_level {
                    Some(v) => Some(v@),
                    None => None,
                },
                "info"@,
            ),
            r@.log_json == spec_log_json_of(match log_json {
                Some(v) => Some(v@),
                None => None,
            }),
    {
        let port_value: u16 = match &port {
            Some(v) => match text::parse_u64_str(v.as_str()) {
                Some(p) => {
                    if p <= 65535u64 {
                        p as u16
                    } else {
                        8080
                    }
                },
                None => 8080,
            },
            None => 8080,
        };
        let log_json_value: bool = match &log_json {
            Some(v) => text::str_eq(v.as_str(), "true") || text::str_eq(v.as_str(), "1"),
            None => false,
        };
        Config {
            host: or_default(host, "0.0.0.0"),
            port: port_value,
            nats_url: or_default(nats_url, "nats://localhost:4222"),
            nats_subject: or_default(nats_subject, "wraith.events"),
            clickhouse_url: or_default(clickhouse_url, "http://localhost:8123"),
            clickhouse_database: or_default(clickhouse_database, "wraith"),
            clickhouse_table: or_default(clickhouse_table, "events"),
            log_level: or_default(log_level, "info"),
            log_json: log_json_value,
        }
    }

    /// The full bind address: host, a colon, and the decimal port.
    pub fn server_addr(&self) -> (r: String)
        ensures
            r@ == self@.host + ":"@ + text::spec_decimal(self@.port as nat),
    {
        let mut r = String::from_str(self.host.as_str());
        r.append(":");
        let p = text::u64_to_string(self.port as u64);
        r.append(p.as_str());
        r
    }

    /// The full table path: database, a dot, and the table.
    pub fn clickhouse_table_path(&self) -> (r: String)
        ensures
            r@ == self@.clickhouse_database + "."@ + self@.clickhouse_table,
    {
        let mut r = String::from_str(self.clickhouse_database.as_str());
        r.append(".");
        r.append(self.clickhouse_table.as_str());
        r
    }
}

/// Mathematical image of a `StoredEvent`.
pub struct StoredEventView {
    pub id: Seq<char>,
    pub received_at_ms: i64,
    pub installation_id: Seq<char>,
    pub level: Seq<char>,
    pub event_type: Seq<char>,
    pub tool: Seq<char>,
    pub command: Seq<char>,
    pub duration_ms: u64,
    pub error_type: Seq<char>,
    pub tool_version: Seq<char>,
    pub python_version: Seq<char>,
    pub os: Seq<char>,
    pub raw_json: Seq<char>,
}

/// An event flattened for columnar storage: every optional accessor becomes
/// a plain column, absence becoming the empty string or zero.
#[derive(Debug, Clone)]
pub struct StoredEvent {
    /// Unique event identifier.
    pub id: String,
    /// When the record was made, in milliseconds since the Unix epoch.
    pub received_at_ms: i64,
    /// Installation identifier.
    pub installation_id: String,
    /// Level wire name.
    pub level: String,
    /// Event payload wire name.
    pub event_type: String,
    /// Tool name, when the payload carries one.
    pub tool: String,
    /// Command name, when the payload carries one.
    pub command: String,
    /// Duration in milliseconds, when the payload carries one.
    pub duration_ms: u64,
    /// Error classification, when the payload carries one.
    pub error_type: String,
    /// Tool-suite version.
    pub tool_version: String,
    /// Client runtime version.
    pub python_version: String,
    /// Operating system name.
    pub os: String,
    /// The full wire line of the event.
    pub raw_json: String,
}

impl View for StoredEvent {
    type V = StoredEventView;

    open spec fn view(&self) -> StoredEventView {
        StoredEventView {
            id: self.id@,
            received_at_ms: self.received_at_ms,
            installation_id: self.installation_id@,
            level: self.level@,
            event_type: self.event_type@,
            tool: self.tool@,
            command: self.command@,
            duration_ms: self.duration_ms,
            error_type: self.error_type@,
            tool_version: self.tool_version@,
            python_version: self.python_version@,
            os: self.os@,
            raw_json: self.raw_json@,
        }
    }
}

/// The flattening of an event, minus the receipt instant.
pub open spec fn spec_stored_fields_match(s: StoredEventView, e: EventView) -> bool {
    &&& s.id == e.id
    &&& s.installation_id == e.context.installation_id
    &&& s.level == spec_level_name(e.level)
    &&& s.event_type == spec_event_type_name(e.event)
    &&& s.tool == spec_or_default(spec_tool(e.event), Seq::empty())
    &&& s.command == spec_or_default(spec_command(e.event), Seq::empty())
    &&& s.duration_ms == (match spec_duration_ms(e.event) {
        Some(d) => d,
        None => 0u64,
    })
    &&& s.error_type == spec_or_default(spec_error_type(e.event), Seq::empty())
    &&& s.tool_version == e.context.tool_version
    &&& s.python_version == e.context.python_version
    &&& s.os == e.context.os
    &&& s.raw_json == spec_event_json(e)
}

impl StoredEvent {
    /// Flatten an event for storage. The receipt instant is the clock's;
    /// every other column is the event's, with absent accessors stored as
    /// the empty string or zero and the full wire line kept alongside.
    pub fn from_event(event: &Event) -> (r: StoredEvent)
        ensures
            spec_stored_fields_match(r@, event@),
            r@.received_at_ms >= 0,
    {
        let raw_json = event_json_line(event);
        StoredEvent {
            id: event.id.clone(),
            received_at_ms: platform::now_millis(),
            installation_id: event.context.installation_id.clone(),
            level: String::from_str(event.level.as_str()),
            event_type: String::from_str(event.event.event_type_name()),
            tool: match event.event.tool() {
                Some(t) => String::from_str(t),
                None => String::new(),
            },
            command: match event.event.command() {
                Some(c) => String::from_str(c),
                None => String::new(),
            },
            duration_ms: match event.event.duration_ms() {
                Some(d) => d,
                None => 0,
            },
            error_type: match event.event.error_type() {
                Some(t) => String::from_str(t),
                None => String::new(),
            },
            tool_version: event.context.tool_version.clone(),
            python_version: event.context.python_version.clone(),
            os: event.context.os.clone(),
            raw_json,
        }
    }

    /// Admit a client message (assigning identity and admission time) and
    /// flatten the resulting event for storage.
    pub fn from_client_message(msg: ClientMessage) -> (r: StoredEvent)
        ensures
            exists|e: EventView|
                #[trigger] spec_stored_fields_match(r@, e) && e.wf() && e.level == msg@.level
                    && e.event == msg@.event && e.context == msg@.context,
            r@.id.len() == 36,
            r@.received_at_ms >= 0,
    {
        let event = msg.into_event();
        let r = StoredEvent::from_event(&event);
        proof {
            assert(spec_stored_fields_match(r@, event@));
        }
        r
    }
}

/// The body of an accepted-ingest response.
#[derive(Debug, Clone)]
pub struct IngestResponse {
    pub accepted: usize,
    pub failed: usize,
}

/// The body of a failed-ingest response.
#[derive(Debug, Clone)]
pub struct ErrorResponse {
    pub error: String,
}

/// The body of a health or readiness response.
#[derive(Debug, Clone)]
pub struct HealthResponse {
    pub status: &'static str,
    pub version: &'static str,
}

/// The liveness answer: the service is up, at this version.
pub fn health_response(version: &'static str) -> (r: HealthResponse)
    ensures
        r.status@ == "ok"@,
        r.version@ == version@,
{
    HealthResponse { status: "ok", version }
}

/// The readiness answer: the service is ready, at this version.
pub fn ready_response(version: &'static str) -> (r: HealthResponse)
    ensures
        r.status@ == "ready"@,
        r.version@ == version@,
{
    HealthResponse { status: "ready", version }
}

/// The response to a rejected empty batch.
pub fn empty_batch_error() -> (r: ErrorResponse)
    ensures
        r.error@ == "Empty event batch"@,
{
    ErrorResponse { error: String::from_str("Empty event batch") }
}

/// The accepted-ingest bookkeeping: everything published is accepted, the
/// rest of the batch failed.
pub fn ingest_outcome(total: usize, published: usize) -> (r: IngestResponse)
    requires
        published <= total,
    ensures
        r.accepted == published,
        r.failed == total - published,
{
    IngestResponse { accepted: published, failed: total - published }
}

/// A stored record that flattens some admitted event carrying exactly this
/// message's level, payload and context.
pub open spec fn spec_stored_matches_msg(s: StoredEventView, m: MessageView) -> bool {
    exists|e: EventView|
        #[trigger] spec_stored_fields_match(s, e) && e.level == m.level && e.event == m.event
            && e.context == m.context
}

/// The response owed to an ingest request.
pub enum IngestDecision {
    /// The request was rejected outright (an empty batch).
    Rejected(ErrorResponse),
    /// The batch was processed; so many events were accepted, the rest
    /// failed.
    Accepted(IngestResponse),
    /// Publishing failed as a whole.
    Failed(ErrorResponse),
}

/// The batch-ingest rule: an empty batch is rejected before any work; a
/// published batch is accepted with its bookkeeping; a publish failure is
/// answered as a server failure. `published` is the fan-out's verdict,
/// handed in by the boundary.
pub fn ingest_batch_decision(total: usize, published: Option<usize>) -> (r: IngestDecision)
    requires
        published matches Some(p) ==> p <= total,
    ensures
        total == 0 ==> (r matches IngestDecision::Rejected(e) && e.error@
            == "Empty event batch"@),
        total > 0 ==> (match published {
            Some(p) => r matches IngestDecision::Accepted(resp) && resp.accepted == p
                && resp.failed == total - p,
            None => r matches IngestDecision::Failed(e) && e.error@
                == "Failed to process events"@,
        }),
{
    if total == 0 {
        return IngestDecision::Rejected(empty_batch_error());
    }
    match published {
        Some(p) => IngestDecision::Accepted(ingest_outcome(total, p)),
        None => IngestDecision::Failed(ErrorResponse {
            error: String::from_str("Failed to process events"),
        }),
    }
}

/// The single-event ingest rule: a published event is accepted alone; a
/// publish failure is answered as a server failure.
pub fn ingest_single_decision(published: bool) -> (r: IngestDecision)
    ensures
        published ==> (r matches IngestDecision::Accepted(resp) && resp.accepted == 1
            && resp.failed == 0),
        !published ==> (r matches IngestDecision::Failed(e) && e.error@
            == "Failed to process event"@),
{
    if published {
        IngestDecision::Accepted(IngestResponse { accepted: 1, failed: 0 })
    } else {
        IngestDecision::Failed(ErrorResponse {
            error: String::from_str("Failed to process event"),
        })
    }
}

/// Flatten a batch of client messages for storage, in batch order.
pub fn batch_to_stored(batch: Vec<ClientMessage>) -> (r: Vec<StoredEvent>)
    ensures
        r@.len() == batch@.len(),
        forall|i: int|
            0 <= i < r@.len() ==> spec_stored_matches_msg((#[trigger] r@[i])@, batch@[i]@),
{
    let ghost bv = batch@;
    let mut r: Vec<StoredEvent> = Vec::new();
    let mut rest = batch;
    let n = rest.len();
    for k in 0..n
        invariant
            n == bv.len(),
            rest@.len() + k == n,
            forall|i: int| 0 <= i < rest@.len() ==> rest@[i] == bv[i + k],
            r@.len() == k,
            forall|i: int|
                0 <= i < r@.len() ==> spec_stored_matches_msg((#[trigger] r@[i])@, bv[i]@),
    {
        let msg = rest.remove(0);
        proof {
            assert(msg == bv[k as int]);
        }
        let stored = StoredEvent::from_client_message(msg);
        proof {
            assert(spec_stored_matches_msg(stored@, msg@));
        }
        r.push(stored);
    }
    r
}

} // verus!
