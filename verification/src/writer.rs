//! The persistence-writer abstraction: the file backend's append payload,
//! the HTTP backend's request body and response classification, and the
//! fallback arbitration between them.
//!
//! The writers' I/O is a suspension point and lives in the binary; here
//! each write is a pure plan — where to write and exactly which bytes — and
//! a pure verdict on what came back. The error taxonomy is recoverable by
//! construction: a failed batch goes back to the buffer, never away.

use vstd::prelude::*;
use vstd::string::StringExecFns;
use crate::event::{Event, EventView};
use crate::buffer::view_events;
use crate::wire::{event_json_line, spec_event_json};

verus! {

/// Why a write failed: disk, network, or a non-success response.
#[derive(Debug, Clone)]
pub enum WriteError {
    /// The file backend failed (disk full, permission).
    Io(String),
    /// The transport failed (timeout, connection refused, resolution).
    Network(String),
    /// The backend answered with a non-success status and this body.
    Protocol(u16, String),
}

/// The JSON-lines payload appended to the event log: one wire line and a
/// newline per event, in batch order.
pub open spec fn spec_event_lines(es: Seq<EventView>) -> Seq<char>
    decreases es.len(),
{
    if es.len() == 0 {
        Seq::empty()
    } else {
        spec_event_json(es[0]) + seq!['\n'] + spec_event_lines(es.drop_first())
    }
}

/// Render a batch as the JSON-lines payload for the event log.
pub fn encode_event_lines(events: &Vec<Event>) -> (r: String)
    ensures
        r@ == spec_event_lines(view_events(events@)),
{
    let ghost es = view_events(events@);
    let mut out = String::new();
    let n = events.len();
    proof {
        assert(es.skip(0) =~= es);
        assert(out@ =~= Seq::<char>::empty());
    }
    for i in 0..n
        invariant
            n == events@.len(),
            es == view_events(events@),
            es.len() == n,
            out@ + spec_event_lines(es.skip(i as int)) == spec_event_lines(es),
    {
        let ghost tail = es.skip(i as int);
        proof {
            assert(tail[0] == events@[i as int]@);
            assert(tail.drop_first() =~= es.skip(i + 1));
        }
        let line = event_json_line(&events[i]);
        out.append(line.as_str());
        out.push('\n');
        proof {
            assert(spec_event_lines(tail) =~= spec_event_json(tail[0]) + seq!['\n']
                + spec_event_lines(es.skip(i + 1)));
            assert(out@ + spec_event_lines(es.skip(i + 1)) =~= spec_event_lines(es));
        }
    }
    proof {
        assert(es.skip(n as int) =~= Seq::<EventView>::empty());
        assert(out@ =~= spec_event_lines(es));
    }
    out
}

/// The comma-separated wire renderings of a batch's events, in order.
pub open spec fn spec_event_array(es: Seq<EventView>) -> Seq<char>
    decreases es.len(),
{
    if es.len() == 0 {
        Seq::empty()
    } else if es.len() == 1 {
        spec_event_json(es[0])
    } else {
        spec_event_json(es[0]) + seq![','] + spec_event_array(es.drop_first())
    }
}

/// The HTTP request body for a batch: one object holding the events.
pub open spec fn spec_batch_body(es: Seq<EventView>) -> Seq<char> {
    "{\"events\":["@ + spec_event_array(es) + "]}"@
}

/// Render a batch as the HTTP request body.
pub fn encode_batch_body(events: &Vec<Event>) -> (r: String)
    ensures
        r@ == spec_batch_body(view_events(events@)),
{
    let ghost es = view_events(events@);
    let mut out = String::from_str("{\"events\":[");
    let n = events.len();
    proof {
        assert(es.skip(0) =~= es);
        assert(out@ =~= "{\"events\":["@ + spec_event_array(es.skip(0)).take(0));
    }
    for i in 0..n
        invariant
            n == events@.len(),
            es == view_events(events@),
            es.len() == n,
            out@ + spec_event_array(es.skip(i as int)) == "{\"events\":["@ + spec_event_array(es),
    {
        let ghost tail = es.skip(i as int);
        proof {
            assert(tail[0] == events@[i as int]@);
            assert(tail.drop_first() =~= es.skip(i + 1));
        }
        let line = event_json_line(&events[i]);
        out.append(line.as_str());
        if i + 1 < n {
            out.push(',');
            proof {
                assert(spec_event_array(tail) =~= spec_event_json(tail[0]) + seq![',']
                    + spec_event_array(es.skip(i + 1)));
                assert(out@ + spec_event_array(es.skip(i + 1)) =~= "{\"events\":["@
                    + spec_event_array(es));
            }
        } else {
            proof {
                assert(tail.len() == 1);
                assert(spec_event_array(tail) =~= spec_event_json(tail[0]));
                assert(es.skip(i + 1) =~= Seq::<EventView>::empty());
                assert(out@ + spec_event_array(es.skip(i + 1)) =~= "{\"events\":["@
                    + spec_event_array(es));
            }
        }
    }
    proof {
        assert(es.skip(n as int) =~= Seq::<EventView>::empty());
    }
    out.append("]}");
    proof {
        assert(out@ =~= spec_batch_body(es));
    }
    out
}

/// Whether an HTTP status is a success.
pub fn http_status_is_success(status: u16) -> (r: bool)
    ensures
        r == (200 <= status < 300),
{
    status >= 200 && status < 300
}

/// The verdict on an HTTP response: success for a 2xx status, otherwise a
/// protocol failure carrying exactly the status and body that came back.
pub fn classify_http_response(status: u16, body: String) -> (r: Result<(), WriteError>)
    ensures
        r is Ok <==> 200 <= status < 300,
        !(200 <= status < 300) ==> (r matches Err(WriteError::Protocol(s, b)) && s == status
            && b@ == body@),
{
    if status >= 200 && status < 300 {
        Ok(())
    } else {
        Err(WriteError::Protocol(status, body))
    }
}

/// The file backend: appends wire lines to one local file.
pub struct FileWriter {
    path: String,
}

impl FileWriter {
    /// The file this writer appends to.
    pub closed spec fn spec_path(&self) -> Seq<char> {
        self.path@
    }

    /// A writer for the given file.
    pub fn new(path: String) -> (r: FileWriter)
        ensures
            r.spec_path() == path@,
    {
        FileWriter { path }
    }

    /// The file's path.
    pub fn path(&self) -> (r: &str)
        ensures
            r@ == self.spec_path(),
    {
        self.path.as_str()
    }
}

/// The HTTP backend: posts batches to one endpoint with a bounded timeout.
pub struct HttpWriter {
    endpoint: String,
    timeout_secs: u64,
}

impl HttpWriter {
    /// The endpoint batches are posted to.
    pub closed spec fn spec_endpoint(&self) -> Seq<char> {
        self.endpoint@
    }

    /// The request timeout, in seconds.
    pub closed spec fn spec_timeout_secs(&self) -> u64 {
        self.timeout_secs
    }

    /// A writer for the given endpoint, with the standard bounded timeout.
    pub fn new(endpoint: String) -> (r: HttpWriter)
        ensures
            r.spec_endpoint() == endpoint@,
            r.spec_timeout_secs() == 10,
    {
        HttpWriter { endpoint, timeout_secs: 10 }
    }

    /// The endpoint.
    pub fn endpoint(&self) -> (r: &str)
        ensures
            r@ == self.spec_endpoint(),
    {
        self.endpoint.as_str()
    }
}

/// One planned write: what the driving loop performs next.
pub enum WritePlan {
    /// Nothing to do; the write already counts as successful.
    Done,
    /// Post this body to this endpoint.
    PostHttp { endpoint: String, body: String },
    /// Append this payload to this file.
    AppendFile { path: String, payload: String },
}

/// The combined writer: prefers the HTTP backend when one is configured and
/// degrades to the file backend on its failure.
pub struct FallbackWriter {
    http: Option<HttpWriter>,
    file: FileWriter,
}

impl FallbackWriter {
    /// Whether an HTTP backend is configured, and for which endpoint.
    pub closed spec fn spec_http_endpoint(&self) -> Option<Seq<char>> {
        match self.http {
            Some(h) => Some(h.spec_endpoint()),
            None => None,
        }
    }

    /// The fallback file.
    pub closed spec fn spec_file_path(&self) -> Seq<char> {
        self.file.spec_path()
    }

    /// A fallback writer: an HTTP backend when an endpoint is configured,
    /// and always the file backend.
    pub fn new(endpoint: Option<String>, file_path: String) -> (r: FallbackWriter)
        ensures
            (match endpoint {
                Some(e) => r.spec_http_endpoint() == Some(e@),
                None => r.spec_http_endpoint() is None,
            }),
            r.spec_file_path() == file_path@,
    {
        FallbackWriter {
            http: match endpoint {
                Some(e) => Some(HttpWriter::new(e)),
                None => None,
            },
            file: FileWriter::new(file_path),
        }
    }

    /// The first attempt for a batch. With an HTTP backend configured, an
    /// empty batch short-circuits to success without any call, and a
    /// non-empty one is posted as the batch body; with no HTTP backend the
    /// batch goes straight to the file, as wire lines in batch order.
    pub fn plan_write(&self, events: &Vec<Event>) -> (r: WritePlan)
        ensures
            (match self.spec_http_endpoint() {
                Some(ep) => {
                    if view_events(events@).len() == 0 {
                        r is Done
                    } else {
                        r matches WritePlan::PostHttp { endpoint, body } && endpoint@ == ep
                            && body@ == spec_batch_body(view_events(events@))
                    }
                },
                None => r matches WritePlan::AppendFile { path, payload } && path@
                    == self.spec_file_path() && payload@ == spec_event_lines(
                    view_events(events@),
                ),
            }),
    {
        match &self.http {
            Some(h) => {
                if events.len() == 0 {
                    WritePlan::Done
                } else {
                    WritePlan::PostHttp {
                        endpoint: String::from_str(h.endpoint()),
                        body: encode_batch_body(events),
                    }
                }
            },
            None => WritePlan::AppendFile {
                path: String::from_str(self.file.path()),
                payload: encode_event_lines(events),
            },
        }
    }

    /// The second attempt, after the HTTP backend failed: the same batch
    /// goes to the file backend, as wire lines in batch order — the batch
    /// is never dropped on an HTTP failure.
    pub fn plan_after_http_failure(&self, events: &Vec<Event>) -> (r: WritePlan)
        ensures
            r matches WritePlan::AppendFile { path, payload } && path@ == self.spec_file_path()
                && payload@ == spec_event_lines(view_events(events@)),
    {
        WritePlan::AppendFile {
            path: String::from_str(self.file.path()),
            payload: encode_event_lines(events),
        }
    }
}

/// The file payload keeps every event of the batch, in batch order: the
/// payload for a batch is the batch's wire lines one after another, so the
/// payload for `es` extended by one more event is the payload for `es`
/// followed by that event's line.
pub proof fn lemma_event_lines_order(es: Seq<EventView>, e: EventView)
    ensures
        spec_event_lines(es.push(e)) == spec_event_lines(es) + spec_event_json(e) + seq!['\n'],
    decreases es.len(),
{
    if es.len() == 0 {
        assert(es.push(e)[0] == e);
        assert(es.push(e).drop_first() =~= Seq::<EventView>::empty());
        assert(spec_event_lines(Seq::<EventView>::empty()) =~= Seq::<char>::empty());
        assert(spec_event_lines(es.push(e)) =~= spec_event_json(e) + seq!['\n']
            + Seq::<char>::empty());
        assert(spec_event_lines(es.push(e)) =~= spec_event_json(e) + seq!['\n']);
        assert(spec_event_lines(es) + spec_event_json(e) + seq!['\n'] =~= spec_event_json(e)
            + seq!['\n']);
    } else {
        lemma_event_lines_order(es.drop_first(), e);
        assert(es.push(e)[0] == es[0]);
        assert(es.push(e).drop_first() =~= es.drop_first().push(e));
        assert(spec_event_lines(es.push(e)) =~= spec_event_lines(es) + spec_event_json(e)
            + seq!['\n']);
    }
}

} // verus!
