//! The event wire codec: how an event is laid out as a wire object, and how
//! a wire object is read back as a client message.
//!
//! An event line holds `id`, `timestamp`, `level`, the flattened payload
//! members (`event_type` and its fields), and the nested `context` object.
//! Reading ignores `id` and `timestamp`: identity and admission time are
//! assigned by the daemon, never taken from the wire.

use vstd::prelude::*;
use vstd::string::StringExecFns;
use crate::event::{
    Event, EventContext, EventType, EventView, ContextView, EventTypeView, Level, MessageView,
    ClientMessage, TIMESTAMP_MAX_MS, spec_clamp_timestamp, spec_event_type_name, spec_level_name,
};
use crate::json::{
    Field, FieldView, Scalar, ScalarView, view_inner, view_top, print_top, spec_print_top,
    parse_top, spec_p_top, lemma_parse_print_top,
};
use crate::platform;

verus! {

// ------------------------------------------------------------------
// Writing an event
// ------------------------------------------------------------------

/// The members of the nested context object.
pub open spec fn spec_context_members(c: ContextView) -> Seq<(Seq<char>, ScalarView)> {
    let base = seq![
        ("installation_id"@, ScalarView::Text(c.installation_id)),
        ("tool_version"@, ScalarView::Text(c.tool_version)),
        ("python_version"@, ScalarView::Text(c.python_version)),
        ("os"@, ScalarView::Text(c.os)),
    ];
    match c.os_version {
        Some(v) => base.push(("os_version"@, ScalarView::Text(v))),
        None => base,
    }
}

/// The flattened members of an event payload: the tag and its fields.
pub open spec fn spec_payload_members(t: EventTypeView) -> Seq<(Seq<char>, FieldView)> {
    let tag = ("event_type"@, FieldView::Scalar(ScalarView::Text(spec_event_type_name(t))));
    match t {
        EventTypeView::ToolInvoked { tool, command } => seq![
            tag,
            ("tool"@, FieldView::Scalar(ScalarView::Text(tool))),
            ("command"@, FieldView::Scalar(ScalarView::Text(command))),
        ],
        EventTypeView::ToolSucceeded { tool, command, duration_ms } => seq![
            tag,
            ("tool"@, FieldView::Scalar(ScalarView::Text(tool))),
            ("command"@, FieldView::Scalar(ScalarView::Text(command))),
            ("duration_ms"@, FieldView::Scalar(ScalarView::Num(duration_ms))),
        ],
        EventTypeView::ToolFailed { tool, command, error_type, duration_ms } => seq![
            tag,
            ("tool"@, FieldView::Scalar(ScalarView::Text(tool))),
            ("command"@, FieldView::Scalar(ScalarView::Text(command))),
            ("error_type"@, FieldView::Scalar(ScalarView::Text(error_type))),
            ("duration_ms"@, FieldView::Scalar(ScalarView::Num(duration_ms))),
        ],
        EventTypeView::ExceptionUnhandled { tool, exception_type, traceback } => {
            let base = seq![
                tag,
                ("tool"@, FieldView::Scalar(ScalarView::Text(tool))),
                ("exception_type"@, FieldView::Scalar(ScalarView::Text(exception_type))),
            ];
            match traceback {
                Some(tb) => base.push(("traceback"@, FieldView::Scalar(ScalarView::Text(tb)))),
                None => base,
            }
        },
        EventTypeView::ValidationFailed { tool, validation_type, details } => {
            let base = seq![
                tag,
                ("tool"@, FieldView::Scalar(ScalarView::Text(tool))),
                ("validation_type"@, FieldView::Scalar(ScalarView::Text(validation_type))),
            ];
            match details {
                Some(d) => base.push(("details"@, FieldView::Scalar(ScalarView::Text(d)))),
                None => base,
            }
        },
        EventTypeView::DaemonStarted { parent_pid } => seq![
            tag,
            ("parent_pid"@, FieldView::Scalar(ScalarView::Num(parent_pid as u64))),
        ],
        EventTypeView::DaemonStopping { reason } => seq![
            tag,
            ("reason"@, FieldView::Scalar(ScalarView::Text(reason))),
        ],
    }
}

/// The members of a whole event line.
pub open spec fn spec_event_members(e: EventView) -> Seq<(Seq<char>, FieldView)> {
    seq![
        ("id"@, FieldView::Scalar(ScalarView::Text(e.id))),
        (
            "timestamp"@,
            FieldView::Scalar(
                ScalarView::Text(platform::rfc3339_of(spec_clamp_timestamp(e.timestamp_ms))),
            ),
        ),
        ("level"@, FieldView::Scalar(ScalarView::Text(spec_level_name(e.level)))),
    ] + spec_payload_members(e.event) + seq![
        ("context"@, FieldView::Object(spec_context_members(e.context))),
    ]
}

/// The one-line wire rendering of an event.
pub open spec fn spec_event_json(e: EventView) -> Seq<char> {
    spec_print_top(spec_event_members(e))
}

/// Build the nested context object of an event line.
fn context_fields(c: &EventContext) -> (r: Vec<(String, Scalar)>)
    ensures
        view_inner(r@) == spec_context_members(c@),
{
    let mut r: Vec<(String, Scalar)> = Vec::new();
    r.push((String::from_str("installation_id"), Scalar::Text(c.installation_id.clone())));
    r.push((String::from_str("tool_version"), Scalar::Text(c.tool_version.clone())));
    r.push((String::from_str("python_version"), Scalar::Text(c.python_version.clone())));
    r.push((String::from_str("os"), Scalar::Text(c.os.clone())));
    match &c.os_version {
        Some(v) => {
            r.push((String::from_str("os_version"), Scalar::Text(v.clone())));
        },
        None => {},
    }
    proof {
        assert(view_inner(r@) =~= spec_context_members(c@));
    }
    r
}

/// Append the flattened payload members of an event line.
fn push_payload_fields(r: &mut Vec<(String, Field)>, t: &EventType)
    ensures
        view_top(final(r)@) == view_top(old(r)@) + spec_payload_members(t@),
{
    r.push((String::from_str("event_type"), Field::Scalar(Scalar::Text(
        String::from_str(t.event_type_name()),
    ))));
    match t {
        EventType::ToolInvoked { tool, command } => {
            r.push((String::from_str("tool"), Field::Scalar(Scalar::Text(tool.clone()))));
            r.push((String::from_str("command"), Field::Scalar(Scalar::Text(command.clone()))));
        },
        EventType::ToolSucceeded { tool, command, duration_ms } => {
            r.push((String::from_str("tool"), Field::Scalar(Scalar::Text(tool.clone()))));
            r.push((String::from_str("command"), Field::Scalar(Scalar::Text(command.clone()))));
            r.push((String::from_str("duration_ms"), Field::Scalar(Scalar::Num(*duration_ms))));
        },
        EventType::ToolFailed { tool, command, error_type, duration_ms } => {
            r.push((String::from_str("tool"), Field::Scalar(Scalar::Text(tool.clone()))));
            r.push((String::from_str("command"), Field::Scalar(Scalar::Text(command.clone()))));
            r.push((String::from_str("error_type"), Field::Scalar(Scalar::Text(
                error_type.clone(),
            ))));
            r.push((String::from_str("duration_ms"), Field::Scalar(Scalar::Num(*duration_ms))));
        },
        EventType::ExceptionUnhandled { tool, exception_type, traceback } => {
            r.push((String::from_str("tool"), Field::Scalar(Scalar::Text(tool.clone()))));
            r.push((String::from_str("exception_type"), Field::Scalar(Scalar::Text(
                exception_type.clone(),
            ))));
            match traceback {
                Some(tb) => {
                    r.push((String::from_str("traceback"), Field::Scalar(Scalar::Text(
                        tb.clone(),
                    ))));
                },
                None => {},
            }
        },
        EventType::ValidationFailed { tool, validation_type, details } => {
            r.push((String::from_str("tool"), Field::Scalar(Scalar::Text(tool.clone()))));
            r.push((String::from_str("validation_type"), Field::Scalar(Scalar::Text(
                validation_type.clone(),
            ))));
            match details {
                Some(d) => {
                    r.push((String::from_str("details"), Field::Scalar(Scalar::Text(d.clone()))));
                },
                None => {},
            }
        },
        EventType::DaemonStarted { parent_pid } => {
            r.push((String::from_str("parent_pid"), Field::Scalar(Scalar::Num(
                *parent_pid as u64,
            ))));
        },
        EventType::DaemonStopping { reason } => {
            r.push((String::from_str("reason"), Field::Scalar(Scalar::Text(reason.clone()))));
        },
    }
    proof {
        assert(view_top(r@) =~= view_top(old(r)@) + spec_payload_members(t@));
    }
}

/// Build the members of a whole event line.
pub fn event_fields(e: &Event) -> (r: Vec<(String, Field)>)
    ensures
        view_top(r@) == spec_event_members(e@),
{
    let mut r: Vec<(String, Field)> = Vec::new();
    r.push((String::from_str("id"), Field::Scalar(Scalar::Text(e.id.clone()))));
    let ts: i64 = if e.timestamp_ms < 0 {
        0
    } else if e.timestamp_ms > TIMESTAMP_MAX_MS {
        TIMESTAMP_MAX_MS
    } else {
        e.timestamp_ms
    };
    assert(ts == spec_clamp_timestamp(e.timestamp_ms));
    r.push((String::from_str("timestamp"), Field::Scalar(Scalar::Text(
        platform::format_rfc3339_millis(ts),
    ))));
    r.push((String::from_str("level"), Field::Scalar(Scalar::Text(String::from_str(
        e.level.as_str(),
    )))));
    let ghost head = view_top(r@);
    proof {
        assert(head =~= seq![
            ("id"@, FieldView::Scalar(ScalarView::Text(e@.id))),
            (
                "timestamp"@,
                FieldView::Scalar(
                    ScalarView::Text(
                        platform::rfc3339_of(spec_clamp_timestamp(e@.timestamp_ms)),
                    ),
                ),
            ),
            ("level"@, FieldView::Scalar(ScalarView::Text(spec_level_name(e@.level)))),
        ]);
    }
    push_payload_fields(&mut r, &e.event);
    let ghost mid = view_top(r@);
    r.push((String::from_str("context"), Field::Object(context_fields(&e.context))));
    proof {
        assert(view_top(r@) =~= mid.push(
            ("context"@, FieldView::Object(spec_context_members(e@.context))),
        ));
        assert(view_top(r@) =~= spec_event_members(e@));
    }
    r
}

/// Render an event as one wire line (without the trailing newline).
pub fn event_json_line(e: &Event) -> (r: String)
    ensures
        r@ == spec_event_json(e@),
{
    let fields = event_fields(e);
    print_top(&fields)
}

} // verus!

// ------------------------------------------------------------------
// Reading a client message
// ------------------------------------------------------------------

verus! {

/// The first member with the given key, if any.
pub open spec fn spec_lookup_field(ms: Seq<(Seq<char>, FieldView)>, k: Seq<char>) -> Option<
    FieldView,
>
    decreases ms.len(),
{
    if ms.len() == 0 {
        None
    } else if ms[0].0 == k {
        Some(ms[0].1)
    } else {
        spec_lookup_field(ms.drop_first(), k)
    }
}

/// The first member of a nested object with the given key, if any.
pub open spec fn spec_lookup_scalar(ms: Seq<(Seq<char>, ScalarView)>, k: Seq<char>) -> Option<
    ScalarView,
>
    decreases ms.len(),
{
    if ms.len() == 0 {
        None
    } else if ms[0].0 == k {
        Some(ms[0].1)
    } else {
        spec_lookup_scalar(ms.drop_first(), k)
    }
}

/// A required string member: present and a string.
pub open spec fn spec_get_text(ms: Seq<(Seq<char>, FieldView)>, k: Seq<char>) -> Option<Seq<char>> {
    match spec_lookup_field(ms, k) {
        Some(FieldView::Scalar(ScalarView::Text(s))) => Some(s),
        _ => None,
    }
}

/// A required number member: present and an unsigned integer.
pub open spec fn spec_get_num(ms: Seq<(Seq<char>, FieldView)>, k: Seq<char>) -> Option<u64> {
    match spec_lookup_field(ms, k) {
        Some(FieldView::Scalar(ScalarView::Num(n))) => Some(n),
        _ => None,
    }
}

/// An optional string member: absent or null reads as nothing, a string
/// reads as itself, any other shape is an error.
pub open spec fn spec_get_opt_text(ms: Seq<(Seq<char>, FieldView)>, k: Seq<char>) -> Option<
    Option<Seq<char>>,
> {
    match spec_lookup_field(ms, k) {
        None => Some(None),
        Some(FieldView::Scalar(ScalarView::Null)) => Some(None),
        Some(FieldView::Scalar(ScalarView::Text(s))) => Some(Some(s)),
        _ => None,
    }
}

/// A required string member of a nested object.
pub open spec fn spec_get_text_inner(ms: Seq<(Seq<char>, ScalarView)>, k: Seq<char>) -> Option<
    Seq<char>,
> {
    match spec_lookup_scalar(ms, k) {
        Some(ScalarView::Text(s)) => Some(s),
        _ => None,
    }
}

/// An optional string member of a nested object.
pub open spec fn spec_get_opt_text_inner(ms: Seq<(Seq<char>, ScalarView)>, k: Seq<char>) -> Option<
    Option<Seq<char>>,
> {
    match spec_lookup_scalar(ms, k) {
        None => Some(None),
        Some(ScalarView::Null) => Some(None),
        Some(ScalarView::Text(s)) => Some(Some(s)),
        _ => None,
    }
}

/// The level named by an upper-case wire name, if any.
pub open spec fn spec_level_of_name(s: Seq<char>) -> Option<Level> {
    if s == "DEBUG"@ {
        Some(Level::Debug)
    } else if s == "INFO"@ {
        Some(Level::Info)
    } else if s == "WARNING"@ {
        Some(Level::Warning)
    } else if s == "ERROR"@ {
        Some(Level::Error)
    } else if s == "CRITICAL"@ {
        Some(Level::Critical)
    } else if s == "FATAL"@ {
        Some(Level::Fatal)
    } else {
        None
    }
}

/// The context read from a nested object's members.
pub open spec fn spec_context_of(ms: Seq<(Seq<char>, ScalarView)>) -> Option<ContextView> {
    match (
        spec_get_text_inner(ms, "installation_id"@),
        spec_get_text_inner(ms, "tool_version"@),
        spec_get_text_inner(ms, "python_version"@),
        spec_get_text_inner(ms, "os"@),
        spec_get_opt_text_inner(ms, "os_version"@),
    ) {
        (Some(iid), Some(tv), Some(pv), Some(os), Some(ov)) => Some(ContextView {
            installation_id: iid,
            tool_version: tv,
            python_version: pv,
            os: os,
            os_version: ov,
        }),
        _ => None,
    }
}

/// The context member of an event line: present, an object, and readable.
pub open spec fn spec_context_field_of(ms: Seq<(Seq<char>, FieldView)>) -> Option<ContextView> {
    match spec_lookup_field(ms, "context"@) {
        Some(FieldView::Object(cms)) => spec_context_of(cms),
        _ => None,
    }
}

/// The payload read from an event line's flattened members.
pub open spec fn spec_payload_of(ms: Seq<(Seq<char>, FieldView)>) -> Option<EventTypeView> {
    match spec_get_text(ms, "event_type"@) {
        None => None,
        Some(name) => {
            if name == "tool_invoked"@ {
                match (spec_get_text(ms, "tool"@), spec_get_text(ms, "command"@)) {
                    (Some(t), Some(c)) => Some(EventTypeView::ToolInvoked { tool: t, command: c }),
                    _ => None,
                }
            } else if name == "tool_succeeded"@ {
                match (
                    spec_get_text(ms, "tool"@),
                    spec_get_text(ms, "command"@),
                    spec_get_num(ms, "duration_ms"@),
                ) {
                    (Some(t), Some(c), Some(d)) => Some(EventTypeView::ToolSucceeded {
                        tool: t,
                        command: c,
                        duration_ms: d,
                    }),
                    _ => None,
                }
            } else if name == "tool_failed"@ {
                match (
                    spec_get_text(ms, "tool"@),
                    spec_get_text(ms, "command"@),
                    spec_get_text(ms, "error_type"@),
                    spec_get_num(ms, "duration_ms"@),
                ) {
                    (Some(t), Some(c), Some(et), Some(d)) => Some(EventTypeView::ToolFailed {
                        tool: t,
                        command: c,
                        error_type: et,
                        duration_ms: d,
                    }),
                    _ => None,
                }
            } else if name == "exception_unhandled"@ {
                match (
                    spec_get_text(ms, "tool"@),
                    spec_get_text(ms, "exception_type"@),
                    spec_get_opt_text(ms, "traceback"@),
                ) {
                    (Some(t), Some(et), Some(tb)) => Some(EventTypeView::ExceptionUnhandled {
                        tool: t,
                        exception_type: et,
                        traceback: tb,
                    }),
                    _ => None,
                }
            } else if name == "validation_failed"@ {
                match (
                    spec_get_text(ms, "tool"@),
                    spec_get_text(ms, "validation_type"@),
                    spec_get_opt_text(ms, "details"@),
                ) {
                    (Some(t), Some(vt), Some(d)) => Some(EventTypeView::ValidationFailed {
                        tool: t,
                        validation_type: vt,
                        details: d,
                    }),
                    _ => None,
                }
            } else if name == "daemon_started"@ {
                match spec_get_num(ms, "parent_pid"@) {
                    Some(p) => if p <= u32::MAX {
                        Some(EventTypeView::DaemonStarted { parent_pid: p as u32 })
                    } else {
                        None
                    },
                    None => None,
                }
            } else if name == "daemon_stopping"@ {
                match spec_get_text(ms, "reason"@) {
                    Some(rsn) => Some(EventTypeView::DaemonStopping { reason: rsn }),
                    None => None,
                }
            } else {
                None
            }
        },
    }
}

/// The message read from an event line's members.
pub open spec fn spec_message_of_fields(ms: Seq<(Seq<char>, FieldView)>) -> Option<MessageView> {
    match (
        spec_get_text(ms, "level"@),
        spec_payload_of(ms),
        spec_context_field_of(ms),
    ) {
        (Some(ln), Some(ev), Some(c)) => match spec_level_of_name(ln) {
            Some(l) => Some(MessageView { level: l, event: ev, context: c }),
            None => None,
        },
        _ => None,
    }
}

/// The message read from one wire line, if the line is a well-formed wire
/// object carrying a well-formed message.
pub open spec fn spec_parse_message(s: Seq<char>) -> Option<MessageView> {
    match spec_p_top(s) {
        None => None,
        Some(ms) => spec_message_of_fields(ms),
    }
}

} // verus!

verus! {

/// Find the first member with the given key and read it as a string.
fn get_text(ms: &Vec<(String, Field)>, k: &str) -> (r: Option<String>)
    ensures
        r is Some <==> spec_get_text(view_top(ms@), k@) is Some,
        r matches Some(s) ==> spec_get_text(view_top(ms@), k@) == Some(s@),
{
    let ghost vt = view_top(ms@);
    let n = ms.len();
    proof {
        assert(vt.skip(0) =~= vt);
    }
    for i in 0..n
        invariant
            n == ms@.len(),
            vt == view_top(ms@),
            spec_lookup_field(vt, k@) == spec_lookup_field(vt.skip(i as int), k@),
    {
        proof {
            assert(vt.skip(i as int)[0] == (ms@[i as int].0@, ms@[i as int].1@));
            assert(vt.skip(i as int).drop_first() =~= vt.skip(i + 1));
        }
        if crate::text::str_eq(ms[i].0.as_str(), k) {
            match &ms[i].1 {
                Field::Scalar(Scalar::Text(s)) => {
                    return Some(s.clone());
                },
                _ => {
                    return None;
                },
            }
        }
    }
    proof {
        assert(vt.skip(n as int) =~= Seq::<(Seq<char>, FieldView)>::empty());
    }
    None
}

/// Find the first member with the given key and read it as a number.
fn get_num(ms: &Vec<(String, Field)>, k: &str) -> (r: Option<u64>)
    ensures
        r == spec_get_num(view_top(ms@), k@),
{
    let ghost vt = view_top(ms@);
    let n = ms.len();
    proof {
        assert(vt.skip(0) =~= vt);
    }
    for i in 0..n
        invariant
            n == ms@.len(),
            vt == view_top(ms@),
            spec_lookup_field(vt, k@) == spec_lookup_field(vt.skip(i as int), k@),
    {
        proof {
            assert(vt.skip(i as int)[0] == (ms@[i as int].0@, ms@[i as int].1@));
            assert(vt.skip(i as int).drop_first() =~= vt.skip(i + 1));
        }
        if crate::text::str_eq(ms[i].0.as_str(), k) {
            match &ms[i].1 {
                Field::Scalar(Scalar::Num(x)) => {
                    return Some(*x);
                },
                _ => {
                    return None;
                },
            }
        }
    }
    proof {
        assert(vt.skip(n as int) =~= Seq::<(Seq<char>, FieldView)>::empty());
    }
    None
}

/// Find an optional string member: absent or null reads as nothing.
fn get_opt_text(ms: &Vec<(String, Field)>, k: &str) -> (r: Option<Option<String>>)
    ensures
        r is Some <==> spec_get_opt_text(view_top(ms@), k@) is Some,
        r matches Some(o) ==> (match o {
            Some(s) => spec_get_opt_text(view_top(ms@), k@) == Some(Some(s@)),
            None => spec_get_opt_text(view_top(ms@), k@) == Some(Option::<Seq<char>>::None),
        }),
{
    let ghost vt = view_top(ms@);
    let n = ms.len();
    proof {
        assert(vt.skip(0) =~= vt);
    }
    for i in 0..n
        invariant
            n == ms@.len(),
            vt == view_top(ms@),
            spec_lookup_field(vt, k@) == spec_lookup_field(vt.skip(i as int), k@),
    {
        proof {
            assert(vt.skip(i as int)[0] == (ms@[i as int].0@, ms@[i as int].1@));
            assert(vt.skip(i as int).drop_first() =~= vt.skip(i + 1));
        }
        if crate::text::str_eq(ms[i].0.as_str(), k) {
            match &ms[i].1 {
                Field::Scalar(Scalar::Text(s)) => {
                    return Some(Some(s.clone()));
                },
                Field::Scalar(Scalar::Null) => {
                    return Some(None);
                },
                _ => {
                    return None;
                },
            }
        }
    }
    proof {
        assert(vt.skip(n as int) =~= Seq::<(Seq<char>, FieldView)>::empty());
    }
    Some(None)
}

/// Find the first nested-object member with the given key and read it as a
/// string.
fn get_text_inner(ms: &Vec<(String, Scalar)>, k: &str) -> (r: Option<String>)
    ensures
        r is Some <==> spec_get_text_inner(view_inner(ms@), k@) is Some,
        r matches Some(s) ==> spec_get_text_inner(view_inner(ms@), k@) == Some(s@),
{
    let ghost vt = view_inner(ms@);
    let n = ms.len();
    proof {
        assert(vt.skip(0) =~= vt);
    }
    for i in 0..n
        invariant
            n == ms@.len(),
            vt == view_inner(ms@),
            spec_lookup_scalar(vt, k@) == spec_lookup_scalar(vt.skip(i as int), k@),
    {
        proof {
            assert(vt.skip(i as int)[0] == (ms@[i as int].0@, ms@[i as int].1@));
            assert(vt.skip(i as int).drop_first() =~= vt.skip(i + 1));
        }
        if crate::text::str_eq(ms[i].0.as_str(), k) {
            match &ms[i].1 {
                Scalar::Text(s) => {
                    return Some(s.clone());
                },
                _ => {
                    return None;
                },
            }
        }
    }
    proof {
        assert(vt.skip(n as int) =~= Seq::<(Seq<char>, ScalarView)>::empty());
    }
    None
}

/// Find an optional string member of a nested object.
fn get_opt_text_inner(ms: &Vec<(String, Scalar)>, k: &str) -> (r: Option<Option<String>>)
    ensures
        r is Some <==> spec_get_opt_text_inner(view_inner(ms@), k@) is Some,
        r matches Some(o) ==> (match o {
            Some(s) => spec_get_opt_text_inner(view_inner(ms@), k@) == Some(Some(s@)),
            None => spec_get_opt_text_inner(view_inner(ms@), k@) == Some(
                Option::<Seq<char>>::None,
            ),
        }),
{
    let ghost vt = view_inner(ms@);
    let n = ms.len();
    proof {
        assert(vt.skip(0) =~= vt);
    }
    for i in 0..n
        invariant
            n == ms@.len(),
            vt == view_inner(ms@),
            spec_lookup_scalar(vt, k@) == spec_lookup_scalar(vt.skip(i as int), k@),
    {
        proof {
            assert(vt.skip(i as int)[0] == (ms@[i as int].0@, ms@[i as int].1@));
            assert(vt.skip(i as int).drop_first() =~= vt.skip(i + 1));
        }
        if crate::text::str_eq(ms[i].0.as_str(), k) {
            match &ms[i].1 {
                Scalar::Text(s) => {
                    return Some(Some(s.clone()));
                },
                Scalar::Null => {
                    return Some(None);
                },
                _ => {
                    return None;
                },
            }
        }
    }
    proof {
        assert(vt.skip(n as int) =~= Seq::<(Seq<char>, ScalarView)>::empty());
    }
    Some(None)
}

/// Read a context from a nested object's members.
fn context_from_fields(ms: &Vec<(String, Scalar)>) -> (r: Option<EventContext>)
    ensures
        r is Some <==> spec_context_of(view_inner(ms@)) is Some,
        r matches Some(c) ==> spec_context_of(view_inner(ms@)) == Some(c@),
{
    let iid = match get_text_inner(ms, "installation_id") {
        Some(s) => s,
        None => {
            return None;
        },
    };
    let tv = match get_text_inner(ms, "tool_version") {
        Some(s) => s,
        None => {
            return None;
        },
    };
    let pv = match get_text_inner(ms, "python_version") {
        Some(s) => s,
        None => {
            return None;
        },
    };
    let os = match get_text_inner(ms, "os") {
        Some(s) => s,
        None => {
            return None;
        },
    };
    let ov = match get_opt_text_inner(ms, "os_version") {
        Some(o) => o,
        None => {
            return None;
        },
    };
    Some(EventContext {
        installation_id: iid,
        tool_version: tv,
        python_version: pv,
        os,
        os_version: ov,
    })
}

/// Read the context member of an event line.
fn context_field_from_fields(ms: &Vec<(String, Field)>) -> (r: Option<EventContext>)
    ensures
        r is Some <==> spec_context_field_of(view_top(ms@)) is Some,
        r matches Some(c) ==> spec_context_field_of(view_top(ms@)) == Some(c@),
{
    let ghost vt = view_top(ms@);
    let n = ms.len();
    proof {
        assert(vt.skip(0) =~= vt);
    }
    for i in 0..n
        invariant
            n == ms@.len(),
            vt == view_top(ms@),
            spec_lookup_field(vt, "context"@) == spec_lookup_field(vt.skip(i as int), "context"@),
    {
        proof {
            assert(vt.skip(i as int)[0] == (ms@[i as int].0@, ms@[i as int].1@));
            assert(vt.skip(i as int).drop_first() =~= vt.skip(i + 1));
        }
        if crate::text::str_eq(ms[i].0.as_str(), "context") {
            match &ms[i].1 {
                Field::Object(cms) => {
                    return context_from_fields(cms);
                },
                _ => {
                    return None;
                },
            }
        }
    }
    proof {
        assert(vt.skip(n as int) =~= Seq::<(Seq<char>, FieldView)>::empty());
    }
    None
}

/// Read the payload from an event line's flattened members.
fn payload_from_fields(ms: &Vec<(String, Field)>) -> (r: Option<EventType>)
    ensures
        r is Some <==> spec_payload_of(view_top(ms@)) is Some,
        r matches Some(t) ==> spec_payload_of(view_top(ms@)) == Some(t@),
{
    let name = match get_text(ms, "event_type") {
        Some(s) => s,
        None => {
            return None;
        },
    };
    if crate::text::str_eq(name.as_str(), "tool_invoked") {
        match (get_text(ms, "tool"), get_text(ms, "command")) {
            (Some(t), Some(c)) => Some(EventType::ToolInvoked { tool: t, command: c }),
            _ => None,
        }
    } else if crate::text::str_eq(name.as_str(), "tool_succeeded") {
        match (get_text(ms, "tool"), get_text(ms, "command"), get_num(ms, "duration_ms")) {
            (Some(t), Some(c), Some(d)) => Some(EventType::ToolSucceeded {
                tool: t,
                command: c,
                duration_ms: d,
            }),
            _ => None,
        }
    } else if crate::text::str_eq(name.as_str(), "tool_failed") {
        match (
            get_text(ms, "tool"),
            get_text(ms, "command"),
            get_text(ms, "error_type"),
            get_num(ms, "duration_ms"),
        ) {
            (Some(t), Some(c), Some(et), Some(d)) => Some(EventType::ToolFailed {
                tool: t,
                command: c,
                error_type: et,
                duration_ms: d,
            }),
            _ => None,
        }
    } else if crate::text::str_eq(name.as_str(), "exception_unhandled") {
        match (get_text(ms, "tool"), get_text(ms, "exception_type"), get_opt_text(ms, "traceback"))
            {
            (Some(t), Some(et), Some(tb)) => Some(EventType::ExceptionUnhandled {
                tool: t,
                exception_type: et,
                traceback: tb,
            }),
            _ => None,
        }
    } else if crate::text::str_eq(name.as_str(), "validation_failed") {
        match (get_text(ms, "tool"), get_text(ms, "validation_type"), get_opt_text(ms, "details"))
            {
            (Some(t), Some(vt), Some(d)) => Some(EventType::ValidationFailed {
                tool: t,
                validation_type: vt,
                details: d,
            }),
            _ => None,
        }
    } else if crate::text::str_eq(name.as_str(), "daemon_started") {
        match get_num(ms, "parent_pid") {
            Some(p) => {
                if p <= 4294967295u64 {
                    Some(EventType::DaemonStarted { parent_pid: p as u32 })
                } else {
                    None
                }
            },
            None => None,
        }
    } else if crate::text::str_eq(name.as_str(), "daemon_stopping") {
        match get_text(ms, "reason") {
            Some(rsn) => Some(EventType::DaemonStopping { reason: rsn }),
            None => None,
        }
    } else {
        None
    }
}

/// Read a message from an event line's members.
pub fn message_from_fields(ms: &Vec<(String, Field)>) -> (r: Option<ClientMessage>)
    ensures
        r is Some <==> spec_message_of_fields(view_top(ms@)) is Some,
        r matches Some(m) ==> spec_message_of_fields(view_top(ms@)) == Some(m@),
{
    let ln = match get_text(ms, "level") {
        Some(s) => s,
        None => {
            return None;
        },
    };
    let level = if crate::text::str_eq(ln.as_str(), "DEBUG") {
        Level::Debug
    } else if crate::text::str_eq(ln.as_str(), "INFO") {
        Level::Info
    } else if crate::text::str_eq(ln.as_str(), "WARNING") {
        Level::Warning
    } else if crate::text::str_eq(ln.as_str(), "ERROR") {
        Level::Error
    } else if crate::text::str_eq(ln.as_str(), "CRITICAL") {
        Level::Critical
    } else if crate::text::str_eq(ln.as_str(), "FATAL") {
        Level::Fatal
    } else {
        return None;
    };
    let payload = match payload_from_fields(ms) {
        Some(t) => t,
        None => {
            return None;
        },
    };
    let context = match context_field_from_fields(ms) {
        Some(c) => c,
        None => {
            return None;
        },
    };
    Some(ClientMessage { level, event: payload, context })
}

/// Parse one wire line as a client message.
pub fn parse_client_message(line: &str) -> (r: Option<ClientMessage>)
    ensures
        r is Some <==> spec_parse_message(line@) is Some,
        r matches Some(m) ==> spec_parse_message(line@) == Some(m@),
{
    let chars = crate::text::str_to_chars(line);
    match parse_top(&chars) {
        Some(fields) => message_from_fields(&fields),
        None => None,
    }
}

} // verus!

// ------------------------------------------------------------------
// The wire round trip
// ------------------------------------------------------------------

verus! {

/// Looking a key up in a concatenation reads the left part first.
proof fn lemma_lookup_split(a: Seq<(Seq<char>, FieldView)>, b: Seq<(Seq<char>, FieldView)>, k: Seq<char>)
    ensures
        spec_lookup_field(a + b, k) == (if spec_lookup_field(a, k) is Some {
            spec_lookup_field(a, k)
        } else {
            spec_lookup_field(b, k)
        }),
    decreases a.len(),
{
    if a.len() == 0 {
        assert(a + b =~= b);
    } else {
        assert((a + b)[0] == a[0]);
        assert((a + b).drop_first() =~= a.drop_first() + b);
        lemma_lookup_split(a.drop_first(), b, k);
    }
}

/// Looking up the key that stands at `i`, with no earlier member named the
/// same, finds that member.
proof fn lemma_lookup_at(ms: Seq<(Seq<char>, FieldView)>, k: Seq<char>, i: int)
    requires
        0 <= i < ms.len(),
        ms[i].0 == k,
        forall|j: int| 0 <= j < i ==> ms[j].0 != k,
    ensures
        spec_lookup_field(ms, k) == Some(ms[i].1),
    decreases i,
{
    if i > 0 {
        assert(ms.drop_first()[i - 1] == ms[i]);
        lemma_lookup_at(ms.drop_first(), k, i - 1);
    }
}

/// Looking up a key that no member carries finds nothing.
proof fn lemma_lookup_absent(ms: Seq<(Seq<char>, FieldView)>, k: Seq<char>)
    requires
        forall|j: int| 0 <= j < ms.len() ==> ms[j].0 != k,
    ensures
        spec_lookup_field(ms, k) == Option::<FieldView>::None,
    decreases ms.len(),
{
    if ms.len() > 0 {
        lemma_lookup_absent(ms.drop_first(), k);
    }
}

/// The scalar-member counterpart of `lemma_lookup_at`.
proof fn lemma_lookup_scalar_at(ms: Seq<(Seq<char>, ScalarView)>, k: Seq<char>, i: int)
    requires
        0 <= i < ms.len(),
        ms[i].0 == k,
        forall|j: int| 0 <= j < i ==> ms[j].0 != k,
    ensures
        spec_lookup_scalar(ms, k) == Some(ms[i].1),
    decreases i,
{
    if i > 0 {
        assert(ms.drop_first()[i - 1] == ms[i]);
        lemma_lookup_scalar_at(ms.drop_first(), k, i - 1);
    }
}

/// The scalar-member counterpart of `lemma_lookup_absent`.
proof fn lemma_lookup_scalar_absent(ms: Seq<(Seq<char>, ScalarView)>, k: Seq<char>)
    requires
        forall|j: int| 0 <= j < ms.len() ==> ms[j].0 != k,
    ensures
        spec_lookup_scalar(ms, k) == Option::<ScalarView>::None,
    decreases ms.len(),
{
    if ms.len() > 0 {
        lemma_lookup_scalar_absent(ms.drop_first(), k);
    }
}

/// A level's wire name reads back as the level.
proof fn lemma_level_name_roundtrip(l: Level)
    ensures
        spec_level_of_name(spec_level_name(l)) == Some(l),
{
    reveal_strlit("DEBUG");
    reveal_strlit("INFO");
    reveal_strlit("WARNING");
    reveal_strlit("ERROR");
    reveal_strlit("CRITICAL");
    reveal_strlit("FATAL");
    assert("DEBUG"@.len() == 5 && "INFO"@.len() == 4 && "WARNING"@.len() == 7 && "ERROR"@.len()
        == 5 && "CRITICAL"@.len() == 8 && "FATAL"@.len() == 5);
    assert("DEBUG"@[0] == 'D' && "ERROR"@[0] == 'E' && "FATAL"@[0] == 'F');
}

/// A context's wire members read back as the context.
proof fn lemma_context_roundtrip(c: ContextView)
    ensures
        spec_context_of(spec_context_members(c)) == Some(c),
{
    reveal_strlit("installation_id");
    reveal_strlit("tool_version");
    reveal_strlit("python_version");
    reveal_strlit("os");
    reveal_strlit("os_version");
    assert("installation_id"@.len() == 15 && "tool_version"@.len() == 12 && "python_version"@.len()
        == 14 && "os"@.len() == 2 && "os_version"@.len() == 10);
    assert("tool_version"@[0] == 't' && "python_version"@[0] == 'p');
    let ms = spec_context_members(c);
    lemma_lookup_scalar_at(ms, "installation_id"@, 0);
    lemma_lookup_scalar_at(ms, "tool_version"@, 1);
    lemma_lookup_scalar_at(ms, "python_version"@, 2);
    lemma_lookup_scalar_at(ms, "os"@, 3);
    match c.os_version {
        Some(v) => {
            lemma_lookup_scalar_at(ms, "os_version"@, 4);
        },
        None => {
            lemma_lookup_scalar_absent(ms, "os_version"@);
        },
    }
}

/// An event's wire members read back as the message the event carries: the
/// identity and admission-time members are ignored, everything else is
/// recovered exactly.
proof fn lemma_message_of_event_members(e: EventView)
    ensures
        spec_message_of_fields(spec_event_members(e)) == Some(
            MessageView { level: e.level, event: e.event, context: e.context },
        ),
{
    reveal_strlit("id");
    reveal_strlit("timestamp");
    reveal_strlit("level");
    reveal_strlit("event_type");
    reveal_strlit("tool");
    reveal_strlit("command");
    reveal_strlit("duration_ms");
    reveal_strlit("error_type");
    reveal_strlit("exception_type");
    reveal_strlit("traceback");
    reveal_strlit("validation_type");
    reveal_strlit("details");
    reveal_strlit("parent_pid");
    reveal_strlit("reason");
    reveal_strlit("context");
    reveal_strlit("tool_invoked");
    reveal_strlit("tool_succeeded");
    reveal_strlit("tool_failed");
    reveal_strlit("exception_unhandled");
    reveal_strlit("validation_failed");
    reveal_strlit("daemon_started");
    reveal_strlit("daemon_stopping");
    assert("id"@.len() == 2 && "timestamp"@.len() == 9 && "level"@.len() == 5
        && "event_type"@.len() == 10 && "tool"@.len() == 4 && "command"@.len() == 7
        && "duration_ms"@.len() == 11 && "error_type"@.len() == 10 && "exception_type"@.len()
        == 14 && "traceback"@.len() == 9 && "validation_type"@.len() == 15 && "details"@.len()
        == 7 && "parent_pid"@.len() == 10 && "reason"@.len() == 6 && "context"@.len() == 7);
    assert("tool_invoked"@.len() == 12 && "tool_succeeded"@.len() == 14 && "tool_failed"@.len()
        == 11 && "exception_unhandled"@.len() == 19 && "validation_failed"@.len() == 17
        && "daemon_started"@.len() == 14 && "daemon_stopping"@.len() == 15);
    assert("command"@[2] == 'm' && "context"@[2] == 'n' && "details"@[0] == 'd');
    assert("timestamp"@[0] == 't' && "traceback"@[0] == 't' && "timestamp"@[1] == 'i'
        && "traceback"@[1] == 'r');
    assert("level"@[0] == 'l' && "error_type"@[0] == 'e' && "event_type"@[0] == 'e'
        && "error_type"@[1] == 'r' && "event_type"@[1] == 'v');
    assert("tool_succeeded"@[0] == 't' && "daemon_started"@[0] == 'd');
    assert("tool_invoked"@[5] == 'i' && "tool_failed"@[5] == 'f' && "parent_pid"@[0] == 'p');
    let head = seq![
        ("id"@, FieldView::Scalar(ScalarView::Text(e.id))),
        (
            "timestamp"@,
            FieldView::Scalar(
                ScalarView::Text(platform::rfc3339_of(spec_clamp_timestamp(e.timestamp_ms))),
            ),
        ),
        ("level"@, FieldView::Scalar(ScalarView::Text(spec_level_name(e.level)))),
    ];
    let pay = spec_payload_members(e.event);
    let ctx = seq![("context"@, FieldView::Object(spec_context_members(e.context)))];
    let ms = spec_event_members(e);
    assert(ms == head + pay + ctx);
    assert forall|k: Seq<char>| spec_lookup_field(head, k) is None implies spec_lookup_field(
        ms,
        k,
    ) == (if spec_lookup_field(pay, k) is Some {
        spec_lookup_field(pay, k)
    } else {
        spec_lookup_field(ctx, k)
    }) by {
        lemma_lookup_split(head + pay, ctx, k);
        lemma_lookup_split(head, pay, k);
    };
    assert(spec_get_text(ms, "level"@) == Some(spec_level_name(e.level))) by {
        lemma_lookup_split(head + pay, ctx, "level"@);
        lemma_lookup_split(head, pay, "level"@);
        lemma_lookup_at(head, "level"@, 2);
    };
    lemma_level_name_roundtrip(e.level);
    assert(spec_context_field_of(ms) == Some(e.context)) by {
        assert(forall|j: int| 0 <= j < pay.len() ==> pay[j].0 != "context"@) by {
            match e.event {
                EventTypeView::ToolInvoked { .. } => {
                    assert(pay.len() == 3);
                },
                EventTypeView::ToolSucceeded { .. } => {
                    assert(pay.len() == 4);
                },
                EventTypeView::ToolFailed { .. } => {
                    assert(pay.len() == 5);
                },
                EventTypeView::ExceptionUnhandled { traceback, .. } => {
                    assert(pay.len() == 3 || pay.len() == 4);
                },
                EventTypeView::ValidationFailed { details, .. } => {
                    assert(pay.len() == 3 || pay.len() == 4);
                },
                EventTypeView::DaemonStarted { .. } => {
                    assert(pay.len() == 2);
                },
                EventTypeView::DaemonStopping { .. } => {
                    assert(pay.len() == 2);
                },
            }
        };
        lemma_lookup_absent(head, "context"@);
        lemma_lookup_absent(pay, "context"@);
        lemma_lookup_at(ctx, "context"@, 0);
        lemma_context_roundtrip(e.context);
    };
    assert(spec_payload_of(ms) == Some(e.event)) by {
        let tag = "event_type"@;
        lemma_lookup_absent(head, tag);
        lemma_lookup_at(pay, tag, 0);
        assert(spec_get_text(ms, tag) == Some(spec_event_type_name(e.event)));
        match e.event {
            EventTypeView::ToolInvoked { tool, command } => {
                lemma_lookup_absent(head, "tool"@);
                lemma_lookup_at(pay, "tool"@, 1);
                lemma_lookup_absent(head, "command"@);
                lemma_lookup_at(pay, "command"@, 2);
            },
            EventTypeView::ToolSucceeded { tool, command, duration_ms } => {
                lemma_lookup_absent(head, "tool"@);
                lemma_lookup_at(pay, "tool"@, 1);
                lemma_lookup_absent(head, "command"@);
                lemma_lookup_at(pay, "command"@, 2);
                lemma_lookup_absent(head, "duration_ms"@);
                lemma_lookup_at(pay, "duration_ms"@, 3);
            },
            EventTypeView::ToolFailed { tool, command, error_type, duration_ms } => {
                lemma_lookup_absent(head, "tool"@);
                lemma_lookup_at(pay, "tool"@, 1);
                lemma_lookup_absent(head, "command"@);
                lemma_lookup_at(pay, "command"@, 2);
                lemma_lookup_absent(head, "error_type"@);
                lemma_lookup_at(pay, "error_type"@, 3);
                lemma_lookup_absent(head, "duration_ms"@);
                lemma_lookup_at(pay, "duration_ms"@, 4);
            },
            EventTypeView::ExceptionUnhandled { tool, exception_type, traceback } => {
                lemma_lookup_absent(head, "tool"@);
                lemma_lookup_at(pay, "tool"@, 1);
                lemma_lookup_absent(head, "exception_type"@);
                lemma_lookup_at(pay, "exception_type"@, 2);
                lemma_lookup_absent(head, "traceback"@);
                match traceback {
                    Some(tb) => {
                        lemma_lookup_at(pay, "traceback"@, 3);
                    },
                    None => {
                        lemma_lookup_absent(pay, "traceback"@);
                        lemma_lookup_absent(ctx, "traceback"@);
                    },
                }
            },
            EventTypeView::ValidationFailed { tool, validation_type, details } => {
                lemma_lookup_absent(head, "tool"@);
                lemma_lookup_at(pay, "tool"@, 1);
                lemma_lookup_absent(head, "validation_type"@);
                lemma_lookup_at(pay, "validation_type"@, 2);
                lemma_lookup_absent(head, "details"@);
                match details {
                    Some(d) => {
                        lemma_lookup_at(pay, "details"@, 3);
                    },
                    None => {
                        lemma_lookup_absent(pay, "details"@);
                        lemma_lookup_absent(ctx, "details"@);
                    },
                }
            },
            EventTypeView::DaemonStarted { parent_pid } => {
                lemma_lookup_absent(head, "parent_pid"@);
                lemma_lookup_at(pay, "parent_pid"@, 1);
                assert(parent_pid as u64 <= u32::MAX);
                assert((parent_pid as u64) as u32 == parent_pid);
            },
            EventTypeView::DaemonStopping { reason } => {
                lemma_lookup_absent(head, "reason"@);
                lemma_lookup_at(pay, "reason"@, 1);
            },
        }
    };
}

/// The wire round trip: rendering an event as its wire line and reading the
/// line back yields a client message equal to the event in level, payload
/// and context. Identity and admission time are left behind by design: they
/// are reassigned when the message is admitted again.
pub proof fn lemma_wire_round_trip(e: EventView)
    ensures
        spec_parse_message(spec_event_json(e)) == Some(
            MessageView { level: e.level, event: e.event, context: e.context },
        ),
{
    lemma_parse_print_top(spec_event_members(e));
    lemma_message_of_event_members(e);
}

} // verus!
