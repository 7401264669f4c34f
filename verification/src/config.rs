//! Daemon configuration: the per-user data directory and the files under
//! it, the timing constants, and the environment-driven backend selection.
//!
//! The home directory and environment values come in as plain values; the
//! path arithmetic and the opt-out rules are pure and verified.

use vstd::prelude::*;
use vstd::string::StringExecFns;
use crate::platform;

verus! {

/// Seconds between periodic flushes.
pub const FLUSH_INTERVAL_SECS: u64 = 30;

/// Seconds between parent-liveness polls.
pub const PARENT_CHECK_INTERVAL_SECS: u64 = 5;

/// Seconds of sustained parent absence before the daemon shuts down.
pub const IDLE_TIMEOUT_SECS: u64 = 300;

/// A path that lies in the per-user data directory under some home.
pub open spec fn spec_under_data_dir(p: Seq<char>, name: Seq<char>) -> bool {
    exists|h: Seq<char>| p == #[trigger] (h + "/.infraiq/"@ + name)
}

/// The per-user data directory under the given home directory.
pub fn infraiq_dir_of(home: &str) -> (r: String)
    ensures
        r@ == home@ + "/.infraiq"@,
{
    let mut r = String::from_str(home);
    r.append("/.infraiq");
    r
}

/// The per-user data directory, when the platform reports a home.
pub fn get_infraiq_dir() -> (r: Option<String>)
    ensures
        r matches Some(d) ==> exists|h: Seq<char>| d@ == #[trigger] (h + "/.infraiq"@),
{
    match platform::home_dir() {
        Some(h) => {
            let d = infraiq_dir_of(h.as_str());
            proof {
                assert(d@ == h@ + "/.infraiq"@);
            }
            Some(d)
        },
        None => None,
    }
}

/// The path of a file directly under the per-user data directory of the
/// given home: the home, the data directory, and the file name, exactly.
pub fn data_file_of(home: &str, name: &str) -> (r: String)
    ensures
        r@ == home@ + "/.infraiq/"@ + name@,
{
    let mut p = infraiq_dir_of(home);
    p.append("/");
    p.append(name);
    proof {
        reveal_strlit("/.infraiq");
        reveal_strlit("/");
        reveal_strlit("/.infraiq/");
        assert(p@ =~= home@ + "/.infraiq/"@ + name@);
    }
    p
}

/// A file directly under the per-user data directory: the exact join of
/// whatever home the platform reported with the data directory and the
/// file name.
fn get_data_file(name: &str) -> (r: Option<String>)
    ensures
        r matches Some(p) ==> spec_under_data_dir(p@, name@),
{
    match platform::home_dir() {
        Some(h) => {
            let p = data_file_of(h.as_str(), name);
            proof {
                assert(p@ == h@ + "/.infraiq/"@ + name@);
            }
            Some(p)
        },
        None => None,
    }
}

/// The socket path, when the platform reports a home directory.
pub fn get_socket_path() -> (r: Option<String>)
    ensures
        r matches Some(p) ==> spec_under_data_dir(p@, "wraith.sock"@),
{
    get_data_file("wraith.sock")
}

/// The fallback event-log path, when the platform reports a home directory.
pub fn get_events_log_path() -> (r: Option<String>)
    ensures
        r matches Some(p) ==> spec_under_data_dir(p@, "events.log"@),
{
    get_data_file("events.log")
}

/// The installation-identifier file path, when the platform reports a home
/// directory.
pub fn get_install_id_path() -> (r: Option<String>)
    ensures
        r matches Some(p) ==> spec_under_data_dir(p@, "installation_id"@),
{
    get_data_file("installation_id")
}

/// The periodic flush interval, in seconds.
pub fn get_flush_interval() -> (r: u64)
    ensures
        r == FLUSH_INTERVAL_SECS,
{
    FLUSH_INTERVAL_SECS
}

/// The parent-liveness poll cadence, in seconds.
pub fn get_parent_check_interval() -> (r: u64)
    ensures
        r == PARENT_CHECK_INTERVAL_SECS,
{
    PARENT_CHECK_INTERVAL_SECS
}

/// The idle timeout after the parent exits, in seconds.
pub fn get_idle_timeout() -> (r: u64)
    ensures
        r == IDLE_TIMEOUT_SECS,
{
    IDLE_TIMEOUT_SECS
}

/// One character folded to lower case, for the ASCII letters.
pub open spec fn spec_ascii_lower(c: char) -> char {
    if 'A' <= c && c <= 'Z' {
        (((c as u8) + 32) as u8) as char
    } else {
        c
    }
}

/// A string folded to lower case, for the ASCII letters.
pub open spec fn spec_ascii_lower_str(s: Seq<char>) -> Seq<char> {
    s.map_values(|c: char| spec_ascii_lower(c))
}

/// Whether an opt-out value leaves telemetry enabled: everything but a
/// case-insensitive `false` and a literal `0` does.
pub open spec fn spec_telemetry_enabled(raw: Option<Seq<char>>) -> bool {
    match raw {
        None => true,
        Some(v) => spec_ascii_lower_str(v) != "false"@ && v != "0"@,
    }
}

/// Fold a string to lower case, for the ASCII letters.
fn ascii_lower_string(s: &str) -> (r: String)
    ensures
        r@ == spec_ascii_lower_str(s@),
{
    let n = s.unicode_len();
    let mut r = String::new();
    proof {
        assert(r@ =~= spec_ascii_lower_str(s@.take(0)));
    }
    for i in 0..n
        invariant
            n == s@.len(),
            r@ == spec_ascii_lower_str(s@.take(i as int)),
    {
        let c = s.get_char(i);
        let folded: char = if c >= 'A' && c <= 'Z' {
            (((c as u32) + 32) as u8) as char
        } else {
            c
        };
        assert(folded == spec_ascii_lower(c));
        r.push(folded);
        proof {
            assert(r@ =~= spec_ascii_lower_str(s@.take(i + 1)));
        }
    }
    proof {
        assert(s@.take(n as int) =~= s@);
    }
    r
}

/// Whether this opt-out value leaves telemetry enabled. The value is the
/// environment's, read by the caller; the rule is pure.
pub fn is_telemetry_enabled(raw: Option<String>) -> (r: bool)
    ensures
        r == spec_telemetry_enabled(match raw {
            Some(v) => Some(v@),
            None => None,
        }),
{
    match raw {
        None => true,
        Some(v) => {
            let lowered = ascii_lower_string(v.as_str());
            !(crate::text::str_eq(lowered.as_str(), "false") || crate::text::str_eq(
                v.as_str(),
                "0",
            ))
        },
    }
}

/// The endpoint events are sent to when none is configured.
pub fn default_server_endpoint() -> (r: &'static str)
    ensures
        r@ == "https://telemetry.autonops.io/events"@,
{
    "https://telemetry.autonops.io/events"
}

/// The backend endpoint: none when telemetry is opted out, else the
/// configured override or the default. Both values are the environment's,
/// read by the caller; the rule is pure.
pub fn get_server_endpoint(telemetry_raw: Option<String>, url_raw: Option<String>) -> (r: Option<
    String,
>)
    ensures
        spec_telemetry_enabled(match telemetry_raw {
            Some(v) => Some(v@),
            None => None,
        }) ==> (match url_raw {
            Some(u) => r matches Some(e) && e@ == u@,
            None => r matches Some(e) && e@ == "https://telemetry.autonops.io/events"@,
        }),
        !spec_telemetry_enabled(match telemetry_raw {
            Some(v) => Some(v@),
            None => None,
        }) ==> r is None,
{
    if !is_telemetry_enabled(telemetry_raw) {
        return None;
    }
    match url_raw {
        Some(u) => Some(u),
        None => Some(String::from_str(default_server_endpoint())),
    }
}

} // verus!

verus! {

/// Whitespace stripped around a stored identifier.
pub open spec fn spec_is_blank(c: char) -> bool {
    c == ' ' || c == '\t' || c == '\n' || c == '\r'
}

/// A sequence without its leading whitespace.
pub open spec fn spec_trim_start(s: Seq<char>) -> Seq<char>
    decreases s.len(),
{
    if s.len() > 0 && spec_is_blank(s[0]) {
        spec_trim_start(s.drop_first())
    } else {
        s
    }
}

/// A sequence without its trailing whitespace.
pub open spec fn spec_trim_end(s: Seq<char>) -> Seq<char>
    decreases s.len(),
{
    if s.len() > 0 && spec_is_blank(s.last()) {
        spec_trim_end(s.drop_last())
    } else {
        s
    }
}

/// A sequence without its surrounding whitespace.
pub open spec fn spec_trim(s: Seq<char>) -> Seq<char> {
    spec_trim_end(spec_trim_start(s))
}

/// Judge the contents of the installation-identifier file: a stored
/// identifier counts only when something remains after stripping the
/// surrounding whitespace; a blank or empty file means a fresh identifier
/// must be generated.
pub fn validate_install_id(raw: &str) -> (r: Option<String>)
    ensures
        r is Some <==> spec_trim(raw@).len() > 0,
        r matches Some(v) ==> v@ == spec_trim(raw@),
{
    let chars = crate::text::str_to_chars(raw);
    let ghost s = raw@;
    let n = chars.len();
    let mut start: usize = 0;
    proof {
        assert(s.skip(0) =~= s);
    }
    while start < n && (chars[start] == ' ' || chars[start] == '\t' || chars[start] == '\n'
        || chars[start] == '\r')
        invariant
            start <= n,
            n == s.len(),
            chars@ == s,
            spec_trim_start(s) == spec_trim_start(s.skip(start as int)),
        decreases n - start,
    {
        proof {
            assert(s.skip(start as int)[0] == s[start as int]);
            assert(s.skip(start as int).drop_first() =~= s.skip(start + 1));
        }
        start = start + 1;
    }
    proof {
        if start < n {
            assert(!spec_is_blank(s.skip(start as int)[0]));
        } else {
            assert(s.skip(start as int) =~= Seq::<char>::empty());
        }
        assert(spec_trim_start(s) == s.skip(start as int));
    }
    let ghost t = s.skip(start as int);
    let mut end: usize = n;
    proof {
        assert(t.take(n - start) =~= t);
    }
    while end > start && (chars[end - 1] == ' ' || chars[end - 1] == '\t' || chars[end - 1]
        == '\n' || chars[end - 1] == '\r')
        invariant
            start <= end <= n,
            n == s.len(),
            chars@ == s,
            t == s.skip(start as int),
            spec_trim_end(t) == spec_trim_end(t.take(end - start)),
        decreases end,
    {
        proof {
            assert(t.take(end - start).last() == s[end - 1]);
            assert(t.take(end - start).drop_last() =~= t.take(end - 1 - start));
        }
        end = end - 1;
    }
    proof {
        if end > start {
            assert(t.take(end - start).last() == s[end - 1]);
            assert(!spec_is_blank(t.take(end - start).last()));
        } else {
            assert(t.take(end - start) =~= Seq::<char>::empty());
        }
        assert(spec_trim_end(t) == t.take(end - start));
        assert(t.take(end - start) =~= s.subrange(start as int, end as int));
    }
    if start == end {
        return None;
    }
    Some(crate::text::chars_to_string(&chars, start, end))
}

} // verus!
