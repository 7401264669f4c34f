//! Trusted boundary to the host platform and to the outside crates the
//! library leans on: identifier generation, the clock, timestamp rendering,
//! the process table, and the user's home directory.
//!
//! Each item here wraps exactly one outside call; everything that can be
//! stated about the call from its crate's source is stated in the contract.

use vstd::prelude::*;

verus! {

/// The RFC 3339 rendering, with millisecond precision and a `Z` suffix, of a
/// timestamp in milliseconds since the Unix epoch. A pure function of the
/// milliseconds; its value is fixed only by the rendering crate.
pub uninterp spec fn rfc3339_of(ms: i64) -> Seq<char>;

/// Relies on `uuid::Uuid::new_v4` and its `Display` rendering: a random
/// identifier in the hyphenated form, which is always 36 characters.
#[verifier::external_body]
pub fn new_event_id() -> (r: String)
    ensures
        r@.len() == 36,
{
    uuid::Uuid::new_v4().to_string()
}

/// Relies on `chrono::Utc::now`: the current instant. The call panics when
/// the system clock is before the Unix epoch, so every value handed back is
/// non-negative; nothing else holds of a clock reading.
#[verifier::external_body]
pub fn now_millis() -> (r: i64)
    ensures
        r >= 0,
{
    chrono::Utc::now().timestamp_millis()
}

/// Relies on `chrono::DateTime::from_timestamp_millis` and
/// `to_rfc3339_opts`: within the documented range (about 262,000 years from
/// the common era) the conversion succeeds, and the rendering depends on the
/// milliseconds alone.
#[verifier::external_body]
pub fn format_rfc3339_millis(ms: i64) -> (r: String)
    requires
        0 <= ms <= 8_000_000_000_000_000,
    ensures
        r@ == rfc3339_of(ms),
{
    match chrono::DateTime::from_timestamp_millis(ms) {
        Some(dt) => dt.to_rfc3339_opts(chrono::SecondsFormat::Millis, true),
        None => String::new(),
    }
}

/// The process-table handle of the `sysinfo` crate, opaque to the library.
#[verifier::external_type_specification]
#[verifier::external_body]
pub struct ExSystem(sysinfo::System);

/// Relies on `sysinfo::System::new`: a handle with nothing refreshed yet.
#[verifier::external_body]
pub fn system_new() -> sysinfo::System {
    sysinfo::System::new()
}

/// Relies on `sysinfo::System::refresh_processes`: refreshes the handle's
/// knowledge of the one listed process. What the process table holds depends
/// on the machine, so nothing is promised.
#[verifier::external_body]
pub fn system_refresh_pid(system: &mut sysinfo::System, pid: u32) {
    system.refresh_processes(
        sysinfo::ProcessesToUpdate::Some(&[sysinfo::Pid::from_u32(pid)]),
        true,
    );
}

/// Relies on `sysinfo::System::process`: whether the refreshed handle knows
/// a process with this identifier. The answer depends on the machine, so
/// nothing is promised of it.
#[verifier::external_body]
pub fn system_pid_known(system: &sysinfo::System, pid: u32) -> bool {
    system.process(sysinfo::Pid::from_u32(pid)).is_some()
}

/// Relies on `dirs::home_dir`: the user's home directory, when the platform
/// reports one and its path is well-formed text. The answer depends on the
/// environment, so nothing is promised of it.
#[verifier::external_body]
pub fn home_dir() -> Option<String> {
    match dirs::home_dir() {
        Some(path) => match path.into_os_string().into_string() {
            Ok(s) => Some(s),
            Err(_) => None,
        },
        None => None,
    }
}

/// Relies on `String::push`, as documented by std: appends the character to
/// the end of the string.
pub assume_specification[ String::push ](s: &mut String, c: char)
    ensures
        final(s)@ == old(s)@.push(c),
;

} // verus!
