//! A lightweight telemetry pipeline: an event model with a JSON-lines wire
//! codec, an event buffer with flush arbitration, a writer abstraction with
//! fallback semantics, and a parent-liveness lifecycle monitor.
//!
//! The concurrent loops (socket listener, buffer manager, parent monitor) are
//! expressed here as pure step functions over explicit state; the binary
//! drives them with its runtime of choice.
//!
//! - [`event`]: severity levels, payloads, context, events and messages.
//! - [`json`]: the wire grammar — printer, parser, and their inversion.
//! - [`wire`]: events to wire lines and wire lines to client messages.
//! - [`buffer`]: the event buffer and the manager's trigger arbitration.
//! - [`writer`]: write plans, response verdicts, and the fallback order.
//! - [`listener`]: the per-line rule of the ingestion listener.
//! - [`monitor`]: the parent-liveness idle countdown.
//! - [`args`], [`config`]: option parsing and configuration rules.
//! - [`server`]: the ingestion service's configuration, storage record and
//!   response rules.
//! - [`platform`]: the trusted boundary to the clock, identifiers, the
//!   process table and the home directory.
//! - [`text`]: character-level utilities and decimal numerals.

use vstd::prelude::*;

pub mod event;
pub mod platform;
pub mod text;
pub mod json;
pub mod wire;
pub mod buffer;
pub mod monitor;
pub mod config;
pub mod args;
pub mod writer;
pub mod server;
pub mod listener;

verus! {

/// Number of buffered events at which a push reports flush eligibility.
pub const BUFFER_MAX_EVENTS: usize = 25;

} // verus!
