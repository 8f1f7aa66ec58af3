//! Core library of an always-on Emergency Alert System (EAS) stream listener.
//!
//! The library holds the alert pipeline's logic: SAME header validation and
//! bit encoding, the active-alert set with its deduplication and expiry
//! rules, FIPS relevance filtering, status-file derivation, the per-alert
//! fan-out state machine, the singleton recording slot, relay filter rules,
//! and the notification text builders.  Network and file I/O, audio
//! decoding, and subprocess handling live outside the library and hand it
//! plain values.

pub mod alert_log;
pub mod alerts;
pub mod audio;
pub mod cleanup;
pub mod fanout;
pub mod header;
pub mod reader;
pub mod recording;
pub mod relay;
pub mod util;
pub mod webhook;
