//! Ephemeral media relay, identity and storage core.
//!
//! Clients hand in a processed payload and receive an opaque handle; the
//! payload can be fetched by that handle until the binding is deleted.
//! Payloads are stored once per content value (content-addressed and
//! deduplicated), while every upload gets its own fresh handle.

pub mod media_manager;
pub mod storage;
mod table;
