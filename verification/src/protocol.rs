//! The payloads of the protocol: what an event is made of and which kind of
//! PII each of its fields declares.

pub mod event;
pub mod fingerprint;
pub mod types;
