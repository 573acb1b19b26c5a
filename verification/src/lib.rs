//! Redaction of personally identifiable information in annotated event payloads.
//!
//! The crate pairs every payload node with a meta record, splits strings into
//! chunks around earlier redactions, applies declarative rules to them and
//! walks whole payload trees by the declared kind of each field.

pub mod builtinrules;
pub mod chunk;
pub mod config;
pub mod hash;
pub mod meta;
pub mod pattern;
pub mod processor;
pub mod protocol;
pub mod redaction;
pub mod rewrite;
pub mod rule;
pub mod text;
pub mod value;

pub use chunk::{chunks_from_str, chunks_to_string, Chunk};
pub use config::{BadRuleConfig, RuleBasedPiiProcessor, RuleConfig};
pub use hash::HashAlgorithm;
pub use meta::{Annotated, Meta, Note, Remark, RemarkType};
pub use pattern::{Detectors, Pattern, PatternError};
pub use processor::{Cap, PiiKind, PiiProcessor, ValueInfo};
pub use redaction::Redaction;
pub use rule::{Rule, RuleSpec, RuleType};
pub use value::Value;
