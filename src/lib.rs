//! Journald drain for slog: turns one structured log event into the flat,
//! ordered list of `KEY=value` fields that the journal accepts.
//!
//! Priority and message are not folded into the field list: a `Submission`
//! carries them beside it, and the journal adds them as `PRIORITY` and
//! `MESSAGE` when the record is sent.

pub mod drain;
pub mod level;
pub mod render;
pub mod sanitize;
pub mod serializer;

pub use drain::{Attribute, AttributeSource, Error, JournaldDrain, RecordInfo, Submission};
pub use level::{level_to_priority, Priority, Severity};
pub use render::{
    decimal_i64, decimal_u64, join_messages, render_value, ErrorChain, ErrorStep, Value,
};
pub use sanitize::{sanitize_key, SanitizedKey};
pub use serializer::Serializer;
