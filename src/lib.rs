//! Export pipeline for completed trace spans: grouping by trace, attribute
//! projection, payload encoding for hierarchical tracing backends, and the
//! decisions of the submission queue, the export workers and the shutdown drain.

pub mod span;
pub mod text;
pub mod grouping;
pub mod attributes;
pub mod pipeline;
pub mod ids;
pub mod logs;
pub mod encode;
pub mod builder;
pub mod datadog;
pub mod error;
