//! The span data model handed to the pipeline by the instrumentation runtime.
use vstd::prelude::*;

verus! {

/// The reserved span identifier: a parent equal to it marks a root span.
pub const INVALID_SPAN_ID: u64 = 0;

/// The value of an attribute. Types without a native counterpart in the
/// backends (floating point numbers, arrays) arrive already rendered as text.
#[derive(Clone, Debug, PartialEq)]
pub enum Value {
    Bool(bool),
    I64(i64),
    String(String),
}

/// A key/value attribute.
#[derive(Clone, Debug, PartialEq)]
pub struct KeyValue {
    pub key: String,
    pub value: Value,
}

/// Completion state of a span.
#[derive(Clone, Debug, PartialEq)]
pub enum Status {
    Unset,
    Success,
    Error { description: String },
}

/// Role of a span in its trace.
#[derive(Clone, Copy, Debug, PartialEq, Eq)]
pub enum SpanKind {
    Internal,
    Server,
    Client,
    Producer,
    Consumer,
}

/// A timestamped event recorded on a span.
#[derive(Clone, Debug, PartialEq)]
pub struct Event {
    pub timestamp_unix_nanos: u64,
    pub name: String,
    pub attributes: Vec<KeyValue>,
}

/// A reference from a span to a span of another (or the same) trace.
#[derive(Clone, Copy, Debug, PartialEq, Eq)]
pub struct Link {
    pub trace_id: u128,
    pub span_id: u64,
}

/// A completed span.
#[derive(Clone, Debug, PartialEq)]
pub struct SpanData {
    pub trace_id: u128,
    pub span_id: u64,
    pub parent_span_id: u64,
    pub name: String,
    pub start_time_unix_nanos: u64,
    pub end_time_unix_nanos: u64,
    pub status: Status,
    pub span_kind: SpanKind,
    pub events: Vec<Event>,
    pub links: Vec<Link>,
    pub dropped_links_count: u32,
    pub attributes: Vec<KeyValue>,
}

/// The trace identifiers of a sequence of spans, in order.
pub open spec fn trace_keys(s: Seq<SpanData>) -> Seq<u128> {
    s.map_values(|x: SpanData| x.trace_id)
}

} // verus!
