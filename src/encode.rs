//! Encoding of span batches into the requests of a hierarchical tracing
//! backend, whose resources are named `projects/{project}/traces/{trace}/spans/{span}`.
use vstd::prelude::*;
use vstd::string::*;
use crate::attributes::{kvs_view, project, resource_view, to_truncate, Attributes, TruncatableString};
use crate::ids::{span_id_hex, span_id_text, trace_id_hex, trace_id_text};
use crate::logs::{log_entry, log_name, log_name_text, event_fields, labels_view, trace_name_text, InternalLogContext, LogEntry};
use crate::span::{Event, KeyValue, Link, SpanData, SpanKind, Status, INVALID_SPAN_ID};

verus! {

/// Status codes of the remote procedure call protocol.
pub const CODE_OK: i32 = 0;
pub const CODE_UNKNOWN: i32 = 2;

/// A span's completion status as the backend records it.
#[derive(Clone, Debug, PartialEq)]
pub struct RpcStatus {
    pub code: i32,
    pub message: String,
}

/// The backend status of a span status: none when unset.
pub open spec fn status_matches(r: Option<RpcStatus>, s: Status) -> bool {
    match s {
        Status::Unset => r is None,
        Status::Success => r is Some && r->0.code == CODE_OK && r->0.message@.len() == 0,
        Status::Error { description } => r is Some && r->0.code == CODE_UNKNOWN && r->0.message@ == description@,
    }
}

/// Converts a span status to the backend's status.
pub fn status(value: &Status) -> (r: Option<RpcStatus>)
    ensures
        status_matches(r, *value),
{
    match value {
        Status::Success => Some(RpcStatus { code: CODE_OK, message: String::new() }),
        Status::Unset => None,
        Status::Error { description } => Some(RpcStatus { code: CODE_UNKNOWN, message: description.clone() }),
    }
}

/// The backend's number for a span kind.
pub open spec fn span_kind_code_of(k: SpanKind) -> i32 {
    match k {
        SpanKind::Internal => 1,
        SpanKind::Server => 2,
        SpanKind::Client => 3,
        SpanKind::Producer => 4,
        SpanKind::Consumer => 5,
    }
}

/// Converts a span kind to the backend's number for it.
pub fn span_kind_code(k: SpanKind) -> (r: i32)
    ensures
        r == span_kind_code_of(k),
{
    match k {
        SpanKind::Internal => 1,
        SpanKind::Server => 2,
        SpanKind::Client => 3,
        SpanKind::Producer => 4,
        SpanKind::Consumer => 5,
    }
}

/// A link in the backend's form.
#[derive(Clone, Debug, PartialEq)]
pub struct EncodedLink {
    pub trace_id: String,
    pub span_id: String,
}

/// The links of a span in the backend's form.
#[derive(Clone, Debug, PartialEq)]
pub struct Links {
    pub dropped_links_count: i32,
    pub link: Vec<EncodedLink>,
}

/// The backend links of a span's links: none when there is no link.
pub open spec fn links_match(r: Option<Links>, links: Seq<Link>, dropped: u32) -> bool {
    if links.len() == 0 {
        r is None
    } else {
        &&& r is Some
        &&& r->0.dropped_links_count == dropped as i32
        &&& r->0.link@.len() == links.len()
        &&& forall|i: int|
            0 <= i < links.len() ==> (#[trigger] r->0.link@[i]).trace_id@ == trace_id_text(links[i].trace_id)
                && r->0.link@[i].span_id@ == span_id_text(links[i].span_id)
    }
}

/// Converts a span's links to the backend's form.
pub fn transform_links(links: &Vec<Link>, dropped: u32) -> (r: Option<Links>)
    ensures
        links_match(r, links@, dropped),
{
    if links.len() == 0 {
        return None;
    }
    let mut link: Vec<EncodedLink> = Vec::new();
    let n = links.len();
    let mut i: usize = 0;
    while i < n
        invariant
            n == links@.len(),
            i <= n,
            link@.len() == i,
            forall|j: int|
                0 <= j < i ==> (#[trigger] link@[j]).trace_id@ == trace_id_text(links@[j].trace_id)
                    && link@[j].span_id@ == span_id_text(links@[j].span_id),
        decreases n - i,
    {
        let l = links[i];
        link.push(EncodedLink { trace_id: trace_id_hex(l.trace_id), span_id: span_id_hex(l.span_id) });
        i += 1;
    }
    Some(Links { dropped_links_count: dropped as i32, link })
}

/// An event recorded on a span, as an annotation.
#[derive(Clone, Debug, PartialEq)]
pub struct TimeEvent {
    pub time_unix_nanos: u64,
    pub description: TruncatableString,
}

/// The annotations of a span's events, one for each, in order.
pub open spec fn time_events_match(r: Seq<TimeEvent>, events: Seq<Event>) -> bool {
    &&& r.len() == events.len()
    &&& forall|i: int|
        0 <= i < events.len() ==> (#[trigger] r[i]).time_unix_nanos == events[i].timestamp_unix_nanos
            && r[i].description.value@ == events[i].name@ && r[i].description.truncated_byte_count == 0
}

/// Converts a span's events to annotations.
pub fn time_events(events: &Vec<Event>) -> (r: Vec<TimeEvent>)
    ensures
        time_events_match(r@, events@),
{
    let mut r: Vec<TimeEvent> = Vec::new();
    let n = events.len();
    let mut i: usize = 0;
    while i < n
        invariant
            n == events@.len(),
            i <= n,
            r@.len() == i,
            forall|j: int|
                0 <= j < i ==> (#[trigger] r@[j]).time_unix_nanos == events@[j].timestamp_unix_nanos
                    && r@[j].description.value@ == events@[j].name@ && r@[j].description.truncated_byte_count == 0,
        decreases n - i,
    {
        let e = &events[i];
        r.push(TimeEvent { time_unix_nanos: e.timestamp_unix_nanos, description: to_truncate(e.name.clone()) });
        i += 1;
    }
    r
}

/// The resource name of a span: `projects/{project}/traces/{trace}/spans/{span}`.
pub open spec fn span_name_text(project_id: Seq<char>, trace_id: u128, span_id: u64) -> Seq<char> {
    "projects/"@ + project_id + "/traces/"@ + trace_id_text(trace_id) + "/spans/"@ + span_id_text(span_id)
}

/// Builds the resource name of a span.
pub fn span_name(project_id: &str, trace_id: u128, span_id: u64) -> (r: String)
    ensures
        r@ == span_name_text(project_id@, trace_id, span_id),
{
    let mut s = String::from_str("projects/");
    s.append(project_id);
    s.append("/traces/");
    let t = trace_id_hex(trace_id);
    s.append(t.as_str());
    s.append("/spans/");
    let p = span_id_hex(span_id);
    s.append(p.as_str());
    s
}

/// The parent field of a span: empty for a root span, else the parent's id.
pub open spec fn parent_text(parent: u64) -> Seq<char> {
    if parent == INVALID_SPAN_ID {
        Seq::empty()
    } else {
        span_id_text(parent)
    }
}

/// Renders the parent field of a span.
pub fn parent_span_hex(parent: u64) -> (r: String)
    ensures
        r@ == parent_text(parent),
{
    if parent == INVALID_SPAN_ID {
        String::new()
    } else {
        span_id_hex(parent)
    }
}

/// A span in the backend's form.
pub struct EncodedSpan {
    pub name: String,
    pub display_name: TruncatableString,
    pub span_id: String,
    pub parent_span_id: String,
    pub start_time_unix_nanos: u64,
    pub end_time_unix_nanos: u64,
    pub attributes: Attributes,
    pub time_events: Vec<TimeEvent>,
    pub links: Option<Links>,
    pub status: Option<RpcStatus>,
    pub span_kind: i32,
}

/// `e` is the backend form of span `s` of project `project_id`, with the
/// resource attributes `resource`; the events become annotations only when
/// they do not go to a log.
pub open spec fn encodes_span(
    e: EncodedSpan,
    s: SpanData,
    project_id: Seq<char>,
    resource: Seq<(Seq<char>, crate::attributes::AttributeValueView)>,
    to_log: bool,
) -> bool {
    &&& e.name@ == span_name_text(project_id, s.trace_id, s.span_id)
    &&& e.display_name.value@ == s.name@
    &&& e.display_name.truncated_byte_count == 0
    &&& e.span_id@ == span_id_text(s.span_id)
    &&& e.parent_span_id@ == parent_text(s.parent_span_id)
    &&& e.start_time_unix_nanos == s.start_time_unix_nanos
    &&& e.end_time_unix_nanos == s.end_time_unix_nanos
    &&& e.attributes.well_formed()
    &&& e.attributes.model() == project(resource + kvs_view(s.attributes@))
    &&& (if to_log {
        e.time_events@.len() == 0
    } else {
        time_events_match(e.time_events@, s.events@)
    })
    &&& links_match(e.links, s.links@, s.dropped_links_count)
    &&& status_matches(e.status, s.status)
    &&& e.span_kind == span_kind_code_of(s.span_kind)
}

/// `r` is the log entry of `event` on the span with the given ids.
pub open spec fn is_log_entry_of(
    r: LogEntry,
    event: Event,
    project_id: Seq<char>,
    trace_id: u128,
    span_id: u64,
    context: InternalLogContext,
) -> bool {
    &&& r.log_name@ == log_name_text(project_id, context.log_id@)
    &&& r.resource.resource_type@ == context.resource.resource_type@
    &&& labels_view(r.resource.labels@) == labels_view(context.resource.labels@)
    &&& r.severity == event_fields(event.attributes@).0
    &&& r.timestamp_unix_nanos == event.timestamp_unix_nanos
    &&& labels_view(r.labels@) == event_fields(event.attributes@).2
    &&& r.trace@ == trace_name_text(project_id, trace_id_text(trace_id))
    &&& r.span_id@ == span_id_text(span_id)
    &&& match r.source_function {
        Some(f) => event_fields(event.attributes@).1 == Some(f@),
        None => event_fields(event.attributes@).1 is None,
    }
    &&& r.text_payload@ == event.name@
}

/// The attributes of a span and of the resource fit the drop counter.
pub open spec fn attributes_fit(s: SpanData, resource: Option<&Vec<KeyValue>>) -> bool {
    resource_view(resource).len() + s.attributes@.len() <= i32::MAX
}

/// Encodes one span. With a log context, its events become log entries,
/// appended to `entries` in order; without one, they become annotations.
pub fn encode_span(
    span: SpanData,
    project_id: &str,
    resource: Option<&Vec<KeyValue>>,
    log: Option<&InternalLogContext>,
    entries: &mut Vec<LogEntry>,
) -> (r: EncodedSpan)
    requires
        attributes_fit(span, resource),
    ensures
        encodes_span(r, span, project_id@, resource_view(resource), log is Some),
        log is None ==> final(entries)@ == old(entries)@,
        log is Some ==> final(entries)@.len() == old(entries)@.len() + span.events@.len()
            && final(entries)@.subrange(0, old(entries)@.len() as int) == old(entries)@
            && forall|i: int|
                0 <= i < span.events@.len() ==> is_log_entry_of(
                    #[trigger] final(entries)@[old(entries)@.len() + i],
                    span.events@[i],
                    project_id@,
                    span.trace_id,
                    span.span_id,
                    *log.unwrap(),
                ),
{
    let ghost s = span;
    let trace_hex = trace_id_hex(span.trace_id);
    let span_hex = span_id_hex(span.span_id);
    let time_event = match log {
        None => time_events(&span.events),
        Some(context) => {
            let n = span.events.len();
            let ghost start = entries@;
            let mut i: usize = 0;
            while i < n
                invariant
                    n == span.events@.len(),
                    s == span,
                    trace_hex@ == trace_id_text(span.trace_id),
                    span_hex@ == span_id_text(span.span_id),
                    i <= n,
                    entries@.len() == start.len() + i,
                    entries@.subrange(0, start.len() as int) == start,
                    forall|j: int|
                        0 <= j < i ==> is_log_entry_of(
                            #[trigger] entries@[start.len() + j],
                            span.events@[j],
                            project_id@,
                            span.trace_id,
                            span.span_id,
                            *context,
                        ),
                decreases n - i,
            {
                let entry = log_entry(&span.events[i], project_id, trace_hex.as_str(), span_hex.as_str(), context);
                let ghost before = entries@;
                entries.push(entry);
                assert(entries@.subrange(0, start.len() as int) =~= before.subrange(0, start.len() as int));
                assert forall|j: int|
                    0 <= j < i + 1 implies is_log_entry_of(
                        #[trigger] entries@[start.len() + j],
                        span.events@[j],
                        project_id@,
                        span.trace_id,
                        span.span_id,
                        *context,
                    ) by {
                    if j < i {
                        assert(entries@[start.len() + j] == before[start.len() + j]);
                    }
                }
                i += 1;
            }
            Vec::new()
        },
    };
    let links = transform_links(&span.links, span.dropped_links_count);
    let st = status(&span.status);
    let kind = span_kind_code(span.span_kind);
    let name = span_name(project_id, span.trace_id, span.span_id);
    let parent = parent_span_hex(span.parent_span_id);
    let attributes = Attributes::new(span.attributes, resource);
    EncodedSpan {
        name,
        display_name: to_truncate(span.name),
        span_id: span_hex,
        parent_span_id: parent,
        start_time_unix_nanos: span.start_time_unix_nanos,
        end_time_unix_nanos: span.end_time_unix_nanos,
        attributes,
        time_events: time_event,
        links,
        status: st,
        span_kind: kind,
    }
}

/// The request that writes a batch's spans.
pub struct BatchWriteSpansRequest {
    pub name: String,
    pub spans: Vec<EncodedSpan>,
}

/// The request that writes a batch's log entries.
pub struct WriteLogEntriesRequest {
    pub log_name: String,
    pub entries: Vec<LogEntry>,
    pub dry_run: bool,
    pub partial_success: bool,
}

/// The requests of one batch: its spans, and its log entries when events go
/// to a log.
pub struct EncodedBatch {
    pub traces: BatchWriteSpansRequest,
    pub logs: Option<WriteLogEntriesRequest>,
}

/// The name of a project: `projects/{project}`.
pub open spec fn project_name_text(project_id: Seq<char>) -> Seq<char> {
    "projects/"@ + project_id
}

/// `entries` are the log entries of the events of `spans`, span after span,
/// each span's in the order of its events.
pub open spec fn entries_of_spans(
    entries: Seq<LogEntry>,
    spans: Seq<SpanData>,
    project_id: Seq<char>,
    context: InternalLogContext,
) -> bool
    decreases spans.len(),
{
    if spans.len() == 0 {
        entries.len() == 0
    } else {
        let s = spans.last();
        let k = entries.len() - s.events@.len();
        &&& k >= 0
        &&& entries_of_spans(entries.subrange(0, k), spans.drop_last(), project_id, context)
        &&& forall|i: int|
            0 <= i < s.events@.len() ==> is_log_entry_of(
                #[trigger] entries[k + i],
                s.events@[i],
                project_id,
                s.trace_id,
                s.span_id,
                context,
            )
    }
}

/// Encodes a batch: one request with every span in batch order under the
/// project's name and, with a log context, one request with the log entries
/// of every event, written in one go with partial success allowed.
pub fn encode_batch(
    batch: Vec<SpanData>,
    project_id: &str,
    resource: Option<&Vec<KeyValue>>,
    log: Option<&InternalLogContext>,
) -> (r: EncodedBatch)
    requires
        forall|i: int| 0 <= i < batch@.len() ==> attributes_fit(#[trigger] batch@[i], resource),
    ensures
        r.traces.name@ == project_name_text(project_id@),
        r.traces.spans@.len() == batch@.len(),
        forall|i: int|
            0 <= i < batch@.len() ==> encodes_span(
                #[trigger] r.traces.spans@[i],
                batch@[i],
                project_id@,
                resource_view(resource),
                log is Some,
            ),
        log is None ==> r.logs is None,
        log is Some ==> r.logs is Some && r.logs->0.log_name@ == log_name_text(project_id@, log->0.log_id@)
            && !r.logs->0.dry_run && r.logs->0.partial_success
            && entries_of_spans(r.logs->0.entries@, batch@, project_id@, *log->0),
{
    let ghost all = batch@;
    let mut batch = batch;
    let mut spans: Vec<EncodedSpan> = Vec::new();
    let mut entries: Vec<LogEntry> = Vec::new();
    let n = batch.len();
    let mut i: usize = 0;
    while i < n
        invariant
            n == all.len(),
            i <= n,
            batch@ == all.subrange(i as int, n as int),
            forall|j: int| 0 <= j < n ==> attributes_fit(#[trigger] all[j], resource),
            spans@.len() == i,
            forall|j: int|
                0 <= j < i ==> encodes_span(
                    #[trigger] spans@[j],
                    all[j],
                    project_id@,
                    resource_view(resource),
                    log is Some,
                ),
            log is None ==> entries@.len() == 0,
            log is Some ==> entries_of_spans(entries@, all.subrange(0, i as int), project_id@, *log->0),
        decreases n - i,
    {
        let span = batch.remove(0);
        assert(span == all[i as int]);
        assert(batch@ =~= all.subrange(i + 1, n as int));
        let ghost before = entries@;
        let e = encode_span(span, project_id, resource, log, &mut entries);
        spans.push(e);
        proof {
            if log is Some {
                let pre = all.subrange(0, i + 1);
                assert(pre.drop_last() =~= all.subrange(0, i as int));
                assert(pre.last() == all[i as int]);
                assert(entries@.subrange(0, before.len() as int) == before);
            }
        }
        i += 1;
    }
    assert(all.subrange(0, n as int) =~= all);
    let traces = BatchWriteSpansRequest { name: project_name(project_id), spans };
    let logs = match log {
        Some(context) => Some(
            WriteLogEntriesRequest {
                log_name: log_name(project_id, context.log_id.as_str()),
                entries,
                dry_run: false,
                partial_success: true,
            },
        ),
        None => None,
    };
    EncodedBatch { traces, logs }
}

/// Builds the name of a project.
pub fn project_name(project_id: &str) -> (r: String)
    ensures
        r@ == project_name_text(project_id@),
{
    let mut s = String::from_str("projects/");
    s.append(project_id);
    s
}

} // verus!
