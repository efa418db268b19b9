use telemetry_export::attributes::AttributeValue;
use telemetry_export::encode::{encode_batch, parent_span_hex, span_kind_code, span_name, status, transform_links, CODE_OK, CODE_UNKNOWN};
use telemetry_export::ids::{span_id_hex, trace_id_hex};
use telemetry_export::logs::{InternalLogContext, LogContext, MonitoredResource};
use telemetry_export::span::{Event, KeyValue, Link, SpanData, SpanKind, Status, Value};

fn span(trace_id: u128, span_id: u64, parent: u64) -> SpanData {
    SpanData {
        trace_id,
        span_id,
        parent_span_id: parent,
        name: "work".to_string(),
        start_time_unix_nanos: 10,
        end_time_unix_nanos: 20,
        status: Status::Unset,
        span_kind: SpanKind::Server,
        events: vec![Event {
            timestamp_unix_nanos: 15,
            name: "checkpoint".to_string(),
            attributes: vec![
                KeyValue { key: "level".to_string(), value: Value::String("WARN".to_string()) },
                KeyValue { key: "target".to_string(), value: Value::String("app::db".to_string()) },
                KeyValue { key: "rows".to_string(), value: Value::I64(-3) },
            ],
        }],
        links: vec![],
        dropped_links_count: 0,
        attributes: vec![KeyValue { key: "http.method".to_string(), value: Value::String("GET".to_string()) }],
    }
}

#[test]
fn identifiers_render_as_fixed_width_hex() {
    assert_eq!(trace_id_hex(1), "00000000000000000000000000000001");
    assert_eq!(trace_id_hex(0x0123456789abcdef_fedcba9876543210), "0123456789abcdeffedcba9876543210");
    assert_eq!(span_id_hex(0x0102030405060708), "0102030405060708");
    assert_eq!(span_id_hex(255), "00000000000000ff");
}

#[test]
fn span_resource_name_is_hierarchical() {
    assert_eq!(
        span_name("proj", 0xab, 0xcd),
        "projects/proj/traces/000000000000000000000000000000ab/spans/00000000000000cd"
    );
}

#[test]
fn root_span_has_empty_parent() {
    assert_eq!(parent_span_hex(0), "");
    assert_eq!(parent_span_hex(16), "0000000000000010");
}

#[test]
fn statuses_map_to_codes() {
    assert!(status(&Status::Unset).is_none());
    let ok = status(&Status::Success).unwrap();
    assert_eq!((ok.code, ok.message.as_str()), (CODE_OK, ""));
    let err = status(&Status::Error { description: "boom".to_string() }).unwrap();
    assert_eq!((err.code, err.message.as_str()), (CODE_UNKNOWN, "boom"));
    assert_eq!(CODE_UNKNOWN, 2);
}

#[test]
fn span_kinds_map_to_numbers() {
    assert_eq!(span_kind_code(SpanKind::Internal), 1);
    assert_eq!(span_kind_code(SpanKind::Server), 2);
    assert_eq!(span_kind_code(SpanKind::Client), 3);
    assert_eq!(span_kind_code(SpanKind::Producer), 4);
    assert_eq!(span_kind_code(SpanKind::Consumer), 5);
}

#[test]
fn links_are_encoded_or_absent() {
    assert!(transform_links(&vec![], 4).is_none());
    let links = transform_links(&vec![Link { trace_id: 2, span_id: 3 }], 4).unwrap();
    assert_eq!(links.dropped_links_count, 4);
    assert_eq!(links.link.len(), 1);
    assert_eq!(links.link[0].trace_id, "00000000000000000000000000000002");
    assert_eq!(links.link[0].span_id, "0000000000000003");
}

#[test]
fn batch_without_log_keeps_events_as_annotations() {
    let resource = vec![KeyValue { key: "service.name".to_string(), value: Value::String("svc".to_string()) }];
    let encoded = encode_batch(vec![span(5, 6, 0), span(5, 7, 6)], "proj", Some(&resource), None);
    assert_eq!(encoded.traces.name, "projects/proj");
    assert!(encoded.logs.is_none());
    assert_eq!(encoded.traces.spans.len(), 2);
    let first = &encoded.traces.spans[0];
    assert_eq!(first.parent_span_id, "");
    assert_eq!(first.display_name.value, "work");
    assert_eq!(first.time_events.len(), 1);
    assert_eq!(first.time_events[0].description.value, "checkpoint");
    assert_eq!(first.time_events[0].time_unix_nanos, 15);
    assert_eq!(first.span_kind, 2);
    assert!(first.status.is_none());
    assert_eq!(first.attributes.len(), 2);
    assert_eq!(first.attributes.get("/http/method"), Some(&AttributeValue::from_value(&Value::String("GET".to_string()))));
    assert_eq!(encoded.traces.spans[1].parent_span_id, "0000000000000006");
}

#[test]
fn batch_with_log_turns_events_into_entries() {
    let context = InternalLogContext::from(LogContext {
        log_id: "app-log".to_string(),
        resource: MonitoredResource::Global { project_id: "proj".to_string() },
    });
    let encoded = encode_batch(vec![span(5, 6, 0)], "proj", None, Some(&context));
    assert!(encoded.traces.spans[0].time_events.is_empty());
    let logs = encoded.logs.unwrap();
    assert_eq!(logs.log_name, "projects/proj/logs/app-log");
    assert!(logs.partial_success);
    assert!(!logs.dry_run);
    assert_eq!(logs.entries.len(), 1);
    let entry = &logs.entries[0];
    assert_eq!(entry.severity, 400);
    assert_eq!(entry.source_function.as_deref(), Some("app::db"));
    assert_eq!(entry.labels, vec![("rows".to_string(), "-3".to_string())]);
    assert_eq!(entry.trace, "projects/proj/traces/00000000000000000000000000000005");
    assert_eq!(entry.span_id, "0000000000000006");
    assert_eq!(entry.text_payload, "checkpoint");
    assert_eq!(entry.log_name, "projects/proj/logs/app-log");
    assert_eq!(entry.resource.resource_type, "global");
}
