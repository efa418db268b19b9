use std::time::Duration;
use telemetry_export::builder::{Builder, LOGGING_WRITE, QUEUE_CAPACITY, TRACE_APPEND};
use telemetry_export::datadog::{endpoint_path, mapped_field, mapping_debug, request_headers, Mapping, ModelConfig};
use telemetry_export::logs::{LogContext, MonitoredResource};
use telemetry_export::span::{SpanData, SpanKind, Status};

fn span() -> SpanData {
    SpanData {
        trace_id: 1,
        span_id: 2,
        parent_span_id: 0,
        name: "op".to_string(),
        start_time_unix_nanos: 0,
        end_time_unix_nanos: 0,
        status: Status::Unset,
        span_kind: SpanKind::Internal,
        events: vec![],
        links: vec![],
        dropped_links_count: 0,
        attributes: vec![],
    }
}

#[test]
fn builder_settings_reach_config() {
    let config = Builder::default()
        .maximum_shutdown_duration(Duration::from_secs(2))
        .num_concurrent_requests(4)
        .config();
    assert_eq!(config.scopes, vec![TRACE_APPEND]);
    assert_eq!(config.queue_capacity, QUEUE_CAPACITY);
    assert_eq!(config.num_concurrent_requests, Some(4));
    assert_eq!(config.maximum_shutdown_duration, Duration::from_secs(2));
    assert!(config.log_context.is_none());
}

#[test]
fn log_context_adds_logging_scope() {
    let config = Builder::default()
        .log_context(LogContext { log_id: "l".to_string(), resource: MonitoredResource::Global { project_id: "p".to_string() } })
        .config();
    assert_eq!(config.scopes, vec![TRACE_APPEND, LOGGING_WRITE]);
    assert_eq!(config.log_context.unwrap().resource.resource_type, "global");
    assert_eq!(Builder::default().config().maximum_shutdown_duration, Duration::from_secs(5));
}

#[test]
fn mapping_overrides_fall_back_to_defaults() {
    let config = ModelConfig { service_name: "svc".to_string() };
    let empty: Mapping<fn(&SpanData, &ModelConfig) -> String> = Mapping::empty();
    assert_eq!(empty.name_of(&span(), &config), "op");
    assert_eq!(empty.resource_of(&span(), &config), "op");
    assert_eq!(empty.service_name_of(&span(), &config), "svc");
    assert_eq!(mapping_debug(&empty.name), "default mapping");

    let custom: fn(&SpanData, &ModelConfig) -> String = |s, c| format!("{}-{}", c.service_name, s.span_id);
    let mapping = Mapping::new(None, Some(custom), Some(custom));
    assert_eq!(mapping.name_of(&span(), &config), "svc-2");
    assert_eq!(mapping.service_name_of(&span(), &config), "svc-2");
    assert_eq!(mapping.resource_of(&span(), &config), "op");
    assert_eq!(mapping_debug(&mapping.name), "custom mapping");
    assert_eq!(mapped_field(&Some(custom), &span(), &config, "d".to_string()), "svc-2");
}

#[test]
fn endpoint_paths_skip_empty_segments() {
    let segs = |v: &[&str]| v.iter().map(|s| s.to_string()).collect::<Vec<String>>();
    assert_eq!(endpoint_path(&segs(&[""]), "/v0.5/traces"), "/v0.5/traces");
    assert_eq!(endpoint_path(&segs(&[]), "v0.3/traces"), "v0.3/traces");
    assert_eq!(endpoint_path(&segs(&["api", "", "agent"]), "v0.5/traces"), "api/agent/v0.5/traces");
}

#[test]
fn headers_report_trace_count() {
    let h = request_headers("application/msgpack", 12, "1.0");
    assert_eq!(h[1].1, "12");
    assert_eq!(h.len(), 4);
}
