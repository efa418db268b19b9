use telemetry_export::logs::{log_entry, severity, value_to_text, InternalLogContext, LogContext, MonitoredResource};
use telemetry_export::span::{Event, KeyValue, Value};
use telemetry_export::text::{i64_to_decimal, str_eq, u64_to_decimal};

fn pairs(v: &[(&str, &str)]) -> Vec<(String, String)> {
    v.iter().map(|(k, x)| (k.to_string(), x.to_string())).collect()
}

#[test]
fn app_engine_resource_labels() {
    let cx = InternalLogContext::from(LogContext {
        log_id: "L".to_string(),
        resource: MonitoredResource::AppEngine {
            project_id: "p".to_string(),
            module_id: Some("m".to_string()),
            version_id: None,
            zone: Some("z".to_string()),
        },
    });
    assert_eq!(cx.log_id, "L");
    assert_eq!(cx.resource.resource_type, "gae_app");
    assert_eq!(cx.resource.labels, pairs(&[("project_id", "p"), ("module_id", "m"), ("zone", "z")]));
}

#[test]
fn kubernetes_resource_labels() {
    let cx = InternalLogContext::from(LogContext {
        log_id: "L".to_string(),
        resource: MonitoredResource::KubernetesEngine {
            project_id: "p".to_string(),
            location: Some("eu".to_string()),
            cluster_name: Some("c".to_string()),
            namespace_name: None,
            pod_name: Some("pod".to_string()),
            container_name: Some("ctr".to_string()),
        },
    });
    assert_eq!(cx.resource.resource_type, "k8s_container");
    assert_eq!(
        cx.resource.labels,
        pairs(&[("project_id", "p"), ("cluster_name", "c"), ("location", "eu"), ("pod_name", "pod"), ("container_name", "ctr")])
    );
}

#[test]
fn other_resource_types() {
    let make = |resource| InternalLogContext::from(LogContext { log_id: "L".to_string(), resource }).resource;
    let p = || "p".to_string();
    assert_eq!(make(MonitoredResource::CloudFunction { project_id: p(), function_name: Some("f".to_string()), region: None }).resource_type, "cloud_function");
    assert_eq!(make(MonitoredResource::CloudRunJob { project_id: p(), job_name: None, location: None }).resource_type, "cloud_run_job");
    let rev = make(MonitoredResource::CloudRunRevision {
        project_id: p(),
        service_name: Some("s".to_string()),
        revision_name: Some("r".to_string()),
        location: None,
        configuration_name: Some("c".to_string()),
    });
    assert_eq!(rev.resource_type, "cloud_run_revision");
    assert_eq!(rev.labels, pairs(&[("project_id", "p"), ("service_name", "s"), ("revision_name", "r"), ("configuration_name", "c")]));
    assert_eq!(make(MonitoredResource::ComputeEngine { project_id: p(), instance_id: None, zone: None }).resource_type, "gce_instance");
    let node = make(MonitoredResource::GenericNode { project_id: p(), location: None, namespace: Some("n".to_string()), node_id: Some("i".to_string()) });
    assert_eq!(node.resource_type, "generic_node");
    assert_eq!(node.labels, pairs(&[("project_id", "p"), ("namespace", "n"), ("node_id", "i")]));
    let task = make(MonitoredResource::GenericTask { project_id: p(), location: None, namespace: None, job: Some("j".to_string()), task_id: Some("t".to_string()) });
    assert_eq!(task.resource_type, "generic_task");
    assert_eq!(task.labels, pairs(&[("project_id", "p"), ("job", "j"), ("task_id", "t")]));
    assert_eq!(make(MonitoredResource::Global { project_id: p() }).labels, pairs(&[("project_id", "p")]));
}

#[test]
fn severities_follow_level_names() {
    assert_eq!(severity("DEBUG"), 100);
    assert_eq!(severity("TRACE"), 100);
    assert_eq!(severity("INFO"), 200);
    assert_eq!(severity("WARN"), 400);
    assert_eq!(severity("ERROR"), 500);
    assert_eq!(severity("info"), 0);
}

#[test]
fn later_attributes_replace_earlier_ones() {
    let cx = InternalLogContext::from(LogContext { log_id: "L".to_string(), resource: MonitoredResource::Global { project_id: "p".to_string() } });
    let event = Event {
        timestamp_unix_nanos: 7,
        name: "e".to_string(),
        attributes: vec![
            KeyValue { key: "a".to_string(), value: Value::I64(1) },
            KeyValue { key: "level".to_string(), value: Value::String("ERROR".to_string()) },
            KeyValue { key: "b".to_string(), value: Value::Bool(true) },
            KeyValue { key: "a".to_string(), value: Value::I64(2) },
            KeyValue { key: "level".to_string(), value: Value::String("DEBUG".to_string()) },
        ],
    };
    let entry = log_entry(&event, "p", "aa", "bb", &cx);
    assert_eq!(entry.severity, 100);
    assert_eq!(entry.source_function, None);
    assert_eq!(entry.labels, pairs(&[("a", "2"), ("b", "true")]));
    assert_eq!(entry.timestamp_unix_nanos, 7);
    assert_eq!(entry.trace, "projects/p/traces/aa");
    assert_eq!(entry.span_id, "bb");
    assert_eq!(entry.resource.labels, pairs(&[("project_id", "p")]));
}

#[test]
fn values_render_as_text() {
    assert_eq!(value_to_text(&Value::Bool(false)), "false");
    assert_eq!(value_to_text(&Value::I64(120)), "120");
    assert_eq!(value_to_text(&Value::String("x y".to_string())), "x y");
}

#[test]
fn decimals() {
    assert_eq!(u64_to_decimal(0), "0");
    assert_eq!(u64_to_decimal(1234567890), "1234567890");
    assert_eq!(u64_to_decimal(u64::MAX), u64::MAX.to_string());
    assert_eq!(i64_to_decimal(-42), "-42");
    assert_eq!(i64_to_decimal(i64::MIN), i64::MIN.to_string());
}

#[test]
fn string_equality() {
    assert!(str_eq("héllo", "héllo"));
    assert!(!str_eq("hello", "hellO"));
    assert!(!str_eq("hell", "hello"));
    assert!(str_eq("", ""));
}
