//! The log sink: monitored resources, log contexts, and log entries made from
//! span events.
use vstd::prelude::*;
use vstd::string::*;
use crate::span::{Event, KeyValue, Value};
use crate::text::{i64_to_decimal, signed_decimal, str_eq};

verus! {

/// Labels in insertion order, as text.
pub type Labels = Seq<(Seq<char>, Seq<char>)>;

/// The text content of a label vector.
pub open spec fn labels_view(v: Seq<(String, String)>) -> Labels {
    v.map_values(|p: (String, String)| (p.0@, p.1@))
}

/// A label for an optional value: one pair when present, none otherwise.
pub open spec fn opt_label(key: Seq<char>, v: Option<String>) -> Labels {
    match v {
        Some(s) => seq![(key, s@)],
        None => Seq::empty(),
    }
}

/// A description of the resource that writes log entries.
#[derive(Clone, Debug, PartialEq)]
pub enum MonitoredResource {
    AppEngine {
        project_id: String,
        module_id: Option<String>,
        version_id: Option<String>,
        zone: Option<String>,
    },
    CloudFunction { project_id: String, function_name: Option<String>, region: Option<String> },
    CloudRunJob { project_id: String, job_name: Option<String>, location: Option<String> },
    CloudRunRevision {
        project_id: String,
        service_name: Option<String>,
        revision_name: Option<String>,
        location: Option<String>,
        configuration_name: Option<String>,
    },
    ComputeEngine { project_id: String, instance_id: Option<String>, zone: Option<String> },
    KubernetesEngine {
        project_id: String,
        location: Option<String>,
        cluster_name: Option<String>,
        namespace_name: Option<String>,
        pod_name: Option<String>,
        container_name: Option<String>,
    },
    GenericNode {
        project_id: String,
        location: Option<String>,
        namespace: Option<String>,
        node_id: Option<String>,
    },
    GenericTask {
        project_id: String,
        location: Option<String>,
        namespace: Option<String>,
        job: Option<String>,
        task_id: Option<String>,
    },
    Global { project_id: String },
}

/// Where log entries go: a log identifier and the resource writing them.
#[derive(Clone, Debug, PartialEq)]
pub struct LogContext {
    pub log_id: String,
    pub resource: MonitoredResource,
}

/// A monitored resource as the logging backend names it: a type and labels.
#[derive(Clone, Debug, PartialEq)]
pub struct ResourceDescriptor {
    pub resource_type: String,
    pub labels: Vec<(String, String)>,
}

/// A log context ready for encoding.
#[derive(Clone, Debug, PartialEq)]
pub struct InternalLogContext {
    pub log_id: String,
    pub resource: ResourceDescriptor,
}

/// The backend type name of a monitored resource.
pub open spec fn resource_type_of(r: MonitoredResource) -> Seq<char> {
    match r {
        MonitoredResource::AppEngine { .. } => "gae_app"@,
        MonitoredResource::CloudFunction { .. } => "cloud_function"@,
        MonitoredResource::CloudRunJob { .. } => "cloud_run_job"@,
        MonitoredResource::CloudRunRevision { .. } => "cloud_run_revision"@,
        MonitoredResource::ComputeEngine { .. } => "gce_instance"@,
        MonitoredResource::KubernetesEngine { .. } => "k8s_container"@,
        MonitoredResource::GenericNode { .. } => "generic_node"@,
        MonitoredResource::GenericTask { .. } => "generic_task"@,
        MonitoredResource::Global { .. } => "global"@,
    }
}

/// The labels of a monitored resource: the project first, then each present
/// field under its own name.
pub open spec fn resource_labels(r: MonitoredResource) -> Labels {
    match r {
        MonitoredResource::AppEngine { project_id, module_id, version_id, zone } => seq![("project_id"@, project_id@)]
            + opt_label("module_id"@, module_id) + opt_label("version_id"@, version_id) + opt_label("zone"@, zone),
        MonitoredResource::CloudFunction { project_id, function_name, region } => seq![("project_id"@, project_id@)]
            + opt_label("function_name"@, function_name) + opt_label("region"@, region),
        MonitoredResource::CloudRunJob { project_id, job_name, location } => seq![("project_id"@, project_id@)]
            + opt_label("job_name"@, job_name) + opt_label("location"@, location),
        MonitoredResource::CloudRunRevision {
            project_id,
            service_name,
            revision_name,
            location,
            configuration_name,
        } => seq![("project_id"@, project_id@)] + opt_label("service_name"@, service_name)
            + opt_label("revision_name"@, revision_name) + opt_label("location"@, location)
            + opt_label("configuration_name"@, configuration_name),
        MonitoredResource::ComputeEngine { project_id, instance_id, zone } => seq![("project_id"@, project_id@)]
            + opt_label("instance_id"@, instance_id) + opt_label("zone"@, zone),
        MonitoredResource::KubernetesEngine {
            project_id,
            location,
            cluster_name,
            namespace_name,
            pod_name,
            container_name,
        } => seq![("project_id"@, project_id@)] + opt_label("cluster_name"@, cluster_name)
            + opt_label("location"@, location) + opt_label("pod_name"@, pod_name)
            + opt_label("namespace_name"@, namespace_name) + opt_label("container_name"@, container_name),
        MonitoredResource::GenericNode { project_id, location, namespace, node_id } => seq![("project_id"@, project_id@)]
            + opt_label("location"@, location) + opt_label("namespace"@, namespace) + opt_label("node_id"@, node_id),
        MonitoredResource::GenericTask { project_id, location, namespace, job, task_id } => seq![("project_id"@, project_id@)]
            + opt_label("location"@, location) + opt_label("namespace"@, namespace) + opt_label("job"@, job)
            + opt_label("task_id"@, task_id),
        MonitoredResource::Global { project_id } => seq![("project_id"@, project_id@)],
    }
}

/// Appends a label for a value that may be absent.
fn push_label(labels: &mut Vec<(String, String)>, key: &str, value: Option<String>)
    ensures
        labels_view(final(labels)@) == labels_view(old(labels)@) + opt_label(key@, value),
{
    match value {
        Some(v) => {
            let ghost vv = v@;
            labels.push((String::from_str(key), v));
            assert(labels_view(labels@) =~= labels_view(old(labels)@) + seq![(key@, vv)]);
        },
        None => {
            assert(labels_view(labels@) =~= labels_view(old(labels)@) + Seq::<(Seq<char>, Seq<char>)>::empty());
        },
    }
}

/// Labels holding only the project.
fn project_labels(project_id: String) -> (r: Vec<(String, String)>)
    ensures
        labels_view(r@) == seq![("project_id"@, project_id@)],
{
    let mut labels: Vec<(String, String)> = Vec::new();
    let ghost p = project_id@;
    labels.push((String::from_str("project_id"), project_id));
    assert(labels_view(labels@) =~= seq![("project_id"@, p)]);
    labels
}

impl InternalLogContext {
    /// Describes the monitored resource of a log context as the logging
    /// backend names it.
    pub fn from(cx: LogContext) -> (r: InternalLogContext)
        ensures
            r.log_id@ == cx.log_id@,
            r.resource.resource_type@ == resource_type_of(cx.resource),
            labels_view(r.resource.labels@) == resource_labels(cx.resource),
    {
        let ghost res = cx.resource;
        let resource = match cx.resource {
            MonitoredResource::AppEngine { project_id, module_id, version_id, zone } => {
                let mut labels = project_labels(project_id);
                push_label(&mut labels, "module_id", module_id);
                push_label(&mut labels, "version_id", version_id);
                push_label(&mut labels, "zone", zone);
                ResourceDescriptor { resource_type: String::from_str("gae_app"), labels }
            },
            MonitoredResource::CloudFunction { project_id, function_name, region } => {
                let mut labels = project_labels(project_id);
                push_label(&mut labels, "function_name", function_name);
                push_label(&mut labels, "region", region);
                ResourceDescriptor { resource_type: String::from_str("cloud_function"), labels }
            },
            MonitoredResource::CloudRunJob { project_id, job_name, location } => {
                let mut labels = project_labels(project_id);
                push_label(&mut labels, "job_name", job_name);
                push_label(&mut labels, "location", location);
                ResourceDescriptor { resource_type: String::from_str("cloud_run_job"), labels }
            },
            MonitoredResource::CloudRunRevision {
                project_id,
                service_name,
                revision_name,
                location,
                configuration_name,
            } => {
                let mut labels = project_labels(project_id);
                push_label(&mut labels, "service_name", service_name);
                push_label(&mut labels, "revision_name", revision_name);
                push_label(&mut labels, "location", location);
                push_label(&mut labels, "configuration_name", configuration_name);
                ResourceDescriptor { resource_type: String::from_str("cloud_run_revision"), labels }
            },
            MonitoredResource::ComputeEngine { project_id, instance_id, zone } => {
                let mut labels = project_labels(project_id);
                push_label(&mut labels, "instance_id", instance_id);
                push_label(&mut labels, "zone", zone);
                ResourceDescriptor { resource_type: String::from_str("gce_instance"), labels }
            },
            MonitoredResource::GenericNode { project_id, location, namespace, node_id } => {
                let mut labels = project_labels(project_id);
                push_label(&mut labels, "location", location);
                push_label(&mut labels, "namespace", namespace);
                push_label(&mut labels, "node_id", node_id);
                ResourceDescriptor { resource_type: String::from_str("generic_node"), labels }
            },
            MonitoredResource::GenericTask { project_id, location, namespace, job, task_id } => {
                let mut labels = project_labels(project_id);
                push_label(&mut labels, "location", location);
                push_label(&mut labels, "namespace", namespace);
                push_label(&mut labels, "job", job);
                push_label(&mut labels, "task_id", task_id);
                ResourceDescriptor { resource_type: String::from_str("generic_task"), labels }
            },
            MonitoredResource::Global { project_id } => {
                let labels = project_labels(project_id);
                ResourceDescriptor { resource_type: String::from_str("global"), labels }
            },
            MonitoredResource::KubernetesEngine {
                project_id,
                cluster_name,
                location,
                pod_name,
                namespace_name,
                container_name,
            } => {
                let mut labels = project_labels(project_id);
                push_label(&mut labels, "cluster_name", cluster_name);
                push_label(&mut labels, "location", location);
                push_label(&mut labels, "pod_name", pod_name);
                push_label(&mut labels, "namespace_name", namespace_name);
                push_label(&mut labels, "container_name", container_name);
                ResourceDescriptor { resource_type: String::from_str("k8s_container"), labels }
            },
        };
        InternalLogContext { log_id: cx.log_id, resource }
    }
}

/// The text of an attribute value.
pub open spec fn value_text(v: Value) -> Seq<char> {
    match v {
        Value::Bool(b) => if b {
            "true"@
        } else {
            "false"@
        },
        Value::I64(i) => signed_decimal(i as int),
        Value::String(s) => s@,
    }
}

/// Renders an attribute value as text.
pub fn value_to_text(v: &Value) -> (r: String)
    ensures
        r@ == value_text(*v),
{
    match v {
        Value::Bool(b) => if *b {
            String::from_str("true")
        } else {
            String::from_str("false")
        },
        Value::I64(i) => i64_to_decimal(*i),
        Value::String(s) => s.clone(),
    }
}

/// Severity levels of the logging backend.
pub const SEVERITY_DEFAULT: i32 = 0;
pub const SEVERITY_DEBUG: i32 = 100;
pub const SEVERITY_INFO: i32 = 200;
pub const SEVERITY_WARNING: i32 = 400;
pub const SEVERITY_ERROR: i32 = 500;

/// The severity of a log level name; unknown names get the default.
pub open spec fn severity_of(level: Seq<char>) -> i32 {
    if level == "DEBUG"@ || level == "TRACE"@ {
        SEVERITY_DEBUG
    } else if level == "INFO"@ {
        SEVERITY_INFO
    } else if level == "WARN"@ {
        SEVERITY_WARNING
    } else if level == "ERROR"@ {
        SEVERITY_ERROR
    } else {
        SEVERITY_DEFAULT
    }
}

/// Maps a log level name to its severity.
pub fn severity(level: &str) -> (r: i32)
    ensures
        r == severity_of(level@),
{
    if str_eq(level, "DEBUG") || str_eq(level, "TRACE") {
        SEVERITY_DEBUG
    } else if str_eq(level, "INFO") {
        SEVERITY_INFO
    } else if str_eq(level, "WARN") {
        SEVERITY_WARNING
    } else if str_eq(level, "ERROR") {
        SEVERITY_ERROR
    } else {
        SEVERITY_DEFAULT
    }
}

/// No label key occurs twice.
pub open spec fn label_keys_unique(l: Labels) -> bool {
    forall|i: int, j: int| 0 <= i < j < l.len() ==> #[trigger] l[i].0 != #[trigger] l[j].0
}

/// Sets label `key` to `v`: in place when present, else appended.
pub open spec fn upsert_label(l: Labels, key: Seq<char>, v: Seq<char>) -> Labels {
    if exists|i: int| 0 <= i < l.len() && #[trigger] l[i].0 == key {
        let i = choose|i: int| 0 <= i < l.len() && #[trigger] l[i].0 == key;
        l.update(i, (key, v))
    } else {
        l.push((key, v))
    }
}

/// What the attributes of an event give its log entry: the severity named by
/// the last `level` attribute, the source named by the last `target`
/// attribute, and every other attribute as a label, a later one replacing an
/// earlier one of the same key.
pub open spec fn event_fields(attrs: Seq<KeyValue>) -> (i32, Option<Seq<char>>, Labels)
    decreases attrs.len(),
{
    if attrs.len() == 0 {
        (SEVERITY_DEFAULT, None, Seq::empty())
    } else {
        let p = event_fields(attrs.drop_last());
        let kv = attrs.last();
        let t = value_text(kv.value);
        if kv.key@ == "level"@ {
            (severity_of(t), p.1, p.2)
        } else if kv.key@ == "target"@ {
            (p.0, Some(t), p.2)
        } else {
            (p.0, p.1, upsert_label(p.2, kv.key@, t))
        }
    }
}

/// Sets a label in place when its key is present, else appends it.
fn set_label(labels: &mut Vec<(String, String)>, key: String, value: String)
    requires
        label_keys_unique(labels_view(old(labels)@)),
    ensures
        label_keys_unique(labels_view(final(labels)@)),
        labels_view(final(labels)@) == upsert_label(labels_view(old(labels)@), key@, value@),
{
    let ghost l = labels_view(labels@);
    let ghost k = key@;
    let ghost v = value@;
    let n = labels.len();
    let mut i: usize = 0;
    while i < n
        invariant
            n == labels@.len(),
            labels@ == old(labels)@,
            l == labels_view(labels@),
            k == key@,
            v == value@,
            label_keys_unique(l),
            i <= n,
            forall|j: int| 0 <= j < i ==> l[j].0 != k,
        decreases n - i,
    {
        assert(l[i as int].0 == labels@[i as int].0@);
        if str_eq(labels[i].0.as_str(), key.as_str()) {
            assert(l[i as int].0 == k);
            let ghost c = choose|c: int| 0 <= c < l.len() && #[trigger] l[c].0 == k;
            assert(c == i);
            labels.set(i, (key, value));
            assert(labels_view(labels@) =~= l.update(i as int, (k, v)));
            assert forall|a: int, b: int| 0 <= a < b < labels_view(labels@).len() implies
                #[trigger] labels_view(labels@)[a].0 != #[trigger] labels_view(labels@)[b].0 by {
                assert(l[a].0 != l[b].0);
            }
            return;
        }
        i += 1;
    }
    labels.push((key, value));
    assert(labels_view(labels@) =~= l.push((k, v)));
    assert forall|a: int, b: int| 0 <= a < b < labels_view(labels@).len() implies
        #[trigger] labels_view(labels@)[a].0 != #[trigger] labels_view(labels@)[b].0 by {
        if b < l.len() {
            assert(l[a].0 != l[b].0);
        }
    }
}

/// A log entry made from a span event.
#[derive(Clone, Debug, PartialEq)]
pub struct LogEntry {
    pub log_name: String,
    pub resource: ResourceDescriptor,
    pub severity: i32,
    pub timestamp_unix_nanos: u64,
    pub labels: Vec<(String, String)>,
    pub trace: String,
    pub span_id: String,
    /// The function named as the source location, if any.
    pub source_function: Option<String>,
    pub text_payload: String,
}

/// The full name of a log: `projects/{project}/logs/{log id}`.
pub open spec fn log_name_text(project_id: Seq<char>, log_id: Seq<char>) -> Seq<char> {
    "projects/"@ + project_id + "/logs/"@ + log_id
}

/// The full name of a trace: `projects/{project}/traces/{trace id}`.
pub open spec fn trace_name_text(project_id: Seq<char>, trace_hex: Seq<char>) -> Seq<char> {
    "projects/"@ + project_id + "/traces/"@ + trace_hex
}

/// Builds the full name of a log.
pub fn log_name(project_id: &str, log_id: &str) -> (r: String)
    ensures
        r@ == log_name_text(project_id@, log_id@),
{
    let mut s = String::from_str("projects/");
    s.append(project_id);
    s.append("/logs/");
    s.append(log_id);
    s
}

/// Builds the full name of a trace.
pub fn trace_name(project_id: &str, trace_hex: &str) -> (r: String)
    ensures
        r@ == trace_name_text(project_id@, trace_hex@),
{
    let mut s = String::from_str("projects/");
    s.append(project_id);
    s.append("/traces/");
    s.append(trace_hex);
    s
}

/// A copy of a resource descriptor with the same text.
pub fn copy_descriptor(d: &ResourceDescriptor) -> (r: ResourceDescriptor)
    ensures
        r.resource_type@ == d.resource_type@,
        labels_view(r.labels@) == labels_view(d.labels@),
{
    let mut labels: Vec<(String, String)> = Vec::new();
    let n = d.labels.len();
    let mut i: usize = 0;
    while i < n
        invariant
            n == d.labels@.len(),
            i <= n,
            labels@.len() == i,
            labels_view(labels@) == labels_view(d.labels@).take(i as int),
        decreases n - i,
    {
        let k = d.labels[i].0.clone();
        let v = d.labels[i].1.clone();
        let ghost before = labels@;
        assert(before.len() == i);
        labels.push((k, v));
        assert(labels@ == before.push((k, v)));
        assert(labels_view(d.labels@)[i as int] == (d.labels@[i as int].0@, d.labels@[i as int].1@));
        assert forall|j: int| 0 <= j < i + 1 implies #[trigger] labels_view(labels@)[j] == labels_view(d.labels@).take(i + 1)[j] by {
            assert(labels_view(labels@)[j] == (labels@[j].0@, labels@[j].1@));
            if j < i {
                assert(labels@[j] == before[j]);
                assert(labels_view(before)[j] == (before[j].0@, before[j].1@));
                assert(labels_view(before)[j] == labels_view(d.labels@).take(i as int)[j]);
            }
        }
        assert(labels_view(labels@) =~= labels_view(d.labels@).take(i + 1));
        i += 1;
    }
    assert(labels_view(d.labels@).take(n as int) =~= labels_view(d.labels@));
    ResourceDescriptor { resource_type: d.resource_type.clone(), labels }
}

/// Makes the log entry of a span event: it is written to the context's log
/// and resource, carries the event's time and name, refers to the span and
/// its trace, and takes severity, source and labels from the event's
/// attributes.
pub fn log_entry(
    event: &Event,
    project_id: &str,
    trace_hex: &str,
    span_hex: &str,
    context: &InternalLogContext,
) -> (r: LogEntry)
    ensures
        r.log_name@ == log_name_text(project_id@, context.log_id@),
        r.resource.resource_type@ == context.resource.resource_type@,
        labels_view(r.resource.labels@) == labels_view(context.resource.labels@),
        r.severity == event_fields(event.attributes@).0,
        r.timestamp_unix_nanos == event.timestamp_unix_nanos,
        labels_view(r.labels@) == event_fields(event.attributes@).2,
        r.trace@ == trace_name_text(project_id@, trace_hex@),
        r.span_id@ == span_hex@,
        match r.source_function {
            Some(f) => event_fields(event.attributes@).1 == Some(f@),
            None => event_fields(event.attributes@).1 is None,
        },
        r.text_payload@ == event.name@,
{
    let mut level = SEVERITY_DEFAULT;
    let mut target: Option<String> = None;
    let mut labels: Vec<(String, String)> = Vec::new();
    let n = event.attributes.len();
    let mut i: usize = 0;
    let ghost attrs = event.attributes@;
    assert(attrs.take(0) =~= Seq::<KeyValue>::empty());
    while i < n
        invariant
            n == attrs.len(),
            attrs == event.attributes@,
            i <= n,
            label_keys_unique(labels_view(labels@)),
            level == event_fields(attrs.take(i as int)).0,
            labels_view(labels@) == event_fields(attrs.take(i as int)).2,
            match target {
                Some(f) => event_fields(attrs.take(i as int)).1 == Some(f@),
                None => event_fields(attrs.take(i as int)).1 is None,
            },
        decreases n - i,
    {
        let kv = &event.attributes[i];
        assert(attrs.take(i + 1).drop_last() =~= attrs.take(i as int));
        assert(attrs.take(i + 1).last() == attrs[i as int]);
        if str_eq(kv.key.as_str(), "level") {
            let t = value_to_text(&kv.value);
            level = severity(t.as_str());
        } else if str_eq(kv.key.as_str(), "target") {
            target = Some(value_to_text(&kv.value));
        } else {
            let t = value_to_text(&kv.value);
            set_label(&mut labels, kv.key.clone(), t);
        }
        i += 1;
    }
    assert(attrs.take(n as int) =~= attrs);
    LogEntry {
        log_name: log_name(project_id, context.log_id.as_str()),
        resource: copy_descriptor(&context.resource),
        severity: level,
        timestamp_unix_nanos: event.timestamp_unix_nanos,
        labels,
        trace: trace_name(project_id, trace_hex),
        span_id: String::from_str(span_hex),
        source_function: target,
        text_payload: event.name.clone(),
    }
}

} // verus!
