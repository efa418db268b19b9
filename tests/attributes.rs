use telemetry_export::attributes::{AttributeValue, Attributes};
use telemetry_export::span::{KeyValue, Value};

fn kv(key: &str, value: Value) -> KeyValue {
    KeyValue { key: key.to_string(), value }
}

fn text(s: &str) -> Value {
    Value::String(s.to_string())
}

#[test]
fn test_attributes_mapping() {
    let capacity = 10;
    let mut attributes = Vec::with_capacity(capacity);
    attributes.push(kv("http.host", text("example.com:8080")));
    attributes.push(kv("http.method", text("POST")));
    attributes.push(kv("http.path", text("/path/12314/?q=ddds#123")));
    attributes.push(kv("http.url", text("https://example.com:8080/webshop/articles/4?s=1")));
    attributes.push(kv("http.user_agent", text("CERN-LineMode/2.15 libwww/2.17b3")));
    attributes.push(kv("http.status_code", Value::I64(200)));
    attributes.push(kv("http.route", text("/webshop/articles/:article_id")));
    let resources = vec![kv("service.name", text("Test Service Name"))];

    let actual = Attributes::new(attributes, Some(&resources));
    assert_eq!(actual.len(), 8);
    assert_eq!(actual.dropped_attributes_count, 0);
    assert_eq!(
        actual.get("/http/host"),
        Some(&AttributeValue::from_value(&text("example.com:8080")))
    );
    assert_eq!(actual.get("/http/method"), Some(&AttributeValue::from_value(&text("POST"))));
    assert_eq!(
        actual.get("/http/path"),
        Some(&AttributeValue::from_value(&text("/path/12314/?q=ddds#123")))
    );
    assert_eq!(
        actual.get("/http/route"),
        Some(&AttributeValue::from_value(&text("/webshop/articles/:article_id")))
    );
    assert_eq!(
        actual.get("/http/url"),
        Some(&AttributeValue::from_value(&text("https://example.com:8080/webshop/articles/4?s=1")))
    );
    assert_eq!(
        actual.get("/http/user_agent"),
        Some(&AttributeValue::from_value(&text("CERN-LineMode/2.15 libwww/2.17b3")))
    );
    assert_eq!(actual.get("/http/status_code"), Some(&AttributeValue::from_value(&Value::I64(200))));
}

#[test]
fn test_too_many() {
    let resources = vec![kv("user_agent.original", text("Test Service Name UA"))];
    let mut attributes = Vec::with_capacity(32);
    for i in 0..32 {
        attributes.push(kv(&format!("key{i}"), Value::String(format!("value{i}"))));
    }

    let actual = Attributes::new(attributes, Some(&resources));
    assert_eq!(actual.len(), 32);
    assert_eq!(actual.dropped_attributes_count, 1);
    assert_eq!(
        actual.get("/http/user_agent"),
        Some(&AttributeValue::from_value(&text("Test Service Name UA")))
    );
}

#[test]
fn test_attributes_mapping_http_target() {
    let attributes = vec![kv("http.target", text("/path/12314/?q=ddds#123"))];
    let resources: Vec<KeyValue> = vec![];
    let actual = Attributes::new(attributes, Some(&resources));
    assert_eq!(actual.len(), 1);
    assert_eq!(actual.dropped_attributes_count, 0);
    assert_eq!(
        actual.get("/http/path"),
        Some(&AttributeValue::from_value(&text("/path/12314/?q=ddds#123")))
    );
}

#[test]
fn test_attributes_mapping_dropped_attributes_count() {
    let attributes = vec![kv("answer", Value::I64(42)), kv("long_attribute_key_dvwmacxpeefbuemoxljmqvldjxmvvihoeqnuqdsyovwgljtnemouidabhkmvsnauwfnaihekcfwhugejboiyfthyhmkpsaxtidlsbwsmirebax", text("Some value"))];
    let resources: Vec<KeyValue> = vec![];
    let actual = Attributes::new(attributes, Some(&resources));
    assert_eq!(
        actual.attribute_map,
        vec![("answer".to_string(), AttributeValue::from_value(&Value::I64(42)))]
    );
    assert_eq!(actual.len(), 1);
    assert_eq!(actual.dropped_attributes_count, 1);
}

#[test]
fn projection_keeps_first_thirty_two_and_counts_the_rest() {
    let resources: Vec<KeyValue> = (0..10).map(|i| kv(&format!("res{i}"), Value::I64(i))).collect();
    let attributes: Vec<KeyValue> = (0..30).map(|i| kv(&format!("attr{i}"), Value::Bool(i % 2 == 0))).collect();
    let actual = Attributes::new(attributes, Some(&resources));
    assert_eq!(actual.len(), 32);
    assert_eq!(actual.dropped_attributes_count, 8);
    assert_eq!(actual.get("res0"), Some(&AttributeValue::IntValue(0)));
    assert_eq!(actual.get("attr21"), Some(&AttributeValue::BoolValue(false)));
    assert_eq!(actual.get("attr22"), None);
}

#[test]
fn projection_of_exactly_thirty_two_drops_nothing() {
    let attributes: Vec<KeyValue> = (0..32).map(|i| kv(&format!("k{i}"), Value::I64(i))).collect();
    let actual = Attributes::new(attributes, None);
    assert_eq!(actual.len(), 32);
    assert_eq!(actual.dropped_attributes_count, 0);
}

#[test]
fn full_set_drops_further_candidate_and_keeps_entries() {
    let attributes: Vec<KeyValue> = (0..32).map(|i| kv(&format!("k{i}"), Value::I64(i))).collect();
    let mut actual = Attributes::new(attributes, None);
    let before = actual.attribute_map.clone();
    actual.push("k0", &Value::I64(99));
    assert_eq!(actual.attribute_map, before);
    assert_eq!(actual.dropped_attributes_count, 1);
}

#[test]
fn long_key_dropped_on_empty_set() {
    let long = "x".repeat(129);
    let edge = "y".repeat(128);
    let actual = Attributes::new(vec![kv(&long, Value::I64(1)), kv(&edge, Value::I64(2))], None);
    assert_eq!(actual.len(), 1);
    assert_eq!(actual.dropped_attributes_count, 1);
    assert_eq!(actual.get(&edge), Some(&AttributeValue::IntValue(2)));
}

#[test]
fn span_attribute_overwrites_resource_attribute_with_same_backend_key() {
    let resources = vec![kv("http.method", text("GET"))];
    let attributes = vec![kv("http.request.method", text("PUT"))];
    let actual = Attributes::new(attributes, Some(&resources));
    assert_eq!(actual.len(), 1);
    assert_eq!(actual.get("/http/method"), Some(&AttributeValue::from_value(&text("PUT"))));
}

#[test]
fn kubernetes_keys_are_renamed() {
    let attributes = vec![kv("k8s.pod.name", text("pod-1")), kv("k8s.cluster.name", text("c"))];
    let actual = Attributes::new(attributes, None);
    assert_eq!(
        actual.get("g.co/r/k8s_container/pod_name"),
        Some(&AttributeValue::from_value(&text("pod-1")))
    );
    assert_eq!(
        actual.get("g.co/r/k8s_container/cluster_name"),
        Some(&AttributeValue::from_value(&text("c")))
    );
}
