use telemetry_export::datadog::{build_endpoint, build_request_parts, ApiVersion};
use telemetry_export::grouping::group_into_traces;
use telemetry_export::span::{SpanData, SpanKind, Status};

fn get_span(trace_id: u128, parent_span_id: u64, span_id: u64) -> SpanData {
    SpanData {
        trace_id,
        span_id,
        parent_span_id,
        name: "resource".to_string(),
        start_time_unix_nanos: 1_000,
        end_time_unix_nanos: 2_000,
        status: Status::Success,
        span_kind: SpanKind::Client,
        events: vec![],
        links: vec![],
        dropped_links_count: 0,
        attributes: vec![],
    }
}

fn groups_of(batch: &[SpanData], ranges: &[(usize, usize)]) -> Vec<Vec<SpanData>> {
    ranges.iter().map(|&(s, e)| batch[s..e].to_vec()).collect()
}

#[test]
fn test_out_of_order_group() {
    let mut batch = vec![get_span(1, 1, 1), get_span(2, 2, 2), get_span(1, 1, 3)];
    let expected = vec![vec![get_span(1, 1, 1), get_span(1, 1, 3)], vec![get_span(2, 2, 2)]];

    let ranges = group_into_traces(&mut batch);
    let mut traces = groups_of(&batch, &ranges);
    traces.sort_by_key(|t| t[0].trace_id);

    assert_eq!(traces, expected);
}

#[test]
fn test_agent_endpoint_with_api_version() {
    let with_tail_slash = build_endpoint("http://localhost:8126/", ApiVersion::Version05.path());
    let without_tail_slash = build_endpoint("http://localhost:8126", ApiVersion::Version05.path());
    let with_query = build_endpoint("http://localhost:8126?api_key=123", ApiVersion::Version05.path());
    let invalid = build_endpoint("http://localhost:klsajfjksfh", ApiVersion::Version05.path());

    assert_eq!(
        with_tail_slash.ok().unwrap().to_string(),
        "http://localhost:8126/v0.5/traces"
    );
    assert_eq!(
        without_tail_slash.ok().unwrap().to_string(),
        "http://localhost:8126/v0.5/traces"
    );
    assert_eq!(
        with_query.ok().unwrap().to_string(),
        "http://localhost:8126/v0.5/traces?api_key=123"
    );
    assert!(invalid.is_err())
}

#[test]
fn empty_batch_has_no_group() {
    let mut batch: Vec<SpanData> = vec![];
    assert!(group_into_traces(&mut batch).is_empty());
}

#[test]
fn two_interleaved_traces_give_two_groups() {
    let mut batch = vec![
        get_span(7, 0, 1),
        get_span(3, 0, 2),
        get_span(7, 0, 3),
        get_span(3, 0, 4),
        get_span(7, 0, 5),
    ];
    let ranges = group_into_traces(&mut batch);
    assert_eq!(ranges.len(), 2);
    let groups = groups_of(&batch, &ranges);
    let mut ids: Vec<u64> = vec![];
    for g in &groups {
        assert!(g.iter().all(|s| s.trace_id == g[0].trace_id));
        ids.extend(g.iter().map(|s| s.span_id));
    }
    assert_ne!(groups[0][0].trace_id, groups[1][0].trace_id);
    ids.sort();
    assert_eq!(ids, vec![1, 2, 3, 4, 5]);
}

#[test]
fn regrouping_grouped_batch_gives_same_groups() {
    let mut batch = vec![get_span(9, 0, 1), get_span(4, 0, 2), get_span(9, 0, 3), get_span(5, 0, 4)];
    let ranges = group_into_traces(&mut batch);
    let groups = groups_of(&batch, &ranges);
    let mut again: Vec<SpanData> = groups.concat();
    let ranges_again = group_into_traces(&mut again);
    assert_eq!(ranges_again, ranges);
    let groups_again = groups_of(&again, &ranges_again);
    for (a, b) in groups.iter().zip(groups_again.iter()) {
        let mut x: Vec<u64> = a.iter().map(|s| s.span_id).collect();
        let mut y: Vec<u64> = b.iter().map(|s| s.span_id).collect();
        x.sort();
        y.sort();
        assert_eq!(x, y);
    }
}

#[test]
fn three_spans_two_traces_report_trace_count_two() {
    let a: u128 = 0xAAAA;
    let b: u128 = 0xBBBB;
    let mut batch = vec![get_span(a, 0, 1), get_span(b, 0, 2), get_span(a, 0, 3)];
    let (ranges, headers) = build_request_parts(&mut batch, ApiVersion::Version05, "0.1.0");
    let groups = groups_of(&batch, &ranges);
    let mut by_trace: Vec<(u128, Vec<u64>)> = groups
        .iter()
        .map(|g| {
            let mut ids: Vec<u64> = g.iter().map(|s| s.span_id).collect();
            ids.sort();
            (g[0].trace_id, ids)
        })
        .collect();
    by_trace.sort();
    assert_eq!(by_trace, vec![(a, vec![1, 3]), (b, vec![2])]);
    assert_eq!(headers[1], ("X-Datadog-Trace-Count".to_string(), "2".to_string()));
    assert_eq!(headers[0], ("content-type".to_string(), "application/msgpack".to_string()));
    assert_eq!(headers[2], ("Datadog-Meta-Lang".to_string(), "rust".to_string()));
    assert_eq!(headers[3], ("Datadog-Meta-Tracer-Version".to_string(), "0.1.0".to_string()));
}
