//! Pieces of the exporter for an agent-based tracing backend: field mapping
//! overrides, the agent endpoint and the request headers.
use vstd::prelude::*;
use vstd::string::*;
use crate::grouping::{group_into_traces, is_trace_partition, ranges_view, runs, sorted_by_trace};
use crate::span::{trace_keys, SpanData};
use crate::text::{decimal, u64_to_decimal};

verus! {

#[verifier::external_type_specification]
#[verifier::external_body]
pub struct ExUrl(url::Url);

#[verifier::external_type_specification]
#[verifier::external_body]
pub struct ExParseError(url::ParseError);

#[verifier::external_type_specification]
#[verifier::external_body]
pub struct ExUri(http::Uri);

#[verifier::external_type_specification]
#[verifier::external_body]
pub struct ExInvalidUri(http::uri::InvalidUri);

/// Static settings handed to field mapping overrides.
#[derive(Clone, Debug, Default)]
pub struct ModelConfig {
    pub service_name: String,
}

/// Optional overrides of the `resource`, `name` and `service_name` fields of
/// encoded spans.
pub struct Mapping<F> {
    pub resource: Option<F>,
    pub name: Option<F>,
    pub service_name: Option<F>,
}

impl<F> Mapping<F> {
    pub fn new(resource: Option<F>, name: Option<F>, service_name: Option<F>) -> (r: Self)
        ensures
            r.resource == resource,
            r.name == name,
            r.service_name == service_name,
    {
        Mapping { resource, name, service_name }
    }

    /// No override.
    pub fn empty() -> (r: Self)
        ensures
            r.resource is None,
            r.name is None,
            r.service_name is None,
    {
        Self::new(None, None, None)
    }
}

/// Describes whether a field is mapped by an override.
pub fn mapping_debug<F>(f: &Option<F>) -> (r: String)
    ensures
        r@ == if f is Some {
            "custom mapping"@
        } else {
            "default mapping"@
        },
{
    if f.is_some() {
        String::from_str("custom mapping")
    } else {
        String::from_str("default mapping")
    }
}

/// The value of a field: what the override gives when there is one, else the
/// default.
pub fn mapped_field<F: Fn(&SpanData, &ModelConfig) -> String>(
    f: &Option<F>,
    span: &SpanData,
    config: &ModelConfig,
    default: String,
) -> (r: String)
    requires
        f is Some ==> f->0.requires((span, config)),
    ensures
        f is Some ==> f->0.ensures((span, config), r),
        f is None ==> r@ == default@,
{
    match f {
        Some(g) => g(span, config),
        None => default,
    }
}

impl<F: Fn(&SpanData, &ModelConfig) -> String> Mapping<F> {
    /// The `resource` field of a span: the override's value, else the span's name.
    pub fn resource_of(&self, span: &SpanData, config: &ModelConfig) -> (r: String)
        requires
            self.resource is Some ==> self.resource->0.requires((span, config)),
        ensures
            self.resource is Some ==> self.resource->0.ensures((span, config), r),
            self.resource is None ==> r@ == span.name@,
    {
        mapped_field(&self.resource, span, config, span.name.clone())
    }

    /// The `name` field of a span: the override's value, else the span's name.
    pub fn name_of(&self, span: &SpanData, config: &ModelConfig) -> (r: String)
        requires
            self.name is Some ==> self.name->0.requires((span, config)),
        ensures
            self.name is Some ==> self.name->0.ensures((span, config), r),
            self.name is None ==> r@ == span.name@,
    {
        mapped_field(&self.name, span, config, span.name.clone())
    }

    /// The `service_name` field of a span: the override's value, else the
    /// configured service name.
    pub fn service_name_of(&self, span: &SpanData, config: &ModelConfig) -> (r: String)
        requires
            self.service_name is Some ==> self.service_name->0.requires((span, config)),
        ensures
            self.service_name is Some ==> self.service_name->0.ensures((span, config), r),
            self.service_name is None ==> r@ == config.service_name@,
    {
        mapped_field(&self.service_name, span, config, config.service_name.clone())
    }
}

/// Version of the agent's trace ingestion interface.
#[derive(Clone, Copy, Debug, PartialEq, Eq)]
pub enum ApiVersion {
    Version03,
    Version05,
}

impl ApiVersion {
    /// The path under which the agent takes traces of this version.
    pub fn path(self) -> (r: &'static str)
        ensures
            r@ == match self {
                ApiVersion::Version03 => "/v0.3/traces"@,
                ApiVersion::Version05 => "/v0.5/traces"@,
            },
    {
        match self {
            ApiVersion::Version03 => "/v0.3/traces",
            ApiVersion::Version05 => "/v0.5/traces",
        }
    }

    /// The media type of encoded payloads.
    pub fn content_type(self) -> (r: &'static str)
        ensures
            r@ == "application/msgpack"@,
    {
        "application/msgpack"
    }
}

/// Header giving the number of traces in a payload.
pub const DATADOG_TRACE_COUNT_HEADER: &'static str = "X-Datadog-Trace-Count";

/// Header naming the language of the tracer.
pub const DATADOG_META_LANG_HEADER: &'static str = "Datadog-Meta-Lang";

/// Header giving the version of the tracer.
pub const DATADOG_META_TRACER_VERSION_HEADER: &'static str = "Datadog-Meta-Tracer-Version";

/// Header giving the media type of the body.
pub const CONTENT_TYPE_HEADER: &'static str = "content-type";

/// The headers of a payload request, in order: its media type, its number of
/// traces, the tracer's language and the tracer's version.
pub open spec fn headers_of(content_type: Seq<char>, trace_count: nat, tracer_version: Seq<char>) -> Seq<(Seq<char>, Seq<char>)> {
    seq![
        (CONTENT_TYPE_HEADER@, content_type),
        (DATADOG_TRACE_COUNT_HEADER@, decimal(trace_count)),
        (DATADOG_META_LANG_HEADER@, "rust"@),
        (DATADOG_META_TRACER_VERSION_HEADER@, tracer_version),
    ]
}

/// Builds the headers of a payload request carrying `trace_count` traces.
pub fn request_headers(content_type: &str, trace_count: usize, tracer_version: &str) -> (r: Vec<(String, String)>)
    ensures
        r@.len() == 4,
        forall|i: int|
            0 <= i < 4 ==> (#[trigger] r@[i]).0@ == headers_of(content_type@, trace_count as nat, tracer_version@)[i].0
                && r@[i].1@ == headers_of(content_type@, trace_count as nat, tracer_version@)[i].1,
{
    let mut r: Vec<(String, String)> = Vec::new();
    r.push((String::from_str(CONTENT_TYPE_HEADER), String::from_str(content_type)));
    r.push((String::from_str(DATADOG_TRACE_COUNT_HEADER), u64_to_decimal(trace_count as u64)));
    r.push((String::from_str(DATADOG_META_LANG_HEADER), String::from_str("rust")));
    r.push((String::from_str(DATADOG_META_TRACER_VERSION_HEADER), String::from_str(tracer_version)));
    r
}

/// The non-empty segments of a path, in order.
pub open spec fn nonempty_segments(s: Seq<Seq<char>>) -> Seq<Seq<char>>
    decreases s.len(),
{
    if s.len() == 0 {
        Seq::empty()
    } else if s.last().len() == 0 {
        nonempty_segments(s.drop_last())
    } else {
        nonempty_segments(s.drop_last()).push(s.last())
    }
}

/// Parts joined by `/`.
pub open spec fn join_path(parts: Seq<Seq<char>>) -> Seq<char>
    decreases parts.len(),
{
    if parts.len() == 0 {
        Seq::empty()
    } else if parts.len() == 1 {
        parts[0]
    } else {
        join_path(parts.drop_last()) + "/"@ + parts.last()
    }
}

/// The text of each segment.
pub open spec fn segments_view(s: Seq<String>) -> Seq<Seq<char>> {
    s.map_values(|x: String| x@)
}

/// The path of the endpoint: the non-empty segments of the agent's path,
/// then the version's path, joined by `/`.
pub fn endpoint_path(segments: &Vec<String>, version: &str) -> (r: String)
    ensures
        r@ == join_path(nonempty_segments(segments_view(segments@)).push(version@)),
{
    let ghost sv = segments_view(segments@);
    let mut out = String::new();
    let mut count: usize = 0;
    let n = segments.len();
    let mut i: usize = 0;
    assert(sv.take(0) =~= Seq::<Seq<char>>::empty());
    while i < n
        invariant
            n == segments@.len(),
            sv == segments_view(segments@),
            i <= n,
            count as int == nonempty_segments(sv.take(i as int)).len(),
            count <= i,
            out@ == join_path(nonempty_segments(sv.take(i as int))),
        decreases n - i,
    {
        let seg = &segments[i];
        assert(sv.take(i + 1).drop_last() =~= sv.take(i as int));
        assert(sv.take(i + 1).last() == seg@);
        if seg.as_str().unicode_len() > 0 {
            if count > 0 {
                out.append("/");
            }
            out.append(seg.as_str());
            count += 1;
            proof {
                let p = nonempty_segments(sv.take(i as int));
                let q = p.push(seg@);
                assert(q.drop_last() =~= p);
                if p.len() == 0 {
                    assert(out@ =~= seg@);
                }
            }
        }
        i += 1;
    }
    assert(sv.take(n as int) =~= sv);
    let ghost p = nonempty_segments(sv);
    if count > 0 {
        out.append("/");
    }
    out.append(version);
    proof {
        assert(p.push(version@).drop_last() =~= p);
        if p.len() == 0 {
            assert(out@ =~= version@);
        }
    }
    out
}

/// Why an agent endpoint was refused.
pub enum EndpointError {
    /// The endpoint is no valid URL.
    Url(url::ParseError),
    /// The rebuilt endpoint is no valid URI.
    Uri(http::uri::InvalidUri),
}

/// Relies on `url::Url::parse`: parses an absolute URL.
#[verifier::external_body]
fn parse_url(s: &str) -> (r: Result<url::Url, url::ParseError>) {
    url::Url::parse(s)
}

/// Relies on `url::Url::path_segments`: the segments of the URL's path, when
/// it has one that starts with `/`.
#[verifier::external_body]
fn url_path_segments(u: &url::Url) -> (r: Option<Vec<String>>) {
    u.path_segments().map(|c| c.map(|s| s.to_string()).collect())
}

/// Relies on `url::Url::set_path`: replaces the URL's path.
#[verifier::external_body]
fn url_set_path(u: &mut url::Url, path: &str) {
    u.set_path(path)
}

/// Relies on `url::Url::as_str`: the URL's serialization.
#[verifier::external_body]
fn url_text(u: &url::Url) -> (r: String) {
    u.as_str().to_string()
}

/// Relies on `http::Uri`'s `FromStr`: parses a URI.
#[verifier::external_body]
fn parse_uri(s: &str) -> (r: Result<http::Uri, http::uri::InvalidUri>) {
    s.parse::<http::Uri>()
}

/// The endpoint that takes traces of a version: the agent's URL with the
/// version's path appended to its non-empty path segments; host and query stay.
pub fn build_endpoint(agent_endpoint: &str, version: &str) -> (r: Result<http::Uri, EndpointError>) {
    let mut endpoint = match parse_url(agent_endpoint) {
        Ok(u) => u,
        Err(e) => {
            return Err(EndpointError::Url(e));
        },
    };
    let segments = match url_path_segments(&endpoint) {
        Some(s) => s,
        None => Vec::new(),
    };
    let path = endpoint_path(&segments, version);
    url_set_path(&mut endpoint, path.as_str());
    let text = url_text(&endpoint);
    match parse_uri(text.as_str()) {
        Ok(u) => Ok(u),
        Err(e) => Err(EndpointError::Uri(e)),
    }
}

/// Prepares a batch for its payload request: orders it by trace and returns
/// the ranges of its traces, with the request's headers, whose trace count is
/// the number of traces.
pub fn build_request_parts(batch: &mut Vec<SpanData>, api_version: ApiVersion, tracer_version: &str) -> (r: (
    Vec<(usize, usize)>,
    Vec<(String, String)>,
))
    ensures
        final(batch)@.to_multiset() == old(batch)@.to_multiset(),
        sorted_by_trace(final(batch)@),
        ranges_view(r.0@) == runs(trace_keys(final(batch)@)),
        is_trace_partition(trace_keys(final(batch)@), ranges_view(r.0@)),
        r.1@.len() == 4,
        forall|i: int|
            0 <= i < 4 ==> (#[trigger] r.1@[i]).0@ == headers_of(
                "application/msgpack"@,
                r.0@.len() as nat,
                tracer_version@,
            )[i].0 && r.1@[i].1@ == headers_of("application/msgpack"@, r.0@.len() as nat, tracer_version@)[i].1,
{
    let traces = group_into_traces(batch);
    let headers = request_headers(api_version.content_type(), traces.len(), tracer_version);
    (traces, headers)
}

} // verus!
