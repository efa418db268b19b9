//! Projection of resource and span attributes into one bounded attribute set.
use vstd::prelude::*;
use vstd::string::*;
use crate::span::{KeyValue, Value};
use crate::text::str_eq;

verus! {

/// The most attributes a projected set holds.
pub const MAX_ATTRIBUTES_PER_SPAN: usize = 32;

/// The longest attribute key, in characters, that is kept.
pub const MAX_KEY_CHARS: usize = 128;

/// A string that the backend may shorten, with the number of bytes it cut.
#[derive(Clone, Debug, PartialEq)]
pub struct TruncatableString {
    pub value: String,
    pub truncated_byte_count: i32,
}

/// Wraps a string whole, nothing truncated.
pub fn to_truncate(s: String) -> (r: TruncatableString)
    ensures
        r.value@ == s@,
        r.truncated_byte_count == 0,
{
    TruncatableString { value: s, truncated_byte_count: 0 }
}

/// An attribute value in the backend's scalar types.
#[derive(Clone, Debug, PartialEq)]
pub enum AttributeValue {
    BoolValue(bool),
    IntValue(i64),
    StringValue(TruncatableString),
}

/// The mathematical content of an [`AttributeValue`].
pub enum AttributeValueView {
    BoolValue(bool),
    IntValue(i64),
    StringValue(Seq<char>, i32),
}

impl View for AttributeValue {
    type V = AttributeValueView;

    open spec fn view(&self) -> AttributeValueView {
        match self {
            AttributeValue::BoolValue(b) => AttributeValueView::BoolValue(*b),
            AttributeValue::IntValue(i) => AttributeValueView::IntValue(*i),
            AttributeValue::StringValue(t) => AttributeValueView::StringValue(
                t.value@,
                t.truncated_byte_count,
            ),
        }
    }
}

/// The backend value of an attribute value: booleans and integers keep their
/// type, text becomes an untruncated string.
pub open spec fn value_view(v: Value) -> AttributeValueView {
    match v {
        Value::Bool(b) => AttributeValueView::BoolValue(b),
        Value::I64(i) => AttributeValueView::IntValue(i),
        Value::String(s) => AttributeValueView::StringValue(s@, 0),
    }
}

impl AttributeValue {
    /// Converts an attribute value to the backend's scalar types.
    pub fn from_value(v: &Value) -> (r: AttributeValue)
        ensures
            r@ == value_view(*v),
    {
        match v {
            Value::Bool(b) => AttributeValue::BoolValue(*b),
            Value::I64(i) => AttributeValue::IntValue(*i),
            Value::String(s) => AttributeValue::StringValue(to_truncate(s.clone())),
        }
    }
}

/// A candidate attribute: its key and its backend value.
pub open spec fn kv_view(kv: KeyValue) -> (Seq<char>, AttributeValueView) {
    (kv.key@, value_view(kv.value))
}

/// The candidates of a sequence of attributes, in order.
pub open spec fn kvs_view(s: Seq<KeyValue>) -> Seq<(Seq<char>, AttributeValueView)> {
    s.map_values(|kv: KeyValue| kv_view(kv))
}

/// The backend key that a conventional key is renamed to, if any.
pub open spec fn renamed(key: Seq<char>) -> Option<Seq<char>> {
    if key == "http.path"@ {
        Some("/http/path"@)
    } else if key == "http.host"@ || key == "http.request.header.host"@ {
        Some("/http/host"@)
    } else if key == "http.method"@ || key == "http.request.method"@ {
        Some("/http/method"@)
    } else if key == "http.target"@ || key == "url.path"@ {
        Some("/http/path"@)
    } else if key == "http.url"@ || key == "url.full"@ {
        Some("/http/url"@)
    } else if key == "http.user_agent"@ || key == "user_agent.original"@ {
        Some("/http/user_agent"@)
    } else if key == "http.status_code"@ || key == "http.response.status_code"@ {
        Some("/http/status_code"@)
    } else if key == "k8s.cluster.name"@ {
        Some("g.co/r/k8s_container/cluster_name"@)
    } else if key == "k8s.namespace.name"@ {
        Some("g.co/r/k8s_container/namespace"@)
    } else if key == "k8s.pod.name"@ {
        Some("g.co/r/k8s_container/pod_name"@)
    } else if key == "k8s.container.name"@ {
        Some("g.co/r/k8s_container/container_name"@)
    } else if key == "http.route"@ {
        Some("/http/route"@)
    } else {
        None
    }
}

/// The key under which an attribute is stored: its backend name where the
/// rename table has one, else the key itself.
pub open spec fn stored_key(key: Seq<char>) -> Seq<char> {
    match renamed(key) {
        Some(g) => g,
        None => key,
    }
}

/// Looks a conventional key up in the rename table.
pub fn backend_key(key: &str) -> (r: Option<&'static str>)
    ensures
        match r {
            Some(g) => renamed(key@) == Some(g@),
            None => renamed(key@) is None,
        },
{
    if str_eq(key, "http.path") {
        Some("/http/path")
    } else if str_eq(key, "http.host") || str_eq(key, "http.request.header.host") {
        Some("/http/host")
    } else if str_eq(key, "http.method") || str_eq(key, "http.request.method") {
        Some("/http/method")
    } else if str_eq(key, "http.target") || str_eq(key, "url.path") {
        Some("/http/path")
    } else if str_eq(key, "http.url") || str_eq(key, "url.full") {
        Some("/http/url")
    } else if str_eq(key, "http.user_agent") || str_eq(key, "user_agent.original") {
        Some("/http/user_agent")
    } else if str_eq(key, "http.status_code") || str_eq(key, "http.response.status_code") {
        Some("/http/status_code")
    } else if str_eq(key, "k8s.cluster.name") {
        Some("g.co/r/k8s_container/cluster_name")
    } else if str_eq(key, "k8s.namespace.name") {
        Some("g.co/r/k8s_container/namespace")
    } else if str_eq(key, "k8s.pod.name") {
        Some("g.co/r/k8s_container/pod_name")
    } else if str_eq(key, "k8s.container.name") {
        Some("g.co/r/k8s_container/container_name")
    } else if str_eq(key, "http.route") {
        Some("/http/route")
    } else {
        None
    }
}

/// Candidate attributes in order, or the entries of a projected set.
pub type Entries = Seq<(Seq<char>, AttributeValueView)>;

/// Some entry has the key.
pub open spec fn has_key(e: Entries, key: Seq<char>) -> bool {
    exists|i: int| 0 <= i < e.len() && #[trigger] e[i].0 == key
}

/// No key occurs twice.
pub open spec fn keys_unique(e: Entries) -> bool {
    forall|i: int, j: int| 0 <= i < j < e.len() ==> #[trigger] e[i].0 != #[trigger] e[j].0
}

/// Stores `v` under `key`: the entry with that key takes the new value in its
/// place, or a new entry is appended.
pub open spec fn upsert(e: Entries, key: Seq<char>, v: AttributeValueView) -> Entries {
    if has_key(e, key) {
        let i = choose|i: int| 0 <= i < e.len() && #[trigger] e[i].0 == key;
        e.update(i, (key, v))
    } else {
        e.push((key, v))
    }
}

/// One candidate offered to a set with entries `e` and drop count `dropped`:
/// a full set drops it, then a key over the length limit drops it, else it is
/// stored under its backend key.
pub open spec fn push_model(e: Entries, dropped: int, key: Seq<char>, v: AttributeValueView) -> (Entries, int) {
    if e.len() >= MAX_ATTRIBUTES_PER_SPAN {
        (e, dropped + 1)
    } else if key.len() > MAX_KEY_CHARS {
        (e, dropped + 1)
    } else {
        (upsert(e, stored_key(key), v), dropped)
    }
}

/// The projection of candidates offered in order to an empty set.
pub open spec fn project(kvs: Entries) -> (Entries, int)
    decreases kvs.len(),
{
    if kvs.len() == 0 {
        (Seq::empty(), 0)
    } else {
        let p = project(kvs.drop_last());
        push_model(p.0, p.1, kvs.last().0, kvs.last().1)
    }
}

/// The candidates of an optional resource, in order.
pub open spec fn resource_view(resource: Option<&Vec<KeyValue>>) -> Entries {
    match resource {
        Some(r) => kvs_view(r@),
        None => Seq::empty(),
    }
}

/// A bounded set of attributes under backend keys, with the number of
/// candidates that it dropped.
pub struct Attributes {
    pub attribute_map: Vec<(String, AttributeValue)>,
    pub dropped_attributes_count: i32,
}

impl Attributes {
    /// The entries, in the order their keys were first stored.
    pub open spec fn entries(&self) -> Entries {
        self.attribute_map@.map_values(|e: (String, AttributeValue)| (e.0@, e.1@))
    }

    /// The entries and the drop count.
    pub open spec fn model(&self) -> (Entries, int) {
        (self.entries(), self.dropped_attributes_count as int)
    }

    pub open spec fn well_formed(&self) -> bool {
        &&& self.entries().len() <= MAX_ATTRIBUTES_PER_SPAN
        &&& keys_unique(self.entries())
        &&& self.dropped_attributes_count >= 0
    }

    /// The position of the entry with the key, if any.
    fn find(&self, key: &str) -> (r: Option<usize>)
        ensures
            match r {
                Some(i) => i < self.entries().len() && self.entries()[i as int].0 == key@,
                None => !has_key(self.entries(), key@),
            },
    {
        let n = self.attribute_map.len();
        let mut i: usize = 0;
        while i < n
            invariant
                n == self.entries().len(),
                i <= n,
                forall|j: int| 0 <= j < i ==> self.entries()[j].0 != key@,
            decreases n - i,
        {
            if str_eq(self.attribute_map[i].0.as_str(), key) {
                return Some(i);
            }
            i += 1;
        }
        None
    }

    /// The number of entries.
    pub fn len(&self) -> (r: usize)
        ensures
            r == self.entries().len(),
    {
        self.attribute_map.len()
    }

    /// The value stored under the key, if any.
    pub fn get(&self, key: &str) -> (r: Option<&AttributeValue>)
        ensures
            match r {
                Some(v) => exists|i: int|
                    0 <= i < self.entries().len() && #[trigger] self.entries()[i] == (key@, v@),
                None => !has_key(self.entries(), key@),
            },
    {
        match self.find(key) {
            Some(i) => {
                let r = &self.attribute_map[i].1;
                assert(self.entries()[i as int] == (key@, r@));
                Some(r)
            },
            None => None,
        }
    }

    /// Offers one candidate attribute to the set.
    pub fn push(&mut self, key: &str, value: &Value)
        requires
            old(self).well_formed(),
            old(self).dropped_attributes_count < i32::MAX,
        ensures
            final(self).well_formed(),
            final(self).model() == push_model(
                old(self).entries(),
                old(self).dropped_attributes_count as int,
                key@,
                value_view(*value),
            ),
    {
        if self.attribute_map.len() >= MAX_ATTRIBUTES_PER_SPAN {
            self.dropped_attributes_count = self.dropped_attributes_count + 1;
            return;
        }
        if key.unicode_len() > MAX_KEY_CHARS {
            self.dropped_attributes_count = self.dropped_attributes_count + 1;
            return;
        }
        let stored = match backend_key(key) {
            Some(g) => String::from_str(g),
            None => String::from_str(key),
        };
        let v = AttributeValue::from_value(value);
        let ghost e = self.entries();
        let ghost sk = stored_key(key@);
        assert(stored@ == sk);
        match self.find(stored.as_str()) {
            Some(i) => {
                self.attribute_map.set(i, (stored, v));
                assert(has_key(e, sk));
                let ghost j = choose|j: int| 0 <= j < e.len() && #[trigger] e[j].0 == sk;
                assert(j == i);
                assert(self.entries() =~= e.update(i as int, (sk, value_view(*value))));
            },
            None => {
                self.attribute_map.push((stored, v));
                assert(self.entries() =~= e.push((sk, value_view(*value))));
            },
        }
    }

    /// Projects the resource attributes, then the span attributes, into one
    /// set, in that order.
    pub fn new(attributes: Vec<KeyValue>, resource: Option<&Vec<KeyValue>>) -> (r: Self)
        requires
            resource_view(resource).len() + attributes@.len() <= i32::MAX,
        ensures
            r.well_formed(),
            r.model() == project(resource_view(resource) + kvs_view(attributes@)),
    {
        let mut new = Attributes { attribute_map: Vec::new(), dropped_attributes_count: 0 };
        let ghost rv = resource_view(resource);
        let ghost sv = kvs_view(attributes@);
        assert(new.entries() =~= Seq::<(Seq<char>, AttributeValueView)>::empty());
        match resource {
            Some(res) => {
                let n = res.len();
                let mut i: usize = 0;
                assert(rv.take(0) =~= Seq::<(Seq<char>, AttributeValueView)>::empty());
                while i < n
                    invariant
                        n == res@.len(),
                        rv == kvs_view(res@),
                        i <= n,
                        rv.len() + sv.len() <= i32::MAX,
                        new.well_formed(),
                        new.dropped_attributes_count <= i,
                        new.model() == project(rv.take(i as int)),
                    decreases n - i,
                {
                    proof { lemma_project_dropped_bound(rv.take(i as int)); }
                    let kv = &res[i];
                    new.push(kv.key.as_str(), &kv.value);
                    assert(rv.take(i + 1).drop_last() =~= rv.take(i as int));
                    i += 1;
                }
                assert(rv.take(n as int) =~= rv);
            },
            None => {},
        }
        let m = attributes.len();
        let mut j: usize = 0;
        assert(rv + sv.take(0) =~= rv);
        while j < m
            invariant
                m == attributes@.len(),
                sv == kvs_view(attributes@),
                j <= m,
                rv.len() + sv.len() <= i32::MAX,
                new.well_formed(),
                new.model() == project(rv + sv.take(j as int)),
            decreases m - j,
        {
            proof { lemma_project_dropped_bound(rv + sv.take(j as int)); }
            let kv = &attributes[j];
            new.push(kv.key.as_str(), &kv.value);
            assert((rv + sv.take(j + 1)).drop_last() =~= rv + sv.take(j as int));
            j += 1;
        }
        assert(sv.take(m as int) =~= sv);
        new
    }
}

/// A projection drops no more candidates than it was offered.
proof fn lemma_project_dropped_bound(kvs: Entries)
    ensures
        0 <= project(kvs).1 <= kvs.len(),
    decreases kvs.len(),
{
    if kvs.len() > 0 {
        lemma_project_dropped_bound(kvs.drop_last());
    }
}

/// A key longer than the limit is dropped and counted, whether or not the set
/// is full, and the entries stay as they were.
pub proof fn lemma_long_key_dropped(e: Entries, dropped: int, key: Seq<char>, v: AttributeValueView)
    requires
        key.len() > MAX_KEY_CHARS,
    ensures
        push_model(e, dropped, key, v) == (e, dropped + 1),
{
}

/// A set that holds the most entries drops and counts every further candidate
/// and keeps its entries as they were.
pub proof fn lemma_full_set_drops(e: Entries, dropped: int, key: Seq<char>, v: AttributeValueView)
    requires
        e.len() == MAX_ATTRIBUTES_PER_SPAN,
    ensures
        push_model(e, dropped, key, v) == (e, dropped + 1),
{
}

/// A projection never holds more than the most entries, and no key twice.
pub proof fn lemma_projection_bounded(kvs: Entries)
    ensures
        project(kvs).0.len() <= MAX_ATTRIBUTES_PER_SPAN,
        keys_unique(project(kvs).0),
    decreases kvs.len(),
{
    if kvs.len() > 0 {
        let p = project(kvs.drop_last());
        lemma_projection_bounded(kvs.drop_last());
        let key = kvs.last().0;
        if p.0.len() < MAX_ATTRIBUTES_PER_SPAN && key.len() <= MAX_KEY_CHARS {
            let sk = stored_key(key);
            if has_key(p.0, sk) {
                let i = choose|i: int| 0 <= i < p.0.len() && #[trigger] p.0[i].0 == sk;
                let q = p.0.update(i, (sk, kvs.last().1));
                assert forall|a: int, b: int| 0 <= a < b < q.len() implies #[trigger] q[a].0 != #[trigger] q[b].0 by {
                    assert(p.0[a].0 != p.0[b].0);
                }
            } else {
                let q = p.0.push((sk, kvs.last().1));
                assert forall|a: int, b: int| 0 <= a < b < q.len() implies #[trigger] q[a].0 != #[trigger] q[b].0 by {
                    if b < p.0.len() {
                        assert(p.0[a].0 != p.0[b].0);
                    } else {
                        assert(p.0[a].0 != sk);
                    }
                }
            }
        }
    }
}

/// The entries that a projection of candidates with short keys and distinct
/// backend keys holds: up to the limit, one for each candidate, in order.
proof fn lemma_projection_prefix(kvs: Entries)
    requires
        forall|i: int| 0 <= i < kvs.len() ==> (#[trigger] kvs[i]).0.len() <= MAX_KEY_CHARS,
        forall|i: int, j: int|
            0 <= i < j < kvs.len() ==> stored_key((#[trigger] kvs[i]).0) != stored_key((#[trigger] kvs[j]).0),
    ensures
        kvs.len() <= MAX_ATTRIBUTES_PER_SPAN ==> project(kvs).0.len() == kvs.len() && project(kvs).1 == 0
            && forall|i: int| 0 <= i < kvs.len() ==> (#[trigger] project(kvs).0[i]).0 == stored_key(kvs[i].0),
        kvs.len() > MAX_ATTRIBUTES_PER_SPAN ==> project(kvs).0.len() == MAX_ATTRIBUTES_PER_SPAN
            && project(kvs).1 == kvs.len() - MAX_ATTRIBUTES_PER_SPAN,
    decreases kvs.len(),
{
    if kvs.len() > 0 {
        let kp = kvs.drop_last();
        lemma_projection_prefix(kp);
        let p = project(kp);
        let n = kvs.len() as int;
        if n <= MAX_ATTRIBUTES_PER_SPAN {
            let sk = stored_key(kvs.last().0);
            assert(kvs[n - 1].0.len() <= MAX_KEY_CHARS);
            assert forall|i: int| 0 <= i < p.0.len() implies p.0[i].0 != sk by {
                assert(kp[i] == kvs[i]);
                assert(p.0[i].0 == stored_key(kp[i].0));
                assert(stored_key(kvs[i].0) != stored_key(kvs[n - 1].0));
            }
            assert(!has_key(p.0, sk));
            let q = p.0.push((sk, kvs.last().1));
            assert forall|i: int| 0 <= i < n implies (#[trigger] q[i]).0 == stored_key(kvs[i].0) by {
                if i < n - 1 {
                    assert(kp[i] == kvs[i]);
                    assert(p.0[i].0 == stored_key(kp[i].0));
                }
            }
        }
    }
}

/// A projection of candidates whose keys are all within the limit and whose
/// backend keys are all distinct keeps the first candidates up to the limit
/// and counts every further one as dropped: it holds `min(n, limit)` entries
/// and drops `max(0, n - limit)` of `n` candidates.
pub proof fn lemma_projection_counts(kvs: Entries)
    requires
        forall|i: int| 0 <= i < kvs.len() ==> (#[trigger] kvs[i]).0.len() <= MAX_KEY_CHARS,
        forall|i: int, j: int|
            0 <= i < j < kvs.len() ==> stored_key((#[trigger] kvs[i]).0) != stored_key((#[trigger] kvs[j]).0),
    ensures
        project(kvs).0.len() == if kvs.len() <= MAX_ATTRIBUTES_PER_SPAN { kvs.len() as int } else { MAX_ATTRIBUTES_PER_SPAN as int },
        project(kvs).1 == if kvs.len() <= MAX_ATTRIBUTES_PER_SPAN { 0 } else { kvs.len() - MAX_ATTRIBUTES_PER_SPAN },
{
    lemma_projection_prefix(kvs);
}

} // verus!
