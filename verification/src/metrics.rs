//! Metrics: what each recorded event adds to which series.
//!
//! The functions here lay out the samples; handing them to a metrics
//! backend is the caller's part.

use vstd::prelude::*;

verus! {

/// The kind of a metric series.
#[derive(Debug, Clone, Copy, PartialEq, Eq, Structural)]
pub enum MetricKind {
    /// A counter, increased by the sample's value.
    Counter,
    /// A gauge, set to the sample's value.
    Gauge,
    /// A histogram, which records the sample's value.
    Histogram,
}

/// One label of a series.
#[derive(Debug, Clone, PartialEq, Eq)]
pub struct Label {
    pub key: &'static str,
    pub value: String,
}

/// One sample for one series.
#[derive(Debug, Clone, PartialEq, Eq)]
pub struct MetricSample {
    pub kind: MetricKind,
    pub name: &'static str,
    pub labels: Vec<Label>,
    pub value: u64,
}

/// A sample as the contracts speak of it.
pub struct SampleView {
    pub kind: MetricKind,
    pub name: Seq<char>,
    pub labels: Seq<(Seq<char>, Seq<char>)>,
    pub value: u64,
}

impl View for MetricSample {
    type V = SampleView;

    open spec fn view(&self) -> SampleView {
        SampleView {
            kind: self.kind,
            name: self.name@,
            labels: Seq::new(
                self.labels@.len(),
                |i: int| (self.labels@[i].key@, self.labels@[i].value@),
            ),
            value: self.value,
        }
    }
}

pub open spec fn sample_views(v: Seq<MetricSample>) -> Seq<SampleView> {
    Seq::new(v.len(), |i: int| v[i]@)
}

/// The status label of an outcome.
pub open spec fn status_text(success: bool) -> Seq<char> {
    if success {
        "success"@
    } else {
        "failure"@
    }
}

fn status_of(success: bool) -> (r: String)
    ensures
        r@ == status_text(success),
{
    if success {
        "success".to_string()
    } else {
        "failure".to_string()
    }
}

fn sample(kind: MetricKind, name: &'static str, labels: Vec<Label>, value: u64) -> (r: MetricSample)
    ensures
        r.kind == kind,
        r.name@ == name@,
        r.labels == labels,
        r.value == value,
{
    MetricSample { kind, name, labels, value }
}

fn label(key: &'static str, value: &str) -> (r: Label)
    ensures
        r.key@ == key@,
        r.value@ == value@,
{
    Label { key, value: value.to_string() }
}

/// Record a notification send attempt.
pub fn record_notification_sent(service: &str, backend: &str, success: bool) -> (r: Vec<
    MetricSample,
>)
    ensures
        sample_views(r@) == seq![
            SampleView {
                kind: MetricKind::Counter,
                name: "notifications_sent_total"@,
                labels: seq![
                    ("service"@, service@),
                    ("backend"@, backend@),
                    ("status"@, status_text(success)),
                ],
                value: 1,
            },
        ],
{
    let mut labels: Vec<Label> = Vec::new();
    labels.push(label("service", service));
    labels.push(label("backend", backend));
    let st = status_of(success);
    labels.push(label("status", st.as_str()));
    let s = sample(MetricKind::Counter, "notifications_sent_total", labels, 1);
    assert(s@.labels =~= seq![
        ("service"@, service@),
        ("backend"@, backend@),
        ("status"@, status_text(success)),
    ]);
    let mut out: Vec<MetricSample> = Vec::new();
    out.push(s);
    assert(sample_views(out@) =~= seq![s@]);
    out
}

/// Record a server operation result.
pub fn record_server_operation(service: &str, server: &str, operation: &str, success: bool) -> (r:
    Vec<MetricSample>)
    ensures
        sample_views(r@) == seq![
            SampleView {
                kind: MetricKind::Counter,
                name: "server_operations_total"@,
                labels: seq![
                    ("service"@, service@),
                    ("server"@, server@),
                    ("operation"@, operation@),
                    ("status"@, status_text(success)),
                ],
                value: 1,
            },
        ],
{
    let mut labels: Vec<Label> = Vec::new();
    labels.push(label("service", service));
    labels.push(label("server", server));
    labels.push(label("operation", operation));
    let st = status_of(success);
    labels.push(label("status", st.as_str()));
    let s = sample(MetricKind::Counter, "server_operations_total", labels, 1);
    assert(s@.labels =~= seq![
        ("service"@, service@),
        ("server"@, server@),
        ("operation"@, operation@),
        ("status"@, status_text(success)),
    ]);
    let mut out: Vec<MetricSample> = Vec::new();
    out.push(s);
    assert(sample_views(out@) =~= seq![s@]);
    out
}

/// Record update check results: the pending OS and Docker updates of a
/// server, each as a gauge.
pub fn record_updates_available(server: &str, os_updates: usize, docker_updates: usize) -> (r: Vec<
    MetricSample,
>)
    ensures
        sample_views(r@) == seq![
            SampleView {
                kind: MetricKind::Gauge,
                name: "updates_available"@,
                labels: seq![("server"@, server@), ("type"@, "os"@)],
                value: os_updates as u64,
            },
            SampleView {
                kind: MetricKind::Gauge,
                name: "updates_available"@,
                labels: seq![("server"@, server@), ("type"@, "docker"@)],
                value: docker_updates as u64,
            },
        ],
{
    let mut os_labels: Vec<Label> = Vec::new();
    os_labels.push(label("server", server));
    os_labels.push(label("type", "os"));
    let a = sample(MetricKind::Gauge, "updates_available", os_labels, os_updates as u64);
    assert(a@.labels =~= seq![("server"@, server@), ("type"@, "os"@)]);
    let mut docker_labels: Vec<Label> = Vec::new();
    docker_labels.push(label("server", server));
    docker_labels.push(label("type", "docker"));
    let b = sample(MetricKind::Gauge, "updates_available", docker_labels, docker_updates as u64);
    assert(b@.labels =~= seq![("server"@, server@), ("type"@, "docker"@)]);
    let mut out: Vec<MetricSample> = Vec::new();
    out.push(a);
    out.push(b);
    assert(sample_views(out@) =~= seq![a@, b@]);
    out
}

/// The samples of a cleanup operation with the given labels.
pub open spec fn cleanup_samples(
    labels: Seq<(Seq<char>, Seq<char>)>,
    items_removed: usize,
    bytes_reclaimed: Option<u64>,
) -> Seq<SampleView> {
    let base = seq![
        SampleView {
            kind: MetricKind::Counter,
            name: "cleanup_operations_total"@,
            labels: labels,
            value: 1,
        },
        SampleView {
            kind: MetricKind::Counter,
            name: "cleanup_items_removed_total"@,
            labels: labels,
            value: items_removed as u64,
        },
    ];
    match bytes_reclaimed {
        Some(bytes) => base.push(
            SampleView {
                kind: MetricKind::Histogram,
                name: "cleanup_bytes_reclaimed"@,
                labels: labels,
                value: bytes,
            },
        ),
        None => base,
    }
}

fn cleanup_labels(server: &str, cleanup_type: &str) -> (r: Vec<Label>)
    ensures
        Seq::new(r@.len(), |i: int| (r@[i].key@, r@[i].value@)) == seq![
            ("server"@, server@),
            ("type"@, cleanup_type@),
        ],
{
    let mut labels: Vec<Label> = Vec::new();
    labels.push(label("server", server));
    labels.push(label("type", cleanup_type));
    assert(Seq::new(labels@.len(), |i: int| (labels@[i].key@, labels@[i].value@)) =~= seq![
        ("server"@, server@),
        ("type"@, cleanup_type@),
    ]);
    labels
}

/// Record cleanup operation results: one operation, the items it removed,
/// and the bytes it reclaimed where they are known.
pub fn record_cleanup_operation(
    server: &str,
    cleanup_type: &str,
    items_removed: usize,
    bytes_reclaimed: Option<u64>,
) -> (r: Vec<MetricSample>)
    ensures
        sample_views(r@) == cleanup_samples(
            seq![("server"@, server@), ("type"@, cleanup_type@)],
            items_removed,
            bytes_reclaimed,
        ),
{
    let a = sample(
        MetricKind::Counter,
        "cleanup_operations_total",
        cleanup_labels(server, cleanup_type),
        1,
    );
    let b = sample(
        MetricKind::Counter,
        "cleanup_items_removed_total",
        cleanup_labels(server, cleanup_type),
        items_removed as u64,
    );
    let mut out: Vec<MetricSample> = Vec::new();
    out.push(a);
    out.push(b);
    match bytes_reclaimed {
        Some(bytes) => {
            let c = sample(
                MetricKind::Histogram,
                "cleanup_bytes_reclaimed",
                cleanup_labels(server, cleanup_type),
                bytes,
            );
            out.push(c);
            assert(sample_views(out@) =~= seq![a@, b@, c@]);
        },
        None => {
            assert(sample_views(out@) =~= seq![a@, b@]);
        },
    }
    out
}

} // verus!
