use fleetops::metrics::{
    record_cleanup_operation, record_notification_sent, record_server_operation,
    record_updates_available, Label, MetricKind, MetricSample,
};

fn labels(pairs: &[(&'static str, &str)]) -> Vec<Label> {
    pairs.iter().map(|(k, v)| Label { key: k, value: v.to_string() }).collect()
}

#[test]
fn test_record_notification() {
    // Metrics recording should not panic
    record_notification_sent("test_service", "gotify", true);
    record_notification_sent("test_service", "ntfy", false);
}

#[test]
fn test_record_server_operation() {
    record_server_operation("updatectl", "server1", "os_update", true);
}

#[test]
fn test_record_updates_available() {
    record_updates_available("server1", 5, 3);
}

#[test]
fn test_record_cleanup() {
    record_cleanup_operation("server1", "docker_images", 10, Some(1024 * 1024 * 500));
}

#[test]
fn notification_samples() {
    assert_eq!(
        record_notification_sent("svc", "ntfy", false),
        vec![MetricSample {
            kind: MetricKind::Counter,
            name: "notifications_sent_total",
            labels: labels(&[("service", "svc"), ("backend", "ntfy"), ("status", "failure")]),
            value: 1,
        }]
    );
    assert_eq!(record_notification_sent("svc", "gotify", true)[0].labels[2].value, "success");
}

#[test]
fn server_operation_samples() {
    assert_eq!(
        record_server_operation("updatectl", "server1", "os_update", true),
        vec![MetricSample {
            kind: MetricKind::Counter,
            name: "server_operations_total",
            labels: labels(&[
                ("service", "updatectl"),
                ("server", "server1"),
                ("operation", "os_update"),
                ("status", "success")
            ]),
            value: 1,
        }]
    );
}

#[test]
fn update_samples() {
    assert_eq!(
        record_updates_available("server1", 5, 3),
        vec![
            MetricSample {
                kind: MetricKind::Gauge,
                name: "updates_available",
                labels: labels(&[("server", "server1"), ("type", "os")]),
                value: 5,
            },
            MetricSample {
                kind: MetricKind::Gauge,
                name: "updates_available",
                labels: labels(&[("server", "server1"), ("type", "docker")]),
                value: 3,
            },
        ]
    );
}

#[test]
fn cleanup_samples_with_and_without_bytes() {
    let with = record_cleanup_operation("server1", "docker_images", 10, Some(524288000));
    assert_eq!(with.len(), 3);
    assert_eq!(with[0].name, "cleanup_operations_total");
    assert_eq!(with[0].value, 1);
    assert_eq!(with[1].name, "cleanup_items_removed_total");
    assert_eq!(with[1].value, 10);
    assert_eq!(with[2].kind, MetricKind::Histogram);
    assert_eq!(with[2].name, "cleanup_bytes_reclaimed");
    assert_eq!(with[2].value, 524288000);
    assert_eq!(with[2].labels, labels(&[("server", "server1"), ("type", "docker_images")]));
    let without = record_cleanup_operation("server1", "docker_images", 0, None);
    assert_eq!(without.len(), 2);
    assert_eq!(without[1].value, 0);
}
