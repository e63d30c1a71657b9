#[test]
fn test_bandwidth_to_mbps() {
    // Ookla returns bandwidth in bytes per second
    // 125000000 bytes/sec = 1000 Mbps
    let bandwidth = 125000000u64;
    let mbps = (bandwidth as f64) * 8.0 / 1_000_000.0;
    assert_eq!(mbps, 1000.0);
}

#[test]
fn test_python_download_to_mbps() {
    // Python speedtest-cli returns bits per second
    // 125000000 bps = 125 Mbps
    let download = 125000000.0f64;
    let mbps = download / 1_000_000.0;
    assert_eq!(mbps, 125.0);
}

#[test]
fn test_degraded_detection() {
    // Test logic for degraded speed detection
    let down_mbps = 50.0;
    let up_mbps = 10.0;
    let min_down = Some(100.0);
    let min_up = Some(20.0);

    let degraded = min_down.map(|min| down_mbps < min).unwrap_or(false)
        || min_up.map(|min| up_mbps < min).unwrap_or(false);

    assert!(degraded, "Should detect degraded speeds when below thresholds");
}

#[test]
fn test_no_degradation_when_above_thresholds() {
    let down_mbps = 150.0;
    let up_mbps = 25.0;
    let min_down = Some(100.0);
    let min_up = Some(20.0);

    let degraded = min_down.map(|min| down_mbps < min).unwrap_or(false)
        || min_up.map(|min| up_mbps < min).unwrap_or(false);

    assert!(!degraded, "Should not detect degradation when above thresholds");
}

#[test]
fn test_no_degradation_when_thresholds_not_set() {
    let down_mbps = 10.0;
    let up_mbps = 5.0;
    let min_down: Option<f64> = None;
    let min_up: Option<f64> = None;

    let degraded = min_down.map(|min| down_mbps < min).unwrap_or(false)
        || min_up.map(|min| up_mbps < min).unwrap_or(false);

    assert!(!degraded, "Should not detect degradation when thresholds not set");
}
