use fleetops::cleanup::{CleanupReport, CleanupResult, ImageInfo, LayerAnalysis, PruneStats};

fn image(repository: &str, tag: &str, id: &str) -> ImageInfo {
    ImageInfo {
        repository: repository.to_string(),
        tag: tag.to_string(),
        image_id: id.to_string(),
        size_bytes: 1,
        created_timestamp: 0,
    }
}

#[test]
fn display_name_of_tagged_and_untagged_images() {
    assert_eq!(image("nginx", "latest", "sha256:0123456789abcdef").display_name(), "nginx:latest");
    assert_eq!(image("<none>", "<none>", "sha256:0123456789abcdef").display_name(), "<none> (sha256:01234)");
    assert_eq!(image("", "x", "0123456789ab").display_name(), "<none> (0123456789ab)");
    assert_eq!(image("", "x", "short").display_name(), "<none> (short)");
}

#[test]
fn report_total_is_the_sum_of_the_three_safe_classes() {
    let mut r = CleanupReport::new("srv".to_string());
    assert_eq!(r.server, "srv");
    assert_eq!(r.total_reclaimable_bytes, 0);
    r.dangling_images.total_size_bytes = 10;
    r.build_cache.total_size_bytes = 200;
    r.stopped_containers.total_size_bytes = 3000;
    r.unused_images.total_size_bytes = 40000;
    r.large_logs.total_size_bytes = 500000;
    r.volumes.total_size_bytes = 6000000;
    r.calculate_reclaimable();
    assert_eq!(r.total_reclaimable_bytes, 3210);
    assert_eq!(r.unused_images.total_size_bytes, 40000);
}

#[test]
fn report_total_stops_at_the_largest_count() {
    let mut r = CleanupReport::new("srv".to_string());
    r.dangling_images.total_size_bytes = u64::MAX - 1;
    r.build_cache.total_size_bytes = 1;
    r.stopped_containers.total_size_bytes = 0;
    r.calculate_reclaimable();
    assert_eq!(r.total_reclaimable_bytes, u64::MAX);
    r.stopped_containers.total_size_bytes = 5;
    r.calculate_reclaimable();
    assert_eq!(r.total_reclaimable_bytes, u64::MAX);
}

#[test]
fn summary_of_a_run_that_did_nothing() {
    assert_eq!(CleanupResult::default().format_summary(), "No cleanup performed");
}

#[test]
fn summary_lists_each_figure_that_is_not_zero() {
    let r = CleanupResult {
        dangling_images_removed: 3,
        unused_images_removed: 2,
        networks_removed: 1,
        build_cache_reclaimed: 5 * 1024 * 1024,
        stopped_containers_removed: 4,
        space_reclaimed_bytes: 1536 * 1024 * 1024,
        errors: vec!["a".to_string(), "b".to_string()],
    };
    assert_eq!(
        r.format_summary(),
        "Removed 3 dangling images, Removed 2 unused images, Removed 1 unused networks, Cleared 5MB build cache, Removed 4 stopped containers, Reclaimed 1.50GB, 2 errors"
    );
    let only = CleanupResult { networks_removed: 12, ..CleanupResult::default() };
    assert_eq!(only.format_summary(), "Removed 12 unused networks");
    let errs = CleanupResult { errors: vec!["x".to_string()], ..CleanupResult::default() };
    assert_eq!(errs.format_summary(), "1 errors");
}

#[test]
fn efficiency_in_whole_percents() {
    let mut a = LayerAnalysis::default();
    assert_eq!(a.efficiency_percent(), 0);
    a.theoretical_bytes = 300;
    a.saved_bytes = 100;
    assert_eq!(a.efficiency_percent(), 33);
    a.saved_bytes = 300;
    assert_eq!(a.efficiency_percent(), 100);
    a.saved_bytes = 0;
    assert_eq!(a.efficiency_percent(), 0);
}

#[test]
fn prune_stats_default_is_zero() {
    assert_eq!(PruneStats::default(), PruneStats { count: 0, space_reclaimed: 0 });
}
