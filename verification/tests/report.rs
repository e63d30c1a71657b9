use fleetops::cleanup::{
    BuildCacheItem, CleanupReport, CleanupResult, ContainerInfo, ImageInfo, LogInfo, SharedLayer,
    VolumeInfo, NetworkInfo,
};
use fleetops::notify::WebhookLink;
use fleetops::profiles::CleanupProfile;
use fleetops::report::{cleanup_notification, safe_cleanup_line, unused_images_line};

const MB: u64 = 1024 * 1024;

fn image(repo: &str, tag: &str, id: &str, size: u64) -> ImageInfo {
    ImageInfo {
        repository: repo.to_string(),
        tag: tag.to_string(),
        image_id: id.to_string(),
        size_bytes: size,
        created_timestamp: 0,
    }
}

fn link() -> Option<WebhookLink> {
    Some(WebhookLink { base_url: "http://hook:8080".to_string(), secret: "s e".to_string() })
}

fn cache(in_use: bool) -> BuildCacheItem {
    BuildCacheItem {
        id: "c".to_string(),
        cache_type: "regular".to_string(),
        size_bytes: 1,
        created_timestamp: 0,
        last_used_timestamp: None,
        in_use,
        shared: false,
    }
}

#[test]
fn empty_analysis() {
    let r = CleanupReport::new("x".to_string());
    let n = cleanup_notification("srv", &r, &vec![], &link());
    assert_eq!(n.title, "srv - Docker Cleanup: Analysis");
    assert_eq!(n.body, "=== Analysis Report ===\nTotal reclaimable: 0B\n");
    assert!(n.actions.is_empty());
}

#[test]
fn full_analysis() {
    let mut r = CleanupReport::new("x".to_string());
    r.dangling_images.count = 7;
    r.dangling_images.total_size_bytes = 700 * MB;
    r.dangling_images.items = (0..7).map(|i| image("<none>", "<none>", &format!("sha256:{}", i), (10 - i) * MB)).collect();
    r.unused_images.count = 1;
    r.unused_images.total_size_bytes = 2048 * MB;
    r.unused_images.items = vec![image("nginx", "1.25", "sha256:n", 2048 * MB)];
    r.unused_networks.count = 1;
    r.unused_networks.items = vec![NetworkInfo { id: "n1".to_string(), name: "old_net".to_string(), driver: "bridge".to_string(), created_timestamp: 0 }];
    r.build_cache.total_size_bytes = 3 * MB;
    r.build_cache.reclaimable_bytes = 2 * MB;
    r.build_cache.items = vec![cache(true), cache(false), cache(false)];
    r.stopped_containers.count = 1;
    r.stopped_containers.total_size_bytes = 512;
    r.stopped_containers.items = vec![ContainerInfo {
        id: "c1".to_string(),
        name: "old".to_string(),
        image: "img".to_string(),
        size_bytes: 512,
        created_timestamp: 0,
        stopped_timestamp: None,
        exit_code: None,
        status: "Exited (0) 5 weeks ago".to_string(),
    }];
    r.layer_analysis.shared_layers = vec![
        SharedLayer { layer_id: "aaaaaaaaaaaa".to_string(), size_bytes: 5 * MB, shared_by_count: 2, images_using: vec!["a:1".to_string(), "b:1".to_string()], created_timestamp: 0 },
        SharedLayer { layer_id: "bbbbbbbbbbbb".to_string(), size_bytes: 4 * MB, shared_by_count: 4, images_using: vec!["a:1".to_string(), "b:1".to_string(), "c:1".to_string(), "d:1".to_string()], created_timestamp: 0 },
    ];
    r.layer_analysis.total_shared_bytes = 9 * MB;
    r.layer_analysis.total_unique_bytes = 20 * MB;
    r.layer_analysis.theoretical_bytes = 40 * MB;
    r.layer_analysis.saved_bytes = 11 * MB;
    r.large_logs.containers_over_threshold = 2;
    r.large_logs.total_size_bytes = 300 * MB;
    r.large_logs.items = vec![
        LogInfo { container_name: "web".to_string(), container_id: "w".to_string(), log_size_bytes: 200 * MB, has_rotation: false },
        LogInfo { container_name: "db".to_string(), container_id: "d".to_string(), log_size_bytes: 100 * MB, has_rotation: true },
    ];
    r.volumes.count = 2;
    r.volumes.total_size_bytes = 1536 * MB;
    r.volumes.items = vec![
        VolumeInfo { name: "data".to_string(), driver: "local".to_string(), mount_point: "/d".to_string(), size_bytes: 1536 * MB, created_timestamp: 0, containers_using: vec!["db".to_string(), "backup".to_string()] },
        VolumeInfo { name: "tmp".to_string(), driver: "local".to_string(), mount_point: "/t".to_string(), size_bytes: 0, created_timestamp: 0, containers_using: vec![] },
    ];
    r.calculate_reclaimable();
    let n = cleanup_notification("Cloud VM1", &r, &vec![], &link());
    let expected = "=== Analysis Report ===
Total reclaimable: 703MB

Dangling Images: 7 (700MB)
  • sha256:0 (10MB)
  • sha256:1 (9MB)
  • sha256:2 (8MB)
  • sha256:3 (7MB)
  • sha256:4 (6MB)

Unused Images: 1 (2.00GB)
  • nginx:1.25 (2.00GB)

Unused Networks: 1
  • old_net (bridge)

Build Cache: 3MB total (2MB reclaimable)
  • 2 unused cache items
  • 1 in-use cache items

Stopped Containers: 1 (512B)
  • old [Exited (0) 5 weeks ago] (512B)

Layer Analysis: 2 shared layers (27% efficiency)
  • Shared: 9MB | Unique: 20MB
  • aaaaaaaaaaaa (5MB) - shared by 2 images
    a:1, b:1
  • bbbbbbbbbbbb (4MB) - shared by 4 images
    a:1, b:1, and 2 more

Large Logs: 2 containers (total 300MB)
  • web (200MB, NO ROTATION)
  • db (100MB, rotated)

Volumes: 2 (total 1.50GB)
  • data (1.50GB, used by db, backup)
  • tmp (0B, UNUSED)
";
    assert_eq!(n.body, expected);
    assert_eq!(n.title, "Cloud VM1 - Docker Cleanup: Analysis");
    assert_eq!(n.actions.len(), 2);
    assert_eq!(n.actions[0].label, "Safe Cleanup");
    assert_eq!(
        n.actions[0].url,
        Some("http://hook:8080/webhook/cleanup/safe?server=Cloud%20VM1&token=s%20e".to_string())
    );
    assert_eq!(n.actions[0].method, Some("POST".to_string()));
    assert_eq!(n.actions[1].label, "Prune Unused Images");
    assert_eq!(
        n.actions[1].url,
        Some("http://hook:8080/webhook/cleanup/images/prune-unused?server=Cloud%20VM1&token=s%20e".to_string())
    );
}

#[test]
fn buttons_need_reclaimable_content_a_secret_and_no_execution() {
    let mut r = CleanupReport::new("x".to_string());
    r.dangling_images.count = 1;
    r.unused_images.count = 1;
    r.total_reclaimable_bytes = 0;
    assert!(cleanup_notification("s", &r, &vec![], &link()).actions.is_empty());
    r.total_reclaimable_bytes = 1;
    assert_eq!(cleanup_notification("s", &r, &vec![], &link()).actions.len(), 2);
    assert!(cleanup_notification("s", &r, &vec![], &None).actions.is_empty());
    let unset = Some(WebhookLink { base_url: "http://hook:8080".to_string(), secret: String::new() });
    assert!(cleanup_notification("s", &r, &vec![], &unset).actions.is_empty());
    assert!(cleanup_notification("s", &r, &vec!["done".to_string()], &link()).actions.is_empty());
    r.dangling_images.count = 0;
    let only = cleanup_notification("s", &r, &vec![], &link());
    assert_eq!(only.actions.len(), 1);
    assert_eq!(only.actions[0].label, "Prune Unused Images");
    r.unused_images.count = 0;
    r.unused_networks.count = 3;
    let safe = cleanup_notification("s", &r, &vec![], &link());
    assert_eq!(safe.actions.len(), 1);
    assert_eq!(safe.actions[0].label, "Safe Cleanup");
}

#[test]
fn executed_cleanup_comes_first() {
    let r = CleanupReport::new("x".to_string());
    let n = cleanup_notification("srv", &r, &vec!["line one".to_string(), "line two".to_string()], &None);
    assert_eq!(n.title, "srv - Docker Cleanup: Complete");
    assert_eq!(
        n.body,
        "=== Cleanup Actions ===\nline one\nline two\n\n=== Analysis Report ===\nTotal reclaimable: 0B\n"
    );
}

#[test]
fn layer_names_up_to_three_are_listed_whole() {
    let mut r = CleanupReport::new("x".to_string());
    let names = |n: usize| (0..n).map(|i| format!("i{}", i)).collect::<Vec<_>>();
    r.layer_analysis.shared_layers = (0..5)
        .map(|i| SharedLayer { layer_id: format!("l{}", i), size_bytes: 1, shared_by_count: i + 2, images_using: names(i + 2), created_timestamp: 0 })
        .collect();
    let n = cleanup_notification("s", &r, &vec![], &None);
    assert_eq!(
        n.body,
        "=== Analysis Report ===\nTotal reclaimable: 0B\n\nLayer Analysis: 5 shared layers (0% efficiency)\n  • Shared: 0B | Unique: 0B\n  • l0 (1B) - shared by 2 images\n    i0, i1\n  • l1 (1B) - shared by 3 images\n    i0, i1, i2\n  • l2 (1B) - shared by 4 images\n    i0, i1, and 2 more\n"
    );
}

#[test]
fn execution_summary_lines() {
    let r = CleanupResult {
        dangling_images_removed: 3,
        unused_images_removed: 2,
        networks_removed: 1,
        build_cache_reclaimed: 5 * MB,
        stopped_containers_removed: 4,
        space_reclaimed_bytes: 1536 * MB,
        errors: vec![],
    };
    assert_eq!(
        safe_cleanup_line(CleanupProfile::Moderate, &r),
        "Moderate cleanup: 3 dangling images + 1 unused networks + 5MB build cache + 4 stopped containers + 2 unused images removed | 1.50GB reclaimed"
    );
    assert_eq!(
        safe_cleanup_line(CleanupProfile::Conservative, &CleanupResult::default()),
        "Conservative cleanup:  removed | 0B reclaimed"
    );
    assert_eq!(unused_images_line(&r), "Unused images: 2 removed (1.50GB)");
}

#[test]
fn execution_is_for_the_local_server_only() {
    use_refusal();
}

fn use_refusal() {
    assert_eq!(fleetops::report::execution_refusal("web", true, true, true), None);
    assert_eq!(fleetops::report::execution_refusal("web", false, false, false), None);
    assert_eq!(
        fleetops::report::execution_refusal("web", false, true, false),
        Some("Cleanup execution not supported for remote servers. Analysis only for web".to_string())
    );
    assert!(fleetops::report::execution_refusal("web", false, false, true).is_some());
    assert_eq!(
        fleetops::report::failure_notification("web", "no docker"),
        ("web - Docker Cleanup: Error".to_string(), "❌ Error: no docker".to_string())
    );
    assert_eq!(
        fleetops::cleanup_run::api_prune_stats(Some(3), Some(-5)),
        fleetops::cleanup::PruneStats { count: 3, space_reclaimed: 0 }
    );
    assert_eq!(
        fleetops::cleanup_run::api_prune_stats(None, Some(7)),
        fleetops::cleanup::PruneStats { count: 0, space_reclaimed: 7 }
    );
    assert_eq!(
        fleetops::cleanup_run::api_prune_stats(None, None),
        fleetops::cleanup::PruneStats { count: 0, space_reclaimed: 0 }
    );
}
