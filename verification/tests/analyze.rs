use fleetops::analyze::{
    age_in_days, analyze_build_cache, analyze_dangling_images, analyze_stopped_containers,
    analyze_unused_images, analyze_unused_networks, BuildCacheRecord, ContainerRecord,
    ImageRecord, NetworkRecord,
};
use fleetops::layers::{analyze_layers, LayeredImage};
use fleetops::sorting::{sort, Listed};
use fleetops::storage::{
    analyze_large_logs, analyze_volumes, log_threshold, parse_du_output, LogRecord, VolumeRecord,
};
use fleetops::cleanup::ImageInfo;

const DAY: i64 = 86400;
const NOW: i64 = 1_700_000_000;

fn some(s: &str) -> Option<String> {
    Some(s.to_string())
}

fn strings(v: &[&str]) -> Vec<String> {
    v.iter().map(|s| s.to_string()).collect()
}

fn container(id: &str, name: &str, state: &str, age_days: i64, size: i64) -> ContainerRecord {
    ContainerRecord {
        id: some(id),
        names: Some(vec![format!("/{}", name)]),
        image: some("img:1"),
        image_id: some("sha256:img"),
        state: some(state),
        status: some("Exited (0)"),
        created: Some(NOW - age_days * DAY),
        size_rw: Some(size),
        volume_names: vec![],
    }
}

#[test]
fn age_rounds_toward_zero() {
    assert_eq!(age_in_days(NOW, NOW - 30 * DAY), 30);
    assert_eq!(age_in_days(NOW, NOW - 30 * DAY + 1), 29);
    assert_eq!(age_in_days(NOW, NOW + 1), 0);
    assert_eq!(age_in_days(NOW, NOW + DAY), -1);
    assert_eq!(age_in_days(NOW, NOW + 2 * DAY - 1), -1);
    assert_eq!(age_in_days(i64::MAX, i64::MIN), ((i64::MAX as i128 - i64::MIN as i128) / 86400));
}

#[test]
fn stopped_containers_by_state_age_and_size() {
    let list = vec![
        container("a", "running-one", "running", 100, 5),
        container("b", "young", "exited", 29, 7),
        container("c", "small", "exited", 30, 10),
        container("d", "big", "created", 45, 300),
        container("e", "negative", "dead", 60, -4),
        container("f", "also-big", "exited", 31, 300),
    ];
    let stats = analyze_stopped_containers(&list, 30, NOW);
    assert_eq!(stats.count, 4);
    assert_eq!(stats.total_size_bytes, 610);
    let names: Vec<&str> = stats.items.iter().map(|i| i.name.as_str()).collect();
    assert_eq!(names, vec!["big", "also-big", "small", "negative"]);
    assert_eq!(stats.items[3].size_bytes, 0);
    assert_eq!(stats.items[0].status, "Exited (0)");
    assert_eq!(stats.items[0].image, "img:1");
    assert_eq!(stats.items[0].created_timestamp, NOW - 45 * DAY);
    assert_eq!(stats.items[0].stopped_timestamp, None);
    assert_eq!(analyze_stopped_containers(&list, 0, NOW).count, 5);
    assert_eq!(analyze_stopped_containers(&list, 1000, NOW).count, 0);
}

#[test]
fn stopped_container_defaults() {
    let bare = ContainerRecord {
        id: some("0123456789abcdef"),
        names: None,
        image: None,
        image_id: None,
        state: None,
        status: None,
        created: None,
        size_rw: None,
        volume_names: vec![],
    };
    let stats = analyze_stopped_containers(&vec![bare], 30, NOW);
    assert_eq!(stats.count, 1);
    let item = &stats.items[0];
    assert_eq!(item.name, "0123456789ab");
    assert_eq!(item.image, "unknown");
    assert_eq!(item.status, "");
    assert_eq!(item.size_bytes, 0);
    assert_eq!(item.created_timestamp, 0);
    let mut stated = container("x", "n", "paused", 40, 1);
    stated.status = None;
    assert_eq!(analyze_stopped_containers(&vec![stated], 30, NOW).items[0].status, "paused");
}

fn image(id: &str, tags: &[&str], size: i64, age_days: i64) -> ImageRecord {
    ImageRecord { id: id.to_string(), repo_tags: strings(tags), size, created: NOW - age_days * DAY }
}

#[test]
fn dangling_images_are_taken_as_listed() {
    let stats = analyze_dangling_images(&vec![image("a", &[], 10, 1), image("b", &["<none>:<none>"], -5, 2), image("c", &[], 30, 3)]);
    assert_eq!(stats.count, 3);
    assert_eq!(stats.total_size_bytes, 40);
    let ids: Vec<&str> = stats.items.iter().map(|i| i.image_id.as_str()).collect();
    assert_eq!(ids, vec!["a", "b", "c"]);
    assert_eq!(stats.items[0].repository, "<none>");
    assert_eq!(stats.items[0].tag, "<none>");
    assert_eq!(stats.items[1].size_bytes, 0);
    assert_eq!(stats.items[2].created_timestamp, NOW - 3 * DAY);
    assert_eq!(analyze_dangling_images(&vec![image("a", &[], i64::MAX, 1), image("b", &[], i64::MAX, 1), image("c", &[], i64::MAX, 1)]).total_size_bytes, u64::MAX);
}

#[test]
fn unused_images() {
    let images = vec![
        image("sha256:1", &["nginx:1.25"], 100, 100),
        image("sha256:2", &["redis:7", "redis:latest"], 200, 100),
        image("sha256:3", &["<none>:<none>"], 300, 100),
        image("sha256:4", &[], 400, 100),
        image("sha256:5", &["young:1"], 500, 89),
        image("sha256:6", &["reg:5000/app:v1"], 600, 90),
        image("sha256:7", &["plain"], 700, 365),
        image("sha256:8", &["used-by-id:1"], 800, 365),
    ];
    let mut by_tag = container("c1", "r", "exited", 1, 0);
    by_tag.image = some("redis:latest");
    by_tag.image_id = None;
    let mut by_id = container("c2", "u", "running", 1, 0);
    by_id.image = None;
    by_id.image_id = some("sha256:8");
    let stats = analyze_unused_images(&images, &vec![by_tag, by_id], 90, NOW);
    assert_eq!(stats.count, 3);
    assert_eq!(stats.total_size_bytes, 1400);
    let shown: Vec<(String, String)> = stats.items.iter().map(|i| (i.repository.clone(), i.tag.clone())).collect();
    assert_eq!(
        shown,
        vec![
            ("nginx".to_string(), "1.25".to_string()),
            ("reg".to_string(), "5000/app:v1".to_string()),
            ("plain".to_string(), "latest".to_string())
        ]
    );
    assert_eq!(stats.items[0].image_id, "sha256:1");
    assert_eq!(analyze_unused_images(&images, &vec![], 90, NOW).count, 5);
    assert_eq!(analyze_unused_images(&images, &vec![], i64::MAX, NOW).count, 0);
}

#[test]
fn unused_networks() {
    let net = |name: &str, attached: usize| NetworkRecord {
        id: some("id"),
        name: some(name),
        driver: some("overlay"),
        created: some("2024-01-15T10:30:45Z"),
        attached,
    };
    let mut bare = net("x", 0);
    bare.id = None;
    bare.driver = None;
    bare.created = some("yesterday");
    let mut nameless = net("x", 0);
    nameless.name = None;
    nameless.created = None;
    let stats = analyze_unused_networks(&vec![net("bridge", 0), net("host", 0), net("none", 0), net("busy", 2), net("old", 0), bare, nameless, net("Bridge", 0)]);
    assert_eq!(stats.count, 4);
    let names: Vec<&str> = stats.items.iter().map(|i| i.name.as_str()).collect();
    assert_eq!(names, vec!["old", "x", "", "Bridge"]);
    assert_eq!(stats.items[0].created_timestamp, 1705314645);
    assert_eq!(stats.items[0].driver, "overlay");
    assert_eq!(stats.items[1].created_timestamp, 0);
    assert_eq!(stats.items[1].driver, "unknown");
    assert_eq!(stats.items[1].id, "");
    assert_eq!(stats.items[2].created_timestamp, 0);
}

#[test]
fn build_cache() {
    let rec = |id: &str, size: Option<i64>, in_use: Option<bool>| BuildCacheRecord {
        id: some(id),
        cache_type: some("regular"),
        size,
        created_at: some("2024-01-15T10:30:45+01:00"),
        last_used_at: some("1970-01-01T00:01:00Z"),
        in_use,
        shared: Some(true),
    };
    let mut bare = rec("d", None, None);
    bare.id = None;
    bare.cache_type = None;
    bare.created_at = None;
    bare.last_used_at = some("never");
    bare.shared = None;
    let stats = analyze_build_cache(&vec![rec("a", Some(10), Some(true)), rec("b", Some(30), Some(false)), rec("c", Some(-7), None), bare, rec("e", Some(30), None)]);
    assert_eq!(stats.total_size_bytes, 70);
    assert_eq!(stats.reclaimable_bytes, 60);
    let ids: Vec<&str> = stats.items.iter().map(|i| i.id.as_str()).collect();
    assert_eq!(ids, vec!["b", "e", "a", "c", ""]);
    assert_eq!(stats.items[0].created_timestamp, 1705311045);
    assert_eq!(stats.items[0].last_used_timestamp, Some(60));
    assert!(stats.items[0].shared);
    assert!(!stats.items[0].in_use);
    assert!(stats.items[2].in_use);
    assert_eq!(stats.items[4].cache_type, "unknown");
    assert_eq!(stats.items[4].last_used_timestamp, None);
    assert_eq!(stats.items[4].created_timestamp, 0);
    assert!(!stats.items[4].shared);
    assert_eq!(analyze_build_cache(&vec![]).items.len(), 0);
}

#[test]
fn log_thresholds() {
    assert_eq!(log_threshold(None), 100 * 1024 * 1024);
    assert_eq!(log_threshold(Some("100M")), 100 * 1024 * 1024);
    assert_eq!(log_threshold(Some("1g")), 1024 * 1024 * 1024);
    assert_eq!(log_threshold(Some("500")), 500);
    assert_eq!(log_threshold(Some("lots")), 100 * 1024 * 1024);
    assert_eq!(log_threshold(Some("99999999999999999999G")), 100 * 1024 * 1024);
}

#[test]
fn large_logs() {
    let rec = |id: &str, path: &str, size: Option<u64>, keys: Option<&[&str]>| LogRecord {
        id: some(id),
        names: Some(vec![format!("/{}", id)]),
        log_config_keys: keys.map(strings),
        log_path: some(path),
        log_size: size,
    };
    let mut no_path = rec("p", "", Some(900), None);
    no_path.log_path = None;
    let stats = analyze_large_logs(
        &vec![
            rec("small", "/l/small", Some(99), None),
            rec("exact", "/l/exact", Some(100), Some(&["max-file"])),
            rec("big", "/l/big", Some(5000), Some(&["mode"])),
            rec("blank", "", Some(7000), None),
            rec("unmeasured", "/l/u", None, None),
            no_path,
            rec("rot", "/l/rot", Some(5000), Some(&["mode", "max-size"])),
        ],
        100,
    );
    assert_eq!(stats.total_size_bytes, 99 + 100 + 5000 + 5000);
    assert_eq!(stats.containers_over_threshold, 3);
    let got: Vec<(&str, u64, bool)> = stats.items.iter().map(|i| (i.container_name.as_str(), i.log_size_bytes, i.has_rotation)).collect();
    assert_eq!(got, vec![("big", 5000, false), ("rot", 5000, true), ("exact", 100, true)]);
    assert_eq!(stats.items[0].container_id, "big");
}

#[test]
fn du_output() {
    assert_eq!(parse_du_output("12345\t/var/lib/docker/volumes/x\n"), 12345);
    assert_eq!(parse_du_output(""), 0);
    assert_eq!(parse_du_output("  \n"), 0);
    assert_eq!(parse_du_output("4.0K\t/x"), 0);
    assert_eq!(parse_du_output("99999999999999999999 /x"), 0);
}

#[test]
fn volumes() {
    let vol = |name: &str, size: u64| VolumeRecord {
        name: name.to_string(),
        driver: "local".to_string(),
        mount_point: format!("/v/{}", name),
        created_at: some("2024-01-15T10:30:45Z"),
        size_bytes: size,
    };
    let mut db = container("c1", "db", "running", 1, 0);
    db.volume_names = strings(&["data", "tmp", "data"]);
    let mut backup = container("c2", "backup", "exited", 1, 0);
    backup.volume_names = strings(&["data"]);
    let mut nameless = container("c3", "x", "exited", 1, 0);
    nameless.names = None;
    nameless.volume_names = strings(&["tmp"]);
    let mut volumes: Vec<VolumeRecord> = (0..12).map(|i| vol(&format!("v{}", i), i)).collect();
    volumes.push(vol("data", 500));
    volumes.push(vol("tmp", 11));
    let stats = analyze_volumes(&volumes, &vec![db, backup, nameless]);
    assert_eq!(stats.count, 14);
    assert_eq!(stats.total_size_bytes, 66 + 511);
    assert_eq!(stats.items.len(), 10);
    let names: Vec<&str> = stats.items.iter().map(|i| i.name.as_str()).collect();
    assert_eq!(names, vec!["data", "v11", "tmp", "v10", "v9", "v8", "v7", "v6", "v5", "v4"]);
    assert_eq!(stats.items[0].containers_using, strings(&["db", "db", "backup"]));
    assert_eq!(stats.items[2].containers_using, strings(&["db", ""]));
    assert!(stats.items[1].containers_using.is_empty());
    assert_eq!(stats.items[0].created_timestamp, 1705314645);
    assert_eq!(stats.items[0].mount_point, "/v/data");
}

fn layered(id: &str, tags: &[&str], size: i64, layers: Option<&[&str]>) -> LayeredImage {
    LayeredImage { id: id.to_string(), repo_tags: strings(tags), size, layers: layers.map(strings) }
}

#[test]
fn layer_analysis_without_images_that_count() {
    for images in [vec![], vec![layered("sha256:x", &[], 100, Some(&["sha256:aaaaaaaaaaaaaaaa"])), layered("y", &["<none>:<none>", "ok:1"], 5, Some(&["l"]))]] {
        let a = analyze_layers(&images);
        assert!(a.shared_layers.is_empty());
        assert_eq!(a.efficiency_percent(), 0);
        assert_eq!(a.total_shared_bytes, 0);
        assert_eq!(a.total_unique_bytes, 0);
        assert_eq!(a.saved_bytes, 0);
        assert_eq!(a.theoretical_bytes, 1);
    }
}

#[test]
fn layer_analysis() {
    let base = "sha256:00000000000011111111";
    let mid = "sha256:aaaaaaaaaaaabbbbbbbb";
    let images = vec![
        layered("1", &["a:1"], 300, Some(&[base, mid, "sha256:a-only-layer-0000"])),
        layered("2", &["b:1"], 400, Some(&[base, mid])),
        layered("3", &["c:1"], 90, Some(&[base])),
        layered("4", &["d:1"], 1000, None),
        layered("5", &["<none>:<none>"], 5000, Some(&[base])),
        layered("6", &["e:1"], -50, Some(&["short"])),
    ];
    let a = analyze_layers(&images);
    assert_eq!(a.theoretical_bytes, 300 + 400 + 90 + 1000 - 50);
    assert_eq!(a.shared_layers.len(), 2);
    assert_eq!(a.shared_layers[0].layer_id, "aaaaaaaaaaaa");
    assert_eq!(a.shared_layers[0].size_bytes, 200);
    assert_eq!(a.shared_layers[0].shared_by_count, 2);
    assert_eq!(a.shared_layers[0].images_using, strings(&["a:1", "b:1"]));
    assert_eq!(a.shared_layers[1].layer_id, "000000000000");
    assert_eq!(a.shared_layers[1].size_bytes, 90);
    assert_eq!(a.shared_layers[1].shared_by_count, 3);
    assert_eq!(a.total_shared_bytes, 290);
    assert_eq!(a.total_unique_bytes, 100);
    assert_eq!(a.saved_bytes, 1740 - 390);
    assert_eq!(a.efficiency_percent(), 77);
}

#[test]
fn layer_analysis_breaks_ties_by_share_count_and_never_goes_negative() {
    let images = vec![
        layered("1", &["a:1"], 10, Some(&["sha256:abcabcabcabc1", "sha256:defdefdefdef2"])),
        layered("2", &["b:1"], 10, Some(&["sha256:abcabcabcabc1", "sha256:defdefdefdef2"])),
        layered("3", &["c:1"], 5, Some(&["sha256:defdefdefdef2"])),
        layered("4", &["d:1"], 5, Some(&["sha256:0123456789ab3", "sha256:0123456789ab3"])),
    ];
    let a = analyze_layers(&images);
    let ids: Vec<(&str, u64, usize)> = a.shared_layers.iter().map(|l| (l.layer_id.as_str(), l.size_bytes, l.shared_by_count)).collect();
    assert_eq!(ids, vec![("defdefdefdef", 5, 3), ("abcabcabcabc", 5, 2), ("0123456789ab", 2, 2)]);
    assert_eq!(a.shared_layers[2].images_using, strings(&["d:1", "d:1"]));
    let heavy = analyze_layers(&vec![layered("1", &["a:1"], -10, Some(&["l1"])), layered("2", &["b:1"], 4, Some(&["l2"]))]);
    assert_eq!(heavy.theoretical_bytes, 1);
    assert_eq!(heavy.total_unique_bytes, 4);
    assert_eq!(heavy.saved_bytes, 0);
    assert_eq!(heavy.efficiency_percent(), 0);
}

#[test]
fn sorting_is_stable_and_largest_first() {
    let item = |size: u64, id: &str| ImageInfo { repository: String::new(), tag: String::new(), image_id: id.to_string(), size_bytes: size, created_timestamp: 0 };
    let sorted = sort(vec![item(1, "a"), item(3, "b"), item(2, "c"), item(3, "d"), item(1, "e"), item(9, "f")]);
    let ids: Vec<&str> = sorted.iter().map(|i| i.image_id.as_str()).collect();
    assert_eq!(ids, vec!["f", "b", "d", "c", "a", "e"]);
    assert!(item(2, "x").may_precede(&item(2, "y")));
    assert!(!item(1, "x").may_precede(&item(2, "y")));
    assert!(sort(Vec::<ImageInfo>::new()).is_empty());
}
